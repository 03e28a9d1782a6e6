//! Strings as sequences of characters: the few operations on them that the stored data needs.
use vstd::prelude::*;


verus! {

/// The character of a decimal digit.
pub open spec fn digit(n: nat) -> char {
    ('0' as nat + n) as char
}

/// A natural number in decimal, without leading zeros.
pub open spec fn decimal(n: nat) -> Seq<char>
    decreases n,
{
    if n < 10 {
        seq![digit(n)]
    } else {
        decimal(n / 10).push(digit(n % 10))
    }
}

/// An integer in decimal, with a minus sign where it is negative.
pub open spec fn signed_decimal(n: int) -> Seq<char> {
    if n < 0 {
        seq!['-'] + decimal((-n) as nat)
    } else {
        decimal(n as nat)
    }
}

/// `String::push`: the character is appended.
#[verifier::external_body]
fn push_char(s: &mut String, c: char)
    ensures
        final(s)@ == old(s)@.push(c),
{
    s.push(c);
}

fn digit_char(n: u64) -> (c: char)
    requires
        n < 10,
    ensures
        c == digit(n as nat),
{
    match n {
        0 => '0',
        1 => '1',
        2 => '2',
        3 => '3',
        4 => '4',
        5 => '5',
        6 => '6',
        7 => '7',
        8 => '8',
        _ => '9',
    }
}

/// The decimal text of a natural number.
pub fn decimal_text(n: u64) -> (s: String)
    ensures
        s@ == decimal(n as nat),
    decreases n,
{
    if n < 10 {
        let mut s = String::new();
        push_char(&mut s, digit_char(n));
        assert(s@ =~= seq![digit(n as nat)]);
        s
    } else {
        let mut s = decimal_text(n / 10);
        push_char(&mut s, digit_char(n % 10));
        s
    }
}

/// The decimal text of an integer.
pub fn signed_decimal_text(n: i64) -> (s: String)
    ensures
        s@ == signed_decimal(n as int),
{
    if n < 0 {
        let mut s = String::new();
        push_char(&mut s, '-');
        let magnitude: u64 = if n == i64::MIN {
            0x8000_0000_0000_0000
        } else {
            (-n) as u64
        };
        let digits = decimal_text(magnitude);
        let r = s.concat(digits.as_str());
        assert(r@ =~= seq!['-'] + decimal((-n) as nat));
        r
    } else {
        decimal_text(n as u64)
    }
}

/// The concatenation of three strings.
pub fn join3(a: &str, b: &str, c: &str) -> (s: String)
    ensures
        s@ == a@ + b@ + c@,
{
    a.to_string().concat(b).concat(c)
}

/// The characters of a string, in order.
pub fn chars_of(s: &str) -> (r: Vec<char>)
    ensures
        r@ == s@,
{
    let mut r: Vec<char> = Vec::new();
    for c in iter: s.chars()
        invariant
            iter.seq() == s@,
            r@ == s@.take(iter.index()),
    {
        r.push(c);
        assert(s@.take(iter.index() + 1) =~= s@.take(iter.index()).push(c));
    }
    assert(s@.take(s@.len() as int) =~= s@);
    r
}

/// The characters of a vector from `from` up to, not including, `to`, as a string.
pub fn text_of(chars: &Vec<char>, from: usize, to: usize) -> (s: String)
    requires
        from <= to <= chars@.len(),
    ensures
        s@ == chars@.subrange(from as int, to as int),
{
    let mut s = String::new();
    let mut i: usize = from;
    assert(s@ =~= chars@.subrange(from as int, from as int));
    while i < to
        invariant
            from <= i <= to <= chars@.len(),
            s@ == chars@.subrange(from as int, i as int),
        decreases to - i,
    {
        push_char(&mut s, chars[i]);
        i += 1;
        assert(s@ =~= chars@.subrange(from as int, i as int));
    }
    s
}

/// Whether two strings hold the same characters.
pub fn same(a: &str, b: &str) -> (r: bool)
    ensures
        r == (a@ == b@),
{
    a.to_string() == b.to_string()
}

/// `text` from the character `start` up to, not including, the character `end`; where the range
/// reaches past the text, what there is of it.
pub open spec fn char_slice(text: Seq<char>, start: nat, end: nat) -> Seq<char> {
    let from = if start < text.len() { start } else { text.len() };
    let to = if end < text.len() { end } else { text.len() };
    if from <= to {
        text.subrange(from as int, to as int)
    } else {
        Seq::empty()
    }
}

/// The text that `range` selects from `text`, counted in characters; all of it without a range.
pub fn char_range(text: &str, range: Option<[usize; 2]>) -> (s: String)
    ensures
        s@ == match range {
            None => text@,
            Some(r) => char_slice(text@, r@[0] as nat, r@[1] as nat),
        },
{
    match range {
        None => text.to_string(),
        Some(r) => {
            let chars = chars_of(text);
            let from: usize = if r[0] < chars.len() { r[0] } else { chars.len() };
            let to: usize = if r[1] < chars.len() { r[1] } else { chars.len() };
            if from <= to {
                text_of(&chars, from, to)
            } else {
                String::new()
            }
        },
    }
}

/// Whether `part` stands somewhere in `text`.
pub open spec fn occurs(text: Seq<char>, part: Seq<char>) -> bool {
    exists|i: int|
        0 <= i <= text.len() - part.len() && #[trigger] text.subrange(i, i + part.len()) == part
}

/// Whether `part` stands somewhere in `text`.
pub fn contains_text(text: &str, part: &str) -> (r: bool)
    ensures
        r == occurs(text@, part@),
{
    let chars = chars_of(text);
    let wanted = chars_of(part);
    let mut i: usize = 0;
    while i <= chars.len() && wanted.len() <= chars.len() - i
        invariant
            chars@ == text@,
            wanted@ == part@,
            i <= chars@.len() + 1,
            forall|k: int|
                0 <= k < i && k <= text@.len() - part@.len() ==> #[trigger] text@.subrange(
                    k,
                    k + part@.len(),
                ) != part@,
        decreases chars.len() + 1 - i,
    {
        let mut j: usize = 0;
        while j < wanted.len() && chars[i + j] == wanted[j]
            invariant
                chars@ == text@,
                wanted@ == part@,
                i + part@.len() <= chars.len(),
                j <= wanted@.len(),
                forall|k: int| 0 <= k < j ==> text@[i + k] == part@[k],
            decreases wanted.len() - j,
        {
            j += 1;
        }
        if j == wanted.len() {
            assert(text@.subrange(i as int, i + part@.len()) =~= part@);
            return true;
        }
        proof {
            let here = text@.subrange(i as int, i + part@.len());
            assert(here[j as int] == text@[i + j]);
            assert(here != part@);
        }
        i += 1;
    }
    false
}

/// `text` with each character `from` replaced by the characters `to`.
pub open spec fn replaced(text: Seq<char>, from: char, to: Seq<char>) -> Seq<char>
    decreases text.len(),
{
    if text.len() == 0 {
        Seq::empty()
    } else {
        replaced(text.drop_last(), from, to) + if text.last() == from {
            to
        } else {
            seq![text.last()]
        }
    }
}

/// To replace a character by one other keeps every place of a text: where the one stood the other
/// stands, and any other character stays where it is.
pub proof fn law_replacing_a_character_keeps_places(text: Seq<char>, from: char, to: char)
    ensures
        replaced(text, from, seq![to]).len() == text.len(),
        forall|i: int|
            0 <= i < text.len() ==> #[trigger] replaced(text, from, seq![to])[i] == if text[i]
                == from {
                to
            } else {
                text[i]
            },
    decreases text.len(),
{
    if text.len() > 0 {
        law_replacing_a_character_keeps_places(text.drop_last(), from, to);
    }
}

/// `text` with each character `from` replaced by the characters `to`.
pub fn replace_char(text: &str, from: char, to: &str) -> (s: String)
    ensures
        s@ == replaced(text@, from, to@),
{
    let chars = chars_of(text);
    let mut s = String::new();
    let mut i: usize = 0;
    assert(text@.take(0) =~= Seq::<char>::empty());
    while i < chars.len()
        invariant
            chars@ == text@,
            i <= chars@.len(),
            s@ == replaced(text@.take(i as int), from, to@),
        decreases chars.len() - i,
    {
        proof {
            assert(text@.take(i + 1).drop_last() =~= text@.take(i as int));
        }
        let ghost before = s@;
        if chars[i] == from {
            s.append(to);
        } else {
            push_char(&mut s, chars[i]);
            assert(s@ =~= before + seq![text@[i as int]]);
        }
        i += 1;
    }
    assert(text@.take(text@.len() as int) =~= text@);
    s
}

/// The strings joined, with `separator` between each two.
pub open spec fn joined(parts: Seq<Seq<char>>, separator: Seq<char>) -> Seq<char>
    decreases parts.len(),
{
    if parts.len() == 0 {
        Seq::empty()
    } else if parts.len() == 1 {
        parts[0]
    } else {
        joined(parts.drop_last(), separator) + separator + parts.last()
    }
}

/// What a vector of strings holds.
pub open spec fn texts(parts: Seq<String>) -> Seq<Seq<char>> {
    parts.map_values(|s: String| s@)
}

/// The strings joined, with `separator` between each two.
pub fn join(parts: &Vec<String>, separator: &str) -> (s: String)
    ensures
        s@ == joined(texts(parts@), separator@),
{
    let mut s = String::new();
    let mut i: usize = 0;
    let ghost all = texts(parts@);
    assert(all.take(0) =~= Seq::<Seq<char>>::empty());
    while i < parts.len()
        invariant
            all == texts(parts@),
            i <= parts@.len(),
            s@ == joined(all.take(i as int), separator@),
        decreases parts.len() - i,
    {
        proof {
            assert(all.take(i + 1).drop_last() =~= all.take(i as int));
            assert(all.take(i + 1).last() == parts@[i as int]@);
        }
        let ghost before = s@;
        if i > 0 {
            s.append(separator);
        }
        s.append(parts[i].as_str());
        assert(i == 0 ==> s@ =~= parts@[0]@);
        i += 1;
    }
    assert(all.take(all.len() as int) =~= all);
    s
}

/// Unicode's White_Space property.
pub open spec fn white_space(c: char) -> bool {
    ||| '\u{9}' <= c <= '\u{d}'
    ||| c == '\u{20}'
    ||| c == '\u{85}'
    ||| c == '\u{a0}'
    ||| c == '\u{1680}'
    ||| '\u{2000}' <= c <= '\u{200a}'
    ||| c == '\u{2028}'
    ||| c == '\u{2029}'
    ||| c == '\u{202f}'
    ||| c == '\u{205f}'
    ||| c == '\u{3000}'
}

/// `text` without the white space at its two ends.
pub open spec fn trimmed(text: Seq<char>) -> Seq<char>
    decreases text.len(),
{
    if text.len() == 0 {
        text
    } else if white_space(text.first()) {
        trimmed(text.drop_first())
    } else if white_space(text.last()) {
        trimmed(text.drop_last())
    } else {
        text
    }
}

/// A text that was trimmed has nothing left to trim.
pub proof fn lemma_trimmed_twice(text: Seq<char>)
    ensures
        trimmed(trimmed(text)) == trimmed(text),
    decreases text.len(),
{
    if text.len() > 0 {
        if white_space(text.first()) {
            lemma_trimmed_twice(text.drop_first());
        } else if white_space(text.last()) {
            lemma_trimmed_twice(text.drop_last());
        }
    }
}

/// `str::trim`: leading and trailing white space removed, as Unicode's White_Space property
/// defines it.
#[verifier::external_body]
fn str_trim(text: &str) -> (s: String)
    ensures
        s@ == trimmed(text@),
{
    text.trim().to_string()
}

/// `text` without the white space at its two ends.
pub fn trim(text: &str) -> (s: String)
    ensures
        s@ == trimmed(text@),
{
    str_trim(text)
}

/// The value of a string of decimal digits.
pub open spec fn digits_value(digits: Seq<char>) -> Option<nat>
    decreases digits.len(),
{
    if digits.len() == 0 {
        Some(0)
    } else {
        match digits_value(digits.drop_last()) {
            Some(n) if '0' <= digits.last() <= '9' => Some(
                n * 10 + (digits.last() as nat - '0' as nat) as nat,
            ),
            _ => None,
        }
    }
}

/// The `i64` that a text writes: an optional sign, then one or more decimal digits.
pub open spec fn written_integer(text: Seq<char>) -> Option<i64> {
    let signed = text.len() > 0 && (text[0] == '-' || text[0] == '+');
    let digits = if signed {
        text.drop_first()
    } else {
        text
    };
    match digits_value(digits) {
        Some(n) if digits.len() > 0 => {
            let value = if signed && text[0] == '-' {
                -(n as int)
            } else {
                n as int
            };
            if i64::MIN <= value <= i64::MAX {
                Some(value as i64)
            } else {
                None
            }
        },
        _ => None,
    }
}

/// `str::parse::<i64>`: an optional sign followed by one or more decimal digits and nothing else,
/// with a value that an `i64` holds.
#[verifier::external_body]
fn str_parse_i64(text: &str) -> (r: Option<i64>)
    ensures
        r == written_integer(text@),
{
    text.parse::<i64>().ok()
}

/// The `i64` that a text writes.
pub fn parse_integer(text: &str) -> (r: Option<i64>)
    ensures
        r == written_integer(text@),
{
    str_parse_i64(text)
}

/// Whether a string is among others.
pub(crate) fn has_text_among(parts: &Vec<String>, part: &str) -> (r: bool)
    ensures
        r == texts(parts@).contains(part@),
{
    let mut i: usize = 0;
    while i < parts.len()
        invariant
            i <= parts@.len(),
            forall|k: int| 0 <= k < i ==> #[trigger] texts(parts@)[k] != part@,
        decreases parts.len() - i,
    {
        assert(texts(parts@)[i as int] == parts@[i as int]@);
        if same(parts[i].as_str(), part) {
            return true;
        }
        i += 1;
    }
    false
}

/// The order of strings: by their first differing character, a prefix first.
pub open spec fn before(a: Seq<char>, b: Seq<char>) -> bool
    decreases a.len(),
{
    if b.len() == 0 {
        false
    } else if a.len() == 0 {
        true
    } else if a[0] != b[0] {
        a[0] < b[0]
    } else {
        before(a.drop_first(), b.drop_first())
    }
}

proof fn lemma_before_common(a: Seq<char>, b: Seq<char>, n: int)
    requires
        0 <= n <= a.len(),
        n <= b.len(),
        forall|i: int| 0 <= i < n ==> a[i] == b[i],
    ensures
        before(a, b) == before(a.skip(n), b.skip(n)),
    decreases n,
{
    if n > 0 {
        lemma_before_common(a.drop_first(), b.drop_first(), n - 1);
        assert(a.drop_first().skip(n - 1) =~= a.skip(n));
        assert(b.drop_first().skip(n - 1) =~= b.skip(n));
    } else {
        assert(a.skip(0) =~= a);
        assert(b.skip(0) =~= b);
    }
}

/// The order of strings is transitive.
pub proof fn lemma_before_trans(a: Seq<char>, b: Seq<char>, c: Seq<char>)
    requires
        before(a, b),
        before(b, c),
    ensures
        before(a, c),
    decreases a.len(),
{
    if a.len() > 0 && a[0] == b[0] && b[0] == c[0] {
        lemma_before_trans(a.drop_first(), b.drop_first(), c.drop_first());
    }
}

/// The order of strings is total, and none stands before itself.
pub proof fn lemma_before_total(a: Seq<char>, b: Seq<char>)
    ensures
        before(a, b) || before(b, a) || a == b,
        !before(a, a),
    decreases a.len(),
{
    if a.len() > 0 && b.len() > 0 && a[0] == b[0] {
        lemma_before_total(a.drop_first(), b.drop_first());
        if a.drop_first() == b.drop_first() {
            assert(a =~= seq![a[0]] + a.drop_first());
            assert(b =~= seq![b[0]] + b.drop_first());
        }
    } else if a.len() == 0 && b.len() == 0 {
        assert(a =~= b);
    }
    if a.len() > 0 {
        lemma_before_total(a.drop_first(), a.drop_first());
    }
}

/// Whether `a` stands before `b` in the order of strings.
pub fn comes_before(a: &str, b: &str) -> (r: bool)
    ensures
        r == before(a@, b@),
{
    let x = chars_of(a);
    let y = chars_of(b);
    let mut i: usize = 0;
    while i < x.len() && i < y.len() && x[i] == y[i]
        invariant
            x@ == a@,
            y@ == b@,
            i <= x@.len(),
            i <= y@.len(),
            forall|k: int| 0 <= k < i ==> x@[k] == y@[k],
        decreases x.len() - i,
    {
        i += 1;
    }
    proof {
        lemma_before_common(a@, b@, i as int);
    }
    if i == y.len() {
        false
    } else if i == x.len() {
        true
    } else {
        x[i] < y[i]
    }
}

/// Whether the strings stand in order, none twice.
pub open spec fn ascending(parts: Seq<Seq<char>>) -> bool {
    forall|i: int, j: int| 0 <= i < j < parts.len() ==> before(
        #[trigger] parts[i],
        #[trigger] parts[j],
    )
}

/// Adds `part` to an ascending vector of strings, at its place, unless it is there already.
pub fn add_in_order(parts: &mut Vec<String>, part: String)
    requires
        ascending(texts(old(parts)@)),
    ensures
        ascending(texts(final(parts)@)),
        texts(final(parts)@).to_set() == texts(old(parts)@).to_set().insert(part@),
{
    let ghost was = texts(parts@);
    let mut i: usize = 0;
    while i < parts.len() && comes_before(parts[i].as_str(), part.as_str())
        invariant
            was == texts(parts@),
            i <= parts@.len(),
            forall|k: int| 0 <= k < i ==> before(#[trigger] was[k], part@),
        decreases parts.len() - i,
    {
        assert(was[i as int] == parts@[i as int]@);
        i += 1;
    }
    if i < parts.len() && same(parts[i].as_str(), part.as_str()) {
        assert(was[i as int] == part@);
        assert(was.contains(part@));
        assert(was.to_set() =~= was.to_set().insert(part@));
        return;
    }
    let ghost wanted = part@;
    parts.insert(i, part);
    proof {
        let now = texts(parts@);
        assert(now =~= was.insert(i as int, wanted));
        if i < was.len() {
            lemma_before_total(was[i as int], wanted);
        }
        assert forall|j: int, k: int| 0 <= j < k < now.len() implies before(
            #[trigger] now[j],
            #[trigger] now[k],
        ) by {
            if j < i && k > i {
                assert(before(was[j], was[k - 1]));
            } else if j == i && k > i {
                if k - 1 > i {
                    assert(before(was[i as int], was[k - 1]));
                    lemma_before_trans(wanted, was[i as int], was[k - 1]);
                }
            } else if j > i {
                assert(before(was[j - 1], was[k - 1]));
            }
        }
        assert forall|s: Seq<char>| now.to_set().contains(s) == was.to_set().insert(
            wanted,
        ).contains(s) by {
            if now.contains(s) {
                let k = choose|k: int| 0 <= k < now.len() && now[k] == s;
                if k < i {
                    assert(was[k] == s);
                } else if k > i {
                    assert(was[k - 1] == s);
                }
            }
            if was.contains(s) {
                let k = choose|k: int| 0 <= k < was.len() && was[k] == s;
                if k < i {
                    assert(now[k] == s);
                } else {
                    assert(now[k + 1] == s);
                }
            }
            if s == wanted {
                assert(now[i as int] == s);
            }
        }
        assert(now.to_set() =~= was.to_set().insert(wanted));
    }
}

/// A number that is written in decimal is read back from its digits; it has no zero before others.
pub proof fn law_decimal_is_read_back(n: nat)
    ensures
        digits_value(decimal(n)) == Some(n),
        decimal(n).len() > 0,
        decimal(n)[0] == '0' ==> n == 0,
        forall|i: int| 0 <= i < decimal(n).len() ==> '0' <= #[trigger] decimal(n)[i] <= '9',
    decreases n,
{
    if n < 10 {
        assert(decimal(n).drop_last() =~= Seq::<char>::empty());
        assert(digits_value(Seq::<char>::empty()) == Some(0nat));
    } else {
        law_decimal_is_read_back(n / 10);
        assert(decimal(n).drop_last() =~= decimal(n / 10));
        assert(decimal(n)[0] == decimal(n / 10)[0]);
    }
}

/// An integer that is written in decimal is read back.
pub proof fn law_integer_is_read_back(n: i64)
    ensures
        written_integer(signed_decimal(n as int)) == Some(n),
{
    if n < 0 {
        let digits = decimal((-n) as nat);
        law_decimal_is_read_back((-n) as nat);
        assert(signed_decimal(n as int).drop_first() =~= digits);
    } else {
        law_decimal_is_read_back(n as nat);
        assert('0' <= decimal(n as nat)[0] <= '9');
    }
}

/// What is left of a text that was trimmed stands in it between white space, and has none at its ends.
pub proof fn law_trimming_takes_white_space_off(text: Seq<char>) -> (ends: (int, int))
    ensures
        0 <= ends.0 <= ends.1 <= text.len(),
        trimmed(text) == text.subrange(ends.0, ends.1),
        forall|i: int| 0 <= i < ends.0 ==> white_space(#[trigger] text[i]),
        forall|i: int| ends.1 <= i < text.len() ==> white_space(#[trigger] text[i]),
        ends.0 < ends.1 ==> !white_space(text[ends.0]) && !white_space(text[ends.1 - 1]),
    decreases text.len(),
{
    if text.len() == 0 {
        assert(text.subrange(0, 0) =~= text);
        (0, 0)
    } else if white_space(text.first()) {
        let rest = text.drop_first();
        let (a, b) = law_trimming_takes_white_space_off(rest);
        assert(rest.subrange(a, b) =~= text.subrange(a + 1, b + 1));
        assert forall|i: int| 0 <= i < a + 1 implies white_space(#[trigger] text[i]) by {
            if i > 0 {
                assert(rest[i - 1] == text[i]);
            }
        }
        assert forall|i: int| b + 1 <= i < text.len() implies white_space(#[trigger] text[i]) by {
            assert(rest[i - 1] == text[i]);
        }
        (a + 1, b + 1)
    } else if white_space(text.last()) {
        let rest = text.drop_last();
        let (a, b) = law_trimming_takes_white_space_off(rest);
        assert(rest.subrange(a, b) =~= text.subrange(a, b));
        assert forall|i: int| 0 <= i < a implies white_space(#[trigger] text[i]) by {
            assert(rest[i] == text[i]);
        }
        assert forall|i: int| b <= i < text.len() implies white_space(#[trigger] text[i]) by {
            if i < rest.len() {
                assert(rest[i] == text[i]);
            }
        }
        (a, b)
    } else {
        assert(text.subrange(0, text.len() as int) =~= text);
        (0, text.len() as int)
    }
}

/// What is selected of a text has the text's characters from the first place on, and ends at the second
/// place or with the text.
pub proof fn law_selected_characters_are_those_between(text: Seq<char>, start: nat, end: nat)
    ensures
        forall|i: int|
            0 <= i < char_slice(text, start, end).len() ==> char_slice(text, start, end)[i]
                == #[trigger] text[start + i],
        start <= end <= text.len() ==> char_slice(text, start, end).len() == end - start,
        start <= text.len() <= end ==> char_slice(text, start, end).len() == text.len() - start,
        end <= start || text.len() <= start ==> char_slice(text, start, end).len() == 0,
{
}

/// Of two strings the one is before the other that has, at the first place where they differ, the
/// smaller character, or that ends there.
pub proof fn law_first_difference_orders(a: Seq<char>, b: Seq<char>, n: int)
    requires
        0 <= n <= a.len(),
        n <= b.len(),
        forall|i: int| 0 <= i < n ==> a[i] == b[i],
        n < a.len() && n < b.len() ==> a[n] != b[n],
    ensures
        before(a, b) <==> n < b.len() && (n == a.len() || a[n] < b[n]),
{
    if n == a.len() || n == b.len() || a[n] != b[n] {
        lemma_before_common(a, b, n);
        let x = a.skip(n);
        let y = b.skip(n);
        if n < a.len() && n < b.len() {
            assert(x[0] == a[n] && y[0] == b[n]);
        }
    }
}

} // verus!
