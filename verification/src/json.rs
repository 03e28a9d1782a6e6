//! JSON values, and the texts that write them.
use vstd::prelude::*;

use crate::text::{self, comes_before, same};

verus! {

/// A JSON value.
#[derive(Debug, PartialEq)]
pub enum Json {
    Null,
    Bool(bool),
    Number(serde_json::Number),
    Text(String),
    Array(Vec<Json>),
    /// The members in the order in which they are written; no name occurs twice.
    Object(Vec<(String, Json)>),
}

/// What a JSON value is.
pub enum Node {
    Null,
    Bool(bool),
    /// A number: its value where it is an integer that fits, and its text.
    Number { signed: Option<i64>, unsigned: Option<u64>, text: Seq<char> },
    Text(Seq<char>),
    Array(Seq<Node>),
    Object(Seq<(Seq<char>, Node)>),
}

impl Json {
    /// What the value is.
    pub open spec fn view(&self) -> Node
        decreases self,
    {
        match self {
            Json::Null => Node::Null,
            Json::Bool(b) => Node::Bool(*b),
            Json::Number(n) => Node::Number {
                signed: number_signed(*n),
                unsigned: number_unsigned(*n),
                text: number_text(*n),
            },
            Json::Text(s) => Node::Text(s@),
            Json::Array(items) => Node::Array(
                Seq::new(
                    items@.len(),
                    |i: int|
                        if 0 <= i < items@.len() {
                            items@[i].view()
                        } else {
                            Node::Null
                        },
                ),
            ),
            Json::Object(members) => Node::Object(
                Seq::new(
                    members@.len(),
                    |i: int|
                        if 0 <= i < members@.len() {
                            (members@[i].0@, members@[i].1.view())
                        } else {
                            (Seq::empty(), Node::Null)
                        },
                ),
            ),
        }
    }
}

/// What the items of an array are.
pub open spec fn nodes(items: Seq<Json>) -> Seq<Node> {
    items.map_values(|j: Json| j@)
}

/// What the members of an object are.
pub open spec fn members_of(members: Seq<(String, Json)>) -> Seq<(Seq<char>, Node)> {
    members.map_values(|m: (String, Json)| (m.0@, m.1@))
}

/// An array is its items.
pub proof fn lemma_array(items: Vec<Json>)
    ensures
        Json::Array(items)@ == Node::Array(nodes(items@)),
{
    assert(Json::Array(items)@->Array_0 =~= nodes(items@));
}

/// An object is its members.
pub proof fn lemma_object(members: Vec<(String, Json)>)
    ensures
        Json::Object(members)@ == Node::Object(members_of(members@)),
{
    assert(Json::Object(members)@->Object_0 =~= members_of(members@));
}

/// A JSON value of `serde_json`. Opaque.
#[verifier::external_type_specification]
#[verifier::external_body]
pub struct ExJsonValue(serde_json::Value);

/// A JSON number of `serde_json`. Opaque.
#[verifier::external_type_specification]
#[verifier::external_body]
pub struct ExJsonNumber(serde_json::Number);

/// An error of `serde_json`. Opaque.
#[verifier::external_type_specification]
#[verifier::external_body]
pub struct ExJsonError(serde_json::Error);

/// A number of `serde_json` as a signed integer, where it is one that fits.
pub uninterp spec fn number_signed(n: serde_json::Number) -> Option<i64>;

/// A number of `serde_json` as an unsigned integer, where it is one that fits.
pub uninterp spec fn number_unsigned(n: serde_json::Number) -> Option<u64>;

/// The text of a number of `serde_json`: its `Display`.
pub uninterp spec fn number_text(n: serde_json::Number) -> Seq<char>;

/// What a value of `serde_json` is.
pub uninterp spec fn value_node(value: serde_json::Value) -> Node;

/// The value of `serde_json` that stands for a JSON value.
pub uninterp spec fn value_of(node: Node) -> serde_json::Value;

/// The compact text of a value of `serde_json`: its `Display`, which is what
/// `serde_json::to_string` writes.
pub uninterp spec fn value_text(value: serde_json::Value) -> Seq<char>;

/// The text by which an error of `serde_json` is reported: its `Display`.
pub uninterp spec fn json_error_text(e: serde_json::Error) -> Seq<char>;

/// A text as JSON: the value it writes, or the reason why it writes none. This is what
/// `serde_json::from_str` returns on it.
pub uninterp spec fn json_parsed(text: Seq<char>) -> Result<Node, Seq<char>>;

/// A text as a JSON list of strings: the strings, or the reason why it is none. This is what
/// `serde_json::from_str` returns on it.
pub uninterp spec fn string_list_parsed(text: Seq<char>) -> Result<Seq<Seq<char>>, Seq<char>>;

/// A list of strings as JSON text, as `serde_json::to_string` writes it.
pub uninterp spec fn string_list_printed(list: Seq<Seq<char>>) -> Seq<char>;

/// A JSON value as text, as `serde_json` writes it.
pub open spec fn json_printed(node: Node) -> Seq<char> {
    value_text(value_of(node))
}

/// Whether a text reads as a given list of strings.
pub open spec fn reads_as_list(text: Seq<char>, list: Seq<Seq<char>>) -> bool {
    string_list_parsed(text) == Ok::<Seq<Seq<char>>, Seq<char>>(list)
}

/// Whether a text reads as a given JSON value.
pub open spec fn reads_as(text: Seq<char>, node: Node) -> bool {
    json_parsed(text) == Ok::<Node, Seq<char>>(node)
}

/// What the number of an integer is.
pub open spec fn integer_node(n: i64) -> Node {
    Node::Number {
        signed: Some(n),
        unsigned: if n >= 0 {
            Some(n as u64)
        } else {
            None
        },
        text: text::signed_decimal(n as int),
    }
}

/// Whether a value is made of no real numbers, the names of its objects in order, with at most
/// `depth` arrays and objects within one another.
pub open spec fn is_plain(node: Node, depth: nat) -> bool
    decreases depth,
{
    match node {
        Node::Null => true,
        Node::Bool(_) => true,
        Node::Text(_) => true,
        Node::Number { signed, .. } => signed matches Some(n) && node == integer_node(n),
        Node::Array(items) => {
            &&& depth > 0
            &&& forall|i: int|
                0 <= i < items.len() ==> is_plain(#[trigger] items[i], (depth - 1) as nat)
        },
        Node::Object(members) => {
            &&& depth > 0
            &&& text::ascending(names(members))
            &&& forall|i: int|
                0 <= i < members.len() ==> is_plain(#[trigger] members[i].1, (depth - 1) as nat)
        },
    }
}

/// An array is plain where its items are.
pub proof fn lemma_plain_array(items: Seq<Node>, depth: nat)
    ensures
        is_plain(Node::Array(items), depth) <==> depth > 0 && forall|i: int|
            0 <= i < items.len() ==> is_plain(#[trigger] items[i], (depth - 1) as nat),
{
    let node = Node::Array(items);
    assert(node->Array_0 == items);
    if is_plain(node, depth) {
        assert(depth > 0);
        assert forall|i: int| 0 <= i < items.len() implies is_plain(
            #[trigger] items[i],
            (depth - 1) as nat,
        ) by {
            assert(node->Array_0[i] == items[i]);
        }
    }
}

/// How many arrays and objects within one another `serde_json` reads.
pub const DEPTH: u64 = 127;

/// `serde_json::Number::as_i64`.
#[verifier::external_body]
pub(crate) fn signed_of(n: &serde_json::Number) -> (r: Option<i64>)
    ensures
        r == number_signed(*n),
{
    n.as_i64()
}

/// `serde_json::Number::as_u64`.
#[verifier::external_body]
pub(crate) fn unsigned_of(n: &serde_json::Number) -> (r: Option<u64>)
    ensures
        r == number_unsigned(*n),
{
    n.as_u64()
}

/// `serde_json::Number`'s `Display`.
#[verifier::external_body]
pub(crate) fn text_of(n: &serde_json::Number) -> (s: String)
    ensures
        s@ == number_text(*n),
{
    n.to_string()
}

/// `serde_json::Number::from` of an `i64`: the number of that integer, which is an unsigned one too
/// where it is not negative, and whose text is its decimal.
#[verifier::external_body]
fn number_from(i: i64) -> (n: serde_json::Number)
    ensures
        number_signed(n) == Some(i),
        number_unsigned(n) == (if i >= 0 {
            Some(i as u64)
        } else {
            None
        }),
        number_text(n) == text::signed_decimal(i as int),
{
    serde_json::Number::from(i)
}

/// An integer as a JSON number.
pub fn integer(i: i64) -> (json: Json)
    ensures
        json@ == integer_node(i),
{
    Json::Number(number_from(i))
}

/// A `serde_json::Value` as a `Json`, variant for variant.
#[verifier::external_body]
fn imported(value: serde_json::Value) -> (json: Json)
    ensures
        json@ == value_node(value),
{
    match value {
        serde_json::Value::Null => Json::Null,
        serde_json::Value::Bool(b) => Json::Bool(b),
        serde_json::Value::Number(n) => Json::Number(n),
        serde_json::Value::String(s) => Json::Text(s),
        serde_json::Value::Array(a) => Json::Array(a.into_iter().map(imported).collect()),
        serde_json::Value::Object(o) =>
            Json::Object(o.into_iter().map(|(k, v)| (k, imported(v))).collect()),
    }
}

/// A `Json` as a `serde_json::Value`, variant for variant. The text of a value without real
/// numbers, the names of its objects in order, no deeper than `serde_json` reads, reads back as that
/// value; nothing of the kind is claimed of other values, for `serde_json` puts the names of an
/// object in order, may read a real number inexactly, and refuses a value that is deeper.
#[verifier::external_body]
fn exported(json: &Json) -> (value: serde_json::Value)
    ensures
        value == value_of(json@),
        is_plain(json@, DEPTH as nat) ==> reads_as(value_text(value), json@),
{
    match json {
        Json::Null => serde_json::Value::Null,
        Json::Bool(b) => serde_json::Value::Bool(*b),
        Json::Number(n) => serde_json::Value::Number(n.clone()),
        Json::Text(s) => serde_json::Value::String(s.clone()),
        Json::Array(a) => serde_json::Value::Array(a.iter().map(exported).collect()),
        Json::Object(o) => serde_json::Value::Object(
            o.iter().map(|(k, v)| (k.clone(), exported(v))).collect(),
        ),
    }
}

/// `serde_json::from_str::<serde_json::Value>`: the value that a text writes. The result depends on
/// the text alone.
#[verifier::external_body]
fn value_from_text(text: &str) -> (r: Result<serde_json::Value, serde_json::Error>)
    ensures
        match r {
            Ok(value) => json_parsed(text@) == Ok::<Node, Seq<char>>(value_node(value)),
            Err(e) => json_parsed(text@) == Err::<Node, Seq<char>>(json_error_text(e)),
        },
{
    serde_json::from_str(text)
}

/// `serde_json::Value`'s `Display`: the value as compact JSON text.
#[verifier::external_body]
fn text_from_value(value: &serde_json::Value) -> (s: String)
    ensures
        s@ == value_text(*value),
{
    value.to_string()
}

/// `serde_json::Error`'s `Display`.
#[verifier::external_body]
fn text_from_error(e: &serde_json::Error) -> (s: String)
    ensures
        s@ == json_error_text(*e),
{
    e.to_string()
}

/// `serde_json::from_str::<Vec<String>>`: the strings of a JSON list of strings. The result depends
/// on the text alone.
#[verifier::external_body]
fn list_from_text(text: &str) -> (r: Result<Vec<String>, serde_json::Error>)
    ensures
        match r {
            Ok(list) => string_list_parsed(text@) == Ok::<Seq<Seq<char>>, Seq<char>>(
                text::texts(list@),
            ),
            Err(e) => string_list_parsed(text@) == Err::<Seq<Seq<char>>, Seq<char>>(
                json_error_text(e),
            ),
        },
{
    serde_json::from_str(text)
}

/// `serde_json::to_string` of a list of strings: its JSON text, which reads back as the same
/// list. Writing strings to a string does not fail. The result depends on the list alone.
#[verifier::external_body]
pub(crate) fn print_string_list(list: &Vec<String>) -> (s: String)
    ensures
        s@ == string_list_printed(text::texts(list@)),
        reads_as_list(s@, text::texts(list@)),
{
    serde_json::to_string(list).unwrap_or_default()
}

/// The value that a text writes, or the reason why it writes none.
pub fn parse_json(text: &str) -> (r: Result<Json, String>)
    ensures
        match r {
            Ok(j) => json_parsed(text@) == Ok::<Node, Seq<char>>(j@),
            Err(e) => json_parsed(text@) == Err::<Node, Seq<char>>(e@),
        },
{
    match value_from_text(text) {
        Ok(value) => Ok(imported(value)),
        Err(e) => Err(text_from_error(&e)),
    }
}

/// A value as compact JSON text.
pub fn print_json(json: &Json) -> (s: String)
    ensures
        s@ == json_printed(json@),
        is_plain(json@, DEPTH as nat) ==> reads_as(s@, json@),
{
    text_from_value(&exported(json))
}

/// The strings that a text lists, or the reason why it is no list of strings.
pub(crate) fn parse_string_list(text: &str) -> (r: Result<Vec<String>, String>)
    ensures
        match r {
            Ok(list) => string_list_parsed(text@) == Ok::<Seq<Seq<char>>, Seq<char>>(
                text::texts(list@),
            ),
            Err(e) => string_list_parsed(text@) == Err::<Seq<Seq<char>>, Seq<char>>(e@),
        },
{
    match list_from_text(text) {
        Ok(list) => Ok(list),
        Err(e) => Err(text_from_error(&e)),
    }
}

/// The position of the first member with a name, from `from` on.
pub open spec fn member_from(
    members: Seq<(Seq<char>, Node)>,
    name: Seq<char>,
    from: nat,
) -> Option<nat>
    decreases members.len() - from,
{
    if from >= members.len() {
        None
    } else if members[from as int].0 == name {
        Some(from)
    } else {
        member_from(members, name, from + 1)
    }
}

/// The member of a value with a name; none where the value is no object.
pub open spec fn member(node: Node, name: Seq<char>) -> Option<Node> {
    match node {
        Node::Object(members) => match member_from(members, name, 0) {
            Some(i) => Some(members[i as int].1),
            None => None,
        },
        _ => None,
    }
}

/// The text of a value; none where it is no text.
pub open spec fn text_in(node: Option<Node>) -> Option<Seq<char>> {
    match node {
        Some(Node::Text(s)) => Some(s),
        _ => None,
    }
}

/// The value of a number that is a signed integer.
pub open spec fn integer_in(node: Option<Node>) -> Option<i64> {
    match node {
        Some(Node::Number { signed, .. }) => signed,
        _ => None,
    }
}

/// Whether a value has a member with a text.
pub open spec fn says(node: Node, name: Seq<char>, value: Seq<char>) -> bool {
    text_in(member(node, name)) == Some(value)
}

pub(crate) fn find_member(members: &Vec<(String, Json)>, name: &str) -> (r: Option<usize>)
    ensures
        match r {
            Some(i) => i < members@.len() && member_from(members_of(members@), name@, 0) == Some(
                i as nat,
            ),
            None => member_from(members_of(members@), name@, 0) is None,
        },
{
    let mut i: usize = 0;
    while i < members.len()
        invariant
            i <= members@.len(),
            member_from(members_of(members@), name@, 0) == member_from(
                members_of(members@),
                name@,
                i as nat,
            ),
        decreases members.len() - i,
    {
        if same(members[i].0.as_str(), name) {
            return Some(i);
        }
        i += 1;
    }
    None
}

/// The member of a value with a name.
pub fn get<'a>(json: &'a Json, name: &str) -> (r: Option<&'a Json>)
    ensures
        match r {
            Some(j) => member(json@, name@) == Some(j@),
            None => member(json@, name@) is None,
        },
{
    match json {
        Json::Object(members) => {
            proof {
                lemma_object(*members);
            }
            match find_member(members, name) {
                Some(i) => Some(&members[i].1),
                None => None,
            }
        },
        _ => None,
    }
}

/// The text of a member, where there is such a member and it is a text.
pub fn get_text<'a>(json: &'a Json, name: &str) -> (r: Option<&'a String>)
    ensures
        match r {
            Some(s) => text_in(member(json@, name@)) == Some(s@),
            None => text_in(member(json@, name@)) is None,
        },
{
    match get(json, name) {
        Some(Json::Text(s)) => Some(s),
        _ => None,
    }
}

/// Whether a value has a member with a text.
pub fn has_text(json: &Json, name: &str, value: &str) -> (r: bool)
    ensures
        r == says(json@, name@, value@),
{
    match get_text(json, name) {
        Some(s) => same(s.as_str(), value),
        None => false,
    }
}

/// The position of the first member whose name comes after a name, from `from` on; the end where
/// there is none.
pub open spec fn place_from(members: Seq<(Seq<char>, Node)>, name: Seq<char>, from: nat) -> nat
    decreases members.len() - from,
{
    if from >= members.len() {
        members.len()
    } else if text::before(name, members[from as int].0) {
        from
    } else {
        place_from(members, name, from + 1)
    }
}

/// The members of an object with one of them set; a name that is not there is added at its place
/// in the order of names.
pub open spec fn with_member(
    members: Seq<(Seq<char>, Node)>,
    name: Seq<char>,
    value: Node,
) -> Seq<(Seq<char>, Node)> {
    match member_from(members, name, 0) {
        Some(i) => members.update(i as int, (name, value)),
        None => members.insert(place_from(members, name, 0) as int, (name, value)),
    }
}

pub proof fn lemma_member_bound(members: Seq<(Seq<char>, Node)>, name: Seq<char>, from: nat)
    ensures
        member_from(members, name, from) matches Some(i) ==> from <= i < members.len()
            && members[i as int].0 == name,
        member_from(members, name, from) is None ==> forall|k: int|
            from <= k < members.len() ==> #[trigger] members[k].0 != name,
    decreases members.len() - from,
{
    if from < members.len() && members[from as int].0 != name {
        lemma_member_bound(members, name, from + 1);
    }
}

proof fn lemma_place_bound(members: Seq<(Seq<char>, Node)>, name: Seq<char>, from: nat)
    requires
        from <= members.len(),
    ensures
        from <= place_from(members, name, from) <= members.len(),
        place_from(members, name, from) < members.len() ==> text::before(
            name,
            members[place_from(members, name, from) as int].0,
        ),
        forall|k: int|
            from <= k < place_from(members, name, from) ==> !text::before(
                name,
                #[trigger] members[k].0,
            ),
    decreases members.len() - from,
{
    if from < members.len() && !text::before(name, members[from as int].0) {
        lemma_place_bound(members, name, from + 1);
    }
}

fn find_place(members: &Vec<(String, Json)>, name: &str) -> (r: usize)
    ensures
        r <= members@.len(),
        r == place_from(members_of(members@), name@, 0),
{
    let ghost was = members_of(members@);
    let mut i: usize = 0;
    while i < members.len() && !comes_before(name, members[i].0.as_str())
        invariant
            was == members_of(members@),
            i <= members@.len(),
            place_from(was, name@, 0) == place_from(was, name@, i as nat),
        decreases members.len() - i,
    {
        assert(was[i as int].0 == members@[i as int].0@);
        i += 1;
    }
    if i < members.len() {
        assert(was[i as int].0 == members@[i as int].0@);
    }
    i
}

/// Sets a member of an object.
pub(crate) fn set_member(members: &mut Vec<(String, Json)>, name: &str, value: Json)
    ensures
        members_of(final(members)@) == with_member(members_of(old(members)@), name@, value@),
{
    let ghost was = members_of(members@);
    let ghost wanted = value@;
    match find_member(members, name) {
        Some(i) => {
            members.set(i, (name.to_string(), value));
            assert(members_of(members@) =~= was.update(i as int, (name@, wanted)));
        },
        None => {
            let at = find_place(members, name);
            members.insert(at, (name.to_string(), value));
            assert(members_of(members@) =~= was.insert(at as int, (name@, wanted)));
        },
    }
}

/// A set member is what it was set to, and no other member changes.
pub proof fn law_with_member(
    members: Seq<(Seq<char>, Node)>,
    name: Seq<char>,
    value: Node,
    other: Seq<char>,
)
    ensures
        member(Node::Object(with_member(members, name, value)), name) == Some(value),
        other != name ==> member(Node::Object(with_member(members, name, value)), other) == member(
            Node::Object(members),
            other,
        ),
{
    lemma_member_bound(members, name, 0);
    lemma_member_bound(members, other, 0);
    match member_from(members, name, 0) {
        Some(i) => {
            lemma_updated_from(members, i, value, other, 0);
            lemma_updated_from(members, i, value, name, 0);
        },
        None => {
            let p = place_from(members, name, 0);
            lemma_place_bound(members, name, 0);
            lemma_inserted_from(members, p, (name, value), other, 0);
            lemma_inserted_from(members, p, (name, value), name, 0);
        },
    }
}

proof fn lemma_updated_from(
    members: Seq<(Seq<char>, Node)>,
    i: nat,
    value: Node,
    other: Seq<char>,
    from: nat,
)
    requires
        i < members.len(),
    ensures
        member_from(members.update(i as int, (members[i as int].0, value)), other, from)
            == member_from(members, other, from),
    decreases members.len() - from,
{
    if from < members.len() {
        lemma_updated_from(members, i, value, other, from + 1);
    }
}

proof fn lemma_inserted_after(
    members: Seq<(Seq<char>, Node)>,
    p: nat,
    entry: (Seq<char>, Node),
    other: Seq<char>,
    from: nat,
)
    requires
        p <= from,
        p <= members.len(),
    ensures
        member_from(members.insert(p as int, entry), other, from + 1) == match member_from(
            members,
            other,
            from,
        ) {
            Some(i) => Some(i + 1),
            None => None::<nat>,
        },
    decreases members.len() - from,
{
    if from < members.len() {
        lemma_inserted_after(members, p, entry, other, from + 1);
    }
}

proof fn lemma_inserted_from(
    members: Seq<(Seq<char>, Node)>,
    p: nat,
    entry: (Seq<char>, Node),
    other: Seq<char>,
    from: nat,
)
    requires
        from <= p <= members.len(),
        forall|k: int| 0 <= k < members.len() ==> #[trigger] members[k].0 != entry.0,
    ensures
        member_from(members.insert(p as int, entry), other, from) == if other == entry.0 {
            Some(p)
        } else {
            match member_from(members, other, from) {
                Some(i) => if i < p {
                    Some(i)
                } else {
                    Some(i + 1)
                },
                None => None::<nat>,
            }
        },
    decreases p - from,
{
    if from < p {
        lemma_inserted_from(members, p, entry, other, from + 1);
        lemma_member_bound(members, other, from + 1);
    } else {
        lemma_inserted_after(members, p, entry, other, from);
        lemma_member_bound(members, other, from);
    }
}

/// The names of an object's members.
pub open spec fn names(members: Seq<(Seq<char>, Node)>) -> Seq<Seq<char>> {
    members.map_values(|m: (Seq<char>, Node)| m.0)
}

/// To set a member to a value without real numbers leaves an object without them, its names in
/// order, and no deeper than it was allowed to be.
pub proof fn law_with_member_is_plain(
    members: Seq<(Seq<char>, Node)>,
    name: Seq<char>,
    value: Node,
    depth: nat,
)
    requires
        depth > 0,
        is_plain(Node::Object(members), depth),
        is_plain(value, (depth - 1) as nat),
    ensures
        is_plain(Node::Object(with_member(members, name, value)), depth),
{
    let set = with_member(members, name, value);
    let was = names(members);
    let now = names(set);
    lemma_member_bound(members, name, 0);
    match member_from(members, name, 0) {
        Some(i) => {
            assert(now =~= was);
            assert forall|k: int| 0 <= k < set.len() implies is_plain(
                #[trigger] set[k].1,
                (depth - 1) as nat,
            ) by {
                assert(is_plain(members[k].1, (depth - 1) as nat));
            }
        },
        None => {
            let p = place_from(members, name, 0) as int;
            lemma_place_bound(members, name, 0);
            assert(now =~= was.insert(p, name));
            assert forall|j: int, k: int| 0 <= j < k < now.len() implies text::before(
                #[trigger] now[j],
                #[trigger] now[k],
            ) by {
                if k < p || j > p || (j < p && k > p) {
                    let a = if j < p { j } else { j - 1 };
                    let b = if k < p { k } else { k - 1 };
                    assert(text::before(was[a], was[b]));
                } else if k == p {
                    assert(members[j].0 != name);
                    assert(!text::before(name, members[j].0));
                    text::lemma_before_total(was[j], name);
                } else if k - 1 > p {
                    assert(text::before(was[p], was[k - 1]));
                    text::lemma_before_trans(name, was[p], was[k - 1]);
                }
            }
            assert forall|k: int| 0 <= k < set.len() implies is_plain(
                #[trigger] set[k].1,
                (depth - 1) as nat,
            ) by {
                if k < p {
                    assert(is_plain(members[k].1, (depth - 1) as nat));
                } else if k > p {
                    assert(is_plain(members[k - 1].1, (depth - 1) as nat));
                }
            }
        },
    }
}

} // verus!
