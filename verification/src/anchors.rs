//! Pointers into the messages of a session, and the texts that they point to.
use vstd::prelude::*;

use crate::blocks::{self, block_source_text, blocks_to_text, Block};
use crate::engine::{Db, DbError, Trace};
use crate::events;
use crate::json::{self, get, parse_json, signed_of, text_of, unsigned_of, Json, Node};
use crate::messages::{self, get_message_by_id, Message};
use crate::text::{self, char_range, join, parse_integer, same};

verus! {

/// A pointer into the messages of a session.
#[derive(Debug, Clone, PartialEq)]
pub struct Anchor {
    pub kind: String,
    pub ref_id: String,
    pub block_index: Option<usize>,
    pub char_range: Option<[usize; 2]>,
    pub line: Option<i64>,
    pub label: Option<String>,
}

/// What an anchor says.
pub struct Mark {
    pub kind: Seq<char>,
    pub ref_id: Seq<char>,
    pub block_index: Option<usize>,
    pub char_range: Option<(usize, usize)>,
    pub line: Option<i64>,
    pub label: Option<Seq<char>>,
}

impl View for Anchor {
    type V = Mark;

    open spec fn view(&self) -> Mark {
        Mark {
            kind: self.kind@,
            ref_id: self.ref_id@,
            block_index: self.block_index,
            char_range: match self.char_range {
                Some(range) => Some((range@[0], range@[1])),
                None => None,
            },
            line: self.line,
            label: events::opt(self.label),
        }
    }
}

/// The id in a JSON value: a text, or a number as it is written.
pub open spec fn ref_in(node: Option<Node>) -> Option<Seq<char>> {
    match node {
        Some(Node::Text(s)) => Some(s),
        Some(Node::Number { text, .. }) => Some(text),
        _ => None,
    }
}

/// The index in a JSON value: a number that is one; none where there is no value. The outer `None`
/// is a value that is no index.
pub open spec fn index_in(node: Option<Node>) -> Option<Option<usize>> {
    match node {
        None | Some(Node::Null) => Some(None),
        Some(Node::Number { unsigned: Some(n), .. }) => if n <= usize::MAX {
            Some(Some(n as usize))
        } else {
            None
        },
        _ => None,
    }
}

/// The range in a JSON value: a list of two indices; none where there is no value.
pub open spec fn range_in(node: Option<Node>) -> Option<Option<(usize, usize)>> {
    match node {
        None | Some(Node::Null) => Some(None),
        Some(Node::Array(items)) => if items.len() == 2 {
            match (index_in(Some(items[0])), index_in(Some(items[1]))) {
                (Some(Some(a)), Some(Some(b))) => Some(Some((a, b))),
                _ => None,
            }
        } else {
            None
        },
        _ => None,
    }
}

/// The line in a JSON value: a signed integer; none where there is no value.
pub open spec fn line_in(node: Option<Node>) -> Option<Option<i64>> {
    match node {
        None | Some(Node::Null) => Some(None),
        Some(Node::Number { signed: Some(n), .. }) => Some(Some(n)),
        _ => None,
    }
}

/// The label in a JSON value: a text; none where there is no value.
pub open spec fn label_in(node: Option<Node>) -> Option<Option<Seq<char>>> {
    match node {
        None | Some(Node::Null) => Some(None),
        Some(Node::Text(s)) => Some(Some(s)),
        _ => None,
    }
}

/// The anchor that its parts make; a kind and an id it has to have.
pub open spec fn mark_of(
    kind: Option<Node>,
    ref_id: Option<Node>,
    block_index: Option<Node>,
    char_range: Option<Node>,
    line: Option<Node>,
    label: Option<Node>,
) -> Option<Mark> {
    match (
        json::text_in(kind),
        ref_in(ref_id),
        index_in(block_index),
        range_in(char_range),
        line_in(line),
        label_in(label),
    ) {
        (Some(k), Some(r), Some(b), Some(c), Some(l), Some(n)) => Some(
            Mark {
                kind: k,
                ref_id: r,
                block_index: b,
                char_range: c,
                line: l,
                label: n,
            },
        ),
        _ => None,
    }
}

/// An item of a list, if it has that many.
pub open spec fn item(items: Seq<Node>, i: int) -> Option<Node> {
    if 0 <= i < items.len() {
        Some(items[i])
    } else {
        None
    }
}

/// The anchor that a JSON value writes: an object with its parts by name, or a list with its parts
/// in order.
pub open spec fn anchor_in(node: Node) -> Option<Mark> {
    match node {
        Node::Object(_) => mark_of(
            json::member(node, "kind"@),
            json::member(node, "ref"@),
            json::member(node, "block_index"@),
            json::member(node, "char_range"@),
            json::member(node, "line"@),
            json::member(node, "label"@),
        ),
        Node::Array(items) => if items.len() > 6 {
            None
        } else {
            mark_of(
                item(items, 0),
                item(items, 1),
                item(items, 2),
                item(items, 3),
                item(items, 4),
                item(items, 5),
            )
        },
        _ => None,
    }
}

/// What an optional JSON value is.
pub open spec fn opt_node(json: Option<&Json>) -> Option<Node> {
    match json {
        Some(j) => Some(j@),
        None => None,
    }
}

/// The id in a JSON value: a text, or a number as it is written.
pub fn read_ref(json: Option<&Json>) -> (r: Option<String>)
    ensures
        events::opt(r) == ref_in(opt_node(json)),
{
    match json {
        Some(Json::Text(s)) => Some(s.clone()),
        Some(Json::Number(n)) => Some(text_of(n)),
        _ => None,
    }
}

fn read_index(json: Option<&Json>) -> (r: Option<Option<usize>>)
    ensures
        r == index_in(opt_node(json)),
{
    match json {
        None => Some(None),
        Some(Json::Null) => Some(None),
        Some(Json::Number(number)) => match unsigned_of(number) {
            Some(n) => if n <= usize::MAX as u64 {
                Some(Some(n as usize))
            } else {
                None
            },
            None => None,
        },
        _ => None,
    }
}

/// Whether a range is the two given indices.
pub open spec fn is_range(r: Option<Option<[usize; 2]>>, wanted: Option<Option<(usize, usize)>>) -> bool {
    match wanted {
        Some(Some((a, b))) => r matches Some(Some(range)) && range@[0] == a && range@[1] == b,
        Some(None) => r matches Some(None),
        None => r is None,
    }
}

fn read_range(json: Option<&Json>) -> (r: Option<Option<[usize; 2]>>)
    ensures
        is_range(r, range_in(opt_node(json))),
{
    match json {
        None => Some(None),
        Some(Json::Null) => Some(None),
        Some(Json::Array(items)) => {
            proof {
                json::lemma_array(*items);
            }
            if items.len() != 2 {
                return None;
            }
            assert(json::nodes(items@)[0] == items@[0]@);
            assert(json::nodes(items@)[1] == items@[1]@);
            match (read_index(Some(&items[0])), read_index(Some(&items[1]))) {
                (Some(Some(a)), Some(Some(b))) => Some(Some([a, b])),
                _ => None,
            }
        },
        _ => None,
    }
}

fn read_line(json: Option<&Json>) -> (r: Option<Option<i64>>)
    ensures
        r == line_in(opt_node(json)),
{
    match json {
        None => Some(None),
        Some(Json::Null) => Some(None),
        Some(Json::Number(number)) => match signed_of(number) {
            Some(n) => Some(Some(n)),
            None => None,
        },
        _ => None,
    }
}

fn read_label(json: Option<&Json>) -> (r: Option<Option<String>>)
    ensures
        match label_in(opt_node(json)) {
            Some(l) => r matches Some(o) && events::opt(o) == l,
            None => r is None,
        },
{
    match json {
        None => Some(None),
        Some(Json::Null) => Some(None),
        Some(Json::Text(s)) => Some(Some(s.clone())),
        _ => None,
    }
}

fn make_anchor(
    kind: Option<&Json>,
    ref_id: Option<&Json>,
    block_index: Option<&Json>,
    char_range: Option<&Json>,
    line: Option<&Json>,
    label: Option<&Json>,
) -> (r: Option<Anchor>)
    ensures
        is_anchor(
            mark_of(
                opt_node(kind),
                opt_node(ref_id),
                opt_node(block_index),
                opt_node(char_range),
                opt_node(line),
                opt_node(label),
            ),
            r,
        ),
{
    let kind = match kind {
        Some(Json::Text(s)) => s.clone(),
        _ => return None,
    };
    let ref_id = match read_ref(ref_id) {
        Some(s) => s,
        None => return None,
    };
    let block_index = match read_index(block_index) {
        Some(i) => i,
        None => return None,
    };
    let char_range = match read_range(char_range) {
        Some(range) => range,
        None => return None,
    };
    let line = match read_line(line) {
        Some(l) => l,
        None => return None,
    };
    let label = match read_label(label) {
        Some(l) => l,
        None => return None,
    };
    Some(Anchor { kind, ref_id, block_index, char_range, line, label })
}

/// Whether a result is the given anchor.
pub open spec fn is_anchor(mark: Option<Mark>, r: Option<Anchor>) -> bool {
    match mark {
        Some(m) => r matches Some(a) && a@ == m,
        None => r is None,
    }
}

fn item_of(items: &Vec<Json>, i: usize) -> (r: Option<&Json>)
    ensures
        opt_node(r) == item(json::nodes(items@), i as int),
{
    if i < items.len() {
        assert(json::nodes(items@)[i as int] == items@[i as int]@);
        Some(&items[i])
    } else {
        None
    }
}

fn member_of<'a>(json: &'a Json, name: &str) -> (r: Option<&'a Json>)
    ensures
        opt_node(r) == json::member(json@, name@),
{
    get(json, name)
}

/// The anchor that a JSON value writes.
pub fn read_anchor(json: &Json) -> (r: Option<Anchor>)
    ensures
        is_anchor(anchor_in(json@), r),
{
    match json {
        Json::Object(members) => {
            proof {
                json::lemma_object(*members);
            }
            make_anchor(
                member_of(json, "kind"),
                member_of(json, "ref"),
                member_of(json, "block_index"),
                member_of(json, "char_range"),
                member_of(json, "line"),
                member_of(json, "label"),
            )
        },
        Json::Array(items) => {
            proof {
                json::lemma_array(*items);
            }
            if items.len() > 6 {
                return None;
            }
            make_anchor(
                item_of(items, 0),
                item_of(items, 1),
                item_of(items, 2),
                item_of(items, 3),
                item_of(items, 4),
                item_of(items, 5),
            )
        },
        _ => None,
    }
}

/// The text that an anchor points to in a message: a block of it, or all of it, and of that the
/// given range. None where there is no such block, or where it is no text.
pub open spec fn quoted(content: Seq<Block>, mark: Mark) -> Option<Seq<char>> {
    let whole = match mark.block_index {
        Some(i) => if i < content.len() {
            blocks::source_text(content[i as int])
        } else {
            None
        },
        None => Some(text::joined(blocks::prompt_parts(content), "\n"@)),
    };
    match (whole, mark.char_range) {
        (Some(text), Some((a, b))) => Some(text::char_slice(text, a as nat, b as nat)),
        (text, _) => text,
    }
}

/// The text that an anchor points to in a message.
pub fn quote(content: &Vec<Block>, anchor: &Anchor) -> (r: Option<String>)
    ensures
        events::opt(r) == quoted(content@, anchor@),
{
    let whole = match anchor.block_index {
        Some(i) => {
            if i >= content.len() {
                return None;
            }
            match block_source_text(&content[i]) {
                Some(text) => text,
                None => return None,
            }
        },
        None => blocks_to_text(content.as_slice()),
    };
    Some(char_range(whole.as_str(), anchor.char_range))
}

/// The text that an anchor points to was read.
pub open spec fn source_read<D: Fn(&str) -> Option<Vec<Block>>>(
    pre: Trace,
    post: Trace,
    decode: D,
    mark: Mark,
    r: Result<Option<String>, DbError>,
) -> bool {
    match text::written_integer(mark.ref_id) {
        Some(id) if mark.kind == "message"@ => exists|got: Result<Option<Message>, DbError>|
            {
                &&& #[trigger] messages::message_got(pre, post, decode, id, got)
                &&& match got {
                    Ok(Some(m)) => r matches Ok(text) && events::opt(text) == quoted(
                        m.content@,
                        mark,
                    ),
                    Ok(None) => r == Ok::<Option<String>, DbError>(None),
                    Err(e) => r == Err::<Option<String>, DbError>(e),
                }
            },
        _ => post == pre && r == Ok::<Option<String>, DbError>(None),
    }
}

/// The text that an anchor points to; none where it does not point to a message, or points to
/// nothing in it.
pub fn memory_read_source<D: Fn(&str) -> Option<Vec<Block>>>(
    db: &mut Db,
    anchor: &Anchor,
    decode: &D,
) -> (r: Result<Option<String>, DbError>)
    requires
        messages::decodes(*decode),
    ensures
        source_read(old(db)@, final(db)@, *decode, anchor@, r),
{
    if !same(anchor.kind.as_str(), "message") {
        return Ok(None);
    }
    let id = match parse_integer(anchor.ref_id.as_str()) {
        Some(id) => id,
        None => return Ok(None),
    };
    match get_message_by_id(db, id, decode) {
        Ok(Some(m)) => Ok(quote(&m.content, anchor)),
        Ok(None) => Ok(None),
        Err(e) => Err(e),
    }
}

/// The JSON values that are read as anchors: the member `anchor` of a value, or the value itself;
/// a list stands for its items.
pub open spec fn anchor_values(node: Node) -> Seq<Node> {
    let value = match json::member(node, "anchor"@) {
        Some(a) => a,
        None => node,
    };
    match value {
        Node::Array(items) => items,
        _ => seq![value],
    }
}

/// The anchors that JSON values write; a value that writes none is passed over.
pub open spec fn marks_in(values: Seq<Node>) -> Seq<Mark>
    decreases values.len(),
{
    if values.len() == 0 {
        Seq::empty()
    } else {
        match anchor_in(values.last()) {
            Some(m) => marks_in(values.drop_last()).push(m),
            None => marks_in(values.drop_last()),
        }
    }
}

/// What anchors say.
pub open spec fn marks_of(anchors: Seq<Anchor>) -> Seq<Mark> {
    anchors.map_values(|a: Anchor| a@)
}

fn anchors_among(values: &Vec<Json>) -> (anchors: Vec<Anchor>)
    ensures
        marks_of(anchors@) == marks_in(json::nodes(values@)),
{
    let ghost all = json::nodes(values@);
    let mut anchors: Vec<Anchor> = Vec::new();
    let mut i: usize = 0;
    assert(marks_of(anchors@) =~= marks_in(all.take(0)));
    while i < values.len()
        invariant
            all == json::nodes(values@),
            i <= values@.len(),
            marks_of(anchors@) == marks_in(all.take(i as int)),
        decreases values.len() - i,
    {
        let ghost was = anchors@;
        assert(all.take(i + 1).drop_last() =~= all.take(i as int));
        assert(all.take(i + 1).last() == values@[i as int]@);
        match read_anchor(&values[i]) {
            Some(anchor) => {
                let ghost said = anchor@;
                anchors.push(anchor);
                assert(marks_of(anchors@) =~= marks_of(was).push(said));
            },
            None => {},
        }
        i += 1;
    }
    assert(all.take(i as int) =~= all);
    anchors
}

/// The anchors that a JSON value writes.
pub fn anchors_from(json: &Json) -> (anchors: Vec<Anchor>)
    ensures
        marks_of(anchors@) == marks_in(anchor_values(json@)),
{
    let value = match get(json, "anchor") {
        Some(a) => a,
        None => json,
    };
    match value {
        Json::Array(items) => {
            proof {
                json::lemma_array(*items);
            }
            anchors_among(items)
        },
        _ => {
            let mut anchors: Vec<Anchor> = Vec::new();
            let ghost wanted = marks_in(seq![value@]);
            assert(seq![value@].drop_last() =~= Seq::<Node>::empty());
            proof {
                reveal_with_fuel(marks_in, 2);
            }
            match read_anchor(value) {
                Some(anchor) => {
                    anchors.push(anchor);
                },
                None => {},
            }
            assert(marks_of(anchors@) =~= wanted);
            anchors
        },
    }
}

/// The texts that anchors point to were read, from the position `from` on; `found` are those that
/// were found before.
pub open spec fn sources_read<D: Fn(&str) -> Option<Vec<Block>>>(
    pre: Trace,
    post: Trace,
    decode: D,
    marks: Seq<Mark>,
    from: nat,
    found: Seq<Seq<char>>,
    r: Result<Vec<String>, DbError>,
) -> bool
    decreases marks.len() - from,
{
    if from >= marks.len() {
        post == pre && (r matches Ok(v) && text::texts(v@) == found)
    } else {
        exists|mid: Trace, got: Result<Option<String>, DbError>|
            {
                &&& #[trigger] source_read(pre, mid, decode, marks[from as int], got)
                &&& match got {
                    Ok(text) => sources_read(
                        mid,
                        post,
                        decode,
                        marks,
                        from + 1,
                        match text {
                            Some(s) => found.push(s@),
                            None => found,
                        },
                        r,
                    ),
                    Err(e) => post == mid && r == Err::<Vec<String>, DbError>(e),
                }
            }
    }
}

fn read_sources<D: Fn(&str) -> Option<Vec<Block>>>(db: &mut Db, anchors: &Vec<Anchor>, decode: &D) -> (r:
    Result<Vec<String>, DbError>)
    requires
        messages::decodes(*decode),
    ensures
        sources_read(
            old(db)@,
            final(db)@,
            *decode,
            marks_of(anchors@),
            0,
            Seq::empty(),
            r,
        ),
{
    let ghost marks = marks_of(anchors@);
    let mut found: Vec<String> = Vec::new();
    let mut i: usize = 0;
    assert(text::texts(found@) =~= Seq::<Seq<char>>::empty());
    while i < anchors.len()
        invariant
            messages::decodes(*decode),
            marks == marks_of(anchors@),
            i <= anchors@.len(),
            forall|post: Trace, r: Result<Vec<String>, DbError>| #[trigger]
                sources_read(db@, post, *decode, marks, i as nat, text::texts(found@), r)
                    ==> sources_read(old(db)@, post, *decode, marks, 0, Seq::empty(), r),
        decreases anchors.len() - i,
    {
        let ghost before = db@;
        let ghost known = text::texts(found@);
        let ghost at = i as nat;
        let got = memory_read_source(db, &anchors[i], decode);
        assert(marks[i as int] == anchors@[i as int]@);
        assert(source_read(before, db@, *decode, marks[i as int], got));
        match got {
            Ok(Some(text)) => {
                let ghost said = text@;
                found.push(text);
                assert(text::texts(found@) =~= known.push(said));
            },
            Ok(None) => {},
            Err(e) => {
                assert(sources_read(
                    before,
                    db@,
                    *decode,
                    marks,
                    at,
                    known,
                    Err::<Vec<String>, DbError>(e),
                ));
                return Err(e);
            },
        }
        i += 1;
        assert forall|post: Trace, r: Result<Vec<String>, DbError>| #[trigger]
            sources_read(db@, post, *decode, marks, i as nat, text::texts(found@), r) implies sources_read(
            old(db)@,
            post,
            *decode,
            marks,
            0,
            Seq::empty(),
            r,
        ) by {
            assert(i as nat == at + 1);
            assert(sources_read(before, post, *decode, marks, at, known, r));
        }
    }
    assert(sources_read(
        db@,
        db@,
        *decode,
        marks,
        i as nat,
        text::texts(found@),
        Ok::<Vec<String>, DbError>(found),
    ));
    Ok(found)
}

/// The texts that the anchors in a JSON value point to were read; a text that is no JSON has none.
pub open spec fn anchored_texts_read<D: Fn(&str) -> Option<Vec<Block>>>(
    pre: Trace,
    post: Trace,
    decode: D,
    parsed: Result<Node, Seq<char>>,
    r: Result<Option<String>, DbError>,
) -> bool {
    match parsed {
        Ok(node) => exists|got: Result<Vec<String>, DbError>|
            {
                &&& #[trigger] sources_read(
                    pre,
                    post,
                    decode,
                    marks_in(anchor_values(node)),
                    0,
                    Seq::empty(),
                    got,
                )
                &&& match got {
                    Ok(found) => r matches Ok(text) && events::opt(text) == if found@.len() == 0 {
                        None
                    } else {
                        Some(text::joined(text::texts(found@), "\n\n"@))
                    },
                    Err(e) => r == Err::<Option<String>, DbError>(e),
                }
            },
        Err(_) => post == pre && r == Ok::<Option<String>, DbError>(None),
    }
}

/// The texts that the anchors in a JSON value point to, as it was parsed.
pub fn read_anchored_texts<D: Fn(&str) -> Option<Vec<Block>>>(
    db: &mut Db,
    parsed: Result<Json, String>,
    decode: &D,
) -> (r: Result<Option<String>, DbError>)
    requires
        messages::decodes(*decode),
    ensures
        anchored_texts_read(
            old(db)@,
            final(db)@,
            *decode,
            match parsed {
                Ok(j) => Ok(j@),
                Err(e) => Err(e@),
            },
            r,
        ),
{
    let json = match parsed {
        Ok(json) => json,
        Err(_) => return Ok(None),
    };
    let anchors = anchors_from(&json);
    let got = read_sources(db, &anchors, decode);
    assert(sources_read(
        old(db)@,
        db@,
        *decode,
        marks_in(anchor_values(json@)),
        0,
        Seq::empty(),
        got,
    ));
    match got {
        Ok(found) => if found.len() == 0 {
            Ok(None)
        } else {
            Ok(Some(join(&found, "\n\n")))
        },
        Err(e) => Err(e),
    }
}

/// The texts that the anchors in a JSON text point to, with an empty line between each two; none
/// where they point to nothing, or where the text is no JSON.
pub fn memory_read_source_json<D: Fn(&str) -> Option<Vec<Block>>>(
    db: &mut Db,
    anchor_json: &str,
    decode: &D,
) -> (r: Result<Option<String>, DbError>)
    requires
        messages::decodes(*decode),
    ensures
        anchored_texts_read(old(db)@, final(db)@, *decode, json::json_parsed(anchor_json@), r),
{
    let parsed = parse_json(anchor_json);
    read_anchored_texts(db, parsed, decode)
}

} // verus!
