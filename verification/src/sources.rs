//! What is quoted of messages: the text of their blocks, the anchors that point into them, and the texts
//! that anchors point to.
use crate::anchors;
use crate::anchors::Mark;
use crate::blocks;
use crate::blocks::Block;
use crate::engine::{DbError, Trace};
use crate::events;
use crate::json;
use crate::json::Node;
use crate::messages;
use crate::messages::Message;
use crate::selection;
use crate::text;
use vstd::prelude::*;

verus! {

/// The line of a prompt that a block gives: a text says itself, the card of a run how many files it
/// changed, and no other block gives a line.
pub open spec fn line_of(block: Block) -> Option<Seq<char>> {
    match block {
        Block::Text { text } => Some(text@),
        Block::RunCard { files_changed, .. } => Some(
            "[This run changed "@ + text::decimal(files_changed as nat) + " files]"@,
        ),
        _ => None,
    }
}

/// The lines of a prompt are those that its blocks give, in their order, and none is left out.
pub proof fn law_prompt_has_every_line(content: Seq<Block>) -> (places: Seq<int>)
    ensures
        selection::is_made_of(
            content,
            |block: Block| line_of(block),
            blocks::prompt_parts(content),
            places,
        ),
    decreases content.len(),
{
    let made = |block: Block| line_of(block);
    if content.len() == 0 {
        selection::lemma_made_of_none(content, made);
        Seq::<int>::empty()
    } else {
        let fewer = content.drop_last();
        let places = law_prompt_has_every_line(fewer);
        selection::lemma_made_of_one_more(content, made, blocks::prompt_parts(fewer), places);
        if line_of(content.last()) is Some {
            places.push(content.len() - 1)
        } else {
            places
        }
    }
}

/// Texts that are joined stand one after the other with the separator between each two: one text stands
/// alone, and one more is put behind the others and a separator.
pub proof fn law_joined_texts_stand_in_turn(
    parts: Seq<Seq<char>>,
    one: Seq<char>,
    separator: Seq<char>,
)
    ensures
        text::joined(Seq::<Seq<char>>::empty(), separator).len() == 0,
        text::joined(seq![one], separator) == one,
        parts.len() > 0 ==> text::joined(parts.push(one), separator) == text::joined(
            parts,
            separator,
        ) + separator + one,
{
    assert(parts.push(one).drop_last() =~= parts);
}

/// Whether a text is the part of another one between two places, counted in characters; a place beyond
/// the end is the end.
pub open spec fn is_part(whole: Seq<char>, from: int, to: int, part: Seq<char>) -> bool {
    let start = if from < whole.len() {
        from
    } else {
        whole.len() as int
    };
    let end = if to < whole.len() {
        to
    } else {
        whole.len() as int
    };
    &&& part.len() == if start < end {
        end - start
    } else {
        0
    }
    &&& forall|k: int| 0 <= k < part.len() ==> #[trigger] part[k] == whole[start + k]
}

/// What an anchor quotes of a message is the text of the block that it names, or the lines of the whole
/// message where it names none, and of that the range that it gives, or all of it. It quotes nothing
/// where there is no such block, or where that is neither a text nor a thought.
pub proof fn law_anchor_quotes_what_it_points_to(content: Seq<Block>, mark: Mark)
    ensures
        ({
            let whole = match mark.block_index {
                Some(i) => if i < content.len() {
                    match content[i as int] {
                        Block::Text { text } => Some(text@),
                        Block::Thinking { text } => Some(text@),
                        _ => None,
                    }
                } else {
                    None
                },
                None => Some(text::joined(blocks::prompt_parts(content), "\n"@)),
            };
            match whole {
                Some(said) => anchors::quoted(content, mark) matches Some(part) && (
                match mark.char_range {
                    Some((a, b)) => is_part(said, a as int, b as int, part),
                    None => part == said,
                }),
                None => anchors::quoted(content, mark) is None,
            }
        }),
{
}

/// Whether a value is missing: there is none, or it is null.
pub open spec fn is_missing(node: Option<Node>) -> bool {
    node is None || node == Some(Node::Null)
}

/// Whether a value is an index: a number that is an unsigned integer.
pub open spec fn is_index(node: Option<Node>, n: usize) -> bool {
    node matches Some(Node::Number { unsigned: Some(k), .. }) && k == n
}

/// An object with a kind and an id, and, as far as it has them, an index of a block, a range, a line
/// and a label, is read as the anchor with these; a missing part is none of the anchor's.
pub proof fn law_anchor_is_read_by_its_parts(members: Seq<(Seq<char>, Node)>, mark: Mark)
    requires
        json::member(Node::Object(members), "kind"@) == Some(Node::Text(mark.kind)),
        match json::member(Node::Object(members), "ref"@) {
            Some(Node::Text(said)) => said == mark.ref_id,
            Some(Node::Number { text, .. }) => text == mark.ref_id,
            _ => false,
        },
        match mark.block_index {
            Some(n) => is_index(json::member(Node::Object(members), "block_index"@), n),
            None => is_missing(json::member(Node::Object(members), "block_index"@)),
        },
        match mark.char_range {
            Some((a, b)) => json::member(Node::Object(members), "char_range"@) matches Some(
                Node::Array(items),
            ) && items.len() == 2 && is_index(Some(items[0]), a) && is_index(Some(items[1]), b),
            None => is_missing(json::member(Node::Object(members), "char_range"@)),
        },
        match mark.line {
            Some(n) => json::member(Node::Object(members), "line"@) matches Some(
                Node::Number { signed: Some(k), .. },
            ) && k == n,
            None => is_missing(json::member(Node::Object(members), "line"@)),
        },
        match mark.label {
            Some(said) => json::member(Node::Object(members), "label"@) == Some(Node::Text(said)),
            None => is_missing(json::member(Node::Object(members), "label"@)),
        },
    ensures
        anchors::anchor_in(Node::Object(members)) == Some(mark),
{
}

/// The item of a list at a place, as far as the list has one.
pub open spec fn part_at(items: Seq<Node>, i: int) -> Option<Node> {
    if i < items.len() {
        Some(items[i])
    } else {
        None
    }
}

/// A list of up to six parts, in the order kind, id, index of a block, range, line and label, is read as
/// the anchor with these; a part that the list does not reach is none of the anchor's. A longer list is
/// no anchor.
pub proof fn law_anchor_is_read_by_its_places(items: Seq<Node>, mark: Mark)
    requires
        items.len() > 6 || {
            &&& part_at(items, 0) == Some(Node::Text(mark.kind))
            &&& match part_at(items, 1) {
                Some(Node::Text(said)) => said == mark.ref_id,
                Some(Node::Number { text, .. }) => text == mark.ref_id,
                _ => false,
            }
            &&& match mark.block_index {
                Some(n) => is_index(part_at(items, 2), n),
                None => is_missing(part_at(items, 2)),
            }
            &&& match mark.char_range {
                Some((a, b)) => part_at(items, 3) matches Some(Node::Array(range)) && range.len()
                    == 2 && is_index(Some(range[0]), a) && is_index(Some(range[1]), b),
                None => is_missing(part_at(items, 3)),
            }
            &&& match mark.line {
                Some(n) => part_at(items, 4) matches Some(Node::Number { signed: Some(k), .. })
                    && k == n,
                None => is_missing(part_at(items, 4)),
            }
            &&& match mark.label {
                Some(said) => part_at(items, 5) == Some(Node::Text(said)),
                None => is_missing(part_at(items, 5)),
            }
        },
    ensures
        anchors::anchor_in(Node::Array(items)) == if items.len() > 6 {
            None
        } else {
            Some(mark)
        },
{
}

/// A value without a kind that is a text, or without an id that is a text or a number, is no anchor.
pub proof fn law_anchor_has_a_kind_and_an_id(node: Node)
    ensures
        node is Object && !(json::member(node, "kind"@) matches Some(Node::Text(_)))
            ==> anchors::anchor_in(node) is None,
        node is Object && !(json::member(node, "ref"@) matches Some(Node::Text(_))) && !(
        json::member(node, "ref"@) matches Some(Node::Number { .. })) ==> anchors::anchor_in(
            node,
        ) is None,
        !(node is Object) && !(node is Array) ==> anchors::anchor_in(node) is None,
{
}

/// The anchors that a list writes are those of its values, in their order, and none is left out: the
/// values that write none are passed over.
pub proof fn law_every_anchor_is_taken(values: Seq<Node>) -> (places: Seq<int>)
    ensures
        selection::is_made_of(
            values,
            |node: Node| anchors::anchor_in(node),
            anchors::marks_in(values),
            places,
        ),
    decreases values.len(),
{
    let made = |node: Node| anchors::anchor_in(node);
    if values.len() == 0 {
        selection::lemma_made_of_none(values, made);
        Seq::<int>::empty()
    } else {
        let fewer = values.drop_last();
        let places = law_every_anchor_is_taken(fewer);
        selection::lemma_made_of_one_more(values, made, anchors::marks_in(fewer), places);
        if anchors::anchor_in(values.last()) is Some {
            places.push(values.len() - 1)
        } else {
            places
        }
    }
}

/// The anchors of a value are looked for in its member `anchor`, where it has one, and else in itself; a
/// list holds one in each of its items, and any other value is one itself.
pub proof fn law_anchors_are_looked_for(node: Node)
    ensures
        json::member(node, "anchor"@) matches Some(Node::Array(items)) ==> anchors::anchor_values(
            node,
        ) == items,
        json::member(node, "anchor"@) matches Some(value) ==> value is Array
            || anchors::anchor_values(node) == seq![value],
        node matches Node::Array(items) ==> anchors::anchor_values(node) == items,
        json::member(node, "anchor"@) is None && !(node is Array) ==> anchors::anchor_values(node)
            == seq![node],
{
}

/// Whether the text that an anchor points to was read: of the message whose number it writes, as far as
/// it points to a message; and nothing is asked where it does not.
pub open spec fn is_read<D: Fn(&str) -> Option<Vec<Block>>>(
    pre: Trace,
    post: Trace,
    decode: D,
    mark: Mark,
    found: Option<Seq<char>>,
) -> bool {
    match text::written_integer(mark.ref_id) {
        Some(id) if mark.kind == "message"@ => exists|message: Option<Message>|
            {
                &&& #[trigger] messages::message_got(
                    pre,
                    post,
                    decode,
                    id,
                    Ok::<Option<Message>, DbError>(message),
                )
                &&& found == match message {
                    Some(m) => anchors::quoted(m.content@, mark),
                    None => None,
                }
            },
        _ => post == pre && found is None,
    }
}

/// Whether texts were read for anchors, one after the other: `stages` are the traces before, between
/// and after them.
pub open spec fn are_read<D: Fn(&str) -> Option<Vec<Block>>>(
    stages: Seq<Trace>,
    decode: D,
    marks: Seq<Mark>,
    from: int,
    found: Seq<Option<Seq<char>>>,
) -> bool {
    &&& stages.len() == found.len() + 1
    &&& found.len() == marks.len() - from
    &&& forall|k: int|
        0 <= k < found.len() ==> is_read(
            stages[k],
            stages[k + 1],
            decode,
            marks[from + k],
            #[trigger] found[k],
        )
}

/// The texts that were found, those that were not left out.
pub open spec fn present(found: Seq<Option<Seq<char>>>) -> Seq<Seq<char>>
    decreases found.len(),
{
    if found.len() == 0 {
        Seq::empty()
    } else {
        let rest = present(found.drop_first());
        match found[0] {
            Some(said) => seq![said] + rest,
            None => rest,
        }
    }
}

/// The texts that are read for anchors are those that they point to, each read of its own message, in
/// the order of the anchors; an anchor that points to nothing adds none.
pub proof fn law_texts_are_read_in_turn<D: Fn(&str) -> Option<Vec<Block>>>(
    pre: Trace,
    post: Trace,
    decode: D,
    marks: Seq<Mark>,
    from: nat,
    before: Seq<Seq<char>>,
    v: Vec<String>,
) -> (told: (Seq<Trace>, Seq<Option<Seq<char>>>))
    requires
        anchors::sources_read(
            pre,
            post,
            decode,
            marks,
            from,
            before,
            Ok::<Vec<String>, DbError>(v),
        ),
        from <= marks.len(),
    ensures
        are_read(told.0, decode, marks, from as int, told.1),
        told.0.first() == pre,
        told.0.last() == post,
        text::texts(v@) == before + present(told.1),
    decreases marks.len() - from,
{
    let done = Ok::<Vec<String>, DbError>(v);
    if from >= marks.len() {
        let none = Seq::<Option<Seq<char>>>::empty();
        assert(before + present(none) =~= before);
        (seq![pre], none)
    } else {
        let mark = marks[from as int];
        let (mid, got) = choose|mid: Trace, got: Result<Option<String>, DbError>|
            {
                &&& #[trigger] anchors::source_read(pre, mid, decode, mark, got)
                &&& match got {
                    Ok(text) => anchors::sources_read(
                        mid,
                        post,
                        decode,
                        marks,
                        from + 1,
                        match text {
                            Some(s) => before.push(s@),
                            None => before,
                        },
                        done,
                    ),
                    Err(e) => post == mid && done == Err::<Vec<String>, DbError>(e),
                }
            };
        let first = events::opt(got->Ok_0);
        lemma_one_is_read(pre, mid, decode, mark, got->Ok_0);
        let grown = match first {
            Some(s) => before.push(s),
            None => before,
        };
        let (stages, found) = law_texts_are_read_in_turn(
            mid,
            post,
            decode,
            marks,
            from + 1,
            grown,
            v,
        );
        let more = seq![pre] + stages;
        let all = seq![first] + found;
        assert(all.drop_first() =~= found);
        assert(all[0] == first);
        assert(more[0] == pre && more[1] == stages[0]);
        assert forall|k: int| 0 <= k < all.len() implies is_read(
            more[k],
            more[k + 1],
            decode,
            marks[from + k],
            #[trigger] all[k],
        ) by {
            if k > 0 {
                assert(all[k] == found[k - 1]);
                assert(more[k] == stages[k - 1] && more[k + 1] == stages[k]);
                assert(is_read(
                    stages[k - 1],
                    stages[k - 1 + 1],
                    decode,
                    marks[from + 1 + (k - 1)],
                    found[k - 1],
                ));
            }
        }
        assert(grown + present(found) =~= before + present(all));
        (more, all)
    }
}

proof fn lemma_one_is_read<D: Fn(&str) -> Option<Vec<Block>>>(
    pre: Trace,
    post: Trace,
    decode: D,
    mark: Mark,
    r: Option<String>,
)
    requires
        anchors::source_read(pre, post, decode, mark, Ok::<Option<String>, DbError>(r)),
    ensures
        is_read(pre, post, decode, mark, events::opt(r)),
{
    let done = Ok::<Option<String>, DbError>(r);
    if text::written_integer(mark.ref_id) is Some && mark.kind == "message"@ {
        let id = text::written_integer(mark.ref_id)->Some_0;
        let got = choose|got: Result<Option<Message>, DbError>|
            {
                &&& #[trigger] messages::message_got(pre, post, decode, id, got)
                &&& match got {
                    Ok(Some(m)) => done matches Ok(text) && events::opt(text) == anchors::quoted(
                        m.content@,
                        mark,
                    ),
                    Ok(None) => done == Ok::<Option<String>, DbError>(None),
                    Err(e) => done == Err::<Option<String>, DbError>(e),
                }
            };
        assert(messages::message_got(
            pre,
            post,
            decode,
            id,
            Ok::<Option<Message>, DbError>(got->Ok_0),
        ));
    }
}

/// The texts that a JSON value's anchors point to are given as one, with an empty line between each
/// two; there is none where they point to nothing, and none where the value is no JSON.
pub proof fn law_anchored_texts_are_given<D: Fn(&str) -> Option<Vec<Block>>>(
    pre: Trace,
    post: Trace,
    decode: D,
    node: Node,
    r: Option<String>,
) -> (told: (Seq<Trace>, Seq<Option<Seq<char>>>))
    requires
        anchors::anchored_texts_read(
            pre,
            post,
            decode,
            Ok::<Node, Seq<char>>(node),
            Ok::<Option<String>, DbError>(r),
        ),
    ensures
        are_read(told.0, decode, anchors::marks_in(anchors::anchor_values(node)), 0, told.1),
        told.0.first() == pre,
        told.0.last() == post,
        events::opt(r) == if present(told.1).len() == 0 {
            None
        } else {
            Some(text::joined(present(told.1), "\n\n"@))
        },
{
    let marks = anchors::marks_in(anchors::anchor_values(node));
    let done = Ok::<Option<String>, DbError>(r);
    let got = choose|got: Result<Vec<String>, DbError>|
        {
            &&& #[trigger] anchors::sources_read(pre, post, decode, marks, 0, Seq::empty(), got)
            &&& match got {
                Ok(found) => done matches Ok(text) && events::opt(text) == if found@.len() == 0 {
                    None
                } else {
                    Some(text::joined(text::texts(found@), "\n\n"@))
                },
                Err(e) => done == Err::<Option<String>, DbError>(e),
            }
        };
    let told = law_texts_are_read_in_turn(
        pre,
        post,
        decode,
        marks,
        0,
        Seq::<Seq<char>>::empty(),
        got->Ok_0,
    );
    assert(Seq::<Seq<char>>::empty() + present(told.1) =~= present(told.1));
    told
}

} // verus!
