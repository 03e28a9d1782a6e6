//! What becomes of the cards of a member that has ended, and what a persisted report leaves behind, step
//! by step.
use crate::cards;
use crate::engine::{Datum, DbError, Reply, Request, Step, Trace};
use crate::events;
use crate::events::Notice;
use crate::json;
use crate::json::Node;
use crate::messages;
use crate::messages::{MsgCompletedMilestone, Report};
use crate::rows;
use crate::rows::FromRow;
use crate::trace;
use crate::tx;
use vstd::prelude::*;

verus! {

/// Whether a value has a text as the member with a name.
pub open spec fn has(node: Node, name: Seq<char>, said: Seq<char>) -> bool {
    json::member(node, name) == Some(Node::Text(said))
}

/// Whether a block is a dispatch card whose member has an assignment and is running.
pub open spec fn waits(block: Node, assignment_id: Seq<char>) -> bool {
    &&& has(block, "type"@, "dispatch_card"@)
    &&& json::member(block, "member"@) matches Some(member)
    &&& has(member, "assignment_id"@, assignment_id)
    &&& has(member, "status"@, "running"@)
}

/// Whether a card is another one whose member has ended: the member has the status, has failed unless
/// that is `done`, and has one block, a text that says the report; what else the member and the card
/// have stays.
pub open spec fn is_ended_card(
    was: Node,
    is: Node,
    status: Seq<char>,
    report: Seq<char>,
) -> bool {
    &&& json::member(was, "member"@) matches Some(before)
    &&& json::member(is, "member"@) matches Some(after)
    &&& has(after, "status"@, status)
    &&& json::member(after, "failed"@) == Some(Node::Bool(status != "done"@))
    &&& json::member(after, "blocks"@) matches Some(Node::Array(said))
    &&& said.len() == 1
    &&& has(said[0], "type"@, "text"@)
    &&& has(said[0], "text"@, report)
    &&& forall|name: Seq<char>|
        name != "status"@ && name != "failed"@ && name != "blocks"@ ==> #[trigger] json::member(
            after,
            name,
        ) == json::member(before, name)
    &&& forall|name: Seq<char>|
        name != "member"@ ==> #[trigger] json::member(is, name) == json::member(was, name)
}

/// Whether blocks are others in which every waiting card of an assignment has ended and every other
/// block has stayed.
pub open spec fn are_ended_blocks(
    was: Seq<Node>,
    is: Seq<Node>,
    assignment_id: Seq<char>,
    status: Seq<char>,
    report: Seq<char>,
) -> bool {
    &&& is.len() == was.len()
    &&& forall|i: int|
        0 <= i < was.len() ==> if waits(#[trigger] was[i], assignment_id) {
            is_ended_card(was[i], is[i], status, report)
        } else {
            is[i] == was[i]
        }
}

/// Whether there is a waiting card of an assignment in a content.
pub open spec fn content_waits(content: Seq<char>, assignment_id: Seq<char>) -> bool {
    &&& json::json_parsed(content) matches Ok(Node::Array(blocks))
    &&& exists|i: int| 0 <= i < blocks.len() && waits(#[trigger] blocks[i], assignment_id)
}

/// Whether a step reads the assistant's messages of a session, oldest first, and what they are: each
/// with its number and its content.
pub open spec fn shows_replies(
    step: Step,
    session_id: Seq<char>,
    replies: Seq<(i64, Seq<char>)>,
) -> bool {
    &&& step matches Step::Asked {
        request: Request::All { sql, params, .. },
        reply: Reply::Rows(found),
    }
    &&& sql == "SELECT id, content
               FROM messages
              WHERE session_id = ?1
                AND role = 'assistant'
              ORDER BY id ASC"@
    &&& params == seq![Datum::Text(session_id)]
    &&& found.len() == replies.len()
    &&& forall|i: int|
        0 <= i < found.len() ==> {
            &&& #[trigger] found[i] matches Ok(row)
            &&& row[0] == Datum::Integer(replies[i].0)
            &&& row[1] == Datum::Text(replies[i].1)
        }
}

/// Whether a step stores the content of a message with its waiting cards ended.
pub open spec fn stores_ended(
    step: Step,
    reply: (i64, Seq<char>),
    assignment_id: Seq<char>,
    status: Seq<char>,
    report: Seq<char>,
) -> bool {
    &&& step matches Step::Asked {
        request: Request::Execute { sql, params },
        reply: Reply::Changed(_),
    }
    &&& sql == "UPDATE messages SET content = ?2 WHERE id = ?1"@
    &&& json::json_parsed(reply.1) matches Ok(Node::Array(was))
    &&& exists|is: Seq<Node>|
        #[trigger] are_ended_blocks(was, is, assignment_id, status, report) && params == seq![
            Datum::Integer(reply.0),
            Datum::Text(json::json_printed(Node::Array(is))),
        ]
}

/// Whether the steps of a trace between two places store, of some messages, just those with waiting
/// cards, with those cards ended.
pub open spec fn stores_all_ended(
    all: Trace,
    from: int,
    to: int,
    replies: Seq<(i64, Seq<char>)>,
    first: int,
    assignment_id: Seq<char>,
    status: Seq<char>,
    report: Seq<char>,
) -> bool {
    &&& forall|i: int|
        first <= i < replies.len() && content_waits(
            (#[trigger] replies[i]).1,
            assignment_id,
        ) ==> is_stored(all, from, to, replies[i], assignment_id, status, report)
    &&& forall|k: int|
        from <= k < to ==> is_of_some(
            #[trigger] all[k],
            replies,
            first,
            assignment_id,
            status,
            report,
        )
}

/// Whether a step between two places stores a message with its waiting cards ended.
pub open spec fn is_stored(
    all: Trace,
    from: int,
    to: int,
    reply: (i64, Seq<char>),
    assignment_id: Seq<char>,
    status: Seq<char>,
    report: Seq<char>,
) -> bool {
    exists|k: int|
        from <= k < to && stores_ended(#[trigger] all[k], reply, assignment_id, status, report)
}

/// Whether a step stores one of some messages, one with waiting cards, with those ended.
pub open spec fn is_of_some(
    step: Step,
    replies: Seq<(i64, Seq<char>)>,
    first: int,
    assignment_id: Seq<char>,
    status: Seq<char>,
    report: Seq<char>,
) -> bool {
    exists|i: int|
        {
            &&& first <= i < replies.len()
            &&& content_waits((#[trigger] replies[i]).1, assignment_id)
            &&& stores_ended(step, replies[i], assignment_id, status, report)
        }
}

/// The numbers and contents of messages.
pub open spec fn contents(rows: Seq<(i64, String)>) -> Seq<(i64, Seq<char>)> {
    rows.map_values(|row: (i64, String)| (row.0, row.1@))
}

proof fn lemma_waiting_is_running(block: Node, assignment_id: Seq<char>)
    ensures
        waits(block, assignment_id) <==> cards::is_running_card(block, assignment_id),
{
}

proof fn lemma_card_is_ended(
    block: Node,
    assignment_id: Seq<char>,
    status: Seq<char>,
    report: Seq<char>,
)
    requires
        waits(block, assignment_id),
    ensures
        is_ended_card(
            block,
            cards::settled_block(block, assignment_id, status, report),
            status,
            report,
        ),
{
    lemma_waiting_is_running(block, assignment_id);
    let is = cards::settled_block(block, assignment_id, status, report);
    let before = json::member(block, "member"@)->Some_0;
    cards::law_settling_keeps_the_rest(block, assignment_id, status, report, "status"@);
    json::law_with_member(
        block->Object_0,
        "member"@,
        Node::Object(cards::ended_member(before->Object_0, status, report)),
        "member"@,
    );
    let after = json::member(is, "member"@)->Some_0;
    assert forall|name: Seq<char>|
        name != "status"@ && name != "failed"@ && name != "blocks"@ implies #[trigger] json::member(
        after,
        name,
    ) == json::member(before, name) by {
        cards::law_settling_keeps_the_rest(block, assignment_id, status, report, name);
    }
    assert forall|name: Seq<char>| name != "member"@ implies #[trigger] json::member(is, name)
        == json::member(block, name) by {
        cards::law_settling_keeps_the_rest(block, assignment_id, status, report, name);
    }
    let said = cards::report_block(report);
    let members = said->Object_0;
    reveal_strlit("text");
    reveal_strlit("type");
    assert("text"@[1] != "type"@[1]);
    json::lemma_member_bound(members, "text"@, 0);
    json::lemma_member_bound(members, "type"@, 0);
    assert(members[0].0 == "text"@ && members[1].0 == "type"@);
}

proof fn lemma_content_is_ended(
    content: Seq<char>,
    assignment_id: Seq<char>,
    status: Seq<char>,
    report: Seq<char>,
)
    ensures
        match cards::settled_content(
            json::json_parsed(content),
            assignment_id,
            status,
            report,
        ) {
            Some(node) => {
                &&& content_waits(content, assignment_id)
                &&& json::json_parsed(content) matches Ok(Node::Array(was))
                &&& node matches Node::Array(is)
                &&& are_ended_blocks(was, is, assignment_id, status, report)
            },
            None => !content_waits(content, assignment_id),
        },
{
    if let Ok(Node::Array(was)) = json::json_parsed(content) {
        assert forall|i: int| 0 <= i < was.len() implies waits(#[trigger] was[i], assignment_id)
            == cards::is_running_card(was[i], assignment_id) by {
            lemma_waiting_is_running(was[i], assignment_id);
        }
        if cards::has_running_card(was, assignment_id) {
            let is = cards::settled_blocks(was, assignment_id, status, report);
            assert forall|i: int| 0 <= i < was.len() implies if waits(
                #[trigger] was[i],
                assignment_id,
            ) {
                is_ended_card(was[i], is[i], status, report)
            } else {
                is[i] == was[i]
            } by {
                if waits(was[i], assignment_id) {
                    lemma_card_is_ended(was[i], assignment_id, status, report);
                }
            }
        }
    }
}

proof fn lemma_messages_are_ended(
    pre: Trace,
    post: Trace,
    rows: Seq<(i64, String)>,
    from: nat,
    assignment_id: Seq<char>,
    status: Seq<char>,
    report: Seq<char>,
    changed: bool,
    r: bool,
)
    requires
        cards::messages_settled(
            pre,
            post,
            rows,
            from,
            assignment_id,
            status,
            report,
            changed,
            Ok::<bool, DbError>(r),
        ),
        from <= rows.len(),
    ensures
        trace::extends(pre, post),
        stores_all_ended(
            post,
            pre.len() as int,
            post.len() as int,
            contents(rows),
            from as int,
            assignment_id,
            status,
            report,
        ),
        r <==> changed || exists|i: int|
            from <= i < rows.len() && content_waits(
                (#[trigger] contents(rows)[i]).1,
                assignment_id,
            ),
    decreases rows.len() - from,
{
    let all = contents(rows);
    let done = Ok::<bool, DbError>(r);
    if from >= rows.len() {
        assert(post.take(pre.len() as int) =~= pre);
    } else {
        let at = from as int;
        assert(all[at] == (rows[at].0, rows[at].1@));
        lemma_content_is_ended(rows[at].1@, assignment_id, status, report);
        match cards::settled_content(
            json::json_parsed(rows[at].1@),
            assignment_id,
            status,
            report,
        ) {
            None => {
                lemma_messages_are_ended(
                    pre,
                    post,
                    rows,
                    from + 1,
                    assignment_id,
                    status,
                    report,
                    changed,
                    r,
                );
                assert forall|k: int| pre.len() <= k < post.len() implies is_of_some(
                    #[trigger] post[k],
                    all,
                    at,
                    assignment_id,
                    status,
                    report,
                ) by {
                    assert(is_of_some(post[k], all, at + 1, assignment_id, status, report));
                }
            },
            Some(node) => {
                let (mid, stored) = choose|mid: Trace, stored: Result<(), DbError>|
                    {
                        &&& #[trigger] cards::settled_stored(
                            pre,
                            mid,
                            rows[at].0,
                            json::json_printed(node),
                            stored,
                        )
                        &&& match stored {
                            Ok(()) => cards::messages_settled(
                                mid,
                                post,
                                rows,
                                from + 1,
                                assignment_id,
                                status,
                                report,
                                true,
                                done,
                            ),
                            Err(e) => post == mid && done == Err::<bool, DbError>(e),
                        }
                    };
                lemma_messages_are_ended(
                    mid,
                    post,
                    rows,
                    from + 1,
                    assignment_id,
                    status,
                    report,
                    true,
                    r,
                );
                assert(mid.take(pre.len() as int) =~= pre);
                trace::lemma_extends_further(pre, mid, post);
                let k = pre.len() as int;
                trace::lemma_step_stays(mid, post, k);
                let is = node->Array_0;
                assert(stores_ended(post[k], all[at], assignment_id, status, report));
                assert forall|i: int|
                    at <= i < all.len() && content_waits(
                        (#[trigger] all[i]).1,
                        assignment_id,
                    ) implies is_stored(
                    post,
                    pre.len() as int,
                    post.len() as int,
                    all[i],
                    assignment_id,
                    status,
                    report,
                ) by {
                    if i > at {
                        assert(is_stored(
                            post,
                            mid.len() as int,
                            post.len() as int,
                            all[i],
                            assignment_id,
                            status,
                            report,
                        ));
                    }
                }
                assert forall|n: int| pre.len() <= n < post.len() implies is_of_some(
                    #[trigger] post[n],
                    all,
                    at,
                    assignment_id,
                    status,
                    report,
                ) by {
                    if n > k {
                        assert(is_of_some(post[n], all, at + 1, assignment_id, status, report));
                    }
                }
            },
        }
    }
}

/// Whether the steps of a trace between two places end the cards of an assignment: the messages of the
/// session are read, and then just those with waiting cards are stored, with those cards ended.
pub open spec fn ends_cards(
    all: Trace,
    from: int,
    to: int,
    session_id: Seq<char>,
    assignment_id: Seq<char>,
    status: Seq<char>,
    report: Seq<char>,
    replies: Seq<(i64, Seq<char>)>,
) -> bool {
    &&& from < to
    &&& shows_replies(all[from], session_id, replies)
    &&& stores_all_ended(all, from + 1, to, replies, 0, assignment_id, status, report)
}

/// To settle a member's cards ends them: of the messages of the session, every one with a waiting card
/// of the assignment is stored with the card's member ended, in the status and with the report that
/// the caller gives, and no other message is stored. The result says whether there was such a card. A
/// member that is running still has nothing to settle.
pub proof fn law_settling_ends_every_waiting_card(
    pre: Trace,
    post: Trace,
    session_id: Seq<char>,
    assignment_id: Seq<char>,
    status: Seq<char>,
    report: Seq<char>,
    r: bool,
) -> (replies: Seq<(i64, Seq<char>)>)
    requires
        cards::card_settled(
            pre,
            post,
            session_id,
            assignment_id,
            status,
            report,
            Ok::<bool, DbError>(r),
        ),
    ensures
        trace::extends(pre, post),
        status == "running"@ ==> post == pre && !r,
        status != "running"@ ==> {
            &&& ends_cards(
                post,
                pre.len() as int,
                post.len() as int,
                session_id,
                assignment_id,
                status,
                report,
                replies,
            )
            &&& r <==> exists|i: int|
                0 <= i < replies.len() && content_waits((#[trigger] replies[i]).1, assignment_id)
        },
{
    let done = Ok::<bool, DbError>(r);
    if status == "running"@ {
        assert(post.take(pre.len() as int) =~= pre);
        Seq::<(i64, Seq<char>)>::empty()
    } else {
        let (mid, got) = choose|mid: Trace, got: Result<Vec<(i64, String)>, DbError>|
            {
                &&& #[trigger] cards::replies_read(pre, mid, session_id, got)
                &&& match got {
                    Ok(rows) => cards::messages_settled(
                        mid,
                        post,
                        rows@,
                        0,
                        assignment_id,
                        status,
                        report,
                        false,
                        done,
                    ),
                    Err(e) => post == mid && done == Err::<bool, DbError>(e),
                }
            };
        let listed = got->Ok_0;
        lemma_messages_are_ended(
            mid,
            post,
            listed@,
            0,
            assignment_id,
            status,
            report,
            false,
            r,
        );
        assert(mid.take(pre.len() as int) =~= pre);
        trace::lemma_extends_further(pre, mid, post);
        let k = pre.len() as int;
        trace::lemma_step_stays(mid, post, k);
        let found = post[k]->reply->Rows_0;
        let replies = contents(listed@);
        assert forall|i: int| 0 <= i < found.len() implies {
            &&& #[trigger] found[i] matches Ok(row)
            &&& row[0] == Datum::Integer(replies[i].0)
            &&& row[1] == Datum::Text(replies[i].1)
        } by {
            assert(found[i] matches Ok(row) && listed@[i].is_row(row));
        }
        replies
    }
}

/// An optional text as a value of a row.
pub open spec fn optional(o: Option<&str>) -> Datum {
    match o {
        Some(said) => Datum::Text(said@),
        None => Datum::Null,
    }
}

/// Whether a step stores a report as an assistant's message of the team, unless the session has one
/// with its key.
pub open spec fn stores_report(step: Step, report: Report, json: Seq<char>) -> bool {
    &&& step matches Step::Asked {
        request: Request::Execute { sql, params },
        reply: Reply::Changed(_),
    }
    &&& sql
        == "INSERT OR IGNORE INTO messages (session_id, role, content, engine, agent_id, agent_name_snapshot, dedup_key, created_at) VALUES (?1, ?2, ?3, ?4, ?5, ?6, ?7, strftime('%s','now'))"@
    &&& params == seq![
        Datum::Text(report.session_id@),
        Datum::Text("assistant"@),
        Datum::Text(json),
        Datum::Text("agent-team"@),
        optional(report.agent_id),
        optional(report.agent_name_snapshot),
        Datum::Text(report.dedup_key@),
    ]
}

/// Whether a step notes that the report in a message waits to be delivered.
pub open spec fn notes_delivery(step: Step, report: Report, message_id: i64) -> bool {
    &&& step matches Step::Asked {
        request: Request::Execute { sql, params },
        reply: Reply::Changed(_),
    }
    &&& sql == "INSERT INTO member_report_delivery
                (session_id, message_id, assignment_id, delivered_at)
             VALUES (?1, ?2, ?3, NULL)"@
    &&& params == seq![
        Datum::Text(report.session_id@),
        Datum::Integer(message_id),
        optional(report.assignment_id),
    ]
}

/// Whether a report says of an assignment how its member ended.
pub open spec fn says_end(report: Report) -> bool {
    &&& report.assignment_id is Some
    &&& report.dispatch_terminal matches Some((status, _))
    &&& status@ != "running"@
}

/// Whether the steps after `start` are those of a report that was persisted: in one transaction it is
/// stored, unless its key is known; where it is stored now, that it waits to be delivered; and the
/// cards of its member are ended as it says. After the commit it is announced, where it was stored now.
/// `message_id` is the number of its message and `replies` are the messages of the session.
pub open spec fn is_persisted(
    all: Trace,
    start: int,
    report: Report,
    json: Seq<char>,
    stored: bool,
    message_id: i64,
    replies: Seq<(i64, Seq<char>)>,
) -> bool {
    let next = if stored {
        start + 5
    } else {
        start + 3
    };
    let end = if stored {
        all.len() - 2
    } else {
        all.len() - 1
    };
    &&& start + 3 < all.len()
    &&& all[start] == tx::opening()
    &&& stores_report(all[start + 1], report, json)
    &&& all[start + 2] matches Step::Asked {
        request: Request::Changes,
        reply: Reply::Count(n),
    } && stored == (n > 0)
    &&& stored ==> {
        &&& all[start + 3] == (Step::Asked {
            request: Request::LastInsertRowid,
            reply: Reply::RowId(message_id),
        })
        &&& notes_delivery(all[start + 4], report, message_id)
        &&& all.last() == Step::Published(
            Notice::MessageCompleted {
                session_id: report.session_id@,
                dedup_key: report.dedup_key@,
                message_id,
                role: "assistant"@,
                blocks: json,
                agent_name_snapshot: events::opt_str(report.agent_name_snapshot),
            },
        )
    }
    &&& if says_end(report) {
        ends_cards(
            all,
            next,
            end,
            report.session_id@,
            report.assignment_id->Some_0@,
            report.dispatch_terminal->Some_0.0@,
            report.dispatch_terminal->Some_0.1@,
            replies,
        )
    } else {
        next == end
    }
    &&& all[end] == tx::commitment()
}

proof fn lemma_report_is_settled(
    pre: Trace,
    post: Trace,
    report: Report,
) -> (replies: Seq<(i64, Seq<char>)>)
    requires
        messages::report_settled(pre, post, report, Ok::<(), DbError>(())),
    ensures
        trace::extends(pre, post),
        if says_end(report) {
            ends_cards(
                post,
                pre.len() as int,
                post.len() as int,
                report.session_id@,
                report.assignment_id->Some_0@,
                report.dispatch_terminal->Some_0.0@,
                report.dispatch_terminal->Some_0.1@,
                replies,
            )
        } else {
            post == pre
        },
{
    match (report.assignment_id, report.dispatch_terminal) {
        (Some(assignment_id), Some((status, text))) => {
            let got = choose|got: Result<bool, DbError>|
                #[trigger] cards::card_settled(
                    pre,
                    post,
                    report.session_id@,
                    assignment_id@,
                    status@,
                    text@,
                    got,
                ) && match got {
                    Ok(_) => true,
                    Err(e) => Ok::<(), DbError>(()) == Err::<(), DbError>(e),
                };
            law_settling_ends_every_waiting_card(
                pre,
                post,
                report.session_id@,
                assignment_id@,
                status@,
                text@,
                got->Ok_0,
            )
        },
        _ => {
            assert(post.take(pre.len() as int) =~= pre);
            Seq::<(i64, Seq<char>)>::empty()
        },
    }
}

proof fn lemma_ends_in_longer(
    early: Trace,
    late: Trace,
    from: int,
    to: int,
    session_id: Seq<char>,
    assignment_id: Seq<char>,
    status: Seq<char>,
    report: Seq<char>,
    replies: Seq<(i64, Seq<char>)>,
)
    requires
        trace::extends(early, late),
        0 <= from,
        to == early.len(),
        ends_cards(early, from, to, session_id, assignment_id, status, report, replies),
    ensures
        ends_cards(late, from, to, session_id, assignment_id, status, report, replies),
{
    assert forall|k: int| 0 <= k < early.len() implies #[trigger] late[k] == early[k] by {
        trace::lemma_step_stays(early, late, k);
    }
    assert forall|i: int|
        0 <= i < replies.len() && content_waits(
            (#[trigger] replies[i]).1,
            assignment_id,
        ) implies is_stored(
        late,
        from + 1,
        to,
        replies[i],
        assignment_id,
        status,
        report,
    ) by {
        assert(is_stored(early, from + 1, to, replies[i], assignment_id, status, report));
        let k = choose|k: int|
            from + 1 <= k < to && stores_ended(
                #[trigger] early[k],
                replies[i],
                assignment_id,
                status,
                report,
            );
        assert(stores_ended(late[k], replies[i], assignment_id, status, report));
    }
    assert forall|k: int| from + 1 <= k < to implies is_of_some(
        #[trigger] late[k],
        replies,
        0,
        assignment_id,
        status,
        report,
    ) by {
        assert(is_of_some(early[k], replies, 0, assignment_id, status, report));
    }
}

proof fn lemma_report_is_appended(
    pre: Trace,
    post: Trace,
    report: Report,
    json: Seq<char>,
    milestone: Option<MsgCompletedMilestone>,
)
    requires
        messages::message_appended(
            pre,
            post,
            report.session_id@,
            "assistant"@,
            json,
            Some("agent-team"@),
            events::opt_str(report.agent_id),
            events::opt_str(report.agent_name_snapshot),
            report.dedup_key@,
            Ok::<Option<MsgCompletedMilestone>, DbError>(milestone),
        ),
    ensures
        trace::extends(pre, post),
        post.len() == pre.len() + if milestone is Some {
            3int
        } else {
            2int
        },
        stores_report(post[pre.len() as int], report, json),
        post[pre.len() + 1int] matches Step::Asked {
            request: Request::Changes,
            reply: Reply::Count(n),
        } && (milestone is Some <==> n > 0),
        milestone matches Some(m) ==> {
            &&& post[pre.len() + 2int] == (Step::Asked {
                request: Request::LastInsertRowid,
                reply: Reply::RowId(m.message_id),
            })
            &&& m@ == (Notice::MessageCompleted {
                session_id: report.session_id@,
                dedup_key: report.dedup_key@,
                message_id: m.message_id,
                role: "assistant"@,
                blocks: json,
                agent_name_snapshot: events::opt_str(report.agent_name_snapshot),
            })
        },
{
    let appended = Ok::<Option<MsgCompletedMilestone>, DbError>(milestone);
    let (mid, fresh) = choose|mid: Trace, fresh: Result<bool, DbError>|
        {
            &&& #[trigger] messages::message_stored_once(
                pre,
                mid,
                report.session_id@,
                "assistant"@,
                json,
                Some("agent-team"@),
                events::opt_str(report.agent_id),
                events::opt_str(report.agent_name_snapshot),
                report.dedup_key@,
                fresh,
            )
            &&& match fresh {
                Ok(true) => {
                    &&& rows::asked(mid, post, Request::LastInsertRowid)
                    &&& rows::reply_to(post) matches Reply::RowId(message_id)
                    &&& appended matches Ok(Some(milestone))
                    &&& milestone@ == (Notice::MessageCompleted {
                        session_id: report.session_id@,
                        dedup_key: report.dedup_key@,
                        message_id,
                        role: "assistant"@,
                        blocks: json,
                        agent_name_snapshot: events::opt_str(report.agent_name_snapshot),
                    })
                },
                Ok(false) => post == mid && appended == Ok::<
                    Option<MsgCompletedMilestone>,
                    DbError,
                >(None),
                Err(e) => post == mid && appended == Err::<
                    Option<MsgCompletedMilestone>,
                    DbError,
                >(e),
            }
        };
    let first = mid.drop_last();
    assert(first.last() == first[pre.len() as int]);
    assert(mid[pre.len() as int] == first[pre.len() as int]);
    assert(mid.take(pre.len() as int) =~= first.take(pre.len() as int));
    assert(first.take(pre.len() as int) =~= pre);
    assert(post.take(pre.len() as int) =~= mid.take(pre.len() as int));
    assert(stores_report(post[pre.len() as int], report, json));
}

/// The steps of a report in its transaction: the traces after it was stored and noted, and the messages
/// of its session.
proof fn lemma_report_in_transaction(
    pre: Trace,
    post: Trace,
    report: Report,
    json: Seq<char>,
    milestone: Option<MsgCompletedMilestone>,
) -> (told: (Trace, Trace, Seq<(i64, Seq<char>)>))
    requires
        messages::report_persisted(
            pre,
            post,
            report,
            json,
            Ok::<Option<MsgCompletedMilestone>, DbError>(milestone),
        ),
    ensures
        messages::message_appended(
            pre,
            told.0,
            report.session_id@,
            "assistant"@,
            json,
            Some("agent-team"@),
            events::opt_str(report.agent_id),
            events::opt_str(report.agent_name_snapshot),
            report.dedup_key@,
            Ok::<Option<MsgCompletedMilestone>, DbError>(milestone),
        ),
        match milestone {
            Some(m) => {
                &&& told.1.len() == told.0.len() + 1
                &&& notes_delivery(told.1.last(), report, m.message_id)
            },
            None => told.1 == told.0,
        },
        trace::extends(told.0, told.1),
        trace::extends(told.1, post),
        if says_end(report) {
            ends_cards(
                post,
                told.1.len() as int,
                post.len() as int,
                report.session_id@,
                report.assignment_id->Some_0@,
                report.dispatch_terminal->Some_0.0@,
                report.dispatch_terminal->Some_0.1@,
                told.2,
            )
        } else {
            post == told.1
        },
{
    let got = Ok::<Option<MsgCompletedMilestone>, DbError>(milestone);
    let (t1, appended) = choose|t1: Trace, appended: Result<Option<MsgCompletedMilestone>, DbError>|
        {
            &&& #[trigger] messages::message_appended(
                pre,
                t1,
                report.session_id@,
                "assistant"@,
                json,
                Some("agent-team"@),
                events::opt_str(report.agent_id),
                events::opt_str(report.agent_name_snapshot),
                report.dedup_key@,
                appended,
            )
            &&& match appended {
                Ok(milestone) => exists|t2: Trace, noted: Result<(), DbError>|
                    {
                        &&& #[trigger] messages::delivery_noted(
                            t1,
                            t2,
                            report.session_id@,
                            events::opt_str(report.assignment_id),
                            milestone,
                            noted,
                        )
                        &&& match noted {
                            Ok(()) => exists|settled: Result<(), DbError>|
                                {
                                    &&& #[trigger] messages::report_settled(
                                        t2,
                                        post,
                                        report,
                                        settled,
                                    )
                                    &&& got == match settled {
                                        Ok(()) => appended,
                                        Err(e) => Err(e),
                                    }
                                },
                            Err(e) => post == t2 && got == Err::<
                                Option<MsgCompletedMilestone>,
                                DbError,
                            >(e),
                        }
                    },
                Err(e) => post == t1 && got == appended,
            }
        };
    let (t2, noted) = choose|t2: Trace, noted: Result<(), DbError>|
        {
            &&& #[trigger] messages::delivery_noted(
                t1,
                t2,
                report.session_id@,
                events::opt_str(report.assignment_id),
                appended->Ok_0,
                noted,
            )
            &&& match noted {
                Ok(()) => exists|settled: Result<(), DbError>|
                    {
                        &&& #[trigger] messages::report_settled(t2, post, report, settled)
                        &&& got == match settled {
                            Ok(()) => appended,
                            Err(e) => Err(e),
                        }
                    },
                Err(e) => post == t2 && got == Err::<Option<MsgCompletedMilestone>, DbError>(e),
            }
        };
    let settled = choose|settled: Result<(), DbError>|
        {
            &&& #[trigger] messages::report_settled(t2, post, report, settled)
            &&& got == match settled {
                Ok(()) => appended,
                Err(e) => Err(e),
            }
        };
    let replies = lemma_report_is_settled(t2, post, report);
    assert(t2.take(t1.len() as int) =~= t1);
    (t1, t2, replies)
}

/// A report that is persisted ends the cards of its member as it says: every waiting card of its
/// assignment in the messages of its session gets the status of the report, has failed exactly where
/// that is not `done`, and says the text of the report. It is stored, noted for delivery and announced
/// with what the caller gives, once.
pub proof fn law_persisted_report_ends_its_cards(
    pre: Trace,
    post: Trace,
    report: Report,
    json: Seq<char>,
    stored: bool,
) -> (told: (i64, Seq<(i64, Seq<char>)>))
    requires
        messages::report_announced(pre, post, report, json, Ok::<bool, DbError>(stored)),
    ensures
        trace::extends(pre, post),
        is_persisted(post, pre.len() as int, report, json, stored, told.0, told.1),
{
    let r = Ok::<bool, DbError>(stored);
    let (mid, got) = choose|mid: Trace, got: Result<Option<MsgCompletedMilestone>, DbError>|
        {
            &&& #[trigger] messages::report_transacted(pre, mid, report, json, got)
            &&& match got {
                Ok(milestone) => messages::milestone_announced(mid, post, milestone, r),
                Err(e) => post == mid && r == Err::<bool, DbError>(e),
            }
        };
    let body = |a: Trace, b: Trace, x: Result<Option<MsgCompletedMilestone>, DbError>|
        messages::report_persisted(a, b, report, json, x);
    tx::law_transaction_outcome(pre, mid, body, got);
    let inner = choose|inner: Trace|
        #[trigger] body(pre.push(tx::opening()), inner, got) && mid == inner.push(
            tx::commitment(),
        );
    let opened = pre.push(tx::opening());
    assert(messages::report_persisted(opened, inner, report, json, got));
    let milestone = got->Ok_0;
    let (t1, t2, replies) = lemma_report_in_transaction(opened, inner, report, json, milestone);
    lemma_report_is_appended(opened, t1, report, json, milestone);
    let p = pre.len() as int;
    assert(post.take(inner.len() as int) =~= inner);
    assert forall|k: int| 0 <= k < t2.len() implies #[trigger] t2[k] == post[k] by {
        trace::lemma_step_stays(t2, inner, k);
        trace::lemma_step_stays(inner, post, k);
    }
    assert forall|k: int| 0 <= k < t1.len() implies #[trigger] t1[k] == post[k] by {
        trace::lemma_step_stays(t1, t2, k);
    }
    trace::lemma_step_stays(opened, t1, p);
    assert(post[p] == opened[p]);
    assert(post[p + 1] == t1[p + 1] && post[p + 2] == t1[p + 2]);
    let message_id = if stored {
        milestone->Some_0.message_id
    } else {
        0
    };
    if stored {
        assert(post[p + 3] == t1[p + 3]);
        assert(post[p + 4] == t2[p + 4]);
        assert(t2.last() == t2[p + 4]);
    }
    assert(trace::extends(pre, post)) by {
        assert(opened.take(p) =~= pre);
        trace::lemma_extends_further(pre, opened, t1);
        trace::lemma_extends_further(pre, t1, t2);
        trace::lemma_extends_further(pre, t2, inner);
        trace::lemma_extends_further(pre, inner, post);
    }
    if says_end(report) {
        lemma_ends_in_longer(
            inner,
            post,
            t2.len() as int,
            inner.len() as int,
            report.session_id@,
            report.assignment_id->Some_0@,
            report.dispatch_terminal->Some_0.0@,
            report.dispatch_terminal->Some_0.1@,
            replies,
        );
    }
    assert(post[inner.len() as int] == mid[inner.len() as int]);
    (message_id, replies)
}

} // verus!
