//! The cards in the messages of a session: those of members that were sent out, and those of
//! decisions.
use vstd::prelude::*;

use crate::engine::{Datum, Db, DbError, Reply, Request, Step, Trace};
use crate::events::{self, opt_owned, Milestone, Notice};
use crate::json::{
    self,
    find_member,
    get,
    get_text,
    has_text,
    parse_json,
    print_json,
    set_member,
    Json,
    Node,
};
use crate::rows::{self, FromRow, list, p_int, p_text, params1, params2, run};
use crate::text::{self, same};
use crate::trace;
use crate::tx::{self, begin, finish};

verus! {

/// The text of a report as a block.
pub open spec fn report_block(text: Seq<char>) -> Node {
    Node::Object(seq![("text"@, Node::Text(text)), ("type"@, Node::Text("text"@))])
}

fn make_report_block(text: &str) -> (json: Json)
    ensures
        json@ == report_block(text@),
{
    let mut members: Vec<(String, Json)> = Vec::new();
    members.push(("text".to_string(), Json::Text(text.to_string())));
    members.push(("type".to_string(), Json::Text("text".to_string())));
    assert(json::members_of(members@) =~= seq![
        ("text"@, Node::Text(text@)),
        ("type"@, Node::Text("text"@)),
    ]);
    proof {
        json::lemma_object(members);
    }
    Json::Object(members)
}

/// Whether a member is the running one with an assignment.
pub open spec fn runs(member: Node, assignment_id: Seq<char>) -> bool {
    &&& member is Object
    &&& json::says(member, "assignment_id"@, assignment_id)
    &&& json::says(member, "status"@, "running"@)
}

/// Whether a block is the card of the running member with an assignment.
pub open spec fn is_running_card(block: Node, assignment_id: Seq<char>) -> bool {
    &&& block is Object
    &&& json::says(block, "type"@, "dispatch_card"@)
    &&& json::member(block, "member"@) matches Some(m)
    &&& runs(m, assignment_id)
}

/// A member that has ended: with its status, whether that is a failure, and its report in place of
/// what it said.
pub open spec fn ended_member(
    members: Seq<(Seq<char>, Node)>,
    status: Seq<char>,
    report: Seq<char>,
) -> Seq<(Seq<char>, Node)> {
    json::with_member(
        json::with_member(
            json::with_member(members, "status"@, Node::Text(status)),
            "failed"@,
            Node::Bool(status != "done"@),
        ),
        "blocks"@,
        Node::Array(seq![report_block(report)]),
    )
}

/// A block with the card of the running member settled; any other block stays.
pub open spec fn settled_block(
    block: Node,
    assignment_id: Seq<char>,
    status: Seq<char>,
    report: Seq<char>,
) -> Node {
    if is_running_card(block, assignment_id) {
        Node::Object(
            json::with_member(
                block->Object_0,
                "member"@,
                Node::Object(
                    ended_member(json::member(block, "member"@)->Some_0->Object_0, status, report),
                ),
            ),
        )
    } else {
        block
    }
}

/// Blocks with the cards of the running member settled.
pub open spec fn settled_blocks(
    blocks: Seq<Node>,
    assignment_id: Seq<char>,
    status: Seq<char>,
    report: Seq<char>,
) -> Seq<Node> {
    blocks.map_values(|block: Node| settled_block(block, assignment_id, status, report))
}

/// Whether there is a card of the running member among blocks.
pub open spec fn has_running_card(blocks: Seq<Node>, assignment_id: Seq<char>) -> bool {
    exists|i: int| 0 <= i < blocks.len() && is_running_card(#[trigger] blocks[i], assignment_id)
}

fn end_member(members: &mut Vec<(String, Json)>, status: &str, report: &str)
    ensures
        json::members_of(final(members)@) == ended_member(
            json::members_of(old(members)@),
            status@,
            report@,
        ),
{
    set_member(members, "status", Json::Text(status.to_string()));
    set_member(members, "failed", Json::Bool(!same(status, "done")));
    let block = make_report_block(report);
    let ghost said = block@;
    let mut blocks: Vec<Json> = Vec::new();
    blocks.push(block);
    assert(json::nodes(blocks@) =~= seq![said]);
    proof {
        json::lemma_array(blocks);
    }
    set_member(members, "blocks", Json::Array(blocks));
}

fn is_running(json: &Json, assignment_id: &str) -> (r: bool)
    ensures
        r == is_running_card(json@, assignment_id@),
{
    match json {
        Json::Object(_) => {
            if !has_text(json, "type", "dispatch_card") {
                return false;
            }
            match get(json, "member") {
                Some(m) => {
                    match m {
                        Json::Object(_) => has_text(m, "assignment_id", assignment_id) && has_text(
                            m,
                            "status",
                            "running",
                        ),
                        _ => false,
                    }
                },
                None => false,
            }
        },
        _ => false,
    }
}

fn settle_members(members: &mut Vec<(String, Json)>, at: usize, status: &str, report: &str)
    requires
        at < old(members)@.len(),
        json::member_from(json::members_of(old(members)@), "member"@, 0) == Some(at as nat),
        old(members)@[at as int].0@ == "member"@,
        old(members)@[at as int].1@ is Object,
    ensures
        json::members_of(final(members)@) == json::with_member(
            json::members_of(old(members)@),
            "member"@,
            Node::Object(
                ended_member(
                    old(members)@[at as int].1@->Object_0,
                    status@,
                    report@,
                ),
            ),
        ),
{
    let ghost was = json::members_of(members@);
    let mut entry = ("member".to_string(), Json::Null);
    std::mem::swap(&mut entry, &mut members[at]);
    let (_, found) = entry;
    match found {
        Json::Object(mut inner) => {
            proof {
                json::lemma_object(inner);
            }
            end_member(&mut inner, status, report);
            proof {
                json::lemma_object(inner);
            }
            let settled = Json::Object(inner);
            let ghost said = settled@;
            members.set(at, ("member".to_string(), settled));
            assert(json::members_of(members@) =~= was.update(at as int, ("member"@, said)));
        },
        _ => {},
    }
}

fn settle_block(
    block: &mut Json,
    assignment_id: &str,
    status: &str,
    report: &str,
) -> (changed: bool)
    ensures
        changed == is_running_card(old(block)@, assignment_id@),
        final(block)@ == settled_block(old(block)@, assignment_id@, status@, report@),
{
    if !is_running(block, assignment_id) {
        return false;
    }
    let mut taken = Json::Null;
    std::mem::swap(&mut taken, block);
    match taken {
        Json::Object(mut members) => {
            proof {
                json::lemma_object(members);
                json::lemma_member_bound(json::members_of(members@), "member"@, 0);
            }
            match find_member(&members, "member") {
                Some(at) => {
                    assert(json::members_of(members@)[at as int] == (
                        members@[at as int].0@,
                        members@[at as int].1@,
                    ));
                    settle_members(&mut members, at, status, report);
                },
                None => {},
            }
            proof {
                json::lemma_object(members);
            }
            *block = Json::Object(members);
        },
        other => {
            *block = other;
        },
    }
    true
}

fn settle_blocks(blocks: &mut Vec<Json>, assignment_id: &str, status: &str, report: &str) -> (changed:
    bool)
    ensures
        changed == has_running_card(json::nodes(old(blocks)@), assignment_id@),
        json::nodes(final(blocks)@) == settled_blocks(
            json::nodes(old(blocks)@),
            assignment_id@,
            status@,
            report@,
        ),
{
    let ghost was = json::nodes(blocks@);
    let ghost wanted = settled_blocks(was, assignment_id@, status@, report@);
    let mut changed = false;
    let mut i: usize = 0;
    let n: usize = blocks.len();
    while i < n
        invariant
            was == json::nodes(old(blocks)@),
            wanted == settled_blocks(was, assignment_id@, status@, report@),
            i <= n == was.len(),
            blocks@.len() == n,
            forall|k: int| 0 <= k < i ==> #[trigger] blocks@[k]@ == wanted[k],
            forall|k: int| i <= k < n ==> #[trigger] blocks@[k]@ == was[k],
            changed == exists|k: int|
                0 <= k < i && is_running_card(#[trigger] was[k], assignment_id@),
        decreases n - i,
    {
        assert(blocks@[i as int]@ == was[i as int]);
        let one = settle_block(&mut blocks[i], assignment_id, status, report);
        if one {
            assert(is_running_card(was[i as int], assignment_id@));
            changed = true;
        }
        assert(blocks@[i as int]@ == wanted[i as int]);
        i += 1;
    }
    assert(json::nodes(blocks@) =~= wanted);
    changed
}

/// What becomes of a message's content when the cards of the running member are settled; none
/// where it has no such card.
pub open spec fn settled_content(
    content: Result<Node, Seq<char>>,
    assignment_id: Seq<char>,
    status: Seq<char>,
    report: Seq<char>,
) -> Option<Node> {
    match content {
        Ok(Node::Array(blocks)) => if has_running_card(blocks, assignment_id) {
            Some(Node::Array(settled_blocks(blocks, assignment_id, status, report)))
        } else {
            None
        },
        _ => None,
    }
}

/// What becomes of a message's content, as it was parsed, when the cards of the running member are
/// settled; none where it has no such card.
pub fn settle_content(
    parsed: Result<Json, String>,
    assignment_id: &str,
    status: &str,
    report: &str,
) -> (r: Option<Json>)
    ensures
        match settled_content(
            match parsed {
                Ok(j) => Ok(j@),
                Err(e) => Err(e@),
            },
            assignment_id@,
            status@,
            report@,
        ) {
            Some(node) => r matches Some(j) && j@ == node,
            None => r is None,
        },
{
    match parsed {
        Ok(Json::Array(mut blocks)) => {
            proof {
                json::lemma_array(blocks);
            }
            if settle_blocks(&mut blocks, assignment_id, status, report) {
                proof {
                    json::lemma_array(blocks);
                }
                Some(Json::Array(blocks))
            } else {
                None
            }
        },
        _ => None,
    }
}

/// Settling cards changes only the cards of the running member: a card that is settled is not
/// running any more, so that nothing is left to settle.
pub proof fn law_settled_cards_stay(
    block: Node,
    assignment_id: Seq<char>,
    status: Seq<char>,
    report: Seq<char>,
)
    requires
        status != "running"@,
    ensures
        !is_running_card(block, assignment_id) ==> settled_block(
            block,
            assignment_id,
            status,
            report,
        ) == block,
        !is_running_card(settled_block(block, assignment_id, status, report), assignment_id),
{
    if is_running_card(block, assignment_id) {
        let outer = block->Object_0;
        let inner = json::member(block, "member"@)->Some_0->Object_0;
        let one = json::with_member(inner, "status"@, Node::Text(status));
        let two = json::with_member(one, "failed"@, Node::Bool(status != "done"@));
        let last = ended_member(inner, status, report);
        reveal_strlit("status");
        reveal_strlit("failed");
        reveal_strlit("blocks");
        assert("status"@[0] != "failed"@[0]);
        assert("status"@[0] != "blocks"@[0]);
        json::law_with_member(inner, "status"@, Node::Text(status), "status"@);
        json::law_with_member(one, "failed"@, Node::Bool(status != "done"@), "status"@);
        json::law_with_member(
            two,
            "blocks"@,
            Node::Array(seq![report_block(report)]),
            "status"@,
        );
        assert(!json::says(Node::Object(last), "status"@, "running"@));
        json::law_with_member(outer, "member"@, Node::Object(last), "member"@);
    }
}

/// What settling a card does not speak of stays: of the card, every member but `member`, and of that
/// one, every member but its status, whether it failed, and its blocks.
pub proof fn law_settling_keeps_the_rest(
    block: Node,
    assignment_id: Seq<char>,
    status: Seq<char>,
    report: Seq<char>,
    name: Seq<char>,
)
    requires
        is_running_card(block, assignment_id),
    ensures
        ({
            let settled = settled_block(block, assignment_id, status, report);
            let was = json::member(block, "member"@)->Some_0;
            let is = json::member(settled, "member"@)->Some_0;
            &&& name != "member"@ ==> json::member(settled, name) == json::member(block, name)
            &&& json::member(is, "status"@) == Some(Node::Text(status))
            &&& json::member(is, "failed"@) == Some(Node::Bool(status != "done"@))
            &&& json::member(is, "blocks"@) == Some(Node::Array(seq![report_block(report)]))
            &&& name != "status"@ && name != "failed"@ && name != "blocks"@ ==> json::member(
                is,
                name,
            )
                == json::member(was, name)
        }),
{
    let inner = json::member(block, "member"@)->Some_0->Object_0;
    let one = json::with_member(inner, "status"@, Node::Text(status));
    let failed = Node::Bool(status != "done"@);
    let two = json::with_member(one, "failed"@, failed);
    let blocks = Node::Array(seq![report_block(report)]);
    let last = ended_member(inner, status, report);
    reveal_strlit("status");
    reveal_strlit("failed");
    reveal_strlit("blocks");
    assert("status"@[0] == 's' && "failed"@[0] == 'f' && "blocks"@[0] == 'b');
    json::law_with_member(block->Object_0, "member"@, Node::Object(last), name);
    json::law_with_member(inner, "status"@, Node::Text(status), name);
    json::law_with_member(one, "failed"@, failed, name);
    json::law_with_member(one, "failed"@, failed, "status"@);
    json::law_with_member(two, "blocks"@, blocks, name);
    json::law_with_member(two, "blocks"@, blocks, "status"@);
    json::law_with_member(two, "blocks"@, blocks, "failed"@);
}

pub const SQL_READ_REPLIES: &'static str = "SELECT id, content
               FROM messages
              WHERE session_id = ?1
                AND role = 'assistant'
              ORDER BY id ASC";

/// The assistant's messages of a session were read.
pub open spec fn replies_read(
    pre: Trace,
    post: Trace,
    session_id: Seq<char>,
    r: Result<Vec<(i64, String)>, DbError>,
) -> bool {
    rows::listed(pre, post, SQL_READ_REPLIES@, seq![Datum::Text(session_id)], r)
}

fn read_replies(db: &mut Db, session_id: &str) -> (r: Result<Vec<(i64, String)>, DbError>)
    ensures
        replies_read(old(db)@, final(db)@, session_id@, r),
{
    list(db, SQL_READ_REPLIES, params1(p_text(session_id)))
}

pub const SQL_STORE_SETTLED: &'static str = "UPDATE messages SET content = ?2 WHERE id = ?1";

/// The content of a message was stored.
pub open spec fn settled_stored(
    pre: Trace,
    post: Trace,
    message_id: i64,
    json: Seq<char>,
    r: Result<(), DbError>,
) -> bool {
    rows::executed(
        pre,
        post,
        SQL_STORE_SETTLED@,
        seq![Datum::Integer(message_id), Datum::Text(json)],
        r,
    )
}

fn store_settled(db: &mut Db, message_id: i64, json: &str) -> (r: Result<(), DbError>)
    ensures
        settled_stored(old(db)@, final(db)@, message_id, json@, r),
{
    run(db, SQL_STORE_SETTLED, params2(p_int(message_id), p_text(json)))
}

/// The cards in messages were settled, from the position `from` on; `changed` says whether one was
/// before.
pub open spec fn messages_settled(
    pre: Trace,
    post: Trace,
    rows: Seq<(i64, String)>,
    from: nat,
    assignment_id: Seq<char>,
    status: Seq<char>,
    report: Seq<char>,
    changed: bool,
    r: Result<bool, DbError>,
) -> bool
    decreases rows.len() - from,
{
    if from >= rows.len() {
        post == pre && r == Ok::<bool, DbError>(changed)
    } else {
        match settled_content(
            json::json_parsed(rows[from as int].1@),
            assignment_id,
            status,
            report,
        ) {
            None => messages_settled(
                pre,
                post,
                rows,
                from + 1,
                assignment_id,
                status,
                report,
                changed,
                r,
            ),
            Some(node) => exists|mid: Trace, done: Result<(), DbError>|
                {
                    &&& #[trigger] settled_stored(
                        pre,
                        mid,
                        rows[from as int].0,
                        json::json_printed(node),
                        done,
                    )
                    &&& match done {
                        Ok(()) => messages_settled(
                            mid,
                            post,
                            rows,
                            from + 1,
                            assignment_id,
                            status,
                            report,
                            true,
                            r,
                        ),
                        Err(e) => post == mid && r == Err::<bool, DbError>(e),
                    }
                },
        }
    }
}

fn settle_messages(
    db: &mut Db,
    rows: &Vec<(i64, String)>,
    assignment_id: &str,
    status: &str,
    report: &str,
) -> (r: Result<bool, DbError>)
    ensures
        messages_settled(
            old(db)@,
            final(db)@,
            rows@,
            0,
            assignment_id@,
            status@,
            report@,
            false,
            r,
        ),
{
    let mut changed = false;
    let mut i: usize = 0;
    while i < rows.len()
        invariant
            i <= rows@.len(),
            forall|post: Trace, r: Result<bool, DbError>| #[trigger]
                messages_settled(
                    db@,
                    post,
                    rows@,
                    i as nat,
                    assignment_id@,
                    status@,
                    report@,
                    changed,
                    r,
                ) ==> messages_settled(
                    old(db)@,
                    post,
                    rows@,
                    0,
                    assignment_id@,
                    status@,
                    report@,
                    false,
                    r,
                ),
        decreases rows.len() - i,
    {
        let ghost before = db@;
        let ghost so_far = changed;
        let ghost at = i as nat;
        let parsed = parse_json(rows[i].1.as_str());
        match settle_content(parsed, assignment_id, status, report) {
            Some(content) => {
                let json = print_json(&content);
                let done = store_settled(db, rows[i].0, json.as_str());
                assert(settled_stored(
                    before,
                    db@,
                    rows@[at as int].0,
                    json::json_printed(content@),
                    done,
                ));
                match done {
                    Ok(()) => {
                        changed = true;
                    },
                    Err(e) => {
                        assert(messages_settled(
                            before,
                            db@,
                            rows@,
                            at,
                            assignment_id@,
                            status@,
                            report@,
                            so_far,
                            Err::<bool, DbError>(e),
                        ));
                        return Err(e);
                    },
                }
            },
            None => {},
        }
        i += 1;
        assert forall|post: Trace, r: Result<bool, DbError>| #[trigger]
            messages_settled(
                db@,
                post,
                rows@,
                i as nat,
                assignment_id@,
                status@,
                report@,
                changed,
                r,
            ) implies messages_settled(
            old(db)@,
            post,
            rows@,
            0,
            assignment_id@,
            status@,
            report@,
            false,
            r,
        ) by {
            assert(i as nat == at + 1);
            assert(messages_settled(
                before,
                post,
                rows@,
                at,
                assignment_id@,
                status@,
                report@,
                so_far,
                r,
            ));
        }
    }
    assert(messages_settled(
        db@,
        db@,
        rows@,
        i as nat,
        assignment_id@,
        status@,
        report@,
        changed,
        Ok::<bool, DbError>(changed),
    ));
    Ok(changed)
}

/// The cards of the running member with an assignment were settled.
pub open spec fn card_settled(
    pre: Trace,
    post: Trace,
    session_id: Seq<char>,
    assignment_id: Seq<char>,
    status: Seq<char>,
    report: Seq<char>,
    r: Result<bool, DbError>,
) -> bool {
    if status == "running"@ {
        post == pre && r == Ok::<bool, DbError>(false)
    } else {
        exists|mid: Trace, got: Result<Vec<(i64, String)>, DbError>|
            {
                &&& #[trigger] replies_read(pre, mid, session_id, got)
                &&& match got {
                    Ok(rows) => messages_settled(
                        mid,
                        post,
                        rows@,
                        0,
                        assignment_id,
                        status,
                        report,
                        false,
                        r,
                    ),
                    Err(e) => post == mid && r == Err::<bool, DbError>(e),
                }
            }
    }
}

/// Settles the cards of a member that has ended, in the messages of a session: each card of the
/// running member with this assignment gets its status and its report. Whether there was one. A
/// member that is running still has nothing to settle.
pub fn update_dispatch_card_terminal(
    db: &mut Db,
    session_id: &str,
    assignment_id: &str,
    status: &str,
    report_text: &str,
) -> (r: Result<bool, DbError>)
    ensures
        card_settled(
            old(db)@,
            final(db)@,
            session_id@,
            assignment_id@,
            status@,
            report_text@,
            r,
        ),
{
    if same(status, "running") {
        return Ok(false);
    }
    let got = read_replies(db, session_id);
    assert(replies_read(old(db)@, db@, session_id@, got));
    match got {
        Ok(rows) => settle_messages(db, &rows, assignment_id, status, report_text),
        Err(e) => Err(e),
    }
}

/// Whether a block is the card of a decision.
pub open spec fn is_decision_card(block: Node, decision_id: Seq<char>) -> bool {
    json::says(block, "type"@, "decision_card"@) && json::says(block, "decision_id"@, decision_id)
}

/// The position of the first card of a decision among blocks, from `from` on.
pub open spec fn card_from(blocks: Seq<Node>, decision_id: Seq<char>, from: nat) -> Option<nat>
    decreases blocks.len() - from,
{
    if from >= blocks.len() {
        None
    } else if is_decision_card(blocks[from as int], decision_id) {
        Some(from)
    } else {
        card_from(blocks, decision_id, from + 1)
    }
}

fn find_card(blocks: &Vec<Json>, decision_id: &str) -> (r: Option<usize>)
    ensures
        match r {
            Some(i) => i < blocks@.len() && card_from(json::nodes(blocks@), decision_id@, 0) == Some(
                i as nat,
            ),
            None => card_from(json::nodes(blocks@), decision_id@, 0) is None,
        },
{
    let mut i: usize = 0;
    while i < blocks.len()
        invariant
            i <= blocks@.len(),
            card_from(json::nodes(blocks@), decision_id@, 0) == card_from(
                json::nodes(blocks@),
                decision_id@,
                i as nat,
            ),
        decreases blocks.len() - i,
    {
        assert(json::nodes(blocks@)[i as int] == blocks@[i as int]@);
        if has_text(&blocks[i], "type", "decision_card") && has_text(
            &blocks[i],
            "decision_id",
            decision_id,
        ) {
            return Some(i);
        }
        i += 1;
    }
    None
}

/// The blocks of a content that has the card of a decision, and where the card is.
pub open spec fn card_in(content: Result<Node, Seq<char>>, decision_id: Seq<char>) -> Option<
    (Seq<Node>, nat),
> {
    match content {
        Ok(Node::Array(blocks)) => match card_from(blocks, decision_id, 0) {
            Some(i) => Some((blocks, i)),
            None => None,
        },
        _ => None,
    }
}

/// The position of the first of several texts whose content has the card of a decision, from
/// `from` on.
pub open spec fn hit_from(contents: Seq<Seq<char>>, decision_id: Seq<char>, from: nat) -> Option<
    nat,
>
    decreases contents.len() - from,
{
    if from >= contents.len() {
        None
    } else if card_in(json::json_parsed(contents[from as int]), decision_id) is Some {
        Some(from)
    } else {
        hit_from(contents, decision_id, from + 1)
    }
}

/// A card with its decision made.
pub open spec fn decided_card(
    card: Node,
    status: Seq<char>,
    chosen_option: Option<Seq<char>>,
) -> Node {
    let marked = json::with_member(card->Object_0, "status"@, Node::Text(status));
    Node::Object(
        match chosen_option {
            Some(option) => json::with_member(marked, "chosen_option"@, Node::Text(option)),
            None => marked,
        },
    )
}

fn decide_card(card: &mut Json, status: &str, chosen_option: Option<&str>)
    requires
        old(card)@ is Object,
    ensures
        final(card)@ == decided_card(old(card)@, status@, events::opt_str(chosen_option)),
{
    let mut taken = Json::Null;
    std::mem::swap(&mut taken, card);
    match taken {
        Json::Object(mut members) => {
            proof {
                json::lemma_object(members);
            }
            set_member(&mut members, "status", Json::Text(status.to_string()));
            match chosen_option {
                Some(option) => {
                    set_member(&mut members, "chosen_option", Json::Text(option.to_string()));
                },
                None => {},
            }
            proof {
                json::lemma_object(members);
            }
            *card = Json::Object(members);
        },
        other => {
            *card = other;
        },
    }
}

/// What becomes of a content with the card of a decision: the blocks with the card decided, where
/// its status is the expected one.
pub open spec fn decided_content(
    blocks: Seq<Node>,
    at: nat,
    expect_status: Seq<char>,
    next_status: Seq<char>,
    chosen_option: Option<Seq<char>>,
) -> Option<Node> {
    if json::says(blocks[at as int], "status"@, expect_status) {
        Some(
            Node::Array(
                blocks.update(
                    at as int,
                    decided_card(blocks[at as int], next_status, chosen_option),
                ),
            ),
        )
    } else {
        None
    }
}

/// What became of the card of a decision in a content: there was none, it was not in the expected
/// status, or it was decided.
pub enum Decided {
    Absent,
    Refused,
    Made(Json),
}

/// Decides a card in a content, as it was parsed, where its status is the expected one.
pub fn decide_content(
    parsed: Result<Json, String>,
    decision_id: &str,
    expect_status: &str,
    next_status: &str,
    chosen_option: Option<&str>,
) -> (r: Decided)
    ensures
        match card_in(
            match parsed {
                Ok(j) => Ok(j@),
                Err(e) => Err(e@),
            },
            decision_id@,
        ) {
            None => r is Absent,
            Some((blocks, at)) => match decided_content(
                blocks,
                at,
                expect_status@,
                next_status@,
                events::opt_str(chosen_option),
            ) {
                None => r is Refused,
                Some(node) => r matches Decided::Made(j) && j@ == node,
            },
        },
{
    match parsed {
        Ok(Json::Array(mut blocks)) => {
            proof {
                json::lemma_array(blocks);
            }
            let at = match find_card(&blocks, decision_id) {
                Some(at) => at,
                None => return Decided::Absent,
            };
            let ghost was = json::nodes(blocks@);
            proof {
                lemma_card_is_found(was, decision_id@, 0);
            }
            assert(was[at as int] == blocks@[at as int]@);
            if !has_text(&blocks[at], "status", expect_status) {
                return Decided::Refused;
            }
            decide_card(&mut blocks[at], next_status, chosen_option);
            assert(json::nodes(blocks@) =~= was.update(
                at as int,
                decided_card(was[at as int], next_status@, events::opt_str(chosen_option)),
            ));
            proof {
                json::lemma_array(blocks);
            }
            Decided::Made(Json::Array(blocks))
        },
        _ => Decided::Absent,
    }
}

proof fn lemma_card_is_found(blocks: Seq<Node>, decision_id: Seq<char>, from: nat)
    ensures
        card_from(blocks, decision_id, from) matches Some(i) ==> from <= i < blocks.len()
            && is_decision_card(blocks[i as int], decision_id) && blocks[i as int] is Object,
    decreases blocks.len() - from,
{
    if from < blocks.len() && !is_decision_card(blocks[from as int], decision_id) {
        lemma_card_is_found(blocks, decision_id, from + 1);
    }
}

pub const SQL_READ_CONTENTS: &'static str = "SELECT id, content FROM messages WHERE session_id = ?1 ORDER BY id ASC";

/// The ids and contents of a session's messages were read.
pub open spec fn contents_read(
    pre: Trace,
    post: Trace,
    session_id: Seq<char>,
    r: Result<Vec<(i64, String)>, DbError>,
) -> bool {
    rows::listed(pre, post, SQL_READ_CONTENTS@, seq![Datum::Text(session_id)], r)
}

fn read_contents(db: &mut Db, session_id: &str) -> (r: Result<Vec<(i64, String)>, DbError>)
    ensures
        contents_read(old(db)@, final(db)@, session_id@, r),
{
    list(db, SQL_READ_CONTENTS, params1(p_text(session_id)))
}

pub const SQL_STORE_DECIDED: &'static str = "UPDATE messages SET content = ?1 WHERE id = ?2";

/// The contents of messages.
pub open spec fn contents_of(rows: Seq<(i64, String)>) -> Seq<Seq<char>> {
    rows.map_values(|row: (i64, String)| row.1@)
}

/// A decision.
pub struct Decision<'a> {
    pub decision_id: &'a str,
    pub expect_status: &'a str,
    pub next_status: &'a str,
    pub chosen_option: Option<&'a str>,
}

/// The first card of a decision in messages was decided, where its status is the expected one; the
/// text that was stored reads back as the decided content where that has no real numbers.
pub open spec fn decision_made_in(
    pre: Trace,
    post: Trace,
    rows: Seq<(i64, String)>,
    decision: Decision,
    r: Result<bool, DbError>,
) -> bool {
    match hit_from(contents_of(rows), decision.decision_id@, 0) {
        None => post == pre && r == Ok::<bool, DbError>(false),
        Some(i) => {
            let hit = card_in(json::json_parsed(rows[i as int].1@), decision.decision_id@)->Some_0;
            match decided_content(
                hit.0,
                hit.1,
                decision.expect_status@,
                decision.next_status@,
                events::opt_str(decision.chosen_option),
            ) {
                None => post == pre && r == Ok::<bool, DbError>(false),
                Some(node) => {
                    &&& rows::yields(
                        pre,
                        post,
                        SQL_STORE_DECIDED@,
                        seq![
                            Datum::Text(json::json_printed(node)),
                            Datum::Integer(rows[i as int].0),
                        ],
                        true,
                        r,
                    )
                    &&& json::is_plain(node, json::DEPTH as nat) ==> json::reads_as(
                        json::json_printed(node),
                        node,
                    )
                },
            }
        },
    }
}

fn make_decision_in(db: &mut Db, rows: &Vec<(i64, String)>, decision: &Decision) -> (r: Result<
    bool,
    DbError,
>)
    ensures
        decision_made_in(old(db)@, final(db)@, rows@, *decision, r),
{
    let ghost contents = contents_of(rows@);
    let mut i: usize = 0;
    while i < rows.len()
        invariant
            contents == contents_of(rows@),
            i <= rows@.len(),
            db@ == old(db)@,
            hit_from(contents, decision.decision_id@, 0) == hit_from(
                contents,
                decision.decision_id@,
                i as nat,
            ),
        decreases rows.len() - i,
    {
        assert(contents[i as int] == rows@[i as int].1@);
        let parsed = parse_json(rows[i].1.as_str());
        match decide_content(
            parsed,
            decision.decision_id,
            decision.expect_status,
            decision.next_status,
            decision.chosen_option,
        ) {
            Decided::Absent => {},
            Decided::Refused => return Ok(false),
            Decided::Made(content) => {
                let json = print_json(&content);
                return match run(
                    db,
                    SQL_STORE_DECIDED,
                    params2(p_text(json.as_str()), p_int(rows[i].0)),
                ) {
                    Ok(()) => Ok(true),
                    Err(e) => Err(e),
                };
            },
        }
        i += 1;
    }
    Ok(false)
}

/// The card of a decision was decided in the messages that were read.
pub open spec fn decision_made_from(
    mid: Trace,
    post: Trace,
    decision: Decision,
    got: Result<Vec<(i64, String)>, DbError>,
    r: Result<bool, DbError>,
) -> bool {
    match got {
        Ok(rows) => decision_made_in(mid, post, rows@, decision, r),
        Err(e) => post == mid && r == Err::<bool, DbError>(e),
    }
}

/// The card of a decision was looked up in a session's messages, and decided.
pub open spec fn decision_made(
    pre: Trace,
    post: Trace,
    session_id: Seq<char>,
    decision: Decision,
    r: Result<bool, DbError>,
) -> bool {
    exists|mid: Trace, got: Result<Vec<(i64, String)>, DbError>|
        {
            &&& #[trigger] contents_read(pre, mid, session_id, got)
            &&& decision_made_from(mid, post, decision, got, r)
        }
}

fn make_decision(db: &mut Db, session_id: &str, decision: &Decision) -> (r: Result<bool, DbError>)
    ensures
        decision_made(old(db)@, final(db)@, session_id@, *decision, r),
{
    let got = read_contents(db, session_id);
    assert(contents_read(old(db)@, db@, session_id@, got));
    match got {
        Ok(rows) => make_decision_in(db, &rows, decision),
        Err(e) => Err(e),
    }
}

/// A decision was made in one transaction.
pub open spec fn decision_transacted(
    pre: Trace,
    post: Trace,
    session_id: Seq<char>,
    decision: Decision,
    r: Result<bool, DbError>,
) -> bool {
    tx::transacted(
        pre,
        post,
        |a: Trace, b: Trace, x: Result<bool, DbError>|
            decision_made(a, b, session_id, decision, x),
        r,
    )
}

fn make_decision_atomically(db: &mut Db, session_id: &str, decision: &Decision) -> (r: Result<
    bool,
    DbError,
>)
    ensures
        decision_transacted(old(db)@, final(db)@, session_id@, *decision, r),
{
    match begin(db) {
        Ok(()) => {},
        Err(e) => return Err(e),
    }
    let ghost opened = db@;
    let ghost body = |a: Trace, b: Trace, x: Result<bool, DbError>|
        decision_made(a, b, session_id@, *decision, x);
    let inner = make_decision(db, session_id, decision);
    assert(body(opened, db@, inner));
    finish(db, inner)
}

/// A decision was announced where the card was decided.
pub open spec fn decision_told(
    mid: Trace,
    post: Trace,
    session_id: Seq<char>,
    decision: Decision,
    r: Result<bool, DbError>,
) -> bool {
    rows::announced(
        mid,
        post,
        r == Ok::<bool, DbError>(true),
        Notice::CardResolved {
            session_id,
            decision_id: decision.decision_id@,
            status: decision.next_status@,
            chosen_option: events::opt_str(decision.chosen_option),
        },
    )
}

/// A decision was made in one transaction, and announced after the commit where the card was
/// decided.
pub open spec fn decision_announced(
    pre: Trace,
    post: Trace,
    session_id: Seq<char>,
    decision: Decision,
    r: Result<bool, DbError>,
) -> bool {
    exists|mid: Trace|
        {
            &&& #[trigger] decision_transacted(pre, mid, session_id, decision, r)
            &&& decision_told(mid, post, session_id, decision, r)
        }
}

/// Decides the card of a decision, provided that it is in the expected status, in one transaction;
/// announces that after the commit. Whether the card was decided: of two callers that expect the
/// same status only the first is told so. Blocks that are no such card are kept as they are.
pub fn update_decision_card_status(
    db: &mut Db,
    session_id: &str,
    decision_id: &str,
    expect_status: &str,
    next_status: &str,
    chosen_option: Option<&str>,
) -> (r: Result<bool, DbError>)
    ensures
        decision_announced(
            old(db)@,
            final(db)@,
            session_id@,
            (Decision { decision_id, expect_status, next_status, chosen_option }),
            r,
        ),
{
    let decision = Decision { decision_id, expect_status, next_status, chosen_option };
    let r = make_decision_atomically(db, session_id, &decision);
    let ghost mid = db@;
    assert(decision_transacted(old(db)@, mid, session_id@, decision, r));
    match r {
        Ok(true) => {
            db.publish(
                Milestone::CardResolved {
                    session_id: session_id.to_string(),
                    decision_id: decision_id.to_string(),
                    status: next_status.to_string(),
                    chosen_option: opt_owned(chosen_option),
                },
            );
        },
        _ => {},
    }
    r
}

proof fn lemma_decided_card(
    card: Node,
    decision_id: Seq<char>,
    next_status: Seq<char>,
    chosen_option: Option<Seq<char>>,
)
    requires
        is_decision_card(card, decision_id),
    ensures
        is_decision_card(decided_card(card, next_status, chosen_option), decision_id),
        json::says(decided_card(card, next_status, chosen_option), "status"@, next_status),
{
    reveal_strlit("status");
    reveal_strlit("type");
    reveal_strlit("decision_id");
    reveal_strlit("chosen_option");
    assert("status"@[0] == 's');
    assert("type"@[0] == 't');
    assert("decision_id"@[0] == 'd');
    assert("chosen_option"@[0] == 'c');
    let members = card->Object_0;
    let marked = json::with_member(members, "status"@, Node::Text(next_status));
    json::law_with_member(members, "status"@, Node::Text(next_status), "type"@);
    json::law_with_member(members, "status"@, Node::Text(next_status), "decision_id"@);
    if let Some(option) = chosen_option {
        json::law_with_member(marked, "chosen_option"@, Node::Text(option), "status"@);
        json::law_with_member(marked, "chosen_option"@, Node::Text(option), "type"@);
        json::law_with_member(marked, "chosen_option"@, Node::Text(option), "decision_id"@);
    }
}

/// Of two decisions that expect the same status only one is made: a card that was decided is in
/// the next status, so that where that is another one, a second decision is refused.
pub proof fn law_decided_once(
    card: Node,
    decision_id: Seq<char>,
    expect_status: Seq<char>,
    next_status: Seq<char>,
    chosen_option: Option<Seq<char>>,
)
    requires
        is_decision_card(card, decision_id),
        json::says(card, "status"@, expect_status),
        next_status != expect_status,
    ensures
        is_decision_card(decided_card(card, next_status, chosen_option), decision_id),
        json::says(decided_card(card, next_status, chosen_option), "status"@, next_status),
        !json::says(decided_card(card, next_status, chosen_option), "status"@, expect_status),
{
    lemma_decided_card(card, decision_id, next_status, chosen_option);
}

/// What a decision does not speak of stays: every member of the card but its status and, where an
/// option was chosen, that option.
pub proof fn law_deciding_keeps_the_rest(
    card: Node,
    status: Seq<char>,
    chosen_option: Option<Seq<char>>,
    name: Seq<char>,
)
    requires
        card is Object,
        name != "status"@,
        name != "chosen_option"@ || chosen_option is None,
    ensures
        json::member(decided_card(card, status, chosen_option), name) == json::member(card, name),
        chosen_option matches Some(option) ==> json::member(
            decided_card(card, status, chosen_option),
            "chosen_option"@,
        ) == Some(Node::Text(option)),
{
    let marked = json::with_member(card->Object_0, "status"@, Node::Text(status));
    json::law_with_member(card->Object_0, "status"@, Node::Text(status), name);
    if let Some(option) = chosen_option {
        json::law_with_member(marked, "chosen_option"@, Node::Text(option), name);
    }
}

/// A decision is announced only after it was committed, and exactly where the result says that the
/// card was decided.
pub proof fn law_decision_announced_after_commit(
    pre: Trace,
    post: Trace,
    session_id: Seq<char>,
    decision: Decision,
    r: Result<bool, DbError>,
)
    requires
        decision_announced(pre, post, session_id, decision, r),
    ensures
        post.last() is Published <==> r == Ok::<bool, DbError>(true),
        post.last() is Published ==> post.drop_last().last() == tx::commitment(),
{
    let mid = choose|mid: Trace|
        {
            &&& #[trigger] decision_transacted(pre, mid, session_id, decision, r)
            &&& decision_told(mid, post, session_id, decision, r)
        };
    tx::law_transaction_outcome(
        pre,
        mid,
        |a: Trace, b: Trace, x: Result<bool, DbError>|
            decision_made(a, b, session_id, decision, x),
        r,
    );
    if r == Ok::<bool, DbError>(true) {
        assert(post.drop_last() =~= mid);
    }
}

pub const SQL_READ_BARE_CONTENTS: &'static str = "SELECT content FROM messages WHERE session_id = ?1 ORDER BY id ASC";

/// The contents of a session's messages were read.
pub open spec fn bare_contents_read(
    pre: Trace,
    post: Trace,
    session_id: Seq<char>,
    r: Result<Vec<String>, DbError>,
) -> bool {
    rows::listed(pre, post, SQL_READ_BARE_CONTENTS@, seq![Datum::Text(session_id)], r)
}

fn read_bare_contents(db: &mut Db, session_id: &str) -> (r: Result<Vec<String>, DbError>)
    ensures
        bare_contents_read(old(db)@, final(db)@, session_id@, r),
{
    list(db, SQL_READ_BARE_CONTENTS, params1(p_text(session_id)))
}

/// The text of a member, empty where there is none.
pub open spec fn text_or_empty(node: Node, name: Seq<char>) -> Seq<char> {
    match json::text_in(json::member(node, name)) {
        Some(s) => s,
        None => Seq::empty(),
    }
}

fn read_text(json: &Json, name: &str) -> (s: String)
    ensures
        s@ == text_or_empty(json@, name@),
{
    match get_text(json, name) {
        Some(s) => s.clone(),
        None => String::new(),
    }
}

/// The question and the status of the card of a decision in a content.
pub open spec fn card_text(content: Result<Node, Seq<char>>, decision_id: Seq<char>) -> Option<
    (Seq<char>, Seq<char>),
> {
    match card_in(content, decision_id) {
        Some((blocks, at)) => Some(
            (
                text_or_empty(blocks[at as int], "question"@),
                text_or_empty(blocks[at as int], "status"@),
            ),
        ),
        None => None,
    }
}

/// The question and the status of the card of a decision in a content, as it was parsed.
pub fn read_card(parsed: &Result<Json, String>, decision_id: &str) -> (r: Option<(String, String)>)
    ensures
        match card_text(
            match *parsed {
                Ok(j) => Ok(j@),
                Err(e) => Err(e@),
            },
            decision_id@,
        ) {
            Some((question, status)) => r matches Some((q, s)) && q@ == question && s@ == status,
            None => r is None,
        },
{
    match parsed {
        Ok(Json::Array(blocks)) => {
            proof {
                json::lemma_array(*blocks);
            }
            match find_card(blocks, decision_id) {
                Some(at) => {
                    assert(json::nodes(blocks@)[at as int] == blocks@[at as int]@);
                    Some((read_text(&blocks[at], "question"), read_text(&blocks[at], "status")))
                },
                None => None,
            }
        },
        _ => None,
    }
}

/// Whether a result is the question and the status of the first card of a decision in contents.
pub open spec fn card_found(
    contents: Seq<Seq<char>>,
    decision_id: Seq<char>,
    r: Option<(String, String)>,
) -> bool {
    match hit_from(contents, decision_id, 0) {
        Some(i) => {
            let texts = card_text(json::json_parsed(contents[i as int]), decision_id)->Some_0;
            r matches Some((q, s)) && q@ == texts.0 && s@ == texts.1
        },
        None => r is None,
    }
}

/// The result is the question and the status of the card of a decision, of the contents that were
/// read.
pub open spec fn card_taken(
    decision_id: Seq<char>,
    got: Result<Vec<String>, DbError>,
    r: Result<Option<(String, String)>, DbError>,
) -> bool {
    match got {
        Ok(contents) => r matches Ok(found) && card_found(
            text::texts(contents@),
            decision_id,
            found,
        ),
        Err(e) => r == Err::<Option<(String, String)>, DbError>(e),
    }
}

/// The card of a decision was looked up in a session's messages.
pub open spec fn card_looked_up(
    pre: Trace,
    post: Trace,
    session_id: Seq<char>,
    decision_id: Seq<char>,
    r: Result<Option<(String, String)>, DbError>,
) -> bool {
    exists|got: Result<Vec<String>, DbError>|
        {
            &&& #[trigger] bare_contents_read(pre, post, session_id, got)
            &&& card_taken(decision_id, got, r)
        }
}

/// The question and the status of the card of a decision in a session's messages, if there is one.
pub fn find_decision_card(db: &mut Db, session_id: &str, decision_id: &str) -> (r: Result<
    Option<(String, String)>,
    DbError,
>)
    ensures
        card_looked_up(old(db)@, final(db)@, session_id@, decision_id@, r),
{
    let got = read_bare_contents(db, session_id);
    let ghost post = db@;
    assert(bare_contents_read(old(db)@, post, session_id@, got));
    let contents = match got {
        Ok(contents) => contents,
        Err(e) => return Err(e),
    };
    let ghost all = text::texts(contents@);
    let mut i: usize = 0;
    while i < contents.len()
        invariant
            all == text::texts(contents@),
            i <= contents@.len(),
            bare_contents_read(old(db)@, db@, session_id@, Ok::<Vec<String>, DbError>(contents)),
            hit_from(all, decision_id@, 0) == hit_from(all, decision_id@, i as nat),
        decreases contents.len() - i,
    {
        assert(all[i as int] == contents@[i as int]@);
        let parsed = parse_json(contents[i].as_str());
        match read_card(&parsed, decision_id) {
            Some(found) => return Ok(Some(found)),
            None => {},
        }
        i += 1;
    }
    Ok(None)
}

proof fn lemma_hit_bound(contents: Seq<Seq<char>>, decision_id: Seq<char>, from: nat)
    ensures
        hit_from(contents, decision_id, from) matches Some(i) ==> from <= i < contents.len()
            && card_in(json::json_parsed(contents[i as int]), decision_id) is Some,
        hit_from(contents, decision_id, from) is None ==> forall|k: int|
            from <= k < contents.len() ==> card_in(
                json::json_parsed(#[trigger] contents[k]),
                decision_id,
            ) is None,
    decreases contents.len() - from,
{
    if from < contents.len() && card_in(
        json::json_parsed(contents[from as int]),
        decision_id,
    ) is None {
        lemma_hit_bound(contents, decision_id, from + 1);
    }
}

/// To look for the card of a decision asks one query, which changes nothing.
pub proof fn law_finding_a_card_changes_nothing(
    pre: Trace,
    post: Trace,
    session_id: Seq<char>,
    got: Result<Vec<String>, DbError>,
)
    requires
        bare_contents_read(pre, post, session_id, got),
    ensures
        trace::extends(pre, post),
        post.len() == pre.len() + 1,
        trace::queries(post.last(), SQL_READ_BARE_CONTENTS@),
{
    assert(post.take(pre.len() as int) =~= pre);
}

/// No card of a decision is found exactly where no content of the session has one.
pub proof fn law_no_card_is_found_where_none_is(
    contents: Seq<Seq<char>>,
    decision_id: Seq<char>,
    r: Option<(String, String)>,
)
    requires
        card_found(contents, decision_id, r),
    ensures
        r is None <==> forall|k: int|
            0 <= k < contents.len() ==> card_in(
                json::json_parsed(#[trigger] contents[k]),
                decision_id,
            ) is None,
{
    lemma_hit_bound(contents, decision_id, 0);
}

proof fn lemma_hit_is_kept(
    contents: Seq<Seq<char>>,
    decision_id: Seq<char>,
    i: nat,
    written: Seq<char>,
    from: nat,
)
    requires
        hit_from(contents, decision_id, from) == Some(i),
        i < contents.len(),
        card_in(json::json_parsed(written), decision_id) is Some,
    ensures
        hit_from(contents.update(i as int, written), decision_id, from) == Some(i),
    decreases contents.len() - from,
{
    if from < i {
        lemma_hit_is_kept(contents, decision_id, i, written, from + 1);
    } else {
        lemma_hit_bound(contents, decision_id, from);
    }
}

proof fn lemma_card_is_kept(
    blocks: Seq<Node>,
    decision_id: Seq<char>,
    at: nat,
    card: Node,
    from: nat,
)
    requires
        card_from(blocks, decision_id, from) == Some(at),
        at < blocks.len(),
        is_decision_card(card, decision_id),
    ensures
        card_from(blocks.update(at as int, card), decision_id, from) == Some(at),
    decreases blocks.len() - from,
{
    if from < at {
        lemma_card_is_kept(blocks, decision_id, at, card, from + 1);
    } else {
        lemma_card_is_found(blocks, decision_id, from);
    }
}

/// A decision that was made from the status that was found is found again: the same question, and
/// the next status. `contents` are those of the session's messages, `i` is the one that was found
/// and `written` what was stored in its place, a text that reads back as the decided content.
pub proof fn law_made_decision_is_found_again(
    contents: Seq<Seq<char>>,
    decision_id: Seq<char>,
    expect_status: Seq<char>,
    next_status: Seq<char>,
    chosen_option: Option<Seq<char>>,
    i: nat,
    written: Seq<char>,
)
    requires
        hit_from(contents, decision_id, 0) == Some(i),
        ({
            let hit = card_in(json::json_parsed(contents[i as int]), decision_id)->Some_0;
            &&& decided_content(
                hit.0,
                hit.1,
                expect_status,
                next_status,
                chosen_option,
            ) matches Some(node)
            &&& json::reads_as(written, node)
        }),
    ensures
        hit_from(contents.update(i as int, written), decision_id, 0) == Some(i),
        ({
            let was = card_text(json::json_parsed(contents[i as int]), decision_id);
            let is = card_text(json::json_parsed(written), decision_id);
            &&& was matches Some((question, status))
            &&& status == expect_status
            &&& is == Some((question, next_status))
        }),
{
    lemma_hit_bound(contents, decision_id, 0);
    let hit = card_in(json::json_parsed(contents[i as int]), decision_id)->Some_0;
    let blocks = hit.0;
    let at = hit.1;
    lemma_card_is_found(blocks, decision_id, 0);
    let card = blocks[at as int];
    let decided = decided_card(card, next_status, chosen_option);
    lemma_decided_card(card, decision_id, next_status, chosen_option);
    lemma_card_is_kept(blocks, decision_id, at, decided, 0);
    lemma_hit_is_kept(contents, decision_id, i, written, 0);
    reveal_strlit("question");
    reveal_strlit("status");
    reveal_strlit("chosen_option");
    assert("question"@[0] == 'q' && "status"@[0] == 's' && "chosen_option"@[0] == 'c');
    law_deciding_keeps_the_rest(card, next_status, chosen_option, "question"@);
}

/// To decide a card leaves a content without real numbers without them, and in order: so the text
/// that is stored reads back as the decided content.
pub proof fn law_decided_content_is_plain(
    blocks: Seq<Node>,
    at: nat,
    expect_status: Seq<char>,
    next_status: Seq<char>,
    chosen_option: Option<Seq<char>>,
    depth: nat,
)
    requires
        depth > 1,
        at < blocks.len(),
        json::is_plain(Node::Array(blocks), depth),
    ensures
        decided_content(
            blocks,
            at,
            expect_status,
            next_status,
            chosen_option,
        ) matches Some(node) ==> json::is_plain(node, depth),
{
    if json::says(blocks[at as int], "status"@, expect_status) {
        let card = blocks[at as int];
        let inside = (depth - 1) as nat;
        let members = card->Object_0;
        json::lemma_plain_array(blocks, depth);
        assert(json::is_plain(card, inside));
        json::law_with_member_is_plain(members, "status"@, Node::Text(next_status), inside);
        let marked = json::with_member(members, "status"@, Node::Text(next_status));
        if let Some(option) = chosen_option {
            json::law_with_member_is_plain(marked, "chosen_option"@, Node::Text(option), inside);
        }
        let decided = decided_card(card, next_status, chosen_option);
        let now = blocks.update(at as int, decided);
        assert forall|k: int| 0 <= k < now.len() implies json::is_plain(
            #[trigger] now[k],
            inside,
        ) by {
            assert(json::is_plain(blocks[k], inside));
        }
        json::lemma_plain_array(now, depth);
    }
}

/// The messages of a session: their ids and contents, in the order of the ids.
pub type Messages = Seq<(i64, Seq<char>)>;

/// The contents of messages.
pub open spec fn texts_in(messages: Messages) -> Seq<Seq<char>> {
    messages.map_values(|m: (i64, Seq<char>)| m.1)
}

/// The messages after `SQL_STORE_DECIDED` was run for a content and an id.
pub open spec fn content_stored(messages: Messages, content: Seq<char>, id: i64) -> Messages {
    messages.map_values(
        |m: (i64, Seq<char>)|
            if m.0 == id {
                (id, content)
            } else {
                m
            },
    )
}

/// Whether a step runs a query with one parameter.
pub open spec fn lists(step: Step, sql: Seq<char>, session_id: Seq<char>) -> bool {
    &&& step matches Step::Asked { request: Request::All { sql: said, params, .. }, .. }
    &&& said == sql
    &&& params == seq![Datum::Text(session_id)]
}

/// The statement that stores the content of a message.
pub open spec fn storing(content: Seq<char>, id: i64) -> Request {
    Request::Execute {
        sql: SQL_STORE_DECIDED@,
        params: seq![Datum::Text(content), Datum::Integer(id)],
    }
}

/// Whether the store does with the messages of a session what a step asks of it: it tells what they
/// are, stores a content, opens and commits a transaction.
pub open spec fn messages_follow_step(
    step: Step,
    session_id: Seq<char>,
    before: Messages,
    after: Messages,
) -> bool {
    &&& lists(step, SQL_READ_BARE_CONTENTS@, session_id) ==> after == before && (step matches
        Step::Asked { reply: Reply::Rows(found), .. } && found == before.map_values(
        |m: (i64, Seq<char>)| Ok::<Seq<Datum>, Seq<char>>(seq![Datum::Text(m.1)]),
    ))
    &&& lists(step, SQL_READ_CONTENTS@, session_id) ==> after == before && (step matches
        Step::Asked { reply: Reply::Rows(found), .. } && found == before.map_values(
        |m: (i64, Seq<char>)|
            Ok::<Seq<Datum>, Seq<char>>(seq![Datum::Integer(m.0), Datum::Text(m.1)]),
    ))
    &&& forall|content: Seq<char>, id: i64| #[trigger]
        tx::asks(step, storing(content, id)) ==> tx::accepted(step) && after == content_stored(
            before,
            content,
            id,
        )
    &&& tx::asks(step, Request::Batch { sql: tx::BEGIN@ }) ==> tx::accepted(step) && after == before
    &&& tx::asks(step, Request::Batch { sql: tx::COMMIT@ }) ==> tx::accepted(step) && after
        == before
    &&& step is Published ==> after == before
}

/// Whether the store does with the messages of a session what the steps after `pre` ask of it, and
/// nobody else changes them; `stages` are the messages before, between and after those steps.
pub open spec fn messages_follow(
    pre: Trace,
    post: Trace,
    session_id: Seq<char>,
    stages: Seq<Messages>,
) -> bool {
    &&& stages.len() == post.len() - pre.len() + 1
    &&& forall|k: int|
        pre.len() <= k < post.len() ==> messages_follow_step(
            #[trigger] post[k],
            session_id,
            stages[k - pre.len()],
            stages[k - pre.len() + 1],
        )
}

proof fn lemma_lookup_tells(
    pre: Trace,
    post: Trace,
    session_id: Seq<char>,
    decision_id: Seq<char>,
    r: Result<Option<(String, String)>, DbError>,
    before: Messages,
    after: Messages,
)
    requires
        card_looked_up(pre, post, session_id, decision_id, r),
        messages_follow_step(post.last(), session_id, before, after),
    ensures
        trace::extends(pre, post),
        post.len() == pre.len() + 1,
        after == before,
        r matches Ok(found) && card_found(texts_in(before), decision_id, found),
{
    let got = choose|got: Result<Vec<String>, DbError>|
        {
            &&& #[trigger] bare_contents_read(pre, post, session_id, got)
            &&& card_taken(decision_id, got, r)
        };
    law_finding_a_card_changes_nothing(pre, post, session_id, got);
    assert(lists(post.last(), SQL_READ_BARE_CONTENTS@, session_id));
    let found = post.last()->reply->Rows_0;
    assert(forall|i: int| 0 <= i < found.len() ==> #[trigger] found[i] is Ok);
    assert(got is Ok);
    let contents = got->Ok_0;
    assert forall|i: int| 0 <= i < before.len() implies #[trigger] text::texts(contents@)[i]
        == texts_in(before)[i] by {
        assert(found[i] is Ok && contents@[i].is_row(found[i]->Ok_0));
    }
    assert(text::texts(contents@) =~= texts_in(before));
}

/// How a decision was made in a session's messages, where its card is in the expected status: the
/// content of the message that has the card was stored, the decision committed and announced.
proof fn lemma_decision_is_stored(
    pre: Trace,
    post: Trace,
    last: Trace,
    session_id: Seq<char>,
    decision: Decision,
    r: Result<bool, DbError>,
    stages: Seq<Messages>,
    i: nat,
    node: Node,
)
    requires
        decision_announced(pre, post, session_id, decision, r),
        trace::extends(post, last),
        messages_follow(pre, last, session_id, stages),
        hit_from(texts_in(stages[0]), decision.decision_id@, 0) == Some(i),
        i < stages[0].len(),
        ({
            let hit = card_in(
                json::json_parsed(stages[0][i as int].1),
                decision.decision_id@,
            )->Some_0;
            decided_content(
                hit.0,
                hit.1,
                decision.expect_status@,
                decision.next_status@,
                events::opt_str(decision.chosen_option),
            ) == Some(node)
        }),
    ensures
        trace::extends(pre, post),
        r == Ok::<bool, DbError>(true),
        post.len() == pre.len() + 5,
        stages[5] == content_stored(
            stages[0],
            json::json_printed(node),
            stages[0][i as int].0,
        ),
        json::is_plain(node, json::DEPTH as nat) ==> json::reads_as(
            json::json_printed(node),
            node,
        ),
{
    let at = pre.len() as int;
    let mid = choose|mid: Trace|
        {
            &&& #[trigger] decision_transacted(pre, mid, session_id, decision, r)
            &&& decision_told(mid, post, session_id, decision, r)
        };
    if r == Ok::<bool, DbError>(true) {
        assert(post.take(mid.len() as int) =~= mid);
    } else {
        assert(mid.take(mid.len() as int) =~= mid);
    }
    trace::lemma_extends_further(mid, post, last);
    let body = |a: Trace, b: Trace, x: Result<bool, DbError>|
        decision_made(a, b, session_id, decision, x);
    let begin = Request::Batch { sql: tx::BEGIN@ };
    if rows::asked(pre, mid, begin) && rows::reply_to(mid) is Failed {
        trace::lemma_step_stays(mid, last, at);
        assert(tx::asks(last[at], begin));
        assert(false);
    }
    let (done, inner) = choose|done: Trace, inner: Result<bool, DbError>|
        #[trigger] body(pre.push(tx::opening()), done, inner) && tx::ended(done, mid, inner, r);
    tx::lemma_ending_extends(done, mid, inner, r);
    trace::lemma_extends_further(done, mid, last);
    let opened = pre.push(tx::opening());
    let (read, got) = choose|read: Trace, got: Result<Vec<(i64, String)>, DbError>|
        {
            &&& #[trigger] contents_read(opened, read, session_id, got)
            &&& decision_made_from(read, done, decision, got, inner)
        };
    assert(read.take(opened.len() as int) =~= opened);
    lemma_deciding_extends(read, done, decision, got, inner);
    trace::lemma_extends_further(read, done, last);
    trace::lemma_extends_further(opened, read, last);
    trace::lemma_step_stays(opened, last, at);
    assert(tx::asks(last[at], begin));
    trace::lemma_step_stays(read, last, at + 1);
    assert(lists(last[at + 1], SQL_READ_CONTENTS@, session_id));
    let found = last[at + 1]->reply->Rows_0;
    assert(stages[1] == stages[0]);
    assert(forall|k: int| 0 <= k < found.len() ==> #[trigger] found[k] is Ok);
    let rows = got->Ok_0;
    assert forall|k: int| 0 <= k < stages[0].len() implies #[trigger] contents_of(rows@)[k]
        == texts_in(stages[0])[k] && rows@[k].0 == stages[0][k].0 by {
        assert(found[k] is Ok && rows@[k].is_row(found[k]->Ok_0));
    }
    assert(contents_of(rows@) =~= texts_in(stages[0]));
    assert(contents_of(rows@)[i as int] == rows@[i as int].1@);
    assert(texts_in(stages[0])[i as int] == stages[0][i as int].1);
    let content = json::json_printed(node);
    let id = stages[0][i as int].0;
    assert(done.len() == at + 3);
    trace::lemma_step_stays(done, last, at + 2);
    assert(tx::asks(last[at + 2], storing(content, id)));
    assert(inner == Ok::<bool, DbError>(true));
    if mid != done.push(tx::commitment()) {
        let m = choose|m: Seq<char>|
            {
                &&& #[trigger] tx::abandoned(
                    done.push(
                        Step::Asked {
                            request: Request::Batch { sql: tx::COMMIT@ },
                            reply: Reply::Failed(m),
                        },
                    ),
                    mid,
                )
                &&& rows::refused(r, m)
            };
        let tried = done.push(
            Step::Asked {
                request: Request::Batch { sql: tx::COMMIT@ },
                reply: Reply::Failed(m),
            },
        );
        tx::lemma_abandoning_extends(tried, mid);
        trace::lemma_extends_further(tried, mid, last);
        trace::lemma_step_stays(tried, last, at + 3);
        assert(tx::asks(last[at + 3], Request::Batch { sql: tx::COMMIT@ }));
        assert(false);
    }
    trace::lemma_step_stays(mid, last, at + 3);
    assert(tx::asks(last[at + 3], Request::Batch { sql: tx::COMMIT@ }));
    trace::lemma_step_stays(post, last, at + 4);
    assert(last[at + 4] is Published);
    assert(opened.take(at) =~= pre);
    trace::lemma_extends_further(pre, opened, read);
    trace::lemma_extends_further(pre, read, done);
    trace::lemma_extends_further(pre, done, mid);
    trace::lemma_extends_further(pre, mid, post);
}

proof fn lemma_announcing_extends(
    pre: Trace,
    post: Trace,
    session_id: Seq<char>,
    decision: Decision,
    r: Result<bool, DbError>,
)
    requires
        decision_announced(pre, post, session_id, decision, r),
    ensures
        trace::extends(pre, post),
{
    let mid = choose|mid: Trace|
        {
            &&& #[trigger] decision_transacted(pre, mid, session_id, decision, r)
            &&& decision_told(mid, post, session_id, decision, r)
        };
    let body = |a: Trace, b: Trace, x: Result<bool, DbError>|
        decision_made(a, b, session_id, decision, x);
    assert forall|a: Trace, b: Trace, x: Result<bool, DbError>| #[trigger]
        body(a, b, x) implies trace::extends(a, b) by {
        let (read, got) = choose|read: Trace, got: Result<Vec<(i64, String)>, DbError>|
            {
                &&& #[trigger] contents_read(a, read, session_id, got)
                &&& decision_made_from(read, b, decision, got, x)
            };
        assert(read.take(a.len() as int) =~= a);
        lemma_deciding_extends(read, b, decision, got, x);
        trace::lemma_extends_further(a, read, b);
    }
    tx::lemma_transaction_extends(pre, mid, body, r);
    assert(post.take(mid.len() as int) =~= mid);
    trace::lemma_extends_further(pre, mid, post);
}

proof fn lemma_deciding_extends(
    pre: Trace,
    post: Trace,
    decision: Decision,
    got: Result<Vec<(i64, String)>, DbError>,
    r: Result<bool, DbError>,
)
    requires
        decision_made_from(pre, post, decision, got, r),
    ensures
        trace::extends(pre, post),
{
    assert(post.take(pre.len() as int) =~= pre);
}

/// To find the card of a decision, to decide it from the status that was found, and to find it again
/// gives the same question and the next status, and the decision is made. The messages of the
/// session are in a store that does what it is asked and that nobody else changes; `stages` are
/// those messages before, between and after what is asked. The card has a text as its status, and
/// the content that it stands in has no real numbers, which may be read inexactly.
pub proof fn law_found_decision_is_made_and_found(
    pre: Trace,
    first: Trace,
    second: Trace,
    post: Trace,
    session_id: Seq<char>,
    decision: Decision,
    question: String,
    status: String,
    r: Result<bool, DbError>,
    again: Result<Option<(String, String)>, DbError>,
    stages: Seq<Messages>,
)
    requires
        card_looked_up(
            pre,
            first,
            session_id,
            decision.decision_id@,
            Ok::<Option<(String, String)>, DbError>(Some((question, status))),
        ),
        decision.expect_status@ == status@,
        decision_announced(first, second, session_id, decision, r),
        card_looked_up(second, post, session_id, decision.decision_id@, again),
        messages_follow(pre, post, session_id, stages),
        forall|a: int, b: int|
            0 <= a < b < stages[0].len() ==> (#[trigger] stages[0][a]).0 != (
            #[trigger] stages[0][b]).0,
        ({
            let i = hit_from(texts_in(stages[0]), decision.decision_id@, 0)->Some_0;
            let content = json::json_parsed(stages[0][i as int].1);
            let hit = card_in(content, decision.decision_id@)->Some_0;
            &&& json::says(hit.0[hit.1 as int], "status"@, status@)
            &&& json::is_plain(content->Ok_0, json::DEPTH as nat)
        }),
    ensures
        r == Ok::<bool, DbError>(true),
        again matches Ok(Some((q, s))) && q@ == question@ && s@ == decision.next_status@,
{
    let decision_id = decision.decision_id@;
    let at = pre.len() as int;
    let before = stages[0];
    let contents = texts_in(before);
    lemma_bare_lookup(pre, first, session_id, decision_id, Ok(Some((question, status))));
    lemma_bare_lookup(second, post, session_id, decision_id, again);
    lemma_announcing_extends(first, second, session_id, decision, r);
    trace::lemma_extends_further(first, second, post);
    trace::lemma_step_stays(first, post, at);
    lemma_lookup_tells(
        pre,
        first,
        session_id,
        decision_id,
        Ok(Some((question, status))),
        before,
        stages[1],
    );
    lemma_hit_bound(contents, decision_id, 0);
    let i = hit_from(contents, decision_id, 0)->Some_0;
    assert(contents[i as int] == before[i as int].1);
    let content = json::json_parsed(before[i as int].1);
    let hit = card_in(content, decision_id)->Some_0;
    lemma_card_is_found(hit.0, decision_id, 0);
    let chosen = events::opt_str(decision.chosen_option);
    let node = decided_content(
        hit.0,
        hit.1,
        decision.expect_status@,
        decision.next_status@,
        chosen,
    )->Some_0;
    law_decided_content_is_plain(
        hit.0,
        hit.1,
        decision.expect_status@,
        decision.next_status@,
        chosen,
        json::DEPTH as nat,
    );
    let rest = stages.skip(1);
    assert forall|k: int| first.len() <= k < post.len() implies messages_follow_step(
        #[trigger] post[k],
        session_id,
        rest[k - first.len()],
        rest[k - first.len() + 1],
    ) by {
        assert(messages_follow_step(
            post[k],
            session_id,
            stages[k - pre.len()],
            stages[k - pre.len() + 1],
        ));
    }
    lemma_decision_is_stored(first, second, post, session_id, decision, r, rest, i, node);
    let written = json::json_printed(node);
    let after = content_stored(before, written, before[i as int].0);
    assert(stages[6] == after);
    assert(texts_in(after) =~= contents.update(i as int, written)) by {
        assert forall|k: int| 0 <= k < before.len() implies #[trigger] texts_in(after)[k]
            == contents.update(i as int, written)[k] by {
            assert(k != i ==> before[k].0 != before[i as int].0) by {
                if k < i {
                    assert(before[k].0 != before[i as int].0);
                } else if k > i {
                    assert(before[i as int].0 != before[k].0);
                }
            }
        }
    }
    lemma_lookup_tells(second, post, session_id, decision_id, again, after, stages[7]);
    law_made_decision_is_found_again(
        contents,
        decision_id,
        decision.expect_status@,
        decision.next_status@,
        chosen,
        i,
        written,
    );
    assert(contents.update(i as int, written)[i as int] == written);
}

proof fn lemma_bare_lookup(
    pre: Trace,
    post: Trace,
    session_id: Seq<char>,
    decision_id: Seq<char>,
    r: Result<Option<(String, String)>, DbError>,
)
    requires
        card_looked_up(pre, post, session_id, decision_id, r),
    ensures
        trace::extends(pre, post),
        post.len() == pre.len() + 1,
{
    let got = choose|got: Result<Vec<String>, DbError>|
        {
            &&& #[trigger] bare_contents_read(pre, post, session_id, got)
            &&& card_taken(decision_id, got, r)
        };
    law_finding_a_card_changes_nothing(pre, post, session_id, got);
}

} // verus!
