//! What is changed by a write, a change of state, a frozen contract or a decision, told by what the
//! database replied, and who the members of a team are.
use crate::agents;
use crate::agents::{SessionAgentConfig, SessionMode};
use crate::cards;
use crate::contracts;
use crate::contracts::AcceptanceCriterion;
use crate::engine::{Datum, DbError, Reply, Request, Step, Trace};
use crate::events;
use crate::events::Notice;
use crate::json;
use crate::json::Node;
use crate::memory;
use crate::memory::{CompactState, MemoryBlock, MemorySetOutcome};
use crate::rows;
use crate::rows::FromRow;
use crate::runtime;
use crate::text;
use crate::trace;
use crate::tx;
use vstd::prelude::*;

verus! {

/// Whether a step asks a query for its first row.
pub open spec fn asks_first(step: Step, query: Seq<char>, values: Seq<Datum>) -> bool {
    &&& step matches Step::Asked { request: Request::First { sql, params, .. }, .. }
    &&& sql == query
    &&& params == values
}

/// Whether a step runs a statement.
pub open spec fn runs(step: Step, statement: Seq<char>, values: Seq<Datum>) -> bool {
    &&& step matches Step::Asked { request: Request::Execute { sql, params }, .. }
    &&& sql == statement
    &&& params == values
}

/// Whether a step was refused.
pub open spec fn is_refused(step: Step) -> bool {
    step matches Step::Asked { reply: Reply::Failed(_), .. }
}

/// The value that an optional text is stored as.
pub open spec fn datum_of(s: Option<Seq<char>>) -> Datum {
    match s {
        Some(said) => Datum::Text(said),
        None => Datum::Null,
    }
}

/// Whether a write was refused as one that is based on another revision than the slot has: nothing is
/// stored.
pub open spec fn is_conflict(
    all: Trace,
    at: int,
    current: int,
    r: Result<MemorySetOutcome, DbError>,
) -> bool {
    &&& all.len() == at + 1
    &&& r matches Ok(MemorySetOutcome::Conflict { current_revision })
    &&& current_revision == current
}

/// Whether a statement of a write was run at a place, and what the write made is the result, unless the
/// statement was refused.
pub open spec fn is_applied(
    all: Trace,
    at: int,
    statement: Seq<char>,
    values: Seq<Datum>,
    made: int,
    r: Result<MemorySetOutcome, DbError>,
) -> bool {
    &&& all.len() == at + 1
    &&& runs(all[at], statement, values)
    &&& if is_refused(all[at]) {
        r is Err
    } else {
        r matches Ok(MemorySetOutcome::Applied { revision }) && revision == made
    }
}

/// A write is applied exactly where it is based on the revision that the slot was found to have, a slot
/// that was never written having none; what is stored is what was to be written, with the next revision.
pub proof fn law_write_follows_what_was_read(
    pre: Trace,
    post: Trace,
    write: memory::Write,
    r: Result<MemorySetOutcome, DbError>,
)
    requires
        memory::memory_written(pre, post, write, r),
    ensures
        post.len() > pre.len(),
        asks_first(
            post[pre.len() as int],
            "SELECT revision FROM memory_blocks WHERE session_id = ?1 AND slot = ?2"@,
            seq![Datum::Text(write.session_id@), Datum::Text(write.slot@)],
        ),
        match post[pre.len() as int]->reply {
            Reply::Row(None) => if write.base_revision == 0 {
                is_applied(
                    post,
                    pre.len() + 1int,
                    "INSERT INTO memory_blocks (session_id, slot, text, title, updated_by, updated_at, revision, updated_run_id) \
                     VALUES (?1, ?2, ?3, ?4, ?5, strftime('%s','now'), 1, ?6)"@,
                    seq![
                        Datum::Text(write.session_id@),
                        Datum::Text(write.slot@),
                        Datum::Text(write.text@),
                        datum_of(events::opt_str(write.title)),
                        datum_of(events::opt_str(write.updated_by)),
                        datum_of(events::opt_str(write.updated_run_id)),
                    ],
                    1,
                    r,
                )
            } else {
                is_conflict(post, pre.len() as int, 0, r)
            },
            Reply::Row(Some(row)) => if row[0] != Datum::Integer(write.base_revision) {
                row[0] matches Datum::Integer(current) && is_conflict(
                    post,
                    pre.len() as int,
                    current as int,
                    r,
                )
            } else if write.base_revision == 9_223_372_036_854_775_807 {
                post.len() == pre.len() + 1 && r is Err
            } else {
                is_applied(
                    post,
                    pre.len() + 1int,
                    "UPDATE memory_blocks SET text = ?1, title = ?2, updated_by = ?3, \
                     updated_at = strftime('%s','now'), revision = ?4, updated_run_id = ?5 \
                     WHERE session_id = ?6 AND slot = ?7"@,
                    seq![
                        Datum::Text(write.text@),
                        datum_of(events::opt_str(write.title)),
                        datum_of(events::opt_str(write.updated_by)),
                        Datum::Integer((write.base_revision + 1) as i64),
                        datum_of(events::opt_str(write.updated_run_id)),
                        Datum::Text(write.session_id@),
                        Datum::Text(write.slot@),
                    ],
                    write.base_revision + 1,
                    r,
                )
            },
            _ => post.len() == pre.len() + 1 && r is Err,
        },
{
    let (mid, current) = choose|mid: Trace, current: Result<Option<i64>, DbError>|
        {
            &&& #[trigger] memory::revision_read(
                pre,
                mid,
                write.session_id@,
                write.slot@,
                current,
            )
            &&& match current {
                Ok(revision) => memory::locked_write(mid, post, write, revision, r),
                Err(e) => post == mid && r == Err::<MemorySetOutcome, DbError>(e),
            }
        };
    assert(mid[pre.len() as int] == mid.last());
    assert(post[pre.len() as int] == mid[pre.len() as int]);
}

/// Whether a summary is the one of a slot that is anchored to a message.
pub open spec fn is_summary(
    block: MemoryBlock,
    anchors: Seq<Node>,
    r: Option<CompactState>,
) -> bool {
    if anchors.len() == 1 && json::member(anchors[0], "kind"@) == Some(Node::Text("message"@)) {
        match json::member(anchors[0], "ref"@) {
            Some(Node::Number { signed: Some(id), .. }) => {
                &&& r matches Some(state)
                &&& state.summary@ == block.text@
                &&& state.through_message_id == id
                &&& state.revision == block.revision
            },
            _ => r is None,
        }
    } else {
        r is None
    }
}

/// A slot is a summary exactly where its anchors are one, to a message by its number.
pub proof fn law_summary_is_anchored_to_one_message(block: MemoryBlock, r: Option<CompactState>)
    requires
        memory::compacted(Some(block), r),
    ensures
        match json::json_parsed(block.anchor_refs_json@) {
            Ok(Node::Array(anchors)) => is_summary(block, anchors, r),
            _ => r is None,
        },
{
    if let Ok(Node::Array(anchors)) = json::json_parsed(block.anchor_refs_json@) {
        if anchors.len() == 1 {
            let kind = json::member(anchors[0], "kind"@);
            assert(json::says(anchors[0], "kind"@, "message"@) <==> kind == Some(
                Node::Text("message"@),
            ));
        }
    }
}

/// An entry is refused exactly where one of its references is no JSON, the first of them being named.
pub proof fn law_first_bad_reference_is_named(refs: Seq<char>, supersedes: Seq<char>)
    ensures
        memory::bad_field(refs, supersedes) is None <==> json::json_parsed(refs) is Ok
            && json::json_parsed(supersedes) is Ok,
        json::json_parsed(refs) matches Err(why) ==> memory::bad_field(refs, supersedes) == Some(
            ("source_refs_json"@, why),
        ),
        json::json_parsed(refs) is Ok ==> (json::json_parsed(supersedes) matches Err(why)
            ==> memory::bad_field(refs, supersedes) == Some(("supersedes_json"@, why))),
{
}

/// What is stored as new gets a number, which is the one that the database shows after it was stored;
/// where storing it is refused there is an error, and no number is asked for.
pub proof fn law_new_row_gets_its_number(
    pre: Trace,
    post: Trace,
    statement: Seq<char>,
    values: Seq<Datum>,
    r: Result<i64, DbError>,
)
    requires
        rows::inserted(pre, post, statement, values, r),
    ensures
        runs(post[pre.len() as int], statement, values),
        if is_refused(post[pre.len() as int]) {
            post.len() == pre.len() + 1 && r is Err
        } else {
            &&& post.len() == pre.len() + 2
            &&& post.last() matches Step::Asked {
                request: Request::LastInsertRowid,
                reply: Reply::RowId(id),
            }
            &&& r == Ok::<i64, DbError>(id)
        },
{
    if post.len() == pre.len() + 2 {
        assert(post[pre.len() as int] == post.drop_last().last());
    } else {
        assert(post[pre.len() as int] == post.last());
    }
}

/// Whether a change of a session's state was told exactly where there was one.
pub open spec fn tells_change(
    all: Trace,
    at: int,
    differs: bool,
    notice: Notice,
    r: Result<bool, DbError>,
) -> bool {
    &&& r == Ok::<bool, DbError>(differs)
    &&& if differs {
        all.len() == at + 1 && all[at] == Step::Published(notice)
    } else {
        all.len() == at
    }
}

/// The state of a session is stored as given, and is told to have changed exactly where the session was
/// found with no state, another status or another run.
pub proof fn law_state_change_is_told(
    pre: Trace,
    post: Trace,
    session_id: Seq<char>,
    status: Seq<char>,
    run_id: Option<Seq<char>>,
    changed: bool,
)
    requires
        runtime::runtime_set(
            pre,
            post,
            session_id,
            status,
            run_id,
            Ok::<bool, DbError>(changed),
        ),
    ensures
        asks_first(
            post[pre.len() as int],
            "SELECT status, run_id FROM session_runtime WHERE session_id = ?1"@,
            seq![Datum::Text(session_id)],
        ),
        runs(
            post[pre.len() + 1int],
            "INSERT INTO session_runtime (session_id, status, run_id, updated_at) \
         VALUES (?1, ?2, ?3, strftime('%s','now')) \
         ON CONFLICT(session_id) DO UPDATE SET \
            status = excluded.status, \
            run_id = excluded.run_id, \
            updated_at = excluded.updated_at"@,
            seq![Datum::Text(session_id), Datum::Text(status), datum_of(run_id)],
        ),
        post[pre.len() as int]->reply matches Reply::Row(found) && tells_change(
            post,
            pre.len() + 2int,
            !(found matches Some(row) && row[0] == Datum::Text(status) && row[1] == datum_of(
                run_id,
            )),
            Notice::RunStatus { session_id, status, run_id },
            Ok(changed),
        ),
{
    let r = Ok::<bool, DbError>(changed);
    let (mid, current) = choose|
        mid: Trace,
        current: Result<Option<(String, Option<String>)>, DbError>,
    |
        {
            &&& #[trigger] runtime::runtime_read(pre, mid, session_id, current)
            &&& match current {
                Ok(was) => exists|stored: Trace, done: Result<(), DbError>|
                    {
                        &&& #[trigger] runtime::runtime_stored(
                            mid,
                            stored,
                            session_id,
                            status,
                            run_id,
                            done,
                        )
                        &&& match done {
                            Ok(()) => {
                                &&& rows::announced(
                                    stored,
                                    post,
                                    runtime::runtime_differs(was, status, run_id),
                                    Notice::RunStatus { session_id, status, run_id },
                                )
                                &&& r == Ok::<bool, DbError>(
                                    runtime::runtime_differs(was, status, run_id),
                                )
                            },
                            Err(e) => post == stored && r == Err::<bool, DbError>(e),
                        }
                    },
                Err(e) => post == mid && r == Err::<bool, DbError>(e),
            }
        };
    assert(mid[pre.len() as int] == mid.last());
    assert(post[pre.len() as int] == mid[pre.len() as int]);
}

/// The status of a session is stored as given and its run left alone, and it is told to have changed,
/// with the run that the session was found with, exactly where it was found with no state or another
/// status.
pub proof fn law_status_change_is_told(
    pre: Trace,
    post: Trace,
    session_id: Seq<char>,
    status: Seq<char>,
    changed: bool,
) -> (run_id: Option<Seq<char>>)
    requires
        runtime::runtime_status_set(
            pre,
            post,
            session_id,
            status,
            Ok::<bool, DbError>(changed),
        ),
    ensures
        asks_first(
            post[pre.len() as int],
            "SELECT status, run_id FROM session_runtime WHERE session_id = ?1"@,
            seq![Datum::Text(session_id)],
        ),
        runs(
            post[pre.len() + 1int],
            "INSERT INTO session_runtime (session_id, status, run_id, updated_at) \
         VALUES (?1, ?2, NULL, strftime('%s','now')) \
         ON CONFLICT(session_id) DO UPDATE SET \
            status = excluded.status, \
            updated_at = excluded.updated_at"@,
            seq![Datum::Text(session_id), Datum::Text(status)],
        ),
        post[pre.len() as int]->reply matches Reply::Row(found) && {
            &&& datum_of(run_id) == match found {
                Some(row) => row[1],
                None => Datum::Null,
            }
            &&& tells_change(
                post,
                pre.len() + 2int,
                !(found matches Some(row) && row[0] == Datum::Text(status)),
                Notice::RunStatus { session_id, status, run_id },
                Ok(changed),
            )
        },
{
    let r = Ok::<bool, DbError>(changed);
    let (mid, current) = choose|
        mid: Trace,
        current: Result<Option<(String, Option<String>)>, DbError>,
    |
        {
            &&& #[trigger] runtime::runtime_read(pre, mid, session_id, current)
            &&& match current {
                Ok(was) => exists|stored: Trace, done: Result<(), DbError>|
                    {
                        &&& #[trigger] runtime::status_stored(
                            mid,
                            stored,
                            session_id,
                            status,
                            done,
                        )
                        &&& match done {
                            Ok(()) => {
                                &&& rows::announced(
                                    stored,
                                    post,
                                    runtime::status_differs(was, status),
                                    Notice::RunStatus {
                                        session_id,
                                        status,
                                        run_id: runtime::current_run(was),
                                    },
                                )
                                &&& r == Ok::<bool, DbError>(
                                    runtime::status_differs(was, status),
                                )
                            },
                            Err(e) => post == stored && r == Err::<bool, DbError>(e),
                        }
                    },
                Err(e) => post == mid && r == Err::<bool, DbError>(e),
            }
        };
    assert(mid[pre.len() as int] == mid.last());
    assert(post[pre.len() as int] == mid[pre.len() as int]);
    match current->Ok_0 {
        Some((_, run)) => match run {
            Some(id) => Some(id@),
            None => None,
        },
        None => None,
    }
}

/// Whether a step stores a criterion.
pub open spec fn stores_criterion(step: Step, c: AcceptanceCriterion) -> bool {
    runs(
        step,
        "INSERT INTO acceptance_criteria
            (id, session_id, run_id, task_id, contract_id, scope, claim, verifier, evidence, status, waiver, created_at)
         VALUES (?1, ?2, ?3, ?4, ?5, ?6, ?7, ?8, ?9, ?10, ?11, ?12)"@,
        seq![
            Datum::Text(c.id@),
            Datum::Text(c.session_id@),
            Datum::Text(c.run_id@),
            Datum::Text(c.task_id@),
            datum_of(events::opt(c.contract_id)),
            Datum::Text(c.scope@),
            Datum::Text(c.claim@),
            datum_of(events::opt(c.verifier)),
            datum_of(events::opt(c.evidence)),
            Datum::Text(c.status@),
            datum_of(events::opt(c.waiver)),
            Datum::Integer(c.created_at),
        ],
    )
}

/// A contract that is frozen has the goal and the assignments that it was given, and its run has just
/// the criteria that were given: the ones before are deleted, and each of these is stored in turn.
pub proof fn law_frozen_contract_has_its_criteria(
    pre: Trace,
    post: Trace,
    session_id: Seq<char>,
    run_id: Seq<char>,
    goal: Seq<char>,
    assignments_json: Seq<char>,
    criteria: Seq<AcceptanceCriterion>,
)
    requires
        contracts::frozen(
            pre,
            post,
            session_id,
            run_id,
            goal,
            assignments_json,
            criteria,
            Ok::<(), DbError>(()),
        ),
    ensures
        post.len() == pre.len() + 2 + criteria.len(),
        runs(
            post[pre.len() as int],
            "UPDATE goal_contracts
            SET goal = ?3, assignments_json = ?4, status = 'frozen'
            WHERE session_id = ?1 AND run_id = ?2 AND status = 'draft'"@,
            seq![
                Datum::Text(session_id),
                Datum::Text(run_id),
                Datum::Text(goal),
                Datum::Text(assignments_json),
            ],
        ),
        runs(
            post[pre.len() + 1int],
            "DELETE FROM acceptance_criteria WHERE session_id = ?1 AND run_id = ?2"@,
            seq![Datum::Text(session_id), Datum::Text(run_id)],
        ),
        forall|i: int|
            0 <= i < criteria.len() ==> stores_criterion(
                post[pre.len() + 2 + i],
                #[trigger] criteria[i],
            ),
        forall|k: int| pre.len() <= k < post.len() ==> !is_refused(#[trigger] post[k]),
{
    let done = Ok::<(), DbError>(());
    let (mid, update) = choose|mid: Trace, update: Result<(), DbError>|
        {
            &&& #[trigger] contracts::draft_frozen(
                pre,
                mid,
                session_id,
                run_id,
                goal,
                assignments_json,
                update,
            )
            &&& contracts::criteria_replaced(
                mid,
                post,
                session_id,
                run_id,
                criteria,
                update,
                done,
            )
        };
    let script = contracts::replacement(session_id, run_id, criteria);
    let p = pre.len() as int;
    assert(mid[p] == mid.last());
    assert(post.take(mid.len() as int)[p] == mid[p]);
    assert(tx::asks(post[mid.len() + 0int], script[0]));
    assert forall|i: int| 0 <= i < criteria.len() implies stores_criterion(
        post[p + 2 + i],
        #[trigger] criteria[i],
    ) by {
        assert(tx::asks(post[mid.len() + (i + 1)], script[i + 1]));
        assert(mid.len() + (i + 1) == p + 2 + i);
    }
    assert forall|k: int| p <= k < post.len() implies !is_refused(#[trigger] post[k]) by {
        if k > p {
            let i = k - mid.len();
            if k < post.len() - 1 {
                assert(tx::accepted(post[mid.len() + i]));
            }
        }
    }
}

/// Whether members are those of a list: `places` are where each of them is first named, and go up; a
/// member is named by an id, white space around it aside, that is not empty and not the lead's.
pub open spec fn are_members(
    ids: Seq<Seq<char>>,
    lead: Option<Seq<char>>,
    members: Seq<Seq<char>>,
    places: Seq<int>,
) -> bool {
    &&& members.len() == places.len()
    &&& forall|i: int| 0 <= i < places.len() ==> 0 <= #[trigger] places[i] < ids.len()
    &&& forall|i: int, j: int| 0 <= i < j < places.len() ==> places[i] < places[j]
    &&& forall|i: int|
        0 <= i < members.len() ==> {
            &&& #[trigger] members[i] == text::trimmed(ids[places[i]])
            &&& members[i].len() > 0
            &&& Some(members[i]) != lead
        }
    &&& forall|i: int, k: int|
        0 <= i < members.len() && 0 <= k < places[i] ==> text::trimmed(#[trigger] ids[k])
            != #[trigger] members[i]
    &&& forall|k: int|
        0 <= k < ids.len() && text::trimmed(#[trigger] ids[k]).len() > 0 && Some(
            text::trimmed(ids[k]),
        ) != lead ==> members.contains(text::trimmed(ids[k]))
}

/// The members of a team are all that are named but the lead, each once, as they are first named.
pub proof fn law_members_are_all_that_are_named(
    ids: Seq<Seq<char>>,
    lead: Option<Seq<char>>,
) -> (places: Seq<int>)
    ensures
        are_members(ids, lead, agents::members_among(ids, lead), places),
    decreases ids.len(),
{
    let members = agents::members_among(ids, lead);
    if ids.len() == 0 {
        Seq::empty()
    } else {
        let fewer = ids.drop_last();
        let before = law_members_are_all_that_are_named(fewer, lead);
        let rest = agents::members_among(fewer, lead);
        assert(forall|k: int| 0 <= k < fewer.len() ==> fewer[k] == #[trigger] ids[k]);
        let id = text::trimmed(ids.last());
        if id.len() > 0 && Some(id) != lead && !rest.contains(id) {
            assert(members == rest.push(id));
            let places = before.push(ids.len() - 1);
            assert forall|i: int, k: int|
                0 <= i < members.len() && 0 <= k < places[i] implies text::trimmed(
                #[trigger] ids[k],
            ) != #[trigger] members[i] by {
                if i < rest.len() {
                    assert(rest[i] == members[i]);
                    assert(fewer[k] == ids[k]);
                } else {
                    assert(fewer[k] == ids[k]);
                    if text::trimmed(fewer[k]) == id {
                        assert(rest.contains(id));
                    }
                }
            }
            assert forall|k: int|
                0 <= k < ids.len() && text::trimmed(#[trigger] ids[k]).len() > 0 && Some(
                    text::trimmed(ids[k]),
                ) != lead implies members.contains(text::trimmed(ids[k])) by {
                if k < fewer.len() {
                    assert(fewer[k] == ids[k]);
                    let i = choose|i: int|
                        0 <= i < rest.len() && rest[i] == text::trimmed(ids[k]);
                    assert(members[i] == rest[i]);
                } else {
                    assert(members[rest.len() as int] == id);
                }
            }
            places
        } else {
            assert(members == rest);
            assert forall|k: int|
                0 <= k < ids.len() && text::trimmed(#[trigger] ids[k]).len() > 0 && Some(
                    text::trimmed(ids[k]),
                ) != lead implies members.contains(text::trimmed(ids[k])) by {
                if k < fewer.len() {
                    assert(fewer[k] == ids[k]);
                }
            }
            before
        }
    }
}

/// What a stored row says of the agents of a session: its lead is the stored text without the white
/// space around it, if anything is left, and its members are the stored list; a list that cannot be read
/// is an error of the second column.
pub proof fn law_config_is_what_its_row_says(
    session_id: Seq<char>,
    lead: Option<Seq<char>>,
    parsed: Result<Seq<Seq<char>>, Seq<char>>,
    r: Result<SessionAgentConfig, DbError>,
)
    requires
        agents::config_made(session_id, lead, parsed, r),
    ensures
        match parsed {
            Ok(members) => {
                &&& r matches Ok(config)
                &&& config.session_id@ == session_id
                &&& text::texts(config.member_agent_ids@) == members
                &&& match lead {
                    Some(said) => if text::trimmed(said).len() > 0 {
                        config.lead_agent_id matches Some(id) && id@ == text::trimmed(said)
                    } else {
                        config.lead_agent_id is None
                    },
                    None => config.lead_agent_id is None,
                }
            },
            Err(why) => r matches Err(DbError::Conversion { index: 1, detail }) && detail@ == why,
        },
{
}

/// A session works with a team exactly where it has a lead, whose team it is.
pub proof fn law_session_with_a_lead_has_a_team(config: SessionAgentConfig)
    ensures
        agents::mode_of(config) is Team <==> config.lead_agent_id is Some,
        agents::mode_of(config) matches SessionMode::Team { lead_agent_id, member_ids } ==> Some(
            lead_agent_id,
        ) == config.lead_agent_id && member_ids@ == config.member_agent_ids@,
{
}

/// Whether a step shows the contents of a session's messages.
pub open spec fn shows_contents(
    step: Step,
    query: Seq<char>,
    session_id: Seq<char>,
    rows: Seq<Seq<Datum>>,
) -> bool {
    &&& step matches Step::Asked {
        request: Request::All { sql, params, .. },
        reply: Reply::Rows(found),
    }
    &&& sql == query
    &&& params == seq![Datum::Text(session_id)]
    &&& found.len() == rows.len()
    &&& forall|i: int| 0 <= i < found.len() ==> #[trigger] found[i] == Ok::<_, Seq<char>>(rows[i])
}

/// Whether a block is the card of a decision.
pub open spec fn is_card(block: Node, decision_id: Seq<char>) -> bool {
    &&& json::member(block, "type"@) == Some(Node::Text("decision_card"@))
    &&& json::member(block, "decision_id"@) == Some(Node::Text(decision_id))
}

/// Whether a content has no card of a decision.
pub open spec fn has_no_card(content: Seq<char>, decision_id: Seq<char>) -> bool {
    json::json_parsed(content) matches Ok(Node::Array(blocks)) ==> forall|k: int|
        0 <= k < blocks.len() ==> !is_card(#[trigger] blocks[k], decision_id)
}

/// Whether the first card of a decision in some contents is a block of one of them.
pub open spec fn is_first_card(
    contents: Seq<Seq<char>>,
    decision_id: Seq<char>,
    at: int,
    blocks: Seq<Node>,
    place: int,
) -> bool {
    &&& 0 <= at < contents.len()
    &&& forall|k: int| 0 <= k < at ==> has_no_card(#[trigger] contents[k], decision_id)
    &&& json::json_parsed(contents[at]) == Ok::<Node, Seq<char>>(Node::Array(blocks))
    &&& 0 <= place < blocks.len()
    &&& is_card(blocks[place], decision_id)
    &&& forall|k: int| 0 <= k < place ==> !is_card(#[trigger] blocks[k], decision_id)
}

proof fn lemma_same_card(block: Node, decision_id: Seq<char>)
    ensures
        cards::is_decision_card(block, decision_id) == is_card(block, decision_id),
{
}

proof fn lemma_card_from(blocks: Seq<Node>, decision_id: Seq<char>, from: nat)
    requires
        from <= blocks.len(),
    ensures
        match cards::card_from(blocks, decision_id, from) {
            Some(i) => {
                &&& from <= i < blocks.len()
                &&& is_card(blocks[i as int], decision_id)
                &&& forall|k: int| from <= k < i ==> !is_card(#[trigger] blocks[k], decision_id)
            },
            None => forall|k: int|
                from <= k < blocks.len() ==> !is_card(#[trigger] blocks[k], decision_id),
        },
    decreases blocks.len() - from,
{
    if from < blocks.len() {
        lemma_same_card(blocks[from as int], decision_id);
        if !is_card(blocks[from as int], decision_id) {
            lemma_card_from(blocks, decision_id, from + 1);
        }
    }
}

proof fn lemma_hit_from(contents: Seq<Seq<char>>, decision_id: Seq<char>, from: nat)
    requires
        from <= contents.len(),
    ensures
        match cards::hit_from(contents, decision_id, from) {
            Some(i) => {
                &&& from <= i < contents.len()
                &&& forall|k: int|
                    from <= k < i ==> has_no_card(#[trigger] contents[k], decision_id)
                &&& cards::card_in(json::json_parsed(contents[i as int]), decision_id) is Some
            },
            None => forall|k: int|
                from <= k < contents.len() ==> has_no_card(#[trigger] contents[k], decision_id),
        },
    decreases contents.len() - from,
{
    if from < contents.len() {
        let parsed = json::json_parsed(contents[from as int]);
        if let Ok(Node::Array(blocks)) = parsed {
            lemma_card_from(blocks, decision_id, 0);
        }
        if cards::card_in(parsed, decision_id) is None {
            lemma_hit_from(contents, decision_id, from + 1);
        }
    }
}

proof fn lemma_first_card(contents: Seq<Seq<char>>, decision_id: Seq<char>)
    ensures
        match cards::hit_from(contents, decision_id, 0) {
            Some(i) => {
                let hit = cards::card_in(json::json_parsed(contents[i as int]), decision_id);
                &&& hit is Some
                &&& is_first_card(
                    contents,
                    decision_id,
                    i as int,
                    hit->Some_0.0,
                    hit->Some_0.1 as int,
                )
            },
            None => forall|k: int|
                0 <= k < contents.len() ==> has_no_card(#[trigger] contents[k], decision_id),
        },
{
    lemma_hit_from(contents, decision_id, 0);
    if let Some(i) = cards::hit_from(contents, decision_id, 0) {
        if let Ok(Node::Array(blocks)) = json::json_parsed(contents[i as int]) {
            lemma_card_from(blocks, decision_id, 0);
        }
    }
}

/// Whether blocks are those of a content of which one, a card, was decided: its status is the next one,
/// the option that was chosen is named, and all else is as it was.
pub open spec fn is_decided(
    before: Seq<Node>,
    after: Seq<Node>,
    place: int,
    status: Seq<char>,
    chosen_option: Option<Seq<char>>,
) -> bool {
    &&& after.len() == before.len()
    &&& forall|k: int| 0 <= k < after.len() && k != place ==> #[trigger] after[k] == before[k]
    &&& json::member(after[place], "status"@) == Some(Node::Text(status))
    &&& chosen_option matches Some(option) ==> json::member(after[place], "chosen_option"@) == Some(
        Node::Text(option),
    )
    &&& forall|name: Seq<char>|
        name != "status"@ && (name != "chosen_option"@ || chosen_option is None)
            ==> #[trigger] json::member(after[place], name) == json::member(before[place], name)
}

proof fn lemma_is_decided(
    blocks: Seq<Node>,
    place: nat,
    decision_id: Seq<char>,
    status: Seq<char>,
    chosen_option: Option<Seq<char>>,
)
    requires
        place < blocks.len(),
        is_card(blocks[place as int], decision_id),
    ensures
        is_decided(
            blocks,
            blocks.update(
                place as int,
                cards::decided_card(blocks[place as int], status, chosen_option),
            ),
            place as int,
            status,
            chosen_option,
        ),
{
    reveal_strlit("status");
    reveal_strlit("chosen_option");
    assert("status"@.len() != "chosen_option"@.len());
    let card = blocks[place as int];
    let made = cards::decided_card(card, status, chosen_option);
    let marked = json::with_member(card->Object_0, "status"@, Node::Text(status));
    json::law_with_member(card->Object_0, "status"@, Node::Text(status), "status"@);
    if let Some(option) = chosen_option {
        json::law_with_member(marked, "chosen_option"@, Node::Text(option), "status"@);
        json::law_with_member(marked, "chosen_option"@, Node::Text(option), "chosen_option"@);
    }
    assert forall|name: Seq<char>|
        name != "status"@ && (name != "chosen_option"@ || chosen_option is None) implies
        #[trigger] json::member(made, name) == json::member(card, name) by {
        cards::law_deciding_keeps_the_rest(card, status, chosen_option, name);
    }
}

/// Whether a decision was made at a place of a trace: the content with its first card decided is
/// stored, and after the commit that is told.
pub open spec fn makes_decision(
    all: Trace,
    at: int,
    session_id: Seq<char>,
    decision: cards::Decision,
    id: Datum,
    after: Seq<Node>,
) -> bool {
    &&& all.len() == at + 3
    &&& runs(
        all[at],
        "UPDATE messages SET content = ?1 WHERE id = ?2"@,
        seq![Datum::Text(json::json_printed(Node::Array(after))), id],
    )
    &&& !is_refused(all[at])
    &&& all[at + 1] == tx::commitment()
    &&& all[at + 2] == Step::Published(
        Notice::CardResolved {
            session_id,
            decision_id: decision.decision_id@,
            status: decision.next_status@,
            chosen_option: events::opt_str(decision.chosen_option),
        },
    )
}

/// The contents that rows of ids and contents say.
pub open spec fn said(rows: Seq<Seq<Datum>>) -> Seq<Seq<char>> {
    rows.map_values(|row: Seq<Datum>| row[1]->Text_0)
}

/// What a decision comes to: its first card in the messages of a session is decided where its status is
/// the one that is expected, and else nothing is stored or told.
pub open spec fn is_outcome(
    all: Trace,
    start: int,
    session_id: Seq<char>,
    decision: cards::Decision,
    rows: Seq<Seq<Datum>>,
    at: int,
    blocks: Seq<Node>,
    place: int,
    after: Seq<Node>,
    made: bool,
) -> bool {
    &&& all[start] == tx::opening()
    &&& shows_contents(
        all[start + 1],
        "SELECT id, content FROM messages WHERE session_id = ?1 ORDER BY id ASC"@,
        session_id,
        rows,
    )
    &&& !made ==> all.len() == start + 3 && all[start + 2] == tx::commitment()
    &&& if at < rows.len() {
        &&& is_first_card(said(rows), decision.decision_id@, at, blocks, place)
        &&& made <==> json::member(blocks[place], "status"@) == Some(
            Node::Text(decision.expect_status@),
        )
        &&& made ==> is_decided(
            blocks,
            after,
            place,
            decision.next_status@,
            events::opt_str(decision.chosen_option),
        ) && makes_decision(all, start + 2, session_id, decision, rows[at][0], after)
    } else {
        &&& !made
        &&& forall|k: int|
            0 <= k < rows.len() ==> has_no_card(
                #[trigger] said(rows)[k],
                decision.decision_id@,
            )
    }
}

/// A decision is made on its first card, exactly where the card's status is the one that is expected:
/// then the card alone is changed, and that is told.
pub proof fn law_decision_is_made_on_its_first_card(
    pre: Trace,
    post: Trace,
    session_id: Seq<char>,
    decision: cards::Decision,
    made: bool,
) -> (told: (Seq<Seq<Datum>>, int, Seq<Node>, int, Seq<Node>))
    requires
        cards::decision_announced(
            pre,
            post,
            session_id,
            decision,
            Ok::<bool, DbError>(made),
        ),
    ensures
        is_outcome(
            post,
            pre.len() as int,
            session_id,
            decision,
            told.0,
            told.1,
            told.2,
            told.3,
            told.4,
            made,
        ),
{
    let r = Ok::<bool, DbError>(made);
    let done = choose|done: Trace|
        {
            &&& #[trigger] cards::decision_transacted(pre, done, session_id, decision, r)
            &&& cards::decision_told(done, post, session_id, decision, r)
        };
    let body = |a: Trace, b: Trace, x: Result<bool, DbError>|
        cards::decision_made(a, b, session_id, decision, x);
    tx::law_transaction_outcome(pre, done, body, r);
    let opened = pre.push(tx::opening());
    let inner = choose|inner: Trace|
        #[trigger] body(opened, inner, r) && done == inner.push(tx::commitment());
    assert(cards::decision_made(opened, inner, session_id, decision, r));
    let (mid, got) = choose|mid: Trace, got: Result<Vec<(i64, String)>, DbError>|
        {
            &&& #[trigger] cards::contents_read(opened, mid, session_id, got)
            &&& cards::decision_made_from(mid, inner, decision, got, r)
        };
    let found = mid.last()->reply->Rows_0;
    let read = got->Ok_0@;
    let rows = found.map_values(|row: Result<Seq<Datum>, Seq<char>>| row->Ok_0);
    let contents = cards::contents_of(read);
    assert forall|i: int| 0 <= i < found.len() implies {
        &&& #[trigger] found[i] == Ok::<_, Seq<char>>(rows[i])
        &&& rows[i][0] == Datum::Integer(read[i].0)
        &&& rows[i][1] == Datum::Text(read[i].1@)
    } by {
        assert(found[i] matches Ok(row) && read[i].is_row(row));
    }
    assert(said(rows) =~= contents) by {
        assert forall|i: int| 0 <= i < rows.len() implies #[trigger] said(rows)[i]
            == contents[i] by {
            assert(found[i] == Ok::<_, Seq<char>>(rows[i]));
        }
    }
    let p = pre.len() as int;
    assert(post[p] == opened[p]);
    assert(mid[p + 1] == mid.last());
    assert(post[p + 1] == mid[p + 1]);
    lemma_first_card(contents, decision.decision_id@);
    match cards::hit_from(contents, decision.decision_id@, 0) {
        None => (rows, rows.len() as int, Seq::empty(), 0, Seq::empty()),
        Some(i) => {
            let hit = cards::card_in(
                json::json_parsed(read[i as int].1@),
                decision.decision_id@,
            )->Some_0;
            assert(contents[i as int] == read[i as int].1@);
            let option = events::opt_str(decision.chosen_option);
            let card = hit.0[hit.1 as int];
            let after = hit.0.update(
                hit.1 as int,
                cards::decided_card(card, decision.next_status@, option),
            );
            lemma_is_decided(
                hit.0,
                hit.1,
                decision.decision_id@,
                decision.next_status@,
                option,
            );
            let status = json::member(card, "status"@);
            assert(json::says(card, "status"@, decision.expect_status@) <==> status == Some(
                Node::Text(decision.expect_status@),
            ));
            assert(found[i as int] == Ok::<_, Seq<char>>(rows[i as int]));
            if made {
                assert(inner[p + 2] == inner.last());
                assert(post[p + 2] == inner[p + 2]);
            }
            (rows, i as int, hit.0, hit.1 as int, after)
        },
    }
}

proof fn lemma_card_is_there(
    content: Seq<char>,
    decision_id: Seq<char>,
    blocks: Seq<Node>,
    place: int,
)
    requires
        json::json_parsed(content) == Ok::<Node, Seq<char>>(Node::Array(blocks)),
        0 <= place < blocks.len(),
        is_card(blocks[place], decision_id),
    ensures
        !has_no_card(content, decision_id),
{
    let parsed = json::json_parsed(content)->Ok_0->Array_0;
    assert(parsed == blocks);
    assert(is_card(parsed[place], decision_id));
}

/// A card is found by its decision where there is one: the first one's question and status, each empty
/// where the card does not say it.
pub proof fn law_first_card_is_found(
    contents: Seq<Seq<char>>,
    decision_id: Seq<char>,
    at: int,
    blocks: Seq<Node>,
    place: int,
    r: Option<(String, String)>,
)
    requires
        is_first_card(contents, decision_id, at, blocks, place),
        cards::card_found(contents, decision_id, r),
    ensures
        r is Some,
        match json::member(blocks[place], "question"@) {
            Some(Node::Text(question)) => r->Some_0.0@ == question,
            _ => r->Some_0.0@.len() == 0,
        },
        match json::member(blocks[place], "status"@) {
            Some(Node::Text(status)) => r->Some_0.1@ == status,
            _ => r->Some_0.1@.len() == 0,
        },
{
    lemma_first_card(contents, decision_id);
    lemma_card_is_there(contents[at], decision_id, blocks, place);
    let i = cards::hit_from(contents, decision_id, 0)->Some_0;
    let hit = cards::card_in(json::json_parsed(contents[i as int]), decision_id)->Some_0;
    lemma_card_is_there(contents[i as int], decision_id, hit.0, hit.1 as int);
    assert(i as int == at);
    assert(hit.0 == blocks);
    assert(hit.1 as int == place) by {
        assert(is_card(hit.0[hit.1 as int], decision_id));
        assert(is_card(blocks[place], decision_id));
    }
}

} // verus!
