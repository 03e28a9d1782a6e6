//! What deleting, restoring and archiving sessions leaves of them, step by step.
use crate::agents;
use crate::chain;
use crate::engine::{Datum, DbError, Reply, Request, Step, Trace};
use crate::events;
use crate::events::Notice;
use crate::rows;
use crate::rows::FromRow;
use crate::sessions;
use crate::text;
use crate::trace;
use crate::tx;
use vstd::prelude::*;

verus! {

/// Whether a step runs a statement with an id, and it was accepted.
pub open spec fn runs_with(step: Step, statement: Seq<char>, id: Seq<char>) -> bool {
    &&& step matches Step::Asked { request: Request::Execute { sql, params }, reply }
    &&& !(reply is Failed)
    &&& sql == statement
    &&& params == seq![Datum::Text(id)]
}

/// Whether a statement was run with an id between two places of a trace.
pub open spec fn ran_with(
    all: Trace,
    from: int,
    to: int,
    statement: Seq<char>,
    id: Seq<char>,
) -> bool {
    exists|k: int| from <= k < to && runs_with(#[trigger] all[k], statement, id)
}

/// The statements that delete what a session has in the other tables: one for each table that has rows
/// of a session, and those that unlink it from sessions that it continues or that continue it.
pub open spec fn belongings() -> Seq<Seq<char>> {
    seq![
        "DELETE FROM member_report_delivery WHERE session_id = ?1"@,
        "DELETE FROM messages WHERE session_id = ?1"@,
        "DELETE FROM attachments WHERE session_id = ?1"@,
        "DELETE FROM memory_blocks WHERE session_id = ?1"@,
        "DELETE FROM memory_entries WHERE session_id = ?1"@,
        "DELETE FROM run_commits WHERE session_id = ?1"@,
        "DELETE FROM run_commit_intents WHERE session_id = ?1"@,
        "DELETE FROM checkpoint_entries WHERE session_id = ?1"@,
        "DELETE FROM team_run_pending WHERE session_id = ?1"@,
        "DELETE FROM decision_ledger WHERE session_id = ?1"@,
        "DELETE FROM lead_loop_state WHERE session_id = ?1"@,
        "DELETE FROM landing_commits WHERE session_id = ?1"@,
        "DELETE FROM goal_contracts WHERE session_id = ?1"@,
        "DELETE FROM acceptance_criteria WHERE session_id = ?1"@,
        "DELETE FROM artifacts WHERE session_id = ?1"@,
        "DELETE FROM session_agent_configs WHERE session_id = ?1"@,
        "DELETE FROM session_runtime WHERE session_id = ?1"@,
        "DELETE FROM remote_inbox WHERE session_id = ?1"@,
        "UPDATE sessions SET continued_to_session_id = NULL WHERE continued_to_session_id = ?1"@,
    ]
}

/// The statements that delete what an artifact has in the other tables.
pub open spec fn artifact_belongings() -> Seq<Seq<char>> {
    seq![
        "DELETE FROM verifications WHERE artifact_id = ?1"@,
        "DELETE FROM reviews WHERE artifact_id = ?1"@,
        "DELETE FROM merge_candidates WHERE artifact_id = ?1"@,
    ]
}

/// Whether a step shows the artifacts of a session.
pub open spec fn shows_artifacts(step: Step, id: Seq<char>, artifacts: Seq<Seq<char>>) -> bool {
    &&& step matches Step::Asked {
        request: Request::All { sql, params, .. },
        reply: Reply::Rows(found),
    }
    &&& sql == "SELECT id FROM artifacts WHERE session_id = ?1"@
    &&& params == seq![Datum::Text(id)]
    &&& found.len() == artifacts.len()
    &&& forall|i: int|
        0 <= i < found.len() ==> (#[trigger] found[i] matches Ok(row) && row[0] == Datum::Text(
            artifacts[i],
        ))
}

proof fn lemma_artifacts_are_purged(ids: Seq<Seq<char>>, i: int, j: int)
    requires
        0 <= i < ids.len(),
        0 <= j < 3,
    ensures
        sessions::artifact_purge(ids).len() == 3 * ids.len(),
        sessions::artifact_purge(ids)[3 * i + j] == sessions::with_id(
            artifact_belongings()[j],
            ids[i],
        ),
    decreases ids.len(),
{
    let fewer = ids.drop_last();
    if fewer.len() > 0 {
        let k = if i < fewer.len() {
            i
        } else {
            0
        };
        lemma_artifacts_are_purged(fewer, k, j);
        assert(fewer[k] == ids[k]);
    }
    assert(sessions::artifact_purge(fewer).len() == 3 * fewer.len());
}

proof fn lemma_script_ran(
    pre: Trace,
    post: Trace,
    late: Trace,
    script: Seq<Request>,
    i: int,
    statement: Seq<char>,
    id: Seq<char>,
)
    requires
        tx::scripted(pre, post, script, Ok::<(), DbError>(())),
        trace::extends(post, late),
        0 <= i < script.len(),
        script[i] == sessions::with_id(statement, id),
    ensures
        ran_with(late, pre.len() as int, post.len() as int, statement, id),
{
    let k = pre.len() + i;
    assert(tx::asks(post[pre.len() + i], script[i]));
    if i == script.len() - 1 {
        assert(post.last() == post[k]);
    } else {
        assert(tx::accepted(post[pre.len() + i]));
    }
    trace::lemma_step_stays(post, late, k);
    assert(runs_with(late[k], statement, id));
}

/// Whether the steps of a trace after `start` delete a session with all that belongs to it: in one
/// transaction, and last the session itself.
pub open spec fn deletes_all(
    all: Trace,
    start: int,
    id: Seq<char>,
    artifacts: Seq<Seq<char>>,
    end: int,
) -> bool {
    &&& start + 2 < end < all.len()
    &&& all[start] == tx::opening()
    &&& shows_artifacts(all[start + 1], id, artifacts)
    &&& forall|i: int, j: int|
        0 <= i < artifacts.len() && 0 <= j < 3 ==> ran_with(
            all,
            start,
            end,
            #[trigger] artifact_belongings()[j],
            #[trigger] artifacts[i],
        )
    &&& forall|j: int|
        0 <= j < belongings().len() ==> ran_with(
            all,
            start,
            end,
            #[trigger] belongings()[j],
            id,
        )
    &&& runs_with(all[end - 1], "DELETE FROM sessions WHERE id = ?1"@, id)
    &&& all[end] == tx::commitment()
}

proof fn lemma_wider(
    all: Trace,
    from: int,
    to: int,
    less: int,
    more: int,
    statement: Seq<char>,
    id: Seq<char>,
)
    requires
        ran_with(all, from, to, statement, id),
        less <= from,
        to <= more,
    ensures
        ran_with(all, less, more, statement, id),
{
    let k = choose|k: int| from <= k < to && runs_with(#[trigger] all[k], statement, id);
    assert(less <= k < more && runs_with(all[k], statement, id));
}

proof fn lemma_belongings_are_purged(id: Seq<char>, j: int)
    requires
        0 <= j < belongings().len(),
    ensures
        exists|i: int|
            0 <= i < sessions::session_purge(id).len() && #[trigger] sessions::session_purge(id)[i]
                == sessions::with_id(belongings()[j], id),
{
    let purge = sessions::session_purge(id);
    if j < 18 {
        assert(purge[j] == sessions::with_id(belongings()[j], id));
    } else {
        assert(purge[19] == sessions::with_id(belongings()[j], id));
    }
}

/// A session that is deleted for good leaves nothing behind: what it has in any other table is deleted,
/// what its artifacts have, and then the session, in one transaction. Where there was such a session,
/// that is announced after the commit.
pub proof fn law_deleted_session_leaves_nothing(
    pre: Trace,
    post: Trace,
    id: Seq<char>,
) -> (told: (Seq<Seq<char>>, int))
    requires
        sessions::session_deleted(pre, post, id, Ok::<(), DbError>(())),
    ensures
        deletes_all(post, pre.len() as int, id, told.0, told.1),
        if post[told.1 - 1]->reply == Reply::Changed(0) {
            post.len() == told.1 + 1
        } else {
            post.len() == told.1 + 2 && post.last() == Step::Published(
                Notice::SessionDeleted { id },
            )
        },
{
    let done = Ok::<(), DbError>(());
    let (mid, n) = choose|mid: Trace, n: Result<usize, DbError>|
        {
            &&& #[trigger] sessions::purge_transacted(pre, mid, id, n)
            &&& sessions::deletion_told(mid, post, id, n, done)
        };
    let body = |a: Trace, b: Trace, x: Result<usize, DbError>| sessions::purged(a, b, id, x);
    tx::law_transaction_outcome(pre, mid, body, n);
    let inner = choose|inner: Trace|
        #[trigger] body(pre.push(tx::opening()), inner, n) && mid == inner.push(tx::commitment());
    let opened = pre.push(tx::opening());
    assert(sessions::purged(opened, inner, id, n));
    let (t1, listed) = choose|t1: Trace, listed: Result<Vec<String>, DbError>|
        {
            &&& #[trigger] sessions::artifact_ids_read(opened, t1, id, listed)
            &&& match listed {
                Ok(ids) => exists|t2: Trace, ran: Result<(), DbError>|
                    {
                        &&& #[trigger] sessions::belongings_deleted(
                            t1,
                            t2,
                            id,
                            text::texts(ids@),
                            ran,
                        )
                        &&& match ran {
                            Ok(()) => sessions::session_row_deleted(t2, inner, id, n),
                            Err(e) => inner == t2 && n == Err::<usize, DbError>(e),
                        }
                    },
                Err(e) => inner == t1 && n == Err::<usize, DbError>(e),
            }
        };
    let artifacts = text::texts(listed->Ok_0@);
    let (t2, ran) = choose|t2: Trace, ran: Result<(), DbError>|
        {
            &&& #[trigger] sessions::belongings_deleted(t1, t2, id, artifacts, ran)
            &&& match ran {
                Ok(()) => sessions::session_row_deleted(t2, inner, id, n),
                Err(e) => inner == t2 && n == Err::<usize, DbError>(e),
            }
        };
    let p = pre.len() as int;
    let end = inner.len() as int;
    assert(post.take(t2.len() as int) =~= t2);
    assert(t2.take(t1.len() as int) == t1);
    assert(trace::extends(t1, t2) && trace::extends(t2, post));
    trace::lemma_step_stays(t1, t2, p);
    trace::lemma_step_stays(t1, t2, p + 1);
    trace::lemma_step_stays(t2, post, p);
    trace::lemma_step_stays(t2, post, p + 1);
    assert(t1[p] == opened[p]);
    let found = post[p + 1]->reply->Rows_0;
    let ids = listed->Ok_0;
    assert forall|i: int| 0 <= i < found.len() implies (#[trigger] found[i] matches Ok(row)
        && row[0] == Datum::Text(artifacts[i])) by {
        assert(found[i] matches Ok(row) && ids@[i].is_row(row));
    }
    let script = sessions::artifact_purge(artifacts) + sessions::session_purge(id);
    assert forall|i: int, j: int| 0 <= i < artifacts.len() && 0 <= j < 3 implies ran_with(
        post,
        p,
        end,
        #[trigger] artifact_belongings()[j],
        #[trigger] artifacts[i],
    ) by {
        lemma_artifacts_are_purged(artifacts, i, j);
        let statement = artifact_belongings()[j];
        lemma_script_ran(t1, t2, post, script, 3 * i + j, statement, artifacts[i]);
        lemma_wider(
            post,
            t1.len() as int,
            t2.len() as int,
            p,
            end,
            statement,
            artifacts[i],
        );
    }
    assert forall|j: int| 0 <= j < belongings().len() implies ran_with(
        post,
        p,
        end,
        #[trigger] belongings()[j],
        id,
    ) by {
        lemma_belongings_are_purged(id, j);
        let i = choose|i: int|
            0 <= i < sessions::session_purge(id).len() && #[trigger] sessions::session_purge(id)[i]
                == sessions::with_id(belongings()[j], id);
        let at = sessions::artifact_purge(artifacts).len() + i;
        assert(script[at] == sessions::session_purge(id)[i]);
        lemma_script_ran(t1, t2, post, script, at, belongings()[j], id);
        lemma_wider(post, t1.len() as int, t2.len() as int, p, end, belongings()[j], id);
    }
    assert(post[end - 1] == inner[end - 1]);
    assert(post[end] == mid[end]);
    (artifacts, end)
}

/// What is replied to the check of a session's lineage, and what comes of it: where it continues none
/// it is fit; else its parent has to be there, not be deleted and point to no other session, and no
/// other live session may continue that parent.
pub open spec fn lineage_is_judged(
    all: Trace,
    start: int,
    id: Seq<char>,
    r: Result<Option<String>, DbError>,
) -> bool {
    let first = all[start];
    let second = all[start + 1];
    let third = all[start + 2];
    &&& chain::tells_none(first) ==> r == Ok::<Option<String>, DbError>(None)
    &&& forall|parent: Seq<char>| #[trigger]
        chain::tells_text(first, parent) ==> {
            match second {
                Step::Asked { reply: Reply::Row(None), .. } => agents::violates(
                    r,
                    "AL_ERR:db.restore.parentMissing"@,
                ),
                Step::Asked { reply: Reply::Row(Some(row)), .. } => if row[0] is Integer {
                    agents::violates(r, "AL_ERR:db.restore.parentDeleted"@)
                } else if row[1] is Text && row[1] != Datum::Text(id) {
                    agents::violates(r, "AL_ERR:db.restore.parentPointsElsewhere"@)
                } else {
                    match third {
                        Step::Asked { reply: Reply::Row(Some(row)), .. } => if row[0]
                            == Datum::Integer(0) {
                            r matches Ok(Some(p)) && p@ == parent
                        } else {
                            agents::violates(r, "AL_ERR:db.restore.liveChildExists"@)
                        },
                        _ => r is Err,
                    }
                },
                _ => r is Err,
            }
        }
}

/// A session may be restored exactly where what it continued is still fit for it.
pub proof fn law_lineage_decides_whether_to_restore(
    pre: Trace,
    post: Trace,
    id: Seq<char>,
    r: Result<Option<String>, DbError>,
)
    requires
        sessions::lineage_checked(pre, post, id, r),
    ensures
        lineage_is_judged(post, pre.len() as int, id, r),
{
    let p = pre.len() as int;
    let (mid, parent) = choose|mid: Trace, parent: Result<Option<String>, DbError>|
        {
            &&& #[trigger] sessions::parent_read(pre, mid, id, parent)
            &&& match parent {
                Ok(Some(parent_id)) => sessions::parent_checked(mid, post, id, parent_id, r),
                Ok(None) => post == mid && r == Ok::<Option<String>, DbError>(None),
                Err(e) => post == mid && r == parent,
            }
        };
    if let Ok(Some(parent_id)) = parent {
        let (seen, got) = choose|
            seen: Trace,
            got: Result<Option<(Option<i64>, Option<String>)>, DbError>,
        |
            {
                &&& #[trigger] sessions::lineage_read(mid, seen, parent_id@, got)
                &&& match got {
                    Ok(row) => match sessions::parent_problem(id, row) {
                        Some(why) => post == seen && agents::violates(r, why),
                        None => exists|other: Result<bool, DbError>|
                            {
                                &&& #[trigger] sessions::other_child_read(
                                    seen,
                                    post,
                                    parent_id@,
                                    id,
                                    other,
                                )
                                &&& match other {
                                    Ok(true) => agents::violates(
                                        r,
                                        "AL_ERR:db.restore.liveChildExists"@,
                                    ),
                                    Ok(false) => r == Ok::<Option<String>, DbError>(
                                        Some(parent_id),
                                    ),
                                    Err(e) => r == Err::<Option<String>, DbError>(e),
                                }
                            },
                    },
                    Err(e) => post == seen && r == Err::<Option<String>, DbError>(e),
                }
            };
        assert(seen[p] == mid[p]);
        assert(post[p] == seen[p]);
        assert(post[p + 1] == seen[p + 1]);
        assert(chain::tells_text(post[p], parent_id@));
    }
}

/// Whether whether sessions are archived was stored for each of some, one after the other: `counts` say
/// how many rows each of the statements changed.
pub open spec fn stores_each(
    all: Trace,
    start: int,
    ids: Seq<Seq<char>>,
    from: int,
    archived: bool,
    counts: Seq<nat>,
) -> bool {
    &&& counts.len() == ids.len() - from
    &&& forall|k: int|
        0 <= k < counts.len() ==> all[start + k] == (Step::Asked {
            request: Request::Execute {
                sql: "UPDATE sessions SET archived = ?2, archived_at = CASE WHEN ?2 THEN strftime('%s','now') ELSE NULL END WHERE id = ?1"@,
                params: seq![
                    Datum::Text(ids[from + k]),
                    Datum::Integer(
                        if archived {
                            1
                        } else {
                            0
                        },
                    ),
                ],
            },
            reply: Reply::Changed(#[trigger] counts[k]),
        })
}

/// Those of some sessions for which a statement changed a row.
pub open spec fn changed(ids: Seq<Seq<char>>, from: int, counts: Seq<nat>) -> Seq<Seq<char>>
    decreases counts.len(),
{
    if counts.len() == 0 {
        Seq::empty()
    } else {
        let rest = changed(ids, from + 1, counts.drop_first());
        if counts[0] > 0 {
            seq![ids[from]] + rest
        } else {
            rest
        }
    }
}

/// To archive sessions, or to take them out of the archive, stores that for each of them in turn; those
/// of them that there are, are the result.
pub proof fn law_each_session_is_archived(
    pre: Trace,
    post: Trace,
    ids: Seq<Seq<char>>,
    from: nat,
    archived: bool,
    before: Seq<Seq<char>>,
    v: Vec<String>,
) -> (counts: Seq<nat>)
    requires
        sessions::each_archived(
            pre,
            post,
            ids,
            from,
            archived,
            before,
            Ok::<Vec<String>, DbError>(v),
        ),
        from <= ids.len(),
    ensures
        trace::extends(pre, post),
        post.len() == pre.len() + counts.len(),
        stores_each(post, pre.len() as int, ids, from as int, archived, counts),
        text::texts(v@) == before + changed(ids, from as int, counts),
    decreases ids.len() - from,
{
    let done = Ok::<Vec<String>, DbError>(v);
    if from >= ids.len() {
        assert(post.take(pre.len() as int) =~= pre);
        let none = Seq::<nat>::empty();
        assert(before + changed(ids, from as int, none) =~= before);
        none
    } else {
        let at = from as int;
        let (mid, n) = choose|mid: Trace, n: Result<usize, DbError>|
            {
                &&& #[trigger] sessions::archived_stored(pre, mid, ids[at], archived, n)
                &&& match n {
                    Ok(count) => sessions::each_archived(
                        mid,
                        post,
                        ids,
                        from + 1,
                        archived,
                        if count > 0 {
                            before.push(ids[at])
                        } else {
                            before
                        },
                        done,
                    ),
                    Err(e) => post == mid && done == Err::<Vec<String>, DbError>(e),
                }
            };
        let count = n->Ok_0;
        let grown = if count > 0 {
            before.push(ids[at])
        } else {
            before
        };
        let rest = law_each_session_is_archived(mid, post, ids, from + 1, archived, grown, v);
        assert(mid.take(pre.len() as int) =~= pre);
        trace::lemma_extends_further(pre, mid, post);
        let counts = seq![count as nat] + rest;
        assert(counts.drop_first() =~= rest);
        assert(counts[0] == count as nat);
        let start = pre.len() as int;
        trace::lemma_step_stays(mid, post, start);
        assert forall|k: int| 0 <= k < counts.len() implies post[start + k] == (Step::Asked {
            request: Request::Execute {
                sql: "UPDATE sessions SET archived = ?2, archived_at = CASE WHEN ?2 THEN strftime('%s','now') ELSE NULL END WHERE id = ?1"@,
                params: seq![
                    Datum::Text(ids[at + k]),
                    Datum::Integer(
                        if archived {
                            1
                        } else {
                            0
                        },
                    ),
                ],
            },
            reply: Reply::Changed(#[trigger] counts[k]),
        }) by {
            if k > 0 {
                assert(counts[k] == rest[k - 1]);
                assert(mid.len() + (k - 1) == start + k);
            }
        }
        assert(grown + changed(ids, at + 1, rest) =~= before + changed(ids, at, counts));
        counts
    }
}

/// Tokens count as they are, and as none where none are given.
pub proof fn law_tokens_count_as_they_are(tokens: Option<u64>)
    requires
        tokens matches Some(n) ==> n <= 9_223_372_036_854_775_807,
    ensures
        sessions::stored_tokens(tokens) == match tokens {
            Some(n) => n as int,
            None => 0,
        },
{
}

} // verus!
