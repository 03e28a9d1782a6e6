//! What closing a run leaves in the ledger and gives to the caller, and how numbers and shifts of time
//! are written for the database.
use crate::engine::{Datum, DbError, Reply, Request, Step, Trace};
use crate::events;
use crate::rows;
use crate::rows::FromRow;
use crate::runs;
use crate::runs::{RunCloseoutMetadata, RunCommitRow, TeamRunPendingRow};
use crate::text;
use crate::trace;
use vstd::prelude::*;

verus! {

/// Whether a step runs a statement on a run, and it was accepted.
pub open spec fn runs_on(
    step: Step,
    statement: Seq<char>,
    session_id: Seq<char>,
    run_id: Seq<char>,
    more: Seq<Datum>,
) -> bool {
    &&& step matches Step::Asked {
        request: Request::Execute { sql, params },
        reply: Reply::Changed(_),
    }
    &&& sql == statement
    &&& params == seq![Datum::Text(session_id), Datum::Text(run_id)] + more
}

/// Whether a step asks for a value of a run, and is replied with a row or none.
pub open spec fn asks_of(
    step: Step,
    query: Seq<char>,
    session_id: Seq<char>,
    run_id: Seq<char>,
    found: Option<Seq<Datum>>,
) -> bool {
    &&& step matches Step::Asked {
        request: Request::First { sql, params, .. },
        reply: Reply::Row(row),
    }
    &&& sql == query
    &&& params == seq![Datum::Text(session_id), Datum::Text(run_id)]
    &&& row == found
}

/// Whether a value of a row is an optional number of things; a negative one is none that the store
/// writes.
pub open spec fn is_count(value: Datum, n: Option<u64>) -> bool {
    match n {
        Some(k) => value matches Datum::Integer(i) && (i >= 0 ==> i == k),
        None => value == Datum::Null,
    }
}

/// Whether a value of a row is an optional text.
pub open spec fn is_text(value: Datum, s: Option<String>) -> bool {
    match s {
        Some(said) => value == Datum::Text(said@),
        None => value == Datum::Null,
    }
}

/// Whether a run that has a commit was closed: it keeps its entry, only whether it was interrupted is
/// stored, and what it left behind is what its entry says.
pub open spec fn keeps_entry(
    all: Trace,
    at: int,
    session_id: Seq<char>,
    run_id: Seq<char>,
    interrupted: bool,
    left: RunCloseoutMetadata,
) -> bool {
    &&& all.len() == at + 2
    &&& all[at] matches Step::Asked { reply: Reply::Row(Some(row)), .. }
    &&& is_text(row[5], left.commit_sha)
    &&& is_count(row[6], left.files_changed)
    &&& is_count(row[7], left.insertions)
    &&& is_count(row[8], left.deletions)
    &&& runs_on(
        all[at + 1],
        "UPDATE run_commits SET interrupted = ?3 WHERE session_id = ?1 AND run_id = ?2"@,
        session_id,
        run_id,
        seq![
            Datum::Integer(
                if interrupted {
                    1
                } else {
                    0
                },
            ),
        ],
    )
}

/// Whether a run without a commit was closed: where it saved no files its entry is taken out and it left
/// nothing; where it saved some its entry becomes active with their number, and whether it was
/// interrupted, and it left that number of files with no lines counted.
pub open spec fn decides_by_files(
    all: Trace,
    at: int,
    session_id: Seq<char>,
    run_id: Seq<char>,
    interrupted: bool,
    left: RunCloseoutMetadata,
) -> bool {
    &&& all[at + 1] matches Step::Asked { reply: Reply::Row(Some(row)), .. }
    &&& row[0] matches Datum::Integer(n)
    &&& asks_of(
        all[at + 1],
        "SELECT COUNT(*) FROM checkpoint_entries WHERE session_id = ?1 AND run_id = ?2"@,
        session_id,
        run_id,
        Some(row),
    )
    &&& left.commit_sha is None
    &&& if n == 0 {
        &&& all.len() == at + 3
        &&& left.files_changed is None && left.insertions is None && left.deletions is None
        &&& runs_on(
            all[at + 2],
            "DELETE FROM run_commits WHERE session_id = ?1 AND run_id = ?2 AND state = 'running'"@,
            session_id,
            run_id,
            Seq::empty(),
        )
    } else {
        &&& n > 0 ==> left.files_changed == Some(n as u64)
        &&& left.insertions == Some(0u64) && left.deletions == Some(0u64)
        &&& runs_on(
            all[at + 2],
            "UPDATE run_commits SET state = 'active', files_changed = ?3, insertions = 0, deletions = 0, interrupted = ?4 WHERE session_id = ?1 AND run_id = ?2 AND state = 'running'"@,
            session_id,
            run_id,
            seq![
                Datum::Integer(n),
                Datum::Integer(
                    if interrupted {
                        1
                    } else {
                        0
                    },
                ),
            ],
        )
    }
}

/// To close a run keeps the entry of one that has a commit, takes out that of one that saved no files,
/// and makes that of one that saved some an active one, with what the database says of it.
pub proof fn law_closing_a_run_keeps_what_it_did(
    pre: Trace,
    post: Trace,
    session_id: Seq<char>,
    run_id: Seq<char>,
    interrupted: bool,
    left: RunCloseoutMetadata,
) -> (recorded: Option<Seq<Datum>>)
    requires
        runs::run_closed(
            pre,
            post,
            session_id,
            run_id,
            interrupted,
            Ok::<RunCloseoutMetadata, DbError>(left),
        ),
    ensures
        trace::extends(pre, post),
        asks_of(
            post[pre.len() as int],
            "SELECT session_id, run_id, engine, pre_head, post_head, commit_sha, files_changed, insertions, deletions, interrupted, state FROM run_commits WHERE session_id = ?1 AND run_id = ?2 AND post_head IS NOT NULL"@,
            session_id,
            run_id,
            recorded,
        ),
        if recorded is Some {
            keeps_entry(post, pre.len() as int, session_id, run_id, interrupted, left)
        } else {
            decides_by_files(post, pre.len() as int, session_id, run_id, interrupted, left)
        },
{
    let r = Ok::<RunCloseoutMetadata, DbError>(left);
    let p = pre.len() as int;
    let (mid, got) = choose|mid: Trace, got: Result<Option<RunCommitRow>, DbError>|
        {
            &&& #[trigger] runs::recorded_read(pre, mid, session_id, run_id, got)
            &&& match got {
                Ok(Some(row)) => exists|done: Result<(), DbError>|
                    #[trigger] runs::interrupted_stored(
                        mid,
                        post,
                        session_id,
                        run_id,
                        interrupted,
                        done,
                    ) && r == runs::closed(done, runs::closeout_of(row)),
                Ok(None) => runs::uncommitted_closed(
                    mid,
                    post,
                    session_id,
                    run_id,
                    interrupted,
                    r,
                ),
                Err(e) => post == mid && r == Err::<RunCloseoutMetadata, DbError>(e),
            }
        };
    let two = seq![Datum::Text(session_id), Datum::Text(run_id)];
    match got->Ok_0 {
        Some(row) => {
            let done = choose|done: Result<(), DbError>|
                #[trigger] runs::interrupted_stored(
                    mid,
                    post,
                    session_id,
                    run_id,
                    interrupted,
                    done,
                ) && r == runs::closed(done, runs::closeout_of(row));
            assert(post.take(p) =~= pre);
            assert(two + seq![rows::flag(interrupted)] =~= seq![
                Datum::Text(session_id),
                Datum::Text(run_id),
                rows::flag(interrupted),
            ]);
            assert(post[p] == mid[p]);
            Some(post[p]->reply->Row_0->Some_0)
        },
        None => {
            let (seen, count) = choose|seen: Trace, count: Result<i64, DbError>|
                {
                    &&& #[trigger] runs::checkpoints_counted(mid, seen, session_id, run_id, count)
                    &&& match count {
                        Ok(0) => exists|done: Result<(), DbError>|
                            #[trigger] runs::pending_deleted(
                                seen,
                                post,
                                session_id,
                                run_id,
                                done,
                            ) && r == runs::closed(done, runs::empty_closeout()),
                        Ok(n) => exists|done: Result<(), DbError>|
                            #[trigger] runs::activated(
                                seen,
                                post,
                                session_id,
                                run_id,
                                n,
                                interrupted,
                                done,
                            ) && r == runs::closed(done, runs::saved_closeout(n)),
                        Err(e) => post == seen && r == Err::<RunCloseoutMetadata, DbError>(e),
                    }
                };
            let n = count->Ok_0;
            assert(seen[p] == mid[p]);
            assert(seen.take(p) =~= pre);
            if n == 0 {
                let done = choose|done: Result<(), DbError>|
                    #[trigger] runs::pending_deleted(seen, post, session_id, run_id, done) && r
                        == runs::closed(done, runs::empty_closeout());
                assert(two + Seq::<Datum>::empty() =~= two);
                assert(post.take(p) =~= pre);
            } else {
                let done = choose|done: Result<(), DbError>|
                    #[trigger] runs::activated(
                        seen,
                        post,
                        session_id,
                        run_id,
                        n,
                        interrupted,
                        done,
                    ) && r == runs::closed(done, runs::saved_closeout(n));
                assert(two + seq![Datum::Integer(n), rows::flag(interrupted)] =~= seq![
                    Datum::Text(session_id),
                    Datum::Text(run_id),
                    Datum::Integer(n),
                    rows::flag(interrupted),
                ]);
                assert(post[p + 2] == post.last());
                assert(post.take(p) =~= pre);
            }
            None
        },
    }
}

/// A shift of time by minutes is written as SQLite reads it: a sign, also where the clock is ahead, the
/// number of minutes in decimal, and their unit.
pub proof fn law_shift_is_written_with_its_sign(minutes: i64) -> (digits: Seq<char>)
    ensures
        runs::minutes_shift(minutes) == (if minutes >= 0 {
            seq!['+']
        } else {
            seq!['-']
        }) + digits + " minutes"@,
        digits.len() > 0,
        text::digits_value(digits) == Some(
            (if minutes >= 0 {
                minutes as int
            } else {
                -minutes
            }) as nat,
        ),
{
    reveal_strlit("+");
    reveal_strlit("");
    assert("+"@ =~= seq!['+']);
    let n = (if minutes >= 0 {
        minutes as int
    } else {
        -minutes
    }) as nat;
    let digits = text::decimal(n);
    text::law_decimal_is_read_back(n);
    if minutes < 0 {
        assert(""@ + text::signed_decimal(minutes as int) =~= seq!['-'] + digits);
    }
    digits
}

/// A number of things is stored as it is, and to have none is stored as no value; only a number that
/// is beyond the greatest integer of the database cannot be stored.
pub proof fn law_numbers_are_stored_as_they_are(n: Option<u64>)
    ensures
        runs::storable(n) <==> (n is None || n->Some_0 <= 9_223_372_036_854_775_807),
        runs::storable(n) ==> (match n {
            Some(k) => runs::stored_number(n) matches Datum::Integer(i) && i == k,
            None => runs::stored_number(n) == Datum::Null,
        }),
{
}

/// The runs of teams that were running when the application stopped are those that the database shows as
/// running; all that are running are then marked as interrupted.
pub proof fn law_running_team_runs_are_interrupted(
    pre: Trace,
    post: Trace,
    v: Vec<TeamRunPendingRow>,
)
    requires
        runs::team_runs_recovered(pre, post, Ok::<Vec<TeamRunPendingRow>, DbError>(v)),
    ensures
        post.len() == pre.len() + 2,
        post[pre.len() as int] matches Step::Asked {
            request: Request::All { sql, .. },
            reply: Reply::Rows(found),
        } && {
            &&& sql
                == "SELECT session_id, run_id, goal, lead_participant_id, assignments_json FROM team_run_pending WHERE state = 'running' ORDER BY id"@
            &&& found.len() == v@.len()
            &&& forall|i: int|
                0 <= i < v@.len() ==> (found[i] matches Ok(row) && (#[trigger] v@[i]).is_row(row))
        },
        post.last() matches Step::Asked {
            request: Request::Execute { sql, params },
            reply: Reply::Changed(_),
        } && {
            &&& sql
                == "UPDATE team_run_pending SET state = 'interrupted' WHERE state = 'running'"@
            &&& params.len() == 0
        },
{
    let r = Ok::<Vec<TeamRunPendingRow>, DbError>(v);
    let (mid, got) = choose|mid: Trace, got: Result<Vec<TeamRunPendingRow>, DbError>|
        {
            &&& #[trigger] runs::running_team_runs_read(pre, mid, got)
            &&& match got {
                Ok(rows) => exists|done: Result<(), DbError>|
                    #[trigger] runs::team_runs_interrupted(mid, post, done) && r == match done {
                        Ok(()) => got,
                        Err(e) => Err(e),
                    },
                Err(e) => post == mid && r == got,
            }
        };
    assert(mid[pre.len() as int] == mid.last());
    assert(post[pre.len() as int] == mid[pre.len() as int]);
    let found = mid.last()->reply->Rows_0;
    assert forall|i: int| 0 <= i < v@.len() implies (found[i] matches Ok(row) && (
    #[trigger] v@[i]).is_row(row)) by {
        assert(found[i] is Ok);
    }
}

} // verus!
