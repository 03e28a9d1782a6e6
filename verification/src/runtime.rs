//! Which sessions are running, and what.
use vstd::prelude::*;

use crate::engine::{Cell, Datum, Db, DbError, Trace};
use crate::events::{self, opt_clone, opt_owned, Milestone, Notice};
use crate::rows::{
    self,
    find,
    int_at,
    list,
    opt_text_at,
    p_opt_text,
    p_text,
    params0,
    params1,
    params2,
    params3,
    reads_in_order,
    run,
    text_at,
    FromRow,
    Kind,
    Read,
};
use crate::text::same;

verus! {

pub const SESSION_RUNTIME_RUNNING: &'static str = "running";

pub const SESSION_RUNTIME_IDLE: &'static str = "idle";

pub const SQL_READ_RUNTIME: &'static str = "SELECT status, run_id FROM session_runtime WHERE session_id = ?1";

/// The status and the run of a session were read.
pub open spec fn runtime_read(
    pre: Trace,
    post: Trace,
    session_id: Seq<char>,
    r: Result<Option<(String, Option<String>)>, DbError>,
) -> bool {
    rows::found(pre, post, SQL_READ_RUNTIME@, seq![Datum::Text(session_id)], r)
}

fn read_runtime(
    db: &mut Db,
    session_id: &str,
) -> (r: Result<Option<(String, Option<String>)>, DbError>)
    ensures
        runtime_read(old(db)@, final(db)@, session_id@, r),
{
    find(db, SQL_READ_RUNTIME, params1(p_text(session_id)))
}

pub const SQL_STORE_RUNTIME: &'static str = "INSERT INTO session_runtime (session_id, status, run_id, updated_at) \
         VALUES (?1, ?2, ?3, strftime('%s','now')) \
         ON CONFLICT(session_id) DO UPDATE SET \
            status = excluded.status, \
            run_id = excluded.run_id, \
            updated_at = excluded.updated_at";

/// The status and the run of a session were stored.
pub open spec fn runtime_stored(
    pre: Trace,
    post: Trace,
    session_id: Seq<char>,
    status: Seq<char>,
    run_id: Option<Seq<char>>,
    r: Result<(), DbError>,
) -> bool {
    rows::executed(
        pre,
        post,
        SQL_STORE_RUNTIME@,
        seq![Datum::Text(session_id), Datum::Text(status), rows::opt_text(run_id)],
        r,
    )
}

fn store_runtime(
    db: &mut Db,
    session_id: &str,
    status: &str,
    run_id: Option<&str>,
) -> (r: Result<(), DbError>)
    ensures
        runtime_stored(old(db)@, final(db)@, session_id@, status@, events::opt_str(run_id), r),
{
    run(db, SQL_STORE_RUNTIME, params3(p_text(session_id), p_text(status), p_opt_text(run_id)))
}

pub const SQL_STORE_STATUS: &'static str = "INSERT INTO session_runtime (session_id, status, run_id, updated_at) \
         VALUES (?1, ?2, NULL, strftime('%s','now')) \
         ON CONFLICT(session_id) DO UPDATE SET \
            status = excluded.status, \
            updated_at = excluded.updated_at";

/// The status of a session was stored; its run stays.
pub open spec fn status_stored(
    pre: Trace,
    post: Trace,
    session_id: Seq<char>,
    status: Seq<char>,
    r: Result<(), DbError>,
) -> bool {
    rows::executed(
        pre,
        post,
        SQL_STORE_STATUS@,
        seq![Datum::Text(session_id), Datum::Text(status)],
        r,
    )
}

fn store_status(db: &mut Db, session_id: &str, status: &str) -> (r: Result<(), DbError>)
    ensures
        status_stored(old(db)@, final(db)@, session_id@, status@, r),
{
    run(db, SQL_STORE_STATUS, params2(p_text(session_id), p_text(status)))
}

/// Whether a session that is in the state `current` changes by being given a status and a run.
pub open spec fn runtime_differs(
    current: Option<(String, Option<String>)>,
    status: Seq<char>,
    run_id: Option<Seq<char>>,
) -> bool {
    match current {
        Some((s, run)) => s@ != status || events::opt(run) != run_id,
        None => true,
    }
}

/// Whether a session that is in the state `current` changes by being given a status.
pub open spec fn status_differs(
    current: Option<(String, Option<String>)>,
    status: Seq<char>,
) -> bool {
    match current {
        Some((s, _)) => s@ != status,
        None => true,
    }
}

/// The run of a session that is in the state `current`.
pub open spec fn current_run(current: Option<(String, Option<String>)>) -> Option<Seq<char>> {
    match current {
        Some((_, run)) => events::opt(run),
        None => None,
    }
}

/// The status and the run of a session were set; that they changed was announced after they were
/// stored.
pub open spec fn runtime_set(
    pre: Trace,
    post: Trace,
    session_id: Seq<char>,
    status: Seq<char>,
    run_id: Option<Seq<char>>,
    r: Result<bool, DbError>,
) -> bool {
    exists|mid: Trace, current: Result<Option<(String, Option<String>)>, DbError>|
        {
            &&& #[trigger] runtime_read(pre, mid, session_id, current)
            &&& match current {
                Ok(was) => exists|stored: Trace, done: Result<(), DbError>|
                    {
                        &&& #[trigger] runtime_stored(
                            mid,
                            stored,
                            session_id,
                            status,
                            run_id,
                            done,
                        )
                        &&& match done {
                            Ok(()) => {
                                &&& rows::announced(
                                    stored,
                                    post,
                                    runtime_differs(was, status, run_id),
                                    Notice::RunStatus { session_id, status, run_id },
                                )
                                &&& r == Ok::<bool, DbError>(
                                    runtime_differs(was, status, run_id),
                                )
                            },
                            Err(e) => post == stored && r == Err::<bool, DbError>(e),
                        }
                    },
                Err(e) => post == mid && r == Err::<bool, DbError>(e),
            }
        }
}

/// Sets the status and the run of a session, and announces a change; whether they changed.
pub fn set_session_runtime(db: &mut Db, session_id: &str, status: &str, run_id: Option<&str>) -> (r:
    Result<bool, DbError>)
    ensures
        runtime_set(old(db)@, final(db)@, session_id@, status@, events::opt_str(run_id), r),
{
    let current = read_runtime(db, session_id);
    let ghost mid = db@;
    assert(runtime_read(old(db)@, mid, session_id@, current));
    let changed = match &current {
        Ok(Some((s, run))) => !same(s.as_str(), status) || !same_option(run, run_id),
        Ok(None) => true,
        Err(_) => false,
    };
    match current {
        Ok(_) => {},
        Err(e) => return Err(e),
    }
    assert(changed == runtime_differs(current->Ok_0, status@, events::opt_str(run_id)));
    let done = store_runtime(db, session_id, status, run_id);
    let ghost stored = db@;
    assert(runtime_stored(mid, stored, session_id@, status@, events::opt_str(run_id), done));
    match done {
        Ok(()) => {},
        Err(e) => return Err(e),
    }
    if changed {
        db.publish(
            Milestone::RunStatus {
                session_id: session_id.to_string(),
                status: status.to_string(),
                run_id: opt_owned(run_id),
            },
        );
    }
    Ok(changed)
}

fn same_option(a: &Option<String>, b: Option<&str>) -> (r: bool)
    ensures
        r == (events::opt(*a) == events::opt_str(b)),
{
    match (a, b) {
        (Some(x), Some(y)) => same(x.as_str(), y),
        (None, None) => true,
        _ => false,
    }
}

/// The status of a session was set and its run kept; that the status changed was announced after
/// it was stored.
pub open spec fn runtime_status_set(
    pre: Trace,
    post: Trace,
    session_id: Seq<char>,
    status: Seq<char>,
    r: Result<bool, DbError>,
) -> bool {
    exists|mid: Trace, current: Result<Option<(String, Option<String>)>, DbError>|
        {
            &&& #[trigger] runtime_read(pre, mid, session_id, current)
            &&& match current {
                Ok(was) => exists|stored: Trace, done: Result<(), DbError>|
                    {
                        &&& #[trigger] status_stored(mid, stored, session_id, status, done)
                        &&& match done {
                            Ok(()) => {
                                &&& rows::announced(
                                    stored,
                                    post,
                                    status_differs(was, status),
                                    Notice::RunStatus {
                                        session_id,
                                        status,
                                        run_id: current_run(was),
                                    },
                                )
                                &&& r == Ok::<bool, DbError>(status_differs(was, status))
                            },
                            Err(e) => post == stored && r == Err::<bool, DbError>(e),
                        }
                    },
                Err(e) => post == mid && r == Err::<bool, DbError>(e),
            }
        }
}

/// Sets the status of a session, keeps its run, and announces a change; whether it changed.
pub fn upsert_session_runtime_status(db: &mut Db, session_id: &str, status: &str) -> (r: Result<
    bool,
    DbError,
>)
    ensures
        runtime_status_set(old(db)@, final(db)@, session_id@, status@, r),
{
    let current = read_runtime(db, session_id);
    let ghost mid = db@;
    assert(runtime_read(old(db)@, mid, session_id@, current));
    let (changed, run_id) = match &current {
        Ok(Some((s, run))) => (!same(s.as_str(), status), opt_clone(run)),
        Ok(None) => (true, None),
        Err(_) => (false, None),
    };
    match current {
        Ok(_) => {},
        Err(e) => return Err(e),
    }
    assert(changed == status_differs(current->Ok_0, status@));
    assert(events::opt(run_id) == current_run(current->Ok_0));
    let done = store_status(db, session_id, status);
    let ghost stored = db@;
    assert(status_stored(mid, stored, session_id@, status@, done));
    match done {
        Ok(()) => {},
        Err(e) => return Err(e),
    }
    if changed {
        db.publish(
            Milestone::RunStatus {
                session_id: session_id.to_string(),
                status: status.to_string(),
                run_id,
            },
        );
    }
    Ok(changed)
}

/// A change of a session's state is announced exactly where the result says that there was one,
/// and a failure is never announced.
pub proof fn law_runtime_news(
    pre: Trace,
    post: Trace,
    session_id: Seq<char>,
    status: Seq<char>,
    run_id: Option<Seq<char>>,
    r: Result<bool, DbError>,
)
    requires
        runtime_set(pre, post, session_id, status, run_id, r) || runtime_status_set(
            pre,
            post,
            session_id,
            status,
            r,
        ),
    ensures
        r == Ok::<bool, DbError>(true) <==> post.last() is Published,
{
}

/// The state that a session is in.
#[derive(Debug, Clone, PartialEq, Eq)]
pub struct SessionRuntime {
    pub session_id: String,
    pub status: String,
    pub run_id: Option<String>,
    pub updated_at: i64,
}

impl FromRow for SessionRuntime {
    open spec fn reads() -> Seq<Read> {
        rows::in_order(seq![Kind::Text, Kind::Text, Kind::OptText, Kind::Int])
    }

    open spec fn is_row(self, row: Seq<Datum>) -> bool {
        &&& row[0] == Datum::Text(self.session_id@)
        &&& row[1] == Datum::Text(self.status@)
        &&& row[2] == rows::opt_text(events::opt(self.run_id))
        &&& row[3] == Datum::Integer(self.updated_at)
    }

    fn layout() -> (reads: Vec<Read>) {
        let kinds = vec![Kind::Text, Kind::Text, Kind::OptText, Kind::Int];
        assert(rows::in_order(kinds@) =~= Self::reads());
        reads_in_order(kinds)
    }

    fn from_row(row: &Vec<Cell>) -> (v: Self) {
        proof {
            rows::lemma_cells(row@, Self::reads());
        }
        SessionRuntime {
            session_id: text_at(row, 0),
            status: text_at(row, 1),
            run_id: opt_text_at(row, 2),
            updated_at: int_at(row, 3),
        }
    }
}

pub const SQL_GET_SESSION_RUNTIME: &'static str = "SELECT session_id, status, run_id, updated_at FROM session_runtime WHERE session_id = ?1";

/// The state that a session is in, if one was ever stored.
pub fn get_session_runtime(
    db: &mut Db,
    session_id: &str,
) -> (r: Result<Option<SessionRuntime>, DbError>)
    ensures
        rows::found(
            old(db)@,
            final(db)@,
            SQL_GET_SESSION_RUNTIME@,
            seq![Datum::Text(session_id@)],
            r,
        ),
{
    find(db, SQL_GET_SESSION_RUNTIME, params1(p_text(session_id)))
}

pub const SQL_LIST_RUNNING_SESSIONS: &'static str = "SELECT session_id FROM session_runtime WHERE status = 'running'";

/// The sessions that are running.
pub fn list_running_sessions(db: &mut Db) -> (r: Result<Vec<String>, DbError>)
    ensures
        rows::listed(old(db)@, final(db)@, SQL_LIST_RUNNING_SESSIONS@, Seq::<Datum>::empty(), r),
{
    list(db, SQL_LIST_RUNNING_SESSIONS, params0())
}

pub const SQL_RECONCILE_SESSION_RUNTIME_ON_STARTUP: &'static str = "UPDATE session_runtime SET status = 'idle', run_id = NULL, updated_at = strftime('%s','now') \
         WHERE status != 'idle'";

/// Marks all sessions as idle, for nothing runs when the application starts.
pub fn reconcile_session_runtime_on_startup(db: &mut Db) -> (r: Result<(), DbError>)
    ensures
        rows::executed(
            old(db)@,
            final(db)@,
            SQL_RECONCILE_SESSION_RUNTIME_ON_STARTUP@,
            Seq::<Datum>::empty(),
            r,
        ),
{
    run(db, SQL_RECONCILE_SESSION_RUNTIME_ON_STARTUP, params0())
}

} // verus!
