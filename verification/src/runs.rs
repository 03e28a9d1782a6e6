//! The ledger of runs: solo runs, runs of teams, and the files that runs saved before they changed
//! them.
use vstd::prelude::*;

use crate::engine::{Cell, Datum, Db, DbError, Param, Trace};
use crate::events;
use crate::rows::{
    self,
    fetch,
    find,
    int_at,
    list,
    opt_size_at,
    opt_text_at,
    p_flag,
    p_int,
    p_opt_int,
    p_text,
    params0,
    params1,
    params2,
    params3,
    params4,
    params5,
    params6,
    reads_in_order,
    run,
    run_changed_one,
    text_at,
    FromRow,
    Kind,
    Read,
};
use crate::text::{self, join3, signed_decimal_text};

verus! {

/// A run, as the ledger has it.
#[derive(Debug, Clone, PartialEq)]
pub struct RunCommitRow {
    pub session_id: String,
    pub run_id: String,
    pub engine: String,
    pub pre_head: String,
    pub post_head: Option<String>,
    pub commit_sha: Option<String>,
    pub files_changed: Option<u64>,
    pub insertions: Option<u64>,
    pub deletions: Option<u64>,
    pub interrupted: bool,
    /// `running`, `active`, `failed`, `undone`, `kept` or `discarded`.
    pub state: String,
}

impl FromRow for RunCommitRow {
    open spec fn reads() -> Seq<Read> {
        rows::in_order(seq![
            Kind::Text,
            Kind::Text,
            Kind::Text,
            Kind::Text,
            Kind::OptText,
            Kind::OptText,
            Kind::OptInt,
            Kind::OptInt,
            Kind::OptInt,
            Kind::Int,
            Kind::Text,
        ])
    }

    open spec fn is_row(self, row: Seq<Datum>) -> bool {
        &&& row[0] == Datum::Text(self.session_id@)
        &&& row[1] == Datum::Text(self.run_id@)
        &&& row[2] == Datum::Text(self.engine@)
        &&& row[3] == Datum::Text(self.pre_head@)
        &&& row[4] == rows::opt_text(events::opt(self.post_head))
        &&& row[5] == rows::opt_text(events::opt(self.commit_sha))
        &&& rows::reads_as_size(row[6], self.files_changed)
        &&& rows::reads_as_size(row[7], self.insertions)
        &&& rows::reads_as_size(row[8], self.deletions)
        &&& rows::reads_as_flag(row[9], self.interrupted)
        &&& row[10] == Datum::Text(self.state@)
    }

    fn layout() -> (reads: Vec<Read>) {
        let kinds = vec![
            Kind::Text,
            Kind::Text,
            Kind::Text,
            Kind::Text,
            Kind::OptText,
            Kind::OptText,
            Kind::OptInt,
            Kind::OptInt,
            Kind::OptInt,
            Kind::Int,
            Kind::Text,
        ];
        assert(rows::in_order(kinds@) =~= Self::reads());
        reads_in_order(kinds)
    }

    fn from_row(row: &Vec<Cell>) -> (v: Self) {
        proof {
            rows::lemma_cells(row@, Self::reads());
        }
        RunCommitRow {
            session_id: text_at(row, 0),
            run_id: text_at(row, 1),
            engine: text_at(row, 2),
            pre_head: text_at(row, 3),
            post_head: opt_text_at(row, 4),
            commit_sha: opt_text_at(row, 5),
            files_changed: opt_size_at(row, 6),
            insertions: opt_size_at(row, 7),
            deletions: opt_size_at(row, 8),
            interrupted: int_at(row, 9) != 0,
            state: text_at(row, 10),
        }
    }
}

/// What a run left behind.
#[derive(Debug, Clone, Default, PartialEq, Eq)]
pub struct RunCloseoutMetadata {
    pub commit_sha: Option<String>,
    pub files_changed: Option<u64>,
    pub insertions: Option<u64>,
    pub deletions: Option<u64>,
}

pub const SQL_INSERT_RUN_PENDING: &'static str = "INSERT INTO run_commits (session_id, run_id, engine, pre_head, state, created_at) \
         VALUES (?1, ?2, ?3, ?4, 'running', strftime('%s','now'))";

/// Enters a run that starts.
pub fn insert_run_pending(
    db: &mut Db,
    session_id: &str,
    run_id: &str,
    engine: &str,
    pre_head: &str,
) -> (r: Result<(), DbError>)
    ensures
        rows::executed(
            old(db)@,
            final(db)@,
            SQL_INSERT_RUN_PENDING@,
            seq![
                Datum::Text(session_id@),
                Datum::Text(run_id@),
                Datum::Text(engine@),
                Datum::Text(pre_head@),
            ],
            r,
        ),
{
    run(
        db,
        SQL_INSERT_RUN_PENDING,
        params4(p_text(session_id), p_text(run_id), p_text(engine), p_text(pre_head)),
    )
}

pub const SQL_RECORD_RUN_COMMIT: &'static str = "UPDATE run_commits \
         SET post_head = ?3, commit_sha = ?3, files_changed = ?4, insertions = ?5, \
             deletions = ?6, state = 'active' \
         WHERE session_id = ?1 AND run_id = ?2";

/// Whether an optional number can be stored.
pub open spec fn storable(n: Option<u64>) -> bool {
    n matches Some(k) ==> k <= i64::MAX
}

/// An optional number as it is stored.
pub open spec fn stored_number(n: Option<u64>) -> Datum {
    match n {
        Some(k) => Datum::Integer(k as i64),
        None => Datum::Null,
    }
}

fn store_number(n: Option<u64>) -> (r: Option<Param>)
    ensures
        match r {
            Some(p) => storable(n) && p@ == stored_number(n),
            None => !storable(n),
        },
{
    match n {
        Some(k) => if k <= i64::MAX as u64 {
            Some(p_int(k as i64))
        } else {
            None
        },
        None => Some(p_opt_int(None)),
    }
}

/// Records what a run was committed as; to have no such run is an error. A number that is too
/// large to be stored is refused, and nothing is stored.
pub fn record_run_commit(
    db: &mut Db,
    session_id: &str,
    run_id: &str,
    post_head: &str,
    files_changed: Option<u64>,
    insertions: Option<u64>,
    deletions: Option<u64>,
) -> (r: Result<(), DbError>)
    ensures
        if storable(files_changed) && storable(insertions) && storable(deletions) {
            rows::changed_one(
                old(db)@,
                final(db)@,
                SQL_RECORD_RUN_COMMIT@,
                seq![
                    Datum::Text(session_id@),
                    Datum::Text(run_id@),
                    Datum::Text(post_head@),
                    stored_number(files_changed),
                    stored_number(insertions),
                    stored_number(deletions),
                ],
                r,
            )
        } else {
            final(db)@ == old(db)@ && r == Err::<(), DbError>(DbError::TooLarge)
        },
{
    match (store_number(files_changed), store_number(insertions), store_number(deletions)) {
        (Some(files), Some(ins), Some(del)) => run_changed_one(
            db,
            SQL_RECORD_RUN_COMMIT,
            params6(p_text(session_id), p_text(run_id), p_text(post_head), files, ins, del),
        ),
        _ => Err(DbError::TooLarge),
    }
}

pub const SQL_RUN_COMMIT: &'static str = "SELECT session_id, run_id, engine, pre_head, post_head, commit_sha, files_changed, insertions, deletions, interrupted, state FROM run_commits WHERE session_id = ?1 AND run_id = ?2";

/// A run, if there is one.
pub fn run_commit(
    db: &mut Db,
    session_id: &str,
    run_id: &str,
) -> (r: Result<Option<RunCommitRow>, DbError>)
    ensures
        rows::found(
            old(db)@,
            final(db)@,
            SQL_RUN_COMMIT@,
            seq![Datum::Text(session_id@), Datum::Text(run_id@)],
            r,
        ),
{
    find(db, SQL_RUN_COMMIT, params2(p_text(session_id), p_text(run_id)))
}

pub const SQL_SET_RUN_COMMIT_STATE: &'static str = "UPDATE run_commits SET state = ?3 WHERE session_id = ?1 AND run_id = ?2";

/// Sets the state of a run; to have no such run is an error.
pub fn set_run_commit_state(
    db: &mut Db,
    session_id: &str,
    run_id: &str,
    state: &str,
) -> (r: Result<(), DbError>)
    ensures
        rows::changed_one(
            old(db)@,
            final(db)@,
            SQL_SET_RUN_COMMIT_STATE@,
            seq![Datum::Text(session_id@), Datum::Text(run_id@), Datum::Text(state@)],
            r,
        ),
{
    run_changed_one(
        db,
        SQL_SET_RUN_COMMIT_STATE,
        params3(p_text(session_id), p_text(run_id), p_text(state)),
    )
}

/// A commit that is about to be made for a run.
#[derive(Debug, Clone, PartialEq, Eq)]
pub struct RunCommitIntent {
    pub session_id: String,
    pub run_id: String,
    pub expected_head: String,
    pub previous_state: String,
}

impl FromRow for RunCommitIntent {
    open spec fn reads() -> Seq<Read> {
        rows::in_order(seq![Kind::Text, Kind::Text, Kind::Text, Kind::Text])
    }

    open spec fn is_row(self, row: Seq<Datum>) -> bool {
        &&& row[0] == Datum::Text(self.session_id@)
        &&& row[1] == Datum::Text(self.run_id@)
        &&& row[2] == Datum::Text(self.expected_head@)
        &&& row[3] == Datum::Text(self.previous_state@)
    }

    fn layout() -> (reads: Vec<Read>) {
        let kinds = vec![Kind::Text, Kind::Text, Kind::Text, Kind::Text];
        assert(rows::in_order(kinds@) =~= Self::reads());
        reads_in_order(kinds)
    }

    fn from_row(row: &Vec<Cell>) -> (v: Self) {
        proof {
            rows::lemma_cells(row@, Self::reads());
        }
        RunCommitIntent {
            session_id: text_at(row, 0),
            run_id: text_at(row, 1),
            expected_head: text_at(row, 2),
            previous_state: text_at(row, 3),
        }
    }
}

pub const SQL_BEGIN_RUN_COMMIT_INTENT: &'static str = "INSERT INTO run_commit_intents \
         (session_id, run_id, expected_head, previous_state, created_at) \
         VALUES (?1, ?2, ?3, ?4, strftime('%s','now')) \
         ON CONFLICT(session_id, run_id) DO UPDATE SET \
           expected_head=excluded.expected_head, previous_state=excluded.previous_state, \
           created_at=excluded.created_at";

/// Enters that a commit is about to be made for a run, over an earlier entry.
pub fn begin_run_commit_intent(
    db: &mut Db,
    session_id: &str,
    run_id: &str,
    expected_head: &str,
    previous_state: &str,
) -> (r: Result<(), DbError>)
    ensures
        rows::executed(
            old(db)@,
            final(db)@,
            SQL_BEGIN_RUN_COMMIT_INTENT@,
            seq![
                Datum::Text(session_id@),
                Datum::Text(run_id@),
                Datum::Text(expected_head@),
                Datum::Text(previous_state@),
            ],
            r,
        ),
{
    run(
        db,
        SQL_BEGIN_RUN_COMMIT_INTENT,
        params4(p_text(session_id), p_text(run_id), p_text(expected_head), p_text(previous_state)),
    )
}

pub const SQL_DELETE_RUN_COMMIT_INTENT: &'static str = "DELETE FROM run_commit_intents WHERE session_id = ?1 AND run_id = ?2";

/// Takes back that a commit is about to be made for a run.
pub fn delete_run_commit_intent(
    db: &mut Db,
    session_id: &str,
    run_id: &str,
) -> (r: Result<(), DbError>)
    ensures
        rows::executed(
            old(db)@,
            final(db)@,
            SQL_DELETE_RUN_COMMIT_INTENT@,
            seq![Datum::Text(session_id@), Datum::Text(run_id@)],
            r,
        ),
{
    run(db, SQL_DELETE_RUN_COMMIT_INTENT, params2(p_text(session_id), p_text(run_id)))
}

pub const SQL_HAS_RUN_COMMIT_INTENT: &'static str = "SELECT EXISTS(SELECT 1 FROM run_commit_intents WHERE session_id = ?1 AND run_id = ?2)";

/// Whether a commit is about to be made for a run.
pub fn has_run_commit_intent(
    db: &mut Db,
    session_id: &str,
    run_id: &str,
) -> (r: Result<bool, DbError>)
    ensures
        rows::fetched(
            old(db)@,
            final(db)@,
            SQL_HAS_RUN_COMMIT_INTENT@,
            seq![Datum::Text(session_id@), Datum::Text(run_id@)],
            r,
        ),
{
    fetch(db, SQL_HAS_RUN_COMMIT_INTENT, params2(p_text(session_id), p_text(run_id)))
}

pub const SQL_LIST_RUN_COMMIT_INTENTS: &'static str = "SELECT session_id, run_id, expected_head, previous_state \
         FROM run_commit_intents ORDER BY created_at, session_id, run_id";

/// The commits that are about to be made, oldest first.
pub fn list_run_commit_intents(db: &mut Db) -> (r: Result<Vec<RunCommitIntent>, DbError>)
    ensures
        rows::listed(old(db)@, final(db)@, SQL_LIST_RUN_COMMIT_INTENTS@, Seq::<Datum>::empty(), r),
{
    list(db, SQL_LIST_RUN_COMMIT_INTENTS, params0())
}

/// A run of a team that was started.
#[derive(Debug, Clone, PartialEq)]
pub struct TeamRunPendingRow {
    pub session_id: String,
    pub run_id: String,
    pub goal: Option<String>,
    pub lead_participant_id: Option<String>,
    pub assignments_json: String,
}

impl FromRow for TeamRunPendingRow {
    open spec fn reads() -> Seq<Read> {
        rows::in_order(seq![
            Kind::Text,
            Kind::Text,
            Kind::OptText,
            Kind::OptText,
            Kind::Text,
        ])
    }

    open spec fn is_row(self, row: Seq<Datum>) -> bool {
        &&& row[0] == Datum::Text(self.session_id@)
        &&& row[1] == Datum::Text(self.run_id@)
        &&& row[2] == rows::opt_text(events::opt(self.goal))
        &&& row[3] == rows::opt_text(events::opt(self.lead_participant_id))
        &&& row[4] == Datum::Text(self.assignments_json@)
    }

    fn layout() -> (reads: Vec<Read>) {
        let kinds = vec![
            Kind::Text,
            Kind::Text,
            Kind::OptText,
            Kind::OptText,
            Kind::Text,
        ];
        assert(rows::in_order(kinds@) =~= Self::reads());
        reads_in_order(kinds)
    }

    fn from_row(row: &Vec<Cell>) -> (v: Self) {
        proof {
            rows::lemma_cells(row@, Self::reads());
        }
        TeamRunPendingRow {
            session_id: text_at(row, 0),
            run_id: text_at(row, 1),
            goal: opt_text_at(row, 2),
            lead_participant_id: opt_text_at(row, 3),
            assignments_json: text_at(row, 4),
        }
    }
}

pub const SQL_INSERT_TEAM_RUN_PENDING: &'static str = "INSERT INTO team_run_pending \
         (session_id, run_id, goal, lead_participant_id, assignments_json, started_at, state, created_at) \
         VALUES (?1, ?2, ?3, ?4, ?5, strftime('%s','now'), 'running', strftime('%s','now'))";

/// Enters a run of a team that starts.
pub fn insert_team_run_pending(
    db: &mut Db,
    session_id: &str,
    run_id: &str,
    goal: &str,
    lead_participant_id: &str,
    assignments_json: &str,
) -> (r: Result<(), DbError>)
    ensures
        rows::executed(
            old(db)@,
            final(db)@,
            SQL_INSERT_TEAM_RUN_PENDING@,
            seq![
                Datum::Text(session_id@),
                Datum::Text(run_id@),
                Datum::Text(goal@),
                Datum::Text(lead_participant_id@),
                Datum::Text(assignments_json@),
            ],
            r,
        ),
{
    run(
        db,
        SQL_INSERT_TEAM_RUN_PENDING,
        params5(
            p_text(session_id),
            p_text(run_id),
            p_text(goal),
            p_text(lead_participant_id),
            p_text(assignments_json),
        ),
    )
}

pub const SQL_TEAM_RUN_PENDING_ASSIGNMENTS: &'static str = "SELECT assignments_json FROM team_run_pending WHERE session_id = ?1 AND run_id = ?2";

/// The assignments of a team's run, as JSON text, if there is such a run.
pub fn team_run_pending_assignments(
    db: &mut Db,
    session_id: &str,
    run_id: &str,
) -> (r: Result<Option<String>, DbError>)
    ensures
        rows::found(
            old(db)@,
            final(db)@,
            SQL_TEAM_RUN_PENDING_ASSIGNMENTS@,
            seq![Datum::Text(session_id@), Datum::Text(run_id@)],
            r,
        ),
{
    find(db, SQL_TEAM_RUN_PENDING_ASSIGNMENTS, params2(p_text(session_id), p_text(run_id)))
}

pub const SQL_MARK_TEAM_RUN_DONE: &'static str = "UPDATE team_run_pending SET state = 'done' \
         WHERE session_id = ?1 AND run_id = ?2 AND state = 'running'";

/// Marks a team's run as done, if it is running.
pub fn mark_team_run_done(db: &mut Db, session_id: &str, run_id: &str) -> (r: Result<(), DbError>)
    ensures
        rows::executed(
            old(db)@,
            final(db)@,
            SQL_MARK_TEAM_RUN_DONE@,
            seq![Datum::Text(session_id@), Datum::Text(run_id@)],
            r,
        ),
{
    run(db, SQL_MARK_TEAM_RUN_DONE, params2(p_text(session_id), p_text(run_id)))
}

pub const SQL_LIST_RUNNING_TEAM_RUNS: &'static str = "SELECT session_id, run_id, goal, lead_participant_id, assignments_json FROM team_run_pending WHERE state = 'running' ORDER BY id";

/// The running runs of teams were read.
pub open spec fn running_team_runs_read(
    pre: Trace,
    post: Trace,
    r: Result<Vec<TeamRunPendingRow>, DbError>,
) -> bool {
    rows::listed(pre, post, SQL_LIST_RUNNING_TEAM_RUNS@, Seq::<Datum>::empty(), r)
}

fn list_running_team_runs(db: &mut Db) -> (r: Result<Vec<TeamRunPendingRow>, DbError>)
    ensures
        running_team_runs_read(old(db)@, final(db)@, r),
{
    list(db, SQL_LIST_RUNNING_TEAM_RUNS, params0())
}

pub const SQL_INTERRUPT_TEAM_RUNS: &'static str = "UPDATE team_run_pending SET state = 'interrupted' WHERE state = 'running'";

/// The running runs of teams were marked as interrupted.
pub open spec fn team_runs_interrupted(
    pre: Trace,
    post: Trace,
    r: Result<(), DbError>,
) -> bool {
    rows::executed(pre, post, SQL_INTERRUPT_TEAM_RUNS@, Seq::<Datum>::empty(), r)
}

fn interrupt_team_runs(db: &mut Db) -> (r: Result<(), DbError>)
    ensures
        team_runs_interrupted(old(db)@, final(db)@, r),
{
    run(db, SQL_INTERRUPT_TEAM_RUNS, params0())
}

/// The running runs of teams were read, and marked as interrupted.
pub open spec fn team_runs_recovered(
    pre: Trace,
    post: Trace,
    r: Result<Vec<TeamRunPendingRow>, DbError>,
) -> bool {
    exists|mid: Trace, got: Result<Vec<TeamRunPendingRow>, DbError>|
        {
            &&& #[trigger] running_team_runs_read(pre, mid, got)
            &&& match got {
                Ok(rows) => exists|done: Result<(), DbError>|
                    #[trigger] team_runs_interrupted(mid, post, done) && r == match done {
                        Ok(()) => got,
                        Err(e) => Err(e),
                    },
                Err(e) => post == mid && r == got,
            }
        }
}

/// The running runs of teams, which are marked as interrupted: nothing runs when the application
/// starts.
pub fn recover_interrupted_team_runs(db: &mut Db) -> (r: Result<Vec<TeamRunPendingRow>, DbError>)
    ensures
        team_runs_recovered(old(db)@, final(db)@, r),
{
    let got = list_running_team_runs(db);
    let ghost mid = db@;
    assert(running_team_runs_read(old(db)@, mid, got));
    let rows = match got {
        Ok(rows) => rows,
        Err(e) => return Err(e),
    };
    let done = interrupt_team_runs(db);
    assert(team_runs_interrupted(mid, db@, done));
    match done {
        Ok(()) => Ok(rows),
        Err(e) => Err(e),
    }
}

pub const SQL_LIST_INTERRUPTED_TEAM_RUNS: &'static str = "SELECT session_id, run_id, goal, lead_participant_id, assignments_json FROM team_run_pending \
         WHERE session_id = ?1 AND state = 'interrupted' ORDER BY id";

/// The runs of a session's team that were interrupted.
pub fn list_interrupted_team_runs(
    db: &mut Db,
    session_id: &str,
) -> (r: Result<Vec<TeamRunPendingRow>, DbError>)
    ensures
        rows::listed(
            old(db)@,
            final(db)@,
            SQL_LIST_INTERRUPTED_TEAM_RUNS@,
            seq![Datum::Text(session_id@)],
            r,
        ),
{
    list(db, SQL_LIST_INTERRUPTED_TEAM_RUNS, params1(p_text(session_id)))
}

pub const SQL_DELETE_RUN_PENDING: &'static str = "DELETE FROM run_commits WHERE session_id = ?1 AND run_id = ?2 AND state = 'running'";

/// A running run was taken out of the ledger.
pub open spec fn pending_deleted(
    pre: Trace,
    post: Trace,
    session_id: Seq<char>,
    run_id: Seq<char>,
    r: Result<(), DbError>,
) -> bool {
    rows::executed(
        pre,
        post,
        SQL_DELETE_RUN_PENDING@,
        seq![Datum::Text(session_id), Datum::Text(run_id)],
        r,
    )
}

/// Takes a running run out of the ledger, for it did nothing.
pub fn delete_run_pending(db: &mut Db, session_id: &str, run_id: &str) -> (r: Result<(), DbError>)
    ensures
        pending_deleted(old(db)@, final(db)@, session_id@, run_id@, r),
{
    run(db, SQL_DELETE_RUN_PENDING, params2(p_text(session_id), p_text(run_id)))
}

pub const SQL_READ_RECORDED: &'static str = "SELECT session_id, run_id, engine, pre_head, post_head, commit_sha, files_changed, insertions, deletions, interrupted, state FROM run_commits \
             WHERE session_id = ?1 AND run_id = ?2 AND post_head IS NOT NULL";

/// A run that was committed was read.
pub open spec fn recorded_read(
    pre: Trace,
    post: Trace,
    session_id: Seq<char>,
    run_id: Seq<char>,
    r: Result<Option<RunCommitRow>, DbError>,
) -> bool {
    rows::found(
        pre,
        post,
        SQL_READ_RECORDED@,
        seq![Datum::Text(session_id), Datum::Text(run_id)],
        r,
    )
}

fn read_recorded(
    db: &mut Db,
    session_id: &str,
    run_id: &str,
) -> (r: Result<Option<RunCommitRow>, DbError>)
    ensures
        recorded_read(old(db)@, final(db)@, session_id@, run_id@, r),
{
    find(db, SQL_READ_RECORDED, params2(p_text(session_id), p_text(run_id)))
}

pub const SQL_STORE_INTERRUPTED: &'static str = "UPDATE run_commits SET interrupted = ?3 WHERE session_id = ?1 AND run_id = ?2";

/// Whether a run was interrupted was stored.
pub open spec fn interrupted_stored(
    pre: Trace,
    post: Trace,
    session_id: Seq<char>,
    run_id: Seq<char>,
    interrupted: bool,
    r: Result<(), DbError>,
) -> bool {
    rows::executed(
        pre,
        post,
        SQL_STORE_INTERRUPTED@,
        seq![Datum::Text(session_id), Datum::Text(run_id), rows::flag(interrupted)],
        r,
    )
}

fn store_interrupted(
    db: &mut Db,
    session_id: &str,
    run_id: &str,
    interrupted: bool,
) -> (r: Result<(), DbError>)
    ensures
        interrupted_stored(old(db)@, final(db)@, session_id@, run_id@, interrupted, r),
{
    run(db, SQL_STORE_INTERRUPTED, params3(p_text(session_id), p_text(run_id), p_flag(interrupted)))
}

pub const SQL_COUNT_CHECKPOINTS: &'static str = "SELECT COUNT(*) FROM checkpoint_entries WHERE session_id = ?1 AND run_id = ?2";

/// The files that a run saved were counted.
pub open spec fn checkpoints_counted(
    pre: Trace,
    post: Trace,
    session_id: Seq<char>,
    run_id: Seq<char>,
    r: Result<i64, DbError>,
) -> bool {
    rows::fetched(
        pre,
        post,
        SQL_COUNT_CHECKPOINTS@,
        seq![Datum::Text(session_id), Datum::Text(run_id)],
        r,
    )
}

fn count_checkpoints(db: &mut Db, session_id: &str, run_id: &str) -> (r: Result<i64, DbError>)
    ensures
        checkpoints_counted(old(db)@, final(db)@, session_id@, run_id@, r),
{
    fetch(db, SQL_COUNT_CHECKPOINTS, params2(p_text(session_id), p_text(run_id)))
}

pub const SQL_ACTIVATE: &'static str = "UPDATE run_commits SET state = 'active', files_changed = ?3, insertions = 0, deletions = 0, interrupted = ?4 \
         WHERE session_id = ?1 AND run_id = ?2 AND state = 'running'";

/// A running run was made an active one.
pub open spec fn activated(
    pre: Trace,
    post: Trace,
    session_id: Seq<char>,
    run_id: Seq<char>,
    files_changed: i64,
    interrupted: bool,
    r: Result<(), DbError>,
) -> bool {
    rows::changed_one(
        pre,
        post,
        SQL_ACTIVATE@,
        seq![
            Datum::Text(session_id),
            Datum::Text(run_id),
            Datum::Integer(files_changed),
            rows::flag(interrupted),
        ],
        r,
    )
}

fn activate(
    db: &mut Db,
    session_id: &str,
    run_id: &str,
    files_changed: i64,
    interrupted: bool,
) -> (r: Result<(), DbError>)
    ensures
        activated(old(db)@, final(db)@, session_id@, run_id@, files_changed, interrupted, r),
{
    run_changed_one(
        db,
        SQL_ACTIVATE,
        params4(p_text(session_id), p_text(run_id), p_int(files_changed), p_flag(interrupted)),
    )
}

/// What a run that was committed left behind.
pub open spec fn closeout_of(row: RunCommitRow) -> RunCloseoutMetadata {
    RunCloseoutMetadata {
        commit_sha: row.commit_sha,
        files_changed: row.files_changed,
        insertions: row.insertions,
        deletions: row.deletions,
    }
}

/// What a run that did nothing left behind.
pub open spec fn empty_closeout() -> RunCloseoutMetadata {
    RunCloseoutMetadata {
        commit_sha: None,
        files_changed: None,
        insertions: None,
        deletions: None,
    }
}

/// What a run that saved files and was not committed left behind.
pub open spec fn saved_closeout(files: i64) -> RunCloseoutMetadata {
    RunCloseoutMetadata {
        commit_sha: None,
        files_changed: Some(files as u64),
        insertions: Some(0),
        deletions: Some(0),
    }
}

/// What comes of a run whose closing step gave `done`, and that left `left` behind.
pub open spec fn closed(
    done: Result<(), DbError>,
    left: RunCloseoutMetadata,
) -> Result<RunCloseoutMetadata, DbError> {
    match done {
        Ok(()) => Ok(left),
        Err(e) => Err(e),
    }
}

/// A run that was not committed was closed: one that saved no files is taken out of the ledger, one
/// that did becomes an active one.
pub open spec fn uncommitted_closed(
    pre: Trace,
    post: Trace,
    session_id: Seq<char>,
    run_id: Seq<char>,
    interrupted: bool,
    r: Result<RunCloseoutMetadata, DbError>,
) -> bool {
    exists|mid: Trace, count: Result<i64, DbError>|
        {
            &&& #[trigger] checkpoints_counted(pre, mid, session_id, run_id, count)
            &&& match count {
                Ok(0) => exists|done: Result<(), DbError>|
                    #[trigger] pending_deleted(mid, post, session_id, run_id, done) && r == closed(
                        done,
                        empty_closeout(),
                    ),
                Ok(n) => exists|done: Result<(), DbError>|
                    #[trigger] activated(mid, post, session_id, run_id, n, interrupted, done) && r
                        == closed(done, saved_closeout(n)),
                Err(e) => post == mid && r == Err::<RunCloseoutMetadata, DbError>(e),
            }
        }
}

fn close_uncommitted(db: &mut Db, session_id: &str, run_id: &str, interrupted: bool) -> (r: Result<
    RunCloseoutMetadata,
    DbError,
>)
    ensures
        uncommitted_closed(old(db)@, final(db)@, session_id@, run_id@, interrupted, r),
{
    let count = count_checkpoints(db, session_id, run_id);
    let ghost mid = db@;
    assert(checkpoints_counted(old(db)@, mid, session_id@, run_id@, count));
    let n = match count {
        Ok(n) => n,
        Err(e) => return Err(e),
    };
    if n == 0 {
        let done = delete_run_pending(db, session_id, run_id);
        assert(pending_deleted(mid, db@, session_id@, run_id@, done));
        return match done {
            Ok(()) => Ok(
                RunCloseoutMetadata {
                    commit_sha: None,
                    files_changed: None,
                    insertions: None,
                    deletions: None,
                },
            ),
            Err(e) => Err(e),
        };
    }
    let done = activate(db, session_id, run_id, n, interrupted);
    assert(activated(mid, db@, session_id@, run_id@, n, interrupted, done));
    match done {
        Ok(()) => Ok(
            RunCloseoutMetadata {
                commit_sha: None,
                files_changed: Some(n as u64),
                insertions: Some(0),
                deletions: Some(0),
            },
        ),
        Err(e) => Err(e),
    }
}

/// A run was closed.
pub open spec fn run_closed(
    pre: Trace,
    post: Trace,
    session_id: Seq<char>,
    run_id: Seq<char>,
    interrupted: bool,
    r: Result<RunCloseoutMetadata, DbError>,
) -> bool {
    exists|mid: Trace, got: Result<Option<RunCommitRow>, DbError>|
        {
            &&& #[trigger] recorded_read(pre, mid, session_id, run_id, got)
            &&& match got {
                Ok(Some(row)) => exists|done: Result<(), DbError>|
                    #[trigger] interrupted_stored(
                        mid,
                        post,
                        session_id,
                        run_id,
                        interrupted,
                        done,
                    ) && r == closed(done, closeout_of(row)),
                Ok(None) => uncommitted_closed(mid, post, session_id, run_id, interrupted, r),
                Err(e) => post == mid && r == Err::<RunCloseoutMetadata, DbError>(e),
            }
        }
}

/// Closes a run, and says what it left behind. One that was committed keeps its entry; of one that
/// was not, the files that it saved decide: without any its entry is taken out, with some it
/// becomes active, and to have no running entry then is an error.
pub fn finalize_run_pending_without_git_writes(
    db: &mut Db,
    session_id: &str,
    run_id: &str,
    interrupted: bool,
) -> (r: Result<RunCloseoutMetadata, DbError>)
    ensures
        run_closed(old(db)@, final(db)@, session_id@, run_id@, interrupted, r),
{
    let got = read_recorded(db, session_id, run_id);
    let ghost mid = db@;
    assert(recorded_read(old(db)@, mid, session_id@, run_id@, got));
    match got {
        Ok(Some(row)) => {
            let done = store_interrupted(db, session_id, run_id, interrupted);
            assert(interrupted_stored(mid, db@, session_id@, run_id@, interrupted, done));
            match done {
                Ok(()) => Ok(
                    RunCloseoutMetadata {
                        commit_sha: row.commit_sha,
                        files_changed: row.files_changed,
                        insertions: row.insertions,
                        deletions: row.deletions,
                    },
                ),
                Err(e) => Err(e),
            }
        },
        Ok(None) => close_uncommitted(db, session_id, run_id, interrupted),
        Err(e) => Err(e),
    }
}

pub const SQL_MARK_RUN_FAILED: &'static str = "UPDATE run_commits SET state = 'failed' WHERE session_id = ?1 AND run_id = ?2";

/// Marks a run as failed.
pub fn mark_run_failed(db: &mut Db, session_id: &str, run_id: &str) -> (r: Result<(), DbError>)
    ensures
        rows::executed(
            old(db)@,
            final(db)@,
            SQL_MARK_RUN_FAILED@,
            seq![Datum::Text(session_id@), Datum::Text(run_id@)],
            r,
        ),
{
    run(db, SQL_MARK_RUN_FAILED, params2(p_text(session_id), p_text(run_id)))
}

pub const SQL_LAST_RUN_COMMIT: &'static str = "SELECT session_id, run_id, engine, pre_head, post_head, commit_sha, files_changed, insertions, deletions, interrupted, state FROM run_commits WHERE session_id = ?1 ORDER BY id DESC LIMIT 1";

/// The last run of a session, if there is one.
pub fn last_run_commit(db: &mut Db, session_id: &str) -> (r: Result<Option<RunCommitRow>, DbError>)
    ensures
        rows::found(old(db)@, final(db)@, SQL_LAST_RUN_COMMIT@, seq![Datum::Text(session_id@)], r),
{
    find(db, SQL_LAST_RUN_COMMIT, params1(p_text(session_id)))
}

pub const SQL_LAST_ACTIVE_RUN_COMMIT: &'static str = "SELECT session_id, run_id, engine, pre_head, post_head, commit_sha, files_changed, insertions, deletions, interrupted, state FROM run_commits \
         WHERE session_id = ?1 AND state = 'active' ORDER BY id DESC LIMIT 1";

/// The last active run of a session, if there is one.
pub fn last_active_run_commit(
    db: &mut Db,
    session_id: &str,
) -> (r: Result<Option<RunCommitRow>, DbError>)
    ensures
        rows::found(
            old(db)@,
            final(db)@,
            SQL_LAST_ACTIVE_RUN_COMMIT@,
            seq![Datum::Text(session_id@)],
            r,
        ),
{
    find(db, SQL_LAST_ACTIVE_RUN_COMMIT, params1(p_text(session_id)))
}

pub const SQL_LATEST_RECORDED_RUN_COMMIT: &'static str = "SELECT session_id, run_id, engine, pre_head, post_head, commit_sha, files_changed, insertions, deletions, interrupted, state FROM run_commits \
         WHERE session_id = ?1 AND state = 'active' \
           AND post_head IS NOT NULL AND commit_sha IS NOT NULL \
         ORDER BY id DESC LIMIT 1";

/// The last active run of a session that was committed, if there is one.
pub fn latest_recorded_run_commit(
    db: &mut Db,
    session_id: &str,
) -> (r: Result<Option<RunCommitRow>, DbError>)
    ensures
        rows::found(
            old(db)@,
            final(db)@,
            SQL_LATEST_RECORDED_RUN_COMMIT@,
            seq![Datum::Text(session_id@)],
            r,
        ),
{
    find(db, SQL_LATEST_RECORDED_RUN_COMMIT, params1(p_text(session_id)))
}

pub const SQL_LAST_SESSION_AGENT_ID: &'static str = "SELECT agent_id FROM messages WHERE session_id = ?1 AND agent_id IS NOT NULL ORDER BY id DESC LIMIT 1";

/// The agent of the last message of a session that has one.
pub fn last_session_agent_id(db: &mut Db, session_id: &str) -> (r: Result<Option<String>, DbError>)
    ensures
        rows::found(
            old(db)@,
            final(db)@,
            SQL_LAST_SESSION_AGENT_ID@,
            seq![Datum::Text(session_id@)],
            r,
        ),
{
    find(db, SQL_LAST_SESSION_AGENT_ID, params1(p_text(session_id)))
}

pub const SQL_RECORDED_RUN_COMMIT_RANGES_FOR_SESSION: &'static str = "SELECT pre_head, post_head FROM run_commits \
         WHERE session_id = ?1 AND state = 'active' \
           AND post_head IS NOT NULL AND commit_sha IS NOT NULL \
         ORDER BY id ASC";

/// What the active runs of a session that were committed started from and led to, in order.
pub fn recorded_run_commit_ranges_for_session(
    db: &mut Db,
    session_id: &str,
) -> (r: Result<Vec<(String, String)>, DbError>)
    ensures
        rows::listed(
            old(db)@,
            final(db)@,
            SQL_RECORDED_RUN_COMMIT_RANGES_FOR_SESSION@,
            seq![Datum::Text(session_id@)],
            r,
        ),
{
    list(db, SQL_RECORDED_RUN_COMMIT_RANGES_FOR_SESSION, params1(p_text(session_id)))
}

pub const SQL_EARLIEST_RUN_PRE_HEAD_FOR_SESSION: &'static str = "SELECT pre_head FROM run_commits \
         WHERE session_id = ?1 ORDER BY id ASC LIMIT 1";

/// What the first run of a session started from, if there is one.
pub fn earliest_run_pre_head_for_session(
    db: &mut Db,
    session_id: &str,
) -> (r: Result<Option<String>, DbError>)
    ensures
        rows::found(
            old(db)@,
            final(db)@,
            SQL_EARLIEST_RUN_PRE_HEAD_FOR_SESSION@,
            seq![Datum::Text(session_id@)],
            r,
        ),
{
    find(db, SQL_EARLIEST_RUN_PRE_HEAD_FOR_SESSION, params1(p_text(session_id)))
}

impl FromRow for (String, String, u64, u64) {
    open spec fn reads() -> Seq<Read> {
        rows::in_order(seq![Kind::Text, Kind::Text, Kind::Natural, Kind::Natural])
    }

    open spec fn is_row(self, row: Seq<Datum>) -> bool {
        &&& row[0] == Datum::Text(self.0@)
        &&& row[1] == Datum::Text(self.1@)
        &&& row[2] == Datum::Integer(self.2 as i64)
        &&& row[3] == Datum::Integer(self.3 as i64)
    }

    fn layout() -> (reads: Vec<Read>) {
        let kinds = vec![Kind::Text, Kind::Text, Kind::Natural, Kind::Natural];
        assert(rows::in_order(kinds@) =~= Self::reads());
        reads_in_order(kinds)
    }

    fn from_row(row: &Vec<Cell>) -> (v: Self) {
        proof {
            rows::lemma_cells(row@, Self::reads());
        }
        (text_at(row, 0), text_at(row, 1), int_at(row, 2) as u64, int_at(row, 3) as u64)
    }
}

pub const SQL_LIST_RUN_COMMIT_STATES: &'static str = "SELECT rc.run_id, rc.state, COUNT(ce.id), \
                COALESCE(SUM(CASE WHEN ce.undone_at IS NOT NULL THEN 1 ELSE 0 END), 0) \
         FROM run_commits rc \
         LEFT JOIN checkpoint_entries ce \
           ON ce.session_id = rc.session_id AND ce.run_id = rc.run_id \
         WHERE rc.session_id = ?1 \
         GROUP BY rc.id, rc.run_id, rc.state \
         ORDER BY rc.id";

/// The runs of a session: id, state, how many files each saved and how many of them were undone.
pub fn list_run_commit_states(
    db: &mut Db,
    session_id: &str,
) -> (r: Result<Vec<(String, String, u64, u64)>, DbError>)
    ensures
        rows::listed(
            old(db)@,
            final(db)@,
            SQL_LIST_RUN_COMMIT_STATES@,
            seq![Datum::Text(session_id@)],
            r,
        ),
{
    list(db, SQL_LIST_RUN_COMMIT_STATES, params1(p_text(session_id)))
}

/// What happened on a day, by the calendar of the caller.
#[derive(Debug, Clone, PartialEq, Eq)]
pub struct RecentActivityDay {
    /// The day, as `YYYY-MM-DD`.
    pub date: String,
    pub commits: i64,
    pub files_changed: i64,
    pub insertions: i64,
    pub deletions: i64,
    pub failed: i64,
}

impl FromRow for RecentActivityDay {
    open spec fn reads() -> Seq<Read> {
        rows::in_order(seq![
            Kind::Text,
            Kind::Int,
            Kind::Int,
            Kind::Int,
            Kind::Int,
            Kind::Int,
        ])
    }

    open spec fn is_row(self, row: Seq<Datum>) -> bool {
        &&& row[0] == Datum::Text(self.date@)
        &&& row[1] == Datum::Integer(self.commits)
        &&& row[2] == Datum::Integer(self.files_changed)
        &&& row[3] == Datum::Integer(self.insertions)
        &&& row[4] == Datum::Integer(self.deletions)
        &&& row[5] == Datum::Integer(self.failed)
    }

    fn layout() -> (reads: Vec<Read>) {
        let kinds = vec![
            Kind::Text,
            Kind::Int,
            Kind::Int,
            Kind::Int,
            Kind::Int,
            Kind::Int,
        ];
        assert(rows::in_order(kinds@) =~= Self::reads());
        reads_in_order(kinds)
    }

    fn from_row(row: &Vec<Cell>) -> (v: Self) {
        proof {
            rows::lemma_cells(row@, Self::reads());
        }
        RecentActivityDay {
            date: text_at(row, 0),
            commits: int_at(row, 1),
            files_changed: int_at(row, 2),
            insertions: int_at(row, 3),
            deletions: int_at(row, 4),
            failed: int_at(row, 5),
        }
    }
}

pub const SQL_RECENT_ACTIVITY_BY_DAY: &'static str = "SELECT date(created_at, 'unixepoch', ?1) AS day, \
                COUNT(*), \
                COALESCE(SUM(files_changed), 0), \
                COALESCE(SUM(insertions), 0), \
                COALESCE(SUM(deletions), 0), \
                COALESCE(SUM(CASE WHEN state = 'failed' THEN 1 ELSE 0 END), 0) \
         FROM run_commits \
         WHERE state != 'running' \
           AND created_at >= strftime('%s','now') - 7 * 86400 \
         GROUP BY day \
         ORDER BY day DESC \
         LIMIT 7";

/// The shift of a time by minutes, as SQLite reads it.
pub open spec fn minutes_shift(minutes: i64) -> Seq<char> {
    (if minutes >= 0 {
        "+"@
    } else {
        ""@
    }) + text::signed_decimal(minutes as int) + " minutes"@
}

/// What happened on the last seven days, latest first; `tz_offset_minutes` is what the caller's
/// clock is ahead of UTC.
pub fn recent_activity_by_day(db: &mut Db, tz_offset_minutes: i64) -> (r: Result<
    Vec<RecentActivityDay>,
    DbError,
>)
    ensures
        rows::listed(
            old(db)@,
            final(db)@,
            SQL_RECENT_ACTIVITY_BY_DAY@,
            seq![Datum::Text(minutes_shift(tz_offset_minutes))],
            r,
        ),
{
    let sign = if tz_offset_minutes >= 0 {
        "+"
    } else {
        ""
    };
    let modifier = join3(sign, signed_decimal_text(tz_offset_minutes).as_str(), " minutes");
    list(db, SQL_RECENT_ACTIVITY_BY_DAY, params1(p_text(modifier.as_str())))
}

pub const SQL_LIST_CHECKPOINT_FILE_PATHS_FOR_SESSION: &'static str = "SELECT DISTINCT file_path FROM checkpoint_entries \
         WHERE session_id = ?1 AND undone_at IS NULL ORDER BY file_path";

/// The paths of the files that the runs of a session saved and that can still be restored.
pub fn list_checkpoint_file_paths_for_session(
    db: &mut Db,
    session_id: &str,
) -> (r: Result<Vec<String>, DbError>)
    ensures
        rows::listed(
            old(db)@,
            final(db)@,
            SQL_LIST_CHECKPOINT_FILE_PATHS_FOR_SESSION@,
            seq![Datum::Text(session_id@)],
            r,
        ),
{
    list(db, SQL_LIST_CHECKPOINT_FILE_PATHS_FOR_SESSION, params1(p_text(session_id)))
}

impl FromRow for (String, Option<String>, Option<String>, Option<String>, Option<String>) {
    open spec fn reads() -> Seq<Read> {
        rows::in_order(seq![
            Kind::Text,
            Kind::OptText,
            Kind::OptText,
            Kind::OptText,
            Kind::OptText,
        ])
    }

    open spec fn is_row(self, row: Seq<Datum>) -> bool {
        &&& row[0] == Datum::Text(self.0@)
        &&& row[1] == rows::opt_text(events::opt(self.1))
        &&& row[2] == rows::opt_text(events::opt(self.2))
        &&& row[3] == rows::opt_text(events::opt(self.3))
        &&& row[4] == rows::opt_text(events::opt(self.4))
    }

    fn layout() -> (reads: Vec<Read>) {
        let kinds = vec![
            Kind::Text,
            Kind::OptText,
            Kind::OptText,
            Kind::OptText,
            Kind::OptText,
        ];
        assert(rows::in_order(kinds@) =~= Self::reads());
        reads_in_order(kinds)
    }

    fn from_row(row: &Vec<Cell>) -> (v: Self) {
        proof {
            rows::lemma_cells(row@, Self::reads());
        }
        (
            text_at(row, 0),
            opt_text_at(row, 1),
            opt_text_at(row, 2),
            opt_text_at(row, 3),
            opt_text_at(row, 4),
        )
    }
}

pub const SQL_LIST_ACTIVE_CHECKPOINT_PATHS_WITH_RUN_LIFECYCLE_FOR_SESSION: &'static str = "SELECT ce.file_path, rc.state, rc.pre_head, rc.post_head, rc.commit_sha \
         FROM checkpoint_entries ce \
         LEFT JOIN run_commits rc \
           ON rc.session_id = ce.session_id AND rc.run_id = ce.run_id \
         WHERE ce.session_id = ?1 AND ce.undone_at IS NULL";

/// The paths of the files that the runs of a session saved and that can still be restored, each with
/// the state of its run, what the run started from and led to, and its commit.
pub fn list_active_checkpoint_paths_with_run_lifecycle_for_session(
    db: &mut Db,
    session_id: &str,
) -> (r: Result<Vec<(String, Option<String>, Option<String>, Option<String>, Option<String>)>, DbError>)
    ensures
        rows::listed(
            old(db)@,
            final(db)@,
            SQL_LIST_ACTIVE_CHECKPOINT_PATHS_WITH_RUN_LIFECYCLE_FOR_SESSION@,
            seq![Datum::Text(session_id@)],
            r,
        ),
{
    list(
        db,
        SQL_LIST_ACTIVE_CHECKPOINT_PATHS_WITH_RUN_LIFECYCLE_FOR_SESSION,
        params1(p_text(session_id)),
    )
}

/// How far a run has come.
#[derive(Debug, Clone, PartialEq, Eq)]
pub struct RunLifecycle {
    pub state: String,
    pub pre_head: String,
    pub post_head: Option<String>,
    pub commit_sha: Option<String>,
}

impl FromRow for RunLifecycle {
    open spec fn reads() -> Seq<Read> {
        rows::in_order(seq![Kind::Text, Kind::Text, Kind::OptText, Kind::OptText])
    }

    open spec fn is_row(self, row: Seq<Datum>) -> bool {
        &&& row[0] == Datum::Text(self.state@)
        &&& row[1] == Datum::Text(self.pre_head@)
        &&& row[2] == rows::opt_text(events::opt(self.post_head))
        &&& row[3] == rows::opt_text(events::opt(self.commit_sha))
    }

    fn layout() -> (reads: Vec<Read>) {
        let kinds = vec![Kind::Text, Kind::Text, Kind::OptText, Kind::OptText];
        assert(rows::in_order(kinds@) =~= Self::reads());
        reads_in_order(kinds)
    }

    fn from_row(row: &Vec<Cell>) -> (v: Self) {
        proof {
            rows::lemma_cells(row@, Self::reads());
        }
        RunLifecycle {
            state: text_at(row, 0),
            pre_head: text_at(row, 1),
            post_head: opt_text_at(row, 2),
            commit_sha: opt_text_at(row, 3),
        }
    }
}

pub const SQL_RUN_LIFECYCLE_FOR_RUN: &'static str = "SELECT state, pre_head, post_head, commit_sha FROM run_commits \
         WHERE session_id = ?1 AND run_id = ?2";

/// How far a run has come, if there is one.
pub fn run_lifecycle_for_run(
    db: &mut Db,
    session_id: &str,
    run_id: &str,
) -> (r: Result<Option<RunLifecycle>, DbError>)
    ensures
        rows::found(
            old(db)@,
            final(db)@,
            SQL_RUN_LIFECYCLE_FOR_RUN@,
            seq![Datum::Text(session_id@), Datum::Text(run_id@)],
            r,
        ),
{
    find(db, SQL_RUN_LIFECYCLE_FOR_RUN, params2(p_text(session_id), p_text(run_id)))
}

} // verus!
