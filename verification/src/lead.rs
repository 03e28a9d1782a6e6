//! The state of a session's lead.
use vstd::prelude::*;

use crate::engine::{Cell, Datum, Db, DbError, Trace};
use crate::events;
use crate::rows::{
    self,
    find,
    opt_text_at,
    p_opt_text,
    p_text,
    params1,
    params2,
    params3,
    reads_in_order,
    run,
    text_at,
    FromRow,
    Kind,
    Read,
};

verus! {

/// What the lead of a session remembers between its decisions.
#[derive(Debug, Clone, PartialEq)]
pub struct LeadLoopState {
    pub session_id: String,
    /// `cautious`, `handsfree` or `auto`.
    pub autonomy: String,
    pub active_run_id: Option<String>,
    pub active_task_id: Option<String>,
    pub last_event_cursor: Option<String>,
}

impl FromRow for LeadLoopState {
    open spec fn reads() -> Seq<Read> {
        rows::in_order(seq![
            Kind::Text,
            Kind::Text,
            Kind::OptText,
            Kind::OptText,
            Kind::OptText,
        ])
    }

    open spec fn is_row(self, row: Seq<Datum>) -> bool {
        &&& row[0] == Datum::Text(self.session_id@)
        &&& row[1] == Datum::Text(self.autonomy@)
        &&& row[2] == rows::opt_text(events::opt(self.active_run_id))
        &&& row[3] == rows::opt_text(events::opt(self.active_task_id))
        &&& row[4] == rows::opt_text(events::opt(self.last_event_cursor))
    }

    fn layout() -> (reads: Vec<Read>) {
        let kinds = vec![
            Kind::Text,
            Kind::Text,
            Kind::OptText,
            Kind::OptText,
            Kind::OptText,
        ];
        assert(rows::in_order(kinds@) =~= Self::reads());
        reads_in_order(kinds)
    }

    fn from_row(row: &Vec<Cell>) -> (v: Self) {
        proof {
            rows::lemma_cells(row@, Self::reads());
        }
        LeadLoopState {
            session_id: text_at(row, 0),
            autonomy: text_at(row, 1),
            active_run_id: opt_text_at(row, 2),
            active_task_id: opt_text_at(row, 3),
            last_event_cursor: opt_text_at(row, 4),
        }
    }
}

impl LeadLoopState {
    /// The state of a session whose lead has not decided anything yet.
    pub open spec fn is_default_for(self, session_id: Seq<char>) -> bool {
        &&& self.session_id@ == session_id
        &&& self.autonomy@ == "cautious"@
        &&& self.active_run_id is None
        &&& self.active_task_id is None
        &&& self.last_event_cursor is None
    }

    /// The state of a session whose lead has not decided anything yet.
    pub fn default_for(session_id: &str) -> (state: Self)
        ensures
            state.is_default_for(session_id@),
    {
        LeadLoopState {
            session_id: session_id.to_string(),
            autonomy: "cautious".to_string(),
            active_run_id: None,
            active_task_id: None,
            last_event_cursor: None,
        }
    }
}

pub const SQL_READ_STATE: &'static str = "SELECT session_id, autonomy, active_run_id, active_task_id, last_event_cursor \
         FROM lead_loop_state WHERE session_id = ?1";

/// The state of a session's lead was read.
pub open spec fn state_read(
    pre: Trace,
    post: Trace,
    session_id: Seq<char>,
    r: Result<Option<LeadLoopState>, DbError>,
) -> bool {
    rows::found(pre, post, SQL_READ_STATE@, seq![Datum::Text(session_id)], r)
}

fn read_state(db: &mut Db, session_id: &str) -> (r: Result<Option<LeadLoopState>, DbError>)
    ensures
        state_read(old(db)@, final(db)@, session_id@, r),
{
    find(db, SQL_READ_STATE, params1(p_text(session_id)))
}

/// The state of a session's lead; where none is stored, the one that it starts from.
pub fn get_lead_loop_state(db: &mut Db, session_id: &str) -> (r: Result<LeadLoopState, DbError>)
    ensures
        exists|got: Result<Option<LeadLoopState>, DbError>|
            {
                &&& #[trigger] state_read(old(db)@, final(db)@, session_id@, got)
                &&& match got {
                    Ok(Some(state)) => r == Ok::<LeadLoopState, DbError>(state),
                    Ok(None) => r matches Ok(state) && state.is_default_for(session_id@),
                    Err(e) => r == Err::<LeadLoopState, DbError>(e),
                }
            },
{
    match read_state(db, session_id) {
        Ok(Some(state)) => Ok(state),
        Ok(None) => Ok(LeadLoopState::default_for(session_id)),
        Err(e) => Err(e),
    }
}

pub const SQL_SET_LEAD_AUTONOMY: &'static str = "INSERT INTO lead_loop_state (session_id, autonomy, updated_at) \
         VALUES (?1, ?2, strftime('%s','now')) \
         ON CONFLICT(session_id) DO UPDATE SET autonomy = excluded.autonomy, updated_at = excluded.updated_at";

/// Sets how freely a session's lead may act.
pub fn set_lead_autonomy(db: &mut Db, session_id: &str, autonomy: &str) -> (r: Result<(), DbError>)
    ensures
        rows::executed(
            old(db)@,
            final(db)@,
            SQL_SET_LEAD_AUTONOMY@,
            seq![Datum::Text(session_id@), Datum::Text(autonomy@)],
            r,
        ),
{
    run(db, SQL_SET_LEAD_AUTONOMY, params2(p_text(session_id), p_text(autonomy)))
}

pub const SQL_SET_LEAD_ACTIVE: &'static str = "INSERT INTO lead_loop_state (session_id, active_run_id, active_task_id, updated_at) \
         VALUES (?1, ?2, ?3, strftime('%s','now')) \
         ON CONFLICT(session_id) DO UPDATE SET \
            active_run_id = excluded.active_run_id, \
            active_task_id = excluded.active_task_id, \
            updated_at = excluded.updated_at";

/// Sets the run and the task that a session's lead is at.
pub fn set_lead_active(
    db: &mut Db,
    session_id: &str,
    active_run_id: Option<&str>,
    active_task_id: Option<&str>,
) -> (r: Result<(), DbError>)
    ensures
        rows::executed(
            old(db)@,
            final(db)@,
            SQL_SET_LEAD_ACTIVE@,
            seq![
                Datum::Text(session_id@),
                rows::opt_text(events::opt_str(active_run_id)),
                rows::opt_text(events::opt_str(active_task_id)),
            ],
            r,
        ),
{
    run(
        db,
        SQL_SET_LEAD_ACTIVE,
        params3(p_text(session_id), p_opt_text(active_run_id), p_opt_text(active_task_id)),
    )
}

pub const SQL_SET_LEAD_EVENT_CURSOR: &'static str = "INSERT INTO lead_loop_state (session_id, last_event_cursor, updated_at) \
         VALUES (?1, ?2, strftime('%s','now')) \
         ON CONFLICT(session_id) DO UPDATE SET \
            last_event_cursor = excluded.last_event_cursor, updated_at = excluded.updated_at";

/// Sets the event that a session's lead has come to.
pub fn set_lead_event_cursor(
    db: &mut Db,
    session_id: &str,
    cursor: &str,
) -> (r: Result<(), DbError>)
    ensures
        rows::executed(
            old(db)@,
            final(db)@,
            SQL_SET_LEAD_EVENT_CURSOR@,
            seq![Datum::Text(session_id@), Datum::Text(cursor@)],
            r,
        ),
{
    run(db, SQL_SET_LEAD_EVENT_CURSOR, params2(p_text(session_id), p_text(cursor)))
}

} // verus!
