//! Goal contracts of runs, and the criteria by which runs are accepted.
use vstd::prelude::*;

use crate::engine::{self, Cell, Datum, Db, DbError, Param, Reply, Request, Step, Trace};
use crate::events;
use crate::rows::{
    self,
    find,
    find_value,
    int_at,
    list,
    opt_text_at,
    p_int,
    p_opt,
    p_opt_text,
    p_text,
    params12,
    params2,
    params3,
    params4,
    params8,
    reads_in_order,
    run,
    run_changed_one,
    text_at,
    FromRow,
    Kind,
    Read,
};
use crate::tx::{self, begin, finish, run_script, statement, Statement};

verus! {

/// The goal of a run, and the units of work that it is split into.
#[derive(Debug, Clone, PartialEq)]
pub struct GoalContract {
    pub id: String,
    pub session_id: String,
    pub run_id: String,
    pub goal: String,
    pub lead_participant_id: String,
    /// `draft` or `frozen`.
    pub status: String,
    /// The assignments, as a JSON array.
    pub assignments_json: String,
    pub created_at: i64,
}

impl FromRow for GoalContract {
    open spec fn reads() -> Seq<Read> {
        rows::in_order(seq![
            Kind::Text,
            Kind::Text,
            Kind::Text,
            Kind::Text,
            Kind::Text,
            Kind::Text,
            Kind::Text,
            Kind::Int,
        ])
    }

    open spec fn is_row(self, row: Seq<Datum>) -> bool {
        &&& row[0] == Datum::Text(self.id@)
        &&& row[1] == Datum::Text(self.session_id@)
        &&& row[2] == Datum::Text(self.run_id@)
        &&& row[3] == Datum::Text(self.goal@)
        &&& row[4] == Datum::Text(self.lead_participant_id@)
        &&& row[5] == Datum::Text(self.status@)
        &&& row[6] == Datum::Text(self.assignments_json@)
        &&& row[7] == Datum::Integer(self.created_at)
    }

    fn layout() -> (reads: Vec<Read>) {
        let kinds = vec![
            Kind::Text,
            Kind::Text,
            Kind::Text,
            Kind::Text,
            Kind::Text,
            Kind::Text,
            Kind::Text,
            Kind::Int,
        ];
        assert(rows::in_order(kinds@) =~= Self::reads());
        reads_in_order(kinds)
    }

    fn from_row(row: &Vec<Cell>) -> (v: Self) {
        proof {
            rows::lemma_cells(row@, Self::reads());
        }
        GoalContract {
            id: text_at(row, 0),
            session_id: text_at(row, 1),
            run_id: text_at(row, 2),
            goal: text_at(row, 3),
            lead_participant_id: text_at(row, 4),
            status: text_at(row, 5),
            assignments_json: text_at(row, 6),
            created_at: int_at(row, 7),
        }
    }
}

/// A criterion by which a run or one of its tasks is accepted.
#[derive(Debug, Clone, PartialEq)]
pub struct AcceptanceCriterion {
    pub id: String,
    pub session_id: String,
    pub run_id: String,
    pub task_id: String,
    pub contract_id: Option<String>,
    /// `run` or `task`.
    pub scope: String,
    pub claim: String,
    pub verifier: Option<String>,
    pub evidence: Option<String>,
    /// `pending`, `passed`, `failed` or `waived`.
    pub status: String,
    pub waiver: Option<String>,
    pub created_at: i64,
}

impl FromRow for AcceptanceCriterion {
    open spec fn reads() -> Seq<Read> {
        rows::in_order(seq![
            Kind::Text,
            Kind::Text,
            Kind::Text,
            Kind::Text,
            Kind::OptText,
            Kind::Text,
            Kind::Text,
            Kind::OptText,
            Kind::OptText,
            Kind::Text,
            Kind::OptText,
            Kind::Int,
        ])
    }

    open spec fn is_row(self, row: Seq<Datum>) -> bool {
        &&& row[0] == Datum::Text(self.id@)
        &&& row[1] == Datum::Text(self.session_id@)
        &&& row[2] == Datum::Text(self.run_id@)
        &&& row[3] == Datum::Text(self.task_id@)
        &&& row[4] == rows::opt_text(events::opt(self.contract_id))
        &&& row[5] == Datum::Text(self.scope@)
        &&& row[6] == Datum::Text(self.claim@)
        &&& row[7] == rows::opt_text(events::opt(self.verifier))
        &&& row[8] == rows::opt_text(events::opt(self.evidence))
        &&& row[9] == Datum::Text(self.status@)
        &&& row[10] == rows::opt_text(events::opt(self.waiver))
        &&& row[11] == Datum::Integer(self.created_at)
    }

    fn layout() -> (reads: Vec<Read>) {
        let kinds = vec![
            Kind::Text,
            Kind::Text,
            Kind::Text,
            Kind::Text,
            Kind::OptText,
            Kind::Text,
            Kind::Text,
            Kind::OptText,
            Kind::OptText,
            Kind::Text,
            Kind::OptText,
            Kind::Int,
        ];
        assert(rows::in_order(kinds@) =~= Self::reads());
        reads_in_order(kinds)
    }

    fn from_row(row: &Vec<Cell>) -> (v: Self) {
        proof {
            rows::lemma_cells(row@, Self::reads());
        }
        AcceptanceCriterion {
            id: text_at(row, 0),
            session_id: text_at(row, 1),
            run_id: text_at(row, 2),
            task_id: text_at(row, 3),
            contract_id: opt_text_at(row, 4),
            scope: text_at(row, 5),
            claim: text_at(row, 6),
            verifier: opt_text_at(row, 7),
            evidence: opt_text_at(row, 8),
            status: text_at(row, 9),
            waiver: opt_text_at(row, 10),
            created_at: int_at(row, 11),
        }
    }
}

/// The values that store a contract, in the order of its columns.
pub open spec fn contract_data(g: GoalContract) -> Seq<Datum> {
    seq![
        Datum::Text(g.id@),
        Datum::Text(g.session_id@),
        Datum::Text(g.run_id@),
        Datum::Text(g.goal@),
        Datum::Text(g.lead_participant_id@),
        Datum::Text(g.status@),
        Datum::Text(g.assignments_json@),
        Datum::Integer(g.created_at),
    ]
}

fn contract_params(g: &GoalContract) -> (params: Vec<Param>)
    ensures
        engine::bound_data(params@) == contract_data(*g),
{
    params8(
        p_text(g.id.as_str()),
        p_text(g.session_id.as_str()),
        p_text(g.run_id.as_str()),
        p_text(g.goal.as_str()),
        p_text(g.lead_participant_id.as_str()),
        p_text(g.status.as_str()),
        p_text(g.assignments_json.as_str()),
        p_int(g.created_at),
    )
}

/// The values that store a criterion, in the order of its columns.
pub open spec fn criterion_data(c: AcceptanceCriterion) -> Seq<Datum> {
    seq![
        Datum::Text(c.id@),
        Datum::Text(c.session_id@),
        Datum::Text(c.run_id@),
        Datum::Text(c.task_id@),
        rows::opt_text(events::opt(c.contract_id)),
        Datum::Text(c.scope@),
        Datum::Text(c.claim@),
        rows::opt_text(events::opt(c.verifier)),
        rows::opt_text(events::opt(c.evidence)),
        Datum::Text(c.status@),
        rows::opt_text(events::opt(c.waiver)),
        Datum::Integer(c.created_at),
    ]
}

fn criterion_params(c: &AcceptanceCriterion) -> (params: Vec<Param>)
    ensures
        engine::bound_data(params@) == criterion_data(*c),
{
    params12(
        p_text(c.id.as_str()),
        p_text(c.session_id.as_str()),
        p_text(c.run_id.as_str()),
        p_text(c.task_id.as_str()),
        p_opt(&c.contract_id),
        p_text(c.scope.as_str()),
        p_text(c.claim.as_str()),
        p_opt(&c.verifier),
        p_opt(&c.evidence),
        p_text(c.status.as_str()),
        p_opt(&c.waiver),
        p_int(c.created_at),
    )
}

pub const SQL_INSERT_GOAL_CONTRACT: &'static str = "INSERT INTO goal_contracts
            (id, session_id, run_id, goal, lead_participant_id, status, assignments_json, created_at)
         VALUES (?1, ?2, ?3, ?4, ?5, ?6, ?7, ?8)";

/// Stores a contract.
pub fn insert_goal_contract(db: &mut Db, g: &GoalContract) -> (r: Result<(), DbError>)
    ensures
        rows::executed(old(db)@, final(db)@, SQL_INSERT_GOAL_CONTRACT@, contract_data(*g), r),
{
    run(db, SQL_INSERT_GOAL_CONTRACT, contract_params(g))
}

pub const SQL_INSERT_GOAL_CONTRACT_IF_ABSENT: &'static str = "INSERT INTO goal_contracts
            (id, session_id, run_id, goal, lead_participant_id, status, assignments_json, created_at)
         VALUES (?1, ?2, ?3, ?4, ?5, ?6, ?7, ?8)
         ON CONFLICT DO NOTHING";

/// Stores a contract; one that is there already stays as it is.
pub fn insert_goal_contract_if_absent(db: &mut Db, g: &GoalContract) -> (r: Result<(), DbError>)
    ensures
        rows::executed(
            old(db)@,
            final(db)@,
            SQL_INSERT_GOAL_CONTRACT_IF_ABSENT@,
            contract_data(*g),
            r,
        ),
{
    run(db, SQL_INSERT_GOAL_CONTRACT_IF_ABSENT, contract_params(g))
}

pub const SQL_GET_GOAL_CONTRACT_BY_RUN: &'static str = "SELECT id, session_id, run_id, goal, lead_participant_id, status, assignments_json, created_at
         FROM goal_contracts WHERE session_id = ?1 AND run_id = ?2";

/// The contract of a run, if it has one.
pub fn get_goal_contract_by_run(
    db: &mut Db,
    session_id: &str,
    run_id: &str,
) -> (r: Result<Option<GoalContract>, DbError>)
    ensures
        rows::found(
            old(db)@,
            final(db)@,
            SQL_GET_GOAL_CONTRACT_BY_RUN@,
            seq![Datum::Text(session_id@), Datum::Text(run_id@)],
            r,
        ),
{
    find(db, SQL_GET_GOAL_CONTRACT_BY_RUN, params2(p_text(session_id), p_text(run_id)))
}

pub const SQL_SET_GOAL_TITLE_FOR_RUN: &'static str = "UPDATE goal_contracts SET goal_title = ?1 WHERE session_id = ?2 AND run_id = ?3";

/// Gives the goal of a run a short title, or takes it away.
pub fn set_goal_title_for_run(
    db: &mut Db,
    session_id: &str,
    run_id: &str,
    goal_title: Option<&str>,
) -> (r: Result<(), DbError>)
    ensures
        rows::executed(
            old(db)@,
            final(db)@,
            SQL_SET_GOAL_TITLE_FOR_RUN@,
            seq![
                rows::opt_text(events::opt_str(goal_title)),
                Datum::Text(session_id@),
                Datum::Text(run_id@),
            ],
            r,
        ),
{
    run(
        db,
        SQL_SET_GOAL_TITLE_FOR_RUN,
        params3(p_opt_text(goal_title), p_text(session_id), p_text(run_id)),
    )
}

pub const SQL_GOAL_TITLE_FOR_RUN: &'static str = "SELECT goal_title FROM goal_contracts WHERE session_id = ?1 AND run_id = ?2";

/// The short title of a run's goal; none where the run has no contract or its goal no title.
pub fn goal_title_for_run(
    db: &mut Db,
    session_id: &str,
    run_id: &str,
) -> (r: Result<Option<String>, DbError>)
    ensures
        rows::value_found(
            old(db)@,
            final(db)@,
            SQL_GOAL_TITLE_FOR_RUN@,
            seq![Datum::Text(session_id@), Datum::Text(run_id@)],
            r,
        ),
{
    find_value(db, SQL_GOAL_TITLE_FOR_RUN, params2(p_text(session_id), p_text(run_id)))
}

pub const SQL_INSERT_ACCEPTANCE: &'static str = "INSERT INTO acceptance_criteria
            (id, session_id, run_id, task_id, contract_id, scope, claim, verifier, evidence, status, waiver, created_at)
         VALUES (?1, ?2, ?3, ?4, ?5, ?6, ?7, ?8, ?9, ?10, ?11, ?12)";

/// Stores a criterion.
pub fn insert_acceptance(db: &mut Db, c: &AcceptanceCriterion) -> (r: Result<(), DbError>)
    ensures
        rows::executed(old(db)@, final(db)@, SQL_INSERT_ACCEPTANCE@, criterion_data(*c), r),
{
    run(db, SQL_INSERT_ACCEPTANCE, criterion_params(c))
}

pub const SQL_INSERT_ACCEPTANCE_IF_ABSENT: &'static str = "INSERT INTO acceptance_criteria
            (id, session_id, run_id, task_id, contract_id, scope, claim, verifier, evidence, status, waiver, created_at)
         VALUES (?1, ?2, ?3, ?4, ?5, ?6, ?7, ?8, ?9, ?10, ?11, ?12)
         ON CONFLICT(id) DO NOTHING";

/// Stores a criterion; one that is there already stays as it is.
pub fn insert_acceptance_if_absent(db: &mut Db, c: &AcceptanceCriterion) -> (r: Result<(), DbError>)
    ensures
        rows::executed(
            old(db)@,
            final(db)@,
            SQL_INSERT_ACCEPTANCE_IF_ABSENT@,
            criterion_data(*c),
            r,
        ),
{
    run(db, SQL_INSERT_ACCEPTANCE_IF_ABSENT, criterion_params(c))
}

pub const SQL_LIST_ACCEPTANCE_BY_RUN: &'static str = "SELECT id, session_id, run_id, task_id, contract_id, scope, claim, verifier, evidence, status, waiver, created_at
         FROM acceptance_criteria
         WHERE session_id = ?1 AND run_id = ?2
         ORDER BY created_at ASC, id ASC";

/// The criteria of a run, oldest first.
pub fn list_acceptance_by_run(
    db: &mut Db,
    session_id: &str,
    run_id: &str,
) -> (r: Result<Vec<AcceptanceCriterion>, DbError>)
    ensures
        rows::listed(
            old(db)@,
            final(db)@,
            SQL_LIST_ACCEPTANCE_BY_RUN@,
            seq![Datum::Text(session_id@), Datum::Text(run_id@)],
            r,
        ),
{
    list(db, SQL_LIST_ACCEPTANCE_BY_RUN, params2(p_text(session_id), p_text(run_id)))
}

pub const SQL_FREEZE_CONTRACT: &'static str = "UPDATE goal_contracts
            SET goal = ?3, assignments_json = ?4, status = 'frozen'
            WHERE session_id = ?1 AND run_id = ?2 AND status = 'draft'";

pub const SQL_DELETE_ACCEPTANCE: &'static str = "DELETE FROM acceptance_criteria WHERE session_id = ?1 AND run_id = ?2";

/// The statements that replace the criteria of a run.
pub open spec fn replacement(
    session_id: Seq<char>,
    run_id: Seq<char>,
    criteria: Seq<AcceptanceCriterion>,
) -> Seq<Request> {
    seq![
        Request::Execute {
            sql: SQL_DELETE_ACCEPTANCE@,
            params: seq![Datum::Text(session_id), Datum::Text(run_id)],
        },
    ] + criteria.map_values(
        |c: AcceptanceCriterion|
            Request::Execute { sql: SQL_INSERT_ACCEPTANCE@, params: criterion_data(c) },
    )
}

/// The draft contract of a run was frozen.
pub open spec fn draft_frozen(
    pre: Trace,
    post: Trace,
    session_id: Seq<char>,
    run_id: Seq<char>,
    goal: Seq<char>,
    assignments_json: Seq<char>,
    r: Result<(), DbError>,
) -> bool {
    rows::changed_one(
        pre,
        post,
        SQL_FREEZE_CONTRACT@,
        seq![
            Datum::Text(session_id),
            Datum::Text(run_id),
            Datum::Text(goal),
            Datum::Text(assignments_json),
        ],
        r,
    )
}

/// The criteria of a run were replaced, where its contract was frozen.
pub open spec fn criteria_replaced(
    mid: Trace,
    post: Trace,
    session_id: Seq<char>,
    run_id: Seq<char>,
    criteria: Seq<AcceptanceCriterion>,
    update: Result<(), DbError>,
    r: Result<(), DbError>,
) -> bool {
    match update {
        Ok(()) => tx::scripted(mid, post, replacement(session_id, run_id, criteria), r),
        Err(e) => post == mid && r == update,
    }
}

/// The contract of a run was frozen and, only where it was one draft, its criteria replaced.
pub open spec fn frozen(
    pre: Trace,
    post: Trace,
    session_id: Seq<char>,
    run_id: Seq<char>,
    goal: Seq<char>,
    assignments_json: Seq<char>,
    criteria: Seq<AcceptanceCriterion>,
    r: Result<(), DbError>,
) -> bool {
    exists|mid: Trace, update: Result<(), DbError>|
        {
            &&& #[trigger] draft_frozen(
                pre,
                mid,
                session_id,
                run_id,
                goal,
                assignments_json,
                update,
            )
            &&& criteria_replaced(mid, post, session_id, run_id, criteria, update, r)
        }
}

fn freeze_in_transaction(
    db: &mut Db,
    session_id: &str,
    run_id: &str,
    goal: &str,
    assignments_json: &str,
    criteria: &[AcceptanceCriterion],
) -> (r: Result<(), DbError>)
    ensures
        frozen(
            old(db)@,
            final(db)@,
            session_id@,
            run_id@,
            goal@,
            assignments_json@,
            criteria@,
            r,
        ),
{
    let update = run_changed_one(
        db,
        SQL_FREEZE_CONTRACT,
        params4(p_text(session_id), p_text(run_id), p_text(goal), p_text(assignments_json)),
    );
    assert(draft_frozen(
        old(db)@,
        db@,
        session_id@,
        run_id@,
        goal@,
        assignments_json@,
        update,
    ));
    match update {
        Ok(()) => {},
        Err(e) => return Err(e),
    }
    let mut script: Vec<Statement> = Vec::new();
    script.push(statement(SQL_DELETE_ACCEPTANCE, params2(p_text(session_id), p_text(run_id))));
    let ghost wanted = replacement(session_id@, run_id@, criteria@);
    let mut i: usize = 0;
    while i < criteria.len()
        invariant
            i <= criteria@.len(),
            wanted == replacement(session_id@, run_id@, criteria@),
            tx::requests(script@) == wanted.take(i + 1),
        decreases criteria.len() - i,
    {
        let ghost was = script@;
        script.push(statement(SQL_INSERT_ACCEPTANCE, criterion_params(&criteria[i])));
        assert(tx::requests(script@) =~= tx::requests(was).push(script@.last()@));
        assert(wanted.take(i + 2) =~= wanted.take(i + 1).push(wanted[i + 1]));
        i += 1;
    }
    assert(wanted.take(i + 1) =~= wanted);
    run_script(db, script)
}

/// Freezes the draft contract of a run with its final goal and assignments, and replaces the
/// run's criteria, all in one transaction. Where there is no draft nothing is replaced and the
/// result is `NoRows`: a frozen contract does not change any more.
pub fn freeze_team_contract(
    db: &mut Db,
    session_id: &str,
    run_id: &str,
    goal: &str,
    assignments_json: &str,
    criteria: &[AcceptanceCriterion],
) -> (r: Result<(), DbError>)
    ensures
        tx::transacted(
            old(db)@,
            final(db)@,
            |a: Trace, b: Trace, x: Result<(), DbError>|
                frozen(
                    a,
                    b,
                    session_id@,
                    run_id@,
                    goal@,
                    assignments_json@,
                    criteria@,
                    x,
                ),
            r,
        ),
{
    match begin(db) {
        Ok(()) => {},
        Err(e) => return Err(e),
    }
    let ghost opened = db@;
    let ghost body = |a: Trace, b: Trace, x: Result<(), DbError>|
        frozen(a, b, session_id@, run_id@, goal@, assignments_json@, criteria@, x);
    let inner = freeze_in_transaction(db, session_id, run_id, goal, assignments_json, criteria);
    assert(body(opened, db@, inner));
    finish(db, inner)
}

/// A contract that is no draft is refused: where the update did not change exactly one row, it is
/// the only statement of the body and the result is an error.
pub proof fn law_only_a_draft_freezes(
    pre: Trace,
    post: Trace,
    session_id: Seq<char>,
    run_id: Seq<char>,
    goal: Seq<char>,
    assignments_json: Seq<char>,
    criteria: Seq<AcceptanceCriterion>,
    r: Result<(), DbError>,
)
    requires
        frozen(pre, post, session_id, run_id, goal, assignments_json, criteria, r),
    ensures
        post.len() > pre.len(),
        r is Ok ==> (post[pre.len() as int] matches Step::Asked { reply, .. } && reply
            == Reply::Changed(1)),
        !(post[pre.len() as int] matches Step::Asked { reply, .. } && reply == Reply::Changed(1))
            ==> r is Err && post.len() == pre.len() + 1,
        r is Ok ==> post.len() == pre.len() + 2 + criteria.len(),
{
    let (mid, update) = choose|mid: Trace, update: Result<(), DbError>|
        {
            &&& #[trigger] draft_frozen(
                pre,
                mid,
                session_id,
                run_id,
                goal,
                assignments_json,
                update,
            )
            &&& criteria_replaced(mid, post, session_id, run_id, criteria, update, r)
        };
    assert(mid[pre.len() as int] == mid.last());
    if update is Ok {
        assert(post.take(mid.len() as int)[pre.len() as int] == mid[pre.len() as int]);
    }
}

pub const SQL_UPDATE_ACCEPTANCE_WAIVER: &'static str = "UPDATE acceptance_criteria SET status='waived', waiver=?1
         WHERE id=?2 AND session_id=?3 AND run_id=?4";

/// Waives a criterion, with the reason.
pub fn update_acceptance_waiver(
    db: &mut Db,
    session_id: &str,
    run_id: &str,
    criterion_id: &str,
    reason: &str,
) -> (r: Result<(), DbError>)
    ensures
        rows::executed(
            old(db)@,
            final(db)@,
            SQL_UPDATE_ACCEPTANCE_WAIVER@,
            seq![
                Datum::Text(reason@),
                Datum::Text(criterion_id@),
                Datum::Text(session_id@),
                Datum::Text(run_id@),
            ],
            r,
        ),
{
    run(
        db,
        SQL_UPDATE_ACCEPTANCE_WAIVER,
        params4(p_text(reason), p_text(criterion_id), p_text(session_id), p_text(run_id)),
    )
}

} // verus!
