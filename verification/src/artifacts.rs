//! What runs produce: artifacts, their verifications and merges, and what landed.
use vstd::prelude::*;

use crate::engine::{Cell, Datum, Db, DbError};
use crate::events;
use crate::rows::{
    self,
    find,
    int_at,
    list,
    opt_int_at,
    opt_text_at,
    p_int,
    p_opt,
    p_opt_int,
    p_opt_text,
    p_text,
    params0,
    params1,
    params10,
    params11,
    params2,
    params3,
    params4,
    params6,
    params8,
    reads_in_order,
    run,
    text_at,
    FromRow,
    Kind,
    Read,
};

verus! {

/// What a member's work was committed as.
#[derive(Debug, Clone)]
pub struct Artifact {
    pub id: String,
    pub session_id: String,
    pub run_id: String,
    pub member_assignment_id: String,
    pub branch: String,
    pub base_sha: String,
    pub commit_sha: Option<String>,
    pub files_changed: i64,
    /// `finalizing`, `ready`, `merged` or `discarded`.
    pub state: String,
    pub created_at: i64,
}

impl FromRow for Artifact {
    open spec fn reads() -> Seq<Read> {
        rows::in_order(seq![
            Kind::Text,
            Kind::Text,
            Kind::Text,
            Kind::Text,
            Kind::Text,
            Kind::Text,
            Kind::OptText,
            Kind::Int,
            Kind::Text,
            Kind::Int,
        ])
    }

    open spec fn is_row(self, row: Seq<Datum>) -> bool {
        &&& row[0] == Datum::Text(self.id@)
        &&& row[1] == Datum::Text(self.session_id@)
        &&& row[2] == Datum::Text(self.run_id@)
        &&& row[3] == Datum::Text(self.member_assignment_id@)
        &&& row[4] == Datum::Text(self.branch@)
        &&& row[5] == Datum::Text(self.base_sha@)
        &&& row[6] == rows::opt_text(events::opt(self.commit_sha))
        &&& row[7] == Datum::Integer(self.files_changed)
        &&& row[8] == Datum::Text(self.state@)
        &&& row[9] == Datum::Integer(self.created_at)
    }

    fn layout() -> (reads: Vec<Read>) {
        let kinds = vec![
            Kind::Text,
            Kind::Text,
            Kind::Text,
            Kind::Text,
            Kind::Text,
            Kind::Text,
            Kind::OptText,
            Kind::Int,
            Kind::Text,
            Kind::Int,
        ];
        assert(rows::in_order(kinds@) =~= Self::reads());
        reads_in_order(kinds)
    }

    fn from_row(row: &Vec<Cell>) -> (v: Self) {
        proof {
            rows::lemma_cells(row@, Self::reads());
        }
        Artifact {
            id: text_at(row, 0),
            session_id: text_at(row, 1),
            run_id: text_at(row, 2),
            member_assignment_id: text_at(row, 3),
            branch: text_at(row, 4),
            base_sha: text_at(row, 5),
            commit_sha: opt_text_at(row, 6),
            files_changed: int_at(row, 7),
            state: text_at(row, 8),
            created_at: int_at(row, 9),
        }
    }
}

pub const SQL_INSERT_ARTIFACT: &'static str = "INSERT INTO artifacts (id, session_id, run_id, member_assignment_id, branch, base_sha, commit_sha, files_changed, state, created_at) VALUES (?1,?2,?3,?4,?5,?6,?7,?8,?9,?10)";

/// Stores an artifact.
pub fn insert_artifact(db: &mut Db, a: &Artifact) -> (r: Result<(), DbError>)
    ensures
        rows::executed(
            old(db)@,
            final(db)@,
            SQL_INSERT_ARTIFACT@,
            seq![
                Datum::Text(a.id@),
                Datum::Text(a.session_id@),
                Datum::Text(a.run_id@),
                Datum::Text(a.member_assignment_id@),
                Datum::Text(a.branch@),
                Datum::Text(a.base_sha@),
                rows::opt_text(events::opt(a.commit_sha)),
                Datum::Integer(a.files_changed),
                Datum::Text(a.state@),
                Datum::Integer(a.created_at),
            ],
            r,
        ),
{
    run(
        db,
        SQL_INSERT_ARTIFACT,
        params10(
            p_text(a.id.as_str()),
            p_text(a.session_id.as_str()),
            p_text(a.run_id.as_str()),
            p_text(a.member_assignment_id.as_str()),
            p_text(a.branch.as_str()),
            p_text(a.base_sha.as_str()),
            p_opt(&a.commit_sha),
            p_int(a.files_changed),
            p_text(a.state.as_str()),
            p_int(a.created_at),
        ),
    )
}

pub const SQL_GET_ARTIFACT: &'static str = "SELECT id, session_id, run_id, member_assignment_id, branch, base_sha, commit_sha, files_changed, state, created_at FROM artifacts WHERE id = ?1";

/// An artifact, if there is one.
pub fn get_artifact(db: &mut Db, id: &str) -> (r: Result<Option<Artifact>, DbError>)
    ensures
        rows::found(old(db)@, final(db)@, SQL_GET_ARTIFACT@, seq![Datum::Text(id@)], r),
{
    find(db, SQL_GET_ARTIFACT, params1(p_text(id)))
}

pub const SQL_SET_ARTIFACT_STATE: &'static str = "UPDATE artifacts SET state = ?2, \
         commit_sha = COALESCE(?3, commit_sha), \
         files_changed = COALESCE(?4, files_changed) \
         WHERE id = ?1";

/// Sets the state of an artifact; its commit and its number of files only where they are given.
pub fn set_artifact_state(
    db: &mut Db,
    id: &str,
    state: &str,
    commit_sha: Option<&str>,
    files_changed: Option<i64>,
) -> (r: Result<(), DbError>)
    ensures
        rows::executed(
            old(db)@,
            final(db)@,
            SQL_SET_ARTIFACT_STATE@,
            seq![
                Datum::Text(id@),
                Datum::Text(state@),
                rows::opt_text(events::opt_str(commit_sha)),
                rows::opt_int(files_changed),
            ],
            r,
        ),
{
    run(
        db,
        SQL_SET_ARTIFACT_STATE,
        params4(p_text(id), p_text(state), p_opt_text(commit_sha), p_opt_int(files_changed)),
    )
}

pub const SQL_LIST_FINALIZING_ARTIFACTS: &'static str = "SELECT id, session_id, run_id, member_assignment_id, branch, base_sha, commit_sha, files_changed, state, created_at FROM artifacts WHERE state = 'finalizing' ORDER BY id";

/// The artifacts that were being finalized.
pub fn list_finalizing_artifacts(db: &mut Db) -> (r: Result<Vec<Artifact>, DbError>)
    ensures
        rows::listed(
            old(db)@,
            final(db)@,
            SQL_LIST_FINALIZING_ARTIFACTS@,
            Seq::<Datum>::empty(),
            r,
        ),
{
    list(db, SQL_LIST_FINALIZING_ARTIFACTS, params0())
}

/// The artifacts that were being finalized when the application ended; what their members worked on
/// has to be kept.
pub fn recover_finalizing_artifacts(db: &mut Db) -> (r: Result<Vec<Artifact>, DbError>)
    ensures
        rows::listed(
            old(db)@,
            final(db)@,
            SQL_LIST_FINALIZING_ARTIFACTS@,
            Seq::<Datum>::empty(),
            r,
        ),
{
    list(db, SQL_LIST_FINALIZING_ARTIFACTS, params0())
}

pub const SQL_GET_ARTIFACT_BY_MEMBER: &'static str = "SELECT id, session_id, run_id, member_assignment_id, branch, base_sha, commit_sha, files_changed, state, created_at FROM artifacts \
         WHERE session_id = ?1 AND run_id = ?2 AND member_assignment_id = ?3";

/// The artifact of a member in a run, if there is one.
pub fn get_artifact_by_member(
    db: &mut Db,
    session_id: &str,
    run_id: &str,
    member_assignment_id: &str,
) -> (r: Result<Option<Artifact>, DbError>)
    ensures
        rows::found(
            old(db)@,
            final(db)@,
            SQL_GET_ARTIFACT_BY_MEMBER@,
            seq![
                Datum::Text(session_id@),
                Datum::Text(run_id@),
                Datum::Text(member_assignment_id@),
            ],
            r,
        ),
{
    find(
        db,
        SQL_GET_ARTIFACT_BY_MEMBER,
        params3(p_text(session_id), p_text(run_id), p_text(member_assignment_id)),
    )
}

pub const SQL_MERGED_ARTIFACT_FOR_RUN: &'static str = "SELECT id, session_id, run_id, member_assignment_id, branch, base_sha, commit_sha, files_changed, state, created_at FROM artifacts \
         WHERE session_id = ?1 AND run_id = ?2 AND state = 'merged' \
         ORDER BY created_at DESC LIMIT 1";

/// The latest artifact of a run that was merged, if there is one.
pub fn merged_artifact_for_run(
    db: &mut Db,
    session_id: &str,
    run_id: &str,
) -> (r: Result<Option<Artifact>, DbError>)
    ensures
        rows::found(
            old(db)@,
            final(db)@,
            SQL_MERGED_ARTIFACT_FOR_RUN@,
            seq![Datum::Text(session_id@), Datum::Text(run_id@)],
            r,
        ),
{
    find(db, SQL_MERGED_ARTIFACT_FOR_RUN, params2(p_text(session_id), p_text(run_id)))
}

/// A run that landed on the user's branch.
#[derive(Debug, Clone)]
pub struct LandingCommit {
    pub id: String,
    pub session_id: String,
    pub run_id: String,
    pub artifact_id: Option<String>,
    pub pre_head: String,
    pub landed_head: String,
    pub commit_count: i64,
    pub files_changed: i64,
    pub insertions: i64,
    pub deletions: i64,
    pub created_at: i64,
}

impl FromRow for LandingCommit {
    open spec fn reads() -> Seq<Read> {
        rows::in_order(seq![
            Kind::Text,
            Kind::Text,
            Kind::Text,
            Kind::OptText,
            Kind::Text,
            Kind::Text,
            Kind::Int,
            Kind::Int,
            Kind::Int,
            Kind::Int,
            Kind::Int,
        ])
    }

    open spec fn is_row(self, row: Seq<Datum>) -> bool {
        &&& row[0] == Datum::Text(self.id@)
        &&& row[1] == Datum::Text(self.session_id@)
        &&& row[2] == Datum::Text(self.run_id@)
        &&& row[3] == rows::opt_text(events::opt(self.artifact_id))
        &&& row[4] == Datum::Text(self.pre_head@)
        &&& row[5] == Datum::Text(self.landed_head@)
        &&& row[6] == Datum::Integer(self.commit_count)
        &&& row[7] == Datum::Integer(self.files_changed)
        &&& row[8] == Datum::Integer(self.insertions)
        &&& row[9] == Datum::Integer(self.deletions)
        &&& row[10] == Datum::Integer(self.created_at)
    }

    fn layout() -> (reads: Vec<Read>) {
        let kinds = vec![
            Kind::Text,
            Kind::Text,
            Kind::Text,
            Kind::OptText,
            Kind::Text,
            Kind::Text,
            Kind::Int,
            Kind::Int,
            Kind::Int,
            Kind::Int,
            Kind::Int,
        ];
        assert(rows::in_order(kinds@) =~= Self::reads());
        reads_in_order(kinds)
    }

    fn from_row(row: &Vec<Cell>) -> (v: Self) {
        proof {
            rows::lemma_cells(row@, Self::reads());
        }
        LandingCommit {
            id: text_at(row, 0),
            session_id: text_at(row, 1),
            run_id: text_at(row, 2),
            artifact_id: opt_text_at(row, 3),
            pre_head: text_at(row, 4),
            landed_head: text_at(row, 5),
            commit_count: int_at(row, 6),
            files_changed: int_at(row, 7),
            insertions: int_at(row, 8),
            deletions: int_at(row, 9),
            created_at: int_at(row, 10),
        }
    }
}

pub const SQL_INSERT_LANDING_COMMIT: &'static str = "INSERT OR IGNORE INTO landing_commits \
         (id, session_id, run_id, artifact_id, pre_head, landed_head, commit_count, files_changed, insertions, deletions, created_at) \
         VALUES (?1,?2,?3,?4,?5,?6,?7,?8,?9,?10,?11)";

/// Stores a landing; one that is there already stays as it is.
pub fn insert_landing_commit(db: &mut Db, l: &LandingCommit) -> (r: Result<(), DbError>)
    ensures
        rows::executed(
            old(db)@,
            final(db)@,
            SQL_INSERT_LANDING_COMMIT@,
            seq![
                Datum::Text(l.id@),
                Datum::Text(l.session_id@),
                Datum::Text(l.run_id@),
                rows::opt_text(events::opt(l.artifact_id)),
                Datum::Text(l.pre_head@),
                Datum::Text(l.landed_head@),
                Datum::Integer(l.commit_count),
                Datum::Integer(l.files_changed),
                Datum::Integer(l.insertions),
                Datum::Integer(l.deletions),
                Datum::Integer(l.created_at),
            ],
            r,
        ),
{
    run(
        db,
        SQL_INSERT_LANDING_COMMIT,
        params11(
            p_text(l.id.as_str()),
            p_text(l.session_id.as_str()),
            p_text(l.run_id.as_str()),
            p_opt(&l.artifact_id),
            p_text(l.pre_head.as_str()),
            p_text(l.landed_head.as_str()),
            p_int(l.commit_count),
            p_int(l.files_changed),
            p_int(l.insertions),
            p_int(l.deletions),
            p_int(l.created_at),
        ),
    )
}

pub const SQL_LATEST_LANDING_COMMIT: &'static str = "SELECT id, session_id, run_id, artifact_id, pre_head, landed_head, \
     commit_count, files_changed, insertions, deletions, created_at FROM landing_commits \
         WHERE session_id = ?1 AND run_id = ?2 ORDER BY id DESC LIMIT 1";

/// The latest landing of a run, if there is one.
pub fn latest_landing_commit(
    db: &mut Db,
    session_id: &str,
    run_id: &str,
) -> (r: Result<Option<LandingCommit>, DbError>)
    ensures
        rows::found(
            old(db)@,
            final(db)@,
            SQL_LATEST_LANDING_COMMIT@,
            seq![Datum::Text(session_id@), Datum::Text(run_id@)],
            r,
        ),
{
    find(db, SQL_LATEST_LANDING_COMMIT, params2(p_text(session_id), p_text(run_id)))
}

pub const SQL_EARLIEST_LANDING_PRE_HEAD_FOR_SESSION: &'static str = "SELECT pre_head FROM landing_commits \
         WHERE session_id = ?1 ORDER BY created_at ASC, rowid ASC LIMIT 1";

/// What the first landing of a session started from, if there is one.
pub fn earliest_landing_pre_head_for_session(
    db: &mut Db,
    session_id: &str,
) -> (r: Result<Option<String>, DbError>)
    ensures
        rows::found(
            old(db)@,
            final(db)@,
            SQL_EARLIEST_LANDING_PRE_HEAD_FOR_SESSION@,
            seq![Datum::Text(session_id@)],
            r,
        ),
{
    find(db, SQL_EARLIEST_LANDING_PRE_HEAD_FOR_SESSION, params1(p_text(session_id)))
}

pub const SQL_LANDING_COMMIT_RANGES_FOR_SESSION: &'static str = "SELECT pre_head, landed_head FROM landing_commits \
         WHERE session_id = ?1 ORDER BY rowid ASC";

/// What the landings of a session started from and led to, in order.
pub fn landing_commit_ranges_for_session(
    db: &mut Db,
    session_id: &str,
) -> (r: Result<Vec<(String, String)>, DbError>)
    ensures
        rows::listed(
            old(db)@,
            final(db)@,
            SQL_LANDING_COMMIT_RANGES_FOR_SESSION@,
            seq![Datum::Text(session_id@)],
            r,
        ),
{
    list(db, SQL_LANDING_COMMIT_RANGES_FOR_SESSION, params1(p_text(session_id)))
}

impl FromRow for (String, String, String) {
    open spec fn reads() -> Seq<Read> {
        rows::in_order(seq![Kind::Text, Kind::Text, Kind::Text])
    }

    open spec fn is_row(self, row: Seq<Datum>) -> bool {
        &&& row[0] == Datum::Text(self.0@)
        &&& row[1] == Datum::Text(self.1@)
        &&& row[2] == Datum::Text(self.2@)
    }

    fn layout() -> (reads: Vec<Read>) {
        let kinds = vec![Kind::Text, Kind::Text, Kind::Text];
        assert(rows::in_order(kinds@) =~= Self::reads());
        reads_in_order(kinds)
    }

    fn from_row(row: &Vec<Cell>) -> (v: Self) {
        proof {
            rows::lemma_cells(row@, Self::reads());
        }
        (text_at(row, 0), text_at(row, 1), text_at(row, 2))
    }
}

pub const SQL_LATEST_STAGED_UNLANDED_RUN: &'static str = "SELECT a.run_id, a.base_sha, mc.merged_sha \
         FROM artifacts a \
         JOIN merge_candidates mc ON mc.artifact_id = a.id \
         LEFT JOIN landing_commits lc ON lc.session_id = a.session_id AND lc.run_id = a.run_id \
         WHERE a.session_id = ?1 \
           AND a.state = 'merged' \
           AND mc.state = 'merged' \
           AND mc.merged_sha IS NOT NULL \
           AND lc.id IS NULL \
         ORDER BY a.created_at DESC LIMIT 1";

/// The latest run of a session that was merged and has not landed: its id, what it started from and
/// what it was merged as.
pub fn latest_staged_unlanded_run(
    db: &mut Db,
    session_id: &str,
) -> (r: Result<Option<(String, String, String)>, DbError>)
    ensures
        rows::found(
            old(db)@,
            final(db)@,
            SQL_LATEST_STAGED_UNLANDED_RUN@,
            seq![Datum::Text(session_id@)],
            r,
        ),
{
    find(db, SQL_LATEST_STAGED_UNLANDED_RUN, params1(p_text(session_id)))
}

/// A check of an artifact by a command.
#[derive(Debug, Clone)]
pub struct Verification {
    pub id: String,
    pub artifact_id: String,
    pub cmd: String,
    pub artifact_sha: String,
    pub exit_code: Option<i64>,
    pub output_ref: Option<String>,
    /// `pending`, `passed` or `failed`.
    pub verdict: String,
    pub created_at: i64,
}

impl FromRow for Verification {
    open spec fn reads() -> Seq<Read> {
        rows::in_order(seq![
            Kind::Text,
            Kind::Text,
            Kind::Text,
            Kind::Text,
            Kind::OptInt,
            Kind::OptText,
            Kind::Text,
            Kind::Int,
        ])
    }

    open spec fn is_row(self, row: Seq<Datum>) -> bool {
        &&& row[0] == Datum::Text(self.id@)
        &&& row[1] == Datum::Text(self.artifact_id@)
        &&& row[2] == Datum::Text(self.cmd@)
        &&& row[3] == Datum::Text(self.artifact_sha@)
        &&& row[4] == rows::opt_int(self.exit_code)
        &&& row[5] == rows::opt_text(events::opt(self.output_ref))
        &&& row[6] == Datum::Text(self.verdict@)
        &&& row[7] == Datum::Integer(self.created_at)
    }

    fn layout() -> (reads: Vec<Read>) {
        let kinds = vec![
            Kind::Text,
            Kind::Text,
            Kind::Text,
            Kind::Text,
            Kind::OptInt,
            Kind::OptText,
            Kind::Text,
            Kind::Int,
        ];
        assert(rows::in_order(kinds@) =~= Self::reads());
        reads_in_order(kinds)
    }

    fn from_row(row: &Vec<Cell>) -> (v: Self) {
        proof {
            rows::lemma_cells(row@, Self::reads());
        }
        Verification {
            id: text_at(row, 0),
            artifact_id: text_at(row, 1),
            cmd: text_at(row, 2),
            artifact_sha: text_at(row, 3),
            exit_code: opt_int_at(row, 4),
            output_ref: opt_text_at(row, 5),
            verdict: text_at(row, 6),
            created_at: int_at(row, 7),
        }
    }
}

pub const SQL_INSERT_VERIFICATION: &'static str = "INSERT INTO verifications (id, artifact_id, cmd, artifact_sha, exit_code, output_ref, verdict, created_at) VALUES (?1,?2,?3,?4,?5,?6,?7,?8)";

/// Stores a verification.
pub fn insert_verification(db: &mut Db, v: &Verification) -> (r: Result<(), DbError>)
    ensures
        rows::executed(
            old(db)@,
            final(db)@,
            SQL_INSERT_VERIFICATION@,
            seq![
                Datum::Text(v.id@),
                Datum::Text(v.artifact_id@),
                Datum::Text(v.cmd@),
                Datum::Text(v.artifact_sha@),
                rows::opt_int(v.exit_code),
                rows::opt_text(events::opt(v.output_ref)),
                Datum::Text(v.verdict@),
                Datum::Integer(v.created_at),
            ],
            r,
        ),
{
    run(
        db,
        SQL_INSERT_VERIFICATION,
        params8(
            p_text(v.id.as_str()),
            p_text(v.artifact_id.as_str()),
            p_text(v.cmd.as_str()),
            p_text(v.artifact_sha.as_str()),
            p_opt_int(v.exit_code),
            p_opt(&v.output_ref),
            p_text(v.verdict.as_str()),
            p_int(v.created_at),
        ),
    )
}

pub const SQL_GET_VERIFICATION: &'static str = "SELECT id, artifact_id, cmd, artifact_sha, exit_code, output_ref, verdict, created_at FROM verifications WHERE id = ?1";

/// A verification, if there is one.
pub fn get_verification(db: &mut Db, id: &str) -> (r: Result<Option<Verification>, DbError>)
    ensures
        rows::found(old(db)@, final(db)@, SQL_GET_VERIFICATION@, seq![Datum::Text(id@)], r),
{
    find(db, SQL_GET_VERIFICATION, params1(p_text(id)))
}

pub const SQL_LIST_VERIFICATIONS_FOR_ARTIFACT: &'static str = "SELECT id, artifact_id, cmd, artifact_sha, exit_code, output_ref, verdict, created_at FROM verifications \
         WHERE artifact_id = ?1 ORDER BY created_at, id";

/// The verifications of an artifact, oldest first.
pub fn list_verifications_for_artifact(
    db: &mut Db,
    artifact_id: &str,
) -> (r: Result<Vec<Verification>, DbError>)
    ensures
        rows::listed(
            old(db)@,
            final(db)@,
            SQL_LIST_VERIFICATIONS_FOR_ARTIFACT@,
            seq![Datum::Text(artifact_id@)],
            r,
        ),
{
    list(db, SQL_LIST_VERIFICATIONS_FOR_ARTIFACT, params1(p_text(artifact_id)))
}

pub const SQL_LATEST_VERDICT_FOR_ARTIFACT: &'static str = "SELECT verdict FROM verifications WHERE artifact_id = ?1 \
         ORDER BY created_at DESC, id DESC LIMIT 1";

/// The verdict of the latest verification of an artifact, if there is one.
pub fn latest_verdict_for_artifact(
    db: &mut Db,
    artifact_id: &str,
) -> (r: Result<Option<String>, DbError>)
    ensures
        rows::found(
            old(db)@,
            final(db)@,
            SQL_LATEST_VERDICT_FOR_ARTIFACT@,
            seq![Datum::Text(artifact_id@)],
            r,
        ),
{
    find(db, SQL_LATEST_VERDICT_FOR_ARTIFACT, params1(p_text(artifact_id)))
}

/// An artifact that is to be merged into the branch of its run.
#[derive(Debug, Clone)]
pub struct MergeCandidate {
    pub id: String,
    pub artifact_id: String,
    pub staging_branch: String,
    /// `pending`, `merged` or `rejected`.
    pub state: String,
    pub merged_sha: Option<String>,
    pub created_at: i64,
}

impl FromRow for MergeCandidate {
    open spec fn reads() -> Seq<Read> {
        rows::in_order(seq![
            Kind::Text,
            Kind::Text,
            Kind::Text,
            Kind::Text,
            Kind::OptText,
            Kind::Int,
        ])
    }

    open spec fn is_row(self, row: Seq<Datum>) -> bool {
        &&& row[0] == Datum::Text(self.id@)
        &&& row[1] == Datum::Text(self.artifact_id@)
        &&& row[2] == Datum::Text(self.staging_branch@)
        &&& row[3] == Datum::Text(self.state@)
        &&& row[4] == rows::opt_text(events::opt(self.merged_sha))
        &&& row[5] == Datum::Integer(self.created_at)
    }

    fn layout() -> (reads: Vec<Read>) {
        let kinds = vec![
            Kind::Text,
            Kind::Text,
            Kind::Text,
            Kind::Text,
            Kind::OptText,
            Kind::Int,
        ];
        assert(rows::in_order(kinds@) =~= Self::reads());
        reads_in_order(kinds)
    }

    fn from_row(row: &Vec<Cell>) -> (v: Self) {
        proof {
            rows::lemma_cells(row@, Self::reads());
        }
        MergeCandidate {
            id: text_at(row, 0),
            artifact_id: text_at(row, 1),
            staging_branch: text_at(row, 2),
            state: text_at(row, 3),
            merged_sha: opt_text_at(row, 4),
            created_at: int_at(row, 5),
        }
    }
}

pub const SQL_GET_MERGE_CANDIDATE_BY_ARTIFACT: &'static str = "SELECT id, artifact_id, staging_branch, state, merged_sha, created_at FROM merge_candidates WHERE artifact_id = ?1";

/// The merge candidate of an artifact, if there is one.
pub fn get_merge_candidate_by_artifact(
    db: &mut Db,
    artifact_id: &str,
) -> (r: Result<Option<MergeCandidate>, DbError>)
    ensures
        rows::found(
            old(db)@,
            final(db)@,
            SQL_GET_MERGE_CANDIDATE_BY_ARTIFACT@,
            seq![Datum::Text(artifact_id@)],
            r,
        ),
{
    find(db, SQL_GET_MERGE_CANDIDATE_BY_ARTIFACT, params1(p_text(artifact_id)))
}

pub const SQL_UPSERT_MERGE_CANDIDATE: &'static str = "INSERT INTO merge_candidates (id, artifact_id, staging_branch, state, merged_sha, created_at) VALUES (?1,?2,?3,?4,?5,?6) \
             ON CONFLICT(artifact_id) DO UPDATE SET \
             state = excluded.state, merged_sha = excluded.merged_sha, \
             staging_branch = excluded.staging_branch";

/// Stores a merge candidate; the one that its artifact has keeps its id and its time.
pub fn upsert_merge_candidate(db: &mut Db, m: &MergeCandidate) -> (r: Result<(), DbError>)
    ensures
        rows::executed(
            old(db)@,
            final(db)@,
            SQL_UPSERT_MERGE_CANDIDATE@,
            seq![
                Datum::Text(m.id@),
                Datum::Text(m.artifact_id@),
                Datum::Text(m.staging_branch@),
                Datum::Text(m.state@),
                rows::opt_text(events::opt(m.merged_sha)),
                Datum::Integer(m.created_at),
            ],
            r,
        ),
{
    run(
        db,
        SQL_UPSERT_MERGE_CANDIDATE,
        params6(
            p_text(m.id.as_str()),
            p_text(m.artifact_id.as_str()),
            p_text(m.staging_branch.as_str()),
            p_text(m.state.as_str()),
            p_opt(&m.merged_sha),
            p_int(m.created_at),
        ),
    )
}

pub const SQL_LATEST_VERIFICATION_FOR_ARTIFACT: &'static str = "SELECT id, artifact_id, cmd, artifact_sha, exit_code, output_ref, verdict, created_at FROM verifications WHERE artifact_id = ?1 \
         ORDER BY created_at DESC, id DESC LIMIT 1";

/// The latest verification of an artifact, if there is one.
pub fn latest_verification_for_artifact(
    db: &mut Db,
    artifact_id: &str,
) -> (r: Result<Option<Verification>, DbError>)
    ensures
        rows::found(
            old(db)@,
            final(db)@,
            SQL_LATEST_VERIFICATION_FOR_ARTIFACT@,
            seq![Datum::Text(artifact_id@)],
            r,
        ),
{
    find(db, SQL_LATEST_VERIFICATION_FOR_ARTIFACT, params1(p_text(artifact_id)))
}

} // verus!
