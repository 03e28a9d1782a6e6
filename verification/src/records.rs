//! Which column of a row each part of a record is read from.
use crate::agents::AgentProfile;
use crate::artifacts::{Artifact, LandingCommit, MergeCandidate, Verification};
use crate::contracts::{AcceptanceCriterion, GoalContract};
use crate::documents::GeneratedRepoDocument;
use crate::index::{ReplayRow, SessionHistoryRow, SessionRuntimeReplayRow, SnapshotRow};
use crate::lead::LeadLoopState;
use crate::memory::{DecisionRow, MemoryBlock, MemoryEntry};
use crate::messages::MessageRow;
use crate::remote::{RemoteDeviceRow, RemoteInboxEntry, RemoteRefreshJournal};
use crate::runs::{RecentActivityDay, RunCommitIntent, RunCommitRow, RunLifecycle, TeamRunPendingRow};
use crate::runtime::SessionRuntime;
use crate::changes::datum_of;
use crate::engine::Datum;
use crate::events;
use crate::rows::{FromRow, Read};
use vstd::prelude::*;

verus! {

/// Whether the value that is read at a place is that of the column with a name.
pub open spec fn is_named(columns: Seq<Seq<char>>, reads: Seq<Read>, name: Seq<char>, k: int) -> bool {
    &&& 0 <= k < reads.len()
    &&& reads[k].index < columns.len()
    &&& columns[reads[k].index as int] == name
}

/// Whether a row holds a value in the column with a name.
pub open spec fn holds(
    columns: Seq<Seq<char>>,
    reads: Seq<Read>,
    row: Seq<Datum>,
    name: Seq<char>,
    value: Datum,
) -> bool {
    exists|k: int| #[trigger] is_named(columns, reads, name, k) && row[k] == value
}

/// Whether a row holds a flag in the column with a name: any integer but zero sets it.
pub open spec fn holds_flag(
    columns: Seq<Seq<char>>,
    reads: Seq<Read>,
    row: Seq<Datum>,
    name: Seq<char>,
    set: bool,
) -> bool {
    exists|k: int|
        #[trigger] is_named(columns, reads, name, k) && (row[k] matches Datum::Integer(n) && set
            == (n != 0))
}

/// Whether a row holds a number of things, or none, in the column with a name.
pub open spec fn holds_size(
    columns: Seq<Seq<char>>,
    reads: Seq<Read>,
    row: Seq<Datum>,
    name: Seq<char>,
    size: Option<u64>,
) -> bool {
    exists|k: int|
        #[trigger] is_named(columns, reads, name, k) && match size {
            Some(n) => row[k] matches Datum::Integer(i) && (i >= 0 ==> i == n),
            None => row[k] == Datum::Null,
        }
}

/// The value that an optional number is stored as.
pub open spec fn number_of(n: Option<i64>) -> Datum {
    match n {
        Some(i) => Datum::Integer(i),
        None => Datum::Null,
    }
}

/// Each part of an artifact is the value of the column of its name, as the query for it lists them.
pub proof fn law_artifact_is_read_by_name(v: Artifact, columns: Seq<Seq<char>>, row: Seq<Datum>)
    requires
        v.is_row(row),
        columns == seq![
            "id"@,
            "session_id"@,
            "run_id"@,
            "member_assignment_id"@,
            "branch"@,
            "base_sha"@,
            "commit_sha"@,
            "files_changed"@,
            "state"@,
            "created_at"@,
        ],
    ensures
        holds(columns, Artifact::reads(), row, "id"@, Datum::Text(v.id@)),
        holds(columns, Artifact::reads(), row, "session_id"@, Datum::Text(v.session_id@)),
        holds(columns, Artifact::reads(), row, "run_id"@, Datum::Text(v.run_id@)),
        holds(
            columns,
            Artifact::reads(),
            row,
            "member_assignment_id"@,
            Datum::Text(v.member_assignment_id@),
        ),
        holds(columns, Artifact::reads(), row, "branch"@, Datum::Text(v.branch@)),
        holds(columns, Artifact::reads(), row, "base_sha"@, Datum::Text(v.base_sha@)),
        holds(columns, Artifact::reads(), row, "commit_sha"@, datum_of(events::opt(v.commit_sha))),
        holds(columns, Artifact::reads(), row, "files_changed"@, Datum::Integer(v.files_changed)),
        holds(columns, Artifact::reads(), row, "state"@, Datum::Text(v.state@)),
        holds(columns, Artifact::reads(), row, "created_at"@, Datum::Integer(v.created_at)),
{
    assert(is_named(columns, Artifact::reads(), "id"@, 0));
    assert(is_named(columns, Artifact::reads(), "session_id"@, 1));
    assert(is_named(columns, Artifact::reads(), "run_id"@, 2));
    assert(is_named(columns, Artifact::reads(), "member_assignment_id"@, 3));
    assert(is_named(columns, Artifact::reads(), "branch"@, 4));
    assert(is_named(columns, Artifact::reads(), "base_sha"@, 5));
    assert(is_named(columns, Artifact::reads(), "commit_sha"@, 6));
    assert(is_named(columns, Artifact::reads(), "files_changed"@, 7));
    assert(is_named(columns, Artifact::reads(), "state"@, 8));
    assert(is_named(columns, Artifact::reads(), "created_at"@, 9));
}

/// Each part of a landing is the value of the column of its name, as the query for it lists them.
pub proof fn law_landing_commit_is_read_by_name(
    v: LandingCommit,
    columns: Seq<Seq<char>>,
    row: Seq<Datum>,
)
    requires
        v.is_row(row),
        columns == seq![
            "id"@,
            "session_id"@,
            "run_id"@,
            "artifact_id"@,
            "pre_head"@,
            "landed_head"@,
            "commit_count"@,
            "files_changed"@,
            "insertions"@,
            "deletions"@,
            "created_at"@,
        ],
    ensures
        holds(columns, LandingCommit::reads(), row, "id"@, Datum::Text(v.id@)),
        holds(columns, LandingCommit::reads(), row, "session_id"@, Datum::Text(v.session_id@)),
        holds(columns, LandingCommit::reads(), row, "run_id"@, Datum::Text(v.run_id@)),
        holds(
            columns,
            LandingCommit::reads(),
            row,
            "artifact_id"@,
            datum_of(events::opt(v.artifact_id)),
        ),
        holds(columns, LandingCommit::reads(), row, "pre_head"@, Datum::Text(v.pre_head@)),
        holds(columns, LandingCommit::reads(), row, "landed_head"@, Datum::Text(v.landed_head@)),
        holds(
            columns,
            LandingCommit::reads(),
            row,
            "commit_count"@,
            Datum::Integer(v.commit_count),
        ),
        holds(
            columns,
            LandingCommit::reads(),
            row,
            "files_changed"@,
            Datum::Integer(v.files_changed),
        ),
        holds(columns, LandingCommit::reads(), row, "insertions"@, Datum::Integer(v.insertions)),
        holds(columns, LandingCommit::reads(), row, "deletions"@, Datum::Integer(v.deletions)),
        holds(columns, LandingCommit::reads(), row, "created_at"@, Datum::Integer(v.created_at)),
{
    assert(is_named(columns, LandingCommit::reads(), "id"@, 0));
    assert(is_named(columns, LandingCommit::reads(), "session_id"@, 1));
    assert(is_named(columns, LandingCommit::reads(), "run_id"@, 2));
    assert(is_named(columns, LandingCommit::reads(), "artifact_id"@, 3));
    assert(is_named(columns, LandingCommit::reads(), "pre_head"@, 4));
    assert(is_named(columns, LandingCommit::reads(), "landed_head"@, 5));
    assert(is_named(columns, LandingCommit::reads(), "commit_count"@, 6));
    assert(is_named(columns, LandingCommit::reads(), "files_changed"@, 7));
    assert(is_named(columns, LandingCommit::reads(), "insertions"@, 8));
    assert(is_named(columns, LandingCommit::reads(), "deletions"@, 9));
    assert(is_named(columns, LandingCommit::reads(), "created_at"@, 10));
}

/// Each part of a verification is the value of the column of its name, as the query for it lists them.
pub proof fn law_verification_is_read_by_name(
    v: Verification,
    columns: Seq<Seq<char>>,
    row: Seq<Datum>,
)
    requires
        v.is_row(row),
        columns == seq![
            "id"@,
            "artifact_id"@,
            "cmd"@,
            "artifact_sha"@,
            "exit_code"@,
            "output_ref"@,
            "verdict"@,
            "created_at"@,
        ],
    ensures
        holds(columns, Verification::reads(), row, "id"@, Datum::Text(v.id@)),
        holds(columns, Verification::reads(), row, "artifact_id"@, Datum::Text(v.artifact_id@)),
        holds(columns, Verification::reads(), row, "cmd"@, Datum::Text(v.cmd@)),
        holds(columns, Verification::reads(), row, "artifact_sha"@, Datum::Text(v.artifact_sha@)),
        holds(columns, Verification::reads(), row, "exit_code"@, number_of(v.exit_code)),
        holds(
            columns,
            Verification::reads(),
            row,
            "output_ref"@,
            datum_of(events::opt(v.output_ref)),
        ),
        holds(columns, Verification::reads(), row, "verdict"@, Datum::Text(v.verdict@)),
        holds(columns, Verification::reads(), row, "created_at"@, Datum::Integer(v.created_at)),
{
    assert(is_named(columns, Verification::reads(), "id"@, 0));
    assert(is_named(columns, Verification::reads(), "artifact_id"@, 1));
    assert(is_named(columns, Verification::reads(), "cmd"@, 2));
    assert(is_named(columns, Verification::reads(), "artifact_sha"@, 3));
    assert(is_named(columns, Verification::reads(), "exit_code"@, 4));
    assert(is_named(columns, Verification::reads(), "output_ref"@, 5));
    assert(is_named(columns, Verification::reads(), "verdict"@, 6));
    assert(is_named(columns, Verification::reads(), "created_at"@, 7));
}

/// Each part of a merge candidate is the value of the column of its name, as the query for it lists them.
pub proof fn law_merge_candidate_is_read_by_name(
    v: MergeCandidate,
    columns: Seq<Seq<char>>,
    row: Seq<Datum>,
)
    requires
        v.is_row(row),
        columns == seq![
            "id"@,
            "artifact_id"@,
            "staging_branch"@,
            "state"@,
            "merged_sha"@,
            "created_at"@,
        ],
    ensures
        holds(columns, MergeCandidate::reads(), row, "id"@, Datum::Text(v.id@)),
        holds(columns, MergeCandidate::reads(), row, "artifact_id"@, Datum::Text(v.artifact_id@)),
        holds(
            columns,
            MergeCandidate::reads(),
            row,
            "staging_branch"@,
            Datum::Text(v.staging_branch@),
        ),
        holds(columns, MergeCandidate::reads(), row, "state"@, Datum::Text(v.state@)),
        holds(
            columns,
            MergeCandidate::reads(),
            row,
            "merged_sha"@,
            datum_of(events::opt(v.merged_sha)),
        ),
        holds(columns, MergeCandidate::reads(), row, "created_at"@, Datum::Integer(v.created_at)),
{
    assert(is_named(columns, MergeCandidate::reads(), "id"@, 0));
    assert(is_named(columns, MergeCandidate::reads(), "artifact_id"@, 1));
    assert(is_named(columns, MergeCandidate::reads(), "staging_branch"@, 2));
    assert(is_named(columns, MergeCandidate::reads(), "state"@, 3));
    assert(is_named(columns, MergeCandidate::reads(), "merged_sha"@, 4));
    assert(is_named(columns, MergeCandidate::reads(), "created_at"@, 5));
}

/// Each part of a contract is the value of the column of its name, as the query for it lists them.
pub proof fn law_goal_contract_is_read_by_name(
    v: GoalContract,
    columns: Seq<Seq<char>>,
    row: Seq<Datum>,
)
    requires
        v.is_row(row),
        columns == seq![
            "id"@,
            "session_id"@,
            "run_id"@,
            "goal"@,
            "lead_participant_id"@,
            "status"@,
            "assignments_json"@,
            "created_at"@,
        ],
    ensures
        holds(columns, GoalContract::reads(), row, "id"@, Datum::Text(v.id@)),
        holds(columns, GoalContract::reads(), row, "session_id"@, Datum::Text(v.session_id@)),
        holds(columns, GoalContract::reads(), row, "run_id"@, Datum::Text(v.run_id@)),
        holds(columns, GoalContract::reads(), row, "goal"@, Datum::Text(v.goal@)),
        holds(
            columns,
            GoalContract::reads(),
            row,
            "lead_participant_id"@,
            Datum::Text(v.lead_participant_id@),
        ),
        holds(columns, GoalContract::reads(), row, "status"@, Datum::Text(v.status@)),
        holds(
            columns,
            GoalContract::reads(),
            row,
            "assignments_json"@,
            Datum::Text(v.assignments_json@),
        ),
        holds(columns, GoalContract::reads(), row, "created_at"@, Datum::Integer(v.created_at)),
{
    assert(is_named(columns, GoalContract::reads(), "id"@, 0));
    assert(is_named(columns, GoalContract::reads(), "session_id"@, 1));
    assert(is_named(columns, GoalContract::reads(), "run_id"@, 2));
    assert(is_named(columns, GoalContract::reads(), "goal"@, 3));
    assert(is_named(columns, GoalContract::reads(), "lead_participant_id"@, 4));
    assert(is_named(columns, GoalContract::reads(), "status"@, 5));
    assert(is_named(columns, GoalContract::reads(), "assignments_json"@, 6));
    assert(is_named(columns, GoalContract::reads(), "created_at"@, 7));
}

/// Each part of a criterion is the value of the column of its name, as the query for it lists them.
pub proof fn law_acceptance_criterion_is_read_by_name(
    v: AcceptanceCriterion,
    columns: Seq<Seq<char>>,
    row: Seq<Datum>,
)
    requires
        v.is_row(row),
        columns == seq![
            "id"@,
            "session_id"@,
            "run_id"@,
            "task_id"@,
            "contract_id"@,
            "scope"@,
            "claim"@,
            "verifier"@,
            "evidence"@,
            "status"@,
            "waiver"@,
            "created_at"@,
        ],
    ensures
        holds(columns, AcceptanceCriterion::reads(), row, "id"@, Datum::Text(v.id@)),
        holds(
            columns,
            AcceptanceCriterion::reads(),
            row,
            "session_id"@,
            Datum::Text(v.session_id@),
        ),
        holds(columns, AcceptanceCriterion::reads(), row, "run_id"@, Datum::Text(v.run_id@)),
        holds(columns, AcceptanceCriterion::reads(), row, "task_id"@, Datum::Text(v.task_id@)),
        holds(
            columns,
            AcceptanceCriterion::reads(),
            row,
            "contract_id"@,
            datum_of(events::opt(v.contract_id)),
        ),
        holds(columns, AcceptanceCriterion::reads(), row, "scope"@, Datum::Text(v.scope@)),
        holds(columns, AcceptanceCriterion::reads(), row, "claim"@, Datum::Text(v.claim@)),
        holds(
            columns,
            AcceptanceCriterion::reads(),
            row,
            "verifier"@,
            datum_of(events::opt(v.verifier)),
        ),
        holds(
            columns,
            AcceptanceCriterion::reads(),
            row,
            "evidence"@,
            datum_of(events::opt(v.evidence)),
        ),
        holds(columns, AcceptanceCriterion::reads(), row, "status"@, Datum::Text(v.status@)),
        holds(
            columns,
            AcceptanceCriterion::reads(),
            row,
            "waiver"@,
            datum_of(events::opt(v.waiver)),
        ),
        holds(
            columns,
            AcceptanceCriterion::reads(),
            row,
            "created_at"@,
            Datum::Integer(v.created_at),
        ),
{
    assert(is_named(columns, AcceptanceCriterion::reads(), "id"@, 0));
    assert(is_named(columns, AcceptanceCriterion::reads(), "session_id"@, 1));
    assert(is_named(columns, AcceptanceCriterion::reads(), "run_id"@, 2));
    assert(is_named(columns, AcceptanceCriterion::reads(), "task_id"@, 3));
    assert(is_named(columns, AcceptanceCriterion::reads(), "contract_id"@, 4));
    assert(is_named(columns, AcceptanceCriterion::reads(), "scope"@, 5));
    assert(is_named(columns, AcceptanceCriterion::reads(), "claim"@, 6));
    assert(is_named(columns, AcceptanceCriterion::reads(), "verifier"@, 7));
    assert(is_named(columns, AcceptanceCriterion::reads(), "evidence"@, 8));
    assert(is_named(columns, AcceptanceCriterion::reads(), "status"@, 9));
    assert(is_named(columns, AcceptanceCriterion::reads(), "waiver"@, 10));
    assert(is_named(columns, AcceptanceCriterion::reads(), "created_at"@, 11));
}

/// Each part of a document is the value of the column of its name, as the query for it lists them.
pub proof fn law_generated_repo_document_is_read_by_name(
    v: GeneratedRepoDocument,
    columns: Seq<Seq<char>>,
    row: Seq<Datum>,
)
    requires
        v.is_row(row),
        columns == seq!["repo_id"@, "content"@, "generated_at"@, "head_sha"@],
    ensures
        holds(columns, GeneratedRepoDocument::reads(), row, "repo_id"@, Datum::Text(v.repo_id@)),
        holds(columns, GeneratedRepoDocument::reads(), row, "content"@, Datum::Text(v.content@)),
        holds(
            columns,
            GeneratedRepoDocument::reads(),
            row,
            "generated_at"@,
            Datum::Integer(v.generated_at),
        ),
        holds(columns, GeneratedRepoDocument::reads(), row, "head_sha"@, Datum::Text(v.head_sha@)),
{
    assert(is_named(columns, GeneratedRepoDocument::reads(), "repo_id"@, 0));
    assert(is_named(columns, GeneratedRepoDocument::reads(), "content"@, 1));
    assert(is_named(columns, GeneratedRepoDocument::reads(), "generated_at"@, 2));
    assert(is_named(columns, GeneratedRepoDocument::reads(), "head_sha"@, 3));
}

/// Each part of a listed session is the value of the column of its name, as the query for it lists them.
pub proof fn law_snapshot_row_is_read_by_name(
    v: SnapshotRow,
    columns: Seq<Seq<char>>,
    row: Seq<Datum>,
)
    requires
        v.is_row(row),
        columns == seq![
            "id"@,
            "title"@,
            "repo_id"@,
            "archived"@,
            "status"@,
            "run_id"@,
            "updated_at"@,
            "latest_content"@,
            "last_activity_at"@,
            "repo_name"@,
        ],
    ensures
        holds(
            columns,
            SnapshotRow::reads(),
            row,
            "latest_content"@,
            datum_of(events::opt(v.latest_content)),
        ),
        holds(columns, SnapshotRow::reads(), row, "id"@, Datum::Text(v.id@)),
        holds(columns, SnapshotRow::reads(), row, "title"@, Datum::Text(v.title@)),
        holds(columns, SnapshotRow::reads(), row, "repo_id"@, datum_of(events::opt(v.repo_id))),
        holds_flag(columns, SnapshotRow::reads(), row, "archived"@, v.archived),
        holds(columns, SnapshotRow::reads(), row, "status"@, datum_of(events::opt(v.status))),
        holds(columns, SnapshotRow::reads(), row, "run_id"@, datum_of(events::opt(v.run_id))),
        holds(columns, SnapshotRow::reads(), row, "updated_at"@, Datum::Integer(v.updated_at)),
        holds(
            columns,
            SnapshotRow::reads(),
            row,
            "last_activity_at"@,
            number_of(v.last_activity_at),
        ),
        holds(columns, SnapshotRow::reads(), row, "repo_name"@, datum_of(events::opt(v.repo_name))),
{
    assert(is_named(columns, SnapshotRow::reads(), "latest_content"@, 0));
    assert(is_named(columns, SnapshotRow::reads(), "id"@, 1));
    assert(is_named(columns, SnapshotRow::reads(), "title"@, 2));
    assert(is_named(columns, SnapshotRow::reads(), "repo_id"@, 3));
    assert(is_named(columns, SnapshotRow::reads(), "archived"@, 4));
    assert(is_named(columns, SnapshotRow::reads(), "status"@, 5));
    assert(is_named(columns, SnapshotRow::reads(), "run_id"@, 6));
    assert(is_named(columns, SnapshotRow::reads(), "updated_at"@, 7));
    assert(is_named(columns, SnapshotRow::reads(), "last_activity_at"@, 8));
    assert(is_named(columns, SnapshotRow::reads(), "repo_name"@, 9));
}

/// Each part of a message of a history is the value of the column of its name, as the query for it lists them.
pub proof fn law_session_history_row_is_read_by_name(
    v: SessionHistoryRow,
    columns: Seq<Seq<char>>,
    row: Seq<Datum>,
)
    requires
        v.is_row(row),
        columns == seq!["message_id"@, "role"@, "content"@],
    ensures
        holds(
            columns,
            SessionHistoryRow::reads(),
            row,
            "message_id"@,
            Datum::Integer(v.message_id),
        ),
        holds(columns, SessionHistoryRow::reads(), row, "role"@, Datum::Text(v.role@)),
        holds(columns, SessionHistoryRow::reads(), row, "content"@, Datum::Text(v.content@)),
{
    assert(is_named(columns, SessionHistoryRow::reads(), "message_id"@, 0));
    assert(is_named(columns, SessionHistoryRow::reads(), "role"@, 1));
    assert(is_named(columns, SessionHistoryRow::reads(), "content"@, 2));
}

/// Each part of a message that is sent again is the value of the column of its name, as the query for it lists them.
pub proof fn law_replay_row_is_read_by_name(v: ReplayRow, columns: Seq<Seq<char>>, row: Seq<Datum>)
    requires
        v.is_row(row),
        columns == seq!["message_id"@, "session_id"@, "role"@, "content"@, "dedup_key"@],
    ensures
        holds(columns, ReplayRow::reads(), row, "message_id"@, Datum::Integer(v.message_id)),
        holds(columns, ReplayRow::reads(), row, "session_id"@, Datum::Text(v.session_id@)),
        holds(columns, ReplayRow::reads(), row, "role"@, Datum::Text(v.role@)),
        holds(columns, ReplayRow::reads(), row, "content"@, Datum::Text(v.content@)),
        holds(columns, ReplayRow::reads(), row, "dedup_key"@, Datum::Text(v.dedup_key@)),
{
    assert(is_named(columns, ReplayRow::reads(), "message_id"@, 0));
    assert(is_named(columns, ReplayRow::reads(), "session_id"@, 1));
    assert(is_named(columns, ReplayRow::reads(), "role"@, 2));
    assert(is_named(columns, ReplayRow::reads(), "content"@, 3));
    assert(is_named(columns, ReplayRow::reads(), "dedup_key"@, 4));
}

/// Each part of a state that is sent again is the value of the column of its name, as the query for it lists them.
pub proof fn law_session_runtime_replay_row_is_read_by_name(
    v: SessionRuntimeReplayRow,
    columns: Seq<Seq<char>>,
    row: Seq<Datum>,
)
    requires
        v.is_row(row),
        columns == seq!["session_id"@, "status"@, "run_id"@],
    ensures
        holds(
            columns,
            SessionRuntimeReplayRow::reads(),
            row,
            "session_id"@,
            Datum::Text(v.session_id@),
        ),
        holds(columns, SessionRuntimeReplayRow::reads(), row, "status"@, Datum::Text(v.status@)),
        holds(
            columns,
            SessionRuntimeReplayRow::reads(),
            row,
            "run_id"@,
            datum_of(events::opt(v.run_id)),
        ),
{
    assert(is_named(columns, SessionRuntimeReplayRow::reads(), "session_id"@, 0));
    assert(is_named(columns, SessionRuntimeReplayRow::reads(), "status"@, 1));
    assert(is_named(columns, SessionRuntimeReplayRow::reads(), "run_id"@, 2));
}

/// Each part of the state of a session's lead is the value of the column of its name, as the query for it lists them.
pub proof fn law_lead_loop_state_is_read_by_name(
    v: LeadLoopState,
    columns: Seq<Seq<char>>,
    row: Seq<Datum>,
)
    requires
        v.is_row(row),
        columns == seq![
            "session_id"@,
            "autonomy"@,
            "active_run_id"@,
            "active_task_id"@,
            "last_event_cursor"@,
        ],
    ensures
        holds(columns, LeadLoopState::reads(), row, "session_id"@, Datum::Text(v.session_id@)),
        holds(columns, LeadLoopState::reads(), row, "autonomy"@, Datum::Text(v.autonomy@)),
        holds(
            columns,
            LeadLoopState::reads(),
            row,
            "active_run_id"@,
            datum_of(events::opt(v.active_run_id)),
        ),
        holds(
            columns,
            LeadLoopState::reads(),
            row,
            "active_task_id"@,
            datum_of(events::opt(v.active_task_id)),
        ),
        holds(
            columns,
            LeadLoopState::reads(),
            row,
            "last_event_cursor"@,
            datum_of(events::opt(v.last_event_cursor)),
        ),
{
    assert(is_named(columns, LeadLoopState::reads(), "session_id"@, 0));
    assert(is_named(columns, LeadLoopState::reads(), "autonomy"@, 1));
    assert(is_named(columns, LeadLoopState::reads(), "active_run_id"@, 2));
    assert(is_named(columns, LeadLoopState::reads(), "active_task_id"@, 3));
    assert(is_named(columns, LeadLoopState::reads(), "last_event_cursor"@, 4));
}

/// Each part of a slot is the value of the column of its name, as the query for it lists them.
pub proof fn law_memory_block_is_read_by_name(
    v: MemoryBlock,
    columns: Seq<Seq<char>>,
    row: Seq<Datum>,
)
    requires
        v.is_row(row),
        columns == seq![
            "session_id"@,
            "slot"@,
            "text"@,
            "title"@,
            "anchor_refs_json"@,
            "updated_by"@,
            "updated_at"@,
            "revision"@,
            "updated_run_id"@,
        ],
    ensures
        holds(columns, MemoryBlock::reads(), row, "session_id"@, Datum::Text(v.session_id@)),
        holds(columns, MemoryBlock::reads(), row, "slot"@, Datum::Text(v.slot@)),
        holds(columns, MemoryBlock::reads(), row, "text"@, Datum::Text(v.text@)),
        holds(columns, MemoryBlock::reads(), row, "title"@, datum_of(events::opt(v.title))),
        holds(
            columns,
            MemoryBlock::reads(),
            row,
            "anchor_refs_json"@,
            Datum::Text(v.anchor_refs_json@),
        ),
        holds(
            columns,
            MemoryBlock::reads(),
            row,
            "updated_by"@,
            datum_of(events::opt(v.updated_by)),
        ),
        holds(columns, MemoryBlock::reads(), row, "updated_at"@, Datum::Integer(v.updated_at)),
        holds(columns, MemoryBlock::reads(), row, "revision"@, Datum::Integer(v.revision)),
        holds(
            columns,
            MemoryBlock::reads(),
            row,
            "updated_run_id"@,
            datum_of(events::opt(v.updated_run_id)),
        ),
{
    assert(is_named(columns, MemoryBlock::reads(), "session_id"@, 0));
    assert(is_named(columns, MemoryBlock::reads(), "slot"@, 1));
    assert(is_named(columns, MemoryBlock::reads(), "text"@, 2));
    assert(is_named(columns, MemoryBlock::reads(), "title"@, 3));
    assert(is_named(columns, MemoryBlock::reads(), "anchor_refs_json"@, 4));
    assert(is_named(columns, MemoryBlock::reads(), "updated_by"@, 5));
    assert(is_named(columns, MemoryBlock::reads(), "updated_at"@, 6));
    assert(is_named(columns, MemoryBlock::reads(), "revision"@, 7));
    assert(is_named(columns, MemoryBlock::reads(), "updated_run_id"@, 8));
}

/// Each part of an entry of a memory is the value of the column of its name, as the query for it lists them.
pub proof fn law_memory_entry_is_read_by_name(
    v: MemoryEntry,
    columns: Seq<Seq<char>>,
    row: Seq<Datum>,
)
    requires
        v.is_row(row),
        columns == seq![
            "id"@,
            "session_id"@,
            "category"@,
            "text"@,
            "source_refs_json"@,
            "supersedes_json"@,
            "source"@,
            "confidence"@,
            "pinned"@,
            "created_at"@,
        ],
    ensures
        holds(columns, MemoryEntry::reads(), row, "id"@, Datum::Integer(v.id)),
        holds(columns, MemoryEntry::reads(), row, "session_id"@, Datum::Text(v.session_id@)),
        holds(columns, MemoryEntry::reads(), row, "category"@, Datum::Text(v.category@)),
        holds(columns, MemoryEntry::reads(), row, "text"@, Datum::Text(v.text@)),
        holds(
            columns,
            MemoryEntry::reads(),
            row,
            "source_refs_json"@,
            Datum::Text(v.source_refs_json@),
        ),
        holds(
            columns,
            MemoryEntry::reads(),
            row,
            "supersedes_json"@,
            Datum::Text(v.supersedes_json@),
        ),
        holds(columns, MemoryEntry::reads(), row, "source"@, datum_of(events::opt(v.source))),
        holds(
            columns,
            MemoryEntry::reads(),
            row,
            "confidence"@,
            datum_of(events::opt(v.confidence)),
        ),
        holds_flag(columns, MemoryEntry::reads(), row, "pinned"@, v.pinned),
        holds(columns, MemoryEntry::reads(), row, "created_at"@, Datum::Integer(v.created_at)),
{
    assert(is_named(columns, MemoryEntry::reads(), "id"@, 0));
    assert(is_named(columns, MemoryEntry::reads(), "session_id"@, 1));
    assert(is_named(columns, MemoryEntry::reads(), "category"@, 2));
    assert(is_named(columns, MemoryEntry::reads(), "text"@, 3));
    assert(is_named(columns, MemoryEntry::reads(), "source_refs_json"@, 4));
    assert(is_named(columns, MemoryEntry::reads(), "supersedes_json"@, 5));
    assert(is_named(columns, MemoryEntry::reads(), "source"@, 6));
    assert(is_named(columns, MemoryEntry::reads(), "confidence"@, 7));
    assert(is_named(columns, MemoryEntry::reads(), "pinned"@, 8));
    assert(is_named(columns, MemoryEntry::reads(), "created_at"@, 9));
}

/// Each part of a decision is the value of the column of its name, as the query for it lists them.
pub proof fn law_decision_row_is_read_by_name(
    v: DecisionRow,
    columns: Seq<Seq<char>>,
    row: Seq<Datum>,
)
    requires
        v.is_row(row),
        columns == seq![
            "id"@,
            "session_id"@,
            "run_id"@,
            "source_assignment_id"@,
            "text"@,
            "source_refs_json"@,
            "supersedes_json"@,
            "source_kind"@,
            "confidence"@,
            "created_at"@,
        ],
    ensures
        holds(columns, DecisionRow::reads(), row, "id"@, Datum::Integer(v.id)),
        holds(columns, DecisionRow::reads(), row, "session_id"@, Datum::Text(v.session_id@)),
        holds(columns, DecisionRow::reads(), row, "run_id"@, datum_of(events::opt(v.run_id))),
        holds(
            columns,
            DecisionRow::reads(),
            row,
            "source_assignment_id"@,
            datum_of(events::opt(v.source_assignment_id)),
        ),
        holds(columns, DecisionRow::reads(), row, "text"@, Datum::Text(v.text@)),
        holds(
            columns,
            DecisionRow::reads(),
            row,
            "source_refs_json"@,
            Datum::Text(v.source_refs_json@),
        ),
        holds(
            columns,
            DecisionRow::reads(),
            row,
            "supersedes_json"@,
            Datum::Text(v.supersedes_json@),
        ),
        holds(
            columns,
            DecisionRow::reads(),
            row,
            "source_kind"@,
            datum_of(events::opt(v.source_kind)),
        ),
        holds(
            columns,
            DecisionRow::reads(),
            row,
            "confidence"@,
            datum_of(events::opt(v.confidence)),
        ),
        holds(columns, DecisionRow::reads(), row, "created_at"@, Datum::Integer(v.created_at)),
{
    assert(is_named(columns, DecisionRow::reads(), "id"@, 0));
    assert(is_named(columns, DecisionRow::reads(), "session_id"@, 1));
    assert(is_named(columns, DecisionRow::reads(), "run_id"@, 2));
    assert(is_named(columns, DecisionRow::reads(), "source_assignment_id"@, 3));
    assert(is_named(columns, DecisionRow::reads(), "text"@, 4));
    assert(is_named(columns, DecisionRow::reads(), "source_refs_json"@, 5));
    assert(is_named(columns, DecisionRow::reads(), "supersedes_json"@, 6));
    assert(is_named(columns, DecisionRow::reads(), "source_kind"@, 7));
    assert(is_named(columns, DecisionRow::reads(), "confidence"@, 8));
    assert(is_named(columns, DecisionRow::reads(), "created_at"@, 9));
}

/// Each part of a message is the value of the column of its name, as the query for it lists them.
pub proof fn law_message_row_is_read_by_name(
    v: MessageRow,
    columns: Seq<Seq<char>>,
    row: Seq<Datum>,
)
    requires
        v.is_row(row),
        columns == seq![
            "id"@,
            "role"@,
            "content"@,
            "engine"@,
            "agent_id"@,
            "agent_name_snapshot"@,
            "created_at"@,
        ],
    ensures
        holds(columns, MessageRow::reads(), row, "content"@, Datum::Text(v.content@)),
        holds(columns, MessageRow::reads(), row, "id"@, Datum::Integer(v.id)),
        holds(columns, MessageRow::reads(), row, "role"@, Datum::Text(v.role@)),
        holds(columns, MessageRow::reads(), row, "engine"@, datum_of(events::opt(v.engine))),
        holds(columns, MessageRow::reads(), row, "agent_id"@, datum_of(events::opt(v.agent_id))),
        holds(
            columns,
            MessageRow::reads(),
            row,
            "agent_name_snapshot"@,
            datum_of(events::opt(v.agent_name_snapshot)),
        ),
        holds(columns, MessageRow::reads(), row, "created_at"@, Datum::Integer(v.created_at)),
{
    assert(is_named(columns, MessageRow::reads(), "content"@, 0));
    assert(is_named(columns, MessageRow::reads(), "id"@, 1));
    assert(is_named(columns, MessageRow::reads(), "role"@, 2));
    assert(is_named(columns, MessageRow::reads(), "engine"@, 3));
    assert(is_named(columns, MessageRow::reads(), "agent_id"@, 4));
    assert(is_named(columns, MessageRow::reads(), "agent_name_snapshot"@, 5));
    assert(is_named(columns, MessageRow::reads(), "created_at"@, 6));
}

/// Each part of an input is the value of the column of its name, as the query for it lists them.
pub proof fn law_remote_inbox_entry_is_read_by_name(
    v: RemoteInboxEntry,
    columns: Seq<Seq<char>>,
    row: Seq<Datum>,
)
    requires
        v.is_row(row),
        columns == seq!["id"@, "session_id"@, "command_id"@, "kind"@, "payload"@, "created_at"@],
    ensures
        holds(columns, RemoteInboxEntry::reads(), row, "id"@, Datum::Integer(v.id)),
        holds(columns, RemoteInboxEntry::reads(), row, "session_id"@, Datum::Text(v.session_id@)),
        holds(columns, RemoteInboxEntry::reads(), row, "command_id"@, Datum::Text(v.command_id@)),
        holds(columns, RemoteInboxEntry::reads(), row, "kind"@, Datum::Text(v.kind@)),
        holds(columns, RemoteInboxEntry::reads(), row, "payload"@, Datum::Text(v.payload@)),
        holds(columns, RemoteInboxEntry::reads(), row, "created_at"@, Datum::Integer(v.created_at)),
{
    assert(is_named(columns, RemoteInboxEntry::reads(), "id"@, 0));
    assert(is_named(columns, RemoteInboxEntry::reads(), "session_id"@, 1));
    assert(is_named(columns, RemoteInboxEntry::reads(), "command_id"@, 2));
    assert(is_named(columns, RemoteInboxEntry::reads(), "kind"@, 3));
    assert(is_named(columns, RemoteInboxEntry::reads(), "payload"@, 4));
    assert(is_named(columns, RemoteInboxEntry::reads(), "created_at"@, 5));
}

/// Each part of a device is the value of the column of its name, as the query for it lists them.
pub proof fn law_remote_device_row_is_read_by_name(
    v: RemoteDeviceRow,
    columns: Seq<Seq<char>>,
    row: Seq<Datum>,
)
    requires
        v.is_row(row),
        columns == seq![
            "device_id"@,
            "name"@,
            "token_hash"@,
            "refresh_hash"@,
            "access_expires_at"@,
            "created_at"@,
            "revoked_at"@,
            "room_id"@,
            "generation"@,
            "refresh_until"@,
            "journal_request_id"@,
            "journal_generation"@,
            "journal_prev_generation"@,
            "journal_prev_access_hash"@,
            "journal_prev_refresh_hash"@,
            "journal_response_ct"@,
            "journal_response_n"@,
            "journal_prev_expires_at"@,
            "journal_response_expires"@,
        ],
    ensures
        holds(columns, RemoteDeviceRow::reads(), row, "device_id"@, Datum::Text(v.device_id@)),
        holds(columns, RemoteDeviceRow::reads(), row, "name"@, Datum::Text(v.name@)),
        holds(columns, RemoteDeviceRow::reads(), row, "token_hash"@, Datum::Text(v.token_hash@)),
        holds(
            columns,
            RemoteDeviceRow::reads(),
            row,
            "refresh_hash"@,
            Datum::Text(v.refresh_hash@),
        ),
        holds(
            columns,
            RemoteDeviceRow::reads(),
            row,
            "access_expires_at"@,
            Datum::Integer(v.access_expires_at),
        ),
        holds(columns, RemoteDeviceRow::reads(), row, "created_at"@, Datum::Integer(v.created_at)),
        holds(columns, RemoteDeviceRow::reads(), row, "revoked_at"@, number_of(v.revoked_at)),
        holds(columns, RemoteDeviceRow::reads(), row, "room_id"@, datum_of(events::opt(v.room_id))),
        holds(columns, RemoteDeviceRow::reads(), row, "generation"@, number_of(v.generation)),
        holds(columns, RemoteDeviceRow::reads(), row, "refresh_until"@, number_of(v.refresh_until)),
        holds(
            columns,
            RemoteDeviceRow::reads(),
            row,
            "journal_request_id"@,
            datum_of(events::opt(v.journal_request_id)),
        ),
        holds(
            columns,
            RemoteDeviceRow::reads(),
            row,
            "journal_generation"@,
            number_of(v.journal_generation),
        ),
        holds(
            columns,
            RemoteDeviceRow::reads(),
            row,
            "journal_prev_generation"@,
            number_of(v.journal_prev_generation),
        ),
        holds(
            columns,
            RemoteDeviceRow::reads(),
            row,
            "journal_prev_access_hash"@,
            datum_of(events::opt(v.journal_prev_access_hash)),
        ),
        holds(
            columns,
            RemoteDeviceRow::reads(),
            row,
            "journal_prev_refresh_hash"@,
            datum_of(events::opt(v.journal_prev_refresh_hash)),
        ),
        holds(
            columns,
            RemoteDeviceRow::reads(),
            row,
            "journal_response_ct"@,
            datum_of(events::opt(v.journal_response_ct)),
        ),
        holds(
            columns,
            RemoteDeviceRow::reads(),
            row,
            "journal_response_n"@,
            datum_of(events::opt(v.journal_response_n)),
        ),
        holds(
            columns,
            RemoteDeviceRow::reads(),
            row,
            "journal_prev_expires_at"@,
            number_of(v.journal_prev_expires_at),
        ),
        holds(
            columns,
            RemoteDeviceRow::reads(),
            row,
            "journal_response_expires"@,
            number_of(v.journal_response_expires),
        ),
{
    assert(is_named(columns, RemoteDeviceRow::reads(), "device_id"@, 0));
    assert(is_named(columns, RemoteDeviceRow::reads(), "name"@, 1));
    assert(is_named(columns, RemoteDeviceRow::reads(), "token_hash"@, 2));
    assert(is_named(columns, RemoteDeviceRow::reads(), "refresh_hash"@, 3));
    assert(is_named(columns, RemoteDeviceRow::reads(), "access_expires_at"@, 4));
    assert(is_named(columns, RemoteDeviceRow::reads(), "created_at"@, 5));
    assert(is_named(columns, RemoteDeviceRow::reads(), "revoked_at"@, 6));
    assert(is_named(columns, RemoteDeviceRow::reads(), "room_id"@, 7));
    assert(is_named(columns, RemoteDeviceRow::reads(), "generation"@, 8));
    assert(is_named(columns, RemoteDeviceRow::reads(), "refresh_until"@, 9));
    assert(is_named(columns, RemoteDeviceRow::reads(), "journal_request_id"@, 10));
    assert(is_named(columns, RemoteDeviceRow::reads(), "journal_generation"@, 11));
    assert(is_named(columns, RemoteDeviceRow::reads(), "journal_prev_generation"@, 12));
    assert(is_named(columns, RemoteDeviceRow::reads(), "journal_prev_access_hash"@, 13));
    assert(is_named(columns, RemoteDeviceRow::reads(), "journal_prev_refresh_hash"@, 14));
    assert(is_named(columns, RemoteDeviceRow::reads(), "journal_response_ct"@, 15));
    assert(is_named(columns, RemoteDeviceRow::reads(), "journal_response_n"@, 16));
    assert(is_named(columns, RemoteDeviceRow::reads(), "journal_prev_expires_at"@, 17));
    assert(is_named(columns, RemoteDeviceRow::reads(), "journal_response_expires"@, 18));
}

/// Each part of a journal is the value of the column of its name, as the query for it lists them.
pub proof fn law_remote_refresh_journal_is_read_by_name(
    v: RemoteRefreshJournal,
    columns: Seq<Seq<char>>,
    row: Seq<Datum>,
)
    requires
        v.is_row(row),
        columns == seq![
            "journal_request_id"@,
            "journal_generation"@,
            "journal_prev_generation"@,
            "journal_prev_access_hash"@,
            "journal_prev_refresh_hash"@,
            "journal_response_ct"@,
            "journal_response_n"@,
            "journal_prev_expires_at"@,
            "journal_response_expires"@,
        ],
    ensures
        holds(
            columns,
            RemoteRefreshJournal::reads(),
            row,
            "journal_request_id"@,
            Datum::Text(v.request_id@),
        ),
        holds(
            columns,
            RemoteRefreshJournal::reads(),
            row,
            "journal_generation"@,
            Datum::Integer(v.generation),
        ),
        holds(
            columns,
            RemoteRefreshJournal::reads(),
            row,
            "journal_prev_generation"@,
            Datum::Integer(v.prev_generation),
        ),
        holds(
            columns,
            RemoteRefreshJournal::reads(),
            row,
            "journal_prev_access_hash"@,
            Datum::Text(v.prev_access_hash@),
        ),
        holds(
            columns,
            RemoteRefreshJournal::reads(),
            row,
            "journal_prev_refresh_hash"@,
            Datum::Text(v.prev_refresh_hash@),
        ),
        holds(
            columns,
            RemoteRefreshJournal::reads(),
            row,
            "journal_response_ct"@,
            Datum::Text(v.response_ct@),
        ),
        holds(
            columns,
            RemoteRefreshJournal::reads(),
            row,
            "journal_response_n"@,
            Datum::Text(v.response_n@),
        ),
        holds(
            columns,
            RemoteRefreshJournal::reads(),
            row,
            "journal_prev_expires_at"@,
            Datum::Integer(v.prev_expires_at),
        ),
        holds(
            columns,
            RemoteRefreshJournal::reads(),
            row,
            "journal_response_expires"@,
            Datum::Integer(v.response_expires),
        ),
{
    assert(is_named(columns, RemoteRefreshJournal::reads(), "journal_request_id"@, 0));
    assert(is_named(columns, RemoteRefreshJournal::reads(), "journal_generation"@, 1));
    assert(is_named(columns, RemoteRefreshJournal::reads(), "journal_prev_generation"@, 2));
    assert(is_named(columns, RemoteRefreshJournal::reads(), "journal_prev_access_hash"@, 3));
    assert(is_named(columns, RemoteRefreshJournal::reads(), "journal_prev_refresh_hash"@, 4));
    assert(is_named(columns, RemoteRefreshJournal::reads(), "journal_response_ct"@, 5));
    assert(is_named(columns, RemoteRefreshJournal::reads(), "journal_response_n"@, 6));
    assert(is_named(columns, RemoteRefreshJournal::reads(), "journal_prev_expires_at"@, 7));
    assert(is_named(columns, RemoteRefreshJournal::reads(), "journal_response_expires"@, 8));
}

/// Each part of a run is the value of the column of its name, as the query for it lists them.
pub proof fn law_run_commit_row_is_read_by_name(
    v: RunCommitRow,
    columns: Seq<Seq<char>>,
    row: Seq<Datum>,
)
    requires
        v.is_row(row),
        columns == seq![
            "session_id"@,
            "run_id"@,
            "engine"@,
            "pre_head"@,
            "post_head"@,
            "commit_sha"@,
            "files_changed"@,
            "insertions"@,
            "deletions"@,
            "interrupted"@,
            "state"@,
        ],
    ensures
        holds(columns, RunCommitRow::reads(), row, "session_id"@, Datum::Text(v.session_id@)),
        holds(columns, RunCommitRow::reads(), row, "run_id"@, Datum::Text(v.run_id@)),
        holds(columns, RunCommitRow::reads(), row, "engine"@, Datum::Text(v.engine@)),
        holds(columns, RunCommitRow::reads(), row, "pre_head"@, Datum::Text(v.pre_head@)),
        holds(
            columns,
            RunCommitRow::reads(),
            row,
            "post_head"@,
            datum_of(events::opt(v.post_head)),
        ),
        holds(
            columns,
            RunCommitRow::reads(),
            row,
            "commit_sha"@,
            datum_of(events::opt(v.commit_sha)),
        ),
        holds_size(columns, RunCommitRow::reads(), row, "files_changed"@, v.files_changed),
        holds_size(columns, RunCommitRow::reads(), row, "insertions"@, v.insertions),
        holds_size(columns, RunCommitRow::reads(), row, "deletions"@, v.deletions),
        holds_flag(columns, RunCommitRow::reads(), row, "interrupted"@, v.interrupted),
        holds(columns, RunCommitRow::reads(), row, "state"@, Datum::Text(v.state@)),
{
    assert(is_named(columns, RunCommitRow::reads(), "session_id"@, 0));
    assert(is_named(columns, RunCommitRow::reads(), "run_id"@, 1));
    assert(is_named(columns, RunCommitRow::reads(), "engine"@, 2));
    assert(is_named(columns, RunCommitRow::reads(), "pre_head"@, 3));
    assert(is_named(columns, RunCommitRow::reads(), "post_head"@, 4));
    assert(is_named(columns, RunCommitRow::reads(), "commit_sha"@, 5));
    assert(is_named(columns, RunCommitRow::reads(), "files_changed"@, 6));
    assert(is_named(columns, RunCommitRow::reads(), "insertions"@, 7));
    assert(is_named(columns, RunCommitRow::reads(), "deletions"@, 8));
    assert(is_named(columns, RunCommitRow::reads(), "interrupted"@, 9));
    assert(is_named(columns, RunCommitRow::reads(), "state"@, 10));
}

/// Each part of an intent is the value of the column of its name, as the query for it lists them.
pub proof fn law_run_commit_intent_is_read_by_name(
    v: RunCommitIntent,
    columns: Seq<Seq<char>>,
    row: Seq<Datum>,
)
    requires
        v.is_row(row),
        columns == seq!["session_id"@, "run_id"@, "expected_head"@, "previous_state"@],
    ensures
        holds(columns, RunCommitIntent::reads(), row, "session_id"@, Datum::Text(v.session_id@)),
        holds(columns, RunCommitIntent::reads(), row, "run_id"@, Datum::Text(v.run_id@)),
        holds(
            columns,
            RunCommitIntent::reads(),
            row,
            "expected_head"@,
            Datum::Text(v.expected_head@),
        ),
        holds(
            columns,
            RunCommitIntent::reads(),
            row,
            "previous_state"@,
            Datum::Text(v.previous_state@),
        ),
{
    assert(is_named(columns, RunCommitIntent::reads(), "session_id"@, 0));
    assert(is_named(columns, RunCommitIntent::reads(), "run_id"@, 1));
    assert(is_named(columns, RunCommitIntent::reads(), "expected_head"@, 2));
    assert(is_named(columns, RunCommitIntent::reads(), "previous_state"@, 3));
}

/// Each part of a run of a team is the value of the column of its name, as the query for it lists them.
pub proof fn law_team_run_pending_row_is_read_by_name(
    v: TeamRunPendingRow,
    columns: Seq<Seq<char>>,
    row: Seq<Datum>,
)
    requires
        v.is_row(row),
        columns == seq![
            "session_id"@,
            "run_id"@,
            "goal"@,
            "lead_participant_id"@,
            "assignments_json"@,
        ],
    ensures
        holds(columns, TeamRunPendingRow::reads(), row, "session_id"@, Datum::Text(v.session_id@)),
        holds(columns, TeamRunPendingRow::reads(), row, "run_id"@, Datum::Text(v.run_id@)),
        holds(columns, TeamRunPendingRow::reads(), row, "goal"@, datum_of(events::opt(v.goal))),
        holds(
            columns,
            TeamRunPendingRow::reads(),
            row,
            "lead_participant_id"@,
            datum_of(events::opt(v.lead_participant_id)),
        ),
        holds(
            columns,
            TeamRunPendingRow::reads(),
            row,
            "assignments_json"@,
            Datum::Text(v.assignments_json@),
        ),
{
    assert(is_named(columns, TeamRunPendingRow::reads(), "session_id"@, 0));
    assert(is_named(columns, TeamRunPendingRow::reads(), "run_id"@, 1));
    assert(is_named(columns, TeamRunPendingRow::reads(), "goal"@, 2));
    assert(is_named(columns, TeamRunPendingRow::reads(), "lead_participant_id"@, 3));
    assert(is_named(columns, TeamRunPendingRow::reads(), "assignments_json"@, 4));
}

/// Each part of a day is the value of the column of its name, as the query for it lists them.
pub proof fn law_recent_activity_day_is_read_by_name(
    v: RecentActivityDay,
    columns: Seq<Seq<char>>,
    row: Seq<Datum>,
)
    requires
        v.is_row(row),
        columns == seq![
            "date"@,
            "commits"@,
            "files_changed"@,
            "insertions"@,
            "deletions"@,
            "failed"@,
        ],
    ensures
        holds(columns, RecentActivityDay::reads(), row, "date"@, Datum::Text(v.date@)),
        holds(columns, RecentActivityDay::reads(), row, "commits"@, Datum::Integer(v.commits)),
        holds(
            columns,
            RecentActivityDay::reads(),
            row,
            "files_changed"@,
            Datum::Integer(v.files_changed),
        ),
        holds(
            columns,
            RecentActivityDay::reads(),
            row,
            "insertions"@,
            Datum::Integer(v.insertions),
        ),
        holds(columns, RecentActivityDay::reads(), row, "deletions"@, Datum::Integer(v.deletions)),
        holds(columns, RecentActivityDay::reads(), row, "failed"@, Datum::Integer(v.failed)),
{
    assert(is_named(columns, RecentActivityDay::reads(), "date"@, 0));
    assert(is_named(columns, RecentActivityDay::reads(), "commits"@, 1));
    assert(is_named(columns, RecentActivityDay::reads(), "files_changed"@, 2));
    assert(is_named(columns, RecentActivityDay::reads(), "insertions"@, 3));
    assert(is_named(columns, RecentActivityDay::reads(), "deletions"@, 4));
    assert(is_named(columns, RecentActivityDay::reads(), "failed"@, 5));
}

/// Each part of the course of a run is the value of the column of its name, as the query for it lists them.
pub proof fn law_run_lifecycle_is_read_by_name(
    v: RunLifecycle,
    columns: Seq<Seq<char>>,
    row: Seq<Datum>,
)
    requires
        v.is_row(row),
        columns == seq!["state"@, "pre_head"@, "post_head"@, "commit_sha"@],
    ensures
        holds(columns, RunLifecycle::reads(), row, "state"@, Datum::Text(v.state@)),
        holds(columns, RunLifecycle::reads(), row, "pre_head"@, Datum::Text(v.pre_head@)),
        holds(
            columns,
            RunLifecycle::reads(),
            row,
            "post_head"@,
            datum_of(events::opt(v.post_head)),
        ),
        holds(
            columns,
            RunLifecycle::reads(),
            row,
            "commit_sha"@,
            datum_of(events::opt(v.commit_sha)),
        ),
{
    assert(is_named(columns, RunLifecycle::reads(), "state"@, 0));
    assert(is_named(columns, RunLifecycle::reads(), "pre_head"@, 1));
    assert(is_named(columns, RunLifecycle::reads(), "post_head"@, 2));
    assert(is_named(columns, RunLifecycle::reads(), "commit_sha"@, 3));
}

/// Each part of the state of a session is the value of the column of its name, as the query for it lists them.
pub proof fn law_session_runtime_is_read_by_name(
    v: SessionRuntime,
    columns: Seq<Seq<char>>,
    row: Seq<Datum>,
)
    requires
        v.is_row(row),
        columns == seq!["session_id"@, "status"@, "run_id"@, "updated_at"@],
    ensures
        holds(columns, SessionRuntime::reads(), row, "session_id"@, Datum::Text(v.session_id@)),
        holds(columns, SessionRuntime::reads(), row, "status"@, Datum::Text(v.status@)),
        holds(columns, SessionRuntime::reads(), row, "run_id"@, datum_of(events::opt(v.run_id))),
        holds(columns, SessionRuntime::reads(), row, "updated_at"@, Datum::Integer(v.updated_at)),
{
    assert(is_named(columns, SessionRuntime::reads(), "session_id"@, 0));
    assert(is_named(columns, SessionRuntime::reads(), "status"@, 1));
    assert(is_named(columns, SessionRuntime::reads(), "run_id"@, 2));
    assert(is_named(columns, SessionRuntime::reads(), "updated_at"@, 3));
}

/// Each part of an agent is the value of the column of its name, as the query for it lists them.
pub proof fn law_agent_profile_is_read_by_name(
    v: AgentProfile,
    columns: Seq<Seq<char>>,
    row: Seq<Datum>,
)
    requires
        v.is_row(row),
        columns == seq![
            "id"@,
            "name"@,
            "access"@,
            "provider"@,
            "primary_model"@,
            "endpoint"@,
            "auth_mode"@,
            "model_opus"@,
            "model_sonnet"@,
            "model_haiku"@,
            "model_subagent"@,
            "reasoning_default"@,
            "max_output_tokens"@,
            "api_timeout_ms"@,
            "compat_disable_betas"@,
            "compat_disable_nonessential"@,
            "compat_disable_thinking"@,
            "compat_proxy"@,
            "custom_headers"@,
            "extra_body"@,
            "cap_reasoning"@,
            "cap_computer_use"@,
            "cap_lead"@,
            "has_key"@,
            "is_builtin"@,
            "enabled"@,
            "sort_order"@,
            "created_at"@,
            "updated_at"@,
        ],
    ensures
        holds(columns, AgentProfile::reads(), row, "id"@, Datum::Text(v.id@)),
        holds(columns, AgentProfile::reads(), row, "name"@, Datum::Text(v.name@)),
        holds(columns, AgentProfile::reads(), row, "access"@, Datum::Text(v.access@)),
        holds(columns, AgentProfile::reads(), row, "provider"@, Datum::Text(v.provider@)),
        holds(
            columns,
            AgentProfile::reads(),
            row,
            "primary_model"@,
            datum_of(events::opt(v.primary_model)),
        ),
        holds(columns, AgentProfile::reads(), row, "endpoint"@, datum_of(events::opt(v.endpoint))),
        holds(
            columns,
            AgentProfile::reads(),
            row,
            "auth_mode"@,
            datum_of(events::opt(v.auth_mode)),
        ),
        holds(
            columns,
            AgentProfile::reads(),
            row,
            "model_opus"@,
            datum_of(events::opt(v.model_opus)),
        ),
        holds(
            columns,
            AgentProfile::reads(),
            row,
            "model_sonnet"@,
            datum_of(events::opt(v.model_sonnet)),
        ),
        holds(
            columns,
            AgentProfile::reads(),
            row,
            "model_haiku"@,
            datum_of(events::opt(v.model_haiku)),
        ),
        holds(
            columns,
            AgentProfile::reads(),
            row,
            "model_subagent"@,
            datum_of(events::opt(v.model_subagent)),
        ),
        holds(
            columns,
            AgentProfile::reads(),
            row,
            "reasoning_default"@,
            Datum::Text(v.reasoning_default@),
        ),
        holds(
            columns,
            AgentProfile::reads(),
            row,
            "max_output_tokens"@,
            number_of(v.max_output_tokens),
        ),
        holds(columns, AgentProfile::reads(), row, "api_timeout_ms"@, number_of(v.api_timeout_ms)),
        holds_flag(
            columns,
            AgentProfile::reads(),
            row,
            "compat_disable_betas"@,
            v.compat_disable_betas,
        ),
        holds_flag(
            columns,
            AgentProfile::reads(),
            row,
            "compat_disable_nonessential"@,
            v.compat_disable_nonessential,
        ),
        holds_flag(
            columns,
            AgentProfile::reads(),
            row,
            "compat_disable_thinking"@,
            v.compat_disable_thinking,
        ),
        holds(
            columns,
            AgentProfile::reads(),
            row,
            "compat_proxy"@,
            datum_of(events::opt(v.compat_proxy)),
        ),
        holds(
            columns,
            AgentProfile::reads(),
            row,
            "custom_headers"@,
            datum_of(events::opt(v.custom_headers)),
        ),
        holds(
            columns,
            AgentProfile::reads(),
            row,
            "extra_body"@,
            datum_of(events::opt(v.extra_body)),
        ),
        holds(
            columns,
            AgentProfile::reads(),
            row,
            "cap_reasoning"@,
            datum_of(events::opt(v.cap_reasoning)),
        ),
        holds(
            columns,
            AgentProfile::reads(),
            row,
            "cap_computer_use"@,
            datum_of(events::opt(v.cap_computer_use)),
        ),
        holds(columns, AgentProfile::reads(), row, "cap_lead"@, datum_of(events::opt(v.cap_lead))),
        holds_flag(columns, AgentProfile::reads(), row, "has_key"@, v.has_key),
        holds_flag(columns, AgentProfile::reads(), row, "is_builtin"@, v.is_builtin),
        holds_flag(columns, AgentProfile::reads(), row, "enabled"@, v.enabled),
        holds(columns, AgentProfile::reads(), row, "sort_order"@, Datum::Integer(v.sort_order)),
        holds(columns, AgentProfile::reads(), row, "created_at"@, Datum::Integer(v.created_at)),
        holds(columns, AgentProfile::reads(), row, "updated_at"@, Datum::Integer(v.updated_at)),
{
    assert(is_named(columns, AgentProfile::reads(), "id"@, 0));
    assert(is_named(columns, AgentProfile::reads(), "name"@, 1));
    assert(is_named(columns, AgentProfile::reads(), "access"@, 2));
    assert(is_named(columns, AgentProfile::reads(), "provider"@, 3));
    assert(is_named(columns, AgentProfile::reads(), "primary_model"@, 4));
    assert(is_named(columns, AgentProfile::reads(), "endpoint"@, 5));
    assert(is_named(columns, AgentProfile::reads(), "auth_mode"@, 6));
    assert(is_named(columns, AgentProfile::reads(), "model_opus"@, 7));
    assert(is_named(columns, AgentProfile::reads(), "model_sonnet"@, 8));
    assert(is_named(columns, AgentProfile::reads(), "model_haiku"@, 9));
    assert(is_named(columns, AgentProfile::reads(), "model_subagent"@, 10));
    assert(is_named(columns, AgentProfile::reads(), "reasoning_default"@, 11));
    assert(is_named(columns, AgentProfile::reads(), "max_output_tokens"@, 12));
    assert(is_named(columns, AgentProfile::reads(), "api_timeout_ms"@, 13));
    assert(is_named(columns, AgentProfile::reads(), "compat_disable_betas"@, 14));
    assert(is_named(columns, AgentProfile::reads(), "compat_disable_nonessential"@, 15));
    assert(is_named(columns, AgentProfile::reads(), "compat_disable_thinking"@, 16));
    assert(is_named(columns, AgentProfile::reads(), "compat_proxy"@, 17));
    assert(is_named(columns, AgentProfile::reads(), "custom_headers"@, 18));
    assert(is_named(columns, AgentProfile::reads(), "extra_body"@, 19));
    assert(is_named(columns, AgentProfile::reads(), "cap_reasoning"@, 20));
    assert(is_named(columns, AgentProfile::reads(), "cap_computer_use"@, 21));
    assert(is_named(columns, AgentProfile::reads(), "cap_lead"@, 22));
    assert(is_named(columns, AgentProfile::reads(), "has_key"@, 23));
    assert(is_named(columns, AgentProfile::reads(), "is_builtin"@, 24));
    assert(is_named(columns, AgentProfile::reads(), "enabled"@, 25));
    assert(is_named(columns, AgentProfile::reads(), "sort_order"@, 26));
    assert(is_named(columns, AgentProfile::reads(), "created_at"@, 27));
    assert(is_named(columns, AgentProfile::reads(), "updated_at"@, 28));
}

} // verus!
