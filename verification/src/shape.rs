//! The columns that the store's statements read and write, and that a set-up of an earlier version's
//! database leaves them all there.
use crate::engine::{DbError, Trace};
use crate::made;
use crate::schema;
use crate::text;
use crate::upkeep;
use crate::upkeep::Store;
use vstd::prelude::*;

verus! {

/// A table and some of its columns.
pub struct Shape {
    pub table: Seq<char>,
    pub columns: Seq<Seq<char>>,
}

/// The tables of the store with the columns that they have had from the first version on.
pub open spec fn first_shapes() -> Seq<Shape> {
    seq![
        Shape {
            table: "app_settings"@,
            columns: seq![
                "key"@,
                "value"@,
            ],
        },
        Shape {
            table: "sessions"@,
            columns: seq![
                "id"@,
                "title"@,
                "created_at"@,
            ],
        },
        Shape {
            table: "session_agent_configs"@,
            columns: seq![
                "session_id"@,
                "lead_agent_id"@,
                "member_agent_ids"@,
            ],
        },
        Shape {
            table: "messages"@,
            columns: seq![
                "id"@,
                "session_id"@,
                "role"@,
                "content"@,
                "engine"@,
                "created_at"@,
            ],
        },
        Shape {
            table: "member_report_delivery"@,
            columns: seq![
                "session_id"@,
                "message_id"@,
                "assignment_id"@,
                "delivered_at"@,
            ],
        },
        Shape {
            table: "attachments"@,
            columns: seq![
                "id"@,
                "session_id"@,
                "kind"@,
                "sha256"@,
                "media_type"@,
                "byte_size"@,
                "rel_path"@,
                "width"@,
                "height"@,
                "created_at"@,
            ],
        },
        Shape {
            table: "repos"@,
            columns: seq![
                "id"@,
                "source"@,
                "owner"@,
                "name"@,
                "path"@,
                "status"@,
                "added_at"@,
                "last_used_at"@,
            ],
        },
        Shape {
            table: "namespaces"@,
            columns: seq![
                "id"@,
                "kind"@,
                "name"@,
                "is_builtin"@,
                "last_active_repo_id"@,
                "added_at"@,
                "last_used_at"@,
            ],
        },
        Shape {
            table: "session_groups"@,
            columns: seq![
                "id"@,
                "namespace_id"@,
                "name"@,
                "position"@,
                "created_at"@,
            ],
        },
        Shape {
            table: "run_commits"@,
            columns: seq![
                "id"@,
                "session_id"@,
                "run_id"@,
                "engine"@,
                "pre_head"@,
                "post_head"@,
                "commit_sha"@,
                "files_changed"@,
                "insertions"@,
                "deletions"@,
                "interrupted"@,
                "state"@,
                "created_at"@,
            ],
        },
        Shape {
            table: "run_commit_intents"@,
            columns: seq![
                "session_id"@,
                "run_id"@,
                "expected_head"@,
                "previous_state"@,
                "created_at"@,
            ],
        },
        Shape {
            table: "checkpoint_entries"@,
            columns: seq![
                "id"@,
                "session_id"@,
                "run_id"@,
                "member_id"@,
                "file_path"@,
                "existed"@,
                "blob_sha"@,
                "file_mode"@,
                "is_symlink"@,
                "created_at"@,
            ],
        },
        Shape {
            table: "team_run_pending"@,
            columns: seq![
                "id"@,
                "session_id"@,
                "run_id"@,
                "goal"@,
                "lead_participant_id"@,
                "assignments_json"@,
                "started_at"@,
                "state"@,
                "created_at"@,
            ],
        },
        Shape {
            table: "decision_ledger"@,
            columns: seq![
                "id"@,
                "session_id"@,
                "run_id"@,
                "source_assignment_id"@,
                "text"@,
                "source_refs_json"@,
                "supersedes_json"@,
                "source_kind"@,
                "confidence"@,
                "created_at"@,
            ],
        },
        Shape {
            table: "memory_entries"@,
            columns: seq![
                "id"@,
                "session_id"@,
                "category"@,
                "text"@,
                "source_refs_json"@,
                "supersedes_json"@,
                "source"@,
                "confidence"@,
                "pinned"@,
                "created_at"@,
            ],
        },
        Shape {
            table: "lead_loop_state"@,
            columns: seq![
                "session_id"@,
                "autonomy"@,
                "active_run_id"@,
                "active_task_id"@,
                "last_event_cursor"@,
                "updated_at"@,
            ],
        },
        Shape {
            table: "artifacts"@,
            columns: seq![
                "id"@,
                "session_id"@,
                "run_id"@,
                "member_assignment_id"@,
                "branch"@,
                "base_sha"@,
                "commit_sha"@,
                "files_changed"@,
                "state"@,
                "created_at"@,
            ],
        },
        Shape {
            table: "verifications"@,
            columns: seq![
                "id"@,
                "artifact_id"@,
                "cmd"@,
                "artifact_sha"@,
                "exit_code"@,
                "output_ref"@,
                "verdict"@,
                "created_at"@,
            ],
        },
        Shape {
            table: "reviews"@,
            columns: seq![
                "id"@,
                "artifact_id"@,
                "reviewer_agent"@,
                "advisory"@,
                "verdict"@,
                "notes"@,
                "created_at"@,
            ],
        },
        Shape {
            table: "merge_candidates"@,
            columns: seq![
                "id"@,
                "artifact_id"@,
                "staging_branch"@,
                "state"@,
                "merged_sha"@,
                "created_at"@,
            ],
        },
        Shape {
            table: "landing_commits"@,
            columns: seq![
                "id"@,
                "session_id"@,
                "run_id"@,
                "artifact_id"@,
                "pre_head"@,
                "landed_head"@,
                "commit_count"@,
                "files_changed"@,
                "insertions"@,
                "deletions"@,
                "created_at"@,
            ],
        },
        Shape {
            table: "goal_contracts"@,
            columns: seq![
                "id"@,
                "session_id"@,
                "run_id"@,
                "goal"@,
                "lead_participant_id"@,
                "status"@,
                "created_at"@,
            ],
        },
        Shape {
            table: "acceptance_criteria"@,
            columns: seq![
                "id"@,
                "session_id"@,
                "run_id"@,
                "task_id"@,
                "contract_id"@,
                "scope"@,
                "claim"@,
                "verifier"@,
                "evidence"@,
                "status"@,
                "waiver"@,
                "created_at"@,
            ],
        },
        Shape {
            table: "agents"@,
            columns: seq![
                "id"@,
                "name"@,
                "access"@,
                "provider"@,
                "primary_model"@,
                "endpoint"@,
                "auth_mode"@,
                "model_opus"@,
                "model_sonnet"@,
                "model_haiku"@,
                "model_subagent"@,
                "reasoning_default"@,
                "max_output_tokens"@,
                "api_timeout_ms"@,
                "compat_disable_betas"@,
                "compat_disable_nonessential"@,
                "compat_disable_thinking"@,
                "compat_proxy"@,
                "custom_headers"@,
                "extra_body"@,
                "cap_reasoning"@,
                "cap_computer_use"@,
                "has_key"@,
                "is_builtin"@,
                "enabled"@,
                "sort_order"@,
                "created_at"@,
                "updated_at"@,
            ],
        },
        Shape {
            table: "memory_blocks"@,
            columns: seq![
                "session_id"@,
                "slot"@,
                "text"@,
                "title"@,
                "anchor_refs_json"@,
                "updated_by"@,
                "updated_at"@,
            ],
        },
        Shape {
            table: "session_runtime"@,
            columns: seq![
                "session_id"@,
                "status"@,
                "run_id"@,
                "updated_at"@,
            ],
        },
        Shape {
            table: "remote_inbox"@,
            columns: seq![
                "id"@,
                "session_id"@,
                "command_id"@,
                "kind"@,
                "payload"@,
                "created_at"@,
                "delivered_at"@,
            ],
        },
        Shape {
            table: "remote_devices"@,
            columns: seq![
                "device_id"@,
                "name"@,
                "token_hash"@,
                "refresh_hash"@,
                "access_expires_at"@,
                "created_at"@,
                "revoked_at"@,
            ],
        },
        Shape {
            table: "remote_registry_counter"@,
            columns: seq![
                "room_id"@,
                "next_generation"@,
            ],
        },
        Shape {
            table: "project_remote_rooms"@,
            columns: seq![
                "project_id"@,
                "room_id"@,
                "created_at_ms"@,
            ],
        },
        Shape {
            table: "project_intro"@,
            columns: seq![
                "repo_id"@,
                "content"@,
                "generated_at"@,
                "head_sha"@,
            ],
        },
        Shape {
            table: "daily_report"@,
            columns: seq![
                "repo_id"@,
                "content"@,
                "generated_at"@,
                "head_sha"@,
            ],
        },
    ]
}

/// The columns that statements of the store read or write and that came later: those of messages tell
/// which agent wrote them and by which key they are known, those of sessions say how they are
/// continued, shown, archived and deleted, those of checkpoints how a file was left, and those of
/// devices which room and which keys they have.
pub open spec fn later_shapes() -> Seq<Shape> {
    seq![
        Shape {
            table: "sessions"@,
            columns: seq![
                "repo_id"@,
                "git_state"@,
                "parent_session_id"@,
                "continued_to_session_id"@,
                "pinned"@,
                "unread"@,
                "archived"@,
                "archived_at"@,
                "deleted_at"@,
                "total_input_tokens"@,
                "total_output_tokens"@,
                "namespace_id"@,
                "group_id"@,
                "workspace_scope"@,
            ],
        },
        Shape {
            table: "messages"@,
            columns: seq![
                "agent_id"@,
                "agent_name_snapshot"@,
                "dedup_key"@,
            ],
        },
        Shape {
            table: "repos"@,
            columns: seq![
                "icon"@,
                "namespace_id"@,
            ],
        },
        Shape {
            table: "session_groups"@,
            columns: seq![
                "repo_id"@,
            ],
        },
        Shape {
            table: "checkpoint_entries"@,
            columns: seq![
                "allowed_root"@,
                "pre_xattrs"@,
                "post_sha"@,
                "post_missing"@,
                "post_file_type"@,
                "post_mode"@,
                "post_nlink"@,
                "post_inode"@,
                "post_xattr_sha"@,
                "post_tainted"@,
                "undone_at"@,
            ],
        },
        Shape {
            table: "goal_contracts"@,
            columns: seq![
                "assignments_json"@,
                "goal_title"@,
            ],
        },
        Shape {
            table: "agents"@,
            columns: seq![
                "cap_lead"@,
            ],
        },
        Shape {
            table: "memory_blocks"@,
            columns: seq![
                "revision"@,
                "updated_run_id"@,
            ],
        },
        Shape {
            table: "remote_inbox"@,
            columns: seq![
                "attempts"@,
                "failed_at"@,
                "last_error"@,
            ],
        },
        Shape {
            table: "remote_devices"@,
            columns: seq![
                "room_id"@,
                "generation"@,
                "refresh_until"@,
                "journal_request_id"@,
                "journal_generation"@,
                "journal_prev_generation"@,
                "journal_prev_access_hash"@,
                "journal_prev_refresh_hash"@,
                "journal_response_ct"@,
                "journal_response_n"@,
                "journal_prev_expires_at"@,
                "journal_response_expires"@,
            ],
        },
    ]
}

/// Whether a store has a table with all of some columns.
pub open spec fn has_shape(store: Store, shape: Shape) -> bool {
    &&& upkeep::has_table(store, shape.table)
    &&& forall|i: int|
        0 <= i < shape.columns.len() ==> upkeep::has_column(
            store,
            shape.table,
            #[trigger] shape.columns[i],
        )
}

/// Whether a store is one of this version or of an earlier one: its tables have the columns of the
/// first version, the agents' at least where harness access is allowed; and the tables of documents
/// are there where its version says so.
pub open spec fn is_of_the_line(store: Store) -> bool {
    &&& forall|i: int|
        0 <= i < first_shapes().len() && upkeep::has_table(
            store,
            (#[trigger] first_shapes()[i]).table,
        ) && (first_shapes()[i].table == "agents"@ ==> text::occurs(
            store.tables["agents"@].definition,
            "'harness'"@,
        )) ==> has_shape(store, first_shapes()[i])
    &&& store.version >= 1 ==> upkeep::has_table(store, "project_intro"@) && upkeep::has_table(
        store,
        "daily_report"@,
    )
}

/// Whether no step of the set-up leaves the line: what it makes or rebuilds has the columns of the
/// first version, and it drops none of them.
pub open spec fn stays_in_line(histories: Seq<Seq<Store>>) -> bool {
    &&& forall|i: int| 0 <= i < histories.len() ==> (#[trigger] histories[i]).len() > 0
    &&& forall|i: int, k: int|
        0 <= i < histories.len() && 0 <= k < histories[i].len() - 1 && is_of_the_line(
            #[trigger] histories[i][k],
        ) ==> is_of_the_line(histories[i][k + 1])
}

proof fn lemma_history_stays(histories: Seq<Seq<Store>>, i: int, k: int)
    requires
        stays_in_line(histories),
        0 <= i < histories.len(),
        0 <= k < histories[i].len(),
        is_of_the_line(histories[i][0]),
    ensures
        is_of_the_line(histories[i][k]),
    decreases k,
{
    if k > 0 {
        lemma_history_stays(histories, i, k - 1);
        assert(is_of_the_line(histories[i][k - 1 + 1]));
    }
}

proof fn lemma_histories_stay(marks: Seq<Trace>, histories: Seq<Seq<Store>>, i: int)
    requires
        upkeep::store_follows_stages(marks, histories),
        stays_in_line(histories),
        0 <= i < histories.len(),
        is_of_the_line(histories[0][0]),
    ensures
        is_of_the_line(histories[i].last()),
    decreases i,
{
    if i > 0 {
        lemma_histories_stay(marks, histories, i - 1);
        assert(histories[i][0] == histories[i - 1].last());
    }
    assert(histories[i].len() > 0);
    lemma_history_stays(histories, i, histories[i].len() - 1);
}

proof fn lemma_sessions_have_later_columns(store: Store)
    requires
        schema::schema_plan().len() == 42,
        forall|i: int|
            0 <= i < schema::schema_plan().len() && !upkeep::runs_a_statement(
                #[trigger] schema::schema_plan()[i],
            ) ==> upkeep::stage_settled(store, schema::schema_plan()[i]),
    ensures
        forall|i: int|
            0 <= i < later_shapes()[0].columns.len() ==> upkeep::has_column(
                store,
                "sessions"@,
                #[trigger] later_shapes()[0].columns[i],
            ),
{
    let plan = schema::schema_plan();
    assert(plan[10] == schema::repository_plan()[0]);
    assert(upkeep::stage_settled(store, plan[10]));
    assert(upkeep::has_column(store, "sessions"@, plan[10]->Columns_columns[0].name@));
    assert(plan[14] == schema::repository_plan()[4]);
    assert(upkeep::stage_settled(store, plan[14]));
    assert(plan[15] == schema::repository_plan()[5]);
    assert(upkeep::stage_settled(store, plan[15]));
    assert(plan[16] == schema::session_plan()[0]);
    assert(upkeep::stage_settled(store, plan[16]));
    assert(upkeep::has_column(store, "sessions"@, plan[16]->Columns_columns[0].name@));
    assert(plan[17] == schema::session_plan()[1]);
    assert(upkeep::stage_settled(store, plan[17]));
    assert(upkeep::has_column(store, "sessions"@, plan[17]->Columns_columns[0].name@));
    assert(plan[18] == schema::session_plan()[2]);
    assert(upkeep::stage_settled(store, plan[18]));
    assert(upkeep::has_column(store, "sessions"@, plan[18]->Columns_columns[0].name@));
    assert(plan[19] == schema::session_plan()[3]);
    assert(upkeep::stage_settled(store, plan[19]));
    assert(upkeep::has_column(store, "sessions"@, plan[19]->Columns_columns[0].name@));
    assert(plan[20] == schema::session_plan()[4]);
    assert(upkeep::stage_settled(store, plan[20]));
    assert(upkeep::has_column(store, "sessions"@, plan[20]->Columns_columns[0].name@));
    assert(plan[21] == schema::session_plan()[5]);
    assert(upkeep::stage_settled(store, plan[21]));
    assert(upkeep::has_column(store, "sessions"@, plan[21]->Columns_columns[0].name@));
    assert(plan[22] == schema::session_plan()[6]);
    assert(upkeep::stage_settled(store, plan[22]));
    assert(upkeep::has_column(store, "sessions"@, plan[22]->Columns_columns[0].name@));
    assert(plan[23] == schema::session_plan()[7]);
    assert(upkeep::stage_settled(store, plan[23]));
    assert(upkeep::has_column(store, "sessions"@, plan[23]->Columns_columns[0].name@));
    assert(plan[24] == schema::session_plan()[8]);
    assert(upkeep::stage_settled(store, plan[24]));
    assert(upkeep::has_column(store, "sessions"@, plan[24]->Columns_columns[0].name@));
    assert(plan[25] == schema::session_plan()[9]);
    assert(upkeep::stage_settled(store, plan[25]));
    assert(upkeep::has_column(store, "sessions"@, plan[25]->Columns_columns[0].name@));
    assert(plan[26] == schema::session_plan()[10]);
    assert(upkeep::stage_settled(store, plan[26]));
    assert(upkeep::has_column(store, "sessions"@, "repo_id"@));
    assert(upkeep::has_column(store, "sessions"@, "git_state"@));
    assert(upkeep::has_column(store, "sessions"@, "parent_session_id"@));
    assert(upkeep::has_column(store, "sessions"@, "continued_to_session_id"@));
    assert(upkeep::has_column(store, "sessions"@, "pinned"@));
    assert(upkeep::has_column(store, "sessions"@, "unread"@));
    assert(upkeep::has_column(store, "sessions"@, "archived"@));
    assert(upkeep::has_column(store, "sessions"@, "archived_at"@));
    assert(upkeep::has_column(store, "sessions"@, "deleted_at"@));
    assert(upkeep::has_column(store, "sessions"@, "total_input_tokens"@));
    assert(upkeep::has_column(store, "sessions"@, "total_output_tokens"@));
    assert(upkeep::has_column(store, "sessions"@, "namespace_id"@));
    assert(upkeep::has_column(store, "sessions"@, "group_id"@));
    assert(upkeep::has_column(store, "sessions"@, "workspace_scope"@));
}

proof fn lemma_messages_have_later_columns(store: Store)
    requires
        schema::schema_plan().len() == 42,
        forall|i: int|
            0 <= i < schema::schema_plan().len() && !upkeep::runs_a_statement(
                #[trigger] schema::schema_plan()[i],
            ) ==> upkeep::stage_settled(store, schema::schema_plan()[i]),
    ensures
        forall|i: int|
            0 <= i < later_shapes()[1].columns.len() ==> upkeep::has_column(
                store,
                "messages"@,
                #[trigger] later_shapes()[1].columns[i],
            ),
{
    let plan = schema::schema_plan();
    assert(plan[3] == schema::foundation_plan()[3]);
    assert(upkeep::stage_settled(store, plan[3]));
    assert(upkeep::has_column(store, "messages"@, plan[3]->Columns_columns[0].name@));
    assert(upkeep::has_column(store, "messages"@, plan[3]->Columns_columns[1].name@));
    assert(plan[29] == schema::inbox_plan()[0]);
    assert(upkeep::stage_settled(store, plan[29]));
    assert(upkeep::has_column(store, "messages"@, plan[29]->Columns_columns[0].name@));
    assert(upkeep::has_column(store, "messages"@, "agent_id"@));
    assert(upkeep::has_column(store, "messages"@, "agent_name_snapshot"@));
    assert(upkeep::has_column(store, "messages"@, "dedup_key"@));
}

proof fn lemma_repos_have_later_columns(store: Store)
    requires
        schema::schema_plan().len() == 42,
        forall|i: int|
            0 <= i < schema::schema_plan().len() && !upkeep::runs_a_statement(
                #[trigger] schema::schema_plan()[i],
            ) ==> upkeep::stage_settled(store, schema::schema_plan()[i]),
    ensures
        forall|i: int|
            0 <= i < later_shapes()[2].columns.len() ==> upkeep::has_column(
                store,
                "repos"@,
                #[trigger] later_shapes()[2].columns[i],
            ),
{
    let plan = schema::schema_plan();
    assert(plan[13] == schema::repository_plan()[3]);
    assert(upkeep::stage_settled(store, plan[13]));
    assert(plan[14] == schema::repository_plan()[4]);
    assert(upkeep::stage_settled(store, plan[14]));
    assert(upkeep::has_column(store, "repos"@, "icon"@));
    assert(upkeep::has_column(store, "repos"@, "namespace_id"@));
}

proof fn lemma_session_groups_have_later_columns(store: Store)
    requires
        schema::schema_plan().len() == 42,
        forall|i: int|
            0 <= i < schema::schema_plan().len() && !upkeep::runs_a_statement(
                #[trigger] schema::schema_plan()[i],
            ) ==> upkeep::stage_settled(store, schema::schema_plan()[i]),
    ensures
        forall|i: int|
            0 <= i < later_shapes()[3].columns.len() ==> upkeep::has_column(
                store,
                "session_groups"@,
                #[trigger] later_shapes()[3].columns[i],
            ),
{
    let plan = schema::schema_plan();
    assert(plan[27] == schema::session_plan()[11]);
    assert(upkeep::stage_settled(store, plan[27]));
    assert(upkeep::has_column(store, "session_groups"@, "repo_id"@));
}

proof fn lemma_checkpoint_entries_have_later_columns(store: Store)
    requires
        schema::schema_plan().len() == 42,
        forall|i: int|
            0 <= i < schema::schema_plan().len() && !upkeep::runs_a_statement(
                #[trigger] schema::schema_plan()[i],
            ) ==> upkeep::stage_settled(store, schema::schema_plan()[i]),
    ensures
        forall|i: int|
            0 <= i < later_shapes()[4].columns.len() ==> upkeep::has_column(
                store,
                "checkpoint_entries"@,
                #[trigger] later_shapes()[4].columns[i],
            ),
{
    let plan = schema::schema_plan();
    assert(plan[2] == schema::foundation_plan()[2]);
    assert(upkeep::stage_settled(store, plan[2]));
    assert(upkeep::has_column(store, "checkpoint_entries"@, plan[2]->Columns_columns[0].name@));
    assert(upkeep::has_column(store, "checkpoint_entries"@, plan[2]->Columns_columns[1].name@));
    assert(upkeep::has_column(store, "checkpoint_entries"@, plan[2]->Columns_columns[2].name@));
    assert(upkeep::has_column(store, "checkpoint_entries"@, plan[2]->Columns_columns[3].name@));
    assert(upkeep::has_column(store, "checkpoint_entries"@, plan[2]->Columns_columns[4].name@));
    assert(upkeep::has_column(store, "checkpoint_entries"@, plan[2]->Columns_columns[5].name@));
    assert(upkeep::has_column(store, "checkpoint_entries"@, plan[2]->Columns_columns[6].name@));
    assert(upkeep::has_column(store, "checkpoint_entries"@, plan[2]->Columns_columns[7].name@));
    assert(upkeep::has_column(store, "checkpoint_entries"@, plan[2]->Columns_columns[8].name@));
    assert(upkeep::has_column(store, "checkpoint_entries"@, plan[2]->Columns_columns[9].name@));
    assert(upkeep::has_column(store, "checkpoint_entries"@, plan[2]->Columns_columns[10].name@));
    assert(upkeep::has_column(store, "checkpoint_entries"@, "allowed_root"@));
    assert(upkeep::has_column(store, "checkpoint_entries"@, "pre_xattrs"@));
    assert(upkeep::has_column(store, "checkpoint_entries"@, "post_sha"@));
    assert(upkeep::has_column(store, "checkpoint_entries"@, "post_missing"@));
    assert(upkeep::has_column(store, "checkpoint_entries"@, "post_file_type"@));
    assert(upkeep::has_column(store, "checkpoint_entries"@, "post_mode"@));
    assert(upkeep::has_column(store, "checkpoint_entries"@, "post_nlink"@));
    assert(upkeep::has_column(store, "checkpoint_entries"@, "post_inode"@));
    assert(upkeep::has_column(store, "checkpoint_entries"@, "post_xattr_sha"@));
    assert(upkeep::has_column(store, "checkpoint_entries"@, "post_tainted"@));
    assert(upkeep::has_column(store, "checkpoint_entries"@, "undone_at"@));
}

proof fn lemma_goal_contracts_have_later_columns(store: Store)
    requires
        schema::schema_plan().len() == 42,
        forall|i: int|
            0 <= i < schema::schema_plan().len() && !upkeep::runs_a_statement(
                #[trigger] schema::schema_plan()[i],
            ) ==> upkeep::stage_settled(store, schema::schema_plan()[i]),
    ensures
        forall|i: int|
            0 <= i < later_shapes()[5].columns.len() ==> upkeep::has_column(
                store,
                "goal_contracts"@,
                #[trigger] later_shapes()[5].columns[i],
            ),
{
    let plan = schema::schema_plan();
    assert(plan[11] == schema::repository_plan()[1]);
    assert(upkeep::stage_settled(store, plan[11]));
    assert(upkeep::has_column(store, "goal_contracts"@, plan[11]->LenientColumns_columns[0].name@));
    assert(plan[12] == schema::repository_plan()[2]);
    assert(upkeep::stage_settled(store, plan[12]));
    assert(upkeep::has_column(store, "goal_contracts"@, plan[12]->LenientColumns_columns[0].name@));
    assert(upkeep::has_column(store, "goal_contracts"@, "assignments_json"@));
    assert(upkeep::has_column(store, "goal_contracts"@, "goal_title"@));
}

proof fn lemma_agents_have_later_columns(store: Store)
    requires
        schema::schema_plan().len() == 42,
        forall|i: int|
            0 <= i < schema::schema_plan().len() && !upkeep::runs_a_statement(
                #[trigger] schema::schema_plan()[i],
            ) ==> upkeep::stage_settled(store, schema::schema_plan()[i]),
    ensures
        forall|i: int|
            0 <= i < later_shapes()[6].columns.len() ==> upkeep::has_column(
                store,
                "agents"@,
                #[trigger] later_shapes()[6].columns[i],
            ),
{
    let plan = schema::schema_plan();
    assert(plan[5] == schema::foundation_plan()[5]);
    assert(upkeep::stage_settled(store, plan[5]));
    assert(upkeep::has_column(store, "agents"@, plan[5]->Columns_columns[0].name@));
    assert(upkeep::has_column(store, "agents"@, "cap_lead"@));
}

proof fn lemma_memory_blocks_have_later_columns(store: Store)
    requires
        schema::schema_plan().len() == 42,
        forall|i: int|
            0 <= i < schema::schema_plan().len() && !upkeep::runs_a_statement(
                #[trigger] schema::schema_plan()[i],
            ) ==> upkeep::stage_settled(store, schema::schema_plan()[i]),
    ensures
        forall|i: int|
            0 <= i < later_shapes()[7].columns.len() ==> upkeep::has_column(
                store,
                "memory_blocks"@,
                #[trigger] later_shapes()[7].columns[i],
            ),
{
    let plan = schema::schema_plan();
    assert(plan[4] == schema::foundation_plan()[4]);
    assert(upkeep::stage_settled(store, plan[4]));
    assert(upkeep::has_column(store, "memory_blocks"@, plan[4]->Columns_columns[0].name@));
    assert(upkeep::has_column(store, "memory_blocks"@, plan[4]->Columns_columns[1].name@));
    assert(upkeep::has_column(store, "memory_blocks"@, "revision"@));
    assert(upkeep::has_column(store, "memory_blocks"@, "updated_run_id"@));
}

proof fn lemma_remote_inbox_have_later_columns(store: Store)
    requires
        schema::schema_plan().len() == 42,
        forall|i: int|
            0 <= i < schema::schema_plan().len() && !upkeep::runs_a_statement(
                #[trigger] schema::schema_plan()[i],
            ) ==> upkeep::stage_settled(store, schema::schema_plan()[i]),
    ensures
        forall|i: int|
            0 <= i < later_shapes()[8].columns.len() ==> upkeep::has_column(
                store,
                "remote_inbox"@,
                #[trigger] later_shapes()[8].columns[i],
            ),
{
    let plan = schema::schema_plan();
    assert(plan[33] == schema::inbox_plan()[4]);
    assert(upkeep::stage_settled(store, plan[33]));
    assert(upkeep::has_column(store, "remote_inbox"@, plan[33]->Columns_columns[0].name@));
    assert(upkeep::has_column(store, "remote_inbox"@, plan[33]->Columns_columns[1].name@));
    assert(upkeep::has_column(store, "remote_inbox"@, plan[33]->Columns_columns[2].name@));
    assert(upkeep::has_column(store, "remote_inbox"@, "attempts"@));
    assert(upkeep::has_column(store, "remote_inbox"@, "failed_at"@));
    assert(upkeep::has_column(store, "remote_inbox"@, "last_error"@));
}

proof fn lemma_remote_devices_have_later_columns(store: Store)
    requires
        schema::schema_plan().len() == 42,
        forall|i: int|
            0 <= i < schema::schema_plan().len() && !upkeep::runs_a_statement(
                #[trigger] schema::schema_plan()[i],
            ) ==> upkeep::stage_settled(store, schema::schema_plan()[i]),
    ensures
        forall|i: int|
            0 <= i < later_shapes()[9].columns.len() ==> upkeep::has_column(
                store,
                "remote_devices"@,
                #[trigger] later_shapes()[9].columns[i],
            ),
{
    let plan = schema::schema_plan();
    assert(plan[37] == schema::device_plan()[1]);
    assert(upkeep::stage_settled(store, plan[37]));
    assert(upkeep::has_column(store, "remote_devices"@, plan[37]->Columns_columns[0].name@));
    assert(upkeep::has_column(store, "remote_devices"@, plan[37]->Columns_columns[1].name@));
    assert(upkeep::has_column(store, "remote_devices"@, plan[37]->Columns_columns[2].name@));
    assert(upkeep::has_column(store, "remote_devices"@, plan[37]->Columns_columns[3].name@));
    assert(upkeep::has_column(store, "remote_devices"@, plan[37]->Columns_columns[4].name@));
    assert(upkeep::has_column(store, "remote_devices"@, plan[37]->Columns_columns[5].name@));
    assert(upkeep::has_column(store, "remote_devices"@, plan[37]->Columns_columns[6].name@));
    assert(upkeep::has_column(store, "remote_devices"@, plan[37]->Columns_columns[7].name@));
    assert(upkeep::has_column(store, "remote_devices"@, plan[37]->Columns_columns[8].name@));
    assert(upkeep::has_column(store, "remote_devices"@, plan[37]->Columns_columns[9].name@));
    assert(upkeep::has_column(store, "remote_devices"@, plan[37]->Columns_columns[10].name@));
    assert(upkeep::has_column(store, "remote_devices"@, plan[37]->Columns_columns[11].name@));
    assert(upkeep::has_column(store, "remote_devices"@, "room_id"@));
    assert(upkeep::has_column(store, "remote_devices"@, "generation"@));
    assert(upkeep::has_column(store, "remote_devices"@, "refresh_until"@));
    assert(upkeep::has_column(store, "remote_devices"@, "journal_request_id"@));
    assert(upkeep::has_column(store, "remote_devices"@, "journal_generation"@));
    assert(upkeep::has_column(store, "remote_devices"@, "journal_prev_generation"@));
    assert(upkeep::has_column(store, "remote_devices"@, "journal_prev_access_hash"@));
    assert(upkeep::has_column(store, "remote_devices"@, "journal_prev_refresh_hash"@));
    assert(upkeep::has_column(store, "remote_devices"@, "journal_response_ct"@));
    assert(upkeep::has_column(store, "remote_devices"@, "journal_response_n"@));
    assert(upkeep::has_column(store, "remote_devices"@, "journal_prev_expires_at"@));
    assert(upkeep::has_column(store, "remote_devices"@, "journal_response_expires"@));
}

proof fn lemma_tables_are_there(store: Store)
    requires
        upkeep::has_tables(store, upkeep::base_tables()),
        upkeep::has_table(store, "session_runtime"@),
        upkeep::has_table(store, "remote_inbox"@),
        upkeep::has_table(store, "remote_devices"@),
        upkeep::has_table(store, "remote_registry_counter"@),
        upkeep::has_table(store, "project_remote_rooms"@),
        upkeep::has_table(store, "project_intro"@),
        upkeep::has_table(store, "daily_report"@),
    ensures
        forall|i: int|
            0 <= i < first_shapes().len() ==> upkeep::has_table(
                store,
                (#[trigger] first_shapes()[i]).table,
            ),
{
    assert forall|i: int| 0 <= i < first_shapes().len() implies upkeep::has_table(
        store,
        (#[trigger] first_shapes()[i]).table,
    ) by {
        if i < 25 {
            assert(first_shapes()[i].table == upkeep::base_tables()[i]);
        }
    }
}

proof fn lemma_first_columns_are_there(store: Store)
    requires
        is_of_the_line(store),
        text::occurs(store.tables["agents"@].definition, "'harness'"@),
        forall|i: int|
            0 <= i < first_shapes().len() ==> upkeep::has_table(
                store,
                (#[trigger] first_shapes()[i]).table,
            ),
    ensures
        forall|i: int|
            0 <= i < first_shapes().len() ==> has_shape(store, #[trigger] first_shapes()[i]),
{
}

proof fn lemma_later_columns_are_there(store: Store)
    requires
        schema::schema_plan().len() == 42,
        forall|i: int|
            0 <= i < schema::schema_plan().len() && !upkeep::runs_a_statement(
                #[trigger] schema::schema_plan()[i],
            ) ==> upkeep::stage_settled(store, schema::schema_plan()[i]),
    ensures
        forall|i: int|
            0 <= i < later_shapes().len() ==> has_shape(store, #[trigger] later_shapes()[i]),
{
    assert(has_shape(store, later_shapes()[0])) by {
        lemma_sessions_have_later_columns(store);
        assert(later_shapes()[0].columns[0] == "repo_id"@);
        assert(upkeep::has_column(store, "sessions"@, later_shapes()[0].columns[0]));
    }
    assert(has_shape(store, later_shapes()[1])) by {
        lemma_messages_have_later_columns(store);
        assert(later_shapes()[1].columns[0] == "agent_id"@);
        assert(upkeep::has_column(store, "messages"@, later_shapes()[1].columns[0]));
    }
    assert(has_shape(store, later_shapes()[2])) by {
        lemma_repos_have_later_columns(store);
        assert(later_shapes()[2].columns[0] == "icon"@);
        assert(upkeep::has_column(store, "repos"@, later_shapes()[2].columns[0]));
    }
    assert(has_shape(store, later_shapes()[3])) by {
        lemma_session_groups_have_later_columns(store);
        assert(later_shapes()[3].columns[0] == "repo_id"@);
        assert(upkeep::has_column(store, "session_groups"@, later_shapes()[3].columns[0]));
    }
    assert(has_shape(store, later_shapes()[4])) by {
        lemma_checkpoint_entries_have_later_columns(store);
        assert(later_shapes()[4].columns[0] == "allowed_root"@);
        assert(upkeep::has_column(store, "checkpoint_entries"@, later_shapes()[4].columns[0]));
    }
    assert(has_shape(store, later_shapes()[5])) by {
        lemma_goal_contracts_have_later_columns(store);
        assert(later_shapes()[5].columns[0] == "assignments_json"@);
        assert(upkeep::has_column(store, "goal_contracts"@, later_shapes()[5].columns[0]));
    }
    assert(has_shape(store, later_shapes()[6])) by {
        lemma_agents_have_later_columns(store);
        assert(later_shapes()[6].columns[0] == "cap_lead"@);
        assert(upkeep::has_column(store, "agents"@, later_shapes()[6].columns[0]));
    }
    assert(has_shape(store, later_shapes()[7])) by {
        lemma_memory_blocks_have_later_columns(store);
        assert(later_shapes()[7].columns[0] == "revision"@);
        assert(upkeep::has_column(store, "memory_blocks"@, later_shapes()[7].columns[0]));
    }
    assert(has_shape(store, later_shapes()[8])) by {
        lemma_remote_inbox_have_later_columns(store);
        assert(later_shapes()[8].columns[0] == "attempts"@);
        assert(upkeep::has_column(store, "remote_inbox"@, later_shapes()[8].columns[0]));
    }
    assert(has_shape(store, later_shapes()[9])) by {
        lemma_remote_devices_have_later_columns(store);
        assert(later_shapes()[9].columns[0] == "room_id"@);
        assert(upkeep::has_column(store, "remote_devices"@, later_shapes()[9].columns[0]));
    }
    assert(later_shapes().len() == 10);
}

proof fn lemma_documents_and_harness(store: Store)
    requires
        is_of_the_line(store),
        schema::schema_plan().len() == 42,
        forall|i: int|
            0 <= i < schema::schema_plan().len() && !upkeep::runs_a_statement(
                #[trigger] schema::schema_plan()[i],
            ) ==> upkeep::stage_settled(store, schema::schema_plan()[i]),
    ensures
        upkeep::has_table(store, "project_intro"@),
        upkeep::has_table(store, "daily_report"@),
        text::occurs(store.tables["agents"@].definition, "'harness'"@),
{
    assert(schema::schema_plan()[1] == schema::foundation_plan()[1]);
    assert(schema::schema_plan()[8] == schema::agent_plan()[2]);
    assert(upkeep::stage_settled(store, schema::schema_plan()[1]));
    assert(upkeep::stage_settled(store, schema::schema_plan()[8]));
}

/// After a set-up that succeeds, of a new database or of one of an earlier version, every table that
/// the store's statements name is there, with every column that they read or write.
pub proof fn law_setup_leaves_every_column(
    marks: Seq<Trace>,
    pre: Trace,
    post: Trace,
    histories: Seq<Seq<Store>>,
)
    requires
        schema::passed(marks, pre, post, schema::schema_plan(), Ok::<(), DbError>(())),
        upkeep::store_follows_stages(marks, histories),
        stays_in_line(histories),
        is_of_the_line(histories[0][0]),
    ensures
        forall|i: int|
            0 <= i < first_shapes().len() ==> has_shape(
                histories.last().last(),
                #[trigger] first_shapes()[i],
            ),
        forall|i: int|
            0 <= i < later_shapes().len() ==> has_shape(
                histories.last().last(),
                #[trigger] later_shapes()[i],
            ),
{
    let store = histories.last().last();
    made::lemma_setup_makes_tables_and_columns(marks, pre, post, histories);
    lemma_histories_stay(marks, histories, histories.len() - 1);
    lemma_documents_and_harness(store);
    lemma_tables_are_there(store);
    lemma_first_columns_are_there(store);
    lemma_later_columns_are_there(store);
}

} // verus!
