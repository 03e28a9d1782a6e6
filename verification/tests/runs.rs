use agentloom_db::artifacts::{
    Artifact,
    LandingCommit,
    MergeCandidate,
    Verification,
    earliest_landing_pre_head_for_session,
    get_artifact,
    get_artifact_by_member,
    get_merge_candidate_by_artifact,
    get_verification,
    insert_artifact,
    insert_landing_commit,
    insert_verification,
    landing_commit_ranges_for_session,
    latest_landing_commit,
    latest_staged_unlanded_run,
    latest_verdict_for_artifact,
    latest_verification_for_artifact,
    list_finalizing_artifacts,
    list_verifications_for_artifact,
    merged_artifact_for_run,
    recover_finalizing_artifacts,
    set_artifact_state,
    upsert_merge_candidate,
};
use agentloom_db::blocks::Block;
use agentloom_db::engine::{Db, DbError};
use agentloom_db::messages::{append_message, get_messages};
use agentloom_db::runs::{
    RunCloseoutMetadata,
    begin_run_commit_intent,
    delete_run_commit_intent,
    delete_run_pending,
    earliest_run_pre_head_for_session,
    finalize_run_pending_without_git_writes,
    has_run_commit_intent,
    insert_run_pending,
    insert_team_run_pending,
    last_active_run_commit,
    last_run_commit,
    last_session_agent_id,
    latest_recorded_run_commit,
    list_active_checkpoint_paths_with_run_lifecycle_for_session,
    list_checkpoint_file_paths_for_session,
    list_interrupted_team_runs,
    list_run_commit_intents,
    list_run_commit_states,
    mark_run_failed,
    mark_team_run_done,
    recent_activity_by_day,
    record_run_commit,
    recorded_run_commit_ranges_for_session,
    recover_interrupted_team_runs,
    run_commit,
    run_lifecycle_for_run,
    set_run_commit_state,
    team_run_pending_assignments,
};
use agentloom_db::schema::init_schema;
use agentloom_db::sessions::{create_session, delete_session};

fn open() -> Db {
    Db::new(rusqlite::Connection::open_in_memory().unwrap())
}

fn mem() -> Db {
    let mut c = open();
    init_schema(&mut c).unwrap();
    c.connection()
        .execute(
            "INSERT OR IGNORE INTO namespaces (id, kind, name, is_builtin, added_at) VALUES ('local', 'local', 'Local', 1, 0)",
            [],
        )
        .unwrap();
    c.connection()
        .execute(
            "INSERT OR IGNORE INTO repos (id, namespace_id, source, name, path, status, added_at) VALUES ('local-default', 'local', 'local', '我的项目', '/tmp/agentloom-mem-local-default', 'active', 0)",
            [],
        )
        .unwrap();
    c
}

fn bare() -> Db {
    let mut c = open();
    init_schema(&mut c).unwrap();
    c
}

fn encode(blocks: &[Block]) -> String {
    let list = blocks
        .iter()
        .map(|b| {
            let (kind, text) = match b {
                Block::Text { text } => ("text", text),
                Block::Thinking { text } => ("thinking", text),
                other => panic!("a block that is no text: {other:?}"),
            };
            let mut object = serde_json::Map::new();
            object.insert("type".into(), kind.into());
            object.insert("text".into(), text.as_str().into());
            serde_json::Value::Object(object)
        })
        .collect();
    serde_json::Value::Array(list).to_string()
}

fn decode(text: &str) -> Option<Vec<Block>> {
    let value: serde_json::Value = serde_json::from_str(text).ok()?;
    value
        .as_array()?
        .iter()
        .map(|b| {
            let text = b.get("text")?.as_str()?.to_string();
            match b.get("type")?.as_str()? {
                "text" => Some(Block::Text { text }),
                "thinking" => Some(Block::Thinking { text }),
                _ => None,
            }
        })
        .collect()
}

#[test]
fn verification_crud_and_latest_verdict() {
    let mut conn = open();
    init_schema(&mut conn).unwrap();
    let mk = |id: &str, verdict: &str, exit: Option<i64>, at: i64| Verification {
        id: id.into(),
        artifact_id: "art-1".into(),
        cmd: "cargo test".into(),
        artifact_sha: "sha-abc".into(),
        exit_code: exit,
        output_ref: Some("ok".into()),
        verdict: verdict.into(),
        created_at: at,
    };
    insert_verification(&mut conn, &mk("v-1", "failed", Some(1), 100)).unwrap();
    insert_verification(&mut conn, &mk("v-2", "passed", Some(0), 200)).unwrap();
    insert_verification(
        &mut conn,
        &Verification {
            id: "v-x".into(),
            artifact_id: "art-2".into(),
            ..mk("v-x", "passed", Some(0), 300)
        },
    )
    .unwrap();

    let got = get_verification(&mut conn, "v-2").unwrap().unwrap();
    assert_eq!(got.verdict, "passed");
    assert_eq!(got.exit_code, Some(0));
    assert_eq!(got.artifact_sha, "sha-abc");

    let list = list_verifications_for_artifact(&mut conn, "art-1").unwrap();
    let ids: Vec<&str> = list.iter().map(|v| v.id.as_str()).collect();
    assert_eq!(ids, vec!["v-1", "v-2"]);

    assert_eq!(
        latest_verdict_for_artifact(&mut conn, "art-1")
            .unwrap()
            .as_deref(),
        Some("passed"));
    assert_eq!(latest_verdict_for_artifact(&mut conn, "art-zzz").unwrap(), None);
}

#[test]
fn team_run_pending_insert_and_recover() {
    let mut c = mem();
    insert_team_run_pending(
        &mut c,
        "s1",
        "run-1",
        "目标X",
        "lead-1",
        r#"[{"assignment_id":"a1"}]"#,
    )
    .unwrap();
    let recovered = recover_interrupted_team_runs(&mut c).unwrap();
    assert_eq!(recovered.len(), 1);
    assert_eq!(recovered[0].session_id, "s1");
    assert_eq!(recovered[0].run_id, "run-1");
    assert_eq!(recovered[0].goal.as_deref(), Some("目标X"));
    assert_eq!(recovered[0].lead_participant_id.as_deref(), Some("lead-1"));
    assert_eq!(recovered[0].assignments_json, r#"[{"assignment_id":"a1"}]"#);
    let run_1_state: String = c
        .connection()
        .query_row(
            "SELECT state FROM team_run_pending WHERE run_id = ?1",
            ["run-1"],
            |r| r.get(0),
        )
        .unwrap();
    assert_eq!(run_1_state, "interrupted");
    assert_eq!(recover_interrupted_team_runs(&mut c).unwrap().len(), 0);
    insert_team_run_pending(&mut c, "s1", "run-2", "目标Y", "lead-1", "[]").unwrap();
    mark_team_run_done(&mut c, "s1", "run-2").unwrap();
    assert_eq!(recover_interrupted_team_runs(&mut c).unwrap().len(), 0);
    let run_2_state: String = c
        .connection()
        .query_row(
            "SELECT state FROM team_run_pending WHERE run_id = ?1",
            ["run-2"],
            |r| r.get(0),
        )
        .unwrap();
    assert_eq!(run_2_state, "done");
}

#[test]
fn list_interrupted_returns_session_interrupted_rows() {
    let mut c = mem();
    insert_team_run_pending(&mut c, "s1", "run-1", "目标X", "lead-1", r#"["a1"]"#).unwrap();
    insert_team_run_pending(&mut c, "s2", "run-2", "目标Y", "lead-2", "[]").unwrap();
    recover_interrupted_team_runs(&mut c).unwrap();
    let s1 = list_interrupted_team_runs(&mut c, "s1").unwrap();
    assert_eq!(s1.len(), 1);
    assert_eq!(s1[0].run_id, "run-1");
    assert_eq!(s1[0].goal.as_deref(), Some("目标X"));
    assert_eq!(s1[0].assignments_json, r#"["a1"]"#);
    assert_eq!(list_interrupted_team_runs(&mut c, "s2").unwrap().len(), 1);
    assert_eq!(list_interrupted_team_runs(&mut c, "sX").unwrap().len(), 0);
    insert_team_run_pending(&mut c, "s3", "run-3", "目标Z", "lead-3", "[]").unwrap();
    mark_team_run_done(&mut c, "s3", "run-3").unwrap();
    assert_eq!(list_interrupted_team_runs(&mut c, "s3").unwrap().len(), 0);
}

#[test]
fn delete_session_removes_it_and_its_messages() {
    let mut c = mem();
    create_session(&mut c, "s1", "A", "local-default", "local").unwrap();
    create_session(&mut c, "s2", "B", "local-default", "local").unwrap();
    append_message(
        &mut c,
        "s1",
        "user",
        &[Block::Text { text: "hi".into() }],
        None,
        None,
        None, encode,
    )
    .unwrap();
    insert_run_pending(&mut c, "s1", "run-1", "codex", "base").unwrap();
    begin_run_commit_intent(&mut c, "s1", "run-1", "base", "running").unwrap();
    delete_session(&mut c, "s1").unwrap();
    assert_eq!(get_messages(&mut c, "s1", decode).unwrap().len(), 0);
    assert!(list_run_commit_intents(&mut c).unwrap().is_empty());
    create_session(&mut c, "s3", "C", "local-default", "local").unwrap();
    assert!(get_messages(&mut c, "s2", decode).is_ok());
}

#[test]
fn record_run_commit_preserves_first_pre_head_and_advances_post_head() {
    let mut c = mem();
    create_session(&mut c, "s1", "x", "local-default", "local").unwrap();
    insert_run_pending(&mut c, "s1", "r1", "codex", "base").unwrap();

    record_run_commit(&mut c, "s1", "r1", "first", Some(1), Some(2), Some(0)).unwrap();
    record_run_commit(&mut c, "s1", "r1", "second", Some(2), Some(4), Some(1)).unwrap();

    let row = latest_recorded_run_commit(&mut c, "s1").unwrap().unwrap();
    assert_eq!(row.pre_head, "base");
    assert_eq!(row.post_head.as_deref(), Some("second"));
    assert_eq!(row.commit_sha.as_deref(), Some("second"));
    assert_eq!(row.files_changed, Some(2));
    assert_eq!(row.insertions, Some(4));
    assert_eq!(row.deletions, Some(1));
    assert_eq!(row.state, "active");

    let closeout = finalize_run_pending_without_git_writes(&mut c, "s1", "r1", false).unwrap();
    assert_eq!(closeout.commit_sha.as_deref(), Some("second"));
    assert_eq!(closeout.files_changed, Some(2));
    assert!(latest_recorded_run_commit(&mut c, "s1").unwrap().is_some());

    set_run_commit_state(&mut c, "s1", "r1", "discarded").unwrap();
    assert!(latest_recorded_run_commit(&mut c, "s1").unwrap().is_none());
}

#[test]
fn recorded_run_commit_ranges_filter_like_latest_and_keep_insertion_order() {
    let mut c = mem();
    create_session(&mut c, "s1", "x", "local-default", "local").unwrap();
    create_session(&mut c, "s2", "y", "local-default", "local").unwrap();
    for (session_id, run_id, pre, state, post, sha) in [
        ("s1", "active-1", "p0", "active", Some("p1"), Some("p1")),
        ("s1", "running", "ignored", "running", Some("x"), Some("x")),
        (
            "s2",
            "other",
            "other-pre",
            "active",
            Some("other-post"),
            Some("other-post"),
        ),
        ("s1", "active-2", "p1", "active", Some("p2"), Some("p2")),
        ("s1", "missing-post", "ignored", "active", None, Some("sha")),
        ("s1", "missing-sha", "ignored", "active", Some("post"), None),
        (
            "s1",
            "kept",
            "ignored",
            "kept",
            Some("kept-post"),
            Some("kept-post"),
        ),
    ] {
        c.connection().execute(
            "INSERT INTO run_commits \
             (session_id, run_id, engine, pre_head, post_head, commit_sha, state, created_at) \
             VALUES (?1, ?2, 'codex', ?3, ?4, ?5, ?6, 1)",
            (session_id, run_id, pre, post, sha, state),
        )
        .unwrap();
    }

    assert_eq!(
        recorded_run_commit_ranges_for_session(&mut c, "s1").unwrap(),
        vec![
            ("p0".to_string(), "p1".to_string()),
            ("p1".to_string(), "p2".to_string())
        ]);
}

#[test]
fn landing_commit_ranges_are_session_scoped_and_keep_insertion_order() {
    let mut c = mem();
    create_session(&mut c, "s1", "x", "local-default", "local").unwrap();
    create_session(&mut c, "s2", "y", "local-default", "local").unwrap();
    for (id, session_id, run_id, pre_head, landed_head) in [
        ("z-first", "s1", "r1", "p0", "p1"),
        ("other", "s2", "r0", "other-pre", "other-post"),
        ("a-second", "s1", "r2", "p1", "p2"),
    ] {
        insert_landing_commit(
            &mut c,
            &LandingCommit {
                id: id.into(),
                session_id: session_id.into(),
                run_id: run_id.into(),
                artifact_id: None,
                pre_head: pre_head.into(),
                landed_head: landed_head.into(),
                commit_count: 1,
                files_changed: 1,
                insertions: 1,
                deletions: 0,
                created_at: 1,
            },
        )
        .unwrap();
    }

    assert_eq!(
        landing_commit_ranges_for_session(&mut c, "s1").unwrap(),
        vec![
            ("p0".to_string(), "p1".to_string()),
            ("p1".to_string(), "p2".to_string())
        ]);
}

#[test]
fn earliest_landing_pre_head_for_session_uses_created_at_order() {
    let mut c = mem();
    create_session(&mut c, "s1", "x", "local-default", "local").unwrap();
    create_session(&mut c, "s2", "y", "local-default", "local").unwrap();
    for (id, session_id, run_id, pre_head, created_at) in [
        ("run-0001-small", "s1", "r2", "later-base", 20),
        ("run-9999-large", "s1", "r1", "first-base", 10),
        ("run-0000-other", "s2", "r0", "other-base", 1),
    ] {
        insert_landing_commit(
            &mut c,
            &LandingCommit {
                id: id.into(),
                session_id: session_id.into(),
                run_id: run_id.into(),
                artifact_id: None,
                pre_head: pre_head.into(),
                landed_head: format!("{pre_head}-post"),
                commit_count: 1,
                files_changed: 1,
                insertions: 1,
                deletions: 0,
                created_at,
            },
        )
        .unwrap();
    }

    assert_eq!(
        earliest_landing_pre_head_for_session(&mut c, "s1")
            .unwrap()
            .as_deref(),
        Some("first-base"));
    assert_eq!(
        earliest_landing_pre_head_for_session(&mut c, "missing").unwrap(),
        None);
}

#[test]
fn earliest_landing_pre_head_for_session_uses_insertion_order_for_same_second() {
    let mut c = mem();
    create_session(&mut c, "s1", "x", "local-default", "local").unwrap();
    for (id, run_id, pre_head) in [
        ("run-9999-first", "r1", "first-base"),
        ("run-0001-later", "r2", "later-base"),
    ] {
        insert_landing_commit(
            &mut c,
            &LandingCommit {
                id: id.into(),
                session_id: "s1".into(),
                run_id: run_id.into(),
                artifact_id: None,
                pre_head: pre_head.into(),
                landed_head: format!("{pre_head}-post"),
                commit_count: 1,
                files_changed: 1,
                insertions: 1,
                deletions: 0,
                created_at: 10,
            },
        )
        .unwrap();
    }

    assert_eq!(
        earliest_landing_pre_head_for_session(&mut c, "s1")
            .unwrap()
            .as_deref(),
        Some("first-base"));
}

#[test]
fn earliest_run_pre_head_for_session_includes_rows_without_commits() {
    let mut c = mem();
    create_session(&mut c, "s1", "x", "local-default", "local").unwrap();
    create_session(&mut c, "s2", "y", "local-default", "local").unwrap();
    insert_run_pending(&mut c, "s1", "first-run", "codex", "first-base").unwrap();
    insert_run_pending(&mut c, "s2", "other-run", "codex", "other-base").unwrap();
    insert_run_pending(&mut c, "s1", "later-run", "codex", "later-base").unwrap();
    record_run_commit(
        &mut c,
        "s1",
        "later-run",
        "later-post",
        Some(1),
        Some(1),
        Some(0),
    )
    .unwrap();

    assert_eq!(
        earliest_run_pre_head_for_session(&mut c, "s1")
            .unwrap()
            .as_deref(),
        Some("first-base"));
    assert_eq!(
        earliest_run_pre_head_for_session(&mut c, "missing").unwrap(),
        None);
}

#[test]
fn recent_activity_by_day_returns_empty_for_empty_table() {
    let mut c = mem();
    assert!(recent_activity_by_day(&mut c, 0).unwrap().is_empty());
}

#[test]
fn recent_activity_by_day_groups_and_sums_active_rows_for_today() {
    let mut c = mem();
    create_session(&mut c, "s1", "x", "local-default", "local").unwrap();
    insert_run_pending(&mut c, "s1", "r1", "codex", "base1").unwrap();
    record_run_commit(&mut c, "s1", "r1", "post1", Some(2), Some(10), Some(3)).unwrap();
    insert_run_pending(&mut c, "s1", "r2", "codex", "base2").unwrap();
    record_run_commit(&mut c, "s1", "r2", "post2", Some(1), Some(5), Some(1)).unwrap();

    let today: String = c.connection().query_row("SELECT date('now')", [], |r| r.get(0)).unwrap();
    let rows = recent_activity_by_day(&mut c, 0).unwrap();

    assert_eq!(rows.len(), 1);
    assert_eq!(rows[0].date, today);
    assert_eq!(rows[0].commits, 2);
    assert_eq!(rows[0].files_changed, 3);
    assert_eq!(rows[0].insertions, 15);
    assert_eq!(rows[0].deletions, 4);
    assert_eq!(rows[0].failed, 0);
}

#[test]
fn recent_activity_by_day_excludes_running_rows() {
    let mut c = mem();
    create_session(&mut c, "s1", "x", "local-default", "local").unwrap();
    insert_run_pending(&mut c, "s1", "r1", "codex", "base1").unwrap();

    let rows = recent_activity_by_day(&mut c, 0).unwrap();
    assert!(rows.is_empty());
}

#[test]
fn recent_activity_by_day_counts_failed_state_separately() {
    let mut c = mem();
    create_session(&mut c, "s1", "x", "local-default", "local").unwrap();
    insert_run_pending(&mut c, "s1", "r1", "codex", "base1").unwrap();
    set_run_commit_state(&mut c, "s1", "r1", "failed").unwrap();

    let rows = recent_activity_by_day(&mut c, 0).unwrap();
    assert_eq!(rows.len(), 1);
    assert_eq!(rows[0].commits, 1);
    assert_eq!(rows[0].failed, 1);
}

#[test]
fn recent_activity_by_day_excludes_rows_older_than_seven_days() {
    let mut c = mem();
    create_session(&mut c, "s1", "x", "local-default", "local").unwrap();
    c.connection().execute(
        "INSERT INTO run_commits \
         (session_id, run_id, engine, pre_head, post_head, commit_sha, \
          files_changed, insertions, deletions, state, created_at) \
         VALUES ('s1', 'old', 'codex', 'a', 'b', 'b', 1, 1, 0, 'active', \
                 strftime('%s','now') - 8 * 86400)",
        [],
    )
    .unwrap();

    let rows = recent_activity_by_day(&mut c, 0).unwrap();
    assert!(rows.is_empty());
}

#[test]
fn recent_activity_by_day_applies_tz_offset_before_bucketing() {
    let mut c = mem();
    create_session(&mut c, "s1", "x", "local-default", "local").unwrap();
    insert_run_pending(&mut c, "s1", "r1", "codex", "base").unwrap();
    record_run_commit(&mut c, "s1", "r1", "post", Some(1), Some(1), Some(0)).unwrap();

    let today: String = c.connection().query_row("SELECT date('now')", [], |r| r.get(0)).unwrap();
    let tomorrow: String = c
        .connection()
        .query_row("SELECT date('now', '+1 day')", [], |r| r.get(0))
        .unwrap();

    let rows_utc = recent_activity_by_day(&mut c, 0).unwrap();
    assert_eq!(rows_utc.len(), 1);
    assert_eq!(rows_utc[0].date, today);

    let rows_shifted = recent_activity_by_day(&mut c, 1440).unwrap();
    assert_eq!(rows_shifted.len(), 1);
    assert_eq!(rows_shifted[0].date, tomorrow);
}

#[test]
fn list_run_commit_states_returns_states_in_ledger_order() {
    let mut c = mem();
    create_session(&mut c, "s1", "x", "local-default", "local").unwrap();

    for (created_at, run_id, state) in [
        (1, "run-active", "active"),
        (2, "run-undone", "undone"),
        (3, "run-discarded", "discarded"),
        (4, "run-kept", "kept"),
    ] {
        c.connection().execute(
            "INSERT INTO run_commits \
             (session_id, run_id, engine, pre_head, state, created_at) \
             VALUES ('s1', ?1, 'legacy', 'h0', ?2, ?3)",
            (run_id, state, created_at),
        )
        .unwrap();
    }

    let states = list_run_commit_states(&mut c, "s1").unwrap();

    assert_eq!(
        states,
        vec![
            ("run-active".into(), "active".into(), 0, 0),
            ("run-undone".into(), "undone".into(), 0, 0),
            ("run-discarded".into(), "discarded".into(), 0, 0),
            ("run-kept".into(), "kept".into(), 0, 0),
        ]);
}

#[test]
fn list_run_commit_states_aggregates_checkpoint_undo_counts_read_only() {
    let mut c = mem();
    create_session(&mut c, "s1", "x", "local-default", "local").unwrap();
    c.connection().execute(
        "INSERT INTO run_commits \
         (session_id, run_id, engine, pre_head, state, created_at) \
         VALUES ('s1', 'run-1', 'legacy', 'h0', 'active', 1)",
        [],
    )
    .unwrap();
    for (file_path, undone_at) in [
        ("/tmp/a", Some(10_i64)),
        ("/tmp/b", Some(11_i64)),
        ("/tmp/c", None),
    ] {
        c.connection().execute(
            "INSERT INTO checkpoint_entries \
             (session_id, run_id, file_path, existed, undone_at, created_at) \
             VALUES ('s1', 'run-1', ?1, 1, ?2, 1)",
            (file_path, undone_at),
        )
        .unwrap();
    }
    let before: Vec<(String, Option<i64>)> = c
        .connection()
        .prepare(
            "SELECT file_path, undone_at FROM checkpoint_entries \
             WHERE session_id = 's1' ORDER BY id",
        )
        .unwrap()
        .query_map([], |row| Ok((row.get(0)?, row.get(1)?)))
        .unwrap()
        .collect::<Result<_, _>>()
        .unwrap();

    c.connection().pragma_update(None, "query_only", true).unwrap();
    let states = list_run_commit_states(&mut c, "s1").unwrap();
    let after: Vec<(String, Option<i64>)> = c
        .connection()
        .prepare(
            "SELECT file_path, undone_at FROM checkpoint_entries \
             WHERE session_id = 's1' ORDER BY id",
        )
        .unwrap()
        .query_map([], |row| Ok((row.get(0)?, row.get(1)?)))
        .unwrap()
        .collect::<Result<_, _>>()
        .unwrap();

    assert_eq!(states, vec![("run-1".into(), "active".into(), 3, 2)]);
    assert_eq!(after, before);
}

#[test]
fn list_checkpoint_file_paths_for_session_spans_runs_and_is_read_only() {
    let mut c = mem();
    create_session(&mut c, "s1", "x", "local-default", "local").unwrap();
    create_session(&mut c, "s2", "y", "local-default", "local").unwrap();
    for (session_id, run_id, file_path) in [
        ("s1", "run-1", "/tmp/a"),
        ("s1", "run-2", "/tmp/b"),
        ("s1", "run-3", "/tmp/a"),
        ("s2", "run-1", "/tmp/other"),
    ] {
        c.connection().execute(
            "INSERT INTO checkpoint_entries \
             (session_id, run_id, file_path, existed, created_at) \
             VALUES (?1, ?2, ?3, 1, 1)",
            (session_id, run_id, file_path),
        )
        .unwrap();
    }
    c.connection().execute(
        "INSERT INTO checkpoint_entries \
         (session_id, run_id, file_path, existed, undone_at, created_at) \
         VALUES ('s1', 'run-undone', '/tmp/undone', 1, 2, 1)",
        [],
    )
    .unwrap();

    c.connection().pragma_update(None, "query_only", true).unwrap();
    let paths = list_checkpoint_file_paths_for_session(&mut c, "s1").unwrap();

    assert_eq!(
        paths,
        vec![
            String::from("/tmp/a"),
            String::from("/tmp/b")
        ]);
}

#[test]
fn list_active_checkpoint_paths_with_run_lifecycle_for_session_returns_full_lifecycle_and_is_read_only(
) {
    let mut c = mem();
    create_session(&mut c, "s1", "x", "local-default", "local").unwrap();
    insert_run_pending(&mut c, "s1", "run-1", "codex", "h0").unwrap();
    record_run_commit(&mut c, "s1", "run-1", "h1", Some(1), Some(1), Some(0)).unwrap();
    insert_run_pending(&mut c, "s1", "run-2", "codex", "h1").unwrap();
    insert_run_pending(&mut c, "s1", "run-3", "codex", "h1").unwrap();
    mark_run_failed(&mut c, "s1", "run-3").unwrap();
    for (run_id, file_path) in [
        ("run-1", "/tmp/committed"),
        ("run-2", "/tmp/pending"),
        ("run-3", "/tmp/failed"),
    ] {
        c.connection().execute(
            "INSERT INTO checkpoint_entries \
             (session_id, run_id, file_path, existed, created_at) \
             VALUES ('s1', ?1, ?2, 1, 1)",
            (run_id, file_path),
        )
        .unwrap();
    }
    c.connection().execute(
        "INSERT INTO checkpoint_entries \
         (session_id, run_id, file_path, existed, undone_at, created_at) \
         VALUES ('s1', 'run-1', '/tmp/undone', 1, 2, 1)",
        [],
    )
    .unwrap();

    c.connection().pragma_update(None, "query_only", true).unwrap();
    let mut rows =
        list_active_checkpoint_paths_with_run_lifecycle_for_session(&mut c, "s1").unwrap();
    rows.sort();

    assert_eq!(
        rows,
        vec![
            (
                String::from("/tmp/committed"),
                Some("active".to_string()),
                Some("h0".to_string()),
                Some("h1".to_string()),
                Some("h1".to_string()),
            ),
            (
                String::from("/tmp/failed"),
                Some("failed".to_string()),
                Some("h1".to_string()),
                None,
                None,
            ),
            (
                String::from("/tmp/pending"),
                Some("running".to_string()),
                Some("h1".to_string()),
                None,
                None,
            ),
        ]);
}

#[test]
fn run_lifecycle_for_run_reads_pre_head_for_a_still_running_run_and_is_read_only() {
    let mut c = mem();
    create_session(&mut c, "s1", "x", "local-default", "local").unwrap();
    insert_run_pending(&mut c, "s1", "run-1", "codex", "h0").unwrap();

    c.connection().pragma_update(None, "query_only", true).unwrap();
    let lifecycle = run_lifecycle_for_run(&mut c, "s1", "run-1").unwrap().unwrap();

    assert_eq!(lifecycle.state, "running");
    assert_eq!(lifecycle.pre_head, "h0");
    assert_eq!(lifecycle.post_head, None);
    assert_eq!(lifecycle.commit_sha, None);
    assert!(run_lifecycle_for_run(&mut c, "s1", "missing-run")
        .unwrap()
        .is_none());
}

#[test]
fn run_commit_mark_failed_and_no_active() {
    let mut c = mem();
    create_session(&mut c, "s1", "x", "local-default", "local").unwrap();
    insert_run_pending(&mut c, "s1", "run-1", "codex", "h0").unwrap();
    mark_run_failed(&mut c, "s1", "run-1").unwrap();
    assert_eq!(last_run_commit(&mut c, "s1").unwrap().unwrap().state, "failed");
    assert!(last_active_run_commit(&mut c, "s1").unwrap().is_none());
}

#[test]
fn run_commit_delete_pending_empty_round() {
    let mut c = mem();
    create_session(&mut c, "s1", "x", "local-default", "local").unwrap();
    insert_run_pending(&mut c, "s1", "run-1", "clio", "h0").unwrap();
    delete_run_pending(&mut c, "s1", "run-1").unwrap();
    assert!(last_run_commit(&mut c, "s1").unwrap().is_none());
}

#[test]
fn finalize_run_pending_without_git_writes_activates_checkpointed_run() {
    let mut c = mem();
    create_session(&mut c, "s1", "x", "local-default", "local").unwrap();
    insert_run_pending(&mut c, "s1", "run-1", "clio", "h0").unwrap();
    c.connection().execute(
        "INSERT INTO checkpoint_entries \
         (session_id, run_id, file_path, existed, created_at) \
         VALUES ('s1', 'run-1', '/tmp/a', 1, 1)",
        [],
    )
    .unwrap();

    let meta = finalize_run_pending_without_git_writes(&mut c, "s1", "run-1", true).unwrap();

    assert_eq!(
        meta,
        RunCloseoutMetadata {
            commit_sha: None,
            files_changed: Some(1),
            insertions: Some(0),
            deletions: Some(0),
        });
    let row = last_run_commit(&mut c, "s1").unwrap().unwrap();
    assert_eq!(row.state, "active");
    assert_eq!(row.files_changed, Some(1));
    assert_eq!(row.insertions, Some(0));
    assert_eq!(row.deletions, Some(0));
    assert!(row.interrupted);
}

#[test]
fn artifact_crud_and_idempotent_state() {
    let mut conn = open();
    init_schema(&mut conn).unwrap();
    let a = Artifact {
        id: "art-1".into(),
        session_id: "s1".into(),
        run_id: "r1".into(),
        member_assignment_id: "m1".into(),
        branch: "agentloom/run-r1-m1".into(),
        base_sha: "base000".into(),
        commit_sha: None,
        files_changed: 0,
        state: "finalizing".into(),
        created_at: 100,
    };
    insert_artifact(&mut conn, &a).unwrap();
    let got = get_artifact(&mut conn, "art-1").unwrap().unwrap();
    assert_eq!(got.state, "finalizing");
    assert_eq!(got.branch, "agentloom/run-r1-m1");

    set_artifact_state(&mut conn, "art-1", "ready", Some("c0ffee"), Some(3)).unwrap();
    let got = get_artifact(&mut conn, "art-1").unwrap().unwrap();
    assert_eq!(got.state, "ready");
    assert_eq!(got.commit_sha.as_deref(), Some("c0ffee"));
    assert_eq!(got.files_changed, 3);

    assert!(list_finalizing_artifacts(&mut conn).unwrap().is_empty());

    set_artifact_state(&mut conn, "art-1", "ready", None, None).unwrap();
    let got = get_artifact(&mut conn, "art-1").unwrap().unwrap();
    assert_eq!(
        got.commit_sha.as_deref(),
        Some("c0ffee"));
}

#[test]
fn recover_finds_finalizing_artifacts_to_protect() {
    let mut conn = open();
    init_schema(&mut conn).unwrap();
    let mk = |id: &str, st: &str| Artifact {
        id: id.into(),
        session_id: "s1".into(),
        run_id: "r1".into(),
        member_assignment_id: format!("m-{id}"),
        branch: "b".into(),
        base_sha: "base".into(),
        commit_sha: None,
        files_changed: 0,
        state: st.into(),
        created_at: 1,
    };
    insert_artifact(&mut conn, &mk("a-fin", "finalizing")).unwrap();
    insert_artifact(&mut conn, &mk("a-ready", "ready")).unwrap();
    let protect = recover_finalizing_artifacts(&mut conn).unwrap();
    let ids: Vec<&str> = protect
        .iter()
        .map(|a| a.member_assignment_id.as_str())
        .collect();
    assert_eq!(
        ids,
        vec!["m-a-fin"]);
}

#[test]
fn merge_candidate_upsert_and_get_by_artifact() {
    let mut conn = open();
    init_schema(&mut conn).unwrap();
    assert!(get_merge_candidate_by_artifact(&mut conn, "art-1")
        .unwrap()
        .is_none());

    upsert_merge_candidate(
        &mut conn,
        &MergeCandidate {
            id: "mc-1".into(),
            artifact_id: "art-1".into(),
            staging_branch: "agentloom/run/r1".into(),
            state: "pending".into(),
            merged_sha: None,
            created_at: 100,
        },
    )
    .unwrap();
    let got = get_merge_candidate_by_artifact(&mut conn, "art-1")
        .unwrap()
        .unwrap();
    assert_eq!(got.id, "mc-1");
    assert_eq!(got.state, "pending");
    assert_eq!(got.merged_sha, None);

    upsert_merge_candidate(
        &mut conn,
        &MergeCandidate {
            id: "mc-2-ignored".into(),
            artifact_id: "art-1".into(),
            staging_branch: "agentloom/run/r1".into(),
            state: "merged".into(),
            merged_sha: Some("staging-sha".into()),
            created_at: 200,
        },
    )
    .unwrap();
    let got = get_merge_candidate_by_artifact(&mut conn, "art-1")
        .unwrap()
        .unwrap();
    assert_eq!(got.state, "merged");
    assert_eq!(got.merged_sha.as_deref(), Some("staging-sha"));
    assert_eq!(
        got.id, "mc-1");
    let n: i64 = conn
        .connection()
        .query_row(
            "SELECT count(*) FROM merge_candidates WHERE artifact_id='art-1'",
            [],
            |r| r.get(0),
        )
        .unwrap();
    assert_eq!(n, 1);

    assert!(latest_verification_for_artifact(&mut conn, "art-1")
        .unwrap()
        .is_none());
    insert_verification(
        &mut conn,
        &Verification {
            id: "ver-1".into(),
            artifact_id: "art-1".into(),
            cmd: "true".into(),
            artifact_sha: "sha-A".into(),
            exit_code: Some(0),
            output_ref: None,
            verdict: "passed".into(),
            created_at: 50,
        },
    )
    .unwrap();
    insert_verification(
        &mut conn,
        &Verification {
            id: "ver-2".into(),
            artifact_id: "art-1".into(),
            cmd: "true".into(),
            artifact_sha: "sha-B".into(),
            exit_code: Some(1),
            output_ref: None,
            verdict: "failed".into(),
            created_at: 60,
        },
    )
    .unwrap();
    let latest = latest_verification_for_artifact(&mut conn, "art-1")
        .unwrap()
        .unwrap();
    assert_eq!(latest.id, "ver-2");
    assert_eq!(latest.artifact_sha, "sha-B");
    assert_eq!(latest.verdict, "failed");
}

#[test]
fn last_session_agent_id_returns_last_agent() {
    let mut c = mem();
    create_session(&mut c, "s1", "repo", "local-default", "local").unwrap();
    append_message(
        &mut c,
        "s1",
        "assistant",
        &[],
        Some("clio"),
        Some("clio"),
        Some("Clio"), encode,
    )
    .unwrap();
    let result = last_session_agent_id(&mut c, "s1").unwrap();
    assert_eq!(result, Some("clio".to_string()));
}

#[test]
fn last_session_agent_id_returns_none_when_no_messages() {
    let mut c = mem();
    create_session(&mut c, "s2", "repo", "local-default", "local").unwrap();
    let result = last_session_agent_id(&mut c, "s2").unwrap();
    assert_eq!(result, None);
}

fn artifact(id: &str, run_id: &str, member: &str, state: &str, created_at: i64) -> Artifact {
    Artifact {
        id: id.into(),
        session_id: "s1".into(),
        run_id: run_id.into(),
        member_assignment_id: member.into(),
        branch: "b".into(),
        base_sha: "base".into(),
        commit_sha: None,
        files_changed: 0,
        state: state.into(),
        created_at,
    }
}

fn landing(id: &str, run_id: &str) -> LandingCommit {
    LandingCommit {
        id: id.into(),
        session_id: "s1".into(),
        run_id: run_id.into(),
        artifact_id: None,
        pre_head: "pre".into(),
        landed_head: format!("head-{id}"),
        commit_count: 1,
        files_changed: 2,
        insertions: 3,
        deletions: 4,
        created_at: 5,
    }
}

#[test]
fn artifacts_are_found_by_member_and_by_state() {
    let mut c = bare();
    insert_artifact(&mut c, &artifact("a1", "r1", "m1", "ready", 1)).unwrap();
    insert_artifact(&mut c, &artifact("a2", "r1", "m2", "merged", 2)).unwrap();
    insert_artifact(&mut c, &artifact("a3", "r1", "m3", "merged", 3)).unwrap();

    let found = get_artifact_by_member(&mut c, "s1", "r1", "m1").unwrap().unwrap();
    assert_eq!(found.id, "a1");
    assert!(get_artifact_by_member(&mut c, "s1", "r2", "m1").unwrap().is_none());
    let merged = merged_artifact_for_run(&mut c, "s1", "r1").unwrap().unwrap();
    assert_eq!(merged.id, "a3");
    assert!(merged_artifact_for_run(&mut c, "s1", "r2").unwrap().is_none());
}

#[test]
fn a_merged_run_is_staged_until_it_lands() {
    let mut c = bare();
    insert_artifact(&mut c, &artifact("a1", "r1", "m1", "merged", 1)).unwrap();
    assert_eq!(latest_staged_unlanded_run(&mut c, "s1").unwrap(), None);
    upsert_merge_candidate(
        &mut c,
        &MergeCandidate {
            id: "mc1".into(),
            artifact_id: "a1".into(),
            staging_branch: "staging".into(),
            state: "merged".into(),
            merged_sha: Some("cafe".into()),
            created_at: 1,
        },
    )
    .unwrap();
    assert_eq!(
        latest_staged_unlanded_run(&mut c, "s1").unwrap(),
        Some(("r1".into(), "base".into(), "cafe".into()))
    );

    assert!(latest_landing_commit(&mut c, "s1", "r1").unwrap().is_none());
    insert_landing_commit(&mut c, &landing("l1", "r1")).unwrap();
    insert_landing_commit(&mut c, &landing("l2", "r1")).unwrap();
    let latest = latest_landing_commit(&mut c, "s1", "r1").unwrap().unwrap();
    assert_eq!(latest.landed_head, "head-l2");
    assert_eq!(
        (latest.commit_count, latest.files_changed, latest.insertions, latest.deletions),
        (1, 2, 3, 4)
    );
    assert_eq!(latest_staged_unlanded_run(&mut c, "s1").unwrap(), None);
}

#[test]
fn a_run_is_read_as_it_was_recorded() {
    let mut c = bare();
    assert_eq!(run_commit(&mut c, "s1", "r1").unwrap(), None);
    insert_run_pending(&mut c, "s1", "r1", "codex", "h0").unwrap();
    record_run_commit(&mut c, "s1", "r1", "h1", Some(3), Some(10), None).unwrap();
    let run = run_commit(&mut c, "s1", "r1").unwrap().unwrap();
    assert_eq!(run.engine, "codex");
    assert_eq!(run.pre_head, "h0");
    assert_eq!(run.post_head.as_deref(), Some("h1"));
    assert_eq!((run.files_changed, run.insertions, run.deletions), (Some(3), Some(10), None));
    assert!(!run.interrupted);
}

#[test]
fn a_count_that_is_too_large_is_refused_before_anything_is_asked() {
    let mut c = open();
    let too_large = i64::MAX as u64 + 1;
    let r = record_run_commit(&mut c, "s1", "r1", "h1", Some(too_large), None, None);
    assert_eq!(r, Err(DbError::TooLarge));
    assert_eq!(
        DbError::TooLarge.message(),
        "out of range integral type conversion attempted"
    );
}

#[test]
fn a_run_that_is_not_there_cannot_be_recorded() {
    let mut c = bare();
    let r = record_run_commit(&mut c, "s1", "r1", "h1", None, None, None);
    assert_eq!(r, Err(DbError::NoRows));
    assert_eq!(DbError::NoRows.message(), "Query returned no rows");
}

#[test]
fn a_commit_intent_lasts_until_it_is_taken_back() {
    let mut c = bare();
    assert!(!has_run_commit_intent(&mut c, "s1", "r1").unwrap());
    insert_run_pending(&mut c, "s1", "r1", "codex", "h0").unwrap();
    begin_run_commit_intent(&mut c, "s1", "r1", "h0", "running").unwrap();
    assert!(has_run_commit_intent(&mut c, "s1", "r1").unwrap());
    delete_run_commit_intent(&mut c, "s1", "r1").unwrap();
    assert!(!has_run_commit_intent(&mut c, "s1", "r1").unwrap());
}

#[test]
fn the_assignments_of_a_team_run_are_kept() {
    let mut c = bare();
    assert_eq!(team_run_pending_assignments(&mut c, "s1", "r1").unwrap(), None);
    insert_team_run_pending(&mut c, "s1", "r1", "goal", "lead", r#"["a1"]"#).unwrap();
    assert_eq!(
        team_run_pending_assignments(&mut c, "s1", "r1").unwrap().as_deref(),
        Some(r#"["a1"]"#)
    );
}

#[test]
fn a_column_of_another_type_is_an_error() {
    let mut c = bare();
    insert_artifact(&mut c, &artifact("a1", "r1", "m1", "ready", 1)).unwrap();
    c.connection().execute("UPDATE artifacts SET branch = x'00' WHERE id = 'a1'", []).unwrap();
    let err = get_artifact(&mut c, "a1").unwrap_err();
    assert_eq!(err.message(), "Invalid column type Blob at index: 4, name: branch");
}

#[test]
fn a_text_that_is_not_utf8_is_an_error() {
    let mut c = bare();
    insert_artifact(&mut c, &artifact("a1", "r1", "m1", "ready", 1)).unwrap();
    c.connection()
        .execute("UPDATE artifacts SET branch = CAST(x'FF' AS TEXT) WHERE id = 'a1'", [])
        .unwrap();
    assert!(matches!(get_artifact(&mut c, "a1"), Err(DbError::Engine(_))));
}

#[test]
fn a_refusal_of_the_engine_is_reported_in_its_words() {
    let mut c = open();
    let err = get_artifact(&mut c, "a1").unwrap_err();
    assert!(matches!(&err, DbError::Engine(text) if text.starts_with("no such table: artifacts")));
    assert!(err.message().starts_with("no such table: artifacts"));
}
