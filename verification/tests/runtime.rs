use agentloom_db::engine::Db;
use agentloom_db::events::Milestone;
use agentloom_db::index::{
    RECENT_MILESTONE_REPLAY_LIMIT,
    list_session_index_snapshot_rows,
    list_session_runtime_replay_rows,
};
use agentloom_db::runtime::{
    get_session_runtime,
    list_running_sessions,
    reconcile_session_runtime_on_startup,
    set_session_runtime,
    upsert_session_runtime_status,
};
use agentloom_db::schema::init_schema;
use agentloom_db::sessions::{create_session, set_session_deleted};

fn open() -> Db {
    Db::new(rusqlite::Connection::open_in_memory().unwrap())
}

fn mem() -> Db {
    let mut c = open();
    init_schema(&mut c).unwrap();
    c.connection()
        .execute(
            "INSERT OR IGNORE INTO namespaces (id, kind, name, is_builtin, added_at) VALUES ('local', 'local', 'Local', 1, 0)",
            [],
        )
        .unwrap();
    c.connection()
        .execute(
            "INSERT OR IGNORE INTO repos (id, namespace_id, source, name, path, status, added_at) VALUES ('local-default', 'local', 'local', '我的项目', '/tmp/agentloom-mem-local-default', 'active', 0)",
            [],
        )
        .unwrap();
    c
}

fn bare() -> Db {
    let mut c = open();
    init_schema(&mut c).unwrap();
    c
}

fn names(milestones: &[Milestone]) -> Vec<&'static str> {
    milestones
        .iter()
        .map(|m| match m {
            Milestone::RunStatus { .. } => "run.status",
            Milestone::SessionCreated { .. } => "session.index.created",
            Milestone::SessionRenamed { .. } => "session.index.renamed",
            Milestone::SessionDeleted { .. } => "session.index.deleted",
            Milestone::SessionsArchived { archived: true, .. } => "session.index.archived",
            Milestone::SessionsArchived { archived: false, .. } => "session.index.unarchived",
            Milestone::MessageCompleted { .. } => "msg.completed",
            Milestone::CardResolved { .. } => "card.resolved",
        })
        .collect()
}

fn published(db: &mut Db) -> Vec<&'static str> {
    names(&db.take_published())
}

#[test]
fn list_session_index_snapshot_rows_joins_runtime_and_excludes_soft_deleted() {
    let mut c = mem();
    create_session(&mut c, "snapshot-running", "Running", "local-default", "local").unwrap();
    create_session(
        &mut c,
        "snapshot-never-ran",
        "Never ran",
        "local-default",
        "local",
    )
    .unwrap();
    create_session(&mut c, "snapshot-deleted", "Deleted", "local-default", "local").unwrap();
    c.connection().execute(
        "UPDATE sessions SET created_at = CASE id \
            WHEN 'snapshot-running' THEN 101 \
            WHEN 'snapshot-never-ran' THEN 202 \
            ELSE 303 END",
        [],
    )
    .unwrap();
    c.connection().execute(
        "UPDATE sessions SET archived = 1, archived_at = 1 WHERE id = 'snapshot-never-ran'",
        [],
    )
    .unwrap();
    set_session_runtime(&mut c, "snapshot-running", "running", Some("run-1")).unwrap();
    set_session_deleted(&mut c, "snapshot-deleted").unwrap();

    let rows = list_session_index_snapshot_rows(&mut c).unwrap();
    assert_eq!(rows.len(), 2);
    assert!(rows.iter().all(|row| row.id != "snapshot-deleted"));

    let running = rows
        .iter()
        .find(|row| row.id == "snapshot-running")
        .unwrap();
    assert_eq!(running.title, "Running");
    assert_eq!(running.repo_id.as_deref(), Some("local-default"));
    assert_eq!(running.repo_name.as_deref(), Some("我的项目"));
    assert!(!running.archived);
    assert_eq!(running.status.as_deref(), Some("running"));
    assert_eq!(running.run_id.as_deref(), Some("run-1"));
    assert!(running.updated_at >= 101);

    let never_ran = rows
        .iter()
        .find(|row| row.id == "snapshot-never-ran")
        .unwrap();
    assert_eq!(never_ran.title, "Never ran");
    assert_eq!(never_ran.repo_id.as_deref(), Some("local-default"));
    assert_eq!(never_ran.repo_name.as_deref(), Some("我的项目"));
    assert!(never_ran.archived);
    assert_eq!(never_ran.status, None);
    assert_eq!(never_ran.run_id, None);
    assert_eq!(never_ran.updated_at, 202);
}

#[test]
fn list_session_runtime_replay_rows_orders_running_first_and_caps_at_shared_limit() {
    let mut c = mem();
    let running_count = 3_i64;
    let idle_count = RECENT_MILESTONE_REPLAY_LIMIT + 5;
    for i in 0..idle_count {
        let id = format!("idle-{i}");
        create_session(&mut c, &id, &id, "local-default", "local").unwrap();
        set_session_runtime(&mut c, &id, "idle", None).unwrap();
    }
    for i in 0..running_count {
        let id = format!("running-{i}");
        create_session(&mut c, &id, &id, "local-default", "local").unwrap();
        set_session_runtime(&mut c, &id, "running", Some(&format!("run-{i}"))).unwrap();
    }

    let rows = list_session_runtime_replay_rows(&mut c).unwrap();

    assert_eq!(
        rows.len() as i64,
        RECENT_MILESTONE_REPLAY_LIMIT);
    let running_rows: Vec<_> = rows.iter().filter(|r| r.status == "running").collect();
    assert_eq!(
        running_rows.len() as i64,
        running_count);
    for row in rows.iter().take(running_count as usize) {
        assert_eq!(row.status, "running");
    }
}

#[test]
fn set_session_runtime_same_values_do_not_publish() {
    let mut conn = bare();
    published(&mut conn);
    assert!(set_session_runtime(&mut conn, "s-same", "running", Some("run-1")).unwrap());

    published(&mut conn);
    assert!(!set_session_runtime(&mut conn, "s-same", "running", Some("run-1")).unwrap());
    assert!(published(&mut conn).is_empty());
}

#[test]
fn set_session_runtime_changed_values_publish_once() {
    let mut conn = bare();
    set_session_runtime(&mut conn, "s-changed", "running", Some("run-1")).unwrap();
    published(&mut conn);

    assert!(set_session_runtime(&mut conn, "s-changed", "running", Some("run-2")).unwrap());
    assert_eq!(
        published(&mut conn),
        vec!["run.status"]);
}

#[test]
fn set_session_runtime_new_row_publishes_once() {
    let mut conn = bare();
    published(&mut conn);

    assert!(set_session_runtime(&mut conn, "s-new", "running", Some("run-new")).unwrap());
    assert_eq!(
        published(&mut conn),
        vec!["run.status"]);
}

#[test]
fn upsert_session_runtime_status_same_value_does_not_publish() {
    let mut conn = bare();
    set_session_runtime(&mut conn, "s-refresh-same", "running", Some("run-keep")).unwrap();
    published(&mut conn);

    assert!(!upsert_session_runtime_status(&mut conn, "s-refresh-same", "running").unwrap());
    assert!(published(&mut conn).is_empty());
}

#[test]
fn upsert_session_runtime_status_change_publishes_existing_run_id() {
    let mut conn = bare();
    set_session_runtime(&mut conn, "s-refresh-changed", "running", Some("run-keep")).unwrap();
    published(&mut conn);

    assert!(upsert_session_runtime_status(&mut conn, "s-refresh-changed", "idle").unwrap());
    let sent = conn.take_published();
    assert_eq!(names(&sent), vec!["run.status"]);
    assert_eq!(
        sent,
        vec![Milestone::RunStatus {
            session_id: "s-refresh-changed".into(),
            status: "idle".into(),
            run_id: Some("run-keep".into()),
        }]);
    assert_eq!(
        get_session_runtime(&mut conn, "s-refresh-changed")
            .unwrap()
            .unwrap()
            .run_id
            .as_deref(),
        Some("run-keep"));
}

#[test]
fn upsert_session_runtime_status_new_row_publishes_once() {
    let mut conn = bare();
    published(&mut conn);

    assert!(upsert_session_runtime_status(&mut conn, "s-refresh-new-publish", "idle").unwrap());
    let sent = conn.take_published();
    assert_eq!(names(&sent), vec!["run.status"]);
    assert_eq!(
        sent,
        vec![Milestone::RunStatus {
            session_id: "s-refresh-new-publish".into(),
            status: "idle".into(),
            run_id: None,
        }]);
}

#[test]
fn set_session_runtime_upserts_idempotently() {
    let mut conn = bare();
    set_session_runtime(&mut conn, "s1", "running", Some("run-1")).unwrap();
    let row = get_session_runtime(&mut conn, "s1").unwrap().unwrap();
    assert_eq!(row.status, "running");
    assert_eq!(row.run_id.as_deref(), Some("run-1"));
    let first_updated_at = row.updated_at;

    set_session_runtime(&mut conn, "s1", "idle", None).unwrap();
    let row = get_session_runtime(&mut conn, "s1").unwrap().unwrap();
    assert_eq!(row.status, "idle");
    assert_eq!(row.run_id, None);
    assert!(row.updated_at >= first_updated_at);

    let count: i64 = conn
        .connection()
        .query_row("SELECT COUNT(*) FROM session_runtime", [], |r| r.get(0))
        .unwrap();
    assert_eq!(count, 1);
}

#[test]
fn upsert_session_runtime_status_preserves_existing_run_id() {
    let mut conn = bare();
    set_session_runtime(&mut conn, "s-refresh", "running", Some("run-keep")).unwrap();

    upsert_session_runtime_status(&mut conn, "s-refresh", "idle").unwrap();

    let row = get_session_runtime(&mut conn, "s-refresh").unwrap().unwrap();
    assert_eq!(row.status, "idle");
    assert_eq!(
        row.run_id.as_deref(),
        Some("run-keep"));
}

#[test]
fn upsert_session_runtime_status_inserts_null_run_id_for_new_row() {
    let mut conn = bare();
    upsert_session_runtime_status(&mut conn, "s-refresh-new", "running").unwrap();

    let row = get_session_runtime(&mut conn, "s-refresh-new")
        .unwrap()
        .unwrap();
    assert_eq!(row.status, "running");
    assert_eq!(row.run_id, None);

    upsert_session_runtime_status(&mut conn, "s-refresh-new", "idle").unwrap();
    let count: i64 = conn
        .connection()
        .query_row("SELECT COUNT(*) FROM session_runtime", [], |r| r.get(0))
        .unwrap();
    assert_eq!(count, 1);
}

#[test]
fn get_session_runtime_returns_none_for_unknown_session() {
    let mut conn = bare();
    assert_eq!(get_session_runtime(&mut conn, "unknown-session").unwrap(), None);
}

#[test]
fn list_running_sessions_only_returns_running_status() {
    let mut conn = bare();
    set_session_runtime(&mut conn, "s-running-1", "running", Some("run-a")).unwrap();
    set_session_runtime(&mut conn, "s-idle-1", "idle", None).unwrap();
    set_session_runtime(&mut conn, "s-running-2", "running", None).unwrap();

    let mut running = list_running_sessions(&mut conn).unwrap();
    running.sort();
    assert_eq!(running, vec!["s-running-1", "s-running-2"]);
}

#[test]
fn reconcile_session_runtime_on_startup_clears_stale_running_rows() {
    let mut conn = bare();
    set_session_runtime(&mut conn, "s-crashed", "running", Some("run-orphan")).unwrap();
    set_session_runtime(&mut conn, "s-already-idle", "idle", None).unwrap();
    published(&mut conn);

    reconcile_session_runtime_on_startup(&mut conn).unwrap();

    assert!(
        published(&mut conn).is_empty());

    let crashed = get_session_runtime(&mut conn, "s-crashed").unwrap().unwrap();
    assert_eq!(crashed.status, "idle");
    assert_eq!(crashed.run_id, None);

    let already_idle = get_session_runtime(&mut conn, "s-already-idle")
        .unwrap()
        .unwrap();
    assert_eq!(already_idle.status, "idle");

    assert_eq!(list_running_sessions(&mut conn).unwrap().len(), 0);
}

#[test]
fn init_schema_is_idempotent_for_session_runtime_table() {
    let mut conn = bare();
    set_session_runtime(&mut conn, "s-survives-reinit", "running", Some("run-x")).unwrap();
    init_schema(&mut conn).unwrap();
    let row = get_session_runtime(&mut conn, "s-survives-reinit")
        .unwrap()
        .unwrap();
    assert_eq!(row.status, "running");
}
