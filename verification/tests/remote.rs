use agentloom_db::engine::{Db, DbError};
use agentloom_db::remote::{
    RemoteInboxTerminalState,
    RemoteRefreshJournal,
    bump_registry_counter_to,
    bump_registry_counter_to_in_transaction,
    clear_refresh_journal,
    current_registry_revision,
    enqueue_remote_input,
    ensure_remote_room_for_project,
    get_remote_device,
    insert_remote_device,
    list_remote_devices,
    load_refresh_journal,
    mark_remote_input_delivered,
    mark_remote_input_delivered_by_command_id,
    mark_remote_input_failed,
    mark_remote_input_failed_by_command_id,
    next_pending_remote_input,
    next_registry_generation,
    next_registry_generation_in_transaction,
    normalize_access_expires_at_millis,
    pending_remote_answers,
    record_control_command_seen,
    record_remote_input_failure,
    remote_inbox_terminal_state_by_command_id,
    remote_room_for_project,
    require_millis_timestamp,
    revoke_remote_device,
    sessions_with_pending_remote_answer,
    sessions_with_pending_remote_input,
    set_remote_device_registry,
    set_remote_device_registry_in_transaction,
    store_refresh_journal,
    update_remote_device_tokens,
};
use agentloom_db::schema::init_schema;

fn open() -> Db {
    Db::new(rusqlite::Connection::open_in_memory().unwrap())
}

fn bare() -> Db {
    let mut c = open();
    init_schema(&mut c).unwrap();
    c
}

fn room() -> String {
    let now = std::time::SystemTime::now().duration_since(std::time::UNIX_EPOCH).unwrap();
    format!("{:032x}", now.as_nanos())
}

fn insert_remote_inbox_session(conn: &mut Db, id: &str) {
    conn.connection().execute(
        "INSERT INTO sessions (id, title, created_at, namespace_id) VALUES (?1, ?1, 0, NULL)",
        [id],
    )
    .unwrap();
}

fn remote_devices_column_names(conn: &mut Db) -> Vec<String> {
    let mut stmt = conn.connection().prepare("PRAGMA table_info(remote_devices)").unwrap();
    stmt.query_map([], |row| row.get(1))
        .unwrap()
        .collect::<rusqlite::Result<Vec<_>>>()
        .unwrap()
}

#[test]
fn init_schema_upgrades_legacy_remote_inbox_idempotently() {
    let mut conn = open();
    conn.connection().execute(
        "CREATE TABLE remote_inbox (
            id INTEGER PRIMARY KEY AUTOINCREMENT,
            session_id TEXT NOT NULL,
            command_id TEXT NOT NULL UNIQUE,
            kind TEXT NOT NULL,
            payload TEXT NOT NULL,
            created_at INTEGER NOT NULL,
            delivered_at INTEGER
        )",
        [],
    )
    .unwrap();
    conn.connection().execute(
        "CREATE INDEX idx_remote_inbox_pending \
         ON remote_inbox(session_id, id) \
         WHERE delivered_at IS NULL",
        [],
    )
    .unwrap();

    init_schema(&mut conn).unwrap();

    let mut stmt = conn.connection().prepare("PRAGMA table_info(remote_inbox)").unwrap();
    let cols: Vec<String> = stmt
        .query_map([], |row| row.get::<_, String>(1))
        .unwrap()
        .collect::<Result<_, _>>()
        .unwrap();
    drop(stmt);
    for column in ["attempts", "failed_at", "last_error"] {
        assert!(
            cols.iter().any(|existing| existing == column));
    }

    let index_sql: String = conn
        .connection()
        .query_row(
            "SELECT sql FROM sqlite_master \
             WHERE type = 'index' AND name = 'idx_remote_inbox_pending'",
            [],
            |row| row.get(0),
        )
        .unwrap();
    assert!(
        index_sql.contains("failed_at"));

    insert_remote_inbox_session(&mut conn, "s-inbox-legacy");
    assert!(enqueue_remote_input(
        &mut conn,
        "s-inbox-legacy",
        "cmd-legacy",
        "input.send",
        r#"{"text":"legacy"}"#,
    )
    .unwrap());
    let entry = next_pending_remote_input(&mut conn, "s-inbox-legacy")
        .unwrap()
        .expect("升级后的旧库应能读取 pending 消息");
    mark_remote_input_failed(&mut conn, entry.id, "LEGACY_DELIVERY_FAILED").unwrap();
    assert_eq!(
        next_pending_remote_input(&mut conn, "s-inbox-legacy").unwrap(),
        None);
    let (attempts, failed_at, last_error): (i64, Option<i64>, Option<String>) = conn
        .connection()
        .query_row(
            "SELECT attempts, failed_at, last_error FROM remote_inbox WHERE id = ?1",
            [entry.id],
            |row| Ok((row.get(0)?, row.get(1)?, row.get(2)?)),
        )
        .unwrap();
    assert_eq!(attempts, 0);
    assert!(failed_at.is_some());
    assert_eq!(last_error.as_deref(), Some("LEGACY_DELIVERY_FAILED"));

    init_schema(&mut conn).unwrap();
}

#[test]
fn enqueue_remote_input_is_idempotent_by_command_id() {
    let mut conn = bare();
    let first = enqueue_remote_input(
        &mut conn,
        "s-inbox-1",
        "cmd-1",
        "input.send",
        "{\"text\":\"a\"}",
    )
    .unwrap();
    let second = enqueue_remote_input(
        &mut conn,
        "s-inbox-1",
        "cmd-1",
        "input.send",
        "{\"text\":\"dup\"}",
    )
    .unwrap();
    assert!(first);
    assert!(!second);

    let count: i64 = conn
        .connection()
        .query_row(
            "SELECT COUNT(*) FROM remote_inbox WHERE command_id = 'cmd-1'",
            [],
            |r| r.get(0),
        )
        .unwrap();
    assert_eq!(count, 1);
}

#[test]
fn remote_inbox_terminal_state_lookup_covers_pending_delivered_failed_and_missing() {
    let mut conn = bare();
    enqueue_remote_input(&mut conn, "s-inbox-state", "cmd-state", "input.send", "{}").unwrap();
    assert_eq!(
        remote_inbox_terminal_state_by_command_id(&mut conn, "cmd-state").unwrap(),
        Some(RemoteInboxTerminalState::Pending));

    let delivered = next_pending_remote_input(&mut conn, "s-inbox-state")
        .unwrap()
        .unwrap();
    assert_eq!(delivered.command_id, "cmd-state");
    mark_remote_input_delivered(&mut conn, delivered.id).unwrap();
    assert_eq!(
        remote_inbox_terminal_state_by_command_id(&mut conn, "cmd-state").unwrap(),
        Some(RemoteInboxTerminalState::Delivered));

    enqueue_remote_input(&mut conn, "s-inbox-state", "cmd-failed", "input.send", "{}").unwrap();
    let failed = next_pending_remote_input(&mut conn, "s-inbox-state")
        .unwrap()
        .unwrap();
    assert_eq!(failed.command_id, "cmd-failed");
    mark_remote_input_failed(&mut conn, failed.id, "TEST_FAILED").unwrap();

    assert_eq!(
        remote_inbox_terminal_state_by_command_id(&mut conn, "cmd-failed").unwrap(),
        Some(RemoteInboxTerminalState::Failed));
    assert_eq!(
        remote_inbox_terminal_state_by_command_id(&mut conn, "cmd-missing").unwrap(),
        None);
}

#[test]
fn control_command_ledger_is_idempotent_and_terminal_from_insert() {
    let mut conn = bare();
    insert_remote_inbox_session(&mut conn, "s-control-ledger");

    assert!(
        record_control_command_seen(&mut conn, "s-control-ledger", "cmd-control-ledger-1", "{}",)
            .unwrap());
    assert!(
        !record_control_command_seen(&mut conn, "s-control-ledger", "cmd-control-ledger-1", "{}",)
            .unwrap());

    let (kind, payload, delivered_at): (String, String, Option<i64>) = conn
        .connection()
        .query_row(
            "SELECT kind, payload, delivered_at FROM remote_inbox \
             WHERE command_id = 'cmd-control-ledger-1'",
            [],
            |row| Ok((row.get(0)?, row.get(1)?, row.get(2)?)),
        )
        .unwrap();
    assert_eq!(kind, "control");
    assert_eq!(payload, "{}");
    assert!(delivered_at.is_some());
    assert_eq!(
        next_pending_remote_input(&mut conn, "s-control-ledger").unwrap(),
        None);
    assert!(
        !sessions_with_pending_remote_input(&mut conn)
            .unwrap()
            .contains(&"s-control-ledger".to_owned()));
}

#[test]
fn next_pending_remote_input_returns_fifo_order() {
    let mut conn = bare();
    enqueue_remote_input(
        &mut conn,
        "s-inbox-2",
        "cmd-a",
        "input.send",
        "{\"text\":\"a\"}",
    )
    .unwrap();
    enqueue_remote_input(
        &mut conn,
        "s-inbox-2",
        "cmd-b",
        "input.send",
        "{\"text\":\"b\"}",
    )
    .unwrap();

    let first = next_pending_remote_input(&mut conn, "s-inbox-2")
        .unwrap()
        .unwrap();
    assert_eq!(first.command_id, "cmd-a");

    mark_remote_input_delivered(&mut conn, first.id).unwrap();

    let second = next_pending_remote_input(&mut conn, "s-inbox-2")
        .unwrap()
        .unwrap();
    assert_eq!(second.command_id, "cmd-b");
}

#[test]
fn next_pending_remote_input_excludes_input_answer_without_hiding_input_send() {
    let mut conn = bare();
    enqueue_remote_input(
        &mut conn,
        "s-inbox-kind-isolation",
        "cmd-answer-pending",
        "input.answer",
        r#"{"decision_id":"d-1","option":"yes"}"#,
    )
    .unwrap();

    assert_eq!(
        next_pending_remote_input(&mut conn, "s-inbox-kind-isolation").unwrap(),
        None);

    enqueue_remote_input(
        &mut conn,
        "s-inbox-kind-isolation",
        "cmd-send-pending",
        "input.send",
        r#"{"text":"hello"}"#,
    )
    .unwrap();
    let entry = next_pending_remote_input(&mut conn, "s-inbox-kind-isolation")
        .unwrap()
        .expect("同 session 的 input.send 仍应进入 FIFO");
    assert_eq!(entry.command_id, "cmd-send-pending");
    assert_eq!(entry.kind, "input.send");
}

#[test]
fn sessions_with_pending_remote_answer_reports_answer_but_not_send_only_session() {
    let mut conn = bare();
    insert_remote_inbox_session(&mut conn, "s-answer-pending");
    insert_remote_inbox_session(&mut conn, "s-send-only");
    enqueue_remote_input(
        &mut conn,
        "s-answer-pending",
        "cmd-answer-pending",
        "input.answer",
        r#"{"decision_id":"d-1","option":"yes"}"#,
    )
    .unwrap();
    enqueue_remote_input(
        &mut conn,
        "s-send-only",
        "cmd-send-only",
        "input.send",
        r#"{"text":"hello"}"#,
    )
    .unwrap();

    assert_eq!(
        sessions_with_pending_remote_answer(&mut conn).unwrap(),
        vec!["s-answer-pending".to_string()]);
}

#[test]
fn sessions_with_pending_remote_answer_excludes_delivered_and_failed_answers() {
    let mut conn = bare();
    for session_id in ["s-answer-live", "s-answer-delivered", "s-answer-failed"] {
        insert_remote_inbox_session(&mut conn, session_id);
    }
    for (session_id, command_id) in [
        ("s-answer-live", "cmd-answer-live"),
        ("s-answer-delivered", "cmd-answer-delivered-terminal"),
        ("s-answer-failed", "cmd-answer-failed-terminal"),
    ] {
        enqueue_remote_input(
            &mut conn,
            session_id,
            command_id,
            "input.answer",
            r#"{"decision_id":"d-1","option":"yes"}"#,
        )
        .unwrap();
    }
    mark_remote_input_delivered_by_command_id(&mut conn, "cmd-answer-delivered-terminal").unwrap();
    mark_remote_input_failed_by_command_id(&mut conn, "cmd-answer-failed-terminal", "TEST_FAILED")
        .unwrap();

    assert_eq!(
        sessions_with_pending_remote_answer(&mut conn).unwrap(),
        vec!["s-answer-live".to_string()]);
}

#[test]
fn sessions_with_pending_remote_answer_excludes_soft_deleted_sessions() {
    let mut conn = bare();
    insert_remote_inbox_session(&mut conn, "s-answer-deleted");
    enqueue_remote_input(
        &mut conn,
        "s-answer-deleted",
        "cmd-answer-deleted",
        "input.answer",
        r#"{"decision_id":"d-1","option":"yes"}"#,
    )
    .unwrap();
    conn.connection().execute(
        "UPDATE sessions SET deleted_at = 1 WHERE id = 's-answer-deleted'",
        [],
    )
    .unwrap();

    assert!(
        sessions_with_pending_remote_answer(&mut conn)
            .unwrap()
            .is_empty());
}

#[test]
fn pending_remote_answers_returns_all_pending_answers_in_id_order_without_send() {
    let mut conn = bare();
    enqueue_remote_input(
        &mut conn,
        "s-answer-list",
        "cmd-answer-first",
        "input.answer",
        r#"{"decision_id":"d-1","option":"yes"}"#,
    )
    .unwrap();
    enqueue_remote_input(
        &mut conn,
        "s-answer-list",
        "cmd-send-middle",
        "input.send",
        r#"{"text":"hello"}"#,
    )
    .unwrap();
    enqueue_remote_input(
        &mut conn,
        "s-answer-list",
        "cmd-answer-second",
        "input.answer",
        r#"{"decision_id":"d-2","option":"no"}"#,
    )
    .unwrap();

    let entries = pending_remote_answers(&mut conn, "s-answer-list").unwrap();
    assert_eq!(
        entries
            .iter()
            .map(|entry| entry.command_id.as_str())
            .collect::<Vec<_>>(),
        vec!["cmd-answer-first", "cmd-answer-second"]);
    assert!(entries[0].id < entries[1].id);
    assert!(entries.iter().all(|entry| entry.kind == "input.answer"));
}

#[test]
fn pending_remote_answers_does_not_return_other_session_or_terminal_rows() {
    let mut conn = bare();
    enqueue_remote_input(
        &mut conn,
        "s-answer-target",
        "cmd-answer-target",
        "input.answer",
        r#"{"decision_id":"d-target","option":"yes"}"#,
    )
    .unwrap();
    enqueue_remote_input(
        &mut conn,
        "s-answer-other",
        "cmd-answer-other",
        "input.answer",
        r#"{"decision_id":"d-other","option":"no"}"#,
    )
    .unwrap();
    enqueue_remote_input(
        &mut conn,
        "s-answer-target",
        "cmd-answer-terminal",
        "input.answer",
        r#"{"decision_id":"d-terminal","option":"yes"}"#,
    )
    .unwrap();
    mark_remote_input_delivered_by_command_id(&mut conn, "cmd-answer-terminal").unwrap();

    let entries = pending_remote_answers(&mut conn, "s-answer-target").unwrap();
    assert_eq!(entries.len(), 1);
    assert_eq!(entries[0].command_id, "cmd-answer-target");
    assert_eq!(entries[0].session_id, "s-answer-target");
}

#[test]
fn mark_remote_input_delivered_removes_it_from_pending_queue() {
    let mut conn = bare();
    enqueue_remote_input(
        &mut conn,
        "s-inbox-3",
        "cmd-only",
        "input.send",
        "{\"text\":\"a\"}",
    )
    .unwrap();
    let entry = next_pending_remote_input(&mut conn, "s-inbox-3")
        .unwrap()
        .unwrap();
    mark_remote_input_delivered(&mut conn, entry.id).unwrap();

    assert_eq!(
        next_pending_remote_input(&mut conn, "s-inbox-3").unwrap(),
        None);
}

#[test]
fn mark_remote_input_delivered_by_command_id_sets_delivered_terminal_state() {
    let mut conn = bare();
    enqueue_remote_input(
        &mut conn,
        "s-answer-delivered",
        "cmd-answer-delivered",
        "input.answer",
        "{}",
    )
    .unwrap();

    mark_remote_input_delivered_by_command_id(&mut conn, "cmd-answer-delivered").unwrap();

    assert_eq!(
        remote_inbox_terminal_state_by_command_id(&mut conn, "cmd-answer-delivered").unwrap(),
        Some(RemoteInboxTerminalState::Delivered));
}

#[test]
fn mark_remote_input_failed_by_command_id_sets_failed_terminal_state_and_error() {
    let mut conn = bare();
    enqueue_remote_input(
        &mut conn,
        "s-answer-failed",
        "cmd-answer-failed",
        "input.answer",
        "{}",
    )
    .unwrap();

    mark_remote_input_failed_by_command_id(&mut conn, "cmd-answer-failed", "NO_PENDING_QUESTION")
        .unwrap();

    assert_eq!(
        remote_inbox_terminal_state_by_command_id(&mut conn, "cmd-answer-failed").unwrap(),
        Some(RemoteInboxTerminalState::Failed));
    let last_error: Option<String> = conn
        .connection()
        .query_row(
            "SELECT last_error FROM remote_inbox WHERE command_id = 'cmd-answer-failed'",
            [],
            |row| row.get(0),
        )
        .unwrap();
    assert_eq!(last_error.as_deref(), Some("NO_PENDING_QUESTION"));
}

#[test]
fn sessions_with_pending_remote_input_only_reports_undelivered_sessions() {
    let mut conn = bare();
    insert_remote_inbox_session(&mut conn, "s-inbox-pending");
    insert_remote_inbox_session(&mut conn, "s-inbox-delivered");
    enqueue_remote_input(&mut conn, "s-inbox-pending", "cmd-p1", "input.send", "{}").unwrap();
    enqueue_remote_input(&mut conn, "s-inbox-delivered", "cmd-d1", "input.send", "{}").unwrap();
    let delivered = next_pending_remote_input(&mut conn, "s-inbox-delivered")
        .unwrap()
        .unwrap();
    mark_remote_input_delivered(&mut conn, delivered.id).unwrap();

    let sessions = sessions_with_pending_remote_input(&mut conn).unwrap();
    assert!(sessions.contains(&"s-inbox-pending".to_string()));
    assert!(
        !sessions.contains(&"s-inbox-delivered".to_string()));
}

#[test]
fn remote_input_delivery_failure_retries_twice_then_becomes_terminal() {
    let mut conn = bare();
    insert_remote_inbox_session(&mut conn, "s-inbox-retry");
    enqueue_remote_input(
        &mut conn,
        "s-inbox-retry",
        "cmd-retry",
        "input.send",
        r#"{"text":"retry"}"#,
    )
    .unwrap();
    let entry = next_pending_remote_input(&mut conn, "s-inbox-retry")
        .unwrap()
        .unwrap();

    for expected_attempts in 1..=3 {
        let attempts = record_remote_input_failure(&mut conn, entry.id, "AGENT_NOT_FOUND")
            .expect("记录投递失败次数");
        assert_eq!(attempts, expected_attempts);
        if attempts < 3 {
            assert!(
                next_pending_remote_input(&mut conn, "s-inbox-retry")
                    .unwrap()
                    .is_some());
            assert!(
                sessions_with_pending_remote_input(&mut conn)
                    .unwrap()
                    .contains(&"s-inbox-retry".to_string()));
        } else {
            mark_remote_input_failed(&mut conn, entry.id, "AGENT_NOT_FOUND")
                .expect("第三次失败标终态");
        }
    }

    assert_eq!(
        next_pending_remote_input(&mut conn, "s-inbox-retry").unwrap(),
        None);
    assert!(
        !sessions_with_pending_remote_input(&mut conn)
            .unwrap()
            .contains(&"s-inbox-retry".to_string()));
    let (attempts, failed_at, last_error): (i64, Option<i64>, Option<String>) = conn
        .connection()
        .query_row(
            "SELECT attempts, failed_at, last_error FROM remote_inbox WHERE id = ?1",
            [entry.id],
            |row| Ok((row.get(0)?, row.get(1)?, row.get(2)?)),
        )
        .unwrap();
    assert_eq!(attempts, 3);
    assert!(failed_at.is_some());
    assert_eq!(last_error.as_deref(), Some("AGENT_NOT_FOUND"));
}

#[test]
fn mark_remote_input_failed_is_terminal_without_incrementing_attempts() {
    let mut conn = bare();
    enqueue_remote_input(
        &mut conn,
        "s-inbox-parse",
        "cmd-parse",
        "input.send",
        "{malformed",
    )
    .unwrap();
    let entry = next_pending_remote_input(&mut conn, "s-inbox-parse")
        .unwrap()
        .unwrap();
    mark_remote_input_failed(&mut conn, entry.id, "REMOTE_INBOX_PAYLOAD_MALFORMED").unwrap();

    assert_eq!(
        next_pending_remote_input(&mut conn, "s-inbox-parse").unwrap(),
        None);
    let (attempts, failed_at, last_error): (i64, Option<i64>, Option<String>) = conn
        .connection()
        .query_row(
            "SELECT attempts, failed_at, last_error FROM remote_inbox WHERE id = ?1",
            [entry.id],
            |row| Ok((row.get(0)?, row.get(1)?, row.get(2)?)),
        )
        .unwrap();
    assert_eq!(attempts, 0);
    assert!(failed_at.is_some());
    assert_eq!(
        last_error.as_deref(),
        Some("REMOTE_INBOX_PAYLOAD_MALFORMED"));
}

#[test]
fn sessions_with_pending_remote_input_excludes_soft_deleted_sessions() {
    let mut conn = bare();
    insert_remote_inbox_session(&mut conn, "s-inbox-deleted");
    enqueue_remote_input(
        &mut conn,
        "s-inbox-deleted",
        "cmd-deleted",
        "input.send",
        r#"{"text":"queued"}"#,
    )
    .unwrap();
    conn.connection().execute(
        "UPDATE sessions SET deleted_at = 1 WHERE id = 's-inbox-deleted'",
        [],
    )
    .unwrap();

    assert!(
        !sessions_with_pending_remote_input(&mut conn)
            .unwrap()
            .contains(&"s-inbox-deleted".to_string()));
}

#[test]
fn remote_devices_insert_and_list_roundtrip() {
    let mut conn = bare();
    insert_remote_device(
        &mut conn,
        "dev-1",
        Some("room-a"),
        "iPhone",
        "hash-a",
        "refresh-a",
        1_700_003_600,
        1_700_000_000,
    )
    .unwrap();
    insert_remote_device(
        &mut conn,
        "dev-2",
        None,
        "",
        "hash-b",
        "refresh-b",
        1_700_003_601_000,
        1_700_000_001,
    )
    .unwrap();

    let rows = list_remote_devices(&mut conn).unwrap();
    assert_eq!(rows.len(), 2);
    assert_eq!(rows[0].device_id, "dev-1");
    assert_eq!(rows[0].name, "iPhone");
    assert_eq!(rows[0].token_hash, "hash-a");
    assert_eq!(rows[0].refresh_hash, "refresh-a");
    assert_eq!(rows[0].access_expires_at, 1_700_003_600_000);
    assert_eq!(rows[0].revoked_at, None);
    assert_eq!(rows[0].room_id.as_deref(), Some("room-a"));
    assert_eq!(rows[0].generation, None);
    assert_eq!(rows[0].refresh_until, None);
    assert_eq!(rows[1].device_id, "dev-2");
    assert_eq!(rows[1].access_expires_at, 1_700_003_601_000);
}

#[test]
fn remote_devices_revoke_is_idempotent_and_preserves_first_revoked_at() {
    let mut conn = bare();
    insert_remote_device(
        &mut conn,
        "dev-1",
        None,
        "",
        "hash-a",
        "refresh-a",
        1_700_003_600,
        1_700_000_000,
    )
    .unwrap();

    assert!(revoke_remote_device(&mut conn, "dev-1", 1_700_001_000).unwrap());
    assert!(!revoke_remote_device(&mut conn, "dev-1", 1_700_002_000).unwrap());

    let rows = list_remote_devices(&mut conn).unwrap();
    assert_eq!(rows[0].revoked_at, Some(1_700_001_000));
}

#[test]
fn remote_devices_revoke_unknown_device_returns_false() {
    let mut conn = bare();
    assert!(!revoke_remote_device(&mut conn, "does-not-exist", 1_700_001_000).unwrap());
}

#[test]
fn remote_devices_update_tokens_rotates_hashes_and_expiry() {
    let mut conn = bare();
    insert_remote_device(
        &mut conn,
        "dev-1",
        None,
        "",
        "hash-old",
        "refresh-old",
        1_700_003_600,
        1_700_000_000,
    )
    .unwrap();

    let changed =
        update_remote_device_tokens(&mut conn, "dev-1", "hash-new", "refresh-new", 1_700_007_200)
            .unwrap();
    assert!(changed);

    let rows = list_remote_devices(&mut conn).unwrap();
    assert_eq!(rows[0].token_hash, "hash-new");
    assert_eq!(rows[0].refresh_hash, "refresh-new");
    assert_eq!(rows[0].access_expires_at, 1_700_007_200_000);

    let changed = update_remote_device_tokens(
        &mut conn,
        "dev-1",
        "hash-newer",
        "refresh-newer",
        1_700_010_800_000,
    )
    .unwrap();
    assert!(changed);
    assert_eq!(
        list_remote_devices(&mut conn).unwrap()[0].access_expires_at,
        1_700_010_800_000);
}

#[test]
fn remote_devices_reject_non_positive_access_expiry_writes() {
    let mut conn = bare();

    for expires_at in [-1, 0] {
        assert!(insert_remote_device(
            &mut conn,
            &format!("dev-{expires_at}"),
            None,
            "",
            "hash",
            "refresh",
            expires_at,
            1_700_000_000,
        )
        .is_err());
    }

    insert_remote_device(
        &mut conn,
        "dev-valid",
        None,
        "",
        "hash-old",
        "refresh-old",
        1_700_003_600_000,
        1_700_000_000,
    )
    .unwrap();
    for expires_at in [-1, 0] {
        assert!(update_remote_device_tokens(
            &mut conn,
            "dev-valid",
            "hash-new",
            "refresh-new",
            expires_at,
        )
        .is_err());
    }
    assert_eq!(
        list_remote_devices(&mut conn).unwrap()[0].access_expires_at,
        1_700_003_600_000);
}

#[test]
fn remote_devices_update_tokens_does_not_resurrect_revoked_device() {
    let mut conn = bare();
    insert_remote_device(
        &mut conn,
        "dev-1",
        None,
        "",
        "hash-old",
        "refresh-old",
        1_700_003_600,
        1_700_000_000,
    )
    .unwrap();
    revoke_remote_device(&mut conn, "dev-1", 1_700_001_000).unwrap();

    let changed =
        update_remote_device_tokens(&mut conn, "dev-1", "hash-new", "refresh-new", 1_700_007_200)
            .unwrap();
    assert!(!changed);

    let rows = list_remote_devices(&mut conn).unwrap();
    assert_eq!(rows[0].token_hash, "hash-old");
}

#[test]
fn remote_devices_init_schema_is_idempotent_for_new_database() {
    let mut conn = bare();
    insert_remote_device(
        &mut conn,
        "dev-survives",
        None,
        "",
        "hash-a",
        "refresh-a",
        1_700_003_600,
        1_700_000_000,
    )
    .unwrap();
    init_schema(&mut conn).unwrap();

    let rows = list_remote_devices(&mut conn).unwrap();
    assert_eq!(rows[0].access_expires_at, 1_700_003_600_000);

    init_schema(&mut conn).unwrap();

    let rows = list_remote_devices(&mut conn).unwrap();
    assert_eq!(rows.len(), 1);
    assert_eq!(rows[0].device_id, "dev-survives");

    let columns = remote_devices_column_names(&mut conn);
    for expected in [
        "room_id",
        "generation",
        "refresh_until",
        "journal_request_id",
        "journal_generation",
        "journal_prev_generation",
        "journal_prev_access_hash",
        "journal_prev_refresh_hash",
        "journal_response_ct",
        "journal_response_n",
        "journal_prev_expires_at",
        "journal_response_expires",
    ] {
        assert!(columns.iter().any(|column| column == expected));
    }
}

#[test]
fn remote_devices_without_room_config_keep_legacy_room_id_null() {
    let mut conn = open();
    conn.connection().execute_batch(
        "CREATE TABLE remote_devices (
            device_id TEXT PRIMARY KEY,
            name TEXT NOT NULL DEFAULT '',
            token_hash TEXT NOT NULL,
            refresh_hash TEXT NOT NULL,
            access_expires_at INTEGER NOT NULL,
            created_at INTEGER NOT NULL,
            revoked_at INTEGER
        );
        INSERT INTO remote_devices
            (device_id, name, token_hash, refresh_hash, access_expires_at, created_at, revoked_at)
        VALUES
            ('legacy-device', 'Legacy', 'legacy-access', 'legacy-refresh', 1700003600, 1700000000, 1700000100);",
    )
    .unwrap();

    init_schema(&mut conn).unwrap();
    assert_eq!(
        list_remote_devices(&mut conn).unwrap()[0].access_expires_at,
        1_700_003_600_000);

    init_schema(&mut conn).unwrap();

    let columns = remote_devices_column_names(&mut conn);
    assert_eq!(columns.len(), 19);
    let rows = list_remote_devices(&mut conn).unwrap();
    assert_eq!(rows.len(), 1);
    assert_eq!(rows[0].device_id, "legacy-device");
    assert_eq!(rows[0].name, "Legacy");
    assert_eq!(rows[0].token_hash, "legacy-access");
    assert_eq!(rows[0].refresh_hash, "legacy-refresh");
    assert_eq!(
        rows[0].access_expires_at, 1_700_003_600_000);
    assert_eq!(rows[0].created_at, 1_700_000_000);
    assert_eq!(rows[0].revoked_at, Some(1_700_000_100));
    assert_eq!(rows[0].room_id, None);
    assert_eq!(rows[0].generation, None);
    assert_eq!(rows[0].refresh_until, None);
}

#[test]
fn remote_devices_migration_backfills_current_room_without_changing_other_columns() {
    let mut conn = open();
    conn.connection().execute_batch(
        "CREATE TABLE app_settings (key TEXT PRIMARY KEY, value TEXT NOT NULL);
         INSERT INTO app_settings(key, value) VALUES('remote_room_id', 'room-current');
         CREATE TABLE remote_devices (
            device_id TEXT PRIMARY KEY,
            name TEXT NOT NULL DEFAULT '',
            token_hash TEXT NOT NULL,
            refresh_hash TEXT NOT NULL,
            access_expires_at INTEGER NOT NULL,
            created_at INTEGER NOT NULL,
            revoked_at INTEGER
         );
         INSERT INTO remote_devices
            (device_id, name, token_hash, refresh_hash, access_expires_at, created_at, revoked_at)
         VALUES
            ('legacy-device', 'Legacy', 'access-hash', 'refresh-hash',
             1700003600000, 1700000000, 1700000100);",
    )
    .unwrap();

    init_schema(&mut conn).unwrap();
    init_schema(&mut conn).unwrap();

    let row = list_remote_devices(&mut conn).unwrap().remove(0);
    assert_eq!(row.device_id, "legacy-device");
    assert_eq!(row.name, "Legacy");
    assert_eq!(row.token_hash, "access-hash");
    assert_eq!(row.refresh_hash, "refresh-hash");
    assert_eq!(row.access_expires_at, 1_700_003_600_000);
    assert_eq!(row.created_at, 1_700_000_000);
    assert_eq!(row.revoked_at, Some(1_700_000_100));
    assert_eq!(row.room_id.as_deref(), Some("room-current"));
    assert_eq!(row.generation, None);
    assert_eq!(row.refresh_until, None);
    assert_eq!(row.journal_request_id, None);
    assert_eq!(row.journal_generation, None);
    assert_eq!(row.journal_prev_generation, None);
    assert_eq!(row.journal_prev_access_hash, None);
    assert_eq!(row.journal_prev_refresh_hash, None);
    assert_eq!(row.journal_response_ct, None);
    assert_eq!(row.journal_response_n, None);
    assert_eq!(row.journal_prev_expires_at, None);
    assert_eq!(row.journal_response_expires, None);
}

#[test]
fn remote_devices_migration_leaves_non_positive_expiry_for_fail_closed_loading() {
    let mut conn = open();
    conn.connection().execute_batch(
        "CREATE TABLE remote_devices (
            device_id TEXT PRIMARY KEY,
            name TEXT NOT NULL DEFAULT '',
            token_hash TEXT NOT NULL,
            refresh_hash TEXT NOT NULL,
            access_expires_at INTEGER NOT NULL,
            created_at INTEGER NOT NULL,
            revoked_at INTEGER
        );
        INSERT INTO remote_devices
            (device_id, token_hash, refresh_hash, access_expires_at, created_at)
        VALUES
            ('negative', 'hash-negative', 'refresh-negative', -1, 1700000000),
            ('zero', 'hash-zero', 'refresh-zero', 0, 1700000000);",
    )
    .unwrap();

    init_schema(&mut conn).unwrap();

    let rows = list_remote_devices(&mut conn).unwrap();
    assert_eq!(rows[0].access_expires_at, -1);
    assert_eq!(rows[1].access_expires_at, 0);
}

#[test]
fn remote_devices_registry_fields_roundtrip() {
    let mut conn = bare();
    insert_remote_device(
        &mut conn,
        "dev-registry",
        None,
        "",
        "hash-a",
        "refresh-a",
        1_700_003_600,
        1_700_000_000,
    )
    .unwrap();

    assert!(
        set_remote_device_registry(&mut conn, "dev-registry", "room-1", 7, 1_700_000_000_000,)
            .unwrap());

    let rows = list_remote_devices(&mut conn).unwrap();
    assert_eq!(rows[0].room_id.as_deref(), Some("room-1"));
    assert_eq!(rows[0].generation, Some(7));
    assert_eq!(rows[0].refresh_until, Some(1_700_000_000_000));
}

#[test]
fn remote_device_registry_rejects_second_scale_refresh_until() {
    let mut conn = bare();
    insert_remote_device(
        &mut conn,
        "dev-registry-seconds",
        None,
        "",
        "hash-a",
        "refresh-a",
        1_700_003_600_000,
        1_700_000_000,
    )
    .unwrap();

    let error =
        set_remote_device_registry(&mut conn, "dev-registry-seconds", "room-1", 7, 1_700_000_000)
            .unwrap_err();

    assert!(matches!(
        error,
        DbError::OutOfRange { value: 1_700_000_000, .. }
    ));
    let row = list_remote_devices(&mut conn).unwrap().remove(0);
    assert_eq!(row.room_id, None);
    assert_eq!(row.generation, None);
    assert_eq!(row.refresh_until, None);
}

#[test]
fn get_remote_device_returns_none_for_unknown_id() {
    let mut conn = bare();
    assert_eq!(get_remote_device(&mut conn, "dev-missing").unwrap(), None);
}

#[test]
fn get_remote_device_matches_the_row_from_list_remote_devices() {
    let mut conn = bare();
    insert_remote_device(
        &mut conn,
        "dev-single",
        None,
        "",
        "hash-a",
        "refresh-a",
        1_700_003_600_000,
        1_700_000_000,
    )
    .unwrap();
    assert!(
        set_remote_device_registry(&mut conn, "dev-single", "room-1", 3, 1_700_000_000_000,)
            .unwrap());

    let single = get_remote_device(&mut conn, "dev-single").unwrap().unwrap();
    let listed = list_remote_devices(&mut conn).unwrap().remove(0);
    assert_eq!(single, listed);
    assert_eq!(single.room_id.as_deref(), Some("room-1"));
    assert_eq!(single.generation, Some(3));
}

#[test]
fn remote_devices_refresh_journal_roundtrip_and_clear() {
    let mut conn = bare();
    insert_remote_device(
        &mut conn,
        "dev-journal",
        None,
        "",
        "hash-a",
        "refresh-a",
        1_700_003_600,
        1_700_000_000,
    )
    .unwrap();
    let journal = RemoteRefreshJournal {
        request_id: "request-1".to_string(),
        generation: 8,
        prev_generation: 7,
        prev_access_hash: "prev-access".to_string(),
        prev_refresh_hash: "prev-refresh".to_string(),
        response_ct: "ciphertext".to_string(),
        response_n: "nonce".to_string(),
        prev_expires_at: 1_700_172_800_000,
        response_expires: 1_700_003_600_000,
    };

    assert!(store_refresh_journal(&mut conn, "dev-journal", &journal).unwrap());
    assert_eq!(
        load_refresh_journal(&mut conn, "dev-journal").unwrap(),
        Some(journal));
    assert!(clear_refresh_journal(&mut conn, "dev-journal").unwrap());
    assert_eq!(load_refresh_journal(&mut conn, "dev-journal").unwrap(), None);
}

#[test]
fn remote_registry_counter_starts_at_one_and_is_monotonic_per_room() {
    let mut conn = bare();
    assert_eq!(next_registry_generation(&mut conn, "room-a").unwrap(), 1);
    assert_eq!(next_registry_generation(&mut conn, "room-a").unwrap(), 2);
    assert_eq!(next_registry_generation(&mut conn, "room-b").unwrap(), 1);
    assert_eq!(next_registry_generation(&mut conn, "room-a").unwrap(), 3);
}

#[test]
fn remote_registry_bump_to_is_idempotent_and_never_moves_backward() {
    let mut conn = bare();
    bump_registry_counter_to(&mut conn, "room-a", 10).unwrap();
    bump_registry_counter_to(&mut conn, "room-a", 10).unwrap();
    bump_registry_counter_to(&mut conn, "room-a", 4).unwrap();
    assert_eq!(next_registry_generation(&mut conn, "room-a").unwrap(), 11);
    assert_eq!(next_registry_generation(&mut conn, "room-a").unwrap(), 12);
}

#[test]
fn project_remote_room_schema_migration_is_idempotent() {
    let mut conn = bare();
    let room = ensure_remote_room_for_project(&mut conn, "proj-1", room).unwrap();

    init_schema(&mut conn).unwrap();
    init_schema(&mut conn).unwrap();

    assert_eq!(
        remote_room_for_project(&mut conn, "proj-1").unwrap(),
        Some(room));
    let count: i64 = conn
        .connection()
        .query_row("SELECT COUNT(*) FROM project_remote_rooms", [], |row| {
            row.get(0)
        })
        .unwrap();
    assert_eq!(count, 1);
}

#[test]
fn project_remote_room_resolver_returns_none_when_unassigned() {
    let mut conn = bare();
    assert_eq!(
        remote_room_for_project(&mut conn, "proj-never-assigned").unwrap(),
        None);
}

#[test]
fn project_remote_room_assignment_is_idempotent_per_project() {
    let mut conn = bare();
    let first = ensure_remote_room_for_project(&mut conn, "proj-1", room).unwrap();
    let second = ensure_remote_room_for_project(&mut conn, "proj-1", room).unwrap();
    assert_eq!(first, second);

    let count: i64 = conn
        .connection()
        .query_row(
            "SELECT COUNT(*) FROM project_remote_rooms WHERE project_id = 'proj-1'",
            [],
            |row| row.get(0),
        )
        .unwrap();
    assert_eq!(count, 1);
}

#[test]
fn project_remote_room_assignment_differs_across_projects() {
    let mut conn = bare();
    let room_a = ensure_remote_room_for_project(&mut conn, "proj-a", room).unwrap();
    let room_b = ensure_remote_room_for_project(&mut conn, "proj-b", room).unwrap();
    assert_ne!(room_a, room_b);
}

#[test]
fn project_remote_room_id_shape_is_32_lowercase_hex() {
    let mut conn = bare();
    let room = ensure_remote_room_for_project(&mut conn, "proj-shape", room).unwrap();
    assert_eq!(room.len(), 32);
    assert!(
        room.chars()
            .all(|c| c.is_ascii_hexdigit() && !c.is_ascii_uppercase()));
}

#[test]
fn an_expiry_in_seconds_becomes_one_in_milliseconds() {
    assert_eq!(normalize_access_expires_at_millis(1_700_000_000), Ok(1_700_000_000_000));
    assert_eq!(normalize_access_expires_at_millis(1_700_000_000_000), Ok(1_700_000_000_000));
    assert_eq!(normalize_access_expires_at_millis(1), Ok(1000));
    for at in [0, -1, i64::MIN] {
        let err = normalize_access_expires_at_millis(at).unwrap_err();
        assert_eq!(err, DbError::OutOfRange { index: 0, value: at });
    }
    let err = normalize_access_expires_at_millis(-1).unwrap_err();
    assert_eq!(err.message(), "Integer -1 out of range at index 0");
}

#[test]
fn a_time_in_seconds_is_no_time_in_milliseconds() {
    assert_eq!(require_millis_timestamp(1_700_000_000_000), Ok(1_700_000_000_000));
    assert_eq!(
        require_millis_timestamp(1_700_000_000).unwrap_err(),
        DbError::OutOfRange { index: 0, value: 1_700_000_000 }
    );
}

#[test]
fn the_next_generation_is_greater_than_all_issued() {
    let mut c = bare();
    assert_eq!(current_registry_revision(&mut c, "room").unwrap(), 1);
    assert_eq!(next_registry_generation(&mut c, "room").unwrap(), 1);
    assert_eq!(current_registry_revision(&mut c, "room").unwrap(), 2);
    bump_registry_counter_to_in_transaction(&mut c, "room", 7).unwrap();
    assert_eq!(current_registry_revision(&mut c, "room").unwrap(), 8);
    bump_registry_counter_to_in_transaction(&mut c, "room", 3).unwrap();
    assert_eq!(next_registry_generation_in_transaction(&mut c, "room").unwrap(), 8);
    assert_eq!(current_registry_revision(&mut c, "room").unwrap(), 9);
}

#[test]
fn a_device_is_registered_within_the_callers_transaction() {
    let mut c = bare();
    insert_remote_device(&mut c, "d1", None, "", "hash", "refresh", 1_700_000_000, 1).unwrap();
    c.connection().execute_batch("BEGIN").unwrap();
    assert!(set_remote_device_registry_in_transaction(
        &mut c,
        "d1",
        "room",
        4,
        1_700_000_000_000
    )
    .unwrap());
    assert!(!set_remote_device_registry_in_transaction(
        &mut c,
        "d2",
        "room",
        4,
        1_700_000_000_000
    )
    .unwrap());
    c.connection().execute_batch("ROLLBACK").unwrap();
    assert_eq!(get_remote_device(&mut c, "d1").unwrap().unwrap().generation, None);
}

#[test]
fn a_room_that_is_taken_is_never_handed_out_twice() {
    let mut c = bare();
    let first = ensure_remote_room_for_project(&mut c, "p1", || "same".to_string()).unwrap();
    assert_eq!(first, "same");
    assert!(ensure_remote_room_for_project(&mut c, "p2", || "same".to_string()).is_err());
    let again = ensure_remote_room_for_project(&mut c, "p1", || "other".to_string()).unwrap();
    assert_eq!(again, "same");
}

#[test]
fn the_room_is_the_first_candidate_that_is_free() {
    let mut c = bare();
    ensure_remote_room_for_project(&mut c, "p1", || "r1".to_string()).unwrap();
    ensure_remote_room_for_project(&mut c, "p2", || "r2".to_string()).unwrap();
    let rooms = ["r1", "r2", "r3", "r4"];
    let next = std::cell::Cell::new(0);
    let given = ensure_remote_room_for_project(&mut c, "p3", || {
        next.set(next.get() + 1);
        rooms[next.get() - 1].to_string()
    });
    assert_eq!(given, Ok("r3".to_string()));
    assert_eq!(next.get(), 3);
    assert_eq!(remote_room_for_project(&mut c, "p3").unwrap().as_deref(), Some("r3"));
}

#[test]
fn where_all_candidates_are_taken_no_room_is_stored() {
    let mut c = bare();
    ensure_remote_room_for_project(&mut c, "p1", || "r1".to_string()).unwrap();
    let tried = std::cell::Cell::new(0);
    let refused = ensure_remote_room_for_project(&mut c, "p2", || {
        tried.set(tried.get() + 1);
        "r1".to_string()
    });
    assert!(refused.unwrap_err().contains("project_id=p2"));
    assert_eq!(tried.get(), 3);
    let rows: i64 = c
        .connection()
        .query_row("SELECT count(*) FROM project_remote_rooms", [], |r| r.get(0))
        .unwrap();
    assert_eq!(rows, 1);
}
