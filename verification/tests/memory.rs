use agentloom_db::anchors::{
    Anchor,
    memory_read_source,
    memory_read_source_json,
    read_anchor,
    read_ref,
};
use agentloom_db::blocks::Block;
use agentloom_db::engine::{Db, DbError};
use agentloom_db::json::{integer, Json};
use agentloom_db::memory::{
    CompactState,
    MemoryBlock,
    MemorySetOutcome,
    anchor_to_message,
    compact_state_of,
    get_compact_state,
    get_memory_block,
    insert_decision,
    insert_memory_entry,
    list_decisions,
    list_memory_entries,
    memory_set,
    upsert_compact_state,
    upsert_memory_block,
};
use agentloom_db::schema::init_schema;
use agentloom_db::sessions::delete_session;

fn open() -> Db {
    Db::new(rusqlite::Connection::open_in_memory().unwrap())
}

fn mem() -> Db {
    let mut c = open();
    init_schema(&mut c).unwrap();
    c.connection()
        .execute(
            "INSERT OR IGNORE INTO namespaces (id, kind, name, is_builtin, added_at) VALUES ('local', 'local', 'Local', 1, 0)",
            [],
        )
        .unwrap();
    c.connection()
        .execute(
            "INSERT OR IGNORE INTO repos (id, namespace_id, source, name, path, status, added_at) VALUES ('local-default', 'local', 'local', '我的项目', '/tmp/agentloom-mem-local-default', 'active', 0)",
            [],
        )
        .unwrap();
    c
}

fn bare() -> Db {
    let mut c = open();
    init_schema(&mut c).unwrap();
    c
}

fn decode(text: &str) -> Option<Vec<Block>> {
    let value: serde_json::Value = serde_json::from_str(text).ok()?;
    value
        .as_array()?
        .iter()
        .map(|b| {
            let text = b.get("text")?.as_str()?.to_string();
            match b.get("type")?.as_str()? {
                "text" => Some(Block::Text { text }),
                "thinking" => Some(Block::Thinking { text }),
                _ => None,
            }
        })
        .collect()
}

#[test]
fn memory_block_upsert_overwrites_and_get() {
    let mut conn = open();
    init_schema(&mut conn).unwrap();
    assert!(get_memory_block(&mut conn, "s1", "goal").unwrap().is_none());
    upsert_memory_block(&mut conn, "s1", "goal", "重构感知管线", None, Some("app")).unwrap();
    let b = get_memory_block(&mut conn, "s1", "goal").unwrap().unwrap();
    assert_eq!(b.text, "重构感知管线");
    assert_eq!(b.title, None);
    assert_eq!(b.updated_by.as_deref(), Some("app"));
    upsert_memory_block(
        &mut conn,
        "s1",
        "goal",
        "改登录流程",
        Some("登录流程"),
        Some("lead"),
    )
    .unwrap();
    let b2 = get_memory_block(&mut conn, "s1", "goal").unwrap().unwrap();
    assert_eq!(b2.text, "改登录流程");
    assert_eq!(b2.title.as_deref(), Some("登录流程"));
    let cnt: i64 = conn
        .connection()
        .query_row(
            "SELECT COUNT(*) FROM memory_blocks WHERE session_id='s1'",
            [],
            |r| r.get(0),
        )
        .unwrap();
    assert_eq!(cnt, 1);
    assert!(get_memory_block(&mut conn, "s1", "state").unwrap().is_none());
}

#[test]
fn memory_set_cas_rejects_stale_base_revision() {
    let mut conn = open();
    init_schema(&mut conn).unwrap();

    let r1 = memory_set(&mut conn, "s1", "goal", "初始文本", None, Some("app"), None, 0).unwrap();
    assert_eq!(r1, MemorySetOutcome::Applied { revision: 1 });

    let r2 = memory_set(&mut conn, "s1", "goal", "新文本", None, Some("app"), None, 0).unwrap();
    assert_eq!(
        r2,
        MemorySetOutcome::Conflict {
            current_revision: 1
        });

    let b = get_memory_block(&mut conn, "s1", "goal").unwrap().unwrap();
    assert_eq!(b.text, "初始文本");
    assert_eq!(b.revision, 1);

    let r3 = memory_set(&mut conn, "s1", "goal", "新文本", None, Some("app"), None, 1).unwrap();
    assert_eq!(r3, MemorySetOutcome::Applied { revision: 2 });
    let b2 = get_memory_block(&mut conn, "s1", "goal").unwrap().unwrap();
    assert_eq!(b2.text, "新文本");
    assert_eq!(b2.revision, 2);
}

#[test]
fn upsert_memory_block_bumps_revision() {
    let mut conn = open();
    init_schema(&mut conn).unwrap();

    upsert_memory_block(&mut conn, "s1", "goal", "第一次", None, Some("app")).unwrap();
    let b1 = get_memory_block(&mut conn, "s1", "goal").unwrap().unwrap();
    assert_eq!(b1.revision, 1);

    upsert_memory_block(&mut conn, "s1", "goal", "第二次", None, Some("lead")).unwrap();
    let b2 = get_memory_block(&mut conn, "s1", "goal").unwrap().unwrap();
    assert_eq!(b2.revision, 2);
    assert_eq!(b2.text, "第二次");

    let cnt: i64 = conn
        .connection()
        .query_row(
            "SELECT COUNT(*) FROM memory_blocks WHERE session_id='s1'",
            [],
            |r| r.get(0),
        )
        .unwrap();
    assert_eq!(cnt, 1);
}

#[test]
fn compact_state_roundtrip_write_read_consistent() {
    let mut conn = mem();

    upsert_compact_state(&mut conn, "s1", "滚动摘要", 42, Some("run-1")).unwrap();

    assert_eq!(
        get_compact_state(&mut conn, "s1").unwrap(),
        Some(CompactState {
            summary: "滚动摘要".to_string(),
            through_message_id: 42,
            revision: 1,
        }));
    let block = get_memory_block(&mut conn, "s1", "compact").unwrap().unwrap();
    assert_eq!(block.anchor_refs_json, r#"[{"kind":"message","ref":42}]"#);
    assert_eq!(block.updated_by.as_deref(), Some("autocompact"));
    assert_eq!(block.updated_run_id.as_deref(), Some("run-1"));
}

#[test]
fn compact_state_missing_returns_none() {
    let mut conn = mem();

    assert_eq!(get_compact_state(&mut conn, "missing").unwrap(), None);
}

#[test]
fn compact_state_malformed_anchor_returns_none_without_panicking() {
    let mut conn = mem();

    for (session_id, anchor_refs_json) in [
        ("bad-json", "not-json"),
        ("empty", "[]"),
        ("string-ref", r#"[{"kind":"message","ref":"42"}]"#),
    ] {
        conn.connection().execute(
            "INSERT INTO memory_blocks \
             (session_id, slot, text, anchor_refs_json, updated_by, updated_at, revision) \
             VALUES (?1, 'compact', '摘要', ?2, 'autocompact', 0, 1)",
            (session_id, anchor_refs_json),
        )
        .unwrap();
        assert_eq!(get_compact_state(&mut conn, session_id).unwrap(), None);
    }
}

#[test]
fn compact_state_overwrite_increments_revision() {
    let mut conn = mem();
    upsert_compact_state(&mut conn, "s1", "摘要一", 10, Some("run-1")).unwrap();

    upsert_compact_state(&mut conn, "s1", "摘要二", 20, Some("run-2")).unwrap();

    assert_eq!(
        get_compact_state(&mut conn, "s1").unwrap(),
        Some(CompactState {
            summary: "摘要二".to_string(),
            through_message_id: 20,
            revision: 2,
        }));
}

#[test]
fn compact_state_watermark_regression_is_rejected() {
    let mut conn = mem();
    upsert_compact_state(&mut conn, "s1", "较新摘要", 20, Some("run-new")).unwrap();

    upsert_compact_state(&mut conn, "s1", "过期摘要", 10, Some("run-old")).unwrap();

    assert_eq!(
        get_compact_state(&mut conn, "s1").unwrap(),
        Some(CompactState {
            summary: "较新摘要".to_string(),
            through_message_id: 20,
            revision: 1,
        }));
    let block = get_memory_block(&mut conn, "s1", "compact").unwrap().unwrap();
    assert_eq!(block.updated_run_id.as_deref(), Some("run-new"));
}

#[test]
fn compact_state_equal_watermark_allows_overwrite() {
    let mut conn = mem();
    upsert_compact_state(&mut conn, "s1", "摘要一", 20, Some("run-1")).unwrap();

    upsert_compact_state(&mut conn, "s1", "摘要二", 20, Some("run-2")).unwrap();

    assert_eq!(
        get_compact_state(&mut conn, "s1").unwrap(),
        Some(CompactState {
            summary: "摘要二".to_string(),
            through_message_id: 20,
            revision: 2,
        }));
    let block = get_memory_block(&mut conn, "s1", "compact").unwrap().unwrap();
    assert_eq!(block.updated_run_id.as_deref(), Some("run-2"));
}

#[test]
fn memory_set_stores_updated_run_id() {
    let mut conn = open();
    init_schema(&mut conn).unwrap();

    let r = memory_set(
        &mut conn,
        "s1",
        "goal",
        "目标文本",
        Some("标题"),
        Some("lead"),
        Some("run-abc"),
        0,
    )
    .unwrap();
    assert_eq!(r, MemorySetOutcome::Applied { revision: 1 });

    let b = get_memory_block(&mut conn, "s1", "goal").unwrap().unwrap();
    assert_eq!(b.updated_run_id.as_deref(), Some("run-abc"));
    assert_eq!(b.title.as_deref(), Some("标题"));
    assert_eq!(b.revision, 1);
}

#[test]
fn decision_ledger_append_and_list() {
    let mut c = mem();
    insert_decision(
        &mut c,
        "s1",
        Some("run-1"),
        Some("a1"),
        "选用方案X",
        r#"[{"run_id":"run-1","assignment_id":"a1","block_index":3}]"#,
        "[]",
        "worker_tail",
        Some("high"),
    )
    .unwrap();
    insert_decision(
        &mut c,
        "s1",
        Some("run-1"),
        Some("a1"),
        "改用方案Y",
        "[]",
        "[1]",
        "lead_extract",
        None,
    )
    .unwrap();
    let rows = list_decisions(&mut c, "s1").unwrap();
    assert_eq!(rows.len(), 2);
    assert_eq!(rows[0].text, "选用方案X");
    assert_eq!(
        rows[0].source_refs_json,
        r#"[{"run_id":"run-1","assignment_id":"a1","block_index":3}]"#);
    assert_eq!(rows[1].supersedes_json, "[1]");
    assert!(rows[0].id < rows[1].id);
    assert_eq!(rows[0].source_assignment_id.as_deref(), Some("a1"));
    assert_eq!(rows[0].source_kind.as_deref(), Some("worker_tail"));
    assert_eq!(rows[0].confidence.as_deref(), Some("high"));
    assert_eq!(rows[1].confidence, None);
}

#[test]
fn insert_decision_accepts_null_run_id() {
    let mut c = mem();
    insert_decision(
        &mut c,
        "s1",
        None,
        None,
        "直接回复用户",
        "[]",
        "[]",
        "lead_action",
        Some("high"),
    )
    .unwrap();
    let rows = list_decisions(&mut c, "s1").unwrap();
    assert_eq!(rows.len(), 1);
    assert_eq!(rows[0].run_id, None);
    assert_eq!(rows[0].text, "直接回复用户");
}

#[test]
fn record_dispatch_logs_dispatch_worker_kind() {
    let mut c = mem();
    insert_decision(
        &mut c,
        "s1",
        None,
        None,
        "改 README｜task: 写新闻",
        "[\"README.md\"]",
        "[]",
        "dispatch_worker",
        None,
    )
    .unwrap();
    let rows = list_decisions(&mut c, "s1").unwrap();
    assert_eq!(rows.len(), 1);
    assert_eq!(rows[0].source_kind.as_deref(), Some("dispatch_worker"));
    assert_eq!(rows[0].run_id, None);
}

#[test]
fn memory_read_source_json_tolerates_bad_input() {
    let mut c = mem();

    let got = memory_read_source_json(&mut c, "not json", &decode);

    assert!(got.unwrap().is_none());
}

#[test]
fn memory_read_source_non_message_kind_returns_none() {
    let mut c = mem();
    let anchor = Anchor {
        kind: "file".into(),
        ref_id: "a.rs".into(),
        block_index: None,
        char_range: None,
        line: None,
        label: None,
    };

    let got = memory_read_source(&mut c, &anchor, &decode).unwrap();

    assert!(got.is_none());
}

#[test]
fn delete_session_removes_memory_blocks() {
    let mut conn = open();
    init_schema(&mut conn).unwrap();
    conn.connection().execute(
        "INSERT INTO namespaces (id, kind, name, is_builtin, added_at) VALUES ('local','local','Local',1,0)",
        [],
    )
    .unwrap();
    conn.connection().execute(
        "INSERT INTO repos (id, namespace_id, source, name, path, status, added_at) VALUES ('local-default','local','local','Local 默认','/tmp/agentloom-memory-block-delete-session','active',0)",
        [],
    )
    .unwrap();
    conn.connection().execute(
        "INSERT INTO sessions (id, title, repo_id, namespace_id, created_at) VALUES ('s1','T','local-default','local',0)",
        [],
    )
    .unwrap();
    upsert_memory_block(&mut conn, "s1", "goal", "g", None, Some("app")).unwrap();

    assert!(get_memory_block(&mut conn, "s1", "goal").unwrap().is_some());

    delete_session(&mut conn, "s1").unwrap();

    assert!(get_memory_block(&mut conn, "s1", "goal").unwrap().is_none());
}

#[test]
fn memory_entries_insert_and_list_active() {
    let mut conn = open();
    init_schema(&mut conn).unwrap();
    let id1 = insert_memory_entry(
        &mut conn,
        "s1",
        "decision",
        "用 SQLite",
        "[]",
        "[]",
        None,
        None,
        false,
    )
    .unwrap();
    let id2 = insert_memory_entry(
        &mut conn,
        "s1",
        "decision",
        "选 Rust",
        "[]",
        "[]",
        None,
        Some("high"),
        false,
    )
    .unwrap();
    let id3 = insert_memory_entry(
        &mut conn,
        "s1",
        "pitfall",
        "避免 unwrap 在生产",
        "[]",
        "[]",
        None,
        None,
        false,
    )
    .unwrap();
    let entries = list_memory_entries(&mut conn, "s1", false).unwrap();
    assert_eq!(entries.len(), 3);
    assert_eq!(entries[0].id, id1);
    assert_eq!(entries[0].category, "decision");
    assert_eq!(entries[1].id, id2);
    assert_eq!(entries[2].id, id3);
    assert_eq!(entries[2].category, "pitfall");
}

#[test]
fn memory_entries_supersede_hides_old() {
    let mut conn = open();
    init_schema(&mut conn).unwrap();
    let id_a = insert_memory_entry(
        &mut conn,
        "s1",
        "decision",
        "旧决策",
        "[]",
        "[]",
        None,
        None,
        false,
    )
    .unwrap();
    let supersedes = format!("[{id_a}]");
    let id_b = insert_memory_entry(
        &mut conn,
        "s1",
        "decision",
        "新决策",
        "[]",
        &supersedes,
        None,
        None,
        false,
    )
    .unwrap();
    let active = list_memory_entries(&mut conn, "s1", false).unwrap();
    assert_eq!(active.len(), 1);
    assert_eq!(active[0].id, id_b);
    let all = list_memory_entries(&mut conn, "s1", true).unwrap();
    assert_eq!(all.len(), 2);
}

#[test]
fn memory_entries_invalid_json_rejected() {
    let mut conn = open();
    init_schema(&mut conn).unwrap();
    let bad = insert_memory_entry(
        &mut conn, "s1", "risk", "测试", "not json", "[]", None, None, false,
    );
    let source_err = bad.unwrap_err().message();
    assert!(
        source_err.contains("AL_ERR:db.memory.badJson")
            && source_err.contains(r#""field":"source_refs_json""#));
    let supersedes_err = insert_memory_entry(
        &mut conn, "s1", "risk", "测试", "[]", "not json", None, None, false,
    )
    .unwrap_err()
    .message();
    assert!(
        supersedes_err.contains("AL_ERR:db.memory.badJson")
            && supersedes_err.contains(r#""field":"supersedes_json""#));
    let good = insert_memory_entry(&mut conn, "s1", "risk", "测试", "[]", "[]", None, None, false);
    assert!(good.is_ok());
}

#[test]
fn memory_entries_pinned_roundtrip() {
    let mut conn = open();
    init_schema(&mut conn).unwrap();
    insert_memory_entry(
        &mut conn,
        "s1",
        "watch",
        "关键观察",
        "[]",
        "[]",
        None,
        None,
        true,
    )
    .unwrap();
    let entries = list_memory_entries(&mut conn, "s1", false).unwrap();
    assert_eq!(entries.len(), 1);
    assert!(entries[0].pinned);
}

#[test]
fn memory_entries_session_isolation() {
    let mut conn = open();
    init_schema(&mut conn).unwrap();
    insert_memory_entry(
        &mut conn,
        "s1",
        "decision",
        "s1 决策",
        "[]",
        "[]",
        None,
        None,
        false,
    )
    .unwrap();
    insert_memory_entry(
        &mut conn,
        "s2",
        "decision",
        "s2 决策",
        "[]",
        "[]",
        None,
        None,
        false,
    )
    .unwrap();
    let s1 = list_memory_entries(&mut conn, "s1", false).unwrap();
    assert_eq!(s1.len(), 1);
    assert_eq!(s1[0].session_id, "s1");
    let s2 = list_memory_entries(&mut conn, "s2", false).unwrap();
    assert_eq!(s2.len(), 1);
    assert_eq!(s2[0].session_id, "s2");
}

#[test]
fn memory_entries_active_query_tolerates_null_in_supersedes() {
    let mut conn = open();
    init_schema(&mut conn).unwrap();
    let id_a = insert_memory_entry(
        &mut conn, "s1", "decision", "old A", "[]", "[]", None, None, false,
    )
    .unwrap();
    let supersedes_b = format!("[{id_a},null]");
    let id_b = insert_memory_entry(
        &mut conn,
        "s1",
        "decision",
        "new B",
        "[]",
        &supersedes_b,
        None,
        None,
        false,
    )
    .unwrap();
    let id_c = insert_memory_entry(
        &mut conn,
        "s1",
        "decision",
        "C with null supersedes",
        "[]",
        "[null]",
        None,
        None,
        false,
    )
    .unwrap();
    let active = list_memory_entries(&mut conn, "s1", false).unwrap();
    assert!(
        !active.is_empty());
    assert_eq!(active.len(), 2);
    let ids: Vec<i64> = active.iter().map(|e| e.id).collect();
    assert!(ids.contains(&id_b));
    assert!(
        ids.contains(&id_c));
    assert!(!ids.contains(&id_a));
}

#[test]
fn memory_entries_active_query_ignores_backward_supersede() {
    let mut conn = open();
    init_schema(&mut conn).unwrap();
    let id_x = insert_memory_entry(
        &mut conn, "s1", "decision", "X early", "[]", "[2]", None, None, false,
    )
    .unwrap();
    let supersedes_y = "[]".to_string();
    let id_y = insert_memory_entry(
        &mut conn,
        "s1",
        "decision",
        "Y later",
        "[]",
        &supersedes_y,
        None,
        None,
        false,
    )
    .unwrap();
    assert_eq!(id_y, id_x + 1);
    let active = list_memory_entries(&mut conn, "s1", false).unwrap();
    let ids: Vec<i64> = active.iter().map(|e| e.id).collect();
    assert!(
        ids.contains(&id_y));
}

#[test]
fn delete_session_removes_memory_entries() {
    let mut conn = open();
    init_schema(&mut conn).unwrap();
    conn.connection().execute(
        "INSERT INTO namespaces (id, kind, name, is_builtin, added_at) VALUES ('local','local','Local',1,0)",
        [],
    )
    .unwrap();
    conn.connection().execute(
        "INSERT INTO repos (id, namespace_id, source, name, path, status, added_at) VALUES ('local-default','local','local','Local 默认','/tmp/agentloom-delete-entries-test','active',0)",
        [],
    )
    .unwrap();
    conn.connection().execute(
        "INSERT INTO sessions (id, title, repo_id, namespace_id, created_at) VALUES ('s1','T','local-default','local',0)",
        [],
    )
    .unwrap();
    insert_memory_entry(
        &mut conn,
        "s1",
        "decision",
        "test entry",
        "[]",
        "[]",
        None,
        None,
        false,
    )
    .unwrap();
    let before = list_memory_entries(&mut conn, "s1", true).unwrap();
    assert_eq!(before.len(), 1);
    delete_session(&mut conn, "s1").unwrap();
    let after = list_memory_entries(&mut conn, "s1", true).unwrap();
    assert!(
        after.is_empty());
}

#[test]
fn memory_read_source_non_numeric_ref_returns_none() {
    let mut c = mem();
    let anchor = Anchor {
        kind: "message".into(),
        ref_id: "abc".into(),
        block_index: None,
        char_range: None,
        line: None,
        label: None,
    };
    let got = memory_read_source(&mut c, &anchor, &decode).unwrap();
    assert!(got.is_none());
}

fn block(anchor_refs_json: &str) -> MemoryBlock {
    MemoryBlock {
        session_id: "s1".into(),
        slot: "compact".into(),
        text: "sum".into(),
        title: None,
        anchor_refs_json: anchor_refs_json.into(),
        updated_by: None,
        updated_at: 1,
        revision: 3,
        updated_run_id: None,
    }
}

#[test]
fn an_anchor_points_to_its_message() {
    for id in [0, 42, -7, i64::MAX, i64::MIN] {
        let state = compact_state_of(block(""), &anchor_to_message(id)).unwrap();
        assert_eq!((state.through_message_id, state.revision), (id, 3));
        assert_eq!(state.summary, "sum");
    }
    let two = match (anchor_to_message(1), anchor_to_message(2)) {
        (Json::Array(mut a), Json::Array(b)) => {
            a.extend(b);
            Json::Array(a)
        }
        _ => unreachable!(),
    };
    assert!(compact_state_of(block(""), &two).is_none());
    assert!(compact_state_of(block(""), &Json::Null).is_none());
}

#[test]
fn a_summary_is_stored_with_the_anchor_to_its_message() {
    let mut c = bare();
    upsert_compact_state(&mut c, "s1", "sum", -7, None).unwrap();
    let stored = get_memory_block(&mut c, "s1", "compact").unwrap().unwrap();
    assert_eq!(stored.anchor_refs_json, r#"[{"kind":"message","ref":-7}]"#);
    let state = get_compact_state(&mut c, "s1").unwrap().unwrap();
    assert_eq!((state.summary.as_str(), state.through_message_id, state.revision), ("sum", -7, 1));
}

#[test]
fn a_field_that_does_not_hold_json_is_named() {
    let mut c = bare();
    let err = insert_memory_entry(&mut c, "s1", "risk", "t", "[]", "{", None, None, false)
        .unwrap_err();
    match &err {
        DbError::BadJson { field, detail } => {
            assert_eq!(field, "supersedes_json");
            assert!(detail.starts_with("EOF while parsing an object"));
        }
        other => panic!("another error: {other:?}"),
    }
    let report = err.message();
    assert!(report.starts_with("AL_ERR:db.memory.badJson {"));
    assert!(list_memory_entries(&mut c, "s1", true).unwrap().is_empty());
}

#[test]
fn the_revision_after_the_last_one_is_out_of_range() {
    let mut c = bare();
    memory_set(&mut c, "s1", "goal", "one", None, None, None, 0).unwrap();
    c.connection()
        .execute("UPDATE memory_blocks SET revision = ?1", [i64::MAX])
        .unwrap();
    assert_eq!(
        memory_set(&mut c, "s1", "goal", "two", None, None, None, i64::MAX).unwrap_err(),
        DbError::OutOfRange { index: 0, value: i64::MAX }
    );
    assert_eq!(
        memory_set(&mut c, "s1", "goal", "two", None, None, None, 1).unwrap(),
        MemorySetOutcome::Conflict { current_revision: i64::MAX }
    );
}

#[test]
fn an_anchor_reads_texts_and_numbers_as_ids() {
    let text = |s: &str| Json::Text(s.into());
    let anchor = read_anchor(&Json::Object(vec![
        ("kind".into(), text("message")),
        ("ref".into(), integer(7)),
    ]))
    .unwrap();
    assert_eq!((anchor.kind.as_str(), anchor.ref_id.as_str()), ("message", "7"));
    assert_eq!(read_ref(Some(&text("x"))).as_deref(), Some("x"));
    assert_eq!(read_ref(Some(&Json::Null)), None);
    assert!(read_anchor(&Json::Null).is_none());
}
