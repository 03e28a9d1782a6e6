use agentloom_db::blocks::Block;
use agentloom_db::engine::Db;
use agentloom_db::index::{
    list_recent_milestone_replay_rows,
    list_session_history_rows,
    list_session_index_snapshot_rows,
    preview,
    session_index_message_preview,
};
use agentloom_db::json::Json;
use agentloom_db::messages::{append_message, append_message_dedup};
use agentloom_db::schema::{init_schema, migrate_backfill_dedup_keys};
use agentloom_db::sessions::{create_session, set_session_deleted};

fn open() -> Db {
    Db::new(rusqlite::Connection::open_in_memory().unwrap())
}

fn mem() -> Db {
    let mut c = open();
    init_schema(&mut c).unwrap();
    c.connection()
        .execute(
            "INSERT OR IGNORE INTO namespaces (id, kind, name, is_builtin, added_at) VALUES ('local', 'local', 'Local', 1, 0)",
            [],
        )
        .unwrap();
    c.connection()
        .execute(
            "INSERT OR IGNORE INTO repos (id, namespace_id, source, name, path, status, added_at) VALUES ('local-default', 'local', 'local', '我的项目', '/tmp/agentloom-mem-local-default', 'active', 0)",
            [],
        )
        .unwrap();
    c
}

fn json(text: &str) -> serde_json::Value {
    serde_json::from_str(text).unwrap()
}

fn encode(blocks: &[Block]) -> String {
    let list = blocks
        .iter()
        .map(|b| {
            let (kind, text) = match b {
                Block::Text { text } => ("text", text),
                Block::Thinking { text } => ("thinking", text),
                other => panic!("a block that is no text: {other:?}"),
            };
            let mut object = serde_json::Map::new();
            object.insert("type".into(), kind.into());
            object.insert("text".into(), text.as_str().into());
            serde_json::Value::Object(object)
        })
        .collect();
    serde_json::Value::Array(list).to_string()
}

#[test]
fn list_session_index_snapshot_rows_repo_name_is_none_when_repo_id_is_none() {
    let mut c = mem();
    create_session(&mut c, "snapshot-no-repo", "No repo", "local-default", "local").unwrap();
    c.connection().execute(
        "UPDATE sessions SET repo_id = NULL WHERE id = 'snapshot-no-repo'",
        [],
    )
    .unwrap();

    let rows = list_session_index_snapshot_rows(&mut c).unwrap();
    let row = rows
        .iter()
        .find(|row| row.id == "snapshot-no-repo")
        .unwrap();
    assert_eq!(row.repo_id, None);
    assert_eq!(row.repo_name, None);
}

#[test]
fn session_index_snapshot_rows_use_latest_user_or_assistant_text_and_activity() {
    let mut c = mem();
    create_session(&mut c, "snapshot-preview", "Preview", "local-default", "local").unwrap();
    c.connection().execute(
        "INSERT INTO messages (session_id, role, content, created_at) VALUES (?1, ?2, ?3, ?4)",
        ("snapshot-preview", "assistant", r#"[{"type":"text","text":"older"}]"#, 100),
    )
    .unwrap();
    c.connection().execute(
        "INSERT INTO messages (session_id, role, content, created_at) VALUES (?1, ?2, ?3, ?4)",
        ("snapshot-preview", "user", r#"[{"type":"thinking","text":"skip me"},{"type":"text","text":"latest relevant text"}]"#, 200),
    )
    .unwrap();
    c.connection().execute(
        "INSERT INTO messages (session_id, role, content, created_at) VALUES (?1, 'system', ?2, ?3)",
        ("snapshot-preview", r#"[{"type":"text","text":"newer system text"}]"#, 300),
    )
    .unwrap();

    let rows = list_session_index_snapshot_rows(&mut c).unwrap();
    let preview = rows
        .iter()
        .find(|row| row.id == "snapshot-preview")
        .unwrap();
    assert_eq!(
        preview.last_msg_preview.as_deref(),
        Some("latest relevant text"));
    assert_eq!(preview.last_activity_at, Some(200));
}

#[test]
fn session_index_preview_truncates_at_unicode_char_boundary_and_is_none_without_messages() {
    let mut c = mem();
    create_session(&mut c, "snapshot-unicode", "Unicode", "local-default", "local").unwrap();
    create_session(&mut c, "snapshot-empty", "Empty", "local-default", "local").unwrap();
    let long_text = format!("{}尾", "你".repeat(80));
    c.connection().execute(
        "INSERT INTO messages (session_id, role, content, created_at) VALUES (?1, 'assistant', ?2, 400)",
        ("snapshot-unicode", format!(r#"[{{"type":"text","text":"{long_text}"}}]"#)),
    )
    .unwrap();

    let rows = list_session_index_snapshot_rows(&mut c).unwrap();
    let unicode = rows
        .iter()
        .find(|row| row.id == "snapshot-unicode")
        .unwrap();
    let preview = unicode.last_msg_preview.as_deref().unwrap();
    assert_eq!(preview.chars().count(), 80);
    assert_eq!(preview, "你".repeat(80));
    assert_eq!(unicode.last_activity_at, Some(400));

    let empty = rows.iter().find(|row| row.id == "snapshot-empty").unwrap();
    assert_eq!(empty.last_msg_preview, None);
    assert_eq!(empty.last_activity_at, None);
}

#[test]
fn recent_milestone_replay_includes_dedup_user_rows_filters_null_dedup_and_soft_deleted_session(
) {
    let mut c = mem();
    create_session(&mut c, "replay-live", "Live", "local-default", "local").unwrap();
    create_session(&mut c, "replay-deleted", "Deleted", "local-default", "local").unwrap();
    let blocks = [Block::Text {
        text: "milestone".into(),
    }];

    append_message_dedup(
        &mut c,
        "replay-live",
        "assistant",
        &blocks,
        None,
        None,
        None,
        "keep", encode,
    )
    .unwrap();
    append_message_dedup(
        &mut c,
        "replay-live",
        "user",
        &blocks,
        None,
        None,
        None,
        "user-with-dedup", encode,
    )
    .unwrap();
    append_message(&mut c, "replay-live", "assistant", &blocks, None, None, None, encode).unwrap();
    append_message(&mut c, "replay-live", "user", &blocks, None, None, None, encode).unwrap();
    append_message_dedup(
        &mut c,
        "replay-deleted",
        "assistant",
        &blocks,
        None,
        None,
        None,
        "deleted-session", encode,
    )
    .unwrap();
    set_session_deleted(&mut c, "replay-deleted").unwrap();

    let content = Json::Array(vec![Json::Object(vec![
        ("text".into(), Json::Text("milestone".into())),
        ("type".into(), Json::Text("text".into())),
    ])]);
    let rows = list_recent_milestone_replay_rows(&mut c, 20).unwrap();
    assert_eq!(rows.len(), 2);
    assert_eq!(rows[0].session_id, "replay-live");
    assert_eq!(rows[0].role, "assistant");
    assert_eq!(rows[0].dedup_key, "keep");
    assert_eq!(rows[0].content_json, content);
    assert_eq!(rows[1].session_id, "replay-live");
    assert_eq!(rows[1].role, "user");
    assert_eq!(rows[1].dedup_key, "user-with-dedup");
    assert_eq!(rows[1].content_json, content);
}

#[test]
fn history_db_before_null_returns_latest_rows_and_cursor_is_exclusive() {
    let mut c = mem();
    create_session(&mut c, "history-page", "History", "local-default", "local").unwrap();
    let mut ids = Vec::new();
    for index in 0..5 {
        append_message(
            &mut c,
            "history-page",
            if index % 2 == 0 { "user" } else { "assistant" },
            &[Block::Text {
                text: format!("message-{index}"),
            }],
            None,
            None,
            None, encode,
        )
        .unwrap();
        ids.push(c.connection().last_insert_rowid());
    }

    let latest = list_session_history_rows(&mut c, "history-page", None, 2).unwrap();
    assert_eq!(
        latest.iter().map(|row| row.message_id).collect::<Vec<_>>(),
        vec![ids[4], ids[3]]);
    let earlier = list_session_history_rows(&mut c, "history-page", Some(ids[3]), 10).unwrap();
    assert_eq!(
        earlier.iter().map(|row| row.message_id).collect::<Vec<_>>(),
        vec![ids[2], ids[1], ids[0]]);
}

#[test]
fn history_db_filters_non_conversation_roles_and_preserves_content_json() {
    let mut c = mem();
    create_session(&mut c, "history-role", "History", "local-default", "local").unwrap();
    for role in ["user", "system", "assistant", "tool"] {
        append_message(
            &mut c,
            "history-role",
            role,
            &[Block::Text {
                text: format!("{role}-text"),
            }],
            None,
            None,
            None, encode,
        )
        .unwrap();
    }

    let rows = list_session_history_rows(&mut c, "history-role", None, 10).unwrap();
    assert_eq!(
        rows.iter().map(|row| row.role.as_str()).collect::<Vec<_>>(),
        vec!["assistant", "user"]);
    assert_eq!(
        json(&rows[0].content),
        json(r#"[{"type":"text","text":"assistant-text"}]"#));
}

#[test]
fn migrate_backfill_dedup_makes_legacy_rows_visible_to_recent_milestone_replay() {
    let mut c = mem();
    create_session(
        &mut c,
        "backfill-replay",
        "Backfill replay",
        "local-default",
        "local",
    )
    .unwrap();
    let blocks = [Block::Text {
        text: "legacy".into(),
    }];
    append_message(&mut c, "backfill-replay", "user", &blocks, None, None, None, encode).unwrap();
    let user_id = c.connection().last_insert_rowid();
    append_message(
        &mut c,
        "backfill-replay",
        "assistant",
        &blocks,
        None,
        None,
        None, encode,
    )
    .unwrap();
    let assistant_id = c.connection().last_insert_rowid();

    assert!(list_recent_milestone_replay_rows(&mut c, 20)
        .unwrap()
        .is_empty());
    assert_eq!(migrate_backfill_dedup_keys(&mut c).unwrap(), 2);

    let rows = list_recent_milestone_replay_rows(&mut c, 20).unwrap();
    assert_eq!(rows.len(), 2);
    assert_eq!(rows[0].message_id, user_id);
    assert_eq!(rows[0].role, "user");
    assert_eq!(rows[0].dedup_key, format!("backfill:{user_id}"));
    assert_eq!(rows[1].message_id, assistant_id);
    assert_eq!(rows[1].role, "assistant");
    assert_eq!(rows[1].dedup_key, format!("backfill:{assistant_id}"));
}

#[test]
fn a_preview_is_the_start_of_the_first_text() {
    let preview = |json: &str| session_index_message_preview(json);
    assert_eq!(
        preview(r#"[{"type":"thinking","text":"no"},{"type":"text","text":"yes"}]"#).as_deref(),
        Some("yes")
    );
    assert_eq!(preview("[]"), None);
    assert_eq!(preview("no json"), None);
    let long = format!(r#"[{{"type":"text","text":"{}"}}]"#, "a".repeat(81));
    assert_eq!(preview(&long), Some("a".repeat(80)));
}
