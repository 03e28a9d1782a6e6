use agentloom_db::agents::get_agent;
use agentloom_db::blocks::Block;
use agentloom_db::engine::Db;
use agentloom_db::messages::{append_message, append_message_dedup};
use agentloom_db::schema::{
    backfill_session_namespace_id,
    init_schema,
    migrate_agents_access_allow_harness,
    migrate_backfill_dedup_keys,
    migrate_local_default_name,
    migrate_null_repo_id_to_local_default,
    migrate_remove_placeholder_deepseek,
    table_exists,
    table_has_column,
};
use agentloom_db::sessions::create_session;

fn open() -> Db {
    Db::new(rusqlite::Connection::open_in_memory().unwrap())
}

fn mem() -> Db {
    let mut c = open();
    init_schema(&mut c).unwrap();
    c.connection()
        .execute(
            "INSERT OR IGNORE INTO namespaces (id, kind, name, is_builtin, added_at) VALUES ('local', 'local', 'Local', 1, 0)",
            [],
        )
        .unwrap();
    c.connection()
        .execute(
            "INSERT OR IGNORE INTO repos (id, namespace_id, source, name, path, status, added_at) VALUES ('local-default', 'local', 'local', '我的项目', '/tmp/agentloom-mem-local-default', 'active', 0)",
            [],
        )
        .unwrap();
    c
}

fn bare() -> Db {
    let mut c = open();
    init_schema(&mut c).unwrap();
    c
}

fn room() -> String {
    let now = std::time::SystemTime::now().duration_since(std::time::UNIX_EPOCH).unwrap();
    format!("{:032x}", now.as_nanos())
}

fn encode(blocks: &[Block]) -> String {
    let list = blocks
        .iter()
        .map(|b| {
            let (kind, text) = match b {
                Block::Text { text } => ("text", text),
                Block::Thinking { text } => ("thinking", text),
                other => panic!("a block that is no text: {other:?}"),
            };
            let mut object = serde_json::Map::new();
            object.insert("type".into(), kind.into());
            object.insert("text".into(), text.as_str().into());
            serde_json::Value::Object(object)
        })
        .collect();
    serde_json::Value::Array(list).to_string()
}

fn insert_min_agent(conn: &mut Db, id: &str, is_builtin: i64, has_key: bool) {
    conn.connection().execute(
        "INSERT INTO agents (id, name, access, provider, reasoning_default, \
         compat_disable_betas, compat_disable_nonessential, compat_disable_thinking, \
         has_key, is_builtin, enabled, sort_order, created_at, updated_at) \
         VALUES (?1, ?1, 'borrow', 'deepseek', 'auto', 0, 0, 0, ?2, ?3, 1, 0, 0, 0)",
        (id, has_key as i64, is_builtin),
    )
    .unwrap();
}

#[test]
fn checkpoint_entries_schema_enforces_first_preimage_per_run_path() {
    let mut conn = open();
    init_schema(&mut conn).unwrap();
    conn.connection().execute(
        "INSERT INTO checkpoint_entries \
         (session_id, run_id, file_path, existed, created_at) \
         VALUES ('s1', 'r1', '/tmp/file.txt', 0, 1)",
        [],
    )
    .unwrap();
    assert!(conn
        .connection()
        .execute(
            "INSERT INTO checkpoint_entries \
             (session_id, run_id, file_path, existed, created_at) \
             VALUES ('s1', 'r1', '/tmp/file.txt', 1, 2)",
            [],
        )
        .is_err());
    let indexed: i64 = conn
        .connection()
        .query_row(
            "SELECT COUNT(*) FROM sqlite_master \
             WHERE type = 'index' AND name = 'idx_checkpoint_entries_run'",
            [],
            |row| row.get(0),
        )
        .unwrap();
    assert_eq!(indexed, 1);
}

#[test]
fn checkpoint_entries_schema_migrates_preimage_and_undo_columns_idempotently() {
    let mut conn = open();
    conn.connection().execute_batch(
        "CREATE TABLE checkpoint_entries (
            id INTEGER PRIMARY KEY AUTOINCREMENT,
            session_id TEXT NOT NULL,
            run_id TEXT NOT NULL,
            member_id TEXT,
            file_path TEXT NOT NULL,
            existed INTEGER NOT NULL,
            blob_sha TEXT,
            file_mode INTEGER,
            is_symlink INTEGER NOT NULL DEFAULT 0,
            created_at INTEGER NOT NULL,
            UNIQUE (session_id, run_id, file_path)
        );",
    )
    .unwrap();
    conn.connection().execute(
        "INSERT INTO checkpoint_entries \
         (session_id, run_id, file_path, existed, created_at) \
         VALUES ('s1', 'r1', '/tmp/legacy.txt', 1, 1)",
        [],
    )
    .unwrap();

    init_schema(&mut conn).unwrap();
    init_schema(&mut conn).unwrap();

    let columns = {
        let mut stmt = conn
            .connection()
            .prepare("PRAGMA table_info(checkpoint_entries)")
            .unwrap();
        let columns = stmt
            .query_map([], |row| row.get::<_, String>(1))
            .unwrap()
            .collect::<rusqlite::Result<Vec<_>>>()
            .unwrap();
        columns
    };
    assert!(columns.iter().any(|column| column == "allowed_root"));
    assert!(columns.iter().any(|column| column == "pre_xattrs"));
    assert!(columns.iter().any(|column| column == "undone_at"));
    let defaults: i64 = conn
        .connection()
        .query_row(
            "SELECT (allowed_root IS NULL AND pre_xattrs IS NULL AND undone_at IS NULL) FROM checkpoint_entries \
             WHERE session_id = 's1' AND run_id = 'r1'",
            [],
            |row| row.get(0),
        )
        .unwrap();
    assert_eq!(defaults, 1);
}

#[test]
fn memory_blocks_old_schema_migrated_adds_revision_updated_run_id() {
    let mut c = open();
    c.connection().execute_batch(
        "CREATE TABLE memory_blocks (
            session_id TEXT NOT NULL,
            slot TEXT NOT NULL,
            text TEXT NOT NULL,
            title TEXT,
            anchor_refs_json TEXT NOT NULL DEFAULT '[]',
            updated_by TEXT,
            updated_at INTEGER NOT NULL,
            PRIMARY KEY (session_id, slot)
        );
        INSERT INTO memory_blocks (session_id, slot, text, updated_at) VALUES ('s1', 'goal', '旧文本', 0);",
    ).unwrap();
    init_schema(&mut c).unwrap();
    let cols: Vec<String> = {
        let mut stmt = c.connection().prepare("PRAGMA table_info(memory_blocks)").unwrap();
        stmt.query_map([], |r| r.get::<_, String>(1))
            .unwrap()
            .collect::<rusqlite::Result<Vec<_>>>()
            .unwrap()
    };
    assert!(
        cols.iter().any(|c| c == "revision"));
    assert!(
        cols.iter().any(|c| c == "updated_run_id"));
    let (text, rev): (String, i64) = c
        .connection()
        .query_row(
            "SELECT text, revision FROM memory_blocks WHERE session_id='s1' AND slot='goal'",
            [],
            |r| Ok((r.get(0)?, r.get(1)?)),
        )
        .unwrap();
    assert_eq!(text, "旧文本");
    assert_eq!(rev, 0);
}

#[test]
fn init_schema_idempotent_on_memory_blocks() {
    let mut conn = open();
    init_schema(&mut conn).unwrap();
    init_schema(&mut conn).unwrap();
}

#[test]
fn lead_loop_state_table_exists_with_autonomy_check() {
    let c = mem();
    c.connection().execute(
        "INSERT INTO lead_loop_state (session_id, updated_at) VALUES ('s1', 0)",
        [],
    )
    .unwrap();
    let autonomy: String = c
        .connection()
        .query_row(
            "SELECT autonomy FROM lead_loop_state WHERE session_id='s1'",
            [],
            |r| r.get(0),
        )
        .unwrap();
    assert_eq!(autonomy, "cautious", "autonomy 默认应为 cautious");
    let bad = c.connection().execute(
        "INSERT INTO lead_loop_state (session_id, autonomy, updated_at) VALUES ('s2','bogus',0)",
        [],
    );
    assert!(bad.is_err(), "非法 autonomy 应被 CHECK 挡");
}

#[test]
fn decision_ledger_run_id_is_nullable() {
    let c = mem();
    c.connection().execute(
        "INSERT INTO decision_ledger (session_id, run_id, text, created_at) VALUES ('s1', NULL, '直接回复', 0)",
        [],
    )
    .unwrap();
    let cnt: i64 = c
        .connection()
        .query_row(
            "SELECT COUNT(*) FROM decision_ledger WHERE session_id='s1' AND run_id IS NULL",
            [],
            |r| r.get(0),
        )
        .unwrap();
    assert_eq!(cnt, 1);
}

#[test]
fn decision_ledger_old_notnull_table_migrated_to_nullable() {
    let mut c = open();
    c.connection().execute_batch(
        "CREATE TABLE decision_ledger (
            id INTEGER PRIMARY KEY AUTOINCREMENT,
            session_id TEXT NOT NULL,
            run_id TEXT NOT NULL,
            source_assignment_id TEXT,
            text TEXT NOT NULL,
            source_refs_json TEXT NOT NULL DEFAULT '[]',
            supersedes_json TEXT NOT NULL DEFAULT '[]',
            source_kind TEXT,
            confidence TEXT,
            created_at INTEGER NOT NULL
        );
        INSERT INTO decision_ledger (id, session_id, run_id, text, created_at)
            VALUES (7, 's1', 'run-1', '旧决策', 100);",
    )
    .unwrap();
    init_schema(&mut c).unwrap();
    let run_id_notnull: i64 = c
        .connection()
        .query_row(
            "SELECT \"notnull\" FROM pragma_table_info('decision_ledger') WHERE name='run_id'",
            [],
            |r| r.get(0),
        )
        .unwrap();
    assert_eq!(run_id_notnull, 0);
    let (text, created): (String, i64) = c
        .connection()
        .query_row(
            "SELECT text, created_at FROM decision_ledger WHERE id=7",
            [],
            |r| Ok((r.get(0)?, r.get(1)?)),
        )
        .unwrap();
    assert_eq!(text, "旧决策");
    assert_eq!(created, 100);
    c.connection().execute(
        "INSERT INTO decision_ledger (session_id, run_id, text, created_at) VALUES ('s2', NULL, '新', 0)",
        [],
    )
    .unwrap();
    let idx_cnt: i64 = c
        .connection()
        .query_row(
            "SELECT COUNT(*) FROM sqlite_master WHERE type='index' AND name='idx_decision_ledger_session'",
            [],
            |r| r.get(0),
        )
        .unwrap();
    assert_eq!(idx_cnt, 1);
    let new_id: i64 = c
        .connection()
        .query_row(
            "SELECT id FROM decision_ledger WHERE session_id='s2'",
            [],
            |r| r.get(0),
        )
        .unwrap();
    assert!(
        new_id > 7);

    init_schema(&mut c).unwrap();
    let still: (String, i64) = c
        .connection()
        .query_row(
            "SELECT text, created_at FROM decision_ledger WHERE id=7",
            [],
            |r| Ok((r.get(0)?, r.get(1)?)),
        )
        .unwrap();
    assert_eq!(still.0, "旧决策");
    let nn2: i64 = c
        .connection()
        .query_row(
            "SELECT \"notnull\" FROM pragma_table_info('decision_ledger') WHERE name='run_id'",
            [],
            |r| r.get(0),
        )
        .unwrap();
    assert_eq!(nn2, 0);
}

#[test]
fn state_machine_tables_created_by_init_schema() {
    let mut conn = open();
    init_schema(&mut conn).unwrap();
    for tbl in ["artifacts", "verifications", "reviews", "merge_candidates"] {
        let n: i64 = conn
            .connection()
            .query_row(
                "SELECT count(*) FROM sqlite_master WHERE type='table' AND name=?1",
                [tbl],
                |r| r.get(0),
            )
            .unwrap();
        assert_eq!(n, 1);
    }
    let cols: Vec<String> = {
        let mut s = conn.connection().prepare("PRAGMA table_info(artifacts)").unwrap();
        let r = s.query_map([], |row| row.get::<_, String>(1)).unwrap();
        r.map(|c| c.unwrap()).collect()
    };
    for c in [
        "id",
        "session_id",
        "run_id",
        "member_assignment_id",
        "branch",
        "base_sha",
        "commit_sha",
        "files_changed",
        "state",
        "created_at",
    ] {
        assert!(cols.iter().any(|x| x == c));
    }
}

#[test]
fn sessions_has_parent_session_id_column() {
    let c = mem();
    let mut stmt = c.connection().prepare("PRAGMA table_info(sessions)").unwrap();
    let cols: Vec<String> = stmt
        .query_map([], |r| r.get::<_, String>(1))
        .unwrap()
        .filter_map(Result::ok)
        .collect();
    assert!(
        cols.contains(&"parent_session_id".to_string()),
        "实际列：{cols:?}"
    );
}

#[test]
fn migration_adds_assignments_json_to_old_goal_contracts() {
    let mut c = open();
    c.connection().execute(
        "CREATE TABLE goal_contracts (
            id TEXT PRIMARY KEY, session_id TEXT NOT NULL, run_id TEXT NOT NULL UNIQUE,
            goal TEXT NOT NULL, lead_participant_id TEXT NOT NULL,
            status TEXT NOT NULL DEFAULT 'draft', created_at INTEGER NOT NULL )",
        [],
    )
    .unwrap();
    init_schema(&mut c).unwrap();
    let cols: Vec<String> = c
        .connection()
        .prepare("PRAGMA table_info(goal_contracts)")
        .unwrap()
        .query_map([], |r| r.get::<_, String>(1))
        .unwrap()
        .filter_map(Result::ok)
        .collect();
    assert!(cols.iter().any(|n| n == "assignments_json"));
    init_schema(&mut c).unwrap();
}

#[test]
fn history_init_schema_creates_role_filtered_pagination_index() {
    let c = mem();
    let sql: String = c
        .connection()
        .query_row(
            "SELECT sql FROM sqlite_master WHERE type = 'index' AND name = 'idx_messages_history'",
            [],
            |row| row.get(0),
        )
        .unwrap();
    let normalized = sql.split_whitespace().collect::<Vec<_>>().join(" ");
    assert!(normalized.contains("ON messages(session_id, id DESC)"));
    assert!(normalized.contains("WHERE role IN ('user','assistant')"));
}

#[test]
fn migrate_backfill_dedup_updates_only_null_user_and_assistant_rows_idempotently() {
    let mut c = mem();
    create_session(&mut c, "backfill", "Backfill", "local-default", "local").unwrap();
    let blocks = [Block::Text {
        text: "history".into(),
    }];

    append_message(&mut c, "backfill", "user", &blocks, None, None, None, encode).unwrap();
    let user_id = c.connection().last_insert_rowid();
    append_message(&mut c, "backfill", "assistant", &blocks, None, None, None, encode).unwrap();
    let assistant_id = c.connection().last_insert_rowid();
    append_message(&mut c, "backfill", "system", &blocks, None, None, None, encode).unwrap();
    let system_id = c.connection().last_insert_rowid();
    append_message_dedup(
        &mut c,
        "backfill",
        "assistant",
        &blocks,
        None,
        None,
        None,
        "existing-key", encode,
    )
    .unwrap();
    let existing_id = c.connection().last_insert_rowid();

    assert_eq!(migrate_backfill_dedup_keys(&mut c).unwrap(), 2);
    let keys: Vec<(i64, Option<String>)> = c
        .connection()
        .prepare("SELECT id, dedup_key FROM messages ORDER BY id")
        .unwrap()
        .query_map([], |row| Ok((row.get(0)?, row.get(1)?)))
        .unwrap()
        .collect::<rusqlite::Result<_>>()
        .unwrap();
    assert_eq!(
        keys,
        vec![
            (user_id, Some(format!("backfill:{user_id}"))),
            (assistant_id, Some(format!("backfill:{assistant_id}"))),
            (system_id, None),
            (existing_id, Some("existing-key".into())),
        ]);
    assert_eq!(migrate_backfill_dedup_keys(&mut c).unwrap(), 0);
}

#[test]
fn init_schema_creates_repos_table_with_all_columns() {
    let c = mem();
    let mut stmt = c.connection().prepare("PRAGMA table_info(repos)").unwrap();
    let cols: Vec<String> = stmt
        .query_map([], |r| r.get::<_, String>(1))
        .unwrap()
        .collect::<Result<_, _>>()
        .unwrap();
    for name in [
        "id",
        "source",
        "owner",
        "name",
        "path",
        "status",
        "added_at",
        "last_used_at",
    ] {
        assert!(
            cols.contains(&name.into()));
    }
}

#[test]
fn project_first_migration_adds_icon_column_idempotent() {
    let mut c = open();
    init_schema(&mut c).unwrap();
    let mut stmt = c.connection().prepare("PRAGMA table_info(repos)").unwrap();
    let cols: Vec<String> = stmt
        .query_map([], |r| r.get::<_, String>(1))
        .unwrap()
        .collect::<Result<_, _>>()
        .unwrap();
    assert!(
        cols.contains(&"icon".into()));
    drop(stmt);

    init_schema(&mut c).unwrap();
}

#[test]
fn project_first_migration_renames_color_to_icon_and_clears_hex() {
    let mut c = open();
    c.connection().execute_batch(
        "CREATE TABLE repos (
            id TEXT PRIMARY KEY,
            source TEXT NOT NULL DEFAULT 'local',
            owner TEXT,
            name TEXT NOT NULL,
            path TEXT NOT NULL UNIQUE,
            status TEXT NOT NULL DEFAULT 'active',
            added_at INTEGER NOT NULL,
            last_used_at INTEGER,
            color TEXT
        );
        INSERT INTO repos (id, name, path, added_at, color)
        VALUES ('hex', 'hex', '/tmp/hex', 1, '#7c3aed');
        INSERT INTO repos (id, name, path, added_at, color)
        VALUES ('emoji', 'emoji', '/tmp/emoji', 2, '📕');",
    )
    .unwrap();

    init_schema(&mut c).unwrap();
    init_schema(&mut c).unwrap();

    let cols: Vec<String> = c
        .connection()
        .prepare("PRAGMA table_info(repos)")
        .unwrap()
        .query_map([], |r| r.get(1))
        .unwrap()
        .collect::<Result<_, _>>()
        .unwrap();
    assert!(cols.contains(&"icon".into()));
    assert!(!cols.contains(&"color".into()));
    let hex: Option<String> = c
        .connection()
        .query_row("SELECT icon FROM repos WHERE id = 'hex'", [], |r| r.get(0))
        .unwrap();
    let emoji: Option<String> = c
        .connection()
        .query_row("SELECT icon FROM repos WHERE id = 'emoji'", [], |r| {
            r.get(0)
        })
        .unwrap();
    assert_eq!(hex, None);
    assert_eq!(emoji.as_deref(), Some("📕"));
}

#[test]
fn project_first_migration_renames_seed_local_default() {
    let mut c = mem();
    c.connection().execute(
        "UPDATE repos SET name = 'Local 默认' WHERE id = 'local-default'",
        [],
    )
    .unwrap();

    let n = migrate_local_default_name(&mut c).unwrap();
    assert_eq!(n, 1);
    let name: String = c
        .connection()
        .query_row(
            "SELECT name FROM repos WHERE id = 'local-default'",
            [],
            |r| r.get(0),
        )
        .unwrap();
    assert_eq!(name, "我的项目");
    assert_eq!(migrate_local_default_name(&mut c).unwrap(), 0);
}

#[test]
fn project_first_migration_preserves_user_renamed() {
    let mut c = mem();
    c.connection().execute(
        "UPDATE repos SET name = 'foo' WHERE id = 'local-default'",
        [],
    )
    .unwrap();

    assert_eq!(migrate_local_default_name(&mut c).unwrap(), 0);
    let name: String = c
        .connection()
        .query_row(
            "SELECT name FROM repos WHERE id = 'local-default'",
            [],
            |r| r.get(0),
        )
        .unwrap();
    assert_eq!(name, "foo");
}

#[test]
fn init_schema_adds_repo_id_to_sessions_idempotent() {
    let mut c = open();
    c.connection().execute(
        "CREATE TABLE sessions (id TEXT PRIMARY KEY, title TEXT NOT NULL, created_at INTEGER NOT NULL)",
        [],
    )
    .unwrap();
    init_schema(&mut c).unwrap();
    let mut stmt = c.connection().prepare("PRAGMA table_info(sessions)").unwrap();
    let cols: Vec<String> = stmt
        .query_map([], |r| r.get::<_, String>(1))
        .unwrap()
        .collect::<Result<_, _>>()
        .unwrap();
    drop(stmt);
    assert!(
        cols.contains(&"repo_id".into()));
    init_schema(&mut c).unwrap();
}

#[test]
fn session_usage_migration_idempotent() {
    let mut c = open();
    c.connection().execute(
        "CREATE TABLE sessions (id TEXT PRIMARY KEY, title TEXT NOT NULL, created_at INTEGER NOT NULL)",
        [],
    )
    .unwrap();

    init_schema(&mut c).unwrap();
    let mut stmt = c.connection().prepare("PRAGMA table_info(sessions)").unwrap();
    let cols: Vec<(String, i64, Option<String>)> = stmt
        .query_map([], |r| Ok((r.get(1)?, r.get(3)?, r.get(4)?)))
        .unwrap()
        .collect::<Result<_, _>>()
        .unwrap();
    drop(stmt);
    for name in ["total_input_tokens", "total_output_tokens"] {
        let (_, not_null, default) = cols
            .iter()
            .find(|(column, _, _)| column == name)
            .unwrap_or_else(|| panic!("sessions 应含 {name} 列：实际 {cols:?}"));
        assert_eq!(*not_null, 1);
        assert_eq!(default.as_deref(), Some("0"));
    }

    init_schema(&mut c).unwrap();
}

#[test]
fn init_schema_creates_namespaces_table_with_all_columns() {
    let c = mem();
    let mut stmt = c.connection().prepare("PRAGMA table_info(namespaces)").unwrap();
    let cols: Vec<String> = stmt
        .query_map([], |r| r.get::<_, String>(1))
        .unwrap()
        .collect::<Result<_, _>>()
        .unwrap();
    for name in [
        "id",
        "kind",
        "name",
        "is_builtin",
        "last_active_repo_id",
        "added_at",
        "last_used_at",
    ] {
        assert!(
            cols.contains(&name.into()));
    }
}

#[test]
fn init_schema_creates_session_groups_table() {
    let mut c = open();
    init_schema(&mut c).unwrap();
    let mut stmt = c.connection().prepare("PRAGMA table_info(session_groups)").unwrap();
    let cols: Vec<String> = stmt
        .query_map([], |r| r.get::<_, String>(1))
        .unwrap()
        .collect::<Result<_, _>>()
        .unwrap();
    for name in [
        "id",
        "namespace_id",
        "repo_id",
        "name",
        "position",
        "created_at",
    ] {
        assert!(
            cols.contains(&name.into()));
    }
}

#[test]
fn init_schema_adds_namespace_id_to_repos_idempotent() {
    let mut c = open();
    c.connection().execute(
        "CREATE TABLE repos (
            id TEXT PRIMARY KEY,
            source TEXT NOT NULL DEFAULT 'local',
            owner TEXT,
            name TEXT NOT NULL,
            path TEXT NOT NULL UNIQUE,
            status TEXT NOT NULL DEFAULT 'active',
            added_at INTEGER NOT NULL,
            last_used_at INTEGER
        )",
        [],
    )
    .unwrap();
    c.connection().execute(
        "INSERT INTO repos (id, source, name, path, status, added_at) VALUES ('r-old', 'local', 'old-proj', '/tmp/old', 'active', 100)",
        [],
    )
    .unwrap();
    init_schema(&mut c).unwrap();
    let mut stmt = c.connection().prepare("PRAGMA table_info(repos)").unwrap();
    let cols: Vec<String> = stmt
        .query_map([], |r| r.get::<_, String>(1))
        .unwrap()
        .collect::<Result<_, _>>()
        .unwrap();
    drop(stmt);
    assert!(
        cols.contains(&"namespace_id".into()));
    let ns: String = c
        .connection()
        .query_row("SELECT namespace_id FROM repos WHERE id='r-old'", [], |r| {
            r.get(0)
        })
        .unwrap();
    assert_eq!(ns, "local");
    init_schema(&mut c).unwrap();
}

#[test]
fn init_schema_adds_namespace_id_to_sessions_idempotent() {
    let mut c = open();
    c.connection().execute(
        "CREATE TABLE sessions (
            id TEXT PRIMARY KEY,
            title TEXT NOT NULL,
            created_at INTEGER NOT NULL,
            repo_id TEXT
        )",
        [],
    )
    .unwrap();
    init_schema(&mut c).unwrap();
    let mut stmt = c.connection().prepare("PRAGMA table_info(sessions)").unwrap();
    let cols: Vec<String> = stmt
        .query_map([], |r| r.get::<_, String>(1))
        .unwrap()
        .collect::<Result<_, _>>()
        .unwrap();
    drop(stmt);
    assert!(
        cols.contains(&"namespace_id".into()));
    init_schema(&mut c).unwrap();
}

#[test]
fn init_schema_adds_group_id_to_sessions_idempotent() {
    let mut c = open();
    c.connection().execute(
        "CREATE TABLE sessions (id TEXT PRIMARY KEY, title TEXT NOT NULL, created_at INTEGER NOT NULL)",
        [],
    )
    .unwrap();
    init_schema(&mut c).unwrap();
    let mut stmt = c.connection().prepare("PRAGMA table_info(sessions)").unwrap();
    let cols: Vec<String> = stmt
        .query_map([], |r| r.get::<_, String>(1))
        .unwrap()
        .collect::<Result<_, _>>()
        .unwrap();
    drop(stmt);
    assert!(
        cols.contains(&"group_id".into()));
    init_schema(&mut c).unwrap();
}

#[test]
fn init_schema_adds_continued_to_session_id_to_sessions_idempotent() {
    let mut c = open();
    c.connection().execute(
        "CREATE TABLE sessions (
            id TEXT PRIMARY KEY,
            title TEXT NOT NULL,
            created_at INTEGER NOT NULL,
            repo_id TEXT,
            namespace_id TEXT,
            group_id TEXT,
            git_state TEXT,
            parent_session_id TEXT,
            pinned INTEGER NOT NULL DEFAULT 0,
            unread INTEGER NOT NULL DEFAULT 0,
            archived INTEGER NOT NULL DEFAULT 0,
            archived_at INTEGER,
            deleted_at INTEGER
        )",
        [],
    )
    .unwrap();

    init_schema(&mut c).unwrap();
    let mut stmt = c.connection().prepare("PRAGMA table_info(sessions)").unwrap();
    let cols: Vec<String> = stmt
        .query_map([], |r| r.get::<_, String>(1))
        .unwrap()
        .collect::<Result<_, _>>()
        .unwrap();
    drop(stmt);
    assert!(
        cols.contains(&"continued_to_session_id".into()));
    init_schema(&mut c).unwrap();
}

#[test]
fn migrate_null_repo_id_to_local_default_handles_old_sessions() {
    let mut c = mem();
    c.connection().execute(
        "INSERT OR IGNORE INTO namespaces (id, kind, name, is_builtin, added_at) VALUES ('local', 'local', 'Local', 1, 100)",
        [],
    ).unwrap();
    c.connection().execute(
        "INSERT OR IGNORE INTO repos (id, namespace_id, source, name, path, status, added_at) VALUES ('local-default', 'local', 'local', 'Local 默认', '/tmp/local-default', 'active', 100)",
        [],
    ).unwrap();
    c.connection().execute(
        "INSERT INTO sessions (id, title, created_at, repo_id) VALUES ('s-null', '默认会话', 100, NULL)",
        [],
    ).unwrap();
    c.connection().execute(
        "INSERT INTO sessions (id, title, created_at, repo_id) VALUES ('s-bound', '已绑会话', 100, 'local-default')",
        [],
    ).unwrap();

    let n = migrate_null_repo_id_to_local_default(&mut c).unwrap();
    assert_eq!(n, 1);
    let s_null_rid: String = c
        .connection()
        .query_row("SELECT repo_id FROM sessions WHERE id='s-null'", [], |r| {
            r.get(0)
        })
        .unwrap();
    assert_eq!(s_null_rid, "local-default");
    let s_bound_rid: String = c
        .connection()
        .query_row("SELECT repo_id FROM sessions WHERE id='s-bound'", [], |r| {
            r.get(0)
        })
        .unwrap();
    assert_eq!(s_bound_rid, "local-default");

    let n2 = migrate_null_repo_id_to_local_default(&mut c).unwrap();
    assert_eq!(n2, 0);
}

#[test]
fn backfill_session_namespace_id_joins_via_repos() {
    let mut c = mem();
    c.connection().execute(
        "INSERT OR IGNORE INTO namespaces (id, kind, name, is_builtin, added_at) VALUES ('local', 'local', 'Local', 1, 100)",
        [],
    ).unwrap();
    c.connection().execute(
        "INSERT OR IGNORE INTO namespaces (id, kind, name, is_builtin, added_at) VALUES ('ns-a', 'github_org', 'org-a', 0, 100)",
        [],
    ).unwrap();
    c.connection().execute(
        "INSERT INTO repos (id, namespace_id, source, name, path, status, added_at) VALUES ('r-local', 'local', 'local', 'r-local', '/tmp/r-local', 'active', 100)",
        [],
    ).unwrap();
    c.connection().execute(
        "INSERT INTO repos (id, namespace_id, source, name, path, status, added_at) VALUES ('r-ns-a', 'ns-a', 'github', 'r-ns-a', '/tmp/r-ns-a', 'active', 100)",
        [],
    ).unwrap();
    c.connection().execute(
        "INSERT INTO sessions (id, title, created_at, repo_id, namespace_id) VALUES ('s-1', 's-1', 100, 'r-ns-a', 'local')",
        [],
    ).unwrap();
    c.connection().execute(
        "INSERT INTO sessions (id, title, created_at, repo_id, namespace_id) VALUES ('s-2', 's-2', 100, 'r-local', 'local')",
        [],
    ).unwrap();

    let n = backfill_session_namespace_id(&mut c).unwrap();
    assert_eq!(n, 1);
    let s1_ns: String = c
        .connection()
        .query_row(
            "SELECT namespace_id FROM sessions WHERE id='s-1'",
            [],
            |r| r.get(0),
        )
        .unwrap();
    assert_eq!(s1_ns, "ns-a");
    let s2_ns: String = c
        .connection()
        .query_row(
            "SELECT namespace_id FROM sessions WHERE id='s-2'",
            [],
            |r| r.get(0),
        )
        .unwrap();
    assert_eq!(s2_ns, "local");

    let n2 = backfill_session_namespace_id(&mut c).unwrap();
    assert_eq!(n2, 0);
}

#[test]
fn init_schema_creates_run_commits_table_with_all_columns() {
    let c = mem();
    let mut stmt = c.connection().prepare("PRAGMA table_info(run_commits)").unwrap();
    let cols: Vec<String> = stmt
        .query_map([], |r| r.get::<_, String>(1))
        .unwrap()
        .collect::<Result<_, _>>()
        .unwrap();
    for name in [
        "id",
        "session_id",
        "run_id",
        "engine",
        "pre_head",
        "post_head",
        "commit_sha",
        "files_changed",
        "insertions",
        "deletions",
        "interrupted",
        "state",
        "created_at",
    ] {
        assert!(
            cols.contains(&name.into()));
    }
}

#[test]
fn init_schema_creates_landing_commits_table() {
    let c = mem();
    let cols: Vec<String> = c
        .connection()
        .prepare("PRAGMA table_info(landing_commits)")
        .unwrap()
        .query_map([], |r| r.get::<_, String>(1))
        .unwrap()
        .collect::<Result<_, _>>()
        .unwrap();
    for name in [
        "id",
        "session_id",
        "run_id",
        "artifact_id",
        "pre_head",
        "landed_head",
        "commit_count",
        "files_changed",
        "insertions",
        "deletions",
        "created_at",
    ] {
        assert!(cols.contains(&name.to_string()));
    }
}

#[test]
fn init_schema_adds_git_state_to_sessions_idempotent() {
    let mut c = open();
    c.connection().execute(
        "CREATE TABLE sessions (id TEXT PRIMARY KEY, title TEXT NOT NULL, created_at INTEGER NOT NULL)",
        [],
    )
    .unwrap();
    init_schema(&mut c).unwrap();
    let mut stmt = c.connection().prepare("PRAGMA table_info(sessions)").unwrap();
    let cols: Vec<(String, Option<String>)> = stmt
        .query_map([], |r| {
            Ok((r.get::<_, String>(1)?, r.get::<_, Option<String>>(4)?))
        })
        .unwrap()
        .collect::<Result<_, _>>()
        .unwrap();
    drop(stmt);
    let git_state = cols.iter().find(|(n, _)| n == "git_state");
    assert!(git_state.is_some());
    init_schema(&mut c).unwrap();
}

#[test]
fn agents_schema_pragma_columns() {
    let c = bare();
    let mut stmt = c.connection().prepare("PRAGMA table_info(agents)").unwrap();
    let cols: Vec<String> = stmt
        .query_map([], |r| r.get::<_, String>(1))
        .unwrap()
        .collect::<Result<_, _>>()
        .unwrap();
    for name in [
        "id",
        "name",
        "access",
        "provider",
        "primary_model",
        "endpoint",
        "auth_mode",
        "model_opus",
        "model_sonnet",
        "model_haiku",
        "model_subagent",
        "reasoning_default",
        "max_output_tokens",
        "api_timeout_ms",
        "compat_disable_betas",
        "compat_disable_nonessential",
        "compat_disable_thinking",
        "compat_proxy",
        "custom_headers",
        "extra_body",
        "cap_reasoning",
        "cap_computer_use",
        "cap_lead",
        "has_key",
        "is_builtin",
        "enabled",
        "sort_order",
        "created_at",
        "updated_at",
    ] {
        assert!(
            cols.contains(&name.into()));
    }
}

#[test]
fn fresh_schema_allows_harness_access() {
    let c = bare();
    let r = c.connection().execute(
        "INSERT INTO agents (id,name,access,provider,reasoning_default,created_at,updated_at)
         VALUES ('h','H','harness','deepseek','auto',0,0)",
        [],
    );
    assert!(
        r.is_ok());
}

#[test]
fn migrate_rebuilds_old_check_and_preserves_rows() {
    let mut conn = open();
    conn.connection().execute_batch(
        r#"
        CREATE TABLE agents (
            id TEXT NOT NULL PRIMARY KEY,
            name TEXT NOT NULL,
            access TEXT NOT NULL CHECK (access IN ('native', 'borrow')),
            provider TEXT NOT NULL,
            primary_model TEXT,
            endpoint TEXT,
            auth_mode TEXT CHECK (auth_mode IS NULL OR auth_mode IN ('bearer', 'x_api_key')),
            model_opus TEXT,
            model_sonnet TEXT,
            model_haiku TEXT,
            model_subagent TEXT,
            reasoning_default TEXT NOT NULL DEFAULT 'auto'
                CHECK (reasoning_default IN ('auto', 'none', 'minimal', 'low', 'medium', 'high', 'xhigh', 'max')),
            max_output_tokens INTEGER,
            api_timeout_ms INTEGER,
            compat_disable_betas INTEGER NOT NULL DEFAULT 0,
            compat_disable_nonessential INTEGER NOT NULL DEFAULT 0,
            compat_disable_thinking INTEGER NOT NULL DEFAULT 0,
            compat_proxy TEXT,
            custom_headers TEXT,
            extra_body TEXT,
            cap_reasoning TEXT,
            cap_computer_use TEXT,
            cap_lead TEXT,
            has_key INTEGER NOT NULL DEFAULT 0,
            is_builtin INTEGER NOT NULL DEFAULT 0,
            enabled INTEGER NOT NULL DEFAULT 1,
            sort_order INTEGER NOT NULL DEFAULT 0,
            created_at INTEGER NOT NULL,
            updated_at INTEGER NOT NULL
        );
        INSERT INTO agents (id,name,access,provider,reasoning_default,created_at,updated_at)
            VALUES ('b','Borrow','borrow','deepseek','auto',0,0);
        "#,
    )
    .unwrap();

    let changed = migrate_agents_access_allow_harness(&mut conn).unwrap();

    assert!(changed);
    assert_eq!(get_agent(&mut conn, "b").unwrap().unwrap().access, "borrow");
    conn.connection().execute(
        "INSERT INTO agents (id,name,access,provider,reasoning_default,created_at,updated_at)
         VALUES ('h','H','harness','deepseek','auto',0,0)",
        [],
    )
    .unwrap();
}

#[test]
fn migrate_rebuilds_after_leftover_agents_new_table() {
    let mut conn = open();
    conn.connection().execute_batch(
        r#"
        CREATE TABLE agents (
            id TEXT NOT NULL PRIMARY KEY,
            name TEXT NOT NULL,
            access TEXT NOT NULL CHECK (access IN ('native', 'borrow')),
            provider TEXT NOT NULL,
            primary_model TEXT,
            endpoint TEXT,
            auth_mode TEXT CHECK (auth_mode IS NULL OR auth_mode IN ('bearer', 'x_api_key')),
            model_opus TEXT,
            model_sonnet TEXT,
            model_haiku TEXT,
            model_subagent TEXT,
            reasoning_default TEXT NOT NULL DEFAULT 'auto'
                CHECK (reasoning_default IN ('auto', 'none', 'minimal', 'low', 'medium', 'high', 'xhigh', 'max')),
            max_output_tokens INTEGER,
            api_timeout_ms INTEGER,
            compat_disable_betas INTEGER NOT NULL DEFAULT 0,
            compat_disable_nonessential INTEGER NOT NULL DEFAULT 0,
            compat_disable_thinking INTEGER NOT NULL DEFAULT 0,
            compat_proxy TEXT,
            custom_headers TEXT,
            extra_body TEXT,
            cap_reasoning TEXT,
            cap_computer_use TEXT,
            cap_lead TEXT,
            has_key INTEGER NOT NULL DEFAULT 0,
            is_builtin INTEGER NOT NULL DEFAULT 0,
            enabled INTEGER NOT NULL DEFAULT 1,
            sort_order INTEGER NOT NULL DEFAULT 0,
            created_at INTEGER NOT NULL,
            updated_at INTEGER NOT NULL
        );
        CREATE TABLE agents_new (id TEXT);
        "#,
    )
    .unwrap();

    let changed = migrate_agents_access_allow_harness(&mut conn).unwrap();

    assert!(changed);
    conn.connection().execute(
        "INSERT INTO agents (id,name,access,provider,reasoning_default,created_at,updated_at)
         VALUES ('h','H','harness','deepseek','auto',0,0)",
        [],
    )
    .unwrap();
}

#[test]
fn session_agent_configs_schema_pragma_columns() {
    let c = bare();
    let mut stmt = c
        .connection()
        .prepare("PRAGMA table_info(session_agent_configs)")
        .unwrap();
    let cols: Vec<String> = stmt
        .query_map([], |r| r.get::<_, String>(1))
        .unwrap()
        .collect::<Result<_, _>>()
        .unwrap();
    for name in ["session_id", "lead_agent_id", "member_agent_ids"] {
        assert!(
            cols.contains(&name.into()));
    }
}

#[test]
fn init_schema_adds_cap_lead_to_agents_idempotent() {
    let mut c = open();
    c.connection().execute(
        "CREATE TABLE agents (
            id TEXT NOT NULL PRIMARY KEY,
            name TEXT NOT NULL,
            access TEXT NOT NULL,
            provider TEXT NOT NULL,
            created_at INTEGER NOT NULL,
            updated_at INTEGER NOT NULL
        )",
        [],
    )
    .unwrap();

    init_schema(&mut c).unwrap();
    let mut stmt = c.connection().prepare("PRAGMA table_info(agents)").unwrap();
    let cols: Vec<String> = stmt
        .query_map([], |r| r.get::<_, String>(1))
        .unwrap()
        .collect::<Result<_, _>>()
        .unwrap();
    drop(stmt);
    assert!(
        cols.contains(&"cap_lead".into()));

    init_schema(&mut c).unwrap();
}

#[test]
fn agents_check_rejects_invalid_access() {
    let c = bare();
    let err = c
        .connection()
        .execute(
            "INSERT INTO agents (id, name, access, provider, created_at, updated_at) \
             VALUES ('a1', 'Agent 1', 'x', 'openai', 1, 1)",
            [],
        )
        .expect_err("invalid access 应被 CHECK 拒绝");
    assert!(
        err.to_string().contains("CHECK constraint failed"));
}

#[test]
fn agents_int_bool_defaults_applied() {
    let c = bare();
    c.connection().execute(
        "INSERT INTO agents (id, name, access, provider, created_at, updated_at) \
         VALUES ('a1', 'Agent 1', 'native', 'openai', 1, 2)",
        [],
    )
    .unwrap();

    let (
        enabled,
        has_key,
        is_builtin,
        reasoning_default,
        sort_order,
        compat_disable_betas,
        compat_disable_nonessential,
        compat_disable_thinking,
    ): (i64, i64, i64, String, i64, i64, i64, i64) = c
        .connection()
        .query_row(
            "SELECT enabled, has_key, is_builtin, reasoning_default, sort_order, \
             compat_disable_betas, compat_disable_nonessential, compat_disable_thinking \
             FROM agents WHERE id = 'a1'",
            [],
            |r| {
                Ok((
                    r.get(0)?,
                    r.get(1)?,
                    r.get(2)?,
                    r.get(3)?,
                    r.get(4)?,
                    r.get(5)?,
                    r.get(6)?,
                    r.get(7)?,
                ))
            },
        )
        .unwrap();
    assert_eq!(enabled, 1);
    assert_eq!(has_key, 0);
    assert_eq!(is_builtin, 0);
    assert_eq!(reasoning_default, "auto");
    assert_eq!(sort_order, 0);
    assert_eq!(compat_disable_betas, 0);
    assert_eq!(compat_disable_nonessential, 0);
    assert_eq!(compat_disable_thinking, 0);
}

#[test]
fn migrate_remove_placeholder_deepseek_only_deletes_keyless_builtin() {
    let mut conn = open();
    init_schema(&mut conn).unwrap();
    insert_min_agent(&mut conn, "deepseek", 1, false);
    insert_min_agent(&mut conn, "deepseek-keyed", 1, true);
    insert_min_agent(&mut conn, "DeepSeekPro", 0, false);
    let n = migrate_remove_placeholder_deepseek(&mut conn).unwrap();
    assert_eq!(n, 1);
    let remaining: Vec<String> = conn
        .connection()
        .prepare("SELECT id FROM agents ORDER BY id")
        .unwrap()
        .query_map([], |r| r.get::<_, String>(0))
        .unwrap()
        .collect::<rusqlite::Result<_>>()
        .unwrap();
    assert_eq!(
        remaining,
        vec!["DeepSeekPro".to_string(), "deepseek-keyed".to_string()]);
    assert_eq!(migrate_remove_placeholder_deepseek(&mut conn).unwrap(), 0);
}

#[test]
fn init_schema_new_db_has_dedup_key_column_and_index() {
    let mut c = bare();
    let mut stmt = c.connection().prepare("PRAGMA table_info(messages)").unwrap();
    let cols: Vec<String> = stmt
        .query_map([], |r| r.get::<_, String>(1))
        .unwrap()
        .collect::<Result<_, _>>()
        .unwrap();
    drop(stmt);
    assert!(
        cols.contains(&"dedup_key".to_string()));
    let idx_exists: i64 = c
        .connection()
        .query_row(
            "SELECT count(*) FROM sqlite_master WHERE type='index' AND name='idx_messages_dedup'",
            [],
            |r| r.get(0),
        )
        .unwrap();
    assert_eq!(idx_exists, 1);
    init_schema(&mut c).unwrap();
}

#[test]
fn init_schema_adds_dedup_key_to_messages_idempotent() {
    let mut c = open();
    c.connection().execute(
        "CREATE TABLE messages (
            id INTEGER PRIMARY KEY AUTOINCREMENT,
            session_id TEXT NOT NULL,
            role TEXT NOT NULL,
            content TEXT NOT NULL CHECK (json_valid(content)),
            engine TEXT,
            agent_id TEXT,
            agent_name_snapshot TEXT,
            created_at INTEGER NOT NULL
        )",
        [],
    )
    .unwrap();
    init_schema(&mut c).unwrap();
    let mut stmt = c.connection().prepare("PRAGMA table_info(messages)").unwrap();
    let cols: Vec<String> = stmt
        .query_map([], |r| r.get::<_, String>(1))
        .unwrap()
        .collect::<Result<_, _>>()
        .unwrap();
    drop(stmt);
    assert!(
        cols.contains(&"dedup_key".to_string()));
    let idx_exists: i64 = c
        .connection()
        .query_row(
            "SELECT count(*) FROM sqlite_master WHERE type='index' AND name='idx_messages_dedup'",
            [],
            |r| r.get(0),
        )
        .unwrap();
    assert_eq!(idx_exists, 1);
    init_schema(&mut c).unwrap();
}

#[test]
fn project_remote_room_schema_enforces_project_id_pk_and_room_id_unique_not_null() {
    let conn = bare();

    let mut stmt = conn
        .connection()
        .prepare("PRAGMA table_info(project_remote_rooms)")
        .unwrap();
    let cols: Vec<(String, i64, i64)> = stmt
        .query_map([], |row| {
            Ok((
                row.get::<_, String>(1)?,
                row.get::<_, i64>(3)?,
                row.get::<_, i64>(5)?,
            ))
        })
        .unwrap()
        .collect::<rusqlite::Result<_>>()
        .unwrap();
    drop(stmt);

    let project_id_col = cols
        .iter()
        .find(|(name, _, _)| name == "project_id")
        .expect("project_remote_rooms 必须有 project_id 列");
    assert_eq!(
        project_id_col.2, 1);

    let room_id_col = cols
        .iter()
        .find(|(name, _, _)| name == "room_id")
        .expect("project_remote_rooms 必须有 room_id 列");
    assert_eq!(room_id_col.1, 1);

    let mut idx_stmt = conn
        .connection()
        .prepare("PRAGMA index_list(project_remote_rooms)")
        .unwrap();
    let indexes: Vec<(String, i64)> = idx_stmt
        .query_map([], |row| {
            Ok((row.get::<_, String>(1)?, row.get::<_, i64>(2)?))
        })
        .unwrap()
        .collect::<rusqlite::Result<_>>()
        .unwrap();
    drop(idx_stmt);

    let mut found_room_id_unique_index = false;
    for (index_name, is_unique) in &indexes {
        if *is_unique != 1 {
            continue;
        }
        let mut cols_stmt = conn
            .connection()
            .prepare(&format!("PRAGMA index_info('{index_name}')"))
            .unwrap();
        let idx_cols: Vec<String> = cols_stmt
            .query_map([], |row| row.get::<_, String>(2))
            .unwrap()
            .collect::<rusqlite::Result<_>>()
            .unwrap();
        if idx_cols == vec!["room_id".to_string()] {
            found_room_id_unique_index = true;
        }
    }
    assert!(
        found_room_id_unique_index);
}

#[test]
fn project_remote_room_insert_or_ignore_does_not_overwrite_existing_row() {
    let conn = bare();
    conn.connection().execute(
        "INSERT INTO project_remote_rooms (project_id, room_id, created_at_ms) \
         VALUES ('p1', 'r1', 1)",
        [],
    )
    .unwrap();
    conn.connection().execute(
        "INSERT OR IGNORE INTO project_remote_rooms (project_id, room_id, created_at_ms) \
         VALUES ('p1', 'r2', 2)",
        [],
    )
    .unwrap();

    let room: String = conn
        .connection()
        .query_row(
            "SELECT room_id FROM project_remote_rooms WHERE project_id = 'p1'",
            [],
            |row| row.get(0),
        )
        .unwrap();
    assert_eq!(
        room, "r1");

    let count: i64 = conn
        .connection()
        .query_row(
            "SELECT COUNT(*) FROM project_remote_rooms WHERE project_id = 'p1'",
            [],
            |row| row.get(0),
        )
        .unwrap();
    assert_eq!(count, 1);
}

#[test]
fn foreign_keys_are_enforced_again_after_an_upgrade() {
    let mut c = open();
    init_schema(&mut c).unwrap();
    c.connection().execute_batch("PRAGMA foreign_keys = ON").unwrap();
    create_old_agents_table(&c);
    init_schema(&mut c).unwrap();
    let on: i64 =
        c.connection().query_row("PRAGMA foreign_keys", [], |r| r.get(0)).unwrap();
    assert_eq!(on, 1);
}

fn create_old_agents_table(c: &Db) {
    c.connection()
        .execute_batch(
            "PRAGMA foreign_keys = OFF;
             DROP TABLE agents;
             CREATE TABLE agents (
                id TEXT NOT NULL PRIMARY KEY,
                name TEXT NOT NULL,
                access TEXT NOT NULL CHECK (access IN ('native', 'borrow')),
                provider TEXT NOT NULL,
                primary_model TEXT, endpoint TEXT, auth_mode TEXT,
                model_opus TEXT, model_sonnet TEXT, model_haiku TEXT, model_subagent TEXT,
                reasoning_default TEXT NOT NULL DEFAULT 'auto',
                max_output_tokens INTEGER, api_timeout_ms INTEGER,
                compat_disable_betas INTEGER NOT NULL DEFAULT 0,
                compat_disable_nonessential INTEGER NOT NULL DEFAULT 0,
                compat_disable_thinking INTEGER NOT NULL DEFAULT 0,
                compat_proxy TEXT, custom_headers TEXT, extra_body TEXT,
                cap_reasoning TEXT, cap_computer_use TEXT,
                has_key INTEGER NOT NULL DEFAULT 0,
                is_builtin INTEGER NOT NULL DEFAULT 0,
                enabled INTEGER NOT NULL DEFAULT 1,
                sort_order INTEGER NOT NULL DEFAULT 0,
                created_at INTEGER NOT NULL, updated_at INTEGER NOT NULL
             );
             PRAGMA foreign_keys = ON;",
        )
        .unwrap();
}

#[test]
fn tables_and_columns_are_known() {
    let mut c = open();
    assert!(!table_exists(&mut c, "messages").unwrap());
    init_schema(&mut c).unwrap();
    assert!(table_exists(&mut c, "messages").unwrap());
    assert!(table_has_column(&mut c, "messages", "dedup_key").unwrap());
    assert!(!table_has_column(&mut c, "messages", "no_such_column").unwrap());
}

#[test]
fn a_session_without_a_namespace_gets_that_of_its_repository() {
    let mut c = mem();
    for statement in [
        "INSERT INTO namespaces (id, kind, name, is_builtin, added_at) VALUES ('ns-a', 'github_org', 'org-a', 0, 100)",
        "INSERT INTO repos (id, namespace_id, source, name, path, status, added_at) VALUES ('r-ns-a', 'ns-a', 'github', 'r-ns-a', '/tmp/r-ns-a', 'active', 100)",
        "INSERT INTO sessions (id, title, created_at, repo_id, namespace_id) VALUES ('s-1', 's-1', 100, 'r-ns-a', NULL)",
    ] {
        c.connection().execute(statement, []).unwrap();
    }
    assert_eq!(backfill_session_namespace_id(&mut c), Ok(1));
    let namespace: String = c
        .connection()
        .query_row("SELECT namespace_id FROM sessions WHERE id = 's-1'", [], |r| r.get(0))
        .unwrap();
    assert_eq!(namespace, "ns-a");
    assert_eq!(backfill_session_namespace_id(&mut c), Ok(0));
}

#[test]
fn a_session_without_a_repository_gets_the_local_namespace() {
    let mut c = mem();
    c.connection()
        .execute(
            "INSERT INTO sessions (id, title, created_at, repo_id, namespace_id) VALUES ('s-1', 's-1', 100, NULL, NULL)",
            [],
        )
        .unwrap();
    assert_eq!(backfill_session_namespace_id(&mut c), Ok(1));
    assert_eq!(backfill_session_namespace_id(&mut c), Ok(0));
}

fn definitions(c: &Db) -> Vec<(String, Option<String>)> {
    c.connection()
        .prepare("SELECT name, sql FROM sqlite_master ORDER BY name")
        .unwrap()
        .query_map([], |r| Ok((r.get(0)?, r.get(1)?)))
        .unwrap()
        .collect::<Result<_, _>>()
        .unwrap()
}

#[test]
fn a_second_setup_changes_no_definition() {
    let mut c = mem();
    let before = definitions(&c);
    init_schema(&mut c).unwrap();
    assert_eq!(definitions(&c), before);
}

#[test]
fn a_column_of_the_contracts_whose_name_cannot_be_read_is_passed_over() {
    let mut c = mem();
    c.connection()
        .execute_batch(
            "PRAGMA writable_schema = ON;
             UPDATE sqlite_master
                SET sql = substr(sql, 1, length(sql) - 1) || ', \"' || CAST(x'ff' AS TEXT) || '\" TEXT)'
              WHERE name = 'goal_contracts';
             PRAGMA writable_schema = RESET;",
        )
        .unwrap();
    assert!(table_has_column(&mut c, "goal_contracts", "id").is_err());
    assert_eq!(init_schema(&mut c), Ok(()));
}

#[test]
fn allowing_harness_access_carries_the_agents_over() {
    let mut c = open();
    c.connection()
        .execute_batch(
            "CREATE TABLE agents (
                id TEXT NOT NULL PRIMARY KEY, name TEXT, access TEXT, provider TEXT,
                primary_model TEXT, endpoint TEXT, auth_mode TEXT, model_opus TEXT,
                model_sonnet TEXT, model_haiku TEXT, model_subagent TEXT, reasoning_default TEXT,
                max_output_tokens INTEGER, api_timeout_ms INTEGER, compat_disable_betas INTEGER,
                compat_disable_nonessential INTEGER, compat_disable_thinking INTEGER,
                compat_proxy TEXT, custom_headers TEXT, extra_body TEXT, cap_reasoning TEXT,
                cap_computer_use TEXT, cap_lead TEXT, has_key INTEGER, is_builtin INTEGER,
                enabled INTEGER, sort_order INTEGER, created_at INTEGER, updated_at INTEGER
             );
             INSERT INTO agents VALUES
                ('a', 'A', 'native', 'p', 'm', 'e', 'bearer', 'o', 's', 'h', 'u', 'max', 1, 2, 1, 0, 1,
                 'x', '{}', '[]', 'r', 'c', 'l', 1, 0, 1, 7, 8, 9),
                ('b', 'B', 'other', 'p', NULL, NULL, 'basic', NULL, NULL, NULL, NULL, 'huge', NULL,
                 NULL, 0, 0, 0, NULL, NULL, NULL, NULL, NULL, NULL, 0, 1, 0, 0, 1, 2);",
        )
        .unwrap();
    let a = get_agent(&mut c, "a").unwrap().unwrap();
    let mut b = get_agent(&mut c, "b").unwrap().unwrap();
    assert_eq!(migrate_agents_access_allow_harness(&mut c), Ok(true));
    b.access = "borrow".into();
    b.auth_mode = None;
    b.reasoning_default = "auto".into();
    assert_eq!(get_agent(&mut c, "a").unwrap(), Some(a.clone()));
    assert_eq!(get_agent(&mut c, "b").unwrap(), Some(b.clone()));
    assert_eq!(migrate_agents_access_allow_harness(&mut c), Ok(false));
    assert_eq!(get_agent(&mut c, "a").unwrap(), Some(a));
    assert_eq!(get_agent(&mut c, "b").unwrap(), Some(b));
}

fn devices(c: &Db) -> Vec<(String, i64, Option<String>)> {
    c.connection()
        .prepare("SELECT device_id, access_expires_at, room_id FROM remote_devices ORDER BY device_id")
        .unwrap()
        .query_map([], |r| Ok((r.get(0)?, r.get(1)?, r.get(2)?)))
        .unwrap()
        .collect::<Result<_, _>>()
        .unwrap()
}

#[test]
fn a_second_setup_changes_no_row() {
    let mut c = mem();
    c.connection()
        .execute_batch(
            "INSERT INTO app_settings (key, value) VALUES ('remote_room_id', 'room');
             INSERT INTO remote_devices (device_id, token_hash, refresh_hash, access_expires_at, created_at)
             VALUES ('d1', 't', 'r', 1700000000, 1), ('d2', 't', 'r', 0, 1);",
        )
        .unwrap();
    init_schema(&mut c).unwrap();
    let first = devices(&c);
    assert_eq!(
        first,
        vec![
            ("d1".to_string(), 1_700_000_000_000, Some("room".to_string())),
            ("d2".to_string(), 0, Some("room".to_string())),
        ]
    );
    init_schema(&mut c).unwrap();
    assert_eq!(devices(&c), first);
}

#[test]
fn a_setup_brings_an_older_store_up_to_date_once() {
    let mut c = mem();
    let fresh = definitions(&c).len();
    c.connection()
        .execute_batch(
            "ALTER TABLE sessions DROP COLUMN pinned;
             ALTER TABLE repos RENAME COLUMN icon TO color;
             UPDATE repos SET color = '#fff';
             DROP TABLE project_remote_rooms;
             PRAGMA user_version = 0;",
        )
        .unwrap();
    init_schema(&mut c).unwrap();
    assert_eq!(table_has_column(&mut c, "sessions", "pinned"), Ok(true));
    assert_eq!(table_has_column(&mut c, "repos", "icon"), Ok(true));
    assert_eq!(table_has_column(&mut c, "repos", "color"), Ok(false));
    assert_eq!(table_exists(&mut c, "project_remote_rooms"), Ok(true));
    let icons: i64 = c
        .connection()
        .query_row("SELECT COUNT(*) FROM repos WHERE icon IS NOT NULL", [], |row| row.get(0))
        .unwrap();
    assert_eq!(icons, 0);
    let version: i64 =
        c.connection().query_row("PRAGMA user_version", [], |row| row.get(0)).unwrap();
    assert_eq!(version, 1);
    let once = definitions(&c);
    assert_eq!(once.len(), fresh);
    init_schema(&mut c).unwrap();
    assert_eq!(definitions(&c), once);
}
