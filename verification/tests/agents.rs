use agentloom_db::agents::{
    AgentProfile,
    SessionAgentConfig,
    SessionMode,
    builtin_agents,
    config_from_row,
    copy_session_agent_config,
    delete_agent,
    get_agent,
    get_session_agent_config,
    list_agents,
    normalize_agent_id,
    normalize_member_agent_ids,
    seed_builtin_agents,
    session_mode,
    set_agent_enabled,
    set_session_agent_config,
    upsert_agent,
};
use agentloom_db::documents::{
    GeneratedRepoDocument,
    get_daily_report,
    get_project_intro,
    upsert_daily_report,
    upsert_project_intro,
};
use agentloom_db::engine::{Db, DbError};
use agentloom_db::lead::{
    LeadLoopState,
    get_lead_loop_state,
    set_lead_active,
    set_lead_autonomy,
    set_lead_event_cursor,
};
use agentloom_db::schema::{GENERATED_REPORTS_SCHEMA_VERSION, init_schema};
use agentloom_db::sessions::create_session;

fn open() -> Db {
    Db::new(rusqlite::Connection::open_in_memory().unwrap())
}

fn mem() -> Db {
    let mut c = open();
    init_schema(&mut c).unwrap();
    c.connection()
        .execute(
            "INSERT OR IGNORE INTO namespaces (id, kind, name, is_builtin, added_at) VALUES ('local', 'local', 'Local', 1, 0)",
            [],
        )
        .unwrap();
    c.connection()
        .execute(
            "INSERT OR IGNORE INTO repos (id, namespace_id, source, name, path, status, added_at) VALUES ('local-default', 'local', 'local', '我的项目', '/tmp/agentloom-mem-local-default', 'active', 0)",
            [],
        )
        .unwrap();
    c
}

fn bare() -> Db {
    let mut c = open();
    init_schema(&mut c).unwrap();
    c
}

fn agent(id: &str, sort_order: i64, is_builtin: bool) -> AgentProfile {
    AgentProfile {
        id: id.into(),
        name: format!("Agent {id}"),
        access: "native".into(),
        provider: "openai".into(),
        primary_model: Some("gpt-5".into()),
        endpoint: Some("https://api.example.test/v1".into()),
        auth_mode: Some("bearer".into()),
        model_opus: Some("opus-model".into()),
        model_sonnet: Some("sonnet-model".into()),
        model_haiku: Some("haiku-model".into()),
        model_subagent: Some("subagent-model".into()),
        reasoning_default: "high".into(),
        max_output_tokens: Some(4096),
        api_timeout_ms: Some(120_000),
        compat_disable_betas: true,
        compat_disable_nonessential: false,
        compat_disable_thinking: true,
        compat_proxy: Some("http://127.0.0.1:7890".into()),
        custom_headers: Some(r#"{"X-Test":"yes"}"#.into()),
        extra_body: Some(r#"{"temperature":0.2}"#.into()),
        cap_reasoning: Some("native".into()),
        cap_computer_use: Some("disabled".into()),
        cap_lead: None,
        has_key: true,
        is_builtin,
        enabled: true,
        sort_order,
        created_at: 100,
        updated_at: 200,
    }
}

fn insert_min_agent(conn: &mut Db, id: &str, is_builtin: i64, has_key: bool) {
    conn.connection().execute(
        "INSERT INTO agents (id, name, access, provider, reasoning_default, \
         compat_disable_betas, compat_disable_nonessential, compat_disable_thinking, \
         has_key, is_builtin, enabled, sort_order, created_at, updated_at) \
         VALUES (?1, ?1, 'borrow', 'deepseek', 'auto', 0, 0, 0, ?2, ?3, 1, 0, 0, 0)",
        (id, has_key as i64, is_builtin),
    )
    .unwrap();
}

fn insert_test_session(conn: &mut Db, id: &str) {
    conn.connection().execute(
        "INSERT OR IGNORE INTO namespaces (id, kind, name, is_builtin, added_at) \
         VALUES ('local', 'local', 'Local', 1, 0)",
        [],
    )
    .unwrap();
    conn.connection().execute(
        "INSERT OR IGNORE INTO repos (id, namespace_id, source, name, path, status, added_at) \
         VALUES ('local-default', 'local', 'local', 'Local', \
         '/tmp/agentloom-agents-local-default', 'active', 0)",
        [],
    )
    .unwrap();
    create_session(conn, id, id, "local-default", "local").unwrap();
}

fn create_legacy_agents_reasoning_table(conn: &mut Db, table_name: &str) {
    conn.connection().execute_batch(&format!(
        r#"
        CREATE TABLE {table_name} (
            id TEXT NOT NULL PRIMARY KEY,
            name TEXT NOT NULL,
            access TEXT NOT NULL CHECK (access IN ('native', 'borrow', 'harness')),
            provider TEXT NOT NULL,
            primary_model TEXT,
            endpoint TEXT,
            auth_mode TEXT CHECK (auth_mode IS NULL OR auth_mode IN ('bearer', 'x_api_key')),
            model_opus TEXT,
            model_sonnet TEXT,
            model_haiku TEXT,
            model_subagent TEXT,
            reasoning_default TEXT NOT NULL DEFAULT 'auto'
                CHECK (reasoning_default IN ('auto', 'low', 'medium', 'high')),
            max_output_tokens INTEGER,
            api_timeout_ms INTEGER,
            compat_disable_betas INTEGER NOT NULL DEFAULT 0,
            compat_disable_nonessential INTEGER NOT NULL DEFAULT 0,
            compat_disable_thinking INTEGER NOT NULL DEFAULT 0,
            compat_proxy TEXT,
            custom_headers TEXT,
            extra_body TEXT,
            cap_reasoning TEXT,
            cap_computer_use TEXT,
            has_key INTEGER NOT NULL DEFAULT 0,
            is_builtin INTEGER NOT NULL DEFAULT 0,
            enabled INTEGER NOT NULL DEFAULT 1,
            sort_order INTEGER NOT NULL DEFAULT 0,
            created_at INTEGER NOT NULL,
            updated_at INTEGER NOT NULL
        );
        INSERT INTO {table_name}
            (id, name, access, provider, primary_model, endpoint, auth_mode,
             reasoning_default, compat_disable_betas, compat_disable_nonessential,
             compat_disable_thinking, has_key, is_builtin, enabled, sort_order,
             created_at, updated_at)
        VALUES
            ('legacy-kimi', 'Kimi K2.6', 'borrow', 'kimi', 'kimi-k2.6',
             'https://api.moonshot.cn/anthropic', 'bearer', 'auto',
             0, 1, 0, 1, 0, 1, 3, 100, 200),
            ('legacy-glm', '智谱 GLM', 'harness', 'zhipu', 'glm-4.7',
             'https://open.bigmodel.cn/api/paas/v4', 'bearer', 'auto',
             0, 1, 0, 1, 0, 1, 9, 100, 200);
        "#
    ))
    .unwrap();
}

#[test]
fn lead_loop_state_crud_roundtrip() {
    let mut c = mem();
    let st = get_lead_loop_state(&mut c, "s1").unwrap();
    assert_eq!(st.autonomy, "cautious");
    assert_eq!(st.active_run_id, None);

    set_lead_autonomy(&mut c, "s1", "handsfree").unwrap();
    assert_eq!(get_lead_loop_state(&mut c, "s1").unwrap().autonomy, "handsfree");

    set_lead_active(&mut c, "s1", Some("run-9"), Some("task-2")).unwrap();
    let st = get_lead_loop_state(&mut c, "s1").unwrap();
    assert_eq!(st.active_run_id.as_deref(), Some("run-9"));
    assert_eq!(st.active_task_id.as_deref(), Some("task-2"));
    assert_eq!(st.autonomy, "handsfree");

    set_lead_event_cursor(&mut c, "s1", "evt-42").unwrap();
    let st = get_lead_loop_state(&mut c, "s1").unwrap();
    assert_eq!(st.last_event_cursor.as_deref(), Some("evt-42"));
    assert_eq!(st.autonomy, "handsfree");
    assert_eq!(
        st.active_run_id.as_deref(),
        Some("run-9"));
}

#[test]
fn set_and_get_lead_autonomy_roundtrip_all_three() {
    let mut c = mem();
    for a in ["cautious", "handsfree", "auto"] {
        set_lead_autonomy(&mut c, "s1", a).unwrap();
        assert_eq!(get_lead_loop_state(&mut c, "s1").unwrap().autonomy, a);
    }
}

#[test]
fn set_lead_autonomy_rejects_invalid_value() {
    let mut c = mem();
    assert!(set_lead_autonomy(&mut c, "s1", "yolo").is_err());
}

#[test]
fn init_schema_resets_session_agent_configs_with_dead_legacy_agent_fk() {
    let mut c = open();
    c.connection().execute_batch(
        r#"
        PRAGMA foreign_keys = OFF;
        CREATE TABLE sessions (
            id TEXT PRIMARY KEY,
            title TEXT NOT NULL,
            created_at INTEGER NOT NULL
        );
        CREATE TABLE agents_old_reasoning_check (
            id TEXT NOT NULL PRIMARY KEY
        );
        CREATE TABLE session_agent_configs (
            session_id TEXT PRIMARY KEY REFERENCES sessions(id) ON DELETE CASCADE,
            lead_agent_id TEXT REFERENCES agents_old_reasoning_check(id) ON DELETE SET NULL,
            member_agent_ids TEXT NOT NULL DEFAULT '[]' CHECK (json_valid(member_agent_ids))
        );
        INSERT INTO sessions (id, title, created_at) VALUES ('session-a', 'Session A', 0);
        INSERT INTO session_agent_configs (session_id, lead_agent_id, member_agent_ids)
            VALUES ('session-a', NULL, '["codex"]');
        DROP TABLE agents_old_reasoning_check;
        PRAGMA foreign_keys = ON;
        "#,
    )
    .unwrap();

    init_schema(&mut c).unwrap();
    seed_builtin_agents(&mut c, "clio", "Clio").unwrap();

    let fks: Vec<(String, String, String)> = c
        .connection()
        .prepare("PRAGMA foreign_key_list(session_agent_configs)")
        .unwrap()
        .query_map([], |r| {
            Ok((
                r.get::<_, String>(2)?,
                r.get::<_, String>(3)?,
                r.get::<_, String>(4)?,
            ))
        })
        .unwrap()
        .collect::<Result<_, _>>()
        .unwrap();
    assert!(
        fks.iter().any(|(table, from, to)| {
            table == "agents" && from == "lead_agent_id" && to == "id"
        }));
    assert_eq!(
        get_session_agent_config(&mut c, "session-a").unwrap(),
        SessionAgentConfig {
            session_id: "session-a".into(),
            lead_agent_id: None,
            member_agent_ids: Vec::new(),
        });

    let saved = set_session_agent_config(
        &mut c,
        "session-a",
        Some("clio".to_string()),
        vec!["codex".to_string()],
    )
    .unwrap();
    assert_eq!(saved.lead_agent_id.as_deref(), Some("clio"));
    assert_eq!(saved.member_agent_ids, vec!["codex"]);
}

#[test]
fn init_schema_resets_session_agent_configs_when_agents_table_is_rebuilt() {
    let mut c = open();
    c.connection().execute_batch(
        r#"
        PRAGMA foreign_keys = ON;
        CREATE TABLE sessions (
            id TEXT PRIMARY KEY,
            title TEXT NOT NULL,
            created_at INTEGER NOT NULL
        );
        INSERT INTO sessions (id, title, created_at) VALUES ('session-a', 'Session A', 0);
        "#,
    )
    .unwrap();
    create_legacy_agents_reasoning_table(&mut c, "agents");
    c.connection().execute_batch(
        r#"
        CREATE TABLE session_agent_configs (
            session_id TEXT PRIMARY KEY REFERENCES sessions(id) ON DELETE CASCADE,
            lead_agent_id TEXT REFERENCES agents(id) ON DELETE SET NULL,
            member_agent_ids TEXT NOT NULL DEFAULT '[]' CHECK (json_valid(member_agent_ids))
        );
        INSERT INTO session_agent_configs (session_id, lead_agent_id, member_agent_ids)
            VALUES ('session-a', 'legacy-glm', '["legacy-kimi"]');
        "#,
    )
    .unwrap();

    init_schema(&mut c).unwrap();
    init_schema(&mut c).unwrap();
    c.connection().execute(
        "INSERT OR IGNORE INTO namespaces (id, kind, name, is_builtin, added_at)
         VALUES ('local', 'local', 'Local', 1, 0)",
        [],
    )
    .unwrap();

    let fk_on: i64 = c
        .connection()
        .query_row("PRAGMA foreign_keys", [], |r| r.get(0))
        .unwrap();
    assert_eq!(fk_on, 1);
    let old_exists: i64 = c
        .connection()
        .query_row(
            "SELECT count(*) FROM sqlite_master WHERE type = 'table' AND name = 'agents_old_reasoning_check'",
            [],
            |r| r.get(0),
        )
        .unwrap();
    assert_eq!(old_exists, 0);
    let fk_errors: Vec<String> = c
        .connection()
        .prepare("PRAGMA foreign_key_check")
        .unwrap()
        .query_map([], |r| r.get::<_, String>(0))
        .unwrap()
        .collect::<Result<_, _>>()
        .unwrap();
    assert!(fk_errors.is_empty());

    let fks: Vec<(String, String, String)> = c
        .connection()
        .prepare("PRAGMA foreign_key_list(session_agent_configs)")
        .unwrap()
        .query_map([], |r| {
            Ok((
                r.get::<_, String>(2)?,
                r.get::<_, String>(3)?,
                r.get::<_, String>(4)?,
            ))
        })
        .unwrap()
        .collect::<Result<_, _>>()
        .unwrap();
    assert!(
        fks.iter().any(|(table, from, to)| {
            table == "agents" && from == "lead_agent_id" && to == "id"
        }));
    assert_eq!(
        get_session_agent_config(&mut c, "session-a").unwrap(),
        SessionAgentConfig {
            session_id: "session-a".into(),
            lead_agent_id: None,
            member_agent_ids: Vec::new(),
        });
}

#[test]
fn init_schema_preserves_legacy_harness_access() {
    let mut c = open();
    create_legacy_agents_reasoning_table(&mut c, "agents");

    init_schema(&mut c).unwrap();

    let kimi = get_agent(&mut c, "legacy-kimi").unwrap().unwrap();
    let glm = get_agent(&mut c, "legacy-glm").unwrap().unwrap();
    assert_eq!(kimi.access, "borrow");
    assert_eq!(glm.access, "harness");
    assert_eq!(glm.provider, "zhipu");
    assert_eq!(glm.primary_model.as_deref(), Some("glm-4.7"));
    let old_exists: i64 = c
        .connection()
        .query_row(
            "SELECT count(*) FROM sqlite_master WHERE type = 'table' AND name = 'agents_old_reasoning_check'",
            [],
            |r| r.get(0),
        )
        .unwrap();
    assert_eq!(old_exists, 0);
}

#[test]
fn init_schema_recovers_leftover_agents_old_reasoning_check_table() {
    let mut c = bare();
    seed_builtin_agents(&mut c, "clio", "Clio").unwrap();
    create_legacy_agents_reasoning_table(&mut c, "agents_old_reasoning_check");

    init_schema(&mut c).unwrap();

    let ids: Vec<String> = list_agents(&mut c)
        .unwrap()
        .into_iter()
        .map(|agent| agent.id)
        .collect();
    assert_eq!(ids, vec!["clio", "codex", "legacy-kimi", "legacy-glm"]);
    assert_eq!(
        get_agent(&mut c, "legacy-glm").unwrap().unwrap().access,
        "harness");
    let old_exists: i64 = c
        .connection()
        .query_row(
            "SELECT count(*) FROM sqlite_master WHERE type = 'table' AND name = 'agents_old_reasoning_check'",
            [],
            |r| r.get(0),
        )
        .unwrap();
    assert_eq!(old_exists, 0);
}

#[test]
fn agents_upsert_roundtrips_all_fields() {
    let mut c = bare();
    let mut a = agent("a1", 7, false);
    a.cap_lead = Some("native_cli".into());

    upsert_agent(&mut c, &a).unwrap();

    assert_eq!(get_agent(&mut c, "a1").unwrap(), Some(a));
}

#[test]
fn agent_profile_persists_lead_capability() {
    let mut c = bare();
    seed_builtin_agents(&mut c, "clio", "Clio").unwrap();

    let agents = list_agents(&mut c).unwrap();
    let clio = agents.iter().find(|agent| agent.id == "clio").unwrap();
    let codex = agents.iter().find(|agent| agent.id == "codex").unwrap();

    assert_eq!(clio.cap_lead.as_deref(), Some("native_cli"));
    assert_eq!(codex.cap_lead.as_deref(), None);
}

#[test]
fn session_agent_config_defaults_to_solo() {
    let mut c = bare();
    seed_builtin_agents(&mut c, "clio", "Clio").unwrap();
    insert_test_session(&mut c, "session-a");

    let config = get_session_agent_config(&mut c, "session-a").unwrap();

    assert_eq!(config.session_id, "session-a");
    assert_eq!(config.lead_agent_id, None);
    assert!(config.member_agent_ids.is_empty());
}

#[test]
fn session_agent_config_roundtrips_deduped_members() {
    let mut c = bare();
    seed_builtin_agents(&mut c, "clio", "Clio").unwrap();
    insert_test_session(&mut c, "session-a");

    let saved = set_session_agent_config(
        &mut c,
        "session-a",
        Some("clio".to_string()),
        vec![
            "".to_string(),
            "codex".to_string(),
            "clio".to_string(),
            "codex".to_string(),
        ],
    )
    .unwrap();

    assert_eq!(saved.lead_agent_id.as_deref(), Some("clio"));
    assert_eq!(saved.member_agent_ids, vec!["codex"]);
    assert_eq!(get_session_agent_config(&mut c, "session-a").unwrap(), saved);
}

#[test]
fn session_agent_config_accepts_enabled_agent_as_lead_without_cap_lead() {
    let mut c = bare();
    seed_builtin_agents(&mut c, "clio", "Clio").unwrap();
    insert_test_session(&mut c, "session-a");

    let saved =
        set_session_agent_config(&mut c, "session-a", Some("codex".to_string()), vec![]).unwrap();

    assert_eq!(saved.lead_agent_id.as_deref(), Some("codex"));
}

#[test]
fn session_agent_config_rejects_disabled_member() {
    let mut c = bare();
    seed_builtin_agents(&mut c, "clio", "Clio").unwrap();
    insert_test_session(&mut c, "session-a");
    set_agent_enabled(&mut c, "codex", false).unwrap();

    let err = set_session_agent_config(
        &mut c,
        "session-a",
        Some("clio".to_string()),
        vec!["codex".to_string()],
    )
    .unwrap_err();

    assert!(err.message().contains("disabled"));
}

#[test]
fn copy_session_agent_config_team() {
    let mut c = bare();
    insert_min_agent(&mut c, "clio", 0, true);
    insert_min_agent(&mut c, "m1", 0, true);
    insert_min_agent(&mut c, "m2", 0, true);
    insert_test_session(&mut c, "p1");
    insert_test_session(&mut c, "c1");
    set_session_agent_config(
        &mut c,
        "p1",
        Some("clio".to_string()),
        vec!["m1".to_string(), "m2".to_string()],
    )
    .unwrap();

    copy_session_agent_config(&mut c, "p1", "c1").unwrap();

    let child = get_session_agent_config(&mut c, "c1").unwrap();
    assert_eq!(child.lead_agent_id.as_deref(), Some("clio"));
    assert_eq!(child.member_agent_ids, vec!["m1", "m2"]);
}

#[test]
fn copy_session_agent_config_solo_default() {
    let mut c = bare();
    insert_test_session(&mut c, "p2");
    insert_test_session(&mut c, "c2");

    copy_session_agent_config(&mut c, "p2", "c2").unwrap();

    let child = get_session_agent_config(&mut c, "c2").unwrap();
    assert_eq!(child.lead_agent_id, None);
    assert!(child.member_agent_ids.is_empty());
    let count: i64 = c
        .connection()
        .query_row(
            "SELECT COUNT(*) FROM session_agent_configs WHERE session_id = 'c2'",
            [],
            |r| r.get(0),
        )
        .unwrap();
    assert_eq!(count, 1);
}

#[test]
fn session_mode_team_vs_solo() {
    let mut c = bare();
    insert_min_agent(&mut c, "clio", 0, true);
    insert_min_agent(&mut c, "m1", 0, true);
    insert_min_agent(&mut c, "m2", 0, true);
    insert_test_session(&mut c, "team");
    insert_test_session(&mut c, "solo");
    set_session_agent_config(
        &mut c,
        "team",
        Some("clio".to_string()),
        vec!["m1".to_string(), "m2".to_string()],
    )
    .unwrap();

    assert_eq!(
        session_mode(&mut c, "team").unwrap(),
        SessionMode::Team {
            lead_agent_id: "clio".to_string(),
            member_ids: vec!["m1".to_string(), "m2".to_string()],
        });
    assert_eq!(session_mode(&mut c, "solo").unwrap(), SessionMode::Solo);
}

#[test]
fn agents_list_ordered() {
    let mut c = bare();
    upsert_agent(&mut c, &agent("middle", 20, false)).unwrap();
    upsert_agent(&mut c, &agent("first", 10, false)).unwrap();
    upsert_agent(&mut c, &agent("last", 30, false)).unwrap();

    let ids: Vec<String> = list_agents(&mut c).unwrap().into_iter().map(|a| a.id).collect();

    assert_eq!(ids, vec!["first", "middle", "last"]);
}

#[test]
fn agents_get_missing_none() {
    let mut c = bare();

    assert_eq!(get_agent(&mut c, "missing").unwrap(), None);
}

#[test]
fn agents_delete_borrow_builtin_ok() {
    let mut c = bare();
    let mut a = agent("a1", 0, true);
    a.access = "borrow".into();
    upsert_agent(&mut c, &a).unwrap();

    delete_agent(&mut c, "a1").unwrap();

    assert_eq!(get_agent(&mut c, "a1").unwrap(), None);
}

#[test]
fn agents_delete_native_rejected() {
    let mut c = bare();
    let a = agent("native", 0, false);
    upsert_agent(&mut c, &a).unwrap();

    assert!(delete_agent(&mut c, "native").is_err());

    assert_eq!(get_agent(&mut c, "native").unwrap(), Some(a));
}

#[test]
fn agents_upsert_update_preserves_created_at() {
    let mut c = bare();
    let first = agent("a1", 0, false);
    upsert_agent(&mut c, &first).unwrap();

    let mut second = agent("a1", 1, false);
    second.created_at = 999;
    second.updated_at = 300;
    upsert_agent(&mut c, &second).unwrap();

    let got = get_agent(&mut c, "a1").unwrap().unwrap();
    assert_eq!(got.created_at, first.created_at);
    assert_eq!(got.updated_at, second.updated_at);
}

#[test]
fn seed_inserts_two_when_empty() {
    let mut c = bare();

    seed_builtin_agents(&mut c, "clio", "Clio").unwrap();

    let ids: Vec<String> = list_agents(&mut c).unwrap().into_iter().map(|a| a.id).collect();
    assert_eq!(ids, vec!["clio", "codex"]);
}

#[test]
fn seed_builtin_agents_excludes_deepseek() {
    let mut conn = open();
    init_schema(&mut conn).unwrap();
    seed_builtin_agents(&mut conn, "clio", "Clio").unwrap();
    let ids: Vec<String> = conn
        .connection()
        .prepare("SELECT id FROM agents ORDER BY sort_order")
        .unwrap()
        .query_map([], |r| r.get::<_, String>(0))
        .unwrap()
        .collect::<rusqlite::Result<_>>()
        .unwrap();
    assert_eq!(ids, vec!["clio".to_string(), "codex".to_string()]);
    assert!(!ids.contains(&"deepseek".to_string()));
}

#[test]
fn seed_idempotent() {
    let mut c = bare();

    seed_builtin_agents(&mut c, "clio", "Clio").unwrap();
    seed_builtin_agents(&mut c, "clio", "Clio").unwrap();

    let ids: Vec<String> = list_agents(&mut c).unwrap().into_iter().map(|a| a.id).collect();
    assert_eq!(ids, vec!["clio", "codex"]);
}

#[test]
fn generated_repo_documents_migrate_upsert_and_read_idempotently() {
    let mut conn = open();
    init_schema(&mut conn).unwrap();
    init_schema(&mut conn).unwrap();
    let version: i64 = conn
        .connection()
        .query_row("PRAGMA user_version", [], |row| row.get(0))
        .unwrap();
    assert_eq!(version, GENERATED_REPORTS_SCHEMA_VERSION);

    conn.connection().execute(
        "INSERT INTO namespaces (id, kind, name, added_at) VALUES ('local', 'local', 'Local', 1)",
        [],
    )
    .unwrap();
    conn.connection().execute(
        "INSERT INTO repos (id, name, path, added_at) VALUES ('repo-1', 'Repo', '/repo-1', 1)",
        [],
    )
    .unwrap();
    let first = GeneratedRepoDocument {
        repo_id: "repo-1".into(),
        content: "first".into(),
        generated_at: 10,
        head_sha: "aaa".into(),
    };
    upsert_project_intro(&mut conn, &first).unwrap();
    upsert_daily_report(&mut conn, &first).unwrap();
    assert_eq!(
        get_project_intro(&mut conn, "repo-1").unwrap(),
        Some(first.clone()));
    assert_eq!(
        get_daily_report(&mut conn, "repo-1").unwrap(),
        Some(first.clone()));

    let second = GeneratedRepoDocument {
        content: "second".into(),
        generated_at: 20,
        head_sha: "bbb".into(),
        ..first
    };
    upsert_project_intro(&mut conn, &second).unwrap();
    upsert_daily_report(&mut conn, &second).unwrap();
    assert_eq!(
        get_project_intro(&mut conn, "repo-1").unwrap(),
        Some(second.clone()));
    assert_eq!(get_daily_report(&mut conn, "repo-1").unwrap(), Some(second));
    let intro_count: i64 = conn
        .connection()
        .query_row("SELECT COUNT(*) FROM project_intro", [], |row| row.get(0))
        .unwrap();
    let daily_count: i64 = conn
        .connection()
        .query_row("SELECT COUNT(*) FROM daily_report", [], |row| row.get(0))
        .unwrap();
    assert_eq!((intro_count, daily_count), (1, 1));
}

#[test]
fn an_agent_id_is_trimmed_and_an_empty_one_is_none() {
    assert_eq!(normalize_agent_id("  codex\t".into()).as_deref(), Some("codex"));
    assert_eq!(normalize_agent_id("codex".into()).as_deref(), Some("codex"));
    assert_eq!(normalize_agent_id("\u{3000} \n".into()), None);
}

#[test]
fn members_are_distinct_and_without_the_lead() {
    let list = |ids: &[&str]| ids.iter().map(|s| s.to_string()).collect::<Vec<_>>();
    let once =
        normalize_member_agent_ids(list(&[" a", "lead", "", "b", "a ", "c"]), Some("lead"));
    assert_eq!(once, list(&["a", "b", "c"]));
    assert_eq!(normalize_member_agent_ids(once.clone(), Some("lead")), once);
    assert_eq!(normalize_member_agent_ids(list(&["lead"]), None), list(&["lead"]));
}

#[test]
fn a_configuration_that_cannot_be_read_is_a_conversion_error() {
    let mut c = bare();
    insert_test_session(&mut c, "s1");
    c.connection()
        .execute_batch("PRAGMA ignore_check_constraints = ON")
        .unwrap();
    c.connection()
        .execute(
            "INSERT INTO session_agent_configs (session_id, lead_agent_id, member_agent_ids) \
             VALUES ('s1', NULL, '[')",
            [],
        )
        .unwrap();
    let err = get_session_agent_config(&mut c, "s1").unwrap_err();
    match &err {
        DbError::Conversion { index: 1, detail } => assert!(detail.starts_with("EOF while parsing")),
        other => panic!("another error: {other:?}"),
    }
    assert!(err
        .message()
        .starts_with("Conversion error from type Text at index: 1, EOF while parsing"));
}

#[test]
fn a_configuration_is_made_of_what_was_parsed() {
    let config = config_from_row("s1", Some("lead".into()), Ok(vec!["a".into()])).unwrap();
    assert_eq!(config.session_id, "s1");
    assert_eq!(config.lead_agent_id.as_deref(), Some("lead"));
    assert_eq!(config.member_agent_ids, vec!["a"]);
    let err = config_from_row("s1", None, Err("bad".into())).unwrap_err();
    assert_eq!(err, DbError::Conversion { index: 1, detail: "bad".into() });
}

#[test]
fn a_lead_that_was_never_stored_is_cautious() {
    let state = LeadLoopState::default_for("s1");
    assert_eq!(state.session_id, "s1");
    assert_eq!(state.autonomy, "cautious");
    assert_eq!(state.active_run_id, None);
}

#[test]
fn the_builtin_agents_are_two_in_order() {
    let agents = builtin_agents("clio", "Clio");
    let said: Vec<(&str, &str, &str, Option<&str>)> = agents
        .iter()
        .map(|a| {
            (a.id.as_str(), a.name.as_str(), a.cap_reasoning.as_str(), a.cap_lead.as_deref())
        })
        .collect();
    assert_eq!(
        said,
        vec![
            ("clio", "Clio", "low,medium,high,xhigh,max", Some("native_cli")),
            ("codex", "Codex", "minimal,low,medium,high,xhigh", None),
        ]
    );
}

#[test]
fn a_builtin_agent_is_stored_as_it_is_described() {
    let mut c = bare();
    seed_builtin_agents(&mut c, "clio", "Clio").unwrap();
    let codex = get_agent(&mut c, "codex").unwrap().unwrap();
    assert_eq!(codex.provider, "codex");
    assert_eq!(codex.access, "native");
    assert_eq!(codex.reasoning_default, "auto");
    assert_eq!(codex.cap_reasoning.as_deref(), Some("minimal,low,medium,high,xhigh"));
    assert_eq!(codex.sort_order, 1);
    assert!(codex.is_builtin && codex.enabled && !codex.has_key);
    assert_eq!(codex.created_at, codex.updated_at);
}

#[test]
fn seeding_again_sets_the_capabilities_of_builtin_agents_alone() {
    let mut c = bare();
    seed_builtin_agents(&mut c, "clio", "Clio").unwrap();
    let mut mine = get_agent(&mut c, "clio").unwrap().unwrap();
    mine.name = "Mine".into();
    mine.enabled = false;
    mine.cap_lead = None;
    mine.cap_reasoning = Some("low".into());
    mine.cap_computer_use = Some("yes".into());
    mine.sort_order = 9;
    upsert_agent(&mut c, &mine).unwrap();
    let mut other = get_agent(&mut c, "codex").unwrap().unwrap();
    other.is_builtin = false;
    other.cap_lead = Some("mine".into());
    upsert_agent(&mut c, &other).unwrap();

    seed_builtin_agents(&mut c, "clio", "Clio").unwrap();

    mine.cap_lead = Some("native_cli".into());
    mine.cap_reasoning = Some("low,medium,high,xhigh,max".into());
    assert_eq!(get_agent(&mut c, "clio").unwrap(), Some(mine));
    assert_eq!(get_agent(&mut c, "codex").unwrap(), Some(other));
}

#[test]
fn a_refused_configuration_leaves_the_stored_one() {
    let mut c = bare();
    seed_builtin_agents(&mut c, "clio", "Clio").unwrap();
    insert_test_session(&mut c, "session-a");
    let set = set_session_agent_config(&mut c, "session-a", Some(" clio ".into()), vec![]).unwrap();
    assert_eq!(set.lead_agent_id.as_deref(), Some("clio"));
    assert!(set_session_agent_config(
        &mut c,
        "session-a",
        Some("codex".into()),
        vec!["none".into()],
    )
    .is_err());
    assert_eq!(get_session_agent_config(&mut c, "session-a").unwrap(), set);
}
