use agentloom_db::engine::Db;
use agentloom_db::schema::init_schema;
use agentloom_db::settings::{
    ACTIVE_SEARCH_BACKEND_SETTING,
    get_active_search_backend,
    get_app_setting,
    is_commit_authorized,
    set_active_search_backend,
    set_app_setting,
    set_commit_authorized,
};

fn open() -> Db {
    Db::new(rusqlite::Connection::open_in_memory().unwrap())
}

fn mem() -> Db {
    let mut c = open();
    init_schema(&mut c).unwrap();
    c.connection()
        .execute(
            "INSERT OR IGNORE INTO namespaces (id, kind, name, is_builtin, added_at) VALUES ('local', 'local', 'Local', 1, 0)",
            [],
        )
        .unwrap();
    c.connection()
        .execute(
            "INSERT OR IGNORE INTO repos (id, namespace_id, source, name, path, status, added_at) VALUES ('local-default', 'local', 'local', '我的项目', '/tmp/agentloom-mem-local-default', 'active', 0)",
            [],
        )
        .unwrap();
    c
}

#[test]
fn active_backend_defaults_to_brave_when_unset() {
    let mut conn = open();
    init_schema(&mut conn).unwrap();

    assert_eq!(get_active_search_backend(&mut conn).unwrap(), "brave");
}

#[test]
fn active_backend_roundtrip_and_dirty_value_defaults_brave() {
    let mut conn = open();
    init_schema(&mut conn).unwrap();

    assert_eq!(get_active_search_backend(&mut conn).unwrap(), "brave");
    set_active_search_backend(&mut conn, "exa").unwrap();
    assert_eq!(get_active_search_backend(&mut conn).unwrap(), "exa");
    set_app_setting(&mut conn, ACTIVE_SEARCH_BACKEND_SETTING, "searxng").unwrap();
    assert_eq!(get_active_search_backend(&mut conn).unwrap(), "brave");
    set_app_setting(&mut conn, ACTIVE_SEARCH_BACKEND_SETTING, "EXA").unwrap();
    assert_eq!(get_active_search_backend(&mut conn).unwrap(), "brave");
}

#[test]
fn active_backend_recognizes_duckduckgo() {
    let mut conn = open();
    init_schema(&mut conn).unwrap();

    set_app_setting(&mut conn, ACTIVE_SEARCH_BACKEND_SETTING, "duckduckgo").unwrap();
    assert_eq!(get_active_search_backend(&mut conn).unwrap(), "duckduckgo");
}

#[test]
fn set_active_backend_accepts_known_values_and_roundtrips() {
    let mut conn = open();
    init_schema(&mut conn).unwrap();

    set_active_search_backend(&mut conn, "duckduckgo").unwrap();
    assert_eq!(get_active_search_backend(&mut conn).unwrap(), "duckduckgo");

    set_active_search_backend(&mut conn, "brave").unwrap();
    assert_eq!(get_active_search_backend(&mut conn).unwrap(), "brave");

    set_active_search_backend(&mut conn, "exa").unwrap();
    assert_eq!(get_active_search_backend(&mut conn).unwrap(), "exa");
}

#[test]
fn set_active_backend_rejects_unknown_value() {
    let mut conn = open();
    init_schema(&mut conn).unwrap();

    let err = set_active_search_backend(&mut conn, "searxng").unwrap_err();
    assert_eq!(err, "invalid search backend: searxng");
}

#[test]
fn commit_authorized_defaults_to_false_when_unset() {
    let mut conn = mem();

    assert!(!is_commit_authorized(&mut conn, "repo-a").unwrap());
}

#[test]
fn commit_authorized_roundtrips_true_then_false() {
    let mut conn = mem();

    set_commit_authorized(&mut conn, "repo-a", true).unwrap();
    assert!(is_commit_authorized(&mut conn, "repo-a").unwrap());

    set_commit_authorized(&mut conn, "repo-a", false).unwrap();
    assert!(!is_commit_authorized(&mut conn, "repo-a").unwrap());
}

#[test]
fn commit_authorized_recognizes_true_string() {
    let mut conn = mem();

    set_app_setting(&mut conn, "commit.authorized.repo-a", "true").unwrap();

    assert!(is_commit_authorized(&mut conn, "repo-a").unwrap());
}

#[test]
fn commit_authorized_is_isolated_by_repo_key() {
    let mut conn = mem();

    set_commit_authorized(&mut conn, "repo-a", true).unwrap();

    assert!(is_commit_authorized(&mut conn, "repo-a").unwrap());
    assert!(!is_commit_authorized(&mut conn, "repo-b").unwrap());
}

#[test]
fn a_setting_is_read_back_and_absent_before() {
    let mut c = open();
    init_schema(&mut c).unwrap();
    assert_eq!(get_app_setting(&mut c, "k").unwrap(), None);
    set_app_setting(&mut c, "k", "v").unwrap();
    assert_eq!(get_app_setting(&mut c, "k").unwrap().as_deref(), Some("v"));
    set_app_setting(&mut c, "k", "w").unwrap();
    assert_eq!(get_app_setting(&mut c, "k").unwrap().as_deref(), Some("w"));
}
