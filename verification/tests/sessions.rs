use agentloom_db::blocks::Block;
use agentloom_db::engine::{Db, DbError};
use agentloom_db::events::Milestone;
use agentloom_db::index::list_session_history_rows;
use agentloom_db::messages::append_message;
use agentloom_db::schema::init_schema;
use agentloom_db::sessions::{
    add_session_usage,
    archive_sessions_for_repo,
    choose_child,
    continuation_chain_ids,
    create_session,
    delete_session,
    find_parent_problem,
    get_git_state,
    get_session_namespace_id,
    get_session_repo_id,
    get_session_workspace_scope,
    list_expired_trashed_sessions,
    preflight_restore_session,
    rename_session,
    restore_session,
    session_has_live_children,
    set_git_state,
    set_session_archived,
    set_session_continued_to,
    set_session_deleted,
    set_session_parent,
    set_session_pinned,
    set_session_unread,
    set_session_workspace_scope,
    set_sessions_archived,
    unarchive_sessions_for_repo,
};

fn open() -> Db {
    Db::new(rusqlite::Connection::open_in_memory().unwrap())
}

fn mem() -> Db {
    let mut c = open();
    init_schema(&mut c).unwrap();
    c.connection()
        .execute(
            "INSERT OR IGNORE INTO namespaces (id, kind, name, is_builtin, added_at) VALUES ('local', 'local', 'Local', 1, 0)",
            [],
        )
        .unwrap();
    c.connection()
        .execute(
            "INSERT OR IGNORE INTO repos (id, namespace_id, source, name, path, status, added_at) VALUES ('local-default', 'local', 'local', '我的项目', '/tmp/agentloom-mem-local-default', 'active', 0)",
            [],
        )
        .unwrap();
    c
}

fn names(milestones: &[Milestone]) -> Vec<&'static str> {
    milestones
        .iter()
        .map(|m| match m {
            Milestone::RunStatus { .. } => "run.status",
            Milestone::SessionCreated { .. } => "session.index.created",
            Milestone::SessionRenamed { .. } => "session.index.renamed",
            Milestone::SessionDeleted { .. } => "session.index.deleted",
            Milestone::SessionsArchived { archived: true, .. } => "session.index.archived",
            Milestone::SessionsArchived { archived: false, .. } => "session.index.unarchived",
            Milestone::MessageCompleted { .. } => "msg.completed",
            Milestone::CardResolved { .. } => "card.resolved",
        })
        .collect()
}

fn published(db: &mut Db) -> Vec<&'static str> {
    names(&db.take_published())
}

fn encode(blocks: &[Block]) -> String {
    let list = blocks
        .iter()
        .map(|b| {
            let (kind, text) = match b {
                Block::Text { text } => ("text", text),
                Block::Thinking { text } => ("thinking", text),
                other => panic!("a block that is no text: {other:?}"),
            };
            let mut object = serde_json::Map::new();
            object.insert("type".into(), kind.into());
            object.insert("text".into(), text.as_str().into());
            serde_json::Value::Object(object)
        })
        .collect();
    serde_json::Value::Array(list).to_string()
}

fn create_continuation_lineage(c: &mut Db, parent: &str, child: &str) {
    create_session(c, parent, "parent", "local-default", "local").unwrap();
    create_session(c, child, "child", "local-default", "local").unwrap();
    set_session_parent(c, child, Some(parent)).unwrap();
    set_session_continued_to(c, parent, Some(child)).unwrap();
}

#[test]
fn sessions_continued_to_columns_and_pointers_roundtrip() {
    let mut c = mem();
    init_schema(&mut c).unwrap();

    let mut stmt = c.connection().prepare("PRAGMA table_info(sessions)").unwrap();
    let cols: Vec<String> = stmt
        .query_map([], |r| r.get::<_, String>(1))
        .unwrap()
        .collect::<rusqlite::Result<_>>()
        .unwrap();
    drop(stmt);
    assert!(
        cols.contains(&"continued_to_session_id".to_string()));

    create_session(&mut c, "parent", "parent", "local-default", "local").unwrap();
    create_session(&mut c, "child", "child", "local-default", "local").unwrap();

    set_session_parent(&mut c, "child", Some("parent")).unwrap();
    set_session_continued_to(&mut c, "parent", Some("child")).unwrap();

    let (child_parent, parent_continued): (Option<String>, Option<String>) = c
        .connection()
        .query_row(
            "SELECT
                (SELECT parent_session_id FROM sessions WHERE id = 'child'),
                (SELECT continued_to_session_id FROM sessions WHERE id = 'parent')",
            [],
            |r| Ok((r.get(0)?, r.get(1)?)),
        )
        .unwrap();
    assert_eq!(child_parent.as_deref(), Some("parent"));
    assert_eq!(parent_continued.as_deref(), Some("child"));

    set_session_parent(&mut c, "child", None).unwrap();
    set_session_continued_to(&mut c, "parent", None).unwrap();

    let (child_parent, parent_continued): (Option<String>, Option<String>) = c
        .connection()
        .query_row(
            "SELECT
                (SELECT parent_session_id FROM sessions WHERE id = 'child'),
                (SELECT continued_to_session_id FROM sessions WHERE id = 'parent')",
            [],
            |r| Ok((r.get(0)?, r.get(1)?)),
        )
        .unwrap();
    assert_eq!(child_parent, None);
    assert_eq!(parent_continued, None);
}

#[test]
fn continuation_chain_ids_returns_root_to_tip_from_any_member() {
    let mut c = mem();
    create_session(&mut c, "chain-root", "root", "local-default", "local").unwrap();
    create_session(&mut c, "chain-mid", "mid", "local-default", "local").unwrap();
    create_session(&mut c, "chain-tip", "tip", "local-default", "local").unwrap();
    set_session_parent(&mut c, "chain-mid", Some("chain-root")).unwrap();
    set_session_continued_to(&mut c, "chain-root", Some("chain-mid")).unwrap();
    set_session_parent(&mut c, "chain-tip", Some("chain-mid")).unwrap();
    set_session_continued_to(&mut c, "chain-mid", Some("chain-tip")).unwrap();

    assert_eq!(
        continuation_chain_ids(&mut c, "chain-root").unwrap(),
        vec!["chain-root", "chain-mid", "chain-tip"]);
    assert_eq!(
        continuation_chain_ids(&mut c, "chain-mid").unwrap(),
        vec!["chain-root", "chain-mid", "chain-tip"]);
    assert_eq!(
        continuation_chain_ids(&mut c, "chain-tip").unwrap(),
        vec!["chain-root", "chain-mid", "chain-tip"]);
}

#[test]
fn continuation_chain_ids_rejects_cycle() {
    let mut c = mem();
    create_session(&mut c, "cycle-a", "a", "local-default", "local").unwrap();
    create_session(&mut c, "cycle-b", "b", "local-default", "local").unwrap();
    set_session_parent(&mut c, "cycle-b", Some("cycle-a")).unwrap();
    set_session_continued_to(&mut c, "cycle-a", Some("cycle-b")).unwrap();
    set_session_parent(&mut c, "cycle-a", Some("cycle-b")).unwrap();
    set_session_continued_to(&mut c, "cycle-b", Some("cycle-a")).unwrap();

    let err = continuation_chain_ids(&mut c, "cycle-a").unwrap_err();
    assert!(
        err.message().contains("cycle"));
}

#[test]
fn continuation_chain_ids_uses_live_child_when_parent_pointer_missing() {
    let mut c = mem();
    create_session(&mut c, "orphan-root", "root", "local-default", "local").unwrap();
    create_session(&mut c, "orphan-child", "child", "local-default", "local").unwrap();
    set_session_parent(&mut c, "orphan-child", Some("orphan-root")).unwrap();

    assert_eq!(
        continuation_chain_ids(&mut c, "orphan-child").unwrap(),
        vec!["orphan-root", "orphan-child"]);
}

#[test]
fn continuation_chain_ids_rejects_multiple_live_children() {
    let mut c = mem();
    create_session(&mut c, "multi-root", "root", "local-default", "local").unwrap();
    create_session(&mut c, "multi-child-a", "child a", "local-default", "local").unwrap();
    create_session(&mut c, "multi-child-b", "child b", "local-default", "local").unwrap();
    set_session_parent(&mut c, "multi-child-a", Some("multi-root")).unwrap();
    set_session_parent(&mut c, "multi-child-b", Some("multi-root")).unwrap();

    let err = continuation_chain_ids(&mut c, "multi-root").unwrap_err();
    assert!(
        err.message().contains("multiple live children"));
}

#[test]
fn live_child_delete_session_detaches_child_and_removes_parent() {
    let mut c = mem();
    create_continuation_lineage(&mut c, "parent-hard-live", "child-hard-live");

    delete_session(&mut c, "parent-hard-live").unwrap();

    let (parent_count, child_parent): (i64, Option<String>) = c
        .connection()
        .query_row(
            "SELECT
                (SELECT COUNT(*) FROM sessions WHERE id = 'parent-hard-live'),
                (SELECT parent_session_id FROM sessions WHERE id = 'child-hard-live')",
            [],
            |r| Ok((r.get(0)?, r.get(1)?)),
        )
        .unwrap();
    assert_eq!(
        parent_count, 0);
    assert_eq!(
        child_parent, None);
}

#[test]
fn live_child_set_session_deleted_detaches_child_and_tombstones_parent() {
    let mut c = mem();
    create_continuation_lineage(&mut c, "parent-soft-live", "child-soft-live");

    set_session_deleted(&mut c, "parent-soft-live").unwrap();

    let (parent_deleted_at, parent_continued, child_parent, child_deleted_at): (
        Option<i64>,
        Option<String>,
        Option<String>,
        Option<i64>,
    ) = c
        .connection()
        .query_row(
            "SELECT
                (SELECT deleted_at FROM sessions WHERE id = 'parent-soft-live'),
                (SELECT continued_to_session_id FROM sessions WHERE id = 'parent-soft-live'),
                (SELECT parent_session_id FROM sessions WHERE id = 'child-soft-live'),
                (SELECT deleted_at FROM sessions WHERE id = 'child-soft-live')",
            [],
            |r| Ok((r.get(0)?, r.get(1)?, r.get(2)?, r.get(3)?)),
        )
        .unwrap();
    assert!(
        parent_deleted_at.is_some());
    assert_eq!(
        parent_continued, None);
    assert_eq!(
        child_parent, None);
    assert_eq!(child_deleted_at, None);
}

#[test]
fn continuation_delete_set_session_deleted_child_clears_parent_pointer() {
    let mut c = mem();
    create_continuation_lineage(&mut c, "parent-soft-child", "child-soft-child");

    set_session_deleted(&mut c, "child-soft-child").unwrap();

    let continued_to: Option<String> = c
        .connection()
        .query_row(
            "SELECT continued_to_session_id FROM sessions WHERE id = 'parent-soft-child'",
            [],
            |r| r.get(0),
        )
        .unwrap();
    assert_eq!(
        continued_to, None);
}

#[test]
fn restore_deleted_child_reattaches_live_parent_pointer() {
    let mut c = mem();
    create_continuation_lineage(&mut c, "parent-restore-live", "child-restore-live");
    set_session_deleted(&mut c, "child-restore-live").unwrap();

    restore_session(&mut c, "child-restore-live").unwrap();

    let (child_deleted_at, parent_continued): (Option<i64>, Option<String>) = c
        .connection()
        .query_row(
            "SELECT
                (SELECT deleted_at FROM sessions WHERE id = 'child-restore-live'),
                (SELECT continued_to_session_id FROM sessions WHERE id = 'parent-restore-live')",
            [],
            |r| Ok((r.get(0)?, r.get(1)?)),
        )
        .unwrap();
    assert_eq!(child_deleted_at, None);
    assert_eq!(parent_continued.as_deref(), Some("child-restore-live"));
}

#[test]
fn restore_deleted_child_rejects_deleted_parent_and_keeps_child_tombstoned() {
    let mut c = mem();
    create_continuation_lineage(&mut c, "parent-restore-deleted", "child-restore-deleted");
    set_session_deleted(&mut c, "child-restore-deleted").unwrap();
    set_session_deleted(&mut c, "parent-restore-deleted").unwrap();

    let err = restore_session(&mut c, "child-restore-deleted").unwrap_err();

    assert!(
        err.message().contains("AL_ERR:db.restore.parentDeleted"));
    let child_deleted_at: Option<i64> = c
        .connection()
        .query_row(
            "SELECT deleted_at FROM sessions WHERE id = 'child-restore-deleted'",
            [],
            |r| r.get(0),
        )
        .unwrap();
    assert!(
        child_deleted_at.is_some());
}

#[test]
fn restore_deleted_child_rejects_missing_parent_and_keeps_child_tombstoned() {
    let mut c = mem();
    create_continuation_lineage(&mut c, "parent-restore-missing", "child-restore-missing");
    set_session_deleted(&mut c, "child-restore-missing").unwrap();
    delete_session(&mut c, "parent-restore-missing").unwrap();

    let err = restore_session(&mut c, "child-restore-missing").unwrap_err();

    assert!(
        err.message().contains("AL_ERR:db.restore.parentMissing"));
    let child_deleted_at: Option<i64> = c
        .connection()
        .query_row(
            "SELECT deleted_at FROM sessions WHERE id = 'child-restore-missing'",
            [],
            |r| r.get(0),
        )
        .unwrap();
    assert!(
        child_deleted_at.is_some());
}

#[test]
fn restore_old_deleted_child_rejects_newer_live_child_and_keeps_tombstone() {
    let mut c = mem();
    create_continuation_lineage(&mut c, "parent-restore-newer", "child-restore-old");
    set_session_deleted(&mut c, "child-restore-old").unwrap();
    create_session(
        &mut c,
        "child-restore-new",
        "new child",
        "local-default",
        "local",
    )
    .unwrap();
    set_session_parent(&mut c, "child-restore-new", Some("parent-restore-newer")).unwrap();

    let err = restore_session(&mut c, "child-restore-old").unwrap_err();

    assert!(
        err.message()
            .contains("AL_ERR:db.restore.liveChildExists"));
    let child_deleted_at: Option<i64> = c
        .connection()
        .query_row(
            "SELECT deleted_at FROM sessions WHERE id = 'child-restore-old'",
            [],
            |r| r.get(0),
        )
        .unwrap();
    assert!(
        child_deleted_at.is_some());
}

#[test]
fn restore_deleted_child_rejects_conflicting_parent_pointer() {
    let mut c = mem();
    create_continuation_lineage(&mut c, "parent-restore-conflict", "child-restore-conflict");
    set_session_deleted(&mut c, "child-restore-conflict").unwrap();
    set_session_continued_to(&mut c, "parent-restore-conflict", Some("other-child")).unwrap();

    let err = restore_session(&mut c, "child-restore-conflict").unwrap_err();

    assert!(
        err.message()
            .contains("AL_ERR:db.restore.parentPointsElsewhere"));
    let child_deleted_at: Option<i64> = c
        .connection()
        .query_row(
            "SELECT deleted_at FROM sessions WHERE id = 'child-restore-conflict'",
            [],
            |r| r.get(0),
        )
        .unwrap();
    assert!(
        child_deleted_at.is_some());
}

#[test]
fn continuation_delete_delete_session_child_clears_parent_pointer() {
    let mut c = mem();
    create_continuation_lineage(&mut c, "parent-hard-child", "child-hard-child");

    delete_session(&mut c, "child-hard-child").unwrap();

    let continued_to: Option<String> = c
        .connection()
        .query_row(
            "SELECT continued_to_session_id FROM sessions WHERE id = 'parent-hard-child'",
            [],
            |r| r.get(0),
        )
        .unwrap();
    assert_eq!(
        continued_to, None);
}

#[test]
fn continuation_delete_parent_without_live_child_still_deletes() {
    let mut c = mem();
    create_session(&mut c, "parent-soft-alone", "parent", "local-default", "local").unwrap();
    set_session_deleted(&mut c, "parent-soft-alone").unwrap();
    let deleted_at: Option<i64> = c
        .connection()
        .query_row(
            "SELECT deleted_at FROM sessions WHERE id = 'parent-soft-alone'",
            [],
            |r| r.get(0),
        )
        .unwrap();
    assert!(deleted_at.is_some());

    create_session(&mut c, "parent-hard-alone", "parent", "local-default", "local").unwrap();
    delete_session(&mut c, "parent-hard-alone").unwrap();
    let parent_count: i64 = c
        .connection()
        .query_row(
            "SELECT COUNT(*) FROM sessions WHERE id = 'parent-hard-alone'",
            [],
            |r| r.get(0),
        )
        .unwrap();
    assert_eq!(parent_count, 0);
}

#[test]
fn continuation_delete_soft_deleted_child_is_not_live_for_parent_delete() {
    let mut c = mem();
    create_continuation_lineage(&mut c, "parent-after-soft-child", "child-soft-first");
    set_session_deleted(&mut c, "child-soft-first").unwrap();
    set_session_deleted(&mut c, "parent-after-soft-child").unwrap();
    let parent_deleted_at: Option<i64> = c
        .connection()
        .query_row(
            "SELECT deleted_at FROM sessions WHERE id = 'parent-after-soft-child'",
            [],
            |r| r.get(0),
        )
        .unwrap();
    assert!(
        parent_deleted_at.is_some());

    create_continuation_lineage(&mut c, "parent-hard-after-soft-child", "child-soft-before-hard");
    set_session_deleted(&mut c, "child-soft-before-hard").unwrap();
    delete_session(&mut c, "parent-hard-after-soft-child").unwrap();
    let parent_count: i64 = c
        .connection()
        .query_row(
            "SELECT COUNT(*) FROM sessions WHERE id = 'parent-hard-after-soft-child'",
            [],
            |r| r.get(0),
        )
        .unwrap();
    assert_eq!(
        parent_count, 0);
}

#[test]
fn rename_session_updates_title() {
    let mut c = mem();
    create_session(&mut c, "s1", "新会话", "local-default", "local").unwrap();
    rename_session(&mut c, "s1", "修 typecheck 报错").unwrap();
    let mut stmt = c
        .connection()
        .prepare("SELECT title FROM sessions WHERE id='s1'")
        .unwrap();
    let t: String = stmt.query_row([], |r| r.get(0)).unwrap();
    assert_eq!(t, "修 typecheck 报错");
}

#[test]
fn session_flag_columns_exist_and_default_false() {
    let mut c = mem();
    create_session(&mut c, "s-flags", "x", "local-default", "local").unwrap();
    let (pinned, unread, archived, archived_at): (bool, bool, bool, Option<i64>) = c
        .connection()
        .query_row(
            "SELECT pinned, unread, archived, archived_at FROM sessions WHERE id = 's-flags'",
            [],
            |r| Ok((r.get(0)?, r.get(1)?, r.get(2)?, r.get(3)?)),
        )
        .unwrap();
    assert!(!pinned);
    assert!(!unread);
    assert!(!archived);
    assert_eq!(archived_at, None);
}

#[test]
fn set_session_flags_update_columns() {
    let mut c = mem();
    create_session(&mut c, "s-set", "x", "local-default", "local").unwrap();

    set_session_pinned(&mut c, "s-set", true).unwrap();
    set_session_unread(&mut c, "s-set", true).unwrap();
    let (p, u): (bool, bool) = c
        .connection()
        .query_row(
            "SELECT pinned, unread FROM sessions WHERE id = 's-set'",
            [],
            |r| Ok((r.get(0)?, r.get(1)?)),
        )
        .unwrap();
    assert!(p);
    assert!(u);

    set_session_archived(&mut c, "s-set", true).unwrap();
    let (a, at): (bool, Option<i64>) = c
        .connection()
        .query_row(
            "SELECT archived, archived_at FROM sessions WHERE id = 's-set'",
            [],
            |r| Ok((r.get(0)?, r.get(1)?)),
        )
        .unwrap();
    assert!(a);
    assert!(at.is_some());

    set_session_archived(&mut c, "s-set", false).unwrap();
    let (a2, at2): (bool, Option<i64>) = c
        .connection()
        .query_row(
            "SELECT archived, archived_at FROM sessions WHERE id = 's-set'",
            [],
            |r| Ok((r.get(0)?, r.get(1)?)),
        )
        .unwrap();
    assert!(!a2);
    assert_eq!(at2, None);
}

#[test]
fn set_sessions_archived_updates_chain_rows_together() {
    let mut c = mem();
    create_session(&mut c, "arch-root", "root", "local-default", "local").unwrap();
    create_session(&mut c, "arch-child", "child", "local-default", "local").unwrap();
    set_session_parent(&mut c, "arch-child", Some("arch-root")).unwrap();
    set_session_continued_to(&mut c, "arch-root", Some("arch-child")).unwrap();
    let ids = vec!["arch-root".to_string(), "arch-child".to_string()];

    set_sessions_archived(&mut c, &ids, true).unwrap();
    let archived_count: i64 = c
        .connection()
        .query_row(
            "SELECT COUNT(*) FROM sessions
             WHERE id IN ('arch-root','arch-child')
               AND archived = 1
               AND archived_at IS NOT NULL",
            [],
            |r| r.get(0),
        )
        .unwrap();
    assert_eq!(archived_count, 2);

    set_sessions_archived(&mut c, &ids, false).unwrap();
    let restored_count: i64 = c
        .connection()
        .query_row(
            "SELECT COUNT(*) FROM sessions
             WHERE id IN ('arch-root','arch-child')
               AND archived = 0
               AND archived_at IS NULL",
            [],
            |r| r.get(0),
        )
        .unwrap();
    assert_eq!(restored_count, 2);
}

#[test]
fn create_session_publishes_index_only_after_success() {
    let mut c = mem();
    published(&mut c);

    create_session(&mut c, "index-create", "Title", "local-default", "local").unwrap();
    assert_eq!(
        published(&mut c),
        vec!["session.index.created"]);

    assert!(create_session(&mut c, "index-create", "Duplicate", "local-default", "local").is_err());
    assert!(published(&mut c).is_empty());
}

#[test]
fn create_session_publishes_created_payload_with_repo_name() {
    let mut c = mem();
    c.take_published();

    create_session(
        &mut c,
        "index-create-repo-name",
        "Title",
        "local-default",
        "local",
    )
    .unwrap();

    let payloads = c.take_published();
    assert_eq!(payloads.len(), 1);
    assert_eq!(
        payloads[0],
        Milestone::SessionCreated {
            id: "index-create-repo-name".into(),
            title: "Title".into(),
            repo_id: "local-default".into(),
            namespace_id: "local".into(),
            repo_name: Some("我的项目".into()),
        });
}

#[test]
fn rename_session_publishes_index_only_for_existing_row() {
    let mut c = mem();
    create_session(&mut c, "index-rename", "Before", "local-default", "local").unwrap();
    published(&mut c);

    rename_session(&mut c, "index-rename", "After").unwrap();
    assert_eq!(
        published(&mut c),
        vec!["session.index.renamed"]);

    rename_session(&mut c, "missing-index-rename", "No row").unwrap();
    assert!(published(&mut c).is_empty());
}

#[test]
fn delete_session_publishes_index_only_for_existing_row() {
    let mut c = mem();
    create_session(&mut c, "index-delete", "Title", "local-default", "local").unwrap();
    published(&mut c);

    delete_session(&mut c, "index-delete").unwrap();
    assert_eq!(
        published(&mut c),
        vec!["session.index.deleted"]);

    delete_session(&mut c, "index-delete").unwrap();
    assert!(published(&mut c).is_empty());
}

#[test]
fn set_sessions_archived_publishes_one_filtered_batch() {
    let mut c = mem();
    create_session(&mut c, "index-archive-1", "One", "local-default", "local").unwrap();
    create_session(&mut c, "index-archive-2", "Two", "local-default", "local").unwrap();
    c.take_published();

    let ids = vec![
        "index-archive-1".to_owned(),
        "missing-index-archive".to_owned(),
        "index-archive-2".to_owned(),
    ];
    let present = vec!["index-archive-1".to_owned(), "index-archive-2".to_owned()];
    set_sessions_archived(&mut c, &ids, true).unwrap();
    let sent = c.take_published();
    assert_eq!(names(&sent), vec!["session.index.archived"]);
    assert_eq!(
        sent,
        vec![Milestone::SessionsArchived { ids: present.clone(), archived: true }]);

    set_sessions_archived(&mut c, &ids, false).unwrap();
    let sent = c.take_published();
    assert_eq!(names(&sent), vec!["session.index.unarchived"]);
    assert_eq!(
        sent,
        vec![Milestone::SessionsArchived { ids: present, archived: false }]);

    set_sessions_archived(&mut c, &["still-missing".to_owned()], true).unwrap();
    assert!(c.take_published().is_empty());
}

#[test]
fn repo_archive_helpers_publish_one_batch_of_matching_ids() {
    let mut c = mem();
    create_session(&mut c, "repo-index-1", "One", "local-default", "local").unwrap();
    create_session(&mut c, "repo-index-2", "Two", "local-default", "local").unwrap();
    create_session(&mut c, "repo-index-3", "Three", "local-default", "local").unwrap();
    c.connection().execute(
        "UPDATE sessions SET archived = 1, archived_at = 1 WHERE id = 'repo-index-2'",
        [],
    )
    .unwrap();
    c.take_published();

    assert_eq!(archive_sessions_for_repo(&mut c, "local-default").unwrap(), 2);
    let payloads = c.take_published();
    assert_eq!(names(&payloads), vec!["session.index.archived"]);
    assert_eq!(payloads.len(), 1);
    assert_eq!(archived_ids(&payloads[0]), vec!["repo-index-1", "repo-index-3"]);

    c.connection().execute(
        "UPDATE sessions SET archived = 0, archived_at = NULL WHERE id = 'repo-index-3'",
        [],
    )
    .unwrap();
    assert_eq!(unarchive_sessions_for_repo(&mut c, "local-default").unwrap(), 2);
    let payloads = c.take_published();
    assert_eq!(names(&payloads), vec!["session.index.unarchived"]);
    assert_eq!(payloads.len(), 1);
    assert_eq!(archived_ids(&payloads[0]), vec!["repo-index-1", "repo-index-2"]);

    assert_eq!(archive_sessions_for_repo(&mut c, "missing-repo").unwrap(), 0);
    assert_eq!(unarchive_sessions_for_repo(&mut c, "missing-repo").unwrap(), 0);
    assert!(c.take_published().is_empty());
}

fn archived_ids(milestone: &Milestone) -> Vec<String> {
    match milestone {
        Milestone::SessionsArchived { ids, .. } => {
            let mut ids = ids.clone();
            ids.sort_unstable();
            ids
        }
        other => panic!("another milestone: {other:?}"),
    }
}

#[test]
fn history_db_soft_deleted_session_returns_empty_page() {
    let mut c = mem();
    create_session(
        &mut c,
        "history-soft-deleted",
        "History",
        "local-default",
        "local",
    )
    .unwrap();
    append_message(
        &mut c,
        "history-soft-deleted",
        "assistant",
        &[Block::Text {
            text: "must stay hidden".into(),
        }],
        None,
        None,
        None, encode,
    )
    .unwrap();
    set_session_deleted(&mut c, "history-soft-deleted").unwrap();

    let rows = list_session_history_rows(&mut c, "history-soft-deleted", None, 10).unwrap();
    assert!(rows.is_empty());
}

#[test]
fn soft_delete_sets_tombstone_and_restore_clears_it() {
    let mut c = mem();
    c.connection().execute(
        "INSERT INTO sessions (id,title,repo_id,namespace_id,created_at) VALUES ('s-del','t','local-default','local',100)",
        [],
    )
    .unwrap();

    set_session_deleted(&mut c, "s-del").unwrap();
    let dat: Option<i64> = c
        .connection()
        .query_row(
            "SELECT deleted_at FROM sessions WHERE id='s-del'",
            [],
            |r| r.get(0),
        )
        .unwrap();
    assert!(dat.is_some());

    restore_session(&mut c, "s-del").unwrap();
    let dat2: Option<i64> = c
        .connection()
        .query_row(
            "SELECT deleted_at FROM sessions WHERE id='s-del'",
            [],
            |r| r.get(0),
        )
        .unwrap();
    assert_eq!(dat2, None);
}

#[test]
fn list_expired_trashed_sessions_returns_only_past_grace() {
    let mut c = mem();
    for (id, dat) in [("s-old", "100"), ("s-new", "9000"), ("s-live", "NULL")] {
        c.connection().execute(
            &format!(
                "INSERT INTO sessions (id,title,repo_id,namespace_id,created_at,deleted_at) VALUES ('{id}','t','local-default','local',1,{dat})"
            ),
            [],
        )
        .unwrap();
    }
    let expired = list_expired_trashed_sessions(&mut c, 1000).unwrap();
    assert_eq!(
        expired,
        vec!["s-old".to_string()]);
}

#[test]
fn purge_session_cascades_all_session_scoped_rows() {
    let mut c = mem();
    c.connection().execute(
        "INSERT INTO sessions (id,title,repo_id,namespace_id,created_at) VALUES ('s-p','t','local-default','local',1)",
        [],
    )
    .unwrap();
    c.connection().execute("INSERT INTO messages (session_id,role,content,created_at) VALUES ('s-p','user','[]',1)", []).unwrap();
    let message_id = c.connection().last_insert_rowid();
    c.connection().execute(
        "INSERT INTO member_report_delivery (session_id,message_id,assignment_id) VALUES ('s-p',?1,'a1')",
        [message_id],
    )
    .unwrap();
    c.connection().execute("INSERT INTO attachments (id,session_id,kind,sha256,rel_path,created_at) VALUES ('att-p','s-p','image','sha','p/a.png',1)", []).unwrap();
    c.connection().execute("INSERT INTO memory_blocks (session_id,slot,text,updated_at) VALUES ('s-p','persona','t',1)", []).unwrap();
    c.connection().execute("INSERT INTO memory_entries (session_id,category,text,created_at) VALUES ('s-p','decision','t',1)", []).unwrap();
    c.connection().execute("INSERT INTO run_commits (session_id,run_id,engine,pre_head,state,created_at) VALUES ('s-p','r1','clio','abc123','running',1)", []).unwrap();
    c.connection().execute("INSERT INTO run_commit_intents (session_id,run_id,expected_head,previous_state,created_at) VALUES ('s-p','r1','abc123','running',1)", []).unwrap();
    c.connection().execute("INSERT INTO checkpoint_entries (session_id,run_id,file_path,existed,created_at) VALUES ('s-p','r1','/tmp/file.txt',0,1)", []).unwrap();
    c.connection().execute("INSERT INTO team_run_pending (session_id,run_id,started_at,created_at) VALUES ('s-p','r1',1,1)", []).unwrap();
    c.connection().execute(
        "INSERT INTO decision_ledger (session_id,text,created_at) VALUES ('s-p','d',1)",
        [],
    )
    .unwrap();
    c.connection().execute(
        "INSERT INTO lead_loop_state (session_id,updated_at) VALUES ('s-p',1)",
        [],
    )
    .unwrap();
    c.connection().execute("INSERT INTO landing_commits (id,session_id,run_id,pre_head,landed_head,created_at) VALUES ('lc-p','s-p','r1','pre','land',1)", []).unwrap();
    c.connection().execute("INSERT INTO goal_contracts (id,session_id,run_id,goal,lead_participant_id,created_at) VALUES ('gc-p','s-p','r1','g','lead',1)", []).unwrap();
    c.connection().execute("INSERT INTO acceptance_criteria (id,session_id,run_id,task_id,claim,created_at) VALUES ('ac-p','s-p','r1','task1','claim',1)", []).unwrap();
    c.connection().execute("INSERT INTO artifacts (id,session_id,run_id,member_assignment_id,branch,base_sha,created_at) VALUES ('art-p','s-p','r1','a1','branch1','sha1',1)", []).unwrap();
    c.connection().execute(
        "INSERT INTO session_agent_configs (session_id) VALUES ('s-p')",
        [],
    )
    .unwrap();
    c.connection().execute(
        "INSERT INTO session_runtime (session_id,status,run_id,updated_at) VALUES ('s-p','running','r1',1)",
        [],
    )
    .unwrap();
    c.connection().execute(
        "INSERT INTO remote_inbox (session_id,command_id,kind,payload,created_at) \
         VALUES ('s-p','cmd-p','input.send','{}',1)",
        [],
    )
    .unwrap();
    c.connection().execute("INSERT INTO verifications (id,artifact_id,cmd,artifact_sha,created_at) VALUES ('v-p','art-p','cargo test','sha',1)", []).unwrap();
    c.connection().execute("INSERT INTO reviews (id,artifact_id,reviewer_agent,created_at) VALUES ('rv-p','art-p','codex',1)", []).unwrap();
    c.connection().execute("INSERT INTO merge_candidates (id,artifact_id,staging_branch,created_at) VALUES ('mc-p','art-p','agentloom/staging',1)", []).unwrap();

    c.connection().execute_batch("PRAGMA foreign_keys=OFF;").unwrap();

    delete_session(&mut c, "s-p").unwrap();

    let count = |sql: &str| -> i64 { c.connection().query_row(sql, [], |r| r.get(0)).unwrap() };
    for (label, sql) in [
        ("sessions", "SELECT COUNT(*) FROM sessions WHERE id='s-p'"),
        (
            "messages",
            "SELECT COUNT(*) FROM messages WHERE session_id='s-p'",
        ),
        (
            "member_report_delivery",
            "SELECT COUNT(*) FROM member_report_delivery WHERE session_id='s-p'",
        ),
        (
            "attachments",
            "SELECT COUNT(*) FROM attachments WHERE session_id='s-p'",
        ),
        (
            "memory_blocks",
            "SELECT COUNT(*) FROM memory_blocks WHERE session_id='s-p'",
        ),
        (
            "memory_entries",
            "SELECT COUNT(*) FROM memory_entries WHERE session_id='s-p'",
        ),
        (
            "run_commits",
            "SELECT COUNT(*) FROM run_commits WHERE session_id='s-p'",
        ),
        (
            "run_commit_intents",
            "SELECT COUNT(*) FROM run_commit_intents WHERE session_id='s-p'",
        ),
        (
            "checkpoint_entries",
            "SELECT COUNT(*) FROM checkpoint_entries WHERE session_id='s-p'",
        ),
        (
            "team_run_pending",
            "SELECT COUNT(*) FROM team_run_pending WHERE session_id='s-p'",
        ),
        (
            "decision_ledger",
            "SELECT COUNT(*) FROM decision_ledger WHERE session_id='s-p'",
        ),
        (
            "lead_loop_state",
            "SELECT COUNT(*) FROM lead_loop_state WHERE session_id='s-p'",
        ),
        (
            "landing_commits",
            "SELECT COUNT(*) FROM landing_commits WHERE session_id='s-p'",
        ),
        (
            "goal_contracts",
            "SELECT COUNT(*) FROM goal_contracts WHERE session_id='s-p'",
        ),
        (
            "acceptance_criteria",
            "SELECT COUNT(*) FROM acceptance_criteria WHERE session_id='s-p'",
        ),
        (
            "artifacts",
            "SELECT COUNT(*) FROM artifacts WHERE session_id='s-p'",
        ),
        (
            "session_agent_configs",
            "SELECT COUNT(*) FROM session_agent_configs WHERE session_id='s-p'",
        ),
        (
            "session_runtime",
            "SELECT COUNT(*) FROM session_runtime WHERE session_id='s-p'",
        ),
        (
            "remote_inbox",
            "SELECT COUNT(*) FROM remote_inbox WHERE session_id='s-p'",
        ),
        (
            "verifications",
            "SELECT COUNT(*) FROM verifications WHERE artifact_id='art-p'",
        ),
        (
            "reviews",
            "SELECT COUNT(*) FROM reviews WHERE artifact_id='art-p'",
        ),
        (
            "merge_candidates",
            "SELECT COUNT(*) FROM merge_candidates WHERE artifact_id='art-p'",
        ),
    ] {
        assert_eq!(count(sql), 0);
    }
}

#[test]
fn workspace_scope_migration_backfills_only_sessions_that_predate_the_column() {
    let mut c = mem();
    c.connection().execute_batch("ALTER TABLE sessions DROP COLUMN workspace_scope")
        .unwrap();

    create_session(&mut c, "s-legacy-local", "t", "local-default", "local").unwrap();
    c.connection().execute(
        "INSERT INTO namespaces (id, kind, name, is_builtin, added_at) VALUES ('ns-legacy-real', 'github_org', 'Real', 0, 0)",
        [],
    )
    .unwrap();
    c.connection().execute(
        "INSERT INTO repos (id, namespace_id, source, owner, name, path, status, added_at) VALUES ('repo-legacy-real', 'ns-legacy-real', 'github', 'owner', 'repo', '/tmp/legacy-real', 'active', 0)",
        [],
    )
    .unwrap();
    create_session(
        &mut c,
        "s-legacy-real",
        "t",
        "repo-legacy-real",
        "ns-legacy-real",
    )
    .unwrap();

    init_schema(&mut c).unwrap();

    let scope_of = |c: &Db, id: &str| -> Option<String> {
        c.connection().query_row(
            "SELECT workspace_scope FROM sessions WHERE id = ?1",
            [id],
            |r| r.get(0),
        )
        .unwrap()
    };
    assert_eq!(
        scope_of(&c, "s-legacy-local").as_deref(),
        Some("root"));
    assert_eq!(
        scope_of(&c, "s-legacy-real"),
        None);

    create_session(&mut c, "s-fresh-local", "t", "local-default", "local").unwrap();
    assert_eq!(
        scope_of(&c, "s-fresh-local"),
        None);

    init_schema(&mut c).unwrap();
    assert_eq!(
        scope_of(&c, "s-fresh-local"),
        None);
    assert_eq!(
        scope_of(&c, "s-legacy-local").as_deref(),
        Some("root"));
}

#[test]
fn session_usage_accumulates() {
    let mut c = mem();
    create_session(&mut c, "s1", "x", "local-default", "local").unwrap();

    add_session_usage(&mut c, "s1", Some(100), Some(50)).unwrap();
    add_session_usage(&mut c, "s1", Some(10), None).unwrap();

    let totals: (i64, i64) = c
        .connection()
        .query_row(
            "SELECT total_input_tokens, total_output_tokens FROM sessions WHERE id = 's1'",
            [],
            |r| Ok((r.get(0)?, r.get(1)?)),
        )
        .unwrap();
    assert_eq!(totals, (110, 50));
}

#[test]
fn session_usage_none_as_zero() {
    let mut c = mem();
    create_session(&mut c, "s1", "x", "local-default", "local").unwrap();
    c.connection().execute(
        "UPDATE sessions SET total_input_tokens = 17, total_output_tokens = 29 WHERE id = 's1'",
        [],
    )
    .unwrap();

    add_session_usage(&mut c, "s1", None, None).unwrap();
    add_session_usage(&mut c, "missing", Some(3), Some(5)).unwrap();

    let totals: (i64, i64) = c
        .connection()
        .query_row(
            "SELECT total_input_tokens, total_output_tokens FROM sessions WHERE id = 's1'",
            [],
            |r| Ok((r.get(0)?, r.get(1)?)),
        )
        .unwrap();
    assert_eq!(totals, (17, 29));
}

#[test]
fn get_session_repo_id_returns_default_when_created() {
    let mut c = mem();
    create_session(&mut c, "s1", "x", "local-default", "local").unwrap();
    assert_eq!(
        get_session_repo_id(&mut c, "s1").unwrap(),
        Some("local-default".into()));
}

#[test]
fn get_session_repo_id_returns_some_when_set() {
    let mut c = mem();
    create_session(&mut c, "s1", "x", "local-default", "local").unwrap();
    c.connection().execute(
        "INSERT INTO repos (id, source, name, path, status, added_at) VALUES ('r1', 'local', 'demo', '/tmp/demo', 'active', strftime('%s','now'))",
        [],
    )
    .unwrap();
    c.connection().execute("UPDATE sessions SET repo_id = 'r1' WHERE id = 's1'", [])
        .unwrap();
    assert_eq!(get_session_repo_id(&mut c, "s1").unwrap(), Some("r1".into()));
}

#[test]
fn run_commits_unique_session_run_id() {
    let mut c = mem();
    create_session(&mut c, "s1", "x", "local-default", "local").unwrap();
    c.connection().execute(
        "INSERT INTO run_commits (session_id, run_id, engine, pre_head, state, created_at) \
         VALUES ('s1', 'r1', 'clio', 'abc', 'running', 0)",
        [],
    )
    .unwrap();
    let dup = c.connection().execute(
        "INSERT INTO run_commits (session_id, run_id, engine, pre_head, state, created_at) \
         VALUES ('s1', 'r1', 'clio', 'def', 'running', 0)",
        [],
    );
    assert!(dup.is_err());
}

#[test]
fn git_state_set_and_get() {
    let mut c = mem();
    create_session(&mut c, "s1", "x", "local-default", "local").unwrap();
    assert_eq!(get_git_state(&mut c, "s1").unwrap(), "clean");
    set_git_state(&mut c, "s1", "running").unwrap();
    assert_eq!(get_git_state(&mut c, "s1").unwrap(), "running");
    set_git_state(&mut c, "s1", "commit_failed").unwrap();
    assert_eq!(get_git_state(&mut c, "s1").unwrap(), "commit_failed");
    assert_eq!(get_git_state(&mut c, "nope").unwrap(), "clean");
}

#[test]
fn append_message_null_dedup_key_path_unaffected_by_index() {
    let mut c = mem();
    create_session(&mut c, "s1", "x", "local-default", "local").unwrap();
    for _ in 0..3 {
        append_message(
            &mut c,
            "s1",
            "assistant",
            &[Block::Text { text: "hi".into() }],
            Some("clio"),
            None,
            None, encode,
        )
        .unwrap();
    }
    let count: i64 = c
        .connection()
        .query_row(
            "SELECT count(*) FROM messages WHERE session_id = 's1'",
            [],
            |r| r.get(0),
        )
        .unwrap();
    assert_eq!(count, 3);
}

#[test]
fn the_live_children_of_a_session_are_known() {
    let mut c = mem();
    create_session(&mut c, "p", "p", "local-default", "local").unwrap();
    create_session(&mut c, "k", "k", "local-default", "local").unwrap();
    assert!(!session_has_live_children(&mut c, "p").unwrap());
    set_session_parent(&mut c, "k", Some("p")).unwrap();
    assert!(session_has_live_children(&mut c, "p").unwrap());
    set_session_deleted(&mut c, "k").unwrap();
    assert!(!session_has_live_children(&mut c, "p").unwrap());
}

#[test]
fn a_session_can_be_restored_to_a_parent_that_waits_for_it() {
    let mut c = mem();
    create_continuation_lineage(&mut c, "p", "k");
    set_session_deleted(&mut c, "k").unwrap();
    preflight_restore_session(&mut c, "k").unwrap();
    set_session_deleted(&mut c, "p").unwrap();
    let err = preflight_restore_session(&mut c, "k").unwrap_err();
    assert_eq!(err, DbError::Constraint("AL_ERR:db.restore.parentDeleted".into()));
    assert_eq!(err.message(), "AL_ERR:db.restore.parentDeleted");
}

#[test]
fn a_parent_that_points_elsewhere_keeps_a_session_out() {
    let parent = Some((None, Some("other".to_string())));
    assert_eq!(
        find_parent_problem("k", &parent).as_deref(),
        Some("AL_ERR:db.restore.parentPointsElsewhere")
    );
    assert_eq!(find_parent_problem("other", &parent), None);
    assert_eq!(
        find_parent_problem("k", &None).as_deref(),
        Some("AL_ERR:db.restore.parentMissing")
    );
    assert_eq!(
        find_parent_problem("k", &Some((Some(1), None))).as_deref(),
        Some("AL_ERR:db.restore.parentDeleted")
    );
}

#[test]
fn the_scope_and_the_namespace_of_a_session_are_read_back() {
    let mut c = mem();
    create_session(&mut c, "s1", "s1", "local-default", "local").unwrap();
    assert_eq!(get_session_workspace_scope(&mut c, "s1").unwrap(), None);
    set_session_workspace_scope(&mut c, "s1", Some("root")).unwrap();
    assert_eq!(get_session_workspace_scope(&mut c, "s1").unwrap().as_deref(), Some("root"));
    assert_eq!(get_session_namespace_id(&mut c, "s1").unwrap().as_deref(), Some("local"));
    assert_eq!(get_session_namespace_id(&mut c, "absent").unwrap(), None);
}

#[test]
fn a_chain_follows_the_pointer_and_then_the_only_child() {
    let list = |ids: &[&str]| ids.iter().map(|s| s.to_string()).collect::<Vec<_>>();
    assert_eq!(choose_child(None, list(&[])), Ok(None));
    assert_eq!(choose_child(None, list(&["k"])), Ok(Some("k".into())));
    assert!(choose_child(None, list(&["k", "l"])).is_err());
}

#[test]
fn a_deletion_that_fails_is_not_announced() {
    let mut c = mem();
    create_session(&mut c, "s1", "s1", "local-default", "local").unwrap();
    published(&mut c);
    c.connection().execute_batch("DROP TABLE remote_inbox").unwrap();
    assert!(delete_session(&mut c, "s1").is_err());
    assert!(published(&mut c).is_empty());
    assert!(c.connection().is_autocommit());
    assert_eq!(get_session_repo_id(&mut c, "s1").unwrap().as_deref(), Some("local-default"));
}

fn standings(c: &Db) -> Vec<(String, Option<i64>, Option<String>, Option<String>)> {
    c.connection()
        .prepare("SELECT id, deleted_at, parent_session_id, continued_to_session_id FROM sessions ORDER BY id")
        .unwrap()
        .query_map([], |r| Ok((r.get(0)?, r.get(1)?, r.get(2)?, r.get(3)?)))
        .unwrap()
        .collect::<Result<_, _>>()
        .unwrap()
}

#[test]
fn a_session_that_stands_alone_is_restored_as_it_stood() {
    let mut c = mem();
    create_continuation_lineage(&mut c, "parent", "child");
    let before = standings(&c);
    set_session_deleted(&mut c, "child").unwrap();
    assert_ne!(standings(&c), before);
    restore_session(&mut c, "child").unwrap();
    assert_eq!(standings(&c), before);
}
