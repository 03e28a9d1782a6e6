use agentloom_db::contracts::{
    AcceptanceCriterion,
    GoalContract,
    freeze_team_contract,
    get_goal_contract_by_run,
    goal_title_for_run,
    insert_acceptance,
    insert_acceptance_if_absent,
    insert_goal_contract,
    insert_goal_contract_if_absent,
    list_acceptance_by_run,
    set_goal_title_for_run,
    update_acceptance_waiver,
};
use agentloom_db::engine::Db;
use agentloom_db::schema::init_schema;

fn open() -> Db {
    Db::new(rusqlite::Connection::open_in_memory().unwrap())
}

fn mem() -> Db {
    let mut c = open();
    init_schema(&mut c).unwrap();
    c.connection()
        .execute(
            "INSERT OR IGNORE INTO namespaces (id, kind, name, is_builtin, added_at) VALUES ('local', 'local', 'Local', 1, 0)",
            [],
        )
        .unwrap();
    c.connection()
        .execute(
            "INSERT OR IGNORE INTO repos (id, namespace_id, source, name, path, status, added_at) VALUES ('local-default', 'local', 'local', '我的项目', '/tmp/agentloom-mem-local-default', 'active', 0)",
            [],
        )
        .unwrap();
    c
}

fn bare() -> Db {
    let mut c = open();
    init_schema(&mut c).unwrap();
    c
}

#[test]
fn goal_contract_and_acceptance_round_trip() {
    let mut c = open();
    init_schema(&mut c).unwrap();
    init_schema(&mut c).unwrap();

    let gc = GoalContract {
        id: "gc1".into(),
        session_id: "s1".into(),
        run_id: "r1".into(),
        goal: "实现 stage 2 心情记录".into(),
        lead_participant_id: "lead".into(),
        status: "frozen".into(),
        assignments_json: "[]".into(),
        created_at: 100,
    };
    insert_goal_contract(&mut c, &gc).unwrap();
    assert_eq!(get_goal_contract_by_run(&mut c, "s1", "r1").unwrap(), Some(gc));
    assert!(get_goal_contract_by_run(&mut c, "s1", "other")
        .unwrap()
        .is_none());

    let crit = AcceptanceCriterion {
        id: "ac1".into(),
        session_id: "s1".into(),
        run_id: "r1".into(),
        task_id: "t1".into(),
        contract_id: Some("gc1".into()),
        scope: "task".into(),
        claim: "mood-record 测试通过".into(),
        verifier: Some("npm test mood-record".into()),
        evidence: None,
        status: "pending".into(),
        waiver: None,
        created_at: 100,
    };
    insert_acceptance(&mut c, &crit).unwrap();
    assert_eq!(list_acceptance_by_run(&mut c, "s1", "r1").unwrap(), vec![crit]);
    assert!(list_acceptance_by_run(&mut c, "s1", "other")
        .unwrap()
        .is_empty());
}

#[test]
fn goal_contract_roundtrips_assignments_json() {
    let mut c = mem();
    let g = GoalContract {
        id: "r1-gc".into(),
        session_id: "s1".into(),
        run_id: "r1".into(),
        goal: "建登录".into(),
        lead_participant_id: "lead".into(),
        status: "draft".into(),
        assignments_json: r#"[{"subtask_id":"s1"}]"#.into(),
        created_at: 100,
    };
    insert_goal_contract(&mut c, &g).unwrap();
    let got = get_goal_contract_by_run(&mut c, "s1", "r1").unwrap().unwrap();
    assert_eq!(got.status, "draft");
    assert_eq!(got.assignments_json, r#"[{"subtask_id":"s1"}]"#);
    assert_eq!(got.created_at, 100);
}

#[test]
fn freeze_team_contract_flips_status_and_replaces_criteria() {
    let mut conn = mem();
    insert_goal_contract(
        &mut conn,
        &GoalContract {
            id: "r1-gc".into(),
            session_id: "s1".into(),
            run_id: "r1".into(),
            goal: "旧目标".into(),
            lead_participant_id: "lead".into(),
            status: "draft".into(),
            assignments_json: "[]".into(),
            created_at: 100,
        },
    )
    .unwrap();
    for (i, claim) in ["旧验收A", "旧验收B"].iter().enumerate() {
        insert_acceptance(
            &mut conn,
            &AcceptanceCriterion {
                id: format!("r1-c{i}"),
                session_id: "s1".into(),
                run_id: "r1".into(),
                task_id: "t1".into(),
                contract_id: Some("r1-gc".into()),
                scope: "task".into(),
                claim: (*claim).into(),
                verifier: None,
                evidence: None,
                status: "pending".into(),
                waiver: None,
                created_at: 100 + i as i64,
            },
        )
        .unwrap();
    }

    let edited = vec![AcceptanceCriterion {
        id: "r1-cNEW".into(),
        session_id: "s1".into(),
        run_id: "r1".into(),
        task_id: "t1".into(),
        contract_id: Some("r1-gc".into()),
        scope: "task".into(),
        claim: "新验收·用户改过".into(),
        verifier: Some("npm test".into()),
        evidence: None,
        status: "pending".into(),
        waiver: None,
        created_at: 200,
    }];
    freeze_team_contract(
        &mut conn,
        "s1",
        "r1",
        "新目标·用户改过",
        "[{\"subtask_id\":\"t1\"}]",
        &edited,
    )
    .unwrap();

    let gc = get_goal_contract_by_run(&mut conn, "s1", "r1")
        .unwrap()
        .unwrap();
    assert_eq!(gc.status, "frozen");
    assert_eq!(gc.goal, "新目标·用户改过");
    assert_eq!(gc.assignments_json, "[{\"subtask_id\":\"t1\"}]");
    let cs = list_acceptance_by_run(&mut conn, "s1", "r1").unwrap();
    assert_eq!(cs.len(), 1);
    assert_eq!(cs[0].claim, "新验收·用户改过");
    assert_eq!(cs[0].verifier.as_deref(), Some("npm test"));
    assert_eq!(cs[0].status, "pending");
}

#[test]
fn freeze_team_contract_rejects_non_draft() {
    let mut conn = mem();
    insert_goal_contract(
        &mut conn,
        &GoalContract {
            id: "r2-gc".into(),
            session_id: "s2".into(),
            run_id: "r2".into(),
            goal: "g".into(),
            lead_participant_id: "lead".into(),
            status: "draft".into(),
            assignments_json: "[]".into(),
            created_at: 1,
        },
    )
    .unwrap();
    freeze_team_contract(&mut conn, "s2", "r2", "g2", "[]", &[]).unwrap();
    assert!(freeze_team_contract(&mut conn, "s2", "r2", "g3", "[]", &[]).is_err());
    assert!(freeze_team_contract(&mut conn, "sX", "rX", "g", "[]", &[]).is_err());
    let gc = get_goal_contract_by_run(&mut conn, "s2", "r2")
        .unwrap()
        .unwrap();
    assert_eq!(gc.goal, "g2");
}

#[test]
fn insert_goal_contract_if_absent_is_idempotent_on_conflict() {
    let mut conn = mem();
    let g = GoalContract {
        id: "x-gc".into(),
        session_id: "s1".into(),
        run_id: "x1".into(),
        goal: "g".into(),
        lead_participant_id: "lead".into(),
        status: "draft".into(),
        assignments_json: "[]".into(),
        created_at: 1,
    };
    insert_goal_contract_if_absent(&mut conn, &g).unwrap();
    insert_goal_contract_if_absent(&mut conn, &g).unwrap();
    let gc = get_goal_contract_by_run(&mut conn, "s1", "x1")
        .unwrap()
        .unwrap();
    assert_eq!(gc.goal, "g");
}

#[test]
fn migration_adds_goal_title_to_old_goal_contracts() {
    let mut c = open();
    c.connection().execute(
        "CREATE TABLE goal_contracts (
            id TEXT PRIMARY KEY, session_id TEXT NOT NULL, run_id TEXT NOT NULL UNIQUE,
            goal TEXT NOT NULL, lead_participant_id TEXT NOT NULL,
            status TEXT NOT NULL DEFAULT 'draft',
            assignments_json TEXT NOT NULL DEFAULT '[]', created_at INTEGER NOT NULL )",
        [],
    )
    .unwrap();
    c.connection().execute(
        "INSERT INTO goal_contracts (id, session_id, run_id, goal, lead_participant_id, status, assignments_json, created_at)
         VALUES ('gc-old', 's1', 'r1', 'old goal', 'lead', 'frozen', '[]', 1)",
        [],
    )
    .unwrap();
    init_schema(&mut c).unwrap();
    let cols: Vec<String> = c
        .connection()
        .prepare("PRAGMA table_info(goal_contracts)")
        .unwrap()
        .query_map([], |r| r.get::<_, String>(1))
        .unwrap()
        .filter_map(Result::ok)
        .collect();
    assert!(
        cols.iter().any(|n| n == "goal_title"));
    assert_eq!(goal_title_for_run(&mut c, "s1", "r1").unwrap(), None);
    set_goal_title_for_run(&mut c, "s1", "r1", Some("迁移后短标题")).unwrap();
    assert_eq!(
        goal_title_for_run(&mut c, "s1", "r1").unwrap(),
        Some("迁移后短标题".to_string()));
    init_schema(&mut c).unwrap();
    assert_eq!(
        goal_title_for_run(&mut c, "s1", "r1").unwrap(),
        Some("迁移后短标题".to_string()));
}

#[test]
fn goal_title_roundtrips_via_setter() {
    let mut c = mem();
    insert_goal_contract(
        &mut c,
        &GoalContract {
            id: "gc-gt1".into(),
            session_id: "s1".into(),
            run_id: "r1".into(),
            goal: "do something".into(),
            lead_participant_id: "lead".into(),
            status: "draft".into(),
            assignments_json: "[]".into(),
            created_at: 1,
        },
    )
    .unwrap();
    assert_eq!(goal_title_for_run(&mut c, "s1", "r1").unwrap(), None);
    set_goal_title_for_run(&mut c, "s1", "r1", Some("create 10 cold joke files")).unwrap();
    assert_eq!(
        goal_title_for_run(&mut c, "s1", "r1").unwrap(),
        Some("create 10 cold joke files".to_string()));
}

#[test]
fn goal_title_for_run_absent_row_is_none() {
    let mut c = mem();
    assert_eq!(goal_title_for_run(&mut c, "s1", "no-such-run").unwrap(), None);
}

#[test]
fn goal_title_for_run_null_is_none() {
    let mut c = mem();
    insert_goal_contract(
        &mut c,
        &GoalContract {
            id: "gc-gt2".into(),
            session_id: "s1".into(),
            run_id: "r1".into(),
            goal: "do something".into(),
            lead_participant_id: "lead".into(),
            status: "draft".into(),
            assignments_json: "[]".into(),
            created_at: 1,
        },
    )
    .unwrap();
    assert_eq!(goal_title_for_run(&mut c, "s1", "r1").unwrap(), None);
}

#[test]
fn update_acceptance_waiver_sets_waived_and_reason() {
    let mut c = mem();
    insert_acceptance(
        &mut c,
        &AcceptanceCriterion {
            id: "c1".into(),
            session_id: "s1".into(),
            run_id: "r1".into(),
            task_id: "t1".into(),
            contract_id: None,
            scope: "task".into(),
            claim: "e2e".into(),
            verifier: None,
            evidence: None,
            status: "pending".into(),
            waiver: None,
            created_at: 1,
        },
    )
    .unwrap();
    update_acceptance_waiver(&mut c, "s1", "r1", "c1", "本期不要了").unwrap();
    let rows = list_acceptance_by_run(&mut c, "s1", "r1").unwrap();
    assert_eq!(rows[0].status, "waived");
    assert_eq!(rows[0].waiver.as_deref(), Some("本期不要了"));
}

#[test]
fn acceptance_and_contract_check_reject_bad_values() {
    let mut c = open();
    init_schema(&mut c).unwrap();
    let bad_status = AcceptanceCriterion {
        id: "ac2".into(),
        session_id: "s1".into(),
        run_id: "r1".into(),
        task_id: "t1".into(),
        contract_id: None,
        scope: "task".into(),
        claim: "x".into(),
        verifier: None,
        evidence: None,
        status: "bogus".into(),
        waiver: None,
        created_at: 1,
    };
    assert!(insert_acceptance(&mut c, &bad_status).is_err());
    let bad_scope = AcceptanceCriterion {
        id: "ac3".into(),
        session_id: "s1".into(),
        run_id: "r1".into(),
        task_id: "t1".into(),
        contract_id: None,
        scope: "galaxy".into(),
        claim: "x".into(),
        verifier: None,
        evidence: None,
        status: "pending".into(),
        waiver: None,
        created_at: 1,
    };
    assert!(insert_acceptance(&mut c, &bad_scope).is_err());
    let bad_contract = GoalContract {
        id: "gc2".into(),
        session_id: "s1".into(),
        run_id: "r2".into(),
        goal: "g".into(),
        lead_participant_id: "l".into(),
        status: "running".into(),
        assignments_json: "[]".into(),
        created_at: 1,
    };
    assert!(insert_goal_contract(&mut c, &bad_contract).is_err());
}

#[test]
fn a_criterion_that_is_there_stays_as_it_is() {
    let mut c = bare();
    let criterion = |claim: &str| AcceptanceCriterion {
        id: "ac1".into(),
        session_id: "s1".into(),
        run_id: "r1".into(),
        task_id: "t1".into(),
        contract_id: None,
        scope: "task".into(),
        claim: claim.into(),
        verifier: None,
        evidence: None,
        status: "pending".into(),
        waiver: None,
        created_at: 1,
    };
    insert_acceptance_if_absent(&mut c, &criterion("first")).unwrap();
    insert_acceptance_if_absent(&mut c, &criterion("second")).unwrap();
    let all = list_acceptance_by_run(&mut c, "s1", "r1").unwrap();
    assert_eq!(all, vec![criterion("first")]);
}
