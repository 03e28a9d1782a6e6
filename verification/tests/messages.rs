use agentloom_db::anchors::{Anchor, memory_read_source, memory_read_source_json};
use agentloom_db::blocks::{
    Block,
    BlockCardKind,
    BlockToolStatus,
    ChangedFile,
    MemberResult,
    MemberSnapshot,
    ResultAnchor,
    RiskInputs,
    block_source_text,
    blocks_to_text,
};
use agentloom_db::cards::{
    Decided,
    decide_content,
    find_decision_card,
    read_card,
    settle_content,
    update_decision_card_status,
    update_dispatch_card_terminal,
};
use agentloom_db::engine::Db;
use agentloom_db::events::Milestone;
use agentloom_db::index::list_recent_milestone_replay_rows;
use agentloom_db::json::{integer, Json};
use agentloom_db::messages::{
    append_message,
    append_message_dedup,
    append_message_dedup_and_publish,
    changed_paths,
    get_message_by_id,
    get_message_by_session_and_dedup_key,
    get_messages,
    mark_member_reports_delivered,
    member_changed_paths_from_messages,
    pending_member_report_message_ids,
    persist_member_report_atomic,
};
use agentloom_db::schema::init_schema;
use agentloom_db::sessions::{create_session, delete_session};
use serde_json::Value;

fn open() -> Db {
    Db::new(rusqlite::Connection::open_in_memory().unwrap())
}

fn mem() -> Db {
    let mut c = open();
    init_schema(&mut c).unwrap();
    c.connection()
        .execute(
            "INSERT OR IGNORE INTO namespaces (id, kind, name, is_builtin, added_at) VALUES ('local', 'local', 'Local', 1, 0)",
            [],
        )
        .unwrap();
    c.connection()
        .execute(
            "INSERT OR IGNORE INTO repos (id, namespace_id, source, name, path, status, added_at) VALUES ('local-default', 'local', 'local', '我的项目', '/tmp/agentloom-mem-local-default', 'active', 0)",
            [],
        )
        .unwrap();
    c
}

fn names(milestones: &[Milestone]) -> Vec<&'static str> {
    milestones
        .iter()
        .map(|m| match m {
            Milestone::RunStatus { .. } => "run.status",
            Milestone::SessionCreated { .. } => "session.index.created",
            Milestone::SessionRenamed { .. } => "session.index.renamed",
            Milestone::SessionDeleted { .. } => "session.index.deleted",
            Milestone::SessionsArchived { archived: true, .. } => "session.index.archived",
            Milestone::SessionsArchived { archived: false, .. } => "session.index.unarchived",
            Milestone::MessageCompleted { .. } => "msg.completed",
            Milestone::CardResolved { .. } => "card.resolved",
        })
        .collect()
}

fn published(db: &mut Db) -> Vec<&'static str> {
    names(&db.take_published())
}

fn json(text: &str) -> serde_json::Value {
    serde_json::from_str(text).unwrap()
}

fn encode(blocks: &[Block]) -> String {
    write_blocks(blocks).to_string()
}

fn object(kind: Option<&str>, members: Vec<(&str, Value)>) -> Value {
    let mut object = serde_json::Map::new();
    if let Some(kind) = kind {
        object.insert("type".into(), kind.into());
    }
    for (name, value) in members {
        object.insert(name.into(), value);
    }
    Value::Object(object)
}

fn strings(list: &[String]) -> Value {
    Value::Array(list.iter().map(|s| s.as_str().into()).collect())
}

fn write_json(json: &Json) -> Value {
    match json {
        Json::Null => Value::Null,
        Json::Bool(b) => (*b).into(),
        Json::Number(n) => Value::Number(n.clone()),
        Json::Text(text) => text.as_str().into(),
        Json::Array(items) => Value::Array(items.iter().map(write_json).collect()),
        Json::Object(members) => {
            object(None, members.iter().map(|(name, v)| (name.as_str(), write_json(v))).collect())
        }
    }
}

fn write_blocks(blocks: &[Block]) -> Value {
    Value::Array(blocks.iter().map(write_block).collect())
}

fn write_member(m: &MemberSnapshot) -> Value {
    object(
        None,
        vec![
            ("participant_id", m.participant_id.as_str().into()),
            ("assignment_id", m.assignment_id.as_str().into()),
            ("task_id", m.task_id.as_str().into()),
            ("name", m.name.as_str().into()),
            ("started_at", m.started_at.into()),
            ("status", m.status.as_str().into()),
            ("sub", m.sub.as_str().into()),
            ("steps_total", m.steps_total.into()),
            ("steps_done", m.steps_done.into()),
            ("cost_usd", m.cost_usd_bits.map(f64::from_bits).into()),
            ("input_tokens", m.input_tokens.into()),
            ("output_tokens", m.output_tokens.into()),
            ("failed", m.failed.into()),
            ("blocks", write_blocks(&m.blocks)),
            ("result", m.result.as_ref().map(write_result).into()),
        ],
    )
}

fn write_result(r: &MemberResult) -> Value {
    let changed_files = r.changed_files.iter().map(|f| {
        object(
            None,
            vec![
                ("path", f.path.as_str().into()),
                ("insertions", f.insertions.into()),
                ("deletions", f.deletions.into()),
            ],
        )
    });
    let anchor = vec![
        ("base_sha", r.anchor.base_sha.as_str().into()),
        ("head_sha", r.anchor.head_sha.as_deref().into()),
        ("diff_ref", r.anchor.diff_ref.as_deref().into()),
        ("generated_from", r.anchor.generated_from.as_str().into()),
    ];
    let risk_inputs = vec![
        ("files_changed", r.risk_inputs.files_changed.into()),
        ("cmd_danger", r.risk_inputs.cmd_danger.as_str().into()),
        ("reversibility", r.risk_inputs.reversibility.as_str().into()),
    ];
    object(
        None,
        vec![
            ("schema_version", r.schema_version.into()),
            ("assignment_id", r.assignment_id.as_str().into()),
            ("participant_id", r.participant_id.as_str().into()),
            ("status", r.status.as_str().into()),
            ("failure_reason", r.failure_reason.as_deref().into()),
            ("changed_files", Value::Array(changed_files.collect())),
            ("anchor", object(None, anchor)),
            ("command_evidence", strings(&r.command_evidence)),
            ("risk_inputs", object(None, risk_inputs)),
            ("decisions", strings(&r.decisions)),
            ("risks", strings(&r.risks)),
            ("final_text_ref", r.final_text_ref.as_deref().into()),
            ("artifact_refs", strings(&r.artifact_refs)),
            ("result_source", r.result_source.as_str().into()),
            ("requires_long_task", r.requires_long_task.into()),
            ("exit_code", r.exit_code.into()),
            ("stderr_tail", r.stderr_tail.as_deref().into()),
            ("failure_kind", r.failure_kind.as_deref().into()),
        ],
    )
}

fn write_block(block: &Block) -> Value {
    match block {
        Block::Text { text } => object(Some("text"), vec![("text", text.as_str().into())]),
        Block::Thinking { text } => object(Some("thinking"), vec![("text", text.as_str().into())]),
        Block::Image { attachment_id, media_type } => object(
            Some("image"),
            vec![
                ("attachment_id", attachment_id.as_str().into()),
                ("media_type", media_type.as_str().into()),
            ],
        ),
        Block::Tool { id, tool, summary, card, status, exit_code, output } => object(
            Some("tool"),
            vec![
                ("id", id.as_str().into()),
                ("tool", tool.as_str().into()),
                ("summary", summary.as_str().into()),
                (
                    "card",
                    match card {
                        BlockCardKind::Command => "command".into(),
                        BlockCardKind::Compact => "compact".into(),
                    },
                ),
                (
                    "status",
                    match status {
                        BlockToolStatus::Running => "running".into(),
                        BlockToolStatus::Succeeded => "ok".into(),
                        BlockToolStatus::Failed => "failed".into(),
                        BlockToolStatus::Interrupted => "interrupted".into(),
                    },
                ),
                ("exit_code", (*exit_code).into()),
                ("output", output.as_deref().into()),
            ],
        ),
        Block::RunCard { run_id, commit_sha, files_changed, insertions, deletions, interrupted } => {
            object(
                Some("run_card"),
                vec![
                    ("run_id", run_id.as_str().into()),
                    ("commit_sha", commit_sha.as_deref().into()),
                    ("files_changed", (*files_changed).into()),
                    ("insertions", (*insertions).into()),
                    ("deletions", (*deletions).into()),
                    ("interrupted", (*interrupted).into()),
                ],
            )
        }
        Block::TeamRun { run_id, goal: None, lead, members } => object(
            Some("team_run"),
            vec![
                ("run_id", run_id.as_str().into()),
                ("lead", lead.as_deref().into()),
                ("members", Value::Array(members.iter().map(write_member).collect())),
            ],
        ),
        Block::DispatchCard { run_id, member } => object(
            Some("dispatch_card"),
            vec![("run_id", run_id.as_str().into()), ("member", write_member(member))],
        ),
        Block::DecisionCard {
            decision_id,
            kind,
            question,
            options,
            recommended,
            rationale,
            payload,
            source_run_id,
            status,
            chosen_option,
            created_at,
        } => object(
            Some("decision_card"),
            vec![
                ("decision_id", decision_id.as_str().into()),
                ("kind", kind.as_str().into()),
                ("question", question.as_str().into()),
                ("options", strings(options)),
                ("recommended", recommended.as_deref().into()),
                ("rationale", rationale.as_deref().into()),
                ("payload", write_json(payload)),
                ("source_run_id", source_run_id.as_str().into()),
                ("status", status.as_str().into()),
                ("chosen_option", chosen_option.as_deref().into()),
                ("created_at", (*created_at).into()),
            ],
        ),
        Block::CodingTask {
            run_id,
            assignment_id,
            worker_name,
            phase,
            step_done,
            step_total,
            artifact_id,
            verify_cmd,
            detail,
            lead_rationale,
        } => object(
            Some("coding_task"),
            vec![
                ("run_id", run_id.as_str().into()),
                ("assignment_id", assignment_id.as_str().into()),
                ("worker_name", worker_name.as_str().into()),
                ("phase", phase.as_str().into()),
                ("step_done", (*step_done).into()),
                ("step_total", (*step_total).into()),
                ("artifact_id", artifact_id.as_deref().into()),
                ("verify_cmd", verify_cmd.as_deref().into()),
                ("detail", detail.as_deref().into()),
                ("lead_rationale", lead_rationale.as_deref().into()),
            ],
        ),
        Block::ContextTruncated {} => object(Some("context_truncated"), vec![]),
        other => panic!("a block that these tests do not store: {other:?}"),
    }
}

fn decode(text: &str) -> Option<Vec<Block>> {
    read_blocks(&serde_json::from_str(text).ok()?)
}

fn string_of(v: &Value, name: &str) -> Option<String> {
    Some(v.get(name)?.as_str()?.to_string())
}

fn opt_string_of(v: &Value, name: &str) -> Option<String> {
    v.get(name).and_then(|t| t.as_str()).map(|t| t.to_string())
}

fn int_of(v: &Value, name: &str) -> Option<i64> {
    v.get(name)?.as_i64()
}

fn count_of(v: &Value, name: &str) -> Option<u64> {
    v.get(name)?.as_u64()
}

fn texts_of(v: &Value, name: &str) -> Option<Vec<String>> {
    v.get(name)?.as_array()?.iter().map(|t| Some(t.as_str()?.to_string())).collect()
}

fn read_json(v: &Value) -> Json {
    match v {
        Value::Null => Json::Null,
        Value::Bool(b) => Json::Bool(*b),
        Value::Number(n) => Json::Number(n.clone()),
        Value::String(text) => Json::Text(text.clone()),
        Value::Array(items) => Json::Array(items.iter().map(read_json).collect()),
        Value::Object(members) => {
            Json::Object(members.iter().map(|(name, v)| (name.clone(), read_json(v))).collect())
        }
    }
}

fn read_blocks(v: &Value) -> Option<Vec<Block>> {
    v.as_array()?.iter().map(read_block).collect()
}

fn read_member(v: &Value) -> Option<MemberSnapshot> {
    let result = v.get("result")?;
    Some(MemberSnapshot {
        participant_id: string_of(v, "participant_id")?,
        assignment_id: string_of(v, "assignment_id")?,
        task_id: string_of(v, "task_id")?,
        name: string_of(v, "name")?,
        started_at: int_of(v, "started_at"),
        status: string_of(v, "status")?,
        sub: string_of(v, "sub")?,
        steps_total: int_of(v, "steps_total")?,
        steps_done: int_of(v, "steps_done")?,
        cost_usd_bits: v.get("cost_usd").and_then(|c| c.as_f64()).map(f64::to_bits),
        input_tokens: int_of(v, "input_tokens")?,
        output_tokens: int_of(v, "output_tokens")?,
        failed: v.get("failed")?.as_bool()?,
        blocks: read_blocks(v.get("blocks")?)?,
        result: if result.is_null() { None } else { Some(read_result(result)?) },
    })
}

fn read_result(v: &Value) -> Option<MemberResult> {
    let anchor = v.get("anchor")?;
    let risk_inputs = v.get("risk_inputs")?;
    let changed_files = v.get("changed_files")?.as_array()?.iter().map(|f| {
        Some(ChangedFile {
            path: string_of(f, "path")?,
            insertions: count_of(f, "insertions")?,
            deletions: count_of(f, "deletions")?,
        })
    });
    Some(MemberResult {
        schema_version: count_of(v, "schema_version")? as u32,
        assignment_id: string_of(v, "assignment_id")?,
        participant_id: string_of(v, "participant_id")?,
        status: string_of(v, "status")?,
        failure_reason: opt_string_of(v, "failure_reason"),
        changed_files: changed_files.collect::<Option<Vec<_>>>()?,
        anchor: ResultAnchor {
            base_sha: string_of(anchor, "base_sha")?,
            head_sha: opt_string_of(anchor, "head_sha"),
            diff_ref: opt_string_of(anchor, "diff_ref"),
            generated_from: string_of(anchor, "generated_from")?,
        },
        command_evidence: texts_of(v, "command_evidence")?,
        risk_inputs: RiskInputs {
            files_changed: count_of(risk_inputs, "files_changed")?,
            cmd_danger: string_of(risk_inputs, "cmd_danger")?,
            reversibility: string_of(risk_inputs, "reversibility")?,
        },
        decisions: texts_of(v, "decisions")?,
        risks: texts_of(v, "risks")?,
        final_text_ref: opt_string_of(v, "final_text_ref"),
        artifact_refs: texts_of(v, "artifact_refs")?,
        result_source: string_of(v, "result_source")?,
        requires_long_task: v.get("requires_long_task").and_then(|b| b.as_bool()),
        exit_code: int_of(v, "exit_code"),
        stderr_tail: opt_string_of(v, "stderr_tail"),
        failure_kind: opt_string_of(v, "failure_kind"),
    })
}

fn read_block(v: &Value) -> Option<Block> {
    Some(match v.get("type")?.as_str()? {
        "text" => Block::Text { text: string_of(v, "text")? },
        "thinking" => Block::Thinking { text: string_of(v, "text")? },
        "image" => Block::Image {
            attachment_id: string_of(v, "attachment_id")?,
            media_type: string_of(v, "media_type")?,
        },
        "tool" => Block::Tool {
            id: string_of(v, "id")?,
            tool: string_of(v, "tool")?,
            summary: string_of(v, "summary")?,
            card: match v.get("card")?.as_str()? {
                "command" => BlockCardKind::Command,
                "compact" => BlockCardKind::Compact,
                _ => return None,
            },
            status: match v.get("status")?.as_str()? {
                "running" => BlockToolStatus::Running,
                "ok" => BlockToolStatus::Succeeded,
                "failed" => BlockToolStatus::Failed,
                "interrupted" => BlockToolStatus::Interrupted,
                _ => return None,
            },
            exit_code: int_of(v, "exit_code"),
            output: opt_string_of(v, "output"),
        },
        "run_card" => Block::RunCard {
            run_id: string_of(v, "run_id")?,
            commit_sha: opt_string_of(v, "commit_sha"),
            files_changed: count_of(v, "files_changed")?,
            insertions: count_of(v, "insertions")?,
            deletions: count_of(v, "deletions")?,
            interrupted: v.get("interrupted")?.as_bool()?,
        },
        "team_run" => Block::TeamRun {
            run_id: string_of(v, "run_id")?,
            goal: None,
            lead: opt_string_of(v, "lead"),
            members: v
                .get("members")?
                .as_array()?
                .iter()
                .map(read_member)
                .collect::<Option<Vec<_>>>()?,
        },
        "dispatch_card" => Block::DispatchCard {
            run_id: string_of(v, "run_id")?,
            member: read_member(v.get("member")?)?,
        },
        "decision_card" => Block::DecisionCard {
            decision_id: string_of(v, "decision_id")?,
            kind: string_of(v, "kind")?,
            question: string_of(v, "question")?,
            options: texts_of(v, "options")?,
            recommended: opt_string_of(v, "recommended"),
            rationale: opt_string_of(v, "rationale"),
            payload: read_json(v.get("payload")?),
            source_run_id: string_of(v, "source_run_id")?,
            status: string_of(v, "status")?,
            chosen_option: opt_string_of(v, "chosen_option"),
            created_at: int_of(v, "created_at")?,
        },
        "coding_task" => Block::CodingTask {
            run_id: string_of(v, "run_id")?,
            assignment_id: string_of(v, "assignment_id")?,
            worker_name: string_of(v, "worker_name")?,
            phase: string_of(v, "phase")?,
            step_done: int_of(v, "step_done"),
            step_total: int_of(v, "step_total"),
            artifact_id: opt_string_of(v, "artifact_id"),
            verify_cmd: opt_string_of(v, "verify_cmd"),
            detail: opt_string_of(v, "detail"),
            lead_rationale: opt_string_of(v, "lead_rationale"),
        },
        "context_truncated" => Block::ContextTruncated {},
        _ => return None,
    })
}

fn running_dispatch_card(assignment_id: &str) -> Block {
    Block::DispatchCard {
        run_id: format!("worker-run-{assignment_id}"),
        member: MemberSnapshot {
            participant_id: "worker-1".into(),
            assignment_id: assignment_id.into(),
            task_id: "task-1".into(),
            name: "Codex Worker".into(),
            started_at: Some(1_785_500_450_123),
            status: "running".into(),
            sub: "实现终态收敛".into(),
            steps_total: 3,
            steps_done: 1,
            cost_usd_bits: Some(0.25f64.to_bits()),
            input_tokens: 17,
            output_tokens: 29,
            failed: false,
            blocks: vec![],
            result: None,
        },
    }
}

fn member_report_delivery_running_card(assignment_id: &str) -> Block {
    Block::DispatchCard {
        run_id: format!("worker-run-{assignment_id}"),
        member: MemberSnapshot {
            participant_id: "worker-1".into(),
            assignment_id: assignment_id.into(),
            task_id: "task-1".into(),
            name: "Worker".into(),
            started_at: Some(1),
            status: "running".into(),
            sub: "test report rollback".into(),
            steps_total: 1,
            steps_done: 0,
            cost_usd_bits: None,
            input_tokens: 0,
            output_tokens: 0,
            failed: false,
            blocks: vec![],
            result: None,
        },
    }
}

#[test]
fn member_changed_paths_from_messages_reads_declared_team_run_paths() {
    let mut c = mem();
    create_session(&mut c, "s1", "T", "local-default", "local").unwrap();
    append_message(
        &mut c,
        "s1",
        "assistant",
        &[Block::TeamRun {
            run_id: "r1".into(),
            goal: None,
            lead: Some("Clio".into()),
            members: vec![MemberSnapshot {
                participant_id: "worker-1".into(),
                assignment_id: "a1".into(),
                task_id: "t1".into(),
                name: "worker".into(),
                started_at: None,
                status: "done".into(),
                sub: "改文件".into(),
                steps_total: 1,
                steps_done: 1,
                cost_usd_bits: None,
                input_tokens: 0,
                output_tokens: 0,
                failed: false,
                blocks: vec![],
                result: Some(MemberResult {
                    schema_version: 1,
                    assignment_id: "a1".into(),
                    participant_id: "worker-1".into(),
                    status: "done".into(),
                    failure_reason: None,
                    changed_files: vec![
                        ChangedFile {
                            path: "src/lib.rs".into(),
                            insertions: 1,
                            deletions: 0,
                        },
                        ChangedFile {
                            path: "README.md".into(),
                            insertions: 1,
                            deletions: 0,
                        },
                    ],
                    anchor: ResultAnchor {
                        base_sha: "base".into(),
                        head_sha: Some("head".into()),
                        diff_ref: None,
                        generated_from: "test".into(),
                    },
                    command_evidence: vec![],
                    risk_inputs: RiskInputs {
                        files_changed: 2,
                        cmd_danger: "none".into(),
                        reversibility: "clean".into(),
                    },
                    decisions: vec![],
                    risks: vec![],
                    final_text_ref: None,
                    artifact_refs: vec![],
                    result_source: "deterministic".into(),
                    requires_long_task: None,
                    exit_code: None,
                    stderr_tail: None,
                    failure_kind: None,
                }),
            }],
        }],
        Some("agent-team"),
        None,
        None, encode,
    )
    .unwrap();

    let paths = member_changed_paths_from_messages(&mut c, "s1", "r1", "a1", decode).unwrap();
    assert_eq!(paths, vec!["README.md", "src/lib.rs"]);
    let missing = member_changed_paths_from_messages(&mut c, "s1", "r1", "missing", decode).unwrap();
    assert!(missing.is_empty());
}

#[test]
fn append_then_get_blocks_in_order() {
    let mut c = mem();
    create_session(&mut c, "s1", "测试", "local-default", "local").unwrap();
    append_message(
        &mut c,
        "s1",
        "user",
        &[Block::Text {
            text: "你好".into(),
        }],
        None,
        None,
        None, encode,
    )
    .unwrap();
    append_message(
        &mut c,
        "s1",
        "assistant",
        &[Block::Text {
            text: "你好呀".into(),
        }],
        Some("clio"),
        None,
        None, encode,
    )
    .unwrap();
    let msgs = get_messages(&mut c, "s1", decode).unwrap();
    assert_eq!(msgs.len(), 2);
    assert_eq!(
        msgs[0].content,
        vec![Block::Text {
            text: "你好".into()
        }]);
    assert_eq!(msgs[1].engine, Some("clio".into()));
}

#[test]
fn get_messages_returns_id_and_created_at() {
    let mut c = mem();
    create_session(&mut c, "s1", "测试", "local-default", "local").unwrap();
    append_message(
        &mut c,
        "s1",
        "user",
        &[Block::Text {
            text: "第一条".into(),
        }],
        None,
        None,
        None, encode,
    )
    .unwrap();
    append_message(
        &mut c,
        "s1",
        "assistant",
        &[Block::Text {
            text: "第二条".into(),
        }],
        Some("clio"),
        Some("agent-1"),
        Some("Clio"), encode,
    )
    .unwrap();

    let msgs = get_messages(&mut c, "s1", decode).unwrap();

    assert_eq!(msgs.len(), 2);
    assert!(msgs[0].id > 0);
    assert_eq!(msgs[1].id, msgs[0].id + 1);
    assert!(msgs[0].created_at > 0);
    assert!(msgs[1].created_at >= msgs[0].created_at);
    assert_eq!(msgs[1].role, "assistant");
    assert_eq!(msgs[1].engine.as_deref(), Some("clio"));
    assert_eq!(msgs[1].agent_id.as_deref(), Some("agent-1"));
    assert_eq!(msgs[1].agent_name_snapshot.as_deref(), Some("Clio"));
}

#[test]
fn get_message_by_id_returns_one_message() {
    let mut c = mem();
    create_session(&mut c, "s1", "测试", "local-default", "local").unwrap();
    append_message(
        &mut c,
        "s1",
        "user",
        &[Block::Text {
            text: "可定位".into(),
        }],
        None,
        None,
        None, encode,
    )
    .unwrap();
    let id = get_messages(&mut c, "s1", decode).unwrap()[0].id;

    let got = get_message_by_id(&mut c, id, &decode).unwrap().unwrap();

    assert_eq!(got.id, id);
    assert_eq!(got.role, "user");
    assert_eq!(
        got.content,
        vec![Block::Text {
            text: "可定位".into()
        }]);
    assert!(got.created_at > 0);
}

#[test]
fn get_message_by_id_returns_none_for_missing_id() {
    let mut c = mem();

    assert!(get_message_by_id(&mut c, 42, &decode).unwrap().is_none());
}

#[test]
fn memory_read_source_reads_message_anchor_text_range() {
    let mut c = mem();
    create_session(&mut c, "s1", "测试", "local-default", "local").unwrap();
    append_message(
        &mut c,
        "s1",
        "assistant",
        &[
            Block::Text {
                text: "第一块".into(),
            },
            Block::Text {
                text: "abcdef".into(),
            },
        ],
        None,
        None,
        None, encode,
    )
    .unwrap();
    let id = get_messages(&mut c, "s1", decode).unwrap()[0].id;
    let anchor = Anchor {
        kind: "message".into(),
        ref_id: id.to_string(),
        block_index: Some(1),
        char_range: Some([1, 4]),
        line: None,
        label: None,
    };

    let got = memory_read_source(&mut c, &anchor, &decode).unwrap().unwrap();

    assert_eq!(got, "bcd");
}

#[test]
fn memory_read_source_json_accepts_anchor_object() {
    let mut c = mem();
    create_session(&mut c, "s1", "测试", "local-default", "local").unwrap();
    append_message(
        &mut c,
        "s1",
        "user",
        &[Block::Text {
            text: "json 来源".into(),
        }],
        None,
        None,
        None, encode,
    )
    .unwrap();
    let id = get_messages(&mut c, "s1", decode).unwrap()[0].id;
    let json = format!(r#"{{"kind":"message","ref":{id},"block_index":0}}"#);

    let got = memory_read_source_json(&mut c, &json, &decode).unwrap().unwrap();

    assert_eq!(got, "json 来源");
}

#[test]
fn blocks_to_text_joins_text_blocks() {
    let blocks = vec![
        Block::Text {
            text: "第一段".into(),
        },
        Block::Text {
            text: "第二段".into(),
        },
    ];
    assert_eq!(blocks_to_text(&blocks), "第一段\n第二段");
}

#[test]
fn image_block_roundtrips_through_json() {
    let mut c = mem();
    create_session(&mut c, "s1", "x", "local-default", "local").unwrap();
    let blocks = vec![
        Block::Text {
            text: "看图".into(),
        },
        Block::Image {
            attachment_id: "a1".into(),
            media_type: "image/png".into(),
        },
    ];
    append_message(&mut c, "s1", "user", &blocks, None, None, None, encode).unwrap();
    assert_eq!(get_messages(&mut c, "s1", decode).unwrap()[0].content, blocks);
}

#[test]
fn tool_and_thinking_blocks_round_trip() {
    let mut c = mem();
    let blocks = vec![
        Block::Text {
            text: "我来跑命令".into(),
        },
        Block::Thinking {
            text: "先想想步骤".into(),
        },
        Block::Tool {
            id: "t1".into(),
            tool: "Bash".into(),
            summary: "ls".into(),
            card: BlockCardKind::Command,
            status: BlockToolStatus::Failed,
            exit_code: Some(1),
            output: Some("boom".into()),
        },
        Block::Tool {
            id: "t2".into(),
            tool: "Read".into(),
            summary: "a.rs".into(),
            card: BlockCardKind::Compact,
            status: BlockToolStatus::Interrupted,
            exit_code: None,
            output: None,
        },
    ];
    append_message(&mut c, "s1", "assistant", &blocks, Some("clio"), None, None, encode).unwrap();
    assert_eq!(get_messages(&mut c, "s1", decode).unwrap()[0].content, blocks);
}

#[test]
fn blocks_to_text_ignores_tool_and_thinking() {
    let blocks = vec![
        Block::Text {
            text: "答案".into(),
        },
        Block::Thinking {
            text: "推理".into(),
        },
        Block::Tool {
            id: "t1".into(),
            tool: "Bash".into(),
            summary: "ls".into(),
            card: BlockCardKind::Command,
            status: BlockToolStatus::Succeeded,
            exit_code: Some(0),
            output: Some("x".into()),
        },
    ];
    assert_eq!(blocks_to_text(&blocks), "答案");
}

#[test]
fn recent_milestone_replay_limit_returns_newest_rows_oldest_first() {
    let mut c = mem();
    create_session(&mut c, "replay-limit", "Limit", "local-default", "local").unwrap();
    for index in 0..5 {
        append_message_dedup(
            &mut c,
            "replay-limit",
            "assistant",
            &[Block::Text {
                text: format!("message-{index}"),
            }],
            None,
            None,
            None,
            &format!("dedup-{index}"), encode,
        )
        .unwrap();
    }

    let rows = list_recent_milestone_replay_rows(&mut c, 2).unwrap();
    assert_eq!(rows.len(), 2);
    assert_eq!(rows[0].dedup_key, "dedup-3");
    assert_eq!(rows[1].dedup_key, "dedup-4");
    assert!(rows[0].message_id < rows[1].message_id);
}

#[test]
fn run_card_block_round_trips_through_json() {
    let mut c = mem();
    create_session(&mut c, "s1", "x", "local-default", "local").unwrap();
    let blocks = vec![
        Block::Text {
            text: "改完了".into(),
        },
        Block::RunCard {
            run_id: "run-1".into(),
            commit_sha: Some("deadbeef".into()),
            files_changed: 3,
            insertions: 10,
            deletions: 2,
            interrupted: false,
        },
    ];
    append_message(&mut c, "s1", "assistant", &blocks, Some("clio"), None, None, encode).unwrap();
    assert_eq!(get_messages(&mut c, "s1", decode).unwrap()[0].content, blocks);
}

#[test]
fn decision_card_block_round_trips_through_json() {
    let mut c = mem();
    create_session(&mut c, "s1", "x", "local-default", "local").unwrap();
    let blocks = vec![Block::DecisionCard {
        decision_id: "dc-1".into(),
        kind: "dispatch_confirm".into(),
        question: "开干还是只读探？".into(),
        options: vec!["开干".into(), "只读探".into(), "我来调整".into()],
        recommended: Some("开干".into()),
        rationale: Some("低风险·单文件".into()),
        payload: Json::Object(vec![
            ("files".into(), integer(1)),
            ("run_id".into(), Json::Text("r-pre-1".into())),
        ]),
        source_run_id: "r-pre-1".into(),
        status: "pending".into(),
        chosen_option: None,
        created_at: 1_700_000_000,
    }];
    append_message(
        &mut c,
        "s1",
        "assistant",
        &blocks,
        Some("agent-team"),
        None,
        None, encode,
    )
    .unwrap();
    let got = get_messages(&mut c, "s1", decode).unwrap();
    assert_eq!(got.len(), 1);
    assert_eq!(got[0].content, blocks);
}

#[test]
fn coding_task_block_round_trips_through_json() {
    let mut c = mem();
    create_session(&mut c, "s1", "x", "local-default", "local").unwrap();
    let blocks = vec![Block::CodingTask {
        run_id: "r-1".into(),
        assignment_id: "a-1".into(),
        worker_name: "codex".into(),
        phase: "verify_failed".into(),
        step_done: Some(3),
        step_total: Some(5),
        artifact_id: Some("art-1".into()),
        verify_cmd: Some("cargo test".into()),
        detail: Some("L1 没过".into()),
        lead_rationale: None,
    }];
    append_message(
        &mut c,
        "s1",
        "assistant",
        &blocks,
        Some("agent-team"),
        None,
        None, encode,
    )
    .unwrap();
    let got = get_messages(&mut c, "s1", decode).unwrap();
    assert_eq!(got.len(), 1);
    assert_eq!(got[0].content, blocks);
}

#[test]
fn context_truncated_block_round_trips_through_message_storage() {
    let mut c = mem();
    create_session(&mut c, "s1", "x", "local-default", "local").unwrap();
    let blocks = vec![
        Block::Text {
            text: "截断前".into(),
        },
        Block::ContextTruncated {},
    ];
    append_message(&mut c, "s1", "assistant", &blocks, None, None, None, encode).unwrap();

    assert_eq!(get_messages(&mut c, "s1", decode).unwrap()[0].content, blocks);
}

#[test]
fn coding_task_block_with_omitted_optionals_round_trips() {
    let mut c = mem();
    create_session(&mut c, "s1", "x", "local-default", "local").unwrap();
    let stored = r#"[{"type":"coding_task","run_id":"r-2","assignment_id":"a-2","worker_name":"codex","phase":"finalizing"}]"#;
    let blocks: Vec<Block> = decode(stored).unwrap();
    append_message(&mut c, "s1", "assistant", &blocks, None, None, None, encode).unwrap();
    let got = get_messages(&mut c, "s1", decode).unwrap();
    assert_eq!(got.len(), 1);
    match &got[0].content[0] {
        Block::CodingTask {
            run_id,
            step_done,
            artifact_id,
            ..
        } => {
            assert_eq!(run_id, "r-2");
            assert_eq!(*step_done, None);
            assert_eq!(*artifact_id, None);
        }
        other => panic!("期望 CodingTask·得到 {other:?}"),
    }
}

#[test]
fn coding_task_block_with_explicit_null_optionals_round_trips() {
    let mut c = mem();
    create_session(&mut c, "s1", "x", "local-default", "local").unwrap();
    let stored = r#"[{"type":"coding_task","run_id":"r-3","assignment_id":"a-3","worker_name":"codex","phase":"applied","artifact_id":null,"verify_cmd":"cargo test","detail":null}]"#;
    let blocks: Vec<Block> = decode(stored).unwrap();
    append_message(&mut c, "s1", "assistant", &blocks, None, None, None, encode).unwrap();
    let got = get_messages(&mut c, "s1", decode).unwrap();
    assert_eq!(got.len(), 1);
    match &got[0].content[0] {
        Block::CodingTask {
            run_id,
            artifact_id,
            verify_cmd,
            detail,
            ..
        } => {
            assert_eq!(run_id, "r-3");
            assert_eq!(*artifact_id, None);
            assert_eq!(verify_cmd.as_deref(), Some("cargo test"));
            assert_eq!(*detail, None);
        }
        other => panic!("期望 CodingTask·得到 {other:?}"),
    }
}

#[test]
fn choose_decision_card_compare_and_set() {
    let mut c = mem();
    create_session(&mut c, "s1", "x", "local-default", "local").unwrap();
    let blocks = vec![Block::DecisionCard {
        decision_id: "dc-1".into(),
        kind: "ask".into(),
        question: "?".into(),
        options: vec!["A".into(), "B".into()],
        recommended: None,
        rationale: None,
        payload: Json::Null,
        source_run_id: "r-1".into(),
        status: "pending".into(),
        chosen_option: None,
        created_at: 1,
    }];
    append_message(&mut c, "s1", "assistant", &blocks, None, None, None, encode).unwrap();

    assert!(
        update_decision_card_status(&mut c, "s1", "dc-1", "pending", "submitting", None).unwrap());
    assert!(
        !update_decision_card_status(&mut c, "s1", "dc-1", "pending", "submitting", None).unwrap());
    assert!(
        update_decision_card_status(&mut c, "s1", "dc-1", "submitting", "chosen", Some("A"))
            .unwrap());

    let got = get_messages(&mut c, "s1", decode).unwrap();
    match &got[0].content[0] {
        Block::DecisionCard {
            status,
            chosen_option,
            ..
        } => {
            assert_eq!(status, "chosen");
            assert_eq!(chosen_option.as_deref(), Some("A"));
        }
        other => panic!("期望 DecisionCard·得到 {other:?}"),
    }
    assert!(
        !update_decision_card_status(&mut c, "s1", "nope", "pending", "submitting", None).unwrap());
}

#[test]
fn update_decision_card_status_publishes_only_for_cas_winner() {
    let mut c = mem();
    create_session(&mut c, "s1", "x", "local-default", "local").unwrap();
    let blocks = vec![Block::DecisionCard {
        decision_id: "dc-publish-1".into(),
        kind: "ask".into(),
        question: "?".into(),
        options: vec!["A".into(), "B".into()],
        recommended: None,
        rationale: None,
        payload: Json::Null,
        source_run_id: "r-1".into(),
        status: "pending".into(),
        chosen_option: None,
        created_at: 1,
    }];
    append_message(&mut c, "s1", "assistant", &blocks, None, None, None, encode).unwrap();

    published(&mut c);
    assert!(update_decision_card_status(
        &mut c,
        "s1",
        "dc-publish-1",
        "pending",
        "resolved",
        Some("A"),
    )
    .unwrap());
    assert_eq!(
        published(&mut c),
        vec!["card.resolved"]);

    assert!(!update_decision_card_status(
        &mut c,
        "s1",
        "dc-publish-1",
        "pending",
        "resolved",
        Some("B"),
    )
    .unwrap());
    assert!(published(&mut c).is_empty());
}

#[test]
fn find_decision_card_returns_question_and_status() {
    let mut c = mem();
    create_session(&mut c, "s1", "x", "local-default", "local").unwrap();
    let blocks = vec![Block::DecisionCard {
        decision_id: "dc-1".into(),
        kind: "ask".into(),
        question: "改哪个方案？".into(),
        options: vec!["A".into(), "B".into()],
        recommended: None,
        rationale: None,
        payload: Json::Null,
        source_run_id: "r-1".into(),
        status: "pending".into(),
        chosen_option: None,
        created_at: 1,
    }];
    append_message(&mut c, "s1", "assistant", &blocks, None, None, None, encode).unwrap();

    let found = find_decision_card(&mut c, "s1", "dc-1").unwrap();
    assert_eq!(
        found,
        Some(("改哪个方案？".to_string(), "pending".to_string())));

    assert!(
        update_decision_card_status(&mut c, "s1", "dc-1", "pending", "chosen", Some("A")).unwrap());
    let found_after = find_decision_card(&mut c, "s1", "dc-1").unwrap();
    assert_eq!(
        found_after,
        Some(("改哪个方案？".to_string(), "chosen".to_string())));

    assert_eq!(find_decision_card(&mut c, "s1", "nope").unwrap(), None);
}

#[test]
fn choose_decision_card_does_not_touch_siblings_or_other_messages() {
    let mut c = mem();
    create_session(&mut c, "s1", "x", "local-default", "local").unwrap();
    let m1 = vec![
        Block::Text {
            text: "保留我".into(),
        },
        Block::DecisionCard {
            decision_id: "dc-1".into(),
            kind: "ask".into(),
            question: "?".into(),
            options: vec!["A".into()],
            recommended: None,
            rationale: None,
            payload: Json::Null,
            source_run_id: "r-1".into(),
            status: "pending".into(),
            chosen_option: None,
            created_at: 1,
        },
    ];
    append_message(&mut c, "s1", "assistant", &m1, None, None, None, encode).unwrap();
    append_message(
        &mut c,
        "s1",
        "user",
        &[Block::Text {
            text: "别动我".into(),
        }],
        None,
        None,
        None, encode,
    )
    .unwrap();

    assert!(
        update_decision_card_status(&mut c, "s1", "dc-1", "pending", "chosen", Some("A")).unwrap());
    let got = get_messages(&mut c, "s1", decode).unwrap();
    assert_eq!(
        got[0].content[0],
        Block::Text {
            text: "保留我".into()
        });
    match &got[0].content[1] {
        Block::DecisionCard { status, .. } => assert_eq!(status, "chosen"),
        other => panic!("期望 DecisionCard·得到 {other:?}"),
    }
    assert_eq!(
        got[1].content[0],
        Block::Text {
            text: "别动我".into()
        });
}

#[test]
fn blocks_to_text_summarizes_run_card() {
    let blocks = vec![
        Block::Text {
            text: "答案".into(),
        },
        Block::RunCard {
            run_id: "run-1".into(),
            commit_sha: None,
            files_changed: 2,
            insertions: 5,
            deletions: 1,
            interrupted: false,
        },
    ];
    assert_eq!(blocks_to_text(&blocks), "答案\n[This run changed 2 files]");
}

#[test]
fn blocks_to_text_run_card_summary_uses_english_and_keeps_file_count() {
    let blocks = vec![Block::RunCard {
        run_id: "run-1".into(),
        commit_sha: None,
        files_changed: 7,
        insertions: 5,
        deletions: 1,
        interrupted: false,
    }];

    let summary = blocks_to_text(&blocks);
    assert!(!summary
        .chars()
        .any(|c| ('\u{4E00}'..='\u{9FFF}').contains(&c)));
    assert!(summary.contains('7'));
}

#[test]
fn dispatch_card_block_round_trips_through_db() {
    let mut c = mem();
    create_session(&mut c, "s1", "x", "local-default", "local").unwrap();

    let member = MemberSnapshot {
        participant_id: "worker-1".into(),
        assignment_id: "a-dispatch-1".into(),
        task_id: "t-1".into(),
        name: "codex-worker".into(),
        started_at: Some(1785500450000),
        status: "done".into(),
        sub: "实现块①.5".into(),
        steps_total: 3,
        steps_done: 3,
        cost_usd_bits: Some(0.05f64.to_bits()),
        input_tokens: 500,
        output_tokens: 100,
        failed: false,
        blocks: vec![Block::Text {
            text: "干完了".into(),
        }],
        result: Some(MemberResult {
            schema_version: 1,
            assignment_id: "a-dispatch-1".into(),
            participant_id: "worker-1".into(),
            status: "done".into(),
            failure_reason: None,
            changed_files: vec![],
            anchor: ResultAnchor {
                base_sha: "abc".into(),
                head_sha: None,
                diff_ref: None,
                generated_from: "test".into(),
            },
            command_evidence: vec![],
            risk_inputs: RiskInputs {
                files_changed: 1,
                cmd_danger: "none".into(),
                reversibility: "reversible".into(),
            },
            decisions: vec![],
            risks: vec![],
            final_text_ref: None,
            artifact_refs: vec![],
            result_source: "raw".into(),
            requires_long_task: None,
            exit_code: None,
            stderr_tail: None,
            failure_kind: None,
        }),
    };

    let blocks = vec![
        Block::Text {
            text: "头部文本".into(),
        },
        Block::DispatchCard {
            run_id: "wrun-1".into(),
            member,
        },
    ];
    append_message(
        &mut c,
        "s1",
        "assistant",
        &blocks,
        Some("agent-team"),
        None,
        None, encode,
    )
    .unwrap();
    let got = get_messages(&mut c, "s1", decode).unwrap();
    assert_eq!(got.len(), 1);
    assert_eq!(got[0].content.len(), 2);
    match &got[0].content[1] {
        Block::DispatchCard { run_id, member: m } => {
            assert_eq!(run_id, "wrun-1");
            assert_eq!(m.assignment_id, "a-dispatch-1");
            assert_eq!(m.started_at, Some(1785500450000));
            assert!(!m.blocks.is_empty());
            assert!(m.result.is_some());
        }
        other => panic!("期望 DispatchCard·得到 {:?}", other),
    }
}

#[test]
fn update_dispatch_card_terminal_updates_running_card_and_preserves_snapshot_fields() {
    let mut c = mem();
    create_session(&mut c, "s1", "x", "local-default", "local").unwrap();
    let original = running_dispatch_card("assignment-1");
    append_message(
        &mut c,
        "s1",
        "assistant",
        &[
            Block::Text {
                text: "lead".into(),
            },
            running_dispatch_card("assignment-1"),
        ],
        Some("agent-team"),
        None,
        None, encode,
    )
    .unwrap();
    let report = "[Worker report]\nagent: Codex Worker\nassignment_id: assignment-1\nstatus: done\nfinal_text:\nfinished";

    assert!(update_dispatch_card_terminal(&mut c, "s1", "assignment-1", "done", report,).unwrap());

    let messages = get_messages(&mut c, "s1", decode).unwrap();
    let Block::DispatchCard { run_id, member } = &messages[0].content[1] else {
        panic!("expected dispatch card");
    };
    let Block::DispatchCard {
        run_id: original_run_id,
        member: original_member,
    } = original
    else {
        unreachable!();
    };
    assert_eq!(run_id, &original_run_id);
    assert_eq!(member.status, "done");
    assert!(!member.failed);
    assert_eq!(
        member.blocks,
        vec![Block::Text {
            text: report.into()
        }]);
    assert_eq!(member.started_at, original_member.started_at);
    assert_eq!(member.sub, original_member.sub);
    assert_eq!(member.name, original_member.name);
    assert_eq!(member.steps_total, original_member.steps_total);
    assert_eq!(member.steps_done, original_member.steps_done);
    assert_eq!(member.cost_usd_bits, original_member.cost_usd_bits);
    assert_eq!(member.input_tokens, original_member.input_tokens);
    assert_eq!(member.output_tokens, original_member.output_tokens);
    assert_eq!(member.result, original_member.result);
}

#[test]
fn update_dispatch_card_terminal_preserves_unknown_json_fields() {
    let mut c = mem();
    create_session(&mut c, "s1", "x", "local-default", "local").unwrap();
    let original_content = json(r#"[
        {
            "type": "dispatch_card",
            "run_id": "worker-run-assignment-1",
            "future_field": 1,
            "future_null": null,
            "member": {
                "participant_id": "worker-1",
                "assignment_id": "assignment-1",
                "task_id": "task-1",
                "name": "Codex Worker",
                "started_at": 1785500450123,
                "status": "running",
                "sub": "实现终态收敛",
                "steps_total": 3,
                "steps_done": 1,
                "cost_usd": 0.25,
                "input_tokens": 17,
                "output_tokens": 29,
                "failed": false,
                "blocks": [],
                "result": null,
                "member_extra": "x",
                "member_null": null
            }
        },
        {
            "type": "text",
            "text": "untouched sibling",
            "text_extra": { "future": true }
        }
    ]"#);
    c.connection().execute(
        "INSERT INTO messages (session_id, role, content, created_at) VALUES (?1, 'assistant', ?2, 1)",
        ("s1", original_content.to_string()),
    )
    .unwrap();
    let report = "terminal report";
    let serialized_report_block = json(r#"{ "type": "text", "text": "terminal report" }"#);
    assert_eq!(
        json(&encode(&[Block::Text { text: report.into() }])),
        serde_json::Value::Array(vec![serialized_report_block.clone()]));

    assert!(update_dispatch_card_terminal(&mut c, "s1", "assignment-1", "done", report).unwrap());

    let raw_content: String = c
        .connection()
        .query_row(
            "SELECT content FROM messages WHERE session_id = 's1'",
            [],
            |row| row.get(0),
        )
        .unwrap();
    let actual: serde_json::Value = json(&raw_content);
    let mut expected = original_content;
    expected[0]["member"]["status"] = "done".into();
    expected[0]["member"]["failed"] = false.into();
    expected[0]["member"]["blocks"] = serde_json::Value::Array(vec![serialized_report_block]);
    assert_eq!(actual, expected);
    assert_eq!(actual[0]["future_field"], 1);
    assert_eq!(actual[0]["member"]["member_extra"], "x");
    assert_eq!(actual[1]["text_extra"]["future"], true);
}

#[test]
fn update_dispatch_card_terminal_is_idempotent_after_terminal_state() {
    let mut c = mem();
    create_session(&mut c, "s1", "x", "local-default", "local").unwrap();
    append_message(
        &mut c,
        "s1",
        "assistant",
        &[running_dispatch_card("assignment-1")],
        Some("agent-team"),
        None,
        None, encode,
    )
    .unwrap();

    assert!(
        update_dispatch_card_terminal(&mut c, "s1", "assignment-1", "failed", "first").unwrap());
    let after_first = get_messages(&mut c, "s1", decode).unwrap();
    assert!(
        !update_dispatch_card_terminal(&mut c, "s1", "assignment-1", "done", "second").unwrap());
    assert_eq!(get_messages(&mut c, "s1", decode).unwrap(), after_first);
}

#[test]
fn update_dispatch_card_terminal_returns_false_without_matching_card() {
    let mut c = mem();
    create_session(&mut c, "s1", "x", "local-default", "local").unwrap();
    append_message(
        &mut c,
        "s1",
        "assistant",
        &[Block::Text {
            text: "assignment-1 appears only in prose".into(),
        }],
        Some("agent-team"),
        None,
        None, encode,
    )
    .unwrap();
    let before = get_messages(&mut c, "s1", decode).unwrap();

    assert!(
        !update_dispatch_card_terminal(&mut c, "s1", "assignment-1", "done", "report").unwrap());
    assert_eq!(get_messages(&mut c, "s1", decode).unwrap(), before);
}

#[test]
fn update_dispatch_card_terminal_only_changes_message_with_matching_assignment() {
    let mut c = mem();
    create_session(&mut c, "s1", "x", "local-default", "local").unwrap();
    append_message(
        &mut c,
        "s1",
        "assistant",
        &[running_dispatch_card("assignment-other")],
        Some("agent-team"),
        None,
        None, encode,
    )
    .unwrap();
    append_message(
        &mut c,
        "s1",
        "assistant",
        &[running_dispatch_card("assignment-target")],
        Some("agent-team"),
        None,
        None, encode,
    )
    .unwrap();

    assert!(update_dispatch_card_terminal(
        &mut c,
        "s1",
        "assignment-target",
        "stopped",
        "target report",
    )
    .unwrap());

    let messages = get_messages(&mut c, "s1", decode).unwrap();
    let Block::DispatchCard { member: other, .. } = &messages[0].content[0] else {
        panic!("expected other dispatch card");
    };
    let Block::DispatchCard { member: target, .. } = &messages[1].content[0] else {
        panic!("expected target dispatch card");
    };
    assert_eq!(other.status, "running");
    assert!(other.blocks.is_empty());
    assert_eq!(target.status, "stopped");
    assert!(target.failed);
    assert_eq!(
        target.blocks,
        vec![Block::Text {
            text: "target report".into()
        }]);
}

#[test]
fn memory_read_source_thinking_block_returns_text() {
    let mut c = mem();
    create_session(&mut c, "s1", "测试", "local-default", "local").unwrap();
    append_message(
        &mut c,
        "s1",
        "assistant",
        &[Block::Thinking {
            text: "想一想 abc".into(),
        }],
        None,
        None,
        None, encode,
    )
    .unwrap();
    let id = get_messages(&mut c, "s1", decode).unwrap()[0].id;
    let anchor = Anchor {
        kind: "message".into(),
        ref_id: id.to_string(),
        block_index: Some(0),
        char_range: None,
        line: None,
        label: None,
    };
    let got = memory_read_source(&mut c, &anchor, &decode).unwrap().unwrap();
    assert_eq!(got, "想一想 abc");
}

#[test]
fn memory_read_source_non_text_block_returns_none() {
    let mut c = mem();
    create_session(&mut c, "s1", "测试", "local-default", "local").unwrap();
    append_message(
        &mut c,
        "s1",
        "assistant",
        &[Block::Tool {
            id: "t1".into(),
            tool: "bash".into(),
            summary: "ran it".into(),
            card: BlockCardKind::Command,
            status: BlockToolStatus::Succeeded,
            exit_code: Some(0),
            output: None,
        }],
        None,
        None,
        None, encode,
    )
    .unwrap();
    let id = get_messages(&mut c, "s1", decode).unwrap()[0].id;
    let anchor = Anchor {
        kind: "message".into(),
        ref_id: id.to_string(),
        block_index: Some(0),
        char_range: None,
        line: None,
        label: None,
    };
    let got = memory_read_source(&mut c, &anchor, &decode).unwrap();
    assert!(got.is_none());
}

#[test]
fn memory_read_source_full_text_when_no_char_range() {
    let mut c = mem();
    create_session(&mut c, "s1", "测试", "local-default", "local").unwrap();
    append_message(
        &mut c,
        "s1",
        "assistant",
        &[Block::Text {
            text: "完整内容".into(),
        }],
        None,
        None,
        None, encode,
    )
    .unwrap();
    let id = get_messages(&mut c, "s1", decode).unwrap()[0].id;
    let anchor = Anchor {
        kind: "message".into(),
        ref_id: id.to_string(),
        block_index: Some(0),
        char_range: None,
        line: None,
        label: None,
    };
    let got = memory_read_source(&mut c, &anchor, &decode).unwrap().unwrap();
    assert_eq!(got, "完整内容");
}

#[test]
fn memory_read_source_json_skips_malformed_anchor_in_array() {
    let mut c = mem();
    create_session(&mut c, "s1", "测试", "local-default", "local").unwrap();
    append_message(
        &mut c,
        "s1",
        "user",
        &[Block::Text {
            text: "好消息".into(),
        }],
        None,
        None,
        None, encode,
    )
    .unwrap();
    let id = get_messages(&mut c, "s1", decode).unwrap()[0].id;
    let json = format!(
        r#"[{{"kind":"message","ref":{id},"block_index":0}},{{"kind":"message","ref":"x","block_index":"bad"}}]"#
    );
    let got = memory_read_source_json(&mut c, &json, &decode).unwrap();
    assert!(got.is_some());
    assert!(got.unwrap().contains("好消息"));
}

#[test]
fn append_message_dedup_same_key_twice_writes_once() {
    let mut c = mem();
    create_session(&mut c, "s1", "x", "local-default", "local").unwrap();
    let ok1 = append_message_dedup(
        &mut c,
        "s1",
        "assistant",
        &[Block::Text {
            text: "first".into(),
        }],
        Some("clio"),
        None,
        None,
        "run_flush:r1", encode,
    )
    .unwrap();
    assert!(ok1.is_some());
    let ok2 = append_message_dedup(
        &mut c,
        "s1",
        "assistant",
        &[Block::Text {
            text: "second write attempt".into(),
        }],
        Some("clio"),
        None,
        None,
        "run_flush:r1", encode,
    )
    .unwrap();
    assert!(ok2.is_none());
    let count: i64 = c
        .connection()
        .query_row(
            "SELECT count(*) FROM messages WHERE session_id = 's1' AND dedup_key = 'run_flush:r1'",
            [],
            |r| r.get(0),
        )
        .unwrap();
    assert_eq!(count, 1);
}

#[test]
fn append_message_dedup_and_publish_publishes_only_for_new_key() {
    let mut c = mem();
    create_session(&mut c, "s1", "x", "local-default", "local").unwrap();

    published(&mut c);
    assert!(append_message_dedup_and_publish(
        &mut c,
        "s1",
        "assistant",
        &[Block::Text {
            text: "first".into(),
        }],
        Some("clio"),
        None,
        None,
        "run_flush:publish-r1", encode,
    )
    .unwrap());
    assert_eq!(
        published(&mut c),
        vec!["msg.completed"]);

    assert!(!append_message_dedup_and_publish(
        &mut c,
        "s1",
        "assistant",
        &[Block::Text {
            text: "duplicate".into(),
        }],
        Some("clio"),
        None,
        None,
        "run_flush:publish-r1", encode,
    )
    .unwrap());
    assert!(published(&mut c).is_empty());
}

#[test]
fn append_message_dedup_defers_publish_until_caller_commits() {
    let mut c = mem();
    create_session(&mut c, "s1", "x", "local-default", "local").unwrap();

    published(&mut c);
    c.connection().execute_batch("BEGIN").unwrap();
    let milestone = append_message_dedup(
        &mut c,
        "s1",
        "assistant",
        &[Block::Text {
            text: "in-tx".into(),
        }],
        Some("clio"),
        None,
        None,
        "run_flush:tx-defer",
        encode,
    )
    .unwrap();
    assert!(milestone.is_some());
    assert!(published(&mut c).is_empty());

    c.connection().execute_batch("COMMIT").unwrap();
    milestone.unwrap().publish(&mut c);
    assert_eq!(published(&mut c), vec!["msg.completed"]);
}

#[test]
fn member_report_delivery_atomic_helper_commits_message_pending_then_publishes() {
    let dir = tempfile::tempdir().unwrap();
    let db_path = dir.path().join("member-report-publish-order.db");
    let mut c = Db::new(rusqlite::Connection::open(&db_path).unwrap());
    init_schema(&mut c).unwrap();
    c.connection().execute(
        "INSERT OR IGNORE INTO namespaces
            (id, kind, name, is_builtin, added_at)
         VALUES ('local', 'local', 'Local', 1, 0)",
        [],
    )
    .unwrap();
    c.connection().execute(
        "INSERT OR IGNORE INTO repos
            (id, namespace_id, source, name, path, status, added_at)
         VALUES ('local-default', 'local', 'local', 'Local', '/tmp', 'active', 0)",
        [],
    )
    .unwrap();
    create_session(&mut c, "delivery-success", "x", "local-default", "local").unwrap();
    let observer = rusqlite::Connection::open(&db_path).unwrap();

    published(&mut c);
    assert!(persist_member_report_atomic(
        &mut c,
        "delivery-success",
        &[Block::Text {
            text: "[Worker report]\nstatus: done".into(),
        }],
        Some("worker-agent"),
        Some("Worker"),
        "member_result:run-1:assignment-1",
        Some("assignment-1"),
        None,
        encode,
    )
    .unwrap());
    let visible: (i64, i64) = observer
        .query_row(
            "SELECT
                (SELECT count(*) FROM messages
                  WHERE session_id = 'delivery-success'
                    AND dedup_key = 'member_result:run-1:assignment-1'),
                (SELECT count(*) FROM member_report_delivery
                  WHERE session_id = 'delivery-success'
                    AND delivered_at IS NULL)",
            [],
            |row| Ok((row.get(0)?, row.get(1)?)),
        )
        .unwrap();
    assert_eq!(visible, (1, 1));

    let message_id: i64 = c
        .connection()
        .query_row(
            "SELECT id FROM messages WHERE session_id = 'delivery-success'",
            [],
            |row| row.get(0),
        )
        .unwrap();
    let pending: (i64, String, Option<i64>) = c
        .connection()
        .query_row(
            "SELECT message_id, assignment_id, delivered_at
               FROM member_report_delivery
              WHERE session_id = 'delivery-success'",
            [],
            |row| Ok((row.get(0)?, row.get(1)?, row.get(2)?)),
        )
        .unwrap();
    assert_eq!(pending, (message_id, "assignment-1".into(), None));
    assert_eq!(published(&mut c), vec!["msg.completed"]);
}

#[test]
fn member_report_delivery_atomic_helper_rolls_back_without_ghost_publish() {
    let mut c = mem();
    create_session(&mut c, "delivery-rollback", "x", "local-default", "local").unwrap();
    for _ in 0..2 {
        append_message(
            &mut c,
            "delivery-rollback",
            "assistant",
            &[member_report_delivery_running_card("assignment-1")],
            Some("agent-team"),
            None,
            None, encode,
        )
        .unwrap();
    }
    let before = get_messages(&mut c, "delivery-rollback", decode).unwrap();
    let second_card_id = before[1].id;
    c.connection().execute_batch(&format!(
        "CREATE TRIGGER fail_second_dispatch_card_update
         BEFORE UPDATE OF content ON messages
         WHEN OLD.id = {second_card_id}
         BEGIN
           SELECT RAISE(FAIL, 'forced second DispatchCard update failure');
         END;"
    ))
    .unwrap();

    published(&mut c);
    let error = persist_member_report_atomic(
        &mut c,
        "delivery-rollback",
        &[Block::Text {
            text: "[Worker report]\nstatus: failed".into(),
        }],
        Some("worker-agent"),
        Some("Worker"),
        "member_result:run-rollback:assignment-1",
        Some("assignment-1"),
        Some(("failed", "[Worker report]\nstatus: failed")), encode,
    )
    .unwrap_err();
    assert!(error
        .message()
        .contains("forced second DispatchCard update failure"));

    assert_eq!(
        get_messages(&mut c, "delivery-rollback", decode).unwrap(),
        before);
    let delivery_count: i64 = c
        .connection()
        .query_row(
            "SELECT count(*) FROM member_report_delivery
              WHERE session_id = 'delivery-rollback'",
            [],
            |row| row.get(0),
        )
        .unwrap();
    assert_eq!(delivery_count, 0);
    assert!(
        published(&mut c).is_empty());
}

#[test]
fn member_report_delivery_grandfather_message_without_row_is_not_pending() {
    let mut c = mem();
    create_session(&mut c, "delivery-grandfather", "x", "local-default", "local").unwrap();
    append_message(
        &mut c,
        "delivery-grandfather",
        "assistant",
        &[Block::Text {
            text: "[Worker report]\nlegacy".into(),
        }],
        Some("agent-team"),
        Some("worker-agent"),
        Some("Worker"), encode,
    )
    .unwrap();

    assert!(
        pending_member_report_message_ids(&mut c, "delivery-grandfather")
            .unwrap()
            .is_empty());
}

#[test]
fn member_report_delivery_delivered_row_is_not_pending() {
    let mut c = mem();
    create_session(&mut c, "delivery-complete", "x", "local-default", "local").unwrap();
    persist_member_report_atomic(
        &mut c,
        "delivery-complete",
        &[Block::Text {
            text: "[Worker report]\nstatus: done".into(),
        }],
        Some("worker-agent"),
        Some("Worker"),
        "member_result:run-complete:assignment-1",
        Some("assignment-1"),
        None, encode,
    )
    .unwrap();
    c.connection().execute(
        "UPDATE member_report_delivery
            SET delivered_at = 1
          WHERE session_id = 'delivery-complete'",
        [],
    )
    .unwrap();

    assert!(
        pending_member_report_message_ids(&mut c, "delivery-complete")
            .unwrap()
            .is_empty());
}

#[test]
fn member_report_delivery_delete_session_purges_rows() {
    let mut c = mem();
    create_session(&mut c, "delivery-purge", "x", "local-default", "local").unwrap();
    persist_member_report_atomic(
        &mut c,
        "delivery-purge",
        &[Block::Text {
            text: "[Worker report]\nstatus: done".into(),
        }],
        Some("worker-agent"),
        Some("Worker"),
        "member_result:run-purge:assignment-1",
        Some("assignment-1"),
        None, encode,
    )
    .unwrap();

    delete_session(&mut c, "delivery-purge").unwrap();
    let count: i64 = c
        .connection()
        .query_row(
            "SELECT count(*) FROM member_report_delivery WHERE session_id = 'delivery-purge'",
            [],
            |row| row.get(0),
        )
        .unwrap();
    assert_eq!(count, 0);
}

#[test]
fn append_message_dedup_different_keys_each_write() {
    let mut c = mem();
    create_session(&mut c, "s1", "x", "local-default", "local").unwrap();
    append_message_dedup(
        &mut c,
        "s1",
        "assistant",
        &[Block::Text { text: "a".into() }],
        Some("clio"),
        None,
        None,
        "run_flush:r1", encode,
    )
    .unwrap();
    append_message_dedup(
        &mut c,
        "s1",
        "assistant",
        &[Block::Text { text: "b".into() }],
        Some("clio"),
        None,
        None,
        "run_flush:r2", encode,
    )
    .unwrap();
    let count: i64 = c
        .connection()
        .query_row(
            "SELECT count(*) FROM messages WHERE session_id = 's1'",
            [],
            |r| r.get(0),
        )
        .unwrap();
    assert_eq!(count, 2);
}

#[test]
fn a_message_is_found_by_its_key() {
    let mut c = mem();
    create_session(&mut c, "s1", "x", "local-default", "local").unwrap();
    let blocks = [Block::Text { text: "hi".into() }];
    assert!(append_message_dedup(
        &mut c, "s1", "user", &blocks, None, None, None, "k1", encode
    )
    .unwrap()
    .is_some());
    let found = get_message_by_session_and_dedup_key(&mut c, "s1", "k1", &decode).unwrap().unwrap();
    assert_eq!(found.role, "user");
    assert_eq!(found.content, blocks);
    assert_eq!(get_message_by_session_and_dedup_key(&mut c, "s1", "k2", &decode).unwrap(), None);
}

#[test]
fn a_content_that_cannot_be_read_is_empty() {
    let mut c = mem();
    create_session(&mut c, "s1", "x", "local-default", "local").unwrap();
    append_message(&mut c, "s1", "user", &[], None, None, None, |_| "7".to_string()).unwrap();
    let messages = get_messages(&mut c, "s1", decode).unwrap();
    assert!(messages[0].content.is_empty());
}

#[test]
fn delivered_reports_do_not_wait_any_more() {
    let mut c = mem();
    create_session(&mut c, "s1", "x", "local-default", "local").unwrap();
    for key in ["k1", "k2"] {
        assert!(persist_member_report_atomic(
            &mut c,
            "s1",
            &[Block::Text { text: key.into() }],
            None,
            None,
            key,
            Some("a1"),
            None,
            encode,
        )
        .unwrap());
    }
    let waiting = pending_member_report_message_ids(&mut c, "s1").unwrap();
    assert_eq!(waiting.len(), 2);
    mark_member_reports_delivered(&mut c, "s1", &[]).unwrap();
    assert_eq!(pending_member_report_message_ids(&mut c, "s1").unwrap(), waiting);
    mark_member_reports_delivered(&mut c, "s1", &waiting[..1]).unwrap();
    assert_eq!(pending_member_report_message_ids(&mut c, "s1").unwrap(), waiting[1..].to_vec());
}

fn decision_card(status: &str) -> Json {
    Json::Object(vec![
        ("decision_id".into(), Json::Text("d1".into())),
        ("future".into(), Json::Bool(true)),
        ("question".into(), Json::Text("?".into())),
        ("status".into(), Json::Text(status.into())),
        ("type".into(), Json::Text("decision_card".into())),
    ])
}

#[test]
fn a_decision_keeps_what_it_does_not_speak_of() {
    let content = Ok(Json::Array(vec![decision_card("pending")]));
    let made = match decide_content(content, "d1", "pending", "chosen", Some("A")) {
        Decided::Made(json) => json,
        _ => panic!("no decision"),
    };
    let mut expected = match decision_card("chosen") {
        Json::Object(members) => members,
        _ => unreachable!(),
    };
    expected.insert(0, ("chosen_option".into(), Json::Text("A".into())));
    assert_eq!(made, Json::Array(vec![Json::Object(expected)]));

    let again = decide_content(Ok(made), "d1", "pending", "chosen", Some("B"));
    assert!(matches!(again, Decided::Refused));
    let other = Ok(Json::Array(vec![decision_card("pending")]));
    assert!(matches!(decide_content(other, "d2", "pending", "chosen", None), Decided::Absent));
    let unread = Err("bad".to_string());
    assert!(matches!(decide_content(unread, "d1", "pending", "chosen", None), Decided::Absent));
}

#[test]
fn a_card_is_read_from_a_content() {
    let content = Ok(Json::Array(vec![Json::Null, decision_card("pending")]));
    assert_eq!(read_card(&content, "d1"), Some(("?".into(), "pending".into())));
    assert_eq!(read_card(&content, "d2"), None);
    assert_eq!(read_card(&Err("bad".into()), "d1"), None);
}

#[test]
fn a_settled_card_is_not_settled_again() {
    let card = |status: &str| {
        Json::Array(vec![Json::Object(vec![
            (
                "member".into(),
                Json::Object(vec![
                    ("assignment_id".into(), Json::Text("a1".into())),
                    ("extra".into(), Json::Null),
                    ("status".into(), Json::Text(status.into())),
                ]),
            ),
            ("type".into(), Json::Text("dispatch_card".into())),
        ])])
    };
    let settled = settle_content(Ok(card("running")), "a1", "failed", "report").unwrap();
    let expected = Json::Array(vec![Json::Object(vec![
        (
            "member".into(),
            Json::Object(vec![
                ("assignment_id".into(), Json::Text("a1".into())),
                (
                    "blocks".into(),
                    Json::Array(vec![Json::Object(vec![
                        ("text".into(), Json::Text("report".into())),
                        ("type".into(), Json::Text("text".into())),
                    ])]),
                ),
                ("extra".into(), Json::Null),
                ("failed".into(), Json::Bool(true)),
                ("status".into(), Json::Text("failed".into())),
            ]),
        ),
        ("type".into(), Json::Text("dispatch_card".into())),
    ])]);
    assert_eq!(settled, expected);
    assert_eq!(settle_content(Ok(settled), "a1", "failed", "report"), None);
    assert_eq!(settle_content(Ok(card("done")), "a1", "failed", "report"), None);
    assert_eq!(settle_content(Ok(card("running")), "a2", "failed", "report"), None);
}

#[test]
fn an_assignment_with_pattern_characters_is_found_as_it_is_written() {
    let mut c = mem();
    create_session(&mut c, "s1", "x", "local-default", "local").unwrap();
    for id in ["a%1", "a_1", "ab1"] {
        append_message(
            &mut c,
            "s1",
            "assistant",
            &[running_dispatch_card(id)],
            None,
            None,
            None,
            encode,
        )
        .unwrap();
    }
    assert!(update_dispatch_card_terminal(&mut c, "s1", "a_1", "done", "r").unwrap());
    let states: Vec<String> = get_messages(&mut c, "s1", decode)
        .unwrap()
        .iter()
        .map(|m| match &m.content[0] {
            Block::DispatchCard { member, .. } => member.status.clone(),
            _ => unreachable!(),
        })
        .collect();
    assert_eq!(states, vec!["running", "done", "running"]);
}

#[test]
fn an_assignment_that_json_escapes_is_found() {
    for id in ["a\"1", "a\\1", "a\n1", "a\u{1}1"] {
        let mut c = mem();
        create_session(&mut c, "s1", "x", "local-default", "local").unwrap();
        append_message(
            &mut c,
            "s1",
            "assistant",
            &[running_dispatch_card(id)],
            None,
            None,
            None,
            encode,
        )
        .unwrap();
        assert_eq!(update_dispatch_card_terminal(&mut c, "s1", id, "done", "r"), Ok(true));
        match &get_messages(&mut c, "s1", decode).unwrap()[0].content[0] {
            Block::DispatchCard { member, .. } => assert_eq!(member.status, "done"),
            _ => unreachable!(),
        }
        assert_eq!(update_dispatch_card_terminal(&mut c, "s1", id, "done", "r"), Ok(false));
    }
}

#[test]
fn a_settled_card_keeps_its_real_numbers() {
    let mut c = mem();
    create_session(&mut c, "s1", "x", "local-default", "local").unwrap();
    c.connection()
        .execute(
            "INSERT INTO messages (session_id, role, content, created_at) VALUES ('s1', 'assistant', ?1, 1)",
            [r#"[{"member":{"assignment_id":"a1","cost":1e-7,"status":"running"},"of":0.1,"type":"dispatch_card"}]"#],
        )
        .unwrap();
    assert!(update_dispatch_card_terminal(&mut c, "s1", "a1", "done", "r").unwrap());
    let content: String =
        c.connection().query_row("SELECT content FROM messages", [], |r| r.get(0)).unwrap();
    assert_eq!(
        content,
        r#"[{"member":{"assignment_id":"a1","blocks":[{"text":"r","type":"text"}],"cost":1e-7,"failed":false,"status":"done"},"of":0.1,"type":"dispatch_card"}]"#
    );
}

#[test]
fn a_decided_card_is_found_again_with_its_question() {
    let mut c = mem();
    create_session(&mut c, "s1", "x", "local-default", "local").unwrap();
    c.connection()
        .execute(
            "INSERT INTO messages (session_id, role, content, created_at) VALUES ('s1', 'assistant', ?1, 1)",
            [r#"[{"type":"decision_card","decision_id":"d1","question":"Which?","status":"pending"}]"#],
        )
        .unwrap();
    let (question, status) = find_decision_card(&mut c, "s1", "d1").unwrap().unwrap();
    assert_eq!((question.as_str(), status.as_str()), ("Which?", "pending"));
    assert!(update_decision_card_status(&mut c, "s1", "d1", &status, "resolved", Some("A")).unwrap());
    assert_eq!(
        find_decision_card(&mut c, "s1", "d1").unwrap(),
        Some((question, "resolved".into()))
    );
    assert_eq!(find_decision_card(&mut c, "s1", "d2").unwrap(), None);
    let content: String =
        c.connection().query_row("SELECT content FROM messages", [], |r| r.get(0)).unwrap();
    assert_eq!(
        content,
        r#"[{"chosen_option":"A","decision_id":"d1","question":"Which?","status":"resolved","type":"decision_card"}]"#
    );
}

#[test]
fn changed_paths_are_in_order_and_distinct() {
    assert!(changed_paths(&vec![], "r1", "a1").is_empty());
}

#[test]
fn only_texts_are_sources() {
    let text = |s: &str| Block::Text { text: s.into() };
    assert_eq!(block_source_text(&text("t")).as_deref(), Some("t"));
    let thinking = Block::Thinking { text: "h".into() };
    assert_eq!(block_source_text(&thinking).as_deref(), Some("h"));
    assert_eq!(block_source_text(&Block::ContextTruncated {}), None);
}
