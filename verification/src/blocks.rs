//! The blocks that a message is made of.
use vstd::prelude::*;

use crate::events;
use crate::json::Json;
use crate::text::{self, decimal_text, join, join3};

verus! {

/// How a tool's block is shown.
#[derive(Debug, Clone, Copy, PartialEq, Eq, Structural)]
pub enum BlockCardKind {
    Command,
    Compact,
}

/// How far a tool's run has come.
#[derive(Debug, Clone, Copy, PartialEq, Eq, Structural)]
pub enum BlockToolStatus {
    Running,
    /// It succeeded.
    Succeeded,
    Failed,
    Interrupted,
}

/// A criterion of a goal, as a snapshot keeps it.
#[derive(Debug, Clone, PartialEq)]
pub struct GoalCriterion {
    pub id: String,
    pub claim: String,
    pub verifier: Option<String>,
    pub evidence: Option<String>,
    pub status: String,
    pub scope: String,
}

/// A file that a member changed.
#[derive(Debug, Clone, PartialEq)]
pub struct ChangedFile {
    pub path: String,
    pub insertions: u64,
    pub deletions: u64,
}

/// Where a member's result starts from and leads to.
#[derive(Debug, Clone, PartialEq)]
pub struct ResultAnchor {
    pub base_sha: String,
    pub head_sha: Option<String>,
    pub diff_ref: Option<String>,
    pub generated_from: String,
}

/// What the risk of a member's result is judged by.
#[derive(Debug, Clone, PartialEq)]
pub struct RiskInputs {
    pub files_changed: u64,
    pub cmd_danger: String,
    pub reversibility: String,
}

/// What a member of a team reports.
#[derive(Debug, Clone, PartialEq)]
pub struct MemberResult {
    pub schema_version: u32,
    pub assignment_id: String,
    pub participant_id: String,
    pub status: String,
    pub failure_reason: Option<String>,
    pub changed_files: Vec<ChangedFile>,
    pub anchor: ResultAnchor,
    pub command_evidence: Vec<String>,
    pub risk_inputs: RiskInputs,
    pub decisions: Vec<String>,
    pub risks: Vec<String>,
    pub final_text_ref: Option<String>,
    pub artifact_refs: Vec<String>,
    pub result_source: String,
    pub requires_long_task: Option<bool>,
    pub exit_code: Option<i64>,
    pub stderr_tail: Option<String>,
    pub failure_kind: Option<String>,
}

/// A proposed change of scope.
#[derive(Debug, Clone, PartialEq)]
pub struct ScopeChange {
    pub proposal_id: String,
    pub kind: String,
    pub detail_text: String,
    pub detail_summary: Option<String>,
}

/// The goal of a run, as a snapshot keeps it.
#[derive(Debug, Clone, PartialEq)]
pub struct TeamGoal {
    pub goal: String,
    /// `draft` or `frozen`.
    pub status: String,
    pub criteria: Vec<GoalCriterion>,
}

/// A member of a team, as a snapshot keeps it.
#[derive(Debug, PartialEq)]
pub struct MemberSnapshot {
    pub participant_id: String,
    pub assignment_id: String,
    pub task_id: String,
    pub name: String,
    pub started_at: Option<i64>,
    /// `running`, `needs_input`, `done`, `failed` or `stopped`.
    pub status: String,
    pub sub: String,
    pub steps_total: i64,
    pub steps_done: i64,
    /// The cost in dollars, as the bits of a 64-bit IEEE number.
    pub cost_usd_bits: Option<u64>,
    pub input_tokens: i64,
    pub output_tokens: i64,
    pub failed: bool,
    pub blocks: Vec<Block>,
    pub result: Option<MemberResult>,
}

/// How a run ended, in numbers.
#[derive(Debug, Clone, PartialEq)]
pub struct SummaryStatus {
    /// `all_succeeded`, `partial` or `failed`.
    pub kind: String,
    pub succeeded_count: u32,
    pub total: u32,
}

/// A section of a summary.
#[derive(Debug, PartialEq)]
pub struct SummarySection {
    pub heading: String,
    pub body_richtext: Option<String>,
    pub findings: Vec<Finding>,
    pub attribution: Vec<String>,
    pub trace_ref: TraceRef,
    pub source_spans: Vec<SourceSpan>,
}

/// A finding: something done or missed.
#[derive(Debug, Clone, PartialEq)]
pub struct Finding {
    /// `done` or `miss`.
    pub status: String,
    pub text: String,
    pub assignment_id: String,
}

/// The run and the assignments that a section is about.
#[derive(Debug, Clone, PartialEq)]
pub struct TraceRef {
    pub run_id: String,
    pub assignment_ids: Vec<String>,
}

/// The sources of a span of a section's text.
#[derive(Debug, PartialEq)]
pub struct SourceSpan {
    pub ref_no: u32,
    pub text_span: (u32, u32),
    pub sources: Vec<SourceLoc>,
    pub conflict: bool,
}

/// A block of a member, by its position.
#[derive(Debug, Clone, PartialEq)]
pub struct SourceLoc {
    pub run_id: String,
    pub assignment_id: String,
    pub block_index: u32,
}

/// Something that a run produced.
#[derive(Debug, Clone, PartialEq)]
pub struct ArtifactRef {
    pub kind: String,
    pub label: String,
}

/// A block of a message's content.
#[derive(Debug, PartialEq)]
pub enum Block {
    Text { text: String },
    Image { attachment_id: String, media_type: String },
    Thinking { text: String },
    Tool {
        id: String,
        tool: String,
        summary: String,
        card: BlockCardKind,
        status: BlockToolStatus,
        exit_code: Option<i64>,
        output: Option<String>,
    },
    /// What a run changed.
    RunCard {
        run_id: String,
        commit_sha: Option<String>,
        files_changed: u64,
        insertions: u64,
        deletions: u64,
        interrupted: bool,
    },
    /// A run of a team.
    TeamRun {
        run_id: String,
        goal: Option<TeamGoal>,
        lead: Option<String>,
        members: Vec<MemberSnapshot>,
    },
    /// A worker that a lead sent out.
    DispatchCard { run_id: String, member: MemberSnapshot },
    /// The lead's summary of a run.
    LeadSummary {
        run_id: String,
        /// `lead_synthesis`, `single_passthrough` or `fallback_raw`.
        summary_source: String,
        status: SummaryStatus,
        sections: Vec<SummarySection>,
        findings: Vec<Finding>,
        artifact_refs: Vec<ArtifactRef>,
    },
    /// A question to the user. `kind` and `status` are texts, so that a value that is not known
    /// yet can be kept.
    DecisionCard {
        decision_id: String,
        kind: String,
        question: String,
        options: Vec<String>,
        recommended: Option<String>,
        rationale: Option<String>,
        payload: Json,
        source_run_id: String,
        status: String,
        chosen_option: Option<String>,
        created_at: i64,
    },
    /// A coding task and the phase it is in.
    CodingTask {
        run_id: String,
        assignment_id: String,
        worker_name: String,
        phase: String,
        step_done: Option<i64>,
        step_total: Option<i64>,
        artifact_id: Option<String>,
        verify_cmd: Option<String>,
        detail: Option<String>,
        lead_rationale: Option<String>,
    },
    /// A request for approval.
    Approval {
        approval_id: String,
        run_id: String,
        tool: String,
        command: String,
        summary: String,
        cwd: String,
        request_kind: Option<String>,
        /// `pending`, `approved`, `rejected` or `cancelled`.
        status: String,
    },
    ScopeChange { changes: Vec<ScopeChange> },
    /// The context of the session was summarized.
    ContextCompacted {  },
    /// Early content was cut off, for the context was full.
    ContextTruncated {  },
    /// The end of a run.
    RunTerminal { run_id: String, status: String, message: Option<String> },
}

/// The text that stands for a block in a prompt; none for a block that has none.
pub open spec fn prompt_part(block: Block) -> Option<Seq<char>> {
    match block {
        Block::Text { text } => Some(text@),
        Block::RunCard { files_changed, .. } => Some(
            "[This run changed "@ + text::decimal(files_changed as nat) + " files]"@,
        ),
        _ => None,
    }
}

/// The texts that stand for blocks in a prompt, in order.
pub open spec fn prompt_parts(content: Seq<Block>) -> Seq<Seq<char>>
    decreases content.len(),
{
    if content.len() == 0 {
        Seq::empty()
    } else {
        match prompt_part(content.last()) {
            Some(part) => prompt_parts(content.drop_last()).push(part),
            None => prompt_parts(content.drop_last()),
        }
    }
}

/// The text of blocks, as a prompt holds it: a line for each text, and one for what a run changed.
pub fn blocks_to_text(content: &[Block]) -> (s: String)
    ensures
        s@ == text::joined(prompt_parts(content@), "\n"@),
{
    let mut parts: Vec<String> = Vec::new();
    let mut i: usize = 0;
    assert(text::texts(parts@) =~= prompt_parts(content@.take(0)));
    while i < content.len()
        invariant
            i <= content@.len(),
            text::texts(parts@) == prompt_parts(content@.take(i as int)),
        decreases content.len() - i,
    {
        let ghost was = parts@;
        assert(content@.take(i + 1).drop_last() =~= content@.take(i as int));
        match &content[i] {
            Block::Text { text } => {
                parts.push(text.clone());
                assert(text::texts(parts@) =~= text::texts(was).push(text@));
            },
            Block::RunCard { files_changed, .. } => {
                let part = join3(
                    "[This run changed ",
                    decimal_text(*files_changed).as_str(),
                    " files]",
                );
                let ghost said = part@;
                parts.push(part);
                assert(text::texts(parts@) =~= text::texts(was).push(said));
            },
            _ => {},
        }
        i += 1;
    }
    assert(content@.take(i as int) =~= content@);
    join(&parts, "\n")
}

/// The text that a block is a source of; none for a block that is no text.
pub open spec fn source_text(block: Block) -> Option<Seq<char>> {
    match block {
        Block::Text { text } => Some(text@),
        Block::Thinking { text } => Some(text@),
        _ => None,
    }
}

/// The text that a block is a source of; none for a block that is no text.
pub fn block_source_text(block: &Block) -> (r: Option<String>)
    ensures
        events::opt(r) == source_text(*block),
{
    match block {
        Block::Text { text } => Some(text.clone()),
        Block::Thinking { text } => Some(text.clone()),
        _ => None,
    }
}

} // verus!
