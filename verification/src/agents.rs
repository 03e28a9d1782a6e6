//! The agents that can be put to work, and which of them work on a session.
use vstd::prelude::*;

use crate::clock::{self, now_ms};
use crate::engine::{self, Cell, Datum, Db, DbError, Param, Reply, Request, Step, Trace};
use crate::events::{self, opt_clone};
use crate::json::{self, parse_string_list, print_string_list};
use crate::rows::{
    self,
    find,
    int_at,
    list,
    opt_int_at,
    opt_text_at,
    p_flag,
    p_int,
    p_opt,
    p_opt_int,
    p_opt_text,
    p_text,
    params0,
    params1,
    params3,
    reads_in_order,
    run,
    run_counted,
    text_at,
    FromRow,
    Kind,
    Read,
};
use crate::text::{self, has_text_among, join3, same, trim};
use crate::trace;
use crate::tx;

verus! {

/// An agent that can be put to work.
#[derive(Debug, Clone, PartialEq)]
pub struct AgentProfile {
    pub id: String,
    pub name: String,
    pub access: String,
    pub provider: String,
    pub primary_model: Option<String>,
    pub endpoint: Option<String>,
    pub auth_mode: Option<String>,
    pub model_opus: Option<String>,
    pub model_sonnet: Option<String>,
    pub model_haiku: Option<String>,
    pub model_subagent: Option<String>,
    pub reasoning_default: String,
    pub max_output_tokens: Option<i64>,
    pub api_timeout_ms: Option<i64>,
    pub compat_disable_betas: bool,
    pub compat_disable_nonessential: bool,
    pub compat_disable_thinking: bool,
    pub compat_proxy: Option<String>,
    pub custom_headers: Option<String>,
    pub extra_body: Option<String>,
    pub cap_reasoning: Option<String>,
    pub cap_computer_use: Option<String>,
    pub cap_lead: Option<String>,
    pub has_key: bool,
    pub is_builtin: bool,
    pub enabled: bool,
    pub sort_order: i64,
    pub created_at: i64,
    pub updated_at: i64,
}

impl FromRow for AgentProfile {
    open spec fn reads() -> Seq<Read> {
        rows::in_order(seq![
            Kind::Text,
            Kind::Text,
            Kind::Text,
            Kind::Text,
            Kind::OptText,
            Kind::OptText,
            Kind::OptText,
            Kind::OptText,
            Kind::OptText,
            Kind::OptText,
            Kind::OptText,
            Kind::Text,
            Kind::OptInt,
            Kind::OptInt,
            Kind::Int,
            Kind::Int,
            Kind::Int,
            Kind::OptText,
            Kind::OptText,
            Kind::OptText,
            Kind::OptText,
            Kind::OptText,
            Kind::OptText,
            Kind::Int,
            Kind::Int,
            Kind::Int,
            Kind::Int,
            Kind::Int,
            Kind::Int,
        ])
    }

    open spec fn is_row(self, row: Seq<Datum>) -> bool {
        &&& row[0] == Datum::Text(self.id@)
        &&& row[1] == Datum::Text(self.name@)
        &&& row[2] == Datum::Text(self.access@)
        &&& row[3] == Datum::Text(self.provider@)
        &&& row[4] == rows::opt_text(events::opt(self.primary_model))
        &&& row[5] == rows::opt_text(events::opt(self.endpoint))
        &&& row[6] == rows::opt_text(events::opt(self.auth_mode))
        &&& row[7] == rows::opt_text(events::opt(self.model_opus))
        &&& row[8] == rows::opt_text(events::opt(self.model_sonnet))
        &&& row[9] == rows::opt_text(events::opt(self.model_haiku))
        &&& row[10] == rows::opt_text(events::opt(self.model_subagent))
        &&& row[11] == Datum::Text(self.reasoning_default@)
        &&& row[12] == rows::opt_int(self.max_output_tokens)
        &&& row[13] == rows::opt_int(self.api_timeout_ms)
        &&& rows::reads_as_flag(row[14], self.compat_disable_betas)
        &&& rows::reads_as_flag(row[15], self.compat_disable_nonessential)
        &&& rows::reads_as_flag(row[16], self.compat_disable_thinking)
        &&& row[17] == rows::opt_text(events::opt(self.compat_proxy))
        &&& row[18] == rows::opt_text(events::opt(self.custom_headers))
        &&& row[19] == rows::opt_text(events::opt(self.extra_body))
        &&& row[20] == rows::opt_text(events::opt(self.cap_reasoning))
        &&& row[21] == rows::opt_text(events::opt(self.cap_computer_use))
        &&& row[22] == rows::opt_text(events::opt(self.cap_lead))
        &&& rows::reads_as_flag(row[23], self.has_key)
        &&& rows::reads_as_flag(row[24], self.is_builtin)
        &&& rows::reads_as_flag(row[25], self.enabled)
        &&& row[26] == Datum::Integer(self.sort_order)
        &&& row[27] == Datum::Integer(self.created_at)
        &&& row[28] == Datum::Integer(self.updated_at)
    }

    fn layout() -> (reads: Vec<Read>) {
        let kinds = vec![
            Kind::Text,
            Kind::Text,
            Kind::Text,
            Kind::Text,
            Kind::OptText,
            Kind::OptText,
            Kind::OptText,
            Kind::OptText,
            Kind::OptText,
            Kind::OptText,
            Kind::OptText,
            Kind::Text,
            Kind::OptInt,
            Kind::OptInt,
            Kind::Int,
            Kind::Int,
            Kind::Int,
            Kind::OptText,
            Kind::OptText,
            Kind::OptText,
            Kind::OptText,
            Kind::OptText,
            Kind::OptText,
            Kind::Int,
            Kind::Int,
            Kind::Int,
            Kind::Int,
            Kind::Int,
            Kind::Int,
        ];
        assert(rows::in_order(kinds@) =~= Self::reads());
        reads_in_order(kinds)
    }

    fn from_row(row: &Vec<Cell>) -> (v: Self) {
        proof {
            rows::lemma_cells(row@, Self::reads());
        }
        AgentProfile {
            id: text_at(row, 0),
            name: text_at(row, 1),
            access: text_at(row, 2),
            provider: text_at(row, 3),
            primary_model: opt_text_at(row, 4),
            endpoint: opt_text_at(row, 5),
            auth_mode: opt_text_at(row, 6),
            model_opus: opt_text_at(row, 7),
            model_sonnet: opt_text_at(row, 8),
            model_haiku: opt_text_at(row, 9),
            model_subagent: opt_text_at(row, 10),
            reasoning_default: text_at(row, 11),
            max_output_tokens: opt_int_at(row, 12),
            api_timeout_ms: opt_int_at(row, 13),
            compat_disable_betas: int_at(row, 14) != 0,
            compat_disable_nonessential: int_at(row, 15) != 0,
            compat_disable_thinking: int_at(row, 16) != 0,
            compat_proxy: opt_text_at(row, 17),
            custom_headers: opt_text_at(row, 18),
            extra_body: opt_text_at(row, 19),
            cap_reasoning: opt_text_at(row, 20),
            cap_computer_use: opt_text_at(row, 21),
            cap_lead: opt_text_at(row, 22),
            has_key: int_at(row, 23) != 0,
            is_builtin: int_at(row, 24) != 0,
            enabled: int_at(row, 25) != 0,
            sort_order: int_at(row, 26),
            created_at: int_at(row, 27),
            updated_at: int_at(row, 28),
        }
    }
}

/// The values that store an agent, in the order of its columns.
pub open spec fn agent_data(a: AgentProfile) -> Seq<Datum> {
    seq![
        Datum::Text(a.id@),
        Datum::Text(a.name@),
        Datum::Text(a.access@),
        Datum::Text(a.provider@),
        rows::opt_text(events::opt(a.primary_model)),
        rows::opt_text(events::opt(a.endpoint)),
        rows::opt_text(events::opt(a.auth_mode)),
        rows::opt_text(events::opt(a.model_opus)),
        rows::opt_text(events::opt(a.model_sonnet)),
        rows::opt_text(events::opt(a.model_haiku)),
        rows::opt_text(events::opt(a.model_subagent)),
        Datum::Text(a.reasoning_default@),
        rows::opt_int(a.max_output_tokens),
        rows::opt_int(a.api_timeout_ms),
        rows::flag(a.compat_disable_betas),
        rows::flag(a.compat_disable_nonessential),
        rows::flag(a.compat_disable_thinking),
        rows::opt_text(events::opt(a.compat_proxy)),
        rows::opt_text(events::opt(a.custom_headers)),
        rows::opt_text(events::opt(a.extra_body)),
        rows::opt_text(events::opt(a.cap_reasoning)),
        rows::opt_text(events::opt(a.cap_computer_use)),
        rows::opt_text(events::opt(a.cap_lead)),
        rows::flag(a.has_key),
        rows::flag(a.is_builtin),
        rows::flag(a.enabled),
        Datum::Integer(a.sort_order),
        Datum::Integer(a.created_at),
        Datum::Integer(a.updated_at),
    ]
}

fn agent_params(a: &AgentProfile) -> (params: Vec<Param>)
    ensures
        engine::bound_data(params@) == agent_data(*a),
{
    let mut params: Vec<Param> = Vec::new();
    params.push(p_text(a.id.as_str()));
    params.push(p_text(a.name.as_str()));
    params.push(p_text(a.access.as_str()));
    params.push(p_text(a.provider.as_str()));
    params.push(p_opt(&a.primary_model));
    params.push(p_opt(&a.endpoint));
    params.push(p_opt(&a.auth_mode));
    params.push(p_opt(&a.model_opus));
    params.push(p_opt(&a.model_sonnet));
    params.push(p_opt(&a.model_haiku));
    params.push(p_opt(&a.model_subagent));
    params.push(p_text(a.reasoning_default.as_str()));
    params.push(p_opt_int(a.max_output_tokens));
    params.push(p_opt_int(a.api_timeout_ms));
    params.push(p_flag(a.compat_disable_betas));
    params.push(p_flag(a.compat_disable_nonessential));
    params.push(p_flag(a.compat_disable_thinking));
    params.push(p_opt(&a.compat_proxy));
    params.push(p_opt(&a.custom_headers));
    params.push(p_opt(&a.extra_body));
    params.push(p_opt(&a.cap_reasoning));
    params.push(p_opt(&a.cap_computer_use));
    params.push(p_opt(&a.cap_lead));
    params.push(p_flag(a.has_key));
    params.push(p_flag(a.is_builtin));
    params.push(p_flag(a.enabled));
    params.push(p_int(a.sort_order));
    params.push(p_int(a.created_at));
    params.push(p_int(a.updated_at));
    assert(engine::bound_data(params@) =~= agent_data(*a));
    params
}

pub const SQL_LIST_AGENTS: &'static str = "SELECT id, name, access, provider, primary_model, endpoint, auth_mode, model_opus, model_sonnet, \
     model_haiku, model_subagent, reasoning_default, max_output_tokens, api_timeout_ms, \
     compat_disable_betas, compat_disable_nonessential, compat_disable_thinking, compat_proxy, \
     custom_headers, extra_body, cap_reasoning, cap_computer_use, cap_lead, has_key, is_builtin, \
     enabled, sort_order, created_at, updated_at FROM agents ORDER BY sort_order ASC, id ASC";

/// All agents, in their order.
pub fn list_agents(db: &mut Db) -> (r: Result<Vec<AgentProfile>, DbError>)
    ensures
        rows::listed(old(db)@, final(db)@, SQL_LIST_AGENTS@, Seq::<Datum>::empty(), r),
{
    list(db, SQL_LIST_AGENTS, params0())
}

pub const SQL_GET_AGENT: &'static str = "SELECT id, name, access, provider, primary_model, endpoint, auth_mode, model_opus, model_sonnet, \
     model_haiku, model_subagent, reasoning_default, max_output_tokens, api_timeout_ms, \
     compat_disable_betas, compat_disable_nonessential, compat_disable_thinking, compat_proxy, \
     custom_headers, extra_body, cap_reasoning, cap_computer_use, cap_lead, has_key, is_builtin, \
     enabled, sort_order, created_at, updated_at FROM agents WHERE id = ?1";

/// An agent was read.
pub open spec fn agent_read(
    pre: Trace,
    post: Trace,
    id: Seq<char>,
    r: Result<Option<AgentProfile>, DbError>,
) -> bool {
    rows::found(pre, post, SQL_GET_AGENT@, seq![Datum::Text(id)], r)
}

/// An agent, if there is one.
pub fn get_agent(db: &mut Db, id: &str) -> (r: Result<Option<AgentProfile>, DbError>)
    ensures
        agent_read(old(db)@, final(db)@, id@, r),
{
    find(db, SQL_GET_AGENT, params1(p_text(id)))
}

pub const SQL_UPSERT_AGENT: &'static str = "INSERT INTO agents (
            id, name, access, provider, primary_model, endpoint, auth_mode, model_opus,
            model_sonnet, model_haiku, model_subagent, reasoning_default, max_output_tokens,
            api_timeout_ms, compat_disable_betas, compat_disable_nonessential,
            compat_disable_thinking, compat_proxy, custom_headers, extra_body, cap_reasoning,
            cap_computer_use, cap_lead, has_key, is_builtin, enabled, sort_order, created_at,
            updated_at
        ) VALUES (
            ?1, ?2, ?3, ?4, ?5, ?6, ?7, ?8, ?9, ?10, ?11, ?12, ?13, ?14, ?15, ?16, ?17,
            ?18, ?19, ?20, ?21, ?22, ?23, ?24, ?25, ?26, ?27, ?28, ?29
        )
        ON CONFLICT(id) DO UPDATE SET
            name = excluded.name,
            access = excluded.access,
            provider = excluded.provider,
            primary_model = excluded.primary_model,
            endpoint = excluded.endpoint,
            auth_mode = excluded.auth_mode,
            model_opus = excluded.model_opus,
            model_sonnet = excluded.model_sonnet,
            model_haiku = excluded.model_haiku,
            model_subagent = excluded.model_subagent,
            reasoning_default = excluded.reasoning_default,
            max_output_tokens = excluded.max_output_tokens,
            api_timeout_ms = excluded.api_timeout_ms,
            compat_disable_betas = excluded.compat_disable_betas,
            compat_disable_nonessential = excluded.compat_disable_nonessential,
            compat_disable_thinking = excluded.compat_disable_thinking,
            compat_proxy = excluded.compat_proxy,
            custom_headers = excluded.custom_headers,
            extra_body = excluded.extra_body,
            cap_reasoning = excluded.cap_reasoning,
            cap_computer_use = excluded.cap_computer_use,
            cap_lead = excluded.cap_lead,
            has_key = excluded.has_key,
            is_builtin = excluded.is_builtin,
            enabled = excluded.enabled,
            sort_order = excluded.sort_order,
            updated_at = excluded.updated_at";

/// An agent was stored.
pub open spec fn agent_stored(
    pre: Trace,
    post: Trace,
    a: AgentProfile,
    r: Result<(), DbError>,
) -> bool {
    rows::executed(pre, post, SQL_UPSERT_AGENT@, agent_data(a), r)
}

/// Stores an agent, over the one with its id.
pub fn upsert_agent(db: &mut Db, a: &AgentProfile) -> (r: Result<(), DbError>)
    ensures
        agent_stored(old(db)@, final(db)@, *a, r),
{
    run(db, SQL_UPSERT_AGENT, agent_params(a))
}

/// An agent that is there from the start, as far as it differs from others of its kind.
#[derive(Debug, Clone, PartialEq)]
pub struct BuiltinAgent {
    /// Its id, which is its provider too.
    pub id: String,
    pub name: String,
    /// The reasoning levels that it has.
    pub cap_reasoning: String,
    /// The part that it may lead.
    pub cap_lead: Option<String>,
}

/// The values that store a builtin agent at a place in the order, as of a time.
pub open spec fn builtin_data(agent: BuiltinAgent, sort_order: i64, now: i64) -> Seq<Datum> {
    seq![
        Datum::Text(agent.id@),
        Datum::Text(agent.name@),
        Datum::Text("native"@),
        Datum::Text(agent.id@),
        Datum::Null,
        Datum::Null,
        Datum::Null,
        Datum::Null,
        Datum::Null,
        Datum::Null,
        Datum::Null,
        Datum::Text("auto"@),
        Datum::Null,
        Datum::Null,
        rows::flag(false),
        rows::flag(false),
        rows::flag(false),
        Datum::Null,
        Datum::Null,
        Datum::Null,
        Datum::Text(agent.cap_reasoning@),
        Datum::Null,
        rows::opt_text(events::opt(agent.cap_lead)),
        rows::flag(false),
        rows::flag(true),
        rows::flag(true),
        Datum::Integer(sort_order),
        Datum::Integer(now),
        Datum::Integer(now),
    ]
}

fn builtin_profile(agent: &BuiltinAgent, sort_order: i64, now: i64) -> (a: AgentProfile)
    ensures
        agent_data(a) == builtin_data(*agent, sort_order, now),
{
    let a = AgentProfile {
        id: agent.id.clone(),
        name: agent.name.clone(),
        access: "native".to_string(),
        provider: agent.id.clone(),
        primary_model: None,
        endpoint: None,
        auth_mode: None,
        model_opus: None,
        model_sonnet: None,
        model_haiku: None,
        model_subagent: None,
        reasoning_default: "auto".to_string(),
        max_output_tokens: None,
        api_timeout_ms: None,
        compat_disable_betas: false,
        compat_disable_nonessential: false,
        compat_disable_thinking: false,
        compat_proxy: None,
        custom_headers: None,
        extra_body: None,
        cap_reasoning: Some(agent.cap_reasoning.clone()),
        cap_computer_use: None,
        cap_lead: opt_clone(&agent.cap_lead),
        has_key: false,
        is_builtin: true,
        enabled: true,
        sort_order,
        created_at: now,
        updated_at: now,
    };
    assert(agent_data(a) =~= builtin_data(*agent, sort_order, now));
    a
}

pub const SQL_REFRESH_BUILTIN: &'static str = "UPDATE agents SET cap_lead = ?2, cap_reasoning = ?3 WHERE id = ?1 AND is_builtin = 1";

/// What a builtin agent that was looked up was seeded as: stored where it was not there, refreshed
/// where it was.
pub open spec fn seeded_as_found(
    mid: Trace,
    post: Trace,
    agent: BuiltinAgent,
    sort_order: i64,
    now: i64,
    got: Result<Option<AgentProfile>, DbError>,
    r: Result<(), DbError>,
) -> bool {
    match got {
        Ok(None) => rows::executed(
            mid,
            post,
            SQL_UPSERT_AGENT@,
            builtin_data(agent, sort_order, now),
            r,
        ),
        Ok(Some(_)) => rows::executed(
            mid,
            post,
            SQL_REFRESH_BUILTIN@,
            seq![
                Datum::Text(agent.id@),
                rows::opt_text(events::opt(agent.cap_lead)),
                Datum::Text(agent.cap_reasoning@),
            ],
            r,
        ),
        Err(e) => post == mid && r == Err::<(), DbError>(e),
    }
}

/// A builtin agent was stored where it is not there; where it is, only what it may lead and how it
/// reasons were set again, and only if it is a builtin one.
pub open spec fn builtin_seeded(
    pre: Trace,
    post: Trace,
    agent: BuiltinAgent,
    sort_order: i64,
    now: i64,
    r: Result<(), DbError>,
) -> bool {
    exists|mid: Trace, got: Result<Option<AgentProfile>, DbError>|
        {
            &&& #[trigger] agent_read(pre, mid, agent.id@, got)
            &&& seeded_as_found(mid, post, agent, sort_order, now, got, r)
        }
}

fn seed_builtin(db: &mut Db, agent: &BuiltinAgent, sort_order: i64, now: i64) -> (r: Result<
    (),
    DbError,
>)
    ensures
        builtin_seeded(old(db)@, final(db)@, *agent, sort_order, now, r),
{
    let got = get_agent(db, agent.id.as_str());
    assert(agent_read(old(db)@, db@, agent.id@, got));
    match got {
        Ok(None) => {
            let profile = builtin_profile(agent, sort_order, now);
            upsert_agent(db, &profile)
        },
        Ok(Some(_)) => run(
            db,
            SQL_REFRESH_BUILTIN,
            params3(
                p_text(agent.id.as_str()),
                p_opt(&agent.cap_lead),
                p_text(agent.cap_reasoning.as_str()),
            ),
        ),
        Err(e) => Err(e),
    }
}

/// The builtin agents after the one at the position `from` were seeded too, unless that one failed.
pub open spec fn seeded_on(
    mid: Trace,
    post: Trace,
    agents: Seq<BuiltinAgent>,
    from: nat,
    now: i64,
    one: Result<(), DbError>,
    r: Result<(), DbError>,
) -> bool
    decreases agents.len() - from, 0nat,
{
    &&& from < agents.len()
    &&& match one {
        Ok(()) => builtins_seeded(mid, post, agents, from + 1, now, r),
        Err(e) => post == mid && r == one,
    }
}

/// Builtin agents were seeded, from the position `from` on, each at its position in the order.
pub open spec fn builtins_seeded(
    pre: Trace,
    post: Trace,
    agents: Seq<BuiltinAgent>,
    from: nat,
    now: i64,
    r: Result<(), DbError>,
) -> bool
    decreases agents.len() - from, 1nat,
{
    if from >= agents.len() {
        post == pre && r is Ok
    } else {
        exists|mid: Trace, one: Result<(), DbError>|
            {
                &&& #[trigger] builtin_seeded(
                    pre,
                    mid,
                    agents[from as int],
                    from as i64,
                    now,
                    one,
                )
                &&& seeded_on(mid, post, agents, from, now, one, r)
            }
    }
}

/// Whether a builtin agent is as given.
pub open spec fn is_builtin_agent(
    agent: BuiltinAgent,
    id: Seq<char>,
    name: Seq<char>,
    cap_reasoning: Seq<char>,
    cap_lead: Option<Seq<char>>,
) -> bool {
    &&& agent.id@ == id
    &&& agent.name@ == name
    &&& agent.cap_reasoning@ == cap_reasoning
    &&& events::opt(agent.cap_lead) == cap_lead
}

/// Whether agents are the builtin ones, in their order: the agent of the command line tool, which
/// may lead as such a tool does, and Codex.
pub open spec fn are_builtin_agents(
    agents: Seq<BuiltinAgent>,
    tool_id: Seq<char>,
    tool_name: Seq<char>,
) -> bool {
    &&& agents.len() == 2
    &&& is_builtin_agent(
        agents[0],
        tool_id,
        tool_name,
        "low,medium,high,xhigh,max"@,
        Some("native_cli"@),
    )
    &&& is_builtin_agent(agents[1], "codex"@, "Codex"@, "minimal,low,medium,high,xhigh"@, None)
}

/// The builtin agents, in their order; of the first, the id and the name are given.
pub fn builtin_agents(tool_id: &str, tool_name: &str) -> (agents: Vec<BuiltinAgent>)
    ensures
        are_builtin_agents(agents@, tool_id@, tool_name@),
{
    let mut agents: Vec<BuiltinAgent> = Vec::new();
    agents.push(
        BuiltinAgent {
            id: tool_id.to_string(),
            name: tool_name.to_string(),
            cap_reasoning: "low,medium,high,xhigh,max".to_string(),
            cap_lead: Some("native_cli".to_string()),
        },
    );
    agents.push(
        BuiltinAgent {
            id: "codex".to_string(),
            name: "Codex".to_string(),
            cap_reasoning: "minimal,low,medium,high,xhigh".to_string(),
            cap_lead: None,
        },
    );
    agents
}

fn seed_all(db: &mut Db, agents: &Vec<BuiltinAgent>, now: i64) -> (r: Result<(), DbError>)
    ensures
        builtins_seeded(old(db)@, final(db)@, agents@, 0, now, r),
{
    let mut i: usize = 0;
    while i < agents.len()
        invariant
            i <= agents@.len(),
            forall|post: Trace, r: Result<(), DbError>| #[trigger]
                builtins_seeded(db@, post, agents@, i as nat, now, r) ==> builtins_seeded(
                    old(db)@,
                    post,
                    agents@,
                    0,
                    now,
                    r,
                ),
        decreases agents.len() - i,
    {
        let ghost before = db@;
        let ghost at = i as nat;
        let one = seed_builtin(db, &agents[i], i as i64, now);
        assert(builtin_seeded(before, db@, agents@[at as int], at as i64, now, one));
        match one {
            Ok(()) => {},
            Err(e) => {
                assert(builtins_seeded(before, db@, agents@, at, now, one));
                return Err(e);
            },
        }
        i += 1;
        assert forall|post: Trace, r: Result<(), DbError>| #[trigger]
            builtins_seeded(db@, post, agents@, i as nat, now, r) implies builtins_seeded(
            old(db)@,
            post,
            agents@,
            0,
            now,
            r,
        ) by {
            assert(i as nat == at + 1);
            assert(builtins_seeded(before, post, agents@, at, now, r));
        }
    }
    assert(builtins_seeded(db@, db@, agents@, i as nat, now, Ok::<(), DbError>(())));
    Ok(())
}

/// Makes sure that the builtin agents are there, in their order, as of the time that the clock
/// shows; of the first, the id and the name are given. One that is there keeps what the user set.
pub fn seed_builtin_agents(db: &mut Db, tool_id: &str, tool_name: &str) -> (r: Result<(), DbError>)
    ensures
        exists|agents: Seq<BuiltinAgent>, now: i64|
            {
                &&& are_builtin_agents(agents, tool_id@, tool_name@)
                &&& clock::is_time(now)
                &&& #[trigger] builtins_seeded(old(db)@, final(db)@, agents, 0, now, r)
            },
{
    let agents = builtin_agents(tool_id, tool_name);
    let now = now_ms();
    let r = seed_all(db, &agents, now);
    assert(builtins_seeded(old(db)@, db@, agents@, 0, now, r));
    r
}

/// What the row of an agent becomes when a builtin one is seeded again, as the statement
/// `SQL_REFRESH_BUILTIN` says: its two capabilities are set, where the row is that of a builtin
/// agent. The values of a row stand in the order in which `agent_data` has them.
pub open spec fn refreshed_row(row: Seq<Datum>, cap_lead: Datum, cap_reasoning: Datum) -> Seq<Datum> {
    if row[24] == Datum::Integer(1) {
        row.update(20, cap_reasoning).update(22, cap_lead)
    } else {
        row
    }
}

/// Whether two agents are the same but for their two capabilities.
pub open spec fn same_but_capabilities(a: AgentProfile, b: AgentProfile) -> bool {
    &&& same_but_times(b, a, events::opt(b.cap_reasoning), events::opt(b.cap_lead))
    &&& b.created_at == a.created_at
    &&& b.updated_at == a.updated_at
}

/// Whether an agent is another one, with the given capabilities, its times left aside.
pub open spec fn same_but_times(
    b: AgentProfile,
    a: AgentProfile,
    cap_reasoning: Option<Seq<char>>,
    cap_lead: Option<Seq<char>>,
) -> bool {
    &&& b.id@ == a.id@
    &&& b.name@ == a.name@
    &&& b.access@ == a.access@
    &&& b.provider@ == a.provider@
    &&& events::opt(b.primary_model) == events::opt(a.primary_model)
    &&& events::opt(b.endpoint) == events::opt(a.endpoint)
    &&& events::opt(b.auth_mode) == events::opt(a.auth_mode)
    &&& events::opt(b.model_opus) == events::opt(a.model_opus)
    &&& events::opt(b.model_sonnet) == events::opt(a.model_sonnet)
    &&& events::opt(b.model_haiku) == events::opt(a.model_haiku)
    &&& events::opt(b.model_subagent) == events::opt(a.model_subagent)
    &&& b.reasoning_default@ == a.reasoning_default@
    &&& b.max_output_tokens == a.max_output_tokens
    &&& b.api_timeout_ms == a.api_timeout_ms
    &&& b.compat_disable_betas == a.compat_disable_betas
    &&& b.compat_disable_nonessential == a.compat_disable_nonessential
    &&& b.compat_disable_thinking == a.compat_disable_thinking
    &&& events::opt(b.compat_proxy) == events::opt(a.compat_proxy)
    &&& events::opt(b.custom_headers) == events::opt(a.custom_headers)
    &&& events::opt(b.extra_body) == events::opt(a.extra_body)
    &&& events::opt(b.cap_reasoning) == cap_reasoning
    &&& events::opt(b.cap_computer_use) == events::opt(a.cap_computer_use)
    &&& events::opt(b.cap_lead) == cap_lead
    &&& b.has_key == a.has_key
    &&& b.is_builtin == a.is_builtin
    &&& b.enabled == a.enabled
    &&& b.sort_order == a.sort_order
}

proof fn lemma_same_texts(a: Option<Seq<char>>, b: Option<Seq<char>>)
    requires
        rows::opt_text(a) == rows::opt_text(b),
    ensures
        a == b,
{
}

proof fn lemma_same_row(a: AgentProfile, b: AgentProfile, ra: Seq<Datum>, rb: Seq<Datum>)
    requires
        a.is_row(ra),
        b.is_row(rb),
        forall|i: int| 0 <= i < 27 && i != 20 && i != 22 ==> #[trigger] ra[i] == rb[i],
    ensures
        same_but_times(b, a, events::opt(b.cap_reasoning), events::opt(b.cap_lead)),
{
    assert(ra[0] == rb[0] && ra[1] == rb[1] && ra[2] == rb[2] && ra[3] == rb[3]);
    assert(ra[4] == rb[4] && ra[5] == rb[5] && ra[6] == rb[6] && ra[7] == rb[7]);
    assert(ra[8] == rb[8] && ra[9] == rb[9] && ra[10] == rb[10] && ra[11] == rb[11]);
    assert(ra[12] == rb[12] && ra[13] == rb[13] && ra[14] == rb[14] && ra[15] == rb[15]);
    assert(ra[16] == rb[16] && ra[17] == rb[17] && ra[18] == rb[18] && ra[19] == rb[19]);
    assert(ra[21] == rb[21] && ra[23] == rb[23] && ra[24] == rb[24] && ra[25] == rb[25]);
    assert(ra[26] == rb[26]);
    lemma_same_texts(events::opt(a.primary_model), events::opt(b.primary_model));
    lemma_same_texts(events::opt(a.endpoint), events::opt(b.endpoint));
    lemma_same_texts(events::opt(a.auth_mode), events::opt(b.auth_mode));
    lemma_same_texts(events::opt(a.model_opus), events::opt(b.model_opus));
    lemma_same_texts(events::opt(a.model_sonnet), events::opt(b.model_sonnet));
    lemma_same_texts(events::opt(a.model_haiku), events::opt(b.model_haiku));
    lemma_same_texts(events::opt(a.model_subagent), events::opt(b.model_subagent));
    lemma_same_texts(events::opt(a.compat_proxy), events::opt(b.compat_proxy));
    lemma_same_texts(events::opt(a.custom_headers), events::opt(b.custom_headers));
    lemma_same_texts(events::opt(a.extra_body), events::opt(b.extra_body));
    lemma_same_texts(events::opt(a.cap_computer_use), events::opt(b.cap_computer_use));
}

/// The step by which a builtin agent that is there already is seeded again.
pub open spec fn is_refresh(step: Step, agent: BuiltinAgent) -> bool {
    tx::asks(
        step,
        Request::Execute {
            sql: SQL_REFRESH_BUILTIN@,
            params: seq![
                Datum::Text(agent.id@),
                rows::opt_text(events::opt(agent.cap_lead)),
                Datum::Text(agent.cap_reasoning@),
            ],
        },
    )
}

/// Whether a step shows a row.
pub open spec fn shows_row(step: Step) -> bool {
    step matches Step::Asked { reply: Reply::Row(Some(_)), .. }
}

/// To seed a builtin agent that is there already asks for nothing but its two capabilities to be
/// set: it is looked up, and no agent is stored.
pub proof fn law_seeding_again_refreshes(
    pre: Trace,
    post: Trace,
    agent: BuiltinAgent,
    sort_order: i64,
    now: i64,
    r: Result<(), DbError>,
)
    requires
        builtin_seeded(pre, post, agent, sort_order, now, r),
        shows_row(post[pre.len() as int]),
    ensures
        trace::extends(pre, post),
        post.len() == pre.len() + 2,
        trace::queries(post[pre.len() as int], SQL_GET_AGENT@),
        is_refresh(post[pre.len() as int + 1], agent),
{
    let (mid, got) = choose|mid: Trace, got: Result<Option<AgentProfile>, DbError>|
        {
            &&& #[trigger] agent_read(pre, mid, agent.id@, got)
            &&& seeded_as_found(mid, post, agent, sort_order, now, got, r)
        };
    assert(mid.take(pre.len() as int) =~= pre);
    if got is Ok {
        assert(post.take(mid.len() as int) =~= mid);
        trace::lemma_extends_further(pre, mid, post);
    }
}

/// To seed both builtin agents again, where both are there, sets the two capabilities of each and
/// asks for no other change.
pub proof fn law_seeding_all_again_refreshes(
    pre: Trace,
    post: Trace,
    agents: Seq<BuiltinAgent>,
    now: i64,
)
    requires
        agents.len() == 2,
        builtins_seeded(pre, post, agents, 0, now, Ok::<(), DbError>(())),
        shows_row(post[pre.len() as int]),
        shows_row(post[pre.len() as int + 2]),
    ensures
        trace::extends(pre, post),
        post.len() == pre.len() + 4,
        trace::queries(post[pre.len() as int], SQL_GET_AGENT@),
        is_refresh(post[pre.len() as int + 1], agents[0]),
        trace::queries(post[pre.len() as int + 2], SQL_GET_AGENT@),
        is_refresh(post[pre.len() as int + 3], agents[1]),
{
    let done = Ok::<(), DbError>(());
    let (mid, one) = choose|mid: Trace, one: Result<(), DbError>|
        {
            &&& #[trigger] builtin_seeded(pre, mid, agents[0], 0 as i64, now, one)
            &&& seeded_on(mid, post, agents, 0, now, one, done)
        };
    let (last, two) = choose|last: Trace, two: Result<(), DbError>|
        {
            &&& #[trigger] builtin_seeded(mid, last, agents[1], 1 as i64, now, two)
            &&& seeded_on(last, post, agents, 1, now, two, done)
        };
    assert(post == last);
    lemma_seeding_extends(pre, mid, agents[0], 0, now, one);
    lemma_seeding_extends(mid, post, agents[1], 1, now, two);
    trace::lemma_extends_further(pre, mid, post);
    law_seeding_again_refreshes(pre, mid, agents[0], 0, now, one);
    law_seeding_again_refreshes(mid, post, agents[1], 1, now, two);
}

proof fn lemma_seeding_extends(
    pre: Trace,
    post: Trace,
    agent: BuiltinAgent,
    sort_order: i64,
    now: i64,
    r: Result<(), DbError>,
)
    requires
        builtin_seeded(pre, post, agent, sort_order, now, r),
    ensures
        trace::extends(pre, post),
        pre.len() < post.len() <= pre.len() + 2,
        r is Ok ==> post.len() == pre.len() + 2,
{
    let (mid, got) = choose|mid: Trace, got: Result<Option<AgentProfile>, DbError>|
        {
            &&& #[trigger] agent_read(pre, mid, agent.id@, got)
            &&& seeded_as_found(mid, post, agent, sort_order, now, got, r)
        };
    assert(mid.take(pre.len() as int) =~= pre);
    if got is Ok {
        assert(post.take(mid.len() as int) =~= mid);
        trace::lemma_extends_further(pre, mid, post);
    }
}

/// An agent whose row was refreshed is the same but for its two capabilities, and one that is not
/// builtin is the same in all.
pub proof fn law_refreshing_keeps_the_rest(
    row: Seq<Datum>,
    cap_lead: Datum,
    cap_reasoning: Datum,
    a: AgentProfile,
    b: AgentProfile,
)
    requires
        row.len() == 29,
        a.is_row(row),
        b.is_row(refreshed_row(row, cap_lead, cap_reasoning)),
    ensures
        same_but_capabilities(a, b),
        !a.is_builtin ==> events::opt(b.cap_lead) == events::opt(a.cap_lead) && events::opt(
            b.cap_reasoning,
        ) == events::opt(a.cap_reasoning),
{
    lemma_same_row(a, b, row, refreshed_row(row, cap_lead, cap_reasoning));
    if !a.is_builtin {
        lemma_same_texts(events::opt(a.cap_lead), events::opt(b.cap_lead));
        lemma_same_texts(events::opt(a.cap_reasoning), events::opt(b.cap_reasoning));
    }
}

/// The row that an agent is stored as, as the statement `SQL_UPSERT_AGENT` says: the values that it
/// is stored with but, where it was there before, the time at which it was made then. The values of
/// a row stand in the order in which `agent_data` has them.
pub open spec fn upserted_row(data: Seq<Datum>, before: Option<Seq<Datum>>) -> Seq<Datum> {
    match before {
        Some(row) => data.update(27, row[27]),
        None => data,
    }
}

/// What was stored is what is read: an agent whose row is the one that storing an agent leaves is
/// that agent, made when it was made first.
pub proof fn law_stored_agent_is_read(
    pre: Trace,
    mid: Trace,
    later: Trace,
    post: Trace,
    a: AgentProfile,
    before: Option<Seq<Datum>>,
    b: AgentProfile,
)
    requires
        agent_stored(pre, mid, a, Ok::<(), DbError>(())),
        agent_read(later, post, a.id@, Ok::<Option<AgentProfile>, DbError>(Some(b))),
        rows::reply_to(post) == Reply::Row(
            Some(upserted_row(mid.last()->request->Execute_params, before)),
        ),
    ensures
        same_but_times(b, a, events::opt(a.cap_reasoning), events::opt(a.cap_lead)),
        b.updated_at == a.updated_at,
        before is None ==> b.created_at == a.created_at,
        before matches Some(row) ==> row[27] == Datum::Integer(b.created_at),
{
    let data = agent_data(a);
    assert(mid.last()->request->Execute_params == data);
    let row = upserted_row(data, before);
    assert(b.is_row(row));
    assert(a.is_row(data));
    lemma_same_row(a, b, data, row);
    lemma_same_texts(events::opt(a.cap_lead), events::opt(b.cap_lead));
    lemma_same_texts(events::opt(a.cap_reasoning), events::opt(b.cap_reasoning));
}

/// The id that a text stands for: the text without the white space around it, none where nothing
/// is left.
pub open spec fn agent_id_of(text: Seq<char>) -> Option<Seq<char>> {
    if text::trimmed(text).len() == 0 {
        None
    } else {
        Some(text::trimmed(text))
    }
}

/// The id that a text stands for.
pub fn normalize_agent_id(id: String) -> (r: Option<String>)
    ensures
        events::opt(r) == agent_id_of(id@),
{
    let trimmed_id = trim(id.as_str());
    if same(trimmed_id.as_str(), "") {
        proof {
            reveal_strlit("");
        }
        None
    } else {
        proof {
            reveal_strlit("");
            if trimmed_id@.len() == 0 {
                assert(trimmed_id@ =~= ""@);
            }
        }
        Some(trimmed_id)
    }
}

/// The members that a list stands for: their ids, each once and in order, without the lead's.
pub open spec fn members_among(ids: Seq<Seq<char>>, lead: Option<Seq<char>>) -> Seq<Seq<char>>
    decreases ids.len(),
{
    if ids.len() == 0 {
        Seq::empty()
    } else {
        let rest = members_among(ids.drop_last(), lead);
        match agent_id_of(ids.last()) {
            Some(id) => if Some(id) == lead || rest.contains(id) {
                rest
            } else {
                rest.push(id)
            },
            None => rest,
        }
    }
}

/// The members that a list stands for.
pub fn normalize_member_agent_ids(
    member_agent_ids: Vec<String>,
    lead_agent_id: Option<&str>,
) -> (out: Vec<String>)
    ensures
        text::texts(out@) == members_among(
            text::texts(member_agent_ids@),
            events::opt_str(lead_agent_id),
        ),
{
    let ghost all = text::texts(member_agent_ids@);
    let ghost lead = events::opt_str(lead_agent_id);
    let mut out: Vec<String> = Vec::new();
    let mut i: usize = 0;
    assert(text::texts(out@) =~= members_among(all.take(0), lead));
    while i < member_agent_ids.len()
        invariant
            all == text::texts(member_agent_ids@),
            lead == events::opt_str(lead_agent_id),
            i <= member_agent_ids@.len(),
            text::texts(out@) == members_among(all.take(i as int), lead),
        decreases member_agent_ids.len() - i,
    {
        assert(all.take(i + 1).drop_last() =~= all.take(i as int));
        assert(all.take(i + 1).last() == member_agent_ids@[i as int]@);
        match normalize_agent_id(member_agent_ids[i].clone()) {
            Some(id) => {
                let is_lead = match lead_agent_id {
                    Some(l) => same(id.as_str(), l),
                    None => false,
                };
                if !is_lead && !has_text_among(&out, id.as_str()) {
                    let ghost was = out@;
                    let ghost said = id@;
                    out.push(id);
                    assert(text::texts(out@) =~= text::texts(was).push(said));
                }
            },
            None => {},
        }
        i += 1;
    }
    assert(all.take(i as int) =~= all);
    out
}

/// An id does not change when it is read as one again.
pub proof fn law_agent_id_is_stable(text: Seq<char>)
    ensures
        agent_id_of(text) matches Some(id) ==> agent_id_of(id) == Some(id) && id.len() > 0,
{
    text::lemma_trimmed_twice(text);
}

/// The members of a list are distinct, none is the lead, and each is an id as it stands.
pub proof fn law_members_are_distinct(ids: Seq<Seq<char>>, lead: Option<Seq<char>>)
    ensures
        members_among(ids, lead).no_duplicates(),
        forall|i: int|
            0 <= i < members_among(ids, lead).len() ==> {
                &&& Some(#[trigger] members_among(ids, lead)[i]) != lead
                &&& agent_id_of(members_among(ids, lead)[i]) == Some(members_among(ids, lead)[i])
            },
    decreases ids.len(),
{
    if ids.len() > 0 {
        law_members_are_distinct(ids.drop_last(), lead);
        law_agent_id_is_stable(ids.last());
    }
}

/// Members that are normalized again stay what they are.
pub proof fn law_members_are_stable(ids: Seq<Seq<char>>, lead: Option<Seq<char>>)
    ensures
        members_among(members_among(ids, lead), lead) == members_among(ids, lead),
{
    law_members_are_distinct(ids, lead);
    lemma_distinct_members_stay(members_among(ids, lead), lead);
}

proof fn lemma_distinct_members_stay(ids: Seq<Seq<char>>, lead: Option<Seq<char>>)
    requires
        ids.no_duplicates(),
        forall|i: int|
            0 <= i < ids.len() ==> Some(#[trigger] ids[i]) != lead && agent_id_of(ids[i]) == Some(
                ids[i],
            ),
    ensures
        members_among(ids, lead) == ids,
    decreases ids.len(),
{
    if ids.len() > 0 {
        let head = ids.drop_last();
        assert forall|i: int| 0 <= i < head.len() implies Some(#[trigger] head[i]) != lead
            && agent_id_of(head[i]) == Some(head[i]) by {
            assert(head[i] == ids[i]);
        }
        lemma_distinct_members_stay(head, lead);
        assert(ids.last() == ids[ids.len() - 1]);
        assert(!head.contains(ids.last()));
        assert(ids =~= head.push(ids.last()));
    } else {
        assert(members_among(ids, lead) =~= ids);
    }
}

/// A row of which nothing is read.
impl FromRow for () {
    open spec fn reads() -> Seq<Read> {
        Seq::empty()
    }

    open spec fn is_row(self, row: Seq<Datum>) -> bool {
        true
    }

    fn layout() -> (reads: Vec<Read>) {
        Vec::new()
    }

    fn from_row(row: &Vec<Cell>) -> (v: Self) {
    }
}

pub const SQL_LOOK_UP_SESSION: &'static str = "SELECT 1 FROM sessions WHERE id = ?1 LIMIT 1";

/// A session was looked up.
pub open spec fn session_looked_up(
    pre: Trace,
    post: Trace,
    session_id: Seq<char>,
    r: Result<Option<()>, DbError>,
) -> bool {
    rows::found(pre, post, SQL_LOOK_UP_SESSION@, seq![Datum::Text(session_id)], r)
}

fn look_up_session(db: &mut Db, session_id: &str) -> (r: Result<Option<()>, DbError>)
    ensures
        session_looked_up(old(db)@, final(db)@, session_id@, r),
{
    find(db, SQL_LOOK_UP_SESSION, params1(p_text(session_id)))
}

/// Whether a result is the violation of a rule, reported by a text.
pub open spec fn violates<T>(r: Result<T, DbError>, said: Seq<char>) -> bool {
    r matches Err(DbError::Constraint(s)) && s@ == said
}

/// A session was required to exist.
pub open spec fn session_required(
    pre: Trace,
    post: Trace,
    session_id: Seq<char>,
    r: Result<(), DbError>,
) -> bool {
    exists|got: Result<Option<()>, DbError>|
        {
            &&& #[trigger] session_looked_up(pre, post, session_id, got)
            &&& match got {
                Ok(Some(_)) => r is Ok,
                Ok(None) => violates(r, "session "@ + session_id + " does not exist"@),
                Err(e) => r == Err::<(), DbError>(e),
            }
        }
}

/// Requires that a session exists.
pub fn require_session_exists(db: &mut Db, session_id: &str) -> (r: Result<(), DbError>)
    ensures
        session_required(old(db)@, final(db)@, session_id@, r),
{
    match look_up_session(db, session_id) {
        Ok(Some(_)) => Ok(()),
        Ok(None) => Err(DbError::Constraint(join3("session ", session_id, " does not exist"))),
        Err(e) => Err(e),
    }
}

/// The text that reports that there is no such agent.
pub open spec fn no_such_agent(id: Seq<char>) -> Seq<char> {
    "agent "@ + id + " does not exist"@
}

/// An agent was required to exist.
pub open spec fn agent_required(
    pre: Trace,
    post: Trace,
    id: Seq<char>,
    r: Result<AgentProfile, DbError>,
) -> bool {
    exists|got: Result<Option<AgentProfile>, DbError>|
        {
            &&& #[trigger] agent_read(pre, post, id, got)
            &&& match got {
                Ok(Some(a)) => r == Ok::<AgentProfile, DbError>(a),
                Ok(None) => violates(r, no_such_agent(id)),
                Err(e) => r == Err::<AgentProfile, DbError>(e),
            }
        }
}

/// The agent with an id, which has to exist.
pub fn require_config_agent(db: &mut Db, id: &str) -> (r: Result<AgentProfile, DbError>)
    ensures
        agent_required(old(db)@, final(db)@, id@, r),
{
    match get_agent(db, id) {
        Ok(Some(a)) => Ok(a),
        Ok(None) => Err(DbError::Constraint(join3("agent ", id, " does not exist"))),
        Err(e) => Err(e),
    }
}

/// An agent was required to exist and to be enabled; `disabled` reports that it is not.
pub open spec fn enabled_required(
    pre: Trace,
    post: Trace,
    id: Seq<char>,
    disabled: Seq<char>,
    r: Result<(), DbError>,
) -> bool {
    exists|got: Result<AgentProfile, DbError>|
        {
            &&& #[trigger] agent_required(pre, post, id, got)
            &&& match got {
                Ok(a) => if a.enabled {
                    r is Ok
                } else {
                    violates(r, disabled)
                },
                Err(e) => r == Err::<(), DbError>(e),
            }
        }
}

/// The text that reports that an agent that is to lead is disabled.
pub open spec fn disabled_lead(id: Seq<char>) -> Seq<char> {
    "agent "@ + id + " cannot act as Lead: disabled"@
}

/// The text that reports that an agent that is to be a member is disabled.
pub open spec fn disabled_member(id: Seq<char>) -> Seq<char> {
    "member agent "@ + id + " is disabled"@
}

/// Requires that an agent may lead.
pub fn require_lead_agent(db: &mut Db, id: &str) -> (r: Result<(), DbError>)
    ensures
        enabled_required(old(db)@, final(db)@, id@, disabled_lead(id@), r),
{
    match require_config_agent(db, id) {
        Ok(a) => if a.enabled {
            Ok(())
        } else {
            Err(DbError::Constraint(join3("agent ", id, " cannot act as Lead: disabled")))
        },
        Err(e) => Err(e),
    }
}

/// Requires that an agent may be a member.
pub fn require_member_agent(db: &mut Db, id: &str) -> (r: Result<(), DbError>)
    ensures
        enabled_required(old(db)@, final(db)@, id@, disabled_member(id@), r),
{
    match require_config_agent(db, id) {
        Ok(a) => if a.enabled {
            Ok(())
        } else {
            Err(DbError::Constraint(join3("member agent ", id, " is disabled")))
        },
        Err(e) => Err(e),
    }
}

pub const SQL_STORE_ENABLED: &'static str = "UPDATE agents SET enabled = ?2, updated_at = ?3 WHERE id = ?1";

/// Whether an agent is enabled was stored, at the time `at_ms`.
pub open spec fn enabled_stored(
    pre: Trace,
    post: Trace,
    id: Seq<char>,
    enabled: bool,
    at_ms: i64,
    r: Result<usize, DbError>,
) -> bool {
    rows::counted(
        pre,
        post,
        SQL_STORE_ENABLED@,
        seq![Datum::Text(id), rows::flag(enabled), Datum::Integer(at_ms)],
        r,
    )
}

fn store_enabled(db: &mut Db, id: &str, enabled: bool, at_ms: i64) -> (r: Result<usize, DbError>)
    ensures
        enabled_stored(old(db)@, final(db)@, id@, enabled, at_ms, r),
{
    run_counted(db, SQL_STORE_ENABLED, params3(p_text(id), p_flag(enabled), p_int(at_ms)))
}

/// Enables or disables an agent, which has to exist, as of the time that the clock shows.
pub fn set_agent_enabled(db: &mut Db, id: &str, enabled: bool) -> (r: Result<(), DbError>)
    ensures
        exists|at_ms: i64, got: Result<usize, DbError>|
            {
                &&& #[trigger] enabled_stored(old(db)@, final(db)@, id@, enabled, at_ms, got)
                &&& clock::is_time(at_ms)
                &&& match got {
                    Ok(0) => violates(r, no_such_agent(id@)),
                    Ok(_) => r is Ok,
                    Err(e) => r == Err::<(), DbError>(e),
                }
            },
{
    let at_ms = now_ms();
    let got = store_enabled(db, id, enabled, at_ms);
    assert(enabled_stored(old(db)@, db@, id@, enabled, at_ms, got));
    match got {
        Ok(n) => if n == 0 {
            Err(DbError::Constraint(join3("agent ", id, " does not exist")))
        } else {
            Ok(())
        },
        Err(e) => Err(e),
    }
}

/// The agents that work on a session.
#[derive(Debug, Clone, PartialEq)]
pub struct SessionAgentConfig {
    pub session_id: String,
    pub lead_agent_id: Option<String>,
    pub member_agent_ids: Vec<String>,
}

/// Whether a configuration is that of a session, with a lead and members.
pub open spec fn is_config(
    config: SessionAgentConfig,
    session_id: Seq<char>,
    lead: Option<Seq<char>>,
    members: Seq<Seq<char>>,
) -> bool {
    &&& config.session_id@ == session_id
    &&& events::opt(config.lead_agent_id) == lead
    &&& text::texts(config.member_agent_ids@) == members
}

impl FromRow for (Option<String>, String) {
    open spec fn reads() -> Seq<Read> {
        rows::in_order(seq![Kind::OptText, Kind::Text])
    }

    open spec fn is_row(self, row: Seq<Datum>) -> bool {
        &&& row[0] == rows::opt_text(events::opt(self.0))
        &&& row[1] == Datum::Text(self.1@)
    }

    fn layout() -> (reads: Vec<Read>) {
        let kinds = vec![Kind::OptText, Kind::Text];
        assert(rows::in_order(kinds@) =~= Self::reads());
        reads_in_order(kinds)
    }

    fn from_row(row: &Vec<Cell>) -> (v: Self) {
        proof {
            rows::lemma_cells(row@, Self::reads());
        }
        (opt_text_at(row, 0), text_at(row, 1))
    }
}

pub const SQL_READ_CONFIG: &'static str = "SELECT lead_agent_id, member_agent_ids FROM session_agent_configs WHERE session_id = ?1";

/// The lead and the members of a session were read.
pub open spec fn config_row_read(
    pre: Trace,
    post: Trace,
    session_id: Seq<char>,
    r: Result<Option<(Option<String>, String)>, DbError>,
) -> bool {
    rows::found(pre, post, SQL_READ_CONFIG@, seq![Datum::Text(session_id)], r)
}

fn read_config(
    db: &mut Db,
    session_id: &str,
) -> (r: Result<Option<(Option<String>, String)>, DbError>)
    ensures
        config_row_read(old(db)@, final(db)@, session_id@, r),
{
    find(db, SQL_READ_CONFIG, params1(p_text(session_id)))
}

/// The lead that a stored value stands for.
pub open spec fn lead_of(lead: Option<Seq<char>>) -> Option<Seq<char>> {
    match lead {
        Some(id) => agent_id_of(id),
        None => None,
    }
}

/// Whether a result is the configuration that a stored lead and the members `parsed` make; members
/// that could not be read are an error of the second column.
pub open spec fn config_made(
    session_id: Seq<char>,
    lead: Option<Seq<char>>,
    parsed: Result<Seq<Seq<char>>, Seq<char>>,
    r: Result<SessionAgentConfig, DbError>,
) -> bool {
    match parsed {
        Ok(members) => r matches Ok(config) && is_config(
            config,
            session_id,
            lead_of(lead),
            members,
        ),
        Err(why) => r matches Err(DbError::Conversion { index, detail }) && index == 1 && detail@
            == why,
    }
}

/// The configuration that a stored lead makes, with the members as they were parsed.
pub fn config_from_row(
    session_id: &str,
    lead_agent_id: Option<String>,
    parsed: Result<Vec<String>, String>,
) -> (r: Result<SessionAgentConfig, DbError>)
    ensures
        config_made(
            session_id@,
            events::opt(lead_agent_id),
            match parsed {
                Ok(members) => Ok(text::texts(members@)),
                Err(why) => Err(why@),
            },
            r,
        ),
{
    match parsed {
        Ok(member_agent_ids) => Ok(
            SessionAgentConfig {
                session_id: session_id.to_string(),
                lead_agent_id: match lead_agent_id {
                    Some(id) => normalize_agent_id(id),
                    None => None,
                },
                member_agent_ids,
            },
        ),
        Err(detail) => Err(DbError::Conversion { index: 1, detail }),
    }
}

/// The configuration of a session is what its row says, if it has one.
pub open spec fn config_taken(
    session_id: Seq<char>,
    got: Result<Option<(Option<String>, String)>, DbError>,
    r: Result<SessionAgentConfig, DbError>,
) -> bool {
    match got {
        Ok(Some((lead, members))) => config_made(
            session_id,
            events::opt(lead),
            json::string_list_parsed(members@),
            r,
        ),
        Ok(None) => r matches Ok(config) && is_config(
            config,
            session_id,
            None,
            Seq::empty(),
        ),
        Err(e) => r == Err::<SessionAgentConfig, DbError>(e),
    }
}

/// The configuration of a session was read, where the session was found to be there.
pub open spec fn config_read_if_there(
    mid: Trace,
    post: Trace,
    session_id: Seq<char>,
    there: Result<(), DbError>,
    r: Result<SessionAgentConfig, DbError>,
) -> bool {
    match there {
        Ok(()) => exists|got: Result<Option<(Option<String>, String)>, DbError>|
            {
                &&& #[trigger] config_row_read(mid, post, session_id, got)
                &&& config_taken(session_id, got, r)
            },
        Err(e) => post == mid && r == Err::<SessionAgentConfig, DbError>(e),
    }
}

/// The configuration of a session was read.
pub open spec fn config_read(
    pre: Trace,
    post: Trace,
    session_id: Seq<char>,
    r: Result<SessionAgentConfig, DbError>,
) -> bool {
    exists|mid: Trace, there: Result<(), DbError>|
        {
            &&& #[trigger] session_required(pre, mid, session_id, there)
            &&& config_read_if_there(mid, post, session_id, there, r)
        }
}

/// The configuration of a session, which has to exist; one that was never configured has no lead
/// and no members.
pub fn get_session_agent_config(db: &mut Db, session_id: &str) -> (r: Result<
    SessionAgentConfig,
    DbError,
>)
    ensures
        config_read(old(db)@, final(db)@, session_id@, r),
{
    let there = require_session_exists(db, session_id);
    let ghost mid = db@;
    assert(session_required(old(db)@, mid, session_id@, there));
    match there {
        Ok(()) => {},
        Err(e) => return Err(e),
    }
    let got = read_config(db, session_id);
    assert(config_row_read(mid, db@, session_id@, got));
    match got {
        Ok(Some((lead, members))) => {
            let parsed = parse_string_list(members.as_str());
            config_from_row(session_id, lead, parsed)
        },
        Ok(None) => {
            let member_agent_ids: Vec<String> = Vec::new();
            assert(text::texts(member_agent_ids@) =~= Seq::<Seq<char>>::empty());
            Ok(
                SessionAgentConfig {
                    session_id: session_id.to_string(),
                    lead_agent_id: None,
                    member_agent_ids,
                },
            )
        },
        Err(e) => Err(e),
    }
}

/// The members after the one at the position `from` were required too, unless that one is not
/// enabled.
pub open spec fn required_on(
    mid: Trace,
    post: Trace,
    ids: Seq<Seq<char>>,
    from: nat,
    one: Result<(), DbError>,
    r: Result<(), DbError>,
) -> bool
    decreases ids.len() - from, 0nat,
{
    &&& from < ids.len()
    &&& match one {
        Ok(()) => members_required(mid, post, ids, from + 1, r),
        Err(e) => post == mid && r == one,
    }
}

/// Members were required to be enabled, in order from the position `from` on, up to the first that
/// is not.
pub open spec fn members_required(
    pre: Trace,
    post: Trace,
    ids: Seq<Seq<char>>,
    from: nat,
    r: Result<(), DbError>,
) -> bool
    decreases ids.len() - from, 1nat,
{
    if from >= ids.len() {
        post == pre && r is Ok
    } else {
        exists|mid: Trace, one: Result<(), DbError>|
            {
                &&& #[trigger] enabled_required(
                    pre,
                    mid,
                    ids[from as int],
                    disabled_member(ids[from as int]),
                    one,
                )
                &&& required_on(mid, post, ids, from, one, r)
            }
    }
}

fn require_members(db: &mut Db, ids: &Vec<String>) -> (r: Result<(), DbError>)
    ensures
        members_required(old(db)@, final(db)@, text::texts(ids@), 0, r),
{
    let ghost all = text::texts(ids@);
    let mut i: usize = 0;
    while i < ids.len()
        invariant
            all == text::texts(ids@),
            i <= ids@.len(),
            forall|post: Trace, r: Result<(), DbError>| #[trigger]
                members_required(db@, post, all, i as nat, r) ==> members_required(
                    old(db)@,
                    post,
                    all,
                    0,
                    r,
                ),
        decreases ids.len() - i,
    {
        let ghost before = db@;
        let one = require_member_agent(db, ids[i].as_str());
        assert(all[i as int] == ids@[i as int]@);
        assert(enabled_required(
            before,
            db@,
            all[i as int],
            disabled_member(all[i as int]),
            one,
        ));
        match one {
            Ok(()) => {},
            Err(e) => {
                assert(members_required(before, db@, all, i as nat, one));
                return Err(e);
            },
        }
        let ghost at = i as nat;
        i += 1;
        assert forall|post: Trace, r: Result<(), DbError>| #[trigger]
            members_required(db@, post, all, i as nat, r) implies members_required(
            old(db)@,
            post,
            all,
            0,
            r,
        ) by {
            assert(i as nat == at + 1);
            assert(members_required(before, post, all, at, r));
        }
    }
    assert(members_required(db@, db@, all, i as nat, Ok::<(), DbError>(())));
    Ok(())
}

pub const SQL_STORE_CONFIG: &'static str = "INSERT INTO session_agent_configs (session_id, lead_agent_id, member_agent_ids)
         VALUES (?1, ?2, ?3)
         ON CONFLICT(session_id) DO UPDATE SET
            lead_agent_id = excluded.lead_agent_id,
            member_agent_ids = excluded.member_agent_ids";

/// The lead and the members of a session were stored.
pub open spec fn config_stored(
    pre: Trace,
    post: Trace,
    session_id: Seq<char>,
    lead: Option<Seq<char>>,
    members: Seq<char>,
    r: Result<(), DbError>,
) -> bool {
    rows::executed(
        pre,
        post,
        SQL_STORE_CONFIG@,
        seq![Datum::Text(session_id), rows::opt_text(lead), Datum::Text(members)],
        r,
    )
}

fn store_config(
    db: &mut Db,
    session_id: &str,
    lead: Option<&str>,
    members: &str,
) -> (r: Result<(), DbError>)
    ensures
        config_stored(old(db)@, final(db)@, session_id@, events::opt_str(lead), members@, r),
{
    run(db, SQL_STORE_CONFIG, params3(p_text(session_id), p_opt_text(lead), p_text(members)))
}

/// A configuration was stored as given, its members as a text that reads as them again.
pub open spec fn config_kept(
    pre: Trace,
    post: Trace,
    session_id: Seq<char>,
    lead: Option<Seq<char>>,
    members: Seq<Seq<char>>,
    r: Result<(), DbError>,
) -> bool {
    &&& config_stored(pre, post, session_id, lead, json::string_list_printed(members), r)
    &&& json::reads_as_list(json::string_list_printed(members), members)
}

fn keep_config(db: &mut Db, session_id: &str, lead: &Option<String>, members: &Vec<String>) -> (r:
    Result<(), DbError>)
    ensures
        config_kept(
            old(db)@,
            final(db)@,
            session_id@,
            events::opt(*lead),
            text::texts(members@),
            r,
        ),
{
    let text = print_string_list(members);
    let lead_id = match lead {
        Some(id) => Some(id.as_str()),
        None => None,
    };
    assert(events::opt_str(lead_id) == events::opt(*lead));
    store_config(db, session_id, lead_id, text.as_str())
}

/// The lead of a configuration, where there is one, was required to be enabled.
pub open spec fn lead_required(
    pre: Trace,
    post: Trace,
    lead: Option<Seq<char>>,
    r: Result<(), DbError>,
) -> bool {
    match lead {
        Some(id) => enabled_required(pre, post, id, disabled_lead(id), r),
        None => post == pre && r is Ok,
    }
}

fn require_lead(db: &mut Db, lead: &Option<String>) -> (r: Result<(), DbError>)
    ensures
        lead_required(old(db)@, final(db)@, events::opt(*lead), r),
{
    match lead {
        Some(id) => require_lead_agent(db, id.as_str()),
        None => Ok(()),
    }
}

/// A configuration was stored, once its agents were found to be enabled.
pub open spec fn after_members(
    pre: Trace,
    post: Trace,
    session_id: Seq<char>,
    lead: Option<Seq<char>>,
    members: Seq<Seq<char>>,
    r: Result<SessionAgentConfig, DbError>,
) -> bool {
    exists|stored: Result<(), DbError>|
        {
            &&& #[trigger] config_kept(pre, post, session_id, lead, members, stored)
            &&& match stored {
                Ok(()) => r matches Ok(config) && is_config(config, session_id, lead, members),
                Err(e) => r == Err::<SessionAgentConfig, DbError>(e),
            }
        }
}

/// A configuration was stored, where its members were found to be enabled.
pub open spec fn stored_if_fit(
    mid: Trace,
    post: Trace,
    session_id: Seq<char>,
    lead: Option<Seq<char>>,
    members: Seq<Seq<char>>,
    fit: Result<(), DbError>,
    r: Result<SessionAgentConfig, DbError>,
) -> bool {
    match fit {
        Ok(()) => after_members(mid, post, session_id, lead, members, r),
        Err(e) => post == mid && r == Err::<SessionAgentConfig, DbError>(e),
    }
}

/// A configuration was stored, once its lead was found to be enabled and then its members were.
pub open spec fn after_lead(
    pre: Trace,
    post: Trace,
    session_id: Seq<char>,
    lead: Option<Seq<char>>,
    members: Seq<Seq<char>>,
    r: Result<SessionAgentConfig, DbError>,
) -> bool {
    exists|mid: Trace, fit: Result<(), DbError>|
        {
            &&& #[trigger] members_required(pre, mid, members, 0, fit)
            &&& stored_if_fit(mid, post, session_id, lead, members, fit, r)
        }
}

/// The members of a configuration were required, where its lead was found to be enabled.
pub open spec fn members_if_fit(
    mid: Trace,
    post: Trace,
    session_id: Seq<char>,
    lead: Option<Seq<char>>,
    members: Seq<Seq<char>>,
    fit: Result<(), DbError>,
    r: Result<SessionAgentConfig, DbError>,
) -> bool {
    match fit {
        Ok(()) => after_lead(mid, post, session_id, lead, members, r),
        Err(e) => post == mid && r == Err::<SessionAgentConfig, DbError>(e),
    }
}

/// A configuration was stored, once its session was found to be there and then its lead and its
/// members to be enabled.
pub open spec fn after_session(
    pre: Trace,
    post: Trace,
    session_id: Seq<char>,
    lead: Option<Seq<char>>,
    members: Seq<Seq<char>>,
    r: Result<SessionAgentConfig, DbError>,
) -> bool {
    exists|mid: Trace, fit: Result<(), DbError>|
        {
            &&& #[trigger] lead_required(pre, mid, lead, fit)
            &&& members_if_fit(mid, post, session_id, lead, members, fit, r)
        }
}

/// The lead of a configuration was required, where its session was found to be there.
pub open spec fn lead_if_there(
    mid: Trace,
    post: Trace,
    session_id: Seq<char>,
    lead: Option<Seq<char>>,
    members: Seq<Seq<char>>,
    there: Result<(), DbError>,
    r: Result<SessionAgentConfig, DbError>,
) -> bool {
    match there {
        Ok(()) => after_session(mid, post, session_id, lead, members, r),
        Err(e) => post == mid && r == Err::<SessionAgentConfig, DbError>(e),
    }
}

/// The configuration of a session was set to a lead and members, once it was found that the
/// session exists, that the lead may lead and that the members are enabled.
pub open spec fn config_set(
    pre: Trace,
    post: Trace,
    session_id: Seq<char>,
    lead: Option<Seq<char>>,
    members: Seq<Seq<char>>,
    r: Result<SessionAgentConfig, DbError>,
) -> bool {
    exists|mid: Trace, there: Result<(), DbError>|
        {
            &&& #[trigger] session_required(pre, mid, session_id, there)
            &&& lead_if_there(mid, post, session_id, lead, members, there, r)
        }
}

/// Sets the agents that work on a session; what was set. Ids are normalized, a member that is the
/// lead or occurs twice is left out. The session has to exist, and all the agents have to exist
/// and be enabled; else nothing is stored.
pub fn set_session_agent_config(
    db: &mut Db,
    session_id: &str,
    lead_agent_id: Option<String>,
    member_agent_ids: Vec<String>,
) -> (r: Result<SessionAgentConfig, DbError>)
    ensures
        config_set(
            old(db)@,
            final(db)@,
            session_id@,
            lead_of(events::opt(lead_agent_id)),
            members_among(text::texts(member_agent_ids@), lead_of(events::opt(lead_agent_id))),
            r,
        ),
{
    let ghost pre = db@;
    let ghost lead = lead_of(events::opt(lead_agent_id));
    let ghost members = members_among(text::texts(member_agent_ids@), lead);
    let r1 = require_session_exists(db, session_id);
    let ghost t1 = db@;
    assert(session_required(pre, t1, session_id@, r1));
    match r1 {
        Ok(()) => {},
        Err(e) => return Err(e),
    }
    let lead_agent_id = match lead_agent_id {
        Some(id) => normalize_agent_id(id),
        None => None,
    };
    assert(events::opt(lead_agent_id) == lead);
    let r2 = require_lead(db, &lead_agent_id);
    let ghost t2 = db@;
    assert(lead_required(t1, t2, lead, r2));
    match r2 {
        Ok(()) => {},
        Err(e) => return Err(e),
    }
    let lead_id = match &lead_agent_id {
        Some(id) => Some(id.as_str()),
        None => None,
    };
    assert(events::opt_str(lead_id) == lead);
    let member_agent_ids = normalize_member_agent_ids(member_agent_ids, lead_id);
    assert(text::texts(member_agent_ids@) == members);
    let r3 = require_members(db, &member_agent_ids);
    let ghost t3 = db@;
    assert(members_required(t2, t3, members, 0, r3));
    match r3 {
        Ok(()) => {},
        Err(e) => return Err(e),
    }
    let r4 = keep_config(db, session_id, &lead_agent_id, &member_agent_ids);
    assert(config_kept(t3, db@, session_id@, lead, members, r4));
    match r4 {
        Ok(()) => Ok(
            SessionAgentConfig {
                session_id: session_id.to_string(),
                lead_agent_id,
                member_agent_ids,
            },
        ),
        Err(e) => Err(e),
    }
}

/// Whether a step looks up a session or an agent, which changes nothing.
pub open spec fn is_lookup(step: Step) -> bool {
    trace::queries(step, SQL_LOOK_UP_SESSION@) || trace::queries(step, SQL_GET_AGENT@)
}

/// Whether a step shows an agent that is enabled.
pub open spec fn shows_enabled(step: Step) -> bool {
    step matches Step::Asked { reply: Reply::Row(Some(row)), .. } && rows::reads_as_flag(
        row[25],
        true,
    )
}

proof fn lemma_session_step(pre: Trace, post: Trace, session_id: Seq<char>, r: Result<(), DbError>)
    requires
        session_required(pre, post, session_id, r),
    ensures
        trace::extends(pre, post),
        post.len() == pre.len() + 1,
        is_lookup(post.last()),
        r is Ok <==> shows_row(post.last()),
{
    assert(post.take(pre.len() as int) =~= pre);
}

proof fn lemma_agent_step(
    pre: Trace,
    post: Trace,
    id: Seq<char>,
    disabled: Seq<char>,
    r: Result<(), DbError>,
)
    requires
        enabled_required(pre, post, id, disabled, r),
    ensures
        trace::extends(pre, post),
        post.len() == pre.len() + 1,
        is_lookup(post.last()),
        r is Ok <==> shows_enabled(post.last()),
{
    assert(post.take(pre.len() as int) =~= pre);
}

/// Whether agents, one for each step that was added, were asked for and all but perhaps the last
/// are enabled; `all` says whether the last is too.
pub open spec fn agents_asked(pre: Trace, post: Trace, all: bool) -> bool {
    &&& trace::extends(pre, post)
    &&& forall|k: int| pre.len() <= k < post.len() ==> is_lookup(#[trigger] post[k])
    &&& forall|k: int| pre.len() <= k < post.len() - 1 ==> shows_enabled(#[trigger] post[k])
    &&& all ==> (pre.len() < post.len() ==> shows_enabled(post.last()))
    &&& !all ==> pre.len() < post.len() && !shows_enabled(post.last())
}

proof fn lemma_agents_asked_further(pre: Trace, mid: Trace, post: Trace, all: bool)
    requires
        agents_asked(pre, mid, true),
        agents_asked(mid, post, all),
    ensures
        agents_asked(pre, post, all),
{
    trace::lemma_extends_further(pre, mid, post);
    assert forall|k: int| 0 <= k < mid.len() implies #[trigger] post[k] == mid[k] by {
        assert(post.take(mid.len() as int)[k] == post[k]);
    }
}

proof fn lemma_members_asked(
    pre: Trace,
    post: Trace,
    ids: Seq<Seq<char>>,
    from: nat,
    r: Result<(), DbError>,
)
    requires
        from <= ids.len(),
        members_required(pre, post, ids, from, r),
    ensures
        agents_asked(pre, post, r is Ok),
        post.len() <= pre.len() + (ids.len() - from),
        r is Ok ==> post.len() == pre.len() + (ids.len() - from),
    decreases ids.len() - from,
{
    if from < ids.len() {
        let (mid, one) = choose|mid: Trace, one: Result<(), DbError>|
            {
                &&& #[trigger] enabled_required(
                    pre,
                    mid,
                    ids[from as int],
                    disabled_member(ids[from as int]),
                    one,
                )
                &&& required_on(mid, post, ids, from, one, r)
            };
        lemma_agent_step(pre, mid, ids[from as int], disabled_member(ids[from as int]), one);
        if one is Ok {
            lemma_members_asked(mid, post, ids, from + 1, r);
            assert(agents_asked(pre, mid, true));
            lemma_agents_asked_further(pre, mid, post, r is Ok);
        }
    } else {
        assert(post.take(pre.len() as int) =~= pre);
    }
}

proof fn lemma_lead_asked(pre: Trace, post: Trace, lead: Option<Seq<char>>, r: Result<(), DbError>)
    requires
        lead_required(pre, post, lead, r),
    ensures
        agents_asked(pre, post, r is Ok),
        post.len() <= pre.len() + if lead is Some { 1int } else { 0int },
        r is Ok ==> post.len() == pre.len() + if lead is Some { 1int } else { 0int },
{
    match lead {
        Some(id) => lemma_agent_step(pre, post, id, disabled_lead(id), r),
        None => {
            assert(post.take(pre.len() as int) =~= pre);
        },
    }
}

/// How a configuration was set, by the traces after each part: `found` after the session was looked
/// up, and `joined` after its lead and its members were.
pub open spec fn config_steps(
    pre: Trace,
    found: Trace,
    joined: Trace,
    post: Trace,
    session_id: Seq<char>,
    lead: Option<Seq<char>>,
    members: Seq<Seq<char>>,
    r: Result<SessionAgentConfig, DbError>,
) -> bool {
    &&& trace::extends(pre, found)
    &&& found.len() == pre.len() + 1
    &&& is_lookup(found.last())
    &&& if !shows_row(found.last()) {
        post == found && r is Err
    } else {
        &&& agents_asked(found, joined, joined != post)
        &&& joined.len() <= found.len() + members.len() + if lead is Some { 1int } else { 0int }
        &&& if joined == post {
            r is Err
        } else {
            &&& joined.len() == found.len() + members.len() + if lead is Some { 1int } else { 0int }
            &&& exists|stored: Result<(), DbError>|
                {
                    &&& #[trigger] config_kept(joined, post, session_id, lead, members, stored)
                    &&& stored is Ok <==> r is Ok
                    &&& r matches Ok(config) ==> is_config(config, session_id, lead, members)
                }
        }
    }
}

proof fn lemma_config_steps(
    pre: Trace,
    post: Trace,
    session_id: Seq<char>,
    lead: Option<Seq<char>>,
    members: Seq<Seq<char>>,
    r: Result<SessionAgentConfig, DbError>,
) -> (marks: (Trace, Trace))
    requires
        config_set(pre, post, session_id, lead, members, r),
    ensures
        config_steps(pre, marks.0, marks.1, post, session_id, lead, members, r),
{
    let (t1, r1) = choose|t1: Trace, r1: Result<(), DbError>|
        {
            &&& #[trigger] session_required(pre, t1, session_id, r1)
            &&& lead_if_there(t1, post, session_id, lead, members, r1, r)
        };
    lemma_session_step(pre, t1, session_id, r1);
    if r1 is Err {
        return (t1, t1);
    }
    let (t2, r2) = choose|t2: Trace, r2: Result<(), DbError>|
        {
            &&& #[trigger] lead_required(t1, t2, lead, r2)
            &&& members_if_fit(t2, post, session_id, lead, members, r2, r)
        };
    lemma_lead_asked(t1, t2, lead, r2);
    if r2 is Err {
        return (t1, t2);
    }
    let (t3, r3) = choose|t3: Trace, r3: Result<(), DbError>|
        {
            &&& #[trigger] members_required(t2, t3, members, 0, r3)
            &&& stored_if_fit(t3, post, session_id, lead, members, r3, r)
        };
    lemma_members_asked(t2, t3, members, 0, r3);
    lemma_agents_asked_further(t1, t2, t3, r3 is Ok);
    (t1, t3)
}

/// A configuration is set exactly where the session is there, its lead and all its members are
/// there and enabled, and the engine stores it; else nothing is stored: sessions and agents were
/// looked up, and all else that was asked is a statement that the engine refused.
pub proof fn law_config_is_set_for_enabled_agents(
    pre: Trace,
    post: Trace,
    session_id: Seq<char>,
    lead: Option<Seq<char>>,
    members: Seq<Seq<char>>,
    r: Result<SessionAgentConfig, DbError>,
)
    requires
        config_set(pre, post, session_id, lead, members, r),
    ensures
        ({
            let agents = members.len() + if lead is Some { 1int } else { 0int };
            let at = pre.len() as int;
            &&& r is Ok <==> {
                &&& post.len() == at + agents + 2
                &&& shows_row(post[at])
                &&& forall|k: int| at < k <= at + agents ==> shows_enabled(#[trigger] post[k])
                &&& tx::accepted(post.last())
            }
            &&& r is Err ==> forall|k: int|
                at <= k < post.len() ==> is_lookup(#[trigger] post[k]) || !tx::accepted(
                    post[k],
                )
        }),
{
    let (found, joined) = lemma_config_steps(pre, post, session_id, lead, members, r);
    let agents = members.len() + if lead is Some { 1int } else { 0int };
    let at = pre.len() as int;
    if shows_row(found.last()) {
        assert forall|k: int| 0 <= k < found.len() implies #[trigger] joined[k] == found[k] by {
            assert(joined.take(found.len() as int)[k] == joined[k]);
        }
        if joined != post {
            assert(!is_lookup(post.last()));
            assert(post.drop_last() =~= joined);
            assert forall|k: int| 0 <= k < joined.len() implies #[trigger] post[k] == joined[k] by {
                assert(post.drop_last()[k] == post[k]);
            }
        } else {
            assert(!shows_enabled(post.last()));
            assert(post.last() == post[post.len() - 1]);
        }
    }
}

/// What was set is what is read: where a session is there, and the reply shows the row with which
/// its configuration was stored last, that configuration is read again.
pub proof fn law_set_config_is_read(
    pre: Trace,
    mid: Trace,
    later: Trace,
    post: Trace,
    session_id: Seq<char>,
    given_lead: Option<Seq<char>>,
    given_members: Seq<Seq<char>>,
    set: SessionAgentConfig,
    r: Result<SessionAgentConfig, DbError>,
)
    requires
        ({
            let lead = lead_of(given_lead);
            let bound = mid.last()->request->Execute_params;
            &&& config_set(
                pre,
                mid,
                session_id,
                lead,
                members_among(given_members, lead),
                Ok::<SessionAgentConfig, DbError>(set),
            )
            &&& config_read(later, post, session_id, r)
            &&& shows_row(post[later.len() as int])
            &&& rows::reply_to(post) == Reply::Row(Some(seq![bound[1], bound[2]]))
            &&& post.len() == later.len() + 2
        }),
    ensures
        r matches Ok(config) && is_config(
            config,
            session_id,
            events::opt(set.lead_agent_id),
            text::texts(set.member_agent_ids@),
        ),
{
    let lead = lead_of(given_lead);
    let members = members_among(given_members, lead);
    let done = Ok::<SessionAgentConfig, DbError>(set);
    let (_, joined) = lemma_config_steps(pre, mid, session_id, lead, members, done);
    let bound = mid.last()->request->Execute_params;
    assert(bound =~= seq![
        Datum::Text(session_id),
        rows::opt_text(lead),
        Datum::Text(json::string_list_printed(members)),
    ]);
    let (read, there) = choose|read: Trace, there: Result<(), DbError>|
        {
            &&& #[trigger] session_required(later, read, session_id, there)
            &&& config_read_if_there(read, post, session_id, there, r)
        };
    lemma_session_step(later, read, session_id, there);
    assert(there is Ok);
    let got = choose|got: Result<Option<(Option<String>, String)>, DbError>|
        {
            &&& #[trigger] config_row_read(read, post, session_id, got)
            &&& config_taken(session_id, got, r)
        };
    let row = got->Ok_0->Some_0;
    lemma_same_texts(events::opt(row.0), lead);
    if let Some(id) = given_lead {
        law_agent_id_is_stable(id);
    }
}

/// How a session works: by itself, or with a team.
#[derive(Debug, Clone, PartialEq)]
pub enum SessionMode {
    Solo,
    Team { lead_agent_id: String, member_ids: Vec<String> },
}

/// How a session with a configuration works.
pub open spec fn mode_of(config: SessionAgentConfig) -> SessionMode {
    match config.lead_agent_id {
        Some(lead_agent_id) => SessionMode::Team {
            lead_agent_id,
            member_ids: config.member_agent_ids,
        },
        None => SessionMode::Solo,
    }
}

/// How a session works; an error is reported by its text.
pub fn session_mode(db: &mut Db, session_id: &str) -> (r: Result<SessionMode, String>)
    ensures
        exists|got: Result<SessionAgentConfig, DbError>|
            {
                &&& #[trigger] config_read(old(db)@, final(db)@, session_id@, got)
                &&& match got {
                    Ok(config) => r == Ok::<SessionMode, String>(mode_of(config)),
                    Err(e) => r matches Err(s) && s@ == e.text(),
                }
            },
{
    match get_session_agent_config(db, session_id) {
        Ok(config) => Ok(
            match config.lead_agent_id {
                Some(lead_agent_id) => SessionMode::Team {
                    lead_agent_id,
                    member_ids: config.member_agent_ids,
                },
                None => SessionMode::Solo,
            },
        ),
        Err(e) => Err(e.message()),
    }
}

/// Gives a session the agents of another; an error is reported by its text.
pub fn copy_session_agent_config(
    db: &mut Db,
    parent_session_id: &str,
    child_session_id: &str,
) -> (r: Result<(), String>)
    ensures
        exists|mid: Trace, got: Result<SessionAgentConfig, DbError>|
            {
                &&& #[trigger] config_read(old(db)@, mid, parent_session_id@, got)
                &&& match got {
                    Ok(config) => exists|done: Result<(), DbError>|
                        {
                            &&& #[trigger] config_kept(
                                mid,
                                final(db)@,
                                child_session_id@,
                                events::opt(config.lead_agent_id),
                                text::texts(config.member_agent_ids@),
                                done,
                            )
                            &&& match done {
                                Ok(()) => r is Ok,
                                Err(e) => r matches Err(s) && s@ == e.text(),
                            }
                        },
                    Err(e) => final(db)@ == mid && (r matches Err(s) && s@ == e.text()),
                }
            },
{
    let got = get_session_agent_config(db, parent_session_id);
    let ghost mid = db@;
    assert(config_read(old(db)@, mid, parent_session_id@, got));
    match got {
        Ok(config) => {
            let done = keep_config(
                db,
                child_session_id,
                &config.lead_agent_id,
                &config.member_agent_ids,
            );
            assert(config_kept(
                mid,
                db@,
                child_session_id@,
                events::opt(config.lead_agent_id),
                text::texts(config.member_agent_ids@),
                done,
            ));
            match done {
                Ok(()) => Ok(()),
                Err(e) => Err(e.message()),
            }
        },
        Err(e) => Err(e.message()),
    }
}

pub const SQL_READ_ACCESS: &'static str = "SELECT access FROM agents WHERE id = ?1";

/// The access of an agent was read.
pub open spec fn access_read(
    pre: Trace,
    post: Trace,
    id: Seq<char>,
    r: Result<Option<String>, DbError>,
) -> bool {
    rows::found(pre, post, SQL_READ_ACCESS@, seq![Datum::Text(id)], r)
}

fn read_access(db: &mut Db, id: &str) -> (r: Result<Option<String>, DbError>)
    ensures
        access_read(old(db)@, final(db)@, id@, r),
{
    find(db, SQL_READ_ACCESS, params1(p_text(id)))
}

pub const SQL_DELETE_AGENT: &'static str = "DELETE FROM agents WHERE id = ?1";

/// An agent was deleted where it is there; a native one was refused to be.
pub open spec fn agent_deleted(
    pre: Trace,
    post: Trace,
    id: Seq<char>,
    r: Result<(), DbError>,
) -> bool {
    exists|mid: Trace, got: Result<Option<String>, DbError>|
        {
            &&& #[trigger] access_read(pre, mid, id, got)
            &&& match got {
                Ok(Some(access)) => if access@ == "native"@ {
                    post == mid && violates(r, "native agent cannot be deleted"@)
                } else {
                    rows::executed(
                        mid,
                        post,
                        SQL_DELETE_AGENT@,
                        seq![Datum::Text(id)],
                        r,
                    )
                },
                Ok(None) => post == mid && r is Ok,
                Err(e) => post == mid && r == Err::<(), DbError>(e),
            }
        }
}

/// Deletes an agent; one that is not there needs no deleting. A native agent stays: to delete it
/// is refused.
pub fn delete_agent(db: &mut Db, id: &str) -> (r: Result<(), DbError>)
    ensures
        agent_deleted(old(db)@, final(db)@, id@, r),
{
    let got = read_access(db, id);
    assert(access_read(old(db)@, db@, id@, got));
    match got {
        Ok(Some(access)) => {
            if same(access.as_str(), "native") {
                return Err(DbError::Constraint("native agent cannot be deleted".to_string()));
            }
            run(db, SQL_DELETE_AGENT, params1(p_text(id)))
        },
        Ok(None) => Ok(()),
        Err(e) => Err(e),
    }
}

} // verus!
