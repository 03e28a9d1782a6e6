//! What becomes of the agents when their table is rebuilt so that access may be `harness`.
use crate::engine::{Datum, DbError, Reply, Request, Step, Trace};
use crate::rows;
use crate::rows::FromRow;
use crate::schema;
use crate::schema::ColumnName;
use crate::settled;
use crate::text;
use crate::trace;
use crate::tx;
use vstd::prelude::*;

verus! {

proof fn lemma_occurs_inside(before: Seq<char>, word: Seq<char>, after: Seq<char>)
    ensures
        text::occurs(before + word + after, word),
{
    let whole = before + word + after;
    let at = before.len() as int;
    assert(whole.subrange(at, at + word.len()) =~= word);
}

proof fn lemma_occurs_further(whole: Seq<char>, part: Seq<char>, word: Seq<char>)
    requires
        text::occurs(whole, part),
        text::occurs(part, word),
    ensures
        text::occurs(whole, word),
{
    let i = choose|i: int|
        0 <= i <= whole.len() - part.len() && #[trigger] whole.subrange(i, i + part.len()) == part;
    let j = choose|j: int|
        0 <= j <= part.len() - word.len() && #[trigger] part.subrange(j, j + word.len()) == word;
    assert(whole.subrange(i + j, i + j + word.len()) =~= whole.subrange(i, i + part.len()).subrange(
        j,
        j + word.len(),
    ));
}

/// What the rebuilt agents' table says of access allows `harness`.
proof fn lemma_new_check_allows_harness()
    ensures
        text::occurs(schema::SQL_REBUILD_AGENTS_ACCESS@, "'harness'"@),
{
    reveal_strlit("CHECK (access IN ('native', 'borrow', 'harness'))");
    reveal_strlit("'harness'");
    let whole = schema::SQL_REBUILD_AGENTS_ACCESS@;
    assert(whole.subrange(38, 38int + "'harness'"@.len()) =~= "'harness'"@);
}

/// The statements that rebuild the agents' table hold the check that allows `harness`, and where a
/// later call is shown a definition that holds that check, it rebuilds nothing: it asks for the
/// definition alone, and its answer is no.
pub proof fn law_second_harness_migration_does_nothing(
    present: Seq<Seq<char>>,
    pre: Trace,
    post: Trace,
    r: Result<bool, DbError>,
)
    requires
        schema::harness_allowed(pre, post, r),
        settled::shown_value(post[pre.len() as int]) matches Some(Datum::Text(sql)) && text::occurs(
            sql,
            schema::SQL_REBUILD_AGENTS_ACCESS@,
        ),
    ensures
        text::occurs(schema::rebuild_sql(present), schema::SQL_REBUILD_AGENTS_ACCESS@),
        r == Ok::<bool, DbError>(false),
        trace::extends(pre, post),
        post.len() == pre.len() + 1,
        settled::is_query(post[pre.len() as int]),
{
    let selected = text::joined(
        schema::agent_choices().map_values(|c: schema::Choice| schema::chosen(c, present)),
        ", "@,
    );
    let rest = schema::SQL_REBUILD_AGENTS_REST@ + selected + schema::SQL_REBUILD_AGENTS_TAIL@;
    assert(schema::rebuild_sql(present) =~= schema::SQL_REBUILD_AGENTS_HEAD@
        + schema::SQL_REBUILD_AGENTS_ACCESS@ + rest);
    lemma_occurs_inside(
        schema::SQL_REBUILD_AGENTS_HEAD@,
        schema::SQL_REBUILD_AGENTS_ACCESS@,
        rest,
    );
    lemma_new_check_allows_harness();
    let shown = settled::shown_value(post[pre.len() as int])->0->Text_0;
    lemma_occurs_further(shown, schema::SQL_REBUILD_AGENTS_ACCESS@, "'harness'"@);
    settled::law_harness_is_allowed_once(pre, post, r);
}

/// What a column of the old agents' table is carried over as: itself, but for an access that is
/// neither `native` nor `harness`, which becomes `borrow`, an authentication that is neither
/// `bearer` nor `x_api_key`, which becomes null, and a reasoning level that is none of the eight,
/// which becomes `auto`.
pub open spec fn carried(column: Seq<char>) -> Seq<char> {
    if column == "access"@ {
        "CASE WHEN access IN ('native', 'harness') THEN access ELSE 'borrow' END"@
    } else if column == "auth_mode"@ {
        "CASE WHEN auth_mode IN ('bearer', 'x_api_key') THEN auth_mode ELSE NULL END"@
    } else if column == "reasoning_default"@ {
        "CASE WHEN reasoning_default IN ('auto', 'none', 'minimal', 'low', 'medium', 'high', 'xhigh', 'max') THEN reasoning_default ELSE 'auto' END"@
    } else {
        column
    }
}

/// To rebuild an agents' table that has all its columns carries every one of them over.
pub proof fn law_rebuilding_carries_every_column(present: Seq<Seq<char>>)
    requires
        forall|i: int|
            0 <= i < schema::agent_choices().len() ==> present.contains(
                #[trigger] schema::agent_choices()[i].column@,
            ),
    ensures
        schema::agent_choices().len() == 29,
        forall|i: int|
            0 <= i < 29 ==> schema::chosen(#[trigger] schema::agent_choices()[i], present)
                == carried(schema::agent_choices()[i].column@),
{
    assert forall|i: int| 0 <= i < 29 implies schema::chosen(
        #[trigger] schema::agent_choices()[i],
        present,
    ) == carried(schema::agent_choices()[i].column@) by {
        lemma_choice_carries(i);
    }
}

proof fn lemma_choice_carries(i: int)
    requires
        0 <= i < 29,
    ensures
        schema::agent_choices()[i].present@ == carried(schema::agent_choices()[i].column@),
{
    let all = schema::agent_choices();
    reveal_strlit("access");
    reveal_strlit("auth_mode");
    reveal_strlit("reasoning_default");
    if i < 10 {
        assert(all[i] == schema::identity_choices()[i]);
        lemma_identity_carries(i);
    } else if i < 20 {
        assert(all[i] == schema::limits_choices()[i - 10]);
        lemma_limits_carry(i - 10);
    } else {
        assert(all[i] == schema::marks_choices()[i - 20]);
        lemma_marks_carry(i - 20);
    }
}

proof fn lemma_identity_carries(i: int)
    requires
        0 <= i < 10,
    ensures
        schema::identity_choices()[i].present@ == carried(schema::identity_choices()[i].column@),
{
    reveal_strlit("access");
    reveal_strlit("auth_mode");
    reveal_strlit("reasoning_default");
    reveal_strlit("id");
    reveal_strlit("name");
    reveal_strlit("provider");
    reveal_strlit("primary_model");
    reveal_strlit("endpoint");
    reveal_strlit("model_opus");
    reveal_strlit("model_sonnet");
    reveal_strlit("model_haiku");
    assert(i == 0 ==> schema::identity_choices()[i].column@ == "id"@);
    assert(i == 1 ==> schema::identity_choices()[i].column@ == "name"@);
    assert(i == 2 ==> schema::identity_choices()[i].column@ == "access"@);
    assert(i == 3 ==> schema::identity_choices()[i].column@ == "provider"@);
    assert(i == 4 ==> schema::identity_choices()[i].column@ == "primary_model"@);
    assert(i == 5 ==> schema::identity_choices()[i].column@ == "endpoint"@);
    assert(i == 6 ==> schema::identity_choices()[i].column@ == "auth_mode"@);
    assert(i == 7 ==> schema::identity_choices()[i].column@ == "model_opus"@);
    assert(i == 8 ==> schema::identity_choices()[i].column@ == "model_sonnet"@);
    assert(i == 9 ==> schema::identity_choices()[i].column@ == "model_haiku"@);
}

proof fn lemma_limits_carry(i: int)
    requires
        0 <= i < 10,
    ensures
        schema::limits_choices()[i].present@ == carried(schema::limits_choices()[i].column@),
{
    reveal_strlit("access");
    reveal_strlit("auth_mode");
    reveal_strlit("reasoning_default");
    reveal_strlit("model_subagent");
    reveal_strlit("max_output_tokens");
    reveal_strlit("api_timeout_ms");
    reveal_strlit("compat_disable_betas");
    reveal_strlit("compat_disable_nonessential");
    reveal_strlit("compat_disable_thinking");
    reveal_strlit("compat_proxy");
    reveal_strlit("custom_headers");
    reveal_strlit("extra_body");
    assert(i == 0 ==> schema::limits_choices()[i].column@ == "model_subagent"@);
    assert(i == 1 ==> schema::limits_choices()[i].column@ == "reasoning_default"@);
    assert("max_output_tokens"@[0] != "reasoning_default"@[0]);
    assert(i == 2 ==> schema::limits_choices()[i].column@ == "max_output_tokens"@);
    assert(i == 3 ==> schema::limits_choices()[i].column@ == "api_timeout_ms"@);
    assert(i == 4 ==> schema::limits_choices()[i].column@ == "compat_disable_betas"@);
    assert(i == 5 ==> schema::limits_choices()[i].column@ == "compat_disable_nonessential"@);
    assert(i == 6 ==> schema::limits_choices()[i].column@ == "compat_disable_thinking"@);
    assert(i == 7 ==> schema::limits_choices()[i].column@ == "compat_proxy"@);
    assert(i == 8 ==> schema::limits_choices()[i].column@ == "custom_headers"@);
    assert(i == 9 ==> schema::limits_choices()[i].column@ == "extra_body"@);
}

proof fn lemma_marks_carry(i: int)
    requires
        0 <= i < 9,
    ensures
        schema::marks_choices()[i].present@ == carried(schema::marks_choices()[i].column@),
{
    reveal_strlit("access");
    reveal_strlit("auth_mode");
    reveal_strlit("reasoning_default");
    reveal_strlit("cap_reasoning");
    reveal_strlit("cap_computer_use");
    reveal_strlit("cap_lead");
    reveal_strlit("has_key");
    reveal_strlit("is_builtin");
    reveal_strlit("enabled");
    reveal_strlit("sort_order");
    reveal_strlit("created_at");
    reveal_strlit("updated_at");
    assert(i == 0 ==> schema::marks_choices()[i].column@ == "cap_reasoning"@);
    assert(i == 1 ==> schema::marks_choices()[i].column@ == "cap_computer_use"@);
    assert(i == 2 ==> schema::marks_choices()[i].column@ == "cap_lead"@);
    assert(i == 3 ==> schema::marks_choices()[i].column@ == "has_key"@);
    assert(i == 4 ==> schema::marks_choices()[i].column@ == "is_builtin"@);
    assert(i == 5 ==> schema::marks_choices()[i].column@ == "enabled"@);
    assert(i == 6 ==> schema::marks_choices()[i].column@ == "sort_order"@);
    assert(i == 7 ==> schema::marks_choices()[i].column@ == "created_at"@);
    assert(i == 8 ==> schema::marks_choices()[i].column@ == "updated_at"@);
}

/// The values of an agent, by the names of their columns.
pub type AgentRow = Map<Seq<char>, Datum>;

/// The agents' table: its definition, the names of its columns, and the agents by their ids.
pub struct AgentTable {
    pub definition: Seq<char>,
    pub columns: Seq<Seq<char>>,
    pub rows: Map<Seq<char>, AgentRow>,
}

/// A value that is one of some texts, or else another one.
pub open spec fn one_of(value: Datum, texts: Seq<Seq<char>>, other: Datum) -> Datum {
    if value matches Datum::Text(s) && texts.contains(s) {
        value
    } else {
        other
    }
}

/// The values of access that are kept.
pub open spec fn kept_access() -> Seq<Seq<char>> {
    seq!["native"@, "harness"@]
}

/// The kinds of authentication that are kept.
pub open spec fn kept_auth_modes() -> Seq<Seq<char>> {
    seq!["bearer"@, "x_api_key"@]
}

/// The reasoning levels that are kept.
pub open spec fn kept_reasoning() -> Seq<Seq<char>> {
    seq![
        "auto"@,
        "none"@,
        "minimal"@,
        "low"@,
        "medium"@,
        "high"@,
        "xhigh"@,
        "max"@,
    ]
}

/// What a column of an agent becomes: itself, but for an access that is not kept, which becomes
/// `borrow`, an authentication that is not kept, which becomes null, and a reasoning level that is
/// not kept, which becomes `auto`.
pub open spec fn corrected(column: Seq<char>, row: AgentRow) -> Datum {
    if column == "access"@ {
        one_of(row[column], kept_access(), Datum::Text("borrow"@))
    } else if column == "auth_mode"@ {
        one_of(row[column], kept_auth_modes(), Datum::Null)
    } else if column == "reasoning_default"@ {
        one_of(row[column], kept_reasoning(), Datum::Text("auto"@))
    } else {
        row[column]
    }
}

/// Whether a value is what an expression over the columns of an agent says: a column is its value,
/// and the three expressions that correct a column choose as they say.
pub open spec fn expresses(expression: Seq<char>, row: AgentRow, value: Datum) -> bool {
    &&& row.dom().contains(expression) ==> value == row[expression]
    &&& expression == carried("access"@) ==> value == one_of(
        row["access"@],
        kept_access(),
        Datum::Text("borrow"@),
    )
    &&& expression == carried("auth_mode"@) ==> value == one_of(
        row["auth_mode"@],
        kept_auth_modes(),
        Datum::Null,
    )
    &&& expression == carried("reasoning_default"@) ==> value == one_of(
        row["reasoning_default"@],
        kept_reasoning(),
        Datum::Text("auto"@),
    )
}

/// Whether a table is what the statements that rebuild the agents' table, given the columns that it
/// has, make of another: its definition holds the new check of the access, its columns are those of
/// the choices, and each agent is there with the value in each column that the choice for it
/// expresses.
pub open spec fn is_rebuilt(before: AgentTable, present: Seq<Seq<char>>, after: AgentTable) -> bool {
    &&& text::occurs(after.definition, schema::SQL_REBUILD_AGENTS_ACCESS@)
    &&& after.columns == schema::agent_choices().map_values(|c: schema::Choice| c.column@)
    &&& after.rows.dom() == before.rows.dom()
    &&& forall|id: Seq<char>, i: int|
        before.rows.dom().contains(id) && 0 <= i < schema::agent_choices().len() ==> expresses(
            schema::chosen(#[trigger] schema::agent_choices()[i], present),
            before.rows[id],
            (#[trigger] after.rows[id])[schema::agent_choices()[i].column@],
        ) && after.rows[id].dom().contains(schema::agent_choices()[i].column@)
}

/// The statements that rebuild the agents' table.
pub open spec fn rebuilding(present: Seq<Seq<char>>) -> Request {
    Request::Batch { sql: schema::rebuild_sql(present) }
}

/// Whether the store does with the agents' table what a step asks of it: it tells its definition,
/// its columns and whether foreign keys are enforced, switches them off and on, and rebuilds the
/// table.
pub open spec fn agents_follow_step(step: Step, before: AgentTable, after: AgentTable) -> bool {
    &&& trace::queries(step, schema::SQL_AGENTS_TABLE@) ==> after == before && (step matches
        Step::Asked { reply, .. } && reply == Reply::Row(
        Some(seq![Datum::Text(before.definition)]),
    ))
    &&& trace::queries(step, schema::columns_sql("agents"@)) ==> after == before && (step matches
        Step::Asked { reply, .. } && reply == Reply::Rows(
        before.columns.map_values(
            |c: Seq<char>| Ok::<Seq<Datum>, Seq<char>>(seq![Datum::Text(c)]),
        ),
    ))
    &&& trace::queries(step, schema::SQL_FOREIGN_KEYS@) ==> after == before && (step matches
        Step::Asked { reply: Reply::Row(Some(_)), .. })
    &&& tx::asks(step, Request::Batch { sql: schema::SQL_FOREIGN_KEYS_OFF@ }) ==> tx::accepted(step)
        && after == before
    &&& tx::asks(step, Request::Batch { sql: schema::SQL_FOREIGN_KEYS_ON@ }) ==> tx::accepted(step)
        && after == before
    &&& forall|present: Seq<Seq<char>>| #[trigger]
        tx::asks(step, rebuilding(present)) ==> tx::accepted(step) && is_rebuilt(
            before,
            present,
            after,
        )
}

/// Whether the store does with the agents' table what the steps after `pre` ask of it, and nobody
/// else changes it; `stages` are the table before, between and after those steps.
pub open spec fn agents_follow(pre: Trace, post: Trace, stages: Seq<AgentTable>) -> bool {
    &&& stages.len() == post.len() - pre.len() + 1
    &&& forall|k: int|
        pre.len() <= k < post.len() ==> agents_follow_step(
            #[trigger] post[k],
            stages[k - pre.len()],
            stages[k - pre.len() + 1],
        )
}

/// Whether a table has all the columns of an agent, and each agent a value in each of them.
pub open spec fn is_complete(table: AgentTable) -> bool {
    forall|i: int|
        0 <= i < schema::agent_choices().len() ==> {
            let column = (#[trigger] schema::agent_choices()[i]).column@;
            &&& table.columns.contains(column)
            &&& forall|id: Seq<char>| #[trigger]
                table.rows.dom().contains(id) ==> table.rows[id].dom().contains(column)
        }
}

/// Whether a table has the agents of another, each of them as `corrected` says.
pub open spec fn agents_carried(before: AgentTable, after: AgentTable) -> bool {
    &&& after.rows.dom() == before.rows.dom()
    &&& forall|id: Seq<char>, i: int|
        before.rows.dom().contains(id) && 0 <= i < schema::agent_choices().len() ==> (
        #[trigger] after.rows[id])[(#[trigger] schema::agent_choices()[i]).column@] == corrected(
            schema::agent_choices()[i].column@,
            before.rows[id],
        )
}

proof fn lemma_rebuilding_carries(
    before: AgentTable,
    present: Seq<Seq<char>>,
    after: AgentTable,
)
    requires
        is_complete(before),
        present == before.columns,
        is_rebuilt(before, present, after),
    ensures
        agents_carried(before, after),
        is_complete(after),
{
    assert forall|i: int| 0 <= i < schema::agent_choices().len() implies present.contains(
        #[trigger] schema::agent_choices()[i].column@,
    ) by {
        assert(before.columns.contains(schema::agent_choices()[i].column@));
    }
    law_rebuilding_carries_every_column(present);
    assert forall|id: Seq<char>, i: int|
        before.rows.dom().contains(id) && 0 <= i < schema::agent_choices().len() implies (
    #[trigger] after.rows[id])[(#[trigger] schema::agent_choices()[i]).column@] == corrected(
        schema::agent_choices()[i].column@,
        before.rows[id],
    ) by {
        let choice = schema::agent_choices()[i];
        let value = after.rows[id][choice.column@];
        assert(expresses(schema::chosen(choice, present), before.rows[id], value));
        assert(schema::chosen(choice, present) == carried(choice.column@));
        assert(before.rows[id].dom().contains(choice.column@));
    }
    assert forall|i: int| 0 <= i < schema::agent_choices().len() implies {
        let column = (#[trigger] schema::agent_choices()[i]).column@;
        &&& after.columns.contains(column)
        &&& forall|id: Seq<char>| #[trigger]
            after.rows.dom().contains(id) ==> after.rows[id].dom().contains(column)
    } by {
        let column = schema::agent_choices()[i].column@;
        assert(after.columns[i] == column);
        assert forall|id: Seq<char>| #[trigger]
            after.rows.dom().contains(id) implies after.rows[id].dom().contains(column) by {
            assert(before.rows.dom().contains(id));
        }
    }
}

proof fn lemma_accepted_script(
    pre: Trace,
    post: Trace,
    script: Seq<Request>,
    r: Result<(), DbError>,
)
    requires
        tx::scripted(pre, post, script, r),
        forall|k: int| pre.len() <= k < post.len() ==> tx::accepted(#[trigger] post[k]),
    ensures
        r is Ok,
        post.len() == pre.len() + script.len(),
{
    if r is Err {
        assert(tx::accepted(post[post.len() - 1]));
    }
}

proof fn lemma_rebuild_steps(
    pre: Trace,
    post: Trace,
    present: Seq<Seq<char>>,
    r: Result<bool, DbError>,
    stages: Seq<AgentTable>,
)
    requires
        schema::agents_rebuilt(pre, post, present, r),
        agents_follow(pre, post, stages),
        is_complete(stages[0]),
        present == stages[0].columns,
    ensures
        r == Ok::<bool, DbError>(true),
        agents_carried(stages[0], stages.last()),
        is_complete(stages.last()),
        text::occurs(stages.last().definition, schema::SQL_REBUILD_AGENTS_ACCESS@),
{
    let (mid, on) = choose|mid: Trace, on: Result<i64, DbError>|
        {
            &&& #[trigger] schema::enforcement_read(pre, mid, on)
            &&& schema::rebuilt_as_found(mid, post, present, on, r)
        };
    let at = pre.len() as int;
    assert(mid.take(at) =~= pre);
    if on is Err {
        assert(post.take(mid.len() as int) =~= mid);
    }
    assert(trace::extends(mid, post));
    trace::lemma_step_stays(mid, post, at);
    assert(trace::queries(post[at], schema::SQL_FOREIGN_KEYS@));
    assert(agents_follow_step(post[at], stages[0], stages[1]));
    assert(on is Ok);
    let n = on->Ok_0;
    let done = choose|done: Result<(), DbError>|
        {
            &&& #[trigger] schema::rebuild_run(mid, post, n, present, done)
            &&& r == match done {
                Ok(()) => Ok::<bool, DbError>(true),
                Err(e) => Err(e),
            }
        };
    let script = schema::unenforced(n == 1, seq![rebuilding(present)], n == 1);
    if n == 1 {
        assert(script =~= seq![
            Request::Batch { sql: schema::SQL_FOREIGN_KEYS_OFF@ },
            rebuilding(present),
            Request::Batch { sql: schema::SQL_FOREIGN_KEYS_ON@ },
        ]);
    } else {
        assert(script =~= seq![rebuilding(present)]);
    }
    assert forall|k: int| mid.len() <= k < post.len() implies tx::accepted(#[trigger] post[k]) by {
        let i = k - mid.len();
        assert(tx::asks(post[mid.len() + i], script[i]));
        assert(agents_follow_step(post[k], stages[k - pre.len()], stages[k - pre.len() + 1]));
    }
    lemma_accepted_script(mid, post, script, done);
    assert(tx::asks(post[mid.len() + 0int], script[0]));
    assert(agents_follow_step(post[at + 1], stages[1], stages[2]));
    if n == 1 {
        assert(tx::asks(post[mid.len() + 1int], script[1]));
        assert(agents_follow_step(post[at + 2], stages[2], stages[3]));
        assert(tx::asks(post[mid.len() + 2int], script[2]));
        assert(agents_follow_step(post[at + 3], stages[3], stages[4]));
        lemma_rebuilding_carries(stages[2], present, stages[3]);
    } else {
        lemma_rebuilding_carries(stages[1], present, stages[2]);
    }
}

/// To let access be `harness` rebuilds the agents' table exactly where its definition does not say
/// so. Where it is not rebuilt nothing changes. Where it is, the same agents are there, with every
/// column kept, but for an access other than `native` and `harness`, which becomes `borrow`, an
/// authentication other than `bearer` and `x_api_key`, which becomes null, and a reasoning level
/// that is none of the eight, which becomes `auto`; and the definition holds the check that accepts
/// `harness`. The table is in a store that does what it is asked and that nobody else changes;
/// `stages` are the table before, between and after what is asked.
pub proof fn law_harness_migration_carries_agents(
    pre: Trace,
    post: Trace,
    r: Result<bool, DbError>,
    stages: Seq<AgentTable>,
)
    requires
        schema::harness_allowed(pre, post, r),
        agents_follow(pre, post, stages),
        is_complete(stages[0]),
    ensures
        r == Ok::<bool, DbError>(!text::occurs(stages[0].definition, "'harness'"@)),
        r == Ok::<bool, DbError>(false) ==> stages.last() == stages[0],
        r == Ok::<bool, DbError>(true) ==> agents_carried(stages[0], stages.last())
            && text::occurs(stages.last().definition, schema::SQL_REBUILD_AGENTS_ACCESS@),
        text::occurs(stages.last().definition, "'harness'"@),
        is_complete(stages.last()),
{
    let (mid, definition) = choose|mid: Trace, definition: Result<String, DbError>|
        {
            &&& #[trigger] schema::definition_read(pre, mid, definition)
            &&& schema::harness_allowed_from(mid, post, definition, r)
        };
    let at = pre.len() as int;
    assert(mid.take(at) =~= pre);
    lemma_allowing_extends(mid, post, definition, r);
    trace::lemma_step_stays(mid, post, at);
    assert(trace::queries(post[at], schema::SQL_AGENTS_TABLE@));
    assert(agents_follow_step(post[at], stages[0], stages[1]));
    assert(definition is Ok && definition->Ok_0@ == stages[0].definition);
    if !text::occurs(stages[0].definition, "'harness'"@) {
        let (looked, got) = choose|looked: Trace, got: Result<Vec<ColumnName>, DbError>|
            {
                &&& #[trigger] schema::columns_read(mid, looked, "agents"@, got)
                &&& schema::rebuilt_from_columns(looked, post, got, r)
            };
        assert(looked.take(mid.len() as int) =~= mid);
        lemma_rebuilding_from_extends(looked, post, got, r);
        trace::lemma_step_stays(looked, post, at + 1);
        assert(trace::queries(post[at + 1], schema::columns_sql("agents"@)));
        assert(agents_follow_step(post[at + 1], stages[1], stages[2]));
        let found = post[at + 1]->reply->Rows_0;
        assert(forall|i: int| 0 <= i < found.len() ==> #[trigger] found[i] is Ok);
        assert(got is Ok);
        let columns = got->Ok_0;
        assert forall|i: int| 0 <= i < found.len() implies #[trigger] schema::names_of(columns@)[i]
            == stages[0].columns[i] by {
            assert(found[i] is Ok && columns@[i].is_row(found[i]->Ok_0));
        }
        assert(schema::names_of(columns@) =~= stages[0].columns);
        let rest = stages.skip(2);
        assert forall|k: int| looked.len() <= k < post.len() implies agents_follow_step(
            #[trigger] post[k],
            rest[k - looked.len()],
            rest[k - looked.len() + 1],
        ) by {
            assert(agents_follow_step(post[k], stages[k - pre.len()], stages[k - pre.len() + 1]));
        }
        lemma_rebuild_steps(looked, post, stages[0].columns, r, rest);
        lemma_new_check_allows_harness();
        lemma_occurs_further(
            stages.last().definition,
            schema::SQL_REBUILD_AGENTS_ACCESS@,
            "'harness'"@,
        );
    }
}

proof fn lemma_rebuilding_from_extends(
    pre: Trace,
    post: Trace,
    got: Result<Vec<ColumnName>, DbError>,
    r: Result<bool, DbError>,
)
    requires
        schema::rebuilt_from_columns(pre, post, got, r),
    ensures
        trace::extends(pre, post),
{
    if got is Ok {
        settled::lemma_rebuilding_extends(pre, post, schema::names_of(got->Ok_0@), r);
    } else {
        assert(post.take(pre.len() as int) =~= pre);
    }
}

/// To rebuild the agents' table where it has to be goes on from a trace.
pub proof fn lemma_allowing_extends(
    pre: Trace,
    post: Trace,
    definition: Result<String, DbError>,
    r: Result<bool, DbError>,
)
    requires
        schema::harness_allowed_from(pre, post, definition, r),
    ensures
        trace::extends(pre, post),
{
    if definition is Ok && !text::occurs(definition->Ok_0@, "'harness'"@) {
        let (looked, got) = choose|looked: Trace, got: Result<Vec<ColumnName>, DbError>|
            {
                &&& #[trigger] schema::columns_read(pre, looked, "agents"@, got)
                &&& schema::rebuilt_from_columns(looked, post, got, r)
            };
        assert(looked.take(pre.len() as int) =~= pre);
        lemma_rebuilding_from_extends(looked, post, got, r);
        trace::lemma_extends_further(pre, looked, post);
    } else {
        assert(post.take(pre.len() as int) =~= pre);
    }
}

/// To let access be `harness` a second time changes nothing, and its answer is no.
pub proof fn law_harness_migration_is_done_once(
    pre: Trace,
    mid: Trace,
    first: Result<bool, DbError>,
    stages: Seq<AgentTable>,
    later: Trace,
    post: Trace,
    second: Result<bool, DbError>,
    more: Seq<AgentTable>,
)
    requires
        schema::harness_allowed(pre, mid, first),
        agents_follow(pre, mid, stages),
        is_complete(stages[0]),
        schema::harness_allowed(later, post, second),
        agents_follow(later, post, more),
        more[0] == stages.last(),
    ensures
        second == Ok::<bool, DbError>(false),
        more.last() == stages.last(),
{
    law_harness_migration_carries_agents(pre, mid, first, stages);
    law_harness_migration_carries_agents(later, post, second, more);
}

} // verus!
