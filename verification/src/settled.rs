//! What a second run of the set-up asks: on replies that show a database up to date, nothing that
//! would change it.
use crate::engine::{Datum, DbError, Reply, Request, Step, Trace};
use crate::rows;
use crate::rows::FromRow;
use crate::schema;
use crate::schema::{Column, ColumnName, ColumnRule, ForeignKey, Move};
use crate::text;
use crate::trace;
use crate::tx;
use vstd::prelude::*;

verus! {

/// Whether a step shows, in a reply to a query for columns, one of a given name.
pub open spec fn shows_column(step: Step, name: Seq<char>) -> bool {
    &&& step matches Step::Asked { reply: Reply::Rows(found), .. }
    &&& exists|i: int|
        0 <= i < found.len() && (#[trigger] found[i] matches Ok(row) && row[0] == Datum::Text(name))
}

/// Whether a step shows, in a reply to a query for columns, all of some.
pub open spec fn shows_columns(step: Step, columns: Seq<Column>) -> bool {
    forall|i: int| 0 <= i < columns.len() ==> shows_column(step, #[trigger] columns[i].name@)
}

/// The value that a query for one value was replied with, if there was one.
pub open spec fn shown_value(step: Step) -> Option<Datum> {
    match step {
        Step::Asked { reply: Reply::Row(Some(row)), .. } => Some(row[0]),
        _ => None,
    }
}

/// Whether the replies of a stage show that what it is for has been done: the columns are there,
/// the definitions are the new ones, and nothing is stranded.
pub open spec fn settled(pre: Trace, post: Trace, stage: Move) -> bool {
    let first = post[pre.len() as int];
    let second = post[pre.len() as int + 1];
    match stage {
        Move::Batch(_) => true,
        Move::Plain(_) => true,
        Move::Bounded { .. } => true,
        Move::Upgrade { version, .. } => shown_value(first) matches Some(Datum::Integer(v)) && v
            >= version,
        Move::Columns { columns, .. } => shows_columns(first, columns),
        Move::LenientColumns { columns, .. } => shows_columns(first, columns),
        Move::WidenReasoning => match shown_value(first) {
            Some(Datum::Text(sql)) => !text::occurs(sql, schema::OLD_REASONING_CHECK@),
            Some(_) => false,
            None => true,
        },
        Move::RecoverAgents => shown_value(first) matches Some(Datum::Integer(n)) && n <= 0,
        Move::AllowHarness => shown_value(first) matches Some(Datum::Text(sql)) && text::occurs(
            sql,
            "'harness'"@,
        ),
        Move::MendConfigs => refers_elsewhere(pre, post),
        Move::MakeIcons => shows_column(first, "icon"@),
        Move::MakeNamespaces => {
            &&& shows_column(first, "namespace_id"@)
            &&& shows_column(second, "namespace_id"@)
            &&& shown_value(post[pre.len() as int + 2]) is Some
        },
        Move::MakeGroups => shows_column(first, "group_id"@),
        Move::MakeScopes => shows_column(first, "workspace_scope"@),
        Move::MakeGroupRepositories => shows_column(first, "repo_id"@),
        Move::LoosenDecisions => first matches Step::Asked { reply: Reply::Rows(found), .. }
            && forall|i: int|
            0 <= i < found.len() ==> (#[trigger] found[i] matches Ok(row) ==> !(row[0]
                == Datum::Text("run_id"@) && row[1] == Datum::Integer(1))),
    }
}

/// Whether the reply in a step can be read: it is no failure, and each of its rows can be read.
pub open spec fn legible(step: Step) -> bool {
    &&& step matches Step::Asked { reply, .. }
    &&& !(reply is Failed)
    &&& reply matches Reply::Rows(found) ==> forall|i: int|
        0 <= i < found.len() ==> #[trigger] found[i] is Ok
}

/// Whether the replies in all the steps after `pre` can be read.
pub open spec fn answered(pre: Trace, post: Trace) -> bool {
    forall|k: int| pre.len() <= k < post.len() ==> legible(#[trigger] post[k])
}

/// Whether a step is one of the queries by which the set-up reads the version of the database, the
/// definitions of its tables, their columns and their keys. They change nothing.
pub open spec fn is_query(step: Step) -> bool {
    ||| trace::queries(step, schema::SQL_USER_VERSION@)
    ||| trace::queries(step, schema::SQL_FOREIGN_KEYS@)
    ||| trace::queries(step, schema::SQL_AGENTS_DEFINITION@)
    ||| trace::queries(step, schema::SQL_AGENTS_TABLE@)
    ||| trace::queries(step, schema::SQL_TABLE_EXISTS_COUNT@)
    ||| trace::queries(step, schema::LEAD_KEYS_SQL@)
    ||| trace::queries(step, schema::SQL_DECISION_COLUMNS@)
    ||| exists|table: Seq<char>| trace::queries(step, #[trigger] schema::columns_sql(table))
}

/// Whether a step is the statement that a stage runs in any case.
pub open spec fn is_standing(step: Step, stage: Move) -> bool {
    &&& step matches Step::Asked { request, .. }
    &&& match stage {
        Move::Batch(sql) => request == (Request::Batch { sql: sql@ }),
        Move::Plain(sql) => request == tx::plain(sql@),
        Move::Bounded { sql, bound } => request == (Request::Execute {
            sql: sql@,
            params: seq![Datum::Integer(bound)],
        }),
        _ => false,
    }
}

/// Whether a stage only asked what it asks in any case: queries, and the statement of its own.
pub open spec fn quiet(pre: Trace, post: Trace, stage: Move) -> bool {
    &&& pre.len() <= post.len()
    &&& post.take(pre.len() as int) == pre
    &&& forall|k: int|
        pre.len() <= k < post.len() ==> is_query(
            #[trigger] post[k],
        ) || is_standing(post[k], stage)
}

proof fn lemma_shown_is_present(
    pre: Trace,
    post: Trace,
    table: Seq<char>,
    present: Vec<ColumnName>,
    name: Seq<char>,
)
    requires
        schema::columns_read(pre, post, table, Ok::<Vec<ColumnName>, DbError>(present)),
        shows_column(post.last(), name),
    ensures
        schema::names_of(present@).contains(name),
{
    let found = post.last()->reply->Rows_0;
    let i = choose|i: int|
        0 <= i < found.len() && (#[trigger] found[i] matches Ok(row) && row[0] == Datum::Text(
            name,
        ));
    assert(present@[i].is_row(found[i]->Ok_0));
    assert(schema::names_of(present@)[i] == name);
}

proof fn lemma_readable_has(
    found: Seq<Result<Seq<Datum>, Seq<char>>>,
    i: int,
)
    requires
        0 <= i < found.len(),
        found[i] is Ok,
    ensures
        exists|k: int|
            0 <= k < rows::readable_rows(found).len() && #[trigger] rows::readable_rows(found)[k]
                == found[i]->Ok_0,
    decreases found.len(),
{
    let rest = rows::readable_rows(found.drop_last());
    if i == found.len() - 1 {
        assert(rows::readable_rows(found)[rest.len() as int] == found[i]->Ok_0);
    } else {
        lemma_readable_has(found.drop_last(), i);
        let k = choose|k: int| 0 <= k < rest.len() && #[trigger] rest[k] == found[i]->Ok_0;
        assert(rows::readable_rows(found)[k] == found[i]->Ok_0);
    }
}

proof fn lemma_shown_is_readable(
    pre: Trace,
    post: Trace,
    table: Seq<char>,
    present: Vec<ColumnName>,
    name: Seq<char>,
)
    requires
        schema::readable_columns_read(pre, post, table, Ok::<Vec<ColumnName>, DbError>(present)),
        shows_column(post.last(), name),
    ensures
        schema::names_of(present@).contains(name),
{
    let found = post.last()->reply->Rows_0;
    let i = choose|i: int|
        0 <= i < found.len() && (#[trigger] found[i] matches Ok(row) && row[0] == Datum::Text(
            name,
        ));
    lemma_readable_has(found, i);
    let k = choose|k: int|
        0 <= k < rows::readable_rows(found).len() && #[trigger] rows::readable_rows(found)[k]
            == found[i]->Ok_0;
    assert(present@[k].is_row(rows::readable_rows(found)[k]));
    assert(schema::names_of(present@)[k] == name);
}

/// Whether a foreign key is the first of some that starts from `lead_agent_id`.
pub open spec fn is_lead_key(keys: Seq<ForeignKey>, i: int) -> bool {
    &&& 0 <= i < keys.len()
    &&& keys[i].from@ == "lead_agent_id"@
    &&& forall|j: int| 0 <= j < i ==> (#[trigger] keys[j]).from@ != "lead_agent_id"@
}

/// What the lead's foreign key refers to is said by the first of the keys that starts from it.
pub proof fn lemma_lead_target_is_of_the_lead_key(keys: Seq<ForeignKey>)
    ensures
        match schema::lead_target(keys) {
            Some((table, to)) => exists|i: int|
                #[trigger] is_lead_key(keys, i) && keys[i].table@ == table && keys[i].to@ == to,
            None => forall|i: int|
                0 <= i < keys.len() ==> (#[trigger] keys[i]).from@ != "lead_agent_id"@,
        },
    decreases keys.len(),
{
    if keys.len() > 0 {
        if keys[0].from@ == "lead_agent_id"@ {
            assert(is_lead_key(keys, 0));
        } else {
            let rest = keys.drop_first();
            lemma_lead_target_is_of_the_lead_key(rest);
            match schema::lead_target(keys) {
                Some((table, to)) => {
                    let i = choose|i: int|
                        #[trigger] is_lead_key(rest, i) && rest[i].table@ == table && rest[i].to@
                            == to;
                    assert forall|j: int| 0 <= j < i + 1 implies (#[trigger] keys[j]).from@
                        != "lead_agent_id"@ by {
                        if j > 0 {
                            assert(rest[j - 1] == keys[j]);
                        }
                    }
                    assert(is_lead_key(keys, i + 1));
                },
                None => {
                    assert forall|i: int| 0 <= i < keys.len() implies (#[trigger] keys[i]).from@
                        != "lead_agent_id"@ by {
                        if i > 0 {
                            assert(rest[i - 1] == keys[i]);
                        }
                    }
                },
            }
        }
    }
}

proof fn lemma_empty_script(pre: Trace, post: Trace, r: Result<(), DbError>)
    requires
        tx::scripted(pre, post, Seq::<Request>::empty(), r),
    ensures
        post == pre,
{
    assert(post =~= pre);
}

/// To run a script with foreign keys off goes on from a trace.
pub proof fn lemma_unenforced_extends(
    pre: Trace,
    post: Trace,
    body: Seq<Request>,
    r: Result<(), DbError>,
)
    requires
        schema::ran_unenforced(pre, post, body, r),
    ensures
        trace::extends(pre, post),
{
    let (mid, on) = choose|mid: Trace, on: Result<i64, DbError>|
        {
            &&& #[trigger] schema::enforcement_read(pre, mid, on)
            &&& schema::run_unenforced_as_found(mid, post, body, on, r)
        };
    assert(mid.take(pre.len() as int) =~= pre);
    if on is Ok {
        trace::lemma_extends_further(pre, mid, post);
    }
}

/// To give sessions a workspace scope goes on from a trace.
pub proof fn lemma_scopes_extend(pre: Trace, post: Trace, r: Result<(), DbError>)
    requires
        tx::transacted(
            pre,
            post,
            |a: Trace, b: Trace, x: Result<(), DbError>|
                tx::scripted(a, b, schema::scope_script(), x),
            r,
        ),
    ensures
        trace::extends(pre, post),
{
    tx::lemma_transaction_extends(
        pre,
        post,
        |a: Trace, b: Trace, x: Result<(), DbError>|
            tx::scripted(a, b, schema::scope_script(), x),
        r,
    );
}

/// To run a list of statements and switch foreign keys on goes on from a trace.
pub proof fn lemma_switching_extends(
    pre: Trace,
    post: Trace,
    sql: Seq<char>,
    on: bool,
    r: Result<(), DbError>,
)
    requires
        schema::batch_switched_on(pre, post, sql, on, r),
    ensures
        trace::extends(pre, post),
{
    let (mid, done) = choose|mid: Trace, done: Result<(), DbError>|
        {
            &&& #[trigger] tx::batched(pre, mid, sql, done)
            &&& schema::switched_on_after(mid, post, on, done, r)
        };
    trace::lemma_asking_extends(pre, mid, Request::Batch { sql });
    if on {
        trace::lemma_asking_extends(
            mid,
            post,
            Request::Batch { sql: schema::SQL_FOREIGN_KEYS_ON@ },
        );
        trace::lemma_extends_further(pre, mid, post);
    }
}

/// To make the configuration anew goes on from a trace.
pub proof fn lemma_reset_extends(pre: Trace, post: Trace, r: Result<(), DbError>)
    requires
        schema::configs_reset(pre, post, r),
    ensures
        trace::extends(pre, post),
{
    let sql = schema::SQL_RESET_SESSION_AGENT_CONFIGS@;
    let (mid, on) = choose|mid: Trace, on: Result<i64, DbError>|
        {
            &&& #[trigger] schema::enforcement_read(pre, mid, on)
            &&& schema::configs_reset_as_found(mid, post, on, r)
        };
    assert(mid.take(pre.len() as int) =~= pre);
    match on {
        Ok(n) => {
            if n == 0 {
                lemma_switching_extends(mid, post, sql, false, r);
            } else {
                let (off, switched) = choose|off: Trace, switched: Result<(), DbError>|
                    {
                        &&& #[trigger] tx::batched(
                            mid,
                            off,
                            schema::SQL_FOREIGN_KEYS_OFF@,
                            switched,
                        )
                        &&& schema::configs_reset_when_off(off, post, switched, r)
                    };
                trace::lemma_asking_extends(
                    mid,
                    off,
                    Request::Batch { sql: schema::SQL_FOREIGN_KEYS_OFF@ },
                );
                if switched is Ok {
                    lemma_switching_extends(off, post, sql, true, r);
                    trace::lemma_extends_further(mid, off, post);
                }
            }
            trace::lemma_extends_further(pre, mid, post);
        },
        Err(_) => {},
    }
}

proof fn lemma_settled_version(
    pre: Trace,
    post: Trace,
    version: i64,
    sql: Seq<char>,
    r: Result<(), DbError>,
)
    requires
        schema::upgraded(pre, post, version, sql, r),
        shown_value(post[pre.len() as int]) matches Some(Datum::Integer(v)) && v >= version,
        answered(pre, post),
    ensures
        r is Ok,
        trace::extends(pre, post),
        post.len() == pre.len() + 1,
        is_query(post[pre.len() as int]),
{
    let (mid, got) = choose|mid: Trace, got: Result<i64, DbError>|
        {
            &&& #[trigger] schema::version_read(pre, mid, got)
            &&& schema::upgraded_from(mid, post, version, sql, got, r)
        };
    assert(mid.take(pre.len() as int) =~= pre);
    if got->Ok_0 < version {
        trace::lemma_asking_extends(mid, post, Request::Batch { sql });
        trace::lemma_extends_further(pre, mid, post);
    }
}

proof fn lemma_settled_columns(
    pre: Trace,
    post: Trace,
    table: Seq<char>,
    columns: Seq<Column>,
    r: Result<(), DbError>,
)
    requires
        schema::columns_added(pre, post, table, columns, r),
        shows_columns(post[pre.len() as int], columns),
        answered(pre, post),
    ensures
        r is Ok,
        trace::extends(pre, post),
        post.len() == pre.len() + 1,
        is_query(post[pre.len() as int]),
{
    let (mid, got) = choose|mid: Trace, got: Result<Vec<ColumnName>, DbError>|
        {
            &&& #[trigger] schema::columns_read(pre, mid, table, got)
            &&& schema::columns_completed(mid, post, table, columns, got, r)
        };
    let present = got->Ok_0;
    assert(mid.take(pre.len() as int) =~= pre);
    trace::lemma_extends_further(pre, mid, post);
    assert forall|i: int| 0 <= i < columns.len() implies schema::names_of(present@).contains(
        #[trigger] columns[i].name@,
    ) by {
        lemma_shown_is_present(pre, mid, table, present, columns[i].name@);
    }
    schema::law_present_columns_stay(table, columns, schema::names_of(present@));
    lemma_empty_script(mid, post, r);
}

proof fn lemma_settled_columns_leniently(
    pre: Trace,
    post: Trace,
    table: Seq<char>,
    columns: Seq<Column>,
    r: Result<(), DbError>,
)
    requires
        schema::columns_added_leniently(pre, post, table, columns, r),
        shows_columns(post[pre.len() as int], columns),
        answered(pre, post),
    ensures
        r is Ok,
        trace::extends(pre, post),
        post.len() == pre.len() + 1,
        is_query(post[pre.len() as int]),
{
    let (mid, got) = choose|mid: Trace, got: Result<Vec<ColumnName>, DbError>|
        {
            &&& #[trigger] schema::readable_columns_read(pre, mid, table, got)
            &&& schema::columns_completed(mid, post, table, columns, got, r)
        };
    let present = got->Ok_0;
    assert(mid.take(pre.len() as int) =~= pre);
    trace::lemma_extends_further(pre, mid, post);
    assert forall|i: int| 0 <= i < columns.len() implies schema::names_of(present@).contains(
        #[trigger] columns[i].name@,
    ) by {
        lemma_shown_is_readable(pre, mid, table, present, columns[i].name@);
    }
    schema::law_present_columns_stay(table, columns, schema::names_of(present@));
    lemma_empty_script(mid, post, r);
}

proof fn lemma_settled_reasoning(pre: Trace, post: Trace, r: Result<(), DbError>)
    requires
        schema::reasoning_widened(pre, post, r),
        settled(pre, post, Move::WidenReasoning),
        answered(pre, post),
    ensures
        r is Ok,
        trace::extends(pre, post),
        post.len() == pre.len() + 1,
        is_query(post[pre.len() as int]),
{
    let body = seq![Request::Batch { sql: schema::SQL_WIDEN_REASONING@ }];
    let (mid, definition) = choose|mid: Trace, definition: Result<Option<String>, DbError>|
        {
            &&& #[trigger] schema::definition_found(pre, mid, definition)
            &&& schema::reasoning_widened_from(mid, post, definition, r)
        };
    assert(mid.take(pre.len() as int) =~= pre);
    if definition matches Ok(Some(sql)) && text::occurs(sql@, schema::OLD_REASONING_CHECK@) {
        lemma_unenforced_extends(mid, post, body, r);
        trace::lemma_extends_further(pre, mid, post);
    }
}

proof fn lemma_counted(
    pre: Trace,
    post: Trace,
    table: Seq<char>,
    there: Result<bool, DbError>,
)
    requires
        schema::existence_read(pre, post, table, there),
    ensures
        trace::extends(pre, post),
        post.len() == pre.len() + 1,
        is_query(post[pre.len() as int]),
        shown_value(post[pre.len() as int]) matches Some(Datum::Integer(n)) && n <= 0 ==> there
            == Ok::<bool, DbError>(false),
{
    assert(post.take(pre.len() as int) =~= pre);
}

proof fn lemma_settled_agents(pre: Trace, post: Trace, r: Result<(), DbError>)
    requires
        schema::agents_recovered(pre, post, r),
        settled(pre, post, Move::RecoverAgents),
        answered(pre, post),
    ensures
        r is Ok,
        trace::extends(pre, post),
        post.len() == pre.len() + 1,
        is_query(post[pre.len() as int]),
{
    let (mid, there) = choose|mid: Trace, there: Result<bool, DbError>|
        {
            &&& #[trigger] schema::existence_read(pre, mid, schema::STRANDED_AGENTS@, there)
            &&& schema::agents_recovered_if_there(mid, post, there, r)
        };
    lemma_counted(pre, mid, schema::STRANDED_AGENTS@, there);
    if there == Ok::<bool, DbError>(true) {
        let (looked, has) = choose|looked: Trace, has: Result<bool, DbError>|
            {
                &&& #[trigger] schema::column_looked_up(
                    mid,
                    looked,
                    schema::STRANDED_AGENTS@,
                    "cap_lead"@,
                    has,
                )
                &&& schema::agents_moved_back(looked, post, has, r)
            };
        lemma_looked_up(mid, looked, schema::STRANDED_AGENTS@, "cap_lead"@, has);
        trace::lemma_extends_further(pre, mid, looked);
        trace::lemma_extends_further(pre, looked, post);
    }
}

proof fn lemma_looked_up(
    pre: Trace,
    post: Trace,
    table: Seq<char>,
    column: Seq<char>,
    there: Result<bool, DbError>,
)
    requires
        schema::column_looked_up(pre, post, table, column, there),
    ensures
        trace::extends(pre, post),
        post.len() == pre.len() + 1,
        is_query(post[pre.len() as int]),
        shows_column(post[pre.len() as int], column) && there is Ok ==> there == Ok::<
            bool,
            DbError,
        >(true),
{
    assert(post.take(pre.len() as int) =~= pre);
    let got = choose|got: Result<Vec<ColumnName>, DbError>|
        #[trigger] schema::columns_read(pre, post, table, got) && there == match got {
            Ok(present) => Ok::<bool, DbError>(schema::names_of(present@).contains(column)),
            Err(e) => Err(e),
        };
    if shows_column(post[pre.len() as int], column) && there is Ok {
        lemma_shown_is_present(pre, post, table, got->Ok_0, column);
    }
}

proof fn lemma_settled_harness(pre: Trace, post: Trace, r: Result<(), DbError>)
    requires
        schema::harness_ensured(pre, post, r),
        settled(pre, post, Move::AllowHarness),
        answered(pre, post),
    ensures
        r is Ok,
        trace::extends(pre, post),
        post.len() == pre.len() + 1,
        is_query(post[pre.len() as int]),
{
    let got = choose|got: Result<bool, DbError>|
        #[trigger] schema::harness_allowed(pre, post, got) && r == match got {
            Ok(_) => Ok::<(), DbError>(()),
            Err(e) => Err(e),
        };
    law_harness_is_allowed_once(pre, post, got);
}

/// To rebuild the agents' table goes on from a trace.
pub proof fn lemma_rebuilding_extends(
    pre: Trace,
    post: Trace,
    present: Seq<Seq<char>>,
    r: Result<bool, DbError>,
)
    requires
        schema::agents_rebuilt(pre, post, present, r),
    ensures
        trace::extends(pre, post),
{
    let (mid, on) = choose|mid: Trace, on: Result<i64, DbError>|
        {
            &&& #[trigger] schema::enforcement_read(pre, mid, on)
            &&& schema::rebuilt_as_found(mid, post, present, on, r)
        };
    assert(mid.take(pre.len() as int) =~= pre);
    if on is Ok {
        trace::lemma_extends_further(pre, mid, post);
    }
}

/// Where the definition of the agents' table says that access may be `harness`, the table is not
/// rebuilt: nothing but the definition is asked for, and the answer is no.
pub proof fn law_harness_is_allowed_once(pre: Trace, post: Trace, r: Result<bool, DbError>)
    requires
        schema::harness_allowed(pre, post, r),
        shown_value(post[pre.len() as int]) matches Some(Datum::Text(sql)) && text::occurs(
            sql,
            "'harness'"@,
        ),
    ensures
        r == Ok::<bool, DbError>(false),
        trace::extends(pre, post),
        post.len() == pre.len() + 1,
        is_query(post[pre.len() as int]),
{
    let (mid, definition) = choose|mid: Trace, definition: Result<String, DbError>|
        {
            &&& #[trigger] schema::definition_read(pre, mid, definition)
            &&& schema::harness_allowed_from(mid, post, definition, r)
        };
    assert(mid.take(pre.len() as int) =~= pre);
    if definition is Ok && !text::occurs(definition->Ok_0@, "'harness'"@) {
        let (looked, got) = choose|looked: Trace, got: Result<Vec<ColumnName>, DbError>|
            {
                &&& #[trigger] schema::columns_read(mid, looked, "agents"@, got)
                &&& schema::rebuilt_from_columns(looked, post, got, r)
            };
        assert(looked.take(mid.len() as int) =~= mid);
        if got is Ok {
            lemma_rebuilding_extends(looked, post, schema::names_of(got->Ok_0@), r);
            trace::lemma_extends_further(mid, looked, post);
        }
        trace::lemma_extends_further(pre, mid, post);
    }
}

/// Whether a row of foreign keys is one that starts from `lead_agent_id`.
pub open spec fn is_lead_row(row: Result<Seq<Datum>, Seq<char>>) -> bool {
    row matches Ok(values) && values[1] == Datum::Text("lead_agent_id"@)
}

/// Whether a step shows, in a reply to the query for foreign keys, that the first of those that start
/// from `lead_agent_id` refers to the table that a broken upgrade leaves behind.
pub open spec fn shows_stranded_lead(step: Step) -> bool {
    &&& step matches Step::Asked { reply: Reply::Rows(found), .. }
    &&& exists|i: int|
        {
            &&& 0 <= i < found.len()
            &&& is_lead_row(#[trigger] found[i])
            &&& forall|j: int| 0 <= j < i ==> !is_lead_row(#[trigger] found[j])
            &&& found[i]->Ok_0[0] == Datum::Text(schema::STRANDED_AGENTS@)
            &&& found[i]->Ok_0[2] == Datum::Text("id"@)
        }
}

/// The lead of the configuration, where it exists, does not refer to the table that a broken upgrade
/// leaves behind.
pub open spec fn refers_elsewhere(pre: Trace, post: Trace) -> bool {
    &&& shown_value(post[pre.len() as int]) matches Some(Datum::Integer(n))
    &&& n <= 0 || !shows_stranded_lead(post[pre.len() as int + 1])
}

proof fn lemma_settled_target(
    pre: Trace,
    post: Trace,
    r: Result<Option<(String, String)>, DbError>,
)
    requires
        schema::target_read(pre, post, r),
    ensures
        trace::extends(pre, post),
        pre.len() < post.len() <= pre.len() + 2,
        forall|k: int| pre.len() <= k < post.len() ==> is_query(#[trigger] post[k]),
        shown_value(post[pre.len() as int]) matches Some(Datum::Integer(n)) && n <= 0 ==> r == Ok::<
            Option<(String, String)>,
            DbError,
        >(None),
        r matches Ok(t) && schema::stranded_target(t) ==> post.len() == pre.len() + 2
            && shows_stranded_lead(post[pre.len() as int + 1]),
        answered(pre, post) && shown_value(post[pre.len() as int]) is Some ==> r is Ok,
{
    let (mid, there) = choose|mid: Trace, there: Result<bool, DbError>|
        {
            &&& #[trigger] schema::existence_read(pre, mid, "session_agent_configs"@, there)
            &&& schema::target_read_if_there(mid, post, there, r)
        };
    lemma_counted(pre, mid, "session_agent_configs"@, there);
    if there == Ok::<bool, DbError>(true) {
        let got = choose|got: Result<Vec<ForeignKey>, DbError>|
            {
                &&& #[trigger] schema::keys_read(mid, post, got)
                &&& schema::target_taken(got, r)
            };
        assert(post.take(mid.len() as int) =~= mid);
        trace::lemma_extends_further(pre, mid, post);
        if r matches Ok(t) && schema::stranded_target(t) {
            let keys = got->Ok_0;
            lemma_lead_target_is_of_the_lead_key(keys@);
            let i = choose|i: int|
                #[trigger] is_lead_key(keys@, i) && keys@[i].table@ == schema::STRANDED_AGENTS@
                    && keys@[i].to@ == "id"@;
            let found = post.last()->reply->Rows_0;
            assert(found[i] is Ok && keys@[i].is_row(found[i]->Ok_0));
            assert forall|j: int| 0 <= j < i implies !is_lead_row(#[trigger] found[j]) by {
                assert(found[j] is Ok && keys@[j].is_row(found[j]->Ok_0));
            }
        }
    }
}

proof fn lemma_settled_configs(pre: Trace, post: Trace, r: Result<(), DbError>)
    requires
        schema::bad_target_reset(pre, post, r),
        refers_elsewhere(pre, post),
        answered(pre, post),
    ensures
        r is Ok,
        trace::extends(pre, post),
        forall|k: int| pre.len() <= k < post.len() ==> is_query(#[trigger] post[k]),
{
    let (mid, target) = choose|mid: Trace, target: Result<Option<(String, String)>, DbError>|
        {
            &&& #[trigger] schema::target_read(pre, mid, target)
            &&& schema::reset_if_stranded(mid, post, target, r)
        };
    lemma_settled_target(pre, mid, target);
    if target matches Ok(t) && schema::stranded_target(t) {
        lemma_reset_extends(mid, post, r);
        trace::lemma_extends_further(pre, mid, post);
    }
}

proof fn lemma_settled_icons(pre: Trace, post: Trace, r: Result<(), DbError>)
    requires
        schema::icons_made(pre, post, r),
        shows_column(post[pre.len() as int], "icon"@),
        answered(pre, post),
    ensures
        r is Ok,
        trace::extends(pre, post),
        post.len() == pre.len() + 1,
        is_query(post[pre.len() as int]),
{
    let (mid, got) = choose|mid: Trace, got: Result<Vec<ColumnName>, DbError>|
        {
            &&& #[trigger] schema::columns_read(pre, mid, "repos"@, got)
            &&& schema::icons_completed(mid, post, got, r)
        };
    assert(mid.take(pre.len() as int) =~= pre);
    trace::lemma_extends_further(pre, mid, post);
    lemma_shown_is_present(pre, mid, "repos"@, got->Ok_0, "icon"@);
    lemma_empty_script(mid, post, r);
}

proof fn lemma_settled_namespaces(pre: Trace, post: Trace, r: Result<(), DbError>)
    requires
        schema::namespaces_made(pre, post, r),
        shows_column(post[pre.len() as int], "namespace_id"@),
        shows_column(post[pre.len() as int + 1], "namespace_id"@),
        shown_value(post[pre.len() as int + 2]) is Some,
        answered(pre, post),
    ensures
        r is Ok,
        trace::extends(pre, post),
        forall|k: int| pre.len() <= k < post.len() ==> is_query(#[trigger] post[k]),
{
    let (mid, in_repos) = choose|mid: Trace, in_repos: Result<bool, DbError>|
        {
            &&& #[trigger] schema::column_looked_up(
                pre,
                mid,
                "repos"@,
                "namespace_id"@,
                in_repos,
            )
            &&& schema::namespaces_made_from(mid, post, in_repos, r)
        };
    lemma_looked_up(pre, mid, "repos"@, "namespace_id"@, in_repos);
    let repos_has = in_repos->Ok_0;
    let (seen, in_sessions) = choose|seen: Trace, in_sessions: Result<bool, DbError>|
        {
            &&& #[trigger] schema::column_looked_up(
                mid,
                seen,
                "sessions"@,
                "namespace_id"@,
                in_sessions,
            )
            &&& schema::namespaces_added(seen, post, repos_has, in_sessions, r)
        };
    lemma_looked_up(mid, seen, "sessions"@, "namespace_id"@, in_sessions);
    let there = in_sessions->Ok_0;
    let (read, on) = choose|read: Trace, on: Result<i64, DbError>|
        {
            &&& #[trigger] schema::enforcement_read(seen, read, on)
            &&& schema::namespaces_added_as_found(read, post, repos_has, there, on, r)
        };
    assert(read.take(seen.len() as int) =~= seen);
    trace::lemma_extends_further(pre, mid, seen);
    trace::lemma_extends_further(mid, seen, read);
    trace::lemma_extends_further(pre, seen, read);
    trace::lemma_extends_further(mid, read, post);
    trace::lemma_extends_further(pre, read, post);
    assert(schema::namespace_script(true, true, on->Ok_0) =~= Seq::<Request>::empty());
    lemma_empty_script(read, post, r);
}

proof fn lemma_settled_groups(pre: Trace, post: Trace, r: Result<(), DbError>)
    requires
        schema::groups_made(pre, post, r),
        shows_column(post[pre.len() as int], "group_id"@),
        answered(pre, post),
    ensures
        r is Ok,
        trace::extends(pre, post),
        post.len() == pre.len() + 1,
        is_query(post[pre.len() as int]),
{
    let body = seq![tx::plain(schema::SQL_SESSION_GROUP@)];
    let (mid, there) = choose|mid: Trace, there: Result<bool, DbError>|
        {
            &&& #[trigger] schema::column_looked_up(pre, mid, "sessions"@, "group_id"@, there)
            &&& schema::groups_made_from(mid, post, there, r)
        };
    lemma_looked_up(pre, mid, "sessions"@, "group_id"@, there);
    if there == Ok::<bool, DbError>(false) {
        lemma_unenforced_extends(mid, post, body, r);
        trace::lemma_extends_further(pre, mid, post);
    }
}

proof fn lemma_settled_scopes(pre: Trace, post: Trace, r: Result<(), DbError>)
    requires
        schema::scopes_made(pre, post, r),
        shows_column(post[pre.len() as int], "workspace_scope"@),
        answered(pre, post),
    ensures
        r is Ok,
        trace::extends(pre, post),
        post.len() == pre.len() + 1,
        is_query(post[pre.len() as int]),
{
    let (mid, there) = choose|mid: Trace, there: Result<bool, DbError>|
        {
            &&& #[trigger] schema::column_looked_up(
                pre,
                mid,
                "sessions"@,
                "workspace_scope"@,
                there,
            )
            &&& schema::scopes_made_from(mid, post, there, r)
        };
    lemma_looked_up(pre, mid, "sessions"@, "workspace_scope"@, there);
    if there == Ok::<bool, DbError>(false) {
        lemma_scopes_extend(mid, post, r);
        trace::lemma_extends_further(pre, mid, post);
    }
}

proof fn lemma_settled_group_repositories(pre: Trace, post: Trace, r: Result<(), DbError>)
    requires
        schema::group_repositories_made(pre, post, r),
        shows_column(post[pre.len() as int], "repo_id"@),
        answered(pre, post),
    ensures
        r is Ok,
        trace::extends(pre, post),
        post.len() == pre.len() + 1,
        is_query(post[pre.len() as int]),
{
    let (mid, there) = choose|mid: Trace, there: Result<bool, DbError>|
        {
            &&& #[trigger] schema::column_looked_up(
                pre,
                mid,
                "session_groups"@,
                "repo_id"@,
                there,
            )
            &&& schema::groups_bound_from(mid, post, there, r)
        };
    lemma_looked_up(pre, mid, "session_groups"@, "repo_id"@, there);
    if there == Ok::<bool, DbError>(false) {
        trace::lemma_extends_further(pre, mid, post);
    }
}

proof fn lemma_settled_decisions(pre: Trace, post: Trace, r: Result<(), DbError>)
    requires
        schema::decisions_loosened(pre, post, r),
        settled(pre, post, Move::LoosenDecisions),
        answered(pre, post),
    ensures
        r is Ok,
        trace::extends(pre, post),
        post.len() == pre.len() + 1,
        is_query(post[pre.len() as int]),
{
    let (mid, got) = choose|mid: Trace, got: Result<Vec<ColumnRule>, DbError>|
        {
            &&& #[trigger] schema::rules_read(pre, mid, got)
            &&& schema::loosened_from(mid, post, got, r)
        };
    assert(mid.take(pre.len() as int) =~= pre);
    let rules = got->Ok_0;
    if schema::demanded(rules@) {
        trace::lemma_asking_extends(
            mid,
            post,
            Request::Batch { sql: schema::SQL_LOOSEN_DECISIONS@ },
        );
        trace::lemma_extends_further(pre, mid, post);
        let i = choose|i: int| 0 <= i < rules@.len() && schema::demands_run(#[trigger] rules@[i]);
        let found = mid.last()->reply->Rows_0;
        assert(found[i] is Ok && rules@[i].is_row(found[i]->Ok_0));
    }
}

/// A stage whose replies show that what it is for has been done asks for no change.
pub proof fn law_settled_stage_is_quiet(
    pre: Trace,
    post: Trace,
    stage: Move,
    r: Result<(), DbError>,
)
    requires
        schema::staged(pre, post, stage, r),
        settled(pre, post, stage),
        answered(pre, post),
    ensures
        r is Ok,
        quiet(pre, post, stage),
{
    match stage {
        Move::Batch(_) | Move::Plain(_) | Move::Bounded { .. } => {
            assert(post.take(pre.len() as int) =~= pre);
        },
        Move::Upgrade { version, sql } => lemma_settled_version(pre, post, version, sql@, r),
        Move::Columns { table, columns } => lemma_settled_columns(pre, post, table@, columns, r),
        Move::LenientColumns { table, columns } => lemma_settled_columns_leniently(
            pre,
            post,
            table@,
            columns,
            r,
        ),
        Move::WidenReasoning => lemma_settled_reasoning(pre, post, r),
        Move::RecoverAgents => lemma_settled_agents(pre, post, r),
        Move::AllowHarness => lemma_settled_harness(pre, post, r),
        Move::MendConfigs => lemma_settled_configs(pre, post, r),
        Move::MakeIcons => lemma_settled_icons(pre, post, r),
        Move::MakeNamespaces => lemma_settled_namespaces(pre, post, r),
        Move::MakeGroups => lemma_settled_groups(pre, post, r),
        Move::MakeScopes => lemma_settled_scopes(pre, post, r),
        Move::MakeGroupRepositories => lemma_settled_group_repositories(pre, post, r),
        Move::LoosenDecisions => lemma_settled_decisions(pre, post, r),
    }
}

/// Whether a step is a query, or the statement that some stage of a plan runs in any case.
pub open spec fn is_upkeep(step: Step, plan: Seq<Move>) -> bool {
    is_query(step) || exists|i: int| 0 <= i < plan.len() && is_standing(
        step,
        #[trigger] plan[i],
    )
}

proof fn lemma_stages_are_quiet(marks: Seq<Trace>, plan: Seq<Move>, n: int)
    requires
        0 <= n < marks.len(),
        n <= plan.len(),
        forall|i: int| 0 <= i < n ==> quiet(marks[i], marks[i + 1], #[trigger] plan[i]),
    ensures
        trace::extends(marks[0], marks[n]),
        forall|k: int|
            marks[0].len() <= k < marks[n].len() ==> is_upkeep(#[trigger] marks[n][k], plan),
    decreases n,
{
    if n == 0 {
        assert(marks[0].take(marks[0].len() as int) =~= marks[0]);
    } else {
        let before = marks[n - 1];
        let after = marks[n];
        lemma_stages_are_quiet(marks, plan, n - 1);
        assert(quiet(before, after, plan[n - 1]));
        trace::lemma_extends_further(marks[0], before, after);
        assert forall|k: int| marks[0].len() <= k < after.len() implies is_upkeep(
            #[trigger] after[k],
            plan,
        ) by {
            if k < before.len() {
                assert(after[k] == after.take(before.len() as int)[k]);
                assert(is_upkeep(before[k], plan));
            } else {
                assert(is_query(after[k]) || is_standing(after[k], plan[n - 1]));
            }
        }
    }
}

/// To set up a database whose replies show that it is up to date succeeds and asks for no change:
/// all that is asked are queries, and the statements that are run at any set-up. `marks` are the
/// traces before, between and after the stages.
pub proof fn law_setup_is_idempotent(
    marks: Seq<Trace>,
    pre: Trace,
    post: Trace,
    r: Result<(), DbError>,
)
    requires
        schema::passed(marks, pre, post, schema::schema_plan(), r),
        forall|i: int|
            0 <= i < marks.len() - 1 ==> settled(
                marks[i],
                marks[i + 1],
                #[trigger] schema::schema_plan()[i],
            ) && answered(marks[i], marks[i + 1]),
    ensures
        r is Ok,
        trace::extends(pre, post),
        forall|k: int|
            pre.len() <= k < post.len() ==> is_upkeep(#[trigger] post[k], schema::schema_plan()),
{
    let plan = schema::schema_plan();
    let n = marks.len() - 1;
    assert forall|i: int| 0 <= i < n implies quiet(marks[i], marks[i + 1], #[trigger] plan[i]) by {
        let one = if i == n - 1 {
            r
        } else {
            Ok::<(), DbError>(())
        };
        law_settled_stage_is_quiet(marks[i], marks[i + 1], plan[i], one);
    }
    if n > 0 {
        let last = plan[n - 1];
        law_settled_stage_is_quiet(marks[n - 1], marks[n], last, r);
    }
    lemma_stages_are_quiet(marks, plan, n);
}

} // verus!
