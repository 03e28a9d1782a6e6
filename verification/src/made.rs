//! What the set-up makes of any store: one that is up to date, so that a second set-up changes
//! nothing.
use crate::engine::{Datum, DbError, Request, Step, Trace};
use crate::harness;
use crate::rows;
use crate::rows::FromRow;
use crate::schema;
use crate::schema::{Column, ColumnName, ColumnRule, ForeignKey, Move};
use crate::settled;
use crate::text;
use crate::trace;
use crate::tx;
use crate::upkeep;
use crate::upkeep::{Record, Store};
use vstd::prelude::*;

verus! {

proof fn lemma_no_change(store: Store, tables: Seq<Seq<char>>)
    ensures
        upkeep::changes(store, store, tables),
{
}

proof fn lemma_changes_further(a: Store, b: Store, c: Store, tables: Seq<Seq<char>>)
    requires
        upkeep::changes(a, b, tables),
        upkeep::changes(b, c, tables),
    ensures
        upkeep::changes(a, c, tables),
{
    assert forall|table: Seq<char>| !tables.contains(table) implies {
        &&& #[trigger] upkeep::has_table(c, table) <==> upkeep::has_table(a, table)
        &&& upkeep::has_table(a, table) ==> upkeep::same_shape(c.tables[table], a.tables[table])
    } by {
        assert(upkeep::has_table(b, table) <==> upkeep::has_table(a, table));
        assert(upkeep::has_table(c, table) <==> upkeep::has_table(b, table));
    }
    assert forall|table: Seq<char>|
        upkeep::is_lasting(table) && upkeep::has_table(a, table) implies #[trigger] upkeep::has_table(
        c,
        table,
    ) by {
        assert(upkeep::has_table(b, table));
    }
    assert forall|table: Seq<char>, column: Seq<char>|
        upkeep::is_steady(table) && upkeep::is_kept(table, column) && upkeep::has_column(
            a,
            table,
            column,
        ) implies #[trigger] upkeep::has_column(c, table, column) by {
        assert(upkeep::has_column(b, table, column));
    }
}

proof fn lemma_same_shape_same_columns(a: Store, b: Store, table: Seq<char>, column: Seq<char>)
    requires
        upkeep::has_table(a, table),
        upkeep::has_table(b, table),
        a.tables[table].fields == b.tables[table].fields,
        upkeep::has_column(a, table, column),
    ensures
        upkeep::has_column(b, table, column),
{
    let fields = a.tables[table].fields;
    let i = choose|i: int| 0 <= i < fields.len() && (#[trigger] fields[i]).name == column;
    assert(b.tables[table].fields[i].name == column);
}

proof fn lemma_changes_wider(a: Store, b: Store, few: Seq<Seq<char>>, many: Seq<Seq<char>>)
    requires
        upkeep::changes(a, b, few),
        forall|i: int| 0 <= i < few.len() ==> many.contains(#[trigger] few[i]),
    ensures
        upkeep::changes(a, b, many),
{
    assert forall|table: Seq<char>| !many.contains(table) implies !few.contains(table) by {
        if few.contains(table) {
            let i = choose|i: int| 0 <= i < few.len() && few[i] == table;
            assert(many.contains(few[i]));
        }
    }
}

proof fn lemma_made_changes(before: Store, tables: Seq<Seq<char>>, after: Store)
    requires
        upkeep::tables_made(before, tables, after),
    ensures
        upkeep::changes(before, after, tables),
        upkeep::has_tables(after, tables),
{
    assert forall|table: Seq<char>| !tables.contains(table) implies {
        &&& #[trigger] upkeep::has_table(after, table) <==> upkeep::has_table(before, table)
        &&& upkeep::has_table(before, table) ==> upkeep::same_shape(
            after.tables[table],
            before.tables[table],
        )
    } by {
        assert(after.tables.dom().contains(table) <==> before.tables.dom().contains(table));
        if upkeep::has_table(before, table) {
            assert(after.tables[table] == before.tables[table]);
        }
    }
    assert forall|table: Seq<char>, column: Seq<char>| upkeep::has_column(
        before,
        table,
        column,
    ) implies #[trigger] upkeep::has_column(after, table, column) by {
        assert(after.tables.dom().contains(table));
        assert(after.tables[table] == before.tables[table]);
        lemma_same_shape_same_columns(before, after, table, column);
    }
    assert forall|table: Seq<char>| upkeep::is_lasting(table) && upkeep::has_table(
        before,
        table,
    ) implies #[trigger] upkeep::has_table(after, table) by {
        assert(after.tables.dom().contains(table));
    }
    assert forall|i: int| 0 <= i < tables.len() implies upkeep::has_table(
        after,
        #[trigger] tables[i],
    ) by {
        assert(after.tables.dom().contains(tables[i]));
    }
}

proof fn lemma_devices_change(before: Store, rows: Seq<Record>)
    requires
        upkeep::has_table(before, "remote_devices"@),
    ensures
        upkeep::changes(before, upkeep::with_devices(before, rows), Seq::empty()),
{
    let after = upkeep::with_devices(before, rows);
    assert forall|table: Seq<char>, column: Seq<char>| upkeep::has_column(
        before,
        table,
        column,
    ) implies #[trigger] upkeep::has_column(after, table, column) by {
        lemma_same_shape_same_columns(before, after, table, column);
    }
}

proof fn lemma_follows_on(pre: Trace, mid: Trace, post: Trace, stores: Seq<Store>)
    requires
        upkeep::store_follows(pre, post, stores),
        pre.len() <= mid.len() <= post.len(),
    ensures
        upkeep::store_follows(mid, post, stores.skip(mid.len() - pre.len())),
        stores.skip(mid.len() - pre.len()).last() == stores.last(),
{
    let rest = stores.skip(mid.len() - pre.len());
    assert forall|k: int| mid.len() <= k < post.len() implies upkeep::store_follows_step(
        #[trigger] post[k],
        rest[k - mid.len()],
        rest[k - mid.len() + 1],
    ) by {
        assert(upkeep::store_follows_step(
            post[k],
            stores[k - pre.len()],
            stores[k - pre.len() + 1],
        ));
    }
}

/// Whether a request changes some tables of a store at most.
spec fn is_bounded(request: Request, tables: Seq<Seq<char>>) -> bool {
    forall|step: Step, before: Store, after: Store|
        #![trigger upkeep::store_follows_step(step, before, after), tx::asks(step, request)]
        upkeep::store_follows_step(step, before, after) && tx::asks(step, request)
            ==> upkeep::changes(before, after, tables)
}

proof fn lemma_script_changes(
    pre: Trace,
    post: Trace,
    script: Seq<Request>,
    stores: Seq<Store>,
    tables: Seq<Seq<char>>,
    m: int,
    n: int,
)
    requires
        tx::scripted(pre, post, script, Ok::<(), DbError>(())),
        upkeep::store_follows(pre, post, stores),
        forall|i: int| m <= i < script.len() ==> is_bounded(#[trigger] script[i], tables),
        0 <= m <= n <= script.len(),
    ensures
        upkeep::changes(stores[m], stores[n], tables),
    decreases n - m,
{
    if n == m {
        lemma_no_change(stores[m], tables);
    } else {
        lemma_script_changes(pre, post, script, stores, tables, m, n - 1);
        let k = pre.len() + (n - 1);
        assert(tx::asks(post[pre.len() + (n - 1)], script[n - 1]));
        assert(upkeep::store_follows_step(
            post[k],
            stores[k - pre.len()],
            stores[k - pre.len() + 1],
        ));
        assert(is_bounded(script[n - 1], tables));
        lemma_changes_further(stores[m], stores[n - 1], stores[n], tables);
    }
}

/// How a request that was made with foreign keys off, as asked, changed a store: `at` is the place
/// of the store before it among `stores`.
proof fn lemma_unenforced_changes(
    pre: Trace,
    post: Trace,
    off: bool,
    request: Request,
    on: bool,
    stores: Seq<Store>,
) -> (at: int)
    requires
        tx::scripted(
            pre,
            post,
            schema::unenforced(off, seq![request], on),
            Ok::<(), DbError>(()),
        ),
        upkeep::store_follows(pre, post, stores),
    ensures
        0 <= at < stores.len() - 1,
        upkeep::changes(stores[0], stores[at], Seq::empty()),
        upkeep::store_follows_step(post[pre.len() + at], stores[at], stores[at + 1]),
        tx::asks(post[pre.len() + at], request),
        upkeep::changes(stores[at + 1], stores.last(), Seq::empty()),
{
    let script = schema::unenforced(off, seq![request], on);
    let at: int = if off {
        1
    } else {
        0
    };
    let begin = pre.len() as int;
    assert(script[at] == request);
    assert(tx::asks(post[pre.len() + at], script[at]));
    assert(upkeep::store_follows_step(
        post[pre.len() + at],
        stores[pre.len() + at - pre.len()],
        stores[pre.len() + at - pre.len() + 1],
    ));
    if off {
        assert(tx::asks(post[pre.len() + 0int], script[0]));
        assert(upkeep::store_follows_step(post[begin], stores[begin - pre.len()], stores[1]));
        assert(upkeep::touches_rows_alone(post[begin]));
    } else {
        lemma_no_change(stores[0], Seq::empty());
    }
    if on {
        assert(script.len() == at + 2);
        assert(tx::asks(post[pre.len() + (at + 1)], script[at + 1]));
        let k = begin + at + 1;
        assert(upkeep::store_follows_step(
            post[k],
            stores[k - pre.len()],
            stores[k - pre.len() + 1],
        ));
        assert(upkeep::touches_rows_alone(post[k]));
    } else {
        lemma_no_change(stores[at + 1], Seq::empty());
    }
    at
}

/// The tables that single statements of the set-up make.
spec fn later_tables() -> Seq<Seq<char>> {
    seq![
        "session_runtime"@,
        "remote_inbox"@,
        "remote_devices"@,
        "remote_registry_counter"@,
        "project_remote_rooms"@,
    ]
}

/// The tables that a stage changes at most, rows aside.
spec fn changed_by(stage: Move) -> Seq<Seq<char>> {
    match stage {
        Move::Batch(_) => upkeep::base_tables(),
        Move::Plain(_) => later_tables(),
        Move::Bounded { .. } => Seq::empty(),
        Move::Upgrade { .. } => seq!["project_intro"@, "daily_report"@],
        Move::Columns { table, .. } => seq![table@],
        Move::LenientColumns { table, .. } => seq![table@],
        Move::WidenReasoning => seq![
            "agents"@,
            schema::STRANDED_AGENTS@,
            "session_agent_configs"@,
        ],
        Move::RecoverAgents => seq![schema::STRANDED_AGENTS@],
        Move::AllowHarness => seq!["agents"@, "agents_new"@],
        Move::MendConfigs => seq!["session_agent_configs"@],
        Move::MakeIcons => seq!["repos"@],
        Move::MakeNamespaces => seq!["repos"@, "sessions"@],
        Move::MakeGroups => seq!["sessions"@],
        Move::MakeScopes => seq!["sessions"@],
        Move::MakeGroupRepositories => seq!["session_groups"@],
        Move::LoosenDecisions => seq!["decision_ledger"@, "decision_ledger_new"@],
    }
}

/// Whether a store has the table that a statement of the set-up is for.
spec fn statement_done(store: Store, sql: Seq<char>) -> bool {
    &&& sql == schema::SQL_SESSION_RUNTIME@ ==> upkeep::has_table(store, "session_runtime"@)
    &&& sql == schema::SQL_REMOTE_INBOX@ ==> upkeep::has_table(store, "remote_inbox"@)
    &&& sql == schema::SQL_REMOTE_DEVICES@ ==> upkeep::has_table(store, "remote_devices"@)
    &&& sql == schema::SQL_REGISTRY_COUNTER@ ==> upkeep::has_table(
        store,
        "remote_registry_counter"@,
    )
    &&& sql == schema::SQL_PROJECT_ROOMS@ ==> upkeep::has_table(store, "project_remote_rooms"@)
}

/// Whether a store has what a stage is for, the rows of the devices aside.
spec fn stage_done(store: Store, stage: Move) -> bool {
    match stage {
        Move::Batch(_) => upkeep::has_tables(store, upkeep::base_tables()),
        Move::Plain(sql) => statement_done(store, sql@),
        Move::Bounded { .. } => upkeep::has_table(store, "remote_devices"@),
        _ => upkeep::stage_settled(store, stage),
    }
}

proof fn lemma_readable_is_read(found: Seq<Result<Seq<Datum>, Seq<char>>>, k: int)
    requires
        0 <= k < rows::readable_rows(found).len(),
    ensures
        exists|i: int|
            0 <= i < found.len() && #[trigger] found[i] == Ok::<Seq<Datum>, Seq<char>>(
                rows::readable_rows(found)[k],
            ),
    decreases found.len(),
{
    let fewer = found.drop_last();
    let rest = rows::readable_rows(fewer);
    if k < rest.len() {
        lemma_readable_is_read(fewer, k);
        let i = choose|i: int|
            0 <= i < fewer.len() && #[trigger] fewer[i] == Ok::<Seq<Datum>, Seq<char>>(rest[k]);
        assert(found[i] == fewer[i]);
    } else {
        assert(found[found.len() - 1] == found.last());
    }
}

proof fn lemma_row_is_a_column(store: Store, table: Seq<char>, i: int)
    requires
        0 <= i < upkeep::column_rows(store, table).len(),
    ensures
        upkeep::column_rows(store, table)[i] matches Ok(row) && (row[0] matches Datum::Text(c)
            && upkeep::has_column(store, table, c)),
{
    let field = store.tables[table].fields[i];
    assert(upkeep::column_rows(store, table)[i] == Ok::<Seq<Datum>, Seq<char>>(
        seq![Datum::Text(field.name)],
    ));
}

/// Whether all of some names are those of columns of a table.
spec fn are_columns(store: Store, table: Seq<char>, names: Seq<Seq<char>>) -> bool {
    forall|i: int| 0 <= i < names.len() ==> upkeep::has_column(store, table, #[trigger] names[i])
}

proof fn lemma_listed_are_columns(
    pre: Trace,
    post: Trace,
    table: Seq<char>,
    present: Vec<ColumnName>,
    store: Store,
)
    requires
        schema::columns_read(pre, post, table, Ok::<Vec<ColumnName>, DbError>(present)),
        upkeep::tells(post.last(), store),
    ensures
        are_columns(store, table, schema::names_of(present@)),
{
    assert(tx::asks(post.last(), upkeep::columns_query(table)));
    let found = upkeep::column_rows(store, table);
    let names = schema::names_of(present@);
    assert forall|i: int| 0 <= i < names.len() implies upkeep::has_column(
        store,
        table,
        #[trigger] names[i],
    ) by {
        lemma_row_is_a_column(store, table, i);
        assert(found[i] is Ok && present@[i].is_row(found[i]->Ok_0));
    }
}

proof fn lemma_readable_are_columns(
    pre: Trace,
    post: Trace,
    table: Seq<char>,
    present: Vec<ColumnName>,
    store: Store,
)
    requires
        schema::readable_columns_read(pre, post, table, Ok::<Vec<ColumnName>, DbError>(present)),
        upkeep::tells(post.last(), store),
    ensures
        are_columns(store, table, schema::names_of(present@)),
{
    assert(tx::asks(post.last(), upkeep::columns_query(table)));
    let found = upkeep::column_rows(store, table);
    let names = schema::names_of(present@);
    assert forall|k: int| 0 <= k < names.len() implies upkeep::has_column(
        store,
        table,
        #[trigger] names[k],
    ) by {
        lemma_readable_is_read(found, k);
        let i = choose|i: int|
            0 <= i < found.len() && #[trigger] found[i] == Ok::<Seq<Datum>, Seq<char>>(
                rows::readable_rows(found)[k],
            );
        lemma_row_is_a_column(store, table, i);
        assert(present@[k].is_row(rows::readable_rows(found)[k]));
    }
}

proof fn lemma_script_prefix(
    pre: Trace,
    post: Trace,
    script: Seq<Request>,
    n: int,
    stores: Seq<Store>,
)
    requires
        tx::scripted(pre, post, script, Ok::<(), DbError>(())),
        upkeep::store_follows(pre, post, stores),
        0 <= n <= script.len(),
    ensures
        tx::scripted(
            pre,
            post.take(pre.len() + n),
            script.take(n),
            Ok::<(), DbError>(()),
        ),
        upkeep::store_follows(pre, post.take(pre.len() + n), stores.take(n + 1)),
{
    let early = post.take(pre.len() + n);
    assert(early.take(pre.len() as int) =~= post.take(pre.len() as int));
    assert forall|i: int| 0 <= i < n implies tx::asks(
        #[trigger] early[pre.len() + i],
        script.take(n)[i],
    ) by {
        assert(tx::asks(post[pre.len() + i], script[i]));
    }
    assert forall|i: int| 0 <= i < n implies tx::accepted(#[trigger] early[pre.len() + i]) by {
        if i == script.len() - 1 {
            assert(post.last() == post[pre.len() + i]);
        } else {
            assert(tx::accepted(post[pre.len() + i]));
        }
    }
    if n > 0 {
        assert(early.last() == early[pre.len() + (n - 1)]);
    }
    assert forall|k: int| pre.len() <= k < early.len() implies upkeep::store_follows_step(
        #[trigger] early[k],
        stores.take(n + 1)[k - pre.len()],
        stores.take(n + 1)[k - pre.len() + 1],
    ) by {
        assert(upkeep::store_follows_step(
            post[k],
            stores[k - pre.len()],
            stores[k - pre.len() + 1],
        ));
    }
}

proof fn lemma_additions_complete(
    pre: Trace,
    post: Trace,
    table: Seq<char>,
    columns: Seq<Column>,
    present: Seq<Seq<char>>,
    stores: Seq<Store>,
)
    requires
        tx::scripted(
            pre,
            post,
            schema::additions(table, columns, present),
            Ok::<(), DbError>(()),
        ),
        upkeep::store_follows(pre, post, stores),
        are_columns(stores[0], table, present),
        forall|i: int| 0 <= i < columns.len() ==> upkeep::is_added(table, #[trigger] columns[i]),
    ensures
        upkeep::changes(stores[0], stores.last(), seq![table]),
        forall|i: int|
            0 <= i < columns.len() ==> upkeep::has_column(
                stores.last(),
                table,
                (#[trigger] columns[i]).name@,
            ),
        forall|c: Seq<char>|
            upkeep::has_column(stores[0], table, c) ==> #[trigger] upkeep::has_column(
                stores.last(),
                table,
                c,
            ),
    decreases columns.len(),
{
    let script = schema::additions(table, columns, present);
    if columns.len() == 0 {
        lemma_no_change(stores[0], seq![table]);
    } else {
        let fewer = columns.drop_last();
        let some = schema::additions(table, fewer, present);
        let n = some.len() as int;
        let last = columns.last();
        assert(script.take(n) =~= some);
        lemma_script_prefix(pre, post, script, n, stores);
        let early = post.take(pre.len() + n);
        let first = stores.take(n + 1);
        assert forall|i: int| 0 <= i < fewer.len() implies upkeep::is_added(
            table,
            #[trigger] fewer[i],
        ) by {
            assert(fewer[i] == columns[i]);
        }
        assert(first[0] == stores[0]);
        lemma_additions_complete(pre, early, table, fewer, present, first);
        let mid = stores[n];
        assert(first.last() == mid);
        if present.contains(last.name@) {
            let k = choose|k: int| 0 <= k < present.len() && present[k] == last.name@;
            assert(upkeep::has_column(stores[0], table, present[k]));
            assert(stores.last() == mid);
        } else {
            let k = pre.len() + n;
            assert(tx::asks(post[pre.len() + n], script[n]));
            assert(upkeep::store_follows_step(
                post[k],
                stores[k - pre.len()],
                stores[k - pre.len() + 1],
            ));
            assert(upkeep::is_added(table, columns[columns.len() - 1]));
            assert(tx::asks(post[k], tx::plain(schema::addition_sql(table, last))));
            assert(upkeep::column_added(mid, stores.last(), table, last.name@));
            lemma_changes_further(stores[0], mid, stores.last(), seq![table]);
        }
        assert forall|i: int| 0 <= i < columns.len() implies upkeep::has_column(
            stores.last(),
            table,
            (#[trigger] columns[i]).name@,
        ) by {
            if i < columns.len() - 1 {
                assert(fewer[i] == columns[i]);
                assert(upkeep::has_column(mid, table, fewer[i].name@));
            }
        }
        assert forall|c: Seq<char>| upkeep::has_column(
            stores[0],
            table,
            c,
        ) implies #[trigger] upkeep::has_column(stores.last(), table, c) by {
            assert(upkeep::has_column(mid, table, c));
        }
    }
}

proof fn lemma_columns_move(
    pre: Trace,
    post: Trace,
    table: Seq<char>,
    columns: Seq<Column>,
    stores: Seq<Store>,
)
    requires
        schema::columns_added(pre, post, table, columns, Ok::<(), DbError>(()))
            || schema::columns_added_leniently(pre, post, table, columns, Ok::<(), DbError>(())),
        upkeep::store_follows(pre, post, stores),
        columns.len() > 0,
        forall|i: int| 0 <= i < columns.len() ==> upkeep::is_added(table, #[trigger] columns[i]),
    ensures
        upkeep::changes(stores[0], stores.last(), seq![table]),
        upkeep::has_columns(stores.last(), table, columns),
{
    let done = Ok::<(), DbError>(());
    let at = pre.len() as int;
    let strict = schema::columns_added(pre, post, table, columns, done);
    let (mid, got) = if strict {
        choose|mid: Trace, got: Result<Vec<ColumnName>, DbError>|
            {
                &&& #[trigger] schema::columns_read(pre, mid, table, got)
                &&& schema::columns_completed(mid, post, table, columns, got, done)
            }
    } else {
        choose|mid: Trace, got: Result<Vec<ColumnName>, DbError>|
            {
                &&& #[trigger] schema::readable_columns_read(pre, mid, table, got)
                &&& schema::columns_completed(mid, post, table, columns, got, done)
            }
    };
    let present = got->Ok_0;
    trace::lemma_step_stays(mid, post, at);
    assert(upkeep::store_follows_step(post[at], stores[0], stores[1]));
    assert(trace::queries(post[at], schema::columns_sql(table)));
    if strict {
        lemma_listed_are_columns(pre, mid, table, present, stores[0]);
    } else {
        lemma_readable_are_columns(pre, mid, table, present, stores[0]);
    }
    lemma_follows_on(pre, mid, post, stores);
    let rest = stores.skip(1);
    lemma_additions_complete(mid, post, table, columns, schema::names_of(present@), rest);
    assert(upkeep::has_column(stores.last(), table, columns[0].name@));
}

proof fn lemma_query_keeps(pre: Trace, mid: Trace, post: Trace, stores: Seq<Store>)
    requires
        trace::extends(mid, post),
        mid.len() == pre.len() + 1,
        upkeep::store_follows(pre, post, stores),
        settled::is_query(mid.last()),
    ensures
        mid.last() == post[pre.len() as int],
        upkeep::tells(mid.last(), stores[0]),
        stores[1] == stores[0],
        upkeep::store_follows(mid, post, stores.skip(1)),
        stores.skip(1)[0] == stores[0],
        stores.skip(1).last() == stores.last(),
{
    let at = pre.len() as int;
    trace::lemma_step_stays(mid, post, at);
    assert(upkeep::store_follows_step(post[at], stores[at - pre.len()], stores[1]));
    lemma_follows_on(pre, mid, post, stores);
}

proof fn lemma_changes_within(a: Store, b: Store, c: Store, d: Store, tables: Seq<Seq<char>>)
    requires
        upkeep::changes(a, b, Seq::empty()),
        upkeep::changes(b, c, tables),
        upkeep::changes(c, d, Seq::empty()),
    ensures
        upkeep::changes(a, d, tables),
{
    lemma_changes_wider(a, b, Seq::empty(), tables);
    lemma_changes_wider(c, d, Seq::empty(), tables);
    lemma_changes_further(a, b, c, tables);
    lemma_changes_further(a, c, d, tables);
}

proof fn lemma_agents_stay_new(a: Store, b: Store, tables: Seq<Seq<char>>)
    requires
        upkeep::changes(a, b, tables),
        !tables.contains("agents"@),
        upkeep::agents_are_new(a),
    ensures
        upkeep::agents_are_new(b),
{
    assert(upkeep::has_table(b, "agents"@));
    lemma_same_shape_same_columns(a, b, "agents"@, "cap_lead"@);
}

/// How a request that was run with foreign keys off changed a store: `at` is the place of the step.
proof fn lemma_ran_unenforced(
    pre: Trace,
    post: Trace,
    request: Request,
    stores: Seq<Store>,
) -> (at: int)
    requires
        schema::ran_unenforced(pre, post, seq![request], Ok::<(), DbError>(())),
        upkeep::store_follows(pre, post, stores),
    ensures
        0 <= at < stores.len() - 1,
        upkeep::changes(stores[0], stores[at], Seq::empty()),
        upkeep::store_follows_step(post[pre.len() + at], stores[at], stores[at + 1]),
        tx::asks(post[pre.len() + at], request),
        upkeep::changes(stores[at + 1], stores.last(), Seq::empty()),
{
    let done = Ok::<(), DbError>(());
    let (mid, on) = choose|mid: Trace, on: Result<i64, DbError>|
        {
            &&& #[trigger] schema::enforcement_read(pre, mid, on)
            &&& schema::run_unenforced_as_found(mid, post, seq![request], on, done)
        };
    assert(mid.take(pre.len() as int) =~= pre);
    assert(on is Ok);
    lemma_query_keeps(pre, mid, post, stores);
    let rest = stores.skip(1);
    let n = on->Ok_0;
    let k = lemma_unenforced_changes(mid, post, n != 0, request, n != 0, rest);
    assert(rest[k] == stores[k + 1] && rest[k + 1] == stores[k + 2]);
    assert(mid.len() + k == pre.len() + (k + 1));
    k + 1
}

proof fn lemma_widening(pre: Trace, post: Trace, stores: Seq<Store>)
    requires
        schema::staged(pre, post, Move::WidenReasoning, Ok::<(), DbError>(())),
        upkeep::store_follows(pre, post, stores),
        upkeep::has_table(stores[0], "agents"@),
    ensures
        upkeep::changes(stores[0], stores.last(), changed_by(Move::WidenReasoning)),
        stage_done(stores.last(), Move::WidenReasoning),
        stores.last() == stores[0] || upkeep::agents_are_new(stores.last()),
{
    let done = Ok::<(), DbError>(());
    let request = Request::Batch { sql: schema::SQL_WIDEN_REASONING@ };
    let (mid, definition) = choose|mid: Trace, definition: Result<Option<String>, DbError>|
        {
            &&& #[trigger] schema::definition_found(pre, mid, definition)
            &&& schema::reasoning_widened_from(mid, post, definition, done)
        };
    let tables = changed_by(Move::WidenReasoning);
    assert(tx::asks(mid.last(), upkeep::text_query(schema::SQL_AGENTS_DEFINITION@)));
    if definition matches Ok(Some(sql)) && text::occurs(sql@, schema::OLD_REASONING_CHECK@) {
        settled::lemma_unenforced_extends(mid, post, seq![request], done);
        lemma_query_keeps(pre, mid, post, stores);
        let rest = stores.skip(1);
        let at = lemma_ran_unenforced(mid, post, request, rest);
        lemma_changes_within(rest[0], rest[at], rest[at + 1], rest.last(), tables);
        lemma_agents_stay_new(rest[at + 1], rest.last(), Seq::empty());
    } else {
        assert(post.take(mid.len() as int) =~= mid);
        lemma_query_keeps(pre, mid, post, stores);
        lemma_no_change(stores[0], tables);
    }
}

proof fn lemma_recovering(pre: Trace, post: Trace, stores: Seq<Store>)
    requires
        schema::staged(pre, post, Move::RecoverAgents, Ok::<(), DbError>(())),
        upkeep::store_follows(pre, post, stores),
    ensures
        upkeep::changes(stores[0], stores.last(), changed_by(Move::RecoverAgents)),
        stage_done(stores.last(), Move::RecoverAgents),
{
    let done = Ok::<(), DbError>(());
    let tables = changed_by(Move::RecoverAgents);
    let (mid, there) = choose|mid: Trace, there: Result<bool, DbError>|
        {
            &&& #[trigger] schema::existence_read(pre, mid, schema::STRANDED_AGENTS@, there)
            &&& schema::agents_recovered_if_there(mid, post, there, done)
        };
    assert(tx::asks(mid.last(), upkeep::count_query(schema::STRANDED_AGENTS@)));
    if there == Ok::<bool, DbError>(true) {
        let (looked, has) = choose|looked: Trace, has: Result<bool, DbError>|
            {
                &&& #[trigger] schema::column_looked_up(
                    mid,
                    looked,
                    schema::STRANDED_AGENTS@,
                    "cap_lead"@,
                    has,
                )
                &&& schema::agents_moved_back(looked, post, has, done)
            };
        assert(looked.take(mid.len() as int) =~= mid);
        trace::lemma_extends_further(mid, looked, post);
        lemma_query_keeps(pre, mid, post, stores);
        let seen = stores.skip(1);
        assert(trace::queries(looked.last(), schema::columns_sql(schema::STRANDED_AGENTS@)));
        lemma_query_keeps(mid, looked, post, seen);
        let rest = seen.skip(1);
        let script = schema::recovery(has->Ok_0);
        let last = script.len() - 1;
        let k = looked.len() + last;
        assert forall|i: int| 0 <= i < script.len() implies is_bounded(
            #[trigger] script[i],
            tables,
        ) by {
            assert forall|step: Step, before: Store, after: Store|
                #![
                    trigger upkeep::store_follows_step(step, before, after),
                    tx::asks(step, script[i]),
                ]
                upkeep::store_follows_step(step, before, after) && tx::asks(
                    step,
                    script[i],
                ) implies upkeep::changes(before, after, tables) by {}
        }
        lemma_script_changes(looked, post, script, rest, tables, 0, script.len() as int);
        assert(tx::asks(post[looked.len() + last], script[last]));
        assert(upkeep::store_follows_step(
            post[k],
            rest[k - looked.len()],
            rest[k - looked.len() + 1],
        ));
    } else {
        assert(post.take(mid.len() as int) =~= mid);
        lemma_query_keeps(pre, mid, post, stores);
        lemma_no_change(stores[0], tables);
    }
}

proof fn lemma_allowing(pre: Trace, post: Trace, stores: Seq<Store>)
    requires
        schema::staged(pre, post, Move::AllowHarness, Ok::<(), DbError>(())),
        upkeep::store_follows(pre, post, stores),
        upkeep::has_table(stores[0], "agents"@),
    ensures
        upkeep::changes(stores[0], stores.last(), changed_by(Move::AllowHarness)),
        stage_done(stores.last(), Move::AllowHarness),
        stores.last() == stores[0] || upkeep::agents_are_new(stores.last()),
{
    let done = Ok::<(), DbError>(());
    let tables = changed_by(Move::AllowHarness);
    let got = choose|got: Result<bool, DbError>|
        #[trigger] schema::harness_allowed(pre, post, got) && done == match got {
            Ok(_) => Ok::<(), DbError>(()),
            Err(e) => Err(e),
        };
    let (mid, definition) = choose|mid: Trace, definition: Result<String, DbError>|
        {
            &&& #[trigger] schema::definition_read(pre, mid, definition)
            &&& schema::harness_allowed_from(mid, post, definition, got)
        };
    harness::lemma_allowing_extends(mid, post, definition, got);
    lemma_query_keeps(pre, mid, post, stores);
    assert(tx::asks(mid.last(), upkeep::text_query(schema::SQL_AGENTS_TABLE@)));
    assert(definition is Ok);
    let said = definition->Ok_0;
    if text::occurs(said@, "'harness'"@) {
        lemma_no_change(stores[0], tables);
    } else {
        let after = stores.skip(1);
        let (looked, listed) = choose|looked: Trace, listed: Result<Vec<ColumnName>, DbError>|
            {
                &&& #[trigger] schema::columns_read(mid, looked, "agents"@, listed)
                &&& schema::rebuilt_from_columns(looked, post, listed, got)
            };
        let present = schema::names_of(listed->Ok_0@);
        settled::lemma_rebuilding_extends(looked, post, present, got);
        assert(trace::queries(looked.last(), schema::columns_sql("agents"@)));
        lemma_query_keeps(mid, looked, post, after);
        let seen = after.skip(1);
        let (read, on) = choose|read: Trace, on: Result<i64, DbError>|
            {
                &&& #[trigger] schema::enforcement_read(looked, read, on)
                &&& schema::rebuilt_as_found(read, post, present, on, got)
            };
        let n = on->Ok_0;
        let ran = choose|ran: Result<(), DbError>|
            {
                &&& #[trigger] schema::rebuild_run(read, post, n, present, ran)
                &&& got == match ran {
                    Ok(()) => Ok::<bool, DbError>(true),
                    Err(e) => Err(e),
                }
            };
        lemma_query_keeps(looked, read, post, seen);
        let rest = seen.skip(1);
        let request = harness::rebuilding(present);
        let at = lemma_unenforced_changes(read, post, n == 1, request, n == 1, rest);
        lemma_changes_within(rest[0], rest[at], rest[at + 1], rest.last(), tables);
        lemma_agents_stay_new(rest[at + 1], rest.last(), Seq::empty());
    }
}

proof fn lemma_keys_are_read(
    pre: Trace,
    post: Trace,
    keys: Vec<ForeignKey>,
    target: Option<(String, String)>,
    store: Store,
)
    requires
        schema::keys_read(pre, post, Ok::<Vec<ForeignKey>, DbError>(keys)),
        schema::is_target(schema::lead_target(keys@), target),
        !schema::stranded_target(target),
        upkeep::tells(post.last(), store),
        upkeep::has_table(store, "session_agent_configs"@),
    ensures
        upkeep::configs_are_sound(store),
{
    assert(tx::asks(post.last(), upkeep::keys_query()));
    let table = "session_agent_configs"@;
    let found = upkeep::key_rows(store, table);
    let known = store.tables[table].keys;
    assert forall|j: int| 0 <= j < known.len() implies (#[trigger] keys@[j]).table@
        == known[j].table && keys@[j].from@ == known[j].from && keys@[j].to@ == known[j].to by {
        upkeep::lemma_key_row(store, table, j);
        assert(found[j] is Ok && keys@[j].is_row(found[j]->Ok_0));
    }
    settled::lemma_lead_target_is_of_the_lead_key(keys@);
    assert forall|i: int| #[trigger] upkeep::is_lead_key(known, i) implies !(known[i].table
        == schema::STRANDED_AGENTS@ && known[i].to == "id"@) by {
        assert(keys@[i].from@ == "lead_agent_id"@);
        let (said, to) = schema::lead_target(keys@)->Some_0;
        let k = choose|k: int|
            #[trigger] settled::is_lead_key(keys@, k) && keys@[k].table@ == said && keys@[k].to@
                == to;
        if k < i {
            assert(known[k].from != "lead_agent_id"@);
            assert(keys@[k].from@ == known[k].from);
        }
        assert(k == i);
    }
}

proof fn lemma_switching_on(
    pre: Trace,
    post: Trace,
    on: bool,
    stores: Seq<Store>,
)
    requires
        schema::batch_switched_on(
            pre,
            post,
            schema::SQL_RESET_SESSION_AGENT_CONFIGS@,
            on,
            Ok::<(), DbError>(()),
        ),
        upkeep::store_follows(pre, post, stores),
    ensures
        upkeep::changes(stores[0], stores.last(), seq!["session_agent_configs"@]),
        upkeep::configs_are_sound(stores.last()),
{
    let done = Ok::<(), DbError>(());
    let sql = schema::SQL_RESET_SESSION_AGENT_CONFIGS@;
    let (mid, ran) = choose|mid: Trace, ran: Result<(), DbError>|
        {
            &&& #[trigger] tx::batched(pre, mid, sql, ran)
            &&& schema::switched_on_after(mid, post, on, ran, done)
        };
    let at = pre.len() as int;
    trace::lemma_asking_extends(pre, mid, Request::Batch { sql });
    if on {
        let request = Request::Batch { sql: schema::SQL_FOREIGN_KEYS_ON@ };
        trace::lemma_asking_extends(mid, post, request);
        trace::lemma_step_stays(mid, post, at);
        let k = at + 1;
        assert(tx::asks(post[k], request));
        assert(upkeep::store_follows_step(
            post[k],
            stores[k - pre.len()],
            stores[k - pre.len() + 1],
        ));
        assert(upkeep::touches_rows_alone(post[k]));
        assert(upkeep::store_follows_step(post[at], stores[at - pre.len()], stores[1]));
        lemma_no_change(stores[0], Seq::empty());
        lemma_changes_within(
            stores[0],
            stores[0],
            stores[1],
            stores[2],
            seq!["session_agent_configs"@],
        );
        assert(upkeep::has_table(stores[2], "session_agent_configs"@) <==> upkeep::has_table(
            stores[1],
            "session_agent_configs"@,
        ));
    } else {
        assert(upkeep::store_follows_step(post[at], stores[at - pre.len()], stores[1]));
    }
}

proof fn lemma_resetting(pre: Trace, post: Trace, stores: Seq<Store>)
    requires
        schema::configs_reset(pre, post, Ok::<(), DbError>(())),
        upkeep::store_follows(pre, post, stores),
    ensures
        upkeep::changes(stores[0], stores.last(), seq!["session_agent_configs"@]),
        upkeep::configs_are_sound(stores.last()),
{
    let done = Ok::<(), DbError>(());
    let (mid, on) = choose|mid: Trace, on: Result<i64, DbError>|
        {
            &&& #[trigger] schema::enforcement_read(pre, mid, on)
            &&& schema::configs_reset_as_found(mid, post, on, done)
        };
    assert(on is Ok);
    if on->Ok_0 == 0 {
        settled::lemma_switching_extends(
            mid,
            post,
            schema::SQL_RESET_SESSION_AGENT_CONFIGS@,
            false,
            done,
        );
        lemma_query_keeps(pre, mid, post, stores);
        lemma_switching_on(mid, post, false, stores.skip(1));
    } else {
        let (off, switched) = choose|off: Trace, switched: Result<(), DbError>|
            {
                &&& #[trigger] tx::batched(mid, off, schema::SQL_FOREIGN_KEYS_OFF@, switched)
                &&& schema::configs_reset_when_off(off, post, switched, done)
            };
        let request = Request::Batch { sql: schema::SQL_FOREIGN_KEYS_OFF@ };
        trace::lemma_asking_extends(mid, off, request);
        settled::lemma_switching_extends(
            off,
            post,
            schema::SQL_RESET_SESSION_AGENT_CONFIGS@,
            true,
            done,
        );
        trace::lemma_extends_further(mid, off, post);
        lemma_query_keeps(pre, mid, post, stores);
        let seen = stores.skip(1);
        let k = mid.len() as int;
        trace::lemma_step_stays(off, post, k);
        assert(tx::asks(post[k], request));
        assert(upkeep::store_follows_step(post[k], seen[k - mid.len()], seen[1]));
        assert(upkeep::touches_rows_alone(post[k]));
        lemma_follows_on(mid, off, post, seen);
        let rest = seen.skip(1);
        lemma_switching_on(off, post, true, rest);
        lemma_no_change(rest.last(), Seq::empty());
        lemma_changes_within(
            seen[0],
            rest[0],
            rest.last(),
            rest.last(),
            seq!["session_agent_configs"@],
        );
    }
}

proof fn lemma_mending(pre: Trace, post: Trace, stores: Seq<Store>)
    requires
        schema::staged(pre, post, Move::MendConfigs, Ok::<(), DbError>(())),
        upkeep::store_follows(pre, post, stores),
    ensures
        upkeep::changes(stores[0], stores.last(), changed_by(Move::MendConfigs)),
        stage_done(stores.last(), Move::MendConfigs),
{
    let done = Ok::<(), DbError>(());
    let tables = changed_by(Move::MendConfigs);
    let (mid, target) = choose|mid: Trace, target: Result<Option<(String, String)>, DbError>|
        {
            &&& #[trigger] schema::target_read(pre, mid, target)
            &&& schema::reset_if_stranded(mid, post, target, done)
        };
    upkeep::lemma_resetting_extends(mid, post, target, done);
    let (first, there) = choose|first: Trace, there: Result<bool, DbError>|
        {
            &&& #[trigger] schema::existence_read(pre, first, "session_agent_configs"@, there)
            &&& schema::target_read_if_there(first, mid, there, target)
        };
    assert(mid.take(first.len() as int) =~= first);
    trace::lemma_extends_further(first, mid, post);
    assert(tx::asks(first.last(), upkeep::count_query("session_agent_configs"@)));
    lemma_query_keeps(pre, first, post, stores);
    let seen = stores.skip(1);
    assert(there is Ok && target is Ok);
    if there->Ok_0 {
        let got = choose|got: Result<Vec<ForeignKey>, DbError>|
            {
                &&& #[trigger] schema::keys_read(first, mid, got)
                &&& schema::target_taken(got, target)
            };
        lemma_query_keeps(first, mid, post, seen);
        let rest = seen.skip(1);
        if schema::stranded_target(target->Ok_0) {
            lemma_resetting(mid, post, rest);
        } else {
            lemma_keys_are_read(first, mid, got->Ok_0, target->Ok_0, stores[0]);
            lemma_no_change(stores[0], tables);
        }
    } else {
        assert(!upkeep::has_table(stores[0], "session_agent_configs"@));
        assert(post == first);
        lemma_no_change(stores[0], tables);
    }
}

proof fn lemma_base_tables_last(i: int)
    requires
        0 <= i < upkeep::base_tables().len(),
    ensures
        upkeep::is_lasting(upkeep::base_tables()[i]),
{
    reveal_strlit("app_settings");
    reveal_strlit("sessions");
    reveal_strlit("session_agent_configs");
    reveal_strlit("messages");
    reveal_strlit("member_report_delivery");
    reveal_strlit("attachments");
    reveal_strlit("repos");
    reveal_strlit("namespaces");
    reveal_strlit("session_groups");
    reveal_strlit("run_commits");
    reveal_strlit("run_commit_intents");
    reveal_strlit("checkpoint_entries");
    reveal_strlit("team_run_pending");
    reveal_strlit("decision_ledger");
    reveal_strlit("memory_entries");
    reveal_strlit("lead_loop_state");
    reveal_strlit("artifacts");
    reveal_strlit("verifications");
    reveal_strlit("reviews");
    reveal_strlit("merge_candidates");
    reveal_strlit("landing_commits");
    reveal_strlit("goal_contracts");
    reveal_strlit("acceptance_criteria");
    reveal_strlit("agents");
    reveal_strlit("memory_blocks");
    reveal_strlit("agents_new");
    reveal_strlit("decision_ledger_new");
    reveal_strlit("agents_old_reasoning_check");
    assert(schema::STRANDED_AGENTS@.len() == 26);
    assert("app_settings"@.len() == 12);
    assert("sessions"@.len() == 8);
    assert("session_agent_configs"@.len() == 21);
    assert("messages"@.len() == 8);
    assert("member_report_delivery"@.len() == 22);
    assert("attachments"@.len() == 11);
    assert("repos"@.len() == 5);
    assert("namespaces"@.len() == 10);
    assert("session_groups"@.len() == 14);
    assert("run_commits"@.len() == 11);
    assert("run_commit_intents"@.len() == 18);
    assert("checkpoint_entries"@.len() == 18);
    assert("team_run_pending"@.len() == 16);
    assert("decision_ledger"@.len() == 15);
    assert("memory_entries"@.len() == 14);
    assert("lead_loop_state"@.len() == 15);
    assert("artifacts"@.len() == 9);
    assert("verifications"@.len() == 13);
    assert("reviews"@.len() == 7);
    assert("merge_candidates"@.len() == 16);
    assert("landing_commits"@.len() == 15);
    assert("goal_contracts"@.len() == 14);
    assert("acceptance_criteria"@.len() == 19);
    assert("agents"@.len() == 6);
    assert("memory_blocks"@.len() == 13);
    assert("agents_new"@.len() == 10);
    assert("decision_ledger_new"@.len() == 19);
    assert("namespaces"@[0] != "agents_new"@[0]);
    assert("acceptance_criteria"@[0] != "decision_ledger_new"@[0]);
}

proof fn lemma_later_tables_last()
    ensures
        upkeep::is_lasting("session_runtime"@),
        upkeep::is_lasting("remote_inbox"@),
        upkeep::is_lasting("remote_devices"@),
        upkeep::is_lasting("remote_registry_counter"@),
        upkeep::is_lasting("project_remote_rooms"@),
{
    reveal_strlit("session_runtime");
    reveal_strlit("remote_inbox");
    reveal_strlit("remote_devices");
    reveal_strlit("remote_registry_counter");
    reveal_strlit("project_remote_rooms");
    reveal_strlit("agents_new");
    reveal_strlit("decision_ledger_new");
    reveal_strlit("agents_old_reasoning_check");
    assert(schema::STRANDED_AGENTS@.len() == 26);
    assert("session_runtime"@.len() == 15);
    assert("remote_inbox"@.len() == 12);
    assert("remote_devices"@.len() == 14);
    assert("remote_registry_counter"@.len() == 23);
    assert("project_remote_rooms"@.len() == 20);
    assert("agents_new"@.len() == 10);
    assert("decision_ledger_new"@.len() == 19);
}

proof fn lemma_steady_tables()
    ensures
        upkeep::is_steady("checkpoint_entries"@),
        upkeep::is_steady("messages"@),
        upkeep::is_steady("memory_blocks"@),
        upkeep::is_steady("sessions"@),
        upkeep::is_steady("goal_contracts"@),
        upkeep::is_steady("repos"@),
        upkeep::is_steady("session_groups"@),
        upkeep::is_steady("remote_inbox"@),
        upkeep::is_steady("remote_devices"@),
{
    reveal_strlit("checkpoint_entries");
    reveal_strlit("messages");
    reveal_strlit("memory_blocks");
    reveal_strlit("sessions");
    reveal_strlit("goal_contracts");
    reveal_strlit("repos");
    reveal_strlit("session_groups");
    reveal_strlit("remote_inbox");
    reveal_strlit("remote_devices");
    reveal_strlit("agents_new");
    reveal_strlit("decision_ledger_new");
    reveal_strlit("agents");
    reveal_strlit("session_agent_configs");
    reveal_strlit("decision_ledger");
    reveal_strlit("agents_old_reasoning_check");
    assert(schema::STRANDED_AGENTS@.len() == 26);
    assert("checkpoint_entries"@.len() == 18);
    assert("messages"@.len() == 8);
    assert("memory_blocks"@.len() == 13);
    assert("sessions"@.len() == 8);
    assert("goal_contracts"@.len() == 14);
    assert("repos"@.len() == 5);
    assert("session_groups"@.len() == 14);
    assert("remote_inbox"@.len() == 12);
    assert("remote_devices"@.len() == 14);
    assert("agents_new"@.len() == 10);
    assert("decision_ledger_new"@.len() == 19);
    assert("agents"@.len() == 6);
    assert("session_agent_configs"@.len() == 21);
    assert("decision_ledger"@.len() == 15);
}

proof fn lemma_kept_columns(table: Seq<char>, column: Seq<char>)
    requires
        table != "repos"@ || column == "icon"@ || column == "namespace_id"@,
    ensures
        upkeep::is_kept(table, column),
{
    reveal_strlit("color");
    reveal_strlit("icon");
    reveal_strlit("namespace_id");
    assert("color"@.len() == 5);
    assert("icon"@.len() == 4);
    assert("namespace_id"@.len() == 12);
}

proof fn lemma_looked_up(
    pre: Trace,
    mid: Trace,
    table: Seq<char>,
    column: Seq<char>,
    there: bool,
    store: Store,
)
    requires
        schema::column_looked_up(pre, mid, table, column, Ok::<bool, DbError>(there)),
        upkeep::tells(mid.last(), store),
    ensures
        there ==> upkeep::has_column(store, table, column),
{
    let found = Ok::<bool, DbError>(there);
    let got = choose|got: Result<Vec<ColumnName>, DbError>|
        #[trigger] schema::columns_read(pre, mid, table, got) && found == match got {
            Ok(present) => Ok::<bool, DbError>(schema::names_of(present@).contains(column)),
            Err(e) => Err(e),
        };
    if there {
        let names = schema::names_of(got->Ok_0@);
        lemma_listed_are_columns(pre, mid, table, got->Ok_0, store);
        let k = choose|k: int| 0 <= k < names.len() && names[k] == column;
        assert(upkeep::has_column(store, table, names[k]));
    }
}

proof fn lemma_rows_alone(step: Step, before: Store, after: Store)
    requires
        upkeep::store_follows_step(step, before, after),
        upkeep::touches_rows_alone(step),
    ensures
        upkeep::changes(before, after, Seq::empty()),
{
}

proof fn lemma_making_icons(pre: Trace, post: Trace, stores: Seq<Store>)
    requires
        schema::staged(pre, post, Move::MakeIcons, Ok::<(), DbError>(())),
        upkeep::store_follows(pre, post, stores),
    ensures
        upkeep::changes(stores[0], stores.last(), changed_by(Move::MakeIcons)),
        stage_done(stores.last(), Move::MakeIcons),
{
    let done = Ok::<(), DbError>(());
    let tables = changed_by(Move::MakeIcons);
    let (mid, got) = choose|mid: Trace, got: Result<Vec<ColumnName>, DbError>|
        {
            &&& #[trigger] schema::columns_read(pre, mid, "repos"@, got)
            &&& schema::icons_completed(mid, post, got, done)
        };
    assert(trace::queries(mid.last(), schema::columns_sql("repos"@)));
    lemma_query_keeps(pre, mid, post, stores);
    let rest = stores.skip(1);
    let present = schema::names_of(got->Ok_0@);
    let script = schema::icon_script(present);
    lemma_listed_are_columns(pre, mid, "repos"@, got->Ok_0, stores[0]);
    let k = mid.len() as int;
    if present.contains("icon"@) {
        let i = choose|i: int| 0 <= i < present.len() && present[i] == "icon"@;
        assert(upkeep::has_column(stores[0], "repos"@, present[i]));
        lemma_no_change(stores[0], tables);
    } else {
        assert(tx::asks(post[mid.len() + 0int], script[0]));
        assert(upkeep::store_follows_step(post[k], rest[k - mid.len()], rest[1]));
        if present.contains("color"@) {
            let next = k + 1;
            assert(tx::asks(post[mid.len() + 1int], script[1]));
            assert(upkeep::store_follows_step(post[next], rest[next - mid.len()], rest[2]));
            lemma_rows_alone(post[next], rest[1], rest[2]);
            lemma_no_change(rest[0], Seq::empty());
            lemma_changes_within(rest[0], rest[0], rest[1], rest[2], tables);
            lemma_steady_tables();
            lemma_kept_columns("repos"@, "icon"@);
        }
    }
}

proof fn lemma_making_groups(pre: Trace, post: Trace, stores: Seq<Store>)
    requires
        schema::staged(pre, post, Move::MakeGroups, Ok::<(), DbError>(())),
        upkeep::store_follows(pre, post, stores),
    ensures
        upkeep::changes(stores[0], stores.last(), changed_by(Move::MakeGroups)),
        stage_done(stores.last(), Move::MakeGroups),
{
    let done = Ok::<(), DbError>(());
    let tables = changed_by(Move::MakeGroups);
    let (mid, there) = choose|mid: Trace, there: Result<bool, DbError>|
        {
            &&& #[trigger] schema::column_looked_up(pre, mid, "sessions"@, "group_id"@, there)
            &&& schema::groups_made_from(mid, post, there, done)
        };
    assert(trace::queries(mid.last(), schema::columns_sql("sessions"@)));
    if there->Ok_0 {
        assert(post.take(mid.len() as int) =~= mid);
        lemma_query_keeps(pre, mid, post, stores);
        lemma_looked_up(pre, mid, "sessions"@, "group_id"@, true, stores[0]);
        lemma_no_change(stores[0], tables);
    } else {
        let request = tx::plain(schema::SQL_SESSION_GROUP@);
        settled::lemma_unenforced_extends(mid, post, seq![request], done);
        lemma_query_keeps(pre, mid, post, stores);
        let rest = stores.skip(1);
        let at = lemma_ran_unenforced(mid, post, request, rest);
        lemma_changes_within(rest[0], rest[at], rest[at + 1], rest.last(), tables);
        lemma_steady_tables();
        lemma_names_of_sessions();
        lemma_kept_columns("sessions"@, "group_id"@);
    }
}

proof fn lemma_names_of_sessions()
    ensures
        "sessions"@ != "repos"@,
        "session_groups"@ != "repos"@,
{
    reveal_strlit("sessions");
    reveal_strlit("session_groups");
    reveal_strlit("repos");
    assert("sessions"@.len() == 8);
    assert("session_groups"@.len() == 14);
    assert("repos"@.len() == 5);
}

proof fn lemma_making_scopes(pre: Trace, post: Trace, stores: Seq<Store>)
    requires
        schema::staged(pre, post, Move::MakeScopes, Ok::<(), DbError>(())),
        upkeep::store_follows(pre, post, stores),
    ensures
        upkeep::changes(stores[0], stores.last(), changed_by(Move::MakeScopes)),
        stage_done(stores.last(), Move::MakeScopes),
{
    let done = Ok::<(), DbError>(());
    let tables = changed_by(Move::MakeScopes);
    let (mid, there) = choose|mid: Trace, there: Result<bool, DbError>|
        {
            &&& #[trigger] schema::column_looked_up(
                pre,
                mid,
                "sessions"@,
                "workspace_scope"@,
                there,
            )
            &&& schema::scopes_made_from(mid, post, there, done)
        };
    assert(trace::queries(mid.last(), schema::columns_sql("sessions"@)));
    if there->Ok_0 {
        assert(post.take(mid.len() as int) =~= mid);
        lemma_query_keeps(pre, mid, post, stores);
        lemma_looked_up(pre, mid, "sessions"@, "workspace_scope"@, true, stores[0]);
        lemma_no_change(stores[0], tables);
    } else {
        settled::lemma_scopes_extend(mid, post, done);
        lemma_query_keeps(pre, mid, post, stores);
        let rest = stores.skip(1);
        let script = schema::scope_script();
        let body = |a: Trace, b: Trace, x: Result<(), DbError>| tx::scripted(a, b, script, x);
        assert(tx::transacted(mid, post, body, done));
        let opened = mid.push(tx::opening());
        let (ran, inner) = choose|ran: Trace, inner: Result<(), DbError>|
            #[trigger] body(opened, ran, inner) && tx::ended(ran, post, inner, done);
        assert(inner is Ok);
        assert(post == ran.push(tx::commitment()));
        let p = mid.len() as int;
        assert(ran.take(opened.len() as int)[p] == tx::opening());
        assert(post[p] == tx::opening());
        assert(tx::asks(ran[opened.len() + 0int], script[0]));
        assert(tx::asks(ran[opened.len() + 1int], script[1]));
        assert(post[p + 1] == ran[p + 1] && post[p + 2] == ran[p + 2]);
        assert(post[p + 3] == tx::commitment());
        let second = p + 1;
        let third = p + 2;
        let fourth = p + 3;
        assert(upkeep::store_follows_step(post[p], rest[p - mid.len()], rest[1]));
        assert(upkeep::store_follows_step(post[second], rest[second - mid.len()], rest[2]));
        assert(upkeep::store_follows_step(post[third], rest[third - mid.len()], rest[3]));
        assert(upkeep::store_follows_step(post[fourth], rest[fourth - mid.len()], rest[4]));
        lemma_rows_alone(post[p], rest[0], rest[1]);
        lemma_rows_alone(post[third], rest[2], rest[3]);
        lemma_rows_alone(post[fourth], rest[3], rest[4]);
        lemma_changes_within(rest[0], rest[1], rest[2], rest[3], tables);
        lemma_no_change(rest[0], Seq::empty());
        lemma_changes_within(rest[0], rest[0], rest[3], rest[4], tables);
        lemma_steady_tables();
        lemma_names_of_sessions();
        lemma_kept_columns("sessions"@, "workspace_scope"@);
        assert(upkeep::has_column(rest[3], "sessions"@, "workspace_scope"@));
    }
}

proof fn lemma_binding_groups(pre: Trace, post: Trace, stores: Seq<Store>)
    requires
        schema::staged(pre, post, Move::MakeGroupRepositories, Ok::<(), DbError>(())),
        upkeep::store_follows(pre, post, stores),
    ensures
        upkeep::changes(stores[0], stores.last(), changed_by(Move::MakeGroupRepositories)),
        stage_done(stores.last(), Move::MakeGroupRepositories),
{
    let done = Ok::<(), DbError>(());
    let tables = changed_by(Move::MakeGroupRepositories);
    let (mid, there) = choose|mid: Trace, there: Result<bool, DbError>|
        {
            &&& #[trigger] schema::column_looked_up(
                pre,
                mid,
                "session_groups"@,
                "repo_id"@,
                there,
            )
            &&& schema::groups_bound_from(mid, post, there, done)
        };
    assert(trace::queries(mid.last(), schema::columns_sql("session_groups"@)));
    assert(post.take(mid.len() as int) =~= mid);
    lemma_query_keeps(pre, mid, post, stores);
    if there->Ok_0 {
        lemma_looked_up(pre, mid, "session_groups"@, "repo_id"@, true, stores[0]);
        lemma_no_change(stores[0], tables);
    } else {
        let rest = stores.skip(1);
        let script = schema::group_repository_script();
        let p = mid.len() as int;
        assert(tx::asks(post[mid.len() + 0int], script[0]));
        assert(upkeep::store_follows_step(post[p], rest[p - mid.len()], rest[1]));
        assert forall|i: int| 1 <= i < script.len() implies is_bounded(
            #[trigger] script[i],
            Seq::empty(),
        ) by {
            assert forall|step: Step, before: Store, after: Store|
                #![
                    trigger upkeep::store_follows_step(step, before, after),
                    tx::asks(step, script[i]),
                ]
                upkeep::store_follows_step(step, before, after) && tx::asks(
                    step,
                    script[i],
                ) implies upkeep::changes(before, after, Seq::empty()) by {
                assert(upkeep::touches_rows_alone(step));
            }
        }
        lemma_script_changes(mid, post, script, rest, Seq::empty(), 1, script.len() as int);
        lemma_no_change(rest[0], Seq::empty());
        lemma_changes_within(rest[0], rest[0], rest[1], rest.last(), tables);
        lemma_steady_tables();
        lemma_names_of_sessions();
        lemma_kept_columns("session_groups"@, "repo_id"@);
    }
}

proof fn lemma_loosening(pre: Trace, post: Trace, stores: Seq<Store>)
    requires
        schema::staged(pre, post, Move::LoosenDecisions, Ok::<(), DbError>(())),
        upkeep::store_follows(pre, post, stores),
    ensures
        upkeep::changes(stores[0], stores.last(), changed_by(Move::LoosenDecisions)),
        stage_done(stores.last(), Move::LoosenDecisions),
{
    let done = Ok::<(), DbError>(());
    let tables = changed_by(Move::LoosenDecisions);
    let (mid, got) = choose|mid: Trace, got: Result<Vec<ColumnRule>, DbError>|
        {
            &&& #[trigger] schema::rules_read(pre, mid, got)
            &&& schema::loosened_from(mid, post, got, done)
        };
    assert(tx::asks(mid.last(), upkeep::rules_query()));
    assert(post.take(mid.len() as int) =~= mid);
    lemma_query_keeps(pre, mid, post, stores);
    let rest = stores.skip(1);
    let rules = got->Ok_0;
    if schema::demanded(rules@) {
        let p = mid.len() as int;
        let request = Request::Batch { sql: schema::SQL_LOOSEN_DECISIONS@ };
        trace::lemma_asking_extends(mid, post, request);
        assert(upkeep::store_follows_step(post[p], rest[p - mid.len()], rest[1]));
        assert(tx::asks(post[p], request));
    } else {
        lemma_no_change(stores[0], tables);
        let store = stores[0];
        if upkeep::has_table(store, "decision_ledger"@) {
            let fields = store.tables["decision_ledger"@].fields;
            let found = upkeep::rule_rows(store, "decision_ledger"@);
            assert forall|i: int| 0 <= i < fields.len() implies !((#[trigger] fields[i]).name
                == "run_id"@ && fields[i].required) by {
                assert(found[i] is Ok && rules@[i].is_row(found[i]->Ok_0));
                assert(!schema::demands_run(rules@[i]));
            }
        }
    }
}

proof fn lemma_namespace_requests(tables: Seq<Seq<char>>)
    requires
        tables == changed_by(Move::MakeNamespaces),
    ensures
        is_bounded(Request::Batch { sql: schema::SQL_FOREIGN_KEYS_OFF@ }, tables),
        is_bounded(Request::Batch { sql: schema::SQL_FOREIGN_KEYS_ON@ }, tables),
        is_bounded(tx::plain(schema::SQL_REPO_NAMESPACE@), tables),
        is_bounded(tx::plain(schema::SQL_SESSION_NAMESPACE@), tables),
{
    assert(tables[0] == "repos"@ && tables[1] == "sessions"@);
    assert forall|step: Step, before: Store, after: Store| #[trigger]
        upkeep::store_follows_step(step, before, after) && (upkeep::touches_rows_alone(step)
            || tx::asks(step, tx::plain(schema::SQL_REPO_NAMESPACE@)) || tx::asks(
            step,
            tx::plain(schema::SQL_SESSION_NAMESPACE@),
        )) implies upkeep::changes(before, after, tables) by {
        if upkeep::touches_rows_alone(step) {
            lemma_changes_wider(before, after, Seq::empty(), tables);
        } else if tx::asks(step, tx::plain(schema::SQL_REPO_NAMESPACE@)) {
            lemma_changes_wider(before, after, seq!["repos"@], tables);
        } else {
            lemma_changes_wider(before, after, seq!["sessions"@], tables);
        }
    }
}

proof fn lemma_namespaces_added(
    pre: Trace,
    post: Trace,
    in_repos: bool,
    in_sessions: bool,
    on: i64,
    stores: Seq<Store>,
)
    requires
        tx::scripted(
            pre,
            post,
            schema::namespace_script(in_repos, in_sessions, on),
            Ok::<(), DbError>(()),
        ),
        upkeep::store_follows(pre, post, stores),
        in_repos ==> upkeep::has_column(stores[0], "repos"@, "namespace_id"@),
        in_sessions ==> upkeep::has_column(stores[0], "sessions"@, "namespace_id"@),
    ensures
        upkeep::changes(stores[0], stores.last(), changed_by(Move::MakeNamespaces)),
        stage_done(stores.last(), Move::MakeNamespaces),
{
    let tables = changed_by(Move::MakeNamespaces);
    let script = schema::namespace_script(in_repos, in_sessions, on);
    let n = script.len() as int;
    lemma_namespace_requests(tables);
    assert forall|i: int| 0 <= i < n implies is_bounded(#[trigger] script[i], tables) by {}
    lemma_script_changes(pre, post, script, stores, tables, 0, n);
    lemma_steady_tables();
    lemma_names_of_sessions();
    lemma_kept_columns("repos"@, "namespace_id"@);
    lemma_kept_columns("sessions"@, "namespace_id"@);
    if !in_repos {
        let k = pre.len() + 1int;
        assert(script[1] == tx::plain(schema::SQL_REPO_NAMESPACE@));
        assert(tx::asks(post[pre.len() + 1int], script[1]));
        assert(upkeep::store_follows_step(post[k], stores[k - pre.len()], stores[2]));
        lemma_script_changes(pre, post, script, stores, tables, 2, n);
    }
    if !in_sessions {
        let at: int = if in_repos {
            1
        } else {
            2
        };
        let k = pre.len() + at;
        assert(script[at] == tx::plain(schema::SQL_SESSION_NAMESPACE@));
        assert(tx::asks(post[pre.len() + at], script[at]));
        assert(upkeep::store_follows_step(post[k], stores[k - pre.len()], stores[at + 1]));
        lemma_script_changes(pre, post, script, stores, tables, at + 1, n);
    }
}

proof fn lemma_making_namespaces(pre: Trace, post: Trace, stores: Seq<Store>)
    requires
        schema::staged(pre, post, Move::MakeNamespaces, Ok::<(), DbError>(())),
        upkeep::store_follows(pre, post, stores),
    ensures
        upkeep::changes(stores[0], stores.last(), changed_by(Move::MakeNamespaces)),
        stage_done(stores.last(), Move::MakeNamespaces),
{
    let done = Ok::<(), DbError>(());
    let (mid, in_repos) = choose|mid: Trace, in_repos: Result<bool, DbError>|
        {
            &&& #[trigger] schema::column_looked_up(
                pre,
                mid,
                "repos"@,
                "namespace_id"@,
                in_repos,
            )
            &&& schema::namespaces_made_from(mid, post, in_repos, done)
        };
    let first = in_repos->Ok_0;
    let (seen, in_sessions) = choose|seen: Trace, in_sessions: Result<bool, DbError>|
        {
            &&& #[trigger] schema::column_looked_up(
                mid,
                seen,
                "sessions"@,
                "namespace_id"@,
                in_sessions,
            )
            &&& schema::namespaces_added(seen, post, first, in_sessions, done)
        };
    let second = in_sessions->Ok_0;
    let (read, on) = choose|read: Trace, on: Result<i64, DbError>|
        {
            &&& #[trigger] schema::enforcement_read(seen, read, on)
            &&& schema::namespaces_added_as_found(read, post, first, second, on, done)
        };
    assert(read.take(seen.len() as int) =~= seen);
    assert(seen.take(mid.len() as int) =~= mid);
    trace::lemma_extends_further(seen, read, post);
    trace::lemma_extends_further(mid, seen, post);
    assert(trace::queries(mid.last(), schema::columns_sql("repos"@)));
    assert(trace::queries(seen.last(), schema::columns_sql("sessions"@)));
    lemma_query_keeps(pre, mid, post, stores);
    lemma_looked_up(pre, mid, "repos"@, "namespace_id"@, first, stores[0]);
    let a = stores.skip(1);
    lemma_query_keeps(mid, seen, post, a);
    lemma_looked_up(mid, seen, "sessions"@, "namespace_id"@, second, stores[0]);
    let b = a.skip(1);
    lemma_query_keeps(seen, read, post, b);
    lemma_namespaces_added(read, post, first, second, on->Ok_0, b.skip(1));
}

proof fn lemma_upgrading(pre: Trace, post: Trace, stage: Move, stores: Seq<Store>)
    requires
        schema::staged(pre, post, stage, Ok::<(), DbError>(())),
        stage matches Move::Upgrade { version, sql } && version == 1 && sql@
            == schema::SQL_DOCUMENT_TABLES@,
        upkeep::store_follows(pre, post, stores),
    ensures
        upkeep::changes(stores[0], stores.last(), changed_by(stage)),
        stage_done(stores.last(), stage),
{
    let done = Ok::<(), DbError>(());
    let sql = schema::SQL_DOCUMENT_TABLES@;
    let (mid, got) = choose|mid: Trace, got: Result<i64, DbError>|
        {
            &&& #[trigger] schema::version_read(pre, mid, got)
            &&& schema::upgraded_from(mid, post, 1, sql, got, done)
        };
    assert(post.take(mid.len() as int) =~= mid);
    assert(tx::asks(mid.last(), upkeep::integer_query(schema::SQL_USER_VERSION@)));
    lemma_query_keeps(pre, mid, post, stores);
    let rest = stores.skip(1);
    if got->Ok_0 < 1 {
        let p = mid.len() as int;
        let request = Request::Batch { sql };
        trace::lemma_asking_extends(mid, post, request);
        assert(upkeep::store_follows_step(post[p], rest[p - mid.len()], rest[1]));
        assert(tx::asks(post[p], request));
    } else {
        lemma_no_change(stores[0], changed_by(stage));
    }
}

proof fn lemma_making_tables(pre: Trace, post: Trace, stage: Move, stores: Seq<Store>)
    requires
        schema::staged(pre, post, stage, Ok::<(), DbError>(())),
        stage matches Move::Batch(sql) && sql@ == schema::SQL_TABLES@,
        upkeep::store_follows(pre, post, stores),
    ensures
        upkeep::changes(stores[0], stores.last(), changed_by(stage)),
        stage_done(stores.last(), stage),
{
    let request = Request::Batch { sql: schema::SQL_TABLES@ };
    let p = pre.len() as int;
    trace::lemma_asking_extends(pre, post, request);
    assert(upkeep::store_follows_step(post[p], stores[p - pre.len()], stores[1]));
    assert(tx::asks(post[p], request));
    lemma_made_changes(stores[0], upkeep::base_tables(), stores[1]);
}

proof fn lemma_turning_times(pre: Trace, post: Trace, stage: Move, stores: Seq<Store>)
    requires
        schema::staged(pre, post, stage, Ok::<(), DbError>(())),
        stage matches Move::Bounded { sql, .. } && sql@ == schema::SQL_EXPIRY_IN_MILLIS@,
        upkeep::store_follows(pre, post, stores),
        upkeep::has_table(stores[0], "remote_devices"@),
    ensures
        upkeep::changes(stores[0], stores.last(), changed_by(stage)),
        stage_done(stores.last(), stage),
{
    let bound = stage->Bounded_bound;
    let request = upkeep::expiry_statement(bound);
    let p = pre.len() as int;
    trace::lemma_asking_extends(pre, post, request);
    assert(upkeep::store_follows_step(post[p], stores[p - pre.len()], stores[1]));
    assert(tx::asks(post[p], request));
    lemma_devices_change(
        stores[0],
        stores[0].tables["remote_devices"@].rows.map_values(
            |row: Record| upkeep::expiry_row(row, bound),
        ),
    );
}

/// Whether a statement is one of those of the set-up that make a table, or an index, each.
spec fn makes_one(sql: Seq<char>) -> bool {
    ||| sql == schema::SQL_MESSAGE_DEDUP@
    ||| sql == schema::SQL_SESSION_RUNTIME@
    ||| sql == schema::SQL_REMOTE_INBOX@
    ||| sql == schema::SQL_DROP_INBOX_PENDING@
    ||| sql == schema::SQL_INBOX_PENDING@
    ||| sql == schema::SQL_REMOTE_DEVICES@
    ||| sql == schema::SQL_REGISTRY_COUNTER@
    ||| sql == schema::SQL_PROJECT_ROOMS@
}

proof fn lemma_statement_is_done(step: Step, sql: Seq<char>, before: Store, after: Store)
    requires
        upkeep::store_follows_step(step, before, after),
        tx::asks(step, tx::plain(sql)),
    ensures
        statement_done(after, sql),
{
    if sql == schema::SQL_SESSION_RUNTIME@ {
        lemma_one_is_made(before, "session_runtime"@, after);
    }
    if sql == schema::SQL_REMOTE_INBOX@ {
        lemma_one_is_made(before, "remote_inbox"@, after);
    }
    if sql == schema::SQL_REMOTE_DEVICES@ {
        lemma_one_is_made(before, "remote_devices"@, after);
    }
    if sql == schema::SQL_REGISTRY_COUNTER@ {
        lemma_one_is_made(before, "remote_registry_counter"@, after);
    }
    if sql == schema::SQL_PROJECT_ROOMS@ {
        lemma_one_is_made(before, "project_remote_rooms"@, after);
    }
}

proof fn lemma_one_is_made(before: Store, table: Seq<char>, after: Store)
    requires
        upkeep::tables_made(before, seq![table], after),
    ensures
        upkeep::changes(before, after, seq![table]),
        upkeep::has_table(after, table),
{
    lemma_made_changes(before, seq![table], after);
    assert(seq![table][0] == table);
}

proof fn lemma_running(pre: Trace, post: Trace, stage: Move, stores: Seq<Store>)
    requires
        schema::staged(pre, post, stage, Ok::<(), DbError>(())),
        stage matches Move::Plain(sql) && (makes_one(sql@) || sql@ == schema::SQL_DEVICE_ROOMS@
            && upkeep::has_table(stores[0], "remote_devices"@)),
        upkeep::store_follows(pre, post, stores),
    ensures
        upkeep::changes(stores[0], stores.last(), changed_by(stage)),
        stage_done(stores.last(), stage),
{
    let sql = stage->Plain_0@;
    let request = tx::plain(sql);
    let p = pre.len() as int;
    trace::lemma_asking_extends(pre, post, request);
    assert(upkeep::store_follows_step(post[p], stores[p - pre.len()], stores[1]));
    assert(tx::asks(post[p], request));
    lemma_statement_is_done(post[p], sql, stores[0], stores[1]);
    let all = later_tables();
    let before = stores[0];
    let after = stores[1];
    assert(all[0] == "session_runtime"@ && all[1] == "remote_inbox"@ && all[2]
        == "remote_devices"@ && all[3] == "remote_registry_counter"@ && all[4]
        == "project_remote_rooms"@);
    if sql == schema::SQL_SESSION_RUNTIME@ {
        lemma_one_is_made(before, "session_runtime"@, after);
        lemma_changes_wider(before, after, seq!["session_runtime"@], all);
    } else if sql == schema::SQL_REMOTE_INBOX@ {
        lemma_one_is_made(before, "remote_inbox"@, after);
        lemma_changes_wider(before, after, seq!["remote_inbox"@], all);
    } else if sql == schema::SQL_REMOTE_DEVICES@ {
        lemma_one_is_made(before, "remote_devices"@, after);
        lemma_changes_wider(before, after, seq!["remote_devices"@], all);
    } else if sql == schema::SQL_REGISTRY_COUNTER@ {
        lemma_one_is_made(before, "remote_registry_counter"@, after);
        lemma_changes_wider(before, after, seq!["remote_registry_counter"@], all);
    } else if sql == schema::SQL_PROJECT_ROOMS@ {
        lemma_one_is_made(before, "project_remote_rooms"@, after);
        lemma_changes_wider(before, after, seq!["project_remote_rooms"@], all);
    } else if sql == schema::SQL_MESSAGE_DEDUP@ || sql == schema::SQL_DROP_INBOX_PENDING@ || sql
        == schema::SQL_INBOX_PENDING@ {
        lemma_no_change(before, all);
    } else {
        lemma_devices_change(
            before,
            before.tables["remote_devices"@].rows.map_values(
                |row: Record| upkeep::room_row(row, upkeep::room_setting(before)),
            ),
        );
        lemma_changes_wider(before, after, Seq::empty(), all);
    }
}

/// Whether a stage is as those of the set-up are: it runs statements of the set-up, and the columns
/// that it adds are some that the set-up adds.
spec fn is_planned(stage: Move) -> bool {
    match stage {
        Move::Batch(sql) => sql@ == schema::SQL_TABLES@,
        Move::Plain(sql) => makes_one(sql@) || sql@ == schema::SQL_DEVICE_ROOMS@,
        Move::Bounded { sql, .. } => sql@ == schema::SQL_EXPIRY_IN_MILLIS@,
        Move::Upgrade { version, sql } => version == 1 && sql@ == schema::SQL_DOCUMENT_TABLES@,
        Move::Columns { table, columns } => columns.len() > 0,
        Move::LenientColumns { table, columns } => columns.len() > 0,
        _ => true,
    }
}

/// What a stage of the set-up needs of a store.
spec fn is_ready(store: Store, stage: Move) -> bool {
    match stage {
        Move::Plain(sql) => makes_one(sql@) || upkeep::has_table(store, "remote_devices"@),
        Move::Bounded { .. } => upkeep::has_table(store, "remote_devices"@),
        Move::WidenReasoning => upkeep::has_table(store, "agents"@),
        Move::AllowHarness => upkeep::has_table(store, "agents"@),
        _ => true,
    }
}

proof fn lemma_stage_does(i: int, pre: Trace, post: Trace, stores: Seq<Store>)
    requires
        0 <= i < schema::schema_plan().len(),
        schema::staged(pre, post, schema::schema_plan()[i], Ok::<(), DbError>(())),
        is_planned(schema::schema_plan()[i]),
        is_ready(stores[0], schema::schema_plan()[i]),
        upkeep::store_follows(pre, post, stores),
    ensures
        upkeep::changes(stores[0], stores.last(), changed_by(schema::schema_plan()[i])),
        stage_done(stores.last(), schema::schema_plan()[i]),
        schema::schema_plan()[i] is WidenReasoning || schema::schema_plan()[i] is AllowHarness
            ==> stores.last() == stores[0] || upkeep::agents_are_new(stores.last()),
{
    let stage = schema::schema_plan()[i];
    match stage {
        Move::Batch(_) => lemma_making_tables(pre, post, stage, stores),
        Move::Plain(_) => lemma_running(pre, post, stage, stores),
        Move::Bounded { .. } => lemma_turning_times(pre, post, stage, stores),
        Move::Upgrade { .. } => lemma_upgrading(pre, post, stage, stores),
        Move::Columns { table, columns } => {
            lemma_columns_are_added(i);
            lemma_columns_move(pre, post, table@, columns, stores);
        },
        Move::LenientColumns { table, columns } => {
            lemma_columns_are_added(i);
            lemma_columns_move(pre, post, table@, columns, stores);
        },
        Move::WidenReasoning => lemma_widening(pre, post, stores),
        Move::RecoverAgents => lemma_recovering(pre, post, stores),
        Move::AllowHarness => lemma_allowing(pre, post, stores),
        Move::MendConfigs => lemma_mending(pre, post, stores),
        Move::MakeIcons => lemma_making_icons(pre, post, stores),
        Move::MakeNamespaces => lemma_making_namespaces(pre, post, stores),
        Move::MakeGroups => lemma_making_groups(pre, post, stores),
        Move::MakeScopes => lemma_making_scopes(pre, post, stores),
        Move::MakeGroupRepositories => lemma_binding_groups(pre, post, stores),
        Move::LoosenDecisions => lemma_loosening(pre, post, stores),
    }
}

proof fn lemma_columns_are_added(i: int)
    requires
        0 <= i < schema::schema_plan().len(),
    ensures
        schema::schema_plan()[i] matches Move::Columns { table, columns } ==> forall|k: int|
            0 <= k < columns.len() ==> upkeep::is_added(table@, #[trigger] columns[k]),
        schema::schema_plan()[i] matches Move::LenientColumns { table, columns } ==> forall|k: int|
            0 <= k < columns.len() ==> upkeep::is_added(table@, #[trigger] columns[k]),
{
    match schema::schema_plan()[i] {
        Move::Columns { table, columns } => {
            assert forall|k: int| 0 <= k < columns.len() implies upkeep::is_added(
                table@,
                #[trigger] columns[k],
            ) by {
                assert(upkeep::adds(schema::schema_plan()[i], table@, columns[k]));
            }
        },
        Move::LenientColumns { table, columns } => {
            assert forall|k: int| 0 <= k < columns.len() implies upkeep::is_added(
                table@,
                #[trigger] columns[k],
            ) by {
                assert(upkeep::adds(schema::schema_plan()[i], table@, columns[k]));
            }
        },
        _ => {},
    }
}

/// Where the stages of the set-up stand in it, as far as their order matters.
proof fn lemma_plan_order(i: int)
    requires
        0 <= i < schema::schema_plan().len(),
    ensures
        schema::schema_plan().len() == 42,
        is_planned(schema::schema_plan()[i]),
        i == 0 ==> schema::schema_plan()[i] is Batch,
        schema::schema_plan()[i] is WidenReasoning <==> i == 6,
        schema::schema_plan()[i] is RecoverAgents <==> i == 7,
        schema::schema_plan()[i] is AllowHarness <==> i == 8,
        schema::schema_plan()[i] is MendConfigs <==> i == 9,
        schema::schema_plan()[i] is LoosenDecisions <==> i == 28,
        schema::schema_plan()[i] is Bounded <==> i == 38,
        i == 36 ==> schema::schema_plan()[i] == Move::Plain(schema::SQL_REMOTE_DEVICES),
        i == 39 ==> schema::schema_plan()[i] == Move::Plain(schema::SQL_DEVICE_ROOMS),
        schema::schema_plan()[i] is Plain && i != 39 ==> makes_one(
            schema::schema_plan()[i]->Plain_0@,
        ),
{
    let a = schema::foundation_plan();
    let b = schema::agent_plan();
    let c = schema::repository_plan();
    let d = schema::session_plan();
    let e = schema::inbox_plan();
    let f = schema::device_plan();
    assert(a.len() == 6 && b.len() == 4 && c.len() == 6 && d.len() == 13 && e.len() == 7
        && f.len() == 6);
    if i < 6 {
        assert(schema::schema_plan()[i] == a[i]);
    } else if i < 10 {
        assert(schema::schema_plan()[i] == b[i - 6]);
    } else if i < 16 {
        assert(schema::schema_plan()[i] == c[i - 10]);
    } else if i < 29 {
        assert(schema::schema_plan()[i] == d[i - 16]);
    } else if i < 36 {
        assert(schema::schema_plan()[i] == e[i - 29]);
    } else {
        assert(schema::schema_plan()[i] == f[i - 36]);
    }
}

/// The tables that stages add columns to.
spec fn column_tables() -> Seq<Seq<char>> {
    seq![
        "checkpoint_entries"@,
        "messages"@,
        "memory_blocks"@,
        "sessions"@,
        "goal_contracts"@,
        "remote_inbox"@,
        "remote_devices"@,
    ]
}

proof fn lemma_plan_columns(i: int)
    requires
        0 <= i < schema::schema_plan().len(),
    ensures
        schema::schema_plan()[i] matches Move::Columns { table, columns } ==> (if i == 5 {
            table@ == "agents"@ && columns.len() == 1 && columns[0].name@ == "cap_lead"@
        } else {
            column_tables().contains(table@)
        }),
        schema::schema_plan()[i] matches Move::LenientColumns { table, .. }
            ==> column_tables().contains(table@),
        i == 5 ==> schema::schema_plan()[i] is Columns,
{
    let all = column_tables();
    assert(all[0] == "checkpoint_entries"@ && all[1] == "messages"@ && all[2] == "memory_blocks"@);
    assert(all[3] == "sessions"@ && all[4] == "goal_contracts"@ && all[5] == "remote_inbox"@);
    assert(all[6] == "remote_devices"@);
    lemma_plan_order(i);
    if i < 6 {
        assert(schema::schema_plan()[i] == schema::foundation_plan()[i]);
    } else if i < 10 {
        assert(schema::schema_plan()[i] == schema::agent_plan()[i - 6]);
    } else if i < 16 {
        assert(schema::schema_plan()[i] == schema::repository_plan()[i - 10]);
    } else if i < 29 {
        assert(schema::schema_plan()[i] == schema::session_plan()[i - 16]);
    } else if i < 36 {
        assert(schema::schema_plan()[i] == schema::inbox_plan()[i - 29]);
    } else {
        assert(schema::schema_plan()[i] == schema::device_plan()[i - 36]);
    }
}

proof fn lemma_column_tables_are_steady(table: Seq<char>)
    requires
        column_tables().contains(table),
    ensures
        upkeep::is_steady(table),
        table != "repos"@,
        table != "agents"@,
        table != schema::STRANDED_AGENTS@,
        table != "session_agent_configs"@,
        table != "decision_ledger"@,
{
    lemma_steady_tables();
    reveal_strlit("repos");
    reveal_strlit("checkpoint_entries");
    reveal_strlit("messages");
    reveal_strlit("memory_blocks");
    reveal_strlit("sessions");
    reveal_strlit("goal_contracts");
    reveal_strlit("remote_inbox");
    reveal_strlit("remote_devices");
    assert("repos"@.len() == 5);
    assert("checkpoint_entries"@.len() == 18);
    assert("messages"@.len() == 8);
    assert("memory_blocks"@.len() == 13);
    assert("sessions"@.len() == 8);
    assert("goal_contracts"@.len() == 14);
    assert("remote_inbox"@.len() == 12);
    assert("remote_devices"@.len() == 14);
}

/// The tables whose definitions, keys or columns an upgrade mends.
proof fn lemma_mended_tables_differ()
    ensures
        "agents"@ != schema::STRANDED_AGENTS@,
        "agents"@ != "session_agent_configs"@,
        "session_agent_configs"@ != schema::STRANDED_AGENTS@,
        "agents_new"@ != schema::STRANDED_AGENTS@,
        "repos"@ != "agents"@,
        "repos"@ != schema::STRANDED_AGENTS@,
        "repos"@ != "session_agent_configs"@,
        "decision_ledger"@ != "agents"@,
        "decision_ledger"@ != schema::STRANDED_AGENTS@,
        "decision_ledger"@ != "session_agent_configs"@,
        "decision_ledger_new"@ != "agents"@,
        "decision_ledger_new"@ != schema::STRANDED_AGENTS@,
        "decision_ledger_new"@ != "session_agent_configs"@,
{
    reveal_strlit("agents_old_reasoning_check");
    reveal_strlit("agents");
    reveal_strlit("agents_new");
    reveal_strlit("session_agent_configs");
    reveal_strlit("repos");
    reveal_strlit("decision_ledger");
    reveal_strlit("decision_ledger_new");
    assert(schema::STRANDED_AGENTS@.len() == 26);
    assert("agents"@.len() == 6);
    assert("agents_new"@.len() == 10);
    assert("session_agent_configs"@.len() == 21);
    assert("repos"@.len() == 5);
    assert("decision_ledger"@.len() == 15);
    assert("decision_ledger_new"@.len() == 19);
}

proof fn lemma_later_tables_differ(table: Seq<char>)
    requires
        later_tables().contains(table),
    ensures
        table != "agents"@,
        table != schema::STRANDED_AGENTS@,
        table != "session_agent_configs"@,
        table != "decision_ledger"@,
{
    reveal_strlit("agents_old_reasoning_check");
    reveal_strlit("agents");
    reveal_strlit("session_agent_configs");
    reveal_strlit("decision_ledger");
    reveal_strlit("session_runtime");
    reveal_strlit("remote_inbox");
    reveal_strlit("remote_devices");
    reveal_strlit("remote_registry_counter");
    reveal_strlit("project_remote_rooms");
    assert(schema::STRANDED_AGENTS@.len() == 26);
    assert("agents"@.len() == 6);
    assert("session_agent_configs"@.len() == 21);
    assert("decision_ledger"@.len() == 15);
    assert("session_runtime"@.len() == 15);
    assert("decision_ledger"@[0] != "session_runtime"@[0]);
    assert("remote_inbox"@.len() == 12);
    assert("remote_devices"@.len() == 14);
    assert("remote_registry_counter"@.len() == 23);
    assert("project_remote_rooms"@.len() == 20);
}

/// The tables that an upgrade mends are left alone by the stages that follow.
proof fn lemma_mended_tables_are_left_alone(i: int, table: Seq<char>)
    requires
        0 <= i < schema::schema_plan().len(),
        changed_by(schema::schema_plan()[i]).contains(table),
    ensures
        i >= 7 && i != 8 ==> table != "agents"@,
        i >= 8 ==> table != schema::STRANDED_AGENTS@,
        i >= 10 ==> table != "session_agent_configs"@,
        i > 28 ==> table != "decision_ledger"@,
{
    let stage = schema::schema_plan()[i];
    lemma_plan_order(i);
    lemma_plan_columns(i);
    lemma_mended_tables_differ();
    lemma_steady_tables();
    if stage is Plain {
        lemma_later_tables_differ(table);
    } else if stage is Columns || stage is LenientColumns {
        if i != 5 {
            lemma_column_tables_are_steady(table);
        }
    } else if i > 28 {
        assert(schema::schema_plan()[i] == if i < 36 {
            schema::inbox_plan()[i - 29]
        } else {
            schema::device_plan()[i - 36]
        });
    } else if i >= 10 {
        assert(schema::schema_plan()[i] == if i < 16 {
            schema::repository_plan()[i - 10]
        } else {
            schema::session_plan()[i - 16]
        });
    } else if i >= 6 {
        assert(schema::schema_plan()[i] == schema::agent_plan()[i - 6]);
    }
}

proof fn lemma_columns_last(
    before: Store,
    after: Store,
    tables: Seq<Seq<char>>,
    table: Seq<char>,
    columns: Seq<Column>,
)
    requires
        upkeep::changes(before, after, tables),
        upkeep::is_steady(table),
        table != "repos"@,
        upkeep::has_columns(before, table, columns),
    ensures
        upkeep::has_columns(after, table, columns),
{
    assert forall|k: int| 0 <= k < columns.len() implies upkeep::has_column(
        after,
        table,
        (#[trigger] columns[k]).name@,
    ) by {
        assert(upkeep::is_kept(table, columns[k].name@));
        assert(upkeep::has_column(before, table, columns[k].name@));
    }
}

proof fn lemma_base_tables_stay(before: Store, after: Store, tables: Seq<Seq<char>>)
    requires
        upkeep::changes(before, after, tables),
        upkeep::has_tables(before, upkeep::base_tables()),
    ensures
        upkeep::has_tables(after, upkeep::base_tables()),
{
    let all = upkeep::base_tables();
    assert forall|k: int| 0 <= k < all.len() implies upkeep::has_table(after, #[trigger] all[k]) by {
        lemma_base_tables_last(k);
        assert(upkeep::has_table(before, all[k]));
    }
}

/// What the stages that mend the agents have done stays done, while those that follow are done.
proof fn lemma_mended_stays(i: int, j: int, before: Store, after: Store)
    requires
        5 <= j < i < schema::schema_plan().len(),
        j <= 9 || j == 28,
        upkeep::changes(before, after, changed_by(schema::schema_plan()[i])),
        stage_done(before, schema::schema_plan()[j]),
        i == 6 || i == 8 ==> after == before || upkeep::agents_are_new(after),
    ensures
        stage_done(after, schema::schema_plan()[j]),
{
    let tables = changed_by(schema::schema_plan()[i]);
    lemma_plan_order(i);
    lemma_plan_order(j);
    lemma_plan_columns(j);
    let agents = "agents"@;
    if tables.contains(agents) {
        lemma_mended_tables_are_left_alone(i, agents);
    } else {
        assert(upkeep::has_table(after, agents) <==> upkeep::has_table(before, agents));
    }
    if tables.contains(schema::STRANDED_AGENTS@) {
        lemma_mended_tables_are_left_alone(i, schema::STRANDED_AGENTS@);
    } else {
        assert(upkeep::has_table(after, schema::STRANDED_AGENTS@) <==> upkeep::has_table(
            before,
            schema::STRANDED_AGENTS@,
        ));
    }
    if tables.contains("session_agent_configs"@) {
        lemma_mended_tables_are_left_alone(i, "session_agent_configs"@);
    } else {
        assert(upkeep::has_table(after, "session_agent_configs"@) <==> upkeep::has_table(
            before,
            "session_agent_configs"@,
        ));
    }
    if tables.contains("decision_ledger"@) {
        lemma_mended_tables_are_left_alone(i, "decision_ledger"@);
    } else {
        assert(upkeep::has_table(after, "decision_ledger"@) <==> upkeep::has_table(
            before,
            "decision_ledger"@,
        ));
    }
    if j == 5 && after != before {
        let columns = schema::schema_plan()[j]->Columns_columns;
        assert(upkeep::has_column(before, agents, columns[0].name@));
        if i != 6 && i != 8 {
            lemma_same_shape_same_columns(before, after, agents, "cap_lead"@);
        }
        assert(upkeep::has_columns(after, agents, columns));
    }
}

/// What a stage has done stays done while the ones that follow are done.
proof fn lemma_done_stays(i: int, j: int, before: Store, after: Store)
    requires
        0 <= j < i < schema::schema_plan().len(),
        upkeep::changes(before, after, changed_by(schema::schema_plan()[i])),
        stage_done(before, schema::schema_plan()[j]),
        i == 6 || i == 8 ==> after == before || upkeep::agents_are_new(after),
    ensures
        stage_done(after, schema::schema_plan()[j]),
{
    let tables = changed_by(schema::schema_plan()[i]);
    let stage = schema::schema_plan()[j];
    lemma_plan_order(j);
    lemma_plan_columns(j);
    if 5 <= j <= 9 || j == 28 {
        lemma_mended_stays(i, j, before, after);
    } else {
        lemma_later_tables_last();
        lemma_steady_tables();
        lemma_names_of_sessions();
        match stage {
            Move::Batch(_) => lemma_base_tables_stay(before, after, tables),
            Move::Columns { table, columns } => {
                lemma_column_tables_are_steady(table@);
                lemma_columns_last(before, after, tables, table@, columns);
            },
            Move::LenientColumns { table, columns } => {
                lemma_column_tables_are_steady(table@);
                lemma_columns_last(before, after, tables, table@, columns);
            },
            Move::MakeIcons => lemma_kept_columns("repos"@, "icon"@),
            Move::MakeNamespaces => {
                lemma_kept_columns("repos"@, "namespace_id"@);
                lemma_kept_columns("sessions"@, "namespace_id"@);
            },
            Move::MakeGroups => lemma_kept_columns("sessions"@, "group_id"@),
            Move::MakeScopes => lemma_kept_columns("sessions"@, "workspace_scope"@),
            Move::MakeGroupRepositories => lemma_kept_columns("session_groups"@, "repo_id"@),
            _ => {},
        }
    }
}

/// Whether a store has what the first stages of the set-up are for, the rows of the devices aside.
spec fn is_done(store: Store, n: int) -> bool {
    forall|j: int| 0 <= j < n ==> stage_done(store, #[trigger] schema::schema_plan()[j])
}

proof fn lemma_stage_is_ready(n: int, store: Store)
    requires
        0 <= n < schema::schema_plan().len(),
        is_done(store, n),
    ensures
        is_ready(store, schema::schema_plan()[n]),
{
    lemma_plan_order(n);
    if n > 0 {
        lemma_plan_order(0);
        assert(stage_done(store, schema::schema_plan()[0]));
        assert(upkeep::has_table(store, upkeep::base_tables()[23]));
    }
    if n > 36 {
        lemma_plan_order(36);
        assert(stage_done(store, schema::schema_plan()[36]));
    }
}

proof fn lemma_one_more_is_done(n: int, pre: Trace, post: Trace, stores: Seq<Store>)
    requires
        0 <= n < schema::schema_plan().len(),
        schema::staged(pre, post, schema::schema_plan()[n], Ok::<(), DbError>(())),
        upkeep::store_follows(pre, post, stores),
        is_done(stores[0], n),
    ensures
        is_done(stores.last(), n + 1),
{
    lemma_stage_is_ready(n, stores[0]);
    assert(is_planned(schema::schema_plan()[n])) by {
        lemma_plan_order(n);
    }
    lemma_stage_does(n, pre, post, stores);
    assert(n == 6 || n == 8 ==> stores.last() == stores[0] || upkeep::agents_are_new(
        stores.last(),
    )) by {
        lemma_plan_order(n);
    }
    assert forall|j: int| 0 <= j < n + 1 implies stage_done(
        stores.last(),
        #[trigger] schema::schema_plan()[j],
    ) by {
        if j < n {
            lemma_done_stays(n, j, stores[0], stores.last());
        }
    }
}

proof fn lemma_stages_do(
    marks: Seq<Trace>,
    pre: Trace,
    post: Trace,
    histories: Seq<Seq<Store>>,
    n: int,
)
    requires
        schema::passed(marks, pre, post, schema::schema_plan(), Ok::<(), DbError>(())),
        upkeep::store_follows_stages(marks, histories),
        0 <= n < histories.len(),
    ensures
        is_done(histories[n].last(), n + 1),
        is_done(histories[n][0], n),
    decreases n,
{
    if n > 0 {
        lemma_stages_do(marks, pre, post, histories, n - 1);
        assert(histories[n][0] == histories[n - 1].last());
    }
    assert(upkeep::store_follows(marks[n], marks[n + 1], histories[n]));
    lemma_stage_was_done(marks, pre, post, n);
    lemma_one_more_is_done(n, marks[n], marks[n + 1], histories[n]);
}

proof fn lemma_stage_was_done(marks: Seq<Trace>, pre: Trace, post: Trace, n: int)
    requires
        schema::passed(marks, pre, post, schema::schema_plan(), Ok::<(), DbError>(())),
        0 <= n < marks.len() - 1,
    ensures
        n < schema::schema_plan().len(),
        schema::staged(
            marks[n],
            marks[n + 1],
            schema::schema_plan()[n],
            Ok::<(), DbError>(()),
        ),
{
    assert(n < marks.len() - 2 ==> schema::staged(
        marks[n],
        marks[n + 1],
        schema::schema_plan()[n],
        Ok::<(), DbError>(()),
    ));
}

proof fn lemma_rooms_are_kept(before: Store, table: Seq<char>, after: Store)
    requires
        upkeep::tables_made(before, seq![table], after),
        upkeep::has_table(before, "remote_devices"@),
        upkeep::has_table(before, "app_settings"@),
    ensures
        upkeep::devices_have_rooms(after) == upkeep::devices_have_rooms(before),
        upkeep::room_setting(after) == upkeep::room_setting(before),
{
    assert(after.tables["remote_devices"@] == before.tables["remote_devices"@]);
    assert(after.tables["app_settings"@] == before.tables["app_settings"@]);
}

proof fn lemma_rooms_are_given(before: Store, after: Store)
    requires
        after == upkeep::with_devices(
            before,
            before.tables["remote_devices"@].rows.map_values(
                |row: Record| upkeep::room_row(row, upkeep::room_setting(before)),
            ),
        ),
        upkeep::room_setting(after) != Some(Datum::Null),
    ensures
        upkeep::devices_have_rooms(after),
{
    reveal_strlit("app_settings");
    reveal_strlit("remote_devices");
    assert("app_settings"@.len() == 12);
    assert("remote_devices"@.len() == 14);
    assert(after.tables["app_settings"@] == before.tables["app_settings"@]);
    assert(upkeep::room_setting(after) == upkeep::room_setting(before));
    let old_rows = before.tables["remote_devices"@].rows;
    let new_rows = after.tables["remote_devices"@].rows;
    if upkeep::room_setting(after) is Some {
        assert forall|i: int| 0 <= i < new_rows.len() implies !((
        #[trigger] new_rows[i])["room_id"@] is Null) by {
            assert(new_rows[i] == upkeep::room_row(old_rows[i], upkeep::room_setting(before)));
        }
    }
}

proof fn lemma_devices_get_rooms(
    marks: Seq<Trace>,
    pre: Trace,
    post: Trace,
    histories: Seq<Seq<Store>>,
)
    requires
        schema::passed(marks, pre, post, schema::schema_plan(), Ok::<(), DbError>(())),
        upkeep::store_follows_stages(marks, histories),
        upkeep::room_setting(histories.last().last()) != Some(Datum::Null),
    ensures
        upkeep::devices_have_rooms(histories.last().last()),
{
    let plan = schema::schema_plan();
    let done = Ok::<(), DbError>(());
    lemma_plan_order(0);
    lemma_plan_order(36);
    lemma_plan_order(39);
    assert(plan[40] == schema::device_plan()[4] && plan[41] == schema::device_plan()[5]);
    lemma_stages_do(marks, pre, post, histories, 39);
    lemma_stages_do(marks, pre, post, histories, 40);
    lemma_stages_do(marks, pre, post, histories, 41);
    assert(upkeep::store_follows(marks[39], marks[40], histories[39]));
    assert(upkeep::store_follows(marks[40], marks[41], histories[40]));
    assert(upkeep::store_follows(marks[41], marks[42], histories[41]));
    assert(schema::staged(marks[39], marks[40], plan[39], done));
    assert(schema::staged(marks[40], marks[41], plan[40], done));
    assert(schema::staged(marks[41], marks[42], plan[41], done));
    let rooms = tx::plain(schema::SQL_DEVICE_ROOMS@);
    let counter = tx::plain(schema::SQL_REGISTRY_COUNTER@);
    let projects = tx::plain(schema::SQL_PROJECT_ROOMS@);
    trace::lemma_asking_extends(marks[39], marks[40], rooms);
    trace::lemma_asking_extends(marks[40], marks[41], counter);
    trace::lemma_asking_extends(marks[41], marks[42], projects);
    let a = marks[39].len() as int;
    let b = marks[40].len() as int;
    let c = marks[41].len() as int;
    let given = histories[39][1];
    let counted = histories[40][1];
    assert(upkeep::store_follows_step(marks[40][a], histories[39][a - marks[39].len()], given));
    assert(upkeep::store_follows_step(marks[41][b], histories[40][b - marks[40].len()], counted));
    assert(upkeep::store_follows_step(
        marks[42][c],
        histories[41][c - marks[41].len()],
        histories[41][1],
    ));
    assert(tx::asks(marks[40][a], rooms));
    assert(tx::asks(marks[41][b], counter));
    assert(tx::asks(marks[42][c], projects));
    assert(histories[40][0] == given && histories[41][0] == counted);
    assert(upkeep::base_tables()[0] == "app_settings"@);
    assert(stage_done(given, plan[0]) && stage_done(given, plan[36]));
    assert(stage_done(counted, plan[0]) && stage_done(counted, plan[36]));
    assert(upkeep::has_table(given, upkeep::base_tables()[0]));
    assert(upkeep::has_table(counted, upkeep::base_tables()[0]));
    lemma_rooms_are_kept(given, "remote_registry_counter"@, counted);
    lemma_rooms_are_kept(counted, "project_remote_rooms"@, histories[41][1]);
    lemma_rooms_are_given(histories[39][0], given);
}

/// A set-up that succeeds leaves a store that has the tables that it makes, and what its stages that run
/// no statement of their own are for.
pub proof fn lemma_setup_makes_tables_and_columns(
    marks: Seq<Trace>,
    pre: Trace,
    post: Trace,
    histories: Seq<Seq<Store>>,
)
    requires
        schema::passed(marks, pre, post, schema::schema_plan(), Ok::<(), DbError>(())),
        upkeep::store_follows_stages(marks, histories),
    ensures
        histories.len() == schema::schema_plan().len() == 42,
        upkeep::has_tables(histories.last().last(), upkeep::base_tables()),
        upkeep::has_table(histories.last().last(), "session_runtime"@),
        upkeep::has_table(histories.last().last(), "remote_inbox"@),
        upkeep::has_table(histories.last().last(), "remote_devices"@),
        upkeep::has_table(histories.last().last(), "remote_registry_counter"@),
        upkeep::has_table(histories.last().last(), "project_remote_rooms"@),
        forall|i: int|
            0 <= i < schema::schema_plan().len() && !upkeep::runs_a_statement(
                #[trigger] schema::schema_plan()[i],
            ) ==> upkeep::stage_settled(
                histories.last().last(),
                schema::schema_plan()[i],
            ),
{
    let store = histories.last().last();
    lemma_plan_order(0);
    assert(histories.len() == 42);
    lemma_stages_do(marks, pre, post, histories, 41);
    assert(is_done(store, 42));
    assert(stage_done(store, schema::schema_plan()[0]));
    lemma_later_tables_are_there(store);
}

/// To set up any store brings it up to date: a set-up that succeeds leaves a store that has what
/// every stage is for. Two things of its rows it cannot mend: a time of expiry that is read as one in
/// seconds although it is turned into milliseconds already, and a room in the settings that is no
/// value.
pub proof fn law_setup_brings_a_store_up_to_date(
    marks: Seq<Trace>,
    pre: Trace,
    post: Trace,
    histories: Seq<Seq<Store>>,
)
    requires
        schema::passed(marks, pre, post, schema::schema_plan(), Ok::<(), DbError>(())),
        upkeep::store_follows_stages(marks, histories),
        upkeep::expiry_in_millis(
            histories.last().last(),
            schema::ACCESS_EXPIRES_MILLIS_THRESHOLD,
        ),
        upkeep::room_setting(histories.last().last()) != Some(Datum::Null),
    ensures
        upkeep::up_to_date(histories.last().last()),
{
    let plan = schema::schema_plan();
    let store = histories.last().last();
    lemma_plan_order(0);
    assert(histories.len() == 42);
    lemma_stages_do(marks, pre, post, histories, 41);
    lemma_devices_get_rooms(marks, pre, post, histories);
    assert(is_done(store, 42));
    lemma_later_tables_are_there(store);
    assert forall|i: int| 0 <= i < plan.len() implies upkeep::stage_settled(
        store,
        #[trigger] plan[i],
    ) by {
        assert(stage_done(store, plan[i]));
        assert(stage_done(store, plan[0]));
        lemma_plan_order(i);
        if i == 38 {
            assert(plan[38] == schema::device_plan()[2]);
        }
    }
}

proof fn lemma_later_tables_are_there(store: Store)
    requires
        is_done(store, 42),
    ensures
        upkeep::has_table(store, "session_runtime"@),
        upkeep::has_table(store, "remote_inbox"@),
        upkeep::has_table(store, "remote_devices"@),
        upkeep::has_table(store, "remote_registry_counter"@),
        upkeep::has_table(store, "project_remote_rooms"@),
{
    let plan = schema::schema_plan();
    lemma_plan_order(0);
    assert(plan[31] == schema::inbox_plan()[2] && plan[32] == schema::inbox_plan()[3]);
    assert(plan[36] == schema::device_plan()[0] && plan[40] == schema::device_plan()[4]);
    assert(plan[41] == schema::device_plan()[5]);
    assert(stage_done(store, plan[31]) && stage_done(store, plan[32]) && stage_done(
        store,
        plan[36],
    ) && stage_done(store, plan[40]) && stage_done(store, plan[41]));
}

/// To set up a store twice is to set it up once: after a set-up that succeeded, another one succeeds
/// too, and leaves every table, every column and every row as the first left them.
pub proof fn law_second_setup_changes_nothing(
    marks: Seq<Trace>,
    pre: Trace,
    post: Trace,
    histories: Seq<Seq<Store>>,
    again: Seq<Trace>,
    last: Trace,
    r: Result<(), DbError>,
    later: Seq<Seq<Store>>,
)
    requires
        schema::passed(marks, pre, post, schema::schema_plan(), Ok::<(), DbError>(())),
        upkeep::store_follows_stages(marks, histories),
        upkeep::expiry_in_millis(
            histories.last().last(),
            schema::ACCESS_EXPIRES_MILLIS_THRESHOLD,
        ),
        upkeep::room_setting(histories.last().last()) != Some(Datum::Null),
        schema::passed(again, post, last, schema::schema_plan(), r),
        upkeep::store_follows_stages(again, later),
        later[0][0] == histories.last().last(),
    ensures
        r is Ok,
        later.last().last() == histories.last().last(),
{
    law_setup_brings_a_store_up_to_date(marks, pre, post, histories);
    upkeep::law_setup_keeps_an_up_to_date_store(again, post, last, r, later);
}

} // verus!
