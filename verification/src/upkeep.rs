//! What a second run of the set-up does to a store that is up to date: nothing, to any table, column
//! or row.
//!
//! A `Store` is what the set-up knows of a database. What its statements do to a store, and what it
//! replies to its queries, is said here by their texts; indexes are left out, for they hold nothing.
use crate::engine::{Datum, DbError, Reply, Request, Step, Trace};
use crate::harness;
use crate::rows;
use crate::rows::FromRow;
use crate::schema;
use crate::schema::{Column, ColumnName, ColumnRule, ForeignKey, Move};
use crate::settled;
use crate::text;
use crate::trace;
use crate::tx;
use vstd::prelude::*;

verus! {

/// The values of a row, by the names of their columns.
pub type Record = Map<Seq<char>, Datum>;

/// A column of a table: its name, and whether it has to hold a value.
pub struct Field {
    pub name: Seq<char>,
    pub required: bool,
}

/// A foreign key of a table: the table that it refers to, the column that it starts from, and the
/// column that it refers to.
pub struct Key {
    pub table: Seq<char>,
    pub from: Seq<char>,
    pub to: Seq<char>,
}

/// A table: its definition, its columns, its foreign keys and its rows.
pub struct Table {
    pub definition: Seq<char>,
    pub fields: Seq<Field>,
    pub keys: Seq<Key>,
    pub rows: Seq<Record>,
}

/// A database: its tables by their names, its version, and whether foreign keys are enforced.
pub struct Store {
    pub tables: Map<Seq<char>, Table>,
    pub version: i64,
    pub enforced: i64,
}

/// Whether a store has a table.
pub open spec fn has_table(store: Store, table: Seq<char>) -> bool {
    store.tables.dom().contains(table)
}

/// Whether a store has a table with a column.
pub open spec fn has_column(store: Store, table: Seq<char>, column: Seq<char>) -> bool {
    &&& has_table(store, table)
    &&& exists|i: int|
        0 <= i < store.tables[table].fields.len() && (
        #[trigger] store.tables[table].fields[i]).name == column
}

/// The names of the columns of a table, as rows; none where there is no such table.
pub open spec fn column_rows(store: Store, table: Seq<char>) -> Seq<Result<Seq<Datum>, Seq<char>>> {
    if has_table(store, table) {
        store.tables[table].fields.map_values(
            |f: Field| Ok::<Seq<Datum>, Seq<char>>(seq![Datum::Text(f.name)]),
        )
    } else {
        Seq::empty()
    }
}

/// The columns of a table with whether they have to hold a value, as rows.
pub open spec fn rule_rows(store: Store, table: Seq<char>) -> Seq<Result<Seq<Datum>, Seq<char>>> {
    if has_table(store, table) {
        store.tables[table].fields.map_values(
            |f: Field|
                Ok::<Seq<Datum>, Seq<char>>(
                    seq![
                        Datum::Text(f.name),
                        Datum::Integer(
                            if f.required {
                                1
                            } else {
                                0
                            },
                        ),
                    ],
                ),
        )
    } else {
        Seq::empty()
    }
}

/// The foreign keys of a table, as rows.
pub open spec fn key_rows(store: Store, table: Seq<char>) -> Seq<Result<Seq<Datum>, Seq<char>>> {
    if has_table(store, table) {
        store.tables[table].keys.map_values(
            |k: Key|
                Ok::<Seq<Datum>, Seq<char>>(
                    seq![Datum::Text(k.table), Datum::Text(k.from), Datum::Text(k.to)],
                ),
        )
    } else {
        Seq::empty()
    }
}

/// The definition of a table, as a row; none where there is no such table.
pub open spec fn definition_row(store: Store, table: Seq<char>) -> Option<Seq<Datum>> {
    if has_table(store, table) {
        Some(seq![Datum::Text(store.tables[table].definition)])
    } else {
        None
    }
}

/// Whether the reply in a step is a given one.
pub open spec fn replied(step: Step, reply: Reply) -> bool {
    step matches Step::Asked { reply: said, .. } && said == reply
}

/// The query for the columns of a table.
pub open spec fn columns_query(table: Seq<char>) -> Request {
    Request::All {
        sql: schema::columns_sql(table),
        params: Seq::empty(),
        reads: ColumnName::reads(),
    }
}

/// The query for whether a table exists.
pub open spec fn count_query(table: Seq<char>) -> Request {
    Request::First {
        sql: schema::SQL_TABLE_EXISTS_COUNT@,
        params: seq![Datum::Text(table)],
        reads: i64::reads(),
    }
}

/// The query for an integer.
pub open spec fn integer_query(sql: Seq<char>) -> Request {
    Request::First { sql, params: Seq::empty(), reads: i64::reads() }
}

/// The query for a text.
pub open spec fn text_query(sql: Seq<char>) -> Request {
    Request::First { sql, params: Seq::empty(), reads: String::reads() }
}

/// The query for the foreign keys of the agents' configuration.
pub open spec fn keys_query() -> Request {
    Request::All {
        sql: schema::LEAD_KEYS_SQL@,
        params: Seq::empty(),
        reads: ForeignKey::reads(),
    }
}

/// The query for the columns of the decisions' table and whether they have to hold a value.
pub open spec fn rules_query() -> Request {
    Request::All {
        sql: schema::SQL_DECISION_COLUMNS@,
        params: Seq::empty(),
        reads: ColumnRule::reads(),
    }
}

/// Whether the reply to a query of the set-up tells how a store is.
pub open spec fn tells(step: Step, store: Store) -> bool {
    &&& tx::asks(step, integer_query(schema::SQL_USER_VERSION@)) ==> replied(
        step,
        Reply::Row(Some(seq![Datum::Integer(store.version)])),
    )
    &&& tx::asks(step, integer_query(schema::SQL_FOREIGN_KEYS@)) ==> replied(
        step,
        Reply::Row(Some(seq![Datum::Integer(store.enforced)])),
    )
    &&& tx::asks(step, text_query(schema::SQL_AGENTS_DEFINITION@)) ==> replied(
        step,
        Reply::Row(definition_row(store, "agents"@)),
    )
    &&& tx::asks(step, text_query(schema::SQL_AGENTS_TABLE@)) ==> replied(
        step,
        Reply::Row(definition_row(store, "agents"@)),
    )
    &&& forall|table: Seq<char>| #[trigger]
        tx::asks(step, count_query(table)) ==> replied(
            step,
            Reply::Row(
                Some(
                    seq![
                        Datum::Integer(
                            if has_table(store, table) {
                                1
                            } else {
                                0
                            },
                        ),
                    ],
                ),
            ),
        )
    &&& forall|table: Seq<char>| #[trigger]
        tx::asks(step, columns_query(table)) ==> replied(
            step,
            Reply::Rows(column_rows(store, table)),
        )
    &&& tx::asks(step, keys_query()) ==> replied(
        step,
        Reply::Rows(key_rows(store, "session_agent_configs"@)),
    )
    &&& tx::asks(step, rules_query()) ==> replied(
        step,
        Reply::Rows(rule_rows(store, "decision_ledger"@)),
    )
}

/// The tables that `SQL_TABLES` makes.
pub open spec fn base_tables() -> Seq<Seq<char>> {
    seq![
        "app_settings"@,
        "sessions"@,
        "session_agent_configs"@,
        "messages"@,
        "member_report_delivery"@,
        "attachments"@,
        "repos"@,
        "namespaces"@,
        "session_groups"@,
        "run_commits"@,
        "run_commit_intents"@,
        "checkpoint_entries"@,
        "team_run_pending"@,
        "decision_ledger"@,
        "memory_entries"@,
        "lead_loop_state"@,
        "artifacts"@,
        "verifications"@,
        "reviews"@,
        "merge_candidates"@,
        "landing_commits"@,
        "goal_contracts"@,
        "acceptance_criteria"@,
        "agents"@,
        "memory_blocks"@,
    ]
}

/// Whether a store is another with those of some tables made that it lacks.
pub open spec fn tables_made(before: Store, tables: Seq<Seq<char>>, after: Store) -> bool {
    &&& after.version == before.version
    &&& after.enforced == before.enforced
    &&& forall|table: Seq<char>| #[trigger]
        after.tables.dom().contains(table) <==> before.tables.dom().contains(table)
            || tables.contains(table)
    &&& forall|table: Seq<char>|
        before.tables.dom().contains(table) ==> #[trigger] after.tables[table]
            == before.tables[table]
}

/// A row of the devices with a time of expiry in seconds, one that is above zero and below `bound`,
/// turned into milliseconds.
pub open spec fn expiry_row(row: Record, bound: i64) -> Record {
    match row["access_expires_at"@] {
        Datum::Integer(n) => if 0 < n < bound {
            row.insert("access_expires_at"@, Datum::Integer((n * 1000) as i64))
        } else {
            row
        },
        _ => row,
    }
}

/// The room that the settings name, if there is one.
pub open spec fn room_setting(store: Store) -> Option<Datum> {
    let settings = store.tables["app_settings"@].rows;
    if exists|i: int|
        0 <= i < settings.len() && (#[trigger] settings[i])["key"@] == Datum::Text(
            "remote_room_id"@,
        ) {
        let i = choose|i: int|
            0 <= i < settings.len() && (#[trigger] settings[i])["key"@] == Datum::Text(
                "remote_room_id"@,
            );
        Some(settings[i]["value"@])
    } else {
        None
    }
}

/// A row of the devices that has no room, given the one that the settings name.
pub open spec fn room_row(row: Record, room: Option<Datum>) -> Record {
    if row["room_id"@] is Null && room is Some {
        row.insert("room_id"@, room->Some_0)
    } else {
        row
    }
}

/// A store with the rows of the devices replaced.
pub open spec fn with_devices(store: Store, rows: Seq<Record>) -> Store {
    Store {
        tables: store.tables.insert(
            "remote_devices"@,
            Table { rows, ..store.tables["remote_devices"@] },
        ),
        ..store
    }
}

/// Whether a store is what the statements that are run at any set-up make of another.
pub open spec fn upkeep_takes_effect(step: Step, before: Store, after: Store) -> bool {
    &&& tx::asks(step, Request::Batch { sql: schema::SQL_TABLES@ }) ==> tables_made(
        before,
        base_tables(),
        after,
    )
    &&& tx::asks(step, tx::plain(schema::SQL_MESSAGE_DEDUP@)) ==> after == before
    &&& tx::asks(step, tx::plain(schema::SQL_SESSION_RUNTIME@)) ==> tables_made(
        before,
        seq!["session_runtime"@],
        after,
    )
    &&& tx::asks(step, tx::plain(schema::SQL_REMOTE_INBOX@)) ==> tables_made(
        before,
        seq!["remote_inbox"@],
        after,
    )
    &&& tx::asks(step, tx::plain(schema::SQL_DROP_INBOX_PENDING@)) ==> after == before
    &&& tx::asks(step, tx::plain(schema::SQL_INBOX_PENDING@)) ==> after == before
    &&& tx::asks(step, tx::plain(schema::SQL_REMOTE_DEVICES@)) ==> tables_made(
        before,
        seq!["remote_devices"@],
        after,
    )
    &&& forall|bound: i64| #[trigger]
        tx::asks(step, expiry_statement(bound)) ==> after == with_devices(
            before,
            before.tables["remote_devices"@].rows.map_values(|row: Record| expiry_row(row, bound)),
        )
    &&& tx::asks(step, tx::plain(schema::SQL_DEVICE_ROOMS@)) ==> after == with_devices(
        before,
        before.tables["remote_devices"@].rows.map_values(
            |row: Record| room_row(row, room_setting(before)),
        ),
    )
    &&& tx::asks(step, tx::plain(schema::SQL_REGISTRY_COUNTER@)) ==> tables_made(
        before,
        seq!["remote_registry_counter"@],
        after,
    )
    &&& tx::asks(step, tx::plain(schema::SQL_PROJECT_ROOMS@)) ==> tables_made(
        before,
        seq!["project_remote_rooms"@],
        after,
    )
}

/// The statement that turns times of expiry into milliseconds.
pub open spec fn expiry_statement(bound: i64) -> Request {
    Request::Execute {
        sql: schema::SQL_EXPIRY_IN_MILLIS@,
        params: seq![Datum::Integer(bound)],
    }
}

/// Whether a table has the definition, the columns and the foreign keys of another.
pub open spec fn same_shape(a: Table, b: Table) -> bool {
    a.definition == b.definition && a.fields == b.fields && a.keys == b.keys
}

/// Whether a table is none of those that an upgrade makes and drops again.
pub open spec fn is_lasting(table: Seq<char>) -> bool {
    &&& table != schema::STRANDED_AGENTS@
    &&& table != "agents_new"@
    &&& table != "decision_ledger_new"@
}

/// Whether a table is none of those that an upgrade makes anew.
pub open spec fn is_steady(table: Seq<char>) -> bool {
    &&& is_lasting(table)
    &&& table != "agents"@
    &&& table != "session_agent_configs"@
    &&& table != "decision_ledger"@
}

/// Whether a column is not the one that an upgrade renames.
pub open spec fn is_kept(table: Seq<char>, column: Seq<char>) -> bool {
    table != "repos"@ || column != "color"@
}

/// Whether a store differs from another in some tables at most, rows aside: the other tables have
/// the shape that they had, lasting tables are still there, steady ones still have their columns,
/// and the version is not reset.
pub open spec fn changes(before: Store, after: Store, tables: Seq<Seq<char>>) -> bool {
    &&& forall|table: Seq<char>|
        !tables.contains(table) ==> {
            &&& #[trigger] has_table(after, table) <==> has_table(before, table)
            &&& has_table(before, table) ==> same_shape(after.tables[table], before.tables[table])
        }
    &&& forall|table: Seq<char>|
        is_lasting(table) && has_table(before, table) ==> #[trigger] has_table(after, table)
    &&& forall|table: Seq<char>, column: Seq<char>|
        is_steady(table) && is_kept(table, column) && has_column(before, table, column)
            ==> #[trigger] has_column(after, table, column)
    &&& before.version >= 1 ==> after.version >= 1
}

/// Whether a store is another with a column added to a table.
pub open spec fn column_added(
    before: Store,
    after: Store,
    table: Seq<char>,
    column: Seq<char>,
) -> bool {
    &&& changes(before, after, seq![table])
    &&& has_column(after, table, column)
    &&& forall|other: Seq<char>|
        has_column(before, table, other) ==> #[trigger] has_column(after, table, other)
}

/// Whether the agents' table of a store is a new one: its definition allows harness access and does
/// not have the old check of the reasoning level, and it says what an agent may lead.
pub open spec fn agents_are_new(store: Store) -> bool {
    &&& has_table(store, "agents"@)
    &&& text::occurs(store.tables["agents"@].definition, "'harness'"@)
    &&& !text::occurs(store.tables["agents"@].definition, schema::OLD_REASONING_CHECK@)
    &&& has_column(store, "agents"@, "cap_lead"@)
}

/// Whether a foreign key is the first of some that starts from `lead_agent_id`.
pub open spec fn is_lead_key(keys: Seq<Key>, i: int) -> bool {
    &&& 0 <= i < keys.len()
    &&& keys[i].from == "lead_agent_id"@
    &&& forall|j: int| 0 <= j < i ==> (#[trigger] keys[j]).from != "lead_agent_id"@
}

/// Whether the lead of the agents' configuration of a store does not refer to the table that a
/// broken upgrade leaves behind.
pub open spec fn configs_are_sound(store: Store) -> bool {
    let keys = store.tables["session_agent_configs"@].keys;
    has_table(store, "session_agent_configs"@) ==> forall|i: int| #[trigger]
        is_lead_key(keys, i) ==> !(keys[i].table == schema::STRANDED_AGENTS@ && keys[i].to
            == "id"@)
}

/// Whether the decisions' table of a store does not demand a run.
pub open spec fn decisions_are_loose(store: Store) -> bool {
    has_table(store, "decision_ledger"@) ==> forall|i: int|
        0 <= i < store.tables["decision_ledger"@].fields.len() ==> !((
        #[trigger] store.tables["decision_ledger"@].fields[i]).name == "run_id"@
            && store.tables["decision_ledger"@].fields[i].required)
}

/// Whether a store is what the statements that upgrade the agents make of another. To rename a table
/// renames it in the foreign keys of others too, so that those of the configuration change with it.
pub open spec fn agents_take_effect(step: Step, before: Store, after: Store) -> bool {
    &&& tx::asks(step, Request::Batch { sql: schema::SQL_WIDEN_REASONING@ }) ==> {
        &&& changes(
            before,
            after,
            seq!["agents"@, schema::STRANDED_AGENTS@, "session_agent_configs"@],
        )
        &&& agents_are_new(after)
        &&& !has_table(after, schema::STRANDED_AGENTS@)
    }
    &&& tx::asks(step, tx::plain(schema::SQL_STRANDED_CAP_LEAD@)) ==> changes(
        before,
        after,
        seq![schema::STRANDED_AGENTS@],
    )
    &&& tx::asks(step, Request::Batch { sql: schema::SQL_RECOVER_AGENTS@ }) ==> {
        &&& changes(before, after, seq![schema::STRANDED_AGENTS@])
        &&& !has_table(after, schema::STRANDED_AGENTS@)
    }
    &&& forall|present: Seq<Seq<char>>| #[trigger]
        tx::asks(step, harness::rebuilding(present)) ==> changes(
            before,
            after,
            seq!["agents"@, "agents_new"@],
        ) && agents_are_new(after)
    &&& tx::asks(step, Request::Batch { sql: schema::SQL_RESET_SESSION_AGENT_CONFIGS@ }) ==> {
        &&& changes(before, after, seq!["session_agent_configs"@])
        &&& configs_are_sound(after)
    }
}

/// Whether a stage adds a column to a table that lacks it.
pub open spec fn adds(stage: Move, table: Seq<char>, column: Column) -> bool {
    match stage {
        Move::Columns { table: t, columns } => t@ == table && columns.contains(column),
        Move::LenientColumns { table: t, columns } => t@ == table && columns.contains(column),
        _ => false,
    }
}

/// Whether the set-up adds a column to a table that lacks it.
pub open spec fn is_added(table: Seq<char>, column: Column) -> bool {
    exists|i: int|
        0 <= i < schema::schema_plan().len() && adds(
            #[trigger] schema::schema_plan()[i],
            table,
            column,
        )
}

/// Whether a store is what the other statements that upgrade it make of another.
pub open spec fn upgrade_takes_effect(step: Step, before: Store, after: Store) -> bool {
    &&& forall|table: Seq<char>, column: Column| #[trigger]
        tx::asks(step, tx::plain(schema::addition_sql(table, column))) && is_added(table, column)
            ==> column_added(before, after, table, column.name@)
    &&& tx::asks(step, Request::Batch { sql: schema::SQL_DOCUMENT_TABLES@ }) ==> {
        &&& changes(before, after, seq!["project_intro"@, "daily_report"@])
        &&& after.version == 1
    }
    &&& tx::asks(step, tx::plain(schema::SQL_RENAME_COLOR@)) ==> {
        &&& changes(before, after, seq!["repos"@])
        &&& has_column(after, "repos"@, "icon"@)
    }
    &&& tx::asks(step, tx::plain(schema::SQL_ADD_ICON@)) ==> column_added(
        before,
        after,
        "repos"@,
        "icon"@,
    )
    &&& tx::asks(step, tx::plain(schema::SQL_REPO_NAMESPACE@)) ==> column_added(
        before,
        after,
        "repos"@,
        "namespace_id"@,
    )
    &&& tx::asks(step, tx::plain(schema::SQL_SESSION_NAMESPACE@)) ==> column_added(
        before,
        after,
        "sessions"@,
        "namespace_id"@,
    )
    &&& tx::asks(step, tx::plain(schema::SQL_SESSION_GROUP@)) ==> column_added(
        before,
        after,
        "sessions"@,
        "group_id"@,
    )
    &&& tx::asks(step, tx::plain(schema::SQL_WORKSPACE_SCOPE@)) ==> column_added(
        before,
        after,
        "sessions"@,
        "workspace_scope"@,
    )
    &&& tx::asks(step, tx::plain(schema::SQL_GROUP_REPO@)) ==> column_added(
        before,
        after,
        "session_groups"@,
        "repo_id"@,
    )
    &&& tx::asks(step, Request::Batch { sql: schema::SQL_LOOSEN_DECISIONS@ }) ==> {
        &&& changes(before, after, seq!["decision_ledger"@, "decision_ledger_new"@])
        &&& decisions_are_loose(after)
    }
}

/// Whether a step runs a statement of the set-up that touches rows alone, or none: it updates or
/// deletes rows, opens or commits a transaction, or switches foreign keys on or off.
pub open spec fn touches_rows_alone(step: Step) -> bool {
    ||| tx::asks(step, tx::plain(schema::SQL_CLEAR_COLORS@))
    ||| tx::asks(step, tx::plain(schema::SQL_KEEP_ROOT_SCOPE@))
    ||| tx::asks(step, tx::plain(schema::SQL_LOCAL_GROUPS@))
    ||| tx::asks(step, tx::plain(schema::SQL_SINGLE_REPO_GROUPS@))
    ||| tx::asks(step, tx::plain(schema::SQL_UNGROUP_SESSIONS@))
    ||| tx::asks(step, tx::plain(schema::SQL_DROP_UNMAPPED_GROUPS@))
    ||| tx::asks(step, Request::Batch { sql: tx::BEGIN@ })
    ||| tx::asks(step, Request::Batch { sql: tx::COMMIT@ })
    ||| tx::asks(step, Request::Batch { sql: schema::SQL_FOREIGN_KEYS_OFF@ })
    ||| tx::asks(step, Request::Batch { sql: schema::SQL_FOREIGN_KEYS_ON@ })
}

/// Whether a store does what a step of the set-up asks of it, without an error: it tells how it is
/// and stays as it is where it is queried, and the statements take effect.
pub open spec fn store_follows_step(step: Step, before: Store, after: Store) -> bool {
    &&& settled::legible(step)
    &&& tells(step, before)
    &&& settled::is_query(step) ==> after == before
    &&& upkeep_takes_effect(step, before, after)
    &&& agents_take_effect(step, before, after)
    &&& upgrade_takes_effect(step, before, after)
    &&& touches_rows_alone(step) ==> changes(before, after, Seq::empty())
}

/// Whether a store does what the steps after `pre` ask of it, and nobody else changes it; `stores`
/// are how it is before, between and after those steps.
pub open spec fn store_follows(pre: Trace, post: Trace, stores: Seq<Store>) -> bool {
    &&& stores.len() == post.len() - pre.len() + 1
    &&& forall|k: int|
        pre.len() <= k < post.len() ==> store_follows_step(
            #[trigger] post[k],
            stores[k - pre.len()],
            stores[k - pre.len() + 1],
        )
}

/// Whether a store has all of some tables.
pub open spec fn has_tables(store: Store, tables: Seq<Seq<char>>) -> bool {
    forall|i: int| 0 <= i < tables.len() ==> has_table(store, #[trigger] tables[i])
}

/// Whether a store has a table with all of some columns.
pub open spec fn has_columns(store: Store, table: Seq<char>, columns: Seq<Column>) -> bool {
    &&& has_table(store, table)
    &&& forall|i: int|
        0 <= i < columns.len() ==> has_column(store, table, (#[trigger] columns[i]).name@)
}

/// Whether no device has a time of expiry that is above zero and below `bound`.
pub open spec fn expiry_in_millis(store: Store, bound: i64) -> bool {
    forall|i: int|
        0 <= i < store.tables["remote_devices"@].rows.len() ==> ((
        #[trigger] store.tables["remote_devices"@].rows[i])["access_expires_at"@] matches
            Datum::Integer(n) ==> n <= 0 || n >= bound)
}

/// Whether every device has a room, where the settings name one.
pub open spec fn devices_have_rooms(store: Store) -> bool {
    room_setting(store) is Some ==> forall|i: int|
        0 <= i < store.tables["remote_devices"@].rows.len() ==> !((
        #[trigger] store.tables["remote_devices"@].rows[i])["room_id"@] is Null)
}

/// Whether a store has what the statement of a stage is for.
pub open spec fn statement_settled(store: Store, sql: Seq<char>) -> bool {
    &&& sql == schema::SQL_TABLES@ ==> has_tables(store, base_tables())
    &&& sql == schema::SQL_SESSION_RUNTIME@ ==> has_table(store, "session_runtime"@)
    &&& sql == schema::SQL_REMOTE_INBOX@ ==> has_table(store, "remote_inbox"@)
    &&& sql == schema::SQL_REMOTE_DEVICES@ ==> has_table(store, "remote_devices"@)
    &&& sql == schema::SQL_DEVICE_ROOMS@ ==> has_table(store, "remote_devices"@)
        && devices_have_rooms(store)
    &&& sql == schema::SQL_REGISTRY_COUNTER@ ==> has_table(store, "remote_registry_counter"@)
    &&& sql == schema::SQL_PROJECT_ROOMS@ ==> has_table(store, "project_remote_rooms"@)
}

/// Whether a store has what a stage is for.
pub open spec fn stage_settled(store: Store, stage: Move) -> bool {
    match stage {
        Move::Batch(sql) => statement_settled(store, sql@),
        Move::Plain(sql) => statement_settled(store, sql@),
        Move::Bounded { bound, .. } => has_table(store, "remote_devices"@) && expiry_in_millis(
            store,
            bound,
        ),
        Move::Upgrade { version, .. } => store.version >= version,
        Move::Columns { table, columns } => has_columns(store, table@, columns),
        Move::LenientColumns { table, columns } => has_columns(store, table@, columns),
        Move::WidenReasoning => has_table(store, "agents"@) && !text::occurs(
            store.tables["agents"@].definition,
            schema::OLD_REASONING_CHECK@,
        ),
        Move::RecoverAgents => !has_table(store, schema::STRANDED_AGENTS@),
        Move::AllowHarness => has_table(store, "agents"@) && text::occurs(
            store.tables["agents"@].definition,
            "'harness'"@,
        ),
        Move::MendConfigs => configs_are_sound(store),
        Move::MakeIcons => has_column(store, "repos"@, "icon"@),
        Move::MakeNamespaces => has_column(store, "repos"@, "namespace_id"@) && has_column(
            store,
            "sessions"@,
            "namespace_id"@,
        ),
        Move::MakeGroups => has_column(store, "sessions"@, "group_id"@),
        Move::MakeScopes => has_column(store, "sessions"@, "workspace_scope"@),
        Move::MakeGroupRepositories => has_column(store, "session_groups"@, "repo_id"@),
        Move::LoosenDecisions => decisions_are_loose(store),
    }
}

/// Whether a store is up to date: it has what every stage of the set-up is for.
pub open spec fn up_to_date(store: Store) -> bool {
    forall|i: int|
        0 <= i < schema::schema_plan().len() ==> stage_settled(
            store,
            #[trigger] schema::schema_plan()[i],
        )
}

/// Whether a stage runs one statement, and that at any set-up.
pub open spec fn runs_a_statement(stage: Move) -> bool {
    stage is Batch || stage is Plain || stage is Bounded
}

/// The statements of the set-up that are run at any time.
pub open spec fn standing_statements() -> Seq<Seq<char>> {
    seq![
        schema::SQL_MESSAGE_DEDUP@,
        schema::SQL_SESSION_RUNTIME@,
        schema::SQL_REMOTE_INBOX@,
        schema::SQL_DROP_INBOX_PENDING@,
        schema::SQL_INBOX_PENDING@,
        schema::SQL_REMOTE_DEVICES@,
        schema::SQL_DEVICE_ROOMS@,
        schema::SQL_REGISTRY_COUNTER@,
        schema::SQL_PROJECT_ROOMS@,
    ]
}

/// Whether the statement of a stage, where it runs one, is one of those of the set-up.
pub open spec fn is_known(stage: Move) -> bool {
    match stage {
        Move::Batch(sql) => sql@ == schema::SQL_TABLES@,
        Move::Plain(sql) => standing_statements().contains(sql@),
        Move::Bounded { sql, .. } => sql@ == schema::SQL_EXPIRY_IN_MILLIS@,
        _ => true,
    }
}

proof fn lemma_plan_is_known()
    ensures
        forall|i: int|
            0 <= i < schema::schema_plan().len() ==> is_known(#[trigger] schema::schema_plan()[i]),
{
    let all = standing_statements();
    assert(all[0] == schema::SQL_MESSAGE_DEDUP@ && all[1] == schema::SQL_SESSION_RUNTIME@);
    assert(all[2] == schema::SQL_REMOTE_INBOX@ && all[3] == schema::SQL_DROP_INBOX_PENDING@);
    assert(all[4] == schema::SQL_INBOX_PENDING@ && all[5] == schema::SQL_REMOTE_DEVICES@);
    assert(all[6] == schema::SQL_DEVICE_ROOMS@ && all[7] == schema::SQL_REGISTRY_COUNTER@);
    assert(all[8] == schema::SQL_PROJECT_ROOMS@);
    assert forall|i: int| 0 <= i < schema::schema_plan().len() implies is_known(
        #[trigger] schema::schema_plan()[i],
    ) by {
        lemma_stage_is_known(i);
    }
}

proof fn lemma_stage_is_known(i: int)
    requires
        0 <= i < schema::schema_plan().len(),
    ensures
        is_known(schema::schema_plan()[i]),
{
    let all = standing_statements();
    assert(all[0] == schema::SQL_MESSAGE_DEDUP@ && all[1] == schema::SQL_SESSION_RUNTIME@);
    assert(all[2] == schema::SQL_REMOTE_INBOX@ && all[3] == schema::SQL_DROP_INBOX_PENDING@);
    assert(all[4] == schema::SQL_INBOX_PENDING@ && all[5] == schema::SQL_REMOTE_DEVICES@);
    assert(all[6] == schema::SQL_DEVICE_ROOMS@ && all[7] == schema::SQL_REGISTRY_COUNTER@);
    assert(all[8] == schema::SQL_PROJECT_ROOMS@);
    let a = schema::foundation_plan().len() as int;
    let b = a + schema::agent_plan().len();
    let c = b + schema::repository_plan().len();
    let d = c + schema::session_plan().len();
    let e = d + schema::inbox_plan().len();
    if i < a {
        assert(schema::schema_plan()[i] == schema::foundation_plan()[i]);
    } else if i < b {
        assert(schema::schema_plan()[i] == schema::agent_plan()[i - a]);
    } else if i < c {
        assert(schema::schema_plan()[i] == schema::repository_plan()[i - b]);
    } else if i < d {
        assert(schema::schema_plan()[i] == schema::session_plan()[i - c]);
    } else if i < e {
        assert(schema::schema_plan()[i] == schema::inbox_plan()[i - d]);
    } else {
        assert(schema::schema_plan()[i] == schema::device_plan()[i - e]);
    }
}

proof fn lemma_made_already(before: Store, tables: Seq<Seq<char>>, after: Store)
    requires
        tables_made(before, tables, after),
        has_tables(before, tables),
    ensures
        after == before,
{
    assert forall|table: Seq<char>| #[trigger]
        after.tables.dom().contains(table) implies before.tables.dom().contains(table) by {
        if tables.contains(table) {
            let i = choose|i: int| 0 <= i < tables.len() && tables[i] == table;
            assert(has_table(before, tables[i]));
        }
    }
    assert(after.tables.dom() =~= before.tables.dom());
    assert(after.tables =~= before.tables);
}

proof fn lemma_same_devices(store: Store, rows: Seq<Record>)
    requires
        has_table(store, "remote_devices"@),
        rows == store.tables["remote_devices"@].rows,
    ensures
        with_devices(store, rows) == store,
{
    assert(with_devices(store, rows).tables =~= store.tables);
}

/// A statement that is run at any set-up leaves a store that has what it is for as it is.
pub proof fn law_standing_statement_keeps_a_settled_store(
    step: Step,
    stage: Move,
    before: Store,
    after: Store,
)
    requires
        settled::is_standing(step, stage),
        is_known(stage),
        stage_settled(before, stage),
        upkeep_takes_effect(step, before, after),
    ensures
        after == before,
{
    match stage {
        Move::Batch(_) => lemma_made_already(before, base_tables(), after),
        Move::Bounded { bound, .. } => {
            assert(tx::asks(step, expiry_statement(bound)));
            let rows = before.tables["remote_devices"@].rows;
            assert(rows.map_values(|row: Record| expiry_row(row, bound)) =~= rows);
            lemma_same_devices(before, rows);
        },
        Move::Plain(sql) => {
            if sql@ == schema::SQL_SESSION_RUNTIME@ {
                lemma_made_already(before, seq!["session_runtime"@], after);
            } else if sql@ == schema::SQL_REMOTE_INBOX@ {
                lemma_made_already(before, seq!["remote_inbox"@], after);
            } else if sql@ == schema::SQL_REMOTE_DEVICES@ {
                lemma_made_already(before, seq!["remote_devices"@], after);
            } else if sql@ == schema::SQL_DEVICE_ROOMS@ {
                let rows = before.tables["remote_devices"@].rows;
                assert(rows.map_values(|row: Record| room_row(row, room_setting(before)))
                    =~= rows);
                lemma_same_devices(before, rows);
            } else if sql@ == schema::SQL_REGISTRY_COUNTER@ {
                lemma_made_already(before, seq!["remote_registry_counter"@], after);
            } else if sql@ == schema::SQL_PROJECT_ROOMS@ {
                lemma_made_already(before, seq!["project_remote_rooms"@], after);
            }
        },
        _ => {},
    }
}

/// The first query of a stage that runs no statement of its own.
pub open spec fn first_query(stage: Move) -> Request {
    match stage {
        Move::Upgrade { .. } => integer_query(schema::SQL_USER_VERSION@),
        Move::Columns { table, .. } => columns_query(table@),
        Move::LenientColumns { table, .. } => columns_query(table@),
        Move::WidenReasoning => text_query(schema::SQL_AGENTS_DEFINITION@),
        Move::RecoverAgents => count_query(schema::STRANDED_AGENTS@),
        Move::AllowHarness => text_query(schema::SQL_AGENTS_TABLE@),
        Move::MendConfigs => count_query("session_agent_configs"@),
        Move::MakeIcons => columns_query("repos"@),
        Move::MakeNamespaces => columns_query("repos"@),
        Move::MakeGroups => columns_query("sessions"@),
        Move::MakeScopes => columns_query("sessions"@),
        Move::MakeGroupRepositories => columns_query("session_groups"@),
        Move::LoosenDecisions => rules_query(),
        _ => tx::plain(Seq::empty()),
    }
}

proof fn lemma_first_is_asked(pre: Trace, post: Trace, stage: Move, r: Result<(), DbError>)
    requires
        schema::staged(pre, post, stage, r),
        !runs_a_statement(stage),
    ensures
        pre.len() < post.len(),
        tx::asks(post[pre.len() as int], first_query(stage)),
{
    let mid = lemma_after_first(pre, post, stage, r);
    trace::lemma_step_stays(mid, post, pre.len() as int);
}

proof fn lemma_after_first(pre: Trace, post: Trace, stage: Move, r: Result<(), DbError>) -> (mid:
    Trace)
    requires
        schema::staged(pre, post, stage, r),
        !runs_a_statement(stage),
    ensures
        trace::extends(mid, post),
        mid.len() == pre.len() + 1,
        tx::asks(mid[pre.len() as int], first_query(stage)),
{
    match stage {
        Move::Upgrade { version, sql } => {
            let (mid, got) = choose|mid: Trace, got: Result<i64, DbError>|
                {
                    &&& #[trigger] schema::version_read(pre, mid, got)
                    &&& schema::upgraded_from(mid, post, version, sql@, got, r)
                };
            assert(post.take(mid.len() as int) =~= mid);
            mid
        },
        Move::Columns { table, columns } => {
            let (mid, got) = choose|mid: Trace, got: Result<Vec<ColumnName>, DbError>|
                {
                    &&& #[trigger] schema::columns_read(pre, mid, table@, got)
                    &&& schema::columns_completed(mid, post, table@, columns, got, r)
                };
            assert(post.take(mid.len() as int) =~= mid);
            mid
        },
        Move::LenientColumns { table, columns } => {
            let (mid, got) = choose|mid: Trace, got: Result<Vec<ColumnName>, DbError>|
                {
                    &&& #[trigger] schema::readable_columns_read(pre, mid, table@, got)
                    &&& schema::columns_completed(mid, post, table@, columns, got, r)
                };
            assert(post.take(mid.len() as int) =~= mid);
            mid
        },
        Move::WidenReasoning => {
            let (mid, definition) = choose|mid: Trace, definition: Result<Option<String>, DbError>|
                {
                    &&& #[trigger] schema::definition_found(pre, mid, definition)
                    &&& schema::reasoning_widened_from(mid, post, definition, r)
                };
            if definition matches Ok(Some(sql)) && text::occurs(
                sql@,
                schema::OLD_REASONING_CHECK@,
            ) {
                settled::lemma_unenforced_extends(
                    mid,
                    post,
                    seq![Request::Batch { sql: schema::SQL_WIDEN_REASONING@ }],
                    r,
                );
            } else {
                assert(post.take(mid.len() as int) =~= mid);
            }
            mid
        },
        Move::RecoverAgents => {
            let (mid, there) = choose|mid: Trace, there: Result<bool, DbError>|
                {
                    &&& #[trigger] schema::existence_read(pre, mid, schema::STRANDED_AGENTS@, there)
                    &&& schema::agents_recovered_if_there(mid, post, there, r)
                };
            if there == Ok::<bool, DbError>(true) {
                let (looked, has) = choose|looked: Trace, has: Result<bool, DbError>|
                    {
                        &&& #[trigger] schema::column_looked_up(
                            mid,
                            looked,
                            schema::STRANDED_AGENTS@,
                            "cap_lead"@,
                            has,
                        )
                        &&& schema::agents_moved_back(looked, post, has, r)
                    };
                assert(looked.take(mid.len() as int) =~= mid);
                assert(post.take(looked.len() as int) =~= looked);
                trace::lemma_extends_further(mid, looked, post);
            } else {
                assert(post.take(mid.len() as int) =~= mid);
            }
            mid
        },
        Move::AllowHarness => {
            let got = choose|got: Result<bool, DbError>|
                #[trigger] schema::harness_allowed(pre, post, got) && r == match got {
                    Ok(_) => Ok::<(), DbError>(()),
                    Err(e) => Err(e),
                };
            let (mid, definition) = choose|mid: Trace, definition: Result<String, DbError>|
                {
                    &&& #[trigger] schema::definition_read(pre, mid, definition)
                    &&& schema::harness_allowed_from(mid, post, definition, got)
                };
            harness::lemma_allowing_extends(mid, post, definition, got);
            mid
        },
        Move::MendConfigs => {
            let (mid, target) = choose|
                mid: Trace,
                target: Result<Option<(String, String)>, DbError>,
            |
                {
                    &&& #[trigger] schema::target_read(pre, mid, target)
                    &&& schema::reset_if_stranded(mid, post, target, r)
                };
            lemma_resetting_extends(mid, post, target, r);
            let (first, there) = choose|first: Trace, there: Result<bool, DbError>|
                {
                    &&& #[trigger] schema::existence_read(
                        pre,
                        first,
                        "session_agent_configs"@,
                        there,
                    )
                    &&& schema::target_read_if_there(first, mid, there, target)
                };
            assert(mid.take(first.len() as int) =~= first);
            trace::lemma_extends_further(first, mid, post);
            first
        },
        Move::MakeIcons => {
            let (mid, got) = choose|mid: Trace, got: Result<Vec<ColumnName>, DbError>|
                {
                    &&& #[trigger] schema::columns_read(pre, mid, "repos"@, got)
                    &&& schema::icons_completed(mid, post, got, r)
                };
            assert(post.take(mid.len() as int) =~= mid);
            mid
        },
        Move::MakeNamespaces => {
            let (mid, in_repos) = choose|mid: Trace, in_repos: Result<bool, DbError>|
                {
                    &&& #[trigger] schema::column_looked_up(
                        pre,
                        mid,
                        "repos"@,
                        "namespace_id"@,
                        in_repos,
                    )
                    &&& schema::namespaces_made_from(mid, post, in_repos, r)
                };
            if in_repos is Ok {
                lemma_namespaces_extend(mid, post, in_repos->Ok_0, r);
            } else {
                assert(post.take(mid.len() as int) =~= mid);
            }
            mid
        },
        Move::MakeGroups => {
            let (mid, there) = choose|mid: Trace, there: Result<bool, DbError>|
                {
                    &&& #[trigger] schema::column_looked_up(
                        pre,
                        mid,
                        "sessions"@,
                        "group_id"@,
                        there,
                    )
                    &&& schema::groups_made_from(mid, post, there, r)
                };
            if there == Ok::<bool, DbError>(false) {
                settled::lemma_unenforced_extends(
                    mid,
                    post,
                    seq![tx::plain(schema::SQL_SESSION_GROUP@)],
                    r,
                );
            } else {
                assert(post.take(mid.len() as int) =~= mid);
            }
            mid
        },
        Move::MakeScopes => {
            let (mid, there) = choose|mid: Trace, there: Result<bool, DbError>|
                {
                    &&& #[trigger] schema::column_looked_up(
                        pre,
                        mid,
                        "sessions"@,
                        "workspace_scope"@,
                        there,
                    )
                    &&& schema::scopes_made_from(mid, post, there, r)
                };
            if there == Ok::<bool, DbError>(false) {
                settled::lemma_scopes_extend(mid, post, r);
            } else {
                assert(post.take(mid.len() as int) =~= mid);
            }
            mid
        },
        Move::MakeGroupRepositories => {
            let (mid, there) = choose|mid: Trace, there: Result<bool, DbError>|
                {
                    &&& #[trigger] schema::column_looked_up(
                        pre,
                        mid,
                        "session_groups"@,
                        "repo_id"@,
                        there,
                    )
                    &&& schema::groups_bound_from(mid, post, there, r)
                };
            assert(post.take(mid.len() as int) =~= mid);
            mid
        },
        Move::LoosenDecisions => {
            let (mid, got) = choose|mid: Trace, got: Result<Vec<ColumnRule>, DbError>|
                {
                    &&& #[trigger] schema::rules_read(pre, mid, got)
                    &&& schema::loosened_from(mid, post, got, r)
                };
            assert(post.take(mid.len() as int) =~= mid);
            mid
        },
        _ => pre,
    }
}

/// To make the configuration anew, where needed, goes on from a trace.
pub proof fn lemma_resetting_extends(
    pre: Trace,
    post: Trace,
    target: Result<Option<(String, String)>, DbError>,
    r: Result<(), DbError>,
)
    requires
        schema::reset_if_stranded(pre, post, target, r),
    ensures
        trace::extends(pre, post),
{
    if target matches Ok(t) && schema::stranded_target(t) {
        settled::lemma_reset_extends(pre, post, r);
    } else {
        assert(post.take(pre.len() as int) =~= pre);
    }
}

proof fn lemma_namespaces_extend(
    pre: Trace,
    post: Trace,
    in_repos: bool,
    r: Result<(), DbError>,
)
    requires
        schema::namespaces_made_after(pre, post, in_repos, r),
    ensures
        trace::extends(pre, post),
        pre.len() < post.len(),
        tx::asks(post[pre.len() as int], columns_query("sessions"@)),
        settled::answered(pre, post) ==> pre.len() + 1 < post.len() && tx::asks(
            post[pre.len() as int + 1],
            integer_query(schema::SQL_FOREIGN_KEYS@),
        ),
{
    let (seen, in_sessions) = choose|seen: Trace, in_sessions: Result<bool, DbError>|
        {
            &&& #[trigger] schema::column_looked_up(
                pre,
                seen,
                "sessions"@,
                "namespace_id"@,
                in_sessions,
            )
            &&& schema::namespaces_added(seen, post, in_repos, in_sessions, r)
        };
    assert(seen.take(pre.len() as int) =~= pre);
    if in_sessions is Ok {
        let there = in_sessions->Ok_0;
        let (read, on) = choose|read: Trace, on: Result<i64, DbError>|
            {
                &&& #[trigger] schema::enforcement_read(seen, read, on)
                &&& schema::namespaces_added_as_found(read, post, in_repos, there, on, r)
            };
        assert(read.take(seen.len() as int) =~= seen);
        assert(post.take(read.len() as int) =~= read);
        trace::lemma_extends_further(seen, read, post);
        trace::lemma_step_stays(read, post, pre.len() as int + 1);
    } else {
        assert(post.take(seen.len() as int) =~= seen);
        assert(!settled::legible(post[pre.len() as int]));
    }
    trace::lemma_step_stays(seen, post, pre.len() as int);
    trace::lemma_extends_further(pre, seen, post);
}

proof fn lemma_column_is_shown(step: Step, store: Store, table: Seq<char>, column: Seq<char>)
    requires
        tx::asks(step, columns_query(table)),
        tells(step, store),
        has_column(store, table, column),
    ensures
        settled::shows_column(step, column),
{
    let fields = store.tables[table].fields;
    let i = choose|i: int| 0 <= i < fields.len() && (#[trigger] fields[i]).name == column;
    let found = step->reply->Rows_0;
    assert(found[i] == Ok::<Seq<Datum>, Seq<char>>(seq![Datum::Text(fields[i].name)]));
}

proof fn lemma_columns_are_shown(
    step: Step,
    store: Store,
    table: Seq<char>,
    columns: Seq<Column>,
)
    requires
        tx::asks(step, columns_query(table)),
        tells(step, store),
        has_columns(store, table, columns),
    ensures
        settled::shows_columns(step, columns),
{
    assert forall|i: int| 0 <= i < columns.len() implies settled::shows_column(
        step,
        #[trigger] columns[i].name@,
    ) by {
        lemma_column_is_shown(step, store, table, columns[i].name@);
    }
}

proof fn lemma_columns_query_is_query(step: Step, table: Seq<char>)
    requires
        tx::asks(step, columns_query(table)),
    ensures
        settled::is_query(step),
{
    assert(trace::queries(step, schema::columns_sql(table)));
}

/// What the replies of a stage show of a store that has what the stage is for.
proof fn lemma_store_shows(
    pre: Trace,
    post: Trace,
    stage: Move,
    r: Result<(), DbError>,
    stores: Seq<Store>,
)
    requires
        schema::staged(pre, post, stage, r),
        store_follows(pre, post, stores),
        stage_settled(stores[0], stage),
    ensures
        settled::answered(pre, post),
        settled::settled(pre, post, stage),
{
    let at = pre.len() as int;
    let store = stores[0];
    assert forall|k: int| pre.len() <= k < post.len() implies settled::legible(
        #[trigger] post[k],
    ) by {
        assert(store_follows_step(post[k], stores[k - pre.len()], stores[k - pre.len() + 1]));
    }
    if !runs_a_statement(stage) {
        lemma_first_is_asked(pre, post, stage, r);
        assert(store_follows_step(post[at], stores[0], stores[1]));
        assert(tx::asks(post[at], first_query(stage)));
        match stage {
            Move::Columns { table, columns } => lemma_columns_are_shown(
                post[at],
                store,
                table@,
                columns,
            ),
            Move::LenientColumns { table, columns } => lemma_columns_are_shown(
                post[at],
                store,
                table@,
                columns,
            ),
            Move::MakeIcons => lemma_column_is_shown(post[at], store, "repos"@, "icon"@),
            Move::MakeGroups => lemma_column_is_shown(
                post[at],
                store,
                "sessions"@,
                "group_id"@,
            ),
            Move::MakeScopes => lemma_column_is_shown(
                post[at],
                store,
                "sessions"@,
                "workspace_scope"@,
            ),
            Move::MakeGroupRepositories => lemma_column_is_shown(
                post[at],
                store,
                "session_groups"@,
                "repo_id"@,
            ),
            Move::MakeNamespaces => lemma_namespaces_are_shown(pre, post, r, stores),
            Move::MendConfigs => lemma_target_is_shown(pre, post, r, stores),
            Move::LoosenDecisions => {
                let found = post[at]->reply->Rows_0;
                assert forall|i: int| 0 <= i < found.len() implies (#[trigger] found[i] matches Ok(
                    row,
                ) ==> !(row[0] == Datum::Text("run_id"@) && row[1] == Datum::Integer(1))) by {
                    let field = store.tables["decision_ledger"@].fields[i];
                    assert(found[i] == rule_rows(store, "decision_ledger"@)[i]);
                }
            },
            _ => {},
        }
    }
}

proof fn lemma_namespaces_are_shown(
    pre: Trace,
    post: Trace,
    r: Result<(), DbError>,
    stores: Seq<Store>,
)
    requires
        schema::staged(pre, post, Move::MakeNamespaces, r),
        store_follows(pre, post, stores),
        stage_settled(stores[0], Move::MakeNamespaces),
        settled::answered(pre, post),
    ensures
        settled::settled(pre, post, Move::MakeNamespaces),
{
    let at = pre.len() as int;
    let store = stores[0];
    lemma_first_is_asked(pre, post, Move::MakeNamespaces, r);
    assert(store_follows_step(post[at], stores[0], stores[1]));
    lemma_column_is_shown(post[at], store, "repos"@, "namespace_id"@);
    lemma_columns_query_is_query(post[at], "repos"@);
    let (mid, in_repos) = choose|mid: Trace, in_repos: Result<bool, DbError>|
        {
            &&& #[trigger] schema::column_looked_up(
                pre,
                mid,
                "repos"@,
                "namespace_id"@,
                in_repos,
            )
            &&& schema::namespaces_made_from(mid, post, in_repos, r)
        };
    if in_repos is Err {
        assert(post[at] == mid[at]);
        assert(!settled::legible(post[at]));
    }
    lemma_namespaces_extend(mid, post, in_repos->Ok_0, r);
    assert(store_follows_step(post[at + 1], stores[1], stores[2]));
    lemma_column_is_shown(post[at + 1], store, "sessions"@, "namespace_id"@);
    lemma_columns_query_is_query(post[at + 1], "sessions"@);
    assert(store_follows_step(post[at + 2], stores[2], stores[3]));
}

/// The row that tells of a foreign key.
pub proof fn lemma_key_row(store: Store, table: Seq<char>, i: int)
    requires
        has_table(store, table),
        0 <= i < store.tables[table].keys.len(),
    ensures
        key_rows(store, table).len() == store.tables[table].keys.len(),
        key_rows(store, table)[i] == Ok::<Seq<Datum>, Seq<char>>(
            seq![
                Datum::Text(store.tables[table].keys[i].table),
                Datum::Text(store.tables[table].keys[i].from),
                Datum::Text(store.tables[table].keys[i].to),
            ],
        ),
{
}

proof fn lemma_target_is_shown(
    pre: Trace,
    post: Trace,
    r: Result<(), DbError>,
    stores: Seq<Store>,
)
    requires
        schema::staged(pre, post, Move::MendConfigs, r),
        store_follows(pre, post, stores),
        stage_settled(stores[0], Move::MendConfigs),
        settled::answered(pre, post),
    ensures
        settled::settled(pre, post, Move::MendConfigs),
{
    let at = pre.len() as int;
    let store = stores[0];
    lemma_first_is_asked(pre, post, Move::MendConfigs, r);
    assert(store_follows_step(post[at], stores[0], stores[1]));
    assert(tx::asks(post[at], count_query("session_agent_configs"@)));
    assert(trace::queries(post[at], schema::SQL_TABLE_EXISTS_COUNT@));
    if has_table(store, "session_agent_configs"@) {
        let (mid, target) = choose|mid: Trace, target: Result<Option<(String, String)>, DbError>|
            {
                &&& #[trigger] schema::target_read(pre, mid, target)
                &&& schema::reset_if_stranded(mid, post, target, r)
            };
        lemma_resetting_extends(mid, post, target, r);
        let (first, there) = choose|first: Trace, there: Result<bool, DbError>|
            {
                &&& #[trigger] schema::existence_read(pre, first, "session_agent_configs"@, there)
                &&& schema::target_read_if_there(first, mid, there, target)
            };
        assert(mid.take(first.len() as int) =~= first);
        trace::lemma_step_stays(mid, post, at);
        assert(first[at] == post[at]);
        assert(there == Ok::<bool, DbError>(true));
        trace::lemma_step_stays(mid, post, at + 1);
        assert(tx::asks(post[at + 1], keys_query()));
        assert(store_follows_step(post[at + 1], stores[1], stores[2]));
        let found = post[at + 1]->reply->Rows_0;
        if settled::shows_stranded_lead(post[at + 1]) {
            let keys = store.tables["session_agent_configs"@].keys;
            let i = choose|i: int|
                {
                    &&& 0 <= i < found.len()
                    &&& settled::is_lead_row(#[trigger] found[i])
                    &&& forall|j: int| 0 <= j < i ==> !settled::is_lead_row(#[trigger] found[j])
                    &&& found[i]->Ok_0[0] == Datum::Text(schema::STRANDED_AGENTS@)
                    &&& found[i]->Ok_0[2] == Datum::Text("id"@)
                };
            lemma_key_row(store, "session_agent_configs"@, i);
            assert forall|j: int| 0 <= j < i implies (#[trigger] keys[j]).from
                != "lead_agent_id"@ by {
                lemma_key_row(store, "session_agent_configs"@, j);
                assert(!settled::is_lead_row(found[j]));
            }
            assert(is_lead_key(keys, i));
        }
    }
}

proof fn lemma_queries_keep_the_store(pre: Trace, post: Trace, stores: Seq<Store>, n: int)
    requires
        store_follows(pre, post, stores),
        0 <= n < stores.len(),
        forall|k: int| pre.len() <= k < post.len() ==> settled::is_query(#[trigger] post[k]),
    ensures
        stores[n] == stores[0],
    decreases n,
{
    if n > 0 {
        lemma_queries_keep_the_store(pre, post, stores, n - 1);
        let k = pre.len() + n - 1;
        assert(settled::is_query(post[k]));
        assert(store_follows_step(post[k], stores[k - pre.len()], stores[k - pre.len() + 1]));
    }
}

/// A stage of the set-up succeeds on a store that has what the stage is for, and leaves it as it is.
pub proof fn law_settled_stage_keeps_the_store(
    pre: Trace,
    post: Trace,
    stage: Move,
    r: Result<(), DbError>,
    stores: Seq<Store>,
)
    requires
        schema::staged(pre, post, stage, r),
        is_known(stage),
        store_follows(pre, post, stores),
        stage_settled(stores[0], stage),
    ensures
        r is Ok,
        stores.last() == stores[0],
{
    lemma_store_shows(pre, post, stage, r, stores);
    settled::law_settled_stage_is_quiet(pre, post, stage, r);
    if runs_a_statement(stage) {
        let at = pre.len() as int;
        assert(store_follows_step(post[at], stores[0], stores[1]));
        assert(settled::is_standing(post[at], stage));
        law_standing_statement_keeps_a_settled_store(post[at], stage, stores[0], stores[1]);
    } else {
        assert forall|k: int| pre.len() <= k < post.len() implies settled::is_query(
            #[trigger] post[k],
        ) by {
            assert(!settled::is_standing(post[k], stage));
        }
        lemma_queries_keep_the_store(pre, post, stores, stores.len() - 1);
    }
}

/// Whether a store does what the stages between `marks` ask of it; `histories` are, for each stage,
/// how it is before, between and after its steps.
pub open spec fn store_follows_stages(marks: Seq<Trace>, histories: Seq<Seq<Store>>) -> bool {
    &&& histories.len() == marks.len() - 1
    &&& forall|i: int|
        0 <= i < histories.len() ==> store_follows(
            marks[i],
            marks[i + 1],
            #[trigger] histories[i],
        )
    &&& forall|i: int|
        0 < i < histories.len() ==> (#[trigger] histories[i])[0] == histories[i - 1].last()
}

proof fn lemma_stages_keep_the_store(
    marks: Seq<Trace>,
    pre: Trace,
    post: Trace,
    r: Result<(), DbError>,
    histories: Seq<Seq<Store>>,
    n: int,
)
    requires
        schema::passed(marks, pre, post, schema::schema_plan(), r),
        store_follows_stages(marks, histories),
        histories.len() > 0,
        up_to_date(histories[0][0]),
        0 <= n < histories.len(),
    ensures
        histories[n][0] == histories[0][0],
        histories[n].last() == histories[0][0],
        n == marks.len() - 2 ==> r is Ok,
    decreases n,
{
    lemma_plan_is_known();
    if n > 0 {
        lemma_stages_keep_the_store(marks, pre, post, r, histories, n - 1);
    }
    let stage = schema::schema_plan()[n];
    let one = if n == marks.len() - 2 {
        r
    } else {
        Ok::<(), DbError>(())
    };
    assert(store_follows(marks[n], marks[n + 1], histories[n]));
    assert(schema::staged(marks[n], marks[n + 1], stage, one));
    assert(stage_settled(histories[0][0], stage));
    law_settled_stage_keeps_the_store(marks[n], marks[n + 1], stage, one, histories[n]);
}

/// To set up a store that is up to date succeeds, and leaves every table, every column and every row
/// as it was. `marks` are the traces before, between and after the stages, and `histories` how the
/// store is in each of them; it does what it is asked, without an error, and nobody else changes it.
pub proof fn law_setup_keeps_an_up_to_date_store(
    marks: Seq<Trace>,
    pre: Trace,
    post: Trace,
    r: Result<(), DbError>,
    histories: Seq<Seq<Store>>,
)
    requires
        schema::passed(marks, pre, post, schema::schema_plan(), r),
        store_follows_stages(marks, histories),
        up_to_date(histories[0][0]),
    ensures
        r is Ok,
        histories.len() == schema::schema_plan().len(),
        histories.last().last() == histories[0][0],
{
    assert(schema::schema_plan().len() > 0);
    lemma_stages_keep_the_store(marks, pre, post, r, histories, histories.len() - 1);
}

} // verus!
