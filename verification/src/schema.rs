//! The tables of the store: how a new database is set up, and how an old one is brought up to
//! date.
use vstd::prelude::*;

use crate::engine::{Cell, Datum, Db, DbError, Request, Trace};
use crate::rows::{
    self,
    fetch,
    find,
    int_at,
    list,
    list_readable,
    p_int,
    p_text,
    params0,
    params1,
    run,
    run_counted,
    text_at,
    FromRow,
    Kind,
    Read,
};
use crate::text::{self, contains_text, join, join3, same};
use crate::tx::{
    self,
    add_statement,
    begin,
    finish,
    no_statements,
    plain_statement,
    run_script,
    several,
    Statement,
};

verus! {

/// A column of a table, by its name.
#[derive(Debug, Clone, PartialEq)]
pub struct ColumnName {
    pub name: String,
}

impl FromRow for ColumnName {
    open spec fn reads() -> Seq<Read> {
        seq![Read { index: 1, kind: Kind::Text }]
    }

    open spec fn is_row(self, row: Seq<Datum>) -> bool {
        &&& row[0] == Datum::Text(self.name@)
    }

    fn layout() -> (reads: Vec<Read>) {
        let reads = vec![Read { index: 1, kind: Kind::Text }];
        assert(reads@ =~= Self::reads());
        reads
    }

    fn from_row(row: &Vec<Cell>) -> (v: Self) {
        proof {
            rows::lemma_cells(row@, Self::reads());
        }
        ColumnName {
            name: text_at(row, 0),
        }
    }
}

/// A column of a table, and whether it has to hold a value.
#[derive(Debug, Clone, PartialEq)]
pub struct ColumnRule {
    pub name: String,
    pub not_null: i64,
}

impl FromRow for ColumnRule {
    open spec fn reads() -> Seq<Read> {
        seq![
            Read { index: 1, kind: Kind::Text },
            Read { index: 3, kind: Kind::Int },
        ]
    }

    open spec fn is_row(self, row: Seq<Datum>) -> bool {
        &&& row[0] == Datum::Text(self.name@)
        &&& row[1] == Datum::Integer(self.not_null)
    }

    fn layout() -> (reads: Vec<Read>) {
        let reads = vec![
            Read { index: 1, kind: Kind::Text },
            Read { index: 3, kind: Kind::Int },
        ];
        assert(reads@ =~= Self::reads());
        reads
    }

    fn from_row(row: &Vec<Cell>) -> (v: Self) {
        proof {
            rows::lemma_cells(row@, Self::reads());
        }
        ColumnRule {
            name: text_at(row, 0),
            not_null: int_at(row, 1),
        }
    }
}

/// A foreign key of a table: the table and column that it refers to, and the column that does.
#[derive(Debug, Clone, PartialEq)]
pub struct ForeignKey {
    pub table: String,
    pub from: String,
    pub to: String,
}

impl FromRow for ForeignKey {
    open spec fn reads() -> Seq<Read> {
        seq![
            Read { index: 2, kind: Kind::Text },
            Read { index: 3, kind: Kind::Text },
            Read { index: 4, kind: Kind::Text },
        ]
    }

    open spec fn is_row(self, row: Seq<Datum>) -> bool {
        &&& row[0] == Datum::Text(self.table@)
        &&& row[1] == Datum::Text(self.from@)
        &&& row[2] == Datum::Text(self.to@)
    }

    fn layout() -> (reads: Vec<Read>) {
        let reads = vec![
            Read { index: 2, kind: Kind::Text },
            Read { index: 3, kind: Kind::Text },
            Read { index: 4, kind: Kind::Text },
        ];
        assert(reads@ =~= Self::reads());
        reads
    }

    fn from_row(row: &Vec<Cell>) -> (v: Self) {
        proof {
            rows::lemma_cells(row@, Self::reads());
        }
        ForeignKey {
            table: text_at(row, 0),
            from: text_at(row, 1),
            to: text_at(row, 2),
        }
    }
}

/// A column that a table has to have.
#[derive(Clone, Copy)]
pub struct Column {
    pub name: &'static str,
    pub declaration: &'static str,
}

/// The query for the columns of a table.
pub open spec fn columns_sql(table: Seq<char>) -> Seq<char> {
    "PRAGMA table_info("@ + table + ")"@
}

/// The statement that adds a column to a table.
pub open spec fn addition_sql(table: Seq<char>, column: Column) -> Seq<char> {
    "ALTER TABLE "@ + table + " ADD COLUMN "@ + column.name@ + " "@ + column.declaration@
}

/// The names of columns.
pub open spec fn names_of(columns: Seq<ColumnName>) -> Seq<Seq<char>> {
    columns.map_values(|c: ColumnName| c.name@)
}

/// The columns of a table were read.
pub open spec fn columns_read(
    pre: Trace,
    post: Trace,
    table: Seq<char>,
    r: Result<Vec<ColumnName>, DbError>,
) -> bool {
    rows::listed(pre, post, columns_sql(table), Seq::<Datum>::empty(), r)
}

fn read_columns(db: &mut Db, table: &str) -> (r: Result<Vec<ColumnName>, DbError>)
    ensures
        columns_read(old(db)@, final(db)@, table@, r),
{
    let sql = join3("PRAGMA table_info(", table, ")");
    list(db, sql.as_str(), params0())
}

fn has_column(columns: &Vec<ColumnName>, name: &str) -> (r: bool)
    ensures
        r == names_of(columns@).contains(name@),
{
    let mut i: usize = 0;
    while i < columns.len()
        invariant
            i <= columns@.len(),
            forall|k: int| 0 <= k < i ==> #[trigger] names_of(columns@)[k] != name@,
        decreases columns.len() - i,
    {
        assert(names_of(columns@)[i as int] == columns@[i as int].name@);
        if same(columns[i].name.as_str(), name) {
            return true;
        }
        i += 1;
    }
    false
}

/// The statements that add those columns to a table that it does not have.
pub open spec fn additions(
    table: Seq<char>,
    columns: Seq<Column>,
    present: Seq<Seq<char>>,
) -> Seq<Request>
    decreases columns.len(),
{
    if columns.len() == 0 {
        Seq::empty()
    } else {
        let rest = additions(table, columns.drop_last(), present);
        if present.contains(columns.last().name@) {
            rest
        } else {
            rest.push(tx::plain(addition_sql(table, columns.last())))
        }
    }
}

/// A table that has all its columns is left as it is.
pub proof fn law_present_columns_stay(
    table: Seq<char>,
    columns: Seq<Column>,
    present: Seq<Seq<char>>,
)
    requires
        forall|i: int| 0 <= i < columns.len() ==> present.contains(#[trigger] columns[i].name@),
    ensures
        additions(table, columns, present) == Seq::<Request>::empty(),
    decreases columns.len(),
{
    if columns.len() > 0 {
        assert(columns.last() == columns[columns.len() - 1]);
        assert forall|i: int| 0 <= i < columns.drop_last().len() implies present.contains(
            #[trigger] columns.drop_last()[i].name@,
        ) by {
            assert(columns.drop_last()[i] == columns[i]);
        }
        law_present_columns_stay(table, columns.drop_last(), present);
    }
}

/// The columns that a table lacks were added, given those that it has.
pub open spec fn columns_completed(
    mid: Trace,
    post: Trace,
    table: Seq<char>,
    columns: Seq<Column>,
    got: Result<Vec<ColumnName>, DbError>,
    r: Result<(), DbError>,
) -> bool {
    match got {
        Ok(present) => tx::scripted(
            mid,
            post,
            additions(table, columns, names_of(present@)),
            r,
        ),
        Err(e) => post == mid && r == Err::<(), DbError>(e),
    }
}

/// The columns of a table were read, and those that it lacks added.
pub open spec fn columns_added(
    pre: Trace,
    post: Trace,
    table: Seq<char>,
    columns: Seq<Column>,
    r: Result<(), DbError>,
) -> bool {
    exists|mid: Trace, got: Result<Vec<ColumnName>, DbError>|
        {
            &&& #[trigger] columns_read(pre, mid, table, got)
            &&& columns_completed(mid, post, table, columns, got, r)
        }
}

/// Those columns of a table were read whose names can be read.
pub open spec fn readable_columns_read(
    pre: Trace,
    post: Trace,
    table: Seq<char>,
    r: Result<Vec<ColumnName>, DbError>,
) -> bool {
    rows::listed_readable(pre, post, columns_sql(table), Seq::<Datum>::empty(), r)
}

/// The columns of a table were read, those whose names cannot be read passed over, and those that
/// it lacks added.
pub open spec fn columns_added_leniently(
    pre: Trace,
    post: Trace,
    table: Seq<char>,
    columns: Seq<Column>,
    r: Result<(), DbError>,
) -> bool {
    exists|mid: Trace, got: Result<Vec<ColumnName>, DbError>|
        {
            &&& #[trigger] readable_columns_read(pre, mid, table, got)
            &&& columns_completed(mid, post, table, columns, got, r)
        }
}

fn add_missing(
    db: &mut Db,
    table: &str,
    columns: &Vec<Column>,
    present: &Vec<ColumnName>,
) -> (r: Result<(), DbError>)
    ensures
        tx::scripted(
            old(db)@,
            final(db)@,
            additions(table@, columns@, names_of(present@)),
            r,
        ),
{
    let mut script = no_statements();
    let mut i: usize = 0;
    while i < columns.len()
        invariant
            i <= columns@.len(),
            tx::requests(script@) == additions(
                table@,
                columns@.take(i as int),
                names_of(present@),
            ),
        decreases columns.len() - i,
    {
        let column = columns[i];
        assert(columns@.take(i + 1).drop_last() =~= columns@.take(i as int));
        if !has_column(present, column.name) {
            let head = join3("ALTER TABLE ", table, " ADD COLUMN ");
            let tail = join3(column.name, " ", column.declaration);
            let sql = head.concat(tail.as_str());
            assert(sql@ =~= addition_sql(table@, column));
            add_statement(&mut script, plain_statement(sql.as_str()));
        }
        i += 1;
    }
    assert(columns@.take(i as int) =~= columns@);
    run_script(db, script)
}

fn add_columns(db: &mut Db, table: &str, columns: &Vec<Column>) -> (r: Result<(), DbError>)
    ensures
        columns_added(old(db)@, final(db)@, table@, columns@, r),
{
    let got = read_columns(db, table);
    assert(columns_read(old(db)@, db@, table@, got));
    match got {
        Ok(present) => add_missing(db, table, columns, &present),
        Err(e) => Err(e),
    }
}

fn add_columns_leniently(db: &mut Db, table: &str, columns: &Vec<Column>) -> (r: Result<
    (),
    DbError,
>)
    ensures
        columns_added_leniently(old(db)@, final(db)@, table@, columns@, r),
{
    let sql = join3("PRAGMA table_info(", table, ")");
    let got: Result<Vec<ColumnName>, DbError> = list_readable(db, sql.as_str(), params0());
    assert(readable_columns_read(old(db)@, db@, table@, got));
    match got {
        Ok(present) => add_missing(db, table, columns, &present),
        Err(e) => Err(e),
    }
}

pub const SQL_FOREIGN_KEYS: &'static str = "PRAGMA foreign_keys";

pub const SQL_FOREIGN_KEYS_OFF: &'static str = "PRAGMA foreign_keys = OFF;";

pub const SQL_FOREIGN_KEYS_ON: &'static str = "PRAGMA foreign_keys = ON;";

/// Whether foreign keys are enforced was read.
pub open spec fn enforcement_read(pre: Trace, post: Trace, r: Result<i64, DbError>) -> bool {
    rows::fetched(pre, post, SQL_FOREIGN_KEYS@, Seq::<Datum>::empty(), r)
}

fn read_enforcement(db: &mut Db) -> (r: Result<i64, DbError>)
    ensures
        enforcement_read(old(db)@, final(db)@, r),
{
    fetch(db, SQL_FOREIGN_KEYS, params0())
}

/// A script with foreign keys switched off before it and on again after it, as asked.
pub open spec fn unenforced(off: bool, body: Seq<Request>, on: bool) -> Seq<Request> {
    (if off {
        seq![Request::Batch { sql: SQL_FOREIGN_KEYS_OFF@ }]
    } else {
        Seq::empty()
    }) + body + (if on {
        seq![Request::Batch { sql: SQL_FOREIGN_KEYS_ON@ }]
    } else {
        Seq::empty()
    })
}

fn run_unenforced(db: &mut Db, off: bool, mut body: Vec<Statement>, on: bool) -> (r: Result<
    (),
    DbError,
>)
    ensures
        tx::scripted(old(db)@, final(db)@, unenforced(off, tx::requests(body@), on), r),
{
    let ghost wanted = unenforced(off, tx::requests(body@), on);
    let mut script = no_statements();
    if off {
        add_statement(&mut script, several(SQL_FOREIGN_KEYS_OFF));
    }
    let ghost head = tx::requests(script@);
    let ghost inner = tx::requests(body@);
    script.append(&mut body);
    assert(tx::requests(script@) =~= head + inner);
    if on {
        add_statement(&mut script, several(SQL_FOREIGN_KEYS_ON));
    }
    assert(tx::requests(script@) =~= wanted);
    run_script(db, script)
}

/// Foreign keys switched off for a script are switched on again by its last statement.
pub proof fn law_enforcement_is_restored(body: Seq<Request>)
    ensures
        unenforced(true, body, true).first() == (Request::Batch { sql: SQL_FOREIGN_KEYS_OFF@ }),
        unenforced(true, body, true).last() == (Request::Batch { sql: SQL_FOREIGN_KEYS_ON@ }),
        unenforced(false, body, false) == body,
{
    assert(unenforced(false, body, false) =~= body);
}

pub const SQL_TABLE_EXISTS_COUNT: &'static str = "SELECT count(*) FROM sqlite_master WHERE type = 'table' AND name = ?1";

/// The tables of a name were counted.
pub open spec fn tables_counted(
    pre: Trace,
    post: Trace,
    table_name: Seq<char>,
    r: Result<i64, DbError>,
) -> bool {
    rows::fetched(pre, post, SQL_TABLE_EXISTS_COUNT@, seq![Datum::Text(table_name)], r)
}

fn table_exists_count(db: &mut Db, table_name: &str) -> (r: Result<i64, DbError>)
    ensures
        tables_counted(old(db)@, final(db)@, table_name@, r),
{
    fetch(db, SQL_TABLE_EXISTS_COUNT, params1(p_text(table_name)))
}

/// Whether a table exists was asked.
pub open spec fn existence_read(
    pre: Trace,
    post: Trace,
    table_name: Seq<char>,
    r: Result<bool, DbError>,
) -> bool {
    exists|got: Result<i64, DbError>|
        #[trigger] tables_counted(pre, post, table_name, got) && r == match got {
            Ok(n) => Ok::<bool, DbError>(n > 0),
            Err(e) => Err(e),
        }
}

/// Whether a table exists.
pub fn table_exists(db: &mut Db, table_name: &str) -> (r: Result<bool, DbError>)
    ensures
        existence_read(old(db)@, final(db)@, table_name@, r),
{
    match table_exists_count(db, table_name) {
        Ok(n) => Ok(n > 0),
        Err(e) => Err(e),
    }
}

/// Whether a table has a column was asked.
pub open spec fn column_looked_up(
    pre: Trace,
    post: Trace,
    table_name: Seq<char>,
    column: Seq<char>,
    r: Result<bool, DbError>,
) -> bool {
    exists|got: Result<Vec<ColumnName>, DbError>|
        #[trigger] columns_read(pre, post, table_name, got) && r == match got {
            Ok(present) => Ok::<bool, DbError>(names_of(present@).contains(column)),
            Err(e) => Err(e),
        }
}

/// Whether a table has a column.
pub fn table_has_column(db: &mut Db, table_name: &str, column: &str) -> (r: Result<bool, DbError>)
    ensures
        column_looked_up(old(db)@, final(db)@, table_name@, column@, r),
{
    match read_columns(db, table_name) {
        Ok(present) => Ok(has_column(&present, column)),
        Err(e) => Err(e),
    }
}

pub const LEAD_KEYS_SQL: &'static str = "PRAGMA foreign_key_list(session_agent_configs)";

/// The foreign keys of the agents' configuration were read.
pub open spec fn keys_read(pre: Trace, post: Trace, r: Result<Vec<ForeignKey>, DbError>) -> bool {
    rows::listed(pre, post, LEAD_KEYS_SQL@, Seq::<Datum>::empty(), r)
}

/// What the first of the foreign keys that starts from `lead_agent_id` refers to.
pub open spec fn lead_target(keys: Seq<ForeignKey>) -> Option<(Seq<char>, Seq<char>)>
    decreases keys.len(),
{
    if keys.len() == 0 {
        None
    } else if keys[0].from@ == "lead_agent_id"@ {
        Some((keys[0].table@, keys[0].to@))
    } else {
        lead_target(keys.drop_first())
    }
}

fn find_lead_target(keys: &Vec<ForeignKey>) -> (r: Option<(String, String)>)
    ensures
        match lead_target(keys@) {
            Some((table, to)) => r matches Some((t, c)) && t@ == table && c@ == to,
            None => r is None,
        },
{
    let mut i: usize = 0;
    assert(keys@.skip(0) =~= keys@);
    while i < keys.len()
        invariant
            i <= keys@.len(),
            lead_target(keys@) == lead_target(keys@.skip(i as int)),
        decreases keys.len() - i,
    {
        assert(keys@.skip(i as int)[0] == keys@[i as int]);
        assert(keys@.skip(i as int).drop_first() =~= keys@.skip(i + 1));
        if same(keys[i].from.as_str(), "lead_agent_id") {
            return Some((keys[i].table.clone(), keys[i].to.clone()));
        }
        i += 1;
    }
    None
}

/// Whether a result is the target of the lead's foreign key.
pub open spec fn is_target(
    target: Option<(Seq<char>, Seq<char>)>,
    r: Option<(String, String)>,
) -> bool {
    match target {
        Some((table, to)) => r matches Some((t, c)) && t@ == table && c@ == to,
        None => r is None,
    }
}

/// The target of the lead's foreign key is that of the keys that were read.
pub open spec fn target_taken(
    got: Result<Vec<ForeignKey>, DbError>,
    r: Result<Option<(String, String)>, DbError>,
) -> bool {
    match got {
        Ok(keys) => r matches Ok(found) && is_target(
            lead_target(keys@),
            found,
        ),
        Err(e) => r == Err::<Option<(String, String)>, DbError>(e),
    }
}

/// The target of the lead's foreign key was looked up, where the table exists.
pub open spec fn target_read_if_there(
    mid: Trace,
    post: Trace,
    there: Result<bool, DbError>,
    r: Result<Option<(String, String)>, DbError>,
) -> bool {
    match there {
        Ok(true) => exists|got: Result<Vec<ForeignKey>, DbError>|
            {
                &&& #[trigger] keys_read(mid, post, got)
                &&& target_taken(got, r)
            },
        Ok(false) => post == mid && r == Ok::<Option<(String, String)>, DbError>(None),
        Err(e) => post == mid && r == Err::<Option<(String, String)>, DbError>(e),
    }
}

/// The target of the lead's foreign key was looked up, where the table exists.
pub open spec fn target_read(
    pre: Trace,
    post: Trace,
    r: Result<Option<(String, String)>, DbError>,
) -> bool {
    exists|mid: Trace, there: Result<bool, DbError>|
        {
            &&& #[trigger] existence_read(pre, mid, "session_agent_configs"@, there)
            &&& target_read_if_there(mid, post, there, r)
        }
}

/// The table and column that the lead of a session's configuration refers to.
pub fn session_agent_configs_lead_fk_target(db: &mut Db) -> (r: Result<
    Option<(String, String)>,
    DbError,
>)
    ensures
        target_read(old(db)@, final(db)@, r),
{
    let there = table_exists(db, "session_agent_configs");
    let ghost mid = db@;
    assert(existence_read(old(db)@, mid, "session_agent_configs"@, there));
    match there {
        Ok(true) => {},
        Ok(false) => return Ok(None),
        Err(e) => return Err(e),
    }
    let got: Result<Vec<ForeignKey>, DbError> = list(db, LEAD_KEYS_SQL, params0());
    assert(keys_read(mid, db@, got));
    match got {
        Ok(keys) => Ok(find_lead_target(&keys)),
        Err(e) => Err(e),
    }
}

pub const SQL_RESET_SESSION_AGENT_CONFIGS: &'static str = r#"
        DROP TABLE IF EXISTS session_agent_configs;
        CREATE TABLE session_agent_configs (
            session_id TEXT PRIMARY KEY REFERENCES sessions(id) ON DELETE CASCADE,
            lead_agent_id TEXT REFERENCES agents(id) ON DELETE SET NULL,
            member_agent_ids TEXT NOT NULL DEFAULT '[]' CHECK (json_valid(member_agent_ids))
        );
        "#;

/// Foreign keys were switched on after a list of statements, where asked.
pub open spec fn switched_on_after(
    mid: Trace,
    post: Trace,
    on: bool,
    done: Result<(), DbError>,
    r: Result<(), DbError>,
) -> bool {
    if on {
        exists|switched: Result<(), DbError>|
            {
                &&& #[trigger] tx::batched(mid, post, SQL_FOREIGN_KEYS_ON@, switched)
                &&& r == match switched {
                    Ok(()) => done,
                    Err(e) => Err(e),
                }
            }
    } else {
        post == mid && r == done
    }
}

/// A list of statements was run and then, where asked, foreign keys switched on; an error of the
/// switch goes before one of the list.
pub open spec fn batch_switched_on(
    pre: Trace,
    post: Trace,
    sql: Seq<char>,
    on: bool,
    r: Result<(), DbError>,
) -> bool {
    exists|mid: Trace, done: Result<(), DbError>|
        {
            &&& #[trigger] tx::batched(pre, mid, sql, done)
            &&& switched_on_after(mid, post, on, done, r)
        }
}

/// The configuration was made anew, where foreign keys could be switched off.
pub open spec fn configs_reset_when_off(
    off: Trace,
    post: Trace,
    switched: Result<(), DbError>,
    r: Result<(), DbError>,
) -> bool {
    match switched {
        Ok(()) => batch_switched_on(
            off,
            post,
            SQL_RESET_SESSION_AGENT_CONFIGS@,
            true,
            r,
        ),
        Err(e) => post == off && r == switched,
    }
}

/// The configuration was made anew with foreign keys off, given whether they are enforced.
pub open spec fn configs_reset_as_found(
    mid: Trace,
    post: Trace,
    on: Result<i64, DbError>,
    r: Result<(), DbError>,
) -> bool {
    match on {
        Ok(0) => batch_switched_on(
            mid,
            post,
            SQL_RESET_SESSION_AGENT_CONFIGS@,
            false,
            r,
        ),
        Ok(_) => exists|off: Trace, switched: Result<(), DbError>|
            {
                &&& #[trigger] tx::batched(mid, off, SQL_FOREIGN_KEYS_OFF@, switched)
                &&& configs_reset_when_off(off, post, switched, r)
            },
        Err(e) => post == mid && r == Err::<(), DbError>(e),
    }
}

/// The agents' configuration was made anew, with foreign keys off.
pub open spec fn configs_reset(pre: Trace, post: Trace, r: Result<(), DbError>) -> bool {
    exists|mid: Trace, on: Result<i64, DbError>|
        {
            &&& #[trigger] enforcement_read(pre, mid, on)
            &&& configs_reset_as_found(mid, post, on, r)
        }
}

fn run_batch(db: &mut Db, sql: &str) -> (r: Result<(), DbError>)
    ensures
        tx::batched(old(db)@, final(db)@, sql@, r),
{
    db.batch(sql)
}

fn run_batch_and_switch_on(db: &mut Db, sql: &str, on: bool) -> (r: Result<(), DbError>)
    ensures
        batch_switched_on(old(db)@, final(db)@, sql@, on, r),
{
    let done = run_batch(db, sql);
    if on {
        let ghost mid = db@;
        let switched = run_batch(db, SQL_FOREIGN_KEYS_ON);
        assert(tx::batched(mid, db@, SQL_FOREIGN_KEYS_ON@, switched));
        match switched {
            Ok(()) => {},
            Err(e) => return Err(e),
        }
    }
    done
}

fn reset_configs(db: &mut Db) -> (r: Result<(), DbError>)
    ensures
        configs_reset(old(db)@, final(db)@, r),
{
    let on = match read_enforcement(db) {
        Ok(on) => on,
        Err(e) => return Err(e),
    };
    if on == 0 {
        return run_batch_and_switch_on(db, SQL_RESET_SESSION_AGENT_CONFIGS, false);
    }
    match run_batch(db, SQL_FOREIGN_KEYS_OFF) {
        Ok(()) => {},
        Err(e) => return Err(e),
    }
    run_batch_and_switch_on(db, SQL_RESET_SESSION_AGENT_CONFIGS, true)
}

/// Whether the lead's foreign key refers to the table that a broken upgrade leaves behind.
pub open spec fn stranded_target(target: Option<(String, String)>) -> bool {
    target matches Some((table, column)) && table@ == "agents_old_reasoning_check"@ && column@
        == "id"@
}

/// The configuration was made anew where its target is the table that a broken upgrade leaves
/// behind.
pub open spec fn reset_if_stranded(
    mid: Trace,
    post: Trace,
    target: Result<Option<(String, String)>, DbError>,
    r: Result<(), DbError>,
) -> bool {
    match target {
        Ok(t) => if stranded_target(t) {
            configs_reset(mid, post, r)
        } else {
            post == mid && r == Ok::<(), DbError>(())
        },
        Err(e) => post == mid && r == Err::<(), DbError>(e),
    }
}

/// The target of the lead's foreign key was looked up, and the configuration made anew where it is
/// the table that a broken upgrade leaves behind.
pub open spec fn bad_target_reset(pre: Trace, post: Trace, r: Result<(), DbError>) -> bool {
    exists|mid: Trace, target: Result<Option<(String, String)>, DbError>|
        {
            &&& #[trigger] target_read(pre, mid, target)
            &&& reset_if_stranded(mid, post, target, r)
        }
}

/// Makes the agents' configuration anew where its lead refers to the table that a broken upgrade
/// leaves behind; any other configuration stays.
pub fn reset_session_agent_configs_if_bad_fk(db: &mut Db) -> (r: Result<(), DbError>)
    ensures
        bad_target_reset(old(db)@, final(db)@, r),
{
    let target = session_agent_configs_lead_fk_target(db);
    assert(target_read(old(db)@, db@, target));
    match target {
        Ok(Some((table, column))) => {
            if same(table.as_str(), "agents_old_reasoning_check") && same(column.as_str(), "id") {
                reset_configs(db)
            } else {
                Ok(())
            }
        },
        Ok(None) => Ok(()),
        Err(e) => Err(e),
    }
}

pub const SQL_RECOVER_AGENTS: &'static str = r#"
        INSERT OR IGNORE INTO agents (
            id, name, access, provider, primary_model, endpoint, auth_mode,
            model_opus, model_sonnet, model_haiku, model_subagent,
            reasoning_default, max_output_tokens, api_timeout_ms,
            compat_disable_betas, compat_disable_nonessential,
            compat_disable_thinking, compat_proxy, custom_headers, extra_body,
            cap_reasoning, cap_computer_use, cap_lead, has_key, is_builtin,
            enabled, sort_order, created_at, updated_at
        )
        SELECT
            id, name,
            CASE WHEN access IN ('native', 'harness') THEN access ELSE 'borrow' END,
            provider, primary_model, endpoint,
            CASE WHEN auth_mode IN ('bearer', 'x_api_key') THEN auth_mode ELSE NULL END,
            model_opus, model_sonnet, model_haiku, model_subagent,
            reasoning_default, max_output_tokens, api_timeout_ms,
            compat_disable_betas, compat_disable_nonessential,
            compat_disable_thinking, compat_proxy, custom_headers, extra_body,
            cap_reasoning, cap_computer_use, cap_lead, has_key, is_builtin,
            enabled, sort_order, created_at, updated_at
        FROM agents_old_reasoning_check;
        DROP TABLE agents_old_reasoning_check;
        "#;

pub const STRANDED_AGENTS: &'static str = "agents_old_reasoning_check";

pub const SQL_STRANDED_CAP_LEAD: &'static str = "ALTER TABLE agents_old_reasoning_check ADD COLUMN cap_lead TEXT";

/// The statements that move stranded agents back.
pub open spec fn recovery(has_cap_lead: bool) -> Seq<Request> {
    (if has_cap_lead {
        Seq::empty()
    } else {
        seq![tx::plain(SQL_STRANDED_CAP_LEAD@)]
    }).push(Request::Batch { sql: SQL_RECOVER_AGENTS@ })
}

/// Stranded agents were moved back, given whether their table says what they may lead.
pub open spec fn agents_moved_back(
    looked: Trace,
    post: Trace,
    has: Result<bool, DbError>,
    r: Result<(), DbError>,
) -> bool {
    match has {
        Ok(has_it) => tx::scripted(looked, post, recovery(has_it), r),
        Err(e) => post == looked && r == Err::<(), DbError>(e),
    }
}

/// Stranded agents were moved back, where there are any.
pub open spec fn agents_recovered_if_there(
    mid: Trace,
    post: Trace,
    there: Result<bool, DbError>,
    r: Result<(), DbError>,
) -> bool {
    match there {
        Ok(false) => post == mid && r == Ok::<(), DbError>(()),
        Ok(true) => exists|looked: Trace, has: Result<bool, DbError>|
            {
                &&& #[trigger] column_looked_up(
                    mid,
                    looked,
                    STRANDED_AGENTS@,
                    "cap_lead"@,
                    has,
                )
                &&& agents_moved_back(looked, post, has, r)
            },
        Err(e) => post == mid && r == Err::<(), DbError>(e),
    }
}

/// Stranded agents, where there are any, were moved back.
pub open spec fn agents_recovered(pre: Trace, post: Trace, r: Result<(), DbError>) -> bool {
    exists|mid: Trace, there: Result<bool, DbError>|
        {
            &&& #[trigger] existence_read(pre, mid, STRANDED_AGENTS@, there)
            &&& agents_recovered_if_there(mid, post, there, r)
        }
}

/// Moves the agents back that a broken upgrade left in a table of its own, and drops that table.
/// An agent that is there already stays.
pub fn recover_agents_old_reasoning_check(db: &mut Db) -> (r: Result<(), DbError>)
    ensures
        agents_recovered(old(db)@, final(db)@, r),
{
    let there = table_exists(db, STRANDED_AGENTS);
    let ghost mid = db@;
    assert(existence_read(old(db)@, mid, STRANDED_AGENTS@, there));
    match there {
        Ok(true) => {},
        Ok(false) => return Ok(()),
        Err(e) => return Err(e),
    }
    let has = table_has_column(db, STRANDED_AGENTS, "cap_lead");
    assert(column_looked_up(mid, db@, STRANDED_AGENTS@, "cap_lead"@, has));
    let has_it = match has {
        Ok(has_it) => has_it,
        Err(e) => return Err(e),
    };
    let mut script = no_statements();
    if !has_it {
        add_statement(&mut script, plain_statement(SQL_STRANDED_CAP_LEAD));
    }
    add_statement(&mut script, several(SQL_RECOVER_AGENTS));
    assert(tx::requests(script@) =~= recovery(has_it));
    run_script(db, script)
}

pub const SQL_AGENTS_TABLE: &'static str = "SELECT sql FROM sqlite_master WHERE type='table' AND name='agents'";

pub const SQL_REBUILD_AGENTS_HEAD: &'static str = "DROP TABLE IF EXISTS agents_new;
        CREATE TABLE agents_new (
            id TEXT NOT NULL PRIMARY KEY,
            name TEXT NOT NULL,
            access TEXT NOT NULL
                ";

pub const SQL_REBUILD_AGENTS_ACCESS: &'static str = "CHECK (access IN ('native', 'borrow', 'harness'))";

pub const SQL_REBUILD_AGENTS_REST: &'static str = ",
            provider TEXT NOT NULL,
            primary_model TEXT,
            endpoint TEXT,
            auth_mode TEXT
                CHECK (auth_mode IS NULL OR auth_mode IN ('bearer', 'x_api_key')),
            model_opus TEXT,
            model_sonnet TEXT,
            model_haiku TEXT,
            model_subagent TEXT,
            reasoning_default TEXT NOT NULL DEFAULT 'auto'
                CHECK (reasoning_default IN ('auto', 'none', 'minimal', 'low', 'medium', 'high', 'xhigh', 'max')),
            max_output_tokens INTEGER,
            api_timeout_ms INTEGER,
            compat_disable_betas INTEGER NOT NULL DEFAULT 0,
            compat_disable_nonessential INTEGER NOT NULL DEFAULT 0,
            compat_disable_thinking INTEGER NOT NULL DEFAULT 0,
            compat_proxy TEXT,
            custom_headers TEXT,
            extra_body TEXT,
            cap_reasoning TEXT,
            cap_computer_use TEXT,
            cap_lead TEXT,
            has_key INTEGER NOT NULL DEFAULT 0,
            is_builtin INTEGER NOT NULL DEFAULT 0,
            enabled INTEGER NOT NULL DEFAULT 1,
            sort_order INTEGER NOT NULL DEFAULT 0,
            created_at INTEGER NOT NULL,
            updated_at INTEGER NOT NULL
        );
        INSERT INTO agents_new (id, name, access, provider, primary_model, endpoint, auth_mode, model_opus, model_sonnet, \
     model_haiku, model_subagent, reasoning_default, max_output_tokens, api_timeout_ms, \
     compat_disable_betas, compat_disable_nonessential, compat_disable_thinking, compat_proxy, \
     custom_headers, extra_body, cap_reasoning, cap_computer_use, cap_lead, has_key, is_builtin, \
     enabled, sort_order, created_at, updated_at) SELECT ";

pub const SQL_REBUILD_AGENTS_TAIL: &'static str = " FROM agents;
        DROP TABLE agents;
        ALTER TABLE agents_new RENAME TO agents;";

/// What an upgraded agent's column is taken from: one expression where the old table has the
/// column, another where it has not.
#[derive(Clone, Copy)]
pub struct Choice {
    pub column: &'static str,
    pub present: &'static str,
    pub absent: &'static str,
}

/// The choices for the columns up to the models.
pub open spec fn identity_choices() -> Seq<Choice> {
    seq![
        Choice {
            column: "id",
            present: "id",
            absent: "''",
        },
        Choice {
            column: "name",
            present: "name",
            absent: "id",
        },
        Choice {
            column: "access",
            present: "CASE WHEN access IN ('native', 'harness') THEN access ELSE 'borrow' END",
            absent: "'borrow'",
        },
        Choice {
            column: "provider",
            present: "provider",
            absent: "'deepseek'",
        },
        Choice {
            column: "primary_model",
            present: "primary_model",
            absent: "NULL",
        },
        Choice {
            column: "endpoint",
            present: "endpoint",
            absent: "NULL",
        },
        Choice {
            column: "auth_mode",
            present: "CASE WHEN auth_mode IN ('bearer', 'x_api_key') THEN auth_mode ELSE NULL END",
            absent: "NULL",
        },
        Choice {
            column: "model_opus",
            present: "model_opus",
            absent: "NULL",
        },
        Choice {
            column: "model_sonnet",
            present: "model_sonnet",
            absent: "NULL",
        },
        Choice {
            column: "model_haiku",
            present: "model_haiku",
            absent: "NULL",
        },
    ]
}

fn push_identity_choices(choices: &mut Vec<Choice>)
    ensures
        final(choices)@ == old(choices)@ + identity_choices(),
{
    let ghost was = choices@;
    choices.push(Choice { column: "id", present: "id", absent: "''" });
    choices.push(Choice { column: "name", present: "name", absent: "id" });
    choices.push(
        Choice {
            column: "access",
            present: "CASE WHEN access IN ('native', 'harness') THEN access ELSE 'borrow' END",
            absent: "'borrow'",
        },
    );
    choices.push(Choice { column: "provider", present: "provider", absent: "'deepseek'" });
    choices.push(Choice { column: "primary_model", present: "primary_model", absent: "NULL" });
    choices.push(Choice { column: "endpoint", present: "endpoint", absent: "NULL" });
    choices.push(
        Choice {
            column: "auth_mode",
            present: "CASE WHEN auth_mode IN ('bearer', 'x_api_key') THEN auth_mode ELSE NULL END",
            absent: "NULL",
        },
    );
    choices.push(Choice { column: "model_opus", present: "model_opus", absent: "NULL" });
    choices.push(Choice { column: "model_sonnet", present: "model_sonnet", absent: "NULL" });
    choices.push(Choice { column: "model_haiku", present: "model_haiku", absent: "NULL" });
    assert(choices@ =~= was + identity_choices());
}

/// The choices for the columns from the models to the compatibility ones.
pub open spec fn limits_choices() -> Seq<Choice> {
    seq![
        Choice {
            column: "model_subagent",
            present: "model_subagent",
            absent: "NULL",
        },
        Choice {
            column: "reasoning_default",
            present: "CASE WHEN reasoning_default IN ('auto', 'none', 'minimal', 'low', 'medium', 'high', 'xhigh', 'max') THEN reasoning_default ELSE 'auto' END",
            absent: "'auto'",
        },
        Choice {
            column: "max_output_tokens",
            present: "max_output_tokens",
            absent: "NULL",
        },
        Choice {
            column: "api_timeout_ms",
            present: "api_timeout_ms",
            absent: "NULL",
        },
        Choice {
            column: "compat_disable_betas",
            present: "compat_disable_betas",
            absent: "0",
        },
        Choice {
            column: "compat_disable_nonessential",
            present: "compat_disable_nonessential",
            absent: "0",
        },
        Choice {
            column: "compat_disable_thinking",
            present: "compat_disable_thinking",
            absent: "0",
        },
        Choice {
            column: "compat_proxy",
            present: "compat_proxy",
            absent: "NULL",
        },
        Choice {
            column: "custom_headers",
            present: "custom_headers",
            absent: "NULL",
        },
        Choice {
            column: "extra_body",
            present: "extra_body",
            absent: "NULL",
        },
    ]
}

fn push_limits_choices(choices: &mut Vec<Choice>)
    ensures
        final(choices)@ == old(choices)@ + limits_choices(),
{
    let ghost was = choices@;
    choices.push(Choice { column: "model_subagent", present: "model_subagent", absent: "NULL" });
    choices.push(
        Choice {
            column: "reasoning_default",
            present: "CASE WHEN reasoning_default IN ('auto', 'none', 'minimal', 'low', 'medium', 'high', 'xhigh', 'max') THEN reasoning_default ELSE 'auto' END",
            absent: "'auto'",
        },
    );
    choices.push(
        Choice { column: "max_output_tokens", present: "max_output_tokens", absent: "NULL" },
    );
    choices.push(Choice { column: "api_timeout_ms", present: "api_timeout_ms", absent: "NULL" });
    choices.push(
        Choice { column: "compat_disable_betas", present: "compat_disable_betas", absent: "0" },
    );
    choices.push(
        Choice {
            column: "compat_disable_nonessential",
            present: "compat_disable_nonessential",
            absent: "0",
        },
    );
    choices.push(
        Choice {
            column: "compat_disable_thinking",
            present: "compat_disable_thinking",
            absent: "0",
        },
    );
    choices.push(Choice { column: "compat_proxy", present: "compat_proxy", absent: "NULL" });
    choices.push(Choice { column: "custom_headers", present: "custom_headers", absent: "NULL" });
    choices.push(Choice { column: "extra_body", present: "extra_body", absent: "NULL" });
    assert(choices@ =~= was + limits_choices());
}

/// The choices for the remaining columns.
pub open spec fn marks_choices() -> Seq<Choice> {
    seq![
        Choice {
            column: "cap_reasoning",
            present: "cap_reasoning",
            absent: "NULL",
        },
        Choice {
            column: "cap_computer_use",
            present: "cap_computer_use",
            absent: "NULL",
        },
        Choice {
            column: "cap_lead",
            present: "cap_lead",
            absent: "NULL",
        },
        Choice {
            column: "has_key",
            present: "has_key",
            absent: "0",
        },
        Choice {
            column: "is_builtin",
            present: "is_builtin",
            absent: "0",
        },
        Choice {
            column: "enabled",
            present: "enabled",
            absent: "1",
        },
        Choice {
            column: "sort_order",
            present: "sort_order",
            absent: "0",
        },
        Choice {
            column: "created_at",
            present: "created_at",
            absent: "0",
        },
        Choice {
            column: "updated_at",
            present: "updated_at",
            absent: "0",
        },
    ]
}

fn push_marks_choices(choices: &mut Vec<Choice>)
    ensures
        final(choices)@ == old(choices)@ + marks_choices(),
{
    let ghost was = choices@;
    choices.push(Choice { column: "cap_reasoning", present: "cap_reasoning", absent: "NULL" });
    choices.push(
        Choice { column: "cap_computer_use", present: "cap_computer_use", absent: "NULL" },
    );
    choices.push(Choice { column: "cap_lead", present: "cap_lead", absent: "NULL" });
    choices.push(Choice { column: "has_key", present: "has_key", absent: "0" });
    choices.push(Choice { column: "is_builtin", present: "is_builtin", absent: "0" });
    choices.push(Choice { column: "enabled", present: "enabled", absent: "1" });
    choices.push(Choice { column: "sort_order", present: "sort_order", absent: "0" });
    choices.push(Choice { column: "created_at", present: "created_at", absent: "0" });
    choices.push(Choice { column: "updated_at", present: "updated_at", absent: "0" });
    assert(choices@ =~= was + marks_choices());
}

/// What the columns of an upgraded agent are taken from, in their order.
pub open spec fn agent_choices() -> Seq<Choice> {
    identity_choices() + limits_choices() + marks_choices()
}

/// The expression that a choice comes down to, given the columns of the old table.
pub open spec fn chosen(choice: Choice, present: Seq<Seq<char>>) -> Seq<char> {
    if present.contains(choice.column@) {
        choice.present@
    } else {
        choice.absent@
    }
}

/// The statements that rebuild the agents' table, given the columns that it has.
pub open spec fn rebuild_sql(present: Seq<Seq<char>>) -> Seq<char> {
    SQL_REBUILD_AGENTS_HEAD@ + SQL_REBUILD_AGENTS_ACCESS@ + SQL_REBUILD_AGENTS_REST@ + text::joined(
        agent_choices().map_values(|c: Choice| chosen(c, present)),
        ", "@,
    ) + SQL_REBUILD_AGENTS_TAIL@
}

fn rebuild_statement(columns: &Vec<ColumnName>) -> (sql: String)
    ensures
        sql@ == rebuild_sql(names_of(columns@)),
{
    let mut choices: Vec<Choice> = Vec::new();
    push_identity_choices(&mut choices);
    push_limits_choices(&mut choices);
    push_marks_choices(&mut choices);
    assert(choices@ =~= agent_choices());
    let ghost present = names_of(columns@);
    let ghost wanted = agent_choices().map_values(|c: Choice| chosen(c, present));
    let mut parts: Vec<String> = Vec::new();
    let mut i: usize = 0;
    while i < choices.len()
        invariant
            choices@ == agent_choices(),
            present == names_of(columns@),
            wanted == agent_choices().map_values(|c: Choice| chosen(c, present)),
            i <= choices@.len(),
            text::texts(parts@) =~= wanted.take(i as int),
        decreases choices.len() - i,
    {
        let choice = choices[i];
        let ghost was = parts@;
        let part = if has_column(columns, choice.column) {
            choice.present
        } else {
            choice.absent
        };
        assert(part@ == chosen(choice, present));
        parts.push(part.to_string());
        assert(text::texts(parts@) =~= text::texts(was).push(part@));
        assert(wanted.take(i + 1) =~= wanted.take(i as int).push(wanted[i as int]));
        i += 1;
    }
    assert(text::texts(parts@) =~= wanted);
    let selected = join(&parts, ", ");
    join3(SQL_REBUILD_AGENTS_HEAD, SQL_REBUILD_AGENTS_ACCESS, SQL_REBUILD_AGENTS_REST).concat(
        selected.as_str(),
    ).concat(SQL_REBUILD_AGENTS_TAIL)
}

/// The definition of the agents' table was read.
pub open spec fn definition_read(pre: Trace, post: Trace, r: Result<String, DbError>) -> bool {
    rows::fetched(pre, post, SQL_AGENTS_TABLE@, Seq::<Datum>::empty(), r)
}

/// The statements that rebuild the agents' table were run, with foreign keys off where `on` says
/// that they are enforced.
pub open spec fn rebuild_run(
    pre: Trace,
    post: Trace,
    on: i64,
    present: Seq<Seq<char>>,
    r: Result<(), DbError>,
) -> bool {
    tx::scripted(
        pre,
        post,
        unenforced(on == 1, seq![Request::Batch { sql: rebuild_sql(present) }], on == 1),
        r,
    )
}

/// The agents' table was rebuilt, given whether foreign keys are enforced.
pub open spec fn rebuilt_as_found(
    mid: Trace,
    post: Trace,
    present: Seq<Seq<char>>,
    on: Result<i64, DbError>,
    r: Result<bool, DbError>,
) -> bool {
    match on {
        Ok(n) => exists|done: Result<(), DbError>|
            {
                &&& #[trigger] rebuild_run(mid, post, n, present, done)
                &&& r == match done {
                    Ok(()) => Ok::<bool, DbError>(true),
                    Err(e) => Err(e),
                }
            },
        Err(e) => post == mid && r == Err::<bool, DbError>(e),
    }
}

/// The agents' table was rebuilt from the columns that it has.
pub open spec fn agents_rebuilt(
    pre: Trace,
    post: Trace,
    present: Seq<Seq<char>>,
    r: Result<bool, DbError>,
) -> bool {
    exists|mid: Trace, on: Result<i64, DbError>|
        {
            &&& #[trigger] enforcement_read(pre, mid, on)
            &&& rebuilt_as_found(mid, post, present, on, r)
        }
}

fn rebuild_agents(db: &mut Db, columns: &Vec<ColumnName>) -> (r: Result<bool, DbError>)
    ensures
        agents_rebuilt(old(db)@, final(db)@, names_of(columns@), r),
{
    let sql = rebuild_statement(columns);
    let on = match read_enforcement(db) {
        Ok(on) => on,
        Err(e) => return Err(e),
    };
    let ghost mid = db@;
    let mut body = no_statements();
    add_statement(&mut body, several(sql.as_str()));
    assert(tx::requests(body@) =~= seq![
        Request::Batch { sql: rebuild_sql(names_of(columns@)) },
    ]);
    let done = run_unenforced(db, on == 1, body, on == 1);
    assert(rebuild_run(mid, db@, on, names_of(columns@), done));
    match done {
        Ok(()) => Ok(true),
        Err(e) => Err(e),
    }
}

/// The agents' table was rebuilt, where its columns could be read.
pub open spec fn rebuilt_from_columns(
    looked: Trace,
    post: Trace,
    got: Result<Vec<ColumnName>, DbError>,
    r: Result<bool, DbError>,
) -> bool {
    match got {
        Ok(columns) => agents_rebuilt(
            looked,
            post,
            names_of(columns@),
            r,
        ),
        Err(e) => post == looked && r == Err::<bool, DbError>(e),
    }
}

/// The agents' table was rebuilt, unless the definition that was read allows harness access.
pub open spec fn harness_allowed_from(
    mid: Trace,
    post: Trace,
    definition: Result<String, DbError>,
    r: Result<bool, DbError>,
) -> bool {
    match definition {
        Ok(sql) => if text::occurs(sql@, "'harness'"@) {
            post == mid && r == Ok::<bool, DbError>(false)
        } else {
            exists|looked: Trace, got: Result<Vec<ColumnName>, DbError>|
                {
                    &&& #[trigger] columns_read(mid, looked, "agents"@, got)
                    &&& rebuilt_from_columns(looked, post, got, r)
                }
        },
        Err(e) => post == mid && r == Err::<bool, DbError>(e),
    }
}

/// The agents' table was rebuilt, unless its definition allows harness access already.
pub open spec fn harness_allowed(pre: Trace, post: Trace, r: Result<bool, DbError>) -> bool {
    exists|mid: Trace, definition: Result<String, DbError>|
        {
            &&& #[trigger] definition_read(pre, mid, definition)
            &&& harness_allowed_from(mid, post, definition, r)
        }
}

/// Lets an agent's access be `harness`: rebuilds the agents' table where its definition does not
/// say so yet. Whether it was rebuilt.
pub fn migrate_agents_access_allow_harness(db: &mut Db) -> (r: Result<bool, DbError>)
    ensures
        harness_allowed(old(db)@, final(db)@, r),
{
    let definition: Result<String, DbError> = fetch(db, SQL_AGENTS_TABLE, params0());
    let ghost mid = db@;
    assert(definition_read(old(db)@, mid, definition));
    let sql = match definition {
        Ok(sql) => sql,
        Err(e) => return Err(e),
    };
    if contains_text(sql.as_str(), "'harness'") {
        return Ok(false);
    }
    let got = read_columns(db, "agents");
    assert(columns_read(mid, db@, "agents"@, got));
    match got {
        Ok(columns) => rebuild_agents(db, &columns),
        Err(e) => Err(e),
    }
}

pub const SQL_TABLES: &'static str = "CREATE TABLE IF NOT EXISTS app_settings (
            key TEXT PRIMARY KEY,
            value TEXT NOT NULL
        );
        CREATE TABLE IF NOT EXISTS sessions (
            id TEXT PRIMARY KEY,
            title TEXT NOT NULL,
            created_at INTEGER NOT NULL,
            total_input_tokens INTEGER NOT NULL DEFAULT 0,
            total_output_tokens INTEGER NOT NULL DEFAULT 0
        );
        CREATE TABLE IF NOT EXISTS session_agent_configs (
            session_id TEXT PRIMARY KEY REFERENCES sessions(id) ON DELETE CASCADE,
            lead_agent_id TEXT REFERENCES agents(id) ON DELETE SET NULL,
            member_agent_ids TEXT NOT NULL DEFAULT '[]' CHECK (json_valid(member_agent_ids))
        );
        CREATE TABLE IF NOT EXISTS messages (
            id INTEGER PRIMARY KEY AUTOINCREMENT,
            session_id TEXT NOT NULL,
            role TEXT NOT NULL,
            content TEXT NOT NULL CHECK (json_valid(content)),
            engine TEXT,
            agent_id TEXT,
            agent_name_snapshot TEXT,
            dedup_key TEXT,
            created_at INTEGER NOT NULL
        );
        CREATE INDEX IF NOT EXISTS idx_messages_session ON messages(session_id, id);
        CREATE INDEX IF NOT EXISTS idx_messages_history
            ON messages(session_id, id DESC)
            WHERE role IN ('user','assistant');
        CREATE TABLE IF NOT EXISTS member_report_delivery (
            session_id TEXT NOT NULL,
            message_id INTEGER NOT NULL,
            assignment_id TEXT,
            delivered_at INTEGER,
            PRIMARY KEY (session_id, message_id)
        );
        CREATE TABLE IF NOT EXISTS attachments (
            id TEXT PRIMARY KEY,
            session_id TEXT NOT NULL,
            kind TEXT NOT NULL,
            sha256 TEXT NOT NULL,
            media_type TEXT,
            byte_size INTEGER,
            rel_path TEXT NOT NULL,
            width INTEGER,
            height INTEGER,
            created_at INTEGER NOT NULL
        );
        CREATE INDEX IF NOT EXISTS idx_attachments_sha ON attachments(sha256);
        CREATE TABLE IF NOT EXISTS repos (
            id TEXT PRIMARY KEY,
            source TEXT NOT NULL DEFAULT 'local'
                CHECK (source IN ('local', 'github')),
            owner TEXT,
            name TEXT NOT NULL,
            path TEXT NOT NULL UNIQUE,
            status TEXT NOT NULL DEFAULT 'active'
                CHECK (status IN ('active', 'archived', 'invalid')),
            added_at INTEGER NOT NULL,
            last_used_at INTEGER
        );
        CREATE TABLE IF NOT EXISTS namespaces (
            id TEXT PRIMARY KEY,
            kind TEXT NOT NULL
                CHECK (kind IN ('local', 'github_org')),
            name TEXT NOT NULL,
            is_builtin INTEGER NOT NULL DEFAULT 0,
            last_active_repo_id TEXT,
            added_at INTEGER NOT NULL,
            last_used_at INTEGER
        );
        CREATE TABLE IF NOT EXISTS session_groups (
            id TEXT PRIMARY KEY,
            namespace_id TEXT NOT NULL REFERENCES namespaces(id) ON DELETE CASCADE,
            repo_id TEXT NOT NULL REFERENCES repos(id) ON DELETE CASCADE,
            name TEXT NOT NULL,
            position INTEGER NOT NULL DEFAULT 0,
            created_at INTEGER NOT NULL
        );
        CREATE TABLE IF NOT EXISTS run_commits (
            id INTEGER PRIMARY KEY AUTOINCREMENT,
            session_id TEXT NOT NULL,
            run_id TEXT NOT NULL,
            engine TEXT NOT NULL,
            pre_head TEXT NOT NULL,
            post_head TEXT,
            commit_sha TEXT,
            files_changed INTEGER,
            insertions INTEGER,
            deletions INTEGER,
            interrupted INTEGER NOT NULL DEFAULT 0,
            state TEXT NOT NULL DEFAULT 'running'
                CHECK (state IN ('running', 'active', 'failed', 'undone', 'kept', 'discarded')),
            created_at INTEGER NOT NULL,
            UNIQUE (session_id, run_id)
        );
        CREATE INDEX IF NOT EXISTS idx_run_commits_session ON run_commits(session_id, id);
        CREATE TABLE IF NOT EXISTS run_commit_intents (
            session_id TEXT NOT NULL,
            run_id TEXT NOT NULL,
            expected_head TEXT NOT NULL,
            previous_state TEXT NOT NULL,
            created_at INTEGER NOT NULL,
            PRIMARY KEY (session_id, run_id)
        );
        CREATE TABLE IF NOT EXISTS checkpoint_entries (
            id INTEGER PRIMARY KEY AUTOINCREMENT,
            session_id TEXT NOT NULL,
            run_id TEXT NOT NULL,
            member_id TEXT,
            file_path TEXT NOT NULL,
            existed INTEGER NOT NULL,
            blob_sha TEXT,
            file_mode INTEGER,
            is_symlink INTEGER NOT NULL DEFAULT 0,
            pre_xattrs BLOB,
            allowed_root TEXT,
            post_sha TEXT,
            post_missing INTEGER NOT NULL DEFAULT 0,
            post_file_type TEXT,
            post_mode INTEGER,
            post_nlink INTEGER,
            post_inode INTEGER,
            post_xattr_sha TEXT,
            post_tainted INTEGER NOT NULL DEFAULT 0,
            undone_at INTEGER,
            created_at INTEGER NOT NULL,
            UNIQUE (session_id, run_id, file_path)
        );
        CREATE INDEX IF NOT EXISTS idx_checkpoint_entries_run
            ON checkpoint_entries(session_id, run_id);
        CREATE TABLE IF NOT EXISTS team_run_pending (
            id INTEGER PRIMARY KEY AUTOINCREMENT,
            session_id TEXT NOT NULL,
            run_id TEXT NOT NULL UNIQUE,
            goal TEXT,
            lead_participant_id TEXT,
            assignments_json TEXT NOT NULL DEFAULT '[]',
            started_at INTEGER NOT NULL,
            state TEXT NOT NULL DEFAULT 'running' CHECK (state IN ('running','interrupted','done')),
            created_at INTEGER NOT NULL
        );
        CREATE INDEX IF NOT EXISTS idx_team_run_pending_session ON team_run_pending(session_id, id);
        CREATE TABLE IF NOT EXISTS decision_ledger (
            id INTEGER PRIMARY KEY AUTOINCREMENT,
            session_id TEXT NOT NULL,
            run_id TEXT,
            source_assignment_id TEXT,
            text TEXT NOT NULL,
            source_refs_json TEXT NOT NULL DEFAULT '[]',
            supersedes_json TEXT NOT NULL DEFAULT '[]',
            source_kind TEXT,
            confidence TEXT,
            created_at INTEGER NOT NULL
        );
        CREATE INDEX IF NOT EXISTS idx_decision_ledger_session ON decision_ledger(session_id, id);
        CREATE TABLE IF NOT EXISTS memory_entries (
            id INTEGER PRIMARY KEY AUTOINCREMENT,
            session_id TEXT NOT NULL,
            category TEXT NOT NULL,
            text TEXT NOT NULL,
            source_refs_json TEXT NOT NULL DEFAULT '[]' CHECK (json_valid(source_refs_json)),
            supersedes_json TEXT NOT NULL DEFAULT '[]' CHECK (json_valid(supersedes_json)),
            source TEXT,
            confidence TEXT,
            pinned INTEGER NOT NULL DEFAULT 0,
            created_at INTEGER NOT NULL
        );
        CREATE INDEX IF NOT EXISTS idx_memory_entries_session ON memory_entries(session_id, id);

        CREATE TABLE IF NOT EXISTS lead_loop_state (
            session_id TEXT PRIMARY KEY,
            autonomy TEXT NOT NULL DEFAULT 'cautious'
                CHECK (autonomy IN ('cautious','handsfree','auto')),
            active_run_id TEXT,
            active_task_id TEXT,
            last_event_cursor TEXT,
            updated_at INTEGER NOT NULL
        );

        CREATE TABLE IF NOT EXISTS artifacts (
            id TEXT PRIMARY KEY,
            session_id TEXT NOT NULL,
            run_id TEXT NOT NULL,
            member_assignment_id TEXT NOT NULL,
            branch TEXT NOT NULL,
            base_sha TEXT NOT NULL,
            commit_sha TEXT,
            files_changed INTEGER NOT NULL DEFAULT 0,
            state TEXT NOT NULL DEFAULT 'finalizing'
                CHECK (state IN ('finalizing','ready','merged','discarded')),
            created_at INTEGER NOT NULL
        );
        CREATE INDEX IF NOT EXISTS idx_artifacts_run ON artifacts(session_id, run_id);
        CREATE UNIQUE INDEX IF NOT EXISTS idx_artifacts_member ON artifacts(session_id, run_id, member_assignment_id);
        CREATE TABLE IF NOT EXISTS verifications (
            id TEXT PRIMARY KEY,
            artifact_id TEXT NOT NULL,
            cmd TEXT NOT NULL,
            artifact_sha TEXT NOT NULL,
            exit_code INTEGER,
            output_ref TEXT,
            verdict TEXT NOT NULL DEFAULT 'pending'
                CHECK (verdict IN ('pending','passed','failed')),
            created_at INTEGER NOT NULL
        );
        CREATE INDEX IF NOT EXISTS idx_verifications_artifact ON verifications(artifact_id);
        CREATE TABLE IF NOT EXISTS reviews (
            id TEXT PRIMARY KEY,
            artifact_id TEXT NOT NULL,
            reviewer_agent TEXT NOT NULL,
            advisory INTEGER NOT NULL DEFAULT 1,
            verdict TEXT NOT NULL DEFAULT 'pending'
                CHECK (verdict IN ('pending','pass','fail')),
            notes TEXT,
            created_at INTEGER NOT NULL
        );
        CREATE INDEX IF NOT EXISTS idx_reviews_artifact ON reviews(artifact_id);
        CREATE TABLE IF NOT EXISTS merge_candidates (
            id TEXT PRIMARY KEY,
            artifact_id TEXT NOT NULL UNIQUE,
            staging_branch TEXT NOT NULL,
            state TEXT NOT NULL DEFAULT 'pending'
                CHECK (state IN ('pending','merged','rejected')),
            merged_sha TEXT,
            created_at INTEGER NOT NULL
        );
        CREATE INDEX IF NOT EXISTS idx_merge_candidates_artifact ON merge_candidates(artifact_id);
        CREATE TABLE IF NOT EXISTS landing_commits (
            id TEXT PRIMARY KEY,
            session_id TEXT NOT NULL,
            run_id TEXT NOT NULL,
            artifact_id TEXT,
            pre_head TEXT NOT NULL,
            landed_head TEXT NOT NULL,
            commit_count INTEGER NOT NULL DEFAULT 0,
            files_changed INTEGER NOT NULL DEFAULT 0,
            insertions INTEGER NOT NULL DEFAULT 0,
            deletions INTEGER NOT NULL DEFAULT 0,
            created_at INTEGER NOT NULL,
            UNIQUE(session_id, run_id, landed_head)
        );
        CREATE INDEX IF NOT EXISTS idx_landing_commits_session ON landing_commits(session_id, id);

        CREATE TABLE IF NOT EXISTS goal_contracts (
            id TEXT PRIMARY KEY,
            session_id TEXT NOT NULL,
            run_id TEXT NOT NULL UNIQUE,
            goal TEXT NOT NULL,
            lead_participant_id TEXT NOT NULL,
            status TEXT NOT NULL DEFAULT 'draft' CHECK (status IN ('draft', 'frozen')),
            assignments_json TEXT NOT NULL DEFAULT '[]',
            created_at INTEGER NOT NULL,
            goal_title TEXT
        );

        CREATE TABLE IF NOT EXISTS acceptance_criteria (
            id TEXT PRIMARY KEY,
            session_id TEXT NOT NULL,
            run_id TEXT NOT NULL,
            task_id TEXT NOT NULL,
            contract_id TEXT,
            scope TEXT NOT NULL DEFAULT 'task' CHECK (scope IN ('run', 'task')),
            claim TEXT NOT NULL,
            verifier TEXT,
            evidence TEXT,
            status TEXT NOT NULL DEFAULT 'pending'
                CHECK (status IN ('pending', 'passed', 'failed', 'waived')),
            waiver TEXT,
            created_at INTEGER NOT NULL
        );
        CREATE INDEX IF NOT EXISTS idx_acceptance_run ON acceptance_criteria(session_id, run_id);
        CREATE TABLE IF NOT EXISTS agents (
            id TEXT NOT NULL PRIMARY KEY,
            name TEXT NOT NULL,
            access TEXT NOT NULL
                CHECK (access IN ('native', 'borrow', 'harness')),
            provider TEXT NOT NULL,
            primary_model TEXT,
            endpoint TEXT,
            auth_mode TEXT
                CHECK (auth_mode IS NULL OR auth_mode IN ('bearer', 'x_api_key')),
            model_opus TEXT,
            model_sonnet TEXT,
            model_haiku TEXT,
            model_subagent TEXT,
            reasoning_default TEXT NOT NULL DEFAULT 'auto'
                CHECK (reasoning_default IN ('auto', 'none', 'minimal', 'low', 'medium', 'high', 'xhigh', 'max')),
            max_output_tokens INTEGER,
            api_timeout_ms INTEGER,
            compat_disable_betas INTEGER NOT NULL DEFAULT 0,
            compat_disable_nonessential INTEGER NOT NULL DEFAULT 0,
            compat_disable_thinking INTEGER NOT NULL DEFAULT 0,
            compat_proxy TEXT,
            custom_headers TEXT,
            extra_body TEXT,
            cap_reasoning TEXT,
            cap_computer_use TEXT,
            cap_lead TEXT,
            has_key INTEGER NOT NULL DEFAULT 0,
            is_builtin INTEGER NOT NULL DEFAULT 0,
            enabled INTEGER NOT NULL DEFAULT 1,
            sort_order INTEGER NOT NULL DEFAULT 0,
            created_at INTEGER NOT NULL,
            updated_at INTEGER NOT NULL
        );
        CREATE TABLE IF NOT EXISTS memory_blocks (
            session_id TEXT NOT NULL,
            slot TEXT NOT NULL,
            text TEXT NOT NULL,
            title TEXT,
            anchor_refs_json TEXT NOT NULL DEFAULT '[]',
            updated_by TEXT,
            updated_at INTEGER NOT NULL,
            revision INTEGER NOT NULL DEFAULT 0,
            updated_run_id TEXT,
            PRIMARY KEY (session_id, slot)
        );";

pub const SQL_DOCUMENT_TABLES: &'static str = "CREATE TABLE IF NOT EXISTS project_intro (
                repo_id TEXT PRIMARY KEY REFERENCES repos(id) ON DELETE CASCADE,
                content TEXT NOT NULL,
                generated_at INTEGER NOT NULL,
                head_sha TEXT NOT NULL
            );
            CREATE TABLE IF NOT EXISTS daily_report (
                repo_id TEXT PRIMARY KEY REFERENCES repos(id) ON DELETE CASCADE,
                content TEXT NOT NULL,
                generated_at INTEGER NOT NULL,
                head_sha TEXT NOT NULL
            );
            PRAGMA user_version = 1;";

pub const SQL_AGENTS_DEFINITION: &'static str = "SELECT sql FROM sqlite_master WHERE type = 'table' AND name = 'agents'";

pub const SQL_WIDEN_REASONING: &'static str = r#"
                ALTER TABLE agents RENAME TO agents_old_reasoning_check;
                CREATE TABLE agents (
                    id TEXT NOT NULL PRIMARY KEY,
                    name TEXT NOT NULL,
                    access TEXT NOT NULL
                        CHECK (access IN ('native', 'borrow', 'harness')),
                    provider TEXT NOT NULL,
                    primary_model TEXT,
                    endpoint TEXT,
                    auth_mode TEXT
                        CHECK (auth_mode IS NULL OR auth_mode IN ('bearer', 'x_api_key')),
                    model_opus TEXT,
                    model_sonnet TEXT,
                    model_haiku TEXT,
                    model_subagent TEXT,
                    reasoning_default TEXT NOT NULL DEFAULT 'auto'
                        CHECK (reasoning_default IN ('auto', 'none', 'minimal', 'low', 'medium', 'high', 'xhigh', 'max')),
                    max_output_tokens INTEGER,
                    api_timeout_ms INTEGER,
                    compat_disable_betas INTEGER NOT NULL DEFAULT 0,
                    compat_disable_nonessential INTEGER NOT NULL DEFAULT 0,
                    compat_disable_thinking INTEGER NOT NULL DEFAULT 0,
                    compat_proxy TEXT,
                    custom_headers TEXT,
                    extra_body TEXT,
                    cap_reasoning TEXT,
                    cap_computer_use TEXT,
                    cap_lead TEXT,
                    has_key INTEGER NOT NULL DEFAULT 0,
                    is_builtin INTEGER NOT NULL DEFAULT 0,
                    enabled INTEGER NOT NULL DEFAULT 1,
                    sort_order INTEGER NOT NULL DEFAULT 0,
                    created_at INTEGER NOT NULL,
                    updated_at INTEGER NOT NULL
                );
                INSERT INTO agents (
                    id, name, access, provider, primary_model, endpoint, auth_mode,
                    model_opus, model_sonnet, model_haiku, model_subagent,
                    reasoning_default, max_output_tokens, api_timeout_ms,
                    compat_disable_betas, compat_disable_nonessential,
                    compat_disable_thinking, compat_proxy, custom_headers, extra_body,
                    cap_reasoning, cap_computer_use, cap_lead, has_key, is_builtin,
                    enabled, sort_order, created_at, updated_at
                )
                SELECT
                    id, name,
                    CASE WHEN access IN ('native', 'harness') THEN access ELSE 'borrow' END,
                    provider, primary_model, endpoint,
                    CASE WHEN auth_mode IN ('bearer', 'x_api_key') THEN auth_mode ELSE NULL END,
                    model_opus, model_sonnet, model_haiku, model_subagent,
                    reasoning_default, max_output_tokens, api_timeout_ms,
                    compat_disable_betas, compat_disable_nonessential,
                    compat_disable_thinking, compat_proxy, custom_headers, extra_body,
                    cap_reasoning, cap_computer_use, cap_lead, has_key, is_builtin,
                    enabled, sort_order, created_at, updated_at
                FROM agents_old_reasoning_check;
                DROP TABLE agents_old_reasoning_check;
                "#;

pub const SQL_USER_VERSION: &'static str = "PRAGMA user_version";

pub const OLD_REASONING_CHECK: &'static str = "reasoning_default IN ('auto', 'low', 'medium', 'high')";

/// The version of the database was read.
pub open spec fn version_read(pre: Trace, post: Trace, r: Result<i64, DbError>) -> bool {
    rows::fetched(pre, post, SQL_USER_VERSION@, Seq::<Datum>::empty(), r)
}

/// A list of statements was run where the version of the database is lower than `version`.
pub open spec fn upgraded_from(
    mid: Trace,
    post: Trace,
    version: i64,
    sql: Seq<char>,
    got: Result<i64, DbError>,
    r: Result<(), DbError>,
) -> bool {
    match got {
        Ok(v) => if v < version {
            tx::batched(mid, post, sql, r)
        } else {
            post == mid && r == Ok::<(), DbError>(())
        },
        Err(e) => post == mid && r == Err::<(), DbError>(e),
    }
}

/// The version of the database was read, and a list of statements run where it is lower than
/// `version`.
pub open spec fn upgraded(
    pre: Trace,
    post: Trace,
    version: i64,
    sql: Seq<char>,
    r: Result<(), DbError>,
) -> bool {
    exists|mid: Trace, got: Result<i64, DbError>|
        {
            &&& #[trigger] version_read(pre, mid, got)
            &&& upgraded_from(mid, post, version, sql, got, r)
        }
}

fn upgrade(db: &mut Db, version: i64, sql: &str) -> (r: Result<(), DbError>)
    ensures
        upgraded(old(db)@, final(db)@, version, sql@, r),
{
    let got: Result<i64, DbError> = fetch(db, SQL_USER_VERSION, params0());
    assert(version_read(old(db)@, db@, got));
    match got {
        Ok(v) => if v < version {
            run_batch(db, sql)
        } else {
            Ok(())
        },
        Err(e) => Err(e),
    }
}

/// The definition of the agents' table, if there is one, was read.
pub open spec fn definition_found(
    pre: Trace,
    post: Trace,
    r: Result<Option<String>, DbError>,
) -> bool {
    rows::found(pre, post, SQL_AGENTS_DEFINITION@, Seq::<Datum>::empty(), r)
}

/// A script was run with foreign keys off, given whether they are enforced.
pub open spec fn run_unenforced_as_found(
    mid: Trace,
    post: Trace,
    body: Seq<Request>,
    on: Result<i64, DbError>,
    r: Result<(), DbError>,
) -> bool {
    match on {
        Ok(n) => tx::scripted(mid, post, unenforced(n != 0, body, n != 0), r),
        Err(e) => post == mid && r == Err::<(), DbError>(e),
    }
}

/// Whether foreign keys are enforced was read, and a script run with them off.
pub open spec fn ran_unenforced(
    pre: Trace,
    post: Trace,
    body: Seq<Request>,
    r: Result<(), DbError>,
) -> bool {
    exists|mid: Trace, on: Result<i64, DbError>|
        {
            &&& #[trigger] enforcement_read(pre, mid, on)
            &&& run_unenforced_as_found(mid, post, body, on, r)
        }
}

fn run_with_keys_off(db: &mut Db, body: Vec<Statement>) -> (r: Result<(), DbError>)
    ensures
        ran_unenforced(old(db)@, final(db)@, tx::requests(body@), r),
{
    let on = read_enforcement(db);
    assert(enforcement_read(old(db)@, db@, on));
    match on {
        Ok(n) => run_unenforced(db, n != 0, body, n != 0),
        Err(e) => Err(e),
    }
}

/// The agents' table was rebuilt where its definition has the old check of the reasoning level.
pub open spec fn reasoning_widened_from(
    mid: Trace,
    post: Trace,
    definition: Result<Option<String>, DbError>,
    r: Result<(), DbError>,
) -> bool {
    match definition {
        Ok(Some(sql)) => if text::occurs(sql@, OLD_REASONING_CHECK@) {
            ran_unenforced(
                mid,
                post,
                seq![Request::Batch { sql: SQL_WIDEN_REASONING@ }],
                r,
            )
        } else {
            post == mid && r == Ok::<(), DbError>(())
        },
        Ok(None) => post == mid && r == Ok::<(), DbError>(()),
        Err(e) => post == mid && r == Err::<(), DbError>(e),
    }
}

/// The agents' table was rebuilt where it has the old check of the reasoning level.
pub open spec fn reasoning_widened(pre: Trace, post: Trace, r: Result<(), DbError>) -> bool {
    exists|mid: Trace, definition: Result<Option<String>, DbError>|
        {
            &&& #[trigger] definition_found(pre, mid, definition)
            &&& reasoning_widened_from(mid, post, definition, r)
        }
}

fn widen_reasoning(db: &mut Db) -> (r: Result<(), DbError>)
    ensures
        reasoning_widened(old(db)@, final(db)@, r),
{
    let definition: Result<Option<String>, DbError> = find(db, SQL_AGENTS_DEFINITION, params0());
    assert(definition_found(old(db)@, db@, definition));
    match definition {
        Ok(Some(sql)) => {
            if !contains_text(sql.as_str(), OLD_REASONING_CHECK) {
                return Ok(());
            }
            let mut body = no_statements();
            add_statement(&mut body, several(SQL_WIDEN_REASONING));
            assert(tx::requests(body@) =~= seq![Request::Batch { sql: SQL_WIDEN_REASONING@ }]);
            run_with_keys_off(db, body)
        },
        Ok(None) => Ok(()),
        Err(e) => Err(e),
    }
}

pub const SQL_RENAME_COLOR: &'static str = "ALTER TABLE repos RENAME COLUMN color TO icon";

pub const SQL_CLEAR_COLORS: &'static str = "UPDATE repos SET icon = NULL WHERE icon LIKE '#%'";

pub const SQL_ADD_ICON: &'static str = "ALTER TABLE repos ADD COLUMN icon TEXT";

/// The statements that give repositories an icon, given the columns of their table.
pub open spec fn icon_script(present: Seq<Seq<char>>) -> Seq<Request> {
    if present.contains("icon"@) {
        Seq::empty()
    } else if present.contains("color"@) {
        seq![tx::plain(SQL_RENAME_COLOR@), tx::plain(SQL_CLEAR_COLORS@)]
    } else {
        seq![tx::plain(SQL_ADD_ICON@)]
    }
}

/// Repositories were given an icon, given the columns of their table.
pub open spec fn icons_completed(
    mid: Trace,
    post: Trace,
    got: Result<Vec<ColumnName>, DbError>,
    r: Result<(), DbError>,
) -> bool {
    match got {
        Ok(present) => tx::scripted(mid, post, icon_script(names_of(present@)), r),
        Err(e) => post == mid && r == Err::<(), DbError>(e),
    }
}

/// Repositories were given an icon in place of a color.
pub open spec fn icons_made(pre: Trace, post: Trace, r: Result<(), DbError>) -> bool {
    exists|mid: Trace, got: Result<Vec<ColumnName>, DbError>|
        {
            &&& #[trigger] columns_read(pre, mid, "repos"@, got)
            &&& icons_completed(mid, post, got, r)
        }
}

fn make_icons(db: &mut Db) -> (r: Result<(), DbError>)
    ensures
        icons_made(old(db)@, final(db)@, r),
{
    let got = read_columns(db, "repos");
    assert(columns_read(old(db)@, db@, "repos"@, got));
    let present = match got {
        Ok(present) => present,
        Err(e) => return Err(e),
    };
    let mut script = no_statements();
    if !has_column(&present, "icon") {
        if has_column(&present, "color") {
            add_statement(&mut script, plain_statement(SQL_RENAME_COLOR));
            add_statement(&mut script, plain_statement(SQL_CLEAR_COLORS));
        } else {
            add_statement(&mut script, plain_statement(SQL_ADD_ICON));
        }
    }
    assert(tx::requests(script@) =~= icon_script(names_of(present@)));
    run_script(db, script)
}

pub const SQL_REPO_NAMESPACE: &'static str = "ALTER TABLE repos ADD COLUMN namespace_id TEXT NOT NULL DEFAULT 'local' REFERENCES namespaces(id) ON DELETE CASCADE";

pub const SQL_SESSION_NAMESPACE: &'static str = "ALTER TABLE sessions ADD COLUMN namespace_id TEXT DEFAULT 'local' REFERENCES namespaces(id) ON DELETE SET NULL";

/// The statements that give repositories and sessions a namespace, given which of them have one
/// and whether foreign keys are enforced.
pub open spec fn namespace_script(in_repos: bool, in_sessions: bool, on: i64) -> Seq<Request> {
    unenforced(
        !in_repos || !in_sessions,
        (if in_repos {
            Seq::empty()
        } else {
            seq![tx::plain(SQL_REPO_NAMESPACE@)]
        }) + (if in_sessions {
            Seq::empty()
        } else {
            seq![tx::plain(SQL_SESSION_NAMESPACE@)]
        }),
        (!in_repos || !in_sessions) && on != 0,
    )
}

/// Namespaces were added where they lack, given whether foreign keys are enforced.
pub open spec fn namespaces_added_as_found(
    read: Trace,
    post: Trace,
    in_repos: bool,
    there: bool,
    on: Result<i64, DbError>,
    r: Result<(), DbError>,
) -> bool {
    match on {
        Ok(n) => tx::scripted(
            read,
            post,
            namespace_script(in_repos, there, n),
            r,
        ),
        Err(e) => post == read && r == Err::<(), DbError>(e),
    }
}

/// Namespaces were added where they lack, given whether sessions have one.
pub open spec fn namespaces_added(
    mid: Trace,
    post: Trace,
    in_repos: bool,
    in_sessions: Result<bool, DbError>,
    r: Result<(), DbError>,
) -> bool {
    match in_sessions {
        Ok(there) => exists|read: Trace, on: Result<i64, DbError>|
            {
                &&& #[trigger] enforcement_read(mid, read, on)
                &&& namespaces_added_as_found(read, post, in_repos, there, on, r)
            },
        Err(e) => post == mid && r == Err::<(), DbError>(e),
    }
}

/// Repositories and sessions were given a namespace, given which repositories' table had one.
pub open spec fn namespaces_made_after(
    pre: Trace,
    post: Trace,
    in_repos: bool,
    r: Result<(), DbError>,
) -> bool {
    exists|mid: Trace, in_sessions: Result<bool, DbError>|
        {
            &&& #[trigger] column_looked_up(pre, mid, "sessions"@, "namespace_id"@, in_sessions)
            &&& namespaces_added(mid, post, in_repos, in_sessions, r)
        }
}

/// Repositories and sessions were given a namespace, given whether repositories have one.
pub open spec fn namespaces_made_from(
    mid: Trace,
    post: Trace,
    in_repos: Result<bool, DbError>,
    r: Result<(), DbError>,
) -> bool {
    match in_repos {
        Ok(there) => namespaces_made_after(mid, post, there, r),
        Err(e) => post == mid && r == Err::<(), DbError>(e),
    }
}

/// Repositories and sessions were given a namespace.
pub open spec fn namespaces_made(pre: Trace, post: Trace, r: Result<(), DbError>) -> bool {
    exists|mid: Trace, in_repos: Result<bool, DbError>|
        {
            &&& #[trigger] column_looked_up(pre, mid, "repos"@, "namespace_id"@, in_repos)
            &&& namespaces_made_from(mid, post, in_repos, r)
        }
}

fn make_namespaces_after(db: &mut Db, in_repos: bool) -> (r: Result<(), DbError>)
    ensures
        namespaces_made_after(old(db)@, final(db)@, in_repos, r),
{
    let looked = table_has_column(db, "sessions", "namespace_id");
    let ghost mid = db@;
    assert(column_looked_up(old(db)@, mid, "sessions"@, "namespace_id"@, looked));
    let in_sessions = match looked {
        Ok(there) => there,
        Err(e) => return Err(e),
    };
    let read = read_enforcement(db);
    assert(enforcement_read(mid, db@, read));
    let on = match read {
        Ok(on) => on,
        Err(e) => return Err(e),
    };
    let mut body = no_statements();
    if !in_repos {
        add_statement(&mut body, plain_statement(SQL_REPO_NAMESPACE));
    }
    if !in_sessions {
        add_statement(&mut body, plain_statement(SQL_SESSION_NAMESPACE));
    }
    let lacking = !in_repos || !in_sessions;
    assert(unenforced(lacking, tx::requests(body@), lacking && on != 0) =~= namespace_script(
        in_repos,
        in_sessions,
        on,
    ));
    run_unenforced(db, lacking, body, lacking && on != 0)
}

fn make_namespaces(db: &mut Db) -> (r: Result<(), DbError>)
    ensures
        namespaces_made(old(db)@, final(db)@, r),
{
    let looked = table_has_column(db, "repos", "namespace_id");
    assert(column_looked_up(old(db)@, db@, "repos"@, "namespace_id"@, looked));
    match looked {
        Ok(there) => make_namespaces_after(db, there),
        Err(e) => Err(e),
    }
}

pub const SQL_SESSION_GROUP: &'static str = "ALTER TABLE sessions ADD COLUMN group_id TEXT REFERENCES session_groups(id) ON DELETE SET NULL";

/// Sessions were given a group, where they have none.
pub open spec fn groups_made_from(
    mid: Trace,
    post: Trace,
    there: Result<bool, DbError>,
    r: Result<(), DbError>,
) -> bool {
    match there {
        Ok(true) => post == mid && r == Ok::<(), DbError>(()),
        Ok(false) => ran_unenforced(mid, post, seq![tx::plain(SQL_SESSION_GROUP@)], r),
        Err(e) => post == mid && r == Err::<(), DbError>(e),
    }
}

/// Sessions were given a group.
pub open spec fn groups_made(pre: Trace, post: Trace, r: Result<(), DbError>) -> bool {
    exists|mid: Trace, there: Result<bool, DbError>|
        {
            &&& #[trigger] column_looked_up(pre, mid, "sessions"@, "group_id"@, there)
            &&& groups_made_from(mid, post, there, r)
        }
}

fn make_groups(db: &mut Db) -> (r: Result<(), DbError>)
    ensures
        groups_made(old(db)@, final(db)@, r),
{
    let there = table_has_column(db, "sessions", "group_id");
    assert(column_looked_up(old(db)@, db@, "sessions"@, "group_id"@, there));
    match there {
        Ok(true) => Ok(()),
        Ok(false) => {
            let mut body = no_statements();
            add_statement(&mut body, plain_statement(SQL_SESSION_GROUP));
            assert(tx::requests(body@) =~= seq![tx::plain(SQL_SESSION_GROUP@)]);
            run_with_keys_off(db, body)
        },
        Err(e) => Err(e),
    }
}

pub const SQL_WORKSPACE_SCOPE: &'static str = "ALTER TABLE sessions ADD COLUMN workspace_scope TEXT";

pub const SQL_KEEP_ROOT_SCOPE: &'static str = "UPDATE sessions SET workspace_scope = 'root' WHERE repo_id = 'local-default'";

/// The statements that give sessions a workspace scope, and those that are there already the
/// project's root.
pub open spec fn scope_script() -> Seq<Request> {
    seq![tx::plain(SQL_WORKSPACE_SCOPE@), tx::plain(SQL_KEEP_ROOT_SCOPE@)]
}

/// Sessions were given a workspace scope, where they have none.
pub open spec fn scopes_made_from(
    mid: Trace,
    post: Trace,
    there: Result<bool, DbError>,
    r: Result<(), DbError>,
) -> bool {
    match there {
        Ok(true) => post == mid && r == Ok::<(), DbError>(()),
        Ok(false) => tx::transacted(
            mid,
            post,
            |a: Trace, b: Trace, x: Result<(), DbError>|
                tx::scripted(a, b, scope_script(), x),
            r,
        ),
        Err(e) => post == mid && r == Err::<(), DbError>(e),
    }
}

/// Sessions were given a workspace scope, in one transaction.
pub open spec fn scopes_made(pre: Trace, post: Trace, r: Result<(), DbError>) -> bool {
    exists|mid: Trace, there: Result<bool, DbError>|
        {
            &&& #[trigger] column_looked_up(pre, mid, "sessions"@, "workspace_scope"@, there)
            &&& scopes_made_from(mid, post, there, r)
        }
}

fn make_scopes_now(db: &mut Db) -> (r: Result<(), DbError>)
    ensures
        tx::transacted(
            old(db)@,
            final(db)@,
            |a: Trace, b: Trace, x: Result<(), DbError>| tx::scripted(a, b, scope_script(), x),
            r,
        ),
{
    match begin(db) {
        Ok(()) => {},
        Err(e) => return Err(e),
    }
    let ghost opened = db@;
    let ghost body = |a: Trace, b: Trace, x: Result<(), DbError>| tx::scripted(
        a,
        b,
        scope_script(),
        x,
    );
    let mut script = no_statements();
    add_statement(&mut script, plain_statement(SQL_WORKSPACE_SCOPE));
    add_statement(&mut script, plain_statement(SQL_KEEP_ROOT_SCOPE));
    assert(tx::requests(script@) =~= scope_script());
    let inner = run_script(db, script);
    assert(body(opened, db@, inner));
    finish(db, inner)
}

fn make_scopes(db: &mut Db) -> (r: Result<(), DbError>)
    ensures
        scopes_made(old(db)@, final(db)@, r),
{
    let there = table_has_column(db, "sessions", "workspace_scope");
    assert(column_looked_up(old(db)@, db@, "sessions"@, "workspace_scope"@, there));
    match there {
        Ok(true) => Ok(()),
        Ok(false) => make_scopes_now(db),
        Err(e) => Err(e),
    }
}

pub const SQL_GROUP_REPO: &'static str = "ALTER TABLE session_groups ADD COLUMN repo_id TEXT REFERENCES repos(id)";

pub const SQL_LOCAL_GROUPS: &'static str = "UPDATE session_groups SET repo_id = 'local-default' WHERE namespace_id = 'local' AND repo_id IS NULL";

pub const SQL_SINGLE_REPO_GROUPS: &'static str = "UPDATE session_groups SET repo_id = (
                    SELECT r.id FROM repos r
                    WHERE r.namespace_id = session_groups.namespace_id
                    GROUP BY r.namespace_id HAVING COUNT(*) = 1
                    LIMIT 1
                ) WHERE repo_id IS NULL";

pub const SQL_UNGROUP_SESSIONS: &'static str = "UPDATE sessions SET group_id = NULL WHERE group_id IN (
                    SELECT id FROM session_groups WHERE repo_id IS NULL
                )";

pub const SQL_DROP_UNMAPPED_GROUPS: &'static str = "DELETE FROM session_groups WHERE repo_id IS NULL";

/// The statements that bind groups to repositories: those of the local namespace to its default
/// repository, those of a namespace with one repository to that; the rest is dissolved.
pub open spec fn group_repository_script() -> Seq<Request> {
    seq![
        tx::plain(SQL_GROUP_REPO@),
        tx::plain(SQL_LOCAL_GROUPS@),
        tx::plain(SQL_SINGLE_REPO_GROUPS@),
        tx::plain(SQL_UNGROUP_SESSIONS@),
        tx::plain(SQL_DROP_UNMAPPED_GROUPS@),
    ]
}

/// Groups were bound to repositories, where they were not.
pub open spec fn groups_bound_from(
    mid: Trace,
    post: Trace,
    there: Result<bool, DbError>,
    r: Result<(), DbError>,
) -> bool {
    match there {
        Ok(true) => post == mid && r == Ok::<(), DbError>(()),
        Ok(false) => tx::scripted(mid, post, group_repository_script(), r),
        Err(e) => post == mid && r == Err::<(), DbError>(e),
    }
}

/// Groups were bound to repositories, where they were not.
pub open spec fn group_repositories_made(pre: Trace, post: Trace, r: Result<(), DbError>) -> bool {
    exists|mid: Trace, there: Result<bool, DbError>|
        {
            &&& #[trigger] column_looked_up(pre, mid, "session_groups"@, "repo_id"@, there)
            &&& groups_bound_from(mid, post, there, r)
        }
}

fn make_group_repositories(db: &mut Db) -> (r: Result<(), DbError>)
    ensures
        group_repositories_made(old(db)@, final(db)@, r),
{
    let there = table_has_column(db, "session_groups", "repo_id");
    assert(column_looked_up(old(db)@, db@, "session_groups"@, "repo_id"@, there));
    match there {
        Ok(true) => Ok(()),
        Ok(false) => {
            let mut script = no_statements();
            add_statement(&mut script, plain_statement(SQL_GROUP_REPO));
            add_statement(&mut script, plain_statement(SQL_LOCAL_GROUPS));
            add_statement(&mut script, plain_statement(SQL_SINGLE_REPO_GROUPS));
            add_statement(&mut script, plain_statement(SQL_UNGROUP_SESSIONS));
            add_statement(&mut script, plain_statement(SQL_DROP_UNMAPPED_GROUPS));
            assert(tx::requests(script@) =~= group_repository_script());
            run_script(db, script)
        },
        Err(e) => Err(e),
    }
}

pub const SQL_LOOSEN_DECISIONS: &'static str = "DROP TABLE IF EXISTS decision_ledger_new;
            CREATE TABLE decision_ledger_new (
                id INTEGER PRIMARY KEY AUTOINCREMENT,
                session_id TEXT NOT NULL,
                run_id TEXT,
                source_assignment_id TEXT,
                text TEXT NOT NULL,
                source_refs_json TEXT NOT NULL DEFAULT '[]',
                supersedes_json TEXT NOT NULL DEFAULT '[]',
                source_kind TEXT,
                confidence TEXT,
                created_at INTEGER NOT NULL
            );
            INSERT INTO decision_ledger_new
                (id, session_id, run_id, source_assignment_id, text, source_refs_json, supersedes_json, source_kind, confidence, created_at)
                SELECT id, session_id, run_id, source_assignment_id, text, source_refs_json, supersedes_json, source_kind, confidence, created_at
                FROM decision_ledger;
            DROP TABLE decision_ledger;
            ALTER TABLE decision_ledger_new RENAME TO decision_ledger;
            CREATE INDEX IF NOT EXISTS idx_decision_ledger_session ON decision_ledger(session_id, id);";

pub const SQL_DECISION_COLUMNS: &'static str = "PRAGMA table_info(decision_ledger)";

/// The columns of the decisions' table were read.
pub open spec fn rules_read(pre: Trace, post: Trace, r: Result<Vec<ColumnRule>, DbError>) -> bool {
    rows::listed(pre, post, SQL_DECISION_COLUMNS@, Seq::<Datum>::empty(), r)
}

/// Whether a column is the run of a decision and has to hold a value.
pub open spec fn demands_run(rule: ColumnRule) -> bool {
    rule.name@ == "run_id"@ && rule.not_null == 1
}

/// Whether the table demands a run of every decision.
pub open spec fn demanded(rules: Seq<ColumnRule>) -> bool {
    exists|i: int| 0 <= i < rules.len() && demands_run(#[trigger] rules[i])
}

fn run_demanded(rules: &Vec<ColumnRule>) -> (r: bool)
    ensures
        r == demanded(rules@),
{
    let mut i: usize = 0;
    while i < rules.len()
        invariant
            i <= rules@.len(),
            forall|k: int| 0 <= k < i ==> !demands_run(#[trigger] rules@[k]),
        decreases rules.len() - i,
    {
        if same(rules[i].name.as_str(), "run_id") && rules[i].not_null == 1 {
            assert(demands_run(rules@[i as int]));
            return true;
        }
        i += 1;
    }
    false
}

/// The decisions' table was rebuilt where its columns demand a run.
pub open spec fn loosened_from(
    mid: Trace,
    post: Trace,
    got: Result<Vec<ColumnRule>, DbError>,
    r: Result<(), DbError>,
) -> bool {
    match got {
        Ok(rules) => if demanded(rules@) {
            tx::batched(mid, post, SQL_LOOSEN_DECISIONS@, r)
        } else {
            post == mid && r == Ok::<(), DbError>(())
        },
        Err(e) => post == mid && r == Err::<(), DbError>(e),
    }
}

/// The decisions' table was rebuilt where it demands a run.
pub open spec fn decisions_loosened(pre: Trace, post: Trace, r: Result<(), DbError>) -> bool {
    exists|mid: Trace, got: Result<Vec<ColumnRule>, DbError>|
        {
            &&& #[trigger] rules_read(pre, mid, got)
            &&& loosened_from(mid, post, got, r)
        }
}

fn loosen_decisions(db: &mut Db) -> (r: Result<(), DbError>)
    ensures
        decisions_loosened(old(db)@, final(db)@, r),
{
    let got: Result<Vec<ColumnRule>, DbError> = list(db, SQL_DECISION_COLUMNS, params0());
    assert(rules_read(old(db)@, db@, got));
    match got {
        Ok(rules) => if run_demanded(&rules) {
            run_batch(db, SQL_LOOSEN_DECISIONS)
        } else {
            Ok(())
        },
        Err(e) => Err(e),
    }
}

/// A step in setting up the database.
pub enum Stage {
    /// Run a list of statements.
    Batch(&'static str),
    /// Run a statement.
    Plain(&'static str),
    /// Run a statement with one bound.
    Bounded { sql: &'static str, bound: i64 },
    /// Run a list of statements where the database's version is lower.
    Upgrade { version: i64, sql: &'static str },
    /// Add the columns that a table lacks.
    Columns { table: &'static str, columns: Vec<Column> },
    /// Add the columns that a table lacks, and pass over those whose names cannot be read.
    LenientColumns { table: &'static str, columns: Vec<Column> },
    /// Allow the newer reasoning levels.
    WidenReasoning,
    /// Move stranded agents back.
    RecoverAgents,
    /// Allow harness access.
    AllowHarness,
    /// Mend the configuration whose lead refers to stranded agents.
    MendConfigs,
    /// Give repositories an icon.
    MakeIcons,
    /// Give repositories and sessions a namespace.
    MakeNamespaces,
    /// Give sessions a group.
    MakeGroups,
    /// Give sessions a workspace scope.
    MakeScopes,
    /// Bind groups to repositories.
    MakeGroupRepositories,
    /// Let a decision have no run.
    LoosenDecisions,
}

/// What a stage does.
pub enum Move {
    Batch(&'static str),
    Plain(&'static str),
    Bounded { sql: &'static str, bound: i64 },
    Upgrade { version: i64, sql: &'static str },
    Columns { table: &'static str, columns: Seq<Column> },
    LenientColumns { table: &'static str, columns: Seq<Column> },
    WidenReasoning,
    RecoverAgents,
    AllowHarness,
    MendConfigs,
    MakeIcons,
    MakeNamespaces,
    MakeGroups,
    MakeScopes,
    MakeGroupRepositories,
    LoosenDecisions,
}

impl View for Stage {
    type V = Move;

    open spec fn view(&self) -> Move {
        match self {
            Stage::Batch(sql) => Move::Batch(sql),
            Stage::Plain(sql) => Move::Plain(sql),
            Stage::Bounded { sql, bound } => Move::Bounded { sql, bound: *bound },
            Stage::Upgrade { version, sql } => Move::Upgrade { version: *version, sql },
            Stage::Columns { table, columns } => Move::Columns { table, columns: columns@ },
            Stage::LenientColumns { table, columns } => Move::LenientColumns {
                table,
                columns: columns@,
            },
            Stage::WidenReasoning => Move::WidenReasoning,
            Stage::RecoverAgents => Move::RecoverAgents,
            Stage::AllowHarness => Move::AllowHarness,
            Stage::MendConfigs => Move::MendConfigs,
            Stage::MakeIcons => Move::MakeIcons,
            Stage::MakeNamespaces => Move::MakeNamespaces,
            Stage::MakeGroups => Move::MakeGroups,
            Stage::MakeScopes => Move::MakeScopes,
            Stage::MakeGroupRepositories => Move::MakeGroupRepositories,
            Stage::LoosenDecisions => Move::LoosenDecisions,
        }
    }
}

/// What stages do.
pub open spec fn moves(stages: Seq<Stage>) -> Seq<Move> {
    stages.map_values(|s: Stage| s@)
}

/// The agents' table was rebuilt where needed, and whether it was is forgotten.
pub open spec fn harness_ensured(pre: Trace, post: Trace, r: Result<(), DbError>) -> bool {
    exists|got: Result<bool, DbError>|
        #[trigger] harness_allowed(pre, post, got) && r == match got {
            Ok(_) => Ok::<(), DbError>(()),
            Err(e) => Err(e),
        }
}

/// A stage was done.
pub open spec fn staged(pre: Trace, post: Trace, stage: Move, r: Result<(), DbError>) -> bool {
    match stage {
        Move::Batch(sql) => tx::batched(pre, post, sql@, r),
        Move::Plain(sql) => rows::executed(pre, post, sql@, Seq::<Datum>::empty(), r),
        Move::Bounded { sql, bound } => rows::executed(
            pre,
            post,
            sql@,
            seq![Datum::Integer(bound)],
            r,
        ),
        Move::Upgrade { version, sql } => upgraded(pre, post, version, sql@, r),
        Move::Columns { table, columns } => columns_added(pre, post, table@, columns, r),
        Move::LenientColumns { table, columns } => columns_added_leniently(
            pre,
            post,
            table@,
            columns,
            r,
        ),
        Move::WidenReasoning => reasoning_widened(pre, post, r),
        Move::RecoverAgents => agents_recovered(pre, post, r),
        Move::AllowHarness => harness_ensured(pre, post, r),
        Move::MendConfigs => bad_target_reset(pre, post, r),
        Move::MakeIcons => icons_made(pre, post, r),
        Move::MakeNamespaces => namespaces_made(pre, post, r),
        Move::MakeGroups => groups_made(pre, post, r),
        Move::MakeScopes => scopes_made(pre, post, r),
        Move::MakeGroupRepositories => group_repositories_made(pre, post, r),
        Move::LoosenDecisions => decisions_loosened(pre, post, r),
    }
}

fn run_stage(db: &mut Db, stage: &Stage) -> (r: Result<(), DbError>)
    ensures
        staged(old(db)@, final(db)@, stage@, r),
{
    match stage {
        Stage::Batch(sql) => run_batch(db, sql),
        Stage::Plain(sql) => run(db, sql, params0()),
        Stage::Bounded { sql, bound } => run(db, sql, params1(p_int(*bound))),
        Stage::Upgrade { version, sql } => upgrade(db, *version, sql),
        Stage::Columns { table, columns } => add_columns(db, table, columns),
        Stage::LenientColumns { table, columns } => add_columns_leniently(db, table, columns),
        Stage::WidenReasoning => widen_reasoning(db),
        Stage::RecoverAgents => recover_agents_old_reasoning_check(db),
        Stage::AllowHarness => match migrate_agents_access_allow_harness(db) {
            Ok(_) => Ok(()),
            Err(e) => Err(e),
        },
        Stage::MendConfigs => reset_session_agent_configs_if_bad_fk(db),
        Stage::MakeIcons => make_icons(db),
        Stage::MakeNamespaces => make_namespaces(db),
        Stage::MakeGroups => make_groups(db),
        Stage::MakeScopes => make_scopes(db),
        Stage::MakeGroupRepositories => make_group_repositories(db),
        Stage::LoosenDecisions => loosen_decisions(db),
    }
}

/// Stages were done in order, up to the first that failed; `marks` are the traces before, between
/// and after those that were done.
pub open spec fn passed(
    marks: Seq<Trace>,
    pre: Trace,
    post: Trace,
    plan: Seq<Move>,
    r: Result<(), DbError>,
) -> bool {
    let n = marks.len() - 1;
    &&& 0 <= n <= plan.len()
    &&& marks[0] == pre
    &&& marks[n] == post
    &&& forall|i: int|
        0 <= i < n - 1 ==> staged(
            marks[i],
            marks[i + 1],
            #[trigger] plan[i],
            Ok::<(), DbError>(()),
        )
    &&& n > 0 ==> staged(marks[n - 1], marks[n], plan[n - 1], r)
    &&& match r {
        Ok(()) => n == plan.len(),
        Err(_) => n > 0,
    }
}

/// Stages were done in order, up to the first that failed.
pub open spec fn performed(
    pre: Trace,
    post: Trace,
    plan: Seq<Move>,
    r: Result<(), DbError>,
) -> bool {
    exists|marks: Seq<Trace>| #[trigger] passed(marks, pre, post, plan, r)
}

fn run_stages(db: &mut Db, stages: Vec<Stage>) -> (r: Result<(), DbError>)
    ensures
        performed(old(db)@, final(db)@, moves(stages@), r),
{
    let ghost plan = moves(stages@);
    let ghost mut marks: Seq<Trace> = seq![db@];
    let mut i: usize = 0;
    while i < stages.len()
        invariant
            plan == moves(stages@),
            i <= stages@.len(),
            marks.len() == i + 1,
            marks[0] == old(db)@,
            marks[i as int] == db@,
            forall|k: int|
                0 <= k < i ==> staged(
                    marks[k],
                    marks[k + 1],
                    #[trigger] plan[k],
                    Ok::<(), DbError>(()),
                ),
        decreases stages.len() - i,
    {
        let ghost was = marks;
        let done = run_stage(db, &stages[i]);
        proof {
            marks = marks.push(db@);
            assert(plan[i as int] == stages@[i as int]@);
            assert forall|k: int| 0 <= k < i implies staged(
                marks[k],
                marks[k + 1],
                #[trigger] plan[k],
                Ok::<(), DbError>(()),
            ) by {
                assert(marks[k] == was[k] && marks[k + 1] == was[k + 1]);
            }
        }
        assert(marks[i as int] == was[i as int]);
        assert(staged(marks[i as int], marks[i + 1], plan[i as int], done));
        match done {
            Ok(unit) => {
                assert(unit == ());
                assert(done == Ok::<(), DbError>(()));
            },
            Err(e) => {
                assert(passed(marks, old(db)@, db@, plan, Err::<(), DbError>(e)));
                return Err(e);
            },
        }
        i += 1;
    }
    assert(i > 0 ==> staged(marks[i - 1], marks[i as int], plan[i - 1], Ok::<(), DbError>(())));
    assert(passed(marks, old(db)@, db@, plan, Ok::<(), DbError>(())));
    Ok(())
}

pub const SQL_MESSAGE_DEDUP: &'static str = "CREATE UNIQUE INDEX IF NOT EXISTS idx_messages_dedup \
         ON messages(session_id, dedup_key) WHERE dedup_key IS NOT NULL";

pub const SQL_SESSION_RUNTIME: &'static str = "CREATE TABLE IF NOT EXISTS session_runtime (
            session_id TEXT PRIMARY KEY,
            status TEXT NOT NULL CHECK (status IN ('running', 'idle')),
            run_id TEXT,
            updated_at INTEGER NOT NULL
        )";

pub const SQL_REMOTE_INBOX: &'static str = "CREATE TABLE IF NOT EXISTS remote_inbox (
            id INTEGER PRIMARY KEY AUTOINCREMENT,
            session_id TEXT NOT NULL,
            command_id TEXT NOT NULL UNIQUE,
            kind TEXT NOT NULL,
            payload TEXT NOT NULL,
            created_at INTEGER NOT NULL,
            delivered_at INTEGER,
            attempts INTEGER NOT NULL DEFAULT 0,
            failed_at INTEGER,
            last_error TEXT
        )";

pub const SQL_DROP_INBOX_PENDING: &'static str = "DROP INDEX IF EXISTS idx_remote_inbox_pending";

pub const SQL_INBOX_PENDING: &'static str = "CREATE INDEX IF NOT EXISTS idx_remote_inbox_pending \
         ON remote_inbox(session_id, id) \
         WHERE delivered_at IS NULL AND failed_at IS NULL";

pub const SQL_REMOTE_DEVICES: &'static str = "CREATE TABLE IF NOT EXISTS remote_devices (
            device_id TEXT PRIMARY KEY,
            name TEXT NOT NULL DEFAULT '',
            token_hash TEXT NOT NULL,
            refresh_hash TEXT NOT NULL,
            access_expires_at INTEGER NOT NULL,
            created_at INTEGER NOT NULL,
            revoked_at INTEGER
        )";

pub const SQL_EXPIRY_IN_MILLIS: &'static str = "UPDATE remote_devices \
            SET access_expires_at = access_expires_at * 1000 \
          WHERE access_expires_at > 0 AND access_expires_at < ?1";

pub const SQL_DEVICE_ROOMS: &'static str = "UPDATE remote_devices \
            SET room_id = (SELECT value FROM app_settings WHERE key = 'remote_room_id') \
          WHERE room_id IS NULL \
            AND EXISTS (SELECT 1 FROM app_settings WHERE key = 'remote_room_id')";

pub const SQL_REGISTRY_COUNTER: &'static str = "CREATE TABLE IF NOT EXISTS remote_registry_counter (
            room_id TEXT PRIMARY KEY,
            next_generation INTEGER NOT NULL CHECK (next_generation > 0)
        )";

pub const SQL_PROJECT_ROOMS: &'static str = "CREATE TABLE IF NOT EXISTS project_remote_rooms (
            project_id TEXT PRIMARY KEY,
            room_id TEXT NOT NULL UNIQUE,
            created_at_ms INTEGER NOT NULL
        )";

pub const ACCESS_EXPIRES_MILLIS_THRESHOLD: i64 = 100_000_000_000;

pub const GENERATED_REPORTS_SCHEMA_VERSION: i64 = 1;

/// The tables, and the columns that old databases lack in them.
pub open spec fn foundation_plan() -> Seq<Move> {
    seq![
        Move::Batch(SQL_TABLES),
        Move::Upgrade { version: GENERATED_REPORTS_SCHEMA_VERSION, sql: SQL_DOCUMENT_TABLES },
        Move::Columns {
            table: "checkpoint_entries",
            columns: seq![
                Column { name: "allowed_root", declaration: "TEXT" },
                Column { name: "pre_xattrs", declaration: "BLOB" },
                Column { name: "post_sha", declaration: "TEXT" },
                Column { name: "post_missing", declaration: "INTEGER NOT NULL DEFAULT 0" },
                Column { name: "post_file_type", declaration: "TEXT" },
                Column { name: "post_mode", declaration: "INTEGER" },
                Column { name: "post_nlink", declaration: "INTEGER" },
                Column { name: "post_inode", declaration: "INTEGER" },
                Column { name: "post_xattr_sha", declaration: "TEXT" },
                Column { name: "post_tainted", declaration: "INTEGER NOT NULL DEFAULT 0" },
                Column { name: "undone_at", declaration: "INTEGER" },
            ],
        },
        Move::Columns {
            table: "messages",
            columns: seq![
                Column { name: "agent_id", declaration: "TEXT" },
                Column { name: "agent_name_snapshot", declaration: "TEXT" },
            ],
        },
        Move::Columns {
            table: "memory_blocks",
            columns: seq![
                Column { name: "revision", declaration: "INTEGER NOT NULL DEFAULT 0" },
                Column { name: "updated_run_id", declaration: "TEXT" },
            ],
        },
        Move::Columns {
            table: "agents",
            columns: seq![
                Column { name: "cap_lead", declaration: "TEXT" },
            ],
        },
    ]
}

fn foundation_stages() -> (stages: Vec<Stage>)
    ensures
        moves(stages@) == foundation_plan(),
{
    let mut stages: Vec<Stage> = Vec::new();
    stages.push(Stage::Batch(SQL_TABLES));
    stages.push(
        Stage::Upgrade { version: GENERATED_REPORTS_SCHEMA_VERSION, sql: SQL_DOCUMENT_TABLES },
    );
    stages.push(
        Stage::Columns {
            table: "checkpoint_entries",
            columns: vec![
                Column { name: "allowed_root", declaration: "TEXT" },
                Column { name: "pre_xattrs", declaration: "BLOB" },
                Column { name: "post_sha", declaration: "TEXT" },
                Column { name: "post_missing", declaration: "INTEGER NOT NULL DEFAULT 0" },
                Column { name: "post_file_type", declaration: "TEXT" },
                Column { name: "post_mode", declaration: "INTEGER" },
                Column { name: "post_nlink", declaration: "INTEGER" },
                Column { name: "post_inode", declaration: "INTEGER" },
                Column { name: "post_xattr_sha", declaration: "TEXT" },
                Column { name: "post_tainted", declaration: "INTEGER NOT NULL DEFAULT 0" },
                Column { name: "undone_at", declaration: "INTEGER" },
            ],
        },
    );
    stages.push(
        Stage::Columns {
            table: "messages",
            columns: vec![
                Column { name: "agent_id", declaration: "TEXT" },
                Column { name: "agent_name_snapshot", declaration: "TEXT" },
            ],
        },
    );
    stages.push(
        Stage::Columns {
            table: "memory_blocks",
            columns: vec![
                Column { name: "revision", declaration: "INTEGER NOT NULL DEFAULT 0" },
                Column { name: "updated_run_id", declaration: "TEXT" },
            ],
        },
    );
    stages.push(
        Stage::Columns {
            table: "agents",
            columns: vec![Column { name: "cap_lead", declaration: "TEXT" }],
        },
    );
    let ghost said = moves(stages@);
    assert(said[2]->Columns_columns =~= foundation_plan()[2]->Columns_columns);
    assert(said[3]->Columns_columns =~= foundation_plan()[3]->Columns_columns);
    assert(said[4]->Columns_columns =~= foundation_plan()[4]->Columns_columns);
    assert(said[5]->Columns_columns =~= foundation_plan()[5]->Columns_columns);
    assert(said =~= foundation_plan());
    stages
}

/// The upgrades of the agents' table and of what refers to it.
pub open spec fn agent_plan() -> Seq<Move> {
    seq![
        Move::WidenReasoning,
        Move::RecoverAgents,
        Move::AllowHarness,
        Move::MendConfigs,
    ]
}

fn agent_stages() -> (stages: Vec<Stage>)
    ensures
        moves(stages@) == agent_plan(),
{
    let mut stages: Vec<Stage> = Vec::new();
    stages.push(Stage::WidenReasoning);
    stages.push(Stage::RecoverAgents);
    stages.push(Stage::AllowHarness);
    stages.push(Stage::MendConfigs);
    let ghost said = moves(stages@);
    assert(said =~= agent_plan());
    stages
}

/// The columns of sessions, contracts and repositories that came with repositories and namespaces.
pub open spec fn repository_plan() -> Seq<Move> {
    seq![
        Move::Columns {
            table: "sessions",
            columns: seq![
                Column {
                    name: "repo_id",
                    declaration: "TEXT REFERENCES repos(id) ON DELETE SET NULL",
                },
            ],
        },
        Move::LenientColumns {
            table: "goal_contracts",
            columns: seq![
                Column { name: "assignments_json", declaration: "TEXT NOT NULL DEFAULT '[]'" },
            ],
        },
        Move::LenientColumns {
            table: "goal_contracts",
            columns: seq![
                Column { name: "goal_title", declaration: "TEXT" },
            ],
        },
        Move::MakeIcons,
        Move::MakeNamespaces,
        Move::MakeGroups,
    ]
}

fn repository_stages() -> (stages: Vec<Stage>)
    ensures
        moves(stages@) == repository_plan(),
{
    let mut stages: Vec<Stage> = Vec::new();
    stages.push(
        Stage::Columns {
            table: "sessions",
            columns: vec![
                Column {
                    name: "repo_id",
                    declaration: "TEXT REFERENCES repos(id) ON DELETE SET NULL",
                },
            ],
        },
    );
    stages.push(
        Stage::LenientColumns {
            table: "goal_contracts",
            columns: vec![
                Column { name: "assignments_json", declaration: "TEXT NOT NULL DEFAULT '[]'" },
            ],
        },
    );
    stages.push(
        Stage::LenientColumns {
            table: "goal_contracts",
            columns: vec![Column { name: "goal_title", declaration: "TEXT" }],
        },
    );
    stages.push(Stage::MakeIcons);
    stages.push(Stage::MakeNamespaces);
    stages.push(Stage::MakeGroups);
    let ghost said = moves(stages@);
    assert(said[0]->Columns_columns =~= repository_plan()[0]->Columns_columns);
    assert(said[1]->LenientColumns_columns =~= repository_plan()[1]->LenientColumns_columns);
    assert(said[2]->LenientColumns_columns =~= repository_plan()[2]->LenientColumns_columns);
    assert(said =~= repository_plan());
    stages
}

/// The later columns of sessions, groups and decisions.
pub open spec fn session_plan() -> Seq<Move> {
    seq![
        Move::Columns {
            table: "sessions",
            columns: seq![
                Column { name: "git_state", declaration: "TEXT NOT NULL DEFAULT 'clean'" },
            ],
        },
        Move::Columns {
            table: "sessions",
            columns: seq![
                Column { name: "parent_session_id", declaration: "TEXT" },
            ],
        },
        Move::Columns {
            table: "sessions",
            columns: seq![
                Column { name: "continued_to_session_id", declaration: "TEXT" },
            ],
        },
        Move::Columns {
            table: "sessions",
            columns: seq![
                Column { name: "pinned", declaration: "INTEGER NOT NULL DEFAULT 0" },
            ],
        },
        Move::Columns {
            table: "sessions",
            columns: seq![
                Column { name: "unread", declaration: "INTEGER NOT NULL DEFAULT 0" },
            ],
        },
        Move::Columns {
            table: "sessions",
            columns: seq![
                Column { name: "archived", declaration: "INTEGER NOT NULL DEFAULT 0" },
            ],
        },
        Move::Columns {
            table: "sessions",
            columns: seq![
                Column { name: "archived_at", declaration: "INTEGER" },
            ],
        },
        Move::Columns {
            table: "sessions",
            columns: seq![
                Column { name: "deleted_at", declaration: "INTEGER" },
            ],
        },
        Move::Columns {
            table: "sessions",
            columns: seq![
                Column { name: "total_input_tokens", declaration: "INTEGER NOT NULL DEFAULT 0" },
            ],
        },
        Move::Columns {
            table: "sessions",
            columns: seq![
                Column { name: "total_output_tokens", declaration: "INTEGER NOT NULL DEFAULT 0" },
            ],
        },
        Move::MakeScopes,
        Move::MakeGroupRepositories,
        Move::LoosenDecisions,
    ]
}

fn session_stages() -> (stages: Vec<Stage>)
    ensures
        moves(stages@) == session_plan(),
{
    let mut stages: Vec<Stage> = Vec::new();
    stages.push(
        Stage::Columns {
            table: "sessions",
            columns: vec![
                Column { name: "git_state", declaration: "TEXT NOT NULL DEFAULT 'clean'" },
            ],
        },
    );
    stages.push(
        Stage::Columns {
            table: "sessions",
            columns: vec![Column { name: "parent_session_id", declaration: "TEXT" }],
        },
    );
    stages.push(
        Stage::Columns {
            table: "sessions",
            columns: vec![Column { name: "continued_to_session_id", declaration: "TEXT" }],
        },
    );
    stages.push(
        Stage::Columns {
            table: "sessions",
            columns: vec![Column { name: "pinned", declaration: "INTEGER NOT NULL DEFAULT 0" }],
        },
    );
    stages.push(
        Stage::Columns {
            table: "sessions",
            columns: vec![Column { name: "unread", declaration: "INTEGER NOT NULL DEFAULT 0" }],
        },
    );
    stages.push(
        Stage::Columns {
            table: "sessions",
            columns: vec![Column { name: "archived", declaration: "INTEGER NOT NULL DEFAULT 0" }],
        },
    );
    stages.push(
        Stage::Columns {
            table: "sessions",
            columns: vec![Column { name: "archived_at", declaration: "INTEGER" }],
        },
    );
    stages.push(
        Stage::Columns {
            table: "sessions",
            columns: vec![Column { name: "deleted_at", declaration: "INTEGER" }],
        },
    );
    stages.push(
        Stage::Columns {
            table: "sessions",
            columns: vec![
                Column { name: "total_input_tokens", declaration: "INTEGER NOT NULL DEFAULT 0" },
            ],
        },
    );
    stages.push(
        Stage::Columns {
            table: "sessions",
            columns: vec![
                Column { name: "total_output_tokens", declaration: "INTEGER NOT NULL DEFAULT 0" },
            ],
        },
    );
    stages.push(Stage::MakeScopes);
    stages.push(Stage::MakeGroupRepositories);
    stages.push(Stage::LoosenDecisions);
    let ghost said = moves(stages@);
    assert(said[0]->Columns_columns =~= session_plan()[0]->Columns_columns);
    assert(said[1]->Columns_columns =~= session_plan()[1]->Columns_columns);
    assert(said[2]->Columns_columns =~= session_plan()[2]->Columns_columns);
    assert(said[3]->Columns_columns =~= session_plan()[3]->Columns_columns);
    assert(said[4]->Columns_columns =~= session_plan()[4]->Columns_columns);
    assert(said[5]->Columns_columns =~= session_plan()[5]->Columns_columns);
    assert(said[6]->Columns_columns =~= session_plan()[6]->Columns_columns);
    assert(said[7]->Columns_columns =~= session_plan()[7]->Columns_columns);
    assert(said[8]->Columns_columns =~= session_plan()[8]->Columns_columns);
    assert(said[9]->Columns_columns =~= session_plan()[9]->Columns_columns);
    assert(said =~= session_plan());
    stages
}

/// The key that keeps a message from being stored twice, the state of sessions, and the inbox.
pub open spec fn inbox_plan() -> Seq<Move> {
    seq![
        Move::Columns {
            table: "messages",
            columns: seq![
                Column { name: "dedup_key", declaration: "TEXT" },
            ],
        },
        Move::Plain(SQL_MESSAGE_DEDUP),
        Move::Plain(SQL_SESSION_RUNTIME),
        Move::Plain(SQL_REMOTE_INBOX),
        Move::Columns {
            table: "remote_inbox",
            columns: seq![
                Column { name: "attempts", declaration: "INTEGER NOT NULL DEFAULT 0" },
                Column { name: "failed_at", declaration: "INTEGER" },
                Column { name: "last_error", declaration: "TEXT" },
            ],
        },
        Move::Plain(SQL_DROP_INBOX_PENDING),
        Move::Plain(SQL_INBOX_PENDING),
    ]
}

fn inbox_stages() -> (stages: Vec<Stage>)
    ensures
        moves(stages@) == inbox_plan(),
{
    let mut stages: Vec<Stage> = Vec::new();
    stages.push(
        Stage::Columns {
            table: "messages",
            columns: vec![Column { name: "dedup_key", declaration: "TEXT" }],
        },
    );
    stages.push(Stage::Plain(SQL_MESSAGE_DEDUP));
    stages.push(Stage::Plain(SQL_SESSION_RUNTIME));
    stages.push(Stage::Plain(SQL_REMOTE_INBOX));
    stages.push(
        Stage::Columns {
            table: "remote_inbox",
            columns: vec![
                Column { name: "attempts", declaration: "INTEGER NOT NULL DEFAULT 0" },
                Column { name: "failed_at", declaration: "INTEGER" },
                Column { name: "last_error", declaration: "TEXT" },
            ],
        },
    );
    stages.push(Stage::Plain(SQL_DROP_INBOX_PENDING));
    stages.push(Stage::Plain(SQL_INBOX_PENDING));
    let ghost said = moves(stages@);
    assert(said[0]->Columns_columns =~= inbox_plan()[0]->Columns_columns);
    assert(said[4]->Columns_columns =~= inbox_plan()[4]->Columns_columns);
    assert(said =~= inbox_plan());
    stages
}

/// The paired devices, the counters of their rooms, and the rooms of projects.
pub open spec fn device_plan() -> Seq<Move> {
    seq![
        Move::Plain(SQL_REMOTE_DEVICES),
        Move::Columns {
            table: "remote_devices",
            columns: seq![
                Column { name: "room_id", declaration: "TEXT" },
                Column { name: "generation", declaration: "INTEGER" },
                Column { name: "refresh_until", declaration: "INTEGER" },
                Column { name: "journal_request_id", declaration: "TEXT" },
                Column { name: "journal_generation", declaration: "INTEGER" },
                Column { name: "journal_prev_generation", declaration: "INTEGER" },
                Column { name: "journal_prev_access_hash", declaration: "TEXT" },
                Column { name: "journal_prev_refresh_hash", declaration: "TEXT" },
                Column { name: "journal_response_ct", declaration: "TEXT" },
                Column { name: "journal_response_n", declaration: "TEXT" },
                Column { name: "journal_prev_expires_at", declaration: "INTEGER" },
                Column { name: "journal_response_expires", declaration: "INTEGER" },
            ],
        },
        Move::Bounded { sql: SQL_EXPIRY_IN_MILLIS, bound: ACCESS_EXPIRES_MILLIS_THRESHOLD },
        Move::Plain(SQL_DEVICE_ROOMS),
        Move::Plain(SQL_REGISTRY_COUNTER),
        Move::Plain(SQL_PROJECT_ROOMS),
    ]
}

fn device_stages() -> (stages: Vec<Stage>)
    ensures
        moves(stages@) == device_plan(),
{
    let mut stages: Vec<Stage> = Vec::new();
    stages.push(Stage::Plain(SQL_REMOTE_DEVICES));
    stages.push(
        Stage::Columns {
            table: "remote_devices",
            columns: vec![
                Column { name: "room_id", declaration: "TEXT" },
                Column { name: "generation", declaration: "INTEGER" },
                Column { name: "refresh_until", declaration: "INTEGER" },
                Column { name: "journal_request_id", declaration: "TEXT" },
                Column { name: "journal_generation", declaration: "INTEGER" },
                Column { name: "journal_prev_generation", declaration: "INTEGER" },
                Column { name: "journal_prev_access_hash", declaration: "TEXT" },
                Column { name: "journal_prev_refresh_hash", declaration: "TEXT" },
                Column { name: "journal_response_ct", declaration: "TEXT" },
                Column { name: "journal_response_n", declaration: "TEXT" },
                Column { name: "journal_prev_expires_at", declaration: "INTEGER" },
                Column { name: "journal_response_expires", declaration: "INTEGER" },
            ],
        },
    );
    stages.push(
        Stage::Bounded { sql: SQL_EXPIRY_IN_MILLIS, bound: ACCESS_EXPIRES_MILLIS_THRESHOLD },
    );
    stages.push(Stage::Plain(SQL_DEVICE_ROOMS));
    stages.push(Stage::Plain(SQL_REGISTRY_COUNTER));
    stages.push(Stage::Plain(SQL_PROJECT_ROOMS));
    let ghost said = moves(stages@);
    assert(said[1]->Columns_columns =~= device_plan()[1]->Columns_columns);
    assert(said =~= device_plan());
    stages
}

/// All that is done to set up a database, or to bring an old one up to date.
pub open spec fn schema_plan() -> Seq<Move> {
    foundation_plan() + agent_plan() + repository_plan() + session_plan() + inbox_plan() + device_plan()
}

/// Sets up the database: makes the tables that are not there, and brings those of an old database
/// up to date. On a database that is up to date already it changes nothing.
pub fn init_schema(db: &mut Db) -> (r: Result<(), DbError>)
    ensures
        performed(old(db)@, final(db)@, schema_plan(), r),
{
    let mut stages = foundation_stages();
    let mut agent = agent_stages();
    let ghost was = stages@;
    let ghost more = agent@;
    stages.append(&mut agent);
    assert(moves(stages@) =~= moves(was) + moves(more));
    let mut repository = repository_stages();
    let ghost was = stages@;
    let ghost more = repository@;
    stages.append(&mut repository);
    assert(moves(stages@) =~= moves(was) + moves(more));
    let mut session = session_stages();
    let ghost was = stages@;
    let ghost more = session@;
    stages.append(&mut session);
    assert(moves(stages@) =~= moves(was) + moves(more));
    let mut inbox = inbox_stages();
    let ghost was = stages@;
    let ghost more = inbox@;
    stages.append(&mut inbox);
    assert(moves(stages@) =~= moves(was) + moves(more));
    let mut device = device_stages();
    let ghost was = stages@;
    let ghost more = device@;
    stages.append(&mut device);
    assert(moves(stages@) =~= moves(was) + moves(more));
    assert(moves(stages@) =~= schema_plan());
    run_stages(db, stages)
}

pub const SQL_MIGRATE_NULL_REPO_ID_TO_LOCAL_DEFAULT: &'static str = "UPDATE sessions SET repo_id = 'local-default' WHERE repo_id IS NULL";

/// Binds the sessions without a repository to the local default; how many there were.
pub fn migrate_null_repo_id_to_local_default(db: &mut Db) -> (r: Result<usize, DbError>)
    ensures
        rows::counted(
            old(db)@,
            final(db)@,
            SQL_MIGRATE_NULL_REPO_ID_TO_LOCAL_DEFAULT@,
            Seq::<Datum>::empty(),
            r,
        ),
{
    run_counted(db, SQL_MIGRATE_NULL_REPO_ID_TO_LOCAL_DEFAULT, params0())
}

pub const SQL_MIGRATE_BACKFILL_DEDUP_KEYS: &'static str = "UPDATE messages SET dedup_key = 'backfill:' || id \
         WHERE dedup_key IS NULL AND role IN ('user', 'assistant')";

/// Gives the messages of users and assistants that have no key one made of their id; how many there
/// were.
pub fn migrate_backfill_dedup_keys(db: &mut Db) -> (r: Result<usize, DbError>)
    ensures
        rows::counted(
            old(db)@,
            final(db)@,
            SQL_MIGRATE_BACKFILL_DEDUP_KEYS@,
            Seq::<Datum>::empty(),
            r,
        ),
{
    run_counted(db, SQL_MIGRATE_BACKFILL_DEDUP_KEYS, params0())
}

pub const SQL_MIGRATE_LOCAL_DEFAULT_NAME: &'static str = "UPDATE repos SET name = '我的项目' WHERE id = 'local-default' AND name = 'Local 默认'";

/// Renames the local default, where it still has its first name; how many rows that changed.
pub fn migrate_local_default_name(db: &mut Db) -> (r: Result<usize, DbError>)
    ensures
        rows::counted(
            old(db)@,
            final(db)@,
            SQL_MIGRATE_LOCAL_DEFAULT_NAME@,
            Seq::<Datum>::empty(),
            r,
        ),
{
    run_counted(db, SQL_MIGRATE_LOCAL_DEFAULT_NAME, params0())
}

pub const SQL_MIGRATE_REMOVE_PLACEHOLDER_DEEPSEEK: &'static str = "DELETE FROM agents WHERE id = 'deepseek' AND is_builtin = 1 AND has_key = 0";

/// Removes the builtin agent that stood in for one without a key; how many rows that changed.
pub fn migrate_remove_placeholder_deepseek(db: &mut Db) -> (r: Result<usize, DbError>)
    ensures
        rows::counted(
            old(db)@,
            final(db)@,
            SQL_MIGRATE_REMOVE_PLACEHOLDER_DEEPSEEK@,
            Seq::<Datum>::empty(),
            r,
        ),
{
    run_counted(db, SQL_MIGRATE_REMOVE_PLACEHOLDER_DEEPSEEK, params0())
}

pub const SQL_NAMESPACE_OF_REPO: &'static str = "UPDATE sessions
         SET namespace_id = (SELECT namespace_id FROM repos WHERE repos.id = sessions.repo_id)
         WHERE sessions.repo_id IS NOT NULL
           AND EXISTS (
               SELECT 1 FROM repos
               WHERE repos.id = sessions.repo_id
                 AND repos.namespace_id IS NOT NULL
                 AND repos.namespace_id IS NOT sessions.namespace_id
           )";

pub const SQL_LOCAL_NAMESPACE: &'static str = "UPDATE sessions SET namespace_id = 'local' WHERE namespace_id IS NULL";

/// Sessions were given the namespace of their repository, counted by `n1`.
pub open spec fn repo_namespaces_filled(
    pre: Trace,
    post: Trace,
    n1: Result<usize, DbError>,
) -> bool {
    rows::counted(pre, post, SQL_NAMESPACE_OF_REPO@, Seq::<Datum>::empty(), n1)
}

/// Sessions without a namespace were given the local one, counted by `n2`.
pub open spec fn local_namespaces_filled(
    pre: Trace,
    post: Trace,
    n2: Result<usize, DbError>,
) -> bool {
    rows::counted(pre, post, SQL_LOCAL_NAMESPACE@, Seq::<Datum>::empty(), n2)
}

/// Gives the sessions whose namespace is not that of their repository, or that have none, the
/// repository's; those that have none then, the local one. How many there were, at most the largest
/// `usize`.
pub fn backfill_session_namespace_id(db: &mut Db) -> (r: Result<usize, DbError>)
    ensures
        exists|mid: Trace, n1: Result<usize, DbError>|
            {
                &&& #[trigger] repo_namespaces_filled(old(db)@, mid, n1)
                &&& match n1 {
                    Ok(a) => exists|n2: Result<usize, DbError>|
                        {
                            &&& #[trigger] local_namespaces_filled(mid, final(db)@, n2)
                            &&& r == match n2 {
                                Ok(b) => Ok::<usize, DbError>(
                                    if a + b <= usize::MAX {
                                        (a + b) as usize
                                    } else {
                                        usize::MAX
                                    },
                                ),
                                Err(e) => Err(e),
                            }
                        },
                    Err(e) => final(db)@ == mid && r == n1,
                }
            },
{
    let n1 = run_counted(db, SQL_NAMESPACE_OF_REPO, params0());
    let ghost mid = db@;
    assert(repo_namespaces_filled(old(db)@, mid, n1));
    let a = match n1 {
        Ok(a) => a,
        Err(e) => return Err(e),
    };
    let n2 = run_counted(db, SQL_LOCAL_NAMESPACE, params0());
    assert(local_namespaces_filled(mid, db@, n2));
    match n2 {
        Ok(b) => Ok(a.saturating_add(b)),
        Err(e) => Err(e),
    }
}

} // verus!
