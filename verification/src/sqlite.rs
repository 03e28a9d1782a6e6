//! The calls into SQLite.
//!
//! A `Link` holds a connection together with the trace of it, which is ghost state: nothing is
//! written at run time. Both are private to this module, and every call is made on a link, so that
//! whatever is asked of SQLite stands in the trace of the connection that it was asked of, with the
//! reply that came back.
use vstd::prelude::*;

use crate::engine::{self, Cell, Datum, Param, Reply, Request, Step, Trace};
use crate::events::Notice;
use crate::rows::{self, Kind, Read};

verus! {

/// A connection to an SQLite database (`rusqlite::Connection`). Opaque.
#[verifier::external_type_specification]
#[verifier::external_body]
pub struct ExConnection(rusqlite::Connection);

/// An error of an SQLite call (`rusqlite::Error`). Opaque.
#[verifier::external_type_specification]
#[verifier::external_body]
pub struct ExError(rusqlite::Error);

/// A row of a running query (`rusqlite::Row`). Opaque.
#[verifier::external_type_specification]
#[verifier::external_body]
pub struct ExRow<'stmt>(rusqlite::Row<'stmt>);

/// `rusqlite::types::Value`, the type that rusqlite binds. Opaque.
#[verifier::external_type_specification]
#[verifier::external_body]
pub struct ExBindable(rusqlite::types::Value);

/// The text by which an error of SQLite is reported: its `Display`.
pub uninterp spec fn error_text(e: rusqlite::Error) -> Seq<char>;

/// What a value that rusqlite binds is.
pub uninterp spec fn value_datum(value: rusqlite::types::Value) -> Datum;

/// What values that rusqlite binds are.
pub open spec fn values_data(values: Seq<rusqlite::types::Value>) -> Seq<Datum> {
    values.map_values(|v: rusqlite::types::Value| value_datum(v))
}

/// The values in the columns of a row, in order; none for a text that is not UTF-8.
pub uninterp spec fn row_values(row: &rusqlite::Row) -> Seq<Option<Datum>>;

/// Whether a column of a row can be read: the row has it, and its value is of the kind that is
/// read.
pub open spec fn readable(row: &rusqlite::Row, read: Read) -> bool {
    &&& read.index < row_values(row).len()
    &&& row_values(row)[read.index as int] matches Some(d)
    &&& rows::of_kind(d, read.kind)
}

/// `rusqlite::Error`'s `Display`.
#[verifier::external_body]
pub(crate) fn sqlite_error_text(e: &rusqlite::Error) -> (s: String)
    ensures
        s@ == error_text(*e),
{
    e.to_string()
}

/// A parameter as `rusqlite::types::Value`, the type that rusqlite binds, variant for variant.
#[verifier::external_body]
fn bindable(param: &Param) -> (value: rusqlite::types::Value)
    ensures
        value_datum(value) == param@,
{
    match param {
        Param::Null => rusqlite::types::Value::Null,
        Param::Integer(n) => rusqlite::types::Value::Integer(*n),
        Param::Text(s) => rusqlite::types::Value::Text(s.clone()),
    }
}

/// Parameters as rusqlite binds them.
pub(crate) fn bindables(params: &Vec<Param>) -> (values: Vec<rusqlite::types::Value>)
    ensures
        values_data(values@) == engine::bound_data(params@),
{
    let mut values: Vec<rusqlite::types::Value> = Vec::new();
    let mut i: usize = 0;
    while i < params.len()
        invariant
            i <= params@.len(),
            values@.len() == i,
            forall|k: int| 0 <= k < i ==> value_datum(#[trigger] values@[k]) == params@[k]@,
        decreases params.len() - i,
    {
        values.push(bindable(&params[i]));
        i += 1;
    }
    assert(values_data(values@) =~= engine::bound_data(params@));
    values
}

/// `Row::get`, for the Rust type of a kind: the value in one column of a row. There is an error
/// exactly where the row has no such column, where its value is of another kind, and where it is a
/// text that is not UTF-8.
#[verifier::external_body]
fn column(row: &rusqlite::Row, read: Read) -> (r: Result<Cell, rusqlite::Error>)
    ensures
        r is Ok <==> readable(row, read),
        r matches Ok(cell) ==> row_values(row)[read.index as int] == Some(cell@),
{
    Ok(
        match read.kind {
            Kind::Int => Cell::Integer(row.get(read.index)?),
            Kind::OptInt =>
                row.get::<_, Option<i64>>(read.index)?.map_or(Cell::Null, Cell::Integer),
            Kind::Text => Cell::Text(row.get(read.index)?),
            Kind::OptText =>
                row.get::<_, Option<String>>(read.index)?.map_or(Cell::Null, Cell::Text),
            Kind::Natural => Cell::Integer(row.get::<_, u64>(read.index)? as i64),
        },
    )
}

/// Columns of a row; an error where one of them cannot be read.
pub(crate) fn columns(row: &rusqlite::Row, reads: &Vec<Read>) -> (r: Result<
    Vec<Cell>,
    rusqlite::Error,
>)
    ensures
        r is Ok <==> forall|i: int| 0 <= i < reads@.len() ==> readable(row, #[trigger] reads@[i]),
        r matches Ok(cells) ==> {
            &&& rows::fits(engine::row_data(cells@), reads@)
            &&& forall|i: int|
                0 <= i < reads@.len() ==> row_values(row)[(#[trigger] reads@[i]).index as int]
                    == Some(cells@[i]@)
        },
{
    let mut cells: Vec<Cell> = Vec::new();
    let mut i: usize = 0;
    while i < reads.len()
        invariant
            i <= reads@.len(),
            cells@.len() == i,
            forall|k: int| 0 <= k < i ==> readable(row, #[trigger] reads@[k]),
            forall|k: int|
                0 <= k < i ==> row_values(row)[(#[trigger] reads@[k]).index as int] == Some(
                    cells@[k]@,
                ),
        decreases reads.len() - i,
    {
        match column(row, reads[i]) {
            Ok(cell) => cells.push(cell),
            Err(e) => {
                assert(!readable(row, reads@[i as int]));
                return Err(e);
            },
        }
        i += 1;
    }
    assert forall|k: int| 0 <= k < reads@.len() implies rows::of_kind(
        engine::row_data(cells@)[k],
        (#[trigger] reads@[k]).kind,
    ) by {
        assert(engine::row_data(cells@)[k] == cells@[k]@);
    }
    Ok(cells)
}

/// The reply to a statement.
pub open spec fn changed_reply(r: Result<usize, rusqlite::Error>) -> Reply {
    match r {
        Ok(n) => Reply::Changed(n as nat),
        Err(e) => Reply::Failed(error_text(e)),
    }
}

/// The reply to a list of statements.
pub open spec fn done_reply(r: Result<(), rusqlite::Error>) -> Reply {
    match r {
        Ok(()) => Reply::Done,
        Err(e) => Reply::Failed(error_text(e)),
    }
}

/// The reply to a query for its first row.
pub open spec fn row_reply(r: Result<Option<Vec<Cell>>, rusqlite::Error>) -> Reply {
    match r {
        Ok(Some(row)) => Reply::Row(Some(engine::row_data(row@))),
        Ok(None) => Reply::Row(None),
        Err(e) => Reply::Failed(error_text(e)),
    }
}

/// What came of reading one row among several.
pub open spec fn one_row(r: Result<Vec<Cell>, rusqlite::Error>) -> Result<Seq<Datum>, Seq<char>> {
    match r {
        Ok(row) => Ok(engine::row_data(row@)),
        Err(e) => Err(error_text(e)),
    }
}

/// The reply to a query for all its rows.
pub open spec fn rows_reply(
    r: Result<Vec<Result<Vec<Cell>, rusqlite::Error>>, rusqlite::Error>,
) -> Reply {
    match r {
        Ok(rows) => Reply::Rows(
            rows@.map_values(|row: Result<Vec<Cell>, rusqlite::Error>| one_row(row)),
        ),
        Err(e) => Reply::Failed(error_text(e)),
    }
}

/// A connection to a database, and the trace of it.
pub struct Link {
    conn: rusqlite::Connection,
    steps: Ghost<Trace>,
}

impl Link {
    /// The trace of the connection.
    pub closed spec fn view(&self) -> Trace {
        self.steps@
    }

    /// The connection.
    pub closed spec fn handle(&self) -> rusqlite::Connection {
        self.conn
    }

    /// A link of which nothing has been asked yet.
    pub(crate) fn new(conn: rusqlite::Connection) -> (link: Link)
        ensures
            link@ == Trace::empty(),
            link.handle() == conn,
    {
        Link { conn, steps: Ghost(Seq::empty()) }
    }

    pub(crate) fn connection(&self) -> (conn: &rusqlite::Connection)
        ensures
            *conn == self.handle(),
    {
        &self.conn
    }

    /// Notes that a milestone was published.
    pub(crate) fn note_published(&mut self, Ghost(notice): Ghost<Notice>)
        ensures
            final(self)@ == old(self)@.push(Step::Published(notice)),
            final(self).handle() == old(self).handle(),
        no_unwind
    {
        self.steps = Ghost(self.steps@.push(Step::Published(notice)));
    }

    /// Notes that the milestones were handed over.
    pub(crate) fn note_drained(&mut self)
        ensures
            final(self)@ == old(self)@.push(Step::Drained),
            final(self).handle() == old(self).handle(),
        no_unwind
    {
        self.steps = Ghost(self.steps@.push(Step::Drained));
    }

    /// `Connection::execute`: runs one statement with its parameters bound in order. How many rows
    /// it changes, and whether it succeeds, the database decides; the trace gets the request and
    /// the reply.
    #[verifier::external_body]
    pub(crate) fn execute(&mut self, sql: &str, values: &Vec<rusqlite::types::Value>) -> (r: Result<
        usize,
        rusqlite::Error,
    >)
        ensures
            final(self)@ == old(self)@.push(
                Step::Asked {
                    request: Request::Execute { sql: sql@, params: values_data(values@) },
                    reply: changed_reply(r),
                },
            ),
            final(self).handle() == old(self).handle(),
        no_unwind
    {
        self.conn.execute(sql, rusqlite::params_from_iter(values))
    }

    /// `Connection::execute_batch`: runs a list of statements. Whether it succeeds, the database
    /// decides; the trace gets the request and the reply.
    #[verifier::external_body]
    pub(crate) fn execute_batch(&mut self, sql: &str) -> (r: Result<(), rusqlite::Error>)
        ensures
            final(self)@ == old(self)@.push(
                Step::Asked { request: Request::Batch { sql: sql@ }, reply: done_reply(r) },
            ),
            final(self).handle() == old(self).handle(),
        no_unwind
    {
        self.conn.execute_batch(sql)
    }

    /// `Connection::query_row` under `OptionalExtension::optional`: the first row of a query, read
    /// through `columns`, or `None` where there is none. What the row holds, the database decides;
    /// the trace gets the request and the reply.
    #[verifier::external_body]
    pub(crate) fn query_row(
        &mut self,
        sql: &str,
        values: &Vec<rusqlite::types::Value>,
        reads: &Vec<Read>,
    ) -> (r: Result<Option<Vec<Cell>>, rusqlite::Error>)
        ensures
            r matches Ok(Some(row)) ==> rows::fits(engine::row_data(row@), reads@),
            final(self)@ == old(self)@.push(
                Step::Asked {
                    request: Request::First {
                        sql: sql@,
                        params: values_data(values@),
                        reads: reads@,
                    },
                    reply: row_reply(r),
                },
            ),
            final(self).handle() == old(self).handle(),
        no_unwind
    {
        let bound = rusqlite::params_from_iter(values);
        let row = self.conn.query_row(sql, bound, |row| columns(row, reads));
        rusqlite::OptionalExtension::optional(row)
    }

    /// `Statement::query_map` on a statement from `Connection::prepare`: all rows of a query, each
    /// read through `columns`, or the error in its place. How many rows there are and what they
    /// hold, the database decides; the trace gets the request and the reply.
    #[verifier::external_body]
    pub(crate) fn query_map(
        &mut self,
        sql: &str,
        values: &Vec<rusqlite::types::Value>,
        reads: &Vec<Read>,
    ) -> (r: Result<Vec<Result<Vec<Cell>, rusqlite::Error>>, rusqlite::Error>)
        ensures
            r matches Ok(rows) ==> forall|i: int|
                0 <= i < rows@.len() ==> (#[trigger] rows@[i] matches Ok(row) ==> rows::fits(
                    engine::row_data(row@),
                    reads@,
                )),
            final(self)@ == old(self)@.push(
                Step::Asked {
                    request: Request::All {
                        sql: sql@,
                        params: values_data(values@),
                        reads: reads@,
                    },
                    reply: rows_reply(r),
                },
            ),
            final(self).handle() == old(self).handle(),
        no_unwind
    {
        let mut statement = self.conn.prepare(sql)?;
        let bound = rusqlite::params_from_iter(values);
        let rows = statement.query_map(bound, |row| columns(row, reads))?;
        Ok(rows.collect())
    }

    /// `Connection::changes`: how many rows the last statement changed. The database decides; the
    /// trace gets the request and the reply.
    #[verifier::external_body]
    pub(crate) fn changes(&mut self) -> (n: u64)
        ensures
            final(self)@ == old(self)@.push(
                Step::Asked { request: Request::Changes, reply: Reply::Count(n) },
            ),
            final(self).handle() == old(self).handle(),
        no_unwind
    {
        self.conn.changes()
    }

    /// `Connection::last_insert_rowid`: the row id of the last insert. The database decides; the
    /// trace gets the request and the reply.
    #[verifier::external_body]
    pub(crate) fn last_insert_rowid(&mut self) -> (id: i64)
        ensures
            final(self)@ == old(self)@.push(
                Step::Asked { request: Request::LastInsertRowid, reply: Reply::RowId(id) },
            ),
            final(self).handle() == old(self).handle(),
        no_unwind
    {
        self.conn.last_insert_rowid()
    }

    /// `Connection::is_autocommit`: whether no transaction is open. The database decides; the trace
    /// gets the request and the reply.
    #[verifier::external_body]
    pub(crate) fn is_autocommit(&mut self) -> (b: bool)
        ensures
            final(self)@ == old(self)@.push(
                Step::Asked { request: Request::Autocommit, reply: Reply::Flag(b) },
            ),
            final(self).handle() == old(self).handle(),
        no_unwind
    {
        self.conn.is_autocommit()
    }
}

} // verus!
