//! The store's connection to SQLite: the statements that go out, the replies that come back, and
//! a record of both.
//!
//! What SQLite replies depends on the database file, on other connections to it and on the
//! machine, so nothing is claimed of a reply. What is claimed is the conversation itself: `Db`
//! keeps, as ghost state, the trace of every request with its reply and of every milestone
//! published, in order, and the contracts of the store's operations say which steps they add to
//! that trace and what they make of the replies in it.
use vstd::prelude::*;

use crate::events::{self, Milestone, Notice};
use crate::json::{self, print_json, Json, Node};
use crate::rows::{self, Read};
use crate::sqlite::{self, bindables, sqlite_error_text, Link};
use crate::text::{self, decimal_text, join3, signed_decimal_text};

verus! {

/// A value bound to a numbered parameter of a statement.
#[derive(Debug, Clone, PartialEq)]
pub enum Param {
    Null,
    Integer(i64),
    Text(String),
}

/// A value read from one column of a row. The store reads no column that holds a real number or a
/// blob.
#[derive(Debug, Clone, PartialEq)]
pub enum Cell {
    Null,
    Integer(i64),
    Text(String),
}

/// What a `Param`, a `Cell` or a column of the database holds.
pub enum Datum {
    Null,
    Integer(i64),
    Real,
    Text(Seq<char>),
    Blob,
}

impl View for Param {
    type V = Datum;

    open spec fn view(&self) -> Datum {
        match self {
            Param::Null => Datum::Null,
            Param::Integer(n) => Datum::Integer(*n),
            Param::Text(s) => Datum::Text(s@),
        }
    }
}

impl View for Cell {
    type V = Datum;

    open spec fn view(&self) -> Datum {
        match self {
            Cell::Null => Datum::Null,
            Cell::Integer(n) => Datum::Integer(*n),
            Cell::Text(s) => Datum::Text(s@),
        }
    }
}

/// What the parameters of a statement hold.
pub open spec fn bound_data(params: Seq<Param>) -> Seq<Datum> {
    params.map_values(|p: Param| p@)
}

/// What the cells of a row hold.
pub open spec fn row_data(row: Seq<Cell>) -> Seq<Datum> {
    row.map_values(|c: Cell| c@)
}

/// Why an operation failed.
#[derive(Debug, Clone, PartialEq)]
pub enum DbError {
    /// SQLite refused a request; the text is the engine's.
    Engine(String),
    /// A row was required and there was none.
    NoRows,
    /// A rule of the store was violated.
    Constraint(String),
    /// An integer does not fit where it has to go.
    OutOfRange { index: usize, value: i64 },
    /// A column's text could not be read as what it stands for.
    Conversion { index: usize, detail: String },
    /// A field that has to hold JSON does not.
    BadJson { field: String, detail: String },
    /// An unsigned integer is too large to be stored.
    TooLarge,
}

/// What the report of a field that does not hold JSON says.
pub open spec fn bad_json_node(field: Seq<char>, detail: Seq<char>) -> Node {
    Node::Object(seq![("field"@, Node::Text(field)), ("detail"@, Node::Text(detail))])
}

fn bad_json_text(field: &String, detail: &String) -> (s: String)
    ensures
        s@ == json::json_printed(bad_json_node(field@, detail@)),
{
    let mut members: Vec<(String, Json)> = Vec::new();
    members.push(("field".to_string(), Json::Text(field.clone())));
    members.push(("detail".to_string(), Json::Text(detail.clone())));
    proof {
        json::lemma_object(members);
        assert(json::members_of(members@) =~= bad_json_node(field@, detail@)->Object_0);
    }
    print_json(&Json::Object(members))
}

impl DbError {
    /// The text by which the error is reported.
    pub open spec fn text(self) -> Seq<char> {
        match self {
            DbError::Engine(s) => s@,
            DbError::NoRows => "Query returned no rows"@,
            DbError::Constraint(s) => s@,
            DbError::OutOfRange { index, value } => "Integer "@ + text::signed_decimal(value as int)
                + " out of range at index "@ + text::decimal(index as nat),
            DbError::Conversion { index, detail } => "Conversion error from type Text at index: "@
                + text::decimal(index as nat) + ", "@ + detail@,
            DbError::BadJson { field, detail } => "AL_ERR:db.memory.badJson "@
                + json::json_printed(bad_json_node(field@, detail@)),
            DbError::TooLarge => "out of range integral type conversion attempted"@,
        }
    }

    /// The text by which the error is reported.
    pub fn message(&self) -> (s: String)
        ensures
            s@ == self.text(),
    {
        match self {
            DbError::Engine(s) => s.clone(),
            DbError::NoRows => "Query returned no rows".to_string(),
            DbError::Constraint(s) => s.clone(),
            DbError::OutOfRange { index, value } => join3(
                "Integer ",
                signed_decimal_text(*value).as_str(),
                " out of range at index ",
            ).concat(decimal_text(*index as u64).as_str()),
            DbError::Conversion { index, detail } => join3(
                "Conversion error from type Text at index: ",
                decimal_text(*index as u64).as_str(),
                ", ",
            ).concat(detail.as_str()),
            DbError::BadJson { field, detail } => "AL_ERR:db.memory.badJson ".to_string().concat(
                bad_json_text(field, detail).as_str(),
            ),
            DbError::TooLarge => "out of range integral type conversion attempted".to_string(),
        }
    }
}

/// What is asked of SQLite.
pub enum Request {
    /// Run one statement.
    Execute { sql: Seq<char>, params: Seq<Datum> },
    /// Run one query and read its first row.
    First { sql: Seq<char>, params: Seq<Datum>, reads: Seq<Read> },
    /// Run one query and read all its rows.
    All { sql: Seq<char>, params: Seq<Datum>, reads: Seq<Read> },
    /// Run a list of statements.
    Batch { sql: Seq<char> },
    /// How many rows the last statement changed.
    Changes,
    /// The row id of the last insert.
    LastInsertRowid,
    /// Whether no transaction is open.
    Autocommit,
}

/// What SQLite replied.
pub enum Reply {
    Failed(Seq<char>),
    Changed(nat),
    Row(Option<Seq<Datum>>),
    /// The rows, each as it was read or with the reason why it could not be.
    Rows(Seq<Result<Seq<Datum>, Seq<char>>>),
    Done,
    Count(u64),
    RowId(i64),
    Flag(bool),
}

/// One step in the life of a connection.
pub enum Step {
    Asked { request: Request, reply: Reply },
    Published(Notice),
    Drained,
}

/// What happened on a connection, in order.
pub type Trace = Seq<Step>;

/// The milestones that a trace has published and not yet handed over.
pub open spec fn pending(trace: Trace) -> Seq<Notice>
    decreases trace.len(),
{
    if trace.len() == 0 {
        Seq::empty()
    } else {
        match trace.last() {
            Step::Asked { .. } => pending(trace.drop_last()),
            Step::Published(n) => pending(trace.drop_last()).push(n),
            Step::Drained => Seq::empty(),
        }
    }
}

/// The milestones that wait to be sent, the latest one first.
enum Outbox {
    Empty,
    More(Box<Waiting>),
}

/// A milestone that waits to be sent, and those that were published before it.
struct Waiting {
    earlier: Outbox,
    milestone: Milestone,
}

impl Outbox {
    spec fn notices(self) -> Seq<Notice>
        decreases self,
    {
        match self {
            Outbox::Empty => Seq::empty(),
            Outbox::More(waiting) => waiting.earlier.notices().push(waiting.milestone@),
        }
    }
}

/// The link to the database, beside the milestones that wait to be sent.
struct Desk {
    link: Link,
    outbox: Outbox,
}

impl Desk {
    spec fn consistent(self) -> bool {
        self.outbox.notices() == pending(self.link@)
    }

    fn put(&mut self, waiting: Box<Waiting>)
        requires
            waiting.earlier is Empty,
        ensures
            final(self).outbox.notices() == old(self).outbox.notices().push(waiting.milestone@),
            final(self).link@ == old(self).link@.push(Step::Published(waiting.milestone@)),
            final(self).link.handle() == old(self).link.handle(),
        no_unwind
    {
        let mut waiting = waiting;
        let ghost said = waiting.milestone@;
        std::mem::swap(&mut waiting.earlier, &mut self.outbox);
        self.outbox = Outbox::More(waiting);
        self.link.note_published(Ghost(said));
    }

    fn take(&mut self) -> (outbox: Outbox)
        ensures
            outbox == old(self).outbox,
            final(self).outbox is Empty,
            final(self).link@ == old(self).link@.push(Step::Drained),
            final(self).link.handle() == old(self).link.handle(),
        no_unwind
    {
        let mut outbox = Outbox::Empty;
        std::mem::swap(&mut outbox, &mut self.outbox);
        self.link.note_drained();
        outbox
    }
}

/// What milestones say, from the last one to the first.
spec fn backwards(milestones: Seq<Milestone>) -> Seq<Notice> {
    Seq::new(milestones.len(), |i: int| milestones[milestones.len() - 1 - i]@)
}

/// The milestones of an outbox, the earliest one first.
fn in_order(outbox: Outbox) -> (milestones: Vec<Milestone>)
    ensures
        events::notices(milestones@) == outbox.notices(),
{
    let mut rest = outbox;
    let mut latest_first: Vec<Milestone> = Vec::new();
    assert(outbox.notices() + backwards(latest_first@) =~= outbox.notices());
    loop
        invariant_except_break
            outbox.notices() == rest.notices() + backwards(latest_first@),
        ensures
            outbox.notices() == backwards(latest_first@),
        decreases rest,
    {
        match rest {
            Outbox::Empty => {
                assert(Seq::<Notice>::empty() + backwards(latest_first@) =~= backwards(
                    latest_first@,
                ));
                break;
            },
            Outbox::More(waiting) => {
                let Waiting { earlier, milestone } = *waiting;
                let ghost was = latest_first@;
                let ghost said = milestone@;
                latest_first.push(milestone);
                assert(earlier.notices().push(said) + backwards(was) =~= earlier.notices()
                    + backwards(latest_first@));
                rest = earlier;
            },
        }
    }
    let mut milestones: Vec<Milestone> = Vec::new();
    assert(events::notices(milestones@) + backwards(latest_first@) =~= backwards(latest_first@));
    while latest_first.len() > 0
        invariant
            outbox.notices() == events::notices(milestones@) + backwards(latest_first@),
        decreases latest_first.len(),
    {
        let ghost was = latest_first@;
        let ghost before = milestones@;
        match latest_first.pop() {
            Some(milestone) => {
                milestones.push(milestone);
                assert(events::notices(milestones@) + backwards(latest_first@)
                    =~= events::notices(before) + backwards(was));
            },
            None => {},
        }
    }
    assert(events::notices(milestones@) + backwards(latest_first@) =~= events::notices(
        milestones@,
    ));
    milestones
}

/// A store: a connection to its database, and the milestones that wait to be sent.
pub struct Db {
    desk: Desk,
}

/// What the reply to `execute` is in the trace.
pub open spec fn changed_reply(r: Result<usize, DbError>) -> Reply {
    match r {
        Ok(n) => Reply::Changed(n as nat),
        Err(e) => Reply::Failed(e.text()),
    }
}

/// What the reply to `first` is in the trace.
pub open spec fn row_reply(r: Result<Option<Vec<Cell>>, DbError>) -> Reply {
    match r {
        Ok(Some(row)) => Reply::Row(Some(row_data(row@))),
        Ok(None) => Reply::Row(None),
        Err(e) => Reply::Failed(e.text()),
    }
}

/// What came of reading one row among several.
pub open spec fn one_row(r: Result<Vec<Cell>, DbError>) -> Result<Seq<Datum>, Seq<char>> {
    match r {
        Ok(row) => Ok(row_data(row@)),
        Err(e) => Err(e.text()),
    }
}

/// What came of reading several rows.
pub open spec fn rows_data(rows: Seq<Result<Vec<Cell>, DbError>>) -> Seq<
    Result<Seq<Datum>, Seq<char>>,
> {
    rows.map_values(|row: Result<Vec<Cell>, DbError>| one_row(row))
}

/// What the reply to `all` is in the trace.
pub open spec fn rows_reply(r: Result<Vec<Result<Vec<Cell>, DbError>>, DbError>) -> Reply {
    match r {
        Ok(rows) => Reply::Rows(rows_data(rows@)),
        Err(e) => Reply::Failed(e.text()),
    }
}

/// What the reply to `batch` is in the trace.
pub open spec fn done_reply(r: Result<(), DbError>) -> Reply {
    match r {
        Ok(()) => Reply::Done,
        Err(e) => Reply::Failed(e.text()),
    }
}

/// Whether an error, if there is one, is the engine's.
pub open spec fn engine_only<T>(r: Result<T, DbError>) -> bool {
    r matches Err(e) ==> e is Engine
}

/// What is asked of the database leaves the milestones that wait as they are.
proof fn lemma_asking_keeps_pending(trace: Trace)
    ensures
        forall|request: Request, reply: Reply|
            pending(#[trigger] trace.push(Step::Asked { request, reply })) == pending(trace),
{
    assert forall|request: Request, reply: Reply|
        pending(#[trigger] trace.push(Step::Asked { request, reply })) == pending(trace) by {
        assert(trace.push(Step::Asked { request, reply }).drop_last() =~= trace);
    }
}

fn engine_error<T>(r: Result<T, rusqlite::Error>) -> (e: Result<T, DbError>)
    ensures
        match r {
            Ok(v) => e == Ok::<T, DbError>(v),
            Err(x) => e matches Err(DbError::Engine(s)) && s@ == sqlite::error_text(x),
        },
{
    match r {
        Ok(v) => Ok(v),
        Err(x) => Err(DbError::Engine(sqlite_error_text(&x))),
    }
}

fn engine_errors(rows: Vec<Result<Vec<Cell>, rusqlite::Error>>) -> (v: Vec<
    Result<Vec<Cell>, DbError>,
>)
    ensures
        v@.len() == rows@.len(),
        forall|i: int|
            0 <= i < v@.len() ==> match #[trigger] v@[i] {
                Ok(row) => rows@[i] == Ok::<Vec<Cell>, rusqlite::Error>(row),
                Err(e) => e is Engine && (rows@[i] matches Err(x) && e.text() == sqlite::error_text(
                    x,
                )),
            },
        rows_data(v@) == rows@.map_values(
            |row: Result<Vec<Cell>, rusqlite::Error>| sqlite::one_row(row),
        ),
{
    let ghost all = rows@;
    let mut rows = rows;
    let mut v: Vec<Result<Vec<Cell>, DbError>> = Vec::new();
    let mut i: usize = 0;
    let n: usize = rows.len();
    while i < n
        invariant
            i <= n == all.len(),
            rows@.len() == n,
            v@.len() == i,
            forall|k: int| i <= k < n ==> #[trigger] rows@[k] == all[k],
            forall|k: int|
                0 <= k < i ==> match #[trigger] v@[k] {
                    Ok(row) => all[k] == Ok::<Vec<Cell>, rusqlite::Error>(row),
                    Err(e) => e is Engine && (all[k] matches Err(x) && e.text()
                        == sqlite::error_text(x)),
                },
        decreases n - i,
    {
        let mut row: Result<Vec<Cell>, rusqlite::Error> = Ok(Vec::new());
        std::mem::swap(&mut row, &mut rows[i]);
        assert(row == all[i as int]);
        v.push(engine_error(row));
        i += 1;
    }
    assert(rows_data(v@) =~= all.map_values(
        |row: Result<Vec<Cell>, rusqlite::Error>| sqlite::one_row(row),
    ));
    v
}

impl Db {
    #[verifier::type_invariant]
    spec fn invariant_holds(self) -> bool {
        self.desk.consistent()
    }

    /// The trace of the connection.
    pub closed spec fn view(&self) -> Trace {
        self.desk.link@
    }

    /// The connection.
    pub closed spec fn handle(&self) -> rusqlite::Connection {
        self.desk.link.handle()
    }

    /// A store on an open connection.
    pub fn new(conn: rusqlite::Connection) -> (db: Db)
        ensures
            db@ == Trace::empty(),
            db.handle() == conn,
    {
        Db { desk: Desk { link: Link::new(conn), outbox: Outbox::Empty } }
    }

    /// The connection, for what the store does not offer. What is asked through it directly is not
    /// in the trace.
    pub fn connection(&self) -> (conn: &rusqlite::Connection)
        ensures
            *conn == self.handle(),
    {
        self.desk.link.connection()
    }

    /// Publishes a milestone.
    pub(crate) fn publish(&mut self, milestone: Milestone)
        ensures
            final(self)@ == old(self)@.push(Step::Published(milestone@)),
            final(self).handle() == old(self).handle(),
    {
        proof {
            use_type_invariant(&*self);
        }
        let waiting = Box::new(Waiting { earlier: Outbox::Empty, milestone });
        assert(self@.push(Step::Published(milestone@)).drop_last() =~= self@);
        self.desk.put(waiting);
    }

    /// Hands over the milestones published since this was last asked, in order.
    pub fn take_published(&mut self) -> (milestones: Vec<Milestone>)
        ensures
            events::notices(milestones@) == pending(old(self)@),
            final(self)@ == old(self)@.push(Step::Drained),
            final(self).handle() == old(self).handle(),
    {
        proof {
            use_type_invariant(&*self);
        }
        let outbox = self.desk.take();
        in_order(outbox)
    }

    /// Runs one statement; how many rows it changed.
    pub(crate) fn execute(&mut self, sql: &str, params: &Vec<Param>) -> (r: Result<usize, DbError>)
        ensures
            final(self)@ == old(self)@.push(
                Step::Asked {
                    request: Request::Execute { sql: sql@, params: bound_data(params@) },
                    reply: changed_reply(r),
                },
            ),
            final(self).handle() == old(self).handle(),
            engine_only(r),
    {
        proof {
            use_type_invariant(&*self);
            lemma_asking_keeps_pending(self@);
        }
        let values = bindables(params);
        engine_error(self.desk.link.execute(sql, &values))
    }

    /// Runs a list of statements.
    pub(crate) fn batch(&mut self, sql: &str) -> (r: Result<(), DbError>)
        ensures
            final(self)@ == old(self)@.push(
                Step::Asked { request: Request::Batch { sql: sql@ }, reply: done_reply(r) },
            ),
            final(self).handle() == old(self).handle(),
            engine_only(r),
    {
        proof {
            use_type_invariant(&*self);
            lemma_asking_keeps_pending(self@);
        }
        engine_error(self.desk.link.execute_batch(sql))
    }

    /// Runs one query; its first row, if it has one.
    pub(crate) fn first(&mut self, sql: &str, params: &Vec<Param>, reads: &Vec<Read>) -> (r: Result<
        Option<Vec<Cell>>,
        DbError,
    >)
        ensures
            final(self)@ == old(self)@.push(
                Step::Asked {
                    request: Request::First {
                        sql: sql@,
                        params: bound_data(params@),
                        reads: reads@,
                    },
                    reply: row_reply(r),
                },
            ),
            final(self).handle() == old(self).handle(),
            r matches Ok(Some(row)) ==> rows::fits(row_data(row@), reads@),
            engine_only(r),
    {
        proof {
            use_type_invariant(&*self);
            lemma_asking_keeps_pending(self@);
        }
        let values = bindables(params);
        engine_error(self.desk.link.query_row(sql, &values, reads))
    }

    /// Runs one query; all its rows, each as it was read or with the reason why it could not be.
    pub(crate) fn all(&mut self, sql: &str, params: &Vec<Param>, reads: &Vec<Read>) -> (r: Result<
        Vec<Result<Vec<Cell>, DbError>>,
        DbError,
    >)
        ensures
            final(self)@ == old(self)@.push(
                Step::Asked {
                    request: Request::All {
                        sql: sql@,
                        params: bound_data(params@),
                        reads: reads@,
                    },
                    reply: rows_reply(r),
                },
            ),
            final(self).handle() == old(self).handle(),
            r matches Ok(rows) ==> forall|i: int|
                0 <= i < rows@.len() ==> match #[trigger] rows@[i] {
                    Ok(row) => rows::fits(row_data(row@), reads@),
                    Err(e) => e is Engine,
                },
            engine_only(r),
    {
        proof {
            use_type_invariant(&*self);
            lemma_asking_keeps_pending(self@);
        }
        let values = bindables(params);
        match self.desk.link.query_map(sql, &values, reads) {
            Ok(rows) => Ok(engine_errors(rows)),
            Err(e) => Err(DbError::Engine(sqlite_error_text(&e))),
        }
    }

    /// How many rows the last statement changed.
    pub(crate) fn changes(&mut self) -> (n: u64)
        ensures
            final(self)@ == old(self)@.push(
                Step::Asked { request: Request::Changes, reply: Reply::Count(n) },
            ),
            final(self).handle() == old(self).handle(),
    {
        proof {
            use_type_invariant(&*self);
            lemma_asking_keeps_pending(self@);
        }
        self.desk.link.changes()
    }

    /// The row id of the last insert.
    pub(crate) fn last_insert_rowid(&mut self) -> (id: i64)
        ensures
            final(self)@ == old(self)@.push(
                Step::Asked { request: Request::LastInsertRowid, reply: Reply::RowId(id) },
            ),
            final(self).handle() == old(self).handle(),
    {
        proof {
            use_type_invariant(&*self);
            lemma_asking_keeps_pending(self@);
        }
        self.desk.link.last_insert_rowid()
    }

    /// Whether no transaction is open.
    pub(crate) fn is_autocommit(&mut self) -> (b: bool)
        ensures
            final(self)@ == old(self)@.push(
                Step::Asked { request: Request::Autocommit, reply: Reply::Flag(b) },
            ),
            final(self).handle() == old(self).handle(),
    {
        proof {
            use_type_invariant(&*self);
            lemma_asking_keeps_pending(self@);
        }
        self.desk.link.is_autocommit()
    }
}

} // verus!
