//! Statements and rows: how parameters are bound, how rows are read as values, and the contracts
//! that the store's single requests share.
use vstd::prelude::*;

use crate::engine::{self, Cell, Datum, Db, DbError, Param, Reply, Request, Step, Trace};
use crate::events::{self, Notice};

verus! {

/// The value that stands for an optional text.
pub open spec fn opt_text(o: Option<Seq<char>>) -> Datum {
    match o {
        Some(s) => Datum::Text(s),
        None => Datum::Null,
    }
}

/// The value that stands for an optional integer.
pub open spec fn opt_int(o: Option<i64>) -> Datum {
    match o {
        Some(n) => Datum::Integer(n),
        None => Datum::Null,
    }
}

/// The value that stands for a flag.
pub open spec fn flag(b: bool) -> Datum {
    Datum::Integer(
        if b {
            1
        } else {
            0
        },
    )
}

pub(crate) fn p_text(s: &str) -> (p: Param)
    ensures
        p@ == Datum::Text(s@),
{
    Param::Text(s.to_string())
}

pub(crate) fn p_int(n: i64) -> (p: Param)
    ensures
        p@ == Datum::Integer(n),
{
    Param::Integer(n)
}

pub(crate) fn p_flag(b: bool) -> (p: Param)
    ensures
        p@ == flag(b),
{
    if b {
        Param::Integer(1)
    } else {
        Param::Integer(0)
    }
}

pub(crate) fn p_opt_text(o: Option<&str>) -> (p: Param)
    ensures
        p@ == opt_text(events::opt_str(o)),
{
    match o {
        Some(s) => Param::Text(s.to_string()),
        None => Param::Null,
    }
}

pub(crate) fn p_opt(o: &Option<String>) -> (p: Param)
    ensures
        p@ == opt_text(events::opt(*o)),
{
    match o {
        Some(s) => Param::Text(s.clone()),
        None => Param::Null,
    }
}

pub(crate) fn p_opt_int(o: Option<i64>) -> (p: Param)
    ensures
        p@ == opt_int(o),
{
    match o {
        Some(n) => Param::Integer(n),
        None => Param::Null,
    }
}

pub(crate) fn params0() -> (r: Vec<Param>)
    ensures
        engine::bound_data(r@) == Seq::<Datum>::empty(),
{
    let r: Vec<Param> = Vec::new();
    assert(engine::bound_data(r@) =~= Seq::<Datum>::empty());
    r
}

pub(crate) fn params1(a: Param) -> (r: Vec<Param>)
    ensures
        engine::bound_data(r@) == seq![a@],
{
    let ghost data: Seq<Datum> = seq![a@];
    let mut r: Vec<Param> = Vec::new();
    r.push(a);
    assert(engine::bound_data(r@) =~= data);
    r
}

pub(crate) fn params2(a: Param, b: Param) -> (r: Vec<Param>)
    ensures
        engine::bound_data(r@) == seq![a@, b@],
{
    let ghost data: Seq<Datum> = seq![a@, b@];
    let mut r: Vec<Param> = Vec::new();
    r.push(a);
    r.push(b);
    assert(engine::bound_data(r@) =~= data);
    r
}

pub(crate) fn params3(a: Param, b: Param, c: Param) -> (r: Vec<Param>)
    ensures
        engine::bound_data(r@) == seq![a@, b@, c@],
{
    let ghost data: Seq<Datum> = seq![a@, b@, c@];
    let mut r: Vec<Param> = Vec::new();
    r.push(a);
    r.push(b);
    r.push(c);
    assert(engine::bound_data(r@) =~= data);
    r
}

pub(crate) fn params4(a: Param, b: Param, c: Param, d: Param) -> (r: Vec<Param>)
    ensures
        engine::bound_data(r@) == seq![a@, b@, c@, d@],
{
    let ghost data: Seq<Datum> = seq![a@, b@, c@, d@];
    let mut r: Vec<Param> = Vec::new();
    r.push(a);
    r.push(b);
    r.push(c);
    r.push(d);
    assert(engine::bound_data(r@) =~= data);
    r
}

pub(crate) fn params5(a: Param, b: Param, c: Param, d: Param, e: Param) -> (r: Vec<Param>)
    ensures
        engine::bound_data(r@) == seq![a@, b@, c@, d@, e@],
{
    let ghost data: Seq<Datum> = seq![a@, b@, c@, d@, e@];
    let mut r: Vec<Param> = Vec::new();
    r.push(a);
    r.push(b);
    r.push(c);
    r.push(d);
    r.push(e);
    assert(engine::bound_data(r@) =~= data);
    r
}

pub(crate) fn params6(a: Param, b: Param, c: Param, d: Param, e: Param, f: Param) -> (r: Vec<Param>)
    ensures
        engine::bound_data(r@) == seq![a@, b@, c@, d@, e@, f@],
{
    let ghost data: Seq<Datum> = seq![a@, b@, c@, d@, e@, f@];
    let mut r: Vec<Param> = Vec::new();
    r.push(a);
    r.push(b);
    r.push(c);
    r.push(d);
    r.push(e);
    r.push(f);
    assert(engine::bound_data(r@) =~= data);
    r
}

pub(crate) fn params7(
    a: Param,
    b: Param,
    c: Param,
    d: Param,
    e: Param,
    f: Param,
    g: Param,
) -> (r: Vec<Param>)
    ensures
        engine::bound_data(r@) == seq![a@, b@, c@, d@, e@, f@, g@],
{
    let ghost data: Seq<Datum> = seq![a@, b@, c@, d@, e@, f@, g@];
    let mut r: Vec<Param> = Vec::new();
    r.push(a);
    r.push(b);
    r.push(c);
    r.push(d);
    r.push(e);
    r.push(f);
    r.push(g);
    assert(engine::bound_data(r@) =~= data);
    r
}

pub(crate) fn params8(
    a: Param,
    b: Param,
    c: Param,
    d: Param,
    e: Param,
    f: Param,
    g: Param,
    h: Param,
) -> (r: Vec<Param>)
    ensures
        engine::bound_data(r@) == seq![a@, b@, c@, d@, e@, f@, g@, h@],
{
    let ghost data: Seq<Datum> = seq![a@, b@, c@, d@, e@, f@, g@, h@];
    let mut r: Vec<Param> = Vec::new();
    r.push(a);
    r.push(b);
    r.push(c);
    r.push(d);
    r.push(e);
    r.push(f);
    r.push(g);
    r.push(h);
    assert(engine::bound_data(r@) =~= data);
    r
}

pub(crate) fn params10(
    a: Param,
    b: Param,
    c: Param,
    d: Param,
    e: Param,
    f: Param,
    g: Param,
    h: Param,
    i: Param,
    j: Param,
) -> (r: Vec<Param>)
    ensures
        engine::bound_data(r@) == seq![a@, b@, c@, d@, e@, f@, g@, h@, i@, j@],
{
    let ghost data: Seq<Datum> = seq![a@, b@, c@, d@, e@, f@, g@, h@, i@, j@];
    let mut r: Vec<Param> = Vec::new();
    r.push(a);
    r.push(b);
    r.push(c);
    r.push(d);
    r.push(e);
    r.push(f);
    r.push(g);
    r.push(h);
    r.push(i);
    r.push(j);
    assert(engine::bound_data(r@) =~= data);
    r
}

pub(crate) fn params11(
    a: Param,
    b: Param,
    c: Param,
    d: Param,
    e: Param,
    f: Param,
    g: Param,
    h: Param,
    i: Param,
    j: Param,
    k: Param,
) -> (r: Vec<Param>)
    ensures
        engine::bound_data(r@) == seq![a@, b@, c@, d@, e@, f@, g@, h@, i@, j@, k@],
{
    let ghost data: Seq<Datum> = seq![a@, b@, c@, d@, e@, f@, g@, h@, i@, j@, k@];
    let mut r: Vec<Param> = Vec::new();
    r.push(a);
    r.push(b);
    r.push(c);
    r.push(d);
    r.push(e);
    r.push(f);
    r.push(g);
    r.push(h);
    r.push(i);
    r.push(j);
    r.push(k);
    assert(engine::bound_data(r@) =~= data);
    r
}

pub(crate) fn params12(
    a: Param,
    b: Param,
    c: Param,
    d: Param,
    e: Param,
    f: Param,
    g: Param,
    h: Param,
    i: Param,
    j: Param,
    k: Param,
    l: Param,
) -> (r: Vec<Param>)
    ensures
        engine::bound_data(r@) == seq![a@, b@, c@, d@, e@, f@, g@, h@, i@, j@, k@, l@],
{
    let ghost data: Seq<Datum> = seq![a@, b@, c@, d@, e@, f@, g@, h@, i@, j@, k@, l@];
    let mut r: Vec<Param> = Vec::new();
    r.push(a);
    r.push(b);
    r.push(c);
    r.push(d);
    r.push(e);
    r.push(f);
    r.push(g);
    r.push(h);
    r.push(i);
    r.push(j);
    r.push(k);
    r.push(l);
    assert(engine::bound_data(r@) =~= data);
    r
}

/// Whether a request, and nothing else, was added to a trace.
pub open spec fn asked(pre: Trace, post: Trace, request: Request) -> bool {
    post == pre.push(Step::Asked { request, reply: reply_to(post) })
}

/// The reply in the last step of a trace.
pub open spec fn reply_to(trace: Trace) -> Reply {
    match trace.last() {
        Step::Asked { reply, .. } => reply,
        _ => Reply::Done,
    }
}

/// Whether a result is the engine's refusal with the text `m`.
pub open spec fn refused<T>(r: Result<T, DbError>, m: Seq<char>) -> bool {
    r matches Err(DbError::Engine(s)) && s@ == m
}

/// One statement was run, and the result says whether the engine accepted it.
pub open spec fn executed(
    pre: Trace,
    post: Trace,
    sql: Seq<char>,
    params: Seq<Datum>,
    r: Result<(), DbError>,
) -> bool {
    &&& asked(pre, post, Request::Execute { sql, params })
    &&& match reply_to(post) {
        Reply::Changed(_) => r is Ok,
        Reply::Failed(m) => refused(r, m),
        _ => false,
    }
}

/// One statement was run, and the result is `v` where the engine accepted it.
pub open spec fn yields<T>(
    pre: Trace,
    post: Trace,
    sql: Seq<char>,
    params: Seq<Datum>,
    v: T,
    r: Result<T, DbError>,
) -> bool {
    &&& asked(pre, post, Request::Execute { sql, params })
    &&& match reply_to(post) {
        Reply::Changed(_) => r == Ok::<T, DbError>(v),
        Reply::Failed(m) => refused(r, m),
        _ => false,
    }
}

/// One statement was run, and the result says how many rows it changed.
pub open spec fn counted(
    pre: Trace,
    post: Trace,
    sql: Seq<char>,
    params: Seq<Datum>,
    r: Result<usize, DbError>,
) -> bool {
    &&& asked(pre, post, Request::Execute { sql, params })
    &&& match reply_to(post) {
        Reply::Changed(n) => r matches Ok(k) && k == n,
        Reply::Failed(m) => refused(r, m),
        _ => false,
    }
}

/// One statement was run, and the result says whether it changed any row.
pub open spec fn touched(
    pre: Trace,
    post: Trace,
    sql: Seq<char>,
    params: Seq<Datum>,
    r: Result<bool, DbError>,
) -> bool {
    &&& asked(pre, post, Request::Execute { sql, params })
    &&& match reply_to(post) {
        Reply::Changed(n) => r matches Ok(b) && b == (n > 0),
        Reply::Failed(m) => refused(r, m),
        _ => false,
    }
}

/// One statement was run, and the result is `Ok` exactly where it changed one row.
pub open spec fn changed_one(
    pre: Trace,
    post: Trace,
    sql: Seq<char>,
    params: Seq<Datum>,
    r: Result<(), DbError>,
) -> bool {
    &&& asked(pre, post, Request::Execute { sql, params })
    &&& match reply_to(post) {
        Reply::Changed(n) => if n == 1 {
            r is Ok
        } else {
            r == Err::<(), DbError>(DbError::NoRows)
        },
        Reply::Failed(m) => refused(r, m),
        _ => false,
    }
}

/// One statement was run and, where the engine accepted it, the row id of the insert asked for:
/// the result.
pub open spec fn inserted(
    pre: Trace,
    post: Trace,
    sql: Seq<char>,
    params: Seq<Datum>,
    r: Result<i64, DbError>,
) -> bool {
    ||| {
        &&& asked(pre, post, Request::Execute { sql, params })
        &&& reply_to(post) matches Reply::Failed(m)
        &&& refused(r, m)
    }
    ||| {
        &&& asked(pre, post.drop_last(), Request::Execute { sql, params })
        &&& reply_to(post.drop_last()) is Changed
        &&& asked(post.drop_last(), post, Request::LastInsertRowid)
        &&& reply_to(post) matches Reply::RowId(id)
        &&& r == Ok::<i64, DbError>(id)
    }
}

/// One statement was run and, where the engine accepted it, the number of rows that it changed
/// asked for: the result says whether there was one.
pub open spec fn took_effect(
    pre: Trace,
    post: Trace,
    sql: Seq<char>,
    params: Seq<Datum>,
    r: Result<bool, DbError>,
) -> bool {
    ||| {
        &&& asked(pre, post, Request::Execute { sql, params })
        &&& reply_to(post) matches Reply::Failed(m)
        &&& refused(r, m)
    }
    ||| {
        &&& asked(pre, post.drop_last(), Request::Execute { sql, params })
        &&& reply_to(post.drop_last()) is Changed
        &&& asked(post.drop_last(), post, Request::Changes)
        &&& reply_to(post) matches Reply::Count(n)
        &&& r == Ok::<bool, DbError>(n > 0)
    }
}

pub(crate) fn run(db: &mut Db, sql: &str, params: Vec<Param>) -> (r: Result<(), DbError>)
    ensures
        executed(old(db)@, final(db)@, sql@, engine::bound_data(params@), r),
{
    match db.execute(sql, &params) {
        Ok(_) => Ok(()),
        Err(e) => Err(e),
    }
}

pub(crate) fn run_counted(db: &mut Db, sql: &str, params: Vec<Param>) -> (r: Result<
    usize,
    DbError,
>)
    ensures
        counted(old(db)@, final(db)@, sql@, engine::bound_data(params@), r),
{
    db.execute(sql, &params)
}

pub(crate) fn run_touched(db: &mut Db, sql: &str, params: Vec<Param>) -> (r: Result<
    bool,
    DbError,
>)
    ensures
        touched(old(db)@, final(db)@, sql@, engine::bound_data(params@), r),
{
    match db.execute(sql, &params) {
        Ok(n) => Ok(n > 0),
        Err(e) => Err(e),
    }
}

pub(crate) fn run_changed_one(db: &mut Db, sql: &str, params: Vec<Param>) -> (r: Result<
    (),
    DbError,
>)
    ensures
        changed_one(old(db)@, final(db)@, sql@, engine::bound_data(params@), r),
{
    match db.execute(sql, &params) {
        Ok(n) => if n == 1 {
            Ok(())
        } else {
            Err(DbError::NoRows)
        },
        Err(e) => Err(e),
    }
}

pub(crate) fn run_insert(db: &mut Db, sql: &str, params: Vec<Param>) -> (r: Result<i64, DbError>)
    ensures
        inserted(old(db)@, final(db)@, sql@, engine::bound_data(params@), r),
{
    match db.execute(sql, &params) {
        Ok(_) => {
            let ghost mid = db@;
            let id = db.last_insert_rowid();
            assert(db@.drop_last() =~= mid);
            Ok(id)
        },
        Err(e) => Err(e),
    }
}

pub(crate) fn run_for_effect(db: &mut Db, sql: &str, params: Vec<Param>) -> (r: Result<
    bool,
    DbError,
>)
    ensures
        took_effect(old(db)@, final(db)@, sql@, engine::bound_data(params@), r),
{
    match db.execute(sql, &params) {
        Ok(_) => {
            let ghost mid = db@;
            let n = db.changes();
            assert(db@.drop_last() =~= mid);
            Ok(n > 0)
        },
        Err(e) => Err(e),
    }
}

/// What a column has to hold.
#[derive(Debug, Clone, Copy, PartialEq, Eq, Structural)]
pub enum Kind {
    Int,
    OptInt,
    Text,
    OptText,
    /// An integer that is not negative.
    Natural,
}

/// A column to read, by its position, and what it has to hold.
#[derive(Debug, Clone, Copy, PartialEq, Eq, Structural)]
pub struct Read {
    pub index: usize,
    pub kind: Kind,
}

/// Whether a value is of a kind.
pub open spec fn of_kind(d: Datum, kind: Kind) -> bool {
    match kind {
        Kind::Int => d is Integer,
        Kind::OptInt => d is Integer || d is Null,
        Kind::Text => d is Text,
        Kind::OptText => d is Text || d is Null,
        Kind::Natural => d matches Datum::Integer(n) && n >= 0,
    }
}

/// Whether values are what was to be read.
pub open spec fn fits(row: Seq<Datum>, reads: Seq<Read>) -> bool {
    &&& row.len() == reads.len()
    &&& forall|i: int| 0 <= i < reads.len() ==> of_kind(row[i], (#[trigger] reads[i]).kind)
}

/// The columns from the first on, of the given kinds.
pub open spec fn in_order(kinds: Seq<Kind>) -> Seq<Read> {
    Seq::new(kinds.len(), |i: int| Read { index: i as usize, kind: kinds[i] })
}

pub(crate) fn reads_in_order(kinds: Vec<Kind>) -> (reads: Vec<Read>)
    ensures
        reads@ == in_order(kinds@),
{
    let mut reads: Vec<Read> = Vec::new();
    let mut i: usize = 0;
    while i < kinds.len()
        invariant
            i <= kinds@.len(),
            reads@.len() == i,
            forall|k: int|
                0 <= k < i ==> #[trigger] reads@[k] == (Read { index: k as usize, kind: kinds@[k] }),
        decreases kinds.len() - i,
    {
        reads.push(Read { index: i, kind: kinds[i] });
        i += 1;
    }
    assert(reads@ =~= in_order(kinds@));
    reads
}

/// A cell holds what its place in the row's data says.
pub(crate) proof fn lemma_cells(row: Seq<Cell>, reads: Seq<Read>)
    requires
        fits(engine::row_data(row), reads),
    ensures
        row.len() == reads.len(),
        forall|i: int| 0 <= i < row.len() ==> of_kind(#[trigger] row[i]@, reads[i].kind),
        forall|i: int| 0 <= i < row.len() ==> engine::row_data(row)[i] == #[trigger] row[i]@,
{
    assert forall|i: int| 0 <= i < row.len() implies of_kind(#[trigger] row[i]@, reads[i].kind) by {
        assert(engine::row_data(row)[i] == row[i]@);
    }
}

pub(crate) fn text_at(row: &Vec<Cell>, i: usize) -> (s: String)
    requires
        i < row@.len(),
        row@[i as int]@ is Text,
    ensures
        row@[i as int]@ == Datum::Text(s@),
{
    match &row[i] {
        Cell::Text(s) => s.clone(),
        _ => String::new(),
    }
}

pub(crate) fn opt_text_at(row: &Vec<Cell>, i: usize) -> (s: Option<String>)
    requires
        i < row@.len(),
        row@[i as int]@ is Text || row@[i as int]@ is Null,
    ensures
        row@[i as int]@ == opt_text(events::opt(s)),
{
    match &row[i] {
        Cell::Text(s) => Some(s.clone()),
        _ => None,
    }
}

pub(crate) fn int_at(row: &Vec<Cell>, i: usize) -> (n: i64)
    requires
        i < row@.len(),
        row@[i as int]@ is Integer,
    ensures
        row@[i as int]@ == Datum::Integer(n),
{
    match &row[i] {
        Cell::Integer(n) => *n,
        _ => 0,
    }
}

pub(crate) fn opt_int_at(row: &Vec<Cell>, i: usize) -> (n: Option<i64>)
    requires
        i < row@.len(),
        row@[i as int]@ is Integer || row@[i as int]@ is Null,
    ensures
        row@[i as int]@ == opt_int(n),
{
    match &row[i] {
        Cell::Integer(n) => Some(*n),
        _ => None,
    }
}

/// Whether a value is an integer that reads as the flag `b`.
pub open spec fn reads_as_flag(d: Datum, b: bool) -> bool {
    d matches Datum::Integer(n) && b == (n != 0)
}

/// Whether a value is an integer, kept as an unsigned one, or its absence.
pub open spec fn reads_as_size(d: Datum, o: Option<u64>) -> bool {
    match d {
        Datum::Null => o is None,
        Datum::Integer(n) => o == Some(n as u64),
        _ => false,
    }
}

pub(crate) fn opt_size_at(row: &Vec<Cell>, i: usize) -> (n: Option<u64>)
    requires
        i < row@.len(),
        row@[i as int]@ is Integer || row@[i as int]@ is Null,
    ensures
        reads_as_size(row@[i as int]@, n),
{
    match &row[i] {
        Cell::Integer(n) => Some(*n as u64),
        _ => None,
    }
}

/// A type that is read from a row of a query.
pub trait FromRow: Sized {
    /// The columns that are read, in the order in which they are.
    spec fn reads() -> Seq<Read>;

    /// Whether `self` is what the values that were read say.
    spec fn is_row(self, row: Seq<Datum>) -> bool;

    fn layout() -> (reads: Vec<Read>)
        ensures
            reads@ == Self::reads(),
    ;

    fn from_row(row: &Vec<Cell>) -> (v: Self)
        requires
            fits(engine::row_data(row@), Self::reads()),
        ensures
            v.is_row(engine::row_data(row@)),
    ;
}

/// Whether a result is what the rows say, up to the first that could not be read.
pub open spec fn rows_result<T: FromRow>(
    rows: Seq<Result<Seq<Datum>, Seq<char>>>,
    r: Result<Vec<T>, DbError>,
) -> bool {
    match r {
        Ok(v) => {
            &&& v@.len() == rows.len()
            &&& forall|i: int|
                0 <= i < rows.len() ==> (#[trigger] rows[i] matches Ok(row) && v@[i].is_row(row))
        },
        Err(e) => exists|i: int|
            {
                &&& 0 <= i < rows.len()
                &&& #[trigger] rows[i] matches Err(m)
                &&& refused(r, m)
                &&& forall|j: int| 0 <= j < i ==> #[trigger] rows[j] is Ok
            },
    }
}

/// The rows that could be read.
pub open spec fn readable_rows(rows: Seq<Result<Seq<Datum>, Seq<char>>>) -> Seq<Seq<Datum>>
    decreases rows.len(),
{
    if rows.len() == 0 {
        Seq::empty()
    } else {
        match rows.last() {
            Ok(row) => readable_rows(rows.drop_last()).push(row),
            Err(_) => readable_rows(rows.drop_last()),
        }
    }
}

/// One query was run, and the result is what those of its rows say that could be read.
pub open spec fn listed_readable<T: FromRow>(
    pre: Trace,
    post: Trace,
    sql: Seq<char>,
    params: Seq<Datum>,
    r: Result<Vec<T>, DbError>,
) -> bool {
    &&& asked(pre, post, Request::All { sql, params, reads: T::reads() })
    &&& match reply_to(post) {
        Reply::Rows(rows) => {
            &&& r matches Ok(v)
            &&& v@.len() == readable_rows(rows).len()
            &&& forall|i: int| 0 <= i < v@.len() ==> (#[trigger] v@[i]).is_row(
                readable_rows(rows)[i],
            )
        },
        Reply::Failed(m) => refused(r, m),
        _ => false,
    }
}

/// One query was run, and the result is what its rows say.
pub open spec fn listed<T: FromRow>(
    pre: Trace,
    post: Trace,
    sql: Seq<char>,
    params: Seq<Datum>,
    r: Result<Vec<T>, DbError>,
) -> bool {
    &&& asked(pre, post, Request::All { sql, params, reads: T::reads() })
    &&& match reply_to(post) {
        Reply::Rows(rows) => rows_result(rows, r),
        Reply::Failed(m) => refused(r, m),
        _ => false,
    }
}

/// One query was run, and the result is what its first row says, if there is one.
pub open spec fn found<T: FromRow>(
    pre: Trace,
    post: Trace,
    sql: Seq<char>,
    params: Seq<Datum>,
    r: Result<Option<T>, DbError>,
) -> bool {
    &&& asked(pre, post, Request::First { sql, params, reads: T::reads() })
    &&& match reply_to(post) {
        Reply::Row(None) => r matches Ok(None),
        Reply::Row(Some(row)) => r matches Ok(Some(v)) && v.is_row(row),
        Reply::Failed(m) => refused(r, m),
        _ => false,
    }
}

/// One query was run, and the result is what its first row says; to have none is an error.
pub open spec fn fetched<T: FromRow>(
    pre: Trace,
    post: Trace,
    sql: Seq<char>,
    params: Seq<Datum>,
    r: Result<T, DbError>,
) -> bool {
    &&& asked(pre, post, Request::First { sql, params, reads: T::reads() })
    &&& match reply_to(post) {
        Reply::Row(None) => r == Err::<T, DbError>(DbError::NoRows),
        Reply::Row(Some(row)) => r matches Ok(v) && v.is_row(row),
        Reply::Failed(m) => refused(r, m),
        _ => false,
    }
}

/// The outcome of a query for an optional value, with no row and no value taken as one.
pub open spec fn flattened<T>(got: Result<Option<Option<T>>, DbError>) -> Result<
    Option<T>,
    DbError,
> {
    match got {
        Ok(Some(v)) => Ok(v),
        Ok(None) => Ok(None),
        Err(e) => Err(e),
    }
}

/// One query was run, and the result is the value in its first row; none where there is no row.
pub open spec fn value_found<T>(
    pre: Trace,
    post: Trace,
    sql: Seq<char>,
    params: Seq<Datum>,
    r: Result<Option<T>, DbError>,
) -> bool where Option<T>: FromRow {
    exists|got: Result<Option<Option<T>>, DbError>|
        #[trigger] found(pre, post, sql, params, got) && r == flattened(got)
}

pub(crate) fn find_value<T>(db: &mut Db, sql: &str, params: Vec<Param>) -> (r: Result<
    Option<T>,
    DbError,
>) where Option<T>: FromRow
    ensures
        value_found(old(db)@, final(db)@, sql@, engine::bound_data(params@), r),
{
    match find(db, sql, params) {
        Ok(Some(v)) => Ok(v),
        Ok(None) => Ok(None),
        Err(e) => Err(e),
    }
}

pub(crate) fn list<T: FromRow>(db: &mut Db, sql: &str, params: Vec<Param>) -> (r: Result<
    Vec<T>,
    DbError,
>)
    ensures
        listed(old(db)@, final(db)@, sql@, engine::bound_data(params@), r),
{
    let mut rows = match db.all(sql, &params, &T::layout()) {
        Ok(rows) => rows,
        Err(e) => return Err(e),
    };
    let ghost all = rows@;
    let ghost data = engine::rows_data(all);
    let mut v: Vec<T> = Vec::new();
    let mut i: usize = 0;
    let n: usize = rows.len();
    while i < n
        invariant
            data == engine::rows_data(all),
            asked(
                old(db)@,
                db@,
                Request::All { sql: sql@, params: engine::bound_data(params@), reads: T::reads() },
            ),
            reply_to(db@) == Reply::Rows(data),
            i <= n == all.len(),
            rows@.len() == n,
            v@.len() == i,
            forall|k: int| i <= k < n ==> #[trigger] rows@[k] == all[k],
            forall|k: int|
                0 <= k < n ==> match #[trigger] all[k] {
                    Ok(row) => fits(engine::row_data(row@), T::reads()),
                    Err(e) => e is Engine,
                },
            forall|k: int|
                0 <= k < i ==> (#[trigger] data[k] matches Ok(row) && v@[k].is_row(row)),
        decreases n - i,
    {
        let mut row: Result<Vec<Cell>, DbError> = Err(DbError::NoRows);
        std::mem::swap(&mut row, &mut rows[i]);
        assert(row == all[i as int]);
        assert(data[i as int] == engine::one_row(row));
        match row {
            Ok(row) => v.push(T::from_row(&row)),
            Err(e) => {
                let r: Result<Vec<T>, DbError> = Err(e);
                assert(data[i as int] matches Err(m) && refused(r, m));
                return r;
            },
        }
        i += 1;
    }
    Ok(v)
}

/// Runs one query; a row that cannot be read is passed over.
pub(crate) fn list_readable<T: FromRow>(db: &mut Db, sql: &str, params: Vec<Param>) -> (r: Result<
    Vec<T>,
    DbError,
>)
    ensures
        listed_readable(old(db)@, final(db)@, sql@, engine::bound_data(params@), r),
{
    let rows = match db.all(sql, &params, &T::layout()) {
        Ok(rows) => rows,
        Err(e) => return Err(e),
    };
    let ghost data = engine::rows_data(rows@);
    let mut v: Vec<T> = Vec::new();
    let mut i: usize = 0;
    while i < rows.len()
        invariant
            data == engine::rows_data(rows@),
            asked(
                old(db)@,
                db@,
                Request::All { sql: sql@, params: engine::bound_data(params@), reads: T::reads() },
            ),
            reply_to(db@) == Reply::Rows(data),
            i <= rows@.len(),
            v@.len() == readable_rows(data.take(i as int)).len(),
            forall|k: int|
                0 <= k < rows@.len() ==> match #[trigger] rows@[k] {
                    Ok(row) => fits(engine::row_data(row@), T::reads()),
                    Err(e) => e is Engine,
                },
            forall|k: int|
                0 <= k < v@.len() ==> (#[trigger] v@[k]).is_row(
                    readable_rows(data.take(i as int))[k],
                ),
        decreases rows.len() - i,
    {
        assert(data.take(i + 1).drop_last() =~= data.take(i as int));
        assert(data[i as int] == engine::one_row(rows@[i as int]));
        match &rows[i] {
            Ok(row) => v.push(T::from_row(row)),
            Err(_) => {},
        }
        i += 1;
    }
    assert(data.take(i as int) =~= data);
    Ok(v)
}

pub(crate) fn find<T: FromRow>(db: &mut Db, sql: &str, params: Vec<Param>) -> (r: Result<
    Option<T>,
    DbError,
>)
    ensures
        found(old(db)@, final(db)@, sql@, engine::bound_data(params@), r),
{
    match db.first(sql, &params, &T::layout()) {
        Ok(Some(row)) => Ok(Some(T::from_row(&row))),
        Ok(None) => Ok(None),
        Err(e) => Err(e),
    }
}

pub(crate) fn fetch<T: FromRow>(db: &mut Db, sql: &str, params: Vec<Param>) -> (r: Result<
    T,
    DbError,
>)
    ensures
        fetched(old(db)@, final(db)@, sql@, engine::bound_data(params@), r),
{
    match db.first(sql, &params, &T::layout()) {
        Ok(Some(row)) => Ok(T::from_row(&row)),
        Ok(None) => Err(DbError::NoRows),
        Err(e) => Err(e),
    }
}

impl FromRow for String {
    open spec fn reads() -> Seq<Read> {
        in_order(seq![Kind::Text])
    }

    open spec fn is_row(self, row: Seq<Datum>) -> bool {
        row[0] == Datum::Text(self@)
    }

    fn layout() -> (reads: Vec<Read>) {
        let kinds = vec![Kind::Text];
        assert(in_order(kinds@) =~= Self::reads());
        reads_in_order(kinds)
    }

    fn from_row(row: &Vec<Cell>) -> (v: Self) {
        proof {
            lemma_cells(row@, Self::reads());
        }
        text_at(row, 0)
    }
}

impl FromRow for i64 {
    open spec fn reads() -> Seq<Read> {
        in_order(seq![Kind::Int])
    }

    open spec fn is_row(self, row: Seq<Datum>) -> bool {
        row[0] == Datum::Integer(self)
    }

    fn layout() -> (reads: Vec<Read>) {
        let kinds = vec![Kind::Int];
        assert(in_order(kinds@) =~= Self::reads());
        reads_in_order(kinds)
    }

    fn from_row(row: &Vec<Cell>) -> (v: Self) {
        proof {
            lemma_cells(row@, Self::reads());
        }
        int_at(row, 0)
    }
}

impl FromRow for Option<String> {
    open spec fn reads() -> Seq<Read> {
        in_order(seq![Kind::OptText])
    }

    open spec fn is_row(self, row: Seq<Datum>) -> bool {
        row[0] == opt_text(events::opt(self))
    }

    fn layout() -> (reads: Vec<Read>) {
        let kinds = vec![Kind::OptText];
        assert(in_order(kinds@) =~= Self::reads());
        reads_in_order(kinds)
    }

    fn from_row(row: &Vec<Cell>) -> (v: Self) {
        proof {
            lemma_cells(row@, Self::reads());
        }
        opt_text_at(row, 0)
    }
}

impl FromRow for Option<i64> {
    open spec fn reads() -> Seq<Read> {
        in_order(seq![Kind::OptInt])
    }

    open spec fn is_row(self, row: Seq<Datum>) -> bool {
        row[0] == opt_int(self)
    }

    fn layout() -> (reads: Vec<Read>) {
        let kinds = vec![Kind::OptInt];
        assert(in_order(kinds@) =~= Self::reads());
        reads_in_order(kinds)
    }

    fn from_row(row: &Vec<Cell>) -> (v: Self) {
        proof {
            lemma_cells(row@, Self::reads());
        }
        opt_int_at(row, 0)
    }
}

impl FromRow for (String, String) {
    open spec fn reads() -> Seq<Read> {
        in_order(seq![Kind::Text, Kind::Text])
    }

    open spec fn is_row(self, row: Seq<Datum>) -> bool {
        &&& row[0] == Datum::Text(self.0@)
        &&& row[1] == Datum::Text(self.1@)
    }

    fn layout() -> (reads: Vec<Read>) {
        let kinds = vec![Kind::Text, Kind::Text];
        assert(in_order(kinds@) =~= Self::reads());
        reads_in_order(kinds)
    }

    fn from_row(row: &Vec<Cell>) -> (v: Self) {
        proof {
            lemma_cells(row@, Self::reads());
        }
        (text_at(row, 0), text_at(row, 1))
    }
}

impl FromRow for (i64, i64) {
    open spec fn reads() -> Seq<Read> {
        in_order(seq![Kind::Int, Kind::Int])
    }

    open spec fn is_row(self, row: Seq<Datum>) -> bool {
        &&& row[0] == Datum::Integer(self.0)
        &&& row[1] == Datum::Integer(self.1)
    }

    fn layout() -> (reads: Vec<Read>) {
        let kinds = vec![Kind::Int, Kind::Int];
        assert(in_order(kinds@) =~= Self::reads());
        reads_in_order(kinds)
    }

    fn from_row(row: &Vec<Cell>) -> (v: Self) {
        proof {
            lemma_cells(row@, Self::reads());
        }
        (int_at(row, 0), int_at(row, 1))
    }
}

impl FromRow for (i64, String) {
    open spec fn reads() -> Seq<Read> {
        in_order(seq![Kind::Int, Kind::Text])
    }

    open spec fn is_row(self, row: Seq<Datum>) -> bool {
        &&& row[0] == Datum::Integer(self.0)
        &&& row[1] == Datum::Text(self.1@)
    }

    fn layout() -> (reads: Vec<Read>) {
        let kinds = vec![Kind::Int, Kind::Text];
        assert(in_order(kinds@) =~= Self::reads());
        reads_in_order(kinds)
    }

    fn from_row(row: &Vec<Cell>) -> (v: Self) {
        proof {
            lemma_cells(row@, Self::reads());
        }
        (int_at(row, 0), text_at(row, 1))
    }
}

impl FromRow for (String, Option<String>) {
    open spec fn reads() -> Seq<Read> {
        in_order(seq![Kind::Text, Kind::OptText])
    }

    open spec fn is_row(self, row: Seq<Datum>) -> bool {
        &&& row[0] == Datum::Text(self.0@)
        &&& row[1] == opt_text(events::opt(self.1))
    }

    fn layout() -> (reads: Vec<Read>) {
        let kinds = vec![Kind::Text, Kind::OptText];
        assert(in_order(kinds@) =~= Self::reads());
        reads_in_order(kinds)
    }

    fn from_row(row: &Vec<Cell>) -> (v: Self) {
        proof {
            lemma_cells(row@, Self::reads());
        }
        (text_at(row, 0), opt_text_at(row, 1))
    }
}

impl FromRow for bool {
    open spec fn reads() -> Seq<Read> {
        in_order(seq![Kind::Int])
    }

    open spec fn is_row(self, row: Seq<Datum>) -> bool {
        reads_as_flag(row[0], self)
    }

    fn layout() -> (reads: Vec<Read>) {
        let kinds = vec![Kind::Int];
        assert(in_order(kinds@) =~= Self::reads());
        reads_in_order(kinds)
    }

    fn from_row(row: &Vec<Cell>) -> (v: Self) {
        proof {
            lemma_cells(row@, Self::reads());
        }
        int_at(row, 0) != 0
    }
}

/// A milestone was published, where there was something to announce.
pub open spec fn announced(pre: Trace, post: Trace, news: bool, notice: Notice) -> bool {
    if news {
        post == pre.push(Step::Published(notice))
    } else {
        post == pre
    }
}

} // verus!
