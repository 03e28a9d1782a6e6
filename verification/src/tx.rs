//! Several requests in a row: scripts of statements, and transactions.
use vstd::prelude::*;

use crate::engine::{self, Db, DbError, Param, Reply, Request, Step, Trace};
use crate::rows;
use crate::trace;

verus! {

/// A statement, or a list of them, that waits to be run.
pub enum Statement {
    One { sql: String, params: Vec<Param> },
    Several { sql: String },
}

impl View for Statement {
    type V = Request;

    open spec fn view(&self) -> Request {
        match self {
            Statement::One { sql, params } => Request::Execute {
                sql: sql@,
                params: engine::bound_data(params@),
            },
            Statement::Several { sql } => Request::Batch { sql: sql@ },
        }
    }
}

pub(crate) fn statement(sql: &str, params: Vec<Param>) -> (s: Statement)
    ensures
        s@ == (Request::Execute { sql: sql@, params: engine::bound_data(params@) }),
{
    Statement::One { sql: sql.to_string(), params }
}

/// The request to run a statement without parameters.
pub open spec fn plain(sql: Seq<char>) -> Request {
    Request::Execute { sql, params: Seq::empty() }
}

pub(crate) fn plain_statement(sql: &str) -> (s: Statement)
    ensures
        s@ == plain(sql@),
{
    statement(sql, rows::params0())
}

pub(crate) fn several(sql: &str) -> (s: Statement)
    ensures
        s@ == (Request::Batch { sql: sql@ }),
{
    Statement::Several { sql: sql.to_string() }
}

/// Adds a statement to a script.
pub(crate) fn add_statement(script: &mut Vec<Statement>, s: Statement)
    ensures
        requests(final(script)@) == requests(old(script)@).push(s@),
{
    let ghost was = script@;
    script.push(s);
    assert(requests(script@) =~= requests(was).push(s@));
}

/// An empty script.
pub(crate) fn no_statements() -> (script: Vec<Statement>)
    ensures
        requests(script@) == Seq::<Request>::empty(),
{
    let script: Vec<Statement> = Vec::new();
    assert(requests(script@) =~= Seq::<Request>::empty());
    script
}

/// The requests that a script makes.
pub open spec fn requests(script: Seq<Statement>) -> Seq<Request> {
    script.map_values(|s: Statement| s@)
}

/// Whether a step is a request that the engine did not refuse.
pub open spec fn accepted(step: Step) -> bool {
    step matches Step::Asked { reply, .. } && !(reply is Failed)
}

/// Whether a step is the given request, whatever the reply.
pub open spec fn asks(step: Step, request: Request) -> bool {
    step matches Step::Asked { request: q, .. } && q == request
}

/// The requests were made in order, up to the first that the engine refused; the result is `Ok`
/// exactly where it refused none.
pub open spec fn scripted(
    pre: Trace,
    post: Trace,
    script: Seq<Request>,
    r: Result<(), DbError>,
) -> bool {
    let n = post.len() - pre.len();
    &&& 0 <= n <= script.len()
    &&& post.take(pre.len() as int) == pre
    &&& forall|i: int| 0 <= i < n ==> asks(#[trigger] post[pre.len() + i], script[i])
    &&& forall|i: int| 0 <= i < n - 1 ==> accepted(#[trigger] post[pre.len() + i])
    &&& match r {
        Ok(()) => n == script.len() && (n > 0 ==> accepted(post.last())),
        Err(e) => n > 0 && (rows::reply_to(post) matches Reply::Failed(m) && rows::refused(r, m)),
    }
}

/// Runs a script.
pub(crate) fn run_script(db: &mut Db, script: Vec<Statement>) -> (r: Result<(), DbError>)
    ensures
        scripted(old(db)@, final(db)@, requests(script@), r),
{
    let ghost pre = db@;
    let ghost wanted = requests(script@);
    let mut i: usize = 0;
    assert(db@.take(pre.len() as int) =~= pre);
    while i < script.len()
        invariant
            pre == old(db)@,
            wanted == requests(script@),
            i <= script@.len(),
            db@.len() == pre.len() + i,
            db@.take(pre.len() as int) == pre,
            forall|k: int| 0 <= k < i ==> asks(#[trigger] db@[pre.len() + k], wanted[k]),
            forall|k: int| 0 <= k < i ==> accepted(#[trigger] db@[pre.len() + k]),
        decreases script.len() - i,
    {
        assert(wanted[i as int] == script@[i as int]@);
        let done = match &script[i] {
            Statement::One { sql, params } => match db.execute(sql.as_str(), params) {
                Ok(_) => Ok(()),
                Err(e) => Err(e),
            },
            Statement::Several { sql } => db.batch(sql.as_str()),
        };
        match done {
            Ok(()) => {},
            Err(e) => {
                assert(db@.take(pre.len() as int) =~= pre);
                return Err(e);
            },
        }
        i += 1;
        assert(db@.take(pre.len() as int) =~= pre);
    }
    assert(i > 0 ==> accepted(db@[pre.len() + (i - 1)]));
    Ok(())
}

pub const BEGIN: &'static str = "BEGIN DEFERRED";

pub const COMMIT: &'static str = "COMMIT";

pub const ROLLBACK: &'static str = "ROLLBACK";

/// The step of a transaction that was opened.
pub open spec fn opening() -> Step {
    Step::Asked { request: Request::Batch { sql: BEGIN@ }, reply: Reply::Done }
}

/// The step of a transaction that was committed.
pub open spec fn commitment() -> Step {
    Step::Asked { request: Request::Batch { sql: COMMIT@ }, reply: Reply::Done }
}

/// A transaction was given up: rolled back, unless the engine had already closed it.
pub open spec fn abandoned(pre: Trace, post: Trace) -> bool {
    ||| post == pre.push(
        Step::Asked { request: Request::Autocommit, reply: Reply::Flag(true) },
    )
    ||| rows::asked(
        pre.push(Step::Asked { request: Request::Autocommit, reply: Reply::Flag(false) }),
        post,
        Request::Batch { sql: ROLLBACK@ },
    )
}

/// A transaction ended: committed where its body succeeded, given up where its body or the commit
/// failed.
pub open spec fn ended<T>(
    pre: Trace,
    post: Trace,
    inner: Result<T, DbError>,
    r: Result<T, DbError>,
) -> bool {
    match inner {
        Err(_) => abandoned(pre, post) && r == inner,
        Ok(_) => {
            ||| post == pre.push(commitment()) && r == inner
            ||| exists|m: Seq<char>|
                {
                    &&& #[trigger] abandoned(
                        pre.push(
                            Step::Asked {
                                request: Request::Batch { sql: COMMIT@ },
                                reply: Reply::Failed(m),
                            },
                        ),
                        post,
                    )
                    &&& rows::refused(r, m)
                }
        },
    }
}

/// `body` was done in a transaction of its own.
pub open spec fn transacted<T>(
    pre: Trace,
    post: Trace,
    body: spec_fn(Trace, Trace, Result<T, DbError>) -> bool,
    r: Result<T, DbError>,
) -> bool {
    ||| {
        &&& rows::asked(pre, post, Request::Batch { sql: BEGIN@ })
        &&& rows::reply_to(post) matches Reply::Failed(m)
        &&& rows::refused(r, m)
    }
    ||| exists|mid: Trace, inner: Result<T, DbError>|
        #[trigger] body(pre.push(opening()), mid, inner) && ended(mid, post, inner, r)
}

/// A list of statements was run, and the result says whether the engine accepted them.
pub open spec fn batched(pre: Trace, post: Trace, sql: Seq<char>, r: Result<(), DbError>) -> bool {
    &&& rows::asked(pre, post, Request::Batch { sql })
    &&& match rows::reply_to(post) {
        Reply::Done => r is Ok,
        Reply::Failed(m) => rows::refused(r, m),
        _ => false,
    }
}

/// Opens a transaction.
pub(crate) fn begin(db: &mut Db) -> (r: Result<(), DbError>)
    ensures
        match r {
            Ok(()) => final(db)@ == old(db)@.push(opening()),
            Err(e) => {
                &&& rows::asked(old(db)@, final(db)@, Request::Batch { sql: BEGIN@ })
                &&& rows::reply_to(final(db)@) matches Reply::Failed(m)
                &&& rows::refused(r, m)
            },
        },
{
    db.batch(BEGIN)
}

fn abandon(db: &mut Db)
    ensures
        abandoned(old(db)@, final(db)@),
{
    if !db.is_autocommit() {
        match db.batch(ROLLBACK) {
            Ok(()) => {},
            Err(_) => {},
        }
    }
}

/// Ends a transaction whose body gave `inner`.
pub(crate) fn finish<T>(db: &mut Db, inner: Result<T, DbError>) -> (r: Result<T, DbError>)
    ensures
        ended(old(db)@, final(db)@, inner, r),
{
    match inner {
        Err(e) => {
            abandon(db);
            Err(e)
        },
        Ok(v) => match db.batch(COMMIT) {
            Ok(()) => Ok(v),
            Err(e) => {
                abandon(db);
                Err(e)
            },
        },
    }
}

/// An operation in a transaction of its own reports success exactly where its last step is the
/// commit; where it reports an error that its body raised, the body's last step is followed by the
/// rollback, unless the engine had closed the transaction already.
pub proof fn law_transaction_outcome<T>(
    pre: Trace,
    post: Trace,
    body: spec_fn(Trace, Trace, Result<T, DbError>) -> bool,
    r: Result<T, DbError>,
)
    requires
        transacted(pre, post, body, r),
    ensures
        r is Ok <==> post.last() == commitment(),
        r is Ok ==> exists|mid: Trace|
            #[trigger] body(pre.push(opening()), mid, r) && post == mid.push(commitment()),
        r is Err ==> {
            ||| asks(post.last(), Request::Batch { sql: BEGIN@ })
            ||| asks(post.last(), Request::Batch { sql: ROLLBACK@ })
            ||| asks(post.last(), Request::Autocommit)
        },
{
    reveal_strlit("BEGIN DEFERRED");
    reveal_strlit("COMMIT");
    reveal_strlit("ROLLBACK");
    assert(BEGIN@.len() != COMMIT@.len());
    assert(ROLLBACK@.len() != COMMIT@.len());
}

/// Whether a transaction was given up at a place: it is rolled back exactly where it is shown to be
/// still open.
pub open spec fn is_given_up(all: Trace, at: int) -> bool {
    &&& all[at] matches Step::Asked { request: Request::Autocommit, reply: Reply::Flag(closed) }
    &&& if closed {
        all.len() == at + 1
    } else {
        &&& all.len() == at + 2
        &&& all[at + 1] matches Step::Asked { request: Request::Batch { sql }, .. }
        &&& sql == "ROLLBACK"@
    }
}

/// A transaction is committed where its body succeeded, and the body's result is the result where the
/// commit was accepted. Where the body failed, or the commit, it is given up, and that failure is the
/// result.
pub proof fn law_transaction_is_committed_or_given_up<T>(
    pre: Trace,
    post: Trace,
    inner: Result<T, DbError>,
    r: Result<T, DbError>,
)
    requires
        ended(pre, post, inner, r),
    ensures
        inner is Err ==> r == inner && is_given_up(post, pre.len() as int),
        inner is Ok ==> (post[pre.len() as int] matches Step::Asked {
            request: Request::Batch { sql },
            reply,
        } && {
            &&& sql == "COMMIT"@
            &&& match reply {
                Reply::Failed(m) => {
                    &&& r matches Err(DbError::Engine(s))
                    &&& s@ == m
                    &&& is_given_up(post, pre.len() + 1int)
                },
                _ => r == inner && post.len() == pre.len() + 1,
            }
        }),
{
    let p = pre.len() as int;
    match inner {
        Err(_) => {
            lemma_given_up(pre, post);
        },
        Ok(_) => {
            if !(post == pre.push(commitment()) && r == inner) {
                let m = choose|m: Seq<char>|
                    {
                        &&& #[trigger] abandoned(
                            pre.push(
                                Step::Asked {
                                    request: Request::Batch { sql: COMMIT@ },
                                    reply: Reply::Failed(m),
                                },
                            ),
                            post,
                        )
                        &&& rows::refused(r, m)
                    };
                let tried = pre.push(
                    Step::Asked {
                        request: Request::Batch { sql: COMMIT@ },
                        reply: Reply::Failed(m),
                    },
                );
                lemma_given_up(tried, post);
                assert(tried[p] == post[p]);
            }
        },
    }
}

proof fn lemma_given_up(pre: Trace, post: Trace)
    requires
        abandoned(pre, post),
    ensures
        is_given_up(post, pre.len() as int),
        forall|k: int| 0 <= k < pre.len() ==> post[k] == #[trigger] pre[k],
{
    let p = pre.len() as int;
    if post.len() == p + 1 {
        assert(post[p] == post.last());
    } else {
        let read = pre.push(
            Step::Asked { request: Request::Autocommit, reply: Reply::Flag(false) },
        );
        assert(post[p] == read[p]);
        assert(post[p + 1] == post.last());
    }
}

/// To give a transaction up goes on from a trace.
pub proof fn lemma_abandoning_extends(pre: Trace, post: Trace)
    requires
        abandoned(pre, post),
    ensures
        trace::extends(pre, post),
{
    assert(post.take(pre.len() as int) =~= pre);
}

/// To end a transaction goes on from a trace.
pub proof fn lemma_ending_extends<T>(
    pre: Trace,
    post: Trace,
    inner: Result<T, DbError>,
    r: Result<T, DbError>,
)
    requires
        ended(pre, post, inner, r),
    ensures
        trace::extends(pre, post),
{
    match inner {
        Err(_) => {
            lemma_abandoning_extends(pre, post);
        },
        Ok(_) => {
            if post == pre.push(commitment()) && r == inner {
                assert(post.take(pre.len() as int) =~= pre);
            } else {
                let m = choose|m: Seq<char>|
                    {
                        &&& #[trigger] abandoned(
                            pre.push(
                                Step::Asked {
                                    request: Request::Batch { sql: COMMIT@ },
                                    reply: Reply::Failed(m),
                                },
                            ),
                            post,
                        )
                        &&& rows::refused(r, m)
                    };
                let tried = pre.push(
                    Step::Asked {
                        request: Request::Batch { sql: COMMIT@ },
                        reply: Reply::Failed(m),
                    },
                );
                lemma_abandoning_extends(tried, post);
                assert(tried.take(pre.len() as int) =~= pre);
                trace::lemma_extends_further(pre, tried, post);
            }
        },
    }
}

/// A transaction goes on from a trace, where its body does.
pub proof fn lemma_transaction_extends<T>(
    pre: Trace,
    post: Trace,
    body: spec_fn(Trace, Trace, Result<T, DbError>) -> bool,
    r: Result<T, DbError>,
)
    requires
        transacted(pre, post, body, r),
        forall|a: Trace, b: Trace, x: Result<T, DbError>| #[trigger]
            body(a, b, x) ==> trace::extends(a, b),
    ensures
        trace::extends(pre, post),
{
    if rows::asked(pre, post, Request::Batch { sql: BEGIN@ }) {
        assert(post.take(pre.len() as int) =~= pre);
    } else {
        let (mid, inner) = choose|mid: Trace, inner: Result<T, DbError>|
            #[trigger] body(pre.push(opening()), mid, inner) && ended(mid, post, inner, r);
        let opened = pre.push(opening());
        assert(opened.take(pre.len() as int) =~= pre);
        trace::lemma_extends_further(pre, opened, mid);
        lemma_ending_extends(mid, post, inner, r);
        trace::lemma_extends_further(pre, mid, post);
    }
}

} // verus!
