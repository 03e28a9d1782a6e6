//! Traces that go on from others, and the steps in them.
use crate::engine::{Request, Step, Trace};
use crate::rows;
use vstd::prelude::*;

verus! {

/// Whether a step runs a query, by its text.
pub open spec fn queries(step: Step, sql: Seq<char>) -> bool {
    match step {
        Step::Asked { request: Request::First { sql: said, .. }, .. } => said == sql,
        Step::Asked { request: Request::All { sql: said, .. }, .. } => said == sql,
        _ => false,
    }
}

/// A trace goes on from another.
pub open spec fn extends(pre: Trace, post: Trace) -> bool {
    pre.len() <= post.len() && post.take(pre.len() as int) == pre
}

/// What goes on from what goes on from a trace goes on from it.
pub proof fn lemma_extends_further(pre: Trace, mid: Trace, post: Trace)
    requires
        extends(pre, mid),
        extends(mid, post),
    ensures
        extends(pre, post),
        pre.len() < mid.len() ==> post[pre.len() as int] == mid[pre.len() as int],
        pre.len() + 1 < mid.len() ==> post[pre.len() as int + 1] == mid[pre.len() as int + 1],
{
    assert(post.take(pre.len() as int) =~= post.take(mid.len() as int).take(pre.len() as int));
    assert(forall|k: int|
        0 <= k < mid.len() ==> #[trigger] post[k] == post.take(mid.len() as int)[k]);
}

/// A trace that goes on from another has its steps.
pub proof fn lemma_step_stays(early: Trace, late: Trace, k: int)
    requires
        extends(early, late),
        0 <= k < early.len(),
    ensures
        late[k] == early[k],
{
    assert(late.take(early.len() as int)[k] == late[k]);
}

/// To ask goes on from a trace, by one step.
pub proof fn lemma_asking_extends(pre: Trace, post: Trace, request: Request)
    requires
        rows::asked(pre, post, request),
    ensures
        extends(pre, post),
        post.len() == pre.len() + 1,
        post.last() == (Step::Asked { request, reply: rows::reply_to(post) }),
{
    assert(post.take(pre.len() as int) =~= pre);
}

} // verus!
