//! What the chain of continued sessions is that the store gives for any of them: the whole of it, where
//! the database tells of one, and an error only where it tells of none.
use crate::agents;
use crate::engine::{Datum, DbError, Reply, Request, Step, Trace};
use crate::events;
use crate::rows::FromRow;
use crate::sessions;
use crate::text;
use crate::trace;
use vstd::prelude::*;

verus! {

/// Whether a step asks which session a live session continues.
pub open spec fn asks_parent(step: Step, session_id: Seq<char>) -> bool {
    &&& step matches Step::Asked { request: Request::First { sql, params, .. }, .. }
    &&& sql
        == "SELECT parent_session_id FROM sessions WHERE id = ?1 AND deleted_at IS NULL"@
    &&& params == seq![Datum::Text(session_id)]
}

/// Whether a step asks which session a live session says that it is continued by.
pub open spec fn asks_successor(step: Step, session_id: Seq<char>) -> bool {
    &&& step matches Step::Asked { request: Request::First { sql, params, .. }, .. }
    &&& sql
        == "SELECT continued_to_session_id FROM sessions WHERE id = ?1 AND deleted_at IS NULL"@
    &&& params == seq![Datum::Text(session_id)]
}

/// Whether a step is replied with a text.
pub open spec fn tells_text(step: Step, said: Seq<char>) -> bool {
    &&& step matches Step::Asked { reply: Reply::Row(Some(row)), .. }
    &&& row[0] == Datum::Text(said)
}

/// Whether a step is replied with no row, or with one that has no value.
pub open spec fn tells_none(step: Step) -> bool {
    match step {
        Step::Asked { reply: Reply::Row(None), .. } => true,
        Step::Asked { reply: Reply::Row(Some(row)), .. } => row[0] == Datum::Null,
        _ => false,
    }
}

/// Whether a step is replied with no rows.
pub open spec fn tells_no_rows(step: Step) -> bool {
    step matches Step::Asked { reply: Reply::Rows(found), .. } && found.len() == 0
}

/// Whether a step, where it asks for the lineage of a session of a chain, is replied as the chain is:
/// the session before it is its live parent, the one after it is its only live child, and the only one
/// that it may point to.
pub open spec fn step_tells_chain(step: Step, chain: Seq<Seq<char>>, i: int) -> bool {
    &&& asks_parent(step, chain[i]) ==> if i == 0 {
        tells_none(step)
    } else {
        tells_text(step, chain[i - 1])
    }
    &&& asks_successor(step, chain[i]) ==> tells_none(step) || (i + 1 < chain.len() && tells_text(
        step,
        chain[i + 1],
    ))
    &&& sessions::asks_children(step, chain[i]) ==> if i + 1 < chain.len() {
        sessions::shows_only_child(step, chain[i + 1])
    } else {
        tells_no_rows(step)
    }
}

/// Whether the steps of a trace from `start` on are replied as a chain is.
pub open spec fn tells_chain(all: Trace, start: int, chain: Seq<Seq<char>>) -> bool {
    forall|k: int, i: int|
        start <= k < all.len() && 0 <= i < chain.len() ==> step_tells_chain(
            #[trigger] all[k],
            chain,
            i,
        ) && #[trigger] is_place(chain, i)
}

/// Whether a number is a place in a chain.
pub open spec fn is_place(chain: Seq<Seq<char>>, i: int) -> bool {
    0 <= i < chain.len()
}

proof fn lemma_step_tells(all: Trace, start: int, chain: Seq<Seq<char>>, k: int, i: int)
    requires
        tells_chain(all, start, chain),
        start <= k < all.len(),
        0 <= i < chain.len(),
    ensures
        step_tells_chain(all[k], chain, i),
{
    assert(is_place(chain, i));
}

proof fn lemma_climb_extends(
    pre: Trace,
    post: Trace,
    seen: Seq<Seq<char>>,
    r: Result<String, DbError>,
)
    requires
        sessions::climbed(pre, post, seen, r),
    ensures
        trace::extends(pre, post),
    decreases 1000 - seen.len(),
{
    let (mid, got) = choose|mid: Trace, got: Result<Option<String>, DbError>|
        {
            &&& #[trigger] sessions::live_parent_read(pre, mid, seen.last(), got)
            &&& sessions::climbed_on(mid, post, seen, got, r)
        };
    assert(mid.take(pre.len() as int) =~= pre);
    if let Ok(Some(parent)) = got {
        if post == mid {
        } else {
            lemma_climb_extends(mid, post, seen.push(parent@), r);
            trace::lemma_extends_further(pre, mid, post);
        }
    }
}

proof fn lemma_climb_reaches_the_first(
    pre: Trace,
    post: Trace,
    all: Trace,
    start: int,
    chain: Seq<Seq<char>>,
    at: int,
    i: int,
    seen: Seq<Seq<char>>,
    r: Result<String, DbError>,
)
    requires
        sessions::climbed(pre, post, seen, r),
        trace::extends(post, all),
        0 <= start <= pre.len(),
        tells_chain(all, start, chain),
        chain.no_duplicates(),
        chain.len() <= 128,
        0 <= i <= at < chain.len(),
        seen.len() == at - i + 1,
        forall|j: int| 0 <= j < seen.len() ==> #[trigger] seen[j] == chain[at - j],
    ensures
        r matches Ok(root) && root@ == chain[0],
    decreases i,
{
    let (mid, got) = choose|mid: Trace, got: Result<Option<String>, DbError>|
        {
            &&& #[trigger] sessions::live_parent_read(pre, mid, seen.last(), got)
            &&& sessions::climbed_on(mid, post, seen, got, r)
        };
    let k = pre.len() as int;
    lemma_climb_extends(pre, post, seen, r);
    assert(seen.last() == chain[i]);
    assert(trace::extends(mid, post)) by {
        assert(post.take(post.len() as int) =~= post);
        if let Ok(Some(parent)) = got {
            if post != mid {
                lemma_climb_extends(mid, post, seen.push(parent@), r);
            }
        }
    }
    trace::lemma_step_stays(mid, post, k);
    trace::lemma_step_stays(post, all, k);
    assert(asks_parent(all[k], chain[i]));
    lemma_step_tells(all, start, chain, k, i);
    if i > 0 {
        let parent = got->Ok_0->Some_0;
        assert(parent@ == chain[i - 1]);
        if seen.contains(parent@) {
            let j = choose|j: int| 0 <= j < seen.len() && seen[j] == parent@;
            assert(chain[at - j] == chain[i - 1]);
        }
        let longer = seen.push(parent@);
        assert forall|j: int| 0 <= j < longer.len() implies #[trigger] longer[j] == chain[at
            - j] by {
            if j < seen.len() {
                assert(longer[j] == seen[j]);
            }
        }
        lemma_climb_reaches_the_first(mid, post, all, start, chain, at, i - 1, longer, r);
    }
}

proof fn lemma_next_is_told(
    pre: Trace,
    post: Trace,
    all: Trace,
    start: int,
    chain: Seq<Seq<char>>,
    i: int,
    got: Result<Option<String>, DbError>,
)
    requires
        sessions::next_child_read(pre, post, chain[i], got),
        trace::extends(post, all),
        0 <= start <= pre.len(),
        tells_chain(all, start, chain),
        0 <= i < chain.len(),
    ensures
        got matches Ok(o) && events::opt(o) == if i + 1 < chain.len() {
            Some(chain[i + 1])
        } else {
            None
        },
{
    let id = chain[i];
    let (mid, pointer) = choose|mid: Trace, pointer: Result<Option<String>, DbError>|
        {
            &&& #[trigger] sessions::continued_to_read(pre, mid, id, pointer)
            &&& sessions::child_looked_up(mid, post, id, pointer, got)
        };
    sessions::lemma_next_child_extends(pre, post, id, got);
    let k = pre.len() as int;
    assert(asks_successor(mid[k], id));
    assert(trace::extends(mid, post)) by {
        assert(post.take(mid.len() as int) =~= mid);
    }
    trace::lemma_step_stays(mid, post, k);
    trace::lemma_step_stays(post, all, k);
    lemma_step_tells(all, start, chain, k, i);
    assert(pointer is Ok);
    let p = pointer->Ok_0;
    let children = choose|children: Result<Vec<String>, DbError>|
        {
            &&& #[trigger] sessions::live_children_read(mid, post, id, children)
            &&& sessions::child_weighed(p, children, got)
        };
    let n = mid.len() as int;
    trace::lemma_step_stays(post, all, n);
    assert(post.last() == all[n]);
    assert(sessions::asks_children(all[n], id));
    lemma_step_tells(all, start, chain, n, i);
    let found = all[n]->reply->Rows_0;
    let listed = children->Ok_0;
    if i + 1 < chain.len() {
        assert(found[0] is Ok && listed@[0].is_row(found[0]->Ok_0));
        assert(text::texts(listed@)[0] == chain[i + 1]);
    }
}

proof fn lemma_descent_gives_the_chain(
    pre: Trace,
    post: Trace,
    start: int,
    chain: Seq<Seq<char>>,
    i: int,
    ids: Seq<Seq<char>>,
    r: Result<Vec<String>, DbError>,
)
    requires
        sessions::descended(pre, post, ids, r),
        0 <= start <= pre.len(),
        tells_chain(post, start, chain),
        chain.no_duplicates(),
        chain.len() <= 128,
        0 <= i < chain.len(),
        ids == chain.take(i + 1),
    ensures
        r matches Ok(v) && text::texts(v@) == chain,
    decreases chain.len() - i,
{
    let (mid, got) = choose|mid: Trace, got: Result<Option<String>, DbError>|
        {
            &&& #[trigger] sessions::next_child_read(pre, mid, ids.last(), got)
            &&& sessions::descended_on(mid, post, ids, got, r)
        };
    sessions::lemma_next_child_extends(pre, mid, ids.last(), got);
    assert(trace::extends(mid, post)) by {
        assert(post.take(post.len() as int) =~= post);
        if let Ok(Some(child)) = got {
            if post != mid {
                sessions::lemma_descent_extends(mid, post, ids.push(child@), r);
            }
        }
    }
    assert(ids.last() == chain[i]);
    lemma_next_is_told(pre, mid, post, start, chain, i, got);
    if i + 1 < chain.len() {
        let child = got->Ok_0->Some_0;
        if ids.contains(child@) {
            let j = choose|j: int| 0 <= j < ids.len() && ids[j] == child@;
            assert(chain[j] == chain[i + 1]);
        }
        assert(ids.push(child@) =~= chain.take(i + 2));
        lemma_descent_gives_the_chain(mid, post, start, chain, i + 1, ids.push(child@), r);
    } else {
        assert(chain.take(i + 1) =~= chain);
    }
}

/// A chain of at most 128 sessions, none twice, is given whole for any of its sessions: where the
/// database tells of each session that the one before it is its live parent and the one after it its
/// only live child, the result is the chain from its first session to its last.
pub proof fn law_whole_chain_is_given(
    pre: Trace,
    post: Trace,
    chain: Seq<Seq<char>>,
    at: int,
    r: Result<Vec<String>, DbError>,
)
    requires
        0 <= at < chain.len() <= 128,
        chain.no_duplicates(),
        sessions::chain_read(pre, post, chain[at], r),
        tells_chain(post, pre.len() as int, chain),
    ensures
        r matches Ok(v) && text::texts(v@) == chain,
{
    let id = chain[at];
    let start = pre.len() as int;
    let (mid, root) = choose|mid: Trace, root: Result<String, DbError>|
        {
            &&& #[trigger] sessions::climbed(pre, mid, seq![id], root)
            &&& sessions::chain_followed(mid, post, root, r)
        };
    lemma_climb_extends(pre, mid, seq![id], root);
    assert(trace::extends(mid, post)) by {
        assert(post.take(post.len() as int) =~= post);
        if let Ok(first) = root {
            sessions::lemma_descent_extends(mid, post, seq![first@], r);
        }
    }
    lemma_climb_reaches_the_first(pre, mid, post, start, chain, at, at, seq![id], root);
    assert(chain.take(1) =~= seq![chain[0]]);
    lemma_descent_gives_the_chain(mid, post, start, chain, 0, chain.take(1), r);
}

/// Whether a step tells that a session is continued by another: it points to it, or has it as a live
/// child.
pub open spec fn tells_successor(step: Step, session_id: Seq<char>, next: Seq<char>) -> bool {
    ||| asks_successor(step, session_id) && tells_text(step, next)
    ||| {
        &&& sessions::asks_children(step, session_id)
        &&& sessions::shows_only_child(step, next)
    }
}

/// Whether some step from `start` on tells that a session continues another.
pub open spec fn parent_told(all: Trace, start: int, session_id: Seq<char>, parent: Seq<char>) -> bool {
    exists|k: int|
        start <= k < all.len() && asks_parent(#[trigger] all[k], session_id) && tells_text(
            all[k],
            parent,
        )
}

/// Whether some step from `start` on tells that a session is continued by another.
pub open spec fn successor_told(
    all: Trace,
    start: int,
    session_id: Seq<char>,
    next: Seq<char>,
) -> bool {
    exists|k: int|
        start <= k < all.len() && tells_successor(#[trigger] all[k], session_id, next)
}

/// Whether each session on a path, from the place `from` on, is told to continue the next one.
pub open spec fn is_way_up(all: Trace, start: int, path: Seq<Seq<char>>, from: int) -> bool {
    forall|i: int|
        from <= i < path.len() - 1 ==> parent_told(all, start, #[trigger] path[i], path[i + 1])
}

/// Whether each session on a path, from the place `from` on, is told to be continued by the next one.
pub open spec fn is_way_down(all: Trace, start: int, path: Seq<Seq<char>>, from: int) -> bool {
    forall|i: int|
        from <= i < path.len() - 1 ==> successor_told(all, start, #[trigger] path[i], path[i + 1])
}

/// Whether a path has more than 128 sessions, the first 128 of them different ones.
pub open spec fn is_too_long(path: Seq<Seq<char>>) -> bool {
    path.len() == 129 && path.drop_last().no_duplicates()
}

/// Whether a path comes back to a session that is on it.
pub open spec fn comes_back(path: Seq<Seq<char>>) -> bool {
    path.len() > 0 && path.drop_last().contains(path.last())
}

/// Whether an error says that a chain is too long or runs in a circle, and a path is why.
pub open spec fn is_reason<T>(r: Result<T, DbError>, path: Seq<Seq<char>>) -> bool {
    &&& agents::violates(r, "continuation lineage exceeds maximum depth"@) ==> is_too_long(path)
    &&& agents::violates(r, "continuation lineage cycle"@) ==> comes_back(path)
}

/// Whether an error says that a chain is too long or runs in a circle.
pub open spec fn is_endless<T>(r: Result<T, DbError>) -> bool {
    ||| agents::violates(r, "continuation lineage exceeds maximum depth"@)
    ||| agents::violates(r, "continuation lineage cycle"@)
}

proof fn lemma_errors_differ()
    ensures
        "continuation lineage exceeds maximum depth"@ != "continuation lineage cycle"@,
        "continuation lineage has multiple live children"@ != "continuation lineage cycle"@,
        "continuation lineage child pointer mismatch"@ != "continuation lineage cycle"@,
        "continuation lineage has multiple live children"@
            != "continuation lineage exceeds maximum depth"@,
        "continuation lineage child pointer mismatch"@
            != "continuation lineage exceeds maximum depth"@,
{
    reveal_strlit("continuation lineage exceeds maximum depth");
    reveal_strlit("continuation lineage cycle");
    reveal_strlit("continuation lineage has multiple live children");
    reveal_strlit("continuation lineage child pointer mismatch");
    assert("continuation lineage exceeds maximum depth"@.len() == 42);
    assert("continuation lineage cycle"@.len() == 26);
    assert("continuation lineage has multiple live children"@.len() == 47);
    assert("continuation lineage child pointer mismatch"@.len() == 43);
}

proof fn lemma_climb_fails_for_a_reason(
    pre: Trace,
    post: Trace,
    start: int,
    seen: Seq<Seq<char>>,
    r: Result<String, DbError>,
) -> (path: Seq<Seq<char>>)
    requires
        sessions::climbed(pre, post, seen, r),
        0 <= start <= pre.len(),
        0 < seen.len() <= 128,
        seen.no_duplicates(),
        is_endless(r),
    ensures
        is_reason(r, path),
        seen.len() < path.len(),
        path.take(seen.len() as int) == seen,
        is_way_up(post, start, path, seen.len() - 1),
    decreases 128 - seen.len(),
{
    lemma_errors_differ();
    let (mid, got) = choose|mid: Trace, got: Result<Option<String>, DbError>|
        {
            &&& #[trigger] sessions::live_parent_read(pre, mid, seen.last(), got)
            &&& sessions::climbed_on(mid, post, seen, got, r)
        };
    let k = pre.len() as int;
    let parent = got->Ok_0->Some_0;
    let longer = seen.push(parent@);
    assert(longer.take(seen.len() as int) =~= seen);
    assert(longer.drop_last() =~= seen);
    assert(asks_parent(mid[k], seen.last()) && tells_text(mid[k], parent@));
    if seen.len() >= 128 || seen.contains(parent@) {
        assert(parent_told(post, start, longer[seen.len() - 1], longer[seen.len() as int]));
        longer
    } else {
        lemma_climb_extends(mid, post, longer, r);
        trace::lemma_step_stays(mid, post, k);
        let path = lemma_climb_fails_for_a_reason(mid, post, start, longer, r);
        let n = seen.len() as int;
        assert(path.take(n) =~= path.take(n + 1).take(n));
        assert(path[n - 1] == path.take(n + 1)[n - 1] && path[n] == path.take(n + 1)[n]);
        assert(parent_told(post, start, path[n - 1], path[n]));
        assert forall|i: int| n - 1 <= i < path.len() - 1 implies parent_told(
            post,
            start,
            #[trigger] path[i],
            path[i + 1],
        ) by {}
        path
    }
}

proof fn lemma_child_is_told(
    pre: Trace,
    post: Trace,
    session_id: Seq<char>,
    got: Result<Option<String>, DbError>,
)
    requires
        sessions::next_child_read(pre, post, session_id, got),
    ensures
        got matches Ok(Some(child)) ==> successor_told(
            post,
            pre.len() as int,
            session_id,
            child@,
        ),
        !is_endless(got),
{
    lemma_errors_differ();
    let (mid, pointer) = choose|mid: Trace, pointer: Result<Option<String>, DbError>|
        {
            &&& #[trigger] sessions::continued_to_read(pre, mid, session_id, pointer)
            &&& sessions::child_looked_up(mid, post, session_id, pointer, got)
        };
    let k = pre.len() as int;
    if let Ok(p) = pointer {
        let children = choose|children: Result<Vec<String>, DbError>|
            {
                &&& #[trigger] sessions::live_children_read(mid, post, session_id, children)
                &&& sessions::child_weighed(p, children, got)
            };
        if let Ok(Some(child)) = got {
            let c = children->Ok_0;
            assert(post.take(mid.len() as int) =~= mid);
            trace::lemma_step_stays(mid, post, k);
            if p is Some {
                assert(tells_successor(post[k], session_id, child@));
            } else {
                let n = mid.len() as int;
                let found = post[n]->reply->Rows_0;
                assert(found[0] is Ok && c@[0].is_row(found[0]->Ok_0));
                assert(text::texts(c@)[0] == c@[0]@);
                assert(tells_successor(post[n], session_id, child@));
            }
        }
    }
}

proof fn lemma_descent_fails_for_a_reason(
    pre: Trace,
    post: Trace,
    start: int,
    ids: Seq<Seq<char>>,
    r: Result<Vec<String>, DbError>,
) -> (path: Seq<Seq<char>>)
    requires
        sessions::descended(pre, post, ids, r),
        0 <= start <= pre.len(),
        0 < ids.len() <= 128,
        ids.no_duplicates(),
        is_endless(r),
    ensures
        is_reason(r, path),
        ids.len() < path.len(),
        path.take(ids.len() as int) == ids,
        is_way_down(post, start, path, ids.len() - 1),
    decreases 128 - ids.len(),
{
    lemma_errors_differ();
    let (mid, got) = choose|mid: Trace, got: Result<Option<String>, DbError>|
        {
            &&& #[trigger] sessions::next_child_read(pre, mid, ids.last(), got)
            &&& sessions::descended_on(mid, post, ids, got, r)
        };
    lemma_child_is_told(pre, mid, ids.last(), got);
    let child = got->Ok_0->Some_0;
    let longer = ids.push(child@);
    assert(longer.take(ids.len() as int) =~= ids);
    assert(longer.drop_last() =~= ids);
    let k = choose|k: int|
        pre.len() <= k < mid.len() && tells_successor(#[trigger] mid[k], ids.last(), child@);
    if ids.len() >= 128 || ids.contains(child@) {
        assert(tells_successor(post[k], longer[ids.len() - 1], longer[ids.len() as int]));
        assert(successor_told(post, start, longer[ids.len() - 1], longer[ids.len() as int]));
        longer
    } else {
        sessions::lemma_descent_extends(mid, post, longer, r);
        trace::lemma_step_stays(mid, post, k);
        let path = lemma_descent_fails_for_a_reason(mid, post, start, longer, r);
        let n = ids.len() as int;
        assert(path.take(n) =~= path.take(n + 1).take(n));
        assert(path[n - 1] == path.take(n + 1)[n - 1] && path[n] == path.take(n + 1)[n]);
        assert(tells_successor(post[k], path[n - 1], path[n]));
        assert(successor_told(post, start, path[n - 1], path[n]));
        assert forall|i: int| n - 1 <= i < path.len() - 1 implies successor_told(
            post,
            start,
            #[trigger] path[i],
            path[i + 1],
        ) by {}
        path
    }
}

/// A chain is refused as too long only where the database tells of more than 128 sessions in a row,
/// 128 of them different ones, and as running in a circle only where it tells of a row that comes back
/// to one of its sessions.
pub proof fn law_chain_is_refused_for_a_reason(
    pre: Trace,
    post: Trace,
    session_id: Seq<char>,
    r: Result<Vec<String>, DbError>,
) -> (path: Seq<Seq<char>>)
    requires
        sessions::chain_read(pre, post, session_id, r),
        is_endless(r),
    ensures
        is_reason(r, path),
        is_way_up(post, pre.len() as int, path, 0) || is_way_down(post, pre.len() as int, path, 0),
{
    lemma_errors_differ();
    let start = pre.len() as int;
    let (mid, root) = choose|mid: Trace, root: Result<String, DbError>|
        {
            &&& #[trigger] sessions::climbed(pre, mid, seq![session_id], root)
            &&& sessions::chain_followed(mid, post, root, r)
        };
    match root {
        Ok(first) => {
            lemma_climb_extends(pre, mid, seq![session_id], root);
            lemma_descent_fails_for_a_reason(mid, post, start, seq![first@], r)
        },
        Err(_) => lemma_climb_fails_for_a_reason(pre, post, start, seq![session_id], root),
    }
}

/// Whether the session that continues another is what is told of that one: what it points to, `pointer`,
/// and its live children. It is the one that is pointed to, or the only child; two children are refused,
/// and so is a child that is not the one pointed to.
pub open spec fn is_successor(
    pointer: Option<Seq<char>>,
    children: Seq<Seq<char>>,
    r: Result<Option<String>, DbError>,
) -> bool {
    if children.len() >= 2 {
        agents::violates(r, "continuation lineage has multiple live children"@)
    } else if children.len() == 1 && pointer is Some && pointer != Some(children[0]) {
        agents::violates(r, "continuation lineage child pointer mismatch"@)
    } else {
        &&& r matches Ok(child)
        &&& match child {
            Some(id) => pointer == Some(id@) || (pointer is None && children.len() == 1 && id@
                == children[0]),
            None => pointer is None && children.len() == 0,
        }
    }
}

/// Whether a step shows live children of a session.
pub open spec fn shows_children(step: Step, session_id: Seq<char>, children: Seq<Seq<char>>) -> bool {
    &&& step matches Step::Asked {
        request: Request::All { sql, params, .. },
        reply: Reply::Rows(found),
    }
    &&& params == seq![Datum::Text(session_id)]
    &&& found.len() == children.len()
    &&& forall|i: int|
        0 <= i < found.len() ==> (#[trigger] found[i] matches Ok(row) && row[0] == Datum::Text(
            children[i],
        ))
}

/// The session that continues another is told by what that one points to and by its live children, where
/// both are told.
pub proof fn law_successor_is_unambiguous(
    pre: Trace,
    post: Trace,
    session_id: Seq<char>,
    pointer: Option<Seq<char>>,
    children: Seq<Seq<char>>,
    r: Result<Option<String>, DbError>,
)
    requires
        sessions::next_child_read(pre, post, session_id, r),
        post.len() == pre.len() + 2,
        match pointer {
            Some(id) => tells_text(post[pre.len() as int], id),
            None => tells_none(post[pre.len() as int]),
        },
        shows_children(post.last(), session_id, children),
    ensures
        asks_successor(post[pre.len() as int], session_id),
        is_successor(pointer, children, r),
{
    let (mid, told) = choose|mid: Trace, told: Result<Option<String>, DbError>|
        {
            &&& #[trigger] sessions::continued_to_read(pre, mid, session_id, told)
            &&& sessions::child_looked_up(mid, post, session_id, told, r)
        };
    assert(mid[pre.len() as int] == mid.last());
    let got = choose|got: Result<Vec<String>, DbError>|
        {
            &&& #[trigger] sessions::live_children_read(mid, post, session_id, got)
            &&& sessions::child_weighed(told->Ok_0, got, r)
        };
    assert(post[pre.len() as int] == mid[pre.len() as int]);
    let found = post.last()->reply->Rows_0;
    if got is Err {
        let i = choose|i: int| 0 <= i < found.len() && #[trigger] found[i] is Err;
        assert(found[i] matches Ok(row) && row[0] == Datum::Text(children[i]));
    }
    let shown = text::texts(got->Ok_0@);
    assert(shown =~= children) by {
        assert forall|i: int| 0 <= i < found.len() implies #[trigger] shown[i] == children[i] by {
            assert(found[i] matches Ok(row) && got->Ok_0@[i].is_row(row));
        }
    }
}

} // verus!
