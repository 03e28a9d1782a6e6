//! Sessions: how they are made, continued, deleted, restored and archived.
use vstd::prelude::*;

use crate::agents;
use crate::engine::{Cell, Datum, Db, DbError, Reply, Request, Step, Trace};
use crate::events::{self, Milestone, Notice};
use crate::rows::{
    self,
    fetch,
    find,
    find_value,
    list,
    opt_int_at,
    opt_text_at,
    p_flag,
    p_int,
    p_opt_text,
    p_text,
    params1,
    params2,
    params3,
    params4,
    reads_in_order,
    run,
    run_counted,
    FromRow,
    Kind,
    Read,
};
use crate::text::{self, has_text_among, same};
use crate::trace;
use crate::tx::{
    self,
    add_statement,
    begin,
    finish,
    no_statements,
    run_script,
    statement,
    Statement,
};

verus! {

/// A session, as it is listed.
#[derive(Debug, Clone, PartialEq)]
pub struct Session {
    pub id: String,
    pub title: String,
    pub total_input_tokens: i64,
    pub total_output_tokens: i64,
    pub repo_id: Option<String>,
    pub namespace_id: Option<String>,
    /// Whether agents work in the user's own project.
    pub in_place: bool,
    /// The group that the session is in.
    pub group_id: Option<String>,
    /// The session that this one continues.
    pub parent_session_id: Option<String>,
    /// The live session that continues this one.
    pub continued_to_session_id: Option<String>,
    pub created_at: i64,
    pub pinned: bool,
    pub unread: bool,
    pub archived: bool,
    pub archived_at: Option<i64>,
}

pub const SQL_INSERT_SESSION: &'static str = "INSERT INTO sessions (id, title, repo_id, namespace_id, created_at) VALUES (?1, ?2, ?3, ?4, strftime('%s','now'))";

/// A session was stored.
pub open spec fn session_inserted(
    pre: Trace,
    post: Trace,
    id: Seq<char>,
    title: Seq<char>,
    repo_id: Seq<char>,
    namespace_id: Seq<char>,
    r: Result<(), DbError>,
) -> bool {
    rows::executed(
        pre,
        post,
        SQL_INSERT_SESSION@,
        seq![Datum::Text(id), Datum::Text(title), Datum::Text(repo_id), Datum::Text(namespace_id)],
        r,
    )
}

fn insert_session(
    db: &mut Db,
    id: &str,
    title: &str,
    repo_id: &str,
    namespace_id: &str,
) -> (r: Result<(), DbError>)
    ensures
        session_inserted(old(db)@, final(db)@, id@, title@, repo_id@, namespace_id@, r),
{
    run(
        db,
        SQL_INSERT_SESSION,
        params4(p_text(id), p_text(title), p_text(repo_id), p_text(namespace_id)),
    )
}

pub const SQL_READ_REPO_NAME: &'static str = "SELECT name FROM repos WHERE id = ?1";

/// The name of a repository was read.
pub open spec fn repo_name_read(
    pre: Trace,
    post: Trace,
    repo_id: Seq<char>,
    r: Result<Option<String>, DbError>,
) -> bool {
    rows::found(pre, post, SQL_READ_REPO_NAME@, seq![Datum::Text(repo_id)], r)
}

fn read_repo_name(db: &mut Db, repo_id: &str) -> (r: Result<Option<String>, DbError>)
    ensures
        repo_name_read(old(db)@, final(db)@, repo_id@, r),
{
    find(db, SQL_READ_REPO_NAME, params1(p_text(repo_id)))
}

/// The name that a lookup found; none where it found none or failed.
pub open spec fn name_found(got: Result<Option<String>, DbError>) -> Option<Seq<char>> {
    match got {
        Ok(name) => events::opt(name),
        Err(_) => None,
    }
}

/// A session was stored, and announced with the name of its repository.
pub open spec fn session_created(
    pre: Trace,
    post: Trace,
    id: Seq<char>,
    title: Seq<char>,
    repo_id: Seq<char>,
    namespace_id: Seq<char>,
    r: Result<(), DbError>,
) -> bool {
    exists|mid: Trace, done: Result<(), DbError>|
        {
            &&& #[trigger] session_inserted(pre, mid, id, title, repo_id, namespace_id, done)
            &&& match done {
                Ok(()) => exists|named: Trace, got: Result<Option<String>, DbError>|
                    {
                        &&& #[trigger] repo_name_read(mid, named, repo_id, got)
                        &&& post == named.push(
                            Step::Published(
                                Notice::SessionCreated {
                                    id,
                                    title,
                                    repo_id,
                                    namespace_id,
                                    repo_name: name_found(got),
                                },
                            ),
                        )
                        &&& r is Ok
                    },
                Err(e) => post == mid && r == done,
            }
        }
}

/// Stores a new session and announces it. That the name of its repository cannot be found does not
/// keep it from being made.
pub fn create_session(db: &mut Db, id: &str, title: &str, repo_id: &str, namespace_id: &str) -> (r:
    Result<(), DbError>)
    ensures
        session_created(old(db)@, final(db)@, id@, title@, repo_id@, namespace_id@, r),
{
    let done = insert_session(db, id, title, repo_id, namespace_id);
    let ghost mid = db@;
    assert(session_inserted(old(db)@, mid, id@, title@, repo_id@, namespace_id@, done));
    match done {
        Ok(()) => {},
        Err(e) => return Err(e),
    }
    let got = read_repo_name(db, repo_id);
    let ghost named = db@;
    assert(repo_name_read(mid, named, repo_id@, got));
    let repo_name = match got {
        Ok(name) => name,
        Err(_) => None,
    };
    db.publish(
        Milestone::SessionCreated {
            id: id.to_string(),
            title: title.to_string(),
            repo_id: repo_id.to_string(),
            namespace_id: namespace_id.to_string(),
            repo_name,
        },
    );
    Ok(())
}

pub const SQL_ADD_SESSION_USAGE: &'static str = "UPDATE sessions SET \
         total_input_tokens = total_input_tokens + ?1, \
         total_output_tokens = total_output_tokens + ?2 \
         WHERE id = ?3";

/// Tokens as they are stored; none count as zero.
pub open spec fn stored_tokens(tokens: Option<u64>) -> i64 {
    match tokens {
        Some(n) => n as i64,
        None => 0,
    }
}

/// Adds tokens to what a session has used.
pub fn add_session_usage(
    db: &mut Db,
    session_id: &str,
    input_tokens: Option<u64>,
    output_tokens: Option<u64>,
) -> (r: Result<(), DbError>)
    ensures
        rows::executed(
            old(db)@,
            final(db)@,
            SQL_ADD_SESSION_USAGE@,
            seq![
                Datum::Integer(stored_tokens(input_tokens)),
                Datum::Integer(stored_tokens(output_tokens)),
                Datum::Text(session_id@),
            ],
            r,
        ),
{
    let input: i64 = match input_tokens {
        Some(n) => n as i64,
        None => 0,
    };
    let output: i64 = match output_tokens {
        Some(n) => n as i64,
        None => 0,
    };
    run(db, SQL_ADD_SESSION_USAGE, params3(p_int(input), p_int(output), p_text(session_id)))
}

pub const SQL_SET_SESSION_PARENT: &'static str = "UPDATE sessions SET parent_session_id = ?2 WHERE id = ?1";

/// Sets the session that a session continues.
pub fn set_session_parent(
    db: &mut Db,
    id: &str,
    parent_id: Option<&str>,
) -> (r: Result<(), DbError>)
    ensures
        rows::executed(
            old(db)@,
            final(db)@,
            SQL_SET_SESSION_PARENT@,
            seq![Datum::Text(id@), rows::opt_text(events::opt_str(parent_id))],
            r,
        ),
{
    run(db, SQL_SET_SESSION_PARENT, params2(p_text(id), p_opt_text(parent_id)))
}

pub const SQL_SET_SESSION_CONTINUED_TO: &'static str = "UPDATE sessions SET continued_to_session_id = ?2 WHERE id = ?1";

/// Sets the session that continues a session.
pub fn set_session_continued_to(
    db: &mut Db,
    id: &str,
    child_id: Option<&str>,
) -> (r: Result<(), DbError>)
    ensures
        rows::executed(
            old(db)@,
            final(db)@,
            SQL_SET_SESSION_CONTINUED_TO@,
            seq![Datum::Text(id@), rows::opt_text(events::opt_str(child_id))],
            r,
        ),
{
    run(db, SQL_SET_SESSION_CONTINUED_TO, params2(p_text(id), p_opt_text(child_id)))
}

pub const SQL_READ_CONTINUED_TO: &'static str = "SELECT continued_to_session_id FROM sessions WHERE id = ?1 AND deleted_at IS NULL";

/// The session that continues a session, by that session, was read.
pub open spec fn continued_to_read(
    pre: Trace,
    post: Trace,
    session_id: Seq<char>,
    r: Result<Option<String>, DbError>,
) -> bool {
    rows::value_found(pre, post, SQL_READ_CONTINUED_TO@, seq![Datum::Text(session_id)], r)
}

fn read_continued_to(db: &mut Db, session_id: &str) -> (r: Result<Option<String>, DbError>)
    ensures
        continued_to_read(old(db)@, final(db)@, session_id@, r),
{
    find_value(db, SQL_READ_CONTINUED_TO, params1(p_text(session_id)))
}

pub const SQL_READ_LIVE_CHILDREN: &'static str = "SELECT id FROM sessions
             WHERE parent_session_id = ?1 AND deleted_at IS NULL
             ORDER BY id
             LIMIT 2";

/// At most two live sessions that continue a session were read.
pub open spec fn live_children_read(
    pre: Trace,
    post: Trace,
    session_id: Seq<char>,
    r: Result<Vec<String>, DbError>,
) -> bool {
    rows::listed(pre, post, SQL_READ_LIVE_CHILDREN@, seq![Datum::Text(session_id)], r)
}

fn read_live_children(db: &mut Db, session_id: &str) -> (r: Result<Vec<String>, DbError>)
    ensures
        live_children_read(old(db)@, final(db)@, session_id@, r),
{
    list(db, SQL_READ_LIVE_CHILDREN, params1(p_text(session_id)))
}

/// What the session that continues another is: the one that the other points to, or else its only
/// live child. More than one live child, or one that is not pointed to, is no lineage.
pub open spec fn child_of(
    pointer: Option<Seq<char>>,
    children: Seq<Seq<char>>,
) -> Result<Option<Seq<char>>, Seq<char>> {
    if children.len() > 1 {
        Err("continuation lineage has multiple live children"@)
    } else {
        match pointer {
            Some(p) => if children.len() == 1 && p != children[0] {
                Err("continuation lineage child pointer mismatch"@)
            } else {
                Ok(Some(p))
            },
            None => Ok(
                if children.len() == 1 {
                    Some(children[0])
                } else {
                    None
                },
            ),
        }
    }
}

/// Whether a result is a child, or the violation that keeps there from being one.
pub open spec fn is_child(
    child: Result<Option<Seq<char>>, Seq<char>>,
    r: Result<Option<String>, DbError>,
) -> bool {
    match child {
        Ok(c) => r matches Ok(o) && events::opt(o) == c,
        Err(why) => agents::violates(r, why),
    }
}

/// What the session that continues another is, of a pointer and the live children.
pub fn choose_child(pointer: Option<String>, children: Vec<String>) -> (r: Result<
    Option<String>,
    DbError,
>)
    ensures
        is_child(child_of(events::opt(pointer), text::texts(children@)), r),
{
    if children.len() > 1 {
        return Err(
            DbError::Constraint("continuation lineage has multiple live children".to_string()),
        );
    }
    assert(children@.len() == 1 ==> text::texts(children@)[0] == children@[0]@);
    match pointer {
        Some(p) => {
            if children.len() == 1 && !same(p.as_str(), children[0].as_str()) {
                return Err(
                    DbError::Constraint("continuation lineage child pointer mismatch".to_string()),
                );
            }
            Ok(Some(p))
        },
        None => if children.len() == 1 {
            Ok(Some(children[0].clone()))
        } else {
            Ok(None)
        },
    }
}

/// The session that continues another was chosen, of what that one points to and of its live
/// children.
pub open spec fn child_weighed(
    p: Option<String>,
    children: Result<Vec<String>, DbError>,
    r: Result<Option<String>, DbError>,
) -> bool {
    match children {
        Ok(c) => is_child(child_of(events::opt(p), text::texts(c@)), r),
        Err(e) => r == Err::<Option<String>, DbError>(e),
    }
}

/// The live children of a session were read, and the one that continues it chosen, given what it
/// points to.
pub open spec fn child_looked_up(
    mid: Trace,
    post: Trace,
    session_id: Seq<char>,
    pointer: Result<Option<String>, DbError>,
    r: Result<Option<String>, DbError>,
) -> bool {
    match pointer {
        Ok(p) => exists|children: Result<Vec<String>, DbError>|
            {
                &&& #[trigger] live_children_read(mid, post, session_id, children)
                &&& child_weighed(p, children, r)
            },
        Err(e) => post == mid && r == Err::<Option<String>, DbError>(e),
    }
}

/// The session that continues another was looked up.
pub open spec fn next_child_read(
    pre: Trace,
    post: Trace,
    session_id: Seq<char>,
    r: Result<Option<String>, DbError>,
) -> bool {
    exists|mid: Trace, pointer: Result<Option<String>, DbError>|
        {
            &&& #[trigger] continued_to_read(pre, mid, session_id, pointer)
            &&& child_looked_up(mid, post, session_id, pointer, r)
        }
}

/// The session that continues another, if there is one.
pub fn continuation_next_child(db: &mut Db, session_id: &str) -> (r: Result<
    Option<String>,
    DbError,
>)
    ensures
        next_child_read(old(db)@, final(db)@, session_id@, r),
{
    let pointer = read_continued_to(db, session_id);
    let ghost mid = db@;
    assert(continued_to_read(old(db)@, mid, session_id@, pointer));
    let p = match pointer {
        Ok(p) => p,
        Err(e) => return Err(e),
    };
    let children = read_live_children(db, session_id);
    assert(live_children_read(mid, db@, session_id@, children));
    match children {
        Ok(c) => choose_child(p, c),
        Err(e) => Err(e),
    }
}

pub const SQL_READ_LIVE_PARENT: &'static str = "SELECT parent_session_id FROM sessions WHERE id = ?1 AND deleted_at IS NULL";

/// The session that a live session continues was read.
pub open spec fn live_parent_read(
    pre: Trace,
    post: Trace,
    session_id: Seq<char>,
    r: Result<Option<String>, DbError>,
) -> bool {
    rows::value_found(pre, post, SQL_READ_LIVE_PARENT@, seq![Datum::Text(session_id)], r)
}

fn read_live_parent(db: &mut Db, session_id: &str) -> (r: Result<Option<String>, DbError>)
    ensures
        live_parent_read(old(db)@, final(db)@, session_id@, r),
{
    find_value(db, SQL_READ_LIVE_PARENT, params1(p_text(session_id)))
}

/// How many sessions a chain may have.
pub const MAX_CONTINUATION_CHAIN_LEN: usize = 128;

/// The chain was followed up from the session that the last of `seen` continues, if there is one.
pub open spec fn climbed_on(
    mid: Trace,
    post: Trace,
    seen: Seq<Seq<char>>,
    got: Result<Option<String>, DbError>,
    r: Result<String, DbError>,
) -> bool
    decreases MAX_CONTINUATION_CHAIN_LEN - seen.len(), 0nat,
{
    match got {
        Ok(Some(parent)) => if seen.len() >= MAX_CONTINUATION_CHAIN_LEN {
            post == mid && agents::violates(
                r,
                "continuation lineage exceeds maximum depth"@,
            )
        } else if seen.contains(parent@) {
            post == mid && agents::violates(r, "continuation lineage cycle"@)
        } else {
            climbed(mid, post, seen.push(parent@), r)
        },
        Ok(None) => post == mid && (r matches Ok(root) && root@ == seen.last()),
        Err(e) => post == mid && r == Err::<String, DbError>(e),
    }
}

/// From the last of the sessions `seen`, the chain was followed to its first session.
pub open spec fn climbed(
    pre: Trace,
    post: Trace,
    seen: Seq<Seq<char>>,
    r: Result<String, DbError>,
) -> bool
    decreases MAX_CONTINUATION_CHAIN_LEN - seen.len(), 1nat,
{
    exists|mid: Trace, got: Result<Option<String>, DbError>|
        {
            &&& #[trigger] live_parent_read(pre, mid, seen.last(), got)
            &&& climbed_on(mid, post, seen, got, r)
        }
}

/// The chain was followed down from the session that continues the last of `ids`, if there is one.
pub open spec fn descended_on(
    mid: Trace,
    post: Trace,
    ids: Seq<Seq<char>>,
    got: Result<Option<String>, DbError>,
    r: Result<Vec<String>, DbError>,
) -> bool
    decreases MAX_CONTINUATION_CHAIN_LEN - ids.len(), 0nat,
{
    match got {
        Ok(Some(child)) => if ids.len() >= MAX_CONTINUATION_CHAIN_LEN {
            post == mid && agents::violates(
                r,
                "continuation lineage exceeds maximum depth"@,
            )
        } else if ids.contains(child@) {
            post == mid && agents::violates(r, "continuation lineage cycle"@)
        } else {
            descended(mid, post, ids.push(child@), r)
        },
        Ok(None) => post == mid && (r matches Ok(v) && text::texts(v@) == ids),
        Err(e) => post == mid && r == Err::<Vec<String>, DbError>(e),
    }
}

/// From the last of the sessions `ids`, the chain was followed to its last session; the result is
/// the whole of it.
pub open spec fn descended(
    pre: Trace,
    post: Trace,
    ids: Seq<Seq<char>>,
    r: Result<Vec<String>, DbError>,
) -> bool
    decreases MAX_CONTINUATION_CHAIN_LEN - ids.len(), 1nat,
{
    exists|mid: Trace, got: Result<Option<String>, DbError>|
        {
            &&& #[trigger] next_child_read(pre, mid, ids.last(), got)
            &&& descended_on(mid, post, ids, got, r)
        }
}

fn too_deep() -> (e: DbError)
    ensures
        agents::violates(Err::<(), DbError>(e), "continuation lineage exceeds maximum depth"@),
{
    DbError::Constraint("continuation lineage exceeds maximum depth".to_string())
}

fn circular() -> (e: DbError)
    ensures
        agents::violates(Err::<(), DbError>(e), "continuation lineage cycle"@),
{
    DbError::Constraint("continuation lineage cycle".to_string())
}

fn climb(db: &mut Db, session_id: &str) -> (r: Result<String, DbError>)
    ensures
        climbed(old(db)@, final(db)@, seq![session_id@], r),
{
    let mut root = session_id.to_string();
    let mut seen: Vec<String> = Vec::new();
    seen.push(session_id.to_string());
    assert(text::texts(seen@) =~= seq![session_id@]);
    loop
        invariant
            seen@.len() > 0,
            seen@.len() <= MAX_CONTINUATION_CHAIN_LEN,
            text::texts(seen@).last() == root@,
            forall|post: Trace, r: Result<String, DbError>| #[trigger]
                climbed(db@, post, text::texts(seen@), r) ==> climbed(
                    old(db)@,
                    post,
                    seq![session_id@],
                    r,
                ),
        decreases MAX_CONTINUATION_CHAIN_LEN - seen.len(),
    {
        let ghost before = db@;
        let ghost known = text::texts(seen@);
        let got = read_live_parent(db, root.as_str());
        assert(live_parent_read(before, db@, known.last(), got));
        match got {
            Ok(Some(parent)) => {
                if seen.len() >= MAX_CONTINUATION_CHAIN_LEN {
                    let e = too_deep();
                    assert(climbed(before, db@, known, Err::<String, DbError>(e)));
                    return Err(e);
                }
                if has_text_among(&seen, parent.as_str()) {
                    let e = circular();
                    assert(climbed(before, db@, known, Err::<String, DbError>(e)));
                    return Err(e);
                }
                let ghost was = seen@;
                seen.push(parent.clone());
                assert(text::texts(seen@) =~= known.push(parent@));
                root = parent;
                assert forall|post: Trace, r: Result<String, DbError>| #[trigger]
                    climbed(db@, post, text::texts(seen@), r) implies climbed(
                    old(db)@,
                    post,
                    seq![session_id@],
                    r,
                ) by {
                    assert(climbed(before, post, known, r));
                }
            },
            Ok(None) => {
                assert(climbed(before, db@, known, Ok::<String, DbError>(root)));
                return Ok(root);
            },
            Err(e) => {
                assert(climbed(before, db@, known, Err::<String, DbError>(e)));
                return Err(e);
            },
        }
    }
}

fn descend(db: &mut Db, root: &str) -> (r: Result<Vec<String>, DbError>)
    ensures
        descended(old(db)@, final(db)@, seq![root@], r),
{
    let mut ids: Vec<String> = Vec::new();
    ids.push(root.to_string());
    assert(text::texts(ids@) =~= seq![root@]);
    loop
        invariant
            ids@.len() > 0,
            ids@.len() <= MAX_CONTINUATION_CHAIN_LEN,
            forall|post: Trace, r: Result<Vec<String>, DbError>| #[trigger]
                descended(db@, post, text::texts(ids@), r) ==> descended(
                    old(db)@,
                    post,
                    seq![root@],
                    r,
                ),
        decreases MAX_CONTINUATION_CHAIN_LEN - ids.len(),
    {
        let ghost before = db@;
        let ghost known = text::texts(ids@);
        assert(known.last() == ids@[ids@.len() - 1]@);
        let got = continuation_next_child(db, ids[ids.len() - 1].as_str());
        assert(next_child_read(before, db@, known.last(), got));
        match got {
            Ok(Some(child)) => {
                if ids.len() >= MAX_CONTINUATION_CHAIN_LEN {
                    let e = too_deep();
                    assert(descended(before, db@, known, Err::<Vec<String>, DbError>(e)));
                    return Err(e);
                }
                if has_text_among(&ids, child.as_str()) {
                    let e = circular();
                    assert(descended(before, db@, known, Err::<Vec<String>, DbError>(e)));
                    return Err(e);
                }
                let ghost said = child@;
                ids.push(child);
                assert(text::texts(ids@) =~= known.push(said));
                assert forall|post: Trace, r: Result<Vec<String>, DbError>| #[trigger]
                    descended(db@, post, text::texts(ids@), r) implies descended(
                    old(db)@,
                    post,
                    seq![root@],
                    r,
                ) by {
                    assert(descended(before, post, known, r));
                }
            },
            Ok(None) => {
                assert(descended(before, db@, known, Ok::<Vec<String>, DbError>(ids)));
                return Ok(ids);
            },
            Err(e) => {
                assert(descended(before, db@, known, Err::<Vec<String>, DbError>(e)));
                return Err(e);
            },
        }
    }
}

/// The chain was followed down from its first session.
pub open spec fn chain_followed(
    mid: Trace,
    post: Trace,
    root: Result<String, DbError>,
    r: Result<Vec<String>, DbError>,
) -> bool {
    match root {
        Ok(first) => descended(mid, post, seq![first@], r),
        Err(e) => post == mid && r == Err::<Vec<String>, DbError>(e),
    }
}

/// The chain of sessions that a session belongs to was followed up, and then down again.
pub open spec fn chain_read(
    pre: Trace,
    post: Trace,
    session_id: Seq<char>,
    r: Result<Vec<String>, DbError>,
) -> bool {
    exists|mid: Trace, root: Result<String, DbError>|
        {
            &&& #[trigger] climbed(pre, mid, seq![session_id], root)
            &&& chain_followed(mid, post, root, r)
        }
}

/// The chain of sessions that a session belongs to, from the first to the last. A chain that runs
/// in a circle, branches or is too long is refused.
pub fn continuation_chain_ids(db: &mut Db, session_id: &str) -> (r: Result<Vec<String>, DbError>)
    ensures
        chain_read(old(db)@, final(db)@, session_id@, r),
{
    let root = climb(db, session_id);
    assert(climbed(old(db)@, db@, seq![session_id@], root));
    match root {
        Ok(first) => descend(db, first.as_str()),
        Err(e) => Err(e),
    }
}

proof fn lemma_descent_is_distinct(pre: Trace, post: Trace, ids: Seq<Seq<char>>, v: Vec<String>)
    requires
        descended(pre, post, ids, Ok::<Vec<String>, DbError>(v)),
        ids.no_duplicates(),
        0 < ids.len() <= MAX_CONTINUATION_CHAIN_LEN,
    ensures
        text::texts(v@).no_duplicates(),
        ids.len() <= v@.len() <= MAX_CONTINUATION_CHAIN_LEN,
        text::texts(v@).take(ids.len() as int) == ids,
    decreases MAX_CONTINUATION_CHAIN_LEN - ids.len(),
{
    let (mid, got) = choose|mid: Trace, got: Result<Option<String>, DbError>|
        {
            &&& #[trigger] next_child_read(pre, mid, ids.last(), got)
            &&& descended_on(mid, post, ids, got, Ok::<Vec<String>, DbError>(v))
        };
    match got {
        Ok(Some(child)) => {
            let longer = ids.push(child@);
            assert(longer.no_duplicates());
            lemma_descent_is_distinct(mid, post, longer, v);
            assert(text::texts(v@).take(ids.len() as int) =~= longer.take(ids.len() as int));
            assert(longer.take(ids.len() as int) =~= ids);
        },
        _ => {
            assert(text::texts(v@).take(ids.len() as int) =~= ids);
        },
    }
}

/// A chain has at least one session and at most `MAX_CONTINUATION_CHAIN_LEN`, and none of them
/// twice.
pub proof fn law_chain_is_distinct(
    pre: Trace,
    post: Trace,
    session_id: Seq<char>,
    v: Vec<String>,
)
    requires
        chain_read(pre, post, session_id, Ok::<Vec<String>, DbError>(v)),
    ensures
        text::texts(v@).no_duplicates(),
        0 < v@.len() <= MAX_CONTINUATION_CHAIN_LEN,
{
    let (mid, root) = choose|mid: Trace, root: Result<String, DbError>|
        {
            &&& #[trigger] climbed(pre, mid, seq![session_id], root)
            &&& chain_followed(mid, post, root, Ok::<Vec<String>, DbError>(v))
        };
    lemma_descent_is_distinct(mid, post, seq![root->Ok_0@], v);
}

/// Whether a step shows the session that a live session continues.
pub open spec fn shows_parent(step: Step, session_id: Seq<char>, parent: Seq<char>) -> bool {
    &&& step matches Step::Asked { request: Request::First { sql, params, .. }, reply }
    &&& sql == SQL_READ_LIVE_PARENT@
    &&& params == seq![Datum::Text(session_id)]
    &&& reply matches Reply::Row(Some(row))
    &&& row[0] == Datum::Text(parent)
}

/// Whether a step asks for the live sessions that continue a session.
pub open spec fn asks_children(step: Step, session_id: Seq<char>) -> bool {
    &&& step matches Step::Asked { request: Request::All { sql, params, .. }, .. }
    &&& sql == SQL_READ_LIVE_CHILDREN@
    &&& params == seq![Datum::Text(session_id)]
}

/// Whether a step shows that a session is the only live one that continues another.
pub open spec fn shows_only_child(step: Step, child: Seq<char>) -> bool {
    &&& step matches Step::Asked { reply: Reply::Rows(found), .. }
    &&& found.len() == 1
    &&& found[0] matches Ok(row)
    &&& row[0] == Datum::Text(child)
}

/// Whether the replies in a trace agree on the chain: a session that another one was said to
/// continue has that one as its only live child.
pub open spec fn replies_agree(trace: Trace) -> bool {
    forall|i: int, j: int, session_id: Seq<char>, parent: Seq<char>|
        0 <= i < trace.len() && 0 <= j < trace.len() && #[trigger] shows_parent(
            trace[i],
            session_id,
            parent,
        ) && #[trigger] asks_children(trace[j], parent) ==> shows_only_child(trace[j], session_id)
}

/// Whether a session was said to continue another.
pub open spec fn parent_shown(trace: Trace, session_id: Seq<char>, parent: Seq<char>) -> bool {
    exists|k: int| 0 <= k < trace.len() && #[trigger] shows_parent(trace[k], session_id, parent)
}

/// Whether each session on a path was said to continue the next one.
pub open spec fn path_shown(trace: Trace, path: Seq<Seq<char>>, from: int) -> bool {
    forall|i: int|
        from <= i < path.len() - 1 ==> parent_shown(trace, #[trigger] path[i], path[i + 1])
}

proof fn lemma_path_shown_further(
    early: Trace,
    late: Trace,
    start: int,
    path: Seq<Seq<char>>,
    from: int,
)
    requires
        0 <= start <= early.len(),
        trace::extends(early, late),
        path_shown(early.skip(start), path, from),
    ensures
        path_shown(late.skip(start), path, from),
{
    assert forall|i: int| from <= i < path.len() - 1 implies parent_shown(
        late.skip(start),
        #[trigger] path[i],
        path[i + 1],
    ) by {
        let k = choose|k: int|
            0 <= k < early.skip(start).len() && #[trigger] shows_parent(
                early.skip(start)[k],
                path[i],
                path[i + 1],
            );
        assert(late.take(early.len() as int)[start + k] == late[start + k]);
        assert(shows_parent(late.skip(start)[k], path[i], path[i + 1]));
    }
}

proof fn lemma_climb_shows_path(
    pre: Trace,
    post: Trace,
    start: int,
    seen: Seq<Seq<char>>,
    root: String,
) -> (path: Seq<Seq<char>>)
    requires
        0 <= start <= pre.len(),
        climbed(pre, post, seen, Ok::<String, DbError>(root)),
        0 < seen.len() <= MAX_CONTINUATION_CHAIN_LEN,
    ensures
        trace::extends(pre, post),
        seen.len() <= path.len(),
        path.take(seen.len() as int) == seen,
        path.last() == root@,
        path_shown(post.skip(start), path, seen.len() - 1),
    decreases MAX_CONTINUATION_CHAIN_LEN - seen.len(),
{
    let done = Ok::<String, DbError>(root);
    let (mid, got) = choose|mid: Trace, got: Result<Option<String>, DbError>|
        {
            &&& #[trigger] live_parent_read(pre, mid, seen.last(), got)
            &&& climbed_on(mid, post, seen, got, done)
        };
    assert(mid.take(pre.len() as int) =~= pre);
    match got {
        Ok(Some(parent)) => {
            let longer = seen.push(parent@);
            let path = lemma_climb_shows_path(mid, post, start, longer, root);
            trace::lemma_extends_further(pre, mid, post);
            assert(longer.take(seen.len() as int) =~= seen);
            assert(path.take(seen.len() as int) =~= path.take(longer.len() as int).take(
                seen.len() as int,
            ));
            let at = pre.len() as int;
            assert(post[at] == mid[at]);
            assert(shows_parent(mid[at], seen.last(), parent@));
            assert(path[seen.len() - 1] == path.take(longer.len() as int)[seen.len() - 1]);
            assert(path[seen.len() as int] == path.take(longer.len() as int)[seen.len() as int]);
            assert forall|i: int| seen.len() - 1 <= i < path.len() - 1 implies parent_shown(
                post.skip(start),
                #[trigger] path[i],
                path[i + 1],
            ) by {
                if i == seen.len() - 1 {
                    assert(shows_parent(post.skip(start)[at - start], path[i], path[i + 1]));
                }
            }
            path
        },
        _ => {
            assert(seen.take(seen.len() as int) =~= seen);
            seen
        },
    }
}

/// To look up the session that continues another goes on from a trace.
pub proof fn lemma_next_child_extends(
    pre: Trace,
    post: Trace,
    session_id: Seq<char>,
    r: Result<Option<String>, DbError>,
)
    requires
        next_child_read(pre, post, session_id, r),
    ensures
        trace::extends(pre, post),
        r is Ok ==> asks_children(post.last(), session_id),
        r matches Ok(o) ==> forall|child: Seq<char>| #[trigger]
            shows_only_child(post.last(), child) ==> events::opt(o) == Some(child),
{
    let (mid, pointer) = choose|mid: Trace, pointer: Result<Option<String>, DbError>|
        {
            &&& #[trigger] continued_to_read(pre, mid, session_id, pointer)
            &&& child_looked_up(mid, post, session_id, pointer, r)
        };
    assert(mid.take(pre.len() as int) =~= pre);
    if let Ok(p) = pointer {
        let children = choose|children: Result<Vec<String>, DbError>|
            {
                &&& #[trigger] live_children_read(mid, post, session_id, children)
                &&& child_weighed(p, children, r)
            };
        assert(post.take(mid.len() as int) =~= mid);
        trace::lemma_extends_further(pre, mid, post);
        if r is Ok {
            let c = children->Ok_0;
            assert forall|child: Seq<char>| #[trigger]
                shows_only_child(post.last(), child) implies events::opt(r->Ok_0) == Some(
                child,
            ) by {
                let found = post.last()->reply->Rows_0;
                assert(found[0] is Ok && c@[0].is_row(found[0]->Ok_0));
                assert(text::texts(c@)[0] == child);
            }
        }
    }
}

/// To follow a chain down goes on from a trace.
pub proof fn lemma_descent_extends(
    pre: Trace,
    post: Trace,
    ids: Seq<Seq<char>>,
    r: Result<Vec<String>, DbError>,
)
    requires
        descended(pre, post, ids, r),
    ensures
        trace::extends(pre, post),
    decreases MAX_CONTINUATION_CHAIN_LEN - ids.len(),
{
    let (mid, got) = choose|mid: Trace, got: Result<Option<String>, DbError>|
        {
            &&& #[trigger] next_child_read(pre, mid, ids.last(), got)
            &&& descended_on(mid, post, ids, got, r)
        };
    lemma_next_child_extends(pre, mid, ids.last(), got);
    if let Ok(Some(child)) = got {
        if ids.len() < MAX_CONTINUATION_CHAIN_LEN && !ids.contains(child@) {
            lemma_descent_extends(mid, post, ids.push(child@), r);
            trace::lemma_extends_further(pre, mid, post);
        }
    }
}

proof fn lemma_descent_follows_path(
    pre: Trace,
    post: Trace,
    start: int,
    ids: Seq<Seq<char>>,
    path: Seq<Seq<char>>,
    i: int,
    v: Vec<String>,
)
    requires
        0 <= start <= pre.len(),
        descended(pre, post, ids, Ok::<Vec<String>, DbError>(v)),
        ids.no_duplicates(),
        0 < ids.len() <= MAX_CONTINUATION_CHAIN_LEN,
        0 <= i < path.len(),
        ids.last() == path[i],
        path_shown(post.skip(start), path, 0),
        replies_agree(post.skip(start)),
    ensures
        text::texts(v@).contains(path[0]),
    decreases i,
{
    lemma_descent_is_distinct(pre, post, ids, v);
    if i == 0 {
        let all = text::texts(v@);
        assert(all.take(ids.len() as int)[ids.len() - 1] == all[ids.len() - 1]);
    } else {
        let done = Ok::<Vec<String>, DbError>(v);
        let (mid, got) = choose|mid: Trace, got: Result<Option<String>, DbError>|
            {
                &&& #[trigger] next_child_read(pre, mid, ids.last(), got)
                &&& descended_on(mid, post, ids, got, done)
            };
        lemma_next_child_extends(pre, mid, ids.last(), got);
        if let Ok(Some(child)) = got {
            lemma_descent_extends(mid, post, ids.push(child@), done);
        } else {
            assert(post.take(post.len() as int) =~= post);
        }
        let at = mid.len() - 1;
        assert(post.take(mid.len() as int)[at] == post[at]);
        let asked = post.skip(start);
        assert(asked[at - start] == post[at]);
        assert(asks_children(asked[at - start], path[i]));
        assert(parent_shown(asked, path[i - 1], path[i - 1 + 1]));
        assert(shows_only_child(asked[at - start], path[i - 1]));
        assert(mid.last() == post[at]);
        let child = got->Ok_0->Some_0;
        let longer = ids.push(child@);
        assert(longer.no_duplicates());
        lemma_descent_follows_path(mid, post, start, longer, path, i - 1, v);
    }
}

/// The chain that a session belongs to has that session in it, where the replies to what was asked
/// for it agree on the chain.
pub proof fn law_chain_has_its_session(
    pre: Trace,
    post: Trace,
    session_id: Seq<char>,
    v: Vec<String>,
)
    requires
        chain_read(pre, post, session_id, Ok::<Vec<String>, DbError>(v)),
        replies_agree(post.skip(pre.len() as int)),
    ensures
        text::texts(v@).contains(session_id),
{
    let (mid, root) = choose|mid: Trace, root: Result<String, DbError>|
        {
            &&& #[trigger] climbed(pre, mid, seq![session_id], root)
            &&& chain_followed(mid, post, root, Ok::<Vec<String>, DbError>(v))
        };
    let first = root->Ok_0;
    let start = pre.len() as int;
    let path = lemma_climb_shows_path(pre, mid, start, seq![session_id], first);
    lemma_descent_extends(mid, post, seq![first@], Ok::<Vec<String>, DbError>(v));
    lemma_path_shown_further(mid, post, start, path, 0);
    lemma_descent_follows_path(mid, post, start, seq![first@], path, path.len() - 1, v);
    assert(path.take(1)[0] == path[0]);
}

pub const SQL_STORE_TITLE: &'static str = "UPDATE sessions SET title = ?2 WHERE id = ?1";

/// The title of a session was stored.
pub open spec fn title_stored(
    pre: Trace,
    post: Trace,
    id: Seq<char>,
    title: Seq<char>,
    r: Result<usize, DbError>,
) -> bool {
    rows::counted(pre, post, SQL_STORE_TITLE@, seq![Datum::Text(id), Datum::Text(title)], r)
}

fn store_title(db: &mut Db, id: &str, title: &str) -> (r: Result<usize, DbError>)
    ensures
        title_stored(old(db)@, final(db)@, id@, title@, r),
{
    run_counted(db, SQL_STORE_TITLE, params2(p_text(id), p_text(title)))
}

/// A session was given a title, and that announced where there is such a session.
pub open spec fn session_renamed(
    pre: Trace,
    post: Trace,
    id: Seq<char>,
    title: Seq<char>,
    r: Result<(), DbError>,
) -> bool {
    exists|mid: Trace, n: Result<usize, DbError>|
        {
            &&& #[trigger] title_stored(pre, mid, id, title, n)
            &&& match n {
                Ok(changed) => r is Ok && rows::announced(
                    mid,
                    post,
                    changed > 0,
                    Notice::SessionRenamed { id, title },
                ),
                Err(e) => post == mid && r == Err::<(), DbError>(e),
            }
        }
}

/// Gives a session a title, and announces it where there is such a session.
pub fn rename_session(db: &mut Db, id: &str, title: &str) -> (r: Result<(), DbError>)
    ensures
        session_renamed(old(db)@, final(db)@, id@, title@, r),
{
    let n = store_title(db, id, title);
    let ghost mid = db@;
    assert(title_stored(old(db)@, mid, id@, title@, n));
    match n {
        Ok(changed) => {
            if changed > 0 {
                db.publish(
                    Milestone::SessionRenamed { id: id.to_string(), title: title.to_string() },
                );
            }
            Ok(())
        },
        Err(e) => Err(e),
    }
}

pub const SQL_SESSION_HAS_LIVE_CHILDREN: &'static str = "SELECT EXISTS(
            SELECT 1 FROM sessions WHERE parent_session_id = ?1 AND deleted_at IS NULL
         )";

/// Whether live sessions continue a session.
pub fn session_has_live_children(db: &mut Db, parent: &str) -> (r: Result<bool, DbError>)
    ensures
        rows::fetched(
            old(db)@,
            final(db)@,
            SQL_SESSION_HAS_LIVE_CHILDREN@,
            seq![Datum::Text(parent@)],
            r,
        ),
{
    fetch(db, SQL_SESSION_HAS_LIVE_CHILDREN, params1(p_text(parent)))
}

pub const SQL_TOMBSTONE: &'static str = "UPDATE sessions SET deleted_at = strftime('%s','now') WHERE id = ?1";

pub const SQL_RELEASE_LIVE_CHILDREN: &'static str = "UPDATE sessions
            SET parent_session_id = NULL
          WHERE parent_session_id = ?1 AND deleted_at IS NULL";

pub const SQL_CLEAR_POINTERS: &'static str = "UPDATE sessions
            SET continued_to_session_id = NULL
          WHERE id = ?1 OR continued_to_session_id = ?1";

/// The statements that delete a session softly: it is marked as deleted, its live children no
/// longer continue it, and nothing points from or to it.
pub open spec fn soft_deletion(id: Seq<char>) -> Seq<Request> {
    seq![
        Request::Execute { sql: SQL_TOMBSTONE@, params: seq![Datum::Text(id)] },
        Request::Execute { sql: SQL_RELEASE_LIVE_CHILDREN@, params: seq![Datum::Text(id)] },
        Request::Execute { sql: SQL_CLEAR_POINTERS@, params: seq![Datum::Text(id)] },
    ]
}

/// Deletes a session softly, in one transaction: its rows stay, and it can be restored.
pub fn set_session_deleted(db: &mut Db, id: &str) -> (r: Result<(), DbError>)
    ensures
        tx::transacted(
            old(db)@,
            final(db)@,
            |a: Trace, b: Trace, x: Result<(), DbError>| tx::scripted(a, b, soft_deletion(id@), x),
            r,
        ),
{
    match begin(db) {
        Ok(()) => {},
        Err(e) => return Err(e),
    }
    let ghost opened = db@;
    let ghost body = |a: Trace, b: Trace, x: Result<(), DbError>|
        tx::scripted(a, b, soft_deletion(id@), x);
    let mut script = no_statements();
    add_statement(&mut script, statement(SQL_TOMBSTONE, params1(p_text(id))));
    add_statement(&mut script, statement(SQL_RELEASE_LIVE_CHILDREN, params1(p_text(id))));
    add_statement(&mut script, statement(SQL_CLEAR_POINTERS, params1(p_text(id))));
    assert(tx::requests(script@) =~= soft_deletion(id@));
    let inner = run_script(db, script);
    assert(body(opened, db@, inner));
    finish(db, inner)
}

impl FromRow for (Option<i64>, Option<String>) {
    open spec fn reads() -> Seq<Read> {
        rows::in_order(seq![Kind::OptInt, Kind::OptText])
    }

    open spec fn is_row(self, row: Seq<Datum>) -> bool {
        &&& row[0] == rows::opt_int(self.0)
        &&& row[1] == rows::opt_text(events::opt(self.1))
    }

    fn layout() -> (reads: Vec<Read>) {
        let kinds = vec![Kind::OptInt, Kind::OptText];
        assert(rows::in_order(kinds@) =~= Self::reads());
        reads_in_order(kinds)
    }

    fn from_row(row: &Vec<Cell>) -> (v: Self) {
        proof {
            rows::lemma_cells(row@, Self::reads());
        }
        (opt_int_at(row, 0), opt_text_at(row, 1))
    }
}

pub const SQL_READ_PARENT: &'static str = "SELECT parent_session_id FROM sessions WHERE id = ?1";

/// The session that a session continues was read.
pub open spec fn parent_read(
    pre: Trace,
    post: Trace,
    id: Seq<char>,
    r: Result<Option<String>, DbError>,
) -> bool {
    rows::value_found(pre, post, SQL_READ_PARENT@, seq![Datum::Text(id)], r)
}

fn read_parent(db: &mut Db, id: &str) -> (r: Result<Option<String>, DbError>)
    ensures
        parent_read(old(db)@, final(db)@, id@, r),
{
    find_value(db, SQL_READ_PARENT, params1(p_text(id)))
}

pub const SQL_READ_LINEAGE: &'static str = "SELECT deleted_at, continued_to_session_id FROM sessions WHERE id = ?1";

/// When a session was deleted and what continues it were read.
pub open spec fn lineage_read(
    pre: Trace,
    post: Trace,
    id: Seq<char>,
    r: Result<Option<(Option<i64>, Option<String>)>, DbError>,
) -> bool {
    rows::found(pre, post, SQL_READ_LINEAGE@, seq![Datum::Text(id)], r)
}

fn read_lineage(
    db: &mut Db,
    id: &str,
) -> (r: Result<Option<(Option<i64>, Option<String>)>, DbError>)
    ensures
        lineage_read(old(db)@, final(db)@, id@, r),
{
    find(db, SQL_READ_LINEAGE, params1(p_text(id)))
}

pub const SQL_HAS_OTHER_LIVE_CHILD: &'static str = "SELECT EXISTS(
            SELECT 1 FROM sessions
             WHERE parent_session_id = ?1 AND id <> ?2 AND deleted_at IS NULL
         )";

/// Whether another live session continues the parent was read.
pub open spec fn other_child_read(
    pre: Trace,
    post: Trace,
    parent_id: Seq<char>,
    id: Seq<char>,
    r: Result<bool, DbError>,
) -> bool {
    rows::fetched(
        pre,
        post,
        SQL_HAS_OTHER_LIVE_CHILD@,
        seq![Datum::Text(parent_id), Datum::Text(id)],
        r,
    )
}

fn has_other_live_child(db: &mut Db, parent_id: &str, id: &str) -> (r: Result<bool, DbError>)
    ensures
        other_child_read(old(db)@, final(db)@, parent_id@, id@, r),
{
    fetch(db, SQL_HAS_OTHER_LIVE_CHILD, params2(p_text(parent_id), p_text(id)))
}

/// What is wrong with restoring a session to its parent, as far as the parent's own row says it.
pub open spec fn parent_problem(
    id: Seq<char>,
    parent: Option<(Option<i64>, Option<String>)>,
) -> Option<Seq<char>> {
    match parent {
        None => Some("AL_ERR:db.restore.parentMissing"@),
        Some((deleted_at, continued_to)) => if deleted_at is Some {
            Some("AL_ERR:db.restore.parentDeleted"@)
        } else if continued_to is Some && continued_to->Some_0@ != id {
            Some("AL_ERR:db.restore.parentPointsElsewhere"@)
        } else {
            None
        },
    }
}

/// What is wrong with restoring a session to its parent, as far as the parent's own row says it.
pub fn find_parent_problem(id: &str, parent: &Option<(Option<i64>, Option<String>)>) -> (r: Option<
    String,
>)
    ensures
        events::opt(r) == parent_problem(id@, *parent),
{
    match parent {
        None => Some("AL_ERR:db.restore.parentMissing".to_string()),
        Some((deleted_at, continued_to)) => {
            if deleted_at.is_some() {
                return Some("AL_ERR:db.restore.parentDeleted".to_string());
            }
            match continued_to {
                Some(child) => if !same(child.as_str(), id) {
                    Some("AL_ERR:db.restore.parentPointsElsewhere".to_string())
                } else {
                    None
                },
                None => None,
            }
        },
    }
}

/// The parent of a session was found fit for the session to be restored to it, or the reason why
/// not.
pub open spec fn parent_checked(
    pre: Trace,
    post: Trace,
    id: Seq<char>,
    parent_id: String,
    r: Result<Option<String>, DbError>,
) -> bool {
    exists|mid: Trace, got: Result<Option<(Option<i64>, Option<String>)>, DbError>|
        {
            &&& #[trigger] lineage_read(pre, mid, parent_id@, got)
            &&& match got {
                Ok(parent) => match parent_problem(id, parent) {
                    Some(why) => post == mid && agents::violates(r, why),
                    None => exists|other: Result<bool, DbError>|
                        {
                            &&& #[trigger] other_child_read(mid, post, parent_id@, id, other)
                            &&& match other {
                                Ok(true) => agents::violates(
                                    r,
                                    "AL_ERR:db.restore.liveChildExists"@,
                                ),
                                Ok(false) => r == Ok::<Option<String>, DbError>(
                                    Some(parent_id),
                                ),
                                Err(e) => r == Err::<Option<String>, DbError>(e),
                            }
                        },
                },
                Err(e) => post == mid && r == Err::<Option<String>, DbError>(e),
            }
        }
}

fn check_parent(db: &mut Db, id: &str, parent_id: String) -> (r: Result<Option<String>, DbError>)
    ensures
        parent_checked(old(db)@, final(db)@, id@, parent_id, r),
{
    let got = read_lineage(db, parent_id.as_str());
    let ghost mid = db@;
    assert(lineage_read(old(db)@, mid, parent_id@, got));
    let parent = match got {
        Ok(parent) => parent,
        Err(e) => return Err(e),
    };
    match find_parent_problem(id, &parent) {
        Some(why) => return Err(DbError::Constraint(why)),
        None => {},
    }
    let other = has_other_live_child(db, parent_id.as_str(), id);
    assert(other_child_read(mid, db@, parent_id@, id@, other));
    match other {
        Ok(true) => Err(DbError::Constraint("AL_ERR:db.restore.liveChildExists".to_string())),
        Ok(false) => Ok(Some(parent_id)),
        Err(e) => Err(e),
    }
}

/// Whether a session can be restored was checked; the result is the parent that it would continue
/// again.
pub open spec fn lineage_checked(
    pre: Trace,
    post: Trace,
    id: Seq<char>,
    r: Result<Option<String>, DbError>,
) -> bool {
    exists|mid: Trace, parent: Result<Option<String>, DbError>|
        {
            &&& #[trigger] parent_read(pre, mid, id, parent)
            &&& match parent {
                Ok(Some(parent_id)) => parent_checked(mid, post, id, parent_id, r),
                Ok(None) => post == mid && r == Ok::<Option<String>, DbError>(None),
                Err(e) => post == mid && r == parent,
            }
        }
}

/// The parent that a session would continue again if it was restored; none where it has none. A
/// parent that is gone or deleted, or that another session continues, is an error.
pub fn preflight_restore_session_lineage(db: &mut Db, id: &str) -> (r: Result<
    Option<String>,
    DbError,
>)
    ensures
        lineage_checked(old(db)@, final(db)@, id@, r),
{
    let parent = read_parent(db, id);
    assert(parent_read(old(db)@, db@, id@, parent));
    match parent {
        Ok(Some(parent_id)) => check_parent(db, id, parent_id),
        Ok(None) => Ok(None),
        Err(e) => Err(e),
    }
}

/// Whether a session can be restored.
pub fn preflight_restore_session(db: &mut Db, id: &str) -> (r: Result<(), DbError>)
    ensures
        exists|got: Result<Option<String>, DbError>|
            #[trigger] lineage_checked(old(db)@, final(db)@, id@, got) && match got {
                Ok(_) => r is Ok,
                Err(e) => r == Err::<(), DbError>(e),
            },
{
    match preflight_restore_session_lineage(db, id) {
        Ok(_) => Ok(()),
        Err(e) => Err(e),
    }
}

pub const SQL_CLEAR_TOMBSTONE: &'static str = "UPDATE sessions SET deleted_at = NULL WHERE id = ?1";

pub const SQL_POINT_TO_CHILD: &'static str = "UPDATE sessions SET continued_to_session_id = ?2 WHERE id = ?1";

/// The statement that makes a session point to another as continuing it.
pub open spec fn point_to_child(parent: Seq<char>, id: Seq<char>) -> Request {
    Request::Execute {
        sql: SQL_POINT_TO_CHILD@,
        params: seq![Datum::Text(parent), Datum::Text(id)],
    }
}

/// The statements that restore a session, and make its parent point to it again.
pub open spec fn restoration(id: Seq<char>, parent_id: Option<Seq<char>>) -> Seq<Request> {
    let unmark = Request::Execute { sql: SQL_CLEAR_TOMBSTONE@, params: seq![Datum::Text(id)] };
    match parent_id {
        Some(parent) => seq![unmark, point_to_child(parent, id)],
        None => seq![unmark],
    }
}

/// A session was restored, where it can be.
pub open spec fn restored(
    pre: Trace,
    post: Trace,
    id: Seq<char>,
    r: Result<(), DbError>,
) -> bool {
    exists|mid: Trace, parent: Result<Option<String>, DbError>|
        {
            &&& #[trigger] lineage_checked(pre, mid, id, parent)
            &&& match parent {
                Ok(p) => tx::scripted(mid, post, restoration(id, events::opt(p)), r),
                Err(e) => post == mid && r == Err::<(), DbError>(e),
            }
        }
}

fn restore_in_transaction(db: &mut Db, id: &str) -> (r: Result<(), DbError>)
    ensures
        restored(old(db)@, final(db)@, id@, r),
{
    let parent = preflight_restore_session_lineage(db, id);
    assert(lineage_checked(old(db)@, db@, id@, parent));
    let p = match parent {
        Ok(p) => p,
        Err(e) => return Err(e),
    };
    let mut script = no_statements();
    add_statement(&mut script, statement(SQL_CLEAR_TOMBSTONE, params1(p_text(id))));
    match &p {
        Some(parent_id) => {
            add_statement(
                &mut script,
                statement(SQL_POINT_TO_CHILD, params2(p_text(parent_id.as_str()), p_text(id))),
            );
        },
        None => {},
    }
    assert(tx::requests(script@) =~= restoration(id@, events::opt(p)));
    run_script(db, script)
}

/// Restores a session that was deleted softly, in one transaction. Where it continued another one
/// that has become unfit for it, nothing changes and the error says why.
pub fn restore_session(db: &mut Db, id: &str) -> (r: Result<(), DbError>)
    ensures
        tx::transacted(
            old(db)@,
            final(db)@,
            |a: Trace, b: Trace, x: Result<(), DbError>| restored(a, b, id@, x),
            r,
        ),
{
    match begin(db) {
        Ok(()) => {},
        Err(e) => return Err(e),
    }
    let ghost opened = db@;
    let ghost body = |a: Trace, b: Trace, x: Result<(), DbError>| restored(a, b, id@, x);
    let inner = restore_in_transaction(db, id);
    assert(body(opened, db@, inner));
    finish(db, inner)
}

/// How a session stands among others: whether it is deleted, which session it continues, and which
/// one it points to as continuing it.
pub struct Standing {
    pub deleted: bool,
    pub parent: Option<Seq<char>>,
    pub next: Option<Seq<char>>,
}

/// How the sessions stand, by their ids.
pub type Lineage = Map<Seq<char>, Standing>;

/// How a session stands after `SQL_TOMBSTONE` was run for `id`.
pub open spec fn tombstoned(s: Seq<char>, was: Standing, id: Seq<char>) -> Standing {
    if s == id {
        Standing { deleted: true, ..was }
    } else {
        was
    }
}

/// How a session stands after `SQL_RELEASE_LIVE_CHILDREN` was run for `id`.
pub open spec fn released(s: Seq<char>, was: Standing, id: Seq<char>) -> Standing {
    if was.parent == Some(id) && !was.deleted {
        Standing { parent: None, ..was }
    } else {
        was
    }
}

/// How a session stands after `SQL_CLEAR_POINTERS` was run for `id`.
pub open spec fn unpointed(s: Seq<char>, was: Standing, id: Seq<char>) -> Standing {
    if s == id || was.next == Some(id) {
        Standing { next: None, ..was }
    } else {
        was
    }
}

/// How a session stands after `SQL_CLEAR_TOMBSTONE` was run for `id`.
pub open spec fn revived(s: Seq<char>, was: Standing, id: Seq<char>) -> Standing {
    if s == id {
        Standing { deleted: false, ..was }
    } else {
        was
    }
}

/// How a session stands after `SQL_POINT_TO_CHILD` was run for `parent` and `id`.
pub open spec fn pointed(s: Seq<char>, was: Standing, parent: Seq<char>, id: Seq<char>) -> Standing {
    if s == parent {
        Standing { next: Some(id), ..was }
    } else {
        was
    }
}

/// Whether a statement on how sessions stand does what its text says to `before`, so that they stand
/// as `after`.
pub open spec fn takes_effect(request: Request, before: Lineage, after: Lineage) -> bool {
    &&& forall|id: Seq<char>|
        request == #[trigger] with_id(SQL_TOMBSTONE@, id) ==> after == before.map_entries(
            |s: Seq<char>, was: Standing| tombstoned(s, was, id),
        )
    &&& forall|id: Seq<char>|
        request == #[trigger] with_id(SQL_RELEASE_LIVE_CHILDREN@, id) ==> after
            == before.map_entries(|s: Seq<char>, was: Standing| released(s, was, id))
    &&& forall|id: Seq<char>|
        request == #[trigger] with_id(SQL_CLEAR_POINTERS@, id) ==> after == before.map_entries(
            |s: Seq<char>, was: Standing| unpointed(s, was, id),
        )
    &&& forall|id: Seq<char>|
        request == #[trigger] with_id(SQL_CLEAR_TOMBSTONE@, id) ==> after == before.map_entries(
            |s: Seq<char>, was: Standing| revived(s, was, id),
        )
    &&& forall|parent: Seq<char>, id: Seq<char>|
        request == #[trigger] point_to_child(parent, id) ==> after == before.map_entries(
            |s: Seq<char>, was: Standing| pointed(s, was, parent, id),
        )
}

/// Whether the statements of a script took effect one after the other; `stages` are how the sessions
/// stand before, between and after them.
pub open spec fn script_takes_effect(script: Seq<Request>, stages: Seq<Lineage>) -> bool {
    &&& stages.len() == script.len() + 1
    &&& forall|i: int|
        0 <= i < script.len() ==> takes_effect(#[trigger] script[i], stages[i], stages[i + 1])
}

/// Whether a session has no live child and points to none, and none but its parent points to it.
pub open spec fn stands_alone(sessions: Lineage, id: Seq<char>) -> bool {
    &&& sessions[id].next is None
    &&& forall|s: Seq<char>| #[trigger]
        sessions.dom().contains(s) ==> {
            &&& sessions[s].parent == Some(id) ==> sessions[s].deleted
            &&& sessions[s].next == Some(id) ==> sessions[id].parent == Some(s)
        }
}

/// To delete a session softly and then to restore it gives its lineage back: it is live, it
/// continues the session that it continued, and that one points to it. It no longer points to any
/// session, its live children no longer continue it, sessions that it does not continue no longer
/// point to it, and nothing else has changed; so where it stands alone, all sessions stand as they
/// stood. When it is restored, nothing keeps it from its parent.
pub proof fn law_restoring_gives_the_lineage_back(
    id: Seq<char>,
    deleting: Seq<Lineage>,
    restoring: Seq<Lineage>,
)
    requires
        ({
            let before = deleting[0];
            let parent = before[id].parent;
            &&& script_takes_effect(soft_deletion(id), deleting)
            &&& restoring[0] == deleting.last()
            &&& script_takes_effect(restoration(id, parent), restoring)
            &&& before.dom().contains(id)
            &&& !before[id].deleted
            &&& parent matches Some(p) ==> p != id && before.dom().contains(p) && !before[p].deleted
                && before[p].next == Some(id)
        }),
    ensures
        ({
            let before = deleting[0];
            let after = restoring.last();
            let parent = before[id].parent;
            &&& deleting.last()[id].deleted
            &&& deleting.last()[id].parent == parent
            &&& parent matches Some(p) ==> !deleting.last()[p].deleted && deleting.last()[p].next
                is None
            &&& after.dom() == before.dom()
            &&& !after[id].deleted
            &&& after[id].parent == parent
            &&& parent matches Some(p) ==> after[p].next == Some(id)
            &&& after[id].next is None
            &&& forall|s: Seq<char>|
                before.dom().contains(s) && s != id ==> #[trigger] after[s] == (Standing {
                    deleted: before[s].deleted,
                    parent: if before[s].parent == Some(id) && !before[s].deleted {
                        None
                    } else {
                        before[s].parent
                    },
                    next: if before[s].next == Some(id) && parent != Some(s) {
                        None
                    } else {
                        before[s].next
                    },
                })
            &&& stands_alone(before, id) ==> after == before
        }),
{
    let before = deleting[0];
    let parent = before[id].parent;
    let script = soft_deletion(id);
    assert(takes_effect(script[0], deleting[0], deleting[1]));
    assert(takes_effect(script[1], deleting[1], deleting[2]));
    assert(takes_effect(script[2], deleting[2], deleting[3]));
    assert(script[0] == with_id(SQL_TOMBSTONE@, id));
    assert(script[1] == with_id(SQL_RELEASE_LIVE_CHILDREN@, id));
    assert(script[2] == with_id(SQL_CLEAR_POINTERS@, id));
    let back = restoration(id, parent);
    assert(takes_effect(back[0], restoring[0], restoring[1]));
    assert(back[0] == with_id(SQL_CLEAR_TOMBSTONE@, id));
    if let Some(p) = parent {
        assert(takes_effect(back[1], restoring[1], restoring[2]));
        assert(back[1] == point_to_child(p, id));
    }
    assert(restoring.last().dom() =~= before.dom());
    if stands_alone(before, id) {
        assert(before.dom().contains(id));
        assert(restoring.last() =~= before);
    }
}

pub const SQL_LIST_EXPIRED_TRASHED_SESSIONS: &'static str = "SELECT id FROM sessions WHERE deleted_at IS NOT NULL AND deleted_at <= ?1";

/// The sessions that were deleted softly by the time `cutoff`.
pub fn list_expired_trashed_sessions(db: &mut Db, cutoff: i64) -> (r: Result<Vec<String>, DbError>)
    ensures
        rows::listed(
            old(db)@,
            final(db)@,
            SQL_LIST_EXPIRED_TRASHED_SESSIONS@,
            seq![Datum::Integer(cutoff)],
            r,
        ),
{
    list(db, SQL_LIST_EXPIRED_TRASHED_SESSIONS, params1(p_int(cutoff)))
}

pub const SQL_READ_ARTIFACT_IDS: &'static str = "SELECT id FROM artifacts WHERE session_id = ?1";

/// The artifacts of a session were read.
pub open spec fn artifact_ids_read(
    pre: Trace,
    post: Trace,
    id: Seq<char>,
    r: Result<Vec<String>, DbError>,
) -> bool {
    rows::listed(pre, post, SQL_READ_ARTIFACT_IDS@, seq![Datum::Text(id)], r)
}

fn read_artifact_ids(db: &mut Db, id: &str) -> (r: Result<Vec<String>, DbError>)
    ensures
        artifact_ids_read(old(db)@, final(db)@, id@, r),
{
    list(db, SQL_READ_ARTIFACT_IDS, params1(p_text(id)))
}

pub const SQL_PURGE_VERIFICATIONS: &'static str = "DELETE FROM verifications WHERE artifact_id = ?1";

pub const SQL_PURGE_REVIEWS: &'static str = "DELETE FROM reviews WHERE artifact_id = ?1";

pub const SQL_PURGE_MERGE_CANDIDATES: &'static str = "DELETE FROM merge_candidates WHERE artifact_id = ?1";

pub const SQL_PURGE_MEMBER_REPORT_DELIVERY: &'static str = "DELETE FROM member_report_delivery WHERE session_id = ?1";

pub const SQL_PURGE_MESSAGES: &'static str = "DELETE FROM messages WHERE session_id = ?1";

pub const SQL_PURGE_ATTACHMENTS: &'static str = "DELETE FROM attachments WHERE session_id = ?1";

pub const SQL_PURGE_MEMORY_BLOCKS: &'static str = "DELETE FROM memory_blocks WHERE session_id = ?1";

pub const SQL_PURGE_MEMORY_ENTRIES: &'static str = "DELETE FROM memory_entries WHERE session_id = ?1";

pub const SQL_PURGE_RUN_COMMITS: &'static str = "DELETE FROM run_commits WHERE session_id = ?1";

pub const SQL_PURGE_RUN_COMMIT_INTENTS: &'static str = "DELETE FROM run_commit_intents WHERE session_id = ?1";

pub const SQL_PURGE_CHECKPOINT_ENTRIES: &'static str = "DELETE FROM checkpoint_entries WHERE session_id = ?1";

pub const SQL_PURGE_TEAM_RUN_PENDING: &'static str = "DELETE FROM team_run_pending WHERE session_id = ?1";

pub const SQL_PURGE_DECISION_LEDGER: &'static str = "DELETE FROM decision_ledger WHERE session_id = ?1";

pub const SQL_PURGE_LEAD_LOOP_STATE: &'static str = "DELETE FROM lead_loop_state WHERE session_id = ?1";

pub const SQL_PURGE_LANDING_COMMITS: &'static str = "DELETE FROM landing_commits WHERE session_id = ?1";

pub const SQL_PURGE_GOAL_CONTRACTS: &'static str = "DELETE FROM goal_contracts WHERE session_id = ?1";

pub const SQL_PURGE_ACCEPTANCE_CRITERIA: &'static str = "DELETE FROM acceptance_criteria WHERE session_id = ?1";

pub const SQL_PURGE_ARTIFACTS: &'static str = "DELETE FROM artifacts WHERE session_id = ?1";

pub const SQL_PURGE_SESSION_AGENT_CONFIGS: &'static str = "DELETE FROM session_agent_configs WHERE session_id = ?1";

pub const SQL_PURGE_SESSION_RUNTIME: &'static str = "DELETE FROM session_runtime WHERE session_id = ?1";

pub const SQL_PURGE_REMOTE_INBOX: &'static str = "DELETE FROM remote_inbox WHERE session_id = ?1";

pub const SQL_UNPOINT: &'static str = "UPDATE sessions SET continued_to_session_id = NULL WHERE continued_to_session_id = ?1";

/// The request to run a statement with the id of a session or an artifact.
pub open spec fn with_id(sql: Seq<char>, id: Seq<char>) -> Request {
    Request::Execute { sql, params: seq![Datum::Text(id)] }
}

fn statement_with_id(sql: &str, id: &str) -> (s: Statement)
    ensures
        s@ == with_id(sql@, id@),
{
    statement(sql, params1(p_text(id)))
}

/// The statements that delete what belongs to artifacts.
pub open spec fn artifact_purge(ids: Seq<Seq<char>>) -> Seq<Request>
    decreases ids.len(),
{
    if ids.len() == 0 {
        Seq::empty()
    } else {
        artifact_purge(ids.drop_last()) + seq![
            with_id(SQL_PURGE_VERIFICATIONS@, ids.last()),
            with_id(SQL_PURGE_REVIEWS@, ids.last()),
            with_id(SQL_PURGE_MERGE_CANDIDATES@, ids.last()),
        ]
    }
}

/// The statements that delete what belongs to a session, and unlink it from others.
pub open spec fn session_purge(id: Seq<char>) -> Seq<Request> {
    seq![
        with_id(SQL_PURGE_MEMBER_REPORT_DELIVERY@, id),
        with_id(SQL_PURGE_MESSAGES@, id),
        with_id(SQL_PURGE_ATTACHMENTS@, id),
        with_id(SQL_PURGE_MEMORY_BLOCKS@, id),
        with_id(SQL_PURGE_MEMORY_ENTRIES@, id),
        with_id(SQL_PURGE_RUN_COMMITS@, id),
        with_id(SQL_PURGE_RUN_COMMIT_INTENTS@, id),
        with_id(SQL_PURGE_CHECKPOINT_ENTRIES@, id),
        with_id(SQL_PURGE_TEAM_RUN_PENDING@, id),
        with_id(SQL_PURGE_DECISION_LEDGER@, id),
        with_id(SQL_PURGE_LEAD_LOOP_STATE@, id),
        with_id(SQL_PURGE_LANDING_COMMITS@, id),
        with_id(SQL_PURGE_GOAL_CONTRACTS@, id),
        with_id(SQL_PURGE_ACCEPTANCE_CRITERIA@, id),
        with_id(SQL_PURGE_ARTIFACTS@, id),
        with_id(SQL_PURGE_SESSION_AGENT_CONFIGS@, id),
        with_id(SQL_PURGE_SESSION_RUNTIME@, id),
        with_id(SQL_PURGE_REMOTE_INBOX@, id),
        with_id(SQL_RELEASE_LIVE_CHILDREN@, id),
        with_id(SQL_UNPOINT@, id),
    ]
}

fn push_session_purge(script: &mut Vec<Statement>, id: &str)
    ensures
        tx::requests(final(script)@) == tx::requests(old(script)@) + session_purge(id@),
{
    let ghost was = tx::requests(script@);
    add_statement(script, statement_with_id(SQL_PURGE_MEMBER_REPORT_DELIVERY, id));
    add_statement(script, statement_with_id(SQL_PURGE_MESSAGES, id));
    add_statement(script, statement_with_id(SQL_PURGE_ATTACHMENTS, id));
    add_statement(script, statement_with_id(SQL_PURGE_MEMORY_BLOCKS, id));
    add_statement(script, statement_with_id(SQL_PURGE_MEMORY_ENTRIES, id));
    add_statement(script, statement_with_id(SQL_PURGE_RUN_COMMITS, id));
    add_statement(script, statement_with_id(SQL_PURGE_RUN_COMMIT_INTENTS, id));
    add_statement(script, statement_with_id(SQL_PURGE_CHECKPOINT_ENTRIES, id));
    add_statement(script, statement_with_id(SQL_PURGE_TEAM_RUN_PENDING, id));
    add_statement(script, statement_with_id(SQL_PURGE_DECISION_LEDGER, id));
    add_statement(script, statement_with_id(SQL_PURGE_LEAD_LOOP_STATE, id));
    add_statement(script, statement_with_id(SQL_PURGE_LANDING_COMMITS, id));
    add_statement(script, statement_with_id(SQL_PURGE_GOAL_CONTRACTS, id));
    add_statement(script, statement_with_id(SQL_PURGE_ACCEPTANCE_CRITERIA, id));
    add_statement(script, statement_with_id(SQL_PURGE_ARTIFACTS, id));
    add_statement(script, statement_with_id(SQL_PURGE_SESSION_AGENT_CONFIGS, id));
    add_statement(script, statement_with_id(SQL_PURGE_SESSION_RUNTIME, id));
    add_statement(script, statement_with_id(SQL_PURGE_REMOTE_INBOX, id));
    add_statement(script, statement_with_id(SQL_RELEASE_LIVE_CHILDREN, id));
    add_statement(script, statement_with_id(SQL_UNPOINT, id));
    assert(tx::requests(script@) =~= was + session_purge(id@));
}

fn artifact_purge_script(ids: &Vec<String>) -> (script: Vec<Statement>)
    ensures
        tx::requests(script@) == artifact_purge(text::texts(ids@)),
{
    let ghost all = text::texts(ids@);
    let mut script = no_statements();
    let mut i: usize = 0;
    assert(all.take(0).len() == 0);
    while i < ids.len()
        invariant
            all == text::texts(ids@),
            i <= ids@.len(),
            tx::requests(script@) == artifact_purge(all.take(i as int)),
        decreases ids.len() - i,
    {
        let ghost was = tx::requests(script@);
        add_statement(&mut script, statement_with_id(SQL_PURGE_VERIFICATIONS, ids[i].as_str()));
        add_statement(&mut script, statement_with_id(SQL_PURGE_REVIEWS, ids[i].as_str()));
        add_statement(&mut script, statement_with_id(SQL_PURGE_MERGE_CANDIDATES, ids[i].as_str()));
        assert(all.take(i + 1).drop_last() =~= all.take(i as int));
        assert(all.take(i + 1).last() == ids@[i as int]@);
        assert(tx::requests(script@) =~= artifact_purge(all.take(i + 1)));
        i += 1;
    }
    assert(all.take(i as int) =~= all);
    script
}

pub const SQL_DELETE_SESSION: &'static str = "DELETE FROM sessions WHERE id = ?1";

/// The row of a session was deleted.
pub open spec fn session_row_deleted(
    pre: Trace,
    post: Trace,
    id: Seq<char>,
    r: Result<usize, DbError>,
) -> bool {
    rows::counted(pre, post, SQL_DELETE_SESSION@, seq![Datum::Text(id)], r)
}

/// All that belongs to a session was deleted, and at last the session itself; the result counts
/// its rows.
pub open spec fn purged(
    pre: Trace,
    post: Trace,
    id: Seq<char>,
    r: Result<usize, DbError>,
) -> bool {
    exists|t1: Trace, artifacts: Result<Vec<String>, DbError>|
        {
            &&& #[trigger] artifact_ids_read(pre, t1, id, artifacts)
            &&& match artifacts {
                Ok(ids) => exists|t2: Trace, done: Result<(), DbError>|
                    {
                        &&& #[trigger] belongings_deleted(t1, t2, id, text::texts(ids@), done)
                        &&& match done {
                            Ok(()) => session_row_deleted(t2, post, id, r),
                            Err(e) => post == t2 && r == Err::<usize, DbError>(e),
                        }
                    },
                Err(e) => post == t1 && r == Err::<usize, DbError>(e),
            }
        }
}

/// What belongs to a session and to its artifacts was deleted.
pub open spec fn belongings_deleted(
    pre: Trace,
    post: Trace,
    id: Seq<char>,
    artifact_ids: Seq<Seq<char>>,
    r: Result<(), DbError>,
) -> bool {
    tx::scripted(pre, post, artifact_purge(artifact_ids) + session_purge(id), r)
}

fn purge_in_transaction(db: &mut Db, id: &str) -> (r: Result<usize, DbError>)
    ensures
        purged(old(db)@, final(db)@, id@, r),
{
    let artifacts = read_artifact_ids(db, id);
    let ghost t1 = db@;
    assert(artifact_ids_read(old(db)@, t1, id@, artifacts));
    let ids = match artifacts {
        Ok(ids) => ids,
        Err(e) => return Err(e),
    };
    let mut script = artifact_purge_script(&ids);
    push_session_purge(&mut script, id);
    let done = run_script(db, script);
    let ghost t2 = db@;
    assert(belongings_deleted(t1, t2, id@, text::texts(ids@), done));
    match done {
        Ok(()) => {},
        Err(e) => return Err(e),
    }
    run_counted(db, SQL_DELETE_SESSION, params1(p_text(id)))
}

/// A session was purged in one transaction.
pub open spec fn purge_transacted(
    pre: Trace,
    post: Trace,
    id: Seq<char>,
    r: Result<usize, DbError>,
) -> bool {
    tx::transacted(
        pre,
        post,
        |a: Trace, b: Trace, x: Result<usize, DbError>| purged(a, b, id, x),
        r,
    )
}

fn purge(db: &mut Db, id: &str) -> (r: Result<usize, DbError>)
    ensures
        purge_transacted(old(db)@, final(db)@, id@, r),
{
    match begin(db) {
        Ok(()) => {},
        Err(e) => return Err(e),
    }
    let ghost opened = db@;
    let ghost body = |a: Trace, b: Trace, x: Result<usize, DbError>| purged(a, b, id@, x);
    let inner = purge_in_transaction(db, id);
    assert(body(opened, db@, inner));
    finish(db, inner)
}

/// A deletion was announced where there was such a session.
pub open spec fn deletion_told(
    mid: Trace,
    post: Trace,
    id: Seq<char>,
    n: Result<usize, DbError>,
    r: Result<(), DbError>,
) -> bool {
    match n {
        Ok(rows) => r is Ok && rows::announced(
            mid,
            post,
            rows > 0,
            Notice::SessionDeleted { id },
        ),
        Err(e) => post == mid && r == Err::<(), DbError>(e),
    }
}

/// A session was purged, and that announced after the commit where there was a session.
pub open spec fn session_deleted(
    pre: Trace,
    post: Trace,
    id: Seq<char>,
    r: Result<(), DbError>,
) -> bool {
    exists|mid: Trace, n: Result<usize, DbError>|
        {
            &&& #[trigger] purge_transacted(pre, mid, id, n)
            &&& deletion_told(mid, post, id, n, r)
        }
}

/// Deletes a session for good, with all that belongs to it, in one transaction, and announces it
/// where there was such a session.
pub fn delete_session(db: &mut Db, id: &str) -> (r: Result<(), DbError>)
    ensures
        session_deleted(old(db)@, final(db)@, id@, r),
{
    let n = purge(db, id);
    let ghost mid = db@;
    assert(purge_transacted(old(db)@, mid, id@, n));
    match n {
        Ok(rows) => {
            if rows > 0 {
                db.publish(Milestone::SessionDeleted { id: id.to_string() });
            }
            Ok(())
        },
        Err(e) => Err(e),
    }
}

/// A deletion is announced only after it was committed: the step before the milestone is the
/// commit, and where the deletion failed nothing is announced.
pub proof fn law_deletion_announced_after_commit(
    pre: Trace,
    post: Trace,
    id: Seq<char>,
    r: Result<(), DbError>,
)
    requires
        session_deleted(pre, post, id, r),
    ensures
        post.last() is Published ==> post.drop_last().last() == tx::commitment(),
        r is Err ==> !(post.last() is Published),
{
    let (mid, n) = choose|mid: Trace, n: Result<usize, DbError>|
        {
            &&& #[trigger] purge_transacted(pre, mid, id, n)
            &&& deletion_told(mid, post, id, n, r)
        };
    tx::law_transaction_outcome(
        pre,
        mid,
        |a: Trace, b: Trace, x: Result<usize, DbError>| purged(a, b, id, x),
        n,
    );
    if n is Ok && n->Ok_0 > 0 {
        assert(post.drop_last() =~= mid);
    }
}

pub const SQL_GET_SESSION_REPO_ID: &'static str = "SELECT repo_id FROM sessions WHERE id = ?1";

/// The repository of a session; none where it has none or there is no such session.
pub fn get_session_repo_id(db: &mut Db, session_id: &str) -> (r: Result<Option<String>, DbError>)
    ensures
        rows::value_found(
            old(db)@,
            final(db)@,
            SQL_GET_SESSION_REPO_ID@,
            seq![Datum::Text(session_id@)],
            r,
        ),
{
    find_value(db, SQL_GET_SESSION_REPO_ID, params1(p_text(session_id)))
}

pub const SQL_GET_SESSION_WORKSPACE_SCOPE: &'static str = "SELECT workspace_scope FROM sessions WHERE id = ?1";

/// The workspace scope of a session: `root` for the project's root, else none.
pub fn get_session_workspace_scope(
    db: &mut Db,
    session_id: &str,
) -> (r: Result<Option<String>, DbError>)
    ensures
        rows::value_found(
            old(db)@,
            final(db)@,
            SQL_GET_SESSION_WORKSPACE_SCOPE@,
            seq![Datum::Text(session_id@)],
            r,
        ),
{
    find_value(db, SQL_GET_SESSION_WORKSPACE_SCOPE, params1(p_text(session_id)))
}

pub const SQL_SET_SESSION_WORKSPACE_SCOPE: &'static str = "UPDATE sessions SET workspace_scope = ?2 WHERE id = ?1";

/// Sets the workspace scope of a session.
pub fn set_session_workspace_scope(
    db: &mut Db,
    session_id: &str,
    scope: Option<&str>,
) -> (r: Result<(), DbError>)
    ensures
        rows::executed(
            old(db)@,
            final(db)@,
            SQL_SET_SESSION_WORKSPACE_SCOPE@,
            seq![Datum::Text(session_id@), rows::opt_text(events::opt_str(scope))],
            r,
        ),
{
    run(db, SQL_SET_SESSION_WORKSPACE_SCOPE, params2(p_text(session_id), p_opt_text(scope)))
}

pub const SQL_GET_SESSION_NAMESPACE_ID: &'static str = "SELECT namespace_id FROM sessions WHERE id = ?1";

/// The namespace of a session; none where it has none or there is no such session.
pub fn get_session_namespace_id(
    db: &mut Db,
    session_id: &str,
) -> (r: Result<Option<String>, DbError>)
    ensures
        rows::value_found(
            old(db)@,
            final(db)@,
            SQL_GET_SESSION_NAMESPACE_ID@,
            seq![Datum::Text(session_id@)],
            r,
        ),
{
    find_value(db, SQL_GET_SESSION_NAMESPACE_ID, params1(p_text(session_id)))
}

pub const SQL_SET_GIT_STATE: &'static str = "UPDATE sessions SET git_state = ?2 WHERE id = ?1";

/// Sets the state of a session's working copy: `clean`, `running`, `commit_failed` or `diverged`.
pub fn set_git_state(db: &mut Db, session_id: &str, state: &str) -> (r: Result<(), DbError>)
    ensures
        rows::executed(
            old(db)@,
            final(db)@,
            SQL_SET_GIT_STATE@,
            seq![Datum::Text(session_id@), Datum::Text(state@)],
            r,
        ),
{
    run(db, SQL_SET_GIT_STATE, params2(p_text(session_id), p_text(state)))
}

pub const SQL_READ_GIT_STATE: &'static str = "SELECT git_state FROM sessions WHERE id = ?1";

/// The state of a session's working copy was read.
pub open spec fn git_state_read(
    pre: Trace,
    post: Trace,
    session_id: Seq<char>,
    r: Result<Option<String>, DbError>,
) -> bool {
    rows::value_found(pre, post, SQL_READ_GIT_STATE@, seq![Datum::Text(session_id)], r)
}

fn read_git_state(db: &mut Db, session_id: &str) -> (r: Result<Option<String>, DbError>)
    ensures
        git_state_read(old(db)@, final(db)@, session_id@, r),
{
    find_value(db, SQL_READ_GIT_STATE, params1(p_text(session_id)))
}

/// The state of a session's working copy; `clean` where none is stored.
pub fn get_git_state(db: &mut Db, session_id: &str) -> (r: Result<String, DbError>)
    ensures
        exists|got: Result<Option<String>, DbError>|
            {
                &&& #[trigger] git_state_read(old(db)@, final(db)@, session_id@, got)
                &&& match got {
                    Ok(Some(state)) => r == Ok::<String, DbError>(state),
                    Ok(None) => r matches Ok(state) && state@ == "clean"@,
                    Err(e) => r == Err::<String, DbError>(e),
                }
            },
{
    match read_git_state(db, session_id) {
        Ok(Some(state)) => Ok(state),
        Ok(None) => Ok("clean".to_string()),
        Err(e) => Err(e),
    }
}

pub const SQL_SET_SESSION_PINNED: &'static str = "UPDATE sessions SET pinned = ?2 WHERE id = ?1";

/// Pins a session, or unpins it.
pub fn set_session_pinned(db: &mut Db, id: &str, pinned: bool) -> (r: Result<(), DbError>)
    ensures
        rows::executed(
            old(db)@,
            final(db)@,
            SQL_SET_SESSION_PINNED@,
            seq![Datum::Text(id@), rows::flag(pinned)],
            r,
        ),
{
    run(db, SQL_SET_SESSION_PINNED, params2(p_text(id), p_flag(pinned)))
}

pub const SQL_SET_SESSION_UNREAD: &'static str = "UPDATE sessions SET unread = ?2 WHERE id = ?1";

/// Marks a session as unread, or as read.
pub fn set_session_unread(db: &mut Db, id: &str, unread: bool) -> (r: Result<(), DbError>)
    ensures
        rows::executed(
            old(db)@,
            final(db)@,
            SQL_SET_SESSION_UNREAD@,
            seq![Datum::Text(id@), rows::flag(unread)],
            r,
        ),
{
    run(db, SQL_SET_SESSION_UNREAD, params2(p_text(id), p_flag(unread)))
}

pub const SQL_STORE_ARCHIVED: &'static str = "UPDATE sessions SET archived = ?2, \
             archived_at = CASE WHEN ?2 THEN strftime('%s','now') ELSE NULL END \
             WHERE id = ?1";

/// Whether a session is archived was stored.
pub open spec fn archived_stored(
    pre: Trace,
    post: Trace,
    id: Seq<char>,
    archived: bool,
    r: Result<usize, DbError>,
) -> bool {
    rows::counted(pre, post, SQL_STORE_ARCHIVED@, seq![Datum::Text(id), rows::flag(archived)], r)
}

fn store_archived(db: &mut Db, id: &str, archived: bool) -> (r: Result<usize, DbError>)
    ensures
        archived_stored(old(db)@, final(db)@, id@, archived, r),
{
    run_counted(db, SQL_STORE_ARCHIVED, params2(p_text(id), p_flag(archived)))
}

/// Archives a session, or takes it out of the archive.
pub fn set_session_archived(db: &mut Db, id: &str, archived: bool) -> (r: Result<(), DbError>)
    ensures
        exists|n: Result<usize, DbError>|
            #[trigger] archived_stored(old(db)@, final(db)@, id@, archived, n) && match n {
                Ok(_) => r is Ok,
                Err(e) => r == Err::<(), DbError>(e),
            },
{
    match store_archived(db, id, archived) {
        Ok(_) => Ok(()),
        Err(e) => Err(e),
    }
}

pub const SQL_READ_UNARCHIVED_IDS: &'static str = "SELECT id FROM sessions WHERE repo_id = ?1 AND archived = 0";

/// The sessions of a repository that are not archived were read.
pub open spec fn unarchived_ids_read(
    pre: Trace,
    post: Trace,
    repo_id: Seq<char>,
    r: Result<Vec<String>, DbError>,
) -> bool {
    rows::listed(pre, post, SQL_READ_UNARCHIVED_IDS@, seq![Datum::Text(repo_id)], r)
}

fn read_unarchived_ids(db: &mut Db, repo_id: &str) -> (r: Result<Vec<String>, DbError>)
    ensures
        unarchived_ids_read(old(db)@, final(db)@, repo_id@, r),
{
    list(db, SQL_READ_UNARCHIVED_IDS, params1(p_text(repo_id)))
}

pub const SQL_ARCHIVE_REPO: &'static str = "UPDATE sessions SET archived = 1, archived_at = strftime('%s','now') \
         WHERE repo_id = ?1 AND archived = 0";

/// The sessions of a repository were archived.
pub open spec fn repo_archived(
    pre: Trace,
    post: Trace,
    repo_id: Seq<char>,
    r: Result<usize, DbError>,
) -> bool {
    rows::counted(pre, post, SQL_ARCHIVE_REPO@, seq![Datum::Text(repo_id)], r)
}

fn archive_repo(db: &mut Db, repo_id: &str) -> (r: Result<usize, DbError>)
    ensures
        repo_archived(old(db)@, final(db)@, repo_id@, r),
{
    run_counted(db, SQL_ARCHIVE_REPO, params1(p_text(repo_id)))
}

/// The sessions of a repository that were not archived were archived, and announced.
pub open spec fn repo_sessions_archived(
    pre: Trace,
    post: Trace,
    repo_id: Seq<char>,
    r: Result<usize, DbError>,
) -> bool {
    exists|t1: Trace, got: Result<Vec<String>, DbError>|
        {
            &&& #[trigger] unarchived_ids_read(pre, t1, repo_id, got)
            &&& match got {
                Ok(ids) => exists|t2: Trace, n: Result<usize, DbError>|
                    {
                        &&& #[trigger] repo_archived(t1, t2, repo_id, n)
                        &&& r == n
                        &&& match n {
                            Ok(_) => rows::announced(
                                t2,
                                post,
                                ids@.len() > 0,
                                Notice::SessionsArchived {
                                    ids: text::texts(ids@),
                                    archived: true,
                                },
                            ),
                            Err(_) => post == t2,
                        }
                    },
                Err(e) => post == t1 && r == Err::<usize, DbError>(e),
            }
        }
}

/// Archives the sessions of a repository that are not archived, and announces which; how many rows
/// that changed.
pub fn archive_sessions_for_repo(db: &mut Db, repo_id: &str) -> (r: Result<usize, DbError>)
    ensures
        repo_sessions_archived(old(db)@, final(db)@, repo_id@, r),
{
    let got = read_unarchived_ids(db, repo_id);
    let ghost t1 = db@;
    assert(unarchived_ids_read(old(db)@, t1, repo_id@, got));
    let ids = match got {
        Ok(ids) => ids,
        Err(e) => return Err(e),
    };
    let n = archive_repo(db, repo_id);
    let ghost t2 = db@;
    assert(repo_archived(t1, t2, repo_id@, n));
    match n {
        Ok(changed) => {
            if ids.len() > 0 {
                db.publish(Milestone::SessionsArchived { ids, archived: true });
            }
            Ok(changed)
        },
        Err(e) => Err(e),
    }
}

pub const SQL_READ_ARCHIVED_IDS: &'static str = "SELECT id FROM sessions WHERE repo_id = ?1 AND archived = 1";

/// The sessions of a repository that are archived were read.
pub open spec fn archived_ids_read(
    pre: Trace,
    post: Trace,
    repo_id: Seq<char>,
    r: Result<Vec<String>, DbError>,
) -> bool {
    rows::listed(pre, post, SQL_READ_ARCHIVED_IDS@, seq![Datum::Text(repo_id)], r)
}

fn read_archived_ids(db: &mut Db, repo_id: &str) -> (r: Result<Vec<String>, DbError>)
    ensures
        archived_ids_read(old(db)@, final(db)@, repo_id@, r),
{
    list(db, SQL_READ_ARCHIVED_IDS, params1(p_text(repo_id)))
}

pub const SQL_UNARCHIVE_REPO: &'static str = "UPDATE sessions SET archived = 0, archived_at = NULL \
         WHERE repo_id = ?1 AND archived = 1";

/// The sessions of a repository were taken out of the archive.
pub open spec fn repo_unarchived(
    pre: Trace,
    post: Trace,
    repo_id: Seq<char>,
    r: Result<usize, DbError>,
) -> bool {
    rows::counted(pre, post, SQL_UNARCHIVE_REPO@, seq![Datum::Text(repo_id)], r)
}

fn unarchive_repo(db: &mut Db, repo_id: &str) -> (r: Result<usize, DbError>)
    ensures
        repo_unarchived(old(db)@, final(db)@, repo_id@, r),
{
    run_counted(db, SQL_UNARCHIVE_REPO, params1(p_text(repo_id)))
}

/// The sessions of a repository that were archived were taken out of the archive, and announced.
pub open spec fn repo_sessions_unarchived(
    pre: Trace,
    post: Trace,
    repo_id: Seq<char>,
    r: Result<usize, DbError>,
) -> bool {
    exists|t1: Trace, got: Result<Vec<String>, DbError>|
        {
            &&& #[trigger] archived_ids_read(pre, t1, repo_id, got)
            &&& match got {
                Ok(ids) => exists|t2: Trace, n: Result<usize, DbError>|
                    {
                        &&& #[trigger] repo_unarchived(t1, t2, repo_id, n)
                        &&& r == n
                        &&& match n {
                            Ok(_) => rows::announced(
                                t2,
                                post,
                                ids@.len() > 0,
                                Notice::SessionsArchived {
                                    ids: text::texts(ids@),
                                    archived: false,
                                },
                            ),
                            Err(_) => post == t2,
                        }
                    },
                Err(e) => post == t1 && r == Err::<usize, DbError>(e),
            }
        }
}

/// Takes the sessions of a repository out of the archive, and announces which; how many rows that
/// changed.
pub fn unarchive_sessions_for_repo(db: &mut Db, repo_id: &str) -> (r: Result<usize, DbError>)
    ensures
        repo_sessions_unarchived(old(db)@, final(db)@, repo_id@, r),
{
    let got = read_archived_ids(db, repo_id);
    let ghost t1 = db@;
    assert(archived_ids_read(old(db)@, t1, repo_id@, got));
    let ids = match got {
        Ok(ids) => ids,
        Err(e) => return Err(e),
    };
    let n = unarchive_repo(db, repo_id);
    let ghost t2 = db@;
    assert(repo_unarchived(t1, t2, repo_id@, n));
    match n {
        Ok(changed) => {
            if ids.len() > 0 {
                db.publish(Milestone::SessionsArchived { ids, archived: false });
            }
            Ok(changed)
        },
        Err(e) => Err(e),
    }
}

/// Whether sessions are archived was stored for each of them, from the position `from` on; the
/// result is those of them that there are, after `found`.
pub open spec fn each_archived(
    pre: Trace,
    post: Trace,
    ids: Seq<Seq<char>>,
    from: nat,
    archived: bool,
    found: Seq<Seq<char>>,
    r: Result<Vec<String>, DbError>,
) -> bool
    decreases ids.len() - from,
{
    if from >= ids.len() {
        post == pre && (r matches Ok(v) && text::texts(v@) == found)
    } else {
        exists|mid: Trace, n: Result<usize, DbError>|
            {
                &&& #[trigger] archived_stored(pre, mid, ids[from as int], archived, n)
                &&& match n {
                    Ok(changed) => each_archived(
                        mid,
                        post,
                        ids,
                        from + 1,
                        archived,
                        if changed > 0 {
                            found.push(ids[from as int])
                        } else {
                            found
                        },
                        r,
                    ),
                    Err(e) => post == mid && r == Err::<Vec<String>, DbError>(e),
                }
            }
    }
}

fn archive_each(db: &mut Db, ids: &[String], archived: bool) -> (r: Result<Vec<String>, DbError>)
    ensures
        each_archived(
            old(db)@,
            final(db)@,
            text::texts(ids@),
            0,
            archived,
            Seq::empty(),
            r,
        ),
{
    let ghost all = text::texts(ids@);
    let mut found: Vec<String> = Vec::new();
    let mut i: usize = 0;
    assert(text::texts(found@) =~= Seq::<Seq<char>>::empty());
    while i < ids.len()
        invariant
            all == text::texts(ids@),
            i <= ids@.len(),
            forall|post: Trace, r: Result<Vec<String>, DbError>| #[trigger]
                each_archived(db@, post, all, i as nat, archived, text::texts(found@), r)
                    ==> each_archived(old(db)@, post, all, 0, archived, Seq::empty(), r),
        decreases ids.len() - i,
    {
        let ghost before = db@;
        let ghost known = text::texts(found@);
        let ghost at = i as nat;
        let n = store_archived(db, ids[i].as_str(), archived);
        assert(all[i as int] == ids@[i as int]@);
        assert(archived_stored(before, db@, all[i as int], archived, n));
        match n {
            Ok(changed) => {
                if changed > 0 {
                    found.push(ids[i].clone());
                    assert(text::texts(found@) =~= known.push(all[i as int]));
                }
            },
            Err(e) => {
                assert(each_archived(
                    before,
                    db@,
                    all,
                    at,
                    archived,
                    known,
                    Err::<Vec<String>, DbError>(e),
                ));
                return Err(e);
            },
        }
        i += 1;
        assert forall|post: Trace, r: Result<Vec<String>, DbError>| #[trigger]
            each_archived(db@, post, all, i as nat, archived, text::texts(found@), r) implies each_archived(
            old(db)@,
            post,
            all,
            0,
            archived,
            Seq::empty(),
            r,
        ) by {
            assert(i as nat == at + 1);
            assert(each_archived(before, post, all, at, archived, known, r));
        }
    }
    assert(each_archived(
        db@,
        db@,
        all,
        i as nat,
        archived,
        text::texts(found@),
        Ok::<Vec<String>, DbError>(found),
    ));
    Ok(found)
}

/// Sessions were archived, or taken out of the archive, in one transaction.
pub open spec fn archiving_transacted(
    pre: Trace,
    post: Trace,
    ids: Seq<Seq<char>>,
    archived: bool,
    r: Result<Vec<String>, DbError>,
) -> bool {
    tx::transacted(
        pre,
        post,
        |a: Trace, b: Trace, x: Result<Vec<String>, DbError>|
            each_archived(a, b, ids, 0, archived, Seq::empty(), x),
        r,
    )
}

fn archive_in_transaction(db: &mut Db, ids: &[String], archived: bool) -> (r: Result<
    Vec<String>,
    DbError,
>)
    ensures
        archiving_transacted(old(db)@, final(db)@, text::texts(ids@), archived, r),
{
    match begin(db) {
        Ok(()) => {},
        Err(e) => return Err(e),
    }
    let ghost opened = db@;
    let ghost all = text::texts(ids@);
    let ghost body = |a: Trace, b: Trace, x: Result<Vec<String>, DbError>|
        each_archived(a, b, all, 0, archived, Seq::empty(), x);
    let inner = archive_each(db, ids, archived);
    assert(body(opened, db@, inner));
    finish(db, inner)
}

/// The sessions that were archived, or taken out of the archive, were announced.
pub open spec fn archiving_told(
    mid: Trace,
    post: Trace,
    archived: bool,
    got: Result<Vec<String>, DbError>,
    r: Result<(), DbError>,
) -> bool {
    match got {
        Ok(changed) => r is Ok && rows::announced(
            mid,
            post,
            changed@.len() > 0,
            Notice::SessionsArchived { ids: text::texts(changed@), archived },
        ),
        Err(e) => post == mid && r == Err::<(), DbError>(e),
    }
}

/// Sessions were archived, or taken out of the archive, in one transaction, and those of them that
/// there are announced.
pub open spec fn sessions_archived(
    pre: Trace,
    post: Trace,
    ids: Seq<Seq<char>>,
    archived: bool,
    r: Result<(), DbError>,
) -> bool {
    exists|mid: Trace, got: Result<Vec<String>, DbError>|
        {
            &&& #[trigger] archiving_transacted(pre, mid, ids, archived, got)
            &&& archiving_told(mid, post, archived, got, r)
        }
}

/// Archives sessions, or takes them out of the archive, in one transaction, and announces those of
/// them that there are.
pub fn set_sessions_archived(db: &mut Db, ids: &[String], archived: bool) -> (r: Result<
    (),
    DbError,
>)
    ensures
        sessions_archived(old(db)@, final(db)@, text::texts(ids@), archived, r),
{
    let got = archive_in_transaction(db, ids, archived);
    let ghost mid = db@;
    assert(archiving_transacted(old(db)@, mid, text::texts(ids@), archived, got));
    match got {
        Ok(changed) => {
            if changed.len() > 0 {
                db.publish(Milestone::SessionsArchived { ids: changed, archived });
            }
            Ok(())
        },
        Err(e) => Err(e),
    }
}


/// An archiving is announced only after it was committed: the step before the milestone is the
/// commit, and where the archiving failed nothing is announced.
pub proof fn law_archiving_announced_after_commit(
    pre: Trace,
    post: Trace,
    ids: Seq<Seq<char>>,
    archived: bool,
    r: Result<(), DbError>,
)
    requires
        sessions_archived(pre, post, ids, archived, r),
    ensures
        post.last() is Published ==> r is Ok && post.drop_last().last() == tx::commitment(),
        r is Err ==> !(post.last() is Published),
{
    let (mid, got) = choose|mid: Trace, got: Result<Vec<String>, DbError>|
        {
            &&& #[trigger] archiving_transacted(pre, mid, ids, archived, got)
            &&& archiving_told(mid, post, archived, got, r)
        };
    tx::law_transaction_outcome(
        pre,
        mid,
        |a: Trace, b: Trace, x: Result<Vec<String>, DbError>|
            each_archived(a, b, ids, 0, archived, Seq::empty(), x),
        got,
    );
    assert(post.last() is Published ==> post.drop_last() =~= mid);
}

} // verus!
