//! What is stored of sessions, messages and agents, what is told of it, and what waits to be told.
use crate::agents;
use crate::agents::{BuiltinAgent, SessionAgentConfig};
use crate::changes;
use crate::changes::datum_of;
use crate::engine;
use crate::engine::{Datum, DbError, Reply, Request, Step, Trace};
use crate::events;
use crate::events::Notice;
use crate::json;
use crate::lifecycle;
use crate::messages;
use crate::messages::{Message, MessageRow, MsgCompletedMilestone};
use crate::blocks::Block;
use crate::migration;
use crate::rows;
use crate::rows::FromRow;
use crate::selection;
use crate::sessions;
use crate::text;
use crate::trace;
use crate::tx;
use vstd::prelude::*;

verus! {

/// The request for one statement with values.
pub open spec fn with_values(statement: Seq<char>, values: Seq<Datum>) -> Request {
    Request::Execute { sql: statement, params: values }
}

/// A session that was made is stored as given, and told with the name that its repository is shown to
/// have; that none is shown keeps nothing back.
pub proof fn law_created_session_is_told(
    pre: Trace,
    post: Trace,
    id: Seq<char>,
    title: Seq<char>,
    repo_id: Seq<char>,
    namespace_id: Seq<char>,
)
    requires
        sessions::session_created(
            pre,
            post,
            id,
            title,
            repo_id,
            namespace_id,
            Ok::<(), DbError>(()),
        ),
    ensures
        post.len() == pre.len() + 3,
        changes::runs(
            post[pre.len() as int],
            "INSERT INTO sessions (id, title, repo_id, namespace_id, created_at) VALUES (?1, ?2, ?3, ?4, strftime('%s','now'))"@,
            seq![
                Datum::Text(id),
                Datum::Text(title),
                Datum::Text(repo_id),
                Datum::Text(namespace_id),
            ],
        ),
        changes::asks_first(
            post[pre.len() + 1int],
            "SELECT name FROM repos WHERE id = ?1"@,
            seq![Datum::Text(repo_id)],
        ),
        post.last() == Step::Published(
            Notice::SessionCreated {
                id,
                title,
                repo_id,
                namespace_id,
                repo_name: match post[pre.len() + 1int]->reply {
                    Reply::Row(Some(row)) => Some(row[0]->Text_0),
                    _ => None,
                },
            },
        ),
{
    let r = Ok::<(), DbError>(());
    let (mid, done) = choose|mid: Trace, done: Result<(), DbError>|
        {
            &&& #[trigger] sessions::session_inserted(
                pre,
                mid,
                id,
                title,
                repo_id,
                namespace_id,
                done,
            )
            &&& match done {
                Ok(()) => exists|named: Trace, got: Result<Option<String>, DbError>|
                    {
                        &&& #[trigger] sessions::repo_name_read(mid, named, repo_id, got)
                        &&& post == named.push(
                            Step::Published(
                                Notice::SessionCreated {
                                    id,
                                    title,
                                    repo_id,
                                    namespace_id,
                                    repo_name: sessions::name_found(got),
                                },
                            ),
                        )
                        &&& r is Ok
                    },
                Err(e) => post == mid && r == done,
            }
        };
    let (named, got) = choose|named: Trace, got: Result<Option<String>, DbError>|
        {
            &&& #[trigger] sessions::repo_name_read(mid, named, repo_id, got)
            &&& post == named.push(
                Step::Published(
                    Notice::SessionCreated {
                        id,
                        title,
                        repo_id,
                        namespace_id,
                        repo_name: sessions::name_found(got),
                    },
                ),
            )
            &&& r is Ok
        };
    assert(mid[pre.len() as int] == mid.last());
    assert(post[pre.len() as int] == mid[pre.len() as int]);
    assert(named[pre.len() + 1int] == named.last());
    assert(post[pre.len() + 1int] == named[pre.len() + 1int]);
}

/// A session that is deleted softly is marked as deleted; sessions that are not deleted no longer
/// continue it, and no session points from or to it: all in one transaction.
pub proof fn law_soft_deletion_unlinks_a_session(
    pre: Trace,
    post: Trace,
    id: Seq<char>,
)
    requires
        tx::transacted(
            pre,
            post,
            |a: Trace, b: Trace, x: Result<(), DbError>|
                tx::scripted(a, b, sessions::soft_deletion(id), x),
            Ok::<(), DbError>(()),
        ),
    ensures
        post[pre.len() as int] == tx::opening(),
        migration::ends_with(
            post.drop_last(),
            pre.len() + 1int,
            seq![
                with_values(
                    "UPDATE sessions SET deleted_at = strftime('%s','now') WHERE id = ?1"@,
                    seq![Datum::Text(id)],
                ),
                with_values(
                    "UPDATE sessions
            SET parent_session_id = NULL
          WHERE parent_session_id = ?1 AND deleted_at IS NULL"@,
                    seq![Datum::Text(id)],
                ),
                with_values(
                    "UPDATE sessions
            SET continued_to_session_id = NULL
          WHERE id = ?1 OR continued_to_session_id = ?1"@,
                    seq![Datum::Text(id)],
                ),
            ],
        ),
        post.last() == tx::commitment(),
{
    lemma_script_in_transaction(pre, post, sessions::soft_deletion(id));
}

proof fn lemma_script_in_transaction(pre: Trace, post: Trace, script: Seq<Request>)
    requires
        tx::transacted(
            pre,
            post,
            |a: Trace, b: Trace, x: Result<(), DbError>| tx::scripted(a, b, script, x),
            Ok::<(), DbError>(()),
        ),
    ensures
        post.len() > 0,
        post[pre.len() as int] == tx::opening(),
        migration::ends_with(post.drop_last(), pre.len() + 1int, script),
        post.last() == tx::commitment(),
{
    let done = Ok::<(), DbError>(());
    let body = |a: Trace, b: Trace, x: Result<(), DbError>| tx::scripted(a, b, script, x);
    tx::law_transaction_outcome(pre, post, body, done);
    let opened = pre.push(tx::opening());
    let inner = choose|inner: Trace|
        #[trigger] body(opened, inner, done) && post == inner.push(tx::commitment());
    assert(tx::scripted(opened, inner, script, done));
    migration::lemma_ends_with(opened, inner, script);
    assert(post.drop_last() =~= inner);
    assert(inner[pre.len() as int] == opened[pre.len() as int]);
    assert(post[pre.len() as int] == inner[pre.len() as int]);
}

/// A session that is restored is no longer marked as deleted, and where it continued another one, that
/// one points to it again.
pub proof fn law_restored_session_is_pointed_to(
    mid: Trace,
    post: Trace,
    id: Seq<char>,
    parent_id: Option<Seq<char>>,
)
    requires
        tx::scripted(mid, post, sessions::restoration(id, parent_id), Ok::<(), DbError>(())),
    ensures
        ({
            let unmark = with_values(
                "UPDATE sessions SET deleted_at = NULL WHERE id = ?1"@,
                seq![Datum::Text(id)],
            );
            migration::ends_with(
                post,
                mid.len() as int,
                match parent_id {
                    Some(parent) => seq![
                        unmark,
                        with_values(
                            "UPDATE sessions SET continued_to_session_id = ?2 WHERE id = ?1"@,
                            seq![Datum::Text(parent), Datum::Text(id)],
                        ),
                    ],
                    None => seq![unmark],
                },
            )
        }),
{
    migration::lemma_ends_with(mid, post, sessions::restoration(id, parent_id));
}

/// A session is restored exactly as what it continued allows: what was asked of that decides, and a
/// parent that is fit for it is made to point to it again.
pub proof fn law_session_is_restored_to_its_parent(
    pre: Trace,
    post: Trace,
    id: Seq<char>,
) -> (checked: (Trace, Option<String>))
    requires
        sessions::restored(pre, post, id, Ok::<(), DbError>(())),
    ensures
        lifecycle::lineage_is_judged(
            checked.0,
            pre.len() as int,
            id,
            Ok::<Option<String>, DbError>(checked.1),
        ),
        post.take(checked.0.len() as int) == checked.0,
        post.len() == checked.0.len() + match checked.1 {
            Some(_) => 2int,
            None => 1int,
        },
        changes::runs(
            post[checked.0.len() as int],
            "UPDATE sessions SET deleted_at = NULL WHERE id = ?1"@,
            seq![Datum::Text(id)],
        ),
        checked.1 matches Some(parent) ==> changes::runs(
            post.last(),
            "UPDATE sessions SET continued_to_session_id = ?2 WHERE id = ?1"@,
            seq![Datum::Text(parent@), Datum::Text(id)],
        ),
{
    let done = Ok::<(), DbError>(());
    let (mid, parent) = choose|mid: Trace, parent: Result<Option<String>, DbError>|
        {
            &&& #[trigger] sessions::lineage_checked(pre, mid, id, parent)
            &&& match parent {
                Ok(p) => tx::scripted(
                    mid,
                    post,
                    sessions::restoration(id, events::opt(p)),
                    done,
                ),
                Err(e) => post == mid && done == Err::<(), DbError>(e),
            }
        };
    let p = parent->Ok_0;
    lifecycle::law_lineage_decides_whether_to_restore(pre, mid, id, parent);
    let script = sessions::restoration(id, events::opt(p));
    migration::lemma_ends_with(mid, post, script);
    assert(post[mid.len() + 0int] == post[mid.len() as int]);
    assert(script[0] == with_values(
        "UPDATE sessions SET deleted_at = NULL WHERE id = ?1"@,
        seq![Datum::Text(id)],
    ));
    if let Some(parent_id) = p {
        assert(script[1] == with_values(
            "UPDATE sessions SET continued_to_session_id = ?2 WHERE id = ?1"@,
            seq![Datum::Text(parent_id@), Datum::Text(id)],
        ));
        assert(post[mid.len() + 1int] == post.last());
    }
    (mid, p)
}

/// To archive sessions, or to take them out of the archive, is told after the commit, of those sessions
/// that there are and of no others, in the order in which they are given.
pub proof fn law_archived_sessions_are_told(
    pre: Trace,
    post: Trace,
    ids: Seq<Seq<char>>,
    archived: bool,
) -> (counts: Seq<nat>)
    requires
        sessions::sessions_archived(pre, post, ids, archived, Ok::<(), DbError>(())),
    ensures
        post[pre.len() as int] == tx::opening(),
        lifecycle::stores_each(post, pre.len() + 1int, ids, 0, archived, counts),
        post[pre.len() + 1 + counts.len() as int] == tx::commitment(),
        ({
            let told = lifecycle::changed(ids, 0, counts);
            if told.len() > 0 {
                &&& post.len() == pre.len() + counts.len() + 3
                &&& post.last() == Step::Published(
                    Notice::SessionsArchived { ids: told, archived },
                )
            } else {
                post.len() == pre.len() + counts.len() + 2
            }
        }),
{
    let done = Ok::<(), DbError>(());
    let (mid, got) = choose|mid: Trace, got: Result<Vec<String>, DbError>|
        {
            &&& #[trigger] sessions::archiving_transacted(pre, mid, ids, archived, got)
            &&& sessions::archiving_told(mid, post, archived, got, done)
        };
    let body = |a: Trace, b: Trace, x: Result<Vec<String>, DbError>|
        sessions::each_archived(a, b, ids, 0, archived, Seq::empty(), x);
    tx::law_transaction_outcome(pre, mid, body, got);
    let opened = pre.push(tx::opening());
    let inner = choose|inner: Trace|
        #[trigger] body(opened, inner, got) && mid == inner.push(tx::commitment());
    let v = got->Ok_0;
    assert(sessions::each_archived(opened, inner, ids, 0, archived, Seq::empty(), got));
    let counts = lifecycle::law_each_session_is_archived(
        opened,
        inner,
        ids,
        0,
        archived,
        Seq::empty(),
        v,
    );
    let told = lifecycle::changed(ids, 0, counts);
    assert(text::texts(v@) =~= told);
    trace::lemma_step_stays(opened, inner, pre.len() as int);
    assert(post[pre.len() as int] == inner[pre.len() as int]);
    let start = pre.len() + 1int;
    assert forall|k: int| 0 <= k < counts.len() implies post[start + k] == (Step::Asked {
        request: Request::Execute {
            sql: "UPDATE sessions SET archived = ?2, archived_at = CASE WHEN ?2 THEN strftime('%s','now') ELSE NULL END WHERE id = ?1"@,
            params: seq![
                Datum::Text(ids[0 + k]),
                Datum::Integer(
                    if archived {
                        1
                    } else {
                        0
                    },
                ),
            ],
        },
        reply: Reply::Changed(#[trigger] counts[k]),
    }) by {
        assert(inner[start + k] == post[start + k]);
    }
    counts
}

/// A message is told exactly where it was stored, which is where its statement is shown to have changed
/// something; it is told as it was given, with the number that it was stored under.
pub proof fn law_message_is_stored_once(
    pre: Trace,
    post: Trace,
    session_id: Seq<char>,
    role: Seq<char>,
    json: Seq<char>,
    engine: Option<Seq<char>>,
    agent_id: Option<Seq<char>>,
    agent_name_snapshot: Option<Seq<char>>,
    dedup_key: Seq<char>,
    told: Option<MsgCompletedMilestone>,
)
    requires
        messages::message_appended(
            pre,
            post,
            session_id,
            role,
            json,
            engine,
            agent_id,
            agent_name_snapshot,
            dedup_key,
            Ok::<Option<MsgCompletedMilestone>, DbError>(told),
        ),
    ensures
        changes::runs(
            post[pre.len() as int],
            "INSERT OR IGNORE INTO messages (session_id, role, content, engine, agent_id, agent_name_snapshot, dedup_key, created_at) VALUES (?1, ?2, ?3, ?4, ?5, ?6, ?7, strftime('%s','now'))"@,
            seq![
                Datum::Text(session_id),
                Datum::Text(role),
                Datum::Text(json),
                datum_of(engine),
                datum_of(agent_id),
                datum_of(agent_name_snapshot),
                Datum::Text(dedup_key),
            ],
        ),
        post[pre.len() + 1int] matches Step::Asked {
            request: Request::Changes,
            reply: Reply::Count(n),
        } && if n == 0 {
            told is None && post.len() == pre.len() + 2
        } else {
            &&& post.len() == pre.len() + 3
            &&& post.last() matches Step::Asked {
                request: Request::LastInsertRowid,
                reply: Reply::RowId(id),
            }
            &&& told matches Some(m)
            &&& m.session_id@ == session_id
            &&& m.dedup_key@ == dedup_key
            &&& m.message_id == id
            &&& m.role@ == role
            &&& m.blocks@ == json
            &&& datum_of(events::opt(m.agent_name_snapshot)) == datum_of(agent_name_snapshot)
        },
{
    let r = Ok::<Option<MsgCompletedMilestone>, DbError>(told);
    let (mid, fresh) = choose|mid: Trace, fresh: Result<bool, DbError>|
        {
            &&& #[trigger] messages::message_stored_once(
                pre,
                mid,
                session_id,
                role,
                json,
                engine,
                agent_id,
                agent_name_snapshot,
                dedup_key,
                fresh,
            )
            &&& match fresh {
                Ok(true) => {
                    &&& rows::asked(mid, post, Request::LastInsertRowid)
                    &&& rows::reply_to(post) matches Reply::RowId(message_id)
                    &&& r matches Ok(Some(milestone))
                    &&& milestone@ == (Notice::MessageCompleted {
                        session_id,
                        dedup_key,
                        message_id,
                        role,
                        blocks: json,
                        agent_name_snapshot,
                    })
                },
                Ok(false) => post == mid && r == Ok::<Option<MsgCompletedMilestone>, DbError>(
                    None,
                ),
                Err(e) => post == mid && r == Err::<Option<MsgCompletedMilestone>, DbError>(e),
            }
        };
    let p = pre.len() as int;
    assert(mid.drop_last()[p] == mid.drop_last().last());
    assert(mid[p] == mid.drop_last()[p]);
    assert(mid[p + 1] == mid.last());
    assert(post[p] == mid[p]);
    assert(post[p + 1] == mid[p + 1]);
}

/// Each of some reports is marked as delivered, in one transaction, unless it is marked already.
pub proof fn law_each_report_is_marked(
    pre: Trace,
    post: Trace,
    session_id: Seq<char>,
    message_ids: Seq<i64>,
)
    requires
        tx::transacted(
            pre,
            post,
            |a: Trace, b: Trace, x: Result<(), DbError>|
                tx::scripted(a, b, messages::delivery_marks(session_id, message_ids), x),
            Ok::<(), DbError>(()),
        ),
    ensures
        post.len() == pre.len() + message_ids.len() + 2,
        post[pre.len() as int] == tx::opening(),
        forall|i: int|
            0 <= i < message_ids.len() ==> changes::runs(
                post[pre.len() + 1 + i],
                "UPDATE member_report_delivery
                SET delivered_at = strftime('%s','now')
              WHERE session_id = ?1 AND message_id = ?2 AND delivered_at IS NULL"@,
                seq![Datum::Text(session_id), Datum::Integer(#[trigger] message_ids[i])],
            ),
        post.last() == tx::commitment(),
{
    let script = messages::delivery_marks(session_id, message_ids);
    lemma_script_in_transaction(pre, post, script);
    assert forall|i: int| 0 <= i < message_ids.len() implies changes::runs(
        post[pre.len() + 1 + i],
        "UPDATE member_report_delivery
                SET delivered_at = strftime('%s','now')
              WHERE session_id = ?1 AND message_id = ?2 AND delivered_at IS NULL"@,
        seq![Datum::Text(session_id), Datum::Integer(#[trigger] message_ids[i])],
    ) by {
        assert(post.drop_last()[pre.len() + 1int + i] == post[pre.len() + 1 + i]);
        assert(script[i] == with_values(
            messages::SQL_MARK_DELIVERED@,
            seq![Datum::Text(session_id), Datum::Integer(message_ids[i])],
        ));
    }
}

/// The messages of a session are those that the database shows, each of them with what is shown of it;
/// their contents are what `decode` reads in the contents that are shown.
pub proof fn law_messages_are_those_shown<D: Fn(&str) -> Option<Vec<Block>>>(
    pre: Trace,
    post: Trace,
    decode: D,
    session_id: Seq<char>,
    v: Vec<Message>,
)
    requires
        messages::messages_listed(
            pre,
            post,
            decode,
            session_id,
            Ok::<Vec<Message>, DbError>(v),
        ),
    ensures
        post.len() == pre.len() + 1,
        post.last() matches Step::Asked {
            request: Request::All { sql, params, .. },
            reply: Reply::Rows(found),
        } && {
            &&& sql
                == "SELECT id, role, content, engine, agent_id, agent_name_snapshot, created_at FROM messages WHERE session_id = ?1 ORDER BY id ASC"@
            &&& params == seq![Datum::Text(session_id)]
            &&& found.len() == v@.len()
            &&& forall|i: int|
                0 <= i < v@.len() ==> (found[i] matches Ok(row) && {
                    let m = #[trigger] v@[i];
                    &&& row[0] matches Datum::Text(content)
                    &&& messages::decoded(decode, content, m.content@)
                    &&& row[1] == Datum::Integer(m.id)
                    &&& row[2] == Datum::Text(m.role@)
                    &&& row[3] == datum_of(events::opt(m.engine))
                    &&& row[4] == datum_of(events::opt(m.agent_id))
                    &&& row[5] == datum_of(events::opt(m.agent_name_snapshot))
                    &&& row[6] == Datum::Integer(m.created_at)
                })
        },
{
    let r = Ok::<Vec<Message>, DbError>(v);
    let got = choose|got: Result<Vec<MessageRow>, DbError>|
        {
            &&& #[trigger] messages::messages_read(pre, post, session_id, got)
            &&& match got {
                Ok(rows) => r matches Ok(messages) && messages::are_messages(
                    decode,
                    rows@,
                    messages@,
                ),
                Err(e) => r == Err::<Vec<Message>, DbError>(e),
            }
        };
    let read = got->Ok_0@;
    let found = post.last()->reply->Rows_0;
    assert forall|i: int| 0 <= i < v@.len() implies (found[i] matches Ok(row) && {
        let m = #[trigger] v@[i];
        &&& row[0] matches Datum::Text(content)
        &&& messages::decoded(decode, content, m.content@)
        &&& row[1] == Datum::Integer(m.id)
        &&& row[2] == Datum::Text(m.role@)
        &&& row[3] == datum_of(events::opt(m.engine))
        &&& row[4] == datum_of(events::opt(m.agent_id))
        &&& row[5] == datum_of(events::opt(m.agent_name_snapshot))
        &&& row[6] == Datum::Integer(m.created_at)
    }) by {
        assert(found[i] matches Ok(row) && read[i].is_row(row));
        assert(messages::is_message(decode, read[i], v@[i]));
    }
}

/// What a step tells.
pub open spec fn told_by(step: Step) -> Option<Notice> {
    match step {
        Step::Published(notice) => Some(notice),
        _ => None,
    }
}

/// Where what waits to be told begins: at the start, or after the last handing over.
pub open spec fn is_since(all: Trace, start: int) -> bool {
    &&& 0 <= start <= all.len()
    &&& start > 0 ==> all[start - 1] is Drained
    &&& forall|k: int| start <= k < all.len() ==> !(#[trigger] all[k] is Drained)
}

/// What waits to be told is all that was told since the last handing over, in order.
pub proof fn law_news_wait_until_handed_over(all: Trace) -> (since: (int, Seq<int>))
    ensures
        is_since(all, since.0),
        selection::is_made_of(
            all.skip(since.0),
            |step: Step| told_by(step),
            engine::pending(all),
            since.1,
        ),
    decreases all.len(),
{
    let made = |step: Step| told_by(step);
    if all.len() == 0 {
        selection::lemma_made_of_none(all.skip(0), made);
        assert(engine::pending(all) =~= Seq::<Notice>::empty());
        (0, Seq::empty())
    } else if all.last() is Drained {
        let rest = all.skip(all.len() as int);
        selection::lemma_made_of_none(rest, made);
        (all.len() as int, Seq::empty())
    } else {
        let fewer = all.drop_last();
        let (start, places) = law_news_wait_until_handed_over(fewer);
        let rest = all.skip(start);
        assert(rest.drop_last() =~= fewer.skip(start));
        assert(rest.last() == all.last());
        assert forall|k: int| start <= k < all.len() implies !(#[trigger] all[k] is Drained) by {
            if k < fewer.len() {
                assert(fewer[k] == all[k]);
            }
        }
        if start > 0 {
            assert(fewer[start - 1] == all[start - 1]);
        }
        selection::lemma_made_of_one_more(rest, made, engine::pending(fewer), places);
        match told_by(all.last()) {
            Some(_) => (start, places.push(rest.len() - 1)),
            None => (start, places),
        }
    }
}

/// Whether a builtin agent was seeded at a place: where it is shown not to be there it is stored, native
/// and enabled, at its position; where it is, only its two capabilities are set again.
pub open spec fn seeds_agent(all: Trace, at: int, agent: BuiltinAgent, position: int) -> bool {
    &&& changes::asks_first(all[at], agents::SQL_GET_AGENT@, seq![Datum::Text(agent.id@)])
    &&& !changes::is_refused(all[at + 1])
    &&& all[at]->reply matches Reply::Row(found)
    &&& if found is None {
        &&& all[at + 1] matches Step::Asked { request: Request::Execute { sql, params }, .. }
        &&& sql == agents::SQL_UPSERT_AGENT@
        &&& params.len() == 29
        &&& params[0] == Datum::Text(agent.id@)
        &&& params[1] == Datum::Text(agent.name@)
        &&& params[2] == Datum::Text("native"@)
        &&& params[3] == Datum::Text(agent.id@)
        &&& params[11] == Datum::Text("auto"@)
        &&& params[20] == Datum::Text(agent.cap_reasoning@)
        &&& params[22] == datum_of(events::opt(agent.cap_lead))
        &&& params[23] == Datum::Integer(0)
        &&& params[24] == Datum::Integer(1)
        &&& params[25] == Datum::Integer(1)
        &&& params[26] matches Datum::Integer(order)
        &&& order == position
    } else {
        changes::runs(
            all[at + 1],
            "UPDATE agents SET cap_lead = ?2, cap_reasoning = ?3 WHERE id = ?1 AND is_builtin = 1"@,
            seq![
                Datum::Text(agent.id@),
                datum_of(events::opt(agent.cap_lead)),
                Datum::Text(agent.cap_reasoning@),
            ],
        )
    }
}

/// Every builtin agent is seeded, each at its position in the order.
pub proof fn law_every_builtin_agent_is_seeded(
    pre: Trace,
    post: Trace,
    builtins: Seq<BuiltinAgent>,
    from: nat,
    now: i64,
)
    requires
        from <= builtins.len() <= 1000,
        agents::builtins_seeded(pre, post, builtins, from, now, Ok::<(), DbError>(())),
    ensures
        trace::extends(pre, post),
        post.len() == pre.len() + 2 * (builtins.len() - from),
        forall|i: int|
            from <= i < builtins.len() ==> seeds_agent(
                post,
                pre.len() + 2 * (i - from),
                #[trigger] builtins[i],
                i,
            ),
    decreases builtins.len() - from,
{
    let done = Ok::<(), DbError>(());
    if from >= builtins.len() {
        assert(post.take(pre.len() as int) =~= pre);
    } else {
        let agent = builtins[from as int];
        let (mid, one) = choose|mid: Trace, one: Result<(), DbError>|
            {
                &&& #[trigger] agents::builtin_seeded(
                    pre,
                    mid,
                    agent,
                    from as i64,
                    now,
                    one,
                )
                &&& agents::seeded_on(mid, post, builtins, from, now, one, done)
            };
        let (read, got) = choose|
            read: Trace,
            got: Result<Option<agents::AgentProfile>, DbError>,
        |
            {
                &&& #[trigger] agents::agent_read(pre, read, agent.id@, got)
                &&& agents::seeded_as_found(read, mid, agent, from as i64, now, got, one)
            };
        law_every_builtin_agent_is_seeded(mid, post, builtins, from + 1, now);
        let p = pre.len() as int;
        assert(read[p] == read.last());
        assert(mid[p] == read[p]);
        assert(mid[p + 1] == mid.last());
        trace::lemma_step_stays(mid, post, p);
        trace::lemma_step_stays(mid, post, p + 1);
        assert(seeds_agent(post, p, agent, from as int));
        assert forall|i: int| from <= i < builtins.len() implies seeds_agent(
            post,
            p + 2 * (i - from),
            #[trigger] builtins[i],
            i,
        ) by {
            if i > from {
                assert(mid.len() + 2 * (i - (from + 1)) == p + 2 * (i - from));
            }
        }
        assert(mid.take(p) =~= pre);
        trace::lemma_extends_further(pre, mid, post);
    }
}

/// Whether a step looks an agent up.
pub open spec fn looks_up_agent(step: Step, id: Seq<char>) -> bool {
    changes::asks_first(step, agents::SQL_GET_AGENT@, seq![Datum::Text(id)])
}

proof fn lemma_members_looked_up(
    pre: Trace,
    post: Trace,
    ids: Seq<Seq<char>>,
    from: nat,
    r: Result<(), DbError>,
)
    requires
        from <= ids.len(),
        agents::members_required(pre, post, ids, from, r),
        r is Ok,
    ensures
        trace::extends(pre, post),
        post.len() == pre.len() + (ids.len() - from),
        forall|i: int|
            from <= i < ids.len() ==> looks_up_agent(
                post[pre.len() + (i - from)],
                #[trigger] ids[i],
            ),
    decreases ids.len() - from,
{
    if from >= ids.len() {
        assert(post.take(pre.len() as int) =~= pre);
    } else {
        let id = ids[from as int];
        let (mid, one) = choose|mid: Trace, one: Result<(), DbError>|
            {
                &&& #[trigger] agents::enabled_required(
                    pre,
                    mid,
                    id,
                    agents::disabled_member(id),
                    one,
                )
                &&& agents::required_on(mid, post, ids, from, one, r)
            };
        lemma_members_looked_up(mid, post, ids, from + 1, r);
        let p = pre.len() as int;
        assert(mid[p] == mid.last());
        assert(looks_up_agent(mid[p], id));
        trace::lemma_step_stays(mid, post, p);
        assert forall|i: int| from <= i < ids.len() implies looks_up_agent(
            post[p + (i - from)],
            #[trigger] ids[i],
        ) by {
            if i > from {
                assert(mid.len() + (i - (from + 1)) == p + (i - from));
            }
        }
        assert(mid.take(p) =~= pre);
        trace::lemma_extends_further(pre, mid, post);
    }
}

/// A configuration that is set is that of the session, lead and members that were given: the session
/// is looked up, then its lead if it has one, then each of its members, and what is stored is the lead
/// and the members as a list.
pub proof fn law_config_is_set_as_given(
    pre: Trace,
    post: Trace,
    session_id: Seq<char>,
    lead: Option<Seq<char>>,
    members: Seq<Seq<char>>,
    config: SessionAgentConfig,
)
    requires
        agents::config_set(
            pre,
            post,
            session_id,
            lead,
            members,
            Ok::<SessionAgentConfig, DbError>(config),
        ),
    ensures
        ({
            let p = pre.len() as int;
            let first = if lead is Some {
                p + 2
            } else {
                p + 1
            };
            &&& changes::asks_first(
                post[p],
                "SELECT 1 FROM sessions WHERE id = ?1 LIMIT 1"@,
                seq![Datum::Text(session_id)],
            )
            &&& lead matches Some(id) ==> looks_up_agent(post[p + 1], id)
            &&& forall|i: int|
                0 <= i < members.len() ==> looks_up_agent(post[first + i], #[trigger] members[i])
            &&& post.len() == first + members.len() + 1
            &&& changes::runs(
                post.last(),
                "INSERT INTO session_agent_configs (session_id, lead_agent_id, member_agent_ids)
         VALUES (?1, ?2, ?3)
         ON CONFLICT(session_id) DO UPDATE SET
            lead_agent_id = excluded.lead_agent_id,
            member_agent_ids = excluded.member_agent_ids"@,
                seq![
                    Datum::Text(session_id),
                    datum_of(lead),
                    Datum::Text(json::string_list_printed(members)),
                ],
            )
            &&& config.session_id@ == session_id
            &&& datum_of(events::opt(config.lead_agent_id)) == datum_of(lead)
            &&& text::texts(config.member_agent_ids@) == members
        }),
{
    let r = Ok::<SessionAgentConfig, DbError>(config);
    let (t1, r1) = choose|t1: Trace, r1: Result<(), DbError>|
        {
            &&& #[trigger] agents::session_required(pre, t1, session_id, r1)
            &&& agents::lead_if_there(t1, post, session_id, lead, members, r1, r)
        };
    assert(agents::after_session(t1, post, session_id, lead, members, r));
    let (t2, r2) = choose|t2: Trace, r2: Result<(), DbError>|
        {
            &&& #[trigger] agents::lead_required(t1, t2, lead, r2)
            &&& agents::members_if_fit(t2, post, session_id, lead, members, r2, r)
        };
    assert(agents::after_lead(t2, post, session_id, lead, members, r));
    let (t3, r3) = choose|t3: Trace, r3: Result<(), DbError>|
        {
            &&& #[trigger] agents::members_required(t2, t3, members, 0, r3)
            &&& agents::stored_if_fit(t3, post, session_id, lead, members, r3, r)
        };
    assert(r3 is Ok);
    lemma_members_looked_up(t2, t3, members, 0, r3);
    let p = pre.len() as int;
    assert(t1[p] == t1.last());
    assert(t2[p] == t1[p]);
    if lead is Some {
        assert(t2[p + 1] == t2.last());
    }
    trace::lemma_step_stays(t2, t3, p);
    if lead is Some {
        trace::lemma_step_stays(t2, t3, p + 1);
        assert(post[p + 1] == t3[p + 1]);
    }
    assert(post[p] == t3[p]);
    assert forall|i: int| 0 <= i < members.len() implies looks_up_agent(
        post[t2.len() + i],
        #[trigger] members[i],
    ) by {
        assert(post[t2.len() + i] == t3[t2.len() + (i - 0)]);
    }
}

/// Whether an error is the violation of a rule that a text reports.
pub open spec fn reports(r: Result<(), DbError>, said: Seq<char>) -> bool {
    r matches Err(DbError::Constraint(s)) && s@ == said
}

/// An agent that is to work on a session is refused exactly where it is shown not to be there or to be
/// disabled, and which of both it is is said.
pub proof fn law_unfit_agent_is_refused(
    pre: Trace,
    post: Trace,
    id: Seq<char>,
    disabled: Seq<char>,
    r: Result<(), DbError>,
)
    requires
        agents::enabled_required(pre, post, id, disabled, r),
    ensures
        post.len() == pre.len() + 1,
        looks_up_agent(post.last(), id),
        match post.last()->reply {
            Reply::Row(None) => reports(r, "agent "@ + id + " does not exist"@),
            Reply::Row(Some(row)) => row[25] matches Datum::Integer(enabled) ==> if enabled != 0 {
                r is Ok
            } else {
                reports(r, disabled)
            },
            _ => r is Err,
        },
{
}

/// A session that is renamed gets the title, and that is told exactly where there is such a session.
pub proof fn law_renamed_session_is_told(pre: Trace, post: Trace, id: Seq<char>, title: Seq<char>)
    requires
        sessions::session_renamed(pre, post, id, title, Ok::<(), DbError>(())),
    ensures
        changes::runs(
            post[pre.len() as int],
            "UPDATE sessions SET title = ?2 WHERE id = ?1"@,
            seq![Datum::Text(id), Datum::Text(title)],
        ),
        post[pre.len() as int]->reply matches Reply::Changed(n) && if n == 0 {
            post.len() == pre.len() + 1
        } else {
            &&& post.len() == pre.len() + 2
            &&& post.last() == Step::Published(Notice::SessionRenamed { id, title })
        },
{
    let r = Ok::<(), DbError>(());
    let (mid, n) = choose|mid: Trace, n: Result<usize, DbError>|
        {
            &&& #[trigger] sessions::title_stored(pre, mid, id, title, n)
            &&& match n {
                Ok(changed) => r is Ok && rows::announced(
                    mid,
                    post,
                    changed > 0,
                    Notice::SessionRenamed { id, title },
                ),
                Err(e) => post == mid && r == Err::<(), DbError>(e),
            }
        };
    assert(mid[pre.len() as int] == mid.last());
    assert(post[pre.len() as int] == mid[pre.len() as int]);
}

/// Whether a step shows the ids of sessions.
pub open spec fn shows_ids(
    step: Step,
    query: Seq<char>,
    repo_id: Seq<char>,
    ids: Seq<Seq<char>>,
) -> bool {
    &&& step matches Step::Asked {
        request: Request::All { sql, params, .. },
        reply: Reply::Rows(found),
    }
    &&& sql == query
    &&& params == seq![Datum::Text(repo_id)]
    &&& found.len() == ids.len()
    &&& forall|i: int|
        0 <= i < found.len() ==> (#[trigger] found[i] matches Ok(row) && row[0] == Datum::Text(
            ids[i],
        ))
}

/// Whether a statement for a repository was run at a place, a number of rows changed by it, and the
/// sessions that were shown, if there are any, told.
pub open spec fn tells_sessions(
    all: Trace,
    at: int,
    statement: Seq<char>,
    repo_id: Seq<char>,
    ids: Seq<Seq<char>>,
    archived: bool,
    n: usize,
) -> bool {
    &&& changes::runs(all[at], statement, seq![Datum::Text(repo_id)])
    &&& all[at]->reply == Reply::Changed(n as nat)
    &&& if ids.len() == 0 {
        all.len() == at + 1
    } else {
        &&& all.len() == at + 2
        &&& all[at + 1] == Step::Published(Notice::SessionsArchived { ids, archived })
    }
}

proof fn lemma_shows_ids(
    pre: Trace,
    mid: Trace,
    query: Seq<char>,
    repo_id: Seq<char>,
    v: Vec<String>,
)
    requires
        rows::listed(
            pre,
            mid,
            query,
            seq![Datum::Text(repo_id)],
            Ok::<Vec<String>, DbError>(v),
        ),
    ensures
        mid.len() == pre.len() + 1,
        shows_ids(mid[pre.len() as int], query, repo_id, text::texts(v@)),
{
    let ids = text::texts(v@);
    assert(mid[pre.len() as int] == mid.last());
    let found = mid.last()->reply->Rows_0;
    assert forall|i: int| 0 <= i < found.len() implies (#[trigger] found[i] matches Ok(row)
        && row[0] == Datum::Text(ids[i])) by {
        assert(found[i] matches Ok(row) && v@[i].is_row(row));
    }
}

/// To archive a repository's sessions archives all that are not, and tells of those that were shown not
/// to be; the result is how many rows were changed.
pub proof fn law_archived_repository_is_told(
    pre: Trace,
    post: Trace,
    repo_id: Seq<char>,
    n: usize,
) -> (ids: Seq<Seq<char>>)
    requires
        sessions::repo_sessions_archived(pre, post, repo_id, Ok::<usize, DbError>(n)),
    ensures
        shows_ids(
            post[pre.len() as int],
            "SELECT id FROM sessions WHERE repo_id = ?1 AND archived = 0"@,
            repo_id,
            ids,
        ),
        tells_sessions(
            post,
            pre.len() + 1int,
            "UPDATE sessions SET archived = 1, archived_at = strftime('%s','now') \
         WHERE repo_id = ?1 AND archived = 0"@,
            repo_id,
            ids,
            true,
            n,
        ),
{
    let r = Ok::<usize, DbError>(n);
    let (t1, got) = choose|t1: Trace, got: Result<Vec<String>, DbError>|
        {
            &&& #[trigger] sessions::unarchived_ids_read(pre, t1, repo_id, got)
            &&& match got {
                Ok(ids) => exists|t2: Trace, n: Result<usize, DbError>|
                    {
                        &&& #[trigger] sessions::repo_archived(t1, t2, repo_id, n)
                        &&& r == n
                        &&& match n {
                            Ok(_) => rows::announced(
                                t2,
                                post,
                                ids@.len() > 0,
                                Notice::SessionsArchived {
                                    ids: text::texts(ids@),
                                    archived: true,
                                },
                            ),
                            Err(_) => post == t2,
                        }
                    },
                Err(e) => post == t1 && r == Err::<usize, DbError>(e),
            }
        };
    let v = got->Ok_0;
    lemma_shows_ids(pre, t1, sessions::SQL_READ_UNARCHIVED_IDS@, repo_id, v);
    assert(post[pre.len() as int] == t1[pre.len() as int]);
    text::texts(v@)
}

/// To take a repository's sessions out of the archive takes out all that are in it, and tells of those
/// that were shown to be; the result is how many rows were changed.
pub proof fn law_unarchived_repository_is_told(
    pre: Trace,
    post: Trace,
    repo_id: Seq<char>,
    n: usize,
) -> (ids: Seq<Seq<char>>)
    requires
        sessions::repo_sessions_unarchived(pre, post, repo_id, Ok::<usize, DbError>(n)),
    ensures
        shows_ids(
            post[pre.len() as int],
            "SELECT id FROM sessions WHERE repo_id = ?1 AND archived = 1"@,
            repo_id,
            ids,
        ),
        tells_sessions(
            post,
            pre.len() + 1int,
            "UPDATE sessions SET archived = 0, archived_at = NULL \
         WHERE repo_id = ?1 AND archived = 1"@,
            repo_id,
            ids,
            false,
            n,
        ),
{
    let r = Ok::<usize, DbError>(n);
    let (t1, got) = choose|t1: Trace, got: Result<Vec<String>, DbError>|
        {
            &&& #[trigger] sessions::archived_ids_read(pre, t1, repo_id, got)
            &&& match got {
                Ok(ids) => exists|t2: Trace, n: Result<usize, DbError>|
                    {
                        &&& #[trigger] sessions::repo_unarchived(t1, t2, repo_id, n)
                        &&& r == n
                        &&& match n {
                            Ok(_) => rows::announced(
                                t2,
                                post,
                                ids@.len() > 0,
                                Notice::SessionsArchived {
                                    ids: text::texts(ids@),
                                    archived: false,
                                },
                            ),
                            Err(_) => post == t2,
                        }
                    },
                Err(e) => post == t1 && r == Err::<usize, DbError>(e),
            }
        };
    let v = got->Ok_0;
    lemma_shows_ids(pre, t1, sessions::SQL_READ_ARCHIVED_IDS@, repo_id, v);
    assert(post[pre.len() as int] == t1[pre.len() as int]);
    text::texts(v@)
}

/// An agent is deleted exactly where it is shown to be there and not to be native; to delete a native one
/// is refused, and one that is not there needs no deleting.
pub proof fn law_native_agent_stays(
    pre: Trace,
    post: Trace,
    id: Seq<char>,
    r: Result<(), DbError>,
)
    requires
        agents::agent_deleted(pre, post, id, r),
    ensures
        changes::asks_first(
            post[pre.len() as int],
            "SELECT access FROM agents WHERE id = ?1"@,
            seq![Datum::Text(id)],
        ),
        match post[pre.len() as int]->reply {
            Reply::Row(None) => post.len() == pre.len() + 1 && r is Ok,
            Reply::Row(Some(row)) => if row[0] == Datum::Text("native"@) {
                post.len() == pre.len() + 1 && reports(r, "native agent cannot be deleted"@)
            } else {
                &&& post.len() == pre.len() + 2
                &&& changes::runs(
                    post.last(),
                    "DELETE FROM agents WHERE id = ?1"@,
                    seq![Datum::Text(id)],
                )
                &&& r is Err <==> changes::is_refused(post.last())
            },
            _ => post.len() == pre.len() + 1 && r is Err,
        },
{
    let (mid, got) = choose|mid: Trace, got: Result<Option<String>, DbError>|
        {
            &&& #[trigger] agents::access_read(pre, mid, id, got)
            &&& match got {
                Ok(Some(access)) => if access@ == "native"@ {
                    post == mid && agents::violates(r, "native agent cannot be deleted"@)
                } else {
                    rows::executed(
                        mid,
                        post,
                        agents::SQL_DELETE_AGENT@,
                        seq![Datum::Text(id)],
                        r,
                    )
                },
                Ok(None) => post == mid && r is Ok,
                Err(e) => post == mid && r == Err::<(), DbError>(e),
            }
        };
    assert(mid[pre.len() as int] == mid.last());
    assert(post[pre.len() as int] == mid[pre.len() as int]);
}

} // verus!
