//! The messages of a session, and the reports of a team's members among them.
use vstd::prelude::*;

use crate::blocks::{Block, MemberSnapshot};
use crate::cards::{self, update_dispatch_card_terminal};
use crate::engine::{self, Cell, Datum, Db, DbError, Reply, Request, Step, Trace};
use crate::events::{self, opt_owned, Milestone, Notice};
use crate::rows::{
    self,
    find,
    int_at,
    list,
    opt_text_at,
    p_int,
    p_opt_text,
    p_text,
    params1,
    params2,
    params3,
    params6,
    params7,
    run,
    run_for_effect,
    text_at,
    FromRow,
    Kind,
    Read,
};
use crate::text::{self, add_in_order, replace_char, same};
use crate::tx::{self, add_statement, begin, finish, no_statements, run_script, statement};

verus! {

/// A message of a session.
#[derive(Debug, PartialEq)]
pub struct Message {
    pub id: i64,
    pub created_at: i64,
    pub role: String,
    pub content: Vec<Block>,
    pub engine: Option<String>,
    pub agent_id: Option<String>,
    pub agent_name_snapshot: Option<String>,
}

/// A message as it is stored: its content is the JSON text of its blocks.
#[derive(Debug, Clone, PartialEq)]
pub struct MessageRow {
    pub id: i64,
    pub role: String,
    pub content: String,
    pub engine: Option<String>,
    pub agent_id: Option<String>,
    pub agent_name_snapshot: Option<String>,
    pub created_at: i64,
}

impl FromRow for MessageRow {
    open spec fn reads() -> Seq<Read> {
        seq![
            Read { index: 2, kind: Kind::Text },
            Read { index: 0, kind: Kind::Int },
            Read { index: 1, kind: Kind::Text },
            Read { index: 3, kind: Kind::OptText },
            Read { index: 4, kind: Kind::OptText },
            Read { index: 5, kind: Kind::OptText },
            Read { index: 6, kind: Kind::Int },
        ]
    }

    open spec fn is_row(self, row: Seq<Datum>) -> bool {
        &&& row[1] == Datum::Integer(self.id)
        &&& row[2] == Datum::Text(self.role@)
        &&& row[0] == Datum::Text(self.content@)
        &&& row[3] == rows::opt_text(events::opt(self.engine))
        &&& row[4] == rows::opt_text(events::opt(self.agent_id))
        &&& row[5] == rows::opt_text(events::opt(self.agent_name_snapshot))
        &&& row[6] == Datum::Integer(self.created_at)
    }

    fn layout() -> (reads: Vec<Read>) {
        let reads = vec![
            Read { index: 2, kind: Kind::Text },
            Read { index: 0, kind: Kind::Int },
            Read { index: 1, kind: Kind::Text },
            Read { index: 3, kind: Kind::OptText },
            Read { index: 4, kind: Kind::OptText },
            Read { index: 5, kind: Kind::OptText },
            Read { index: 6, kind: Kind::Int },
        ];
        assert(reads@ =~= Self::reads());
        reads
    }

    fn from_row(row: &Vec<Cell>) -> (v: Self) {
        proof {
            rows::lemma_cells(row@, Self::reads());
        }
        MessageRow {
            id: int_at(row, 1),
            role: text_at(row, 2),
            content: text_at(row, 0),
            engine: opt_text_at(row, 3),
            agent_id: opt_text_at(row, 4),
            agent_name_snapshot: opt_text_at(row, 5),
            created_at: int_at(row, 6),
        }
    }
}

/// Whether `text` is what `encode` makes of blocks.
pub open spec fn encoded<E: Fn(&[Block]) -> String>(
    encode: E,
    content: &[Block],
    text: Seq<char>,
) -> bool {
    exists|s: String| #[trigger] call_ensures(encode, (content,), s) && s@ == text
}

/// The blocks that reading a text gave; none where it could not be read.
pub open spec fn blocks_of(got: Option<Vec<Block>>) -> Seq<Block> {
    match got {
        Some(blocks) => blocks@,
        None => Seq::empty(),
    }
}

/// Whether blocks are what `decode` reads in a text; a text that it cannot read has none.
pub open spec fn decoded<D: Fn(&str) -> Option<Vec<Block>>>(
    decode: D,
    text: Seq<char>,
    blocks: Seq<Block>,
) -> bool {
    exists|s: &str, got: Option<Vec<Block>>|
        #[trigger] call_ensures(decode, (s,), got) && s@ == text && blocks == blocks_of(got)
}

/// Whether `decode` can be asked of every text.
pub open spec fn decodes<D: Fn(&str) -> Option<Vec<Block>>>(decode: D) -> bool {
    forall|s: &str| #[trigger] call_requires(decode, (s,))
}

pub const SQL_STORE_MESSAGE: &'static str = "INSERT INTO messages (session_id, role, content, engine, agent_id, agent_name_snapshot, created_at) VALUES (?1, ?2, ?3, ?4, ?5, ?6, strftime('%s','now'))";

/// A message was stored, its content as the text `json`.
pub open spec fn message_stored(
    pre: Trace,
    post: Trace,
    session_id: Seq<char>,
    role: Seq<char>,
    json: Seq<char>,
    engine: Option<Seq<char>>,
    agent_id: Option<Seq<char>>,
    agent_name_snapshot: Option<Seq<char>>,
    r: Result<(), DbError>,
) -> bool {
    rows::executed(
        pre,
        post,
        SQL_STORE_MESSAGE@,
        seq![
            Datum::Text(session_id),
            Datum::Text(role),
            Datum::Text(json),
            rows::opt_text(engine),
            rows::opt_text(agent_id),
            rows::opt_text(agent_name_snapshot),
        ],
        r,
    )
}

fn store_message(
    db: &mut Db,
    session_id: &str,
    role: &str,
    json: &str,
    engine: Option<&str>,
    agent_id: Option<&str>,
    agent_name_snapshot: Option<&str>,
) -> (r: Result<(), DbError>)
    ensures
        message_stored(
            old(db)@,
            final(db)@,
            session_id@,
            role@,
            json@,
            events::opt_str(engine),
            events::opt_str(agent_id),
            events::opt_str(agent_name_snapshot),
            r,
        ),
{
    run(
        db,
        SQL_STORE_MESSAGE,
        params6(
            p_text(session_id),
            p_text(role),
            p_text(json),
            p_opt_text(engine),
            p_opt_text(agent_id),
            p_opt_text(agent_name_snapshot),
        ),
    )
}

/// Adds a message to a session. Its content is stored as `encode` writes it.
pub fn append_message<E: Fn(&[Block]) -> String>(
    db: &mut Db,
    session_id: &str,
    role: &str,
    content: &[Block],
    engine: Option<&str>,
    agent_id: Option<&str>,
    agent_name_snapshot: Option<&str>,
    encode: E,
) -> (r: Result<(), DbError>)
    requires
        call_requires(encode, (content,)),
    ensures
        exists|json: Seq<char>|
            encoded(encode, content, json) && #[trigger] message_stored(
                old(db)@,
                final(db)@,
                session_id@,
                role@,
                json,
                events::opt_str(engine),
                events::opt_str(agent_id),
                events::opt_str(agent_name_snapshot),
                r,
            ),
{
    let json = encode(content);
    store_message(db, session_id, role, json.as_str(), engine, agent_id, agent_name_snapshot)
}

/// A message that was stored and waits to be announced.
#[derive(Debug, Clone, PartialEq)]
pub struct MsgCompletedMilestone {
    pub session_id: String,
    pub dedup_key: String,
    pub message_id: i64,
    pub role: String,
    /// The content, as JSON text.
    pub blocks: String,
    pub agent_name_snapshot: Option<String>,
}

impl View for MsgCompletedMilestone {
    type V = Notice;

    open spec fn view(&self) -> Notice {
        Notice::MessageCompleted {
            session_id: self.session_id@,
            dedup_key: self.dedup_key@,
            message_id: self.message_id,
            role: self.role@,
            blocks: self.blocks@,
            agent_name_snapshot: events::opt(self.agent_name_snapshot),
        }
    }
}

impl MsgCompletedMilestone {
    /// Announces the message. To be called once it is stored for good: after the commit, where it
    /// was stored in a transaction.
    pub fn publish(self, db: &mut Db)
        ensures
            final(db)@ == old(db)@.push(Step::Published(self@)),
    {
        db.publish(
            Milestone::MessageCompleted {
                session_id: self.session_id,
                dedup_key: self.dedup_key,
                message_id: self.message_id,
                role: self.role,
                blocks: self.blocks,
                agent_name_snapshot: self.agent_name_snapshot,
            },
        )
    }
}

pub const SQL_STORE_MESSAGE_ONCE: &'static str = "INSERT OR IGNORE INTO messages (session_id, role, content, engine, agent_id, agent_name_snapshot, dedup_key, created_at) VALUES (?1, ?2, ?3, ?4, ?5, ?6, ?7, strftime('%s','now'))";

/// A message was stored, unless one with its key is there; the result says whether it was.
pub open spec fn message_stored_once(
    pre: Trace,
    post: Trace,
    session_id: Seq<char>,
    role: Seq<char>,
    json: Seq<char>,
    engine: Option<Seq<char>>,
    agent_id: Option<Seq<char>>,
    agent_name_snapshot: Option<Seq<char>>,
    dedup_key: Seq<char>,
    r: Result<bool, DbError>,
) -> bool {
    rows::took_effect(
        pre,
        post,
        SQL_STORE_MESSAGE_ONCE@,
        seq![
            Datum::Text(session_id),
            Datum::Text(role),
            Datum::Text(json),
            rows::opt_text(engine),
            rows::opt_text(agent_id),
            rows::opt_text(agent_name_snapshot),
            Datum::Text(dedup_key),
        ],
        r,
    )
}

fn store_message_once(
    db: &mut Db,
    session_id: &str,
    role: &str,
    json: &str,
    engine: Option<&str>,
    agent_id: Option<&str>,
    agent_name_snapshot: Option<&str>,
    dedup_key: &str,
) -> (r: Result<bool, DbError>)
    ensures
        message_stored_once(
            old(db)@,
            final(db)@,
            session_id@,
            role@,
            json@,
            events::opt_str(engine),
            events::opt_str(agent_id),
            events::opt_str(agent_name_snapshot),
            dedup_key@,
            r,
        ),
{
    run_for_effect(
        db,
        SQL_STORE_MESSAGE_ONCE,
        params7(
            p_text(session_id),
            p_text(role),
            p_text(json),
            p_opt_text(engine),
            p_opt_text(agent_id),
            p_opt_text(agent_name_snapshot),
            p_text(dedup_key),
        ),
    )
}

/// A message was stored, unless one with its key is there; the result is what there is to announce.
pub open spec fn message_appended(
    pre: Trace,
    post: Trace,
    session_id: Seq<char>,
    role: Seq<char>,
    json: Seq<char>,
    engine: Option<Seq<char>>,
    agent_id: Option<Seq<char>>,
    agent_name_snapshot: Option<Seq<char>>,
    dedup_key: Seq<char>,
    r: Result<Option<MsgCompletedMilestone>, DbError>,
) -> bool {
    exists|mid: Trace, fresh: Result<bool, DbError>|
        {
            &&& #[trigger] message_stored_once(
                pre,
                mid,
                session_id,
                role,
                json,
                engine,
                agent_id,
                agent_name_snapshot,
                dedup_key,
                fresh,
            )
            &&& match fresh {
                Ok(true) => {
                    &&& rows::asked(mid, post, Request::LastInsertRowid)
                    &&& rows::reply_to(post) matches Reply::RowId(message_id)
                    &&& r matches Ok(Some(milestone))
                    &&& milestone@ == (Notice::MessageCompleted {
                        session_id,
                        dedup_key,
                        message_id,
                        role,
                        blocks: json,
                        agent_name_snapshot,
                    })
                },
                Ok(false) => post == mid && r == Ok::<Option<MsgCompletedMilestone>, DbError>(
                    None,
                ),
                Err(e) => post == mid && r == Err::<Option<MsgCompletedMilestone>, DbError>(e),
            }
        }
}

fn append_once(
    db: &mut Db,
    session_id: &str,
    role: &str,
    json: String,
    engine: Option<&str>,
    agent_id: Option<&str>,
    agent_name_snapshot: Option<&str>,
    dedup_key: &str,
) -> (r: Result<Option<MsgCompletedMilestone>, DbError>)
    ensures
        message_appended(
            old(db)@,
            final(db)@,
            session_id@,
            role@,
            json@,
            events::opt_str(engine),
            events::opt_str(agent_id),
            events::opt_str(agent_name_snapshot),
            dedup_key@,
            r,
        ),
{
    let fresh = store_message_once(
        db,
        session_id,
        role,
        json.as_str(),
        engine,
        agent_id,
        agent_name_snapshot,
        dedup_key,
    );
    assert(message_stored_once(
        old(db)@,
        db@,
        session_id@,
        role@,
        json@,
        events::opt_str(engine),
        events::opt_str(agent_id),
        events::opt_str(agent_name_snapshot),
        dedup_key@,
        fresh,
    ));
    match fresh {
        Ok(true) => {
            let message_id = db.last_insert_rowid();
            Ok(
                Some(
                    MsgCompletedMilestone {
                        session_id: session_id.to_string(),
                        dedup_key: dedup_key.to_string(),
                        message_id,
                        role: role.to_string(),
                        blocks: json,
                        agent_name_snapshot: opt_owned(agent_name_snapshot),
                    },
                ),
            )
        },
        Ok(false) => Ok(None),
        Err(e) => Err(e),
    }
}

/// Adds a message to a session, unless the session has one with this key; what there is to
/// announce, which is none where it has.
pub fn append_message_dedup<E: Fn(&[Block]) -> String>(
    db: &mut Db,
    session_id: &str,
    role: &str,
    content: &[Block],
    engine: Option<&str>,
    agent_id: Option<&str>,
    agent_name_snapshot: Option<&str>,
    dedup_key: &str,
    encode: E,
) -> (r: Result<Option<MsgCompletedMilestone>, DbError>)
    requires
        call_requires(encode, (content,)),
    ensures
        exists|json: Seq<char>|
            encoded(encode, content, json) && #[trigger] message_appended(
                old(db)@,
                final(db)@,
                session_id@,
                role@,
                json,
                events::opt_str(engine),
                events::opt_str(agent_id),
                events::opt_str(agent_name_snapshot),
                dedup_key@,
                r,
            ),
{
    let json = encode(content);
    append_once(
        db,
        session_id,
        role,
        json,
        engine,
        agent_id,
        agent_name_snapshot,
        dedup_key,
    )
}

/// What was stored was announced, where there is something to announce; the result says whether
/// there is.
pub open spec fn milestone_announced(
    pre: Trace,
    post: Trace,
    milestone: Option<MsgCompletedMilestone>,
    r: Result<bool, DbError>,
) -> bool {
    match milestone {
        Some(m) => post == pre.push(Step::Published(m@)) && r == Ok::<bool, DbError>(true),
        None => post == pre && r == Ok::<bool, DbError>(false),
    }
}

/// Adds a message to a session, unless the session has one with this key, and announces it; whether
/// it was added. For a connection that has no transaction open.
pub fn append_message_dedup_and_publish<E: Fn(&[Block]) -> String>(
    db: &mut Db,
    session_id: &str,
    role: &str,
    content: &[Block],
    engine: Option<&str>,
    agent_id: Option<&str>,
    agent_name_snapshot: Option<&str>,
    dedup_key: &str,
    encode: E,
) -> (r: Result<bool, DbError>)
    requires
        call_requires(encode, (content,)),
    ensures
        exists|json: Seq<char>, mid: Trace, got: Result<Option<MsgCompletedMilestone>, DbError>|
            {
                &&& encoded(encode, content, json)
                &&& #[trigger] message_appended(
                    old(db)@,
                    mid,
                    session_id@,
                    role@,
                    json,
                    events::opt_str(engine),
                    events::opt_str(agent_id),
                    events::opt_str(agent_name_snapshot),
                    dedup_key@,
                    got,
                )
                &&& match got {
                    Ok(milestone) => milestone_announced(mid, final(db)@, milestone, r),
                    Err(e) => final(db)@ == mid && r == Err::<bool, DbError>(e),
                }
            },
{
    let got = append_message_dedup(
        db,
        session_id,
        role,
        content,
        engine,
        agent_id,
        agent_name_snapshot,
        dedup_key,
        encode,
    );
    match got {
        Ok(Some(milestone)) => {
            milestone.publish(db);
            Ok(true)
        },
        Ok(None) => Ok(false),
        Err(e) => Err(e),
    }
}

pub const SQL_STORE_DELIVERY: &'static str = "INSERT INTO member_report_delivery
                (session_id, message_id, assignment_id, delivered_at)
             VALUES (?1, ?2, ?3, NULL)";

/// That the report of a member waits to be delivered was stored.
pub open spec fn delivery_stored(
    pre: Trace,
    post: Trace,
    session_id: Seq<char>,
    message_id: i64,
    assignment_id: Option<Seq<char>>,
    r: Result<(), DbError>,
) -> bool {
    rows::executed(
        pre,
        post,
        SQL_STORE_DELIVERY@,
        seq![Datum::Text(session_id), Datum::Integer(message_id), rows::opt_text(assignment_id)],
        r,
    )
}

fn store_delivery(
    db: &mut Db,
    session_id: &str,
    message_id: i64,
    assignment_id: Option<&str>,
) -> (r: Result<(), DbError>)
    ensures
        delivery_stored(
            old(db)@,
            final(db)@,
            session_id@,
            message_id,
            events::opt_str(assignment_id),
            r,
        ),
{
    run(
        db,
        SQL_STORE_DELIVERY,
        params3(p_text(session_id), p_int(message_id), p_opt_text(assignment_id)),
    )
}

/// The report of a member.
pub struct Report<'a> {
    pub session_id: &'a str,
    pub agent_id: Option<&'a str>,
    pub agent_name_snapshot: Option<&'a str>,
    pub dedup_key: &'a str,
    pub assignment_id: Option<&'a str>,
    /// The status that the member ended with, and the text of its report.
    pub dispatch_terminal: Option<(&'a str, &'a str)>,
}

/// That a report waits to be delivered was stored, where the report itself was.
pub open spec fn delivery_noted(
    pre: Trace,
    post: Trace,
    session_id: Seq<char>,
    assignment_id: Option<Seq<char>>,
    milestone: Option<MsgCompletedMilestone>,
    r: Result<(), DbError>,
) -> bool {
    match milestone {
        Some(m) => delivery_stored(pre, post, session_id, m.message_id, assignment_id, r),
        None => post == pre && r is Ok,
    }
}

fn note_delivery(
    db: &mut Db,
    session_id: &str,
    assignment_id: Option<&str>,
    milestone: &Option<MsgCompletedMilestone>,
) -> (r: Result<(), DbError>)
    ensures
        delivery_noted(
            old(db)@,
            final(db)@,
            session_id@,
            events::opt_str(assignment_id),
            *milestone,
            r,
        ),
{
    match milestone {
        Some(m) => store_delivery(db, session_id, m.message_id, assignment_id),
        None => Ok(()),
    }
}

/// The card of the member that reported was settled, where the report says how the member ended.
pub open spec fn report_settled(
    pre: Trace,
    post: Trace,
    report: Report,
    r: Result<(), DbError>,
) -> bool {
    match (report.assignment_id, report.dispatch_terminal) {
        (Some(assignment_id), Some((status, text))) => exists|got: Result<bool, DbError>|
            #[trigger] cards::card_settled(
                pre,
                post,
                report.session_id@,
                assignment_id@,
                status@,
                text@,
                got,
            ) && match got {
                Ok(_) => r is Ok,
                Err(e) => r == Err::<(), DbError>(e),
            },
        _ => post == pre && r is Ok,
    }
}

fn settle_report(db: &mut Db, report: &Report) -> (r: Result<(), DbError>)
    ensures
        report_settled(old(db)@, final(db)@, *report, r),
{
    match (report.assignment_id, report.dispatch_terminal) {
        (Some(assignment_id), Some((status, text))) => {
            match update_dispatch_card_terminal(
                db,
                report.session_id,
                assignment_id,
                status,
                text,
            ) {
                Ok(_) => Ok(()),
                Err(e) => Err(e),
            }
        },
        _ => Ok(()),
    }
}

/// A report was stored as an assistant's message of the team, unless it was before; where it was
/// stored now, that it waits to be delivered; and the card of the member was settled.
pub open spec fn report_persisted(
    pre: Trace,
    post: Trace,
    report: Report,
    json: Seq<char>,
    r: Result<Option<MsgCompletedMilestone>, DbError>,
) -> bool {
    exists|t1: Trace, got: Result<Option<MsgCompletedMilestone>, DbError>|
        {
            &&& #[trigger] message_appended(
                pre,
                t1,
                report.session_id@,
                "assistant"@,
                json,
                Some("agent-team"@),
                events::opt_str(report.agent_id),
                events::opt_str(report.agent_name_snapshot),
                report.dedup_key@,
                got,
            )
            &&& match got {
                Ok(milestone) => exists|t2: Trace, noted: Result<(), DbError>|
                    {
                        &&& #[trigger] delivery_noted(
                            t1,
                            t2,
                            report.session_id@,
                            events::opt_str(report.assignment_id),
                            milestone,
                            noted,
                        )
                        &&& match noted {
                            Ok(()) => exists|settled: Result<(), DbError>|
                                {
                                    &&& #[trigger] report_settled(t2, post, report, settled)
                                    &&& r == match settled {
                                        Ok(()) => got,
                                        Err(e) => Err(e),
                                    }
                                },
                            Err(e) => post == t2 && r == Err::<
                                Option<MsgCompletedMilestone>,
                                DbError,
                            >(e),
                        }
                    },
                Err(e) => post == t1 && r == got,
            }
        }
}

fn persist_in_transaction(db: &mut Db, report: &Report, json: String) -> (r: Result<
    Option<MsgCompletedMilestone>,
    DbError,
>)
    ensures
        report_persisted(old(db)@, final(db)@, *report, json@, r),
{
    let got = append_once(
        db,
        report.session_id,
        "assistant",
        json,
        Some("agent-team"),
        report.agent_id,
        report.agent_name_snapshot,
        report.dedup_key,
    );
    let ghost t1 = db@;
    assert(message_appended(
        old(db)@,
        t1,
        report.session_id@,
        "assistant"@,
        json@,
        Some("agent-team"@),
        events::opt_str(report.agent_id),
        events::opt_str(report.agent_name_snapshot),
        report.dedup_key@,
        got,
    ));
    let milestone = match got {
        Ok(milestone) => milestone,
        Err(e) => return Err(e),
    };
    let noted = note_delivery(db, report.session_id, report.assignment_id, &milestone);
    let ghost t2 = db@;
    assert(delivery_noted(
        t1,
        t2,
        report.session_id@,
        events::opt_str(report.assignment_id),
        milestone,
        noted,
    ));
    match noted {
        Ok(()) => {},
        Err(e) => return Err(e),
    }
    let settled = settle_report(db, report);
    assert(report_settled(t2, db@, *report, settled));
    match settled {
        Ok(()) => Ok(milestone),
        Err(e) => Err(e),
    }
}

/// A report was persisted in one transaction.
pub open spec fn report_transacted(
    pre: Trace,
    post: Trace,
    report: Report,
    json: Seq<char>,
    r: Result<Option<MsgCompletedMilestone>, DbError>,
) -> bool {
    tx::transacted(
        pre,
        post,
        |a: Trace, b: Trace, x: Result<Option<MsgCompletedMilestone>, DbError>|
            report_persisted(a, b, report, json, x),
        r,
    )
}

fn persist_report(db: &mut Db, report: &Report, json: String) -> (r: Result<
    Option<MsgCompletedMilestone>,
    DbError,
>)
    ensures
        report_transacted(old(db)@, final(db)@, *report, json@, r),
{
    match begin(db) {
        Ok(()) => {},
        Err(e) => return Err(e),
    }
    let ghost opened = db@;
    let ghost text = json@;
    let ghost body = |a: Trace, b: Trace, x: Result<Option<MsgCompletedMilestone>, DbError>|
        report_persisted(a, b, *report, text, x);
    let inner = persist_in_transaction(db, report, json);
    assert(body(opened, db@, inner));
    finish(db, inner)
}

/// A report was persisted in one transaction and announced after the commit, where it was stored
/// now.
pub open spec fn report_announced(
    pre: Trace,
    post: Trace,
    report: Report,
    json: Seq<char>,
    r: Result<bool, DbError>,
) -> bool {
    exists|mid: Trace, got: Result<Option<MsgCompletedMilestone>, DbError>|
        {
            &&& #[trigger] report_transacted(pre, mid, report, json, got)
            &&& match got {
                Ok(milestone) => milestone_announced(mid, post, milestone, r),
                Err(e) => post == mid && r == Err::<bool, DbError>(e),
            }
        }
}

/// Stores the report of a member and that it waits to be delivered, and settles the member's card,
/// all in one transaction; announces the report after the commit. Whether it was stored: a report
/// whose key is known stays as it was, and nothing waits for it.
pub fn persist_member_report_atomic<E: Fn(&[Block]) -> String>(
    db: &mut Db,
    session_id: &str,
    content: &[Block],
    agent_id: Option<&str>,
    agent_name_snapshot: Option<&str>,
    dedup_key: &str,
    assignment_id: Option<&str>,
    dispatch_terminal: Option<(&str, &str)>,
    encode: E,
) -> (r: Result<bool, DbError>)
    requires
        call_requires(encode, (content,)),
    ensures
        exists|json: Seq<char>|
            encoded(encode, content, json) && #[trigger] report_announced(
                old(db)@,
                final(db)@,
                (Report {
                    session_id,
                    agent_id,
                    agent_name_snapshot,
                    dedup_key,
                    assignment_id,
                    dispatch_terminal,
                }),
                json,
                r,
            ),
{
    let report = Report {
        session_id,
        agent_id,
        agent_name_snapshot,
        dedup_key,
        assignment_id,
        dispatch_terminal,
    };
    let json = encode(content);
    let ghost text = json@;
    assert(encoded(encode, content, text));
    let got = persist_report(db, &report, json);
    let ghost mid = db@;
    assert(report_transacted(old(db)@, mid, report, text, got));
    match got {
        Ok(Some(milestone)) => {
            milestone.publish(db);
            assert(report_announced(old(db)@, db@, report, text, Ok::<bool, DbError>(true)));
            Ok(true)
        },
        Ok(None) => {
            assert(report_announced(old(db)@, db@, report, text, Ok::<bool, DbError>(false)));
            Ok(false)
        },
        Err(e) => {
            assert(report_announced(old(db)@, db@, report, text, Err::<bool, DbError>(e)));
            Err(e)
        },
    }
}

/// A report is announced only after it was committed, and only where the result says that it was
/// stored; a report that failed to be stored is never announced.
pub proof fn law_report_announced_after_commit(
    pre: Trace,
    post: Trace,
    report: Report,
    json: Seq<char>,
    r: Result<bool, DbError>,
)
    requires
        report_announced(pre, post, report, json, r),
    ensures
        post.last() is Published <==> r == Ok::<bool, DbError>(true),
        post.last() is Published ==> post.drop_last().last() == tx::commitment(),
{
    let (mid, got) = choose|mid: Trace, got: Result<Option<MsgCompletedMilestone>, DbError>|
        {
            &&& #[trigger] report_transacted(pre, mid, report, json, got)
            &&& match got {
                Ok(milestone) => milestone_announced(mid, post, milestone, r),
                Err(e) => post == mid && r == Err::<bool, DbError>(e),
            }
        };
    tx::law_transaction_outcome(
        pre,
        mid,
        |a: Trace, b: Trace, x: Result<Option<MsgCompletedMilestone>, DbError>|
            report_persisted(a, b, report, json, x),
        got,
    );
    if got matches Ok(Some(m)) {
        assert(post.drop_last() =~= mid);
    }
}

pub const SQL_PENDING_MEMBER_REPORT_MESSAGE_IDS: &'static str = "SELECT message_id
           FROM member_report_delivery
          WHERE session_id = ?1 AND delivered_at IS NULL
          ORDER BY message_id ASC";

/// The reports of members that wait to be delivered, oldest first.
pub fn pending_member_report_message_ids(
    db: &mut Db,
    session_id: &str,
) -> (r: Result<Vec<i64>, DbError>)
    ensures
        rows::listed(
            old(db)@,
            final(db)@,
            SQL_PENDING_MEMBER_REPORT_MESSAGE_IDS@,
            seq![Datum::Text(session_id@)],
            r,
        ),
{
    list(db, SQL_PENDING_MEMBER_REPORT_MESSAGE_IDS, params1(p_text(session_id)))
}

pub const SQL_MARK_DELIVERED: &'static str = "UPDATE member_report_delivery
                SET delivered_at = strftime('%s','now')
              WHERE session_id = ?1 AND message_id = ?2 AND delivered_at IS NULL";

/// The statements that mark reports as delivered.
pub open spec fn delivery_marks(session_id: Seq<char>, message_ids: Seq<i64>) -> Seq<Request> {
    message_ids.map_values(
        |id: i64|
            Request::Execute {
                sql: SQL_MARK_DELIVERED@,
                params: seq![Datum::Text(session_id), Datum::Integer(id)],
            },
    )
}

/// Marks reports as delivered, in one transaction; one that is marked already keeps its time.
/// Without reports there is nothing to do.
pub fn mark_member_reports_delivered(db: &mut Db, session_id: &str, message_ids: &[i64]) -> (r:
    Result<(), DbError>)
    ensures
        if message_ids@.len() == 0 {
            final(db)@ == old(db)@ && r is Ok
        } else {
            tx::transacted(
                old(db)@,
                final(db)@,
                |a: Trace, b: Trace, x: Result<(), DbError>|
                    tx::scripted(a, b, delivery_marks(session_id@, message_ids@), x),
                r,
            )
        },
{
    if message_ids.len() == 0 {
        return Ok(());
    }
    match begin(db) {
        Ok(()) => {},
        Err(e) => return Err(e),
    }
    let ghost opened = db@;
    let ghost body = |a: Trace, b: Trace, x: Result<(), DbError>|
        tx::scripted(a, b, delivery_marks(session_id@, message_ids@), x);
    let ghost wanted = delivery_marks(session_id@, message_ids@);
    let mut script = no_statements();
    let mut i: usize = 0;
    while i < message_ids.len()
        invariant
            i <= message_ids@.len(),
            wanted == delivery_marks(session_id@, message_ids@),
            tx::requests(script@) =~= wanted.take(i as int),
        decreases message_ids.len() - i,
    {
        add_statement(
            &mut script,
            statement(SQL_MARK_DELIVERED, params2(p_text(session_id), p_int(message_ids[i]))),
        );
        assert(wanted.take(i + 1) =~= wanted.take(i as int).push(wanted[i as int]));
        i += 1;
    }
    assert(tx::requests(script@) =~= wanted);
    let inner = run_script(db, script);
    assert(body(opened, db@, inner));
    finish(db, inner)
}

/// Whether a message is what a stored one says, its content read by `decode`.
pub open spec fn is_message<D: Fn(&str) -> Option<Vec<Block>>>(
    decode: D,
    row: MessageRow,
    m: Message,
) -> bool {
    &&& m.id == row.id
    &&& m.created_at == row.created_at
    &&& m.role == row.role
    &&& decoded(decode, row.content@, m.content@)
    &&& m.engine == row.engine
    &&& m.agent_id == row.agent_id
    &&& m.agent_name_snapshot == row.agent_name_snapshot
}

fn message_of<D: Fn(&str) -> Option<Vec<Block>>>(row: MessageRow, decode: &D) -> (m: Message)
    requires
        decodes(*decode),
    ensures
        is_message(*decode, row, m),
{
    let text = row.content.as_str();
    let got = decode(text);
    let content = match got {
        Some(blocks) => blocks,
        None => Vec::new(),
    };
    assert(content@ =~= blocks_of(got));
    assert(call_ensures(*decode, (text,), got));
    Message {
        id: row.id,
        created_at: row.created_at,
        role: row.role,
        content,
        engine: row.engine,
        agent_id: row.agent_id,
        agent_name_snapshot: row.agent_name_snapshot,
    }
}

/// What is read of a message is what was written of it: where `decode` reads, in any text that
/// `encode` makes of some content, that content and nothing else, a message that is read from such a
/// text has that content.
pub proof fn law_content_round_trip<
    E: Fn(&[Block]) -> String,
    D: Fn(&str) -> Option<Vec<Block>>,
>(encode: E, decode: D, content: &[Block], row: MessageRow, m: Message)
    requires
        encoded(encode, content, row.content@),
        is_message(decode, row, m),
        forall|s: &str, got: Option<Vec<Block>>|
            encoded(encode, content, s@) && #[trigger] call_ensures(decode, (s,), got) ==> blocks_of(
                got,
            ) == content@,
    ensures
        m.content@ == content@,
{
}

/// Whether messages are what stored ones say.
pub open spec fn are_messages<D: Fn(&str) -> Option<Vec<Block>>>(
    decode: D,
    rows: Seq<MessageRow>,
    messages: Seq<Message>,
) -> bool {
    &&& messages.len() == rows.len()
    &&& forall|i: int| 0 <= i < rows.len() ==> is_message(decode, rows[i], #[trigger] messages[i])
}

pub const SQL_READ_MESSAGES: &'static str = "SELECT id, role, content, engine, agent_id, agent_name_snapshot, created_at FROM messages WHERE session_id = ?1 ORDER BY id ASC";

/// The messages of a session were read.
pub open spec fn messages_read(
    pre: Trace,
    post: Trace,
    session_id: Seq<char>,
    r: Result<Vec<MessageRow>, DbError>,
) -> bool {
    rows::listed(pre, post, SQL_READ_MESSAGES@, seq![Datum::Text(session_id)], r)
}

fn read_messages(db: &mut Db, session_id: &str) -> (r: Result<Vec<MessageRow>, DbError>)
    ensures
        messages_read(old(db)@, final(db)@, session_id@, r),
{
    list(db, SQL_READ_MESSAGES, params1(p_text(session_id)))
}

/// The messages of a session were read, and their contents with them.
pub open spec fn messages_listed<D: Fn(&str) -> Option<Vec<Block>>>(
    pre: Trace,
    post: Trace,
    decode: D,
    session_id: Seq<char>,
    r: Result<Vec<Message>, DbError>,
) -> bool {
    exists|got: Result<Vec<MessageRow>, DbError>|
        {
            &&& #[trigger] messages_read(pre, post, session_id, got)
            &&& match got {
                Ok(rows) => r matches Ok(messages) && are_messages(decode, rows@, messages@),
                Err(e) => r == Err::<Vec<Message>, DbError>(e),
            }
        }
}

/// The messages of a session, oldest first. A content that `decode` cannot read is empty.
pub fn get_messages<D: Fn(&str) -> Option<Vec<Block>>>(db: &mut Db, session_id: &str, decode: D) -> (r:
    Result<Vec<Message>, DbError>)
    requires
        decodes(decode),
    ensures
        messages_listed(old(db)@, final(db)@, decode, session_id@, r),
{
    let got = read_messages(db, session_id);
    let ghost post = db@;
    assert(messages_read(old(db)@, post, session_id@, got));
    let mut rows = match got {
        Ok(rows) => rows,
        Err(e) => return Err(e),
    };
    let ghost all = rows@;
    let mut messages: Vec<Message> = Vec::new();
    let mut i: usize = 0;
    let n: usize = rows.len();
    while i < n
        invariant
            decodes(decode),
            i <= n == all.len(),
            rows@.len() == n,
            forall|k: int| i <= k < n ==> #[trigger] rows@[k] == all[k],
            messages@.len() == i,
            forall|k: int| 0 <= k < i ==> is_message(decode, all[k], #[trigger] messages@[k]),
        decreases n - i,
    {
        let mut row = blank_row();
        std::mem::swap(&mut row, &mut rows[i]);
        assert(row == all[i as int]);
        messages.push(message_of(row, &decode));
        i += 1;
    }
    Ok(messages)
}

/// A stored message that says nothing: it takes the place of one that is moved out of a list.
fn blank_row() -> (row: MessageRow)
    ensures
        row.id == 0,
        row.role@ == Seq::<char>::empty(),
        row.content@ == Seq::<char>::empty(),
        row.engine is None,
        row.agent_id is None,
        row.agent_name_snapshot is None,
        row.created_at == 0,
{
    MessageRow {
        id: 0,
        role: String::new(),
        content: String::new(),
        engine: None,
        agent_id: None,
        agent_name_snapshot: None,
        created_at: 0,
    }
}

/// Whether a result is the message that a stored one says, if there is one.
pub open spec fn message_result<D: Fn(&str) -> Option<Vec<Block>>>(
    decode: D,
    got: Result<Option<MessageRow>, DbError>,
    r: Result<Option<Message>, DbError>,
) -> bool {
    match got {
        Ok(Some(row)) => r matches Ok(Some(m)) && is_message(decode, row, m),
        Ok(None) => r matches Ok(None),
        Err(e) => r == Err::<Option<Message>, DbError>(e),
    }
}

fn message_from<D: Fn(&str) -> Option<Vec<Block>>>(
    got: Result<Option<MessageRow>, DbError>,
    decode: &D,
) -> (r: Result<Option<Message>, DbError>)
    requires
        decodes(*decode),
    ensures
        message_result(*decode, got, r),
{
    match got {
        Ok(Some(row)) => Ok(Some(message_of(row, decode))),
        Ok(None) => Ok(None),
        Err(e) => Err(e),
    }
}

pub const SQL_READ_MESSAGE: &'static str = "SELECT id, role, content, engine, agent_id, agent_name_snapshot, created_at FROM messages WHERE id = ?1";

/// A message was read.
pub open spec fn message_read(
    pre: Trace,
    post: Trace,
    id: i64,
    r: Result<Option<MessageRow>, DbError>,
) -> bool {
    rows::found(pre, post, SQL_READ_MESSAGE@, seq![Datum::Integer(id)], r)
}

fn read_message(db: &mut Db, id: i64) -> (r: Result<Option<MessageRow>, DbError>)
    ensures
        message_read(old(db)@, final(db)@, id, r),
{
    find(db, SQL_READ_MESSAGE, params1(p_int(id)))
}

/// A message was read, and its content with it.
pub open spec fn message_got<D: Fn(&str) -> Option<Vec<Block>>>(
    pre: Trace,
    post: Trace,
    decode: D,
    id: i64,
    r: Result<Option<Message>, DbError>,
) -> bool {
    exists|got: Result<Option<MessageRow>, DbError>|
        #[trigger] message_read(pre, post, id, got) && message_result(decode, got, r)
}

/// A message, if there is one.
pub fn get_message_by_id<D: Fn(&str) -> Option<Vec<Block>>>(db: &mut Db, id: i64, decode: &D) -> (r:
    Result<Option<Message>, DbError>)
    requires
        decodes(*decode),
    ensures
        message_got(old(db)@, final(db)@, *decode, id, r),
{
    let got = read_message(db, id);
    assert(message_read(old(db)@, db@, id, got));
    message_from(got, decode)
}

pub const SQL_READ_MESSAGE_BY_KEY: &'static str = "SELECT id, role, content, engine, agent_id, agent_name_snapshot, created_at \
         FROM messages WHERE session_id = ?1 AND dedup_key = ?2";

/// The message of a session with a key was read.
pub open spec fn keyed_message_read(
    pre: Trace,
    post: Trace,
    session_id: Seq<char>,
    dedup_key: Seq<char>,
    r: Result<Option<MessageRow>, DbError>,
) -> bool {
    rows::found(
        pre,
        post,
        SQL_READ_MESSAGE_BY_KEY@,
        seq![Datum::Text(session_id), Datum::Text(dedup_key)],
        r,
    )
}

fn read_message_by_key(
    db: &mut Db,
    session_id: &str,
    dedup_key: &str,
) -> (r: Result<Option<MessageRow>, DbError>)
    ensures
        keyed_message_read(old(db)@, final(db)@, session_id@, dedup_key@, r),
{
    find(db, SQL_READ_MESSAGE_BY_KEY, params2(p_text(session_id), p_text(dedup_key)))
}

/// The message of a session with a key, if there is one.
pub fn get_message_by_session_and_dedup_key<D: Fn(&str) -> Option<Vec<Block>>>(
    db: &mut Db,
    session_id: &str,
    dedup_key: &str,
    decode: &D,
) -> (r: Result<Option<Message>, DbError>)
    requires
        decodes(*decode),
    ensures
        exists|got: Result<Option<MessageRow>, DbError>|
            #[trigger] keyed_message_read(
                old(db)@,
                final(db)@,
                session_id@,
                dedup_key@,
                got,
            ) && message_result(*decode, got, r),
{
    let got = read_message_by_key(db, session_id, dedup_key);
    assert(keyed_message_read(old(db)@, db@, session_id@, dedup_key@, got));
    message_from(got, decode)
}

/// Whether a member with an assignment reports that it changed a file, whose path is written with
/// slashes.
pub open spec fn member_changed(
    member: MemberSnapshot,
    assignment_id: Seq<char>,
    path: Seq<char>,
) -> bool {
    &&& member.assignment_id@ == assignment_id
    &&& member.result matches Some(result)
    &&& exists|i: int|
        0 <= i < result.changed_files@.len() && path == text::replaced(
            #[trigger] result.changed_files@[i].path@,
            '\\',
            "/"@,
        )
}

/// Whether a block is a run of a team in which a member with an assignment changed a file.
pub open spec fn block_changed(
    block: Block,
    run_id: Seq<char>,
    assignment_id: Seq<char>,
    path: Seq<char>,
) -> bool {
    &&& block matches Block::TeamRun { run_id: id, members, .. }
    &&& id@ == run_id
    &&& exists|i: int|
        0 <= i < members@.len() && member_changed(#[trigger] members@[i], assignment_id, path)
}

/// Whether a message tells of a file that a member changed.
pub open spec fn message_changed(
    m: Message,
    run_id: Seq<char>,
    assignment_id: Seq<char>,
    path: Seq<char>,
) -> bool {
    exists|i: int|
        0 <= i < m.content@.len() && block_changed(
            #[trigger] m.content@[i],
            run_id,
            assignment_id,
            path,
        )
}

/// Whether messages tell of a file that a member changed.
pub open spec fn messages_changed(
    messages: Seq<Message>,
    run_id: Seq<char>,
    assignment_id: Seq<char>,
    path: Seq<char>,
) -> bool {
    exists|i: int|
        0 <= i < messages.len() && message_changed(
            #[trigger] messages[i],
            run_id,
            assignment_id,
            path,
        )
}

/// Whether a text is a path with slashes in place of its backslashes.
pub open spec fn is_slashed(path: Seq<char>, slashed: Seq<char>) -> bool {
    &&& slashed.len() == path.len()
    &&& forall|i: int|
        0 <= i < path.len() ==> #[trigger] slashed[i] == if path[i] == '\\' {
            '/'
        } else {
            path[i]
        }
}

/// Whether the file at a place among the changed files of a member's result has a path: `message`,
/// `block`, `member` and `file` are the places of the message, of the team's run in it, of the member
/// in that and of the file.
pub open spec fn reports_file(
    messages: Seq<Message>,
    message: int,
    block: int,
    member: int,
    file: int,
    run_id: Seq<char>,
    assignment_id: Seq<char>,
    path: Seq<char>,
) -> bool {
    &&& 0 <= message < messages.len()
    &&& 0 <= block < messages[message].content@.len()
    &&& messages[message].content@[block] matches Block::TeamRun { run_id: id, members, .. }
    &&& id@ == run_id
    &&& 0 <= member < members@.len()
    &&& members@[member].assignment_id@ == assignment_id
    &&& members@[member].result matches Some(result)
    &&& 0 <= file < result.changed_files@.len()
    &&& result.changed_files@[file].path@ == path
}

/// Whether a text is the path of a file that a member reports, with slashes in place of backslashes.
pub open spec fn is_reported_path(
    messages: Seq<Message>,
    run_id: Seq<char>,
    assignment_id: Seq<char>,
    slashed: Seq<char>,
) -> bool {
    exists|message: int, block: int, member: int, file: int, path: Seq<char>|
        #[trigger] reports_file(
            messages,
            message,
            block,
            member,
            file,
            run_id,
            assignment_id,
            path,
        ) && is_slashed(path, slashed)
}

/// Whether paths are those of the files that a member reports, whatever was changed in them: each
/// file's path is among them, written with slashes, and each of them is such a path; they are in order
/// and none is there twice.
pub open spec fn are_reported_paths(
    messages: Seq<Message>,
    run_id: Seq<char>,
    assignment_id: Seq<char>,
    paths: Seq<Seq<char>>,
) -> bool {
    &&& forall|message: int, block: int, member: int, file: int, path: Seq<char>, slashed: Seq<char>|
        #[trigger] reports_file(
            messages,
            message,
            block,
            member,
            file,
            run_id,
            assignment_id,
            path,
        ) && #[trigger] is_slashed(path, slashed) ==> paths.contains(slashed)
    &&& forall|i: int|
        0 <= i < paths.len() ==> is_reported_path(
            messages,
            run_id,
            assignment_id,
            #[trigger] paths[i],
        )
    &&& forall|i: int, j: int| 0 <= i < j < paths.len() ==> text::before(paths[i], paths[j])
}

proof fn lemma_slashed(path: Seq<char>, slashed: Seq<char>)
    ensures
        is_slashed(path, slashed) <==> slashed == text::replaced(path, '\\', "/"@),
{
    reveal_strlit("/");
    assert("/"@ =~= seq!['/']);
    text::law_replacing_a_character_keeps_places(path, '\\', '/');
    let wanted = text::replaced(path, '\\', "/"@);
    if is_slashed(path, slashed) {
        assert(slashed =~= wanted);
    }
}

proof fn lemma_reported_is_changed(
    messages: Seq<Message>,
    message: int,
    block: int,
    member: int,
    file: int,
    run_id: Seq<char>,
    assignment_id: Seq<char>,
    path: Seq<char>,
    slashed: Seq<char>,
)
    requires
        reports_file(messages, message, block, member, file, run_id, assignment_id, path),
        is_slashed(path, slashed),
    ensures
        messages_changed(messages, run_id, assignment_id, slashed),
{
    lemma_slashed(path, slashed);
    let said = messages[message].content@[block];
    let one = said->TeamRun_members@[member];
    let files = one.result->Some_0.changed_files@;
    assert(slashed == text::replaced(files[file].path@, '\\', "/"@));
    assert(member_changed(one, assignment_id, slashed));
    assert(block_changed(said, run_id, assignment_id, slashed));
    assert(message_changed(messages[message], run_id, assignment_id, slashed));
}

proof fn lemma_changed_is_reported(
    messages: Seq<Message>,
    run_id: Seq<char>,
    assignment_id: Seq<char>,
    slashed: Seq<char>,
)
    requires
        messages_changed(messages, run_id, assignment_id, slashed),
    ensures
        is_reported_path(messages, run_id, assignment_id, slashed),
{
    let message = choose|i: int|
        0 <= i < messages.len() && message_changed(
            #[trigger] messages[i],
            run_id,
            assignment_id,
            slashed,
        );
    let content = messages[message].content@;
    let block = choose|i: int|
        0 <= i < content.len() && block_changed(
            #[trigger] content[i],
            run_id,
            assignment_id,
            slashed,
        );
    let members = content[block]->TeamRun_members@;
    let member = choose|i: int|
        0 <= i < members.len() && member_changed(#[trigger] members[i], assignment_id, slashed);
    let files = members[member].result->Some_0.changed_files@;
    let file = choose|i: int|
        0 <= i < files.len() && slashed == text::replaced(
            #[trigger] files[i].path@,
            '\\',
            "/"@,
        );
    lemma_slashed(files[file].path@, slashed);
    assert(reports_file(
        messages,
        message,
        block,
        member,
        file,
        run_id,
        assignment_id,
        files[file].path@,
    ));
}

/// The paths of the files that a member changed are those of all the files in its results, whatever
/// was changed in them, in order and none twice.
pub proof fn law_paths_are_those_of_every_reported_file(
    messages: Seq<Message>,
    run_id: Seq<char>,
    assignment_id: Seq<char>,
    paths: Seq<Seq<char>>,
)
    requires
        text::ascending(paths),
        forall|p: Seq<char>| #[trigger]
            paths.to_set().contains(p) <==> messages_changed(messages, run_id, assignment_id, p),
    ensures
        are_reported_paths(messages, run_id, assignment_id, paths),
{
    assert forall|
        message: int,
        block: int,
        member: int,
        file: int,
        path: Seq<char>,
        slashed: Seq<char>,
    |
        #[trigger] reports_file(
            messages,
            message,
            block,
            member,
            file,
            run_id,
            assignment_id,
            path,
        ) && #[trigger] is_slashed(path, slashed) implies paths.contains(slashed) by {
        lemma_reported_is_changed(
            messages,
            message,
            block,
            member,
            file,
            run_id,
            assignment_id,
            path,
            slashed,
        );
        assert(paths.to_set().contains(slashed));
    }
    assert forall|i: int| 0 <= i < paths.len() implies is_reported_path(
        messages,
        run_id,
        assignment_id,
        #[trigger] paths[i],
    ) by {
        assert(paths.to_set().contains(paths[i]));
        lemma_changed_is_reported(messages, run_id, assignment_id, paths[i]);
    }
}

fn add_member_paths(paths: &mut Vec<String>, member: &MemberSnapshot, assignment_id: &str)
    requires
        text::ascending(text::texts(old(paths)@)),
    ensures
        text::ascending(text::texts(final(paths)@)),
        forall|p: Seq<char>| #[trigger]
            text::texts(
                final(paths)@,
            ).to_set().contains(p) <==> text::texts(old(paths)@).to_set().contains(p)
                || member_changed(*member, assignment_id@, p),
{
    if !same(member.assignment_id.as_str(), assignment_id) {
        return;
    }
    match &member.result {
        Some(result) => {
            let ghost files = result.changed_files@;
            let mut i: usize = 0;
            while i < result.changed_files.len()
                invariant
                    files == result.changed_files@,
                    i <= files.len(),
                    text::ascending(text::texts(paths@)),
                    forall|p: Seq<char>| #[trigger]
                        text::texts(paths@).to_set().contains(p) <==> text::texts(
                            old(paths)@,
                        ).to_set().contains(p) || exists|k: int|
                            0 <= k < i && p == text::replaced(
                                #[trigger] files[k].path@,
                                '\\',
                                "/"@,
                            ),
                decreases result.changed_files.len() - i,
            {
                let path = replace_char(result.changed_files[i].path.as_str(), '\\', "/");
                let ghost said = path@;
                let ghost was = text::texts(paths@).to_set();
                assert(said == text::replaced(files[i as int].path@, '\\', "/"@));
                add_in_order(paths, path);
                assert forall|p: Seq<char>| #[trigger]
                    text::texts(paths@).to_set().contains(p) <==> text::texts(old(paths)@).to_set().contains(
                        p,
                    ) || exists|k: int|
                        0 <= k < i + 1 && p == text::replaced(
                            #[trigger] files[k].path@,
                            '\\',
                            "/"@,
                        ) by {
                    assert(
                        text::texts(paths@).to_set().contains(p) <==> was.contains(p) || p == said
                    );
                }
                i += 1;
            }
        },
        None => {},
    }
}

fn add_block_paths(paths: &mut Vec<String>, block: &Block, run_id: &str, assignment_id: &str)
    requires
        text::ascending(text::texts(old(paths)@)),
    ensures
        text::ascending(text::texts(final(paths)@)),
        forall|p: Seq<char>| #[trigger]
            text::texts(
                final(paths)@,
            ).to_set().contains(p) <==> text::texts(old(paths)@).to_set().contains(p)
                || block_changed(*block, run_id@, assignment_id@, p),
{
    match block {
        Block::TeamRun { run_id: id, members, .. } => {
            if !same(id.as_str(), run_id) {
                return;
            }
            let mut i: usize = 0;
            while i < members.len()
                invariant
                    i <= members@.len(),
                    text::ascending(text::texts(paths@)),
                    forall|p: Seq<char>| #[trigger]
                        text::texts(paths@).to_set().contains(p) <==> text::texts(
                            old(paths)@,
                        ).to_set().contains(p) || exists|k: int|
                            0 <= k < i && member_changed(
                                #[trigger] members@[k],
                                assignment_id@,
                                p,
                            ),
                decreases members.len() - i,
            {
                let ghost was = text::texts(paths@).to_set();
                add_member_paths(paths, &members[i], assignment_id);
                assert forall|p: Seq<char>| #[trigger]
                    text::texts(paths@).to_set().contains(p) <==> text::texts(old(paths)@).to_set().contains(
                        p,
                    ) || exists|k: int|
                        0 <= k < i + 1 && member_changed(
                            #[trigger] members@[k],
                            assignment_id@,
                            p,
                        ) by {
                    assert(text::texts(paths@).to_set().contains(p) <==> was.contains(p)
                        || member_changed(members@[i as int], assignment_id@, p));
                }
                i += 1;
            }
        },
        _ => {},
    }
}

fn add_message_paths(paths: &mut Vec<String>, m: &Message, run_id: &str, assignment_id: &str)
    requires
        text::ascending(text::texts(old(paths)@)),
    ensures
        text::ascending(text::texts(final(paths)@)),
        forall|p: Seq<char>| #[trigger]
            text::texts(
                final(paths)@,
            ).to_set().contains(p) <==> text::texts(old(paths)@).to_set().contains(p)
                || message_changed(*m, run_id@, assignment_id@, p),
{
    let mut i: usize = 0;
    while i < m.content.len()
        invariant
            i <= m.content@.len(),
            text::ascending(text::texts(paths@)),
            forall|p: Seq<char>| #[trigger]
                text::texts(paths@).to_set().contains(p) <==> text::texts(
                    old(paths)@,
                ).to_set().contains(p)
                    || exists|k: int|
                    0 <= k < i && block_changed(
                        #[trigger] m.content@[k],
                        run_id@,
                        assignment_id@,
                        p,
                    ),
        decreases m.content.len() - i,
    {
        let ghost was = text::texts(paths@).to_set();
        add_block_paths(paths, &m.content[i], run_id, assignment_id);
        assert forall|p: Seq<char>| #[trigger]
            text::texts(paths@).to_set().contains(p) <==> text::texts(
                old(paths)@,
            ).to_set().contains(p)
                || exists|k: int|
                0 <= k < i + 1 && block_changed(
                    #[trigger] m.content@[k],
                    run_id@,
                    assignment_id@,
                    p,
                ) by {
            assert(text::texts(paths@).to_set().contains(p) <==> was.contains(p) || block_changed(
                m.content@[i as int],
                run_id@,
                assignment_id@,
                p,
            ));
        }
        i += 1;
    }
}

/// The paths of the files that a member changed, as messages tell it: in order, none twice.
pub fn changed_paths(messages: &Vec<Message>, run_id: &str, assignment_id: &str) -> (paths: Vec<
    String,
>)
    ensures
        text::ascending(text::texts(paths@)),
        forall|p: Seq<char>| #[trigger]
            text::texts(paths@).to_set().contains(p) <==> messages_changed(
                messages@,
                run_id@,
                assignment_id@,
                p,
            ),
        are_reported_paths(messages@, run_id@, assignment_id@, text::texts(paths@)),
{
    let mut paths: Vec<String> = Vec::new();
    let mut i: usize = 0;
    assert(text::texts(paths@) =~= Seq::<Seq<char>>::empty());
    while i < messages.len()
        invariant
            i <= messages@.len(),
            text::ascending(text::texts(paths@)),
            forall|p: Seq<char>| #[trigger]
                text::texts(paths@).to_set().contains(p) <==> exists|k: int|
                    0 <= k < i && message_changed(
                        #[trigger] messages@[k],
                        run_id@,
                        assignment_id@,
                        p,
                    ),
        decreases messages.len() - i,
    {
        let ghost was = text::texts(paths@).to_set();
        add_message_paths(&mut paths, &messages[i], run_id, assignment_id);
        assert forall|p: Seq<char>| #[trigger]
            text::texts(paths@).to_set().contains(p) <==> exists|k: int|
                0 <= k < i + 1 && message_changed(
                    #[trigger] messages@[k],
                    run_id@,
                    assignment_id@,
                    p,
                ) by {
            assert(text::texts(paths@).to_set().contains(p) <==> was.contains(p) || message_changed(
                messages@[i as int],
                run_id@,
                assignment_id@,
                p,
            ));
        }
        i += 1;
    }
    proof {
        law_paths_are_those_of_every_reported_file(
            messages@,
            run_id@,
            assignment_id@,
            text::texts(paths@),
        );
    }
    paths
}

/// The paths of the files that a member of a run changed, as the messages of a session tell it: in
/// order, none twice, written with slashes.
pub fn member_changed_paths_from_messages<D: Fn(&str) -> Option<Vec<Block>>>(
    db: &mut Db,
    session_id: &str,
    run_id: &str,
    assignment_id: &str,
    decode: D,
) -> (r: Result<Vec<String>, DbError>)
    requires
        decodes(decode),
    ensures
        exists|got: Result<Vec<Message>, DbError>|
            {
                &&& #[trigger] messages_listed(old(db)@, final(db)@, decode, session_id@, got)
                &&& match got {
                    Ok(messages) => {
                        &&& r matches Ok(paths)
                        &&& are_reported_paths(
                            messages@,
                            run_id@,
                            assignment_id@,
                            text::texts(paths@),
                        )
                        &&& text::ascending(text::texts(paths@))
                        &&& forall|p: Seq<char>| #[trigger]
                            text::texts(paths@).to_set().contains(p) <==> messages_changed(
                                messages@,
                                run_id@,
                                assignment_id@,
                                p,
                            )
                    },
                    Err(e) => r == Err::<Vec<String>, DbError>(e),
                }
            },
{
    let got = get_messages(db, session_id, decode);
    assert(messages_listed(old(db)@, db@, decode, session_id@, got));
    match got {
        Ok(messages) => Ok(changed_paths(&messages, run_id, assignment_id)),
        Err(e) => Err(e),
    }
}

} // verus!
