//! What a session remembers: slots that are overwritten, entries and decisions that are only
//! added, and the summary of the conversation so far.
use vstd::prelude::*;

use crate::engine::{Cell, Datum, Db, DbError, Trace};
use crate::events;
use crate::json::{self, get, has_text, integer, parse_json, print_json, signed_of, Json, Node};
use crate::rows::{
    self,
    find,
    int_at,
    list,
    opt_text_at,
    p_flag,
    p_int,
    p_opt_text,
    p_text,
    params1,
    params2,
    params5,
    params6,
    params7,
    params8,
    reads_in_order,
    run,
    run_insert,
    text_at,
    FromRow,
    Kind,
    Read,
};
use crate::text;
use crate::trace;

verus! {

/// A slot of a session's memory that a write overwrites: its goal, state or next step.
#[derive(Debug, Clone, PartialEq)]
pub struct MemoryBlock {
    pub session_id: String,
    pub slot: String,
    pub text: String,
    pub title: Option<String>,
    pub anchor_refs_json: String,
    pub updated_by: Option<String>,
    pub updated_at: i64,
    pub revision: i64,
    pub updated_run_id: Option<String>,
}

impl FromRow for MemoryBlock {
    open spec fn reads() -> Seq<Read> {
        rows::in_order(seq![
            Kind::Text,
            Kind::Text,
            Kind::Text,
            Kind::OptText,
            Kind::Text,
            Kind::OptText,
            Kind::Int,
            Kind::Int,
            Kind::OptText,
        ])
    }

    open spec fn is_row(self, row: Seq<Datum>) -> bool {
        &&& row[0] == Datum::Text(self.session_id@)
        &&& row[1] == Datum::Text(self.slot@)
        &&& row[2] == Datum::Text(self.text@)
        &&& row[3] == rows::opt_text(events::opt(self.title))
        &&& row[4] == Datum::Text(self.anchor_refs_json@)
        &&& row[5] == rows::opt_text(events::opt(self.updated_by))
        &&& row[6] == Datum::Integer(self.updated_at)
        &&& row[7] == Datum::Integer(self.revision)
        &&& row[8] == rows::opt_text(events::opt(self.updated_run_id))
    }

    fn layout() -> (reads: Vec<Read>) {
        let kinds = vec![
            Kind::Text,
            Kind::Text,
            Kind::Text,
            Kind::OptText,
            Kind::Text,
            Kind::OptText,
            Kind::Int,
            Kind::Int,
            Kind::OptText,
        ];
        assert(rows::in_order(kinds@) =~= Self::reads());
        reads_in_order(kinds)
    }

    fn from_row(row: &Vec<Cell>) -> (v: Self) {
        proof {
            rows::lemma_cells(row@, Self::reads());
        }
        MemoryBlock {
            session_id: text_at(row, 0),
            slot: text_at(row, 1),
            text: text_at(row, 2),
            title: opt_text_at(row, 3),
            anchor_refs_json: text_at(row, 4),
            updated_by: opt_text_at(row, 5),
            updated_at: int_at(row, 6),
            revision: int_at(row, 7),
            updated_run_id: opt_text_at(row, 8),
        }
    }
}

/// The summary of a session up to a message.
#[derive(Debug, Clone, PartialEq)]
pub struct CompactState {
    pub summary: String,
    pub through_message_id: i64,
    pub revision: i64,
}

pub const SQL_UPSERT_MEMORY_BLOCK: &'static str = "INSERT INTO memory_blocks (session_id, slot, text, title, updated_by, updated_at, revision) \
         VALUES (?1, ?2, ?3, ?4, ?5, strftime('%s','now'), 1) \
         ON CONFLICT(session_id, slot) DO UPDATE SET \
           text = excluded.text, title = excluded.title, \
           updated_by = excluded.updated_by, updated_at = excluded.updated_at, \
           revision = revision + 1";

/// Writes a slot, over what it held.
pub fn upsert_memory_block(
    db: &mut Db,
    session_id: &str,
    slot: &str,
    text: &str,
    title: Option<&str>,
    updated_by: Option<&str>,
) -> (r: Result<(), DbError>)
    ensures
        rows::executed(
            old(db)@,
            final(db)@,
            SQL_UPSERT_MEMORY_BLOCK@,
            seq![
                Datum::Text(session_id@),
                Datum::Text(slot@),
                Datum::Text(text@),
                rows::opt_text(events::opt_str(title)),
                rows::opt_text(events::opt_str(updated_by)),
            ],
            r,
        ),
{
    run(
        db,
        SQL_UPSERT_MEMORY_BLOCK,
        params5(
            p_text(session_id),
            p_text(slot),
            p_text(text),
            p_opt_text(title),
            p_opt_text(updated_by),
        ),
    )
}

pub const SQL_GET_MEMORY_BLOCK: &'static str = "SELECT session_id, slot, text, title, anchor_refs_json, updated_by, updated_at, revision, updated_run_id \
         FROM memory_blocks WHERE session_id = ?1 AND slot = ?2";

/// A slot was read.
pub open spec fn block_read(
    pre: Trace,
    post: Trace,
    session_id: Seq<char>,
    slot: Seq<char>,
    r: Result<Option<MemoryBlock>, DbError>,
) -> bool {
    rows::found(
        pre,
        post,
        SQL_GET_MEMORY_BLOCK@,
        seq![Datum::Text(session_id), Datum::Text(slot)],
        r,
    )
}

/// A slot, if it was ever written.
pub fn get_memory_block(
    db: &mut Db,
    session_id: &str,
    slot: &str,
) -> (r: Result<Option<MemoryBlock>, DbError>)
    ensures
        block_read(old(db)@, final(db)@, session_id@, slot@, r),
{
    find(db, SQL_GET_MEMORY_BLOCK, params2(p_text(session_id), p_text(slot)))
}

/// The message that a list of anchors points to; none where it is not one anchor to a message.
pub open spec fn anchored_message(anchors: Node) -> Option<i64> {
    match anchors {
        Node::Array(items) => if items.len() == 1 && json::says(items[0], "kind"@, "message"@) {
            json::integer_in(json::member(items[0], "ref"@))
        } else {
            None
        },
        _ => None,
    }
}

/// The summary that a slot holds, its anchors read as `anchors`.
pub fn compact_state_of(block: MemoryBlock, anchors: &Json) -> (r: Option<CompactState>)
    ensures
        match anchored_message(anchors@) {
            Some(id) => r matches Some(state) && state.summary == block.text
                && state.through_message_id == id && state.revision == block.revision,
            None => r is None,
        },
{
    match anchors {
        Json::Array(items) => {
            proof {
                json::lemma_array(*items);
            }
            if items.len() != 1 || !has_text(&items[0], "kind", "message") {
                return None;
            }
            match get(&items[0], "ref") {
                Some(Json::Number(n)) => match signed_of(n) {
                    Some(id) => Some(
                        CompactState {
                            summary: block.text,
                            through_message_id: id,
                            revision: block.revision,
                        },
                    ),
                    None => None,
                },
                _ => None,
            }
        },
        _ => None,
    }
}

/// What a slot says of a session's summary.
pub open spec fn compacted(block: Option<MemoryBlock>, r: Option<CompactState>) -> bool {
    match block {
        Some(b) => match json::json_parsed(b.anchor_refs_json@) {
            Ok(anchors) => match anchored_message(anchors) {
                Some(id) => r matches Some(state) && state.summary == b.text
                    && state.through_message_id == id && state.revision == b.revision,
                None => r is None,
            },
            Err(_) => r is None,
        },
        None => r is None,
    }
}

/// The summary of a session; none where there is none, or where it is not anchored to exactly one
/// message.
pub fn get_compact_state(db: &mut Db, session_id: &str) -> (r: Result<
    Option<CompactState>,
    DbError,
>)
    ensures
        exists|got: Result<Option<MemoryBlock>, DbError>|
            {
                &&& #[trigger] block_read(old(db)@, final(db)@, session_id@, "compact"@, got)
                &&& match got {
                    Ok(block) => r matches Ok(state) && compacted(block, state),
                    Err(e) => r == Err::<Option<CompactState>, DbError>(e),
                }
            },
{
    match get_memory_block(db, session_id, "compact") {
        Ok(Some(block)) => match parse_json(block.anchor_refs_json.as_str()) {
            Ok(anchors) => Ok(compact_state_of(block, &anchors)),
            Err(_) => Ok(None),
        },
        Ok(None) => Ok(None),
        Err(e) => Err(e),
    }
}

/// The anchor to a message, as a list of one.
pub open spec fn message_anchor(id: i64) -> Node {
    Node::Array(
        seq![
            Node::Object(
                seq![("kind"@, Node::Text("message"@)), ("ref"@, json::integer_node(id))],
            ),
        ],
    )
}

/// The anchor to a message, as a list of one.
pub fn anchor_to_message(id: i64) -> (anchors: Json)
    ensures
        anchors@ == message_anchor(id),
{
    let number = integer(id);
    let ghost n = number@;
    let mut members: Vec<(String, Json)> = Vec::new();
    members.push(("kind".to_string(), Json::Text("message".to_string())));
    members.push(("ref".to_string(), number));
    assert(json::members_of(members@) =~= seq![("kind"@, Node::Text("message"@)), ("ref"@, n)]);
    proof {
        json::lemma_object(members);
    }
    let anchor = Json::Object(members);
    let ghost a = anchor@;
    let mut items: Vec<Json> = Vec::new();
    items.push(anchor);
    assert(json::nodes(items@) =~= seq![a]);
    proof {
        json::lemma_array(items);
    }
    Json::Array(items)
}

/// The anchor that a summary is stored with points to its message.
pub proof fn law_anchor_points_to_its_message(id: i64)
    ensures
        anchored_message(message_anchor(id)) == Some(id),
{
    reveal_strlit("kind");
    reveal_strlit("ref");
    assert("kind"@.len() != "ref"@.len());
    reveal_with_fuel(json::member_from, 3);
}

pub const SQL_UPSERT_COMPACT_STATE: &'static str = "INSERT INTO memory_blocks \
         (session_id, slot, text, title, anchor_refs_json, updated_by, updated_at, revision, updated_run_id) \
         VALUES (?1, 'compact', ?2, NULL, ?3, 'autocompact', strftime('%s','now'), 1, ?5) \
         ON CONFLICT(session_id, slot) DO UPDATE SET \
           text = excluded.text, title = NULL, anchor_refs_json = excluded.anchor_refs_json, \
           updated_by = excluded.updated_by, updated_at = excluded.updated_at, \
           revision = memory_blocks.revision + 1, updated_run_id = excluded.updated_run_id \
         WHERE CASE \
           WHEN json_valid(memory_blocks.anchor_refs_json) = 0 THEN 1 \
           WHEN json_type(memory_blocks.anchor_refs_json) IS NOT 'array' THEN 1 \
           WHEN json_array_length(memory_blocks.anchor_refs_json) != 1 THEN 1 \
           WHEN json_extract(memory_blocks.anchor_refs_json, '$[0].kind') IS NOT 'message' THEN 1 \
           WHEN json_type(memory_blocks.anchor_refs_json, '$[0].ref') IS NOT 'integer' THEN 1 \
           ELSE json_extract(memory_blocks.anchor_refs_json, '$[0].ref') <= ?4 \
         END";

/// The summary of a session was offered to be stored, with an anchor that reads back as itself.
pub open spec fn summary_stored(
    pre: Trace,
    post: Trace,
    session_id: Seq<char>,
    summary: Seq<char>,
    through_message_id: i64,
    run_id: Option<Seq<char>>,
    r: Result<(), DbError>,
) -> bool {
    &&& rows::executed(
        pre,
        post,
        SQL_UPSERT_COMPACT_STATE@,
        seq![
            Datum::Text(session_id),
            Datum::Text(summary),
            Datum::Text(json::json_printed(message_anchor(through_message_id))),
            Datum::Integer(through_message_id),
            rows::opt_text(run_id),
        ],
        r,
    )
    &&& json::reads_as(
        json::json_printed(message_anchor(through_message_id)),
        message_anchor(through_message_id),
    )
}

proof fn lemma_anchor_is_plain(id: i64)
    ensures
        json::is_plain(message_anchor(id), json::DEPTH as nat),
{
    reveal_strlit("kind");
    reveal_strlit("ref");
    let members = message_anchor(id)->Array_0[0]->Object_0;
    let names = json::names(members);
    assert(names[0] == "kind"@ && names[1] == "ref"@);
    assert("kind"@[0] == 'k' && "ref"@[0] == 'r');
    assert(text::before("kind"@, "ref"@));
    reveal_with_fuel(json::is_plain, 3);
}

/// Stores the summary of a session up to a message, unless the one that is stored reaches
/// further.
pub fn upsert_compact_state(
    db: &mut Db,
    session_id: &str,
    summary: &str,
    through_message_id: i64,
    run_id: Option<&str>,
) -> (r: Result<(), DbError>)
    ensures
        summary_stored(
            old(db)@,
            final(db)@,
            session_id@,
            summary@,
            through_message_id,
            events::opt_str(run_id),
            r,
        ),
{
    let anchors = print_json(&anchor_to_message(through_message_id));
    proof {
        lemma_anchor_is_plain(through_message_id);
    }
    run(
        db,
        SQL_UPSERT_COMPACT_STATE,
        params5(
            p_text(session_id),
            p_text(summary),
            p_text(anchors.as_str()),
            p_int(through_message_id),
            p_opt_text(run_id),
        ),
    )
}

/// What was stored is what is read: from a slot that holds what a summary was stored as, that
/// summary is read, up to the same message.
pub proof fn law_summary_round_trip(
    pre: Trace,
    post: Trace,
    session_id: Seq<char>,
    summary: Seq<char>,
    through_message_id: i64,
    run_id: Option<Seq<char>>,
    stored: Result<(), DbError>,
    block: MemoryBlock,
    r: Option<CompactState>,
)
    requires
        summary_stored(pre, post, session_id, summary, through_message_id, run_id, stored),
        block.text@ == summary,
        block.anchor_refs_json@ == json::json_printed(message_anchor(through_message_id)),
        compacted(Some(block), r),
    ensures
        r matches Some(state) && state.summary@ == summary && state.through_message_id
            == through_message_id && state.revision == block.revision,
{
    law_anchor_points_to_its_message(through_message_id);
}

/// What a slot holds of a summary: its text, its anchors and its revision.
pub struct Slot {
    pub text: Seq<char>,
    pub anchors: Seq<char>,
    pub revision: int,
}

/// The message up to which the anchors of a slot say that its summary reaches; none where they are
/// not one anchor to a message.
pub open spec fn watermark(anchors: Seq<char>) -> Option<i64> {
    match json::json_parsed(anchors) {
        Ok(node) => anchored_message(node),
        Err(_) => None,
    }
}

/// What a slot holds after `SQL_UPSERT_COMPACT_STATE` was run with values: what it held, where that
/// reaches further; else what the values say, as the next revision.
pub open spec fn slot_after(before: Option<Slot>, bound: Seq<Datum>) -> Slot {
    let offered = Slot {
        text: bound[1]->Text_0,
        anchors: bound[2]->Text_0,
        revision: match before {
            Some(slot) => slot.revision + 1,
            None => 1,
        },
    };
    match before {
        Some(slot) => match watermark(slot.anchors) {
            Some(reached) => if reached <= bound[3]->Integer_0 {
                offered
            } else {
                slot
            },
            None => offered,
        },
        None => offered,
    }
}

/// The message up to which a summary reaches never goes back: one that reaches as far or further
/// takes the place of the stored one, as its next revision, and one that does not leaves it as it
/// is.
pub proof fn law_watermark_never_goes_back(
    pre: Trace,
    post: Trace,
    session_id: Seq<char>,
    summary: Seq<char>,
    through_message_id: i64,
    run_id: Option<Seq<char>>,
    before: Option<Slot>,
)
    requires
        summary_stored(
            pre,
            post,
            session_id,
            summary,
            through_message_id,
            run_id,
            Ok::<(), DbError>(()),
        ),
    ensures
        ({
            let after = slot_after(before, post.last()->request->Execute_params);
            let reached = match before {
                Some(slot) => watermark(slot.anchors),
                None => None,
            };
            &&& reached matches Some(m) ==> watermark(after.anchors) matches Some(n) && n >= m
            &&& if reached is Some && through_message_id < reached->Some_0 {
                Some(after) == before
            } else {
                &&& after.text == summary
                &&& watermark(after.anchors) == Some(through_message_id)
                &&& after.revision == match before {
                    Some(slot) => slot.revision + 1,
                    None => 1,
                }
            }
        }),
{
    law_anchor_points_to_its_message(through_message_id);
    assert(post.last()->request->Execute_params =~= seq![
        Datum::Text(session_id),
        Datum::Text(summary),
        Datum::Text(json::json_printed(message_anchor(through_message_id))),
        Datum::Integer(through_message_id),
        rows::opt_text(run_id),
    ]);
}

/// What became of a write under an optimistic lock.
#[derive(Debug, Clone, PartialEq)]
pub enum MemorySetOutcome {
    Applied { revision: i64 },
    Conflict { current_revision: i64 },
}

pub const SQL_CURRENT_REVISION: &'static str = "SELECT revision FROM memory_blocks WHERE session_id = ?1 AND slot = ?2";

/// The revision of a slot was read.
pub open spec fn revision_read(
    pre: Trace,
    post: Trace,
    session_id: Seq<char>,
    slot: Seq<char>,
    r: Result<Option<i64>, DbError>,
) -> bool {
    rows::found(
        pre,
        post,
        SQL_CURRENT_REVISION@,
        seq![Datum::Text(session_id), Datum::Text(slot)],
        r,
    )
}

fn current_revision(db: &mut Db, session_id: &str, slot: &str) -> (r: Result<Option<i64>, DbError>)
    ensures
        revision_read(old(db)@, final(db)@, session_id@, slot@, r),
{
    find(db, SQL_CURRENT_REVISION, params2(p_text(session_id), p_text(slot)))
}

pub const SQL_MEMORY_SET_INSERT: &'static str = "INSERT INTO memory_blocks (session_id, slot, text, title, updated_by, updated_at, revision, updated_run_id) \
                     VALUES (?1, ?2, ?3, ?4, ?5, strftime('%s','now'), 1, ?6)";

pub const SQL_MEMORY_SET_UPDATE: &'static str = "UPDATE memory_blocks SET text = ?1, title = ?2, updated_by = ?3, \
                     updated_at = strftime('%s','now'), revision = ?4, updated_run_id = ?5 \
                     WHERE session_id = ?6 AND slot = ?7";

/// A write to a slot.
pub struct Write<'a> {
    pub session_id: &'a str,
    pub slot: &'a str,
    pub text: &'a str,
    pub title: Option<&'a str>,
    pub updated_by: Option<&'a str>,
    pub updated_run_id: Option<&'a str>,
    pub base_revision: i64,
}

/// What is done about a write to a slot whose revision is `current`: it is applied where it is
/// based on that revision, an unwritten slot taken as revision zero; else nothing is stored.
pub open spec fn locked_write(
    pre: Trace,
    post: Trace,
    write: Write,
    current: Option<i64>,
    r: Result<MemorySetOutcome, DbError>,
) -> bool {
    match current {
        None => if write.base_revision == 0 {
            rows::yields(
                pre,
                post,
                SQL_MEMORY_SET_INSERT@,
                seq![
                    Datum::Text(write.session_id@),
                    Datum::Text(write.slot@),
                    Datum::Text(write.text@),
                    rows::opt_text(events::opt_str(write.title)),
                    rows::opt_text(events::opt_str(write.updated_by)),
                    rows::opt_text(events::opt_str(write.updated_run_id)),
                ],
                MemorySetOutcome::Applied { revision: 1 },
                r,
            )
        } else {
            post == pre && r == Ok::<MemorySetOutcome, DbError>(
                MemorySetOutcome::Conflict { current_revision: 0 },
            )
        },
        Some(revision) => if revision != write.base_revision {
            post == pre && r == Ok::<MemorySetOutcome, DbError>(
                MemorySetOutcome::Conflict { current_revision: revision },
            )
        } else if revision == i64::MAX {
            post == pre && r == Err::<MemorySetOutcome, DbError>(
                DbError::OutOfRange { index: 0, value: revision },
            )
        } else {
            rows::yields(
                pre,
                post,
                SQL_MEMORY_SET_UPDATE@,
                seq![
                    Datum::Text(write.text@),
                    rows::opt_text(events::opt_str(write.title)),
                    rows::opt_text(events::opt_str(write.updated_by)),
                    Datum::Integer((revision + 1) as i64),
                    rows::opt_text(events::opt_str(write.updated_run_id)),
                    Datum::Text(write.session_id@),
                    Datum::Text(write.slot@),
                ],
                MemorySetOutcome::Applied { revision: (revision + 1) as i64 },
                r,
            )
        },
    }
}

/// The revision of a slot was read, and the write applied or refused by it.
pub open spec fn memory_written(
    pre: Trace,
    post: Trace,
    write: Write,
    r: Result<MemorySetOutcome, DbError>,
) -> bool {
    exists|mid: Trace, current: Result<Option<i64>, DbError>|
        {
            &&& #[trigger] revision_read(pre, mid, write.session_id@, write.slot@, current)
            &&& match current {
                Ok(revision) => locked_write(mid, post, write, revision, r),
                Err(e) => post == mid && r == Err::<MemorySetOutcome, DbError>(e),
            }
        }
}

/// Writes a slot, provided that nobody wrote it since the caller read it: `base_revision` is the
/// revision that the caller read, zero for a slot that was not there. A write based on another
/// revision is a conflict, and stores nothing. The revision after the last one is out of range.
pub fn memory_set(
    db: &mut Db,
    session_id: &str,
    slot: &str,
    text: &str,
    title: Option<&str>,
    updated_by: Option<&str>,
    updated_run_id: Option<&str>,
    base_revision: i64,
) -> (r: Result<MemorySetOutcome, DbError>)
    ensures
        memory_written(
            old(db)@,
            final(db)@,
            (Write { session_id, slot, text, title, updated_by, updated_run_id, base_revision }),
            r,
        ),
{
    let ghost write = Write {
        session_id,
        slot,
        text,
        title,
        updated_by,
        updated_run_id,
        base_revision,
    };
    let current = current_revision(db, session_id, slot);
    assert(revision_read(old(db)@, db@, write.session_id@, write.slot@, current));
    match current {
        Err(e) => Err(e),
        Ok(None) => {
            if base_revision != 0 {
                return Ok(MemorySetOutcome::Conflict { current_revision: 0 });
            }
            match run(
                db,
                SQL_MEMORY_SET_INSERT,
                params6(
                    p_text(session_id),
                    p_text(slot),
                    p_text(text),
                    p_opt_text(title),
                    p_opt_text(updated_by),
                    p_opt_text(updated_run_id),
                ),
            ) {
                Ok(()) => Ok(MemorySetOutcome::Applied { revision: 1 }),
                Err(e) => Err(e),
            }
        },
        Ok(Some(revision)) => {
            if revision != base_revision {
                return Ok(MemorySetOutcome::Conflict { current_revision: revision });
            }
            if revision == i64::MAX {
                return Err(DbError::OutOfRange { index: 0, value: revision });
            }
            match run(
                db,
                SQL_MEMORY_SET_UPDATE,
                params7(
                    p_text(text),
                    p_opt_text(title),
                    p_opt_text(updated_by),
                    p_int(revision + 1),
                    p_opt_text(updated_run_id),
                    p_text(session_id),
                    p_text(slot),
                ),
            ) {
                Ok(()) => Ok(MemorySetOutcome::Applied { revision: revision + 1 }),
                Err(e) => Err(e),
            }
        },
    }
}

/// No update is lost: a write that is applied was based on the revision that the slot had, and
/// makes the next one; a write that conflicts stores nothing, for the query is all that it asks of
/// the engine.
pub proof fn law_no_lost_update(
    pre: Trace,
    post: Trace,
    write: Write,
    r: Result<MemorySetOutcome, DbError>,
)
    requires
        memory_written(pre, post, write, r),
    ensures
        r matches Ok(MemorySetOutcome::Applied { revision }) ==> revision == write.base_revision + 1
            && post.len() == pre.len() + 2,
        r matches Ok(MemorySetOutcome::Conflict { current_revision }) ==> current_revision
            != write.base_revision && post.len() == pre.len() + 1 && trace::queries(
            post.last(),
            SQL_CURRENT_REVISION@,
        ),
{
}

/// An entry of a session's memory: a decision, a pitfall, a risk or an open question. Entries are
/// only added; a later entry may supersede earlier ones.
#[derive(Debug, Clone, PartialEq)]
pub struct MemoryEntry {
    pub id: i64,
    pub session_id: String,
    pub category: String,
    pub text: String,
    pub source_refs_json: String,
    pub supersedes_json: String,
    pub source: Option<String>,
    pub confidence: Option<String>,
    pub pinned: bool,
    pub created_at: i64,
}

impl FromRow for MemoryEntry {
    open spec fn reads() -> Seq<Read> {
        rows::in_order(seq![
            Kind::Int,
            Kind::Text,
            Kind::Text,
            Kind::Text,
            Kind::Text,
            Kind::Text,
            Kind::OptText,
            Kind::OptText,
            Kind::Int,
            Kind::Int,
        ])
    }

    open spec fn is_row(self, row: Seq<Datum>) -> bool {
        &&& row[0] == Datum::Integer(self.id)
        &&& row[1] == Datum::Text(self.session_id@)
        &&& row[2] == Datum::Text(self.category@)
        &&& row[3] == Datum::Text(self.text@)
        &&& row[4] == Datum::Text(self.source_refs_json@)
        &&& row[5] == Datum::Text(self.supersedes_json@)
        &&& row[6] == rows::opt_text(events::opt(self.source))
        &&& row[7] == rows::opt_text(events::opt(self.confidence))
        &&& rows::reads_as_flag(row[8], self.pinned)
        &&& row[9] == Datum::Integer(self.created_at)
    }

    fn layout() -> (reads: Vec<Read>) {
        let kinds = vec![
            Kind::Int,
            Kind::Text,
            Kind::Text,
            Kind::Text,
            Kind::Text,
            Kind::Text,
            Kind::OptText,
            Kind::OptText,
            Kind::Int,
            Kind::Int,
        ];
        assert(rows::in_order(kinds@) =~= Self::reads());
        reads_in_order(kinds)
    }

    fn from_row(row: &Vec<Cell>) -> (v: Self) {
        proof {
            rows::lemma_cells(row@, Self::reads());
        }
        MemoryEntry {
            id: int_at(row, 0),
            session_id: text_at(row, 1),
            category: text_at(row, 2),
            text: text_at(row, 3),
            source_refs_json: text_at(row, 4),
            supersedes_json: text_at(row, 5),
            source: opt_text_at(row, 6),
            confidence: opt_text_at(row, 7),
            pinned: int_at(row, 8) != 0,
            created_at: int_at(row, 9),
        }
    }
}

pub const SQL_INSERT_MEMORY_ENTRY: &'static str = "INSERT INTO memory_entries \
         (session_id, category, text, source_refs_json, supersedes_json, source, confidence, pinned, created_at) \
         VALUES (?1, ?2, ?3, ?4, ?5, ?6, ?7, ?8, strftime('%s','now'))";

/// The first of two fields whose text is not JSON: its name, and why.
pub open spec fn bad_field(source_refs_json: Seq<char>, supersedes_json: Seq<char>) -> Option<
    (Seq<char>, Seq<char>),
> {
    match (json::json_parsed(source_refs_json), json::json_parsed(supersedes_json)) {
        (Err(detail), _) => Some(("source_refs_json"@, detail)),
        (Ok(_), Err(detail)) => Some(("supersedes_json"@, detail)),
        (Ok(_), Ok(_)) => None,
    }
}

/// Adds an entry; its id. Both references have to be JSON: where one is not, nothing is stored and
/// the error names it.
pub fn insert_memory_entry(
    db: &mut Db,
    session_id: &str,
    category: &str,
    text: &str,
    source_refs_json: &str,
    supersedes_json: &str,
    source: Option<&str>,
    confidence: Option<&str>,
    pinned: bool,
) -> (r: Result<i64, DbError>)
    ensures
        match bad_field(source_refs_json@, supersedes_json@) {
            Some((name, why)) => {
                &&& final(db)@ == old(db)@
                &&& r matches Err(DbError::BadJson { field, detail }) && field@ == name && detail@
                    == why
            },
            None => rows::inserted(
                old(db)@,
                final(db)@,
                SQL_INSERT_MEMORY_ENTRY@,
                seq![
                    Datum::Text(session_id@),
                    Datum::Text(category@),
                    Datum::Text(text@),
                    Datum::Text(source_refs_json@),
                    Datum::Text(supersedes_json@),
                    rows::opt_text(events::opt_str(source)),
                    rows::opt_text(events::opt_str(confidence)),
                    rows::flag(pinned),
                ],
                r,
            ),
        },
{
    match parse_json(source_refs_json) {
        Ok(_) => {},
        Err(detail) => {
            return Err(DbError::BadJson { field: "source_refs_json".to_string(), detail });
        },
    }
    match parse_json(supersedes_json) {
        Ok(_) => {},
        Err(detail) => {
            return Err(DbError::BadJson { field: "supersedes_json".to_string(), detail });
        },
    }
    run_insert(
        db,
        SQL_INSERT_MEMORY_ENTRY,
        params8(
            p_text(session_id),
            p_text(category),
            p_text(text),
            p_text(source_refs_json),
            p_text(supersedes_json),
            p_opt_text(source),
            p_opt_text(confidence),
            p_flag(pinned),
        ),
    )
}

pub const SQL_ALL_MEMORY_ENTRIES: &'static str = "SELECT id, session_id, category, text, source_refs_json, supersedes_json, source, confidence, pinned, created_at FROM memory_entries \
             WHERE session_id = ?1 ORDER BY id ASC";

pub const SQL_LIVE_MEMORY_ENTRIES: &'static str = "SELECT id, session_id, category, text, source_refs_json, supersedes_json, source, confidence, pinned, created_at FROM memory_entries m \
             WHERE m.session_id = ?1 \
               AND NOT EXISTS ( \
                   SELECT 1 FROM memory_entries e, json_each(e.supersedes_json) je \
                   WHERE e.session_id = ?1 \
                     AND e.id > m.id \
                     AND je.type = 'integer' \
                     AND CAST(je.value AS INTEGER) = m.id \
               ) \
             ORDER BY m.id ASC";

/// The entries of a session in the order in which they were added: all of them, or only those
/// that no later entry supersedes.
pub fn list_memory_entries(db: &mut Db, session_id: &str, include_superseded: bool) -> (r: Result<
    Vec<MemoryEntry>,
    DbError,
>)
    ensures
        rows::listed(
            old(db)@,
            final(db)@,
            if include_superseded {
                SQL_ALL_MEMORY_ENTRIES@
            } else {
                SQL_LIVE_MEMORY_ENTRIES@
            },
            seq![Datum::Text(session_id@)],
            r,
        ),
{
    if include_superseded {
        list(db, SQL_ALL_MEMORY_ENTRIES, params1(p_text(session_id)))
    } else {
        list(db, SQL_LIVE_MEMORY_ENTRIES, params1(p_text(session_id)))
    }
}

/// A decision, with where it comes from and what it supersedes.
#[derive(Debug, Clone, PartialEq)]
pub struct DecisionRow {
    pub id: i64,
    pub session_id: String,
    pub run_id: Option<String>,
    pub source_assignment_id: Option<String>,
    pub text: String,
    pub source_refs_json: String,
    pub supersedes_json: String,
    pub source_kind: Option<String>,
    pub confidence: Option<String>,
    pub created_at: i64,
}

impl FromRow for DecisionRow {
    open spec fn reads() -> Seq<Read> {
        rows::in_order(seq![
            Kind::Int,
            Kind::Text,
            Kind::OptText,
            Kind::OptText,
            Kind::Text,
            Kind::Text,
            Kind::Text,
            Kind::OptText,
            Kind::OptText,
            Kind::Int,
        ])
    }

    open spec fn is_row(self, row: Seq<Datum>) -> bool {
        &&& row[0] == Datum::Integer(self.id)
        &&& row[1] == Datum::Text(self.session_id@)
        &&& row[2] == rows::opt_text(events::opt(self.run_id))
        &&& row[3] == rows::opt_text(events::opt(self.source_assignment_id))
        &&& row[4] == Datum::Text(self.text@)
        &&& row[5] == Datum::Text(self.source_refs_json@)
        &&& row[6] == Datum::Text(self.supersedes_json@)
        &&& row[7] == rows::opt_text(events::opt(self.source_kind))
        &&& row[8] == rows::opt_text(events::opt(self.confidence))
        &&& row[9] == Datum::Integer(self.created_at)
    }

    fn layout() -> (reads: Vec<Read>) {
        let kinds = vec![
            Kind::Int,
            Kind::Text,
            Kind::OptText,
            Kind::OptText,
            Kind::Text,
            Kind::Text,
            Kind::Text,
            Kind::OptText,
            Kind::OptText,
            Kind::Int,
        ];
        assert(rows::in_order(kinds@) =~= Self::reads());
        reads_in_order(kinds)
    }

    fn from_row(row: &Vec<Cell>) -> (v: Self) {
        proof {
            rows::lemma_cells(row@, Self::reads());
        }
        DecisionRow {
            id: int_at(row, 0),
            session_id: text_at(row, 1),
            run_id: opt_text_at(row, 2),
            source_assignment_id: opt_text_at(row, 3),
            text: text_at(row, 4),
            source_refs_json: text_at(row, 5),
            supersedes_json: text_at(row, 6),
            source_kind: opt_text_at(row, 7),
            confidence: opt_text_at(row, 8),
            created_at: int_at(row, 9),
        }
    }
}

pub const SQL_INSERT_DECISION: &'static str = "INSERT INTO decision_ledger \
         (session_id, run_id, source_assignment_id, text, source_refs_json, supersedes_json, source_kind, confidence, created_at) \
         VALUES (?1, ?2, ?3, ?4, ?5, ?6, ?7, ?8, strftime('%s','now'))";

/// Adds a decision to the ledger.
pub fn insert_decision(
    db: &mut Db,
    session_id: &str,
    run_id: Option<&str>,
    source_assignment_id: Option<&str>,
    text: &str,
    source_refs_json: &str,
    supersedes_json: &str,
    source_kind: &str,
    confidence: Option<&str>,
) -> (r: Result<(), DbError>)
    ensures
        rows::executed(
            old(db)@,
            final(db)@,
            SQL_INSERT_DECISION@,
            seq![
                Datum::Text(session_id@),
                rows::opt_text(events::opt_str(run_id)),
                rows::opt_text(events::opt_str(source_assignment_id)),
                Datum::Text(text@),
                Datum::Text(source_refs_json@),
                Datum::Text(supersedes_json@),
                Datum::Text(source_kind@),
                rows::opt_text(events::opt_str(confidence)),
            ],
            r,
        ),
{
    run(
        db,
        SQL_INSERT_DECISION,
        params8(
            p_text(session_id),
            p_opt_text(run_id),
            p_opt_text(source_assignment_id),
            p_text(text),
            p_text(source_refs_json),
            p_text(supersedes_json),
            p_text(source_kind),
            p_opt_text(confidence),
        ),
    )
}

pub const SQL_LIST_DECISIONS: &'static str = "SELECT id, session_id, run_id, source_assignment_id, text, source_refs_json, supersedes_json, source_kind, confidence, created_at FROM decision_ledger WHERE session_id = ?1 ORDER BY id";

/// The decisions of a session, in the order in which they were added.
pub fn list_decisions(db: &mut Db, session_id: &str) -> (r: Result<Vec<DecisionRow>, DbError>)
    ensures
        rows::listed(old(db)@, final(db)@, SQL_LIST_DECISIONS@, seq![Datum::Text(session_id@)], r),
{
    list(db, SQL_LIST_DECISIONS, params1(p_text(session_id)))
}

} // verus!
