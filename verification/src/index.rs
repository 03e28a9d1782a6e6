//! What the remote side is given of sessions: their list, their history, and what is sent again after
//! a connection.
use vstd::prelude::*;

use crate::engine::{self, Cell, Datum, Db, DbError, Trace};
use crate::events::{self, opt_clone};
use crate::json::{self, get_text, has_text, parse_json, Json, Node};
use crate::rows::{
    self,
    int_at,
    list,
    opt_int_at,
    opt_text_at,
    p_int,
    p_opt_int,
    p_text,
    params0,
    params1,
    params3,
    reads_in_order,
    text_at,
    FromRow,
    Kind,
    Read,
};
use crate::text::{self, char_range};

verus! {

/// A session, as the remote side lists it.
#[derive(Debug, Clone, PartialEq)]
pub struct SessionIndexSnapshotRow {
    pub id: String,
    pub title: String,
    pub repo_id: Option<String>,
    pub archived: bool,
    pub status: Option<String>,
    pub run_id: Option<String>,
    pub updated_at: i64,
    pub last_msg_preview: Option<String>,
    pub last_activity_at: Option<i64>,
    pub repo_name: Option<String>,
}

/// A session, as it is read for the remote side: with the content of its latest message.
#[derive(Debug, Clone, PartialEq)]
pub struct SnapshotRow {
    pub id: String,
    pub title: String,
    pub repo_id: Option<String>,
    pub archived: bool,
    pub status: Option<String>,
    pub run_id: Option<String>,
    pub updated_at: i64,
    pub latest_content: Option<String>,
    pub last_activity_at: Option<i64>,
    pub repo_name: Option<String>,
}

impl FromRow for SnapshotRow {
    open spec fn reads() -> Seq<Read> {
        seq![
            Read { index: 7, kind: Kind::OptText },
            Read { index: 0, kind: Kind::Text },
            Read { index: 1, kind: Kind::Text },
            Read { index: 2, kind: Kind::OptText },
            Read { index: 3, kind: Kind::Int },
            Read { index: 4, kind: Kind::OptText },
            Read { index: 5, kind: Kind::OptText },
            Read { index: 6, kind: Kind::Int },
            Read { index: 8, kind: Kind::OptInt },
            Read { index: 9, kind: Kind::OptText },
        ]
    }

    open spec fn is_row(self, row: Seq<Datum>) -> bool {
        &&& row[1] == Datum::Text(self.id@)
        &&& row[2] == Datum::Text(self.title@)
        &&& row[3] == rows::opt_text(events::opt(self.repo_id))
        &&& rows::reads_as_flag(row[4], self.archived)
        &&& row[5] == rows::opt_text(events::opt(self.status))
        &&& row[6] == rows::opt_text(events::opt(self.run_id))
        &&& row[7] == Datum::Integer(self.updated_at)
        &&& row[0] == rows::opt_text(events::opt(self.latest_content))
        &&& row[8] == rows::opt_int(self.last_activity_at)
        &&& row[9] == rows::opt_text(events::opt(self.repo_name))
    }

    fn layout() -> (reads: Vec<Read>) {
        let reads = vec![
            Read { index: 7, kind: Kind::OptText },
            Read { index: 0, kind: Kind::Text },
            Read { index: 1, kind: Kind::Text },
            Read { index: 2, kind: Kind::OptText },
            Read { index: 3, kind: Kind::Int },
            Read { index: 4, kind: Kind::OptText },
            Read { index: 5, kind: Kind::OptText },
            Read { index: 6, kind: Kind::Int },
            Read { index: 8, kind: Kind::OptInt },
            Read { index: 9, kind: Kind::OptText },
        ];
        assert(reads@ =~= Self::reads());
        reads
    }

    fn from_row(row: &Vec<Cell>) -> (v: Self) {
        proof {
            rows::lemma_cells(row@, Self::reads());
        }
        SnapshotRow {
            id: text_at(row, 1),
            title: text_at(row, 2),
            repo_id: opt_text_at(row, 3),
            archived: int_at(row, 4) != 0,
            status: opt_text_at(row, 5),
            run_id: opt_text_at(row, 6),
            updated_at: int_at(row, 7),
            latest_content: opt_text_at(row, 0),
            last_activity_at: opt_int_at(row, 8),
            repo_name: opt_text_at(row, 9),
        }
    }
}

/// How many characters a preview has at most.
pub const SESSION_INDEX_PREVIEW_CHARS: usize = 80;

/// The text of a block that is a text.
pub open spec fn shown_text(block: Node) -> Option<Seq<char>> {
    if json::says(block, "type"@, "text"@) {
        json::text_in(json::member(block, "text"@))
    } else {
        None
    }
}

/// The first text among blocks, from the position `from` on.
pub open spec fn first_text(blocks: Seq<Node>, from: nat) -> Option<Seq<char>>
    decreases blocks.len() - from,
{
    if from >= blocks.len() {
        None
    } else {
        match shown_text(blocks[from as int]) {
            Some(s) => Some(s),
            None => first_text(blocks, from + 1),
        }
    }
}

/// The preview of a content: the start of its first text.
pub open spec fn preview_of(content: Result<Node, Seq<char>>) -> Option<Seq<char>> {
    match content {
        Ok(Node::Array(blocks)) => match first_text(blocks, 0) {
            Some(s) => Some(text::char_slice(s, 0, SESSION_INDEX_PREVIEW_CHARS as nat)),
            None => None,
        },
        _ => None,
    }
}

/// The preview of a content, as it was parsed.
pub fn preview(parsed: Result<Json, String>) -> (r: Option<String>)
    ensures
        events::opt(r) == preview_of(
            match parsed {
                Ok(j) => Ok(j@),
                Err(e) => Err(e@),
            },
        ),
        match parsed {
            Ok(j) => match j@ {
                Node::Array(blocks) => previews(blocks, events::opt(r)),
                _ => r is None,
            },
            Err(_) => r is None,
        },
{
    proof {
        law_preview_starts_the_first_text(
            match &parsed {
                Ok(j) => Ok(j@),
                Err(e) => Err(e@),
            },
        );
    }
    match parsed {
        Ok(Json::Array(blocks)) => {
            proof {
                json::lemma_array(blocks);
            }
            let mut i: usize = 0;
            while i < blocks.len()
                invariant
                    i <= blocks@.len(),
                    parsed == Ok::<Json, String>(Json::Array(blocks)),
                    Json::Array(blocks)@ == Node::Array(json::nodes(blocks@)),
                    previews(
                        json::nodes(blocks@),
                        preview_of(Ok::<Node, Seq<char>>(Node::Array(json::nodes(blocks@)))),
                    ),
                    first_text(json::nodes(blocks@), 0) == first_text(
                        json::nodes(blocks@),
                        i as nat,
                    ),
                decreases blocks.len() - i,
            {
                assert(json::nodes(blocks@)[i as int] == blocks@[i as int]@);
                if has_text(&blocks[i], "type", "text") {
                    match get_text(&blocks[i], "text") {
                        Some(s) => {
                            return Some(
                                char_range(s.as_str(), Some([0, SESSION_INDEX_PREVIEW_CHARS])),
                            );
                        },
                        None => {},
                    }
                }
                i += 1;
            }
            None
        },
        _ => None,
    }
}

/// The preview of a message: the start of the first text in its content.
pub fn session_index_message_preview(content_json: &str) -> (r: Option<String>)
    ensures
        events::opt(r) == preview_of(json::json_parsed(content_json@)),
{
    preview(parse_json(content_json))
}

/// A preview has at most `SESSION_INDEX_PREVIEW_CHARS` characters, and is the start of a text.
pub proof fn law_preview_is_short(content: Result<Node, Seq<char>>)
    ensures
        preview_of(content) matches Some(s) ==> s.len() <= SESSION_INDEX_PREVIEW_CHARS && (
        content matches Ok(Node::Array(blocks)) && first_text(blocks, 0) matches Some(text)
            && s.is_prefix_of(text)),
{
}

/// Whether a block is a text that says something: a member `type` with the text `text`, and a member
/// `text` that is a text, the given one.
pub open spec fn is_text_block(block: Node, said: Seq<char>) -> bool {
    &&& json::member(block, "type"@) == Some(Node::Text("text"@))
    &&& json::member(block, "text"@) == Some(Node::Text(said))
}

/// Whether a preview is the start, of at most 80 characters, of the first text among blocks: there is
/// a block with that text and none before it with one; and there is no preview only where no block
/// has a text.
pub open spec fn previews(blocks: Seq<Node>, preview: Option<Seq<char>>) -> bool {
    match preview {
        Some(p) => exists|i: int, said: Seq<char>|
            {
                &&& 0 <= i < blocks.len()
                &&& #[trigger] is_text_block(blocks[i], said)
                &&& forall|k: int, other: Seq<char>|
                    0 <= k < i ==> !#[trigger] is_text_block(blocks[k], other)
                &&& p.len() == if said.len() < 80 {
                    said.len()
                } else {
                    80
                }
                &&& forall|k: int| 0 <= k < p.len() ==> #[trigger] p[k] == said[k]
            },
        None => forall|i: int, said: Seq<char>|
            0 <= i < blocks.len() ==> !#[trigger] is_text_block(blocks[i], said),
    }
}

proof fn lemma_first_text(blocks: Seq<Node>, from: nat)
    requires
        from <= blocks.len(),
    ensures
        match first_text(blocks, from) {
            Some(said) => exists|i: int|
                {
                    &&& from <= i < blocks.len()
                    &&& #[trigger] is_text_block(blocks[i], said)
                    &&& forall|k: int, other: Seq<char>|
                        from <= k < i ==> !#[trigger] is_text_block(blocks[k], other)
                },
            None => forall|i: int, said: Seq<char>|
                from <= i < blocks.len() ==> !#[trigger] is_text_block(blocks[i], said),
        },
    decreases blocks.len() - from,
{
    if from < blocks.len() {
        lemma_first_text(blocks, from + 1);
        match shown_text(blocks[from as int]) {
            Some(said) => {
                assert(is_text_block(blocks[from as int], said));
            },
            None => {
                assert(
                    forall|said: Seq<char>| !#[trigger] is_text_block(blocks[from as int], said)
                );
                if first_text(blocks, from) is Some {
                    let said = first_text(blocks, from)->Some_0;
                    let i = choose|i: int|
                        {
                            &&& from + 1 <= i < blocks.len()
                            &&& #[trigger] is_text_block(blocks[i], said)
                            &&& forall|k: int, other: Seq<char>|
                                from + 1 <= k < i ==> !#[trigger] is_text_block(blocks[k], other)
                        };
                    assert(from <= i < blocks.len() && is_text_block(blocks[i], said));
                }
            },
        }
    }
}

/// The preview of a list of blocks is the start of its first text, of at most 80 characters; a content
/// that is no list has none.
pub proof fn law_preview_starts_the_first_text(content: Result<Node, Seq<char>>)
    ensures
        content matches Ok(Node::Array(blocks)) ==> previews(blocks, preview_of(content)),
        !(content matches Ok(Node::Array(_))) ==> preview_of(content) is None,
{
    if let Ok(Node::Array(blocks)) = content {
        lemma_first_text(blocks, 0);
        if let Some(said) = first_text(blocks, 0) {
            let i = choose|i: int|
                {
                    &&& 0 <= i < blocks.len()
                    &&& #[trigger] is_text_block(blocks[i], said)
                    &&& forall|k: int, other: Seq<char>|
                        0 <= k < i ==> !#[trigger] is_text_block(blocks[k], other)
                };
            assert(is_text_block(blocks[i], said));
        }
    }
}

/// A session is listed with what was read of it, and its latest message with a preview that starts
/// the first text of that message; there is none where there is no message or its content is no list
/// of blocks.
pub proof fn law_listed_session_previews_its_latest_message(
    row: SnapshotRow,
    s: SessionIndexSnapshotRow,
)
    requires
        is_snapshot(row, s),
    ensures
        match row.latest_content {
            Some(content) => match json::json_parsed(content@) {
                Ok(Node::Array(blocks)) => previews(blocks, events::opt(s.last_msg_preview)),
                _ => s.last_msg_preview is None,
            },
            None => s.last_msg_preview is None,
        },
        s.id == row.id && s.title == row.title && s.repo_id == row.repo_id,
        s.archived == row.archived && s.status == row.status && s.run_id == row.run_id,
        s.updated_at == row.updated_at && s.last_activity_at == row.last_activity_at,
        s.repo_name == row.repo_name,
{
    if let Some(content) = row.latest_content {
        law_preview_starts_the_first_text(json::json_parsed(content@));
    }
}

/// The preview of the latest content, if there is one.
pub open spec fn latest_preview(content: Option<Seq<char>>) -> Option<Seq<char>> {
    match content {
        Some(text) => preview_of(json::json_parsed(text)),
        None => None,
    }
}

/// Whether a session is what was read of it, its latest message as a preview.
pub open spec fn is_snapshot(row: SnapshotRow, s: SessionIndexSnapshotRow) -> bool {
    &&& s.id == row.id
    &&& s.title == row.title
    &&& s.repo_id == row.repo_id
    &&& s.archived == row.archived
    &&& s.status == row.status
    &&& s.run_id == row.run_id
    &&& s.updated_at == row.updated_at
    &&& events::opt(s.last_msg_preview) == latest_preview(events::opt(row.latest_content))
    &&& s.last_activity_at == row.last_activity_at
    &&& s.repo_name == row.repo_name
}

fn snapshot_of(row: &SnapshotRow) -> (s: SessionIndexSnapshotRow)
    ensures
        is_snapshot(*row, s),
{
    let last_msg_preview = match &row.latest_content {
        Some(content) => session_index_message_preview(content.as_str()),
        None => None,
    };
    SessionIndexSnapshotRow {
        id: row.id.clone(),
        title: row.title.clone(),
        repo_id: opt_clone(&row.repo_id),
        archived: row.archived,
        status: opt_clone(&row.status),
        run_id: opt_clone(&row.run_id),
        updated_at: row.updated_at,
        last_msg_preview,
        last_activity_at: row.last_activity_at,
        repo_name: opt_clone(&row.repo_name),
    }
}

pub const SQL_READ_SNAPSHOT: &'static str = "SELECT s.id, s.title, s.repo_id, s.archived, sr.status, sr.run_id, \
                COALESCE(sr.updated_at, s.created_at) AS updated_at, \
                latest_message.content, latest_message.created_at, r.name \
         FROM sessions s \
         LEFT JOIN session_runtime sr ON sr.session_id = s.id \
         LEFT JOIN repos r ON r.id = s.repo_id \
         LEFT JOIN messages latest_message ON latest_message.id = ( \
             SELECT m.id FROM messages m \
             WHERE m.session_id = s.id AND m.role IN ('user', 'assistant') \
             ORDER BY m.id DESC LIMIT 1 \
         ) \
         WHERE s.deleted_at IS NULL \
         ORDER BY s.pinned DESC, s.created_at DESC, s.id DESC";

/// The sessions were read for the remote side.
pub open spec fn snapshot_read(
    pre: Trace,
    post: Trace,
    r: Result<Vec<SnapshotRow>, DbError>,
) -> bool {
    rows::listed(pre, post, SQL_READ_SNAPSHOT@, Seq::<Datum>::empty(), r)
}

fn read_snapshot(db: &mut Db) -> (r: Result<Vec<SnapshotRow>, DbError>)
    ensures
        snapshot_read(old(db)@, final(db)@, r),
{
    list(db, SQL_READ_SNAPSHOT, params0())
}

/// The sessions that were not deleted, as the remote side lists them: pinned ones first, then the
/// latest.
pub fn list_session_index_snapshot_rows(db: &mut Db) -> (r: Result<
    Vec<SessionIndexSnapshotRow>,
    DbError,
>)
    ensures
        exists|got: Result<Vec<SnapshotRow>, DbError>|
            {
                &&& #[trigger] snapshot_read(old(db)@, final(db)@, got)
                &&& match got {
                    Ok(rows) => r matches Ok(v) && v@.len() == rows@.len() && forall|i: int|
                        0 <= i < v@.len() ==> is_snapshot(rows@[i], #[trigger] v@[i]),
                    Err(e) => r == Err::<Vec<SessionIndexSnapshotRow>, DbError>(e),
                }
            },
{
    let got = read_snapshot(db);
    assert(snapshot_read(old(db)@, db@, got));
    let rows = match got {
        Ok(rows) => rows,
        Err(e) => return Err(e),
    };
    let mut v: Vec<SessionIndexSnapshotRow> = Vec::new();
    let mut i: usize = 0;
    while i < rows.len()
        invariant
            i <= rows@.len(),
            v@.len() == i,
            snapshot_read(old(db)@, db@, Ok::<Vec<SnapshotRow>, DbError>(rows)),
            forall|k: int| 0 <= k < i ==> is_snapshot(rows@[k], #[trigger] v@[k]),
        decreases rows.len() - i,
    {
        v.push(snapshot_of(&rows[i]));
        i += 1;
    }
    Ok(v)
}

/// A message, as the history of a session gives it: its content as it is stored.
#[derive(Debug, Clone, PartialEq)]
pub struct SessionHistoryRow {
    pub message_id: i64,
    pub role: String,
    pub content: String,
}

impl FromRow for SessionHistoryRow {
    open spec fn reads() -> Seq<Read> {
        rows::in_order(seq![Kind::Int, Kind::Text, Kind::Text])
    }

    open spec fn is_row(self, row: Seq<Datum>) -> bool {
        &&& row[0] == Datum::Integer(self.message_id)
        &&& row[1] == Datum::Text(self.role@)
        &&& row[2] == Datum::Text(self.content@)
    }

    fn layout() -> (reads: Vec<Read>) {
        let kinds = vec![Kind::Int, Kind::Text, Kind::Text];
        assert(rows::in_order(kinds@) =~= Self::reads());
        reads_in_order(kinds)
    }

    fn from_row(row: &Vec<Cell>) -> (v: Self) {
        proof {
            rows::lemma_cells(row@, Self::reads());
        }
        SessionHistoryRow {
            message_id: int_at(row, 0),
            role: text_at(row, 1),
            content: text_at(row, 2),
        }
    }
}

pub const SQL_LIST_SESSION_HISTORY_ROWS: &'static str = "SELECT m.id, m.role, m.content FROM messages m \
         JOIN sessions s ON s.id = m.session_id \
         WHERE m.session_id = ?1 AND m.role IN ('user','assistant') \
           AND (?2 IS NULL OR m.id < ?2) AND s.deleted_at IS NULL \
         ORDER BY m.id DESC LIMIT ?3";

/// The latest messages of a session that was not deleted, latest first: at most `max_rows`, and only
/// those before `before_message_id` where it is given.
pub fn list_session_history_rows(
    db: &mut Db,
    session_id: &str,
    before_message_id: Option<i64>,
    max_rows: i64,
) -> (r: Result<Vec<SessionHistoryRow>, DbError>)
    ensures
        rows::listed(
            old(db)@,
            final(db)@,
            SQL_LIST_SESSION_HISTORY_ROWS@,
            seq![
                Datum::Text(session_id@),
                rows::opt_int(before_message_id),
                Datum::Integer(max_rows),
            ],
            r,
        ),
{
    list(
        db,
        SQL_LIST_SESSION_HISTORY_ROWS,
        params3(p_text(session_id), p_opt_int(before_message_id), p_int(max_rows)),
    )
}

/// How many messages are sent again after a connection, at most.
pub const RECENT_MILESTONE_REPLAY_LIMIT: i64 = 200;

/// A message that is sent again after a connection.
#[derive(Debug, PartialEq)]
pub struct MilestoneReplayRow {
    pub session_id: String,
    pub message_id: i64,
    pub role: String,
    pub content_json: Json,
    pub dedup_key: String,
}

/// A message that may be sent again, its content as it is stored.
#[derive(Debug, Clone, PartialEq)]
pub struct ReplayRow {
    pub message_id: i64,
    pub session_id: String,
    pub role: String,
    pub content: String,
    pub dedup_key: String,
}

impl FromRow for ReplayRow {
    open spec fn reads() -> Seq<Read> {
        rows::in_order(seq![
            Kind::Int,
            Kind::Text,
            Kind::Text,
            Kind::Text,
            Kind::Text,
        ])
    }

    open spec fn is_row(self, row: Seq<Datum>) -> bool {
        &&& row[0] == Datum::Integer(self.message_id)
        &&& row[1] == Datum::Text(self.session_id@)
        &&& row[2] == Datum::Text(self.role@)
        &&& row[3] == Datum::Text(self.content@)
        &&& row[4] == Datum::Text(self.dedup_key@)
    }

    fn layout() -> (reads: Vec<Read>) {
        let kinds = vec![
            Kind::Int,
            Kind::Text,
            Kind::Text,
            Kind::Text,
            Kind::Text,
        ];
        assert(rows::in_order(kinds@) =~= Self::reads());
        reads_in_order(kinds)
    }

    fn from_row(row: &Vec<Cell>) -> (v: Self) {
        proof {
            rows::lemma_cells(row@, Self::reads());
        }
        ReplayRow {
            message_id: int_at(row, 0),
            session_id: text_at(row, 1),
            role: text_at(row, 2),
            content: text_at(row, 3),
            dedup_key: text_at(row, 4),
        }
    }
}

/// The messages that are sent again, oldest first: those whose content is JSON, of a list that has
/// the latest first.
pub open spec fn replayable(rows: Seq<ReplayRow>) -> Seq<ReplayRow>
    decreases rows.len(),
{
    if rows.len() == 0 {
        Seq::empty()
    } else {
        (if json::json_parsed(rows.last().content@) is Ok {
            seq![rows.last()]
        } else {
            Seq::empty()
        }) + replayable(rows.drop_last())
    }
}

/// Whether a message that is sent again is what was read of it.
pub open spec fn is_replay(row: ReplayRow, m: MilestoneReplayRow) -> bool {
    &&& m.session_id == row.session_id
    &&& m.message_id == row.message_id
    &&& m.role == row.role
    &&& json::json_parsed(row.content@) == Ok::<Node, Seq<char>>(m.content_json@)
    &&& m.dedup_key == row.dedup_key
}

/// Whether messages that are sent again are what was read of them.
pub open spec fn are_replays(rows: Seq<ReplayRow>, v: Seq<MilestoneReplayRow>) -> bool {
    v.len() == rows.len() && forall|i: int|
        0 <= i < v.len() ==> is_replay(rows[i], #[trigger] v[i])
}

fn replays_of(rows: &Vec<ReplayRow>) -> (v: Vec<MilestoneReplayRow>)
    ensures
        are_replays(replayable(rows@), v@),
{
    let ghost wanted = replayable(rows@);
    let mut v: Vec<MilestoneReplayRow> = Vec::new();
    let mut i: usize = rows.len();
    let ghost mut done: Seq<ReplayRow> = Seq::empty();
    assert(rows@.take(i as int) =~= rows@);
    assert(done + replayable(rows@) =~= wanted);
    while i > 0
        invariant
            i <= rows@.len(),
            wanted == replayable(rows@),
            done + replayable(rows@.take(i as int)) == wanted,
            are_replays(done, v@),
        decreases i,
    {
        let ghost rest = rows@.take(i as int);
        i -= 1;
        assert(rest.drop_last() =~= rows@.take(i as int));
        assert(rest.last() == rows@[i as int]);
        match parse_json(rows[i].content.as_str()) {
            Ok(content_json) => {
                let ghost was = v@;
                let m = MilestoneReplayRow {
                    session_id: rows[i].session_id.clone(),
                    message_id: rows[i].message_id,
                    role: rows[i].role.clone(),
                    content_json,
                    dedup_key: rows[i].dedup_key.clone(),
                };
                assert(is_replay(rows@[i as int], m));
                v.push(m);
                proof {
                    let before = done;
                    done = done.push(rows@[i as int]);
                    assert(done + replayable(rows@.take(i as int)) =~= before + (seq![
                        rows@[i as int],
                    ] + replayable(rows@.take(i as int))));
                    assert forall|k: int| 0 <= k < v@.len() implies is_replay(
                        done[k],
                        #[trigger] v@[k],
                    ) by {
                        if k < was.len() {
                            assert(v@[k] == was[k] && done[k] == before[k]);
                        }
                    }
                }
            },
            Err(_) => {
                assert(Seq::<ReplayRow>::empty() + replayable(rows@.take(i as int))
                    =~= replayable(rows@.take(i as int)));
            },
        }
    }
    assert(rows@.take(0).len() == 0);
    assert(done + Seq::<ReplayRow>::empty() =~= done);
    v
}

pub const SQL_READ_REPLAYS: &'static str = "SELECT m.id, m.session_id, m.role, m.content, m.dedup_key \
         FROM messages m \
         JOIN sessions s ON s.id = m.session_id \
         WHERE m.role IN ('assistant', 'user') AND m.dedup_key IS NOT NULL AND s.deleted_at IS NULL \
         ORDER BY m.id DESC \
         LIMIT ?1";

/// The latest messages with a key were read.
pub open spec fn replays_read(
    pre: Trace,
    post: Trace,
    limit: i64,
    r: Result<Vec<ReplayRow>, DbError>,
) -> bool {
    rows::listed(pre, post, SQL_READ_REPLAYS@, seq![Datum::Integer(limit)], r)
}

fn read_replays(db: &mut Db, limit: i64) -> (r: Result<Vec<ReplayRow>, DbError>)
    ensures
        replays_read(old(db)@, final(db)@, limit, r),
{
    list(db, SQL_READ_REPLAYS, params1(p_int(limit)))
}

/// The latest messages with a key, at most `limit`, oldest first. A message whose content is no
/// JSON is passed over.
pub fn list_recent_milestone_replay_rows(db: &mut Db, limit: i64) -> (r: Result<
    Vec<MilestoneReplayRow>,
    DbError,
>)
    ensures
        exists|got: Result<Vec<ReplayRow>, DbError>|
            {
                &&& #[trigger] replays_read(old(db)@, final(db)@, limit, got)
                &&& match got {
                    Ok(rows) => r matches Ok(v) && are_replays(replayable(rows@), v@),
                    Err(e) => r == Err::<Vec<MilestoneReplayRow>, DbError>(e),
                }
            },
{
    let got = read_replays(db, limit);
    assert(replays_read(old(db)@, db@, limit, got));
    match got {
        Ok(rows) => Ok(replays_of(&rows)),
        Err(e) => Err(e),
    }
}

/// Whether places in a list go from its end to its start and are just those of the messages whose
/// content is JSON.
pub open spec fn are_replay_places(rows: Seq<ReplayRow>, places: Seq<int>) -> bool {
    &&& forall|i: int| 0 <= i < places.len() ==> 0 <= #[trigger] places[i] < rows.len()
    &&& forall|i: int, j: int| 0 <= i < j < places.len() ==> places[i] > places[j]
    &&& forall|k: int|
        0 <= k < rows.len() ==> (json::json_parsed((#[trigger] rows[k]).content@) is Ok
            <==> places.contains(k))
}

proof fn lemma_replay_places(rows: Seq<ReplayRow>) -> (places: Seq<int>)
    ensures
        are_replay_places(rows, places),
        places.len() == replayable(rows).len(),
        forall|i: int|
            0 <= i < places.len() ==> replayable(rows)[i] == rows[#[trigger] places[i]],
    decreases rows.len(),
{
    if rows.len() == 0 {
        Seq::<int>::empty()
    } else {
        let rest = rows.drop_last();
        let last = rows.len() - 1;
        let some = lemma_replay_places(rest);
        assert(forall|k: int| 0 <= k < rest.len() ==> rest[k] == #[trigger] rows[k]);
        if json::json_parsed(rows.last().content@) is Ok {
            let places = seq![last] + some;
            assert(places[0] == last);
            assert(forall|i: int| 0 <= i < some.len() ==> places[i + 1] == #[trigger] some[i]);
            assert forall|k: int| 0 <= k < rows.len() implies (json::json_parsed(
                (#[trigger] rows[k]).content@,
            ) is Ok <==> places.contains(k)) by {
                if k < last {
                    assert(rest[k] == rows[k]);
                    if some.contains(k) {
                        let i = choose|i: int| 0 <= i < some.len() && some[i] == k;
                        assert(places[i + 1] == k);
                    }
                    if places.contains(k) {
                        let i = choose|i: int| 0 <= i < places.len() && places[i] == k;
                        assert(some[i - 1] == k);
                    }
                }
            }
            places
        } else {
            assert forall|k: int| 0 <= k < rows.len() implies (json::json_parsed(
                (#[trigger] rows[k]).content@,
            ) is Ok <==> some.contains(k)) by {
                if k < last {
                    assert(rest[k] == rows[k]);
                } else if some.contains(k) {
                    let i = choose|i: int| 0 <= i < some.len() && some[i] == k;
                    assert(some[i] < rest.len());
                }
            }
            assert(Seq::<ReplayRow>::empty() + replayable(rest) =~= replayable(rest));
            some
        }
    }
}

/// What is sent again after a connection is every message that was read and has JSON for its content,
/// and no other; the messages are read latest first and sent oldest first, each with its session, its
/// number, its role, its key and the value that its content writes.
pub proof fn law_replays_are_the_messages_in_turn(
    rows: Seq<ReplayRow>,
    v: Seq<MilestoneReplayRow>,
) -> (places: Seq<int>)
    requires
        are_replays(replayable(rows), v),
    ensures
        places.len() == v.len(),
        are_replay_places(rows, places),
        forall|i: int|
            0 <= i < v.len() ==> {
                let row = rows[places[i]];
                &&& (#[trigger] v[i]).session_id@ == row.session_id@
                &&& v[i].message_id == row.message_id
                &&& v[i].role@ == row.role@
                &&& v[i].dedup_key@ == row.dedup_key@
                &&& json::json_parsed(row.content@) == Ok::<Node, Seq<char>>(v[i].content_json@)
            },
{
    let places = lemma_replay_places(rows);
    assert forall|i: int| 0 <= i < v.len() implies is_replay(
        rows[places[i]],
        #[trigger] v[i],
    ) by {
        assert(replayable(rows)[i] == rows[places[i]]);
    }
    places
}

/// The state of a session that is sent again after a connection.
#[derive(Debug, Clone, PartialEq)]
pub struct SessionRuntimeReplayRow {
    pub session_id: String,
    pub status: String,
    pub run_id: Option<String>,
}

impl FromRow for SessionRuntimeReplayRow {
    open spec fn reads() -> Seq<Read> {
        rows::in_order(seq![Kind::Text, Kind::Text, Kind::OptText])
    }

    open spec fn is_row(self, row: Seq<Datum>) -> bool {
        &&& row[0] == Datum::Text(self.session_id@)
        &&& row[1] == Datum::Text(self.status@)
        &&& row[2] == rows::opt_text(events::opt(self.run_id))
    }

    fn layout() -> (reads: Vec<Read>) {
        let kinds = vec![Kind::Text, Kind::Text, Kind::OptText];
        assert(rows::in_order(kinds@) =~= Self::reads());
        reads_in_order(kinds)
    }

    fn from_row(row: &Vec<Cell>) -> (v: Self) {
        proof {
            rows::lemma_cells(row@, Self::reads());
        }
        SessionRuntimeReplayRow {
            session_id: text_at(row, 0),
            status: text_at(row, 1),
            run_id: opt_text_at(row, 2),
        }
    }
}

pub const SQL_LIST_SESSION_RUNTIME_REPLAY_ROWS: &'static str = "SELECT sr.session_id, sr.status, sr.run_id \
         FROM session_runtime sr \
         JOIN sessions s ON s.id = sr.session_id \
         WHERE s.deleted_at IS NULL \
         ORDER BY CASE WHEN sr.status = 'running' THEN 0 ELSE 1 END \
         LIMIT ?1";

/// The states of the sessions that were not deleted, running ones first, at most
/// `RECENT_MILESTONE_REPLAY_LIMIT`.
pub fn list_session_runtime_replay_rows(
    db: &mut Db,
) -> (r: Result<Vec<SessionRuntimeReplayRow>, DbError>)
    ensures
        rows::listed(
            old(db)@,
            final(db)@,
            SQL_LIST_SESSION_RUNTIME_REPLAY_ROWS@,
            seq![Datum::Integer(RECENT_MILESTONE_REPLAY_LIMIT)],
            r,
        ),
{
    list(db, SQL_LIST_SESSION_RUNTIME_REPLAY_ROWS, params1(p_int(RECENT_MILESTONE_REPLAY_LIMIT)))
}

} // verus!
