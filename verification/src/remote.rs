//! The remote side: the rooms of projects, the inbox, paired devices and the registry of their
//! generations.
use vstd::prelude::*;

use crate::clock::{self, now_ms};
use crate::engine::{Cell, Datum, Db, DbError, Reply, Request, Step, Trace};
use crate::events;
use crate::rows::{
    self,
    fetch,
    find,
    int_at,
    list,
    opt_int_at,
    opt_text_at,
    p_int,
    p_opt_text,
    p_text,
    params0,
    params1,
    params10,
    params2,
    params3,
    params4,
    params7,
    reads_in_order,
    run,
    run_for_effect,
    run_touched,
    text_at,
    FromRow,
    Kind,
    Read,
};
use crate::schema::ACCESS_EXPIRES_MILLIS_THRESHOLD;
use crate::text::join3;
use crate::trace;
use crate::tx::{self, begin, finish};

verus! {

pub const SQL_REMOTE_ROOM_FOR_PROJECT: &'static str = "SELECT room_id FROM project_remote_rooms WHERE project_id = ?1";

/// The room of a project was read.
pub open spec fn room_read(
    pre: Trace,
    post: Trace,
    project_id: Seq<char>,
    r: Result<Option<String>, DbError>,
) -> bool {
    rows::found(pre, post, SQL_REMOTE_ROOM_FOR_PROJECT@, seq![Datum::Text(project_id)], r)
}

/// The room of a project, if it has one.
pub fn remote_room_for_project(
    db: &mut Db,
    project_id: &str,
) -> (r: Result<Option<String>, DbError>)
    ensures
        room_read(old(db)@, final(db)@, project_id@, r),
{
    find(db, SQL_REMOTE_ROOM_FOR_PROJECT, params1(p_text(project_id)))
}

pub const SQL_STORE_CANDIDATE: &'static str = "INSERT OR IGNORE INTO project_remote_rooms (project_id, room_id, created_at_ms) \
             VALUES (?1, ?2, ?3)";

/// A room was proposed for a project; it stays out where the project or the room is taken.
pub open spec fn candidate_stored(
    pre: Trace,
    post: Trace,
    project_id: Seq<char>,
    candidate: Seq<char>,
    at_ms: i64,
    r: Result<(), DbError>,
) -> bool {
    rows::executed(
        pre,
        post,
        SQL_STORE_CANDIDATE@,
        seq![Datum::Text(project_id), Datum::Text(candidate), Datum::Integer(at_ms)],
        r,
    )
}

fn store_candidate(
    db: &mut Db,
    project_id: &str,
    candidate: &str,
    at_ms: i64,
) -> (r: Result<(), DbError>)
    ensures
        candidate_stored(old(db)@, final(db)@, project_id@, candidate@, at_ms, r),
{
    run(db, SQL_STORE_CANDIDATE, params3(p_text(project_id), p_text(candidate), p_int(at_ms)))
}

/// How often a room is proposed before it is given up.
pub const MAX_ATTEMPTS: u8 = 3;

/// The text that reports that no proposed room could be stored.
pub open spec fn exhausted(project_id: Seq<char>) -> Seq<char> {
    "ensure_remote_room_for_project: room_id 分配在 3 次尝试后仍未落库（project_id="@
        + project_id
        + "）——大概率是 room_id UNIQUE 约束持续撞列，需要人工核查"@
}

/// The room that a project was found to have is handed out; where it has none, another is proposed.
pub open spec fn candidate_judged<F: Fn() -> String>(
    read: Trace,
    post: Trace,
    project_id: Seq<char>,
    generate: F,
    left: nat,
    got: Result<Option<String>, DbError>,
    r: Result<String, String>,
) -> bool
    decreases left, 0nat,
{
    &&& left > 0
    &&& match got {
        Ok(Some(room)) => post == read && r == Ok::<String, String>(room),
        Ok(None) => rooms_tried(
            read,
            post,
            project_id,
            generate,
            (left - 1) as nat,
            r,
        ),
        Err(e) => post == read && (r matches Err(s) && s@ == e.text()),
    }
}

/// The room of a project was read after one was proposed, unless that failed.
pub open spec fn candidate_answered<F: Fn() -> String>(
    stored: Trace,
    post: Trace,
    project_id: Seq<char>,
    generate: F,
    left: nat,
    done: Result<(), DbError>,
    r: Result<String, String>,
) -> bool
    decreases left, 1nat,
{
    &&& left > 0
    &&& match done {
        Ok(()) => exists|read: Trace, got: Result<Option<String>, DbError>|
            {
                &&& #[trigger] room_read(stored, read, project_id, got)
                &&& candidate_judged(read, post, project_id, generate, left, got, r)
            },
        Err(e) => post == stored && (r matches Err(s) && s@ == e.text()),
    }
}

/// Rooms were proposed for a project, at most `left` of them, until the project had one.
pub open spec fn rooms_tried<F: Fn() -> String>(
    pre: Trace,
    post: Trace,
    project_id: Seq<char>,
    generate: F,
    left: nat,
    r: Result<String, String>,
) -> bool
    decreases left, 2nat,
{
    if left == 0 {
        post == pre && (r matches Err(s) && s@ == exhausted(project_id))
    } else {
        exists|stored: Trace, candidate: String, at_ms: i64, done: Result<(), DbError>|
            {
                &&& call_ensures(generate, (), candidate)
                &&& #[trigger] candidate_stored(
                    pre,
                    stored,
                    project_id,
                    candidate@,
                    at_ms,
                    done,
                )
                &&& clock::is_time(at_ms)
                &&& candidate_answered(stored, post, project_id, generate, left, done, r)
            }
    }
}

fn try_rooms<F: Fn() -> String>(db: &mut Db, project_id: &str, generate: F, left: u8) -> (r: Result<
    String,
    String,
>)
    requires
        call_requires(generate, ()),
    ensures
        rooms_tried(old(db)@, final(db)@, project_id@, generate, left as nat, r),
    decreases left,
{
    if left == 0 {
        return Err(
            join3(
                "ensure_remote_room_for_project: room_id 分配在 3 次尝试后仍未落库（project_id=",
                project_id,
                "）——大概率是 room_id UNIQUE 约束持续撞列，需要人工核查",
            ),
        );
    }
    let candidate = generate();
    let at_ms = now_ms();
    let done = store_candidate(db, project_id, candidate.as_str(), at_ms);
    let ghost stored = db@;
    assert(candidate_stored(old(db)@, stored, project_id@, candidate@, at_ms, done));
    match done {
        Ok(()) => {},
        Err(e) => return Err(e.message()),
    }
    let got = remote_room_for_project(db, project_id);
    assert(room_read(stored, db@, project_id@, got));
    match got {
        Ok(Some(room)) => Ok(room),
        Ok(None) => try_rooms(db, project_id, generate, left - 1),
        Err(e) => Err(e.message()),
    }
}

/// The room of a project was handed out, or one was made for it.
pub open spec fn room_given<F: Fn() -> String>(
    mid: Trace,
    post: Trace,
    project_id: Seq<char>,
    generate: F,
    got: Result<Option<String>, DbError>,
    r: Result<String, String>,
) -> bool {
    match got {
        Ok(Some(room)) => post == mid && r == Ok::<String, String>(room),
        Ok(None) => rooms_tried(
            mid,
            post,
            project_id,
            generate,
            MAX_ATTEMPTS as nat,
            r,
        ),
        Err(e) => post == mid && (r matches Err(s) && s@ == e.text()),
    }
}

/// The room of a project was looked up and, where there was none, one made.
pub open spec fn room_ensured<F: Fn() -> String>(
    pre: Trace,
    post: Trace,
    project_id: Seq<char>,
    generate: F,
    r: Result<String, String>,
) -> bool {
    exists|mid: Trace, got: Result<Option<String>, DbError>|
        {
            &&& #[trigger] room_read(pre, mid, project_id, got)
            &&& room_given(mid, post, project_id, generate, got, r)
        }
}

/// The room of a project; one is made by `generate` and stored where it has none yet. What was
/// stored is read back, so that two callers who ask at once get the same room. A proposed room
/// that belongs to another project stays out, and another is proposed, up to `MAX_ATTEMPTS`.
pub fn ensure_remote_room_for_project<F: Fn() -> String>(
    db: &mut Db,
    project_id: &str,
    generate: F,
) -> (r: Result<String, String>)
    requires
        call_requires(generate, ()),
    ensures
        room_ensured(old(db)@, final(db)@, project_id@, generate, r),
{
    let got = remote_room_for_project(db, project_id);
    assert(room_read(old(db)@, db@, project_id@, got));
    match got {
        Ok(Some(room)) => Ok(room),
        Ok(None) => try_rooms(db, project_id, generate, MAX_ATTEMPTS),
        Err(e) => Err(e.message()),
    }
}

/// Whether the last thing that was asked is the room of a project, and `room` the reply.
pub open spec fn room_read_last(post: Trace, project_id: Seq<char>, room: String) -> bool {
    exists|before: Trace|
        #[trigger] room_read(
            before,
            post,
            project_id,
            Ok::<Option<String>, DbError>(Some(room)),
        )
}

proof fn lemma_tried_room_is_read<F: Fn() -> String>(
    pre: Trace,
    post: Trace,
    project_id: Seq<char>,
    generate: F,
    left: nat,
    room: String,
)
    requires
        rooms_tried(pre, post, project_id, generate, left, Ok::<String, String>(room)),
    ensures
        room_read_last(post, project_id, room),
    decreases left,
{
    if left > 0 {
        let (stored, candidate, at_ms, done) = choose|
            stored: Trace,
            candidate: String,
            at_ms: i64,
            done: Result<(), DbError>,
        |
            {
                &&& call_ensures(generate, (), candidate)
                &&& #[trigger] candidate_stored(
                    pre,
                    stored,
                    project_id,
                    candidate@,
                    at_ms,
                    done,
                )
                &&& clock::is_time(at_ms)
                &&& candidate_answered(
                    stored,
                    post,
                    project_id,
                    generate,
                    left,
                    done,
                    Ok::<String, String>(room),
                )
            };
        let (read, got) = choose|read: Trace, got: Result<Option<String>, DbError>|
            {
                &&& #[trigger] room_read(stored, read, project_id, got)
                &&& candidate_judged(
                    read,
                    post,
                    project_id,
                    generate,
                    left,
                    got,
                    Ok::<String, String>(room),
                )
            };
        if got matches Ok(None) {
            lemma_tried_room_is_read(
                read,
                post,
                project_id,
                generate,
                (left - 1) as nat,
                room,
            );
        }
    }
}

/// The rooms of projects.
pub type Rooms = Map<Seq<char>, Seq<char>>;

/// Whether no two projects share a room.
pub open spec fn apart(rooms: Rooms) -> bool {
    forall|p: Seq<char>, q: Seq<char>|
        rooms.dom().contains(p) && rooms.dom().contains(q) && p != q ==> #[trigger] rooms[p]
            != #[trigger] rooms[q]
}

/// Whether every project keeps the room that it has.
pub open spec fn keeps(rooms: Rooms, after: Rooms) -> bool {
    forall|p: Seq<char>| #[trigger]
        rooms.dom().contains(p) ==> after.dom().contains(p) && after[p] == rooms[p]
}

/// The rooms after `SQL_STORE_CANDIDATE` was run for a project and a room: the room is stored where
/// neither the project has a room nor any project has that one.
pub open spec fn offered(rooms: Rooms, project_id: Seq<char>, candidate: Seq<char>) -> Rooms {
    if rooms.dom().contains(project_id) || rooms.values().contains(candidate) {
        rooms
    } else {
        rooms.insert(project_id, candidate)
    }
}

/// The rooms after several were offered, each to a project.
pub open spec fn all_offered(rooms: Rooms, offers: Seq<(Seq<char>, Seq<char>)>) -> Rooms
    decreases offers.len(),
{
    if offers.len() == 0 {
        rooms
    } else {
        offered(all_offered(rooms, offers.drop_last()), offers.last().0, offers.last().1)
    }
}

/// However many rooms are offered, a project keeps the room that it has, and no two projects come to
/// share one.
pub proof fn law_rooms_stay(rooms: Rooms, offers: Seq<(Seq<char>, Seq<char>)>)
    requires
        apart(rooms),
    ensures
        apart(all_offered(rooms, offers)),
        keeps(rooms, all_offered(rooms, offers)),
    decreases offers.len(),
{
    if offers.len() > 0 {
        let before = all_offered(rooms, offers.drop_last());
        let project_id = offers.last().0;
        let candidate = offers.last().1;
        let after = offered(before, project_id, candidate);
        law_rooms_stay(rooms, offers.drop_last());
        assert forall|p: Seq<char>, q: Seq<char>|
            after.dom().contains(p) && after.dom().contains(q) && p != q implies #[trigger] after[p]
            != #[trigger] after[q] by {
            if before != after {
                assert(before.dom().contains(p) ==> before.values().contains(before[p]));
                assert(before.dom().contains(q) ==> before.values().contains(before[q]));
            }
        }
        assert(after == all_offered(rooms, offers));
        assert(keeps(rooms, after));
    }
}

/// Whether the last reply in a trace is the room that a project has among rooms.
pub open spec fn shows_room(trace: Trace, rooms: Rooms, project_id: Seq<char>) -> bool {
    &&& rooms.dom().contains(project_id)
    &&& rows::reply_to(trace) == Reply::Row(Some(seq![Datum::Text(rooms[project_id])]))
}

/// The room of a project is stable: where it has one, that is what is handed out, and nothing but
/// the question for it is asked.
pub proof fn law_room_is_stable<F: Fn() -> String>(
    pre: Trace,
    post: Trace,
    project_id: Seq<char>,
    generate: F,
    room: Seq<char>,
    r: Result<String, String>,
)
    requires
        room_ensured(pre, post, project_id, generate, r),
        post[pre.len() as int] matches Step::Asked { reply: Reply::Row(Some(row)), .. } && row[0]
            == Datum::Text(room),
    ensures
        r matches Ok(s) && s@ == room,
        trace::extends(pre, post),
        post.len() == pre.len() + 1,
        trace::queries(post.last(), SQL_REMOTE_ROOM_FOR_PROJECT@),
{
    let (mid, got) = choose|mid: Trace, got: Result<Option<String>, DbError>|
        {
            &&& #[trigger] room_read(pre, mid, project_id, got)
            &&& room_given(mid, post, project_id, generate, got, r)
        };
    assert(mid.take(pre.len() as int) =~= pre);
    if got matches Ok(None) {
        lemma_trying_extends(mid, post, project_id, generate, MAX_ATTEMPTS as nat, r);
        trace::lemma_extends_further(pre, mid, post);
    }
}

proof fn lemma_trying_extends<F: Fn() -> String>(
    pre: Trace,
    post: Trace,
    project_id: Seq<char>,
    generate: F,
    left: nat,
    r: Result<String, String>,
)
    requires
        rooms_tried(pre, post, project_id, generate, left, r),
    ensures
        trace::extends(pre, post),
    decreases left,
{
    if left == 0 {
        assert(post.take(pre.len() as int) =~= pre);
    } else {
        let (stored, candidate, at_ms, done) = choose|
            stored: Trace,
            candidate: String,
            at_ms: i64,
            done: Result<(), DbError>,
        |
            {
                &&& call_ensures(generate, (), candidate)
                &&& #[trigger] candidate_stored(
                    pre,
                    stored,
                    project_id,
                    candidate@,
                    at_ms,
                    done,
                )
                &&& clock::is_time(at_ms)
                &&& candidate_answered(stored, post, project_id, generate, left, done, r)
            };
        assert(stored.take(pre.len() as int) =~= pre);
        if done is Ok {
            let (read, got) = choose|read: Trace, got: Result<Option<String>, DbError>|
                {
                    &&& #[trigger] room_read(stored, read, project_id, got)
                    &&& candidate_judged(read, post, project_id, generate, left, got, r)
                };
            assert(read.take(stored.len() as int) =~= stored);
            trace::lemma_extends_further(pre, stored, read);
            if got matches Ok(None) {
                lemma_trying_extends(read, post, project_id, generate, (left - 1) as nat, r);
                trace::lemma_extends_further(pre, read, post);
            }
        }
    }
}

/// The query for the room of a project.
pub open spec fn room_request(project_id: Seq<char>) -> Request {
    Request::First {
        sql: SQL_REMOTE_ROOM_FOR_PROJECT@,
        params: seq![Datum::Text(project_id)],
        reads: String::reads(),
    }
}

/// The statement that offers a room to a project.
pub open spec fn offer_request(project_id: Seq<char>, candidate: Seq<char>, at_ms: i64) -> Request {
    Request::Execute {
        sql: SQL_STORE_CANDIDATE@,
        params: seq![Datum::Text(project_id), Datum::Text(candidate), Datum::Integer(at_ms)],
    }
}

/// Whether the store does with the rooms what a step asks of it: it accepts an offer as `offered`
/// says, and tells of a project the room that it has, or that it has none.
pub open spec fn rooms_follow_step(step: Step, before: Rooms, after: Rooms) -> bool {
    &&& forall|project_id: Seq<char>, candidate: Seq<char>, at_ms: i64| #[trigger]
        tx::asks(step, offer_request(project_id, candidate, at_ms)) ==> tx::accepted(step) && after
            == offered(before, project_id, candidate)
    &&& forall|project_id: Seq<char>| #[trigger]
        tx::asks(step, room_request(project_id)) ==> after == before && (step matches
            Step::Asked { reply, .. } && reply == Reply::Row(
            if before.dom().contains(project_id) {
                Some(seq![Datum::Text(before[project_id])])
            } else {
                None
            },
        ))
}

/// Whether the store does with the rooms what the steps after `pre` ask of it, and nobody else
/// changes them; `stages` are the rooms before, between and after those steps.
pub open spec fn rooms_follow(pre: Trace, post: Trace, stages: Seq<Rooms>) -> bool {
    &&& stages.len() == post.len() - pre.len() + 1
    &&& forall|k: int|
        0 <= k < stages.len() - 1 ==> rooms_follow_step(
            #[trigger] post[pre.len() + k],
            stages[k],
            stages[k + 1],
        )
}

/// Whether some project has a room.
pub open spec fn taken(rooms: Rooms, room: Seq<char>) -> bool {
    rooms.values().contains(room)
}

/// What came of proposing candidates for a project that has no room, at most `most` of them: all but
/// the last are taken; the last, where it is not, is the room, and stored; where it is, they were
/// the most, no room was stored and the result says so.
pub open spec fn first_free_is_given(
    before: Rooms,
    after: Rooms,
    project_id: Seq<char>,
    candidates: Seq<String>,
    most: nat,
    r: Result<String, String>,
) -> bool {
    &&& candidates.len() <= most
    &&& forall|j: int|
        0 <= j < candidates.len() - 1 ==> taken(before, (#[trigger] candidates[j])@)
    &&& if candidates.len() > 0 && !taken(before, candidates.last()@) {
        &&& r matches Ok(room) && room@ == candidates.last()@
        &&& after == before.insert(project_id, candidates.last()@)
    } else {
        &&& candidates.len() == most
        &&& r matches Err(why) && why@ == exhausted(project_id)
        &&& after == before
    }
}

proof fn lemma_first_free_is_given<F: Fn() -> String>(
    pre: Trace,
    post: Trace,
    project_id: Seq<char>,
    generate: F,
    left: nat,
    r: Result<String, String>,
    stages: Seq<Rooms>,
) -> (candidates: Seq<String>)
    requires
        rooms_tried(pre, post, project_id, generate, left, r),
        rooms_follow(pre, post, stages),
        !stages[0].dom().contains(project_id),
    ensures
        first_free_is_given(stages[0], stages.last(), project_id, candidates, left, r),
        forall|j: int|
            0 <= j < candidates.len() ==> call_ensures(generate, (), #[trigger] candidates[j]),
    decreases left,
{
    if left == 0 {
        return Seq::empty();
    }
    let (stored, candidate, at_ms, done) = choose|
        stored: Trace,
        candidate: String,
        at_ms: i64,
        done: Result<(), DbError>,
    |
        {
            &&& call_ensures(generate, (), candidate)
            &&& #[trigger] candidate_stored(pre, stored, project_id, candidate@, at_ms, done)
            &&& clock::is_time(at_ms)
            &&& candidate_answered(stored, post, project_id, generate, left, done, r)
        };
    lemma_answer_extends(stored, post, project_id, generate, left, done, r);
    let at = pre.len() as int;
    assert(post.take(stored.len() as int)[at] == post[at]);
    assert(tx::asks(post[at + 0], offer_request(project_id, candidate@, at_ms)));
    assert(rooms_follow_step(post[at + 0], stages[0], stages[1]));
    assert(done is Ok);
    let (read, got) = choose|read: Trace, got: Result<Option<String>, DbError>|
        {
            &&& #[trigger] room_read(stored, read, project_id, got)
            &&& candidate_judged(read, post, project_id, generate, left, got, r)
        };
    lemma_judging_extends(read, post, project_id, generate, left, got, r);
    assert(post.take(read.len() as int)[at + 1] == post[at + 1]);
    assert(tx::asks(post[at + 1], room_request(project_id)));
    assert(rooms_follow_step(post[at + 1], stages[1], stages[2]));
    if taken(stages[0], candidate@) {
        assert(got matches Ok(None));
        let rest = stages.skip(2);
        assert forall|k: int| 0 <= k < rest.len() - 1 implies rooms_follow_step(
            #[trigger] post[read.len() + k],
            rest[k],
            rest[k + 1],
        ) by {
            assert(post[pre.len() + (k + 2)] == post[read.len() + k]);
            assert(rooms_follow_step(post[pre.len() + (k + 2)], stages[k + 2], stages[k + 2 + 1]));
        }
        let more = lemma_first_free_is_given(
            read,
            post,
            project_id,
            generate,
            (left - 1) as nat,
            r,
            rest,
        );
        let candidates = seq![candidate] + more;
        assert forall|j: int| 0 <= j < candidates.len() - 1 implies taken(
            stages[0],
            (#[trigger] candidates[j])@,
        ) by {
            if j > 0 {
                assert(candidates[j] == more[j - 1]);
            }
        }
        assert(more.len() > 0 ==> candidates.last() == more.last());
        assert forall|j: int| 0 <= j < candidates.len() implies call_ensures(
            generate,
            (),
            #[trigger] candidates[j],
        ) by {
            if j > 0 {
                assert(candidates[j] == more[j - 1]);
            }
        }
        assert(rest.last() == stages.last());
        candidates
    } else {
        assert(got is Ok && got->Ok_0 is Some);
        assert(stages.last() == stages[2]);
        seq![candidate]
    }
}

proof fn lemma_judging_extends<F: Fn() -> String>(
    pre: Trace,
    post: Trace,
    project_id: Seq<char>,
    generate: F,
    left: nat,
    got: Result<Option<String>, DbError>,
    r: Result<String, String>,
)
    requires
        candidate_judged(pre, post, project_id, generate, left, got, r),
    ensures
        trace::extends(pre, post),
        !(got matches Ok(None)) ==> post == pre,
{
    if got matches Ok(None) {
        lemma_trying_extends(pre, post, project_id, generate, (left - 1) as nat, r);
    } else {
        assert(post.take(pre.len() as int) =~= pre);
    }
}

proof fn lemma_answer_extends<F: Fn() -> String>(
    pre: Trace,
    post: Trace,
    project_id: Seq<char>,
    generate: F,
    left: nat,
    done: Result<(), DbError>,
    r: Result<String, String>,
)
    requires
        candidate_answered(pre, post, project_id, generate, left, done, r),
    ensures
        trace::extends(pre, post),
{
    if done is Ok {
        let (read, got) = choose|read: Trace, got: Result<Option<String>, DbError>|
            {
                &&& #[trigger] room_read(pre, read, project_id, got)
                &&& candidate_judged(read, post, project_id, generate, left, got, r)
            };
        assert(read.take(pre.len() as int) =~= pre);
        lemma_judging_extends(read, post, project_id, generate, left, got, r);
        trace::lemma_extends_further(pre, read, post);
    } else {
        assert(post.take(pre.len() as int) =~= pre);
    }
}

/// The room of a project is the one that it has, and then nothing is stored; else it is the first of
/// the candidates that no project has, which is stored as its room. Where all the candidates that
/// may be tried are taken there is an error, and no room is stored. `stages` are the rooms before,
/// between and after what is asked, in a store that does what it is asked and that nobody else
/// changes; the candidates are what `generate` gave.
pub proof fn law_room_is_the_first_free_candidate<F: Fn() -> String>(
    pre: Trace,
    post: Trace,
    project_id: Seq<char>,
    generate: F,
    r: Result<String, String>,
    stages: Seq<Rooms>,
) -> (candidates: Seq<String>)
    requires
        room_ensured(pre, post, project_id, generate, r),
        rooms_follow(pre, post, stages),
    ensures
        forall|j: int|
            0 <= j < candidates.len() ==> call_ensures(generate, (), #[trigger] candidates[j]),
        if stages[0].dom().contains(project_id) {
            &&& r matches Ok(room) && room@ == stages[0][project_id]
            &&& candidates.len() == 0
            &&& stages.last() == stages[0]
        } else {
            &&& first_free_is_given(
                stages[0],
                stages.last(),
                project_id,
                candidates,
                MAX_ATTEMPTS as nat,
                r,
            )
            &&& r matches Ok(room) ==> stages.last().dom().contains(project_id)
                && stages.last()[project_id] == room@
        },
        apart(stages[0]) ==> apart(stages.last()),
{
    let (mid, got) = choose|mid: Trace, got: Result<Option<String>, DbError>|
        {
            &&& #[trigger] room_read(pre, mid, project_id, got)
            &&& room_given(mid, post, project_id, generate, got, r)
        };
    assert(mid.take(pre.len() as int) =~= pre);
    if got matches Ok(None) {
        lemma_trying_extends(mid, post, project_id, generate, MAX_ATTEMPTS as nat, r);
    } else {
        assert(post.take(mid.len() as int) =~= mid);
    }
    let at = pre.len() as int;
    assert(post.take(mid.len() as int)[at] == post[at]);
    assert(tx::asks(post[at + 0], room_request(project_id)));
    assert(rooms_follow_step(post[at + 0], stages[0], stages[1]));
    if stages[0].dom().contains(project_id) {
        return Seq::empty();
    }
    let rest = stages.skip(1);
    assert forall|k: int| 0 <= k < rest.len() - 1 implies rooms_follow_step(
        #[trigger] post[mid.len() + k],
        rest[k],
        rest[k + 1],
    ) by {
        assert(post[pre.len() + (k + 1)] == post[mid.len() + k]);
        assert(rooms_follow_step(post[pre.len() + (k + 1)], stages[k + 1], stages[k + 1 + 1]));
    }
    let candidates = lemma_first_free_is_given(
        mid,
        post,
        project_id,
        generate,
        MAX_ATTEMPTS as nat,
        r,
        rest,
    );
    assert(rest.last() == stages.last());
    if r is Ok && apart(stages[0]) {
        law_rooms_stay(stages[0], seq![(project_id, candidates.last()@)]);
        let offers = seq![(project_id, candidates.last()@)];
        assert(offers.drop_last() =~= Seq::<(Seq<char>, Seq<char>)>::empty());
        reveal_with_fuel(all_offered, 2);
        assert(all_offered(stages[0], offers) == stages.last());
    }
    candidates
}

/// The rooms of two projects differ, whatever rooms were offered between the two replies that show
/// them.
pub proof fn law_room_is_shared_with_none<F: Fn() -> String, G: Fn() -> String>(
    pre: Trace,
    post: Trace,
    project_id: Seq<char>,
    generate: F,
    room: String,
    rooms: Rooms,
    offers: Seq<(Seq<char>, Seq<char>)>,
    later: Trace,
    last: Trace,
    other_id: Seq<char>,
    generate_other: G,
    other: String,
)
    requires
        room_ensured(pre, post, project_id, generate, Ok::<String, String>(room)),
        room_ensured(later, last, other_id, generate_other, Ok::<String, String>(other)),
        apart(rooms),
        shows_room(post, rooms, project_id),
        shows_room(last, all_offered(rooms, offers), other_id),
        project_id != other_id,
    ensures
        room@ != other@,
{
    law_ensured_room_is_stored(pre, post, project_id, generate, room);
    law_ensured_room_is_stored(later, last, other_id, generate_other, other);
    law_rooms_stay(rooms, offers);
    let after = all_offered(rooms, offers);
    assert(after[project_id] == rooms[project_id]);
    assert(after[project_id] != after[other_id]);
    let before = choose|before: Trace|
        #[trigger] room_read(
            before,
            post,
            project_id,
            Ok::<Option<String>, DbError>(Some(room)),
        );
    assert(room.is_row(seq![Datum::Text(rooms[project_id])]));
    let earlier = choose|before: Trace|
        #[trigger] room_read(
            before,
            last,
            other_id,
            Ok::<Option<String>, DbError>(Some(other)),
        );
    assert(other.is_row(seq![Datum::Text(after[other_id])]));
}

/// A room that is handed out is the one that the store holds: the last thing asked is the room of
/// the project, and the reply is that room, never the proposal itself.
pub proof fn law_ensured_room_is_stored<F: Fn() -> String>(
    pre: Trace,
    post: Trace,
    project_id: Seq<char>,
    generate: F,
    room: String,
)
    requires
        room_ensured(pre, post, project_id, generate, Ok::<String, String>(room)),
    ensures
        room_read_last(post, project_id, room),
{
    let (mid, got) = choose|mid: Trace, got: Result<Option<String>, DbError>|
        {
            &&& #[trigger] room_read(pre, mid, project_id, got)
            &&& room_given(mid, post, project_id, generate, got, Ok::<String, String>(room))
        };
    if got matches Ok(None) {
        lemma_tried_room_is_read(
            mid,
            post,
            project_id,
            generate,
            MAX_ATTEMPTS as nat,
            room,
        );
    }
}

/// An input from the remote side that waits to be delivered.
#[derive(Debug, Clone, PartialEq, Eq)]
pub struct RemoteInboxEntry {
    pub id: i64,
    pub session_id: String,
    pub command_id: String,
    pub kind: String,
    pub payload: String,
    pub created_at: i64,
}

impl FromRow for RemoteInboxEntry {
    open spec fn reads() -> Seq<Read> {
        rows::in_order(seq![
            Kind::Int,
            Kind::Text,
            Kind::Text,
            Kind::Text,
            Kind::Text,
            Kind::Int,
        ])
    }

    open spec fn is_row(self, row: Seq<Datum>) -> bool {
        &&& row[0] == Datum::Integer(self.id)
        &&& row[1] == Datum::Text(self.session_id@)
        &&& row[2] == Datum::Text(self.command_id@)
        &&& row[3] == Datum::Text(self.kind@)
        &&& row[4] == Datum::Text(self.payload@)
        &&& row[5] == Datum::Integer(self.created_at)
    }

    fn layout() -> (reads: Vec<Read>) {
        let kinds = vec![
            Kind::Int,
            Kind::Text,
            Kind::Text,
            Kind::Text,
            Kind::Text,
            Kind::Int,
        ];
        assert(rows::in_order(kinds@) =~= Self::reads());
        reads_in_order(kinds)
    }

    fn from_row(row: &Vec<Cell>) -> (v: Self) {
        proof {
            rows::lemma_cells(row@, Self::reads());
        }
        RemoteInboxEntry {
            id: int_at(row, 0),
            session_id: text_at(row, 1),
            command_id: text_at(row, 2),
            kind: text_at(row, 3),
            payload: text_at(row, 4),
            created_at: int_at(row, 5),
        }
    }
}

/// What became of an input from the remote side.
#[derive(Debug, Clone, Copy, PartialEq, Eq, Structural)]
pub enum RemoteInboxTerminalState {
    Pending,
    Delivered,
    Failed,
}

/// What two marks say of an input: to have failed goes before to have been delivered.
pub open spec fn terminal_state(delivered: bool, failed: bool) -> RemoteInboxTerminalState {
    if failed {
        RemoteInboxTerminalState::Failed
    } else if delivered {
        RemoteInboxTerminalState::Delivered
    } else {
        RemoteInboxTerminalState::Pending
    }
}

impl FromRow for RemoteInboxTerminalState {
    open spec fn reads() -> Seq<Read> {
        rows::in_order(seq![Kind::Int, Kind::Int])
    }

    open spec fn is_row(self, row: Seq<Datum>) -> bool {
        &&& row[0] is Integer
        &&& row[1] is Integer
        &&& self == terminal_state(row[0]->Integer_0 != 0, row[1]->Integer_0 != 0)
    }

    fn layout() -> (reads: Vec<Read>) {
        let kinds = vec![Kind::Int, Kind::Int];
        assert(rows::in_order(kinds@) =~= Self::reads());
        reads_in_order(kinds)
    }

    fn from_row(row: &Vec<Cell>) -> (v: Self) {
        proof {
            rows::lemma_cells(row@, Self::reads());
        }
        if int_at(row, 1) != 0 {
            RemoteInboxTerminalState::Failed
        } else if int_at(row, 0) != 0 {
            RemoteInboxTerminalState::Delivered
        } else {
            RemoteInboxTerminalState::Pending
        }
    }
}

pub const SQL_ENQUEUE_REMOTE_INPUT: &'static str = "INSERT OR IGNORE INTO remote_inbox \
         (session_id, command_id, kind, payload, created_at, delivered_at) \
         VALUES (?1, ?2, ?3, ?4, strftime('%s','now'), NULL)";

/// Queues an input. One whose command is known already is dropped; whether it was queued.
pub fn enqueue_remote_input(
    db: &mut Db,
    session_id: &str,
    command_id: &str,
    kind: &str,
    payload: &str,
) -> (r: Result<bool, DbError>)
    ensures
        rows::took_effect(
            old(db)@,
            final(db)@,
            SQL_ENQUEUE_REMOTE_INPUT@,
            seq![
                Datum::Text(session_id@),
                Datum::Text(command_id@),
                Datum::Text(kind@),
                Datum::Text(payload@),
            ],
            r,
        ),
{
    run_for_effect(
        db,
        SQL_ENQUEUE_REMOTE_INPUT,
        params4(p_text(session_id), p_text(command_id), p_text(kind), p_text(payload)),
    )
}

pub const SQL_REMOTE_INBOX_TERMINAL_STATE_BY_COMMAND_ID: &'static str = "SELECT delivered_at IS NOT NULL, failed_at IS NOT NULL \
           FROM remote_inbox WHERE command_id = ?1";

/// What became of the input of a command, if there is one.
pub fn remote_inbox_terminal_state_by_command_id(
    db: &mut Db,
    command_id: &str,
) -> (r: Result<Option<RemoteInboxTerminalState>, DbError>)
    ensures
        rows::found(
            old(db)@,
            final(db)@,
            SQL_REMOTE_INBOX_TERMINAL_STATE_BY_COMMAND_ID@,
            seq![Datum::Text(command_id@)],
            r,
        ),
{
    find(db, SQL_REMOTE_INBOX_TERMINAL_STATE_BY_COMMAND_ID, params1(p_text(command_id)))
}

pub const SQL_RECORD_CONTROL_COMMAND_SEEN: &'static str = "INSERT OR IGNORE INTO remote_inbox \
         (session_id, command_id, kind, payload, created_at, delivered_at) \
         VALUES (?1, ?2, 'control', ?3, strftime('%s','now'), strftime('%s','now'))";

/// Records a control command as seen and done with; false where it was seen before.
pub fn record_control_command_seen(
    db: &mut Db,
    session_id: &str,
    command_id: &str,
    payload: &str,
) -> (r: Result<bool, DbError>)
    ensures
        rows::took_effect(
            old(db)@,
            final(db)@,
            SQL_RECORD_CONTROL_COMMAND_SEEN@,
            seq![Datum::Text(session_id@), Datum::Text(command_id@), Datum::Text(payload@)],
            r,
        ),
{
    run_for_effect(
        db,
        SQL_RECORD_CONTROL_COMMAND_SEEN,
        params3(p_text(session_id), p_text(command_id), p_text(payload)),
    )
}

pub const SQL_NEXT_PENDING_REMOTE_INPUT: &'static str = "SELECT id, session_id, command_id, kind, payload, created_at \
           FROM remote_inbox \
          WHERE session_id = ?1 AND kind = 'input.send' \
            AND delivered_at IS NULL AND failed_at IS NULL \
          ORDER BY id ASC LIMIT 1";

/// The oldest message to a session that waits to be delivered.
pub fn next_pending_remote_input(
    db: &mut Db,
    session_id: &str,
) -> (r: Result<Option<RemoteInboxEntry>, DbError>)
    ensures
        rows::found(
            old(db)@,
            final(db)@,
            SQL_NEXT_PENDING_REMOTE_INPUT@,
            seq![Datum::Text(session_id@)],
            r,
        ),
{
    find(db, SQL_NEXT_PENDING_REMOTE_INPUT, params1(p_text(session_id)))
}

pub const SQL_MARK_REMOTE_INPUT_DELIVERED: &'static str = "UPDATE remote_inbox SET delivered_at = strftime('%s','now') WHERE id = ?1";

/// Marks an input as delivered.
pub fn mark_remote_input_delivered(db: &mut Db, id: i64) -> (r: Result<(), DbError>)
    ensures
        rows::executed(
            old(db)@,
            final(db)@,
            SQL_MARK_REMOTE_INPUT_DELIVERED@,
            seq![Datum::Integer(id)],
            r,
        ),
{
    run(db, SQL_MARK_REMOTE_INPUT_DELIVERED, params1(p_int(id)))
}

pub const SQL_MARK_REMOTE_INPUT_DELIVERED_BY_COMMAND_ID: &'static str = "UPDATE remote_inbox SET delivered_at = strftime('%s','now') WHERE command_id = ?1";

/// Marks the input of a command as delivered.
pub fn mark_remote_input_delivered_by_command_id(
    db: &mut Db,
    command_id: &str,
) -> (r: Result<(), DbError>)
    ensures
        rows::executed(
            old(db)@,
            final(db)@,
            SQL_MARK_REMOTE_INPUT_DELIVERED_BY_COMMAND_ID@,
            seq![Datum::Text(command_id@)],
            r,
        ),
{
    run(db, SQL_MARK_REMOTE_INPUT_DELIVERED_BY_COMMAND_ID, params1(p_text(command_id)))
}

pub const SQL_RECORD_REMOTE_INPUT_FAILURE: &'static str = "UPDATE remote_inbox \
            SET attempts = attempts + 1, last_error = ?2 \
          WHERE id = ?1 \
          RETURNING attempts";

/// Records that an input could not be delivered; how often that has happened.
pub fn record_remote_input_failure(db: &mut Db, id: i64, error: &str) -> (r: Result<i64, DbError>)
    ensures
        rows::fetched(
            old(db)@,
            final(db)@,
            SQL_RECORD_REMOTE_INPUT_FAILURE@,
            seq![Datum::Integer(id), Datum::Text(error@)],
            r,
        ),
{
    fetch(db, SQL_RECORD_REMOTE_INPUT_FAILURE, params2(p_int(id), p_text(error)))
}

pub const SQL_MARK_REMOTE_INPUT_FAILED: &'static str = "UPDATE remote_inbox \
            SET failed_at = strftime('%s','now'), last_error = ?2 \
          WHERE id = ?1";

/// Marks an input as failed for good.
pub fn mark_remote_input_failed(db: &mut Db, id: i64, error: &str) -> (r: Result<(), DbError>)
    ensures
        rows::executed(
            old(db)@,
            final(db)@,
            SQL_MARK_REMOTE_INPUT_FAILED@,
            seq![Datum::Integer(id), Datum::Text(error@)],
            r,
        ),
{
    run(db, SQL_MARK_REMOTE_INPUT_FAILED, params2(p_int(id), p_text(error)))
}

pub const SQL_MARK_REMOTE_INPUT_FAILED_BY_COMMAND_ID: &'static str = "UPDATE remote_inbox SET failed_at = strftime('%s','now'), last_error = ?2 WHERE command_id = ?1";

/// Marks the input of a command as failed for good.
pub fn mark_remote_input_failed_by_command_id(
    db: &mut Db,
    command_id: &str,
    error: &str,
) -> (r: Result<(), DbError>)
    ensures
        rows::executed(
            old(db)@,
            final(db)@,
            SQL_MARK_REMOTE_INPUT_FAILED_BY_COMMAND_ID@,
            seq![Datum::Text(command_id@), Datum::Text(error@)],
            r,
        ),
{
    run(db, SQL_MARK_REMOTE_INPUT_FAILED_BY_COMMAND_ID, params2(p_text(command_id), p_text(error)))
}

pub const SQL_SESSIONS_WITH_PENDING_REMOTE_INPUT: &'static str = "SELECT DISTINCT remote_inbox.session_id \
           FROM remote_inbox \
           JOIN sessions ON sessions.id = remote_inbox.session_id \
          WHERE remote_inbox.delivered_at IS NULL \
            AND remote_inbox.failed_at IS NULL \
            AND sessions.deleted_at IS NULL \
          ORDER BY remote_inbox.session_id";

/// The sessions that inputs wait for, without those that were deleted.
pub fn sessions_with_pending_remote_input(db: &mut Db) -> (r: Result<Vec<String>, DbError>)
    ensures
        rows::listed(
            old(db)@,
            final(db)@,
            SQL_SESSIONS_WITH_PENDING_REMOTE_INPUT@,
            Seq::<Datum>::empty(),
            r,
        ),
{
    list(db, SQL_SESSIONS_WITH_PENDING_REMOTE_INPUT, params0())
}

pub const SQL_SESSIONS_WITH_PENDING_REMOTE_ANSWER: &'static str = "SELECT DISTINCT remote_inbox.session_id \
           FROM remote_inbox \
           JOIN sessions ON sessions.id = remote_inbox.session_id \
          WHERE remote_inbox.kind = 'input.answer' \
            AND remote_inbox.delivered_at IS NULL \
            AND remote_inbox.failed_at IS NULL \
            AND sessions.deleted_at IS NULL \
          ORDER BY remote_inbox.session_id";

/// The sessions that answers wait for, without those that were deleted.
pub fn sessions_with_pending_remote_answer(db: &mut Db) -> (r: Result<Vec<String>, DbError>)
    ensures
        rows::listed(
            old(db)@,
            final(db)@,
            SQL_SESSIONS_WITH_PENDING_REMOTE_ANSWER@,
            Seq::<Datum>::empty(),
            r,
        ),
{
    list(db, SQL_SESSIONS_WITH_PENDING_REMOTE_ANSWER, params0())
}

pub const SQL_PENDING_REMOTE_ANSWERS: &'static str = "SELECT id, session_id, command_id, kind, payload, created_at \
           FROM remote_inbox \
          WHERE session_id = ?1 AND kind = 'input.answer' \
            AND delivered_at IS NULL AND failed_at IS NULL \
          ORDER BY id ASC";

/// The answers that wait for a session, oldest first.
pub fn pending_remote_answers(
    db: &mut Db,
    session_id: &str,
) -> (r: Result<Vec<RemoteInboxEntry>, DbError>)
    ensures
        rows::listed(
            old(db)@,
            final(db)@,
            SQL_PENDING_REMOTE_ANSWERS@,
            seq![Datum::Text(session_id@)],
            r,
        ),
{
    list(db, SQL_PENDING_REMOTE_ANSWERS, params1(p_text(session_id)))
}

/// A paired device. Tokens are kept as hashes. `access_expires_at` and the times from `refresh_until`
/// on are in milliseconds, the others in seconds.
#[derive(Debug, Clone, PartialEq, Eq)]
pub struct RemoteDeviceRow {
    pub device_id: String,
    pub name: String,
    pub token_hash: String,
    pub refresh_hash: String,
    pub access_expires_at: i64,
    pub created_at: i64,
    pub revoked_at: Option<i64>,
    pub room_id: Option<String>,
    pub generation: Option<i64>,
    pub refresh_until: Option<i64>,
    pub journal_request_id: Option<String>,
    pub journal_generation: Option<i64>,
    pub journal_prev_generation: Option<i64>,
    pub journal_prev_access_hash: Option<String>,
    pub journal_prev_refresh_hash: Option<String>,
    pub journal_response_ct: Option<String>,
    pub journal_response_n: Option<String>,
    pub journal_prev_expires_at: Option<i64>,
    pub journal_response_expires: Option<i64>,
}

impl FromRow for RemoteDeviceRow {
    open spec fn reads() -> Seq<Read> {
        rows::in_order(seq![
            Kind::Text,
            Kind::Text,
            Kind::Text,
            Kind::Text,
            Kind::Int,
            Kind::Int,
            Kind::OptInt,
            Kind::OptText,
            Kind::OptInt,
            Kind::OptInt,
            Kind::OptText,
            Kind::OptInt,
            Kind::OptInt,
            Kind::OptText,
            Kind::OptText,
            Kind::OptText,
            Kind::OptText,
            Kind::OptInt,
            Kind::OptInt,
        ])
    }

    open spec fn is_row(self, row: Seq<Datum>) -> bool {
        &&& row[0] == Datum::Text(self.device_id@)
        &&& row[1] == Datum::Text(self.name@)
        &&& row[2] == Datum::Text(self.token_hash@)
        &&& row[3] == Datum::Text(self.refresh_hash@)
        &&& row[4] == Datum::Integer(self.access_expires_at)
        &&& row[5] == Datum::Integer(self.created_at)
        &&& row[6] == rows::opt_int(self.revoked_at)
        &&& row[7] == rows::opt_text(events::opt(self.room_id))
        &&& row[8] == rows::opt_int(self.generation)
        &&& row[9] == rows::opt_int(self.refresh_until)
        &&& row[10] == rows::opt_text(events::opt(self.journal_request_id))
        &&& row[11] == rows::opt_int(self.journal_generation)
        &&& row[12] == rows::opt_int(self.journal_prev_generation)
        &&& row[13] == rows::opt_text(events::opt(self.journal_prev_access_hash))
        &&& row[14] == rows::opt_text(events::opt(self.journal_prev_refresh_hash))
        &&& row[15] == rows::opt_text(events::opt(self.journal_response_ct))
        &&& row[16] == rows::opt_text(events::opt(self.journal_response_n))
        &&& row[17] == rows::opt_int(self.journal_prev_expires_at)
        &&& row[18] == rows::opt_int(self.journal_response_expires)
    }

    fn layout() -> (reads: Vec<Read>) {
        let kinds = vec![
            Kind::Text,
            Kind::Text,
            Kind::Text,
            Kind::Text,
            Kind::Int,
            Kind::Int,
            Kind::OptInt,
            Kind::OptText,
            Kind::OptInt,
            Kind::OptInt,
            Kind::OptText,
            Kind::OptInt,
            Kind::OptInt,
            Kind::OptText,
            Kind::OptText,
            Kind::OptText,
            Kind::OptText,
            Kind::OptInt,
            Kind::OptInt,
        ];
        assert(rows::in_order(kinds@) =~= Self::reads());
        reads_in_order(kinds)
    }

    fn from_row(row: &Vec<Cell>) -> (v: Self) {
        proof {
            rows::lemma_cells(row@, Self::reads());
        }
        RemoteDeviceRow {
            device_id: text_at(row, 0),
            name: text_at(row, 1),
            token_hash: text_at(row, 2),
            refresh_hash: text_at(row, 3),
            access_expires_at: int_at(row, 4),
            created_at: int_at(row, 5),
            revoked_at: opt_int_at(row, 6),
            room_id: opt_text_at(row, 7),
            generation: opt_int_at(row, 8),
            refresh_until: opt_int_at(row, 9),
            journal_request_id: opt_text_at(row, 10),
            journal_generation: opt_int_at(row, 11),
            journal_prev_generation: opt_int_at(row, 12),
            journal_prev_access_hash: opt_text_at(row, 13),
            journal_prev_refresh_hash: opt_text_at(row, 14),
            journal_response_ct: opt_text_at(row, 15),
            journal_response_n: opt_text_at(row, 16),
            journal_prev_expires_at: opt_int_at(row, 17),
            journal_response_expires: opt_int_at(row, 18),
        }
    }
}

/// The receipt of a refresh that is under way. Both times are in milliseconds.
#[derive(Debug, Clone, PartialEq, Eq)]
pub struct RemoteRefreshJournal {
    pub request_id: String,
    pub generation: i64,
    pub prev_generation: i64,
    pub prev_access_hash: String,
    pub prev_refresh_hash: String,
    pub response_ct: String,
    pub response_n: String,
    pub prev_expires_at: i64,
    pub response_expires: i64,
}

impl FromRow for RemoteRefreshJournal {
    open spec fn reads() -> Seq<Read> {
        rows::in_order(seq![
            Kind::Text,
            Kind::Int,
            Kind::Int,
            Kind::Text,
            Kind::Text,
            Kind::Text,
            Kind::Text,
            Kind::Int,
            Kind::Int,
        ])
    }

    open spec fn is_row(self, row: Seq<Datum>) -> bool {
        &&& row[0] == Datum::Text(self.request_id@)
        &&& row[1] == Datum::Integer(self.generation)
        &&& row[2] == Datum::Integer(self.prev_generation)
        &&& row[3] == Datum::Text(self.prev_access_hash@)
        &&& row[4] == Datum::Text(self.prev_refresh_hash@)
        &&& row[5] == Datum::Text(self.response_ct@)
        &&& row[6] == Datum::Text(self.response_n@)
        &&& row[7] == Datum::Integer(self.prev_expires_at)
        &&& row[8] == Datum::Integer(self.response_expires)
    }

    fn layout() -> (reads: Vec<Read>) {
        let kinds = vec![
            Kind::Text,
            Kind::Int,
            Kind::Int,
            Kind::Text,
            Kind::Text,
            Kind::Text,
            Kind::Text,
            Kind::Int,
            Kind::Int,
        ];
        assert(rows::in_order(kinds@) =~= Self::reads());
        reads_in_order(kinds)
    }

    fn from_row(row: &Vec<Cell>) -> (v: Self) {
        proof {
            rows::lemma_cells(row@, Self::reads());
        }
        RemoteRefreshJournal {
            request_id: text_at(row, 0),
            generation: int_at(row, 1),
            prev_generation: int_at(row, 2),
            prev_access_hash: text_at(row, 3),
            prev_refresh_hash: text_at(row, 4),
            response_ct: text_at(row, 5),
            response_n: text_at(row, 6),
            prev_expires_at: int_at(row, 7),
            response_expires: int_at(row, 8),
        }
    }
}

/// The time of an expiry in milliseconds: one that is too small to be in milliseconds is in
/// seconds. None where it is not a time.
pub open spec fn expiry_in_millis(at: i64) -> Option<i64> {
    if at <= 0 {
        None
    } else if at < ACCESS_EXPIRES_MILLIS_THRESHOLD {
        Some((at * 1000) as i64)
    } else {
        Some(at)
    }
}

/// The time of an expiry in milliseconds, given in milliseconds or in seconds.
pub fn normalize_access_expires_at_millis(access_expires_at_ms: i64) -> (r: Result<i64, DbError>)
    ensures
        r == match expiry_in_millis(access_expires_at_ms) {
            Some(at) => Ok::<i64, DbError>(at),
            None => Err(DbError::OutOfRange { index: 0, value: access_expires_at_ms }),
        },
{
    if access_expires_at_ms <= 0 {
        return Err(DbError::OutOfRange { index: 0, value: access_expires_at_ms });
    }
    if access_expires_at_ms < ACCESS_EXPIRES_MILLIS_THRESHOLD {
        Ok(access_expires_at_ms * 1000)
    } else {
        Ok(access_expires_at_ms)
    }
}

/// A time in milliseconds stays what it is, and one in seconds is multiplied; to normalize a time
/// of at least a hundred million twice is the same as to do it once.
pub proof fn law_expiry_in_millis(at: i64)
    ensures
        at >= ACCESS_EXPIRES_MILLIS_THRESHOLD ==> expiry_in_millis(at) == Some(at),
        0 < at < ACCESS_EXPIRES_MILLIS_THRESHOLD ==> expiry_in_millis(at) == Some(
            (at * 1000) as i64,
        ),
        at >= 100_000_000 ==> expiry_in_millis(expiry_in_millis(at)->Some_0) == expiry_in_millis(
            at,
        ),
        expiry_in_millis(at) is None <==> at <= 0,
{
}

pub const SQL_INSERT_REMOTE_DEVICE: &'static str = "INSERT INTO remote_devices \
         (device_id, room_id, name, token_hash, refresh_hash, access_expires_at, created_at, revoked_at) \
         VALUES (?1, ?2, ?3, ?4, ?5, ?6, ?7, NULL)";

/// Stores a device. Its expiry may be given in seconds; one that is no time is refused, and
/// nothing is stored.
pub fn insert_remote_device(
    db: &mut Db,
    device_id: &str,
    room_id: Option<&str>,
    name: &str,
    token_hash: &str,
    refresh_hash: &str,
    access_expires_at_ms: i64,
    created_at_secs: i64,
) -> (r: Result<(), DbError>)
    ensures
        match expiry_in_millis(access_expires_at_ms) {
            Some(at) => rows::executed(
                old(db)@,
                final(db)@,
                SQL_INSERT_REMOTE_DEVICE@,
                seq![
                    Datum::Text(device_id@),
                    rows::opt_text(events::opt_str(room_id)),
                    Datum::Text(name@),
                    Datum::Text(token_hash@),
                    Datum::Text(refresh_hash@),
                    Datum::Integer(at),
                    Datum::Integer(created_at_secs),
                ],
                r,
            ),
            None => final(db)@ == old(db)@ && r == Err::<(), DbError>(
                DbError::OutOfRange { index: 0, value: access_expires_at_ms },
            ),
        },
{
    let at = match normalize_access_expires_at_millis(access_expires_at_ms) {
        Ok(at) => at,
        Err(e) => return Err(e),
    };
    run(
        db,
        SQL_INSERT_REMOTE_DEVICE,
        params7(
            p_text(device_id),
            p_opt_text(room_id),
            p_text(name),
            p_text(token_hash),
            p_text(refresh_hash),
            p_int(at),
            p_int(created_at_secs),
        ),
    )
}

pub const SQL_LIST_REMOTE_DEVICES: &'static str = "SELECT device_id, name, token_hash, refresh_hash, access_expires_at, created_at, revoked_at, \
                room_id, generation, refresh_until, journal_request_id, journal_generation, \
                journal_prev_generation, journal_prev_access_hash, journal_prev_refresh_hash, \
                journal_response_ct, journal_response_n, journal_prev_expires_at, \
                journal_response_expires \
           FROM remote_devices ORDER BY created_at ASC";

/// All devices, revoked ones too, oldest first.
pub fn list_remote_devices(db: &mut Db) -> (r: Result<Vec<RemoteDeviceRow>, DbError>)
    ensures
        rows::listed(old(db)@, final(db)@, SQL_LIST_REMOTE_DEVICES@, Seq::<Datum>::empty(), r),
{
    list(db, SQL_LIST_REMOTE_DEVICES, params0())
}

pub const SQL_GET_REMOTE_DEVICE: &'static str = "SELECT device_id, name, token_hash, refresh_hash, access_expires_at, created_at, revoked_at, \
                room_id, generation, refresh_until, journal_request_id, journal_generation, \
                journal_prev_generation, journal_prev_access_hash, journal_prev_refresh_hash, \
                journal_response_ct, journal_response_n, journal_prev_expires_at, \
                journal_response_expires \
           FROM remote_devices WHERE device_id = ?1";

/// A device, if there is one.
pub fn get_remote_device(
    db: &mut Db,
    device_id: &str,
) -> (r: Result<Option<RemoteDeviceRow>, DbError>)
    ensures
        rows::found(old(db)@, final(db)@, SQL_GET_REMOTE_DEVICE@, seq![Datum::Text(device_id@)], r),
{
    find(db, SQL_GET_REMOTE_DEVICE, params1(p_text(device_id)))
}

/// Refuses a time that is too small to be in milliseconds.
pub fn require_millis_timestamp(value: i64) -> (r: Result<i64, DbError>)
    ensures
        r == if value < ACCESS_EXPIRES_MILLIS_THRESHOLD {
            Err::<i64, DbError>(DbError::OutOfRange { index: 0, value })
        } else {
            Ok(value)
        },
{
    if value < ACCESS_EXPIRES_MILLIS_THRESHOLD {
        return Err(DbError::OutOfRange { index: 0, value });
    }
    Ok(value)
}

pub const SQL_SET_REMOTE_DEVICE_REGISTRY: &'static str = "UPDATE remote_devices \
            SET room_id = ?2, generation = ?3, refresh_until = ?4 \
          WHERE device_id = ?1";

/// A device was bound to a room and a generation; a time that is not in milliseconds was refused
/// instead, and nothing stored.
pub open spec fn device_registered(
    pre: Trace,
    post: Trace,
    device_id: Seq<char>,
    room_id: Seq<char>,
    generation: i64,
    refresh_until_ms: i64,
    r: Result<bool, DbError>,
) -> bool {
    if refresh_until_ms < ACCESS_EXPIRES_MILLIS_THRESHOLD {
        post == pre && r == Err::<bool, DbError>(
            DbError::OutOfRange { index: 0, value: refresh_until_ms },
        )
    } else {
        rows::touched(
            pre,
            post,
            SQL_SET_REMOTE_DEVICE_REGISTRY@,
            seq![
                Datum::Text(device_id),
                Datum::Text(room_id),
                Datum::Integer(generation),
                Datum::Integer(refresh_until_ms),
            ],
            r,
        )
    }
}

/// Binds a device to a room and a generation; whether there is such a device. `refresh_until_ms`
/// has to be in milliseconds.
pub fn set_remote_device_registry(
    db: &mut Db,
    device_id: &str,
    room_id: &str,
    generation: i64,
    refresh_until_ms: i64,
) -> (r: Result<bool, DbError>)
    ensures
        device_registered(
            old(db)@,
            final(db)@,
            device_id@,
            room_id@,
            generation,
            refresh_until_ms,
            r,
        ),
{
    match require_millis_timestamp(refresh_until_ms) {
        Ok(_) => {},
        Err(e) => return Err(e),
    }
    run_touched(
        db,
        SQL_SET_REMOTE_DEVICE_REGISTRY,
        params4(p_text(device_id), p_text(room_id), p_int(generation), p_int(refresh_until_ms)),
    )
}

/// What `set_remote_device_registry` does, for a caller that has a transaction open.
pub fn set_remote_device_registry_in_transaction(
    db: &mut Db,
    device_id: &str,
    room_id: &str,
    generation: i64,
    refresh_until_ms: i64,
) -> (r: Result<bool, DbError>)
    ensures
        device_registered(
            old(db)@,
            final(db)@,
            device_id@,
            room_id@,
            generation,
            refresh_until_ms,
            r,
        ),
{
    set_remote_device_registry(db, device_id, room_id, generation, refresh_until_ms)
}

pub const SQL_STORE_REFRESH_JOURNAL: &'static str = "UPDATE remote_devices SET \
            journal_request_id = ?2, journal_generation = ?3, journal_prev_generation = ?4, \
            journal_prev_access_hash = ?5, journal_prev_refresh_hash = ?6, \
            journal_response_ct = ?7, journal_response_n = ?8, \
            journal_prev_expires_at = ?9, journal_response_expires = ?10 \
          WHERE device_id = ?1";

/// Gives a device a refresh receipt, over the one that it has; whether there is such a device.
pub fn store_refresh_journal(
    db: &mut Db,
    device_id: &str,
    journal: &RemoteRefreshJournal,
) -> (r: Result<bool, DbError>)
    ensures
        rows::touched(
            old(db)@,
            final(db)@,
            SQL_STORE_REFRESH_JOURNAL@,
            seq![
                Datum::Text(device_id@),
                Datum::Text(journal.request_id@),
                Datum::Integer(journal.generation),
                Datum::Integer(journal.prev_generation),
                Datum::Text(journal.prev_access_hash@),
                Datum::Text(journal.prev_refresh_hash@),
                Datum::Text(journal.response_ct@),
                Datum::Text(journal.response_n@),
                Datum::Integer(journal.prev_expires_at),
                Datum::Integer(journal.response_expires),
            ],
            r,
        ),
{
    run_touched(
        db,
        SQL_STORE_REFRESH_JOURNAL,
        params10(
            p_text(device_id),
            p_text(journal.request_id.as_str()),
            p_int(journal.generation),
            p_int(journal.prev_generation),
            p_text(journal.prev_access_hash.as_str()),
            p_text(journal.prev_refresh_hash.as_str()),
            p_text(journal.response_ct.as_str()),
            p_text(journal.response_n.as_str()),
            p_int(journal.prev_expires_at),
            p_int(journal.response_expires),
        ),
    )
}

pub const SQL_LOAD_REFRESH_JOURNAL: &'static str = "SELECT journal_request_id, journal_generation, journal_prev_generation, \
                journal_prev_access_hash, journal_prev_refresh_hash, journal_response_ct, \
                journal_response_n, journal_prev_expires_at, journal_response_expires \
           FROM remote_devices \
          WHERE device_id = ?1 AND journal_request_id IS NOT NULL";

/// The refresh receipt of a device, if it has one.
pub fn load_refresh_journal(
    db: &mut Db,
    device_id: &str,
) -> (r: Result<Option<RemoteRefreshJournal>, DbError>)
    ensures
        rows::found(
            old(db)@,
            final(db)@,
            SQL_LOAD_REFRESH_JOURNAL@,
            seq![Datum::Text(device_id@)],
            r,
        ),
{
    find(db, SQL_LOAD_REFRESH_JOURNAL, params1(p_text(device_id)))
}

pub const SQL_CLEAR_REFRESH_JOURNAL: &'static str = "UPDATE remote_devices SET \
            journal_request_id = NULL, journal_generation = NULL, journal_prev_generation = NULL, \
            journal_prev_access_hash = NULL, journal_prev_refresh_hash = NULL, \
            journal_response_ct = NULL, journal_response_n = NULL, \
            journal_prev_expires_at = NULL, journal_response_expires = NULL \
          WHERE device_id = ?1";

/// Takes a device's refresh receipt away; whether there is such a device.
pub fn clear_refresh_journal(db: &mut Db, device_id: &str) -> (r: Result<bool, DbError>)
    ensures
        rows::touched(
            old(db)@,
            final(db)@,
            SQL_CLEAR_REFRESH_JOURNAL@,
            seq![Datum::Text(device_id@)],
            r,
        ),
{
    run_touched(db, SQL_CLEAR_REFRESH_JOURNAL, params1(p_text(device_id)))
}

pub const SQL_READ_COUNTER: &'static str = "SELECT next_generation FROM remote_registry_counter WHERE room_id = ?1";

/// The next generation of a room was read.
pub open spec fn counter_read(
    pre: Trace,
    post: Trace,
    room_id: Seq<char>,
    r: Result<Option<i64>, DbError>,
) -> bool {
    rows::found(pre, post, SQL_READ_COUNTER@, seq![Datum::Text(room_id)], r)
}

fn read_counter(db: &mut Db, room_id: &str) -> (r: Result<Option<i64>, DbError>)
    ensures
        counter_read(old(db)@, final(db)@, room_id@, r),
{
    find(db, SQL_READ_COUNTER, params1(p_text(room_id)))
}

pub const SQL_STORE_GENERATION: &'static str = "INSERT INTO remote_registry_counter (room_id, next_generation) VALUES (?1, ?2) \
         ON CONFLICT(room_id) DO UPDATE SET next_generation = excluded.next_generation";

/// The next generation of a room, one where none was ever stored.
pub open spec fn upcoming(counter: Option<i64>) -> i64 {
    match counter {
        Some(n) => n,
        None => 1,
    }
}

/// The generation after the next one of a room was stored as the next.
pub open spec fn generation_stored(
    mid: Trace,
    post: Trace,
    room_id: Seq<char>,
    got: Result<Option<i64>, DbError>,
    r: Result<i64, DbError>,
) -> bool {
    match got {
        Ok(counter) => if upcoming(counter) == i64::MAX {
            post == mid && r == Err::<i64, DbError>(
                DbError::OutOfRange { index: 0, value: i64::MAX },
            )
        } else {
            rows::yields(
                mid,
                post,
                SQL_STORE_GENERATION@,
                seq![
                    Datum::Text(room_id),
                    Datum::Integer((upcoming(counter) + 1) as i64),
                ],
                upcoming(counter),
                r,
            )
        },
        Err(e) => post == mid && r == Err::<i64, DbError>(e),
    }
}

/// The next generation of a room was read, and the one after it stored as the next.
pub open spec fn generation_issued(
    pre: Trace,
    post: Trace,
    room_id: Seq<char>,
    r: Result<i64, DbError>,
) -> bool {
    exists|mid: Trace, got: Result<Option<i64>, DbError>|
        {
            &&& #[trigger] counter_read(pre, mid, room_id, got)
            &&& generation_stored(mid, post, room_id, got, r)
        }
}

/// Issues the next generation of a room, for a caller that has a transaction open.
pub fn next_registry_generation_in_transaction(db: &mut Db, room_id: &str) -> (r: Result<
    i64,
    DbError,
>)
    ensures
        generation_issued(old(db)@, final(db)@, room_id@, r),
{
    let got = read_counter(db, room_id);
    assert(counter_read(old(db)@, db@, room_id@, got));
    let generation = match got {
        Ok(Some(n)) => n,
        Ok(None) => 1,
        Err(e) => return Err(e),
    };
    if generation == i64::MAX {
        return Err(DbError::OutOfRange { index: 0, value: generation });
    }
    match run(db, SQL_STORE_GENERATION, params2(p_text(room_id), p_int(generation + 1))) {
        Ok(()) => Ok(generation),
        Err(e) => Err(e),
    }
}

/// Issues the next generation of a room, in a transaction of its own.
pub fn next_registry_generation(db: &mut Db, room_id: &str) -> (r: Result<i64, DbError>)
    ensures
        tx::transacted(
            old(db)@,
            final(db)@,
            |a: Trace, b: Trace, x: Result<i64, DbError>| generation_issued(a, b, room_id@, x),
            r,
        ),
{
    match begin(db) {
        Ok(()) => {},
        Err(e) => return Err(e),
    }
    let ghost opened = db@;
    let ghost body = |a: Trace, b: Trace, x: Result<i64, DbError>|
        generation_issued(a, b, room_id@, x);
    let inner = next_registry_generation_in_transaction(db, room_id);
    assert(body(opened, db@, inner));
    finish(db, inner)
}

/// The number that the last statement of a trace stored as a room's next generation.
pub open spec fn stored_next(trace: Trace) -> Option<i64> {
    match trace.last() {
        Step::Asked { request: Request::Execute { params, .. }, .. } => match params[1] {
            Datum::Integer(n) => Some(n),
            _ => None,
        },
        _ => None,
    }
}

/// Generations only grow: what is stored as the next one is one more than the one issued, so that
/// an issue that reads what the last one stored gives a greater one.
pub proof fn law_generations_grow(pre: Trace, post: Trace, room_id: Seq<char>, generation: i64)
    requires
        generation_issued(pre, post, room_id, Ok::<i64, DbError>(generation)),
    ensures
        stored_next(post) == Some((generation + 1) as i64),
        generation < i64::MAX,
        upcoming(stored_next(post)) > generation,
{
}

/// Whether a step shows a room's next generation.
pub open spec fn shows_counter(step: Step, next: i64) -> bool {
    step matches Step::Asked { reply: Reply::Row(Some(row)), .. } && row[0] == Datum::Integer(next)
}

/// Of two generations that were issued for a room, the later one is greater, where the later issue
/// is shown what the earlier one stored, or a number to which that was raised.
pub proof fn law_generations_strictly_increase(
    pre: Trace,
    post: Trace,
    later: Trace,
    last: Trace,
    room_id: Seq<char>,
    first: i64,
    next: i64,
    second: i64,
)
    requires
        generation_issued(pre, post, room_id, Ok::<i64, DbError>(first)),
        generation_issued(later, last, room_id, Ok::<i64, DbError>(second)),
        stored_next(post) matches Some(stored) && stored <= next,
        shows_counter(last[later.len() as int], next),
    ensures
        first < second,
        second == next,
{
    law_generations_grow(pre, post, room_id, first);
    let (mid, got) = choose|mid: Trace, got: Result<Option<i64>, DbError>|
        {
            &&& #[trigger] counter_read(later, mid, room_id, got)
            &&& generation_stored(mid, last, room_id, got, Ok::<i64, DbError>(second))
        };
    assert(last[later.len() as int] == mid[later.len() as int]);
}

/// A room's next generation after `SQL_BUMP_REGISTRY_COUNTER` was run with a number: the greater of
/// the two.
pub open spec fn raised_counter(counter: Option<i64>, bound: i64) -> i64 {
    match counter {
        Some(n) => if n >= bound {
            n
        } else {
            bound
        },
        None => bound,
    }
}

/// To raise a room's next generation leaves it above the floor, and never lowers it.
pub proof fn law_raising_never_lowers(
    pre: Trace,
    post: Trace,
    room_id: Seq<char>,
    floor: i64,
    counter: Option<i64>,
)
    requires
        counter_raised(pre, post, room_id, floor, Ok::<(), DbError>(())),
    ensures
        stored_next(post) matches Some(bound) && {
            &&& raised_counter(counter, bound) > floor
            &&& counter matches Some(n) ==> raised_counter(counter, bound) >= n
        },
{
}

/// The next generation of a room, which is greater than all that were issued.
pub fn current_registry_revision(db: &mut Db, room_id: &str) -> (r: Result<i64, DbError>)
    ensures
        exists|got: Result<Option<i64>, DbError>|
            #[trigger] counter_read(old(db)@, final(db)@, room_id@, got) && r == match got {
                Ok(counter) => Ok::<i64, DbError>(upcoming(counter)),
                Err(e) => Err(e),
            },
{
    match read_counter(db, room_id) {
        Ok(Some(n)) => Ok(n),
        Ok(None) => Ok(1),
        Err(e) => Err(e),
    }
}

pub const SQL_BUMP_REGISTRY_COUNTER: &'static str = "INSERT INTO remote_registry_counter (room_id, next_generation) VALUES (?1, ?2) \
         ON CONFLICT(room_id) DO UPDATE SET \
            next_generation = max(remote_registry_counter.next_generation, excluded.next_generation)";

/// The lowest next generation that leaves `floor` behind.
pub open spec fn above(floor: i64) -> i64 {
    if floor < 0 {
        1
    } else {
        (floor + 1) as i64
    }
}

/// The next generation of a room was raised above `floor`; the store keeps it where it is higher.
pub open spec fn counter_raised(
    pre: Trace,
    post: Trace,
    room_id: Seq<char>,
    floor: i64,
    r: Result<(), DbError>,
) -> bool {
    if floor == i64::MAX {
        post == pre && r == Err::<(), DbError>(DbError::OutOfRange { index: 0, value: floor })
    } else {
        rows::executed(
            pre,
            post,
            SQL_BUMP_REGISTRY_COUNTER@,
            seq![Datum::Text(room_id), Datum::Integer(above(floor))],
            r,
        )
    }
}

/// Raises the next generation of a room above `floor`; it never goes down.
pub fn bump_registry_counter_to(db: &mut Db, room_id: &str, floor: i64) -> (r: Result<(), DbError>)
    ensures
        counter_raised(old(db)@, final(db)@, room_id@, floor, r),
{
    if floor == i64::MAX {
        return Err(DbError::OutOfRange { index: 0, value: floor });
    }
    let next: i64 = if floor < 0 {
        1
    } else {
        floor + 1
    };
    run(db, SQL_BUMP_REGISTRY_COUNTER, params2(p_text(room_id), p_int(next)))
}

/// What `bump_registry_counter_to` does, for a caller that has a transaction open.
pub fn bump_registry_counter_to_in_transaction(db: &mut Db, room_id: &str, floor: i64) -> (r: Result<
    (),
    DbError,
>)
    ensures
        counter_raised(old(db)@, final(db)@, room_id@, floor, r),
{
    bump_registry_counter_to(db, room_id, floor)
}

pub const SQL_REVOKE_REMOTE_DEVICE: &'static str = "UPDATE remote_devices SET revoked_at = ?2 WHERE device_id = ?1 AND revoked_at IS NULL";

/// Revokes a device; false where there is none or it is revoked already, whose time then stays.
pub fn revoke_remote_device(
    db: &mut Db,
    device_id: &str,
    now_secs: i64,
) -> (r: Result<bool, DbError>)
    ensures
        rows::touched(
            old(db)@,
            final(db)@,
            SQL_REVOKE_REMOTE_DEVICE@,
            seq![Datum::Text(device_id@), Datum::Integer(now_secs)],
            r,
        ),
{
    run_touched(db, SQL_REVOKE_REMOTE_DEVICE, params2(p_text(device_id), p_int(now_secs)))
}

pub const SQL_UPDATE_REMOTE_DEVICE_TOKENS: &'static str = "UPDATE remote_devices \
            SET token_hash = ?2, refresh_hash = ?3, access_expires_at = ?4 \
          WHERE device_id = ?1 AND revoked_at IS NULL";

/// Gives a device new tokens and a new expiry, unless it is revoked; whether it was given them. The
/// expiry may be given in seconds; one that is no time is refused, and nothing is stored.
pub fn update_remote_device_tokens(
    db: &mut Db,
    device_id: &str,
    token_hash: &str,
    refresh_hash: &str,
    access_expires_at_ms: i64,
) -> (r: Result<bool, DbError>)
    ensures
        match expiry_in_millis(access_expires_at_ms) {
            Some(at) => rows::touched(
                old(db)@,
                final(db)@,
                SQL_UPDATE_REMOTE_DEVICE_TOKENS@,
                seq![
                    Datum::Text(device_id@),
                    Datum::Text(token_hash@),
                    Datum::Text(refresh_hash@),
                    Datum::Integer(at),
                ],
                r,
            ),
            None => final(db)@ == old(db)@ && r == Err::<bool, DbError>(
                DbError::OutOfRange { index: 0, value: access_expires_at_ms },
            ),
        },
{
    let at = match normalize_access_expires_at_millis(access_expires_at_ms) {
        Ok(at) => at,
        Err(e) => return Err(e),
    };
    run_touched(
        db,
        SQL_UPDATE_REMOTE_DEVICE_TOKENS,
        params4(p_text(device_id), p_text(token_hash), p_text(refresh_hash), p_int(at)),
    )
}

/// What became of an input is told by two marks: one that has failed has failed, also where it was
/// delivered before; one that was delivered and has not failed was delivered; any other waits.
pub proof fn law_failure_goes_before_delivery(delivered: bool, failed: bool)
    ensures
        terminal_state(delivered, failed) is Failed <==> failed,
        terminal_state(delivered, failed) is Delivered <==> delivered && !failed,
        terminal_state(delivered, failed) is Pending <==> !delivered && !failed,
{
}

/// A time of expiry below a hundred thousand million is one in seconds, and is multiplied by a
/// thousand; one from there on is one in milliseconds; zero and less is no time.
pub proof fn law_expiry_is_told_by_its_size(at: i64)
    ensures
        at <= 0 ==> expiry_in_millis(at) is None,
        0 < at < 100_000_000_000 ==> (expiry_in_millis(at) matches Some(ms) && ms == at * 1000),
        at >= 100_000_000_000 ==> expiry_in_millis(at) == Some(at),
{
}

/// The first generation of a room is one; any other is the one that the database shows as the next. The
/// one after it is stored as the next, for that room.
pub proof fn law_generation_is_the_next_one(
    pre: Trace,
    post: Trace,
    room_id: Seq<char>,
    generation: i64,
)
    requires
        generation_issued(pre, post, room_id, Ok::<i64, DbError>(generation)),
    ensures
        post.len() == pre.len() + 2,
        post[pre.len() as int] matches Step::Asked {
            request: Request::First { sql, params, .. },
            reply: Reply::Row(row),
        } && {
            &&& sql == "SELECT next_generation FROM remote_registry_counter WHERE room_id = ?1"@
            &&& params == seq![Datum::Text(room_id)]
            &&& match row {
                Some(values) => values[0] == Datum::Integer(generation),
                None => generation == 1,
            }
        },
        post.last() matches Step::Asked {
            request: Request::Execute { params, .. },
            reply: Reply::Changed(_),
        } && params == seq![Datum::Text(room_id), Datum::Integer((generation + 1) as i64)],
{
    let (mid, got) = choose|mid: Trace, got: Result<Option<i64>, DbError>|
        {
            &&& #[trigger] counter_read(pre, mid, room_id, got)
            &&& generation_stored(mid, post, room_id, got, Ok::<i64, DbError>(generation))
        };
    assert(post[pre.len() as int] == mid[pre.len() as int]);
}

/// To raise a room's next generation asks for the one after the floor, and at least for one; only a
/// floor that no integer is above is refused.
pub proof fn law_raised_generation_is_above_the_floor(
    pre: Trace,
    post: Trace,
    room_id: Seq<char>,
    floor: i64,
    r: Result<(), DbError>,
)
    requires
        counter_raised(pre, post, room_id, floor, r),
    ensures
        floor == 9_223_372_036_854_775_807 <==> post == pre,
        floor < 9_223_372_036_854_775_807 ==> (post.last() matches Step::Asked {
            request: Request::Execute { params, .. },
            ..
        } && params == seq![
            Datum::Text(room_id),
            Datum::Integer(
                (if floor >= 0 {
                    floor + 1
                } else {
                    1
                }) as i64,
            ),
        ]),
{
}

/// A device is bound to the room and the generation that the caller gives, until the time given, where
/// that is in milliseconds; else nothing is asked of the database.
pub proof fn law_device_is_bound_as_given(
    pre: Trace,
    post: Trace,
    device_id: Seq<char>,
    room_id: Seq<char>,
    generation: i64,
    refresh_until_ms: i64,
    r: bool,
)
    requires
        device_registered(
            pre,
            post,
            device_id,
            room_id,
            generation,
            refresh_until_ms,
            Ok::<bool, DbError>(r),
        ),
    ensures
        refresh_until_ms >= 100_000_000_000,
        exists|k: int|
            pre.len() <= k < post.len() && (#[trigger] post[k] matches Step::Asked {
                request: Request::Execute { sql, params },
                reply: Reply::Changed(n),
            } && {
                &&& sql
                    == "UPDATE remote_devices SET room_id = ?2, generation = ?3, refresh_until = ?4 WHERE device_id = ?1"@
                &&& params == seq![
                    Datum::Text(device_id),
                    Datum::Text(room_id),
                    Datum::Integer(generation),
                    Datum::Integer(refresh_until_ms),
                ]
                &&& r == (n > 0)
            }),
{
    assert(post[pre.len() as int] == post.last());
}

/// The time until which a device may refresh is refused exactly where it is too small to be one in
/// milliseconds, and then nothing is asked of the database.
pub proof fn law_time_in_seconds_is_refused(
    pre: Trace,
    post: Trace,
    device_id: Seq<char>,
    room_id: Seq<char>,
    generation: i64,
    refresh_until_ms: i64,
    r: Result<bool, DbError>,
)
    requires
        device_registered(pre, post, device_id, room_id, generation, refresh_until_ms, r),
    ensures
        refresh_until_ms < 100_000_000_000 <==> post == pre,
        refresh_until_ms < 100_000_000_000 ==> r == Err::<bool, DbError>(
            DbError::OutOfRange { index: 0, value: refresh_until_ms },
        ),
        refresh_until_ms >= 100_000_000_000 ==> (r is Err <==> post.last() matches Step::Asked {
            reply: Reply::Failed(_),
            ..
        }),
{
}

/// Whether a step shows the room of a project: the room, or none.
pub open spec fn shows_room_of(step: Step, project_id: Seq<char>, room: Option<Seq<char>>) -> bool {
    &&& step matches Step::Asked {
        request: Request::First { sql, params, .. },
        reply: Reply::Row(found),
    }
    &&& sql == "SELECT room_id FROM project_remote_rooms WHERE project_id = ?1"@
    &&& params == seq![Datum::Text(project_id)]
    &&& match room {
        Some(id) => found matches Some(row) && row[0] == Datum::Text(id),
        None => found is None,
    }
}

/// Whether rooms were proposed from a place on, each followed by a look at what room the project has: it
/// had none after the first `missed`, and the one that it had next is the result; after `left` that
/// missed there is an error.
pub open spec fn tries_rooms(
    all: Trace,
    at: int,
    project_id: Seq<char>,
    left: int,
    missed: int,
    r: Result<String, String>,
) -> bool {
    &&& 0 <= missed <= left
    &&& forall|i: int|
        0 <= i < missed ==> shows_room_of(#[trigger] all[at + 2 * i + 1], project_id, None)
    &&& if missed < left {
        &&& r matches Ok(room)
        &&& all.len() == at + 2 * missed + 2
        &&& shows_room_of(all.last(), project_id, Some(room@))
    } else {
        r is Err && all.len() == at + 2 * left
    }
}

proof fn lemma_tries_rooms<F: Fn() -> String>(
    pre: Trace,
    post: Trace,
    project_id: Seq<char>,
    generate: F,
    left: nat,
    r: Result<String, String>,
) -> (missed: int)
    requires
        rooms_tried(pre, post, project_id, generate, left, r),
        forall|k: int| pre.len() <= k < post.len() ==> tx::accepted(#[trigger] post[k]),
    ensures
        trace::extends(pre, post),
        tries_rooms(post, pre.len() as int, project_id, left as int, missed, r),
    decreases left,
{
    if left == 0 {
        assert(post.take(pre.len() as int) =~= pre);
        0
    } else {
        let (stored, candidate, at_ms, done) = choose|
            stored: Trace,
            candidate: String,
            at_ms: i64,
            done: Result<(), DbError>,
        |
            {
                &&& call_ensures(generate, (), candidate)
                &&& #[trigger] candidate_stored(
                    pre,
                    stored,
                    project_id,
                    candidate@,
                    at_ms,
                    done,
                )
                &&& clock::is_time(at_ms)
                &&& candidate_answered(stored, post, project_id, generate, left, done, r)
            };
        let p = pre.len() as int;
        assert(stored[p] == stored.last());
        assert(stored.take(p) =~= pre);
        if done is Err {
            assert(post[p] == stored.last());
            assert(tx::accepted(post[p]));
            return 0;
        }
        let (read, got) = choose|read: Trace, got: Result<Option<String>, DbError>|
            {
                &&& #[trigger] room_read(stored, read, project_id, got)
                &&& candidate_judged(read, post, project_id, generate, left, got, r)
            };
        assert(read[p + 1] == read.last());
        assert(read.take(stored.len() as int) =~= stored);
        trace::lemma_extends_further(pre, stored, read);
        match got {
            Err(_) => {
                assert(post[p + 1] == read.last());
                assert(tx::accepted(post[p + 1]));
                0
            },
            Ok(Some(_)) => 0,
            Ok(None) => {
                let more = lemma_tries_rooms(
                    read,
                    post,
                    project_id,
                    generate,
                    (left - 1) as nat,
                    r,
                );
                trace::lemma_step_stays(read, post, p + 1);
                trace::lemma_extends_further(pre, read, post);
                assert forall|i: int| 0 <= i < more + 1 implies shows_room_of(
                    #[trigger] post[p + 2 * i + 1],
                    project_id,
                    None,
                ) by {
                    if i > 0 {
                        assert(read.len() + 2 * (i - 1) + 1 == p + 2 * i + 1);
                        assert(shows_room_of(
                            post[read.len() + 2 * (i - 1) + 1],
                            project_id,
                            None,
                        ));
                    }
                }
                more + 1
            },
        }
    }
}

/// A project that has a room keeps it. For one that has none up to three rooms are proposed, until it is
/// shown to have one, which is then its room; where it has none after three, there is an error. This is
/// where no statement is refused.
pub proof fn law_three_rooms_are_proposed<F: Fn() -> String>(
    pre: Trace,
    post: Trace,
    project_id: Seq<char>,
    generate: F,
    r: Result<String, String>,
) -> (missed: int)
    requires
        room_ensured(pre, post, project_id, generate, r),
        forall|k: int| pre.len() <= k < post.len() ==> tx::accepted(#[trigger] post[k]),
    ensures
        post.len() > pre.len(),
        shows_room_of(post[pre.len() as int], project_id, None) ==> tries_rooms(
            post,
            pre.len() + 1int,
            project_id,
            3,
            missed,
            r,
        ),
        !shows_room_of(post[pre.len() as int], project_id, None) ==> {
            &&& r matches Ok(room)
            &&& post.len() == pre.len() + 1
            &&& shows_room_of(post.last(), project_id, Some(room@))
        },
{
    let (mid, got) = choose|mid: Trace, got: Result<Option<String>, DbError>|
        {
            &&& #[trigger] room_read(pre, mid, project_id, got)
            &&& room_given(mid, post, project_id, generate, got, r)
        };
    let p = pre.len() as int;
    assert(mid[p] == mid.last());
    match got {
        Err(_) => {
            assert(tx::accepted(post[p]));
            0
        },
        Ok(Some(_)) => 0,
        Ok(None) => {
            let missed = lemma_tries_rooms(
                mid,
                post,
                project_id,
                generate,
                MAX_ATTEMPTS as nat,
                r,
            );
            trace::lemma_step_stays(mid, post, p);
            missed
        },
    }
}

} // verus!
