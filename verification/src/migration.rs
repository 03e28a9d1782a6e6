//! What each repair of an older database comes to, told by what the database shows of itself: which
//! statements are run, in which order, and when none is.
use crate::engine::{Datum, DbError, Reply, Request, Step, Trace};
use crate::rows;
use crate::rows::FromRow;
use crate::schema;
use crate::schema::{Column, ColumnName, ColumnRule, ForeignKey};
use crate::selection;
use crate::text;
use crate::tx;
use vstd::prelude::*;

verus! {

/// The request for one statement without values.
pub open spec fn one(statement: Seq<char>) -> Request {
    Request::Execute { sql: statement, params: Seq::empty() }
}

/// The request for a list of statements.
pub open spec fn all_of(statements: Seq<char>) -> Request {
    Request::Batch { sql: statements }
}

/// Whether requests are what a trace ends with from a place on, each of them accepted.
pub open spec fn ends_with(all: Trace, at: int, requests: Seq<Request>) -> bool {
    &&& all.len() == at + requests.len()
    &&& forall|i: int|
        0 <= i < requests.len() ==> {
            &&& all[at + i] matches Step::Asked { request, reply }
            &&& request == #[trigger] requests[i]
            &&& !(reply is Failed)
        }
}

/// Requests with foreign keys switched off before them and on again after them.
pub open spec fn without_keys(requests: Seq<Request>) -> Seq<Request> {
    seq![all_of("PRAGMA foreign_keys = OFF;"@)] + requests + seq![
        all_of("PRAGMA foreign_keys = ON;"@),
    ]
}

/// Whether a step shows the columns of a table: their names are the first values of the rows.
pub open spec fn shows_columns(step: Step, table: Seq<char>, names: Seq<Seq<char>>) -> bool {
    &&& step matches Step::Asked {
        request: Request::All { sql, params, .. },
        reply: Reply::Rows(found),
    }
    &&& sql == "PRAGMA table_info("@ + table + ")"@
    &&& params.len() == 0
    &&& found.len() == names.len()
    &&& forall|i: int|
        0 <= i < found.len() ==> (#[trigger] found[i] matches Ok(row) && row[0] == Datum::Text(
            names[i],
        ))
}

/// Whether a step shows a single value that a query without values asks for.
pub open spec fn shows_value(step: Step, query: Seq<char>, value: Datum) -> bool {
    &&& step matches Step::Asked {
        request: Request::First { sql, params, .. },
        reply: Reply::Row(Some(row)),
    }
    &&& sql == query
    &&& params.len() == 0
    &&& row[0] == value
}

/// Whether a step shows how many tables there are of a name.
pub open spec fn counts_tables(step: Step, table: Seq<char>, n: int) -> bool {
    &&& step matches Step::Asked {
        request: Request::First { sql, params, .. },
        reply: Reply::Row(Some(row)),
    }
    &&& sql == "SELECT count(*) FROM sqlite_master WHERE type = 'table' AND name = ?1"@
    &&& params == seq![Datum::Text(table)]
    &&& row[0] matches Datum::Integer(count)
    &&& count == n
}

pub proof fn lemma_ends_with(mid: Trace, post: Trace, script: Seq<Request>)
    requires
        tx::scripted(mid, post, script, Ok::<(), DbError>(())),
    ensures
        ends_with(post, mid.len() as int, script),
        post.take(mid.len() as int) == mid,
        forall|k: int| 0 <= k < mid.len() ==> post[k] == #[trigger] mid[k],
{
    assert forall|i: int| 0 <= i < script.len() implies {
        &&& post[mid.len() + i] matches Step::Asked { request, reply }
        &&& request == #[trigger] script[i]
        &&& !(reply is Failed)
    } by {
        assert(tx::asks(post[mid.len() + i], script[i]));
        if i < script.len() - 1 {
            assert(tx::accepted(post[mid.len() + i]));
        }
    }
    assert forall|k: int| 0 <= k < mid.len() implies post[k] == #[trigger] mid[k] by {
        assert(post.take(mid.len() as int)[k] == mid[k]);
    }
}

proof fn lemma_batch_ends(mid: Trace, post: Trace, sql: Seq<char>)
    requires
        tx::batched(mid, post, sql, Ok::<(), DbError>(())),
    ensures
        ends_with(post, mid.len() as int, seq![all_of(sql)]),
        forall|k: int| 0 <= k < mid.len() ==> post[k] == #[trigger] mid[k],
{
    let requests = seq![all_of(sql)];
    assert forall|i: int| 0 <= i < requests.len() implies {
        &&& post[mid.len() + i] matches Step::Asked { request, reply }
        &&& request == #[trigger] requests[i]
        &&& !(reply is Failed)
    } by {
        assert(post[mid.len() + i] == post.last());
    }
}

proof fn lemma_shows_columns(
    pre: Trace,
    mid: Trace,
    table: Seq<char>,
    columns: Vec<ColumnName>,
)
    requires
        schema::columns_read(pre, mid, table, Ok::<Vec<ColumnName>, DbError>(columns)),
    ensures
        mid.len() == pre.len() + 1,
        shows_columns(mid[pre.len() as int], table, schema::names_of(columns@)),
{
    let names = schema::names_of(columns@);
    assert(mid[pre.len() as int] == mid.last());
    let found = mid.last()->reply->Rows_0;
    assert forall|i: int| 0 <= i < found.len() implies (#[trigger] found[i] matches Ok(row)
        && row[0] == Datum::Text(names[i])) by {
        assert(found[i] matches Ok(row) && columns@[i].is_row(row));
    }
}

proof fn lemma_unenforced(off: bool, body: Seq<Request>)
    ensures
        schema::unenforced(off, body, off) == if off {
            without_keys(body)
        } else {
            body
        },
{
    if off {
        assert(schema::unenforced(off, body, off) =~= without_keys(body));
    } else {
        assert(schema::unenforced(off, body, off) =~= body);
    }
}

/// The columns that a table lacks are added, one statement for each and in order, and no other.
pub proof fn law_missing_columns_are_added(
    table: Seq<char>,
    columns: Seq<Column>,
    present: Seq<Seq<char>>,
) -> (places: Seq<int>)
    ensures
        selection::is_made_of(
            columns,
            |c: Column|
                if present.contains(c.name@) {
                    None
                } else {
                    Some(
                        one(
                            "ALTER TABLE "@ + table + " ADD COLUMN "@ + c.name@ + " "@
                                + c.declaration@,
                        ),
                    )
                },
            schema::additions(table, columns, present),
            places,
        ),
    decreases columns.len(),
{
    let made = |c: Column|
        if present.contains(c.name@) {
            None
        } else {
            Some(
                one("ALTER TABLE "@ + table + " ADD COLUMN "@ + c.name@ + " "@ + c.declaration@),
            )
        };
    if columns.len() == 0 {
        selection::lemma_made_of_none(columns, made);
        Seq::empty()
    } else {
        let rest = schema::additions(table, columns.drop_last(), present);
        let places = law_missing_columns_are_added(table, columns.drop_last(), present);
        selection::lemma_made_of_one_more(columns, made, rest, places);
        if present.contains(columns.last().name@) {
            places
        } else {
            places.push(columns.len() - 1)
        }
    }
}

/// The rows that are read where some may be unreadable are all that are not, in order.
pub proof fn law_unreadable_rows_are_passed_over(
    found: Seq<Result<Seq<Datum>, Seq<char>>>,
) -> (places: Seq<int>)
    ensures
        selection::is_made_of(
            found,
            |row: Result<Seq<Datum>, Seq<char>>|
                match row {
                    Ok(values) => Some(values),
                    Err(_) => None,
                },
            rows::readable_rows(found),
            places,
        ),
    decreases found.len(),
{
    let made = |row: Result<Seq<Datum>, Seq<char>>|
        match row {
            Ok(values) => Some(values),
            Err(_) => None,
        };
    if found.len() == 0 {
        selection::lemma_made_of_none(found, made);
        Seq::empty()
    } else {
        let fewer = found.drop_last();
        let places = law_unreadable_rows_are_passed_over(fewer);
        selection::lemma_made_of_one_more(found, made, rows::readable_rows(fewer), places);
        match found.last() {
            Ok(_) => places.push(found.len() - 1),
            Err(_) => places,
        }
    }
}

/// Repositories get an icon where they have none: what was their color becomes it, colors themselves
/// being no icons, or else a column for it is added.
pub proof fn law_repositories_get_an_icon(pre: Trace, post: Trace) -> (names: Seq<Seq<char>>)
    requires
        schema::icons_made(pre, post, Ok::<(), DbError>(())),
    ensures
        shows_columns(post[pre.len() as int], "repos"@, names),
        ends_with(
            post,
            pre.len() + 1int,
            if names.contains("icon"@) {
                Seq::empty()
            } else if names.contains("color"@) {
                seq![
                    one("ALTER TABLE repos RENAME COLUMN color TO icon"@),
                    one("UPDATE repos SET icon = NULL WHERE icon LIKE '#%'"@),
                ]
            } else {
                seq![one("ALTER TABLE repos ADD COLUMN icon TEXT"@)]
            },
        ),
{
    let done = Ok::<(), DbError>(());
    let (mid, got) = choose|mid: Trace, got: Result<Vec<ColumnName>, DbError>|
        {
            &&& #[trigger] schema::columns_read(pre, mid, "repos"@, got)
            &&& schema::icons_completed(mid, post, got, done)
        };
    let names = schema::names_of(got->Ok_0@);
    lemma_shows_columns(pre, mid, "repos"@, got->Ok_0);
    lemma_ends_with(mid, post, schema::icon_script(names));
    assert(post[pre.len() as int] == mid[pre.len() as int]);
    names
}

/// A step of the set-up that is bound to a version is done exactly where the database shows a lower one.
pub proof fn law_upgrade_follows_the_version(
    pre: Trace,
    post: Trace,
    version: i64,
    statements: Seq<char>,
) -> (shown: i64)
    requires
        schema::upgraded(pre, post, version, statements, Ok::<(), DbError>(())),
    ensures
        shows_value(post[pre.len() as int], "PRAGMA user_version"@, Datum::Integer(shown)),
        ends_with(
            post,
            pre.len() + 1int,
            if shown < version {
                seq![all_of(statements)]
            } else {
                Seq::empty()
            },
        ),
{
    let done = Ok::<(), DbError>(());
    let (mid, got) = choose|mid: Trace, got: Result<i64, DbError>|
        {
            &&& #[trigger] schema::version_read(pre, mid, got)
            &&& schema::upgraded_from(mid, post, version, statements, got, done)
        };
    assert(mid[pre.len() as int] == mid.last());
    if got->Ok_0 < version {
        lemma_batch_ends(mid, post, statements);
        assert(post[pre.len() as int] == mid[pre.len() as int]);
    }
    got->Ok_0
}

/// Whether a script was run from a place on, with foreign keys off where they are shown to be enforced.
pub open spec fn runs_without_keys(all: Trace, at: int, script: Seq<Request>) -> bool {
    exists|on: i64|
        {
            &&& #[trigger] shows_value(all[at], "PRAGMA foreign_keys"@, Datum::Integer(on))
            &&& ends_with(
                all,
                at + 1,
                if on == 0 {
                    script
                } else {
                    without_keys(script)
                },
            )
        }
}

proof fn lemma_runs_without_keys(mid: Trace, post: Trace, body: Seq<Request>)
    requires
        schema::ran_unenforced(mid, post, body, Ok::<(), DbError>(())),
    ensures
        runs_without_keys(post, mid.len() as int, body),
        forall|k: int| 0 <= k < mid.len() ==> post[k] == #[trigger] mid[k],
{
    let done = Ok::<(), DbError>(());
    let (read, on) = choose|read: Trace, on: Result<i64, DbError>|
        {
            &&& #[trigger] schema::enforcement_read(mid, read, on)
            &&& schema::run_unenforced_as_found(read, post, body, on, done)
        };
    let n = on->Ok_0;
    assert(read[mid.len() as int] == read.last());
    lemma_unenforced(n != 0, body);
    lemma_ends_with(read, post, schema::unenforced(n != 0, body, n != 0));
    assert(post[mid.len() as int] == read[mid.len() as int]);
    assert(shows_value(post[mid.len() as int], "PRAGMA foreign_keys"@, Datum::Integer(n)));
    assert forall|k: int| 0 <= k < mid.len() implies post[k] == #[trigger] mid[k] by {
        assert(read[k] == mid[k]);
    }
}

/// The agents' table is rebuilt for its levels of reasoning exactly where the database shows a
/// definition of it that has the narrow list of levels.
pub proof fn law_reasoning_is_widened_where_narrow(pre: Trace, post: Trace)
    requires
        schema::reasoning_widened(pre, post, Ok::<(), DbError>(())),
    ensures
        post[pre.len() as int] matches Step::Asked { reply: Reply::Row(found), .. } && match found {
            None => post.len() == pre.len() + 1,
            Some(row) => row[0] matches Datum::Text(definition) && if text::occurs(
                definition,
                "reasoning_default IN ('auto', 'low', 'medium', 'high')"@,
            ) {
                runs_without_keys(
                    post,
                    pre.len() + 1int,
                    seq![all_of(schema::SQL_WIDEN_REASONING@)],
                )
            } else {
                post.len() == pre.len() + 1
            },
        },
{
    let done = Ok::<(), DbError>(());
    let (mid, definition) = choose|mid: Trace, definition: Result<Option<String>, DbError>|
        {
            &&& #[trigger] schema::definition_found(pre, mid, definition)
            &&& schema::reasoning_widened_from(mid, post, definition, done)
        };
    assert(mid[pre.len() as int] == mid.last());
    if let Ok(Some(sql)) = definition {
        if text::occurs(sql@, schema::OLD_REASONING_CHECK@) {
            lemma_runs_without_keys(mid, post, seq![all_of(schema::SQL_WIDEN_REASONING@)]);
        }
    }
    assert(post[pre.len() as int] == mid[pre.len() as int]);
}

/// Agents that a broken upgrade left in a table of its own are moved back exactly where the database
/// shows that table; where it lacks what they may lead, that column is added to it before.
pub proof fn law_stranded_agents_are_moved_back(
    pre: Trace,
    post: Trace,
) -> (shown: (int, Seq<Seq<char>>))
    requires
        schema::agents_recovered(pre, post, Ok::<(), DbError>(())),
    ensures
        counts_tables(post[pre.len() as int], "agents_old_reasoning_check"@, shown.0),
        if shown.0 > 0 {
            &&& shows_columns(post[pre.len() + 1int], "agents_old_reasoning_check"@, shown.1)
            &&& ends_with(
                post,
                pre.len() + 2int,
                if shown.1.contains("cap_lead"@) {
                    seq![all_of(schema::SQL_RECOVER_AGENTS@)]
                } else {
                    seq![
                        one("ALTER TABLE agents_old_reasoning_check ADD COLUMN cap_lead TEXT"@),
                        all_of(schema::SQL_RECOVER_AGENTS@),
                    ]
                },
            )
        } else {
            post.len() == pre.len() + 1
        },
{
    let done = Ok::<(), DbError>(());
    let name = "agents_old_reasoning_check"@;
    let (mid, there) = choose|mid: Trace, there: Result<bool, DbError>|
        {
            &&& #[trigger] schema::existence_read(pre, mid, schema::STRANDED_AGENTS@, there)
            &&& schema::agents_recovered_if_there(mid, post, there, done)
        };
    let count = choose|got: Result<i64, DbError>|
        #[trigger] schema::tables_counted(pre, mid, name, got) && there == match got {
            Ok(n) => Ok::<bool, DbError>(n > 0),
            Err(e) => Err(e),
        };
    assert(mid[pre.len() as int] == mid.last());
    assert(counts_tables(mid[pre.len() as int], name, count->Ok_0 as int));
    if there->Ok_0 {
        let (looked, has) = choose|looked: Trace, has: Result<bool, DbError>|
            {
                &&& #[trigger] schema::column_looked_up(
                    mid,
                    looked,
                    schema::STRANDED_AGENTS@,
                    "cap_lead"@,
                    has,
                )
                &&& schema::agents_moved_back(looked, post, has, done)
            };
        let columns = choose|got: Result<Vec<ColumnName>, DbError>|
            #[trigger] schema::columns_read(mid, looked, name, got) && has == match got {
                Ok(present) => Ok::<bool, DbError>(
                    schema::names_of(present@).contains("cap_lead"@),
                ),
                Err(e) => Err(e),
            };
        lemma_shows_columns(mid, looked, name, columns->Ok_0);
        let script = schema::recovery(has->Ok_0);
        lemma_ends_with(looked, post, script);
        if has->Ok_0 {
            assert(script =~= seq![all_of(schema::SQL_RECOVER_AGENTS@)]);
        } else {
            assert(script =~= seq![
                one("ALTER TABLE agents_old_reasoning_check ADD COLUMN cap_lead TEXT"@),
                all_of(schema::SQL_RECOVER_AGENTS@),
            ]);
        }
        assert(post[pre.len() as int] == looked[pre.len() as int]);
        assert(looked[pre.len() as int] == mid[pre.len() as int]);
        assert(post[mid.len() as int] == looked[mid.len() as int]);
        (count->Ok_0 as int, schema::names_of(columns->Ok_0@))
    } else {
        (count->Ok_0 as int, Seq::empty())
    }
}

proof fn lemma_looked_up(
    pre: Trace,
    mid: Trace,
    table: Seq<char>,
    column: Seq<char>,
    there: bool,
) -> (names: Seq<Seq<char>>)
    requires
        schema::column_looked_up(pre, mid, table, column, Ok::<bool, DbError>(there)),
    ensures
        mid.len() == pre.len() + 1,
        shows_columns(mid[pre.len() as int], table, names),
        there == names.contains(column),
        forall|k: int| 0 <= k < pre.len() ==> mid[k] == #[trigger] pre[k],
{
    let r = Ok::<bool, DbError>(there);
    let got = choose|got: Result<Vec<ColumnName>, DbError>|
        #[trigger] schema::columns_read(pre, mid, table, got) && r == match got {
            Ok(present) => Ok::<bool, DbError>(schema::names_of(present@).contains(column)),
            Err(e) => Err(e),
        };
    lemma_shows_columns(pre, mid, table, got->Ok_0);
    schema::names_of(got->Ok_0@)
}

/// Repositories and sessions get a namespace where the database shows that they have none, with foreign
/// keys off, and on again where they were on; where both have one nothing is run.
pub proof fn law_namespaces_are_added_where_missing(
    pre: Trace,
    post: Trace,
) -> (shown: (Seq<Seq<char>>, Seq<Seq<char>>, i64))
    requires
        schema::namespaces_made(pre, post, Ok::<(), DbError>(())),
    ensures
        shows_columns(post[pre.len() as int], "repos"@, shown.0),
        shows_columns(post[pre.len() + 1int], "sessions"@, shown.1),
        shows_value(post[pre.len() + 2int], "PRAGMA foreign_keys"@, Datum::Integer(shown.2)),
        ({
            let in_repos = shown.0.contains("namespace_id"@);
            let in_sessions = shown.1.contains("namespace_id"@);
            let of_repos = one(
                "ALTER TABLE repos ADD COLUMN namespace_id TEXT NOT NULL DEFAULT 'local' REFERENCES namespaces(id) ON DELETE CASCADE"@,
            );
            let of_sessions = one(
                "ALTER TABLE sessions ADD COLUMN namespace_id TEXT DEFAULT 'local' REFERENCES namespaces(id) ON DELETE SET NULL"@,
            );
            let script = if in_repos {
                seq![of_sessions]
            } else if in_sessions {
                seq![of_repos]
            } else {
                seq![of_repos, of_sessions]
            };
            ends_with(
                post,
                pre.len() + 3int,
                if in_repos && in_sessions {
                    Seq::empty()
                } else if shown.2 == 0 {
                    seq![all_of("PRAGMA foreign_keys = OFF;"@)] + script
                } else {
                    without_keys(script)
                },
            )
        }),
{
    let done = Ok::<(), DbError>(());
    let (t1, r1) = choose|mid: Trace, in_repos: Result<bool, DbError>|
        {
            &&& #[trigger] schema::column_looked_up(
                pre,
                mid,
                "repos"@,
                "namespace_id"@,
                in_repos,
            )
            &&& schema::namespaces_made_from(mid, post, in_repos, done)
        };
    let in_repos = r1->Ok_0;
    let (t2, r2) = choose|mid: Trace, in_sessions: Result<bool, DbError>|
        {
            &&& #[trigger] schema::column_looked_up(
                t1,
                mid,
                "sessions"@,
                "namespace_id"@,
                in_sessions,
            )
            &&& schema::namespaces_added(mid, post, in_repos, in_sessions, done)
        };
    let in_sessions = r2->Ok_0;
    let (t3, on) = choose|read: Trace, on: Result<i64, DbError>|
        {
            &&& #[trigger] schema::enforcement_read(t2, read, on)
            &&& schema::namespaces_added_as_found(read, post, in_repos, in_sessions, on, done)
        };
    let names = lemma_looked_up(pre, t1, "repos"@, "namespace_id"@, in_repos);
    let more = lemma_looked_up(t1, t2, "sessions"@, "namespace_id"@, in_sessions);
    let n = on->Ok_0;
    let script = schema::namespace_script(in_repos, in_sessions, n);
    lemma_ends_with(t3, post, script);
    assert(t3[t2.len() as int] == t3.last());
    assert(t2[pre.len() as int] == t1[pre.len() as int]);
    assert(t3[pre.len() as int] == t2[pre.len() as int]);
    assert(t3[t1.len() as int] == t2[t1.len() as int]);
    assert(post[pre.len() as int] == t3[pre.len() as int]);
    assert(post[t1.len() as int] == t3[t1.len() as int]);
    assert(post[t2.len() as int] == t3[t2.len() as int]);
    let of_repos = one(
        "ALTER TABLE repos ADD COLUMN namespace_id TEXT NOT NULL DEFAULT 'local' REFERENCES namespaces(id) ON DELETE CASCADE"@,
    );
    let of_sessions = one(
        "ALTER TABLE sessions ADD COLUMN namespace_id TEXT DEFAULT 'local' REFERENCES namespaces(id) ON DELETE SET NULL"@,
    );
    let body = if in_repos {
        seq![of_sessions]
    } else if in_sessions {
        seq![of_repos]
    } else {
        seq![of_repos, of_sessions]
    };
    if in_repos && in_sessions {
        assert(script =~= Seq::<Request>::empty());
    } else if n == 0 {
        assert(script =~= seq![all_of("PRAGMA foreign_keys = OFF;"@)] + body);
    } else {
        assert(script =~= without_keys(body));
    }
    (names, more, n)
}

/// Sessions get a group exactly where the database shows that they have none, with foreign keys off.
pub proof fn law_groups_are_added_where_missing(pre: Trace, post: Trace) -> (names: Seq<Seq<char>>)
    requires
        schema::groups_made(pre, post, Ok::<(), DbError>(())),
    ensures
        shows_columns(post[pre.len() as int], "sessions"@, names),
        if names.contains("group_id"@) {
            post.len() == pre.len() + 1
        } else {
            runs_without_keys(
                post,
                pre.len() + 1int,
                seq![
                    one(
                        "ALTER TABLE sessions ADD COLUMN group_id TEXT REFERENCES session_groups(id) ON DELETE SET NULL"@,
                    ),
                ],
            )
        },
{
    let done = Ok::<(), DbError>(());
    let (mid, there) = choose|mid: Trace, there: Result<bool, DbError>|
        {
            &&& #[trigger] schema::column_looked_up(
                pre,
                mid,
                "sessions"@,
                "group_id"@,
                there,
            )
            &&& schema::groups_made_from(mid, post, there, done)
        };
    let names = lemma_looked_up(pre, mid, "sessions"@, "group_id"@, there->Ok_0);
    if !there->Ok_0 {
        lemma_runs_without_keys(mid, post, seq![tx::plain(schema::SQL_SESSION_GROUP@)]);
    }
    assert(post[pre.len() as int] == mid[pre.len() as int]);
    names
}

/// Sessions get a workspace scope exactly where the database shows that they have none: in one
/// transaction, in which those of the default project keep its root.
pub proof fn law_scopes_are_added_where_missing(pre: Trace, post: Trace) -> (names: Seq<Seq<char>>)
    requires
        schema::scopes_made(pre, post, Ok::<(), DbError>(())),
    ensures
        shows_columns(post[pre.len() as int], "sessions"@, names),
        if names.contains("workspace_scope"@) {
            post.len() == pre.len() + 1
        } else {
            &&& post[pre.len() + 1int] == tx::opening()
            &&& ends_with(
                post.drop_last(),
                pre.len() + 2int,
                seq![
                    one("ALTER TABLE sessions ADD COLUMN workspace_scope TEXT"@),
                    one(
                        "UPDATE sessions SET workspace_scope = 'root' WHERE repo_id = 'local-default'"@,
                    ),
                ],
            )
            &&& post.last() == tx::commitment()
        },
{
    let done = Ok::<(), DbError>(());
    let (mid, there) = choose|mid: Trace, there: Result<bool, DbError>|
        {
            &&& #[trigger] schema::column_looked_up(
                pre,
                mid,
                "sessions"@,
                "workspace_scope"@,
                there,
            )
            &&& schema::scopes_made_from(mid, post, there, done)
        };
    let names = lemma_looked_up(pre, mid, "sessions"@, "workspace_scope"@, there->Ok_0);
    if !there->Ok_0 {
        let body = |a: Trace, b: Trace, x: Result<(), DbError>|
            tx::scripted(a, b, schema::scope_script(), x);
        tx::law_transaction_outcome(mid, post, body, done);
        let opened = mid.push(tx::opening());
        let inner = choose|inner: Trace|
            #[trigger] body(opened, inner, done) && post == inner.push(tx::commitment());
        assert(tx::scripted(opened, inner, schema::scope_script(), done));
        lemma_ends_with(opened, inner, schema::scope_script());
        assert(post.drop_last() =~= inner);
        assert(inner[pre.len() as int] == opened[pre.len() as int]);
        assert(inner[mid.len() as int] == opened[mid.len() as int]);
    }
    assert(post[pre.len() as int] == mid[pre.len() as int]);
    names
}

/// Groups get a repository exactly where the database shows that they have none: those of the local
/// namespace its default one, those of a namespace with one repository that one; sessions leave a group
/// that is left with none, and such a group is deleted.
pub proof fn law_groups_get_a_repository(pre: Trace, post: Trace) -> (names: Seq<Seq<char>>)
    requires
        schema::group_repositories_made(pre, post, Ok::<(), DbError>(())),
    ensures
        shows_columns(post[pre.len() as int], "session_groups"@, names),
        ends_with(
            post,
            pre.len() + 1int,
            if names.contains("repo_id"@) {
                Seq::empty()
            } else {
                seq![
                    one(
                        "ALTER TABLE session_groups ADD COLUMN repo_id TEXT REFERENCES repos(id)"@,
                    ),
                    one(
                        "UPDATE session_groups SET repo_id = 'local-default' WHERE namespace_id = 'local' AND repo_id IS NULL"@,
                    ),
                    one(schema::SQL_SINGLE_REPO_GROUPS@),
                    one(schema::SQL_UNGROUP_SESSIONS@),
                    one("DELETE FROM session_groups WHERE repo_id IS NULL"@),
                ]
            },
        ),
{
    let done = Ok::<(), DbError>(());
    let (mid, there) = choose|mid: Trace, there: Result<bool, DbError>|
        {
            &&& #[trigger] schema::column_looked_up(
                pre,
                mid,
                "session_groups"@,
                "repo_id"@,
                there,
            )
            &&& schema::groups_bound_from(mid, post, there, done)
        };
    let names = lemma_looked_up(pre, mid, "session_groups"@, "repo_id"@, there->Ok_0);
    if !there->Ok_0 {
        lemma_ends_with(mid, post, schema::group_repository_script());
    }
    assert(post[pre.len() as int] == mid[pre.len() as int]);
    names
}

/// The decisions' table is rebuilt exactly where the database shows that a decision has to have a run.
pub proof fn law_decisions_are_loosened_where_strict(
    pre: Trace,
    post: Trace,
) -> (rows: Seq<Seq<Datum>>)
    requires
        schema::decisions_loosened(pre, post, Ok::<(), DbError>(())),
    ensures
        post[pre.len() as int] matches Step::Asked {
            request: Request::All { sql, .. },
            reply: Reply::Rows(found),
        } && {
            &&& sql == "PRAGMA table_info(decision_ledger)"@
            &&& found.len() == rows.len()
            &&& forall|i: int|
                0 <= i < found.len() ==> #[trigger] found[i] == Ok::<_, Seq<char>>(rows[i])
        },
        ends_with(
            post,
            pre.len() + 1int,
            if exists|i: int|
                0 <= i < rows.len() && (#[trigger] rows[i])[0] == Datum::Text("run_id"@)
                    && rows[i][1] == Datum::Integer(1) {
                seq![all_of(schema::SQL_LOOSEN_DECISIONS@)]
            } else {
                Seq::empty()
            },
        ),
{
    let done = Ok::<(), DbError>(());
    let (mid, got) = choose|mid: Trace, got: Result<Vec<ColumnRule>, DbError>|
        {
            &&& #[trigger] schema::rules_read(pre, mid, got)
            &&& schema::loosened_from(mid, post, got, done)
        };
    let rules = got->Ok_0@;
    let found = mid.last()->reply->Rows_0;
    let rows = found.map_values(|row: Result<Seq<Datum>, Seq<char>>| row->Ok_0);
    assert(mid[pre.len() as int] == mid.last());
    assert forall|i: int| 0 <= i < found.len() implies {
        &&& #[trigger] found[i] == Ok::<_, Seq<char>>(rows[i])
        &&& rows[i][0] == Datum::Text(rules[i].name@)
        &&& rows[i][1] == Datum::Integer(rules[i].not_null)
    } by {
        assert(found[i] matches Ok(row) && rules[i].is_row(row));
    }
    if schema::demanded(rules) {
        let i = choose|i: int| 0 <= i < rules.len() && schema::demands_run(#[trigger] rules[i]);
        assert(found[i] == Ok::<_, Seq<char>>(rows[i]));
        assert(rows[i][0] == Datum::Text("run_id"@));
        lemma_batch_ends(mid, post, schema::SQL_LOOSEN_DECISIONS@);
    } else {
        assert forall|i: int| 0 <= i < rows.len() implies !((#[trigger] rows[i])[0]
            == Datum::Text("run_id"@) && rows[i][1] == Datum::Integer(1)) by {
            assert(found[i] == Ok::<_, Seq<char>>(rows[i]));
            assert(!schema::demands_run(rules[i]));
        }
    }
    assert(post[pre.len() as int] == mid[pre.len() as int]);
    rows
}

/// Whether a key is the first of some that starts from the lead of a configuration.
pub open spec fn is_lead_key(keys: Seq<ForeignKey>, at: int) -> bool {
    &&& 0 <= at < keys.len()
    &&& keys[at].from@ == "lead_agent_id"@
    &&& forall|k: int| 0 <= k < at ==> (#[trigger] keys[k]).from@ != "lead_agent_id"@
}

/// What the lead of a configuration refers to is what the first key that starts from it says; where no
/// key does, it refers to nothing.
pub proof fn law_lead_refers_to_its_first_key(keys: Seq<ForeignKey>) -> (at: int)
    ensures
        match schema::lead_target(keys) {
            Some((table, column)) => is_lead_key(keys, at) && keys[at].table@ == table
                && keys[at].to@ == column,
            None => forall|k: int|
                0 <= k < keys.len() ==> (#[trigger] keys[k]).from@ != "lead_agent_id"@,
        },
    decreases keys.len(),
{
    if keys.len() == 0 || keys[0].from@ == "lead_agent_id"@ {
        0
    } else {
        let rest = keys.drop_first();
        let at = law_lead_refers_to_its_first_key(rest);
        assert(forall|k: int| 0 < k < keys.len() ==> #[trigger] keys[k] == rest[k - 1]);
        at + 1
    }
}

/// A configuration is made anew exactly where its lead refers to the table that a broken upgrade leaves
/// behind; foreign keys are off meanwhile, and on again where they were on.
pub proof fn law_stranded_configuration_is_made_anew(
    pre: Trace,
    post: Trace,
    target: Option<(String, String)>,
)
    requires
        schema::reset_if_stranded(
            pre,
            post,
            Ok::<Option<(String, String)>, DbError>(target),
            Ok::<(), DbError>(()),
        ),
    ensures
        if target matches Some((table, column)) && table@ == "agents_old_reasoning_check"@
            && column@ == "id"@ {
            runs_without_keys(
                post,
                pre.len() as int,
                seq![all_of(schema::SQL_RESET_SESSION_AGENT_CONFIGS@)],
            )
        } else {
            post == pre
        },
{
    let done = Ok::<(), DbError>(());
    if schema::stranded_target(target) {
        let (mid, on) = choose|mid: Trace, on: Result<i64, DbError>|
            {
                &&& #[trigger] schema::enforcement_read(pre, mid, on)
                &&& schema::configs_reset_as_found(mid, post, on, done)
            };
        let n = on->Ok_0;
        let sql = schema::SQL_RESET_SESSION_AGENT_CONFIGS@;
        let body = seq![all_of(sql)];
        let p = pre.len() as int;
        assert(mid[p] == mid.last());
        if n == 0 {
            lemma_batch_ends(mid, post, sql);
        } else {
            let (off, switched) = choose|off: Trace, switched: Result<(), DbError>|
                {
                    &&& #[trigger] tx::batched(mid, off, schema::SQL_FOREIGN_KEYS_OFF@, switched)
                    &&& schema::configs_reset_when_off(off, post, switched, done)
                };
            let (ran, was) = choose|ran: Trace, was: Result<(), DbError>|
                {
                    &&& #[trigger] tx::batched(off, ran, sql, was)
                    &&& schema::switched_on_after(ran, post, true, was, done)
                };
            let last = choose|last: Result<(), DbError>|
                {
                    &&& #[trigger] tx::batched(ran, post, schema::SQL_FOREIGN_KEYS_ON@, last)
                    &&& done == match last {
                        Ok(()) => was,
                        Err(e) => Err(e),
                    }
                };
            lemma_batch_ends(mid, off, schema::SQL_FOREIGN_KEYS_OFF@);
            lemma_batch_ends(off, ran, sql);
            lemma_batch_ends(ran, post, schema::SQL_FOREIGN_KEYS_ON@);
            let all = without_keys(body);
            assert(off[p + 1] == off.last());
            assert(ran[p + 2] == ran.last());
            assert(post[p + 3] == post.last());
            assert(ran[p + 1] == off[p + 1]);
            assert(post[p + 1] == ran[p + 1]);
            assert(post[p + 2] == ran[p + 2]);
            assert(off[p] == mid[p]);
            assert(ran[p] == off[p]);
            assert forall|i: int| 0 <= i < all.len() implies {
                &&& post[p + 1 + i] matches Step::Asked { request, reply }
                &&& request == #[trigger] all[i]
                &&& !(reply is Failed)
            } by {
                assert(i == 0 || i == 1 || i == 2);
            }
        }
        assert(post[p] == mid[p]);
        assert(shows_value(post[p], "PRAGMA foreign_keys"@, Datum::Integer(n)));
    }
}

/// The agents' table is rebuilt for access by a harness exactly where the definition that the database
/// shows does not name that access; the result says whether it was.
pub proof fn law_harness_access_is_added_where_missing(pre: Trace, post: Trace, rebuilt: bool)
    requires
        schema::harness_allowed(pre, post, Ok::<bool, DbError>(rebuilt)),
    ensures
        post[pre.len() as int] matches Step::Asked { reply: Reply::Row(Some(row)), .. } && {
            &&& row[0] matches Datum::Text(definition)
            &&& rebuilt == !text::occurs(definition, "'harness'"@)
        },
        !rebuilt ==> post.len() == pre.len() + 1,
        rebuilt ==> post.len() > pre.len() + 3,
{
    let r = Ok::<bool, DbError>(rebuilt);
    let (mid, definition) = choose|mid: Trace, definition: Result<String, DbError>|
        {
            &&& #[trigger] schema::definition_read(pre, mid, definition)
            &&& schema::harness_allowed_from(mid, post, definition, r)
        };
    let p = pre.len() as int;
    assert(mid[p] == mid.last());
    if !text::occurs(definition->Ok_0@, "'harness'"@) {
        let (looked, got) = choose|looked: Trace, got: Result<Vec<ColumnName>, DbError>|
            {
                &&& #[trigger] schema::columns_read(mid, looked, "agents"@, got)
                &&& schema::rebuilt_from_columns(looked, post, got, r)
            };
        let present = schema::names_of(got->Ok_0@);
        let (read, on) = choose|read: Trace, on: Result<i64, DbError>|
            {
                &&& #[trigger] schema::enforcement_read(looked, read, on)
                &&& schema::rebuilt_as_found(read, post, present, on, r)
            };
        let n = on->Ok_0;
        let done = choose|done: Result<(), DbError>|
            {
                &&& #[trigger] schema::rebuild_run(read, post, n, present, done)
                &&& r == match done {
                    Ok(()) => Ok::<bool, DbError>(true),
                    Err(e) => Err(e),
                }
            };
        lemma_ends_with(
            read,
            post,
            schema::unenforced(
                n == 1,
                seq![Request::Batch { sql: schema::rebuild_sql(present) }],
                n == 1,
            ),
        );
        assert(looked[p] == mid[p]);
        assert(read[p] == looked[p]);
        assert(post[p] == read[p]);
    }
}

/// Whether a statement was run between two of the traces that a set-up passed through.
pub open spec fn ran(marks: Seq<Trace>, at: int, statement: Seq<char>, values: Seq<Datum>) -> bool {
    &&& marks[at + 1].len() == marks[at].len() + 1
    &&& marks[at + 1].last() matches Step::Asked {
        request: Request::Execute { sql, params },
        reply: Reply::Changed(_),
    }
    &&& sql == statement
    &&& params == values
}

/// Whether the repairs of old tables were made between the traces that a set-up passed through, at
/// places that go up: first those of the agents, then those of the repositories and sessions.
pub open spec fn makes_repairs(marks: Seq<Trace>, at: Seq<int>) -> bool {
    let done = Ok::<(), DbError>(());
    &&& at.len() == 10
    &&& forall|i: int| 0 <= i < at.len() ==> 0 <= #[trigger] at[i] < marks.len() - 1
    &&& forall|i: int, j: int| 0 <= i < j < at.len() ==> at[i] < at[j]
    &&& schema::reasoning_widened(marks[at[0]], marks[at[0] + 1], done)
    &&& schema::agents_recovered(marks[at[1]], marks[at[1] + 1], done)
    &&& schema::harness_ensured(marks[at[2]], marks[at[2] + 1], done)
    &&& schema::bad_target_reset(marks[at[3]], marks[at[3] + 1], done)
    &&& schema::icons_made(marks[at[4]], marks[at[4] + 1], done)
    &&& schema::namespaces_made(marks[at[5]], marks[at[5] + 1], done)
    &&& schema::groups_made(marks[at[6]], marks[at[6] + 1], done)
    &&& schema::scopes_made(marks[at[7]], marks[at[7] + 1], done)
    &&& schema::group_repositories_made(marks[at[8]], marks[at[8] + 1], done)
    &&& schema::decisions_loosened(marks[at[9]], marks[at[9] + 1], done)
}

/// Whether the statements that are run at any set-up were run between the traces that it passed
/// through, at places that go up.
pub open spec fn runs_statements(marks: Seq<Trace>, at: Seq<int>) -> bool {
    &&& at.len() == 5
    &&& forall|i: int| 0 <= i < at.len() ==> 0 <= #[trigger] at[i] < marks.len() - 1
    &&& forall|i: int, j: int| 0 <= i < j < at.len() ==> at[i] < at[j]
    &&& ran(
        marks,
        at[0],
        "CREATE UNIQUE INDEX IF NOT EXISTS idx_messages_dedup \
         ON messages(session_id, dedup_key) WHERE dedup_key IS NOT NULL"@,
        Seq::empty(),
    )
    &&& ran(
        marks,
        at[1],
        "DROP INDEX IF EXISTS idx_remote_inbox_pending"@,
        Seq::empty(),
    )
    &&& ran(
        marks,
        at[2],
        "CREATE INDEX IF NOT EXISTS idx_remote_inbox_pending \
         ON remote_inbox(session_id, id) \
         WHERE delivered_at IS NULL AND failed_at IS NULL"@,
        Seq::empty(),
    )
    &&& ran(
        marks,
        at[3],
        "UPDATE remote_devices \
            SET access_expires_at = access_expires_at * 1000 \
          WHERE access_expires_at > 0 AND access_expires_at < ?1"@,
        seq![Datum::Integer(100_000_000_000)],
    )
    &&& ran(
        marks,
        at[4],
        "UPDATE remote_devices \
            SET room_id = (SELECT value FROM app_settings WHERE key = 'remote_room_id') \
          WHERE room_id IS NULL \
            AND EXISTS (SELECT 1 FROM app_settings WHERE key = 'remote_room_id')"@,
        Seq::empty(),
    )
}

#[verifier::rlimit(40)]
proof fn lemma_plan_parts()
    ensures
        schema::schema_plan().len() == 42,
        forall|k: int|
            0 <= k < 4 ==> schema::schema_plan()[6 + k] == #[trigger] schema::agent_plan()[k],
        forall|k: int|
            0 <= k < 6 ==> schema::schema_plan()[10 + k] == #[trigger] schema::repository_plan()[k],
        forall|k: int|
            0 <= k < 13 ==> schema::schema_plan()[16 + k] == #[trigger] schema::session_plan()[k],
        forall|k: int|
            0 <= k < 7 ==> schema::schema_plan()[29 + k] == #[trigger] schema::inbox_plan()[k],
        forall|k: int|
            0 <= k < 6 ==> schema::schema_plan()[36 + k] == #[trigger] schema::device_plan()[k],
{
    let a = schema::foundation_plan();
    let b = a + schema::agent_plan();
    let c = b + schema::repository_plan();
    let d = c + schema::session_plan();
    let e = d + schema::inbox_plan();
    let plan = e + schema::device_plan();
    assert(plan == schema::schema_plan());
    assert(a.len() == 6 && b.len() == 10 && c.len() == 16 && d.len() == 29 && e.len() == 36);
    assert(forall|k: int| 0 <= k < e.len() ==> plan[k] == #[trigger] e[k]);
    assert(forall|k: int| 0 <= k < d.len() ==> e[k] == #[trigger] d[k]);
    assert(forall|k: int| 0 <= k < c.len() ==> d[k] == #[trigger] c[k]);
    assert(forall|k: int| 0 <= k < b.len() ==> c[k] == #[trigger] b[k]);
    assert forall|k: int| 0 <= k < 4 implies plan[6 + k] == #[trigger] schema::agent_plan()[k] by {
        assert(b[6 + k] == schema::agent_plan()[k]);
    }
    assert forall|k: int| 0 <= k < 6 implies plan[10 + k]
        == #[trigger] schema::repository_plan()[k] by {
        assert(c[10 + k] == schema::repository_plan()[k]);
    }
    assert forall|k: int| 0 <= k < 13 implies plan[16 + k]
        == #[trigger] schema::session_plan()[k] by {
        assert(d[16 + k] == schema::session_plan()[k]);
    }
    assert forall|k: int| 0 <= k < 7 implies plan[29 + k] == #[trigger] schema::inbox_plan()[k] by {
        assert(e[29 + k] == schema::inbox_plan()[k]);
    }
}

proof fn lemma_stage_done(
    marks: Seq<Trace>,
    pre: Trace,
    post: Trace,
    plan: Seq<schema::Move>,
    i: int,
)
    requires
        schema::passed(marks, pre, post, plan, Ok::<(), DbError>(())),
        0 <= i < plan.len(),
    ensures
        marks.len() == plan.len() + 1,
        schema::staged(marks[i], marks[i + 1], plan[i], Ok::<(), DbError>(())),
{
    if i < plan.len() - 1 {
        assert(schema::staged(marks[i], marks[i + 1], plan[i], Ok::<(), DbError>(())));
    }
}

#[verifier::rlimit(40)]
proof fn lemma_agent_repairs(marks: Seq<Trace>, pre: Trace, post: Trace)
    requires
        schema::passed(marks, pre, post, schema::schema_plan(), Ok::<(), DbError>(())),
    ensures
        marks.len() == 43,
        schema::reasoning_widened(marks[6], marks[7], Ok::<(), DbError>(())),
        schema::agents_recovered(marks[7], marks[8], Ok::<(), DbError>(())),
        schema::harness_ensured(marks[8], marks[9], Ok::<(), DbError>(())),
        schema::bad_target_reset(marks[9], marks[10], Ok::<(), DbError>(())),
{
    let plan = schema::schema_plan();
    lemma_plan_parts();
    assert(plan[6int + 0] == schema::agent_plan()[0]);
    lemma_stage_done(marks, pre, post, plan, 6);
    assert(plan[6int + 1] == schema::agent_plan()[1]);
    lemma_stage_done(marks, pre, post, plan, 7);
    assert(plan[6int + 2] == schema::agent_plan()[2]);
    lemma_stage_done(marks, pre, post, plan, 8);
    assert(plan[6int + 3] == schema::agent_plan()[3]);
    lemma_stage_done(marks, pre, post, plan, 9);
}

#[verifier::rlimit(40)]
proof fn lemma_repository_repairs(marks: Seq<Trace>, pre: Trace, post: Trace)
    requires
        schema::passed(marks, pre, post, schema::schema_plan(), Ok::<(), DbError>(())),
    ensures
        marks.len() == 43,
        schema::icons_made(marks[13], marks[14], Ok::<(), DbError>(())),
        schema::namespaces_made(marks[14], marks[15], Ok::<(), DbError>(())),
        schema::groups_made(marks[15], marks[16], Ok::<(), DbError>(())),
{
    let plan = schema::schema_plan();
    lemma_plan_parts();
    assert(plan[10int + 3] == schema::repository_plan()[3]);
    lemma_stage_done(marks, pre, post, plan, 13);
    assert(plan[10int + 4] == schema::repository_plan()[4]);
    lemma_stage_done(marks, pre, post, plan, 14);
    assert(plan[10int + 5] == schema::repository_plan()[5]);
    lemma_stage_done(marks, pre, post, plan, 15);
}

#[verifier::rlimit(40)]
proof fn lemma_session_repairs(marks: Seq<Trace>, pre: Trace, post: Trace)
    requires
        schema::passed(marks, pre, post, schema::schema_plan(), Ok::<(), DbError>(())),
    ensures
        marks.len() == 43,
        schema::scopes_made(marks[26], marks[27], Ok::<(), DbError>(())),
        schema::group_repositories_made(marks[27], marks[28], Ok::<(), DbError>(())),
        schema::decisions_loosened(marks[28], marks[29], Ok::<(), DbError>(())),
{
    let plan = schema::schema_plan();
    lemma_plan_parts();
    assert(plan[16int + 10] == schema::session_plan()[10]);
    lemma_stage_done(marks, pre, post, plan, 26);
    assert(plan[16int + 11] == schema::session_plan()[11]);
    lemma_stage_done(marks, pre, post, plan, 27);
    assert(plan[16int + 12] == schema::session_plan()[12]);
    lemma_stage_done(marks, pre, post, plan, 28);
}

#[verifier::rlimit(40)]
proof fn lemma_repairs_made(marks: Seq<Trace>, pre: Trace, post: Trace) -> (at: Seq<int>)
    requires
        schema::passed(marks, pre, post, schema::schema_plan(), Ok::<(), DbError>(())),
    ensures
        makes_repairs(marks, at),
{
    let at = seq![6int, 7, 8, 9, 13, 14, 15, 26, 27, 28];
    lemma_agent_repairs(marks, pre, post);
    lemma_repository_repairs(marks, pre, post);
    lemma_session_repairs(marks, pre, post);
    at
}

proof fn lemma_inbox_moves()
    ensures
        schema::schema_plan().len() == 42,
        schema::schema_plan()[30] == schema::Move::Plain(schema::SQL_MESSAGE_DEDUP),
        schema::schema_plan()[34] == schema::Move::Plain(schema::SQL_DROP_INBOX_PENDING),
        schema::schema_plan()[35] == schema::Move::Plain(schema::SQL_INBOX_PENDING),
{
    lemma_plan_parts();
    assert(schema::schema_plan()[29int + 1] == schema::inbox_plan()[1]);
    assert(schema::schema_plan()[29int + 5] == schema::inbox_plan()[5]);
    assert(schema::schema_plan()[29int + 6] == schema::inbox_plan()[6]);
}

proof fn lemma_device_moves()
    ensures
        schema::schema_plan()[38] == (schema::Move::Bounded {
            sql: schema::SQL_EXPIRY_IN_MILLIS,
            bound: 100_000_000_000,
        }),
        schema::schema_plan()[39] == schema::Move::Plain(schema::SQL_DEVICE_ROOMS),
{
    lemma_plan_parts();
    assert(schema::schema_plan()[36int + 2] == schema::device_plan()[2]);
    assert(schema::schema_plan()[36int + 3] == schema::device_plan()[3]);
}

proof fn lemma_statement_ran(
    marks: Seq<Trace>,
    pre: Trace,
    post: Trace,
    plan: Seq<schema::Move>,
    i: int,
    values: Seq<Datum>,
)
    requires
        schema::passed(marks, pre, post, plan, Ok::<(), DbError>(())),
        0 <= i < plan.len(),
        match plan[i] {
            schema::Move::Plain(_) => values == Seq::<Datum>::empty(),
            schema::Move::Bounded { bound, .. } => values == seq![Datum::Integer(bound)],
            _ => false,
        },
    ensures
        marks.len() == plan.len() + 1,
        match plan[i] {
            schema::Move::Plain(sql) => ran(marks, i, sql@, values),
            schema::Move::Bounded { sql, .. } => ran(marks, i, sql@, values),
            _ => true,
        },
{
    lemma_stage_done(marks, pre, post, plan, i);
}

#[verifier::rlimit(40)]
proof fn lemma_statements_run(marks: Seq<Trace>, pre: Trace, post: Trace) -> (at: Seq<int>)
    requires
        schema::passed(marks, pre, post, schema::schema_plan(), Ok::<(), DbError>(())),
    ensures
        runs_statements(marks, at),
{
    let plan = schema::schema_plan();
    lemma_inbox_moves();
    lemma_device_moves();
    let at = seq![30int, 34, 35, 38, 39];
    let none = Seq::<Datum>::empty();
    lemma_statement_ran(marks, pre, post, plan, 30, none);
    lemma_statement_ran(marks, pre, post, plan, 34, none);
    lemma_statement_ran(marks, pre, post, plan, 35, none);
    lemma_statement_ran(
        marks,
        pre,
        post,
        plan,
        38,
        seq![Datum::Integer(100_000_000_000)],
    );
    lemma_statement_ran(marks, pre, post, plan, 39, none);
    at
}

/// A set-up that succeeds makes every repair of old tables, and runs every statement that is for any
/// set-up, each kind in its order.
pub proof fn law_setup_makes_every_repair(
    pre: Trace,
    post: Trace,
) -> (told: (Seq<Trace>, Seq<int>, Seq<int>))
    requires
        schema::performed(pre, post, schema::schema_plan(), Ok::<(), DbError>(())),
    ensures
        told.0.first() == pre,
        told.0.last() == post,
        makes_repairs(told.0, told.1),
        runs_statements(told.0, told.2),
{
    let done = Ok::<(), DbError>(());
    let marks = choose|marks: Seq<Trace>|
        #[trigger] schema::passed(marks, pre, post, schema::schema_plan(), done);
    let repairs = lemma_repairs_made(marks, pre, post);
    let statements = lemma_statements_run(marks, pre, post);
    (marks, repairs, statements)
}

} // verus!
