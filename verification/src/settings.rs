//! The settings of the application.
use vstd::prelude::*;

use crate::engine::{Datum, Db, DbError, Trace};
use crate::events;
use crate::rows::{self, find, p_text, params1, params2, run};
use crate::text::same;

verus! {

pub const SQL_GET_APP_SETTING: &'static str = "SELECT value FROM app_settings WHERE key = ?1";

/// The setting `key` was read.
pub open spec fn setting_read(
    pre: Trace,
    post: Trace,
    key: Seq<char>,
    r: Result<Option<String>, DbError>,
) -> bool {
    rows::found(pre, post, SQL_GET_APP_SETTING@, seq![Datum::Text(key)], r)
}

/// The value of a setting, if it has one.
pub fn get_app_setting(db: &mut Db, key: &str) -> (r: Result<Option<String>, DbError>)
    ensures
        setting_read(old(db)@, final(db)@, key@, r),
{
    find(db, SQL_GET_APP_SETTING, params1(p_text(key)))
}

pub const SQL_SET_APP_SETTING: &'static str = "INSERT INTO app_settings(key, value) VALUES(?1, ?2) \
         ON CONFLICT(key) DO UPDATE SET value = excluded.value";

/// The setting `key` was given a value.
pub open spec fn setting_stored(
    pre: Trace,
    post: Trace,
    key: Seq<char>,
    value: Seq<char>,
    r: Result<(), DbError>,
) -> bool {
    rows::executed(pre, post, SQL_SET_APP_SETTING@, seq![Datum::Text(key), Datum::Text(value)], r)
}

/// Gives a setting a value.
pub fn set_app_setting(db: &mut Db, key: &str, value: &str) -> (r: Result<(), DbError>)
    ensures
        setting_stored(old(db)@, final(db)@, key@, value@, r),
{
    run(db, SQL_SET_APP_SETTING, params2(p_text(key), p_text(value)))
}

/// The setting that says whether commits to a repository are authorized.
pub open spec fn authorization_key(repo_key: Seq<char>) -> Seq<char> {
    "commit.authorized."@ + repo_key
}

fn authorization_setting(repo_key: &str) -> (key: String)
    ensures
        key@ == authorization_key(repo_key@),
{
    "commit.authorized.".to_string().concat(repo_key)
}

/// Whether the value of a setting authorizes commits.
pub open spec fn authorizes(value: Option<Seq<char>>) -> bool {
    value == Some("1"@) || value == Some("true"@)
}

/// Whether commits to a repository are authorized; an error is reported by its text.
pub fn is_commit_authorized(db: &mut Db, repo_key: &str) -> (r: Result<bool, String>)
    ensures
        exists|got: Result<Option<String>, DbError>|
            {
                &&& #[trigger] setting_read(old(db)@, final(db)@, authorization_key(repo_key@), got)
                &&& match got {
                    Ok(value) => r == Ok::<bool, String>(authorizes(events::opt(value))),
                    Err(e) => r matches Err(s) && s@ == e.text(),
                }
            },
{
    let key = authorization_setting(repo_key);
    let got = get_app_setting(db, key.as_str());
    match got {
        Ok(Some(value)) => Ok(same(value.as_str(), "1") || same(value.as_str(), "true")),
        Ok(None) => Ok(false),
        Err(e) => Err(e.message()),
    }
}

/// The value that stands for an authorization.
pub open spec fn authorization_value(authorized: bool) -> Seq<char> {
    if authorized {
        "1"@
    } else {
        "0"@
    }
}

/// Whether a result reports an outcome, an error by its text.
pub open spec fn reports_by_text<T>(got: Result<T, DbError>, r: Result<T, String>) -> bool {
    match got {
        Ok(v) => r == Ok::<T, String>(v),
        Err(e) => r matches Err(s) && s@ == e.text(),
    }
}

/// Says whether commits to a repository are authorized; an error is reported by its text.
pub fn set_commit_authorized(db: &mut Db, repo_key: &str, authorized: bool) -> (r: Result<
    (),
    String,
>)
    ensures
        exists|got: Result<(), DbError>|
            {
                &&& #[trigger] setting_stored(
                    old(db)@,
                    final(db)@,
                    authorization_key(repo_key@),
                    authorization_value(authorized),
                    got,
                )
                &&& reports_by_text(got, r)
            },
{
    let key = authorization_setting(repo_key);
    let value = if authorized {
        "1"
    } else {
        "0"
    };
    assert(value@ == authorization_value(authorized));
    match set_app_setting(db, key.as_str(), value) {
        Ok(()) => Ok(()),
        Err(e) => Err(e.message()),
    }
}

pub const ACTIVE_SEARCH_BACKEND_SETTING: &'static str = "search.active";

/// The search backend that the value of its setting names.
pub open spec fn search_backend(value: Option<Seq<char>>) -> Seq<char> {
    if value == Some("exa"@) {
        "exa"@
    } else if value == Some("duckduckgo"@) {
        "duckduckgo"@
    } else {
        "brave"@
    }
}

/// The active search backend: the one that was set, `brave` where none was or where what was set
/// is none.
pub fn get_active_search_backend(db: &mut Db) -> (r: Result<String, DbError>)
    ensures
        exists|got: Result<Option<String>, DbError>|
            {
                &&& #[trigger] setting_read(
                    old(db)@,
                    final(db)@,
                    ACTIVE_SEARCH_BACKEND_SETTING@,
                    got,
                )
                &&& match got {
                    Ok(value) => r matches Ok(s) && s@ == search_backend(events::opt(value)),
                    Err(e) => r == Err::<String, DbError>(e),
                }
            },
{
    match get_app_setting(db, ACTIVE_SEARCH_BACKEND_SETTING) {
        Ok(Some(value)) => {
            if same(value.as_str(), "exa") {
                Ok("exa".to_string())
            } else if same(value.as_str(), "duckduckgo") {
                Ok("duckduckgo".to_string())
            } else {
                Ok("brave".to_string())
            }
        },
        Ok(None) => Ok("brave".to_string()),
        Err(e) => Err(e),
    }
}

/// Whether a text names a search backend.
pub open spec fn is_search_backend(backend: Seq<char>) -> bool {
    backend == "duckduckgo"@ || backend == "brave"@ || backend == "exa"@
}

/// Sets the active search backend. A text that names none is refused, and nothing is stored.
pub fn set_active_search_backend(db: &mut Db, backend: &str) -> (r: Result<(), String>)
    ensures
        if is_search_backend(backend@) {
            exists|got: Result<(), DbError>|
                {
                    &&& #[trigger] setting_stored(
                        old(db)@,
                        final(db)@,
                        ACTIVE_SEARCH_BACKEND_SETTING@,
                        backend@,
                        got,
                    )
                    &&& reports_by_text(got, r)
                }
        } else {
            &&& final(db)@ == old(db)@
            &&& r matches Err(s) && s@ == "invalid search backend: "@ + backend@
        },
{
    if same(backend, "duckduckgo") || same(backend, "brave") || same(backend, "exa") {
        match set_app_setting(db, ACTIVE_SEARCH_BACKEND_SETTING, backend) {
            Ok(()) => Ok(()),
            Err(e) => Err(e.message()),
        }
    } else {
        Err("invalid search backend: ".to_string().concat(backend))
    }
}

/// A backend that may be set is the one that is read back while its setting holds what was
/// stored.
pub proof fn law_search_backend_round_trip(backend: Seq<char>)
    requires
        is_search_backend(backend),
    ensures
        search_backend(Some(backend)) == backend,
{
}

/// Authorizing commits stores a value that authorizes, and withdrawing the authorization one that
/// does not.
pub proof fn law_authorization_round_trip(authorized: bool)
    ensures
        authorizes(Some(authorization_value(authorized))) == authorized,
        !authorizes(None),
{
    reveal_strlit("0");
    reveal_strlit("1");
    reveal_strlit("true");
    assert("0"@[0] != "1"@[0]);
    assert("0"@.len() != "true"@.len());
}

/// The search backend that is read is one of the three; it is the one that the setting names, and
/// `brave` where it names none.
pub proof fn law_search_backend_is_one_of_three(value: Option<Seq<char>>)
    ensures
        search_backend(value) == "duckduckgo"@ || search_backend(value) == "brave"@
            || search_backend(value) == "exa"@,
        value == Some("duckduckgo"@) || value == Some("brave"@) || value == Some("exa"@) ==> Some(
            search_backend(value),
        ) == value,
        !(value == Some("duckduckgo"@) || value == Some("brave"@) || value == Some("exa"@))
            ==> search_backend(value) == "brave"@,
        value matches Some(backend) ==> (is_search_backend(backend) <==> (backend
            == "duckduckgo"@ || backend == "brave"@ || backend == "exa"@)),
{
}

/// Only the texts `1` and `true` authorize commits, and each repository has a setting of its own.
pub proof fn law_authorization_is_explicit(
    value: Option<Seq<char>>,
    one: Seq<char>,
    other: Seq<char>,
)
    ensures
        authorizes(value) <==> (value == Some("1"@) || value == Some("true"@)),
        authorization_key(one) == authorization_key(other) <==> one == other,
        authorization_key(one) == "commit.authorized."@ + one,
{
    let prefix = "commit.authorized."@;
    if authorization_key(one) == authorization_key(other) {
        assert(one =~= authorization_key(one).skip(prefix.len() as int));
        assert(other =~= authorization_key(other).skip(prefix.len() as int));
    }
}

} // verus!
