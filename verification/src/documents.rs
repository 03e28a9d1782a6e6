//! The documents that are generated for a repository.
use vstd::prelude::*;

use crate::engine::{Cell, Datum, Db, DbError};
use crate::rows::{
    self,
    find,
    int_at,
    p_int,
    p_text,
    params1,
    params4,
    reads_in_order,
    run,
    text_at,
    FromRow,
    Kind,
    Read,
};

verus! {

/// A document that was generated for a repository.
#[derive(Debug, Clone, PartialEq)]
pub struct GeneratedRepoDocument {
    pub repo_id: String,
    pub content: String,
    pub generated_at: i64,
    pub head_sha: String,
}

impl FromRow for GeneratedRepoDocument {
    open spec fn reads() -> Seq<Read> {
        rows::in_order(seq![Kind::Text, Kind::Text, Kind::Int, Kind::Text])
    }

    open spec fn is_row(self, row: Seq<Datum>) -> bool {
        &&& row[0] == Datum::Text(self.repo_id@)
        &&& row[1] == Datum::Text(self.content@)
        &&& row[2] == Datum::Integer(self.generated_at)
        &&& row[3] == Datum::Text(self.head_sha@)
    }

    fn layout() -> (reads: Vec<Read>) {
        let kinds = vec![Kind::Text, Kind::Text, Kind::Int, Kind::Text];
        assert(rows::in_order(kinds@) =~= Self::reads());
        reads_in_order(kinds)
    }

    fn from_row(row: &Vec<Cell>) -> (v: Self) {
        proof {
            rows::lemma_cells(row@, Self::reads());
        }
        GeneratedRepoDocument {
            repo_id: text_at(row, 0),
            content: text_at(row, 1),
            generated_at: int_at(row, 2),
            head_sha: text_at(row, 3),
        }
    }
}

pub const SQL_UPSERT_PROJECT_INTRO: &'static str = "INSERT INTO project_intro (repo_id, content, generated_at, head_sha)
             VALUES (?1, ?2, ?3, ?4)
             ON CONFLICT(repo_id) DO UPDATE SET
                content = excluded.content,
                generated_at = excluded.generated_at,
                head_sha = excluded.head_sha";

/// Stores the introduction to a repository, over the one that it has.
pub fn upsert_project_intro(
    db: &mut Db,
    document: &GeneratedRepoDocument,
) -> (r: Result<(), DbError>)
    ensures
        rows::executed(
            old(db)@,
            final(db)@,
            SQL_UPSERT_PROJECT_INTRO@,
            seq![
                Datum::Text(document.repo_id@),
                Datum::Text(document.content@),
                Datum::Integer(document.generated_at),
                Datum::Text(document.head_sha@),
            ],
            r,
        ),
{
    run(
        db,
        SQL_UPSERT_PROJECT_INTRO,
        params4(
            p_text(document.repo_id.as_str()),
            p_text(document.content.as_str()),
            p_int(document.generated_at),
            p_text(document.head_sha.as_str()),
        ),
    )
}

pub const SQL_GET_PROJECT_INTRO: &'static str = "SELECT repo_id, content, generated_at, head_sha FROM project_intro WHERE repo_id = ?1";

/// The introduction to a repository, if there is one.
pub fn get_project_intro(
    db: &mut Db,
    repo_id: &str,
) -> (r: Result<Option<GeneratedRepoDocument>, DbError>)
    ensures
        rows::found(old(db)@, final(db)@, SQL_GET_PROJECT_INTRO@, seq![Datum::Text(repo_id@)], r),
{
    find(db, SQL_GET_PROJECT_INTRO, params1(p_text(repo_id)))
}

pub const SQL_UPSERT_DAILY_REPORT: &'static str = "INSERT INTO daily_report (repo_id, content, generated_at, head_sha)
             VALUES (?1, ?2, ?3, ?4)
             ON CONFLICT(repo_id) DO UPDATE SET
                content = excluded.content,
                generated_at = excluded.generated_at,
                head_sha = excluded.head_sha";

/// Stores the daily report of a repository, over the one that it has.
pub fn upsert_daily_report(
    db: &mut Db,
    document: &GeneratedRepoDocument,
) -> (r: Result<(), DbError>)
    ensures
        rows::executed(
            old(db)@,
            final(db)@,
            SQL_UPSERT_DAILY_REPORT@,
            seq![
                Datum::Text(document.repo_id@),
                Datum::Text(document.content@),
                Datum::Integer(document.generated_at),
                Datum::Text(document.head_sha@),
            ],
            r,
        ),
{
    run(
        db,
        SQL_UPSERT_DAILY_REPORT,
        params4(
            p_text(document.repo_id.as_str()),
            p_text(document.content.as_str()),
            p_int(document.generated_at),
            p_text(document.head_sha.as_str()),
        ),
    )
}

pub const SQL_GET_DAILY_REPORT: &'static str = "SELECT repo_id, content, generated_at, head_sha FROM daily_report WHERE repo_id = ?1";

/// The daily report of a repository, if there is one.
pub fn get_daily_report(
    db: &mut Db,
    repo_id: &str,
) -> (r: Result<Option<GeneratedRepoDocument>, DbError>)
    ensures
        rows::found(old(db)@, final(db)@, SQL_GET_DAILY_REPORT@, seq![Datum::Text(repo_id@)], r),
{
    find(db, SQL_GET_DAILY_REPORT, params1(p_text(repo_id)))
}

} // verus!
