//! What the SQLite backend decides around its queries: where the database file
//! lies, how a row becomes a `Url`, and how the answers of the database become
//! the answers of the storage.
use vstd::prelude::*;
use vstd::string::*;

use crate::decimal::decimal;
use crate::errors::AppError;
use crate::models::time::parses_to;
use crate::models::{UnixNanos, Url};
use crate::storage::memory::visit_overflow_text;
use crate::storage::{not_found_message, not_found_text};
use crate::text::{has_prefix, opt_view, starts_with};

verus! {

/// `s` with every leading copy of the non-empty `p` removed.
pub open spec fn strip_leading(s: Seq<char>, p: Seq<char>) -> Seq<char>
    decreases s.len(),
{
    if p.len() > 0 && has_prefix(s, p) {
        strip_leading(s.skip(p.len() as int), p)
    } else {
        s
    }
}

/// The file of a `sqlite:` database URL: the URL without its leading
/// `sqlite:` prefixes. Other URLs name no file.
pub open spec fn database_file(url: Seq<char>) -> Option<Seq<char>> {
    if has_prefix(url, "sqlite:"@) {
        Some(strip_leading(url, "sqlite:"@))
    } else {
        None
    }
}

/// The path of the database file that a database URL names, if it names one.
pub fn database_file_path(database_url: &str) -> (r: Option<String>)
    ensures
        opt_view(r) == database_file(database_url@),
{
    let prefix = "sqlite:";
    if !starts_with(database_url, prefix) {
        return None;
    }
    let n = database_url.unicode_len();
    let m = prefix.unicode_len();
    proof {
        reveal_strlit("sqlite:");
    }
    assert(m == 7);
    let mut start: usize = 0;
    assert(database_url@.subrange(0, n as int) =~= database_url@);
    while m <= n - start && starts_with(database_url.substring_char(start, n), prefix)
        invariant
            n == database_url@.len(),
            m == prefix@.len(),
            m == 7,
            start <= n,
            strip_leading(database_url@, prefix@) == strip_leading(
                database_url@.subrange(start as int, n as int),
                prefix@,
            ),
        decreases n - start,
    {
        proof {
            let rest = database_url@.subrange(start as int, n as int);
            assert(rest.skip(m as int) =~= database_url@.subrange(start + m, n as int));
        }
        start = start + m;
    }
    proof {
        let rest = database_url@.subrange(start as int, n as int);
        if start + m > n {
            assert(!has_prefix(rest, prefix@));
        }
        assert(strip_leading(rest, prefix@) == rest);
    }
    let path = database_url.substring_char(start, n);
    Some(String::from_str(path))
}

/// The message of a stored time that is not a decimal count.
pub open spec fn bad_timestamp_text() -> Seq<char> {
    "Invalid timestamp format"@
}

/// The time that the stored text `s` reads as, if it reads as one.
pub open spec fn stored_time(s: Seq<char>) -> Option<UnixNanos> {
    if exists|t: UnixNanos| #[trigger] parses_to(s, Ok::<UnixNanos, AppError>(t)) {
        Some(choose|t: UnixNanos| #[trigger] parses_to(s, Ok::<UnixNanos, AppError>(t)))
    } else {
        None
    }
}

fn read_time(s: &str) -> (r: Result<UnixNanos, AppError>)
    ensures
        match stored_time(s@) {
            Some(t) => r == Ok::<UnixNanos, AppError>(t),
            None => r matches Err(AppError::InternalError(m)) && m@ == bad_timestamp_text(),
        },
        r matches Ok(t) ==> parses_to(s@, Ok::<UnixNanos, AppError>(t)),
{
    let parsed = UnixNanos::parse(s);
    match parsed {
        Ok(t) => {
            proof {
                assert(parses_to(s@, Ok::<UnixNanos, AppError>(t)));
                let c = choose|c: UnixNanos| #[trigger] parses_to(s@, Ok::<UnixNanos, AppError>(c));
                assert(parses_to(s@, Ok::<UnixNanos, AppError>(c)));
            }
            Ok(t)
        },
        Err(_) => {
            proof {
                assert forall|t: UnixNanos| !#[trigger] parses_to(s@, Ok::<UnixNanos, AppError>(t)) by {
                }
            }
            Err(AppError::InternalError(String::from_str("Invalid timestamp format")))
        },
    }
}

/// The `Url` that a row of the `urls` table stands for: its columns, with the
/// times read from their stored text; `None` when a stored time does not read.
pub open spec fn url_of_row(
    short_id: String,
    original_url: String,
    visit_count: u32,
    created_at: Seq<char>,
    last_accessed: Option<String>,
) -> Option<Url> {
    match stored_time(created_at) {
        None => None,
        Some(c) => match last_accessed {
            None => Some(Url { short_id, original_url, visit_count, created_at: c, last_accessed: None }),
            Some(l) => match stored_time(l@) {
                Some(t) => Some(
                    Url { short_id, original_url, visit_count, created_at: c, last_accessed: Some(t) },
                ),
                None => None,
            },
        },
    }
}

/// The `Url` of a row: the row's `Url`, or `Invalid timestamp format` when a
/// stored time does not read.
pub open spec fn row_outcome(
    short_id: String,
    original_url: String,
    visit_count: u32,
    created_at: Seq<char>,
    last_accessed: Option<String>,
    r: Result<Url, AppError>,
) -> bool {
    match url_of_row(short_id, original_url, visit_count, created_at, last_accessed) {
        Some(u) => r == Ok::<Url, AppError>(u),
        None => r matches Err(AppError::InternalError(m)) && m@ == bad_timestamp_text(),
    }
}

/// The `Url` that a row of the `urls` table stands for: its columns, with the
/// times read from their stored text; `Invalid timestamp format` when a stored
/// time does not read.
pub fn url_from_row(
    short_id: String,
    original_url: String,
    visit_count: u32,
    created_at: &str,
    last_accessed: Option<String>,
) -> (r: Result<Url, AppError>)
    ensures
        row_outcome(short_id, original_url, visit_count, created_at@, last_accessed, r),
        r is Ok <==> (stored_time(created_at@) is Some && (last_accessed matches Some(l) ==> stored_time(
            l@,
        ) is Some)),
        r matches Ok(u) ==> {
            &&& u.short_id@ == short_id@
            &&& u.original_url@ == original_url@
            &&& u.visit_count == visit_count
            &&& parses_to(created_at@, Ok::<UnixNanos, AppError>(u.created_at))
            &&& (last_accessed is None ==> u.last_accessed is None)
            &&& (last_accessed matches Some(l) ==> (u.last_accessed matches Some(t) && parses_to(
                l@,
                Ok::<UnixNanos, AppError>(t),
            )))
        },
{
    let created = read_time(created_at)?;
    let accessed = match last_accessed {
        Some(l) => Some(read_time(l.as_str())?),
        None => None,
    };
    Ok(Url { short_id, original_url, visit_count, created_at: created, last_accessed: accessed })
}

/// A stored time that reads, reads as a time that its text parses to.
proof fn lemma_stored_time(s: Seq<char>)
    ensures
        stored_time(s) matches Some(t) ==> parses_to(s, Ok::<UnixNanos, AppError>(t)),
{
}

/// A row read into a `Url` keeps its columns, whatever its times hold: the
/// `Url` has the row's short id, original URL and visit count, the time that
/// the stored creation text parses to, and a last access exactly when the row
/// has one, at the time that its text parses to.
pub proof fn lemma_row_keeps_columns(
    short_id: String,
    original_url: String,
    visit_count: u32,
    created_at: Seq<char>,
    last_accessed: Option<String>,
    r: Result<Url, AppError>,
)
    requires
        row_outcome(short_id, original_url, visit_count, created_at, last_accessed, r),
        r is Ok,
    ensures
        r->Ok_0.short_id@ == short_id@,
        r->Ok_0.original_url@ == original_url@,
        r->Ok_0.visit_count == visit_count,
        parses_to(created_at, Ok::<UnixNanos, AppError>(r->Ok_0.created_at)),
        r->Ok_0.last_accessed is Some <==> last_accessed is Some,
        last_accessed matches Some(l) ==> parses_to(
            l@,
            Ok::<UnixNanos, AppError>(r->Ok_0.last_accessed->0),
        ),
{
    lemma_stored_time(created_at);
    if let Some(l) = last_accessed {
        lemma_stored_time(l@);
    }
}

/// The columns of one row of the `urls` table.
#[derive(Debug)]
pub struct UrlRow {
    pub short_id: String,
    pub original_url: String,
    pub visit_count: u32,
    pub created_at: String,
    pub last_accessed: Option<String>,
}

/// The `Url` that a row stands for, if its times read.
pub open spec fn row_url(row: UrlRow) -> Option<Url> {
    url_of_row(row.short_id, row.original_url, row.visit_count, row.created_at@, row.last_accessed)
}

/// The `Url`s read from the rows of a query keep each row's short id,
/// original URL and visit count, in the rows' order.
pub proof fn lemma_rows_keep_columns(rows: Seq<UrlRow>, urls: Seq<Url>)
    requires
        urls.len() == rows.len(),
        forall|i: int| 0 <= i < rows.len() ==> Some(#[trigger] urls[i]) == row_url(rows[i]),
    ensures
        forall|i: int|
            0 <= i < rows.len() ==> {
                &&& (#[trigger] urls[i]).short_id@ == rows[i].short_id@
                &&& urls[i].original_url@ == rows[i].original_url@
                &&& urls[i].visit_count == rows[i].visit_count
            },
{
    assert forall|i: int| 0 <= i < rows.len() implies {
        &&& (#[trigger] urls[i]).short_id@ == rows[i].short_id@
        &&& urls[i].original_url@ == rows[i].original_url@
        &&& urls[i].visit_count == rows[i].visit_count
    } by {
        let row = rows[i];
        lemma_row_keeps_columns(
            row.short_id,
            row.original_url,
            row.visit_count,
            row.created_at@,
            row.last_accessed,
            Ok::<Url, AppError>(urls[i]),
        );
    }
}

/// The `Url`s of the rows of a query, in their order; `Invalid timestamp
/// format` when a stored time of some row does not read.
pub fn urls_from_rows(rows: Vec<UrlRow>) -> (r: Result<Vec<Url>, AppError>)
    ensures
        (forall|i: int| 0 <= i < rows@.len() ==> (#[trigger] row_url(rows@[i])) is Some) ==> (
        r matches Ok(v) && v@.len() == rows@.len() && forall|i: int|
            0 <= i < rows@.len() ==> Some(#[trigger] v@[i]) == row_url(rows@[i])),
        !(forall|i: int| 0 <= i < rows@.len() ==> (#[trigger] row_url(rows@[i])) is Some) ==> (
        r matches Err(AppError::InternalError(m)) && m@ == bad_timestamp_text()),
{
    let n = rows.len();
    let mut urls: Vec<Url> = Vec::new();
    let mut i: usize = 0;
    while i < n
        invariant
            n == rows@.len(),
            i <= n,
            urls@.len() == i,
            forall|j: int| 0 <= j < i ==> Some(#[trigger] urls@[j]) == row_url(rows@[j]),
        decreases n - i,
    {
        let row = &rows[i];
        let last = match &row.last_accessed {
            Some(l) => Some(l.clone()),
            None => None,
        };
        assert(last == row.last_accessed);
        match url_from_row(
            row.short_id.clone(),
            row.original_url.clone(),
            row.visit_count,
            row.created_at.as_str(),
            last,
        ) {
            Ok(u) => {
                urls.push(u);
            },
            Err(e) => {
                assert(row_url(rows@[i as int]) is None);
                return Err(e);
            },
        }
        i = i + 1;
    }
    assert forall|j: int| 0 <= j < rows@.len() implies (#[trigger] row_url(rows@[j])) is Some by {
        assert(Some(urls@[j]) == row_url(rows@[j]));
    }
    Ok(urls)
}

/// The answer to a visit, from how many rows the update changed and whether
/// the short id is stored: a stored id that no row took counts no more visits.
pub fn visit_result(rows_affected: u64, stored: bool, short_id: &str) -> (r: Result<(), AppError>)
    ensures
        rows_affected != 0 ==> r is Ok,
        rows_affected == 0 && !stored ==> (r matches Err(AppError::NotFound(m)) && m@ == not_found_text(
            short_id@,
        )),
        rows_affected == 0 && stored ==> (r matches Err(AppError::InternalError(m)) && m@
            == visit_overflow_text()),
{
    if rows_affected != 0 {
        return Ok(());
    }
    if stored {
        return Err(AppError::InternalError(String::from_str("visit count overflow")));
    }
    Err(AppError::NotFound(not_found_message(short_id)))
}

/// The answer to a failed lookup: `NotFound` when the database found no row,
/// else the database's error.
pub fn lookup_error(row_not_found: bool, database_message: String, short_id: &str) -> (e: AppError)
    ensures
        row_not_found ==> (e matches AppError::NotFound(m) && m@ == not_found_text(short_id@)),
        !row_not_found ==> e == AppError::DatabaseError(database_message),
{
    if row_not_found {
        AppError::NotFound(not_found_message(short_id))
    } else {
        AppError::DatabaseError(database_message)
    }
}

/// A short id exists when the count of its rows is positive.
pub fn exists_from_count(count: i64) -> (b: bool)
    ensures
        b == (count > 0),
{
    count > 0
}

/// The stored text of the time of a visit: the count of nanoseconds cut to 64
/// bits.
pub fn visit_time_text(nanos: u128) -> (s: String)
    ensures
        s@ == decimal((nanos as u64) as nat),
{
    UnixNanos((nanos as u64) as u128).to_string()
}

} // verus!
