//! The storage of shortened URLs: the interface every backend offers, what each
//! of its operations does to the stored URLs, and an in-memory backend.
pub mod memory;
pub mod sqlite;

pub use memory::MemoryStorage;

use vstd::prelude::*;
use vstd::string::*;

use crate::errors::AppError;
use crate::models::{Url, UrlView};

verus! {

/// The backends that can hold the URLs.
#[derive(Debug, Clone)]
pub enum StorageType {
    Sqlite,
}

/// The stored URLs, by short id.
pub type UrlTable = Map<Seq<char>, UrlView>;

/// The record that a fresh short id `id` for `url` starts with: never visited.
pub open spec fn is_new_record(v: UrlView, id: Seq<char>, url: Seq<char>) -> bool {
    &&& v.short_id == id
    &&& v.original_url == url
    &&& v.visit_count == 0
    &&& v.last_accessed is None
}

/// A record after one more visit at time `at`.
pub open spec fn visited(v: UrlView, at: u128) -> UrlView {
    UrlView {
        short_id: v.short_id,
        original_url: v.original_url,
        visit_count: (v.visit_count + 1) as u32,
        created_at: v.created_at,
        last_accessed: Some(at),
    }
}

/// What `create_url(id, url)` did: on success `id` was free and now holds a new
/// record for `url`; on failure nothing changed.
pub open spec fn create_outcome(
    before: UrlTable,
    after: UrlTable,
    id: Seq<char>,
    url: Seq<char>,
    r: Result<Url, AppError>,
) -> bool {
    match r {
        Ok(u) => {
            &&& !before.contains_key(id)
            &&& is_new_record(u@, id, url)
            &&& after == before.insert(id, u@)
        },
        Err(_) => after == before,
    }
}

/// What `get_url(id)` answered: the stored record of `id`, or `NotFound` only
/// when there is none.
pub open spec fn lookup_outcome(urls: UrlTable, id: Seq<char>, r: Result<Url, AppError>) -> bool {
    match r {
        Ok(u) => urls.contains_key(id) && u@ == urls[id],
        Err(AppError::NotFound(m)) => !urls.contains_key(id) && m@ == not_found_text(id),
        Err(_) => true,
    }
}

/// What `increment_visit(id)` did: on success the record of `id` counts one
/// more visit and records when; on failure nothing changed, and `NotFound`
/// only when `id` is unknown.
pub open spec fn visit_outcome(
    before: UrlTable,
    after: UrlTable,
    id: Seq<char>,
    r: Result<(), AppError>,
) -> bool {
    match r {
        Ok(_) => {
            &&& before.contains_key(id)
            &&& before[id].visit_count < u32::MAX
            &&& after.contains_key(id)
            &&& after[id].last_accessed is Some
            &&& after == before.insert(id, visited(before[id], after[id].last_accessed->0))
        },
        Err(AppError::NotFound(m)) => !before.contains_key(id) && m@ == not_found_text(id) && after
            == before,
        Err(_) => after == before,
    }
}

/// What `url_exists(id)` answered.
pub open spec fn exists_outcome(urls: UrlTable, id: Seq<char>, r: Result<bool, AppError>) -> bool {
    match r {
        Ok(b) => b == urls.contains_key(id),
        Err(_) => true,
    }
}

/// `all` lists every stored URL once, newest first.
pub open spec fn is_listing(urls: UrlTable, all: Seq<UrlView>) -> bool {
    &&& urls.dom().finite()
    &&& all.len() == urls.dom().len()
    &&& forall|i: int|
        0 <= i < all.len() ==> urls.contains_key(#[trigger] all[i].short_id) && urls[all[i].short_id]
            == all[i]
    &&& forall|i: int, j: int|
        0 <= i < j < all.len() ==> (#[trigger] all[i]).short_id != (#[trigger] all[j]).short_id
    &&& forall|i: int, j: int|
        0 <= i <= j < all.len() ==> (#[trigger] all[i]).created_at >= (#[trigger] all[j]).created_at
}

/// The page of `all` that skips `offset` entries and keeps at most `limit`.
pub open spec fn page_of(all: Seq<UrlView>, limit: nat, offset: nat) -> Seq<UrlView> {
    let start = if offset < all.len() {
        offset
    } else {
        all.len()
    };
    let end = if start + limit < all.len() {
        start + limit
    } else {
        all.len()
    };
    all.subrange(start as int, end as int)
}

/// The contents of a list of URLs.
pub open spec fn views(v: Seq<Url>) -> Seq<UrlView> {
    v.map_values(|u: Url| u@)
}

/// What `list_urls(limit, offset)` answered: a page of the URLs, newest first.
pub open spec fn listing_outcome(
    urls: UrlTable,
    limit: nat,
    offset: nat,
    r: Result<Vec<Url>, AppError>,
) -> bool {
    match r {
        Ok(v) => exists|all: Seq<UrlView>|
            #[trigger] is_listing(urls, all) && views(v@) == page_of(all, limit, offset),
        Err(_) => true,
    }
}

/// An error that comes from the storage rather than from the rules of the
/// service: an unknown short id, or a failure of the backend.
pub open spec fn is_storage_error(e: AppError) -> bool {
    e is NotFound || e is DatabaseError || e is InternalError
}

/// A backend fails only with storage errors.
pub open spec fn storage_error_kind<T>(r: Result<T, AppError>) -> bool {
    r matches Err(e) ==> is_storage_error(e)
}

/// A backend fails this operation only with a database error.
pub open spec fn database_error_kind<T>(r: Result<T, AppError>) -> bool {
    r matches Err(e) ==> e is DatabaseError
}

/// The message of a lookup of an unknown short id.
pub open spec fn not_found_text(id: Seq<char>) -> Seq<char> {
    "URL with ID "@ + id + " not found"@
}

/// `URL with ID <id> not found`.
pub fn not_found_message(short_id: &str) -> (m: String)
    ensures
        m@ == not_found_text(short_id@),
{
    let mut m = String::from_str("URL with ID ");
    m.append(short_id);
    m.append(" not found");
    m
}

/// Storage trait that defines the data access interface.
///
/// A backend is seen as a table of URL records keyed by short id (`urls`);
/// each operation states what it does to that table. A backend may fail an
/// operation (a database error); a failed operation leaves the table as it was.
/// A `reliable` backend has no failures of its own: its answers follow from
/// its table alone.
///
/// Every backend names its own table. The in-memory backend of this library
/// defines it, is reliable, and is proved to meet these contracts. For the
/// server's SQLite backend the table is the contents of its database, which
/// has no value at run time; it is not reliable (the database can fail), and
/// it is held to these contracts by its author alone.
pub trait Storage {
    /// The stored URLs, by short id.
    spec fn urls(&self) -> UrlTable;

    /// The backend's own consistency.
    spec fn wf(&self) -> bool;

    /// The backend never fails for reasons of its own.
    spec fn reliable(&self) -> bool;

    /// Create a new shortened URL
    fn create_url(&mut self, short_id: &str, original_url: &str) -> (r: Result<Url, AppError>)
        requires
            old(self).wf(),
        ensures
            final(self).wf(),
            final(self).reliable() == old(self).reliable(),
            create_outcome(old(self).urls(), final(self).urls(), short_id@, original_url@, r),
            database_error_kind(r),
            old(self).reliable() ==> (r is Ok <==> !old(self).urls().contains_key(short_id@)),
    ;

    /// Get a URL by its short ID
    fn get_url(&self, short_id: &str) -> (r: Result<Url, AppError>)
        requires
            self.wf(),
        ensures
            lookup_outcome(self.urls(), short_id@, r),
            storage_error_kind(r),
            self.reliable() ==> (r is Ok <==> self.urls().contains_key(short_id@)),
            self.reliable() && !self.urls().contains_key(short_id@) ==> r matches Err(
                AppError::NotFound(_),
            ),
    ;

    /// Update the visit count for a URL
    fn increment_visit(&mut self, short_id: &str) -> (r: Result<(), AppError>)
        requires
            old(self).wf(),
        ensures
            final(self).wf(),
            final(self).reliable() == old(self).reliable(),
            visit_outcome(old(self).urls(), final(self).urls(), short_id@, r),
            storage_error_kind(r),
            old(self).reliable() ==> (r is Ok <==> (old(self).urls().contains_key(short_id@)
                && old(self).urls()[short_id@].visit_count < u32::MAX)),
            old(self).reliable() && !old(self).urls().contains_key(short_id@) ==> r matches Err(
                AppError::NotFound(_),
            ),
    ;

    /// Check if a URL with the given short ID exists
    fn url_exists(&self, short_id: &str) -> (r: Result<bool, AppError>)
        requires
            self.wf(),
        ensures
            exists_outcome(self.urls(), short_id@, r),
            database_error_kind(r),
            self.reliable() ==> r is Ok,
    ;

    /// Get all URLs with optional pagination
    fn list_urls(&self, limit: usize, offset: usize) -> (r: Result<Vec<Url>, AppError>)
        requires
            self.wf(),
        ensures
            listing_outcome(self.urls(), limit as nat, offset as nat, r),
            storage_error_kind(r),
            self.reliable() ==> r is Ok,
    ;
}

} // verus!

verus! {

/// What a backend stores is what it gives back: after a successful
/// `create_url(id, url)`, looking `id` up finds the new record (or fails with a
/// backend error, never with `NotFound`).
pub proof fn lemma_lookup_after_create(
    before: UrlTable,
    after: UrlTable,
    id: Seq<char>,
    url: Seq<char>,
    created: Url,
    found: Result<Url, AppError>,
)
    requires
        create_outcome(before, after, id, url, Ok::<Url, AppError>(created)),
        lookup_outcome(after, id, found),
    ensures
        found matches Ok(u) ==> u@ == created@ && u@.original_url == url && u@.visit_count == 0,
        !(found matches Err(AppError::NotFound(_))),
{
}

/// After a successful `create_url(id, url)`, `url_exists(id)` cannot answer
/// `false`.
pub proof fn lemma_exists_after_create(
    before: UrlTable,
    after: UrlTable,
    id: Seq<char>,
    url: Seq<char>,
    created: Url,
    answer: Result<bool, AppError>,
)
    requires
        create_outcome(before, after, id, url, Ok::<Url, AppError>(created)),
        exists_outcome(after, id, answer),
    ensures
        !(answer matches Ok(false)),
{
}

/// Creating a record leaves every other record as it was.
pub proof fn lemma_create_keeps_others(
    before: UrlTable,
    after: UrlTable,
    id: Seq<char>,
    url: Seq<char>,
    r: Result<Url, AppError>,
    other: Seq<char>,
)
    requires
        create_outcome(before, after, id, url, r),
        other != id,
    ensures
        after.contains_key(other) == before.contains_key(other),
        before.contains_key(other) ==> after[other] == before[other],
{
}

/// A page of a listing holds at most `limit` URLs, as many as there are past
/// `offset` otherwise, each of them stored, newest first. The page starts at
/// the offset: its `i`-th URL is the listing's `offset + i`-th, whatever the
/// limit.
pub proof fn lemma_page(urls: UrlTable, all: Seq<UrlView>, limit: nat, offset: nat)
    requires
        is_listing(urls, all),
    ensures
        forall|i: int|
            0 <= i < page_of(all, limit, offset).len() ==> offset + i < all.len() && #[trigger] page_of(
                all,
                limit,
                offset,
            )[i] == all[offset + i],
        forall|i: int|
            0 <= i < all.len() && offset <= i < offset + limit ==> page_of(all, limit, offset).len()
                > i - offset && page_of(all, limit, offset)[i - offset] == #[trigger] all[i],
        page_of(all, limit, offset).len() <= limit,
        offset <= all.len() ==> page_of(all, limit, offset).len() == if offset + limit <= all.len() {
            limit as int
        } else {
            all.len() - offset
        },
        offset >= all.len() ==> page_of(all, limit, offset).len() == 0,
        all.len() == urls.dom().len(),
        forall|i: int|
            0 <= i < page_of(all, limit, offset).len() ==> urls.contains_key(
                (#[trigger] page_of(all, limit, offset)[i]).short_id,
            ) && urls[page_of(all, limit, offset)[i].short_id] == page_of(all, limit, offset)[i],
        forall|i: int, j: int|
            0 <= i <= j < page_of(all, limit, offset).len() ==> (#[trigger] page_of(
                all,
                limit,
                offset,
            )[i]).created_at >= (#[trigger] page_of(all, limit, offset)[j]).created_at,
{
    let p = page_of(all, limit, offset);
    let start = if offset < all.len() {
        offset
    } else {
        all.len()
    };
    assert forall|i: int| 0 <= i < p.len() implies offset + i < all.len() && #[trigger] p[i] == all[offset
        + i] by {
        assert(p[i] == all[start + i]);
    }
    assert forall|i: int| 0 <= i < all.len() && offset <= i < offset + limit implies p.len() > i - offset
        && p[i - offset] == #[trigger] all[i] by {
        assert(p[i - offset] == all[start + (i - offset)]);
    }
    assert forall|i: int| 0 <= i < p.len() implies urls.contains_key((#[trigger] p[i]).short_id)
        && urls[p[i].short_id] == p[i] by {
        assert(p[i] == all[start + i]);
    }
    assert forall|i: int, j: int| 0 <= i <= j < p.len() implies (#[trigger] p[i]).created_at >= (
    #[trigger] p[j]).created_at by {
        assert(p[i] == all[start + i]);
        assert(p[j] == all[start + j]);
    }
}

/// A listing's answer is the run of the newest-first listing that starts at
/// the offset: its `i`-th URL is the listing's `offset + i`-th, and it holds
/// `limit` of them, or all that are left past the offset.
pub proof fn lemma_listing_starts_at_offset(
    urls: UrlTable,
    limit: nat,
    offset: nat,
    r: Result<Vec<Url>, AppError>,
)
    requires
        listing_outcome(urls, limit, offset, r),
        r is Ok,
    ensures
        exists|all: Seq<UrlView>|
            #[trigger] is_listing(urls, all) && r->Ok_0@.len() == (if offset >= all.len() {
                0
            } else if offset + limit <= all.len() {
                limit as int
            } else {
                all.len() - offset
            }) && forall|i: int|
                0 <= i < r->Ok_0@.len() ==> (#[trigger] r->Ok_0@[i])@ == all[offset + i],
{
    let v = r->Ok_0;
    let all = choose|all: Seq<UrlView>|
        #[trigger] is_listing(urls, all) && views(v@) == page_of(all, limit, offset);
    lemma_page(urls, all, limit, offset);
    assert forall|i: int| 0 <= i < v@.len() implies (#[trigger] v@[i])@ == all[offset + i] by {
        assert(views(v@)[i] == v@[i]@);
    }
}

} // verus!
