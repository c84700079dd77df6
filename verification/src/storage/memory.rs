//! An in-memory backend: the URLs held in a list, newest first.
use vstd::prelude::*;
use vstd::string::*;

use crate::errors::AppError;
use crate::models::{UnixNanos, Url, UrlView};
use crate::storage::{
    create_outcome, is_listing, lemma_page, not_found_message, not_found_text, page_of, views,
    visit_outcome,
    visited, Storage, UrlTable,
};

verus! {

/// `r[i]` is the record of short id `k`.
pub open spec fn has_id_at(r: Seq<UrlView>, i: int, k: Seq<char>) -> bool {
    0 <= i < r.len() && r[i].short_id == k
}

/// No short id occurs twice in `r`.
pub open spec fn ids_distinct(r: Seq<UrlView>) -> bool {
    forall|i: int, j: int|
        0 <= i < r.len() && 0 <= j < r.len() && i != j ==> (#[trigger] r[i]).short_id != (
        #[trigger] r[j]).short_id
}

/// `r` runs from the newest record to the oldest.
pub open spec fn newest_first(r: Seq<UrlView>) -> bool {
    forall|i: int, j: int|
        0 <= i <= j < r.len() ==> (#[trigger] r[i]).created_at >= (#[trigger] r[j]).created_at
}

/// The table that the list `r` holds.
pub open spec fn table_of(r: Seq<UrlView>) -> UrlTable {
    Map::new(
        |k: Seq<char>| exists|i: int| #[trigger] has_id_at(r, i, k),
        |k: Seq<char>| r[choose|i: int| #[trigger] has_id_at(r, i, k)],
    )
}

proof fn lemma_table_at(r: Seq<UrlView>, i: int)
    requires
        ids_distinct(r),
        0 <= i < r.len(),
    ensures
        table_of(r).contains_key(r[i].short_id),
        table_of(r)[r[i].short_id] == r[i],
{
    let k = r[i].short_id;
    assert(has_id_at(r, i, k));
    let j = choose|j: int| #[trigger] has_id_at(r, j, k);
    assert(has_id_at(r, j, k));
    if j != i {
        assert(r[j].short_id != r[i].short_id);
    }
}

proof fn lemma_table_absent(r: Seq<UrlView>, k: Seq<char>)
    requires
        forall|i: int| 0 <= i < r.len() ==> (#[trigger] r[i]).short_id != k,
    ensures
        !table_of(r).contains_key(k),
{
    if table_of(r).contains_key(k) {
        let j = choose|j: int| #[trigger] has_id_at(r, j, k);
        assert(has_id_at(r, j, k));
        assert(r[j].short_id != k);
    }
}

proof fn lemma_table_size(r: Seq<UrlView>)
    requires
        ids_distinct(r),
    ensures
        table_of(r).dom().finite(),
        table_of(r).dom().len() == r.len(),
{
    let ids = r.map_values(|v: UrlView| v.short_id);
    assert(ids.no_duplicates()) by {
        assert forall|i: int, j: int| 0 <= i < ids.len() && 0 <= j < ids.len() && i != j implies ids[i]
            != ids[j] by {
            assert(r[i].short_id != r[j].short_id);
        }
    }
    ids.unique_seq_to_set();
    assert forall|k: Seq<char>| table_of(r).dom().contains(k) <==> ids.to_set().contains(k) by {
        if table_of(r).dom().contains(k) {
            let j = choose|j: int| #[trigger] has_id_at(r, j, k);
            assert(has_id_at(r, j, k));
            assert(ids[j] == k);
        }
        if ids.to_set().contains(k) {
            let j = choose|j: int| 0 <= j < ids.len() && ids[j] == k;
            assert(has_id_at(r, j, k));
        }
    }
    assert(table_of(r).dom() =~= ids.to_set());
}

/// A list with distinct short ids, newest first, lists its table.
proof fn lemma_listing(r: Seq<UrlView>)
    requires
        ids_distinct(r),
        newest_first(r),
    ensures
        is_listing(table_of(r), r),
{
    lemma_table_size(r);
    assert forall|i: int| 0 <= i < r.len() implies table_of(r).contains_key(
        #[trigger] r[i].short_id,
    ) && table_of(r)[r[i].short_id] == r[i] by {
        lemma_table_at(r, i);
    }
}

proof fn lemma_table_insert(r: Seq<UrlView>, p: int, v: UrlView)
    requires
        ids_distinct(r),
        0 <= p <= r.len(),
        forall|i: int| 0 <= i < r.len() ==> (#[trigger] r[i]).short_id != v.short_id,
    ensures
        ids_distinct(r.insert(p, v)),
        table_of(r.insert(p, v)) == table_of(r).insert(v.short_id, v),
{
    let r2 = r.insert(p, v);
    assert forall|i: int, j: int|
        0 <= i < r2.len() && 0 <= j < r2.len() && i != j implies (#[trigger] r2[i]).short_id != (
        #[trigger] r2[j]).short_id by {
        let ii = if i < p {
            i
        } else {
            i - 1
        };
        let jj = if j < p {
            j
        } else {
            j - 1
        };
        if i != p && j != p {
            assert(r[ii].short_id != r[jj].short_id);
        } else if i == p {
            assert(r[jj].short_id != v.short_id);
        } else {
            assert(r[ii].short_id != v.short_id);
        }
    }
    let t1 = table_of(r2);
    let t2 = table_of(r).insert(v.short_id, v);
    assert forall|k: Seq<char>| #[trigger] t1.contains_key(k) <==> t2.contains_key(k) by {
        if t1.contains_key(k) {
            let j = choose|j: int| #[trigger] has_id_at(r2, j, k);
            assert(has_id_at(r2, j, k));
            if j < p {
                lemma_table_at(r, j);
            } else if j > p {
                lemma_table_at(r, j - 1);
            }
        }
        if t2.contains_key(k) && k != v.short_id {
            let j = choose|j: int| #[trigger] has_id_at(r, j, k);
            assert(has_id_at(r, j, k));
            if j < p {
                assert(has_id_at(r2, j, k));
            } else {
                assert(has_id_at(r2, j + 1, k));
            }
        }
        if k == v.short_id {
            assert(has_id_at(r2, p, k));
        }
    }
    assert forall|k: Seq<char>| t1.contains_key(k) implies #[trigger] t1[k] == t2[k] by {
        let j = choose|j: int| #[trigger] has_id_at(r2, j, k);
        assert(has_id_at(r2, j, k));
        lemma_table_at(r2, j);
        if j < p {
            lemma_table_at(r, j);
        } else if j > p {
            lemma_table_at(r, j - 1);
        }
    }
    assert(t1 =~= t2);
}

proof fn lemma_table_update(r: Seq<UrlView>, i: int, v: UrlView)
    requires
        ids_distinct(r),
        0 <= i < r.len(),
        v.short_id == r[i].short_id,
    ensures
        ids_distinct(r.update(i, v)),
        table_of(r.update(i, v)) == table_of(r).insert(v.short_id, v),
{
    let r2 = r.update(i, v);
    assert forall|a: int, b: int|
        0 <= a < r2.len() && 0 <= b < r2.len() && a != b implies (#[trigger] r2[a]).short_id != (
        #[trigger] r2[b]).short_id by {
        assert(r[a].short_id != r[b].short_id);
    }
    let t1 = table_of(r2);
    let t2 = table_of(r).insert(v.short_id, v);
    lemma_table_at(r, i);
    assert forall|k: Seq<char>| #[trigger] t1.contains_key(k) <==> t2.contains_key(k) by {
        if t1.contains_key(k) {
            let j = choose|j: int| #[trigger] has_id_at(r2, j, k);
            assert(has_id_at(r2, j, k));
            lemma_table_at(r, j);
        }
        if t2.contains_key(k) {
            if k == v.short_id {
                assert(has_id_at(r2, i, k));
            } else {
                let j = choose|j: int| #[trigger] has_id_at(r, j, k);
                assert(has_id_at(r, j, k));
                assert(has_id_at(r2, j, k));
            }
        }
    }
    assert forall|k: Seq<char>| t1.contains_key(k) implies #[trigger] t1[k] == t2[k] by {
        let j = choose|j: int| #[trigger] has_id_at(r2, j, k);
        assert(has_id_at(r2, j, k));
        lemma_table_at(r2, j);
        lemma_table_at(r, j);
    }
    assert(t1 =~= t2);
}

/// `SystemTime::elapsed` on `UNIX_EPOCH`: the time now, in nanoseconds since
/// 1970, or `None` when the clock is set before then. What time it is rests
/// on the machine's clock, so nothing is stated of the value.
#[verifier::external_body]
fn unix_time_now() -> Option<u128> {
    match std::time::UNIX_EPOCH.elapsed() {
        Ok(d) => Some(d.as_nanos()),
        Err(_) => None,
    }
}

/// The message of a failed insert of a short id that is taken.
pub open spec fn duplicate_text() -> Seq<char> {
    "UNIQUE constraint failed: urls.short_id"@
}

/// The message of a visit that the counter cannot take.
pub open spec fn visit_overflow_text() -> Seq<char> {
    "visit count overflow"@
}

/// The time now; a clock set before 1970 reads as the epoch itself.
fn current_time() -> UnixNanos {
    match unix_time_now() {
        Some(t) => UnixNanos(t),
        None => UnixNanos(0),
    }
}

/// URLs held in memory, newest first.
pub struct MemoryStorage {
    entries: Vec<Url>,
}

impl MemoryStorage {
    /// The stored URLs in the order in which they are listed: newest first.
    pub closed spec fn listing(&self) -> Seq<UrlView> {
        views(self.entries@)
    }

    /// An empty storage.
    pub fn new() -> (s: Self)
        ensures
            s.wf(),
            s.reliable(),
            s.urls() == Map::<Seq<char>, UrlView>::empty(),
            s.listing() == Seq::<UrlView>::empty(),
    {
        let s = MemoryStorage { entries: Vec::new() };
        assert(s.listing() =~= Seq::<UrlView>::empty());
        assert(s.urls() =~= Map::<Seq<char>, UrlView>::empty());
        s
    }

    fn position_of(&self, id: &String) -> (r: Option<usize>)
        ensures
            match r {
                Some(i) => i < self.listing().len() && self.listing()[i as int].short_id == id@,
                None => forall|i: int|
                    0 <= i < self.listing().len() ==> (#[trigger] self.listing()[i]).short_id != id@,
            },
    {
        let n = self.entries.len();
        let mut i: usize = 0;
        while i < n
            invariant
                n == self.listing().len(),
                n == self.entries@.len(),
                i <= n,
                forall|j: int| 0 <= j < i ==> (#[trigger] self.listing()[j]).short_id != id@,
            decreases n - i,
        {
            if self.entries[i].short_id == *id {
                return Some(i);
            }
            i = i + 1;
        }
        None
    }

    /// Create a new shortened URL, stamped with the time `now`.
    pub fn create_url_at(&mut self, short_id: &str, original_url: &str, now: UnixNanos) -> (r: Result<
        Url,
        AppError,
    >)
        requires
            old(self).wf(),
        ensures
            final(self).wf(),
            create_outcome(old(self).urls(), final(self).urls(), short_id@, original_url@, r),
            r is Ok <==> !old(self).urls().contains_key(short_id@),
            r matches Ok(u) ==> u.created_at == now,
            r matches Err(e) ==> (e matches AppError::DatabaseError(m) && m@ == duplicate_text()),
    {
        let id = String::from_str(short_id);
        let ghost before = self.listing();
        match self.position_of(&id) {
            Some(i) => {
                proof {
                    lemma_table_at(before, i as int);
                }
                return Err(AppError::DatabaseError(String::from_str("UNIQUE constraint failed: urls.short_id")));
            },
            None => {},
        }
        proof {
            lemma_table_absent(before, id@);
        }
        let url = Url::created(short_id, original_url, now.clone());
        let n = self.entries.len();
        let mut p: usize = 0;
        while p < n && self.entries[p].created_at.0 > now.0
            invariant
                n == self.entries@.len(),
                before == self.listing(),
                p <= n,
                forall|j: int| 0 <= j < p ==> (#[trigger] before[j]).created_at > now.0,
            decreases n - p,
        {
            p = p + 1;
        }
        let ghost v = url@;
        self.entries.insert(p, url.clone());
        proof {
            assert(self.listing() =~= before.insert(p as int, v));
            lemma_table_insert(before, p as int, v);
            let after = before.insert(p as int, v);
            assert forall|a: int, b: int| 0 <= a <= b < after.len() implies (
            #[trigger] after[a]).created_at >= (#[trigger] after[b]).created_at by {
                if p < n {
                    assert(before[p as int].created_at <= now.0);
                }
                if a < p && b > p {
                    assert(before[a].created_at >= before[b - 1].created_at);
                } else if a > p {
                    assert(before[a - 1].created_at >= before[b - 1].created_at);
                } else if a == p && b > p {
                    assert(before[p as int].created_at >= before[b - 1].created_at);
                }
            }
        }
        Ok(url)
    }

    /// Count a visit of `short_id` at the time `now`.
    pub fn increment_visit_at(&mut self, short_id: &str, now: UnixNanos) -> (r: Result<(), AppError>)
        requires
            old(self).wf(),
        ensures
            final(self).wf(),
            visit_outcome(old(self).urls(), final(self).urls(), short_id@, r),
            r is Ok <==> (old(self).urls().contains_key(short_id@) && old(self).urls()[short_id@].visit_count
                < u32::MAX),
            r is Ok ==> final(self).urls()[short_id@] == visited(old(self).urls()[short_id@], now.0),
            !old(self).urls().contains_key(short_id@) ==> (r matches Err(AppError::NotFound(m)) && m@
                == not_found_text(short_id@)),
            old(self).urls().contains_key(short_id@) && old(self).urls()[short_id@].visit_count == u32::MAX
                ==> (r matches Err(AppError::InternalError(m)) && m@ == visit_overflow_text()),
    {
        let id = String::from_str(short_id);
        let ghost before = self.listing();
        match self.position_of(&id) {
            None => {
                proof {
                    lemma_table_absent(before, id@);
                }
                Err(AppError::NotFound(not_found_message(short_id)))
            },
            Some(i) => {
                proof {
                    lemma_table_at(before, i as int);
                }
                if self.entries[i].visit_count == u32::MAX {
                    return Err(AppError::InternalError(String::from_str("visit count overflow")));
                }
                let current = self.entries[i].clone();
                let updated = Url {
                    short_id: current.short_id,
                    original_url: current.original_url,
                    visit_count: current.visit_count + 1,
                    created_at: current.created_at,
                    last_accessed: Some(now),
                };
                let ghost v = updated@;
                assert(v == visited(before[i as int], now.0));
                self.entries.set(i, updated);
                proof {
                    assert(self.listing() =~= before.update(i as int, v));
                    lemma_table_update(before, i as int, v);
                    let after = before.update(i as int, v);
                    assert forall|a: int, b: int| 0 <= a <= b < after.len() implies (
                    #[trigger] after[a]).created_at >= (#[trigger] after[b]).created_at by {
                        assert(before[a].created_at >= before[b].created_at);
                    }
                }
                Ok(())
            },
        }
    }
}

impl Storage for MemoryStorage {
    closed spec fn urls(&self) -> UrlTable {
        table_of(self.listing())
    }

    closed spec fn wf(&self) -> bool {
        ids_distinct(self.listing()) && newest_first(self.listing())
    }

    open spec fn reliable(&self) -> bool {
        true
    }

    fn create_url(&mut self, short_id: &str, original_url: &str) -> (r: Result<Url, AppError>)
        ensures
            r is Ok <==> !old(self).urls().contains_key(short_id@),
            r matches Err(e) ==> (e matches AppError::DatabaseError(m) && m@ == duplicate_text()),
    {
        self.create_url_at(short_id, original_url, current_time())
    }

    fn get_url(&self, short_id: &str) -> (r: Result<Url, AppError>)
        ensures
            r is Ok <==> self.urls().contains_key(short_id@),
            !self.urls().contains_key(short_id@) ==> (r matches Err(AppError::NotFound(m)) && m@
                == not_found_text(short_id@)),
    {
        let id = String::from_str(short_id);
        match self.position_of(&id) {
            Some(i) => {
                proof {
                    lemma_table_at(self.listing(), i as int);
                }
                Ok(self.entries[i].clone())
            },
            None => {
                proof {
                    lemma_table_absent(self.listing(), id@);
                }
                Err(AppError::NotFound(not_found_message(short_id)))
            },
        }
    }

    fn increment_visit(&mut self, short_id: &str) -> (r: Result<(), AppError>)
        ensures
            r is Ok <==> (old(self).urls().contains_key(short_id@) && old(self).urls()[short_id@].visit_count
                < u32::MAX),
            !old(self).urls().contains_key(short_id@) ==> (r matches Err(AppError::NotFound(m)) && m@
                == not_found_text(short_id@)),
            old(self).urls().contains_key(short_id@) && old(self).urls()[short_id@].visit_count == u32::MAX
                ==> (r matches Err(AppError::InternalError(m)) && m@ == visit_overflow_text()),
    {
        self.increment_visit_at(short_id, current_time())
    }

    fn url_exists(&self, short_id: &str) -> (r: Result<bool, AppError>)
        ensures
            r == Ok::<bool, AppError>(self.urls().contains_key(short_id@)),
    {
        let id = String::from_str(short_id);
        match self.position_of(&id) {
            Some(i) => {
                proof {
                    lemma_table_at(self.listing(), i as int);
                }
                Ok(true)
            },
            None => {
                proof {
                    lemma_table_absent(self.listing(), id@);
                }
                Ok(false)
            },
        }
    }

    fn list_urls(&self, limit: usize, offset: usize) -> (r: Result<Vec<Url>, AppError>)
        ensures
            is_listing(self.urls(), self.listing()),
            r matches Ok(v) && views(v@) == page_of(self.listing(), limit as nat, offset as nat),
            r matches Ok(v) && v@.len() == (if offset >= self.listing().len() {
                0
            } else if limit <= self.listing().len() - offset {
                limit as int
            } else {
                self.listing().len() - offset
            }),
            r matches Ok(v) && forall|i: int|
                0 <= i < v@.len() ==> (#[trigger] v@[i])@ == self.listing()[offset + i],
    {
        let n = self.entries.len();
        let start: usize = if offset < n {
            offset
        } else {
            n
        };
        let end: usize = if limit < n - start {
            start + limit
        } else {
            n
        };
        let mut out: Vec<Url> = Vec::new();
        let mut i: usize = start;
        while i < end
            invariant
                n == self.entries@.len(),
                start <= i <= end <= n,
                views(out@) == self.listing().subrange(start as int, i as int),
            decreases end - i,
        {
            let u = self.entries[i].clone();
            let ghost prev = out@;
            out.push(u);
            proof {
                assert(out@ == prev.push(self.entries@[i as int]));
                assert(self.listing()[i as int] == self.entries@[i as int]@);
                assert(views(out@) =~= views(prev).push(self.entries@[i as int]@));
                assert(self.listing().subrange(start as int, i + 1) =~= self.listing().subrange(
                    start as int,
                    i as int,
                ).push(self.listing()[i as int]));
            }
            i = i + 1;
        }
        proof {
            lemma_listing(self.listing());
            assert(views(out@) == page_of(self.listing(), limit as nat, offset as nat));
            lemma_page(self.urls(), self.listing(), limit as nat, offset as nat);
            assert forall|i: int| 0 <= i < out@.len() implies (#[trigger] out@[i])@ == self.listing()[offset
                + i] by {
                assert(views(out@)[i] == out@[i]@);
            }
        }
        Ok(out)
    }
}

} // verus!
