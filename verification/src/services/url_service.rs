//! The rules of URL shortening, between the requests and the storage.
use vstd::prelude::*;
use vstd::string::*;

use crate::config::Config;
use crate::errors::AppError;
use crate::models::{Url, UrlResponse, UrlView};
use crate::storage::{
    is_new_record, listing_outcome, lookup_outcome, not_found_text, storage_error_kind, visited,
    Storage, UrlTable,
};
use crate::text::opt_view;
use crate::utils::{
    generate_short_id, is_alphanumeric_char, is_generated_id, is_valid_short_id, is_valid_url,
    ascii_alphanumeric, lemma_generated_id_is_valid, lemma_valid_id_ascii_chars, validate_short_id,
    validate_url,
};

verus! {

/// How often a fresh short id is drawn before shortening gives up.
pub const MAX_ATTEMPTS: u32 = 5;

/// The message that refuses a URL that is not `http://` or `https://`.
pub open spec fn invalid_url_text(url: Seq<char>) -> Seq<char> {
    "Invalid URL: "@ + url + ". URL must start with http:// or https://"@
}

/// The message that refuses a custom id with a character that is not alphanumeric.
pub open spec fn bad_custom_id_text() -> Seq<char> {
    "Custom ID must contain only alphanumeric characters"@
}

/// The message that refuses a custom id that is taken.
pub open spec fn id_in_use_text(id: Seq<char>) -> Seq<char> {
    "Short ID '"@ + id + "' is already in use"@
}

/// The message of a shortening that drew only taken ids.
pub open spec fn no_free_id_text() -> Seq<char> {
    "Failed to generate a unique short ID"@
}

/// `MAX_ATTEMPTS` ids of the kind the generator draws (`len` letters or
/// digits) are all taken in `urls`.
pub open spec fn all_draws_taken(urls: UrlTable, len: nat) -> bool {
    exists|ids: Seq<Seq<char>>|
        ids.len() == MAX_ATTEMPTS && (forall|i: int|
            0 <= i < ids.len() ==> is_generated_id(#[trigger] ids[i], len) && urls.contains_key(
                ids[i],
            ))
}

/// An empty store has no taken draws.
pub proof fn lemma_no_draws_taken_when_empty(len: nat)
    ensures
        !all_draws_taken(Map::<Seq<char>, UrlView>::empty(), len),
{
    if all_draws_taken(Map::<Seq<char>, UrlView>::empty(), len) {
        let ids = choose|ids: Seq<Seq<char>>|
            ids.len() == MAX_ATTEMPTS && (forall|i: int|
                0 <= i < ids.len() ==> is_generated_id(#[trigger] ids[i], len)
                    && Map::<Seq<char>, UrlView>::empty().contains_key(ids[i]));
        assert(is_generated_id(ids[0], len));
    }
}

/// What shortening `url` (under the custom id `custom`, if any; else under an
/// id of `len` drawn characters) answered and did to the stored URLs.
pub open spec fn shorten_outcome(
    before: UrlTable,
    after: UrlTable,
    url: Seq<char>,
    custom: Option<Seq<char>>,
    len: nat,
    r: Result<UrlResponse, AppError>,
) -> bool {
    &&& r is Err ==> after == before
    &&& !is_valid_url(url) ==> (r matches Err(AppError::InvalidUrl(m)) && m@ == invalid_url_text(url))
    &&& (custom matches Some(id) && (is_valid_url(url) && !is_valid_short_id(id))) ==> (r matches Err(
        AppError::ValidationError(m),
    ) && m@ == bad_custom_id_text())
    &&& match custom {
        Some(id) => (is_valid_url(url) && is_valid_short_id(id) && before.contains_key(id)) ==> (
        r matches Err(e) && ((e matches AppError::ValidationError(m) && m@ == id_in_use_text(id))
            || e is DatabaseError)),
        None => true,
    }
    &&& r matches Err(AppError::ValidationError(m)) ==> (custom matches Some(id) && (
    (!is_valid_short_id(id) && m@ == bad_custom_id_text()) || (is_valid_short_id(id)
        && before.contains_key(id) && m@ == id_in_use_text(id))))
    &&& r matches Err(AppError::InvalidUrl(_)) ==> !is_valid_url(url)
    &&& r matches Err(AppError::InternalError(m)) ==> (custom is None && is_valid_url(url) && m@
        == no_free_id_text() && all_draws_taken(before, len))
    &&& r matches Err(e) ==> (e is InvalidUrl || e is ValidationError || e is DatabaseError
        || e is InternalError)
    &&& r matches Ok(resp) ==> {
        &&& is_valid_url(url)
        &&& resp.original_url@ == url
        &&& !before.contains_key(resp.short_id@)
        &&& after.contains_key(resp.short_id@)
        &&& is_new_record(after[resp.short_id@], resp.short_id@, url)
        &&& after == before.insert(resp.short_id@, after[resp.short_id@])
        &&& match custom {
            Some(id) => resp.short_id@ == id,
            None => is_generated_id(resp.short_id@, len),
        }
    }
}

/// What shortening `url` answers on a backend that has no failures of its own:
/// a valid, free custom id is used; a valid custom id that is taken is refused
/// as in use; without a custom id, a free drawn id is used unless every draw
/// was taken.
pub open spec fn reliable_shorten_outcome(
    before: UrlTable,
    url: Seq<char>,
    custom: Option<Seq<char>>,
    r: Result<UrlResponse, AppError>,
) -> bool {
    is_valid_url(url) ==> match custom {
        Some(id) => is_valid_short_id(id) ==> if before.contains_key(id) {
            r matches Err(AppError::ValidationError(m)) && m@ == id_in_use_text(id)
        } else {
            r is Ok
        },
        None => r is Ok || (r matches Err(AppError::InternalError(m)) && m@ == no_free_id_text()),
    }
}

/// What resolving `id` answered and did: the original URL, with one more visit
/// counted.
pub open spec fn resolve_outcome(
    before: UrlTable,
    after: UrlTable,
    id: Seq<char>,
    r: Result<String, AppError>,
) -> bool {
    match r {
        Ok(s) => {
            &&& before.contains_key(id)
            &&& s@ == before[id].original_url
            &&& before[id].visit_count < u32::MAX
            &&& after.contains_key(id)
            &&& after[id].last_accessed is Some
            &&& after == before.insert(id, visited(before[id], after[id].last_accessed->0))
        },
        Err(AppError::NotFound(m)) => !before.contains_key(id) && m@ == not_found_text(id) && after
            == before,
        Err(_) => after == before,
    }
}

fn invalid_url_message(url: &str) -> (m: String)
    ensures
        m@ == invalid_url_text(url@),
{
    let mut m = String::from_str("Invalid URL: ");
    m.append(url);
    m.append(". URL must start with http:// or https://");
    m
}

fn id_in_use_message(id: &str) -> (m: String)
    ensures
        m@ == id_in_use_text(id@),
{
    let mut m = String::from_str("Short ID '");
    m.append(id);
    m.append("' is already in use");
    m
}

/// What shortening does with the storage's answer to whether the custom id
/// `id` is taken: go on with `id` when it is free, refuse it when it is taken,
/// and pass a storage failure on.
pub fn custom_id_outcome(id: String, taken: Result<bool, AppError>) -> (r: Result<String, AppError>)
    ensures
        match taken {
            Ok(false) => r == Ok::<String, AppError>(id),
            Ok(true) => r matches Err(AppError::ValidationError(m)) && m@ == id_in_use_text(id@),
            Err(e) => r == Err::<String, AppError>(e),
        },
{
    match taken {
        Ok(false) => Ok(id),
        Ok(true) => Err(AppError::ValidationError(id_in_use_message(id.as_str()))),
        Err(e) => Err(e),
    }
}

/// What shortening does with the storage's answer to whether the drawn id
/// `candidate` is taken, after `attempts` earlier taken draws: take a free
/// candidate (`Some`), draw again (`None`), give up after `MAX_ATTEMPTS` taken
/// draws, and pass a storage failure on.
pub fn draw_outcome(candidate: String, taken: Result<bool, AppError>, attempts: u32) -> (r: Result<
    Option<String>,
    AppError,
>)
    requires
        attempts < MAX_ATTEMPTS,
    ensures
        match taken {
            Ok(false) => r == Ok::<Option<String>, AppError>(Some(candidate)),
            Ok(true) => if attempts + 1 >= MAX_ATTEMPTS {
                r matches Err(AppError::InternalError(m)) && m@ == no_free_id_text()
            } else {
                r == Ok::<Option<String>, AppError>(None)
            },
            Err(e) => r == Err::<Option<String>, AppError>(e),
        },
{
    match taken {
        Ok(false) => Ok(Some(candidate)),
        Ok(true) => {
            if attempts + 1 >= MAX_ATTEMPTS {
                Err(AppError::InternalError(String::from_str("Failed to generate a unique short ID")))
            } else {
                Ok(None)
            }
        },
        Err(e) => Err(e),
    }
}

/// Service that handles URL shortening business logic
///
/// This service encapsulates all operations related to URL shortening,
/// acting as a middleware between the HTTP handlers and storage layer.
/// It enforces business rules and validation logic.
pub struct UrlService<S: Storage> {
    storage: S,
    config: Config,
}

impl<S: Storage> UrlService<S> {
    /// The URLs that the service's storage holds.
    pub closed spec fn urls(&self) -> UrlTable {
        self.storage.urls()
    }

    /// The service's storage is consistent.
    pub closed spec fn wf(&self) -> bool {
        self.storage.wf()
    }

    /// The service's storage has no failures of its own.
    pub closed spec fn reliable(&self) -> bool {
        self.storage.reliable()
    }

    /// The service's settings.
    pub closed spec fn config(&self) -> Config {
        self.config
    }

    /// Creates a new UrlService with the given storage implementation and configuration
    pub fn new(storage: S, config: Config) -> (s: Self)
        requires
            storage.wf(),
        ensures
            s.wf(),
            s.urls() == storage.urls(),
            s.reliable() == storage.reliable(),
            s.config() == config,
    {
        Self { storage, config }
    }

    /// Draw fresh ids until one is free, at most `MAX_ATTEMPTS` times.
    fn fresh_short_id(&self) -> (r: Result<String, AppError>)
        requires
            self.wf(),
        ensures
            r matches Ok(id) ==> is_generated_id(id@, self.config.short_url_length as nat)
                && !self.urls().contains_key(id@),
            r matches Err(e) ==> (e is DatabaseError || (e matches AppError::InternalError(m) && m@
                == no_free_id_text() && all_draws_taken(self.urls(), self.config.short_url_length as nat))),
            self.reliable() ==> (r matches Err(e) ==> e is InternalError),
    {
        let mut attempts: u32 = 0;
        let ghost mut taken_ids: Seq<Seq<char>> = Seq::empty();
        let ghost len = self.config.short_url_length as nat;
        loop
            invariant
                self.wf(),
                len == self.config.short_url_length as nat,
                attempts < MAX_ATTEMPTS,
                taken_ids.len() == attempts,
                forall|i: int|
                    0 <= i < taken_ids.len() ==> is_generated_id(#[trigger] taken_ids[i], len)
                        && self.urls().contains_key(taken_ids[i]),
            decreases MAX_ATTEMPTS - attempts,
        {
            let short_id = generate_short_id(self.config.short_url_length);
            let ghost candidate = short_id@;
            let taken = self.storage.url_exists(short_id.as_str());
            let ghost answer = taken;
            let outcome = draw_outcome(short_id, taken, attempts);
            proof {
                if answer matches Ok(true) {
                    taken_ids = taken_ids.push(candidate);
                    assert(taken_ids[attempts as int] == candidate);
                }
            }
            match outcome {
                Ok(Some(id)) => {
                    assert(id@ == candidate);
                    return Ok(id);
                },
                Ok(None) => {},
                Err(e) => {
                    proof {
                        if e is InternalError {
                            assert(taken_ids.len() == MAX_ATTEMPTS);
                        }
                    }
                    return Err(e);
                },
            }
            attempts = attempts + 1;
        }
    }

    /// Shortens a URL, either with a provided custom ID or a generated one
    ///
    /// # Arguments
    /// * `original_url` - The URL to shorten
    /// * `custom_id` - Optional custom identifier for the shortened URL
    ///
    /// # Returns
    /// * `Result<UrlResponse>` - The shortened URL information or an error
    pub fn shorten_url(&mut self, original_url: &str, custom_id: Option<String>) -> (r: Result<
        UrlResponse,
        AppError,
    >)
        requires
            old(self).wf(),
        ensures
            final(self).wf(),
            final(self).config() == old(self).config(),
            final(self).reliable() == old(self).reliable(),
            old(self).reliable() ==> reliable_shorten_outcome(
                old(self).urls(),
                original_url@,
                opt_view(custom_id),
                r,
            ),
            shorten_outcome(
                old(self).urls(),
                final(self).urls(),
                original_url@,
                opt_view(custom_id),
                old(self).config().short_url_length as nat,
                r,
            ),
            r is Ok ==> forall|i: int|
                0 <= i < r->Ok_0.short_id@.len() ==> #[trigger] is_alphanumeric_char(
                    r->Ok_0.short_id@[i],
                ),
            custom_id matches Some(id) && (exists|i: int|
                0 <= i < id@.len() && !#[trigger] is_alphanumeric_char(id@[i])) ==> r is Err,
    {
        if !validate_url(original_url) {
            return Err(AppError::InvalidUrl(invalid_url_message(original_url)));
        }
        let short_id = match custom_id {
            Some(id) => {
                if !validate_short_id(id.as_str()) {
                    return Err(
                        AppError::ValidationError(
                            String::from_str("Custom ID must contain only alphanumeric characters"),
                        ),
                    );
                }
                let taken = self.storage.url_exists(id.as_str());
                custom_id_outcome(id, taken)?
            },
            None => {
                let id = self.fresh_short_id()?;
                proof {
                    lemma_generated_id_is_valid(id@, id@.len());
                }
                id
            },
        };
        let url = self.storage.create_url(short_id.as_str(), original_url)?;
        Ok(UrlResponse { short_id: url.short_id.clone(), original_url: url.original_url.clone() })
    }

    /// Resolves a short id to its original URL, counting the visit.
    pub fn get_url(&mut self, short_id: &str) -> (r: Result<String, AppError>)
        requires
            old(self).wf(),
        ensures
            final(self).wf(),
            final(self).config() == old(self).config(),
            final(self).reliable() == old(self).reliable(),
            resolve_outcome(old(self).urls(), final(self).urls(), short_id@, r),
            storage_error_kind(r),
            old(self).reliable() ==> (r is Ok <==> (old(self).urls().contains_key(short_id@) && old(
                self,
            ).urls()[short_id@].visit_count < u32::MAX)),
            old(self).reliable() && !old(self).urls().contains_key(short_id@) ==> r matches Err(
                AppError::NotFound(_),
            ),
    {
        let url = self.storage.get_url(short_id)?;
        self.storage.increment_visit(short_id)?;
        Ok(url.original_url)
    }

    /// The stored record of a short id, with its statistics.
    pub fn get_url_stats(&self, short_id: &str) -> (r: Result<Url, AppError>)
        requires
            self.wf(),
        ensures
            lookup_outcome(self.urls(), short_id@, r),
            storage_error_kind(r),
            self.reliable() ==> (r is Ok <==> self.urls().contains_key(short_id@)),
            self.reliable() && !self.urls().contains_key(short_id@) ==> r matches Err(
                AppError::NotFound(_),
            ),
    {
        self.storage.get_url(short_id)
    }

    /// A page of the stored URLs, newest first.
    pub fn list_urls(&self, limit: usize, offset: usize) -> (r: Result<Vec<Url>, AppError>)
        requires
            self.wf(),
        ensures
            listing_outcome(self.urls(), limit as nat, offset as nat, r),
            storage_error_kind(r),
            self.reliable() ==> r is Ok,
    {
        self.storage.list_urls(limit, offset)
    }
}

} // verus!

verus! {

/// A shortening under a custom id succeeds only for an id whose every
/// character is alphanumeric, so that every ASCII character of it is a letter
/// or a digit; an id with any other character is refused.
pub proof fn lemma_shortened_custom_id_alphanumeric(
    before: UrlTable,
    after: UrlTable,
    url: Seq<char>,
    id: Seq<char>,
    len: nat,
    r: Result<UrlResponse, AppError>,
)
    requires
        shorten_outcome(before, after, url, Some(id), len, r),
    ensures
        r is Ok ==> r->Ok_0.short_id@ == id,
        r is Ok ==> forall|i: int| 0 <= i < id.len() ==> #[trigger] is_alphanumeric_char(id[i]),
        r is Ok ==> forall|i: int|
            0 <= i < id.len() && (id[i] as u32) < 128 ==> #[trigger] ascii_alphanumeric(id[i]),
        (is_valid_url(url) && exists|i: int| 0 <= i < id.len() && !#[trigger] is_alphanumeric_char(
            id[i],
        )) ==> (r matches Err(AppError::ValidationError(m)) && m@ == bad_custom_id_text()),
        (exists|i: int| 0 <= i < id.len() && !#[trigger] is_alphanumeric_char(id[i])) ==> after
            == before,
{
    if r is Ok {
        assert forall|i: int| 0 <= i < id.len() && (id[i] as u32) < 128 implies #[trigger] ascii_alphanumeric(id[i]) by {
            lemma_valid_id_ascii_chars(id, i);
        }
    }
}

/// A short id that shortening handed out resolves to the URL it was made for:
/// resolving it right after gives back that URL (or a backend failure, never
/// `NotFound`).
pub proof fn lemma_resolve_after_shorten(
    m0: UrlTable,
    m1: UrlTable,
    m2: UrlTable,
    url: Seq<char>,
    custom: Option<Seq<char>>,
    len: nat,
    resp: UrlResponse,
    resolved: Result<String, AppError>,
)
    requires
        shorten_outcome(m0, m1, url, custom, len, Ok::<UrlResponse, AppError>(resp)),
        resolve_outcome(m1, m2, resp.short_id@, resolved),
    ensures
        resolved matches Ok(s) ==> s@ == url,
        !(resolved matches Err(AppError::NotFound(_))),
{
}

/// Right after shortening, the statistics of the new short id show the URL,
/// no visit, and no last access.
pub proof fn lemma_stats_after_shorten(
    m0: UrlTable,
    m1: UrlTable,
    url: Seq<char>,
    custom: Option<Seq<char>>,
    len: nat,
    resp: UrlResponse,
    stats: Result<Url, AppError>,
)
    requires
        shorten_outcome(m0, m1, url, custom, len, Ok::<UrlResponse, AppError>(resp)),
        lookup_outcome(m1, resp.short_id@, stats),
    ensures
        stats matches Ok(u) ==> u@.short_id == resp.short_id@ && u@.original_url == url
            && u@.visit_count == 0 && u@.last_accessed is None,
        !(stats matches Err(AppError::NotFound(_))),
{
}

/// Each resolution counts one visit: the statistics after it show one visit
/// more than before, a last access, and the same URL and creation time.
pub proof fn lemma_resolve_counts_visit(
    m1: UrlTable,
    m2: UrlTable,
    id: Seq<char>,
    resolved: Result<String, AppError>,
    stats: Result<Url, AppError>,
)
    requires
        resolved is Ok,
        resolve_outcome(m1, m2, id, resolved),
        lookup_outcome(m2, id, stats),
    ensures
        stats matches Ok(u) ==> u@.visit_count == m1[id].visit_count + 1 && u@.original_url
            == m1[id].original_url && u@.created_at == m1[id].created_at && u@.last_accessed is Some,
        !(stats matches Err(AppError::NotFound(_))),
{
}

/// A custom id that is taken is refused, and the stored URLs stay as they were;
/// in particular the URL that holds that id keeps it.
pub proof fn lemma_taken_custom_id_refused(
    m0: UrlTable,
    m1: UrlTable,
    url: Seq<char>,
    id: Seq<char>,
    len: nat,
    r: Result<UrlResponse, AppError>,
)
    requires
        shorten_outcome(m0, m1, url, Some(id), len, r),
        m0.contains_key(id),
    ensures
        r is Err,
        m1 == m0,
        r matches Err(AppError::ValidationError(msg)) ==> (msg@ == id_in_use_text(id) || msg@
            == bad_custom_id_text()),
{
}

/// Shortening never takes over an id: a successful shortening adds one record
/// under a fresh id and leaves every other record as it was.
pub proof fn lemma_shorten_adds_one(
    m0: UrlTable,
    m1: UrlTable,
    url: Seq<char>,
    custom: Option<Seq<char>>,
    len: nat,
    resp: UrlResponse,
    other: Seq<char>,
)
    requires
        shorten_outcome(m0, m1, url, custom, len, Ok::<UrlResponse, AppError>(resp)),
        other != resp.short_id@,
    ensures
        !m0.contains_key(resp.short_id@),
        m1.contains_key(other) == m0.contains_key(other),
        m0.contains_key(other) ==> m1[other] == m0[other],
        m1.dom() == m0.dom().insert(resp.short_id@),
{
}

} // verus!

verus! {

/// `tables[i + 1]` is what the `i`-th of `answers.len()` successful
/// resolutions of `id` left, starting from `tables[0]`.
pub open spec fn resolved_in_turn(
    tables: Seq<UrlTable>,
    id: Seq<char>,
    answers: Seq<Result<String, AppError>>,
) -> bool {
    &&& tables.len() == answers.len() + 1
    &&& forall|i: int|
        0 <= i < answers.len() ==> (#[trigger] answers[i]) is Ok && resolve_outcome(
            tables[i],
            tables[i + 1],
            id,
            answers[i],
        )
}

proof fn lemma_visits_step(
    tables: Seq<UrlTable>,
    id: Seq<char>,
    url: Seq<char>,
    answers: Seq<Result<String, AppError>>,
    j: int,
)
    requires
        resolved_in_turn(tables, id, answers),
        tables[0].contains_key(id),
        is_new_record(tables[0][id], id, url),
        0 <= j <= answers.len(),
    ensures
        tables[j].contains_key(id),
        tables[j][id].short_id == id,
        tables[j][id].original_url == url,
        tables[j][id].visit_count == j,
        tables[j][id].last_accessed is Some <==> j > 0,
        forall|i: int| 0 <= i < j ==> (#[trigger] answers[i])->Ok_0@ == url,
    decreases j,
{
    if j > 0 {
        lemma_visits_step(tables, id, url, answers, j - 1);
        assert(answers[j - 1] is Ok);
    }
}

/// Click tracking: after a successful shortening and `k` successful
/// resolutions of the new id one after another, each resolution gave back the
/// URL, and the statistics show the URL, `k` visits, and a last access exactly
/// when `k > 0` (or a backend failure, never `NotFound`).
pub proof fn lemma_visits_after_resolutions(
    m0: UrlTable,
    tables: Seq<UrlTable>,
    url: Seq<char>,
    custom: Option<Seq<char>>,
    len: nat,
    resp: UrlResponse,
    answers: Seq<Result<String, AppError>>,
    stats: Result<Url, AppError>,
)
    requires
        tables.len() == answers.len() + 1,
        shorten_outcome(m0, tables[0], url, custom, len, Ok::<UrlResponse, AppError>(resp)),
        resolved_in_turn(tables, resp.short_id@, answers),
        lookup_outcome(tables[answers.len() as int], resp.short_id@, stats),
    ensures
        forall|i: int| 0 <= i < answers.len() ==> (#[trigger] answers[i])->Ok_0@ == url,
        stats matches Ok(s) ==> s@.short_id == resp.short_id@ && s@.original_url == url
            && s@.visit_count == answers.len() && (s@.last_accessed is Some <==> answers.len() > 0),
        !(stats matches Err(AppError::NotFound(_))),
{
    lemma_visits_step(tables, resp.short_id@, url, answers, answers.len() as int);
}

} // verus!
