//! The record of a shortened URL, and the request and answer of shortening.
use vstd::prelude::*;
use vstd::string::*;

use crate::models::time::UnixNanos;

verus! {

/// URL metadata including original URL and usage statistics
#[derive(Debug)]
pub struct Url {
    pub short_id: String,
    pub original_url: String,
    pub visit_count: u32,
    pub created_at: UnixNanos,
    pub last_accessed: Option<UnixNanos>,
}

/// The contents of a `Url`, times by their counts.
pub struct UrlView {
    pub short_id: Seq<char>,
    pub original_url: Seq<char>,
    pub visit_count: u32,
    pub created_at: u128,
    pub last_accessed: Option<u128>,
}

impl View for Url {
    type V = UrlView;

    open spec fn view(&self) -> UrlView {
        UrlView {
            short_id: self.short_id@,
            original_url: self.original_url@,
            visit_count: self.visit_count,
            created_at: self.created_at.0,
            last_accessed: match self.last_accessed {
                Some(t) => Some(t.0),
                None => None,
            },
        }
    }
}

impl Url {
    /// The record of a short id just created for `original_url` at `created_at`:
    /// never visited.
    pub fn created(short_id: &str, original_url: &str, created_at: UnixNanos) -> (u: Url)
        ensures
            u@.short_id == short_id@,
            u@.original_url == original_url@,
            u.visit_count == 0,
            u.created_at == created_at,
            u.last_accessed is None,
    {
        Url {
            short_id: String::from_str(short_id),
            original_url: String::from_str(original_url),
            visit_count: 0,
            created_at,
            last_accessed: None,
        }
    }
}

impl Clone for Url {
    fn clone(&self) -> (r: Self)
        ensures
            r == *self,
    {
        Url {
            short_id: self.short_id.clone(),
            original_url: self.original_url.clone(),
            visit_count: self.visit_count,
            created_at: self.created_at.clone(),
            last_accessed: match &self.last_accessed {
                Some(t) => Some(t.clone()),
                None => None,
            },
        }
    }
}

/// Request payload for creating a shortened URL
#[derive(Debug)]
pub struct CreateUrlRequest {
    pub url: String,
    /// Optional custom alias
    pub custom_id: Option<String>,
}

/// Response payload for a shortened URL
#[derive(Debug)]
pub struct UrlResponse {
    pub short_id: String,
    pub original_url: String,
}

} // verus!
