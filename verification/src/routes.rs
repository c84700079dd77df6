//! What the HTTP layer decides on its own: the default page of a listing.
use vstd::prelude::*;

verus! {

/// Query parameters for listing URLs
#[derive(Debug)]
pub struct ListUrlsQuery {
    pub limit: Option<usize>,
    pub offset: Option<usize>,
}

impl ListUrlsQuery {
    /// The page that the query asks for, as `(limit, offset)`: ten URLs from
    /// the newest unless the query says otherwise.
    pub fn page(&self) -> (r: (usize, usize))
        ensures
            r.0 == match self.limit {
                Some(l) => l,
                None => 10,
            },
            r.1 == match self.offset {
                Some(o) => o,
                None => 0,
            },
    {
        let limit = match self.limit {
            Some(l) => l,
            None => 10,
        };
        let offset = match self.offset {
            Some(o) => o,
            None => 0,
        };
        (limit, offset)
    }
}

} // verus!
