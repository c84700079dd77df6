//! Points in time, counted in nanoseconds since the Unix epoch.
use core::cmp::Ordering;
use std::str::FromStr;
use vstd::prelude::*;
use vstd::std_specs::cmp::PartialOrdSpecImpl;
use vstd::std_specs::convert::FromSpecImpl;

use crate::decimal::{decimal, format_unsigned, parse_error_text, parse_unsigned, parse_unsigned_spec};
use crate::errors::AppError;

verus! {

/// Nanoseconds since the Unix epoch. Ordered by the count.
#[derive(Debug, PartialEq, Eq, Structural, Ord)]
pub struct UnixNanos(pub u128);

impl Clone for UnixNanos {
    fn clone(&self) -> (r: Self)
        ensures
            r == *self,
    {
        UnixNanos(self.0)
    }
}

/// How two times compare: by their counts.
pub open spec fn compare_times(a: UnixNanos, b: UnixNanos) -> Ordering {
    if a.0 < b.0 {
        Ordering::Less
    } else if a.0 == b.0 {
        Ordering::Equal
    } else {
        Ordering::Greater
    }
}

impl PartialOrd for UnixNanos {
    fn partial_cmp(&self, other: &Self) -> (r: Option<Ordering>)
        ensures
            r == Some(compare_times(*self, *other)),
    {
        if self.0 < other.0 {
            Some(Ordering::Less)
        } else if self.0 == other.0 {
            Some(Ordering::Equal)
        } else {
            Some(Ordering::Greater)
        }
    }
}

impl PartialOrdSpecImpl for UnixNanos {
    open spec fn obeys_partial_cmp_spec() -> bool {
        true
    }

    open spec fn partial_cmp_spec(&self, other: &Self) -> Option<Ordering> {
        Some(compare_times(*self, *other))
    }
}

/// What reading `s` as a time gives: the count that `s` is the decimal text of,
/// or the message of the parse error.
pub open spec fn parses_to(s: Seq<char>, r: Result<UnixNanos, AppError>) -> bool {
    match parse_unsigned_spec(s, u128::MAX as int) {
        Ok(v) => r == Ok::<UnixNanos, AppError>(UnixNanos(v as u128)),
        Err(kind) => match r {
            Err(AppError::InvalidInput(m)) => m@ == parse_error_text(kind),
            _ => false,
        },
    }
}

impl UnixNanos {
    /// The decimal text of the count, as it is displayed and stored.
    pub fn to_string(&self) -> (s: String)
        ensures
            s@ == decimal(self.0 as nat),
    {
        format_unsigned(self.0)
    }

    /// Read a time from the decimal text of its count.
    pub fn parse(s: &str) -> (r: Result<UnixNanos, AppError>)
        ensures
            parses_to(s@, r),
    {
        match parse_unsigned(s, u128::MAX) {
            Ok(v) => Ok(UnixNanos(v)),
            Err(kind) => Err(AppError::InvalidInput(kind.message())),
        }
    }
}

impl FromStr for UnixNanos {
    type Err = AppError;

    fn from_str(s: &str) -> (r: Result<Self, Self::Err>)
        ensures
            parses_to(s@, r),
    {
        UnixNanos::parse(s)
    }
}

impl From<u128> for UnixNanos {
    fn from(nanos: u128) -> (r: Self)
        ensures
            r == UnixNanos(nanos),
    {
        UnixNanos(nanos)
    }
}

impl FromSpecImpl<u128> for UnixNanos {
    open spec fn obeys_from_spec() -> bool {
        true
    }

    open spec fn from_spec(v: u128) -> UnixNanos {
        UnixNanos(v)
    }
}

impl From<UnixNanos> for u128 {
    fn from(nanos: UnixNanos) -> (r: Self)
        ensures
            r == nanos.0,
    {
        nanos.0
    }
}

impl FromSpecImpl<UnixNanos> for u128 {
    open spec fn obeys_from_spec() -> bool {
        true
    }

    open spec fn from_spec(v: UnixNanos) -> u128 {
        v.0
    }
}

/// The stored text of a time reads back as that same time.
pub proof fn lemma_time_text_round_trip(t: UnixNanos)
    ensures
        parses_to(decimal(t.0 as nat), Ok::<UnixNanos, AppError>(t)),
{
    crate::decimal::lemma_parse_decimal(t.0 as nat, u128::MAX as int);
}

} // verus!
