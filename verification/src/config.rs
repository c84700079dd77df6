//! The service's settings, and how they are read from the values of the
//! environment.
use vstd::prelude::*;
use vstd::string::*;

use crate::decimal::{decimal, lemma_parse_decimal, parse_unsigned, parse_unsigned_spec};
use crate::storage::StorageType;

verus! {

#[derive(Debug, Clone)]
pub struct Config {
    pub storage_type: StorageType,
    pub database_url: String,
    pub server_host: String,
    pub server_port: u16,
    pub short_url_length: usize,
    pub enable_metrics: bool,
}

/// What `str::to_lowercase` returns for `s`: its Unicode lowercase mapping.
pub uninterp spec fn unicode_lowercase(s: Seq<char>) -> Seq<char>;

/// Every character of `s` is ASCII.
pub open spec fn all_ascii(s: Seq<char>) -> bool {
    forall|i: int| 0 <= i < s.len() ==> (#[trigger] s[i] as u32) < 128
}

/// The lowercase of an ASCII character: `A`-`Z` become `a`-`z`, the others stay.
pub open spec fn ascii_lower(c: char) -> char {
    if 'A' <= c && c <= 'Z' {
        ((c as u32) + 32) as char
    } else {
        c
    }
}

/// The lowercase of `s`: on ASCII text the ASCII mapping, else the Unicode one.
pub open spec fn lowercase(s: Seq<char>) -> Seq<char> {
    if all_ascii(s) {
        s.map_values(|c: char| ascii_lower(c))
    } else {
        unicode_lowercase(s)
    }
}

/// `str::to_lowercase`. Its result is named `unicode_lowercase`; the contract
/// adds, from the Unicode case mapping that defines it, that on ASCII text it
/// maps `A`-`Z` to `a`-`z` and keeps every other character. The Unicode case
/// tables beyond ASCII are not stated.
#[verifier::external_body]
fn to_lowercase(s: &str) -> (r: String)
    ensures
        r@ == unicode_lowercase(s@),
        all_ascii(s@) ==> r@ == s@.map_values(|c: char| ascii_lower(c)),
{
    s.to_lowercase()
}

/// The text of a setting, or `default` where it is not set.
pub open spec fn text_or(value: Option<String>, default: Seq<char>) -> Seq<char> {
    match value {
        Some(s) => s@,
        None => default,
    }
}

/// A numeric setting: the number that its text (or `default_text` where it is
/// not set) parses to, and `default` where that text is no number in range.
pub open spec fn number_or(value: Option<String>, default_text: Seq<char>, default: int, max: int) -> int {
    match parse_unsigned_spec(text_or(value, default_text), max) {
        Ok(n) => n,
        Err(_) => default,
    }
}

/// A switch is on when it is set to `true`, in any case.
pub open spec fn switch_on(value: Option<String>) -> bool {
    match value {
        Some(s) => lowercase(s@) == "true"@,
        None => false,
    }
}

/// The settings that the values `database_url`, `server_host`, `server_port`,
/// `short_url_length` and `enable_metrics` give (each `None` where it is not set).
pub open spec fn settings_from(
    c: Config,
    database_url: Option<String>,
    server_host: Option<String>,
    server_port: Option<String>,
    short_url_length: Option<String>,
    enable_metrics: Option<String>,
) -> bool {
    &&& c.storage_type == StorageType::Sqlite
    &&& c.database_url@ == text_or(database_url, "sqlite:url_shortener.db"@)
    &&& c.server_host@ == text_or(server_host, "127.0.0.1"@)
    &&& c.server_port == number_or(server_port, "8081"@, 8081, u16::MAX as int)
    &&& c.short_url_length == number_or(short_url_length, "6"@, 6, usize::MAX as int)
    &&& c.enable_metrics == switch_on(enable_metrics)
}

/// With nothing set, the service stores in `sqlite:url_shortener.db`, listens
/// on `127.0.0.1:8081`, draws short ids of 6 characters, and keeps metrics off.
pub proof fn lemma_default_settings(c: Config)
    requires
        settings_from(c, None, None, None, None, None),
    ensures
        c.database_url@ == "sqlite:url_shortener.db"@,
        c.server_host@ == "127.0.0.1"@,
        c.server_port == 8081,
        c.short_url_length == 6,
        !c.enable_metrics,
{
    reveal_strlit("8081");
    reveal_strlit("6");
    assert(decimal(8081) =~= "8081"@) by {
        reveal_with_fuel(decimal, 5);
    }
    assert(decimal(6) =~= "6"@);
    lemma_parse_decimal(8081, u16::MAX as int);
    lemma_parse_decimal(6, usize::MAX as int);
}

fn text_setting(value: Option<String>, default: &str) -> (s: String)
    ensures
        s@ == text_or(value, default@),
{
    match value {
        Some(s) => s,
        None => String::from_str(default),
    }
}

fn number_setting(value: &Option<String>, default_text: &str, default: u128, max: u128) -> (n: u128)
    requires
        default <= max,
    ensures
        n == number_or(*value, default_text@, default as int, max as int),
        n <= max,
{
    let r = match value {
        Some(s) => parse_unsigned(s.as_str(), max),
        None => parse_unsigned(default_text, max),
    };
    match r {
        Ok(n) => {
            proof {
                crate::decimal::lemma_parse_bounded(text_or(*value, default_text@), max as int);
            }
            n
        },
        Err(_) => default,
    }
}

impl Config {
    /// The settings given by the values of `DATABASE_URL`, `SERVER_HOST`,
    /// `SERVER_PORT`, `SHORT_URL_LENGTH` and `ENABLE_METRICS`, `None` for
    /// each that is not set. The storage is SQLite.
    pub fn from_settings(
        database_url: Option<String>,
        server_host: Option<String>,
        server_port: Option<String>,
        short_url_length: Option<String>,
        enable_metrics: Option<String>,
    ) -> (c: Config)
        ensures
            settings_from(c, database_url, server_host, server_port, short_url_length, enable_metrics),
    {
        let port = number_setting(&server_port, "8081", 8081, 65535);
        let length = number_setting(&short_url_length, "6", 6, usize::MAX as u128);
        let metrics = match &enable_metrics {
            Some(v) => to_lowercase(v.as_str()) == String::from_str("true"),
            None => false,
        };
        Config {
            storage_type: StorageType::Sqlite,
            database_url: text_setting(database_url, "sqlite:url_shortener.db"),
            server_host: text_setting(server_host, "127.0.0.1"),
            server_port: port as u16,
            short_url_length: length as usize,
            enable_metrics: metrics,
        }
    }
}

} // verus!
