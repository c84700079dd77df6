use std::str::FromStr;

use rust_url_shortener::config::Config;
use rust_url_shortener::decimal::{parse_unsigned, ParseIntErrorKind};
use rust_url_shortener::errors::AppError;
use rust_url_shortener::models::UnixNanos;
use rust_url_shortener::routes::ListUrlsQuery;
use rust_url_shortener::storage::StorageType;
use rust_url_shortener::utils::{generate_short_id, validate_short_id, validate_url};

#[test]
fn url_validation() {
    assert!(validate_url("https://example.com"));
    assert!(validate_url("http://example.com"));
    assert!(validate_url("http://"));
    assert!(!validate_url("ftp://example.com"));
    assert!(!validate_url(""));
    assert!(!validate_url("https:/example.com"));
    assert!(!validate_url("HTTP://example.com"));
    assert!(!validate_url(" https://example.com"));
}

#[test]
fn short_id_validation() {
    assert!(validate_short_id("abc123"));
    assert!(validate_short_id("ABCxyz"));
    assert!(validate_short_id(""));
    assert!(validate_short_id("\u{e9}t\u{e9}"));
    assert!(!validate_short_id("a-b"));
    assert!(!validate_short_id("a b"));
    assert!(!validate_short_id("a_b"));
    assert!(!validate_short_id("a/b"));
}

#[test]
fn short_id_generation() {
    let id = generate_short_id(6);
    assert_eq!(id.len(), 6);
    assert!(id.chars().all(|c| c.is_ascii_alphanumeric()));
    assert_eq!(generate_short_id(0), "");
    let long = generate_short_id(64);
    assert_eq!(long.len(), 64);
    assert!(long.chars().all(|c| c.is_ascii_alphanumeric()));
    assert!(validate_short_id(&long));
}

#[test]
fn time_text_round_trip() {
    for n in [0u128, 7, 10, 1700000000000000000, u128::MAX] {
        let t = UnixNanos(n);
        let text = t.to_string();
        assert_eq!(text, n.to_string());
        assert_eq!(UnixNanos::from_str(&text).unwrap(), t);
    }
}

#[test]
fn time_parse_errors() {
    assert_eq!(UnixNanos::from_str("+15").unwrap(), UnixNanos(15));
    assert_eq!(UnixNanos::from_str("007").unwrap(), UnixNanos(7));
    let msg = |s: &str| match UnixNanos::from_str(s) {
        Err(AppError::InvalidInput(m)) => m,
        other => panic!("unexpected: {:?}", other),
    };
    assert_eq!(msg(""), "cannot parse integer from empty string");
    assert_eq!(msg("+"), "invalid digit found in string");
    assert_eq!(msg("-"), "invalid digit found in string");
    assert_eq!(msg("-1"), "invalid digit found in string");
    assert_eq!(msg("12a"), "invalid digit found in string");
    assert_eq!(
        msg("340282366920938463463374607431768211456"),
        "number too large to fit in target type"
    );
    assert_eq!(
        msg("999999999999999999999999999999999999999999x"),
        "number too large to fit in target type"
    );
}

#[test]
fn decimal_parse_matches_std() {
    for s in ["", "+", "-", "0", "+0", "65535", "65536", "+65535", "1x", "x1", "00001", "-0"] {
        let ours = parse_unsigned(s, u16::MAX as u128);
        let std = s.parse::<u16>();
        match (ours, std) {
            (Ok(a), Ok(b)) => assert_eq!(a, b as u128),
            (Err(k), Err(e)) => {
                let expected = match e.kind() {
                    std::num::IntErrorKind::Empty => ParseIntErrorKind::Empty,
                    std::num::IntErrorKind::InvalidDigit => ParseIntErrorKind::InvalidDigit,
                    std::num::IntErrorKind::PosOverflow => ParseIntErrorKind::PosOverflow,
                    other => panic!("unexpected kind {:?}", other),
                };
                assert_eq!(k, expected);
                assert_eq!(k.message(), e.to_string());
            }
            (a, b) => panic!("mismatch on {:?}: {:?} vs {:?}", s, a, b),
        }
    }
}

#[test]
fn time_conversions_and_order() {
    let t: UnixNanos = UnixNanos::from(42u128);
    assert_eq!(t, UnixNanos(42));
    let n: u128 = u128::from(UnixNanos(9));
    assert_eq!(n, 9);
    assert!(UnixNanos(1) < UnixNanos(2));
    assert!(UnixNanos(10) > UnixNanos(9));
    assert_eq!(UnixNanos(3).cmp(&UnixNanos(3)), std::cmp::Ordering::Equal);
    assert_eq!(UnixNanos(5).clone(), UnixNanos(5));
}

#[test]
fn error_texts_and_answers() {
    let e = AppError::NotFound("URL with ID x not found".to_string());
    assert_eq!(e.to_string(), "URL not found: URL with ID x not found");
    assert_eq!(e.status_code(), 404);
    let r = e.into_error_response();
    assert_eq!(r.status, 404);
    assert_eq!(r.error, "URL with ID x not found");

    let e = AppError::DatabaseError("disk full".to_string());
    assert_eq!(e.to_string(), "Database error: disk full");
    let r = e.into_error_response();
    assert_eq!(r.status, 500);
    assert_eq!(r.error, "Database error: disk full");

    let cases = [
        (AppError::InvalidUrl("u".to_string()), 400, "Invalid URL: u"),
        (AppError::InternalError("i".to_string()), 500, "Internal server error: i"),
        (AppError::ValidationError("v".to_string()), 400, "Validation error: v"),
        (AppError::InvalidInput("n".to_string()), 400, "Invalid input: n"),
    ];
    for (e, status, text) in cases {
        assert_eq!(e.status_code(), status);
        assert_eq!(e.to_string(), text);
        let r = e.into_error_response();
        assert_eq!(r.status, status);
        assert_eq!(r.error.len(), 1);
    }
}

#[test]
fn config_defaults() {
    let c = Config::from_settings(None, None, None, None, None);
    assert_eq!(c.database_url, "sqlite:url_shortener.db");
    assert_eq!(c.server_host, "127.0.0.1");
    assert_eq!(c.server_port, 8081);
    assert_eq!(c.short_url_length, 6);
    assert!(!c.enable_metrics);
    assert!(matches!(c.storage_type, StorageType::Sqlite));
}

#[test]
fn config_from_values() {
    let c = Config::from_settings(
        Some("sqlite:other.db".to_string()),
        Some("0.0.0.0".to_string()),
        Some("+9000".to_string()),
        Some("10".to_string()),
        Some("TRUE".to_string()),
    );
    assert_eq!(c.database_url, "sqlite:other.db");
    assert_eq!(c.server_host, "0.0.0.0");
    assert_eq!(c.server_port, 9000);
    assert_eq!(c.short_url_length, 10);
    assert!(c.enable_metrics);

    let c = Config::from_settings(
        None,
        None,
        Some("70000".to_string()),
        Some("six".to_string()),
        Some("yes".to_string()),
    );
    assert_eq!(c.server_port, 8081);
    assert_eq!(c.short_url_length, 6);
    assert!(!c.enable_metrics);

    let c = Config::from_settings(None, None, Some("".to_string()), None, Some("True".to_string()));
    assert_eq!(c.server_port, 8081);
    assert!(c.enable_metrics);
}

#[test]
fn listing_query_defaults() {
    let q = ListUrlsQuery { limit: None, offset: None };
    assert_eq!(q.page(), (10, 0));
    let q = ListUrlsQuery { limit: Some(3), offset: Some(6) };
    assert_eq!(q.page(), (3, 6));
}
