use rust_url_shortener::errors::AppError;
use rust_url_shortener::models::UnixNanos;
use rust_url_shortener::storage::sqlite::{
    database_file_path, exists_from_count, lookup_error, url_from_row, urls_from_rows,
    visit_result, visit_time_text, UrlRow,
};
use rust_url_shortener::storage::{MemoryStorage, Storage};

#[test]
fn memory_create_then_get() {
    let mut s = MemoryStorage::new();
    let created = s.create_url("abc", "https://example.com").unwrap();
    assert_eq!(created.short_id, "abc");
    assert_eq!(created.original_url, "https://example.com");
    assert_eq!(created.visit_count, 0);
    assert!(created.last_accessed.is_none());
    assert!(created.created_at.0 > 0);
    let got = s.get_url("abc").unwrap();
    assert_eq!(got.original_url, "https://example.com");
    assert_eq!(got.created_at, created.created_at);
    assert!(s.url_exists("abc").unwrap());
    assert!(!s.url_exists("abd").unwrap());
}

#[test]
fn memory_duplicate_create_fails() {
    let mut s = MemoryStorage::new();
    s.create_url_at("x", "https://one.example", UnixNanos(1))
        .unwrap();
    match s.create_url_at("x", "https://two.example", UnixNanos(2)) {
        Err(AppError::DatabaseError(m)) => assert_eq!(m, "UNIQUE constraint failed: urls.short_id"),
        other => panic!("unexpected: {:?}", other),
    }
    assert_eq!(s.get_url("x").unwrap().original_url, "https://one.example");
}

#[test]
fn memory_increment_visit() {
    let mut s = MemoryStorage::new();
    s.create_url_at("v", "https://v.example", UnixNanos(5))
        .unwrap();
    s.increment_visit_at("v", UnixNanos(7)).unwrap();
    s.increment_visit_at("v", UnixNanos(9)).unwrap();
    let u = s.get_url("v").unwrap();
    assert_eq!(u.visit_count, 2);
    assert_eq!(u.last_accessed, Some(UnixNanos(9)));
    assert_eq!(u.created_at, UnixNanos(5));
    match s.increment_visit("w") {
        Err(AppError::NotFound(m)) => assert_eq!(m, "URL with ID w not found"),
        other => panic!("unexpected: {:?}", other),
    }
    s.increment_visit("v").unwrap();
    assert_eq!(s.get_url("v").unwrap().visit_count, 3);
}

#[test]
fn memory_listing_ties_newest_insert_first() {
    let mut s = MemoryStorage::new();
    s.create_url_at("first", "https://1.example", UnixNanos(3))
        .unwrap();
    s.create_url_at("second", "https://2.example", UnixNanos(3))
        .unwrap();
    s.create_url_at("old", "https://0.example", UnixNanos(1))
        .unwrap();
    let ids: Vec<String> = s
        .list_urls(10, 0)
        .unwrap()
        .into_iter()
        .map(|u| u.short_id)
        .collect();
    assert_eq!(ids, vec!["second", "first", "old"]);
}

#[test]
fn sqlite_file_path_strips_prefix() {
    assert_eq!(
        database_file_path("sqlite:url_shortener.db"),
        Some("url_shortener.db".to_string())
    );
    assert_eq!(
        database_file_path("sqlite:sqlite:x.db"),
        Some("x.db".to_string())
    );
    assert_eq!(database_file_path("sqlite:"), Some(String::new()));
    assert_eq!(database_file_path(":memory:"), None);
    assert_eq!(database_file_path("postgres://localhost"), None);
}

#[test]
fn row_to_url() {
    let u = url_from_row(
        "id".to_string(),
        "https://e.example".to_string(),
        4,
        "1700000000000000000",
        Some("1700000000000000001".to_string()),
    )
    .unwrap();
    assert_eq!(u.short_id, "id");
    assert_eq!(u.visit_count, 4);
    assert_eq!(u.created_at, UnixNanos(1700000000000000000));
    assert_eq!(u.last_accessed, Some(UnixNanos(1700000000000000001)));
    let u = url_from_row("id".to_string(), "u".to_string(), 0, "12", None).unwrap();
    assert_eq!(u.last_accessed, None);
    match url_from_row("id".to_string(), "u".to_string(), 0, "x12", None) {
        Err(AppError::InternalError(m)) => assert_eq!(m, "Invalid timestamp format"),
        other => panic!("unexpected: {:?}", other),
    }
    match url_from_row("id".to_string(), "u".to_string(), 0, "12", Some(String::new())) {
        Err(AppError::InternalError(m)) => assert_eq!(m, "Invalid timestamp format"),
        other => panic!("unexpected: {:?}", other),
    }
}

#[test]
fn database_answers() {
    assert!(visit_result(1, true, "a").is_ok());
    match visit_result(0, false, "a") {
        Err(AppError::NotFound(m)) => assert_eq!(m, "URL with ID a not found"),
        other => panic!("unexpected: {:?}", other),
    }
    match visit_result(0, true, "a") {
        Err(AppError::InternalError(m)) => assert_eq!(m, "visit count overflow"),
        other => panic!("unexpected: {:?}", other),
    }
    match lookup_error(true, "no rows".to_string(), "q") {
        AppError::NotFound(m) => assert_eq!(m, "URL with ID q not found"),
        other => panic!("unexpected: {:?}", other),
    }
    match lookup_error(false, "disk I/O error".to_string(), "q") {
        AppError::DatabaseError(m) => assert_eq!(m, "disk I/O error"),
        other => panic!("unexpected: {:?}", other),
    }
    assert!(exists_from_count(1));
    assert!(exists_from_count(7));
    assert!(!exists_from_count(0));
    assert!(!exists_from_count(-1));
    assert_eq!(visit_time_text(42), "42");
    assert_eq!(visit_time_text((1u128 << 64) + 5), "5");
}

fn row(id: &str, created: &str, last: Option<&str>) -> UrlRow {
    UrlRow {
        short_id: id.to_string(),
        original_url: format!("https://{}.example", id),
        visit_count: 1,
        created_at: created.to_string(),
        last_accessed: last.map(|s| s.to_string()),
    }
}

#[test]
fn rows_to_urls() {
    let urls = urls_from_rows(vec![row("a", "30", Some("31")), row("b", "20", None)]).unwrap();
    assert_eq!(urls.len(), 2);
    assert_eq!(urls[0].short_id, "a");
    assert_eq!(urls[0].created_at, UnixNanos(30));
    assert_eq!(urls[0].last_accessed, Some(UnixNanos(31)));
    assert_eq!(urls[1].original_url, "https://b.example");
    assert_eq!(urls[1].last_accessed, None);
    assert_eq!(urls_from_rows(Vec::new()).unwrap().len(), 0);
    match urls_from_rows(vec![row("a", "30", None), row("b", "2x", None)]) {
        Err(AppError::InternalError(m)) => assert_eq!(m, "Invalid timestamp format"),
        other => panic!("unexpected: {:?}", other),
    }
}
