use rust_url_shortener::config::Config;
use rust_url_shortener::errors::AppError;
use rust_url_shortener::models::UnixNanos;
use rust_url_shortener::services::url_service::{custom_id_outcome, draw_outcome, MAX_ATTEMPTS};
use rust_url_shortener::services::UrlService;
use rust_url_shortener::storage::{MemoryStorage, Storage, StorageType};

fn test_config() -> Config {
    Config {
        database_url: "memory".to_string(),
        server_host: "localhost".to_string(),
        server_port: 8080,
        short_url_length: 6,
        storage_type: StorageType::Sqlite,
        enable_metrics: false,
    }
}

#[test]
fn test_shorten_url() {
    // Setup
    let config = Config {
        database_url: "memory".to_string(),
        server_host: "localhost".to_string(),
        server_port: 8080,
        short_url_length: 6,
        storage_type: StorageType::Sqlite,
        enable_metrics: false,
    };

    let storage = MemoryStorage::new();
    let mut service = UrlService::new(storage, config);

    // Test
    let url = "https://example.com";
    let result = service.shorten_url(url, None).unwrap();

    // Verify
    assert_eq!(result.original_url, url);
    assert_eq!(result.short_id.len(), 6);
}

#[test]
fn test_get_url() {
    // Setup
    let config = Config {
        database_url: "memory".to_string(),
        server_host: "localhost".to_string(),
        server_port: 8080,
        short_url_length: 6,
        storage_type: StorageType::Sqlite,
        enable_metrics: false,
    };

    let mut storage_mock = MemoryStorage::new();

    // Create a URL first
    let short_id = "testid";
    let original_url = "https://example.com";
    storage_mock.create_url(short_id, original_url).unwrap();

    // Create the service
    let mut service = UrlService::new(storage_mock, config);

    // Test
    let result = service.get_url(short_id).unwrap();

    // Verify
    assert_eq!(result, original_url);
}

#[test]
fn test_custom_short_id() {
    // Setup
    let config = Config {
        database_url: "memory".to_string(),
        server_host: "localhost".to_string(),
        server_port: 8080,
        short_url_length: 6,
        storage_type: StorageType::Sqlite,
        enable_metrics: false,
    };

    let storage = MemoryStorage::new();
    let mut service = UrlService::new(storage, config);

    // Test
    let url = "https://rust-lang.org";
    let custom_id = "rustlang";
    let result = service.shorten_url(url, Some(custom_id.to_string())).unwrap();

    // Verify
    assert_eq!(result.original_url, url);
    assert_eq!(result.short_id, custom_id);
}

#[test]
fn generated_short_id_is_alphanumeric_and_fresh() {
    let mut service = UrlService::new(MemoryStorage::new(), test_config());
    let first = service.shorten_url("http://example.com/a", None).unwrap();
    let second = service.shorten_url("http://example.com/b", None).unwrap();
    assert_eq!(first.short_id.chars().count(), 6);
    assert!(first.short_id.chars().all(|c| c.is_ascii_alphanumeric()));
    assert_ne!(first.short_id, second.short_id);
    assert_eq!(service.get_url(&first.short_id).unwrap(), "http://example.com/a");
    assert_eq!(service.get_url(&second.short_id).unwrap(), "http://example.com/b");
}

#[test]
fn generated_short_id_uses_configured_length() {
    let mut config = test_config();
    config.short_url_length = 11;
    let mut service = UrlService::new(MemoryStorage::new(), config);
    let r = service.shorten_url("https://example.com", None).unwrap();
    assert_eq!(r.short_id.len(), 11);
}

#[test]
fn invalid_url_is_refused() {
    let mut service = UrlService::new(MemoryStorage::new(), test_config());
    match service.shorten_url("ftp://example.com", None) {
        Err(AppError::InvalidUrl(m)) => assert_eq!(
            m,
            "Invalid URL: ftp://example.com. URL must start with http:// or https://"
        ),
        other => panic!("unexpected: {:?}", other),
    }
    assert_eq!(service.list_urls(10, 0).unwrap().len(), 0);
}

#[test]
fn invalid_url_checked_before_custom_id() {
    let mut service = UrlService::new(MemoryStorage::new(), test_config());
    let r = service.shorten_url("example.com", Some("bad id!".to_string()));
    assert!(matches!(r, Err(AppError::InvalidUrl(_))));
}

#[test]
fn non_alphanumeric_custom_id_is_refused() {
    let mut service = UrlService::new(MemoryStorage::new(), test_config());
    match service.shorten_url("https://example.com", Some("my-id".to_string())) {
        Err(AppError::ValidationError(m)) => {
            assert_eq!(m, "Custom ID must contain only alphanumeric characters")
        }
        other => panic!("unexpected: {:?}", other),
    }
}

#[test]
fn taken_custom_id_is_refused_and_kept() {
    let mut service = UrlService::new(MemoryStorage::new(), test_config());
    service
        .shorten_url("https://first.example", Some("abc".to_string()))
        .unwrap();
    match service.shorten_url("https://second.example", Some("abc".to_string())) {
        Err(AppError::ValidationError(m)) => assert_eq!(m, "Short ID 'abc' is already in use"),
        other => panic!("unexpected: {:?}", other),
    }
    assert_eq!(service.get_url("abc").unwrap(), "https://first.example");
    assert_eq!(service.list_urls(10, 0).unwrap().len(), 1);
}

#[test]
fn unicode_alphanumeric_custom_id_is_accepted() {
    let mut service = UrlService::new(MemoryStorage::new(), test_config());
    let r = service
        .shorten_url("https://example.com", Some("caf\u{e9}7".to_string()))
        .unwrap();
    assert_eq!(r.short_id, "caf\u{e9}7");
}

#[test]
fn resolving_counts_visits() {
    let mut service = UrlService::new(MemoryStorage::new(), test_config());
    service
        .shorten_url("https://example.com", Some("visits".to_string()))
        .unwrap();
    let stats = service.get_url_stats("visits").unwrap();
    assert_eq!(stats.visit_count, 0);
    assert!(stats.last_accessed.is_none());
    service.get_url("visits").unwrap();
    service.get_url("visits").unwrap();
    let stats = service.get_url_stats("visits").unwrap();
    assert_eq!(stats.visit_count, 2);
    assert_eq!(stats.original_url, "https://example.com");
    assert!(stats.last_accessed.is_some());
}

#[test]
fn unknown_short_id_is_not_found() {
    let mut service = UrlService::new(MemoryStorage::new(), test_config());
    match service.get_url("nothere") {
        Err(AppError::NotFound(m)) => assert_eq!(m, "URL with ID nothere not found"),
        other => panic!("unexpected: {:?}", other),
    }
    assert!(matches!(
        service.get_url_stats("nothere"),
        Err(AppError::NotFound(_))
    ));
}

#[test]
fn list_urls_newest_first_with_pages() {
    let mut storage = MemoryStorage::new();
    storage
        .create_url_at("a", "https://a.example", UnixNanos(10))
        .unwrap();
    storage
        .create_url_at("c", "https://c.example", UnixNanos(30))
        .unwrap();
    storage
        .create_url_at("b", "https://b.example", UnixNanos(20))
        .unwrap();
    let service = UrlService::new(storage, test_config());
    let all: Vec<String> = service
        .list_urls(10, 0)
        .unwrap()
        .into_iter()
        .map(|u| u.short_id)
        .collect();
    assert_eq!(all, vec!["c", "b", "a"]);
    let page: Vec<String> = service
        .list_urls(1, 1)
        .unwrap()
        .into_iter()
        .map(|u| u.short_id)
        .collect();
    assert_eq!(page, vec!["b"]);
    assert_eq!(service.list_urls(5, 2).unwrap().len(), 1);
    assert_eq!(service.list_urls(5, 3).unwrap().len(), 0);
    assert_eq!(service.list_urls(0, 0).unwrap().len(), 0);
    assert_eq!(service.list_urls(usize::MAX, usize::MAX).unwrap().len(), 0);
    assert_eq!(service.list_urls(usize::MAX, 1).unwrap().len(), 2);
}

#[test]
fn custom_id_decision() {
    assert_eq!(custom_id_outcome("abc".to_string(), Ok(false)).unwrap(), "abc");
    match custom_id_outcome("abc".to_string(), Ok(true)) {
        Err(AppError::ValidationError(m)) => assert_eq!(m, "Short ID 'abc' is already in use"),
        other => panic!("unexpected: {:?}", other),
    }
    match custom_id_outcome("abc".to_string(), Err(AppError::DatabaseError("down".to_string()))) {
        Err(AppError::DatabaseError(m)) => assert_eq!(m, "down"),
        other => panic!("unexpected: {:?}", other),
    }
}

#[test]
fn draw_decision() {
    assert_eq!(
        draw_outcome("x1".to_string(), Ok(false), 0).unwrap(),
        Some("x1".to_string())
    );
    assert_eq!(draw_outcome("x1".to_string(), Ok(true), 0).unwrap(), None);
    assert_eq!(
        draw_outcome("x1".to_string(), Ok(true), MAX_ATTEMPTS - 2).unwrap(),
        None
    );
    match draw_outcome("x1".to_string(), Ok(true), MAX_ATTEMPTS - 1) {
        Err(AppError::InternalError(m)) => assert_eq!(m, "Failed to generate a unique short ID"),
        other => panic!("unexpected: {:?}", other),
    }
    assert!(matches!(
        draw_outcome("x1".to_string(), Err(AppError::DatabaseError("d".to_string())), 0),
        Err(AppError::DatabaseError(_))
    ));
}

#[test]
fn gives_up_after_taken_draws() {
    let mut config = test_config();
    config.short_url_length = 0;
    let mut service = UrlService::new(MemoryStorage::new(), config);
    let first = service.shorten_url("https://one.example", None).unwrap();
    assert_eq!(first.short_id, "");
    match service.shorten_url("https://two.example", None) {
        Err(AppError::InternalError(m)) => assert_eq!(m, "Failed to generate a unique short ID"),
        other => panic!("unexpected: {:?}", other),
    }
    assert_eq!(service.list_urls(10, 0).unwrap().len(), 1);
    assert_eq!(service.get_url("").unwrap(), "https://one.example");
}
