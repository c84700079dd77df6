pub mod url_service;

pub use url_service::UrlService;
