pub mod time;
pub mod url;

pub use time::UnixNanos;
pub use url::{CreateUrlRequest, Url, UrlResponse, UrlView};
