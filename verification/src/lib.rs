//! A URL shortener: short ids for long URLs, their resolution and statistics,
//! over a storage backend.
pub mod config;
pub mod decimal;
pub mod errors;
pub mod models;
pub mod routes;
pub mod services;
pub mod storage;
pub mod text;
pub mod utils;
