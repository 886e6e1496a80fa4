//! Ingestion and aggregation core of an error-monitoring collector:
//! fingerprinting of error events, issue aggregation, batch reporting,
//! trace reconstruction and paginated listings.

pub mod attributes;
pub mod auth;
pub mod batch;
pub mod collector;
pub mod error;
pub mod event;
pub mod fingerprint;
pub mod issue;
pub mod listing;
pub mod pagination;
pub mod project;
pub mod response;
pub mod span;
pub mod text;
pub mod time;
pub mod transaction;
pub mod wire;
