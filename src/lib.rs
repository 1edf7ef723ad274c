//! Routing of URLs to browser profiles by ordered pattern rules.
//!
//! `url` turns a list of URL patterns into one case-insensitive matcher,
//! `config` holds the rule set and its validation, and `resolve` picks the
//! browser profile that a URL opens in.
pub mod command;
pub mod config;
pub mod resolve;
pub mod url;
