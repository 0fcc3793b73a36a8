//! Generation of short, human-friendly random identifiers.
//!
//! Identifiers are drawn from a restricted character alphabet and are
//! guaranteed never to contain any of a configurable set of banned
//! substrings.  The crate offers configuration validation, a rejection
//! sampling generator backed by a xorshift bit source, and standalone
//! normalization / sanitization / acceptance checks for externally
//! supplied strings.

pub mod chars;
pub mod config;
pub mod numfmt;
pub mod rng;
pub mod system;
pub mod text;

pub use config::build_custom_config;
pub use config::IdConfig;
pub use config::DEFAULT_MAX_LENGTH;
pub use system::IdSystem;
