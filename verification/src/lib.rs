//! A sandboxed snippet-execution library: a catalog of supported languages,
//! a verified command grammar, and the deterministic core of an execution
//! engine that runs untrusted snippets in per-language isolated images.

pub mod command;
pub mod errors;
pub mod language;
pub mod language_pool;
pub mod languages;
pub mod replies;
pub mod script_service;
pub mod strings;
pub mod tasks;
pub mod validation;
