//! Client-side request signing for an object-storage HTTP API.
//!
//! The crate derives a per-request signing key from long-lived credentials
//! through an HMAC-SHA256 chain, canonicalizes the request (method, path,
//! query, headers, payload hash) into a deterministic string, and produces
//! the final `Authorization` header value, together with the request
//! assembly that turns a single-object upload into a dispatch-ready
//! request descriptor.
pub mod canonical;
pub mod chars;
pub mod commands;
pub mod credentials;
pub mod crypto;
pub mod error;
pub mod headers;
pub mod hex;
pub mod index;
pub mod multibyte;
pub mod provider;
pub mod runner;
pub mod sign;
pub mod strings;
pub mod tasks;
pub mod terminal;
pub mod time;
