//! Selecting and removing stale identities of an access-control service.
pub mod json;
pub mod text;
pub mod timing;
pub mod filter;
pub mod endpoint;
pub mod command;
pub mod key;
pub mod laws;
pub mod escaping;
