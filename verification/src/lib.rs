//! The lifecycle of API keys: issuing a key, storing it encrypted at rest,
//! revoking it, and answering access checks from an in-memory cache.
//!
//! A key is a random token. The record store never holds the token itself
//! but its envelope: the token sealed under the master key, and the salt that
//! the sealing is bound to. The authorization cache holds the tokens of the
//! keys that are not revoked, and is rebuilt as a whole from the store after
//! every change.
//!
//! - [`master_key`]: the one secret under which tokens are sealed.
//! - [`cipher`]: sealing and opening a token.
//! - [`db`]: the record store and the queries that change it.
//! - [`cache`] and [`shared`]: the authorization cache, owned by one caller
//!   or shared between threads.
//! - [`auth`]: issuing, revoking and reloading.
//! - [`revocation`] and [`history`]: what revoking does to the store, and
//!   what holds of the keys over any sequence of changes.
//! - [`encoding`], [`random`], [`error`]: text encodings, random sources and
//!   the failures that are reported.
//! - [`endpoint`] and [`usage`]: the endpoints that keys give access to, and
//!   the counters of their calls.

pub mod auth;
pub mod cache;
pub mod cipher;
pub mod db;
pub mod encoding;
pub mod endpoint;
pub mod error;
pub mod history;
pub mod master_key;
pub mod random;
pub mod revocation;
pub mod shared;
pub mod usage;

pub use usage::{Counters, UsageStats};
