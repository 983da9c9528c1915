//! Delta-synchronization engine for an offline-first personal data store.
//!
//! Local mutations are collected into a batch of wire records, exchanged
//! with a remote authority under a resumable checkpoint cursor, and remote
//! records are replayed into the local store in dependency-safe order.

pub mod apply;
pub mod codec;
pub mod collect;
pub mod engine;
pub mod json;
pub mod laws;
pub mod model;
pub mod record;
pub mod schema;
pub mod session;
pub mod store;
pub mod tables;
pub mod util;
