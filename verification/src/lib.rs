//! Account service core: credential issuance and validation, an in-memory
//! relational repository with transactional invariants (unique emails, one
//! membership per user/product pair, at most one default favorite group per
//! user), session lifecycle with sliding refresh, and chunked bulk inserts
//! for preference synchronisation.

pub mod auth;
pub mod bulk;
pub mod codec;
pub mod config;
pub mod errors;
pub mod laws;
pub mod model;
pub mod proto;
pub mod repo;
pub mod repo_trait;
pub mod service;
pub mod validate;
pub mod verify_store;
