//! Verified core of the appdb helper library: identifiers, query text,
//! schema DDL, error classification, field encryption and id values.

pub mod text;
pub mod autofill;
pub mod connection;
pub mod crypto;
pub mod crypto_registry;
pub mod error;
pub mod json;
pub mod model;
pub mod pagination;
pub mod query;
pub mod relation_sync;
pub mod repository;
pub mod serde_utils;
