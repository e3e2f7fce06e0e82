//! SurrealQL text for the fixed query shapes used by the repository.

pub mod builder;
