//! Model metadata: identifiers, table names, relations and schema DDL.

pub mod identifier;
pub mod meta;
pub mod relation;
pub mod schema;
