//! Id values that accept string or integer record keys.

pub mod id;
