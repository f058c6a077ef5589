//! SQLite: how values are bound and read.

pub mod types;
