//! The Rust types that SQLite values are bound from and read into.

pub mod boolean;
