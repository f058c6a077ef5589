//! The parts of a PostgreSQL and SQLite driver that decide what goes over the wire.

pub mod postgres;
pub mod sqlite;
mod text;
