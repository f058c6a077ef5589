//! PostgreSQL: listening for notifications, and SCRAM authentication.

pub mod laws;
pub mod listener;
pub mod notification;
pub mod primitives;
pub mod quoting;
pub mod reading;
pub mod sasl;
