//! Parsing of the combat logs of a vehicular combat game.
//!
//! Each line of a log is a time of day, `| `, and one of a fixed set of
//! message shapes; `entry::parse_entry` turns a line into a typed, timestamped
//! `payload::Entry`, and `pipeline` holds the decisions of running that over
//! many logs at once.
pub mod entry;
pub mod error;
pub mod flags;
pub mod grammar;
pub mod kinds;
pub mod payload;
pub mod pipeline;
pub mod rows;
pub mod session;
pub mod text;
pub mod time;
