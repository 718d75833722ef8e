//! A personal-finance prediction tracker's core: recurrence rules for
//! recurring monetary events, expanded into explicit calendar-date sequences.
//!
//! The heart of the crate is [`repetition::Repetition`], a rule saying when a
//! recurring event occurs (monthly on a given day, weekly on a given weekday,
//! daily, or exactly once), together with its `dates` expansion, which is
//! verified against a full calendar model in [`date`].

pub mod date;
pub mod db;
pub mod errors;
pub mod predictions;
pub mod repetition;
pub mod requests;
pub mod session;
pub mod text;
pub mod users;
