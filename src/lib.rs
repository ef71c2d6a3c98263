//! Check-in records for a derby race day: scouts registered under unique
//! car numbers, a suggestion for the next free car number, a listing of the
//! checked-in scouts newest first, and the event's configuration slot.

pub mod config;
pub mod error;
pub mod lemmas;
pub mod numbering;
pub mod order;
pub mod store;
