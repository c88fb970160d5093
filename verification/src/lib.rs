//! Time-accounting engine of a personal time tracker: a running or paused
//! clock, a ledger of named durations, and the rules by which part of the
//! clock's elapsed time is committed to a ledger entry.

pub mod clock;
pub mod database;
pub mod duration_input;
pub mod ledger;
pub mod style;
mod time_source;
pub mod tracker;
