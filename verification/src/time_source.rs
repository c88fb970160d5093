//! The wall clock that the tracker reads when it is not handed an instant.

use vstd::prelude::*;

verus! {

/// Reads the wall clock: `chrono::Utc::now()`, taken as whole seconds since
/// the Unix epoch by `DateTime::timestamp`.
///
/// Nothing is claimed of the value: a wall clock can be set, so two readings
/// may differ in either direction. chrono itself gives up, with a panic,
/// where the system's time lies before the epoch or beyond the years that
/// its dates can hold.
#[verifier::external_body]
pub(crate) fn wall_clock_seconds() -> i64 {
    chrono::Utc::now().timestamp()
}

} // verus!
