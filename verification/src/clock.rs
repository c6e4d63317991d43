//! The wall clock of the balancer.

use vstd::prelude::*;

verus! {

/// Reads the wall clock with `chrono::Utc::now` and gives the milliseconds
/// since the Unix epoch from `timestamp_millis`. Nothing is claimed of the
/// number: two readings may differ in either direction. `chrono` panics
/// where the system clock stands before the epoch, and gives no negative
/// number otherwise.
#[verifier::external_body]
pub(crate) fn wall_clock_ms() -> u64 {
    chrono::Utc::now().timestamp_millis() as u64
}

} // verus!
