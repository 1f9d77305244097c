//! The clock the library consumes. Expiry arithmetic works on plain Unix
//! timestamps in seconds; only the reading of "now" comes from outside.

use vstd::prelude::*;

verus! {

/// Relies on `std::time::SystemTime::now` and `duration_since` against
/// the Unix epoch: the system clock's current reading as seconds since
/// the epoch. A clock set before the epoch reads negative; a reading
/// beyond the `i64` range saturates. Nothing can be promised of a clock
/// reading, and no clock setting aborts the process.
#[verifier::external_body]
pub fn unix_now() -> i64 {
    match std::time::SystemTime::now().duration_since(std::time::UNIX_EPOCH) {
        Ok(since) => i64::try_from(since.as_secs()).unwrap_or(i64::MAX),
        Err(before) => -i64::try_from(before.duration().as_secs()).unwrap_or(i64::MAX),
    }
}

} // verus!
