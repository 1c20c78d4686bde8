//! The time of day.

use vstd::prelude::*;

verus! {

/// Calls `std::time::SystemTime::elapsed` on the start of the Unix epoch: the whole seconds since
/// then, or nothing where the clock stands before it. What it gives depends on the clock, so
/// nothing is stated of it.
#[verifier::external_body]
fn seconds_since_epoch() -> (r: Option<u64>) {
    match std::time::SystemTime::UNIX_EPOCH.elapsed() {
        Ok(elapsed) => Some(elapsed.as_secs()),
        Err(_) => None,
    }
}

/// A reading of the clock as a Unix time: zero for a clock that stands before the epoch.
pub open spec fn unix_time(elapsed: Option<u64>) -> i64 {
    match elapsed {
        Some(seconds) => seconds as i64,
        None => 0,
    }
}

/// A reading of the clock as a Unix time.
pub fn unix_seconds(elapsed: Option<u64>) -> (r: i64)
    ensures
        r == unix_time(elapsed),
{
    match elapsed {
        Some(seconds) => seconds as i64,
        None => 0,
    }
}

/// The Unix time now.
pub fn current_unix_seconds() -> (r: i64)
    ensures
        exists|elapsed: Option<u64>| r == #[trigger] unix_time(elapsed),
{
    unix_seconds(seconds_since_epoch())
}

} // verus!
