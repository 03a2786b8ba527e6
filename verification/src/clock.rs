//! The one place the library reads the wall clock.
use vstd::prelude::*;

verus! {

/// Relies on std::time::SystemTime::now, with duration_since and as_secs
/// converting its result: seconds since the Unix epoch, zero if the clock
/// reports an earlier time. Nothing can be promised of a clock reading.
#[verifier::external_body]
pub fn now_unix_seconds() -> u64 {
    match std::time::SystemTime::now().duration_since(std::time::UNIX_EPOCH) {
        Ok(d) => d.as_secs(),
        Err(_) => 0,
    }
}

} // verus!
