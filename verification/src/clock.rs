//! The wall clock.

use vstd::prelude::*;
use crate::models::Timestamp;

verus! {

/// The current time: `chrono::Utc::now()`, taken apart by
/// `DateTime::timestamp` and `DateTime::timestamp_subsec_nanos`.
///
/// Trusted, and nothing is claimed of the instant that comes back. The
/// clock panics where the system time lies before the Unix epoch.
#[verifier::external_body]
pub(crate) fn current_time() -> (now: Timestamp) {
    let now = chrono::Utc::now();
    Timestamp { seconds: now.timestamp(), nanos: now.timestamp_subsec_nanos() }
}

} // verus!
