//! The periodic sweep that reclaims expired sessions.

use vstd::prelude::*;
use crate::clock::current_time;
use crate::models::Timestamp;
use crate::registry::{without_expired, SessionRegistry};

verus! {

/// How long a session lives, in seconds: one hour.
pub const SESSION_TTL_SECONDS: u64 = 3600;

/// How long the sweeper waits between two sweeps, in seconds: ten minutes.
pub const SWEEP_INTERVAL_SECONDS: u64 = 600;

/// Removes every session that is, by the clock, at least an hour old.
pub fn cleanup_sessions(registry: &mut SessionRegistry)
    requires
        old(registry).wf(),
    ensures
        final(registry).wf(),
        exists|now: Timestamp|
            final(registry)@ == #[trigger] without_expired(
                old(registry)@,
                now,
                SESSION_TTL_SECONDS,
            ),
{
    let now = current_time();
    registry.sweep_expired(now, SESSION_TTL_SECONDS);
    assert(registry@ == without_expired(old(registry)@, now, SESSION_TTL_SECONDS));
}

} // verus!
