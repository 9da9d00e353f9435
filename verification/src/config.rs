//! Settings derived from the command line.
use vstd::prelude::*;

verus! {

/// Session lifetime used when the command line does not give one, in minutes.
pub const DEFAULT_SESSION_TTL_MINUTES: u64 = 720;

/// Concurrent terminals allowed when the command line does not say.
pub const DEFAULT_MAX_SESSIONS: usize = 8;

/// Port listened on when the command line does not say.
pub const DEFAULT_PORT: u16 = 8999;

/// How long a signed-in session stays valid, in seconds, for a lifetime
/// given in minutes: at least one minute.
pub open spec fn session_ttl_secs_of(minutes: u64) -> int {
    if minutes < 1 {
        60
    } else {
        minutes * 60
    }
}

/// The session lifetime in seconds; a lifetime of zero minutes is taken as
/// one minute.
pub fn session_ttl(session_ttl_minutes: u64) -> (secs: u64)
    requires
        session_ttl_minutes <= u64::MAX / 60,
    ensures
        secs == session_ttl_secs_of(session_ttl_minutes),
        secs >= 60,
{
    let minutes = if session_ttl_minutes < 1 {
        1
    } else {
        session_ttl_minutes
    };
    minutes * 60
}

} // verus!
