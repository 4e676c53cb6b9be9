//! The blocking wait's deadline.
//!
//! The event loop ends each iteration blocked on a composite wait: the
//! listener, the frame channel and every bridged stream, gated by a timeout.
//! The timeout must respect the protocol stack's recommended poll delay —
//! its timers would otherwise never fire — and fall back to a bounded
//! ceiling when the stack recommends none.  The stack expresses delays in
//! its own duration type, declared here and carried through unopened.

use vstd::prelude::*;

verus! {

/// The protocol stack's duration type, opaque to the proxy: a count of
/// microseconds it alone interprets.
#[verifier::external_type_specification]
#[verifier::external_body]
pub struct ExDuration(smoltcp::time::Duration);

/// The total number of microseconds a protocol-stack duration holds.
pub uninterp spec fn duration_micros(d: smoltcp::time::Duration) -> u64;

/// Relies on smoltcp's `Duration::from_secs`: the built duration holds
/// exactly that many seconds.
pub assume_specification[ smoltcp::time::Duration::from_secs ](secs: u64) -> (d:
    smoltcp::time::Duration)
    requires
        secs <= u64::MAX / 1_000_000,
    ensures
        duration_micros(d) == secs * 1_000_000,
;

/// Relies on smoltcp's `Duration::secs`: the whole seconds of the duration.
pub assume_specification[ smoltcp::time::Duration::secs ](d: &smoltcp::time::Duration) -> (s: u64)
    ensures
        s == duration_micros(*d) / 1_000_000,
;

/// Relies on smoltcp's `Duration::micros`: the microseconds of the duration
/// below one second.
pub assume_specification[ smoltcp::time::Duration::micros ](d: &smoltcp::time::Duration) -> (us:
    u64)
    ensures
        us == duration_micros(*d) % 1_000_000,
;

/// How long the wait may last when the protocol stack recommends no
/// deadline of its own.
pub const DEFAULT_WAIT_SECS: u64 = 1;

/// Bounds the blocking wait: the stack's recommended poll delay when it
/// gives one, else the fixed one-second ceiling.
pub fn wait_timeout(delay: Option<smoltcp::time::Duration>) -> (d: smoltcp::time::Duration)
    ensures
        duration_micros(d) == match delay {
            Some(x) => duration_micros(x) as int,
            None => DEFAULT_WAIT_SECS * 1_000_000,
        },
{
    match delay {
        Some(x) => x,
        None => smoltcp::time::Duration::from_secs(DEFAULT_WAIT_SECS),
    }
}

/// The wait deadline split the way a multiplexed wait primitive takes it:
/// whole seconds, and the microseconds below one second.
pub fn wait_timeout_parts(delay: Option<smoltcp::time::Duration>) -> (r: (u64, u64))
    ensures
        ({
            let t = match delay {
                Some(x) => duration_micros(x) as int,
                None => DEFAULT_WAIT_SECS * 1_000_000,
            };
            r.0 == t / 1_000_000 && r.1 == t % 1_000_000
        }),
{
    let d = wait_timeout(delay);
    (d.secs(), d.micros())
}

} // verus!
