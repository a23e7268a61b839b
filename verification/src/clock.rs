//! Time as nanoseconds since a starting point.

use std::time::Instant;

use vstd::prelude::*;

verus! {

/// How many nanoseconds a second has.
pub const NANOS_PER_SEC: u128 = 1_000_000_000;

/// `std::time::Instant`, carried as it is.
#[verifier::external_type_specification]
#[verifier::external_body]
pub struct ExInstant(Instant);

/// `Instant::now`: the current instant, of which nothing is claimed.
pub assume_specification[ Instant::now ]() -> (r: Instant)
;

/// `Instant::elapsed`, in nanoseconds. Of the time that has passed nothing is
/// claimed but the range of a `Duration`: its seconds fit in a `u64`.
#[verifier::external_body]
fn elapsed_nanos(since: &Instant) -> (r: u128)
    ensures
        r / 1_000_000_000 <= u64::MAX,
{
    since.elapsed().as_nanos()
}

/// A clock that was started once and is read ever after.
pub struct Clock {
    started: Instant,
}

impl Clock {
    /// Starts a clock.
    pub fn start() -> Clock {
        Clock { started: Instant::now() }
    }

    /// Nanoseconds since the start.
    pub fn now(&self) -> (r: u128)
        ensures
            r / NANOS_PER_SEC <= u64::MAX,
    {
        elapsed_nanos(&self.started)
    }
}

/// The whole seconds in `nanos` nanoseconds.
pub fn whole_secs(nanos: u128) -> (r: u64)
    requires
        nanos / NANOS_PER_SEC <= u64::MAX,
    ensures
        r == nanos / NANOS_PER_SEC,
{
    (nanos / NANOS_PER_SEC) as u64
}

/// How long `now` is after `start`; nothing where it is before.
pub open spec fn since(start: u128, now: u128) -> u128 {
    if now >= start {
        (now - start) as u128
    } else {
        0
    }
}

/// Executable form of [`since`].
pub fn elapsed_since(start: u128, now: u128) -> (r: u128)
    ensures
        r == since(start, now),
{
    if now >= start {
        now - start
    } else {
        0
    }
}

/// `secs` seconds in nanoseconds.
pub fn from_secs(secs: u64) -> (r: u128)
    ensures
        r == secs * NANOS_PER_SEC,
{
    secs as u128 * NANOS_PER_SEC
}

/// Time that has passed is the difference of the clocks, and none before the start.
pub proof fn law_time_passes(start: u128, now: u128)
    ensures
        now >= start ==> start + since(start, now) == now,
        now <= start ==> since(start, now) == 0,
        NANOS_PER_SEC == 1_000_000_000,
{
}

} // verus!
