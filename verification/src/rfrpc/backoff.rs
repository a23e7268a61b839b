//! When the client connects again, and when it gives up.

use vstd::arithmetic::power2::{lemma_pow2, lemma_pow2_unfold, pow2};
use vstd::prelude::*;

use super::metrics::ClientMetrics;
use crate::clock::{from_secs, NANOS_PER_SEC};
use crate::counter::wrapped_sum;
use crate::limits::{RECONNECT_BACKOFF_INITIAL, RECONNECT_BACKOFF_MAX};

verus! {

/// How an attempt to connect ended.
pub enum ConnectOutcome {
    /// The server will not have this client: connecting again is of no use.
    Fatal(String),
    /// The connection ended; `connected` where it had been logged in.
    Reconnect { connected: bool },
    /// It failed for another reason.
    Failed,
}

/// What the client does.
pub enum RunStep {
    /// It ends.
    Stop,
    /// It ends with this error.
    Fail(String),
    /// It waits so many seconds and connects again.
    Wait(u64),
}

/// Whether a connection was good enough for the next delay to be a short one: it
/// had been logged in and lasted.
pub open spec fn was_stable(connected: bool, lived: u128, min_stable_secs: u64) -> bool {
    connected && lived >= min_stable_secs * NANOS_PER_SEC
}

/// Executable form of [`was_stable`], with `lived` in nanoseconds.
pub fn should_reset_backoff(connected: bool, lived: u128, min_stable_secs: u64) -> (r: bool)
    ensures
        r == was_stable(connected, lived, min_stable_secs),
{
    connected && lived >= from_secs(min_stable_secs)
}

/// The delay after `secs`: twice as long, up to the longest.
pub open spec fn next_delay(secs: u64, longest: u64) -> u64 {
    if secs * 2 <= longest {
        (secs * 2) as u64
    } else {
        longest
    }
}

/// Executable form of [`next_delay`].
pub fn double_delay(secs: u64, longest: u64) -> (r: u64)
    ensures
        r == next_delay(secs, longest),
{
    match secs.checked_mul(2) {
        Some(d) => if d <= longest {
            d
        } else {
            longest
        },
        None => longest,
    }
}

/// The delay before the next attempt, in seconds.
#[derive(Clone, Copy, Debug, PartialEq, Eq, Structural)]
pub struct Backoff {
    /// The delay.
    pub secs: u64,
}

impl Backoff {
    /// The first delay.
    pub fn new() -> (r: Backoff)
        ensures
            r.secs == RECONNECT_BACKOFF_INITIAL,
    {
        Backoff { secs: RECONNECT_BACKOFF_INITIAL }
    }

    /// Whether the client does `r` after an attempt that lasted `lived` nanoseconds, with
    /// `next` for the delay after that.
    pub open spec fn follows(
        self,
        outcome: ConnectOutcome,
        lived: u128,
        min_stable_secs: u64,
        shutdown: bool,
        next: Backoff,
        r: RunStep,
    ) -> bool {
        match outcome {
            ConnectOutcome::Fatal(reason) => r matches RunStep::Fail(e) && e@ == "login fatal: "@
                + reason@ && next == self,
            _ => if shutdown {
                r is Stop && next == self
            } else {
                let secs = if outcome matches ConnectOutcome::Reconnect { connected }
                    && was_stable(connected, lived, min_stable_secs) {
                    RECONNECT_BACKOFF_INITIAL
                } else {
                    self.secs
                };
                r == RunStep::Wait(secs) && next.secs == next_delay(secs, RECONNECT_BACKOFF_MAX)
            },
        }
    }

    /// What the client does after an attempt that lasted `lived` nanoseconds.
    /// `shutdown` says whether it is to end.
    pub fn after_attempt(
        &mut self,
        outcome: ConnectOutcome,
        lived: u128,
        min_stable_secs: u64,
        shutdown: bool,
        metrics: &mut ClientMetrics,
    ) -> (r: RunStep)
        ensures
            old(self).follows(outcome, lived, min_stable_secs, shutdown, *final(self), r),
            match outcome {
                ConnectOutcome::Fatal(reason) => r matches RunStep::Fail(e) && e@
                    == "login fatal: "@ + reason@ && *final(self) == *old(self) && *final(metrics)
                    == *old(metrics),
                _ => if shutdown {
                    r is Stop && *final(self) == *old(self) && *final(metrics) == *old(metrics)
                } else {
                    let secs = if outcome matches ConnectOutcome::Reconnect { connected }
                        && was_stable(connected, lived, min_stable_secs) {
                        RECONNECT_BACKOFF_INITIAL
                    } else {
                        old(self).secs
                    };
                    &&& r == RunStep::Wait(secs)
                    &&& final(self).secs == next_delay(secs, RECONNECT_BACKOFF_MAX)
                    &&& *final(metrics) == (ClientMetrics {
                        reconnects_total: wrapped_sum(old(metrics).reconnects_total, 1),
                        ..*old(metrics)
                    })
                },
            },
    {
        let stable: bool = match outcome {
            ConnectOutcome::Fatal(reason) => {
                let mut e = String::from_str("login fatal: ");
                e.append(reason.as_str());
                return RunStep::Fail(e);
            },
            ConnectOutcome::Reconnect { connected } => should_reset_backoff(
                connected,
                lived,
                min_stable_secs,
            ),
            ConnectOutcome::Failed => false,
        };
        if shutdown {
            return RunStep::Stop;
        }
        metrics.inc_reconnect();
        if stable {
            self.secs = RECONNECT_BACKOFF_INITIAL;
        }
        let secs: u64 = self.secs;
        self.secs = double_delay(secs, RECONNECT_BACKOFF_MAX);
        RunStep::Wait(secs)
    }
}

/// The delay after `n` attempts in a row that were not stable, the first delay
/// being `initial`.
pub open spec fn nth_delay(initial: u64, longest: u64, n: nat) -> u64
    decreases n,
{
    if n == 0 {
        initial
    } else {
        next_delay(nth_delay(initial, longest, (n - 1) as nat), longest)
    }
}

/// Delays double until they are as long as they get: the one after `n` attempts is
/// `initial` times two to the power of `n`, or the longest.
pub proof fn law_delays_double(initial: u64, longest: u64, n: nat)
    requires
        initial <= longest,
    ensures
        nth_delay(initial, longest, n) == (if initial * pow2(n) <= longest {
            initial * pow2(n)
        } else {
            longest as int
        }),
        initial <= nth_delay(initial, longest, n) || initial == 0,
        nth_delay(initial, longest, n) <= longest,
    decreases n,
{
    if n == 0 {
        lemma_pow2(0);
        vstd::arithmetic::power::lemma_pow0(2);
    } else {
        let m = (n - 1) as nat;
        law_delays_double(initial, longest, m);
        lemma_pow2_unfold(n);
        let p = pow2(m) as int;
        vstd::arithmetic::power2::lemma_pow2_pos(m);
        assert(initial * pow2(n) == 2 * (initial * p)) by (nonlinear_arith)
            requires
                pow2(n) == 2 * p,
        ;
        assert(initial * p >= initial || initial == 0) by (nonlinear_arith)
            requires
                p >= 1,
                initial >= 0,
        ;
    }
}

/// Delays between reconnects start at the shortest, double, and stay at the longest
/// once they are there.
pub proof fn law_reconnect_delays(n: nat)
    ensures
        RECONNECT_BACKOFF_INITIAL <= nth_delay(
            RECONNECT_BACKOFF_INITIAL,
            RECONNECT_BACKOFF_MAX,
            n,
        ) <= RECONNECT_BACKOFF_MAX,
        n >= 5 ==> nth_delay(RECONNECT_BACKOFF_INITIAL, RECONNECT_BACKOFF_MAX, n)
            == RECONNECT_BACKOFF_MAX,
    decreases n,
{
    law_delays_double(RECONNECT_BACKOFF_INITIAL, RECONNECT_BACKOFF_MAX, n);
    if n > 5 {
        law_reconnect_delays((n - 1) as nat);
    } else if n == 5 {
        reveal_with_fuel(nth_delay, 6);
    }
}

/// After an attempt the client connects again, unless the server will not have it or it
/// is to end: after the shortest delay where the connection had been logged in and
/// lasted, and else after the delay that is due. Each delay that is waited makes the
/// next one twice as long, up to the longest.
pub proof fn law_client_connects_again(
    b: Backoff,
    outcome: ConnectOutcome,
    lived: u128,
    min_stable_secs: u64,
    next: Backoff,
    r: RunStep,
)
    requires
        b.follows(outcome, lived, min_stable_secs, false, next, r),
        b.secs <= 30,
    ensures
        outcome matches ConnectOutcome::Fatal(reason) ==> (r matches RunStep::Fail(e) && e@
            == "login fatal: "@ + reason@),
        !(outcome is Fatal) ==> (r matches RunStep::Wait(secs) && secs == (if outcome
            == (ConnectOutcome::Reconnect { connected: true }) && lived >= min_stable_secs
            * 1_000_000_000 {
            1
        } else {
            b.secs
        }) && next.secs == (if secs * 2 <= 30 {
            secs * 2
        } else {
            30
        })),
{
}

/// A client that is to end does not connect again; one that the server will not have says
/// so all the same.
pub proof fn law_client_ends(
    b: Backoff,
    outcome: ConnectOutcome,
    lived: u128,
    min_stable_secs: u64,
    next: Backoff,
    r: RunStep,
)
    requires
        b.follows(outcome, lived, min_stable_secs, true, next, r),
    ensures
        outcome is Fatal <==> r is Fail,
        !(outcome is Fatal) <==> r is Stop,
        next == b,
{
}

} // verus!
