//! Registrations that are tried again in the background.

use vstd::prelude::*;

use super::backoff::{double_delay, law_delays_double, next_delay, nth_delay};
use super::client::RegisterOutcome;
use super::metrics::ClientMetrics;
use crate::counter::wrapped_sum;
use crate::limits::{PROXY_REGISTER_RETRY_INITIAL, PROXY_REGISTER_RETRY_MAX_DELAY};

verus! {

/// A number of rounds in which proxies are registered again, with delays between.
pub struct RetryLoop {
    /// Proxies of the round, by their place in the configuration.
    pub queue: Vec<usize>,
    /// The one that is tried now.
    pub at: usize,
    /// Those of the round that failed.
    pub still: Vec<usize>,
    /// The next delay, in seconds.
    pub delay: u64,
    /// The longest delay.
    pub max_delay: u64,
    /// The round, from one on; none has begun where it is 0.
    pub round: u32,
    /// The last round.
    pub rounds: u32,
}

/// What [`RetryLoop`] stands for.
pub struct RetryView {
    pub queue: Seq<usize>,
    pub at: int,
    pub still: Seq<usize>,
    pub delay: u64,
    pub max_delay: u64,
    pub round: u32,
    pub rounds: u32,
}

/// What happened.
#[derive(Clone, Copy, Debug, PartialEq, Eq, Structural)]
pub enum RetryEvent {
    /// The delay is over.
    Slept,
    /// The client shuts down.
    Shutdown,
    /// The registration of the current proxy ended so.
    Registered(RegisterOutcome),
}

/// What is to be done.
#[derive(Clone, Copy, Debug, PartialEq, Eq, Structural)]
pub enum RetryAction {
    /// Wait so many seconds.
    Sleep(u64),
    /// Register the proxy at this place of the configuration.
    Register(usize),
    /// Nothing any more.
    Finish,
    /// Nothing any more; what is left in the queue waits for the next reconnect.
    GiveUp,
}

impl View for RetryLoop {
    type V = RetryView;

    open spec fn view(&self) -> RetryView {
        RetryView {
            queue: self.queue@,
            at: self.at as int,
            still: self.still@,
            delay: self.delay,
            max_delay: self.max_delay,
            round: self.round,
            rounds: self.rounds,
        }
    }
}

impl RetryView {
    /// A loop that waits for its first round.
    pub open spec fn fresh(
        queue: Seq<usize>,
        initial: u64,
        max_delay: u64,
        rounds: u32,
    ) -> RetryView {
        RetryView {
            queue,
            at: 0,
            still: Seq::empty(),
            delay: initial,
            max_delay,
            round: 0,
            rounds,
        }
    }

    /// Between two rounds: proxies are left, and so are rounds.
    pub open spec fn sleeping(self) -> bool {
        self.queue.len() > 0 && self.round < self.rounds && self.still.len() == 0
    }

    /// In a round: a proxy is being tried.
    pub open spec fn trying(self) -> bool {
        0 <= self.at < self.queue.len() && 1 <= self.round <= self.rounds && self.still.len()
            <= self.at
    }

    /// A round has begun.
    pub open spec fn begun(self) -> RetryView {
        RetryView {
            at: 0,
            delay: next_delay(self.delay, self.max_delay),
            round: (self.round + 1) as u32,
            ..self
        }
    }

    /// The current proxy was tried; one that is not registered stays.
    pub open spec fn tried(self, outcome: RegisterOutcome) -> RetryView {
        let still = if outcome == RegisterOutcome::Done {
            self.still
        } else {
            self.still.push(self.queue[self.at])
        };
        if self.at + 1 < self.queue.len() {
            RetryView { at: self.at + 1, still, ..self }
        } else {
            RetryView { at: 0, queue: still, still: Seq::empty(), ..self }
        }
    }

    /// What comes after the current proxy was tried.
    pub open spec fn action_after(self, outcome: RegisterOutcome) -> RetryAction {
        let next = self.tried(outcome);
        if self.at + 1 < self.queue.len() {
            RetryAction::Register(self.queue[self.at + 1])
        } else if next.queue.len() == 0 {
            RetryAction::Finish
        } else if self.round >= self.rounds {
            RetryAction::GiveUp
        } else {
            RetryAction::Sleep(self.delay)
        }
    }
}

/// What is to be done first.
pub open spec fn first_action(queue: Seq<usize>, initial: u64, rounds: u32) -> RetryAction {
    if queue.len() == 0 {
        RetryAction::Finish
    } else if rounds == 0 {
        RetryAction::GiveUp
    } else {
        RetryAction::Sleep(initial)
    }
}

impl RetryLoop {
    /// A loop that waits for its first round, and what is to be done first.
    pub fn new(queue: Vec<usize>, initial: u64, max_delay: u64, rounds: u32) -> (r: (
        RetryLoop,
        RetryAction,
    ))
        ensures
            r.0@ == RetryView::fresh(queue@, initial, max_delay, rounds),
            r.1 == first_action(queue@, initial, rounds),
            r.1 == (if queue@.len() == 0 {
                RetryAction::Finish
            } else if rounds == 0 {
                RetryAction::GiveUp
            } else {
                RetryAction::Sleep(initial)
            }),
            r.1 is Sleep ==> r.0@.sleeping(),
    {
        let first = if queue.len() == 0 {
            RetryAction::Finish
        } else if rounds == 0 {
            RetryAction::GiveUp
        } else {
            RetryAction::Sleep(initial)
        };
        let r = RetryLoop {
            queue,
            at: 0,
            still: Vec::new(),
            delay: initial,
            max_delay,
            round: 0,
            rounds,
        };
        (r, first)
    }

    /// A loop for registrations that met a conflict, such as an occupied port: its
    /// delays grow from the shortest to the longest for such.
    pub fn for_conflicts(queue: Vec<usize>, rounds: u32) -> (r: (RetryLoop, RetryAction))
        ensures
            r.0@ == RetryView::fresh(
                queue@,
                PROXY_REGISTER_RETRY_INITIAL,
                PROXY_REGISTER_RETRY_MAX_DELAY,
                rounds,
            ),
            r.1 == (if queue@.len() == 0 {
                RetryAction::Finish
            } else if rounds == 0 {
                RetryAction::GiveUp
            } else {
                RetryAction::Sleep(PROXY_REGISTER_RETRY_INITIAL)
            }),
            r.1 is Sleep ==> r.0@.sleeping(),
    {
        RetryLoop::new(
            queue,
            PROXY_REGISTER_RETRY_INITIAL,
            PROXY_REGISTER_RETRY_MAX_DELAY,
            rounds,
        )
    }

    /// The counters after an event of the loop.
    pub open spec fn counters_after(m: ClientMetrics, event: RetryEvent) -> ClientMetrics {
        if event == RetryEvent::Registered(RegisterOutcome::Done) {
            ClientMetrics {
                proxy_register_retry_success_total: wrapped_sum(
                    m.proxy_register_retry_success_total,
                    1,
                ),
                ..m
            }
        } else {
            m
        }
    }

    /// One step of the loop.
    pub fn step(&mut self, event: RetryEvent, metrics: &mut ClientMetrics) -> (r: RetryAction)
        requires
            event is Slept ==> old(self)@.sleeping(),
            event is Registered ==> old(self)@.trying(),
        ensures
            *final(metrics) == RetryLoop::counters_after(*old(metrics), event),
            match event {
                RetryEvent::Slept => final(self)@ == old(self)@.begun() && r
                    == RetryAction::Register(old(self)@.queue[0]) && *final(metrics) == *old(
                    metrics,
                ),
                RetryEvent::Shutdown => final(self)@ == old(self)@ && r == RetryAction::Finish
                    && *final(metrics) == *old(metrics),
                RetryEvent::Registered(RegisterOutcome::ConnLost) => final(self)@ == old(self)@
                    && r == RetryAction::Finish && *final(metrics) == *old(metrics),
                RetryEvent::Registered(outcome) => final(self)@ == old(self)@.tried(outcome) && r
                    == old(self)@.action_after(outcome) && *final(metrics) == (if outcome
                    == RegisterOutcome::Done {
                    ClientMetrics {
                        proxy_register_retry_success_total: wrapped_sum(
                            old(metrics).proxy_register_retry_success_total,
                            1,
                        ),
                        ..*old(metrics)
                    }
                } else {
                    *old(metrics)
                }),
            },
            r is Sleep ==> final(self)@.sleeping(),
            r is Register ==> final(self)@.trying(),
    {
        let outcome = match event {
            RetryEvent::Slept => {
                self.round = self.round + 1;
                self.delay = double_delay(self.delay, self.max_delay);
                self.at = 0;
                return RetryAction::Register(self.queue[0]);
            },
            RetryEvent::Shutdown => {
                return RetryAction::Finish;
            },
            RetryEvent::Registered(o) => o,
        };
        match outcome {
            RegisterOutcome::ConnLost => {
                return RetryAction::Finish;
            },
            RegisterOutcome::Done => {
                metrics.inc_proxy_register_retry_success();
            },
            RegisterOutcome::Retryable | RegisterOutcome::Persistent | RegisterOutcome::Failed => {
                let p: usize = self.queue[self.at];
                self.still.push(p);
            },
        }
        if self.at < self.queue.len() - 1 {
            self.at = self.at + 1;
            return RetryAction::Register(self.queue[self.at]);
        }
        self.at = 0;
        let mut still: Vec<usize> = Vec::new();
        std::mem::swap(&mut still, &mut self.still);
        self.queue = still;
        if self.queue.len() == 0 {
            RetryAction::Finish
        } else if self.round >= self.rounds {
            RetryAction::GiveUp
        } else {
            RetryAction::Sleep(self.delay)
        }
    }
}

/// What is left of the loop gets smaller with each step, so it ends: rounds that may
/// still begin, then proxies of the round that are still to be tried.
pub open spec fn left_of(v: RetryView) -> (int, int) {
    (v.rounds - v.round, v.queue.len() - v.at)
}

/// A round that begins is one round less.
pub proof fn law_rounds_run_out(v: RetryView)
    requires
        v.sleeping(),
    ensures
        v.begun().trying(),
        left_of(v.begun()).0 == left_of(v).0 - 1,
{
}

/// In a round, each proxy is tried once: the next one follows until none is left.
pub proof fn law_round_tries_each(v: RetryView, outcome: RegisterOutcome)
    requires
        v.trying(),
        v.at + 1 < v.queue.len(),
    ensures
        v.tried(outcome).trying(),
        v.tried(outcome).queue == v.queue,
        left_of(v.tried(outcome)).1 == left_of(v).1 - 1,
        v.tried(outcome).round == v.round,
{
}

/// A proxy that failed in a round is in the next one; none is added.
pub proof fn law_failed_is_tried_again(v: RetryView, outcome: RegisterOutcome)
    requires
        v.trying(),
        v.at + 1 == v.queue.len(),
    ensures
        outcome != RegisterOutcome::Done ==> v.tried(outcome).queue.len() > 0 && v.tried(
            outcome,
        ).queue.last() == v.queue[v.at],
        v.tried(outcome).queue.len() <= v.queue.len(),
        v.still.is_prefix_of(v.tried(outcome).queue),
{
}

/// The next delay is the first one doubled once for each round that has begun, up to
/// the longest: so it is at the start, and every step keeps it so.
pub proof fn law_round_delays(v: RetryView, initial: u64, outcome: RegisterOutcome)
    requires
        v.delay == nth_delay(initial, v.max_delay, v.round as nat),
        v.round < v.rounds,
    ensures
        v.begun().delay == nth_delay(initial, v.max_delay, v.begun().round as nat),
        v.tried(outcome).delay == nth_delay(initial, v.max_delay, v.tried(outcome).round as nat),
        RetryView::fresh(v.queue, initial, v.max_delay, v.rounds).delay == nth_delay(
            initial,
            v.max_delay,
            0,
        ),
{
}

/// Delays after conflicts start at the shortest, double, and stay at the longest once
/// they are there.
pub proof fn law_conflict_delays(n: nat)
    ensures
        nth_delay(PROXY_REGISTER_RETRY_INITIAL, PROXY_REGISTER_RETRY_MAX_DELAY, 0)
            == PROXY_REGISTER_RETRY_INITIAL,
        PROXY_REGISTER_RETRY_INITIAL <= nth_delay(
            PROXY_REGISTER_RETRY_INITIAL,
            PROXY_REGISTER_RETRY_MAX_DELAY,
            n,
        ) <= PROXY_REGISTER_RETRY_MAX_DELAY,
        n >= 4 ==> nth_delay(PROXY_REGISTER_RETRY_INITIAL, PROXY_REGISTER_RETRY_MAX_DELAY, n)
            == PROXY_REGISTER_RETRY_MAX_DELAY,
    decreases n,
{
    law_delays_double(PROXY_REGISTER_RETRY_INITIAL, PROXY_REGISTER_RETRY_MAX_DELAY, n);
    if n > 4 {
        law_conflict_delays((n - 1) as nat);
    } else if n == 4 {
        reveal_with_fuel(nth_delay, 5);
    }
}

/// What follows a try: the next proxy of the round, or, at its end, nothing where all are
/// registered, the delay before another round where there may be one, and else giving
/// up. A proxy is left exactly where it was not registered.
pub proof fn law_try_is_followed(v: RetryView, outcome: RegisterOutcome)
    requires
        v.trying(),
        v.queue.len() <= usize::MAX,
        outcome != RegisterOutcome::ConnLost,
    ensures
        ({
            let w = v.tried(outcome);
            let a = v.action_after(outcome);
            let left = if outcome == RegisterOutcome::Done {
                v.still
            } else {
                v.still.push(v.queue[v.at])
            };
            &&& v.at + 1 < v.queue.len() ==> a == RetryAction::Register(v.queue[v.at + 1])
                && w.still == left && w.queue == v.queue && w.at == v.at + 1
            &&& v.at + 1 == v.queue.len() ==> {
                &&& w.queue == left && w.at == 0 && w.still.len() == 0
                &&& left.len() == 0 ==> a == RetryAction::Finish
                &&& left.len() > 0 && v.round < v.rounds ==> a == RetryAction::Sleep(v.delay)
                &&& left.len() > 0 && v.round >= v.rounds ==> a == RetryAction::GiveUp
            }
            &&& w.round == v.round && w.rounds == v.rounds && w.max_delay == v.max_delay
        }),
{
}

/// A round begins with the first proxy that is left, and the delay before the next one is
/// twice as long, up to the longest.
pub proof fn law_round_begins(v: RetryView)
    requires
        v.sleeping(),
    ensures
        ({
            let w = v.begun();
            &&& w.at == 0 && w.queue == v.queue && w.still == v.still
            &&& w.round == v.round + 1
            &&& w.delay == (if v.delay * 2 <= v.max_delay {
                v.delay * 2
            } else {
                v.max_delay as int
            })
        }),
{
}

/// A proxy that a retry registers is counted once, and nothing else is.
pub proof fn law_late_success_is_counted(m: ClientMetrics, event: RetryEvent)
    ensures
        ({
            let n = RetryLoop::counters_after(m, event);
            &&& n.proxy_register_retry_success_total as int == if event == RetryEvent::Registered(
                RegisterOutcome::Done,
            ) {
                (m.proxy_register_retry_success_total + 1) % 0x1_0000_0000_0000_0000
            } else {
                m.proxy_register_retry_success_total as int
            }
            &&& n.proxy_register_failures_total == m.proxy_register_failures_total
            &&& n.connected == m.connected
        }),
{
}

/// A loop begins with the first delay, where there is a proxy to register and a round to do
/// it in; it has all proxies left, and no round behind it.
pub proof fn law_retries_begin(queue: Seq<usize>, initial: u64, max_delay: u64, rounds: u32)
    ensures
        ({
            let v = RetryView::fresh(queue, initial, max_delay, rounds);
            let a = first_action(queue, initial, rounds);
            &&& queue.len() > 0 && rounds > 0 ==> a == RetryAction::Sleep(initial) && v.sleeping()
            &&& queue.len() == 0 ==> a == RetryAction::Finish
            &&& queue.len() > 0 && rounds == 0 ==> a == RetryAction::GiveUp
            &&& v.queue == queue && v.round == 0 && v.rounds == rounds && v.delay == initial
                && v.max_delay == max_delay
        }),
{
}

} // verus!
