//! When the gateway reconnects to the broker, and how long it waits first.
//!
//! The gateway runs the MQTT event loop until it stops or a shutdown signal
//! arrives. After a failure it waits, then reconnects; the wait starts at one
//! second and doubles after each failure, up to a minute.
use vstd::prelude::*;
use vstd::arithmetic::power2::pow2;

verus! {

/// The wait before the first reconnection after a failure, in seconds.
pub const INITIAL_RETRY_DELAY_SECS: u64 = 1;

/// The longest wait before a reconnection, in seconds.
pub const MAX_RETRY_DELAY_SECS: u64 = 60;

/// What the gateway learns while it runs.
#[derive(Debug, Clone, Copy, PartialEq, Eq, Structural)]
pub enum RunEvent {
    /// The event loop returned without an error.
    EventLoopStopped,
    /// The event loop returned with an error.
    EventLoopFailed,
    /// A shutdown signal (Ctrl-C) arrived.
    ShutdownSignal,
}

/// What the gateway does next.
#[derive(Debug, Clone, Copy, PartialEq, Eq, Structural)]
pub enum RunAction {
    /// Wait this many seconds, then connect again and run the event loop.
    Reconnect { wait_secs: u64 },
    /// Disconnect the client and end the run successfully.
    Disconnect,
}

/// The wait that follows a failure when the current wait is `d`: twice as
/// long, but no longer than the maximum.
pub open spec fn next_delay(d: nat) -> nat {
    if 2 * d <= MAX_RETRY_DELAY_SECS {
        2 * d
    } else {
        MAX_RETRY_DELAY_SECS as nat
    }
}

/// The current wait after `n` failures since the start.
pub open spec fn delay_after_failures(n: nat) -> nat
    decreases n,
{
    if n == 0 {
        INITIAL_RETRY_DELAY_SECS as nat
    } else {
        next_delay(delay_after_failures((n - 1) as nat))
    }
}

/// The delay after one event: a failure advances it, other events leave it.
pub open spec fn delay_after_event(d: nat, event: RunEvent) -> nat {
    if event == RunEvent::EventLoopFailed {
        next_delay(d)
    } else {
        d
    }
}

/// The delay after a run of events from start-up (`ReconnectPolicy::new`
/// followed by `on_event` for each of them).
pub open spec fn delay_after_events(events: Seq<RunEvent>) -> nat
    decreases events.len(),
{
    if events.len() == 0 {
        INITIAL_RETRY_DELAY_SECS as nat
    } else {
        delay_after_event(delay_after_events(events.drop_last()), events.last())
    }
}

/// How many of the events are failures.
pub open spec fn failure_count(events: Seq<RunEvent>) -> nat
    decreases events.len(),
{
    if events.len() == 0 {
        0
    } else {
        failure_count(events.drop_last()) + if events.last() == RunEvent::EventLoopFailed {
            1nat
        } else {
            0nat
        }
    }
}

/// The gateway's reconnection state: the wait that the next failure will cause.
pub struct ReconnectPolicy {
    retry_delay_secs: u64,
}

impl ReconnectPolicy {
    #[verifier::type_invariant]
    spec fn delay_in_range(self) -> bool {
        INITIAL_RETRY_DELAY_SECS <= self.retry_delay_secs <= MAX_RETRY_DELAY_SECS
    }

    /// The wait, in seconds, that the next failure will cause.
    pub closed spec fn delay(self) -> u64 {
        self.retry_delay_secs
    }

    /// The state at start-up: the wait is the initial one.
    pub fn new() -> (p: ReconnectPolicy)
        ensures
            p.delay() == INITIAL_RETRY_DELAY_SECS,
    {
        ReconnectPolicy { retry_delay_secs: INITIAL_RETRY_DELAY_SECS }
    }

    /// The wait, in seconds, that the next failure will cause.
    pub fn retry_delay_secs(&self) -> (d: u64)
        ensures
            d == self.delay(),
            INITIAL_RETRY_DELAY_SECS <= d <= MAX_RETRY_DELAY_SECS,
    {
        proof {
            use_type_invariant(self);
        }
        self.retry_delay_secs
    }

    /// Decides what follows an event. A failure makes the gateway wait the
    /// current delay before reconnecting, and doubles the delay (up to the
    /// maximum); a loop that stopped without error is reconnected at once; a
    /// shutdown signal disconnects and ends the run. Only a failure changes
    /// the delay.
    pub fn on_event(&mut self, event: RunEvent) -> (a: RunAction)
        ensures
            match event {
                RunEvent::EventLoopFailed => a == RunAction::Reconnect { wait_secs: old(self).delay() }
                    && final(self).delay() == next_delay(old(self).delay() as nat),
                RunEvent::EventLoopStopped => a == RunAction::Reconnect { wait_secs: 0 }
                    && final(self).delay() == old(self).delay(),
                RunEvent::ShutdownSignal => a == RunAction::Disconnect
                    && final(self).delay() == old(self).delay(),
            },
            final(self).delay() == delay_after_event(old(self).delay() as nat, event),
            INITIAL_RETRY_DELAY_SECS <= final(self).delay() <= MAX_RETRY_DELAY_SECS,
            a matches RunAction::Reconnect { wait_secs } ==> wait_secs <= MAX_RETRY_DELAY_SECS,
            event == RunEvent::EventLoopFailed ==> (a matches RunAction::Reconnect { wait_secs }
                && INITIAL_RETRY_DELAY_SECS <= wait_secs <= MAX_RETRY_DELAY_SECS),
    {
        proof {
            use_type_invariant(&*self);
        }
        match event {
            RunEvent::EventLoopFailed => {
                let wait = self.retry_delay_secs;
                let doubled = wait * 2;
                self.retry_delay_secs = if doubled <= MAX_RETRY_DELAY_SECS {
                    doubled
                } else {
                    MAX_RETRY_DELAY_SECS
                };
                RunAction::Reconnect { wait_secs: wait }
            },
            RunEvent::EventLoopStopped => RunAction::Reconnect { wait_secs: 0 },
            RunEvent::ShutdownSignal => RunAction::Disconnect,
        }
    }
}

/// A failure never shortens the wait, and the wait stays within its bounds.
pub proof fn law_delay_grows_within_bounds(d: nat)
    requires
        INITIAL_RETRY_DELAY_SECS <= d <= MAX_RETRY_DELAY_SECS,
    ensures
        d <= next_delay(d),
        INITIAL_RETRY_DELAY_SECS <= next_delay(d) <= MAX_RETRY_DELAY_SECS,
        d == MAX_RETRY_DELAY_SECS ==> next_delay(d) == d,
{
}

/// After `n` failures the wait is `2^n` seconds, capped at the maximum.
pub proof fn law_delay_after_failures(n: nat)
    ensures
        delay_after_failures(n) == if pow2(n) <= MAX_RETRY_DELAY_SECS {
            pow2(n)
        } else {
            MAX_RETRY_DELAY_SECS as nat
        },
    decreases n,
{
    vstd::arithmetic::power2::lemma2_to64();
    if n > 0 {
        law_delay_after_failures((n - 1) as nat);
        vstd::arithmetic::power2::lemma_pow2_unfold(n);
    }
}

/// From the sixth failure on, the wait is the maximum.
pub proof fn law_delay_saturates(n: nat)
    requires
        n >= 6,
    ensures
        delay_after_failures(n) == MAX_RETRY_DELAY_SECS,
    decreases n,
{
    if n == 6 {
        reveal_with_fuel(delay_after_failures, 7);
    } else {
        law_delay_saturates((n - 1) as nat);
    }
}

/// Over a whole run, only failures count: after any sequence of events from
/// start-up, the delay is the delay after as many failures, and lies between
/// the initial and the maximum wait.
pub proof fn law_delay_over_run(events: Seq<RunEvent>)
    ensures
        delay_after_events(events) == delay_after_failures(failure_count(events)),
        INITIAL_RETRY_DELAY_SECS <= delay_after_events(events) <= MAX_RETRY_DELAY_SECS,
    decreases events.len(),
{
    if events.len() > 0 {
        law_delay_over_run(events.drop_last());
    }
}

/// The waits of a run: the `k`-th failure of a run (counting from 0) is
/// followed by a wait of `min(2^k, 60)` seconds, and a later failure never
/// waits less than an earlier one. The wait after the event at position `i`
/// is the delay after the events before it (`on_event`).
pub proof fn law_waits_over_run(events: Seq<RunEvent>, i: int, j: int)
    requires
        0 <= i <= j < events.len(),
    ensures
        delay_after_events(events.take(i)) == if pow2(failure_count(events.take(i))) <= MAX_RETRY_DELAY_SECS {
            pow2(failure_count(events.take(i)))
        } else {
            MAX_RETRY_DELAY_SECS as nat
        },
        INITIAL_RETRY_DELAY_SECS <= delay_after_events(events.take(i)) <= MAX_RETRY_DELAY_SECS,
        delay_after_events(events.take(i)) <= delay_after_events(events.take(j)),
    decreases j - i,
{
    law_delay_over_run(events.take(i));
    law_delay_after_failures(failure_count(events.take(i)));
    if i < j {
        law_waits_over_run(events, i, j - 1);
        let prefix = events.take(j);
        assert(prefix.drop_last() =~= events.take(j - 1));
        law_delay_over_run(events.take(j - 1));
        law_delay_grows_within_bounds(delay_after_events(events.take(j - 1)));
    }
}

} // verus!
