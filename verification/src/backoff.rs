//! Capped exponential backoff for the reconnect loop.
//!
//! Consecutive failed connection attempts wait longer and longer, doubling
//! from an initial delay up to a fixed ceiling; an attempt that yielded a
//! `Subscribed` event resets the next delay to the initial value. Jitter is
//! added on top by the caller from a random value it supplies, so that many
//! clients do not reconnect in lockstep.

use vstd::prelude::*;

verus! {

/// The first delay after a failure, in milliseconds.
pub const BACKOFF_INITIAL_MS: u64 = 1000;

/// The largest delay ever waited, in milliseconds (before jitter).
pub const BACKOFF_CEILING_MS: u64 = 60000;

/// The delay that follows `d` after one more failure: doubled, capped.
pub open spec fn next_backoff(d: u64) -> u64 {
    if 2 * (d as int) >= BACKOFF_CEILING_MS {
        BACKOFF_CEILING_MS
    } else {
        (2 * d) as u64
    }
}

/// Backoff monotonicity (law): one more failure never shortens the delay,
/// and the delay never passes the ceiling; the reset after a `Subscribed`
/// is [`BACKOFF_INITIAL_MS`] by [`Backoff::on_subscribed`]'s contract.
pub proof fn lemma_backoff_monotonic(d: u64)
    requires
        BACKOFF_INITIAL_MS <= d <= BACKOFF_CEILING_MS,
    ensures
        d <= next_backoff(d) <= BACKOFF_CEILING_MS,
{
}

/// The reconnect delay state of one event-stream runner.
pub struct Backoff {
    next_delay_ms: u64,
}

impl Backoff {
    /// The delay the next failure will wait (before jitter).
    pub closed spec fn pending_ms(&self) -> u64 {
        self.next_delay_ms
    }

    pub open spec fn wf(&self) -> bool {
        BACKOFF_INITIAL_MS <= self.pending_ms() <= BACKOFF_CEILING_MS
    }

    pub fn new() -> (r: Backoff)
        ensures
            r.wf(),
            r.pending_ms() == BACKOFF_INITIAL_MS,
    {
        Backoff { next_delay_ms: BACKOFF_INITIAL_MS }
    }

    /// A connection attempt failed: returns the delay to wait now and
    /// doubles the next one, up to the ceiling.
    pub fn on_failure(&mut self) -> (delay: u64)
        requires
            old(self).wf(),
        ensures
            final(self).wf(),
            delay == old(self).pending_ms(),
            final(self).pending_ms() == next_backoff(old(self).pending_ms()),
            final(self).pending_ms() >= old(self).pending_ms(),
    {
        let delay = self.next_delay_ms;
        if delay >= BACKOFF_CEILING_MS / 2 {
            self.next_delay_ms = BACKOFF_CEILING_MS;
        } else {
            self.next_delay_ms = 2 * delay;
        }
        delay
    }

    /// A connection attempt yielded a `Subscribed` event: the next delay
    /// resets to the initial value at once.
    pub fn on_subscribed(&mut self)
        ensures
            final(self).wf(),
            final(self).pending_ms() == BACKOFF_INITIAL_MS,
    {
        self.next_delay_ms = BACKOFF_INITIAL_MS;
    }

    /// Spreads a delay by a caller-supplied random value: the result lies
    /// between the delay and half as much again, whatever the value.
    pub fn jittered(delay: u64, random: u64) -> (r: u64)
        requires
            delay <= BACKOFF_CEILING_MS,
        ensures
            delay <= r <= delay + delay / 2,
    {
        delay + random % (delay / 2 + 1)
    }
}

/// How one connection attempt ended, as far as backoff cares: whether a
/// `Subscribed` event was seen before the terminal failure.
pub enum ConnectionOutcome {
    SubscribedReceived,
    Failed,
}

/// What the reconnect loop does next.
#[derive(PartialEq, Eq, Structural, Debug)]
pub enum RunnerAction {
    /// Wait this long (before jitter), then reconnect with a fresh decoder.
    ReconnectAfter { delay_ms: u64 },
    /// Shutdown was requested: close and stop.
    Stop,
}

/// The decision at the end of one connection attempt: stop on shutdown;
/// otherwise reset the backoff if the attempt had subscribed, take the
/// pending delay, and schedule the reconnect.
pub fn on_connection_end(
    backoff: &mut Backoff,
    outcome: ConnectionOutcome,
    shutdown_requested: bool,
) -> (action: RunnerAction)
    requires
        old(backoff).wf(),
    ensures
        final(backoff).wf(),
        shutdown_requested ==> action == RunnerAction::Stop && *final(backoff) == *old(backoff),
        !shutdown_requested && outcome is SubscribedReceived ==> action == (RunnerAction::ReconnectAfter {
            delay_ms: BACKOFF_INITIAL_MS,
        }) && final(backoff).pending_ms() == next_backoff(BACKOFF_INITIAL_MS),
        !shutdown_requested && outcome is Failed ==> action == (RunnerAction::ReconnectAfter {
            delay_ms: old(backoff).pending_ms(),
        }) && final(backoff).pending_ms() == next_backoff(old(backoff).pending_ms()),
{
    if shutdown_requested {
        return RunnerAction::Stop;
    }
    match outcome {
        ConnectionOutcome::SubscribedReceived => {
            backoff.on_subscribed();
        },
        ConnectionOutcome::Failed => {},
    }
    let delay = backoff.on_failure();
    RunnerAction::ReconnectAfter { delay_ms: delay }
}

} // verus!
