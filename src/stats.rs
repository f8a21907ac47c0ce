use std::time::{Duration, Instant};
use vstd::prelude::*;

verus! {

#[verifier::external_type_specification]
#[verifier::external_body]
pub struct ExInstant(std::time::Instant);

/// Nanoseconds in a second.
pub const NANOS_PER_SEC: u128 = 1_000_000_000;

/// Nanoseconds in a millisecond.
pub const NANOS_PER_MILLI: u128 = 1_000_000;

/// Relies on `Instant::now`: the current time, of which nothing is known.
#[verifier::external_body]
fn now() -> Instant {
    Instant::now()
}

/// Relies on `Instant::elapsed`: the time since `t`, of which nothing is known.
#[verifier::external_body]
fn elapsed(t: &Instant) -> Duration {
    t.elapsed()
}

/// Relies on `Duration::as_nanos`: the length of `d` in nanoseconds, which
/// depends on the clock.
#[verifier::external_body]
fn as_nanos(d: &Duration) -> u128 {
    d.as_nanos()
}

/// The milliseconds past the whole seconds of a span of `nanos` nanoseconds.
pub fn subsec_millis(nanos: u128) -> (r: u32)
    ensures
        r == (nanos % NANOS_PER_SEC) / NANOS_PER_MILLI,
        r < 1000,
{
    ((nanos % NANOS_PER_SEC) / NANOS_PER_MILLI) as u32
}

/// Counts timed events and adds up the time they took.
pub struct Stats {
    num_events: u32,
    total_nanos: u128,
    last_tick: Instant,
}

impl Stats {
    /// Number of events recorded.
    pub closed spec fn events(&self) -> u32 {
        self.num_events
    }

    /// Total time of the events recorded, in nanoseconds.
    pub closed spec fn total(&self) -> u128 {
        self.total_nanos
    }

    /// Number of events recorded.
    pub fn num_events(&self) -> (r: u32)
        ensures
            r == self.events(),
    {
        self.num_events
    }

    /// Total time of the events recorded, in nanoseconds.
    pub fn total_nanos(&self) -> (r: u128)
        ensures
            r == self.total(),
    {
        self.total_nanos
    }

    /// Records one event that took `nanos` nanoseconds, and returns the
    /// milliseconds past its whole seconds. Both counts stop at their
    /// largest value.
    pub fn record(&mut self, nanos: u128) -> (r: u32)
        ensures
            final(self).events() == old(self).events().saturating_add(1),
            final(self).total() == old(self).total().saturating_add(nanos),
            r == (nanos % NANOS_PER_SEC) / NANOS_PER_MILLI,
    {
        self.num_events = self.num_events.saturating_add(1);
        self.total_nanos = self.total_nanos.saturating_add(nanos);
        subsec_millis(nanos)
    }

    /// Marks the end of the event started last, records it, and returns the
    /// milliseconds past the whole seconds of its length.
    pub fn end_event(&mut self) -> (r: u32)
        ensures
            final(self).events() == old(self).events().saturating_add(1),
            exists|nanos: u128|
                final(self).total() == old(self).total().saturating_add(nanos) && r == (nanos
                    % NANOS_PER_SEC) / NANOS_PER_MILLI,
    {
        let d = elapsed(&self.last_tick);
        let nanos = as_nanos(&d);
        self.record(nanos)
    }

    /// Marks the start of an event.
    pub fn start_event(&mut self)
        ensures
            final(self).events() == old(self).events(),
            final(self).total() == old(self).total(),
    {
        self.last_tick = now();
    }

    /// Runs `f` and records it as one event.
    pub fn time<F: FnOnce()>(&mut self, f: F)
        requires
            f.requires(()),
        ensures
            final(self).events() == old(self).events().saturating_add(1),
            exists|nanos: u128| final(self).total() == old(self).total().saturating_add(nanos),
    {
        let before = now();
        f();
        let d = elapsed(&before);
        let nanos = as_nanos(&d);
        self.record(nanos);
    }
}

impl Default for Stats {
    fn default() -> (r: Stats)
        ensures
            r.events() == 0,
            r.total() == 0,
    {
        Stats { num_events: 0, total_nanos: 0, last_tick: now() }
    }
}

} // verus!
