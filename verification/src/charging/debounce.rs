//! Time-based debouncer shared by every gate the supervisor clocks.

use crate::time::{Duration, MAX_NANOS};
use vstd::prelude::*;

verus! {

/// Counts elapsed time while a condition holds and resets when it does not. One
/// per condition that matters: overvoltage, the absorb cap, the exit taper, a
/// missing battery, an unhealthy link.
#[derive(Clone, Copy, Debug, PartialEq, Eq, Structural)]
pub struct Debounce {
    pub elapsed: Duration,
}

impl Default for Debounce {
    /// An empty window.
    fn default() -> (d: Self)
        ensures
            d == Debounce::empty(),
    {
        Debounce { elapsed: Duration::zero() }
    }
}

impl Debounce {
    /// The empty window.
    pub open spec fn empty() -> Debounce {
        Debounce { elapsed: Duration { nanos: 0 } }
    }

    /// The window after `dt` more of a condition that holds or not.
    pub open spec fn stepped(self, cond: bool, dt: Duration) -> Debounce {
        if cond {
            Debounce { elapsed: self.elapsed.plus(dt) }
        } else {
            Debounce::empty()
        }
    }

    /// The window after `dt` more, where a condition that does not hold drains it.
    pub open spec fn stepped_leaky(self, cond: bool, dt: Duration) -> Debounce {
        Debounce {
            elapsed: if cond {
                self.elapsed.plus(dt)
            } else {
                self.elapsed.minus(dt)
            },
        }
    }

    /// The window has reached `timeout`.
    pub open spec fn reached(self, timeout: Duration) -> bool {
        self.elapsed@ >= timeout@
    }

    /// Adds `dt` if `cond`, else resets. Returns true once the accumulated time
    /// of a condition that still holds reaches `timeout`.
    pub fn step(&mut self, cond: bool, dt: Duration, timeout: Duration) -> (fired: bool)
        ensures
            *final(self) == old(self).stepped(cond, dt),
            fired == (cond && final(self).reached(timeout)),
    {
        if cond {
            self.elapsed = self.elapsed.saturating_add(dt);
            self.elapsed.at_least(timeout)
        } else {
            self.elapsed = Duration::zero();
            false
        }
    }

    /// Clears the accumulated window.
    pub fn reset(&mut self)
        ensures
            *final(self) == Debounce::empty(),
    {
        self.elapsed = Duration::zero();
    }

    /// Like `step`, but a false `cond` drains the window by `dt` instead of
    /// zeroing it. It fires once the net time the condition held reaches
    /// `timeout`, so short interruptions cost only the time they lasted. A window
    /// that fired has to be reset before it runs on: it may overshoot by the tick
    /// that crossed the line and no further.
    pub fn step_leaky(&mut self, cond: bool, dt: Duration, timeout: Duration) -> (fired: bool)
        requires
            old(self).stepped_leaky(cond, dt).elapsed@ <= timeout.plus(dt)@,
        ensures
            *final(self) == old(self).stepped_leaky(cond, dt),
            fired == final(self).reached(timeout),
    {
        if cond {
            self.elapsed = self.elapsed.saturating_add(dt);
        } else {
            self.elapsed = self.elapsed.saturating_sub(dt);
        }
        self.elapsed.at_least(timeout)
    }
}

/// The total of some spans, held at the longest.
pub open spec fn total(spans: Seq<Duration>) -> Duration
    decreases spans.len(),
{
    if spans.len() == 0 {
        Duration { nanos: 0 }
    } else {
        total(spans.drop_last()).plus(spans.last())
    }
}

/// The window after spans of one condition.
pub open spec fn after_spans(d: Debounce, cond: bool, spans: Seq<Duration>) -> Debounce
    decreases spans.len(),
{
    if spans.len() == 0 {
        d
    } else {
        after_spans(d, cond, spans.drop_last()).stepped(cond, spans.last())
    }
}

/// What counts is the time a condition held without a break, however it is split
/// into ticks; a single tick without it starts over.
pub proof fn window_counts_unbroken_time(spans: Seq<Duration>, d: Debounce, dt: Duration)
    ensures
        after_spans(Debounce::empty(), true, spans).elapsed == total(spans),
        d.stepped(false, dt) == Debounce::empty(),
    decreases spans.len(),
{
    if spans.len() > 0 {
        window_counts_unbroken_time(spans.drop_last(), d, dt);
    }
}

/// In a leaky window an interruption costs exactly the time it lasted.
pub proof fn dip_costs_its_own_time(d: Debounce, gain: Duration, dip: Duration)
    requires
        dip@ <= d.elapsed@,
        d.elapsed@ + gain@ <= MAX_NANOS,
    ensures
        d.stepped_leaky(false, dip).elapsed@ == d.elapsed@ - dip@,
        d.stepped_leaky(false, dip).stepped_leaky(true, dip) == d,
        d.stepped_leaky(true, gain).elapsed@ == d.elapsed@ + gain@,
{
}

/// A leaky window that keeps losing as much time as it holds is empty.
pub proof fn long_break_empties_a_leaky_window(d: Debounce, dt: Duration)
    requires
        dt@ >= d.elapsed@,
    ensures
        d.stepped_leaky(false, dt) == Debounce::empty(),
{
}

} // verus!
