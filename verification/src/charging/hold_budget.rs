//! Rate limit on self-clearing buck protections.

use crate::charging::{FLAP_WINDOW, MAX_HOLDS};
use crate::time::{seconds, Duration};
use vstd::prelude::*;

verus! {

/// How often the buck has dropped into a self-clearing hold lately.
///
/// One hold is routine: the supply was unplugged, the case got warm. A stream of
/// them is a rail that cannot carry the charge current, and every turn of that
/// loop takes the output away and gives it back. Counting the holds turns "wait
/// it out" into "wait it out a few times, and then stop".
#[derive(Clone, Copy, Debug, PartialEq, Eq, Structural)]
pub struct HoldBudget {
    pub holds: u8,
    /// Time since the most recent hold. Past `FLAP_WINDOW` the run is over and
    /// the count starts again.
    pub since_last: Duration,
}

impl Default for HoldBudget {
    /// No holds yet.
    fn default() -> (h: Self)
        ensures
            h == HoldBudget::fresh(),
    {
        HoldBudget { holds: 0, since_last: Duration::zero() }
    }
}

impl HoldBudget {
    /// No holds yet.
    pub open spec fn fresh() -> HoldBudget {
        HoldBudget { holds: 0, since_last: Duration { nanos: 0 } }
    }

    /// The budget after one more hold.
    pub open spec fn recorded(self) -> HoldBudget {
        HoldBudget {
            holds: if self.holds == u8::MAX {
                u8::MAX
            } else {
                (self.holds + 1) as u8
            },
            since_last: Duration { nanos: 0 },
        }
    }

    /// The budget after `dt` with no new hold.
    pub open spec fn aged(self, dt: Duration) -> HoldBudget {
        let quiet = self.since_last.plus(dt);
        HoldBudget {
            holds: if quiet@ > seconds(FLAP_WINDOW as nat)@ {
                0
            } else {
                self.holds
            },
            since_last: quiet,
        }
    }

    /// More holds in this run than are tolerated.
    pub open spec fn spent(self) -> bool {
        self.holds > MAX_HOLDS
    }

    /// Counts a hold that has just begun.
    pub fn record(&mut self)
        ensures
            *final(self) == old(self).recorded(),
    {
        self.holds = self.holds.saturating_add(1);
        self.since_last = Duration::zero();
    }

    /// Advances the quiet timer, and answers whether the current run of holds is
    /// over budget.
    ///
    /// A run ends when more than `FLAP_WINDOW` passes with no new hold, so this
    /// counts holds with no quiet stretch that long between any two of them.
    pub fn step(&mut self, dt: Duration) -> (over: bool)
        ensures
            *final(self) == old(self).aged(dt),
            over == final(self).spent(),
    {
        self.since_last = self.since_last.saturating_add(dt);
        let window = Duration::from_secs(FLAP_WINDOW);
        if !window.at_least(self.since_last) {
            self.holds = 0;
        }
        self.holds > MAX_HOLDS
    }
}

/// The budget after `n` holds, each followed by `dt` of quiet.
pub open spec fn after_run(start: HoldBudget, n: nat, dt: Duration) -> HoldBudget
    decreases n,
{
    if n == 0 {
        start
    } else {
        after_run(start, (n - 1) as nat, dt).recorded().aged(dt)
    }
}

/// From a fresh budget, a run of holds no further apart than the window is over
/// budget exactly when it counts more than `MAX_HOLDS` of them.
pub proof fn run_is_over_budget_past_max_holds(n: nat, dt: Duration)
    requires
        dt@ <= seconds(FLAP_WINDOW as nat)@,
        n <= u8::MAX,
    ensures
        after_run(HoldBudget::fresh(), n, dt).holds == n,
        after_run(HoldBudget::fresh(), n, dt).spent() <==> n > MAX_HOLDS,
    decreases n,
{
    if n > 0 {
        run_is_over_budget_past_max_holds((n - 1) as nat, dt);
    }
}

/// A quiet stretch longer than the window ends any run; one of exactly the
/// window after a hold does not.
pub proof fn quiet_stretch_ends_a_run(h: HoldBudget, dt: Duration)
    ensures
        dt@ > seconds(FLAP_WINDOW as nat)@ ==> h.aged(dt).holds == 0 && !h.aged(dt).spent(),
        dt@ <= seconds(FLAP_WINDOW as nat)@ ==> h.recorded().aged(dt).holds == h.recorded().holds,
{
}

} // verus!
