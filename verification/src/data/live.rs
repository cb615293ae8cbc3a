//! Latest readings, with staleness counted in ticks.
//!
//! Producers publish through `update_battery` and `update_ps`; the supervising
//! tick calls `age`. Readers get `None` once a producer has gone silent, so a dead
//! sensor shows as missing and not as a frozen value.

use crate::data::{Ina228Reading, PsReading, POWER_ONLINE_VOLTAGE_THRESHOLD, ONE};
use crate::float::{number, F32};
use vstd::prelude::*;

verus! {

/// Ticks a reading may go unrefreshed.
pub const STALE_TICKS: u32 = 5;

/// One tick more; the count stays at its largest value.
pub open spec fn ticked(n: u32) -> u32 {
    if n == u32::MAX {
        u32::MAX
    } else {
        (n + 1) as u32
    }
}

/// The latest reading of each side and the ticks since it came.
#[derive(Clone, Copy, Debug, PartialEq, Eq, Structural)]
pub struct LiveReadings {
    pub latest_battery: Option<Ina228Reading>,
    pub latest_ps: Option<PsReading>,
    pub battery_ticks_stale: u32,
    pub ps_ticks_stale: u32,
}

impl Default for LiveReadings {
    /// Both sides absent.
    fn default() -> (l: Self)
        ensures
            l == LiveReadings::absent(),
    {
        LiveReadings::new()
    }
}

impl LiveReadings {
    /// Both sides absent until the first reading.
    pub open spec fn absent() -> LiveReadings {
        LiveReadings {
            latest_battery: None,
            latest_ps: None,
            battery_ticks_stale: u32::MAX,
            ps_ticks_stale: u32::MAX,
        }
    }

    /// The battery reading while it is fresh.
    pub open spec fn fresh_battery(self) -> Option<Ina228Reading> {
        if self.battery_ticks_stale > STALE_TICKS {
            None
        } else {
            self.latest_battery
        }
    }

    /// The supply reading while it is fresh.
    pub open spec fn fresh_ps(self) -> Option<PsReading> {
        if self.ps_ticks_stale > STALE_TICKS {
            None
        } else {
            self.latest_ps
        }
    }

    /// The readings one tick later.
    pub open spec fn aged(self) -> LiveReadings {
        LiveReadings {
            battery_ticks_stale: ticked(self.battery_ticks_stale),
            ps_ticks_stale: ticked(self.ps_ticks_stale),
            ..self
        }
    }

    /// The readings `n` ticks later.
    pub open spec fn aged_by(self, n: nat) -> LiveReadings
        decreases n,
    {
        if n == 0 {
            self
        } else {
            self.aged_by((n - 1) as nat).aged()
        }
    }

    /// Both sides absent until the first reading.
    pub fn new() -> (l: LiveReadings)
        ensures
            l == LiveReadings::absent(),
    {
        LiveReadings {
            latest_battery: None,
            latest_ps: None,
            battery_ticks_stale: u32::MAX,
            ps_ticks_stale: u32::MAX,
        }
    }

    /// Publishes a battery reading.
    pub fn update_battery(&mut self, bat: Ina228Reading)
        ensures
            *final(self) == (LiveReadings {
                latest_battery: Some(bat),
                battery_ticks_stale: 0,
                ..*old(self)
            }),
    {
        self.latest_battery = Some(bat);
        self.battery_ticks_stale = 0;
    }

    /// Publishes a supply reading.
    pub fn update_ps(&mut self, ps: PsReading)
        ensures
            *final(self) == (LiveReadings { latest_ps: Some(ps), ps_ticks_stale: 0, ..*old(self) }),
    {
        self.latest_ps = Some(ps);
        self.ps_ticks_stale = 0;
    }

    /// Ages both sides by one tick.
    pub fn age(&mut self)
        ensures
            *final(self) == old(self).aged(),
    {
        self.battery_ticks_stale = self.battery_ticks_stale.saturating_add(1);
        self.ps_ticks_stale = self.ps_ticks_stale.saturating_add(1);
    }

    /// Latest battery reading; `None` before the first and once it is stale.
    pub fn battery(&self) -> (r: Option<Ina228Reading>)
        ensures
            r == self.fresh_battery(),
    {
        if self.battery_ticks_stale > STALE_TICKS {
            return None;
        }
        self.latest_battery
    }

    /// Latest supply reading; `None` before the first and once it is stale.
    pub fn ps(&self) -> (r: Option<PsReading>)
        ensures
            r == self.fresh_ps(),
    {
        if self.ps_ticks_stale > STALE_TICKS {
            return None;
        }
        self.latest_ps
    }

    /// 1 when a fresh supply reading shows measurable voltage, else 0.
    pub fn power_online(&self) -> (r: F32)
        ensures
            r == (match self.fresh_ps() {
                Some(ps) => if number(POWER_ONLINE_VOLTAGE_THRESHOLD).below(ps.voltage) {
                    number(ONE)
                } else {
                    number(0)
                },
                None => number(0),
            }),
    {
        if let Some(ps) = self.ps() {
            if ps.voltage.gt(F32::from_bits(POWER_ONLINE_VOLTAGE_THRESHOLD)) {
                return F32::from_bits(ONE);
            }
        }
        F32::from_bits(0)
    }
}

/// A reading that is not refreshed lasts `STALE_TICKS` ticks and no longer, and
/// stays gone.
pub proof fn readings_go_stale(l: LiveReadings, n: nat)
    requires
        l.battery_ticks_stale == 0,
        l.ps_ticks_stale == 0,
    ensures
        n <= STALE_TICKS ==> {
            &&& l.aged_by(n).fresh_battery() == l.latest_battery
            &&& l.aged_by(n).fresh_ps() == l.latest_ps
        },
        n > STALE_TICKS ==> {
            &&& l.aged_by(n).fresh_battery() is None
            &&& l.aged_by(n).fresh_ps() is None
        },
{
    lemma_aged_count(l, n);
}

proof fn lemma_aged_count(l: LiveReadings, n: nat)
    requires
        l.battery_ticks_stale == 0,
        l.ps_ticks_stale == 0,
    ensures
        l.aged_by(n).latest_battery == l.latest_battery,
        l.aged_by(n).latest_ps == l.latest_ps,
        n <= u32::MAX ==> l.aged_by(n).battery_ticks_stale == n && l.aged_by(n).ps_ticks_stale == n,
        n > u32::MAX ==> l.aged_by(n).battery_ticks_stale == u32::MAX && l.aged_by(n).ps_ticks_stale
            == u32::MAX,
    decreases n,
{
    if n > 0 {
        lemma_aged_count(l, (n - 1) as nat);
    }
}

} // verus!
