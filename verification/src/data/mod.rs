//! Sensor data: readings, samples, and the stores that keep them.
//!
//! [`SensorData`] puts two concerns together: readings that go stale, and the
//! adaptive-resolution history.

pub mod blob;
pub mod charge_status;
pub mod codec;
pub mod history;
pub mod live;
pub mod persistent;
pub mod record_laws;

use crate::charging::fault_reason::FaultReason;
use crate::charging::inhibit_reason::InhibitReason;
use crate::charging::phase::Phase;
use crate::data::blob::decoded;
use crate::data::charge_status::ChargeStatus;
use crate::data::history::{
    chronological, commit_keeps_order, deserialize, History, HistoryState, FORMAT_VERSION,
    MAX_INTERVAL,
};
use crate::float::{number, F32};
use crate::time::{seconds, Duration, MAX_NANOS};
use vstd::prelude::*;

verus! {

/// How long a reading may go unrefreshed before it counts as absent, in seconds.
/// Wall time and no tick count, so that a loop that stalls does not widen it.
pub const STALE_WINDOW: u64 = 5;

/// Supply voltage above which the supply counts as online: 2 V. By voltage and not
/// by current, so that a supply without load is online too.
pub const POWER_ONLINE_VOLTAGE_THRESHOLD: u32 = 0x4000_0000;

/// The bits of 1.
pub const ONE: u32 = 0x3f80_0000;

/// A reading of the battery.
#[derive(Clone, Copy, Debug, PartialEq, Eq, Structural)]
pub struct Ina228Reading {
    pub voltage: F32,
    pub current: F32,
    pub power: F32,
}

impl Default for Ina228Reading {
    /// All zero.
    fn default() -> (r: Self)
        ensures
            r == Ina228Reading::zero(),
    {
        let z = F32::from_bits(0);
        Ina228Reading { voltage: z, current: z, power: z }
    }
}

impl Ina228Reading {
    /// All zero.
    pub open spec fn zero() -> Ina228Reading {
        Ina228Reading { voltage: number(0), current: number(0), power: number(0) }
    }

    /// Every field is a number.
    pub open spec fn finite(self) -> bool {
        self.voltage.finite() && self.current.finite() && self.power.finite()
    }

    /// Every field is a number. A sensor that reports anything else reports no
    /// reading, and one such value would spoil every average it enters.
    pub fn is_finite(&self) -> (b: bool)
        ensures
            b == self.finite(),
    {
        self.voltage.is_finite() && self.current.is_finite() && self.power.is_finite()
    }
}

/// A reading of the power supply. `v_set` and `i_set` are the programmed targets:
/// what the buck is told to do against what it puts out.
#[derive(Clone, Copy, Debug, PartialEq, Eq, Structural)]
pub struct PsReading {
    pub voltage: F32,
    pub current: F32,
    pub power: F32,
    pub v_set: F32,
    pub i_set: F32,
}

impl Default for PsReading {
    /// All zero.
    fn default() -> (r: Self)
        ensures
            r == PsReading::zero(),
    {
        let z = F32::from_bits(0);
        PsReading { voltage: z, current: z, power: z, v_set: z, i_set: z }
    }
}

impl PsReading {
    /// All zero.
    pub open spec fn zero() -> PsReading {
        PsReading {
            voltage: number(0),
            current: number(0),
            power: number(0),
            v_set: number(0),
            i_set: number(0),
        }
    }

    /// Every field is a number.
    pub open spec fn finite(self) -> bool {
        self.voltage.finite() && self.current.finite() && self.power.finite()
            && self.v_set.finite() && self.i_set.finite()
    }

    /// Every field is a number.
    pub fn is_finite(&self) -> (b: bool)
        ensures
            b == self.finite(),
    {
        self.voltage.is_finite() && self.current.is_finite() && self.power.is_finite()
            && self.v_set.is_finite() && self.i_set.is_finite()
    }
}

/// One data point with its time, from both sensors.
#[derive(Clone, Copy, Debug, PartialEq, Eq, Structural)]
pub struct Sample {
    pub time_s: u32,
    pub voltage: F32,
    pub battery_current: F32,
    pub ps_current: F32,
    /// 1 when the power supply is online, 0 when offline; averaged in between.
    pub power_online: F32,
}

impl Default for Sample {
    /// All zero.
    fn default() -> (s: Self)
        ensures
            s == (Sample {
                time_s: 0,
                voltage: number(0),
                battery_current: number(0),
                ps_current: number(0),
                power_online: number(0),
            }),
    {
        let z = F32::from_bits(0);
        Sample { time_s: 0, voltage: z, battery_current: z, ps_current: z, power_online: z }
    }
}

/// The latest reading of each side and the time since it was accepted.
#[derive(Clone, Copy, Debug, PartialEq, Eq, Structural)]
pub struct FreshReadings {
    pub latest_battery: Option<Ina228Reading>,
    pub latest_ps: Option<PsReading>,
    pub battery_stale: Duration,
    pub ps_stale: Duration,
}

impl FreshReadings {
    /// Both sides absent until the first reading.
    pub open spec fn absent() -> FreshReadings {
        FreshReadings {
            latest_battery: None,
            latest_ps: None,
            battery_stale: Duration { nanos: MAX_NANOS },
            ps_stale: Duration { nanos: MAX_NANOS },
        }
    }

    /// A battery reading arrived; one that is not finite is dropped.
    pub open spec fn with_battery(self, bat: Ina228Reading) -> FreshReadings {
        if bat.finite() {
            FreshReadings {
                latest_battery: Some(bat),
                battery_stale: Duration { nanos: 0 },
                ..self
            }
        } else {
            self
        }
    }

    /// A supply reading arrived; one that is not finite is dropped.
    pub open spec fn with_ps(self, ps: PsReading) -> FreshReadings {
        if ps.finite() {
            FreshReadings { latest_ps: Some(ps), ps_stale: Duration { nanos: 0 }, ..self }
        } else {
            self
        }
    }

    /// The readings after `elapsed` more.
    pub open spec fn aged(self, elapsed: Duration) -> FreshReadings {
        FreshReadings {
            battery_stale: self.battery_stale.plus(elapsed),
            ps_stale: self.ps_stale.plus(elapsed),
            ..self
        }
    }

    /// The battery reading while it is fresh.
    pub open spec fn fresh_battery(self) -> Option<Ina228Reading> {
        if self.battery_stale@ > seconds(STALE_WINDOW as nat)@ {
            None
        } else {
            self.latest_battery
        }
    }

    /// The supply reading while it is fresh.
    pub open spec fn fresh_ps(self) -> Option<PsReading> {
        if self.ps_stale@ > seconds(STALE_WINDOW as nat)@ {
            None
        } else {
            self.latest_ps
        }
    }

    /// 1 when a fresh supply reading shows measurable voltage, else 0.
    pub open spec fn online(self) -> F32 {
        match self.fresh_ps() {
            Some(ps) => if number(POWER_ONLINE_VOLTAGE_THRESHOLD).below(ps.voltage) {
                number(ONE)
            } else {
                number(0)
            },
            None => number(0),
        }
    }

    /// The sample to record at `time_s`; a stale side contributes zeros.
    pub open spec fn sample_at(self, time_s: u32) -> Sample {
        let bat = match self.fresh_battery() {
            Some(b) => b,
            None => Ina228Reading::zero(),
        };
        let ps = match self.fresh_ps() {
            Some(p) => p,
            None => PsReading::zero(),
        };
        Sample {
            time_s,
            voltage: bat.voltage,
            battery_current: bat.current,
            ps_current: ps.current,
            power_online: self.online(),
        }
    }

    /// Both sides absent until the first reading.
    pub fn new() -> (r: FreshReadings)
        ensures
            r == FreshReadings::absent(),
    {
        FreshReadings {
            latest_battery: None,
            latest_ps: None,
            battery_stale: Duration::max(),
            ps_stale: Duration::max(),
        }
    }

    /// Publishes a battery reading; one that is not finite is dropped.
    pub fn update_battery(&mut self, bat: Ina228Reading)
        ensures
            *final(self) == old(self).with_battery(bat),
    {
        if !bat.is_finite() {
            return;
        }
        self.latest_battery = Some(bat);
        self.battery_stale = Duration::zero();
    }

    /// Publishes a supply reading; one that is not finite is dropped.
    pub fn update_ps(&mut self, ps: PsReading)
        ensures
            *final(self) == old(self).with_ps(ps),
    {
        if !ps.is_finite() {
            return;
        }
        self.latest_ps = Some(ps);
        self.ps_stale = Duration::zero();
    }

    /// Ages both sides by the time since the previous tick.
    pub fn age(&mut self, elapsed: Duration)
        ensures
            *final(self) == old(self).aged(elapsed),
    {
        self.battery_stale = self.battery_stale.saturating_add(elapsed);
        self.ps_stale = self.ps_stale.saturating_add(elapsed);
    }

    /// Latest battery reading; `None` before the first and once it is stale.
    pub fn battery(&self) -> (r: Option<Ina228Reading>)
        ensures
            r == self.fresh_battery(),
    {
        if !Duration::from_secs(STALE_WINDOW).at_least(self.battery_stale) {
            return None;
        }
        self.latest_battery
    }

    /// Latest supply reading; `None` before the first and once it is stale.
    pub fn ps(&self) -> (r: Option<PsReading>)
        ensures
            r == self.fresh_ps(),
    {
        if !Duration::from_secs(STALE_WINDOW).at_least(self.ps_stale) {
            return None;
        }
        self.latest_ps
    }

    /// 1 when a fresh supply reading shows measurable voltage, else 0.
    pub fn power_online(&self) -> (r: F32)
        ensures
            r == self.online(),
    {
        if let Some(ps) = self.ps() {
            if ps.voltage.gt(F32::from_bits(POWER_ONLINE_VOLTAGE_THRESHOLD)) {
                return F32::from_bits(ONE);
            }
        }
        F32::from_bits(0)
    }
}

/// What a data store holds of the sensors.
pub ghost struct StoreState {
    pub live: FreshReadings,
    pub history: HistoryState,
}

impl StoreState {
    /// The history is within its bounds.
    pub open spec fn wf(self) -> bool {
        self.history.wf()
    }

    /// One tick: the readings age, and one raw sample is committed, unless there is
    /// no time to stamp it with or the time has not moved past the newest sample.
    pub open spec fn ticked(self, now_epoch: Option<u32>, elapsed: Duration) -> StoreState {
        let live = self.live.aged(elapsed);
        match now_epoch {
            None => StoreState { live, ..self },
            Some(t) => if self.history.samples.len() > 0 && t
                <= self.history.samples.last().time_s {
                StoreState { live, ..self }
            } else {
                StoreState { live, history: self.history.committed(live.sample_at(t)) }
            },
        }
    }
}

/// Central data store. Producers publish through `update_battery` and `update_ps`;
/// a periodic `tick` records history, so that one dead producer cannot halt it.
pub struct SensorData {
    live: FreshReadings,
    history: History,
    /// The buck's model register, read once at boot; 0 means not yet read.
    pub model_code: u16,
    /// The DC supply is disconnected or sagged; clears when it returns.
    pub ps_offline: bool,
    /// Charging phase; `None` while the output is off.
    pub charge_phase: Option<Phase>,
    /// Latched fault; stays until a reboot.
    pub charge_fault: Option<FaultReason>,
    /// Why the buck is held off without a latched fault.
    pub charge_inhibit: Option<InhibitReason>,
}

impl Default for SensorData {
    /// Nothing read and nothing recorded.
    fn default() -> (d: Self)
        ensures
            d.wf(),
            d@ == (StoreState {
                live: FreshReadings::absent(),
                history: HistoryState::empty(MAX_INTERVAL),
            }),
            d.status() == (ChargeStatus {
                model_code: 0,
                ps_offline: false,
                phase: None,
                fault: None,
                inhibit: None,
            }),
    {
        SensorData::new()
    }
}

impl SensorData {
    /// What the store holds of the sensors.
    pub closed spec fn view(&self) -> StoreState {
        StoreState { live: self.live, history: self.history@ }
    }

    /// The store's invariant.
    pub open spec fn wf(&self) -> bool {
        self@.wf()
    }

    /// What the charge supervisor has published.
    pub closed spec fn status(&self) -> ChargeStatus {
        ChargeStatus {
            model_code: self.model_code,
            ps_offline: self.ps_offline,
            phase: self.charge_phase,
            fault: self.charge_fault,
            inhibit: self.charge_inhibit,
        }
    }

    /// Nothing read and nothing recorded.
    pub fn new() -> (d: SensorData)
        ensures
            d.wf(),
            d@ == (StoreState {
                live: FreshReadings::absent(),
                history: HistoryState::empty(MAX_INTERVAL),
            }),
            d.status() == (ChargeStatus {
                model_code: 0,
                ps_offline: false,
                phase: None,
                fault: None,
                inhibit: None,
            }),
    {
        SensorData {
            live: FreshReadings::new(),
            history: History::new(),
            model_code: 0,
            ps_offline: false,
            charge_phase: None,
            charge_fault: None,
            charge_inhibit: None,
        }
    }

    /// Publishes a battery reading. Records nothing.
    pub fn update_battery(&mut self, bat: Ina228Reading)
        requires
            old(self).wf(),
        ensures
            final(self).wf(),
            final(self)@ == (StoreState { live: old(self)@.live.with_battery(bat), ..old(self)@ }),
            final(self).status() == old(self).status(),
    {
        self.live.update_battery(bat);
    }

    /// Publishes a supply reading. Records nothing.
    pub fn update_ps(&mut self, ps: PsReading)
        requires
            old(self).wf(),
        ensures
            final(self).wf(),
            final(self)@ == (StoreState { live: old(self)@.live.with_ps(ps), ..old(self)@ }),
            final(self).status() == old(self).status(),
    {
        self.live.update_ps(ps);
    }

    /// Latest battery reading; `None` before the first and once it is stale.
    pub fn battery_reading(&self) -> (r: Option<Ina228Reading>)
        ensures
            r == self@.live.fresh_battery(),
    {
        self.live.battery()
    }

    /// Latest supply reading; `None` before the first and once it is stale.
    pub fn ps_reading(&self) -> (r: Option<PsReading>)
        ensures
            r == self@.live.fresh_ps(),
    {
        self.live.ps()
    }

    /// 1 when a fresh supply reading shows measurable voltage, else 0.
    pub fn power_online(&self) -> (r: F32)
        ensures
            r == self@.live.online(),
    {
        self.live.power_online()
    }

    /// The recorded samples.
    pub fn history(&self) -> (s: &[Sample])
        ensures
            s@ == self@.history.samples,
    {
        self.history.samples()
    }

    /// How many raw samples make one recorded sample.
    pub fn interval(&self) -> (n: u32)
        ensures
            n == self@.history.interval,
    {
        self.history.interval()
    }

    /// Drives the store forward by one tick. `elapsed` is the time since the
    /// previous call. `now_epoch` is the second to stamp on a recorded sample;
    /// `None`, where the clock is not set, records nothing but ages the readings.
    ///
    /// A time at or before the newest sample's records nothing either: a clock
    /// stepped back must not put the history out of order.
    pub fn tick(&mut self, now_epoch: Option<u32>, elapsed: Duration)
        requires
            old(self).wf(),
        ensures
            final(self).wf(),
            final(self)@ == old(self)@.ticked(now_epoch, elapsed),
            final(self).status() == old(self).status(),
            chronological(old(self)@.history.samples) ==> chronological(
                final(self)@.history.samples,
            ),
    {
        self.live.age(elapsed);
        let time_s = match now_epoch {
            Some(t) => t,
            None => return,
        };
        if let Some(last) = self.history.last_time() {
            if time_s <= last {
                return;
            }
        }
        // A stale side yields zeros: the history stays continuous, and the zeros
        // show the dead producer.
        let bat = match self.live.battery() {
            Some(b) => b,
            None => Ina228Reading::default(),
        };
        let ps = match self.live.ps() {
            Some(p) => p,
            None => PsReading::default(),
        };
        let sample = Sample {
            time_s,
            voltage: bat.voltage,
            battery_current: bat.current,
            ps_current: ps.current,
            power_online: self.live.power_online(),
        };
        proof {
            if chronological(self.history@.samples) {
                commit_keeps_order(self.history@, sample);
            }
        }
        self.history.commit(sample);
    }

    /// Restores the history from its stored form in place of what is held. Returns
    /// `false` and changes nothing where the bytes are malformed.
    pub fn load_from_bytes(&mut self, bytes: &[u8]) -> (ok: bool)
        requires
            old(self).wf(),
        ensures
            final(self).wf(),
            ok == decoded(FORMAT_VERSION, bytes@) is Some,
            ok ==> final(self)@ == (StoreState {
                history: old(self)@.history.restored(
                    (decoded(FORMAT_VERSION, bytes@)->0).0,
                    (decoded(FORMAT_VERSION, bytes@)->0).1,
                ),
                ..old(self)@
            }),
            !ok ==> final(self)@ == old(self)@,
            final(self).status() == old(self).status(),
    {
        deserialize(bytes, &mut self.history)
    }
}

/// The recorded history stays in order and within its capacity whatever the clock
/// does.
pub proof fn history_stays_in_order(s: StoreState, now_epoch: Option<u32>, elapsed: Duration)
    requires
        s.wf(),
        chronological(s.history.samples),
    ensures
        s.ticked(now_epoch, elapsed).wf(),
        chronological(s.ticked(now_epoch, elapsed).history.samples),
{
    if let Some(t) = now_epoch {
        if s.history.samples.len() == 0 || t > s.history.samples.last().time_s {
            commit_keeps_order(s.history, s.live.aged(elapsed).sample_at(t));
        }
    }
}

/// A time that has not moved past the newest sample records nothing.
pub proof fn clock_step_back_records_nothing(s: StoreState, t: u32, elapsed: Duration)
    requires
        s.history.samples.len() > 0,
        t <= s.history.samples.last().time_s,
    ensures
        s.ticked(Some(t), elapsed).history == s.history,
        s.ticked(Some(t), elapsed).live == s.live.aged(elapsed),
{
}

/// A reading lasts for the stale window and no longer, however the time is split
/// into ticks.
pub proof fn readings_last_for_the_window(r: FreshReadings, a: Duration, b: Duration)
    requires
        r.battery_stale@ == 0,
        r.ps_stale@ == 0,
        r.latest_battery is Some,
        r.latest_ps is Some,
    ensures
        r.aged(a).aged(b) == r.aged(a.plus(b)),
        r.aged(a).fresh_battery() is Some <==> a@ <= seconds(STALE_WINDOW as nat)@,
        r.aged(a).fresh_ps() is Some <==> a@ <= seconds(STALE_WINDOW as nat)@,
{
}

/// A reading that is not finite changes nothing: neither the reading held nor how
/// long it has been held.
pub proof fn non_finite_readings_are_dropped(r: FreshReadings, bat: Ina228Reading, ps: PsReading)
    ensures
        !bat.finite() ==> r.with_battery(bat) == r,
        !ps.finite() ==> r.with_ps(ps) == r,
{
}

} // verus!
