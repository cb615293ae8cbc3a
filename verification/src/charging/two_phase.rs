//! The plain two-phase strategy: a hysteresis controller on the charging current,
//! and a supervisor that counts ticks and never switches the output on itself.

use crate::battery::Chemistry;
use crate::charging::phase::Phase;
use crate::charging::poll_result::BatterySample;
use crate::charging::OV_MARGIN_V;
use crate::float::{number, F32};
use vstd::prelude::*;

verus! {

/// Consecutive ticks without a battery reading that latch.
pub const BATTERY_MISSING_TICKS_BUDGET: u32 = 10;

/// Consecutive failed reads from the buck that latch.
pub const MODBUS_ERR_BUDGET: u32 = 5;

/// Consecutive ticks over the overvoltage line that latch.
pub const OV_TICKS_BUDGET: u32 = 3;

/// Pack-level targets and thresholds.
#[derive(Copy, Clone, Debug, PartialEq, Eq, Structural)]
pub struct Profile {
    pub absorb_v: F32,
    pub float_v: F32,
    pub enter_absorb_a: F32,
    pub exit_absorb_a: F32,
}

impl Profile {
    /// Voltages scale with the cell count; currents are pack-level and stay as
    /// given.
    pub open spec fn of_pack(
        chemistry: Chemistry,
        cells: u8,
        enter_absorb_a: F32,
        exit_absorb_a: F32,
    ) -> Profile {
        Profile {
            absorb_v: chemistry.cell_voltages().absorb_v.product(F32::of_integer(cells as nat)),
            float_v: chemistry.cell_voltages().float_v.product(F32::of_integer(cells as nat)),
            enter_absorb_a,
            exit_absorb_a,
        }
    }

    /// Builds a pack-level profile from chemistry and series cell count.
    pub fn for_pack(chemistry: Chemistry, cells: u8, enter_absorb_a: F32, exit_absorb_a: F32) -> (p:
        Profile)
        requires
            cells > 0,
        ensures
            p == Profile::of_pack(chemistry, cells, enter_absorb_a, exit_absorb_a),
    {
        let v = chemistry.charge_voltages();
        let s = F32::from_u32(cells as u32);
        Profile {
            absorb_v: v.absorb_v.mul(s),
            float_v: v.float_v.mul(s),
            enter_absorb_a,
            exit_absorb_a,
        }
    }

    /// The thresholds leave a hysteresis band and the targets are ordered.
    pub open spec fn wf(self) -> bool {
        self.exit_absorb_a.below(self.enter_absorb_a) && self.float_v.below(self.absorb_v)
    }

    /// The target of a phase.
    pub open spec fn target(self, phase: Phase) -> F32 {
        match phase {
            Phase::Float => self.float_v,
            Phase::Absorb => self.absorb_v,
        }
    }

    /// The phase that follows on a battery current. One that is not finite
    /// changes nothing.
    pub open spec fn next_phase(self, phase: Phase, battery_current_a: F32) -> Phase {
        let charging_a = battery_current_a.negated();
        if !battery_current_a.finite() {
            phase
        } else {
            match phase {
                Phase::Float => if self.enter_absorb_a.below(charging_a) {
                    Phase::Absorb
                } else {
                    Phase::Float
                },
                Phase::Absorb => if charging_a.below(self.exit_absorb_a) {
                    Phase::Float
                } else {
                    Phase::Absorb
                },
            }
        }
    }
}

/// Chooses the phase from the charging current, with hysteresis.
#[derive(Copy, Clone, Debug, PartialEq, Eq, Structural)]
pub struct ChargeController {
    pub profile: Profile,
    pub phase: Phase,
}

impl ChargeController {
    /// Starts in Float.
    pub fn new(profile: Profile) -> (c: ChargeController)
        requires
            profile.wf(),
        ensures
            c == (ChargeController { profile, phase: Phase::Float }),
    {
        ChargeController { profile, phase: Phase::Float }
    }

    /// The current phase.
    pub fn phase(&self) -> (p: Phase)
        ensures
            p == self.phase,
    {
        self.phase
    }

    /// The target of the current phase.
    pub fn target_voltage(&self) -> (v: F32)
        ensures
            v == self.profile.target(self.phase),
    {
        match self.phase {
            Phase::Float => self.profile.float_v,
            Phase::Absorb => self.profile.absorb_v,
        }
    }

    /// Feeds the latest signed battery current. Returns the new target on a phase
    /// change, `None` if the phase is unchanged.
    pub fn update(&mut self, battery_current_a: F32) -> (v: Option<F32>)
        ensures
            final(self).profile == old(self).profile,
            final(self).phase == old(self).profile.next_phase(old(self).phase, battery_current_a),
            v == (if final(self).phase == old(self).phase {
                None
            } else {
                Some(final(self).profile.target(final(self).phase))
            }),
    {
        if !battery_current_a.is_finite() {
            return None;
        }
        // Charging current as a positive number.
        let charging_a = battery_current_a.neg();
        let next = match self.phase {
            Phase::Float => if charging_a.gt(self.profile.enter_absorb_a) {
                Phase::Absorb
            } else {
                Phase::Float
            },
            Phase::Absorb => if charging_a.lt(self.profile.exit_absorb_a) {
                Phase::Float
            } else {
                Phase::Absorb
            },
        };
        if next != self.phase {
            self.phase = next;
            Some(self.target_voltage())
        } else {
            None
        }
    }
}

/// Why the supervisor latched the buck off. Only a reboot clears it.
#[derive(Copy, Clone, Debug, PartialEq, Eq, Structural)]
pub enum FaultReason {
    /// No battery reading for `BATTERY_MISSING_TICKS_BUDGET` ticks in a row.
    BatterySensorStale,
    /// `MODBUS_ERR_BUDGET` failed reads in a row.
    ModbusErrorBudget,
    /// Pack voltage above `absorb_v + OV_MARGIN_V` for `OV_TICKS_BUDGET` ticks in a
    /// row.
    Overvoltage,
}

/// What the poll loop should do this tick.
#[derive(Copy, Clone, Debug, PartialEq, Eq, Structural)]
pub enum Action {
    /// Nothing to do.
    Idle,
    SetVoltage(F32),
    DisableOutput(FaultReason),
}

/// Counts consecutive bad ticks and latches once a budget is spent.
#[derive(Copy, Clone, Debug, PartialEq, Eq, Structural)]
pub struct ChargeSupervisor {
    pub controller: ChargeController,
    pub profile: Profile,
    pub battery_missing_ticks: u32,
    pub consec_modbus_errs: u32,
    pub ov_ticks: u32,
    pub fault: Option<FaultReason>,
    pub disable_acked: bool,
}

impl ChargeSupervisor {
    /// No budget is spent while nothing has latched.
    pub open spec fn wf(self) -> bool {
        &&& self.profile.wf()
        &&& self.controller.profile == self.profile
        &&& self.fault is None ==> {
            &&& self.battery_missing_ticks < BATTERY_MISSING_TICKS_BUDGET
            &&& self.consec_modbus_errs < MODBUS_ERR_BUDGET
            &&& self.ov_ticks < OV_TICKS_BUDGET
            &&& !self.disable_acked
        }
    }

    /// Above the overvoltage line, by a reading that is a number.
    pub open spec fn over_voltage(self, b: BatterySample) -> bool {
        b.voltage.finite() && self.profile.absorb_v.sum(number(OV_MARGIN_V)).below(b.voltage)
    }

    /// A fault latched.
    pub open spec fn latched(self, reason: FaultReason) -> (ChargeSupervisor, Action) {
        (
            ChargeSupervisor { fault: Some(reason), disable_acked: false, ..self },
            Action::DisableOutput(reason),
        )
    }

    /// One poll cycle. A latched fault is final; else a failed read, a missing
    /// reading and an overvoltage each count towards their budget, in this order,
    /// and the first budget that is spent latches.
    pub open spec fn ticked(self, modbus_ok: bool, battery: Option<BatterySample>) -> (
        ChargeSupervisor,
        Action,
    ) {
        let errs = if modbus_ok {
            0
        } else {
            (self.consec_modbus_errs + 1) as u32
        };
        let link = ChargeSupervisor { consec_modbus_errs: errs, ..self };
        match self.fault {
            Some(reason) => (
                self,
                if self.disable_acked {
                    Action::Idle
                } else {
                    Action::DisableOutput(reason)
                },
            ),
            None => if errs >= MODBUS_ERR_BUDGET {
                link.latched(FaultReason::ModbusErrorBudget)
            } else {
                match battery {
                    None => {
                        let missing = ChargeSupervisor {
                            battery_missing_ticks: (self.battery_missing_ticks + 1) as u32,
                            ..link
                        };
                        if missing.battery_missing_ticks >= BATTERY_MISSING_TICKS_BUDGET {
                            missing.latched(FaultReason::BatterySensorStale)
                        } else {
                            (missing, Action::Idle)
                        }
                    },
                    Some(b) => {
                        let present = ChargeSupervisor {
                            battery_missing_ticks: 0,
                            ov_ticks: if self.over_voltage(b) {
                                (self.ov_ticks + 1) as u32
                            } else {
                                0
                            },
                            ..link
                        };
                        let phase = self.profile.next_phase(self.controller.phase, b.current);
                        if present.ov_ticks >= OV_TICKS_BUDGET {
                            present.latched(FaultReason::Overvoltage)
                        } else {
                            (
                                ChargeSupervisor {
                                    controller: ChargeController { phase, ..self.controller },
                                    ..present
                                },
                                if phase == self.controller.phase {
                                    Action::Idle
                                } else {
                                    Action::SetVoltage(self.profile.target(phase))
                                },
                            )
                        }
                    },
                }
            },
        }
    }

    /// Starts in Float with nothing counted.
    pub fn new(profile: Profile) -> (s: ChargeSupervisor)
        requires
            profile.wf(),
        ensures
            s.wf(),
            s.profile == profile,
            s.controller.phase == Phase::Float,
            s.battery_missing_ticks == 0 && s.consec_modbus_errs == 0 && s.ov_ticks == 0,
            s.fault is None && !s.disable_acked,
    {
        ChargeSupervisor {
            controller: ChargeController::new(profile),
            profile,
            battery_missing_ticks: 0,
            consec_modbus_errs: 0,
            ov_ticks: 0,
            fault: None,
            disable_acked: false,
        }
    }

    /// The target of the current phase.
    pub fn target_voltage(&self) -> (v: F32)
        ensures
            v == self.controller.profile.target(self.controller.phase),
    {
        self.controller.target_voltage()
    }

    /// The current phase.
    pub fn phase(&self) -> (p: Phase)
        ensures
            p == self.controller.phase,
    {
        self.controller.phase()
    }

    /// The latched fault, if there is one.
    pub fn fault(&self) -> (r: Option<FaultReason>)
        ensures
            r == self.fault,
    {
        self.fault
    }

    /// To be called after the output was switched off. Until then the supervisor
    /// keeps asking for it.
    pub fn ack_disable(&mut self)
        requires
            old(self).fault is Some,
        ensures
            *final(self) == (ChargeSupervisor { disable_acked: true, ..*old(self) }),
    {
        self.disable_acked = true;
    }

    /// Drives one poll cycle. `modbus_ok` says whether the last read from the buck
    /// succeeded, `battery` is the latest fresh reading.
    pub fn tick(&mut self, modbus_ok: bool, battery: Option<BatterySample>) -> (a: Action)
        requires
            old(self).wf(),
        ensures
            final(self).wf(),
            (*final(self), a) == old(self).ticked(modbus_ok, battery),
    {
        if let Some(reason) = self.fault {
            return if self.disable_acked {
                Action::Idle
            } else {
                Action::DisableOutput(reason)
            };
        }
        if modbus_ok {
            self.consec_modbus_errs = 0;
        } else {
            self.consec_modbus_errs = self.consec_modbus_errs + 1;
            if self.consec_modbus_errs >= MODBUS_ERR_BUDGET {
                return self.latch(FaultReason::ModbusErrorBudget);
            }
        }
        let b = match battery {
            Some(b) => b,
            None => {
                self.battery_missing_ticks = self.battery_missing_ticks + 1;
                if self.battery_missing_ticks >= BATTERY_MISSING_TICKS_BUDGET {
                    return self.latch(FaultReason::BatterySensorStale);
                }
                return Action::Idle;
            },
        };
        self.battery_missing_ticks = 0;
        let line = self.profile.absorb_v.add(F32::from_bits(OV_MARGIN_V));
        if b.voltage.is_finite() && b.voltage.gt(line) {
            self.ov_ticks = self.ov_ticks + 1;
            if self.ov_ticks >= OV_TICKS_BUDGET {
                return self.latch(FaultReason::Overvoltage);
            }
        } else {
            self.ov_ticks = 0;
        }
        match self.controller.update(b.current) {
            Some(v) => Action::SetVoltage(v),
            None => Action::Idle,
        }
    }

    fn latch(&mut self, reason: FaultReason) -> (a: Action)
        ensures
            (*final(self), a) == old(self).latched(reason),
    {
        self.fault = Some(reason);
        self.disable_acked = false;
        Action::DisableOutput(reason)
    }
}

/// A charging current between the two thresholds never changes the phase.
pub proof fn band_keeps_the_phase(p: Profile, phase: Phase, battery_current_a: F32)
    requires
        !p.enter_absorb_a.below(battery_current_a.negated()),
        !battery_current_a.negated().below(p.exit_absorb_a),
    ensures
        p.next_phase(phase, battery_current_a) == phase,
{
}

/// One current cannot make the controller flap: fed the same current again, the
/// phase it chose stays.
pub proof fn repeated_current_settles(p: Profile, phase: Phase, battery_current_a: F32)
    requires
        p.wf(),
    ensures
        ({
            let next = p.next_phase(phase, battery_current_a);
            p.next_phase(next, battery_current_a) == next
        }),
{
    let charging_a = battery_current_a.negated();
    crate::float::order_is_transitive(charging_a, p.exit_absorb_a, p.enter_absorb_a);
    crate::float::order_is_transitive(p.enter_absorb_a, charging_a, p.exit_absorb_a);
    crate::float::order_is_transitive(p.exit_absorb_a, p.enter_absorb_a, charging_a);
    crate::float::order_is_total(p.enter_absorb_a, charging_a);
    crate::float::order_is_total(charging_a, p.enter_absorb_a);
    crate::float::order_is_total(p.exit_absorb_a, charging_a);
    crate::float::order_is_total(charging_a, p.exit_absorb_a);
    crate::float::order_is_total(p.exit_absorb_a, p.enter_absorb_a);
}

/// A latched fault is final: the disable is asked for until it is acknowledged,
/// nothing afterwards, and neither fault nor phase changes.
pub proof fn latched_fault_is_final(
    s: ChargeSupervisor,
    modbus_ok: bool,
    battery: Option<BatterySample>,
)
    requires
        s.fault is Some,
    ensures
        s.ticked(modbus_ok, battery).0 == s,
        s.ticked(modbus_ok, battery).1 == (if s.disable_acked {
            Action::Idle
        } else {
            Action::DisableOutput(s.fault->0)
        }),
{
}

/// The state after `n` ticks that read neither the buck nor the battery.
pub open spec fn after_silence(s: ChargeSupervisor, n: nat, modbus_ok: bool) -> ChargeSupervisor
    decreases n,
{
    if n == 0 {
        s
    } else {
        after_silence(s, (n - 1) as nat, modbus_ok).ticked(modbus_ok, None).0
    }
}

/// With a healthy link and no battery reading, a supervisor that has counted
/// nothing latches exactly once the budget is spent.
pub proof fn missing_battery_latches_on_budget(s: ChargeSupervisor, n: nat)
    requires
        s.wf(),
        s.fault is None,
        s.battery_missing_ticks == 0,
        n <= BATTERY_MISSING_TICKS_BUDGET,
    ensures
        n < BATTERY_MISSING_TICKS_BUDGET ==> {
            &&& after_silence(s, n, true).fault is None
            &&& after_silence(s, n, true).battery_missing_ticks == n
            &&& after_silence(s, n, true).wf()
        },
        n == BATTERY_MISSING_TICKS_BUDGET ==> after_silence(s, n, true).fault == Some(
            FaultReason::BatterySensorStale,
        ),
    decreases n,
{
    if n > 0 {
        missing_battery_latches_on_budget(s, (n - 1) as nat);
    }
}

/// A link that stays down latches exactly once its budget is spent, ahead of the
/// battery that is missing just as long.
pub proof fn dead_link_latches_on_budget(s: ChargeSupervisor, n: nat)
    requires
        s.wf(),
        s.fault is None,
        s.consec_modbus_errs == 0,
        s.battery_missing_ticks == 0,
        n <= MODBUS_ERR_BUDGET,
    ensures
        n < MODBUS_ERR_BUDGET ==> {
            &&& after_silence(s, n, false).fault is None
            &&& after_silence(s, n, false).consec_modbus_errs == n
            &&& after_silence(s, n, false).battery_missing_ticks == n
            &&& after_silence(s, n, false).wf()
        },
        n == MODBUS_ERR_BUDGET ==> after_silence(s, n, false).fault == Some(
            FaultReason::ModbusErrorBudget,
        ),
    decreases n,
{
    if n > 0 {
        dead_link_latches_on_budget(s, (n - 1) as nat);
    }
}

/// The targets of a pack are those of a cell times the count of cells, each rounded once;
/// the thresholds are those given.
pub proof fn pack_targets_scale_with_the_cells(
    chemistry: Chemistry,
    cells: u8,
    enter_absorb_a: F32,
    exit_absorb_a: F32,
    capacity_ah: F32,
)
    ensures
        ({
            let p = Profile::of_pack(chemistry, cells, enter_absorb_a, exit_absorb_a);
            let q = crate::charging::profile::pack_profile(chemistry, cells, capacity_ah);
            &&& p.absorb_v == q.absorb_v
            &&& p.float_v == q.float_v
            &&& p.enter_absorb_a == enter_absorb_a
            &&& p.exit_absorb_a == exit_absorb_a
        }),
{
}

/// The phase follows the charging current alone: up where it is above the one threshold,
/// down where it is below the other, and as it was otherwise.
pub proof fn phase_follows_the_current(p: Profile, phase: Phase, battery_current_a: F32)
    ensures
        ({
            let charging_a = battery_current_a.negated();
            let next = p.next_phase(phase, battery_current_a);
            if !battery_current_a.finite() {
                next == phase
            } else if phase == Phase::Float {
                next == Phase::Absorb <==> p.enter_absorb_a.below(charging_a)
            } else {
                next == Phase::Float <==> charging_a.below(p.exit_absorb_a)
            }
        }),
        p.target(Phase::Float) == p.float_v,
        p.target(Phase::Absorb) == p.absorb_v,
{
}

/// What a healthy supervisor does on a poll. A failed read counts, and the fifth in a row
/// latches. Without a battery reading the count of those grows, and the tenth in a row
/// latches. A voltage above the line counts, and the third in a row latches. Else the
/// phase follows the current, and a change of phase is a voltage to set. What did not
/// fail counts from zero again.
pub proof fn supervisor_counts_what_fails(
    s: ChargeSupervisor,
    modbus_ok: bool,
    battery: Option<BatterySample>,
)
    requires
        s.wf(),
        s.fault is None,
    ensures
        ({
            let (t, a) = s.ticked(modbus_ok, battery);
            let line = s.profile.absorb_v.sum(number(OV_MARGIN_V));
            let high = battery is Some && battery->0.voltage.finite() && line.below(
                battery->0.voltage,
            );
            &&& t.profile == s.profile && t.controller.profile == s.profile
            &&& t.consec_modbus_errs == (if modbus_ok {
                0
            } else {
                s.consec_modbus_errs + 1
            })
            &&& if !modbus_ok && s.consec_modbus_errs == 4 {
                &&& t.fault == Some(FaultReason::ModbusErrorBudget)
                &&& a == Action::DisableOutput(FaultReason::ModbusErrorBudget)
                &&& t.controller == s.controller && !t.disable_acked
            } else if battery is None {
                &&& t.battery_missing_ticks == s.battery_missing_ticks + 1
                &&& t.ov_ticks == s.ov_ticks
                &&& t.controller == s.controller
                &&& if s.battery_missing_ticks == 9 {
                    &&& t.fault == Some(FaultReason::BatterySensorStale)
                    &&& a == Action::DisableOutput(FaultReason::BatterySensorStale)
                    &&& !t.disable_acked
                } else {
                    t.fault is None && a == Action::Idle
                }
            } else if high && s.ov_ticks == 2 {
                &&& t.battery_missing_ticks == 0
                &&& t.fault == Some(FaultReason::Overvoltage)
                &&& a == Action::DisableOutput(FaultReason::Overvoltage)
                &&& t.controller == s.controller && !t.disable_acked
            } else {
                let next = s.profile.next_phase(s.controller.phase, battery->0.current);
                &&& t.fault is None
                &&& t.battery_missing_ticks == 0
                &&& t.ov_ticks == (if high {
                    s.ov_ticks + 1
                } else {
                    0
                })
                &&& t.controller.phase == next
                &&& a == (if next == s.controller.phase {
                    Action::Idle
                } else if next == Phase::Absorb {
                    Action::SetVoltage(s.profile.absorb_v)
                } else {
                    Action::SetVoltage(s.profile.float_v)
                })
            }
        }),
{
}

} // verus!
