//! The charge supervisor on the flat state machine, for boards that feed a load
//! through the buck.
//!
//! Beside what latches, a fault whose hazard is overcharge and whose control of
//! the buck is intact parks: the buck drops to the float target, charging is over,
//! and the load stays fed. It also watches the pack's own charge current, the
//! total length of a charge, the pack temperature where a sensor is fitted, and a
//! rail that keeps sagging.

use crate::battery::pack_soc;
use crate::charging::action::{Action, DisableTicket, EnableTicket, Request, VoltageTicket};
use crate::charging::charge_state::{is_latched, ChargeEvent, ChargeState};
use crate::charging::charge_supervisor::{buffered, held_off, off_target};
use crate::charging::charge_supervisor::{
    buffer_is_full, buffer_new, buffer_pop_front, buffer_push_back, ring_transitions,
};
use crate::charging::debounce::Debounce;
use crate::charging::fault_reason::FaultReason;
use crate::charging::hold_budget::HoldBudget;
use crate::charging::inhibit_reason::InhibitReason;
use crate::charging::pack_temp::PackTemp;
use crate::charging::phase::Phase;
use crate::charging::poll_result::{BatterySample, BuckOutput};
use crate::charging::profile::{Profile, FULL_SOC_MARGIN};
use crate::charging::protection_policy::ProtectionPolicy;
use crate::charging::{
    ABSORB_CV_BAND_V, BATTERY_MISSING_TIMEOUT, CHARGE_TEMP_MAX_C, CHARGE_TEMP_MIN_C, EXIT_DEBOUNCE,
    MAX_ABSORB, MAX_CHARGE, MODBUS_UNHEALTHY_TIMEOUT, OVERCURRENT_DURATION, OVERCURRENT_TOL,
    OV_DURATION, OV_MARGIN_V, PACK_TEMP_STALE_TIMEOUT, SETPOINT_DRIFT_TOL, TRANSITION_BUFFER,
};
use crate::device::{ProtectionStatus, Setpoints};
use crate::error_log::ChargeTransition;
use crate::float::{number, F32};
use crate::time::{seconds, Duration};
use heapless::Deque;
use vstd::prelude::*;

verus! {

/// One poll cycle's view of the world, pack temperature included.
#[derive(Copy, Clone, Debug, PartialEq, Eq, Structural)]
pub struct StatePoll {
    pub battery: Option<BatterySample>,
    pub setpoints: Option<Setpoints>,
    /// `None` means that reading the output state failed.
    pub output: Option<BuckOutput>,
    /// Pack temperature in degrees Celsius.
    pub pack_temp_c: Option<F32>,
}

/// Outcome of the safety checks.
#[derive(Copy, Clone, Debug, PartialEq, Eq, Structural)]
pub enum Judgement {
    /// Disable the buck and keep it disabled until a reboot.
    Latch(FaultReason),
    /// Stop charging and keep the load fed until a reboot.
    Park(FaultReason),
    /// The buck disabled itself on a self-clearing protection: wait it out.
    Hold(ProtectionStatus),
    /// The output came back on from a hold.
    Resume,
    /// Do nothing this tick; checked again on the next.
    Inhibit(InhibitReason),
    /// Every check passed, on this battery sample.
    Clear(BatterySample),
}

/// The battery sample of a poll, where both its fields are finite.
pub open spec fn finite_sample(p: StatePoll) -> Option<BatterySample> {
    match p.battery {
        Some(b) => if b.voltage.finite() && b.current.finite() {
            Some(b)
        } else {
            None
        },
        None => None,
    }
}

/// The temperature of a poll, where it is finite.
pub open spec fn finite_temp(p: StatePoll) -> Option<F32> {
    match p.pack_temp_c {
        Some(t) => if t.finite() {
            Some(t)
        } else {
            None
        },
        None => None,
    }
}

/// What the supervisor knows.
pub ghost struct StateView {
    pub profile: Profile,
    pub i_set_a: F32,
    pub pack_temp: PackTemp,
    pub state: ChargeState,
    pub fault: Option<FaultReason>,
    pub inhibit: Option<InhibitReason>,
    pub ov: Debounce,
    pub overcurrent: Debounce,
    pub absorb: Debounce,
    pub exit: Debounce,
    pub charge: Debounce,
    pub battery_missing: Debounce,
    pub modbus_err: Debounce,
    pub temp_missing: Debounce,
    pub holds: HoldBudget,
    pub transitions: Seq<ChargeTransition>,
}

impl StateView {
    /// Boot: output off, nothing counted, nothing recorded.
    pub open spec fn boot(profile: Profile, i_set_a: F32, pack_temp: PackTemp) -> StateView {
        StateView {
            profile,
            i_set_a,
            pack_temp,
            state: ChargeState::Boot,
            fault: None,
            inhibit: None,
            ov: Debounce::empty(),
            overcurrent: Debounce::empty(),
            absorb: Debounce::empty(),
            exit: Debounce::empty(),
            charge: Debounce::empty(),
            battery_missing: Debounce::empty(),
            modbus_err: Debounce::empty(),
            temp_missing: Debounce::empty(),
            holds: HoldBudget::fresh(),
            transitions: Seq::empty(),
        }
    }

    /// A fault is held: latched, parked, or parked and waiting out a protection.
    pub open spec fn holds_a_fault(self) -> bool {
        is_latched(self.state) || self.state.is_parked() || self.state == ChargeState::HoldParked
    }

    /// What every operation keeps: the targets are ordered, the buffer is within
    /// its bound, no leaky gate has fired, a fault is known exactly while one is
    /// held, and nothing inhibits once it has latched.
    pub open spec fn wf(self) -> bool {
        &&& self.profile.float_v.below(self.profile.absorb_v)
        &&& self.profile.cells > 0
        &&& self.transitions.len() <= TRANSITION_BUFFER
        &&& self.exit.elapsed@ < seconds(EXIT_DEBOUNCE as nat)@
        &&& self.absorb.elapsed@ < seconds(MAX_ABSORB as nat)@
        &&& self.fault is Some <==> self.holds_a_fault()
        &&& is_latched(self.state) ==> self.inhibit is None
    }

    /// The voltage a phase holds.
    pub open spec fn voltage_of(self, phase: Phase) -> F32 {
        match phase {
            Phase::Float => self.profile.float_v,
            Phase::Absorb => self.profile.absorb_v,
        }
    }

    /// The phase whose target the device holds; Float once a fault has latched.
    pub open spec fn held(self) -> Phase {
        match self.state.held_phase() {
            Some(p) => p,
            None => Phase::Float,
        }
    }

    /// The setpoints the buck has to report.
    pub open spec fn expected(self) -> Setpoints {
        Setpoints { v_set: self.voltage_of(self.held()), i_set: self.i_set_a }
    }

    /// The readback disagrees with what was commanded.
    pub open spec fn drifted(self, p: StatePoll) -> bool {
        match p.setpoints {
            Some(sp) => off_target(sp.v_set, self.expected().v_set) || off_target(
                sp.i_set,
                self.expected().i_set,
            ),
            None => false,
        }
    }

    /// At or above the constant-voltage plateau.
    pub open spec fn at_plateau(self, voltage: F32) -> bool {
        self.profile.absorb_v.difference(number(ABSORB_CV_BAND_V)).at_most(voltage)
    }

    /// Above the overvoltage line.
    pub open spec fn over_voltage(self, b: BatterySample) -> bool {
        self.profile.absorb_v.sum(number(OV_MARGIN_V)).below(b.voltage)
    }

    /// The pack takes more than its own rate allows.
    pub open spec fn over_current(self, b: BatterySample) -> bool {
        self.profile.regulation_a.product(number(OVERCURRENT_TOL)).below(b.current.negated())
    }

    /// Too little current flows for the voltage to tell the state of charge wrong.
    pub open spec fn rested(self, b: BatterySample) -> bool {
        b.current.absolute().below(self.profile.exit_absorb_a)
    }

    /// A rested pack whose state of charge is near that of its float target.
    pub open spec fn full(self, b: BatterySample) -> bool {
        let bar = pack_soc(
            self.profile.chemistry,
            self.profile.cells,
            self.profile.float_v,
        ).difference(number(FULL_SOC_MARGIN));
        self.rested(b) && bar.at_most(
            pack_soc(self.profile.chemistry, self.profile.cells, b.voltage),
        )
    }

    /// The latch rule: the same condition disables a sourcing buck and merely
    /// blocks bring-up of an idle one.
    pub open spec fn failing(self, latched: FaultReason, inhibited: InhibitReason) -> Judgement {
        if self.state.is_sourcing() {
            Judgement::Latch(latched)
        } else {
            Judgement::Inhibit(inhibited)
        }
    }

    /// What the output state says, where it disagrees with the state.
    pub open spec fn output_judgement(self, output: Option<BuckOutput>) -> Option<Judgement> {
        match output {
            Some(BuckOutput::Off { cause }) => if !self.state.is_sourcing() {
                None
            } else if cause.self_clearing() && self.state.after(ChargeEvent::SelfDisabled) is Some {
                Some(Judgement::Hold(cause))
            } else {
                Some(Judgement::Latch(FaultReason::OutputUnexpectedlyOff(cause)))
            },
            Some(BuckOutput::On) => if self.state.is_holding() {
                Some(Judgement::Resume)
            } else if self.state == ChargeState::Boot {
                Some(Judgement::Latch(FaultReason::OutputOnInPending))
            } else {
                None
            },
            None => None,
        }
    }

    /// What the temperature says, on a board that can see it.
    pub open spec fn temp_judgement(self, p: StatePoll) -> Option<Judgement> {
        if self.pack_temp == PackTemp::Absent {
            None
        } else {
            match finite_temp(p) {
                Some(t) => if t.below(number(CHARGE_TEMP_MIN_C)) {
                    Some(self.failing(FaultReason::PackTooCold, InhibitReason::PackTooCold))
                } else if number(CHARGE_TEMP_MAX_C).below(t) {
                    Some(self.failing(FaultReason::PackTooHot, InhibitReason::PackTooHot))
                } else {
                    None
                },
                None => if self.temp_missing.reached(seconds(PACK_TEMP_STALE_TIMEOUT as nat)) {
                    Some(self.failing(FaultReason::PackTempStale, InhibitReason::PackTempStale))
                } else if self.state.is_bringing_up() {
                    Some(Judgement::Inhibit(InhibitReason::PackTempStale))
                } else {
                    None
                },
            }
        }
    }

    /// The checks on a usable sample: overvoltage, temperature, overcurrent, and
    /// what only bring-up asks.
    pub open spec fn sample_judged(self, p: StatePoll, b: BatterySample, dt: Duration) -> (
        StateView,
        Judgement,
    ) {
        let over = self.over_voltage(b);
        let volts = StateView { ov: self.ov.stepped(over, dt), ..self };
        let warm = StateView {
            temp_missing: if self.pack_temp == PackTemp::Fitted {
                self.temp_missing.stepped(finite_temp(p) is None, dt)
            } else {
                self.temp_missing
            },
            ..volts
        };
        let sourcing = self.state.is_sourcing();
        if over && !sourcing {
            (volts, Judgement::Inhibit(InhibitReason::Overvoltage))
        } else if over && volts.ov.reached(seconds(OV_DURATION as nat)) {
            (volts, Judgement::Latch(FaultReason::Overvoltage))
        } else if let Some(j) = warm.temp_judgement(p) {
            (warm, j)
        } else if sourcing {
            let amps = StateView {
                overcurrent: self.overcurrent.stepped(self.over_current(b), dt),
                ..warm
            };
            if self.over_current(b) && amps.overcurrent.reached(
                seconds(OVERCURRENT_DURATION as nat),
            ) {
                (amps, Judgement::Park(FaultReason::ChargeOvercurrent))
            } else {
                (amps, Judgement::Clear(b))
            }
        } else if p.setpoints is None {
            (warm, Judgement::Inhibit(InhibitReason::ModbusUnhealthy))
        } else if held_off(p.output) is Some {
            (warm, Judgement::Inhibit(InhibitReason::BuckProtection(held_off(p.output)->0)))
        } else {
            (warm, Judgement::Clear(b))
        }
    }

    /// The ordered safety checks: the timers afterwards, and the first judgement
    /// that applies. A check that is not reached steps no timer.
    pub open spec fn judged(self, p: StatePoll, dt: Duration) -> (StateView, Judgement) {
        let quiet = StateView { holds: self.holds.aged(dt), ..self };
        let link = StateView {
            modbus_err: self.modbus_err.stepped(p.setpoints is None, dt),
            ..quiet
        };
        let fresh = StateView {
            battery_missing: self.battery_missing.stepped(finite_sample(p) is None, dt),
            ..link
        };
        if quiet.holds.spent() {
            (quiet, Judgement::Latch(FaultReason::ProtectionFlapping))
        } else if let Some(j) = self.output_judgement(p.output) {
            (quiet, j)
        } else if self.drifted(p) {
            (quiet, self.failing(FaultReason::SettingsDrift, InhibitReason::SettingsDrift))
        } else if p.setpoints is None && link.modbus_err.reached(
            seconds(MODBUS_UNHEALTHY_TIMEOUT as nat),
        ) {
            (link, self.failing(FaultReason::ModbusUnhealthy, InhibitReason::ModbusUnhealthy))
        } else if let Some(b) = finite_sample(p) {
            fresh.sample_judged(p, b, dt)
        } else if fresh.battery_missing.reached(seconds(BATTERY_MISSING_TIMEOUT as nat)) {
            (
                fresh,
                self.failing(FaultReason::BatterySensorStale, InhibitReason::BatterySensorStale),
            )
        } else {
            (fresh, Judgement::Inhibit(InhibitReason::NoBatterySample))
        }
    }

    /// The state moved by `event`: the move is recorded if it is worth it, and the
    /// timers of the phase machine start over.
    pub open spec fn moved(self, event: ChargeEvent) -> StateView {
        let next = self.state.after(event)->0;
        StateView {
            state: next,
            transitions: match self.state.log_entry(next) {
                Some(t) => buffered(self.transitions, t),
                None => self.transitions,
            },
            absorb: Debounce::empty(),
            exit: Debounce::empty(),
            charge: Debounce::empty(),
            ..self
        }
    }

    /// A fault latched.
    pub open spec fn latched(self, reason: FaultReason) -> StateView {
        StateView { fault: Some(reason), inhibit: None, ..self }.moved(ChargeEvent::Fault)
    }

    /// The request that moves the setpoint to `next`.
    pub open spec fn update_to(self, next: Phase) -> Request {
        Request::Update {
            phase: next,
            target_v: self.voltage_of(next),
            cycle_output: self.voltage_of(next).below(self.voltage_of(self.held())),
        }
    }

    /// What is asked for while nothing else is going on: the outstanding write, if
    /// there is one.
    pub open spec fn outstanding(self) -> Request {
        match self.state.target_phase() {
            Some(next) => self.update_to(next),
            None => Request::Nothing,
        }
    }

    /// A fault that stops the charge. Parking is offered once: out of a park, the
    /// same kind of fault disables.
    pub open spec fn stopped(self, reason: FaultReason) -> (StateView, Request) {
        if self.state.after(ChargeEvent::Park) is Some {
            let parked = StateView {
                fault: Some(reason),
                inhibit: None,
                overcurrent: Debounce::empty(),
                ..self
            }.moved(ChargeEvent::Park);
            (parked, parked.outstanding())
        } else {
            (self.latched(reason), Request::Disable { reason })
        }
    }

    /// The phase machine, with the output on and every check passed.
    pub open spec fn regulated(self, b: BatterySample, dt: Duration) -> (StateView, Request) {
        let charging_a = b.current.negated();
        match self.state {
            ChargeState::Float => if self.profile.enter_absorb_a.below(charging_a) {
                let rising = self.moved(ChargeEvent::TaperRose);
                (rising, rising.outstanding())
            } else {
                (self, Request::Nothing)
            },
            ChargeState::Absorb => {
                let clocked = StateView {
                    exit: self.exit.stepped_leaky(
                        charging_a.below(self.profile.exit_absorb_a),
                        dt,
                    ),
                    ..self
                };
                let held = StateView {
                    absorb: self.absorb.stepped_leaky(self.at_plateau(b.voltage), dt),
                    ..clocked
                };
                let total = StateView { charge: self.charge.stepped(true, dt), ..held };
                if clocked.exit.reached(seconds(EXIT_DEBOUNCE as nat)) {
                    let falling = clocked.moved(ChargeEvent::TaperFell);
                    (falling, falling.outstanding())
                } else if held.absorb.reached(seconds(MAX_ABSORB as nat)) {
                    held.stopped(FaultReason::AbsorbTimeout)
                } else if total.charge.reached(seconds(MAX_CHARGE as nat)) {
                    total.stopped(FaultReason::ChargeTimeout)
                } else {
                    (total, Request::Nothing)
                }
            },
            _ => (self, self.outstanding()),
        }
    }

    /// What a judgement does.
    pub open spec fn acted(self, j: Judgement, dt: Duration) -> (StateView, Request) {
        match j {
            Judgement::Latch(reason) => (self.latched(reason), Request::Disable { reason }),
            Judgement::Park(reason) => self.stopped(reason),
            Judgement::Hold(cause) => (
                StateView {
                    inhibit: Some(InhibitReason::BuckProtection(cause)),
                    ov: Debounce::empty(),
                    overcurrent: Debounce::empty(),
                    holds: self.holds.recorded(),
                    ..self
                }.moved(ChargeEvent::SelfDisabled),
                Request::Nothing,
            ),
            Judgement::Resume => (
                StateView { inhibit: None, ..self }.moved(ChargeEvent::SelfEnabled),
                Request::Nothing,
            ),
            Judgement::Inhibit(reason) => (
                StateView { inhibit: Some(reason), ..self },
                Request::Nothing,
            ),
            Judgement::Clear(b) => {
                let cleared = StateView { inhibit: None, ..self };
                if self.state.is_bringing_up() {
                    (cleared, Request::Enable { resume_absorb: !self.full(b) })
                } else {
                    cleared.regulated(b, dt)
                }
            },
        }
    }

    /// One poll cycle. A disable that is not confirmed is asked for again; a latched
    /// buck that comes back on is disabled again.
    pub open spec fn ticked(self, p: StatePoll, dt: Duration) -> (StateView, Request) {
        if self.state == ChargeState::Tripping {
            (self, Request::Disable { reason: self.fault->0 })
        } else if self.state == ChargeState::Latched {
            if p.output == Some(BuckOutput::On) {
                (
                    self.moved(ChargeEvent::SelfEnabled),
                    Request::Disable { reason: self.fault->0 },
                )
            } else {
                (self, Request::Nothing)
            }
        } else {
            let (judged, j) = self.judged(p, dt);
            judged.acted(j, dt)
        }
    }

    /// A committed bring-up.
    pub open spec fn enabled(self, resume_absorb: bool) -> StateView {
        self.moved(
            if resume_absorb {
                ChargeEvent::EnabledBelowFull
            } else {
                ChargeEvent::Enabled
            },
        )
    }
}

/// Decides each tick what the buck has to do, with parking.
pub struct StateSupervisor {
    profile: Profile,
    i_set_a: F32,
    pack_temp: PackTemp,
    state: ChargeState,
    fault: Option<FaultReason>,
    inhibit: Option<InhibitReason>,
    ov: Debounce,
    overcurrent: Debounce,
    absorb: Debounce,
    exit: Debounce,
    charge: Debounce,
    battery_missing: Debounce,
    modbus_err: Debounce,
    temp_missing: Debounce,
    holds: HoldBudget,
    transitions: Deque<ChargeTransition, 8>,
}

impl StateSupervisor {
    /// What the supervisor knows.
    pub closed spec fn view(&self) -> StateView {
        StateView {
            profile: self.profile,
            i_set_a: self.i_set_a,
            pack_temp: self.pack_temp,
            state: self.state,
            fault: self.fault,
            inhibit: self.inhibit,
            ov: self.ov,
            overcurrent: self.overcurrent,
            absorb: self.absorb,
            exit: self.exit,
            charge: self.charge,
            battery_missing: self.battery_missing,
            modbus_err: self.modbus_err,
            temp_missing: self.temp_missing,
            holds: self.holds,
            transitions: ring_transitions(self.transitions),
        }
    }

    /// The supervisor's invariant.
    pub open spec fn wf(&self) -> bool {
        self@.wf()
    }

    /// Boots with the output off. `i_set_a` is the current setpoint that was
    /// programmed, `pack_temp` whether the board can see the pack's temperature.
    pub fn new(profile: Profile, i_set_a: F32, pack_temp: PackTemp) -> (s: StateSupervisor)
        requires
            profile.float_v.below(profile.absorb_v),
            profile.cells > 0,
        ensures
            s@ == StateView::boot(profile, i_set_a, pack_temp),
            s.wf(),
    {
        StateSupervisor {
            profile,
            i_set_a,
            pack_temp,
            state: ChargeState::Boot,
            fault: None,
            inhibit: None,
            ov: Debounce::default(),
            overcurrent: Debounce::default(),
            absorb: Debounce::default(),
            exit: Debounce::default(),
            charge: Debounce::default(),
            battery_missing: Debounce::default(),
            modbus_err: Debounce::default(),
            temp_missing: Debounce::default(),
            holds: HoldBudget::default(),
            transitions: buffer_new(),
        }
    }

    /// The state of the machine.
    pub fn state(&self) -> (s: ChargeState)
        ensures
            s == self@.state,
    {
        self.state
    }

    /// The phase, only while the output is on.
    pub fn phase(&self) -> (p: Option<Phase>)
        ensures
            p == self@.state.shown_phase(),
    {
        self.state.regulating_phase()
    }

    /// Charging has stopped on a fault while the load stays fed.
    pub fn parked(&self) -> (b: bool)
        ensures
            b == self@.state.is_parked(),
    {
        self.state.parked()
    }

    /// The fault that latched or parked the supervisor, if there is one.
    pub fn fault(&self) -> (r: Option<FaultReason>)
        ensures
            r == self@.fault,
    {
        self.fault
    }

    /// Why the buck is held off without a latched fault, if it is.
    pub fn inhibit(&self) -> (r: Option<InhibitReason>)
        ensures
            r == self@.inhibit,
    {
        self.inhibit
    }

    /// The voltage the device has to hold.
    pub fn target_voltage(&self) -> (v: F32)
        ensures
            v == self@.expected().v_set,
    {
        match self.state.setpoint_phase() {
            Some(Phase::Absorb) => self.profile.absorb_v,
            _ => self.profile.float_v,
        }
    }

    /// The setpoints the buck has to report.
    pub fn readback_setpoints(&self) -> (sp: Setpoints)
        ensures
            sp == self@.expected(),
    {
        Setpoints { v_set: self.target_voltage(), i_set: self.i_set_a }
    }

    /// Takes the oldest transition that has not been drained.
    pub fn pop_transition(&mut self) -> (t: Option<ChargeTransition>)
        requires
            old(self).wf(),
        ensures
            final(self).wf(),
            match t {
                Some(first) => old(self)@.transitions.len() > 0 && first
                    == old(self)@.transitions[0] && final(self)@ == (StateView {
                    transitions: old(self)@.transitions.drop_first(),
                    ..old(self)@
                }),
                None => old(self)@.transitions.len() == 0 && final(self)@ == old(self)@,
            },
    {
        buffer_pop_front(&mut self.transitions)
    }

    /// Commits the disable named by `ticket`, after the output was switched off.
    pub fn commit_disable(&mut self, ticket: DisableTicket)
        requires
            old(self).wf(),
            old(self)@.state == ChargeState::Tripping,
            old(self)@.fault == Some(ticket.fault()),
        ensures
            final(self).wf(),
            final(self)@ == old(self)@.moved(ChargeEvent::Disabled),
    {
        self.apply(ChargeEvent::Disabled);
    }

    /// Commits the bring-up named by `ticket`, after the output was switched on.
    pub fn commit_enable(&mut self, ticket: EnableTicket)
        requires
            old(self).wf(),
            old(self)@.state.is_bringing_up(),
        ensures
            final(self).wf(),
            final(self)@ == old(self)@.enabled(ticket.resumes()),
    {
        let event = if ticket.resume_absorb() {
            ChargeEvent::EnabledBelowFull
        } else {
            ChargeEvent::Enabled
        };
        self.apply(event);
    }

    /// Commits the write named by `ticket`, after the voltage was written. If the
    /// write failed the caller drops the ticket, and the next tick asks again.
    pub fn commit_voltage(&mut self, ticket: VoltageTicket)
        requires
            old(self).wf(),
            old(self)@.state.target_phase() == Some(ticket.to_phase()),
        ensures
            final(self).wf(),
            final(self)@ == old(self)@.moved(ChargeEvent::VoltageWritten),
    {
        self.apply(ChargeEvent::VoltageWritten);
    }

    /// The single place that moves the state.
    fn apply(&mut self, event: ChargeEvent)
        requires
            old(self)@.transitions.len() <= TRANSITION_BUFFER,
            old(self)@.state.after(event) is Some,
        ensures
            final(self)@ == old(self)@.moved(event),
            final(self)@.transitions.len() <= TRANSITION_BUFFER,
    {
        let next = self.state.next(event).unwrap();
        if let Some(t) = self.state.logged_as(next) {
            if buffer_is_full(&self.transitions) {
                let _ = buffer_pop_front(&mut self.transitions);
            }
            let _ = buffer_push_back(&mut self.transitions, t);
        }
        self.state = next;
        self.absorb.reset();
        self.exit.reset();
        self.charge.reset();
    }

    /// The action for an outstanding write, if there is one.
    fn outstanding(&self) -> (a: Action)
        ensures
            a@ == self@.outstanding(),
    {
        match self.state.retarget_to() {
            Some(next) => {
                let target_v = match next {
                    Phase::Float => self.profile.float_v,
                    Phase::Absorb => self.profile.absorb_v,
                };
                let cycle_output = target_v.lt(self.target_voltage());
                Action::UpdateVoltage(VoltageTicket::mint(next, target_v, cycle_output))
            },
            None => Action::Idle,
        }
    }

    fn latch(&mut self, reason: FaultReason) -> (a: Action)
        requires
            old(self).wf(),
            !is_latched(old(self)@.state),
        ensures
            final(self).wf(),
            final(self)@ == old(self)@.latched(reason),
            a@ == (Request::Disable { reason }),
    {
        self.fault = Some(reason);
        self.inhibit = None;
        self.apply(ChargeEvent::Fault);
        Action::DisableOutput(DisableTicket::mint(reason))
    }

    /// Stops the charge: parks, or disables where parking did not help.
    fn stop(&mut self, reason: FaultReason) -> (a: Action)
        requires
            old(self).wf(),
            !is_latched(old(self)@.state),
        ensures
            final(self).wf(),
            (final(self)@, a@) == old(self)@.stopped(reason),
    {
        if self.state.next(ChargeEvent::Park).is_none() {
            return self.latch(reason);
        }
        self.fault = Some(reason);
        self.inhibit = None;
        self.overcurrent.reset();
        self.apply(ChargeEvent::Park);
        self.outstanding()
    }

    /// Drives one poll cycle. `elapsed` is the time since the previous tick.
    pub fn tick(&mut self, p: StatePoll, elapsed: Duration) -> (a: Action)
        requires
            old(self).wf(),
        ensures
            final(self).wf(),
            (final(self)@, a@) == old(self)@.ticked(p, elapsed),
    {
        match self.state {
            ChargeState::Tripping => {
                return Action::DisableOutput(DisableTicket::mint(self.fault.unwrap()));
            },
            ChargeState::Latched => {
                // A latch is only as good as the output being off.
                if let Some(BuckOutput::On) = p.output {
                    let reason = self.fault.unwrap();
                    self.apply(ChargeEvent::SelfEnabled);
                    return Action::DisableOutput(DisableTicket::mint(reason));
                }
                return Action::Idle;
            },
            _ => {},
        }
        let b = match self.safety_verdict(&p, elapsed) {
            Judgement::Latch(reason) => return self.latch(reason),
            Judgement::Park(reason) => return self.stop(reason),
            Judgement::Hold(cause) => {
                self.inhibit = Some(InhibitReason::BuckProtection(cause));
                // The output is off for the length of the hold.
                self.ov.reset();
                self.overcurrent.reset();
                self.holds.record();
                self.apply(ChargeEvent::SelfDisabled);
                return Action::Idle;
            },
            Judgement::Resume => {
                self.inhibit = None;
                self.apply(ChargeEvent::SelfEnabled);
                return Action::Idle;
            },
            Judgement::Inhibit(reason) => {
                self.inhibit = Some(reason);
                return Action::Idle;
            },
            Judgement::Clear(b) => b,
        };
        self.inhibit = None;
        if self.state.bringing_up() {
            return Action::EnableOutput(EnableTicket::mint(!self.is_full(b)));
        }
        self.regulate(b, elapsed)
    }

    /// A rested pack whose state of charge is near that of its float target. A pack
    /// that moves current reads wrong, and counts as not full.
    fn is_full(&self, b: BatterySample) -> (full: bool)
        requires
            self.wf(),
        ensures
            full == self@.full(b),
    {
        b.current.abs().lt(self.profile.exit_absorb_a) && self.profile.soc(b.voltage).ge(
            self.profile.full_rest_soc(),
        )
    }

    fn fail(&self, latched: FaultReason, inhibited: InhibitReason) -> (j: Judgement)
        ensures
            j == self@.failing(latched, inhibited),
    {
        if self.state.sourcing() {
            Judgement::Latch(latched)
        } else {
            Judgement::Inhibit(inhibited)
        }
    }

    /// The state against what the output reports.
    fn reconcile(&self, output: Option<BuckOutput>) -> (j: Option<Judgement>)
        ensures
            j == self@.output_judgement(output),
    {
        match output {
            Some(BuckOutput::Off { cause }) => if !self.state.sourcing() {
                None
            } else if cause.is_self_clearing() && self.state.next(
                ChargeEvent::SelfDisabled,
            ).is_some() {
                Some(Judgement::Hold(cause))
            } else {
                Some(Judgement::Latch(FaultReason::OutputUnexpectedlyOff(cause)))
            },
            Some(BuckOutput::On) => if self.state.holding() {
                Some(Judgement::Resume)
            } else if self.state == ChargeState::Boot {
                Some(Judgement::Latch(FaultReason::OutputOnInPending))
            } else {
                None
            },
            None => None,
        }
    }

    fn drifted(&self, p: &StatePoll) -> (b: bool)
        ensures
            b == self@.drifted(*p),
    {
        if let Some(sp) = p.setpoints {
            let want = self.readback_setpoints();
            let tol = F32::from_bits(SETPOINT_DRIFT_TOL);
            sp.v_set.sub(want.v_set).abs().ge(tol) || sp.i_set.sub(want.i_set).abs().ge(tol)
        } else {
            false
        }
    }

    /// The ordered safety checks.
    fn safety_verdict(&mut self, p: &StatePoll, elapsed: Duration) -> (j: Judgement)
        requires
            old(self).wf(),
            !is_latched(old(self)@.state),
        ensures
            (final(self)@, j) == old(self)@.judged(*p, elapsed),
            final(self).wf(),
    {
        if self.holds.step(elapsed) {
            return Judgement::Latch(FaultReason::ProtectionFlapping);
        }
        // What the output does outranks what its setpoints are: a buck that is
        // off regulates to nothing, and one that is on unasked is sourcing.
        if let Some(j) = self.reconcile(p.output) {
            return j;
        }
        if self.drifted(p) {
            return self.fail(FaultReason::SettingsDrift, InhibitReason::SettingsDrift);
        }
        if self.modbus_err.step(
            p.setpoints.is_none(),
            elapsed,
            Duration::from_secs(MODBUS_UNHEALTHY_TIMEOUT),
        ) {
            return self.fail(FaultReason::ModbusUnhealthy, InhibitReason::ModbusUnhealthy);
        }
        let battery = match p.battery {
            Some(b) => if b.voltage.is_finite() && b.current.is_finite() {
                Some(b)
            } else {
                None
            },
            None => None,
        };
        if self.battery_missing.step(
            battery.is_none(),
            elapsed,
            Duration::from_secs(BATTERY_MISSING_TIMEOUT),
        ) {
            return self.fail(FaultReason::BatterySensorStale, InhibitReason::BatterySensorStale);
        }
        match battery {
            Some(b) => self.judge_sample(p, b, elapsed),
            None => Judgement::Inhibit(InhibitReason::NoBatterySample),
        }
    }

    /// The checks on a usable sample.
    fn judge_sample(&mut self, p: &StatePoll, b: BatterySample, elapsed: Duration) -> (j: Judgement)
        requires
            old(self).wf(),
            !is_latched(old(self)@.state),
        ensures
            (final(self)@, j) == old(self)@.sample_judged(*p, b, elapsed),
            final(self).wf(),
    {
        let ov = b.voltage.gt(self.profile.absorb_v.add(F32::from_bits(OV_MARGIN_V)));
        let ov_debounced = self.ov.step(ov, elapsed, Duration::from_secs(OV_DURATION));
        if ov && !self.state.sourcing() {
            return Judgement::Inhibit(InhibitReason::Overvoltage);
        }
        if ov_debounced {
            return Judgement::Latch(FaultReason::Overvoltage);
        }
        if let Some(j) = self.judge_temp(p, elapsed) {
            return j;
        }
        if self.state.sourcing() {
            let line = self.profile.regulation_a.mul(F32::from_bits(OVERCURRENT_TOL));
            if self.overcurrent.step(
                b.current.neg().gt(line),
                elapsed,
                Duration::from_secs(OVERCURRENT_DURATION),
            ) {
                return Judgement::Park(FaultReason::ChargeOvercurrent);
            }
            return Judgement::Clear(b);
        }
        if p.setpoints.is_none() {
            return Judgement::Inhibit(InhibitReason::ModbusUnhealthy);
        }
        if let Some(BuckOutput::Off { cause }) = p.output {
            if cause.is_self_clearing() {
                return Judgement::Inhibit(InhibitReason::BuckProtection(cause));
            }
        }
        Judgement::Clear(b)
    }

    /// The pack temperature, where a sensor is fitted. Out of range disables and
    /// does not park: at the float target current would still go into the pack.
    fn judge_temp(&mut self, p: &StatePoll, elapsed: Duration) -> (j: Option<Judgement>)
        ensures
            ({
                let warm = StateView {
                    temp_missing: if old(self)@.pack_temp == PackTemp::Fitted {
                        old(self)@.temp_missing.stepped(finite_temp(*p) is None, elapsed)
                    } else {
                        old(self)@.temp_missing
                    },
                    ..old(self)@
                };
                final(self)@ == warm && j == warm.temp_judgement(*p)
            }),
    {
        if self.pack_temp == PackTemp::Absent {
            return None;
        }
        let temp = match p.pack_temp_c {
            Some(t) => if t.is_finite() {
                Some(t)
            } else {
                None
            },
            None => None,
        };
        let stale = self.temp_missing.step(
            temp.is_none(),
            elapsed,
            Duration::from_secs(PACK_TEMP_STALE_TIMEOUT),
        );
        match temp {
            Some(t) => if t.lt(F32::from_bits(CHARGE_TEMP_MIN_C)) {
                Some(self.fail(FaultReason::PackTooCold, InhibitReason::PackTooCold))
            } else if t.gt(F32::from_bits(CHARGE_TEMP_MAX_C)) {
                Some(self.fail(FaultReason::PackTooHot, InhibitReason::PackTooHot))
            } else {
                None
            },
            None => if stale {
                Some(self.fail(FaultReason::PackTempStale, InhibitReason::PackTempStale))
            } else if self.state.bringing_up() {
                Some(Judgement::Inhibit(InhibitReason::PackTempStale))
            } else {
                None
            },
        }
    }

    /// The output is on and every check just passed.
    fn regulate(&mut self, b: BatterySample, elapsed: Duration) -> (a: Action)
        requires
            old(self).wf(),
            old(self)@.state.is_sourcing(),
        ensures
            final(self).wf(),
            (final(self)@, a@) == old(self)@.regulated(b, elapsed),
    {
        let charging_a = b.current.neg();
        match self.state {
            ChargeState::Float => {
                if charging_a.gt(self.profile.enter_absorb_a) {
                    self.apply(ChargeEvent::TaperRose);
                    return self.outstanding();
                }
                Action::Idle
            },
            ChargeState::Absorb => {
                if self.exit.step_leaky(
                    charging_a.lt(self.profile.exit_absorb_a),
                    elapsed,
                    Duration::from_secs(EXIT_DEBOUNCE),
                ) {
                    self.apply(ChargeEvent::TaperFell);
                    return self.outstanding();
                }
                let plateau = self.profile.absorb_v.sub(F32::from_bits(ABSORB_CV_BAND_V));
                if self.absorb.step_leaky(
                    b.voltage.ge(plateau),
                    elapsed,
                    Duration::from_secs(MAX_ABSORB),
                ) {
                    self.absorb.reset();
                    return self.stop(FaultReason::AbsorbTimeout);
                }
                if self.charge.step(true, elapsed, Duration::from_secs(MAX_CHARGE)) {
                    return self.stop(FaultReason::ChargeTimeout);
                }
                Action::Idle
            },
            _ => self.outstanding(),
        }
    }
}

} // verus!
