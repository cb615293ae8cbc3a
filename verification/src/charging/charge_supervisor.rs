//! The charge supervisor: ordered safety checks, bring-up, and the Float/Absorb
//! phase machine.

use crate::charging::action::{Action, DisableTicket, EnableTicket, Request, VoltageTicket};
use crate::charging::debounce::Debounce;
use crate::charging::fault_reason::FaultReason;
use crate::charging::inhibit_reason::InhibitReason;
use crate::charging::phase::Phase;
use crate::charging::poll_result::{BatterySample, BuckOutput, PollResult};
use crate::charging::profile::Profile;
use crate::charging::protection_policy::ProtectionPolicy;
use crate::charging::{
    ABSORB_CV_BAND_V, BATTERY_MISSING_TIMEOUT, EXIT_DEBOUNCE, MAX_ABSORB, MODBUS_UNHEALTHY_TIMEOUT,
    OV_DURATION, OV_MARGIN_V, SETPOINT_DRIFT_TOL, TRANSITION_BUFFER,
};
use crate::device::{ProtectionStatus, Setpoints};
use crate::error_log::ChargeTransition;
use crate::float::{number, F32};
use crate::time::{seconds, Duration};
use heapless::Deque;
use vstd::prelude::*;

verus! {

/// Where the supervisor stands.
#[allow(inconsistent_fields)]
#[derive(Copy, Clone, Debug, PartialEq, Eq, Structural)]
pub enum LatchState {
    /// The output is off and bring-up has not been committed.
    Pending { reason: PendingReason },
    /// The output is on. `pending_voltage` names the phase of a voltage write
    /// that has been asked for and not yet committed.
    Active { pending_voltage: Option<Phase> },
    /// A fault latched. Once the disable is acknowledged, nothing more is asked
    /// for until a reboot.
    Tripped { reason: FaultReason, acked: bool },
}

/// Why the supervisor is pending, which decides what an output found on means.
#[derive(Copy, Clone, Debug, PartialEq, Eq, Structural)]
pub enum PendingReason {
    /// Cold start: the output was switched off and verified, so finding it on is
    /// an anomaly.
    Boot,
    /// The buck disabled itself on a self-clearing protection while regulating,
    /// so finding it on is the recovery being waited for.
    ProtectRecovery,
}

/// Outcome of the safety checks, in descending authority.
#[derive(Copy, Clone, Debug, PartialEq, Eq, Structural)]
pub enum Verdict {
    /// Disable the buck and keep it disabled until a reboot.
    Latch(FaultReason),
    /// The buck disabled itself on a self-clearing protection: wait it out.
    EnterProtectRecovery(ProtectionStatus),
    /// The buck came back on once the protection cause cleared.
    ResumeRegulating,
    /// Hold the buck off without latching; checked again next tick.
    Inhibit(InhibitReason),
    /// Every check passed, on this battery sample.
    Clear(BatterySample),
}

impl LatchState {
    /// The output is off and the supervisor is deciding whether to bring it up.
    pub open spec fn is_pending(self) -> bool {
        self is Pending
    }

    /// The buck is sourcing.
    pub open spec fn is_active(self) -> bool {
        self is Active
    }

    /// The latch rule: the same condition disables a sourcing buck and merely
    /// blocks bring-up of an idle one.
    pub open spec fn failing(self, latched: FaultReason, inhibited: InhibitReason) -> Verdict {
        if self.is_active() {
            Verdict::Latch(latched)
        } else {
            Verdict::Inhibit(inhibited)
        }
    }

    /// The output is off and the supervisor is deciding whether to bring it up.
    pub fn pending(&self) -> (b: bool)
        ensures
            b == self.is_pending(),
    {
        matches!(self, LatchState::Pending { .. })
    }

    /// The buck is sourcing. Every safety decision keys off this.
    pub fn regulating(&self) -> (b: bool)
        ensures
            b == self.is_active(),
    {
        matches!(self, LatchState::Active { .. })
    }

    /// What a failed check means in this state.
    pub fn fault(&self, latched: FaultReason, inhibited: InhibitReason) -> (v: Verdict)
        ensures
            v == self.failing(latched, inhibited),
    {
        if self.regulating() {
            Verdict::Latch(latched)
        } else {
            Verdict::Inhibit(inhibited)
        }
    }
}

/// The transitions in the buffer, oldest first.
pub uninterp spec fn ring_transitions(ring: Deque<ChargeTransition, 8>) -> Seq<ChargeTransition>;

/// `heapless::Deque::new`: a buffer that holds nothing.
#[verifier::external_body]
pub(crate) fn buffer_new() -> (ring: Deque<ChargeTransition, 8>)
    ensures
        ring_transitions(ring) == Seq::<ChargeTransition>::empty(),
{
    Deque::new()
}

/// `heapless::Deque::is_full`: whether the buffer is at its capacity.
#[verifier::external_body]
pub(crate) fn buffer_is_full(ring: &Deque<ChargeTransition, 8>) -> (b: bool)
    ensures
        b == (ring_transitions(*ring).len() == 8),
{
    ring.is_full()
}

/// `heapless::Deque::pop_front`: takes the oldest transition out, if there is one.
#[verifier::external_body]
pub(crate) fn buffer_pop_front(ring: &mut Deque<ChargeTransition, 8>) -> (t: Option<ChargeTransition>)
    ensures
        match t {
            Some(first) => ring_transitions(*old(ring)).len() > 0 && first == ring_transitions(
                *old(ring),
            )[0] && ring_transitions(*final(ring)) == ring_transitions(*old(ring)).drop_first(),
            None => ring_transitions(*old(ring)).len() == 0 && ring_transitions(*final(ring))
                == ring_transitions(*old(ring)),
        },
{
    ring.pop_front()
}

/// `heapless::Deque::push_back`: appends a transition, or hands it back where the
/// buffer is at its capacity.
#[verifier::external_body]
pub(crate) fn buffer_push_back(ring: &mut Deque<ChargeTransition, 8>, t: ChargeTransition) -> (r: Result<
    (),
    ChargeTransition,
>)
    ensures
        match r {
            Ok(_) => ring_transitions(*old(ring)).len() != 8 && ring_transitions(*final(ring))
                == ring_transitions(*old(ring)).push(t),
            Err(back) => ring_transitions(*old(ring)).len() == 8 && back == t && ring_transitions(
                *final(ring),
            ) == ring_transitions(*old(ring)),
        },
{
    ring.push_back(t)
}

/// The buffer after one more transition: the oldest leaves a full one.
pub open spec fn buffered(
    transitions: Seq<ChargeTransition>,
    t: ChargeTransition,
) -> Seq<ChargeTransition> {
    (if transitions.len() == TRANSITION_BUFFER {
        transitions.drop_first()
    } else {
        transitions
    }).push(t)
}

/// The sample of a poll, where it has one and both its fields are finite.
pub open spec fn usable_sample(p: PollResult) -> Option<BatterySample> {
    match p.battery {
        Some(b) => if b.voltage.finite() && b.current.finite() {
            Some(b)
        } else {
            None
        },
        None => None,
    }
}

/// A setpoint read back too far from the one commanded.
pub open spec fn off_target(observed: F32, commanded: F32) -> bool {
    number(SETPOINT_DRIFT_TOL).at_most(observed.difference(commanded).absolute())
}

/// What the output state says, where it disagrees with the latch.
pub open spec fn output_verdict(latch: LatchState, output: Option<BuckOutput>) -> Option<Verdict> {
    match (latch, output) {
        (LatchState::Active { .. }, Some(BuckOutput::Off { cause })) => Some(
            if cause.self_clearing() {
                Verdict::EnterProtectRecovery(cause)
            } else {
                Verdict::Latch(FaultReason::OutputUnexpectedlyOff(cause))
            },
        ),
        (LatchState::Pending { reason }, Some(BuckOutput::On)) => Some(
            match reason {
                PendingReason::Boot => Verdict::Latch(FaultReason::OutputOnInPending),
                PendingReason::ProtectRecovery => Verdict::ResumeRegulating,
            },
        ),
        _ => None,
    }
}

/// The buck reports its output off on a cause that clears by itself.
pub open spec fn held_off(output: Option<BuckOutput>) -> Option<ProtectionStatus> {
    match output {
        Some(BuckOutput::Off { cause }) => if cause.self_clearing() {
            Some(cause)
        } else {
            None
        },
        _ => None,
    }
}

/// What the supervisor knows.
pub ghost struct Supervision {
    pub profile: Profile,
    pub phase: Phase,
    pub ov: Debounce,
    pub absorb: Debounce,
    pub exit: Debounce,
    pub battery_missing: Debounce,
    pub modbus_err: Debounce,
    pub latch: LatchState,
    pub inhibit: Option<InhibitReason>,
    pub transitions: Seq<ChargeTransition>,
}

impl Supervision {
    /// Boot: Float, output off, nothing counted, nothing recorded.
    pub open spec fn boot(profile: Profile) -> Supervision {
        Supervision {
            profile,
            phase: Phase::Float,
            ov: Debounce::empty(),
            absorb: Debounce::empty(),
            exit: Debounce::empty(),
            battery_missing: Debounce::empty(),
            modbus_err: Debounce::empty(),
            latch: LatchState::Pending { reason: PendingReason::Boot },
            inhibit: None,
            transitions: Seq::empty(),
        }
    }

    /// What every operation keeps: the targets are ordered, the buffer is within
    /// its bound, a pending write moves away from the current phase, the exit gate
    /// has not fired while the phase machine may run, and nothing inhibits once a
    /// fault has latched.
    pub open spec fn wf(self) -> bool {
        &&& self.profile.float_v.below(self.profile.absorb_v)
        &&& self.transitions.len() <= TRANSITION_BUFFER
        &&& match self.latch {
            LatchState::Pending { .. } => self.exit_open(),
            LatchState::Active { pending_voltage: None } => self.exit_open(),
            LatchState::Active { pending_voltage: Some(next) } => next != self.phase,
            LatchState::Tripped { .. } => self.inhibit is None,
        }
    }

    /// The exit gate has not fired.
    pub open spec fn exit_open(self) -> bool {
        self.exit.elapsed@ < seconds(EXIT_DEBOUNCE as nat)@
    }

    /// The voltage a phase holds.
    pub open spec fn voltage_of(self, phase: Phase) -> F32 {
        match phase {
            Phase::Float => self.profile.float_v,
            Phase::Absorb => self.profile.absorb_v,
        }
    }

    /// The setpoints the buck has to report.
    pub open spec fn expected(self) -> Setpoints {
        Setpoints { v_set: self.voltage_of(self.phase), i_set: self.profile.regulation_a }
    }

    /// At or above the constant-voltage plateau.
    pub open spec fn at_plateau(self, voltage: F32) -> bool {
        self.profile.absorb_v.difference(number(ABSORB_CV_BAND_V)).at_most(voltage)
    }

    /// Above the overvoltage line.
    pub open spec fn over_voltage(self, voltage: F32) -> bool {
        self.profile.absorb_v.sum(number(OV_MARGIN_V)).below(voltage)
    }

    /// The readback disagrees with what was commanded.
    pub open spec fn drifted(self, p: PollResult) -> bool {
        match p.setpoints {
            Some(sp) => off_target(sp.v_set, self.expected().v_set) || off_target(
                sp.i_set,
                self.expected().i_set,
            ),
            None => false,
        }
    }

    /// The request that moves the setpoint to `next`.
    pub open spec fn update_to(self, next: Phase) -> Request {
        Request::Update {
            phase: next,
            target_v: self.voltage_of(next),
            cycle_output: self.voltage_of(next).below(self.voltage_of(self.phase)),
        }
    }

    /// The latch moved to `next`, with the transition recorded if there is one.
    pub open spec fn moved(
        self,
        next: LatchState,
        transition: Option<ChargeTransition>,
    ) -> Supervision {
        Supervision {
            latch: next,
            transitions: match transition {
                Some(t) => buffered(self.transitions, t),
                None => self.transitions,
            },
            ..self
        }
    }

    /// The two timers of the phase machine cleared.
    pub open spec fn phase_timers_reset(self) -> Supervision {
        Supervision { absorb: Debounce::empty(), exit: Debounce::empty(), ..self }
    }

    /// A fault latched.
    pub open spec fn latched(self, reason: FaultReason) -> Supervision {
        Supervision { inhibit: None, ..self }.moved(
            LatchState::Tripped { reason, acked: false },
            Some(ChargeTransition::Latched),
        )
    }

    /// The ordered safety checks: the timers afterwards, and the first verdict
    /// that applies. A check that is not reached steps no timer.
    pub open spec fn judged(self, p: PollResult, dt: Duration) -> (Supervision, Verdict) {
        let link = Supervision {
            modbus_err: self.modbus_err.stepped(p.setpoints is None, dt),
            ..self
        };
        let fresh = Supervision {
            battery_missing: self.battery_missing.stepped(usable_sample(p) is None, dt),
            ..link
        };
        if self.drifted(p) {
            (self, self.latch.failing(FaultReason::SettingsDrift, InhibitReason::SettingsDrift))
        } else if let Some(v) = output_verdict(self.latch, p.output) {
            (self, v)
        } else if p.setpoints is None && link.modbus_err.reached(
            seconds(MODBUS_UNHEALTHY_TIMEOUT as nat),
        ) {
            (link, self.latch.failing(FaultReason::ModbusUnhealthy, InhibitReason::ModbusUnhealthy))
        } else if let Some(b) = usable_sample(p) {
            let over = self.over_voltage(b.voltage);
            let full = Supervision { ov: self.ov.stepped(over, dt), ..fresh };
            (
                full,
                if self.latch.is_active() {
                    if over && full.ov.reached(seconds(OV_DURATION as nat)) {
                        Verdict::Latch(FaultReason::Overvoltage)
                    } else {
                        Verdict::Clear(b)
                    }
                } else if over {
                    Verdict::Inhibit(InhibitReason::Overvoltage)
                } else if self.latch.is_pending() && p.setpoints is None {
                    Verdict::Inhibit(InhibitReason::ModbusUnhealthy)
                } else if self.latch.is_pending() && held_off(p.output) is Some {
                    Verdict::Inhibit(InhibitReason::BuckProtection(held_off(p.output)->0))
                } else {
                    Verdict::Clear(b)
                },
            )
        } else if fresh.battery_missing.reached(seconds(BATTERY_MISSING_TIMEOUT as nat)) {
            (
                fresh,
                self.latch.failing(
                    FaultReason::BatterySensorStale,
                    InhibitReason::BatterySensorStale,
                ),
            )
        } else {
            (fresh, Verdict::Inhibit(InhibitReason::NoBatterySample))
        }
    }

    /// The phase machine, with the output on and every check passed.
    pub open spec fn regulated(self, b: BatterySample, dt: Duration) -> (Supervision, Request) {
        match self.latch {
            LatchState::Active { pending_voltage: Some(next) } => (self, self.update_to(next)),
            _ => {
                let charging_a = b.current.negated();
                let below_exit = self.phase == Phase::Absorb && charging_a.below(
                    self.profile.exit_absorb_a,
                );
                let clocked = Supervision { exit: self.exit.stepped_leaky(below_exit, dt), ..self };
                let next = match self.phase {
                    Phase::Float => if self.profile.enter_absorb_a.below(charging_a) {
                        Phase::Absorb
                    } else {
                        Phase::Float
                    },
                    Phase::Absorb => if clocked.exit.reached(seconds(EXIT_DEBOUNCE as nat)) {
                        Phase::Float
                    } else {
                        Phase::Absorb
                    },
                };
                if next != self.phase {
                    (
                        clocked.moved(LatchState::Active { pending_voltage: Some(next) }, None),
                        self.update_to(next),
                    )
                } else if self.phase == Phase::Absorb {
                    let at_cv = self.at_plateau(b.voltage);
                    let held = Supervision { absorb: self.absorb.stepped(at_cv, dt), ..clocked };
                    if at_cv && held.absorb.reached(seconds(MAX_ABSORB as nat)) {
                        (
                            held.latched(FaultReason::AbsorbTimeout),
                            Request::Disable { reason: FaultReason::AbsorbTimeout },
                        )
                    } else {
                        (held, Request::Nothing)
                    }
                } else {
                    (clocked, Request::Nothing)
                }
            },
        }
    }

    /// What a verdict does.
    pub open spec fn acted(self, verdict: Verdict, dt: Duration) -> (Supervision, Request) {
        match verdict {
            Verdict::Latch(reason) => (self.latched(reason), Request::Disable { reason }),
            Verdict::EnterProtectRecovery(cause) => (
                Supervision {
                    ov: Debounce::empty(),
                    inhibit: Some(InhibitReason::BuckProtection(cause)),
                    ..self.moved(
                        LatchState::Pending { reason: PendingReason::ProtectRecovery },
                        Some(ChargeTransition::ProtectHold),
                    ).phase_timers_reset()
                },
                Request::Nothing,
            ),
            Verdict::ResumeRegulating => (
                Supervision {
                    inhibit: None,
                    ..self.moved(
                        LatchState::Active { pending_voltage: None },
                        Some(ChargeTransition::ProtectCleared),
                    )
                },
                Request::Nothing,
            ),
            Verdict::Inhibit(reason) => (
                Supervision { inhibit: Some(reason), ..self },
                Request::Nothing,
            ),
            Verdict::Clear(b) => {
                let cleared = Supervision { inhibit: None, ..self };
                if self.latch.is_pending() {
                    (cleared, Request::Enable { resume_absorb: !self.at_plateau(b.voltage) })
                } else {
                    cleared.regulated(b, dt)
                }
            },
        }
    }

    /// One poll cycle.
    pub open spec fn ticked(self, p: PollResult, dt: Duration) -> (Supervision, Request) {
        match self.latch {
            LatchState::Tripped { reason, acked } => (
                self,
                if acked {
                    Request::Nothing
                } else {
                    Request::Disable { reason }
                },
            ),
            _ => {
                let (judged, verdict) = self.judged(p, dt);
                judged.acted(verdict, dt)
            },
        }
    }

    /// A committed bring-up. Where the device already holds the absorb target
    /// there is nothing to write, so no step up is owed.
    pub open spec fn enabled(self, resume_absorb: bool) -> Supervision {
        let owed = if resume_absorb && self.phase != Phase::Absorb {
            Some(Phase::Absorb)
        } else {
            None
        };
        self.moved(
            LatchState::Active { pending_voltage: owed },
            Some(
                match self.latch {
                    LatchState::Pending { reason: PendingReason::ProtectRecovery } =>
                        ChargeTransition::ProtectCleared,
                    _ => ChargeTransition::Energised,
                },
            ),
        )
    }

    /// A committed voltage write.
    pub open spec fn retargeted(self, phase: Phase) -> Supervision {
        Supervision { phase, ..self }.moved(
            LatchState::Active { pending_voltage: None },
            None,
        ).phase_timers_reset()
    }
}

/// Decides each tick what the buck has to do.
pub struct ChargeSupervisor {
    profile: Profile,
    phase: Phase,
    ov: Debounce,
    absorb: Debounce,
    exit: Debounce,
    battery_missing: Debounce,
    modbus_err: Debounce,
    latch: LatchState,
    inhibit: Option<InhibitReason>,
    transitions: Deque<ChargeTransition, 8>,
}

impl ChargeSupervisor {
    /// What the supervisor knows.
    pub closed spec fn view(&self) -> Supervision {
        Supervision {
            profile: self.profile,
            phase: self.phase,
            ov: self.ov,
            absorb: self.absorb,
            exit: self.exit,
            battery_missing: self.battery_missing,
            modbus_err: self.modbus_err,
            latch: self.latch,
            inhibit: self.inhibit,
            transitions: ring_transitions(self.transitions),
        }
    }

    /// The supervisor's invariant.
    pub open spec fn wf(&self) -> bool {
        self@.wf()
    }

    /// Boots conservative: Float, with the output off until the first healthy
    /// tick. A stored phase is never trusted; bring-up finds it again from the
    /// pack's resting voltage.
    pub fn new(profile: Profile) -> (s: ChargeSupervisor)
        requires
            profile.float_v.below(profile.absorb_v),
        ensures
            s@ == Supervision::boot(profile),
            s.wf(),
    {
        ChargeSupervisor {
            profile,
            phase: Phase::Float,
            ov: Debounce::default(),
            absorb: Debounce::default(),
            exit: Debounce::default(),
            battery_missing: Debounce::default(),
            modbus_err: Debounce::default(),
            latch: LatchState::Pending { reason: PendingReason::Boot },
            inhibit: None,
            transitions: buffer_new(),
        }
    }

    /// Clears the two timers of the phase machine.
    fn reset_phase_timers(&mut self)
        ensures
            final(self)@ == old(self)@.phase_timers_reset(),
    {
        self.absorb.reset();
        self.exit.reset();
    }

    /// The phase whose target the device holds.
    pub fn phase(&self) -> (p: Phase)
        ensures
            p == self@.phase,
    {
        self.phase
    }

    /// The phase, only while the output is on.
    pub fn active_phase(&self) -> (p: Option<Phase>)
        ensures
            p == (if self@.latch.is_active() {
                Some(self@.phase)
            } else {
                None
            }),
    {
        if self.latch.regulating() {
            Some(self.phase)
        } else {
            None
        }
    }

    /// The output is off and the supervisor is deciding whether to bring it up.
    pub fn is_pending(&self) -> (b: bool)
        ensures
            b == self@.latch.is_pending(),
    {
        self.latch.pending()
    }

    /// The output is on and the phase machine is running.
    pub fn is_active(&self) -> (b: bool)
        ensures
            b == self@.latch.is_active(),
    {
        self.latch.regulating()
    }

    /// The voltage the device has to hold.
    pub fn target_voltage(&self) -> (v: F32)
        ensures
            v == self@.voltage_of(self@.phase),
    {
        self.voltage_for_phase(self.phase)
    }

    /// Pack voltage at or above the constant-voltage plateau: "full" at bring-up,
    /// "clock the absorb timeout" in Absorb.
    fn at_cv_plateau(&self, voltage: F32) -> (b: bool)
        ensures
            b == self@.at_plateau(voltage),
    {
        voltage.ge(self.profile.absorb_v.sub(F32::from_bits(ABSORB_CV_BAND_V)))
    }

    fn voltage_for_phase(&self, phase: Phase) -> (v: F32)
        ensures
            v == self@.voltage_of(phase),
    {
        match phase {
            Phase::Float => self.profile.float_v,
            Phase::Absorb => self.profile.absorb_v,
        }
    }

    /// The action that moves the setpoint to `next`; the output is cycled where
    /// the new voltage is below the current one.
    fn update_voltage_for(&self, next: Phase) -> (a: Action)
        ensures
            a@ == self@.update_to(next),
    {
        let target_v = self.voltage_for_phase(next);
        let cycle_output = target_v.lt(self.voltage_for_phase(self.phase));
        Action::UpdateVoltage(VoltageTicket::mint(next, target_v, cycle_output))
    }

    /// Why the buck is held off without a latched fault, if it is.
    pub fn inhibit(&self) -> (r: Option<InhibitReason>)
        ensures
            r == self@.inhibit,
    {
        self.inhibit
    }

    /// Takes the oldest transition that has not been drained.
    pub fn pop_transition(&mut self) -> (t: Option<ChargeTransition>)
        requires
            old(self).wf(),
        ensures
            final(self).wf(),
            match t {
                Some(first) => old(self)@.transitions.len() > 0 && first
                    == old(self)@.transitions[0] && final(self)@ == (Supervision {
                    transitions: old(self)@.transitions.drop_first(),
                    ..old(self)@
                }),
                None => old(self)@.transitions.len() == 0 && final(self)@ == old(self)@,
            },
    {
        buffer_pop_front(&mut self.transitions)
    }

    /// The latched fault, if there is one.
    pub fn fault(&self) -> (r: Option<FaultReason>)
        ensures
            r == (match self@.latch {
                LatchState::Tripped { reason, .. } => Some(reason),
                _ => None,
            }),
    {
        match self.latch {
            LatchState::Tripped { reason, .. } => Some(reason),
            _ => None,
        }
    }

    /// The setpoints the buck has to report. The current is constant; a feature
    /// that varies it has to defer and commit it as voltage writes are.
    pub fn expected_setpoints(&self) -> (sp: Setpoints)
        ensures
            sp == self@.expected(),
    {
        Setpoints { v_set: self.target_voltage(), i_set: self.profile.regulation_a }
    }

    /// Commits the disable named by `ticket`, after the output was switched off.
    /// Until then the supervisor keeps asking for it.
    pub fn commit_disable(&mut self, ticket: DisableTicket)
        requires
            old(self).wf(),
            match old(self)@.latch {
                LatchState::Tripped { reason, .. } => reason == ticket.fault(),
                _ => false,
            },
        ensures
            final(self).wf(),
            final(self)@ == (Supervision {
                latch: LatchState::Tripped { reason: ticket.fault(), acked: true },
                ..old(self)@
            }),
    {
        self.latch = LatchState::Tripped { reason: ticket.reason(), acked: true };
    }

    /// Commits the bring-up named by `ticket`, after the output was switched on.
    /// The phase machine starts on the next tick. A pack that rested below the
    /// plateau is owed a step up to absorb.
    pub fn commit_enable(&mut self, ticket: EnableTicket)
        requires
            old(self).wf(),
            old(self)@.latch.is_pending(),
        ensures
            final(self).wf(),
            final(self)@ == old(self)@.enabled(ticket.resumes()),
    {
        // Asking for the phase the device is already in would be a wasted write.
        let resume = if ticket.resume_absorb() && self.phase != Phase::Absorb {
            Some(Phase::Absorb)
        } else {
            None
        };
        // A hold ends where it began, so that route reads as a resume.
        let transition = match self.latch {
            LatchState::Pending { reason: PendingReason::ProtectRecovery } =>
                ChargeTransition::ProtectCleared,
            _ => ChargeTransition::Energised,
        };
        self.set_latch(LatchState::Active { pending_voltage: resume }, Some(transition));
    }

    /// Commits the phase change named by `ticket`, after the voltage was written.
    /// The drift check follows the new target from the next tick on. If the write
    /// failed the caller drops the ticket, and the next tick asks again.
    pub fn commit_voltage(&mut self, ticket: VoltageTicket)
        requires
            old(self).wf(),
            old(self)@.latch == (LatchState::Active { pending_voltage: Some(ticket.to_phase()) }),
        ensures
            final(self).wf(),
            final(self)@ == old(self)@.retargeted(ticket.to_phase()),
    {
        self.phase = ticket.phase();
        self.set_latch(LatchState::Active { pending_voltage: None }, None);
        self.reset_phase_timers();
    }

    /// Drives one poll cycle. `p` carries the buck's readback and the latest fresh
    /// battery sample, `elapsed` is the time since the previous tick.
    pub fn tick(&mut self, p: PollResult, elapsed: Duration) -> (a: Action)
        requires
            old(self).wf(),
        ensures
            final(self).wf(),
            (final(self)@, a@) == old(self)@.ticked(p, elapsed),
    {
        match self.latch {
            LatchState::Tripped { reason, acked } => {
                return if acked {
                    Action::Idle
                } else {
                    Action::DisableOutput(DisableTicket::mint(reason))
                };
            },
            _ => {},
        }
        let battery = match self.safety_verdict(&p, elapsed) {
            Verdict::Latch(reason) => return self.latch(reason),
            Verdict::EnterProtectRecovery(cause) => {
                self.set_latch(
                    LatchState::Pending { reason: PendingReason::ProtectRecovery },
                    Some(ChargeTransition::ProtectHold),
                );
                self.reset_phase_timers();
                // The output is off for the length of the hold, so a partly
                // filled overvoltage window would trip the next stretch early.
                self.ov.reset();
                self.inhibit = Some(InhibitReason::BuckProtection(cause));
                return Action::Idle;
            },
            Verdict::ResumeRegulating => {
                self.set_latch(
                    LatchState::Active { pending_voltage: None },
                    Some(ChargeTransition::ProtectCleared),
                );
                self.inhibit = None;
                return Action::Idle;
            },
            Verdict::Inhibit(reason) => {
                self.inhibit = Some(reason);
                return Action::Idle;
            },
            Verdict::Clear(b) => {
                self.inhibit = None;
                b
            },
        };
        // The output has been off throughout, so this is the resting voltage.
        if self.latch.pending() {
            return Action::EnableOutput(
                EnableTicket::mint(!self.at_cv_plateau(battery.voltage)),
            );
        }
        self.regulate(battery, elapsed)
    }

    /// The ordered safety checks. Whether a failure latches or only inhibits is
    /// decided by the latch alone: with the output already off a latch would
    /// disable nothing and cost a reboot to clear. The one exception is an output
    /// found on at boot, where there is something to disable.
    fn safety_verdict(&mut self, p: &PollResult, elapsed: Duration) -> (v: Verdict)
        requires
            !(old(self)@.latch is Tripped),
        ensures
            (final(self)@, v) == old(self)@.judged(*p, elapsed),
            old(self)@.latch is Pending && v is Latch ==> v == Verdict::Latch(
                FaultReason::OutputOnInPending,
            ) && p.output == Some(BuckOutput::On),
    {
        // Commanded against reported setpoints. The read succeeded, so a mismatch
        // is the device disagreeing and no transport noise: no debounce.
        if let Some(sp) = p.setpoints {
            let want = self.expected_setpoints();
            let tol = F32::from_bits(SETPOINT_DRIFT_TOL);
            if sp.v_set.sub(want.v_set).abs().ge(tol) || sp.i_set.sub(want.i_set).abs().ge(tol) {
                return self.latch.fault(FaultReason::SettingsDrift, InhibitReason::SettingsDrift);
            }
        }
        // The latch against what the output reports.
        match (self.latch, p.output) {
            (LatchState::Active { .. }, Some(BuckOutput::Off { cause })) => {
                return if cause.is_self_clearing() {
                    Verdict::EnterProtectRecovery(cause)
                } else {
                    Verdict::Latch(FaultReason::OutputUnexpectedlyOff(cause))
                };
            },
            (
                LatchState::Pending { reason: PendingReason::ProtectRecovery },
                Some(BuckOutput::On),
            ) => {
                return Verdict::ResumeRegulating;
            },
            (LatchState::Pending { reason: PendingReason::Boot }, Some(BuckOutput::On)) => {
                return Verdict::Latch(FaultReason::OutputOnInPending);
            },
            _ => {},
        }
        // Health of the link.
        if self.modbus_err.step(
            p.setpoints.is_none(),
            elapsed,
            Duration::from_secs(MODBUS_UNHEALTHY_TIMEOUT),
        ) {
            return self.latch.fault(FaultReason::ModbusUnhealthy, InhibitReason::ModbusUnhealthy);
        }
        // Freshness of the battery sample. One that is not finite counts as
        // missing, or a stuck sensor could mask an overvoltage.
        let battery = match p.battery {
            Some(b) => if b.voltage.is_finite() && b.current.is_finite() {
                Some(b)
            } else {
                None
            },
            None => None,
        };
        if self.battery_missing.step(
            battery.is_none(),
            elapsed,
            Duration::from_secs(BATTERY_MISSING_TIMEOUT),
        ) {
            return self.latch.fault(
                FaultReason::BatterySensorStale,
                InhibitReason::BatterySensorStale,
            );
        }
        let b = match battery {
            Some(b) => b,
            None => return Verdict::Inhibit(InhibitReason::NoBatterySample),
        };
        // Overvoltage: debounced while regulating, a single sample at bring-up.
        let ov = b.voltage.gt(self.profile.absorb_v.add(F32::from_bits(OV_MARGIN_V)));
        let ov_debounced = self.ov.step(ov, elapsed, Duration::from_secs(OV_DURATION));
        if self.latch.regulating() {
            if ov_debounced {
                return Verdict::Latch(FaultReason::Overvoltage);
            }
        } else if ov {
            return Verdict::Inhibit(InhibitReason::Overvoltage);
        }
        // Bring-up only: "not yet" and no fault.
        if self.latch.pending() {
            if p.setpoints.is_none() {
                return Verdict::Inhibit(InhibitReason::ModbusUnhealthy);
            }
            if let Some(BuckOutput::Off { cause }) = p.output {
                if cause.is_self_clearing() {
                    return Verdict::Inhibit(InhibitReason::BuckProtection(cause));
                }
            }
        }
        Verdict::Clear(b)
    }

    /// The output is on and every check just passed: the outstanding write, then
    /// the phase machine and the absorb cap.
    fn regulate(&mut self, b: BatterySample, elapsed: Duration) -> (a: Action)
        requires
            old(self).wf(),
            old(self)@.latch.is_active(),
            old(self)@.inhibit is None,
        ensures
            final(self).wf(),
            (final(self)@, a@) == old(self)@.regulated(b, elapsed),
            final(self)@.phase == old(self)@.phase,
            a@ is Update ==> {
                &&& a@->phase != old(self)@.phase
                &&& a@->target_v == old(self)@.voltage_of(a@->phase)
                &&& a@->cycle_output == a@->target_v.below(old(self)@.voltage_of(old(self)@.phase))
            },
    {
        // Ask again until the write is committed. The phase machine does not run
        // meanwhile, and the drift check keeps matching the old target.
        if let LatchState::Active { pending_voltage: Some(next) } = self.latch {
            return self.update_voltage_for(next);
        }
        // Charging current as a positive number.
        let charging_a = b.current.neg();
        let below_exit = self.phase == Phase::Absorb && charging_a.lt(self.profile.exit_absorb_a);
        // Leaky: a full pack makes the buck pulse past the tail in bursts, which
        // have to shorten the window and not empty it.
        let exit_done = self.exit.step_leaky(
            below_exit,
            elapsed,
            Duration::from_secs(EXIT_DEBOUNCE),
        );
        let next = match self.phase {
            Phase::Float => if charging_a.gt(self.profile.enter_absorb_a) {
                Phase::Absorb
            } else {
                Phase::Float
            },
            Phase::Absorb => if exit_done {
                Phase::Float
            } else {
                Phase::Absorb
            },
        };
        if next != self.phase {
            // The phase itself moves only once the write is committed, so a
            // failed write cannot read as drift.
            self.set_latch(LatchState::Active { pending_voltage: Some(next) }, None);
            return self.update_voltage_for(next);
        }
        // Clock the absorb cap only at the plateau: a dip is genuine charging.
        let at_cv = self.at_cv_plateau(b.voltage);
        if self.phase == Phase::Absorb && self.absorb.step(
            at_cv,
            elapsed,
            Duration::from_secs(MAX_ABSORB),
        ) {
            return self.latch(FaultReason::AbsorbTimeout);
        }
        Action::Idle
    }

    /// The single place that moves the latch. `transition` is what the move means
    /// to the event log, if anything.
    fn set_latch(&mut self, next: LatchState, transition: Option<ChargeTransition>)
        requires
            old(self)@.transitions.len() <= TRANSITION_BUFFER,
        ensures
            final(self)@ == old(self)@.moved(next, transition),
            final(self)@.transitions.len() <= TRANSITION_BUFFER,
    {
        if let Some(t) = transition {
            // Oldest out: recent history serves a caller that stopped draining
            // better than a stale head.
            if buffer_is_full(&self.transitions) {
                let _ = buffer_pop_front(&mut self.transitions);
            }
            let _ = buffer_push_back(&mut self.transitions, t);
        }
        self.latch = next;
    }

    fn latch(&mut self, reason: FaultReason) -> (a: Action)
        requires
            old(self)@.transitions.len() <= TRANSITION_BUFFER,
            old(self)@.profile.float_v.below(old(self)@.profile.absorb_v),
        ensures
            final(self)@ == old(self)@.latched(reason),
            final(self).wf(),
            a@ == (Request::Disable { reason }),
    {
        self.inhibit = None;
        self.set_latch(
            LatchState::Tripped { reason, acked: false },
            Some(ChargeTransition::Latched),
        );
        Action::DisableOutput(DisableTicket::mint(reason))
    }
}

} // verus!
