//! What holds of every charge supervisor, whatever it is polled with.

use crate::charging::action::Request;
use crate::charging::charge_supervisor::{
    buffered, held_off, output_verdict, usable_sample, LatchState, PendingReason, Supervision,
    Verdict,
};
use crate::charging::fault_reason::FaultReason;
use crate::charging::inhibit_reason::InhibitReason;
use crate::charging::phase::Phase;
use crate::charging::poll_result::{BatterySample, BuckOutput, PollResult};
use crate::charging::protection_policy::ProtectionPolicy;
use crate::charging::{
    BATTERY_MISSING_TIMEOUT, MODBUS_UNHEALTHY_TIMEOUT, OV_DURATION, TRANSITION_BUFFER,
};
use crate::error_log::ChargeTransition;
use crate::float::order_is_total;
use crate::time::{seconds, Duration};
use vstd::prelude::*;

verus! {

/// The invariant survives every tick, and neither profile nor phase changes: the
/// setpoints that the buck has to report move only by a commit.
pub proof fn tick_keeps_invariant_and_setpoints(s: Supervision, p: PollResult, dt: Duration)
    requires
        s.wf(),
    ensures
        s.ticked(p, dt).0.wf(),
        s.ticked(p, dt).0.profile == s.profile,
        s.ticked(p, dt).0.phase == s.phase,
        s.ticked(p, dt).0.expected() == s.expected(),
{
}

/// A latched fault is final: no tick changes anything, the disable is asked for
/// until it is acknowledged and nothing at all afterwards.
pub proof fn latched_fault_is_final(s: Supervision, p: PollResult, dt: Duration)
    requires
        s.latch is Tripped,
    ensures
        s.ticked(p, dt).0 == s,
        !s.latch->acked ==> s.ticked(p, dt).1 == (Request::Disable { reason: s.latch->Tripped_reason }),
        s.latch->acked ==> s.ticked(p, dt).1 == Request::Nothing,
{
}

/// With the output off nothing latches, but for an output found on at boot.
pub proof fn only_a_sourcing_buck_latches(s: Supervision, p: PollResult, dt: Duration)
    requires
        s.latch is Pending,
        s.ticked(p, dt).0.latch is Tripped,
    ensures
        s.latch == (LatchState::Pending { reason: PendingReason::Boot }),
        p.output == Some(BuckOutput::On),
        s.ticked(p, dt).0.latch == (LatchState::Tripped {
            reason: FaultReason::OutputOnInPending,
            acked: false,
        }),
{
}

/// While the output is off, the checks only inhibit, however long a failure lasts:
/// drift, a lost link, a missing sample and an overvoltage all clear by themselves. The
/// one verdict that latches is an output found on at boot.
pub proof fn checks_only_inhibit_while_off(s: Supervision, p: PollResult, dt: Duration)
    requires
        s.latch is Pending,
    ensures
        s.judged(p, dt).1 is Latch ==> s.judged(p, dt).1 == Verdict::Latch(
            FaultReason::OutputOnInPending,
        ) && s.latch == (LatchState::Pending { reason: PendingReason::Boot }) && p.output == Some(
            BuckOutput::On,
        ),
        s.drifted(p) ==> s.judged(p, dt).1 == Verdict::Inhibit(InhibitReason::SettingsDrift),
        !s.drifted(p) && p.output != Some(BuckOutput::On) && (p.setpoints is None || usable_sample(
            p,
        ) is None || s.over_voltage(usable_sample(p)->0.voltage)) ==> s.judged(p, dt).1 is Inhibit,
{
}

/// Everything bring-up asks for: a readback that agrees, a usable sample below the
/// overvoltage line, an output that is not on and not held off by the buck.
pub open spec fn ready_to_energise(s: Supervision, p: PollResult) -> bool {
    &&& s.latch is Pending
    &&& p.setpoints is Some
    &&& !s.drifted(p)
    &&& p.output != Some(BuckOutput::On)
    &&& held_off(p.output) is None
    &&& usable_sample(p) is Some
    &&& !s.over_voltage(usable_sample(p)->0.voltage)
}

/// The output is asked on exactly when every bring-up check passes; the supervisor
/// stays pending until that is committed.
pub proof fn enable_needs_every_check(s: Supervision, p: PollResult, dt: Duration)
    ensures
        s.ticked(p, dt).1 is Enable <==> ready_to_energise(s, p),
        s.ticked(p, dt).1 is Enable ==> {
            &&& s.ticked(p, dt).0.latch == s.latch
            &&& s.ticked(p, dt).0.inhibit is None
            &&& s.ticked(p, dt).1 == (Request::Enable {
                resume_absorb: !s.at_plateau(usable_sample(p)->0.voltage),
            })
        },
{
}

/// A tick by itself never turns a pending supervisor active, but where the buck
/// came back on from a hold.
pub proof fn pending_stays_pending(s: Supervision, p: PollResult, dt: Duration)
    requires
        s.latch is Pending,
        s.ticked(p, dt).0.latch is Active,
    ensures
        s.latch == (LatchState::Pending { reason: PendingReason::ProtectRecovery }),
        p.output == Some(BuckOutput::On),
        s.ticked(p, dt).0.latch == (LatchState::Active { pending_voltage: None }),
{
}

/// A requested voltage is that of the phase it names, it moves away from the phase
/// held, and the output is cycled exactly on the way down to Float.
pub proof fn step_down_cycles_the_output(s: Supervision, p: PollResult, dt: Duration)
    requires
        s.wf(),
        s.ticked(p, dt).1 is Update,
    ensures
        s.ticked(p, dt).1 == (Request::Update {
            phase: s.ticked(p, dt).1->phase,
            target_v: s.voltage_of(s.ticked(p, dt).1->phase),
            cycle_output: s.ticked(p, dt).1->phase == Phase::Float,
        }),
        s.ticked(p, dt).1->phase != s.phase,
        s.ticked(p, dt).0.latch == (LatchState::Active {
            pending_voltage: Some(s.ticked(p, dt).1->phase),
        }),
{
    order_is_total(s.profile.float_v, s.profile.absorb_v);
    order_is_total(s.profile.absorb_v, s.profile.float_v);
}

/// Regulation by itself moves no setpoint: a voltage that it asks for is that of the
/// other phase, with the output cycled exactly where that is a step down, which is the
/// way to Float. The phase stays, and until the write is committed the same write is
/// asked for again, whatever is measured meanwhile.
pub proof fn regulation_asks_until_committed(
    s: Supervision,
    b: BatterySample,
    dt: Duration,
    later: BatterySample,
    later_dt: Duration,
)
    requires
        s.wf(),
        s.latch is Active,
    ensures
        s.regulated(b, dt).0.phase == s.phase,
        s.regulated(b, dt).1 is Update ==> {
            let next = s.regulated(b, dt).0;
            let asked = s.regulated(b, dt).1;
            &&& asked->phase != s.phase
            &&& asked->target_v == s.voltage_of(asked->phase)
            &&& asked->cycle_output == asked->target_v.below(s.voltage_of(s.phase))
            &&& asked->cycle_output == (asked->phase == Phase::Float)
            &&& next.regulated(later, later_dt) == (next, asked)
        },
{
    order_is_total(s.profile.float_v, s.profile.absorb_v);
    order_is_total(s.profile.absorb_v, s.profile.float_v);
}

/// Until it is committed, a voltage write is asked for again on every tick that
/// passes the checks.
pub proof fn uncommitted_write_is_retried(s: Supervision, p: PollResult, dt: Duration, next: Phase)
    requires
        s.latch == (LatchState::Active { pending_voltage: Some(next) }),
        s.judged(p, dt).1 is Clear,
    ensures
        s.ticked(p, dt).1 == s.update_to(next),
        s.ticked(p, dt).0.latch == s.latch,
        s.ticked(p, dt).0.phase == s.phase,
{
}

/// Committing the requested write makes the device's new target the expected one.
pub proof fn committed_write_moves_the_setpoint(s: Supervision, next: Phase)
    requires
        s.wf(),
        s.latch == (LatchState::Active { pending_voltage: Some(next) }),
    ensures
        s.retargeted(next).wf(),
        s.retargeted(next).expected().v_set == s.voltage_of(next),
        s.retargeted(next).expected().i_set == s.expected().i_set,
        s.retargeted(next).latch == (LatchState::Active { pending_voltage: None }),
{
}

/// A committed bring-up leaves the supervisor regulating; a step up is owed only
/// to a pack that is not full and not already at the absorb target.
pub proof fn committed_enable_starts_regulation(s: Supervision, resume_absorb: bool)
    requires
        s.wf(),
        s.latch is Pending,
    ensures
        s.enabled(resume_absorb).wf(),
        s.enabled(resume_absorb).latch == (LatchState::Active {
            pending_voltage: if resume_absorb && s.phase == Phase::Float {
                Some(Phase::Absorb)
            } else {
                None
            },
        }),
        s.enabled(resume_absorb).phase == s.phase,
        s.enabled(resume_absorb).transitions == buffered(
            s.transitions,
            if s.latch == (LatchState::Pending { reason: PendingReason::Boot }) {
                ChargeTransition::Energised
            } else {
                ChargeTransition::ProtectCleared
            },
        ),
{
}

/// The kind of state, without what is inside.
pub open spec fn kind(latch: LatchState) -> int {
    match latch {
        LatchState::Pending { .. } => 0,
        LatchState::Active { .. } => 1,
        LatchState::Tripped { .. } => 2,
    }
}

/// A tick records one transition when the state changes its kind, named after
/// where it went, and none otherwise.
pub proof fn transitions_record_state_changes(s: Supervision, p: PollResult, dt: Duration)
    ensures
        ({
            let t = s.ticked(p, dt).0;
            if kind(t.latch) == kind(s.latch) {
                t.transitions == s.transitions
            } else {
                t.transitions == buffered(
                    s.transitions,
                    match t.latch {
                        LatchState::Pending { .. } => ChargeTransition::ProtectHold,
                        LatchState::Active { .. } => ChargeTransition::ProtectCleared,
                        LatchState::Tripped { .. } => ChargeTransition::Latched,
                    },
                )
            }
        }),
{
}

/// The buffer keeps the newest transitions, and never more than its bound.
pub proof fn buffer_keeps_the_newest(transitions: Seq<ChargeTransition>, t: ChargeTransition)
    requires
        transitions.len() <= TRANSITION_BUFFER,
    ensures
        buffered(transitions, t).len() <= TRANSITION_BUFFER,
        buffered(transitions, t).last() == t,
        transitions.len() < TRANSITION_BUFFER ==> buffered(transitions, t) == transitions.push(t),
        transitions.len() == TRANSITION_BUFFER ==> buffered(transitions, t)
            =~= transitions.subrange(1, transitions.len() as int).push(t),
{
}

/// Drift outranks every other check.
pub proof fn drift_comes_first(s: Supervision, p: PollResult, dt: Duration)
    requires
        s.drifted(p),
    ensures
        s.latch is Active ==> s.ticked(p, dt).1 == (Request::Disable {
            reason: FaultReason::SettingsDrift,
        }),
        s.latch is Pending ==> s.ticked(p, dt).0 == (Supervision {
            inhibit: Some(InhibitReason::SettingsDrift),
            ..s
        }),
{
}

/// What the output reports comes next: a regulating buck found off latches, or is
/// waited for where its cause clears by itself.
pub proof fn output_state_comes_second(s: Supervision, p: PollResult, dt: Duration)
    requires
        !s.drifted(p),
        s.latch is Active,
        p.output is Some,
        p.output->0 is Off,
    ensures
        p.output->0->cause.self_clearing() ==> {
            &&& s.ticked(p, dt).1 == Request::Nothing
            &&& s.ticked(p, dt).0.latch == (LatchState::Pending {
                reason: PendingReason::ProtectRecovery,
            })
            &&& s.ticked(p, dt).0.inhibit == Some(
                InhibitReason::BuckProtection(p.output->0->cause),
            )
            &&& s.ticked(p, dt).0.exit.elapsed@ == 0
            &&& s.ticked(p, dt).0.absorb.elapsed@ == 0
            &&& s.ticked(p, dt).0.ov.elapsed@ == 0
        },
        !p.output->0->cause.self_clearing() ==> s.ticked(p, dt).1 == (Request::Disable {
            reason: FaultReason::OutputUnexpectedlyOff(p.output->0->cause),
        }),
{
}

/// Without a usable sample nothing is switched on and no voltage is moved.
pub proof fn no_sample_no_charging(s: Supervision, p: PollResult, dt: Duration)
    requires
        usable_sample(p) is None,
    ensures
        s.ticked(p, dt).1 is Nothing || s.ticked(p, dt).1 is Disable,
{
}

/// A regulating supervisor that keeps losing its readback latches exactly once the
/// window is full, as long as nothing ranks before it.
pub proof fn link_loss_latches_when_the_window_is_full(s: Supervision, p: PollResult, dt: Duration)
    requires
        s.latch is Active,
        p.setpoints is None,
        output_verdict(s.latch, p.output) is None,
    ensures
        s.ticked(p, dt).1 == (Request::Disable { reason: FaultReason::ModbusUnhealthy })
            <==> s.modbus_err.elapsed.plus(dt)@ >= seconds(MODBUS_UNHEALTHY_TIMEOUT as nat)@,
{
}

/// A regulating supervisor without a usable sample latches exactly once the window
/// is full, as long as nothing ranks before it.
pub proof fn sample_loss_latches_when_the_window_is_full(
    s: Supervision,
    p: PollResult,
    dt: Duration,
)
    requires
        s.latch is Active,
        p.setpoints is Some,
        !s.drifted(p),
        output_verdict(s.latch, p.output) is None,
        usable_sample(p) is None,
    ensures
        s.ticked(p, dt).1 == (Request::Disable { reason: FaultReason::BatterySensorStale })
            <==> s.battery_missing.elapsed.plus(dt)@ >= seconds(BATTERY_MISSING_TIMEOUT as nat)@,
{
}

/// Overvoltage trips a regulating supervisor only after it has held for the whole
/// window; one sample at or below the line empties the window.
pub proof fn overvoltage_is_debounced(s: Supervision, p: PollResult, dt: Duration)
    requires
        s.latch is Active,
        p.setpoints is Some,
        !s.drifted(p),
        output_verdict(s.latch, p.output) is None,
        usable_sample(p) is Some,
    ensures
        s.ticked(p, dt).1 == (Request::Disable { reason: FaultReason::Overvoltage }) <==> (
        s.over_voltage(usable_sample(p)->0.voltage) && s.ov.elapsed.plus(dt)@ >= seconds(
            OV_DURATION as nat,
        )@),
        !s.over_voltage(usable_sample(p)->0.voltage) ==> s.ticked(p, dt).0.ov.elapsed@ == 0,
{
}

} // verus!
