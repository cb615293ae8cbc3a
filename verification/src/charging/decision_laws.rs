//! What the charge supervisor decides on a poll, in terms of the poll, the profile and
//! how long a condition has held. Each law speaks of a poll on which nothing else is
//! wrong that ranks before it.

use crate::charging::action::Request;
use crate::charging::charge_supervisor::{LatchState, PendingReason, Supervision};
use crate::charging::fault_reason::FaultReason;
use crate::charging::inhibit_reason::InhibitReason;
use crate::charging::phase::Phase;
use crate::charging::poll_result::{BatterySample, BuckOutput, PollResult};
use crate::charging::{ABSORB_CV_BAND_V, OV_MARGIN_V, SETPOINT_DRIFT_TOL};
use crate::device::ProtectionStatus;
use crate::float::{number, order_is_total, F32};
use crate::time::{Duration, MAX_NANOS};
use vstd::prelude::*;

verus! {

/// A second in nanoseconds.
pub const SECOND: u64 = 1_000_000_000;

/// A setpoint read back within the tolerance of the one commanded.
pub open spec fn close_to(observed: F32, commanded: F32) -> bool {
    !number(SETPOINT_DRIFT_TOL).at_most(observed.difference(commanded).absolute())
}

/// The setpoints read back, where they were, are those of the phase held.
pub open spec fn agrees(s: Supervision, p: PollResult) -> bool {
    p.setpoints is Some ==> {
        &&& close_to(
            p.setpoints->0.v_set,
            if s.phase == Phase::Absorb {
                s.profile.absorb_v
            } else {
                s.profile.float_v
            },
        )
        &&& close_to(p.setpoints->0.i_set, s.profile.regulation_a)
    }
}

/// The cause is one that the buck comes back from by itself: a sagging input, or heat.
pub open spec fn clears_itself(cause: ProtectionStatus) -> bool {
    cause == ProtectionStatus::Lvp || cause == ProtectionStatus::Otp
}

/// The output is as the supervisor left it, or was not read.
pub open spec fn output_as_left(s: Supervision, p: PollResult) -> bool {
    match p.output {
        None => true,
        Some(BuckOutput::On) => s.latch is Active,
        Some(BuckOutput::Off { cause }) => s.latch is Pending,
    }
}

/// The sample of the poll, both of its values being numbers.
pub open spec fn has_sample(p: PollResult, b: BatterySample) -> bool {
    p.battery == Some(b) && b.voltage.finite() && b.current.finite()
}

/// The poll has no sample to go by: none at all, or a value that is no number.
pub open spec fn lacks_sample(p: PollResult) -> bool {
    p.battery is None || !p.battery->0.voltage.finite() || !p.battery->0.current.finite()
}

/// The pack is above the absorb target by more than the margin.
pub open spec fn too_high(s: Supervision, v: F32) -> bool {
    s.profile.absorb_v.sum(number(OV_MARGIN_V)).below(v)
}

/// The pack is at the absorb target, or short of it by the width of the band at most.
pub open spec fn on_the_plateau(s: Supervision, v: F32) -> bool {
    s.profile.absorb_v.difference(number(ABSORB_CV_BAND_V)).at_most(v)
}

/// Nothing ranks before the link: the readback agrees and the output is as it was left.
pub open spec fn in_order(s: Supervision, p: PollResult) -> bool {
    &&& s.wf()
    &&& !(s.latch is Tripped)
    &&& agrees(s, p)
    &&& output_as_left(s, p)
}

/// The link is up, or has not been down for five seconds yet.
pub open spec fn link_holds(s: Supervision, p: PollResult, dt: Duration) -> bool {
    p.setpoints is None ==> s.modbus_err.elapsed@ + dt@ < 5 * SECOND
}

/// The supervisor latched `reason` and asks for the output off; the phase stays.
pub open spec fn latches(s: Supervision, p: PollResult, dt: Duration, reason: FaultReason) -> bool {
    let (t, asked) = s.ticked(p, dt);
    &&& asked == (Request::Disable { reason })
    &&& t.latch == (LatchState::Tripped { reason, acked: false })
    &&& t.inhibit is None
    &&& t.phase == s.phase && t.profile == s.profile
}

/// The supervisor asks for nothing, stays what it was, and says why it holds off.
pub open spec fn holds_off(s: Supervision, p: PollResult, dt: Duration, why: InhibitReason) -> bool {
    let (t, asked) = s.ticked(p, dt);
    &&& asked == Request::Nothing
    &&& t.latch == s.latch
    &&& t.inhibit == Some(why)
    &&& t.phase == s.phase && t.profile == s.profile
    &&& t.transitions == s.transitions
    &&& t.exit == s.exit && t.absorb == s.absorb
}

/// A failed check takes a regulating buck down, and only holds an idle one off.
pub open spec fn fails(
    s: Supervision,
    p: PollResult,
    dt: Duration,
    reason: FaultReason,
    why: InhibitReason,
) -> bool {
    if s.latch is Active {
        latches(s, p, dt, reason)
    } else {
        holds_off(s, p, dt, why)
    }
}

/// A readback that is off by the tolerance or more in either setpoint fails at once,
/// whatever else the poll says, and moves no window.
pub proof fn drifted_readback_fails_at_once(s: Supervision, p: PollResult, dt: Duration)
    requires
        s.wf(),
        !(s.latch is Tripped),
        !agrees(s, p),
    ensures
        fails(s, p, dt, FaultReason::SettingsDrift, InhibitReason::SettingsDrift),
        s.ticked(p, dt).0.ov == s.ov,
        s.ticked(p, dt).0.modbus_err == s.modbus_err,
        s.ticked(p, dt).0.battery_missing == s.battery_missing,
{
}

/// An output that went off under a regulating supervisor is waited for where the cause
/// clears by itself, with the windows of the phase machine and of the overvoltage
/// emptied, and latched otherwise.
pub proof fn lost_output_is_waited_for_or_latched(
    s: Supervision,
    p: PollResult,
    dt: Duration,
    cause: ProtectionStatus,
)
    requires
        s.wf(),
        s.latch is Active,
        agrees(s, p),
        p.output == Some(BuckOutput::Off { cause }),
    ensures
        clears_itself(cause) ==> {
            let (t, asked) = s.ticked(p, dt);
            &&& asked == Request::Nothing
            &&& t.latch == (LatchState::Pending { reason: PendingReason::ProtectRecovery })
            &&& t.inhibit == Some(InhibitReason::BuckProtection(cause))
            &&& t.phase == s.phase && t.profile == s.profile
            &&& t.exit.elapsed@ == 0 && t.absorb.elapsed@ == 0 && t.ov.elapsed@ == 0
            &&& t.modbus_err == s.modbus_err && t.battery_missing == s.battery_missing
        },
        !clears_itself(cause) ==> latches(
            s,
            p,
            dt,
            FaultReason::OutputUnexpectedlyOff(cause),
        ),
{
}

/// An output found on is resumed from after a hold, and latched at boot.
pub proof fn unasked_output_is_resumed_or_latched(s: Supervision, p: PollResult, dt: Duration)
    requires
        s.wf(),
        s.latch is Pending,
        agrees(s, p),
        p.output == Some(BuckOutput::On),
    ensures
        s.latch == (LatchState::Pending { reason: PendingReason::ProtectRecovery }) ==> {
            let (t, asked) = s.ticked(p, dt);
            &&& asked == Request::Nothing
            &&& t.latch == (LatchState::Active { pending_voltage: None })
            &&& t.inhibit is None
            &&& t.phase == s.phase && t.profile == s.profile
            &&& t.exit == s.exit && t.absorb == s.absorb && t.ov == s.ov
        },
        s.latch == (LatchState::Pending { reason: PendingReason::Boot }) ==> latches(
            s,
            p,
            dt,
            FaultReason::OutputOnInPending,
        ),
{
}

/// A link that has been down for five seconds fails, and not before; one good read
/// starts the count again.
pub proof fn dead_link_fails_after_five_seconds(s: Supervision, p: PollResult, dt: Duration)
    requires
        in_order(s, p),
    ensures
        p.setpoints is None && s.modbus_err.elapsed@ + dt@ >= 5 * SECOND ==> fails(
            s,
            p,
            dt,
            FaultReason::ModbusUnhealthy,
            InhibitReason::ModbusUnhealthy,
        ) && s.ticked(p, dt).0.ov == s.ov && s.ticked(p, dt).0.battery_missing == s.battery_missing,
        link_holds(s, p, dt) ==> s.ticked(p, dt).1 != (Request::Disable {
            reason: FaultReason::ModbusUnhealthy,
        }),
        p.setpoints is Some ==> s.ticked(p, dt).0.modbus_err.elapsed@ == 0,
        p.setpoints is None && s.modbus_err.elapsed@ + dt@ <= MAX_NANOS ==> s.ticked(
            p,
            dt,
        ).0.modbus_err.elapsed@ == s.modbus_err.elapsed@ + dt@,
{
}

/// A battery that has had no usable sample for ten seconds fails; until then the
/// supervisor does nothing and says why. One usable sample starts the count again.
pub proof fn missing_sample_fails_after_ten_seconds(s: Supervision, p: PollResult, dt: Duration)
    requires
        in_order(s, p),
        link_holds(s, p, dt),
    ensures
        lacks_sample(p) && s.battery_missing.elapsed@ + dt@ >= 10 * SECOND ==> fails(
            s,
            p,
            dt,
            FaultReason::BatterySensorStale,
            InhibitReason::BatterySensorStale,
        ),
        lacks_sample(p) && s.battery_missing.elapsed@ + dt@ < 10 * SECOND ==> {
            &&& holds_off(s, p, dt, InhibitReason::NoBatterySample)
            &&& s.ticked(p, dt).0.battery_missing.elapsed@ == s.battery_missing.elapsed@ + dt@
            &&& s.ticked(p, dt).0.ov == s.ov
        },
        !lacks_sample(p) ==> s.ticked(p, dt).0.battery_missing.elapsed@ == 0,
        !lacks_sample(p) ==> s.ticked(p, dt).1 != (Request::Disable {
            reason: FaultReason::BatterySensorStale,
        }),
{
}

/// A regulating supervisor latches once the pack has been above the line for three
/// seconds without a break, and not before; an idle one is held off by a single sample.
pub proof fn overvoltage_fails_after_three_seconds(
    s: Supervision,
    p: PollResult,
    dt: Duration,
    b: BatterySample,
)
    requires
        in_order(s, p),
        link_holds(s, p, dt),
        has_sample(p, b),
    ensures
        s.latch is Active && too_high(s, b.voltage) && s.ov.elapsed@ + dt@ >= 3 * SECOND
            ==> latches(s, p, dt, FaultReason::Overvoltage),
        s.latch is Pending && too_high(s, b.voltage) ==> holds_off(
            s,
            p,
            dt,
            InhibitReason::Overvoltage,
        ),
        !too_high(s, b.voltage) ==> s.ticked(p, dt).0.ov.elapsed@ == 0,
        too_high(s, b.voltage) && s.ov.elapsed@ + dt@ <= MAX_NANOS ==> s.ticked(
            p,
            dt,
        ).0.ov.elapsed@ == s.ov.elapsed@ + dt@,
        s.ticked(p, dt).1 == (Request::Disable { reason: FaultReason::Overvoltage }) ==> too_high(
            s,
            b.voltage,
        ) && s.ov.elapsed@ + dt@ >= 3 * SECOND,
{
}

/// Bring-up waits for the readback and for a protection to clear, and then asks for the
/// output. Absorb is resumed exactly where the resting pack is short of the plateau. The
/// supervisor stays pending until the enable is committed.
pub proof fn bring_up_asks_when_all_is_well(
    s: Supervision,
    p: PollResult,
    dt: Duration,
    b: BatterySample,
)
    requires
        in_order(s, p),
        link_holds(s, p, dt),
        has_sample(p, b),
        s.latch is Pending,
        !too_high(s, b.voltage),
    ensures
        p.setpoints is None ==> holds_off(s, p, dt, InhibitReason::ModbusUnhealthy),
        p.setpoints is Some && p.output is Some && clears_itself(p.output->0->cause) ==> holds_off(
            s,
            p,
            dt,
            InhibitReason::BuckProtection(p.output->0->cause),
        ),
        p.setpoints is Some && !(p.output is Some && clears_itself(p.output->0->cause)) ==> {
            let (t, asked) = s.ticked(p, dt);
            &&& asked == (Request::Enable { resume_absorb: !on_the_plateau(s, b.voltage) })
            &&& t.latch == s.latch
            &&& t.inhibit is None
            &&& t.phase == s.phase && t.profile == s.profile
            &&& t.transitions == s.transitions
        },
{
}

/// The poll passes every check of a regulating supervisor.
pub open spec fn passes(s: Supervision, p: PollResult, dt: Duration, b: BatterySample) -> bool {
    &&& in_order(s, p)
    &&& s.latch is Active
    &&& link_holds(s, p, dt)
    &&& has_sample(p, b)
    &&& too_high(s, b.voltage) ==> s.ov.elapsed@ + dt@ < 3 * SECOND
}

/// The time net of breaks that the taper will have held for, were it to hold or break
/// for `dt`.
pub open spec fn net(held: nat, holds: bool, dt: nat) -> int {
    if holds {
        (held + dt) as int
    } else if held < dt {
        0
    } else {
        held - dt
    }
}

/// In Float the step up to Absorb is asked for if and only if the pack draws more than
/// the threshold, at whatever voltage: live, to the absorb target.
pub proof fn step_up_is_on_the_current_alone(
    s: Supervision,
    p: PollResult,
    dt: Duration,
    b: BatterySample,
)
    requires
        passes(s, p, dt, b),
        s.latch == (LatchState::Active { pending_voltage: None }),
        s.phase == Phase::Float,
    ensures
        ({
            let (t, asked) = s.ticked(p, dt);
            if s.profile.enter_absorb_a.below(b.current.negated()) {
                &&& asked == (Request::Update {
                    phase: Phase::Absorb,
                    target_v: s.profile.absorb_v,
                    cycle_output: false,
                })
                &&& t.latch == (LatchState::Active { pending_voltage: Some(Phase::Absorb) })
                &&& t.phase == Phase::Float
            } else {
                &&& asked == Request::Nothing
                &&& t.latch == s.latch
                &&& t.phase == Phase::Float
            }
        }),
        s.ticked(p, dt).0.inhibit is None,
        s.ticked(p, dt).0.transitions == s.transitions,
        s.ticked(p, dt).0.exit.elapsed@ == net(s.exit.elapsed@, false, dt@),
        s.ticked(p, dt).0.absorb == s.absorb,
{
    order_is_total(s.profile.float_v, s.profile.absorb_v);
    order_is_total(s.profile.absorb_v, s.profile.float_v);
}

/// Two samples with the same current lead to the same phase decision in Float, whatever
/// their voltages.
pub proof fn voltage_plays_no_part_in_float(
    s: Supervision,
    p: PollResult,
    q: PollResult,
    dt: Duration,
    b: BatterySample,
    c: BatterySample,
)
    requires
        passes(s, p, dt, b),
        passes(s, q, dt, c),
        s.latch == (LatchState::Active { pending_voltage: None }),
        s.phase == Phase::Float,
        b.current == c.current,
    ensures
        s.ticked(p, dt).1 == s.ticked(q, dt).1,
        s.ticked(p, dt).0.latch == s.ticked(q, dt).0.latch,
{
    step_up_is_on_the_current_alone(s, p, dt, b);
    step_up_is_on_the_current_alone(s, q, dt, c);
}

/// In Absorb the step down to Float is asked for if and only if the pack has, net of
/// breaks, drawn less than the tail for a minute: with the output cycled, to the float
/// target. Else the plateau is clocked, and two hours on it without a break latch.
pub proof fn step_down_is_on_the_taper_alone(
    s: Supervision,
    p: PollResult,
    dt: Duration,
    b: BatterySample,
)
    requires
        passes(s, p, dt, b),
        s.latch == (LatchState::Active { pending_voltage: None }),
        s.phase == Phase::Absorb,
        dt@ <= MAX_NANOS - 60 * SECOND,
    ensures
        ({
            let (t, asked) = s.ticked(p, dt);
            let tapered = net(
                s.exit.elapsed@,
                b.current.negated().below(s.profile.exit_absorb_a),
                dt@,
            );
            if tapered >= 60 * SECOND {
                &&& asked == (Request::Update {
                    phase: Phase::Float,
                    target_v: s.profile.float_v,
                    cycle_output: true,
                })
                &&& t.latch == (LatchState::Active { pending_voltage: Some(Phase::Float) })
                &&& t.phase == Phase::Absorb
            } else if on_the_plateau(s, b.voltage) && s.absorb.elapsed@ + dt@ >= 7200 * SECOND {
                latches(s, p, dt, FaultReason::AbsorbTimeout)
            } else {
                &&& asked == Request::Nothing
                &&& t.latch == s.latch
                &&& t.phase == Phase::Absorb
                &&& t.exit.elapsed@ == tapered
                &&& t.absorb.elapsed@ == (if on_the_plateau(s, b.voltage) {
                    s.absorb.elapsed@ + dt@
                } else {
                    0
                })
            }
        }),
        s.ticked(p, dt).0.inhibit is None,
{
    order_is_total(s.profile.float_v, s.profile.absorb_v);
    order_is_total(s.profile.absorb_v, s.profile.float_v);
}

/// While a write is outstanding nothing but that write is asked for, on every poll that
/// passes.
pub proof fn outstanding_write_comes_first(
    s: Supervision,
    p: PollResult,
    dt: Duration,
    b: BatterySample,
    next: Phase,
)
    requires
        passes(s, p, dt, b),
        s.latch == (LatchState::Active { pending_voltage: Some(next) }),
    ensures
        ({
            let (t, asked) = s.ticked(p, dt);
            &&& asked == (Request::Update {
                phase: next,
                target_v: if next == Phase::Absorb {
                    s.profile.absorb_v
                } else {
                    s.profile.float_v
                },
                cycle_output: next == Phase::Float,
            })
            &&& t.latch == s.latch
            &&& t.phase == s.phase
            &&& t.exit == s.exit && t.absorb == s.absorb
        }),
{
    order_is_total(s.profile.float_v, s.profile.absorb_v);
    order_is_total(s.profile.absorb_v, s.profile.float_v);
}

/// The supervisor polled over and over.
pub open spec fn polled(s: Supervision, polls: Seq<(PollResult, Duration)>) -> Supervision
    decreases polls.len(),
{
    if polls.len() == 0 {
        s
    } else {
        polled(s, polls.drop_last()).ticked(polls.last().0, polls.last().1).0
    }
}

/// The time that some polls took together.
pub open spec fn time_of(polls: Seq<(PollResult, Duration)>) -> nat
    decreases polls.len(),
{
    if polls.len() == 0 {
        0
    } else {
        time_of(polls.drop_last()) + polls.last().1@
    }
}

/// A poll that a regulating supervisor of this profile has nothing to object to but an
/// overvoltage.
pub open spec fn shows_overvoltage(s: Supervision, p: PollResult) -> bool {
    &&& agrees(s, p)
    &&& p.setpoints is Some
    &&& p.output is Some ==> p.output->0 is On
    &&& p.battery is Some
    &&& has_sample(p, p.battery->0)
    &&& too_high(s, p.battery->0.voltage)
}

/// However the time is split into polls: a regulating supervisor that sees nothing but
/// overvoltage for three seconds has latched by then.
pub proof fn lasting_overvoltage_latches(s: Supervision, polls: Seq<(PollResult, Duration)>)
    requires
        s.wf(),
        s.latch is Active,
        forall|i: int| 0 <= i < polls.len() ==> shows_overvoltage(s, (#[trigger] polls[i]).0),
        time_of(polls) <= MAX_NANOS - s.ov.elapsed@,
    ensures
        polled(s, polls).wf(),
        polled(s, polls).profile == s.profile,
        polled(s, polls).phase == s.phase,
        !(polled(s, polls).latch is Pending),
        polled(s, polls).latch is Active ==> polled(s, polls).ov.elapsed@ == s.ov.elapsed@
            + time_of(polls),
        polls.len() > 0 && s.ov.elapsed@ + time_of(polls) >= 3 * SECOND ==> polled(
            s,
            polls,
        ).latch is Tripped,
    decreases polls.len(),
{
    if polls.len() > 0 {
        let before = polls.drop_last();
        assert forall|i: int| 0 <= i < before.len() implies shows_overvoltage(
            s,
            (#[trigger] before[i]).0,
        ) by {
            assert(before[i] == polls[i]);
        }
        lasting_overvoltage_latches(s, before);
        let t = polled(s, before);
        let (p, dt) = polls.last();
        assert(polls[polls.len() - 1] == (p, dt));
        crate::charging::supervision_laws::tick_keeps_invariant_and_setpoints(t, p, dt);
        if t.latch is Active {
            overvoltage_fails_after_three_seconds(t, p, dt, p.battery->0);
            if t.ov.elapsed@ + dt@ < 3 * SECOND {
                lemma_regulating_goes_on(t, p, dt);
            }
        }
    }
}

proof fn lemma_regulating_goes_on(s: Supervision, p: PollResult, dt: Duration)
    requires
        s.wf(),
        s.latch is Active,
        shows_overvoltage(s, p),
        s.ov.elapsed@ + dt@ < 3 * SECOND,
    ensures
        !(s.ticked(p, dt).0.latch is Pending),
{
}

/// Committing what was asked for moves the supervisor and nothing else: an enable starts
/// regulation, owing a step up where the pack was short of the plateau and the device does
/// not hold the absorb target; a written voltage moves the phase and starts its windows
/// over.
pub proof fn commits_move_what_they_name(s: Supervision, resume_absorb: bool, next: Phase)
    ensures
        ({
            let t = s.enabled(resume_absorb);
            &&& t.latch == (LatchState::Active {
                pending_voltage: if resume_absorb && s.phase == Phase::Float {
                    Some(Phase::Absorb)
                } else {
                    None
                },
            })
            &&& t.phase == s.phase && t.profile == s.profile && t.inhibit == s.inhibit
            &&& t.ov == s.ov && t.exit == s.exit && t.absorb == s.absorb
            &&& t.modbus_err == s.modbus_err && t.battery_missing == s.battery_missing
        }),
        ({
            let t = s.retargeted(next);
            &&& t.latch == (LatchState::Active { pending_voltage: None })
            &&& t.phase == next && t.profile == s.profile && t.inhibit == s.inhibit
            &&& t.exit.elapsed@ == 0 && t.absorb.elapsed@ == 0
            &&& t.ov == s.ov && t.modbus_err == s.modbus_err && t.battery_missing
                == s.battery_missing
            &&& t.transitions == s.transitions
        }),
{
}

/// A supervisor boots with the output off, in Float, with nothing counted.
pub proof fn supervisor_boots_idle(profile: crate::charging::profile::Profile)
    ensures
        ({
            let s = Supervision::boot(profile);
            &&& s.profile == profile
            &&& s.phase == Phase::Float
            &&& s.latch == (LatchState::Pending { reason: PendingReason::Boot })
            &&& s.inhibit is None
            &&& s.ov.elapsed@ == 0 && s.absorb.elapsed@ == 0 && s.exit.elapsed@ == 0
            &&& s.battery_missing.elapsed@ == 0 && s.modbus_err.elapsed@ == 0
            &&& s.transitions.len() == 0
        }),
{
}

/// The setpoints that the buck has to report: the target of the phase, and the charge
/// current.
pub proof fn setpoints_are_those_of_the_phase(s: Supervision)
    ensures
        s.expected().v_set == (if s.phase == Phase::Absorb {
            s.profile.absorb_v
        } else {
            s.profile.float_v
        }),
        s.expected().i_set == s.profile.regulation_a,
{
}

} // verus!
