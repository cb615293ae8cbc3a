//! What the supervisor on the flat state machine decides on a poll, in terms of the
//! poll, the profile and how long a condition has held. Each law speaks of a poll on
//! which nothing else is wrong that ranks before it.

use crate::battery::pack_soc;
use crate::charging::action::Request;
use crate::charging::charge_state::{ChargeEvent, ChargeState};
use crate::charging::decision_laws::{clears_itself, close_to, net, SECOND};
use crate::charging::fault_reason::FaultReason;
use crate::charging::inhibit_reason::InhibitReason;
use crate::charging::pack_temp::PackTemp;
use crate::charging::phase::Phase;
use crate::charging::poll_result::{BatterySample, BuckOutput};
use crate::charging::profile::FULL_SOC_MARGIN;
use crate::charging::state_supervisor::{StatePoll, StateView};
use crate::charging::{
    ABSORB_CV_BAND_V, CHARGE_TEMP_MAX_C, CHARGE_TEMP_MIN_C, OVERCURRENT_TOL, OV_MARGIN_V,
};
use crate::device::ProtectionStatus;
use crate::error_log::ChargeTransition;
use crate::float::{number, order_is_total, order_is_transitive, F32};
use crate::time::{Duration, MAX_NANOS};
use vstd::prelude::*;

verus! {

/// The output is meant to be on.
pub open spec fn feeds(s: ChargeState) -> bool {
    s == ChargeState::Float || s == ChargeState::Absorb || s == ChargeState::ToAbsorb || s
        == ChargeState::ToFloat || s == ChargeState::ToParked || s == ChargeState::Parked
}

/// The output is off, and may be brought up.
pub open spec fn idles(s: ChargeState) -> bool {
    s == ChargeState::Boot || waits(s)
}

/// The output went off by itself and is waited for.
pub open spec fn waits(s: ChargeState) -> bool {
    s == ChargeState::HoldFloat || s == ChargeState::HoldAbsorb || s == ChargeState::HoldParked
}

/// The charge was stopped and the load is still fed.
pub open spec fn stopped_charging(s: ChargeState) -> bool {
    s == ChargeState::ToParked || s == ChargeState::Parked
}

/// The device holds the absorb target.
pub open spec fn at_absorb(s: ChargeState) -> bool {
    s == ChargeState::HoldAbsorb || s == ChargeState::Absorb || s == ChargeState::ToFloat || s
        == ChargeState::ToParked
}

/// The setpoints read back, where they were, are those commanded.
pub open spec fn agrees(s: StateView, p: StatePoll) -> bool {
    p.setpoints is Some ==> {
        &&& close_to(
            p.setpoints->0.v_set,
            if at_absorb(s.state) {
                s.profile.absorb_v
            } else {
                s.profile.float_v
            },
        )
        &&& close_to(p.setpoints->0.i_set, s.i_set_a)
    }
}

/// The output is as the supervisor left it, or was not read.
pub open spec fn output_as_left(s: StateView, p: StatePoll) -> bool {
    match p.output {
        None => true,
        Some(BuckOutput::On) => feeds(s.state),
        Some(BuckOutput::Off { cause }) => idles(s.state),
    }
}

/// The sample of the poll, both of its values being numbers.
pub open spec fn has_sample(p: StatePoll, b: BatterySample) -> bool {
    p.battery == Some(b) && b.voltage.finite() && b.current.finite()
}

/// The poll has no sample to go by.
pub open spec fn lacks_sample(p: StatePoll) -> bool {
    p.battery is None || !p.battery->0.voltage.finite() || !p.battery->0.current.finite()
}

/// The pack is above the absorb target by more than the margin.
pub open spec fn too_high(s: StateView, v: F32) -> bool {
    s.profile.absorb_v.sum(number(OV_MARGIN_V)).below(v)
}

/// The pack is at the absorb target, or short of it by the width of the band at most.
pub open spec fn on_the_plateau(s: StateView, v: F32) -> bool {
    s.profile.absorb_v.difference(number(ABSORB_CV_BAND_V)).at_most(v)
}

/// The pack takes more than its charge current by more than the tolerance.
pub open spec fn takes_too_much(s: StateView, current: F32) -> bool {
    s.profile.regulation_a.product(number(OVERCURRENT_TOL)).below(current.negated())
}

/// A run of holds too long to be waited out is not going on.
pub open spec fn not_flapping(s: StateView, dt: Duration) -> bool {
    s.holds.holds <= 4 || s.holds.since_last@ + dt@ > 300 * SECOND
}

/// Nothing has latched and no run of holds is too long.
pub open spec fn attentive(s: StateView, dt: Duration) -> bool {
    &&& s.wf()
    &&& feeds(s.state) || idles(s.state)
    &&& not_flapping(s, dt)
}

/// Nothing ranks before the link.
pub open spec fn in_order(s: StateView, p: StatePoll, dt: Duration) -> bool {
    &&& attentive(s, dt)
    &&& output_as_left(s, p)
    &&& agrees(s, p)
}

/// The link is up, or has not been down for five seconds yet.
pub open spec fn link_holds(s: StateView, p: StatePoll, dt: Duration) -> bool {
    p.setpoints is None ==> s.modbus_err.elapsed@ + dt@ < 5 * SECOND
}

/// What no tick touches.
pub open spec fn same_pack(s: StateView, t: StateView) -> bool {
    t.profile == s.profile && t.i_set_a == s.i_set_a && t.pack_temp == s.pack_temp
}

/// The windows that a usable sample moves are as they were.
pub open spec fn same_windows(s: StateView, t: StateView) -> bool {
    t.ov == s.ov && t.overcurrent == s.overcurrent && t.temp_missing == s.temp_missing
}

/// The supervisor latched `reason` and asks for the output off.
pub open spec fn latches(s: StateView, p: StatePoll, dt: Duration, reason: FaultReason) -> bool {
    let (t, asked) = s.ticked(p, dt);
    &&& asked == (Request::Disable { reason })
    &&& t.state == ChargeState::Tripping
    &&& t.fault == Some(reason)
    &&& t.inhibit is None
    &&& same_pack(s, t)
}

/// The supervisor asks for nothing, stays what it was, and says why it holds off.
pub open spec fn holds_off(s: StateView, p: StatePoll, dt: Duration, why: InhibitReason) -> bool {
    let (t, asked) = s.ticked(p, dt);
    &&& asked == Request::Nothing
    &&& t.state == s.state
    &&& t.fault == s.fault
    &&& t.inhibit == Some(why)
    &&& same_pack(s, t)
    &&& t.transitions == s.transitions
    &&& t.exit == s.exit && t.absorb == s.absorb
    &&& t.charge == s.charge && t.overcurrent == s.overcurrent
}

/// A failed check takes a sourcing buck down, and only holds an idle one off.
pub open spec fn fails(
    s: StateView,
    p: StatePoll,
    dt: Duration,
    reason: FaultReason,
    why: InhibitReason,
) -> bool {
    if feeds(s.state) {
        latches(s, p, dt, reason)
    } else {
        holds_off(s, p, dt, why)
    }
}

/// The charge stops for `reason`. From the float target the load stays fed with nothing
/// to write, from the absorb target the step down is asked for with the output cycled.
/// A charge that was stopped already is disabled.
pub open spec fn stops(s: StateView, p: StatePoll, dt: Duration, reason: FaultReason) -> bool {
    let (t, asked) = s.ticked(p, dt);
    &&& t.fault == Some(reason)
    &&& t.inhibit is None
    &&& same_pack(s, t)
    &&& if stopped_charging(s.state) {
        t.state == ChargeState::Tripping && asked == (Request::Disable { reason })
    } else if at_absorb(s.state) {
        &&& t.state == ChargeState::ToParked
        &&& asked == (Request::Update {
            phase: Phase::Float,
            target_v: s.profile.float_v,
            cycle_output: true,
        })
    } else {
        t.state == ChargeState::Parked && asked == Request::Nothing
    }
}

/// Both orders of the two targets.
proof fn lemma_targets(s: StateView)
    requires
        s.wf(),
    ensures
        s.profile.float_v.below(s.profile.absorb_v),
        !s.profile.absorb_v.below(s.profile.float_v),
{
    order_is_total(s.profile.float_v, s.profile.absorb_v);
    order_is_total(s.profile.absorb_v, s.profile.float_v);
}

/// A buck that keeps dropping out is latched before anything else is looked at: on the
/// fifth hold with no quiet stretch of more than five minutes between them.
pub proof fn flapping_latches_first(s: StateView, p: StatePoll, dt: Duration)
    requires
        s.wf(),
        feeds(s.state) || idles(s.state),
    ensures
        !not_flapping(s, dt) ==> latches(s, p, dt, FaultReason::ProtectionFlapping),
        not_flapping(s, dt) ==> s.ticked(p, dt).1 != (Request::Disable {
            reason: FaultReason::ProtectionFlapping,
        }),
{
}

/// The supervisor waits for an output that went off on a cause that clears by itself:
/// it counts the hold, empties the windows and keeps the target that the device holds.
/// On any other cause it latches, and so it does on the way down into a park.
pub proof fn lost_output_is_waited_for_or_latched(
    s: StateView,
    p: StatePoll,
    dt: Duration,
    cause: ProtectionStatus,
)
    requires
        attentive(s, dt),
        feeds(s.state),
        p.output == Some(BuckOutput::Off { cause }),
    ensures
        clears_itself(cause) && s.state != ChargeState::ToParked ==> {
            let (t, asked) = s.ticked(p, dt);
            &&& asked == Request::Nothing
            &&& t.state == (if s.state == ChargeState::Parked {
                ChargeState::HoldParked
            } else if at_absorb(s.state) {
                ChargeState::HoldAbsorb
            } else {
                ChargeState::HoldFloat
            })
            &&& t.inhibit == Some(InhibitReason::BuckProtection(cause))
            &&& t.fault == s.fault
            &&& same_pack(s, t)
            &&& t.exit.elapsed@ == 0 && t.absorb.elapsed@ == 0 && t.charge.elapsed@ == 0
            &&& t.ov.elapsed@ == 0 && t.overcurrent.elapsed@ == 0
            &&& t.holds.since_last@ == 0
            &&& t.holds.holds == (if s.holds.since_last@ + dt@ > 300 * SECOND {
                1int
            } else {
                s.holds.holds + 1
            })
        },
        !(clears_itself(cause) && s.state != ChargeState::ToParked) ==> latches(
            s,
            p,
            dt,
            FaultReason::OutputUnexpectedlyOff(cause),
        ),
{
}

/// An output found on is resumed from where the hold began, and latched at boot.
pub proof fn unasked_output_is_resumed_or_latched(s: StateView, p: StatePoll, dt: Duration)
    requires
        attentive(s, dt),
        idles(s.state),
        p.output == Some(BuckOutput::On),
    ensures
        s.state == ChargeState::Boot ==> latches(s, p, dt, FaultReason::OutputOnInPending),
        s.state != ChargeState::Boot ==> {
            let (t, asked) = s.ticked(p, dt);
            &&& asked == Request::Nothing
            &&& t.state == (if s.state == ChargeState::HoldParked {
                ChargeState::Parked
            } else if s.state == ChargeState::HoldAbsorb {
                ChargeState::Absorb
            } else {
                ChargeState::Float
            })
            &&& t.inhibit is None
            &&& t.fault == s.fault
            &&& same_pack(s, t)
        },
{
}

/// A readback that is off by the tolerance or more in either setpoint fails at once.
pub proof fn drifted_readback_fails_at_once(s: StateView, p: StatePoll, dt: Duration)
    requires
        attentive(s, dt),
        output_as_left(s, p),
        !agrees(s, p),
    ensures
        fails(s, p, dt, FaultReason::SettingsDrift, InhibitReason::SettingsDrift),
        same_windows(s, s.ticked(p, dt).0),
        s.ticked(p, dt).0.battery_missing == s.battery_missing,
        s.ticked(p, dt).0.modbus_err == s.modbus_err,
{
}

/// A link that has been down for five seconds fails, and not before; one good read
/// starts the count again.
pub proof fn dead_link_fails_after_five_seconds(s: StateView, p: StatePoll, dt: Duration)
    requires
        in_order(s, p, dt),
    ensures
        p.setpoints is None && s.modbus_err.elapsed@ + dt@ >= 5 * SECOND ==> fails(
            s,
            p,
            dt,
            FaultReason::ModbusUnhealthy,
            InhibitReason::ModbusUnhealthy,
        ) && same_windows(s, s.ticked(p, dt).0) && s.ticked(p, dt).0.battery_missing
            == s.battery_missing,
        link_holds(s, p, dt) ==> s.ticked(p, dt).1 != (Request::Disable {
            reason: FaultReason::ModbusUnhealthy,
        }),
        p.setpoints is Some ==> s.ticked(p, dt).0.modbus_err.elapsed@ == 0,
        p.setpoints is None && s.modbus_err.elapsed@ + dt@ <= MAX_NANOS ==> s.ticked(
            p,
            dt,
        ).0.modbus_err.elapsed@ == s.modbus_err.elapsed@ + dt@,
{
}

/// A battery that has had no usable sample for ten seconds fails; until then the
/// supervisor does nothing and says why. One usable sample starts the count again.
pub proof fn missing_sample_fails_after_ten_seconds(s: StateView, p: StatePoll, dt: Duration)
    requires
        in_order(s, p, dt),
        link_holds(s, p, dt),
    ensures
        lacks_sample(p) && s.battery_missing.elapsed@ + dt@ >= 10 * SECOND ==> fails(
            s,
            p,
            dt,
            FaultReason::BatterySensorStale,
            InhibitReason::BatterySensorStale,
        ),
        lacks_sample(p) && s.battery_missing.elapsed@ + dt@ < 10 * SECOND ==> {
            &&& holds_off(s, p, dt, InhibitReason::NoBatterySample)
            &&& s.ticked(p, dt).0.battery_missing.elapsed@ == s.battery_missing.elapsed@ + dt@
            &&& s.ticked(p, dt).0.ov == s.ov
            &&& s.ticked(p, dt).0.overcurrent == s.overcurrent
        },
        !lacks_sample(p) ==> s.ticked(p, dt).0.battery_missing.elapsed@ == 0,
        !lacks_sample(p) ==> s.ticked(p, dt).1 != (Request::Disable {
            reason: FaultReason::BatterySensorStale,
        }),
{
}

/// A sourcing supervisor latches once the pack has been above the line for three seconds
/// without a break, and not before; an idle one is held off by a single sample.
pub proof fn overvoltage_fails_after_three_seconds(
    s: StateView,
    p: StatePoll,
    dt: Duration,
    b: BatterySample,
)
    requires
        in_order(s, p, dt),
        link_holds(s, p, dt),
        has_sample(p, b),
    ensures
        feeds(s.state) && too_high(s, b.voltage) && s.ov.elapsed@ + dt@ >= 3 * SECOND ==> latches(
            s,
            p,
            dt,
            FaultReason::Overvoltage,
        ),
        idles(s.state) && too_high(s, b.voltage) ==> holds_off(
            s,
            p,
            dt,
            InhibitReason::Overvoltage,
        ),
        !too_high(s, b.voltage) ==> s.ticked(p, dt).0.ov.elapsed@ == 0,
        too_high(s, b.voltage) && s.ov.elapsed@ + dt@ <= MAX_NANOS ==> s.ticked(
            p,
            dt,
        ).0.ov.elapsed@ == s.ov.elapsed@ + dt@,
        s.ticked(p, dt).1 == (Request::Disable { reason: FaultReason::Overvoltage }) ==> too_high(
            s,
            b.voltage,
        ) && s.ov.elapsed@ + dt@ >= 3 * SECOND,
{
}

/// Nothing ranks before the temperature.
pub open spec fn volts_in_order(s: StateView, p: StatePoll, dt: Duration, b: BatterySample) -> bool {
    &&& in_order(s, p, dt)
    &&& link_holds(s, p, dt)
    &&& has_sample(p, b)
    &&& too_high(s, b.voltage) ==> feeds(s.state) && s.ov.elapsed@ + dt@ < 3 * SECOND
}

/// The temperature is a number.
pub open spec fn has_temperature(p: StatePoll) -> bool {
    p.pack_temp_c is Some && p.pack_temp_c->0.finite()
}

/// A pack below freezing or above 45 degrees is not charged. A fitted sensor that has
/// been silent for ten seconds fails; before that it holds an idle buck off and leaves a
/// sourcing one alone. A board without one does not look.
pub proof fn pack_is_charged_at_its_temperature(
    s: StateView,
    p: StatePoll,
    dt: Duration,
    b: BatterySample,
)
    requires
        volts_in_order(s, p, dt, b),
    ensures
        s.pack_temp == PackTemp::Fitted && has_temperature(p) && p.pack_temp_c->0.below(
            number(CHARGE_TEMP_MIN_C),
        ) ==> fails(s, p, dt, FaultReason::PackTooCold, InhibitReason::PackTooCold),
        s.pack_temp == PackTemp::Fitted && has_temperature(p) && number(CHARGE_TEMP_MAX_C).below(
            p.pack_temp_c->0,
        ) ==> fails(s, p, dt, FaultReason::PackTooHot, InhibitReason::PackTooHot),
        s.pack_temp == PackTemp::Fitted && !has_temperature(p) && s.temp_missing.elapsed@ + dt@
            >= 10 * SECOND ==> fails(
            s,
            p,
            dt,
            FaultReason::PackTempStale,
            InhibitReason::PackTempStale,
        ),
        s.pack_temp == PackTemp::Fitted && !has_temperature(p) && s.temp_missing.elapsed@ + dt@
            < 10 * SECOND ==> {
            &&& idles(s.state) ==> holds_off(s, p, dt, InhibitReason::PackTempStale)
            &&& s.ticked(p, dt).0.temp_missing.elapsed@ == s.temp_missing.elapsed@ + dt@
        },
        s.pack_temp == PackTemp::Fitted && has_temperature(p) ==> s.ticked(
            p,
            dt,
        ).0.temp_missing.elapsed@ == 0,
{
    order_is_total(number(CHARGE_TEMP_MAX_C), number(CHARGE_TEMP_MIN_C));
    if has_temperature(p) {
        let t = p.pack_temp_c->0;
        order_is_transitive(number(CHARGE_TEMP_MAX_C), t, number(CHARGE_TEMP_MIN_C));
        reveal(F32::below);
    }
}

/// The temperature stands in nothing's way.
pub open spec fn warm_enough(s: StateView, p: StatePoll, dt: Duration) -> bool {
    s.pack_temp == PackTemp::Fitted ==> if has_temperature(p) {
        &&& !p.pack_temp_c->0.below(number(CHARGE_TEMP_MIN_C))
        &&& !number(CHARGE_TEMP_MAX_C).below(p.pack_temp_c->0)
    } else {
        feeds(s.state) && s.temp_missing.elapsed@ + dt@ < 10 * SECOND
    }
}

/// A sourcing supervisor stops the charge once the pack has taken more than its own rate
/// allows for five seconds without a break, at whatever voltage, and not before. One
/// sample within the rate empties the window.
pub proof fn overcurrent_stops_the_charge(
    s: StateView,
    p: StatePoll,
    dt: Duration,
    b: BatterySample,
)
    requires
        volts_in_order(s, p, dt, b),
        warm_enough(s, p, dt),
        feeds(s.state),
    ensures
        takes_too_much(s, b.current) && s.overcurrent.elapsed@ + dt@ >= 5 * SECOND ==> stops(
            s,
            p,
            dt,
            FaultReason::ChargeOvercurrent,
        ),
        s.fault is None && s.ticked(p, dt).0.fault == Some(FaultReason::ChargeOvercurrent)
            ==> takes_too_much(s, b.current) && s.overcurrent.elapsed@ + dt@ >= 5 * SECOND,
        takes_too_much(s, b.current) && s.overcurrent.elapsed@ + dt@ < 5 * SECOND ==> s.ticked(
            p,
            dt,
        ).0.overcurrent.elapsed@ == s.overcurrent.elapsed@ + dt@ || (s.fault is None && s.ticked(
            p,
            dt,
        ).0.fault is Some),
        !takes_too_much(s, b.current) ==> s.ticked(p, dt).0.overcurrent.elapsed@ == 0,
{
    lemma_targets(s);
}

/// The poll passes every check of a sourcing supervisor.
pub open spec fn passes(s: StateView, p: StatePoll, dt: Duration, b: BatterySample) -> bool {
    &&& volts_in_order(s, p, dt, b)
    &&& warm_enough(s, p, dt)
    &&& feeds(s.state)
    &&& takes_too_much(s, b.current) ==> s.overcurrent.elapsed@ + dt@ < 5 * SECOND
}

/// In Float the step up to Absorb is asked for if and only if the pack draws more than
/// the threshold, at whatever voltage.
pub proof fn step_up_is_on_the_current_alone(
    s: StateView,
    p: StatePoll,
    dt: Duration,
    b: BatterySample,
)
    requires
        passes(s, p, dt, b),
        s.state == ChargeState::Float,
    ensures
        ({
            let (t, asked) = s.ticked(p, dt);
            &&& if s.profile.enter_absorb_a.below(b.current.negated()) {
                &&& asked == (Request::Update {
                    phase: Phase::Absorb,
                    target_v: s.profile.absorb_v,
                    cycle_output: false,
                })
                &&& t.state == ChargeState::ToAbsorb
            } else {
                asked == Request::Nothing && t.state == ChargeState::Float
            }
            &&& t.fault is None && t.inhibit is None
            &&& same_pack(s, t)
        }),
{
    lemma_targets(s);
}

/// In Absorb the step down is asked for if and only if the pack has, net of breaks, drawn
/// less than the tail for a minute. Else two hours on the plateau, net of breaks, stop
/// the charge, and so do eight hours in Absorb altogether.
pub proof fn absorb_ends_by_taper_or_by_time(
    s: StateView,
    p: StatePoll,
    dt: Duration,
    b: BatterySample,
)
    requires
        passes(s, p, dt, b),
        s.state == ChargeState::Absorb,
        dt@ <= MAX_NANOS - 7200 * SECOND,
        s.charge.elapsed@ + dt@ <= MAX_NANOS,
    ensures
        ({
            let (t, asked) = s.ticked(p, dt);
            let tapered = net(
                s.exit.elapsed@,
                b.current.negated().below(s.profile.exit_absorb_a),
                dt@,
            );
            let level = net(s.absorb.elapsed@, on_the_plateau(s, b.voltage), dt@);
            if tapered >= 60 * SECOND {
                &&& asked == (Request::Update {
                    phase: Phase::Float,
                    target_v: s.profile.float_v,
                    cycle_output: true,
                })
                &&& t.state == ChargeState::ToFloat
                &&& t.fault is None
            } else if level >= 7200 * SECOND {
                stops(s, p, dt, FaultReason::AbsorbTimeout)
            } else if s.charge.elapsed@ + dt@ >= 28800 * SECOND {
                stops(s, p, dt, FaultReason::ChargeTimeout)
            } else {
                &&& asked == Request::Nothing
                &&& t.state == ChargeState::Absorb
                &&& t.fault is None
                &&& t.exit.elapsed@ == tapered
                &&& t.absorb.elapsed@ == level
                &&& t.charge.elapsed@ == s.charge.elapsed@ + dt@
            }
        }),
        s.ticked(p, dt).0.inhibit is None,
        same_pack(s, s.ticked(p, dt).0),
{
    lemma_targets(s);
}

/// While a write is outstanding nothing but that write is asked for; a parked
/// supervisor asks for nothing.
pub proof fn outstanding_write_comes_first(
    s: StateView,
    p: StatePoll,
    dt: Duration,
    b: BatterySample,
)
    requires
        passes(s, p, dt, b),
        s.state != ChargeState::Float,
        s.state != ChargeState::Absorb,
    ensures
        ({
            let (t, asked) = s.ticked(p, dt);
            &&& asked == (if s.state == ChargeState::Parked {
                Request::Nothing
            } else if s.state == ChargeState::ToAbsorb {
                Request::Update {
                    phase: Phase::Absorb,
                    target_v: s.profile.absorb_v,
                    cycle_output: false,
                }
            } else {
                Request::Update {
                    phase: Phase::Float,
                    target_v: s.profile.float_v,
                    cycle_output: true,
                }
            })
            &&& t.state == s.state
            &&& t.fault == s.fault
            &&& t.inhibit is None
            &&& same_pack(s, t)
        }),
{
    lemma_targets(s);
}

/// A pack counts as full at rest: with less than the tail flowing either way, and a state
/// of charge at most five points short of that of the float target.
pub open spec fn is_full(s: StateView, b: BatterySample) -> bool {
    &&& b.current.absolute().below(s.profile.exit_absorb_a)
    &&& pack_soc(s.profile.chemistry, s.profile.cells, s.profile.float_v).difference(
        number(FULL_SOC_MARGIN),
    ).at_most(pack_soc(s.profile.chemistry, s.profile.cells, b.voltage))
}

/// Bring-up waits for the readback and for a protection to clear, and then asks for the
/// output. A charge is resumed exactly where the pack is not full. The state stays until
/// the enable is committed.
pub proof fn bring_up_asks_when_all_is_well(
    s: StateView,
    p: StatePoll,
    dt: Duration,
    b: BatterySample,
)
    requires
        volts_in_order(s, p, dt, b),
        warm_enough(s, p, dt),
        idles(s.state),
    ensures
        p.setpoints is None ==> holds_off(s, p, dt, InhibitReason::ModbusUnhealthy),
        p.setpoints is Some && p.output is Some && clears_itself(p.output->0->cause) ==> holds_off(
            s,
            p,
            dt,
            InhibitReason::BuckProtection(p.output->0->cause),
        ),
        p.setpoints is Some && !(p.output is Some && clears_itself(p.output->0->cause)) ==> {
            let (t, asked) = s.ticked(p, dt);
            &&& asked == (Request::Enable { resume_absorb: !is_full(s, b) })
            &&& t.state == s.state
            &&& t.fault == s.fault
            &&& t.inhibit is None
            &&& same_pack(s, t)
            &&& t.transitions == s.transitions
        },
{
}

/// The supervisor polled over and over.
pub open spec fn polled(s: StateView, polls: Seq<(StatePoll, Duration)>) -> StateView
    decreases polls.len(),
{
    if polls.len() == 0 {
        s
    } else {
        polled(s, polls.drop_last()).ticked(polls.last().0, polls.last().1).0
    }
}

/// The time that some polls took together.
pub open spec fn time_of(polls: Seq<(StatePoll, Duration)>) -> nat
    decreases polls.len(),
{
    if polls.len() == 0 {
        0
    } else {
        time_of(polls.drop_last()) + polls.last().1@
    }
}

/// A poll on which a pack at the target held takes too much, and nothing else is wrong.
pub open spec fn shows_overcurrent(s: StateView, p: StatePoll) -> bool {
    &&& agrees(s, p)
    &&& p.setpoints is Some
    &&& p.output is Some ==> p.output->0 is On
    &&& p.battery is Some
    &&& has_sample(p, p.battery->0)
    &&& !too_high(s, p.battery->0.voltage)
    &&& s.pack_temp == PackTemp::Fitted ==> has_temperature(p) && !p.pack_temp_c->0.below(
        number(CHARGE_TEMP_MIN_C),
    ) && !number(CHARGE_TEMP_MAX_C).below(p.pack_temp_c->0)
    &&& takes_too_much(s, p.battery->0.current)
}

/// However the time is split into polls, and whatever the pack's voltage: a charging
/// supervisor whose pack takes too much for five seconds has stopped the charge by then,
/// with an overcurrent unless another fault was first.
pub proof fn lasting_overcurrent_stops_the_charge(
    s: StateView,
    polls: Seq<(StatePoll, Duration)>,
)
    requires
        s.wf(),
        feeds(s.state) && !stopped_charging(s.state),
        s.holds.holds <= 4,
        !s.profile.regulation_a.product(number(OVERCURRENT_TOL)).below(s.profile.exit_absorb_a),
        forall|i: int| 0 <= i < polls.len() ==> shows_overcurrent(s, (#[trigger] polls[i]).0),
        time_of(polls) <= MAX_NANOS - s.overcurrent.elapsed@,
        polls.len() > 0,
        s.overcurrent.elapsed@ + time_of(polls) >= 5 * SECOND,
        s.overcurrent.elapsed@ + time_of(polls.drop_last()) < 5 * SECOND,
    ensures
        polled(s, polls).fault is Some,
        polled(s, polls.drop_last()).fault is None ==> polled(s, polls).fault == Some(
            FaultReason::ChargeOvercurrent,
        ),
{
    let before = polls.drop_last();
    lemma_overcurrent_counts(s, before);
    let t = polled(s, before);
    let (p, dt) = polls.last();
    assert(polls[polls.len() - 1] == (p, dt));
    if t.fault is None {
        overcurrent_stops_the_charge(t, p, dt, p.battery->0);
    } else {
        lemma_fault_stays(t, p, dt);
    }
}

proof fn lemma_fault_stays(s: StateView, p: StatePoll, dt: Duration)
    requires
        s.wf(),
        s.fault is Some,
    ensures
        s.ticked(p, dt).0.fault is Some,
        s.ticked(p, dt).0.wf(),
{
}

/// While the charge goes on, it keeps its target and its overcurrent window fills.
proof fn lemma_overcurrent_counts(s: StateView, polls: Seq<(StatePoll, Duration)>)
    requires
        s.wf(),
        feeds(s.state) && !stopped_charging(s.state),
        s.holds.holds <= 4,
        !s.profile.regulation_a.product(number(OVERCURRENT_TOL)).below(s.profile.exit_absorb_a),
        forall|i: int| 0 <= i < polls.len() ==> shows_overcurrent(s, (#[trigger] polls[i]).0),
        s.overcurrent.elapsed@ + time_of(polls) < 5 * SECOND,
    ensures
        ({
            let t = polled(s, polls);
            &&& t.wf()
            &&& t.fault is None ==> {
                &&& same_pack(s, t)
                &&& feeds(t.state) && !stopped_charging(t.state)
                &&& at_absorb(t.state) == at_absorb(s.state)
                &&& t.holds.holds <= 4
                &&& t.overcurrent.elapsed@ == s.overcurrent.elapsed@ + time_of(polls)
            }
        }),
    decreases polls.len(),
{
    if polls.len() > 0 {
        let before = polls.drop_last();
        assert forall|i: int| 0 <= i < before.len() implies shows_overcurrent(
            s,
            (#[trigger] before[i]).0,
        ) by {
            assert(before[i] == polls[i]);
        }
        lemma_overcurrent_counts(s, before);
        let t = polled(s, before);
        let (p, dt) = polls.last();
        assert(polls[polls.len() - 1] == (p, dt));
        if t.fault is None {
            lemma_still_taking_too_much(t, p, dt);
        } else {
            lemma_fault_stays(t, p, dt);
        }
    }
}

proof fn lemma_still_taking_too_much(s: StateView, p: StatePoll, dt: Duration)
    requires
        s.wf(),
        feeds(s.state) && !stopped_charging(s.state),
        s.holds.holds <= 4,
        !s.profile.regulation_a.product(number(OVERCURRENT_TOL)).below(s.profile.exit_absorb_a),
        shows_overcurrent(s, p),
        s.overcurrent.elapsed@ + dt@ < 5 * SECOND,
    ensures
        ({
            let t = s.ticked(p, dt).0;
            &&& t.wf()
            &&& t.fault is None ==> {
                &&& same_pack(s, t)
                &&& feeds(t.state) && !stopped_charging(t.state)
                &&& at_absorb(t.state) == at_absorb(s.state)
                &&& t.holds.holds <= 4
                &&& t.overcurrent.elapsed@ == s.overcurrent.elapsed@ + dt@
            }
        }),
{
    let line = s.profile.regulation_a.product(number(OVERCURRENT_TOL));
    let drawn = p.battery->0.current.negated();
    order_is_total(line, s.profile.exit_absorb_a);
    order_is_transitive(s.profile.exit_absorb_a, line, drawn);
    order_is_total(drawn, s.profile.exit_absorb_a);
    order_is_total(s.profile.exit_absorb_a, drawn);
    reveal(F32::below);
}

/// Which events can arise where: a fault wherever nothing has latched, a park while
/// charging, a hold while the output is on but on the way into a park, an enable while it
/// is off, the taper in the phase it ends, a landed write where one is outstanding.
pub proof fn events_arise_where_they_can(s: ChargeState)
    ensures
        s.after(ChargeEvent::Fault) == (if feeds(s) || idles(s) {
            Some(ChargeState::Tripping)
        } else {
            None
        }),
        s.after(ChargeEvent::Park) == (if !feeds(s) || stopped_charging(s) {
            None
        } else if at_absorb(s) {
            Some(ChargeState::ToParked)
        } else {
            Some(ChargeState::Parked)
        }),
        s.after(ChargeEvent::SelfDisabled) == (if !feeds(s) || s == ChargeState::ToParked {
            None
        } else if s == ChargeState::Parked {
            Some(ChargeState::HoldParked)
        } else if at_absorb(s) {
            Some(ChargeState::HoldAbsorb)
        } else {
            Some(ChargeState::HoldFloat)
        }),
        s.after(ChargeEvent::SelfEnabled) == (if s == ChargeState::Latched {
            Some(ChargeState::Tripping)
        } else if !waits(s) {
            None
        } else if s == ChargeState::HoldParked {
            Some(ChargeState::Parked)
        } else if at_absorb(s) {
            Some(ChargeState::Absorb)
        } else {
            Some(ChargeState::Float)
        }),
        s.after(ChargeEvent::Enabled) == (if !idles(s) {
            None
        } else if s == ChargeState::HoldParked {
            Some(ChargeState::Parked)
        } else if at_absorb(s) {
            Some(ChargeState::Absorb)
        } else {
            Some(ChargeState::Float)
        }),
        s.after(ChargeEvent::EnabledBelowFull) == (if !idles(s) {
            None
        } else if s == ChargeState::HoldParked {
            Some(ChargeState::Parked)
        } else if at_absorb(s) {
            Some(ChargeState::Absorb)
        } else {
            Some(ChargeState::ToAbsorb)
        }),
        s.after(ChargeEvent::TaperRose) == (if s == ChargeState::Float {
            Some(ChargeState::ToAbsorb)
        } else {
            None
        }),
        s.after(ChargeEvent::TaperFell) == (if s == ChargeState::Absorb {
            Some(ChargeState::ToFloat)
        } else {
            None
        }),
        s.after(ChargeEvent::VoltageWritten) == (if s == ChargeState::ToAbsorb {
            Some(ChargeState::Absorb)
        } else if s == ChargeState::ToFloat {
            Some(ChargeState::Float)
        } else if s == ChargeState::ToParked {
            Some(ChargeState::Parked)
        } else {
            None
        }),
        s.after(ChargeEvent::Disabled) == (if s == ChargeState::Tripping {
            Some(ChargeState::Latched)
        } else {
            None
        }),
{
}

/// What a state says of itself: whether the output is on, what is waited for, and which
/// target the device holds and is to hold.
pub proof fn states_say_what_they_are(s: ChargeState)
    ensures
        s.is_sourcing() == feeds(s),
        s.is_bringing_up() == idles(s),
        s.is_holding() == waits(s),
        s.is_parked() == stopped_charging(s),
        s.held_phase() == (if !feeds(s) && !idles(s) {
            None
        } else if at_absorb(s) {
            Some(Phase::Absorb)
        } else {
            Some(Phase::Float)
        }),
        s.shown_phase() == (if !feeds(s) {
            None
        } else if at_absorb(s) {
            Some(Phase::Absorb)
        } else {
            Some(Phase::Float)
        }),
        s.target_phase() == (if s == ChargeState::ToAbsorb {
            Some(Phase::Absorb)
        } else if s == ChargeState::ToFloat || s == ChargeState::ToParked {
            Some(Phase::Float)
        } else {
            None
        }),
{
}

/// Committing what was asked for moves the machine and starts the windows of the phase
/// machine over; nothing else changes.
pub proof fn commits_move_the_state_alone(s: StateView, resume_absorb: bool)
    requires
        s.wf(),
    ensures
        idles(s.state) ==> {
            let t = s.enabled(resume_absorb);
            &&& t.state == (if s.state == ChargeState::HoldParked {
                ChargeState::Parked
            } else if at_absorb(s.state) {
                ChargeState::Absorb
            } else if resume_absorb {
                ChargeState::ToAbsorb
            } else {
                ChargeState::Float
            })
            &&& only_moved(s, t)
        },
        s.state == ChargeState::ToAbsorb || s.state == ChargeState::ToFloat || s.state
            == ChargeState::ToParked ==> {
            let t = s.moved(ChargeEvent::VoltageWritten);
            &&& t.state == (if s.state == ChargeState::ToAbsorb {
                ChargeState::Absorb
            } else if s.state == ChargeState::ToFloat {
                ChargeState::Float
            } else {
                ChargeState::Parked
            })
            &&& only_moved(s, t)
        },
        s.state == ChargeState::Tripping ==> {
            let t = s.moved(ChargeEvent::Disabled);
            t.state == ChargeState::Latched && only_moved(s, t)
        },
{
}

/// `t` differs from `s` in the state, what is logged of it, and the windows of the phase
/// machine, which are empty.
pub open spec fn only_moved(s: StateView, t: StateView) -> bool {
    &&& same_pack(s, t)
    &&& t.fault == s.fault && t.inhibit == s.inhibit
    &&& t.exit.elapsed@ == 0 && t.absorb.elapsed@ == 0 && t.charge.elapsed@ == 0
    &&& t.ov == s.ov && t.overcurrent == s.overcurrent && t.holds == s.holds
    &&& t.battery_missing == s.battery_missing && t.modbus_err == s.modbus_err && t.temp_missing
        == s.temp_missing
}

/// What is logged of a move: a latch, a park, a hold, and the output coming on, which is
/// the protection clearing after a hold and energising at boot. The taper, a write that
/// landed and a confirmed disable are not logged.
pub proof fn moves_are_logged_by_their_meaning(s: StateView, e: ChargeEvent)
    requires
        s.transitions.len() <= 8,
        s.state.after(e) is Some,
    ensures
        ({
            let t = s.moved(e);
            let entry = match e {
                ChargeEvent::Fault => Some(ChargeTransition::Latched),
                ChargeEvent::Park => Some(ChargeTransition::Parked),
                ChargeEvent::SelfDisabled => Some(ChargeTransition::ProtectHold),
                ChargeEvent::SelfEnabled => if s.state == ChargeState::Latched {
                    Some(ChargeTransition::Latched)
                } else {
                    Some(ChargeTransition::ProtectCleared)
                },
                ChargeEvent::Enabled | ChargeEvent::EnabledBelowFull => if s.state
                    == ChargeState::Boot {
                    Some(ChargeTransition::Energised)
                } else {
                    Some(ChargeTransition::ProtectCleared)
                },
                ChargeEvent::TaperRose
                | ChargeEvent::TaperFell
                | ChargeEvent::VoltageWritten
                | ChargeEvent::Disabled => None,
            };
            if entry is None {
                t.transitions == s.transitions
            } else {
                &&& t.transitions.len() == (if s.transitions.len() < 8 {
                    s.transitions.len() + 1
                } else {
                    8
                })
                &&& t.transitions.last() == entry->0
                &&& forall|i: int|
                    0 <= i < t.transitions.len() - 1 ==> #[trigger] t.transitions[i]
                        == s.transitions[i + s.transitions.len() + 1 - t.transitions.len()]
            }
        }),
{
}

/// A supervisor boots with the output off and nothing counted.
pub proof fn supervisor_boots_idle(
    profile: crate::charging::profile::Profile,
    i_set_a: F32,
    pack_temp: PackTemp,
)
    ensures
        ({
            let s = StateView::boot(profile, i_set_a, pack_temp);
            &&& s.profile == profile && s.i_set_a == i_set_a && s.pack_temp == pack_temp
            &&& s.state == ChargeState::Boot
            &&& s.fault is None && s.inhibit is None
            &&& s.ov.elapsed@ == 0 && s.overcurrent.elapsed@ == 0 && s.absorb.elapsed@ == 0
            &&& s.exit.elapsed@ == 0 && s.charge.elapsed@ == 0
            &&& s.battery_missing.elapsed@ == 0 && s.modbus_err.elapsed@ == 0
                && s.temp_missing.elapsed@ == 0
            &&& s.holds.holds == 0 && s.holds.since_last@ == 0
            &&& s.transitions.len() == 0
        }),
{
}

/// The setpoints that the buck has to report: the target that the state holds, and the
/// current setpoint.
pub proof fn setpoints_are_those_of_the_state(s: StateView)
    ensures
        s.expected().v_set == (if at_absorb(s.state) {
            s.profile.absorb_v
        } else {
            s.profile.float_v
        }),
        s.expected().i_set == s.i_set_a,
{
}

/// A latched supervisor asks for the output off until that is confirmed, and again where
/// it comes back on.
pub proof fn latched_output_stays_off(s: StateView, p: StatePoll, dt: Duration)
    requires
        s.wf(),
        !feeds(s.state),
        !idles(s.state),
    ensures
        ({
            let (t, asked) = s.ticked(p, dt);
            &&& t.fault == s.fault && s.fault is Some
            &&& if s.state == ChargeState::Tripping || p.output == Some(BuckOutput::On) {
                &&& asked == (Request::Disable { reason: s.fault->0 })
                &&& t.state == ChargeState::Tripping
            } else {
                asked == Request::Nothing && t.state == ChargeState::Latched
            }
        }),
{
}

/// The time since the last hold counts on through every poll, and the run of holds is
/// over once that is more than five minutes; only a hold that begins adds to it.
pub proof fn quiet_time_counts_on(s: StateView, p: StatePoll, dt: Duration)
    requires
        s.wf(),
        feeds(s.state) || idles(s.state),
        s.holds.since_last@ + dt@ <= MAX_NANOS,
        !(feeds(s.state) && p.output is Some && p.output->0 is Off && clears_itself(
            p.output->0->cause,
        )),
    ensures
        s.ticked(p, dt).0.holds.since_last@ == s.holds.since_last@ + dt@,
        s.ticked(p, dt).0.holds.holds == (if s.holds.since_last@ + dt@ > 300 * SECOND {
            0
        } else {
            s.holds.holds
        }),
{
}

} // verus!
