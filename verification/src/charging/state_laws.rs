//! What holds of every supervisor on the flat state machine, whatever it is polled
//! with.

use crate::battery::pack_soc;
use crate::battery_laws::{soc_is_a_percentage, soc_rises_with_voltage, HUNDRED};
use crate::charging::action::Request;
use crate::charging::charge_state::{is_latched, ChargeEvent, ChargeState};
use crate::charging::charge_supervisor::{buffered, held_off};
use crate::charging::fault_reason::FaultReason;
use crate::charging::pack_temp::PackTemp;
use crate::charging::phase::Phase;
use crate::charging::poll_result::{BatterySample, BuckOutput};
use crate::charging::profile::FULL_SOC_MARGIN;
use crate::charging::state_supervisor::{finite_sample, StatePoll, StateView};
use crate::charging::{CHARGE_TEMP_MAX_C, CHARGE_TEMP_MIN_C};
use crate::float::order::{exact_value_is_nearest, sum_keeps_order_right};
use crate::float::rounding::{lemma_mag_monotone, mag_value};
use crate::float::{
    lemma_packed, lemma_sum_rank, number, order_is_total, order_is_transitive, F32,
};
use crate::time::Duration;
use vstd::prelude::*;

verus! {

/// The invariant survives every tick, and neither profile nor current setpoint
/// changes. The voltage that the device has to hold changes with no tick but one
/// that latches.
pub proof fn tick_keeps_invariant_and_setpoints(s: StateView, p: StatePoll, dt: Duration)
    requires
        s.wf(),
    ensures
        s.ticked(p, dt).0.wf(),
        s.ticked(p, dt).0.profile == s.profile,
        s.ticked(p, dt).0.i_set_a == s.i_set_a,
        s.ticked(p, dt).0.pack_temp == s.pack_temp,
        !is_latched(s.ticked(p, dt).0.state) ==> s.ticked(p, dt).0.expected() == s.expected(),
{
}

/// Nothing that has latched is ever energised again: only disables are asked for,
/// the fault stays the same, and an output found on is disabled again.
pub proof fn latch_is_final(s: StateView, p: StatePoll, dt: Duration)
    requires
        s.wf(),
        is_latched(s.state),
    ensures
        is_latched(s.ticked(p, dt).0.state),
        s.ticked(p, dt).0.fault == s.fault,
        s.ticked(p, dt).1 == (if s.state == ChargeState::Tripping || p.output == Some(
            BuckOutput::On,
        ) {
            Request::Disable { reason: s.fault->0 }
        } else {
            Request::Nothing
        }),
        s.state == ChargeState::Latched && p.output == Some(BuckOutput::On)
            ==> s.ticked(p, dt).0.state == ChargeState::Tripping,
{
}

/// Out of a park charging never starts again by a tick: the supervisor stays
/// parked, waits out a protection parked, or latches; no step up is asked for.
pub proof fn park_never_charges_again(s: StateView, p: StatePoll, dt: Duration)
    requires
        s.wf(),
        s.state.is_parked() || s.state == ChargeState::HoldParked,
    ensures
        ({
            let t = s.ticked(p, dt).0.state;
            t.is_parked() || t == ChargeState::HoldParked || is_latched(t)
        }),
        s.ticked(p, dt).1 is Update ==> s.ticked(p, dt).1->phase == Phase::Float,
        !is_latched(s.ticked(p, dt).0.state) ==> s.ticked(p, dt).0.fault == s.fault,
{
}

/// A park never asks for the output off, and keeps the reason.
pub proof fn parking_keeps_the_load_fed(s: StateView, reason: FaultReason)
    requires
        s.wf(),
        s.state.is_sourcing(),
        !s.state.is_parked(),
    ensures
        s.stopped(reason).0.state.is_parked(),
        s.stopped(reason).0.state.is_sourcing(),
        s.stopped(reason).0.fault == Some(reason),
        !(s.stopped(reason).1 is Disable),
        s.stopped(reason).1 is Update ==> s.stopped(reason).1->phase == Phase::Float,
{
}

/// Parking is offered once: a fault of that kind out of a park disables.
pub proof fn second_park_disables(s: StateView, reason: FaultReason)
    requires
        s.wf(),
        s.state.is_parked(),
    ensures
        s.stopped(reason).1 == (Request::Disable { reason }),
        s.stopped(reason).0.state == ChargeState::Tripping,
{
}

/// With the output off nothing latches, but for an output found on at boot and a
/// protection that keeps coming back.
pub proof fn only_a_sourcing_buck_latches(s: StateView, p: StatePoll, dt: Duration)
    requires
        s.wf(),
        s.state.is_bringing_up(),
        is_latched(s.ticked(p, dt).0.state),
    ensures
        s.ticked(p, dt).0.fault == Some(FaultReason::OutputOnInPending) && s.state
            == ChargeState::Boot && p.output == Some(BuckOutput::On) || s.ticked(p, dt).0.fault
            == Some(FaultReason::ProtectionFlapping) && s.holds.aged(dt).spent(),
{
}

/// A requested voltage is that of the phase it names, it moves away from the one
/// held, and the output is cycled exactly on the way down to Float.
pub proof fn step_down_cycles_the_output(s: StateView, p: StatePoll, dt: Duration)
    requires
        s.wf(),
        s.ticked(p, dt).1 is Update,
    ensures
        s.ticked(p, dt).1 == (Request::Update {
            phase: s.ticked(p, dt).1->phase,
            target_v: s.voltage_of(s.ticked(p, dt).1->phase),
            cycle_output: s.ticked(p, dt).1->phase == Phase::Float,
        }),
        s.ticked(p, dt).1->phase != s.held(),
        s.ticked(p, dt).0.state.target_phase() == Some(s.ticked(p, dt).1->phase),
{
    order_is_total(s.profile.float_v, s.profile.absorb_v);
    order_is_total(s.profile.absorb_v, s.profile.float_v);
}

/// The output is asked on only with every check passed, and the state does not
/// move until that is committed.
pub proof fn enable_needs_every_check(s: StateView, p: StatePoll, dt: Duration)
    requires
        s.wf(),
        s.ticked(p, dt).1 is Enable,
    ensures
        s.state.is_bringing_up(),
        p.setpoints is Some,
        !s.drifted(p),
        p.output != Some(BuckOutput::On),
        held_off(p.output) is None,
        finite_sample(p) is Some,
        !s.over_voltage(finite_sample(p)->0),
        s.pack_temp == PackTemp::Fitted ==> p.pack_temp_c is Some && !p.pack_temp_c->0.below(
            number(CHARGE_TEMP_MIN_C),
        ) && !number(CHARGE_TEMP_MAX_C).below(p.pack_temp_c->0),
        s.ticked(p, dt).0.state == s.state,
        s.ticked(p, dt).1 == (Request::Enable { resume_absorb: !s.full(finite_sample(p)->0) }),
{
}

/// What the output does outranks what its setpoints are.
pub proof fn output_outranks_drift(s: StateView, p: StatePoll, dt: Duration)
    requires
        s.wf(),
        !is_latched(s.state),
        !s.holds.aged(dt).spent(),
    ensures
        s.state == ChargeState::Boot && p.output == Some(BuckOutput::On) ==> s.ticked(p, dt).1 == (
        Request::Disable { reason: FaultReason::OutputOnInPending }),
        s.state.is_sourcing() && p.output is Some && p.output->0 is Off && held_off(
            p.output,
        ) is None ==> s.ticked(p, dt).1 == (Request::Disable {
            reason: FaultReason::OutputUnexpectedlyOff(p.output->0->cause),
        }),
{
}

/// A board without a temperature sensor takes no notice of a temperature.
pub proof fn absent_sensor_is_ignored(s: StateView, p: StatePoll, t: Option<F32>, dt: Duration)
    requires
        s.pack_temp == PackTemp::Absent,
    ensures
        s.ticked((StatePoll { pack_temp_c: t, ..p }), dt) == s.ticked(p, dt),
{
    let q = StatePoll { pack_temp_c: t, ..p };
    assert(finite_sample(q) == finite_sample(p));
    assert(s.drifted(q) == s.drifted(p));
    if let Some(b) = finite_sample(p) {
        let link = s.modbus_err.stepped(p.setpoints is None, dt);
        let fresh = StateView {
            battery_missing: s.battery_missing.stepped(false, dt),
            modbus_err: link,
            holds: s.holds.aged(dt),
            ..s
        };
        assert(fresh.sample_judged(q, b, dt) == fresh.sample_judged(p, b, dt));
    }
}

/// A hold ends where it began: what the device held when the buck dropped out is
/// what it holds when the output comes back, and a park stays one.
pub proof fn hold_resumes_where_it_began(s: StateView)
    requires
        s.wf(),
        s.state.is_sourcing(),
        s.state.after(ChargeEvent::SelfDisabled) is Some,
    ensures
        ({
            let back = s.moved(ChargeEvent::SelfDisabled).moved(ChargeEvent::SelfEnabled);
            &&& back.state.is_sourcing()
            &&& back.state.held_phase() == s.state.held_phase()
            &&& back.state.is_parked() == s.state.is_parked()
            &&& back.fault == s.fault
        }),
{
}

/// Every committed ticket leaves the invariant intact.
pub proof fn commits_keep_the_invariant(s: StateView, resume_absorb: bool)
    requires
        s.wf(),
    ensures
        s.state.is_bringing_up() ==> s.enabled(resume_absorb).wf() && s.enabled(
            resume_absorb,
        ).state.is_sourcing(),
        s.state.target_phase() is Some ==> s.moved(ChargeEvent::VoltageWritten).wf() && s.moved(
            ChargeEvent::VoltageWritten,
        ).expected().v_set == s.voltage_of(s.state.target_phase()->0),
        s.state == ChargeState::Tripping ==> s.moved(ChargeEvent::Disabled).wf() && s.moved(
            ChargeEvent::Disabled,
        ).state == ChargeState::Latched,
{
}

/// A tick records at most one transition.
pub proof fn one_transition_per_tick(s: StateView, p: StatePoll, dt: Duration)
    requires
        s.wf(),
    ensures
        s.ticked(p, dt).0.transitions == s.transitions || exists|t|
            s.ticked(p, dt).0.transitions == #[trigger] buffered(s.transitions, t),
{
}

/// Whatever the chemistry, a pack rested at its profile's own float target is full.
pub proof fn rested_at_the_float_target_is_full(s: StateView, b: BatterySample)
    requires
        s.wf(),
        s.rested(b),
        b.voltage == s.profile.float_v,
    ensures
        s.full(b),
{
    let soc = pack_soc(s.profile.chemistry, s.profile.cells, s.profile.float_v);
    soc_is_a_percentage(s.profile.chemistry, s.profile.cells, s.profile.float_v);
    lemma_percentage(soc);
    margin_lowers(soc);
}

/// A number between 0 and 100 is finite.
proof fn lemma_percentage(x: F32)
    requires
        number(0).at_most(x),
        x.at_most(number(HUNDRED)),
    ensures
        x.finite(),
{
    reveal(F32::at_most);
}

/// Taking the margin off does not raise a number.
proof fn margin_lowers(x: F32)
    requires
        x.finite(),
    ensures
        x.difference(number(FULL_SOC_MARGIN)).at_most(x),
{
    let m = number(FULL_SOC_MARGIN).negated();
    reveal(F32::negated);
    lemma_packed(true, FULL_SOC_MARGIN as nat);
    assert(m.finite() && m.at_most(number(0))) by {
        reveal(F32::at_most);
    }
    sum_keeps_order_right(x, m, number(0));
    lemma_sum_rank(x, number(0));
    assert(mag_value(0) == 0);
    exact_value_is_nearest(x.magnitude());
    if x.magnitude() > 0 {
        lemma_mag_monotone(0, x.magnitude());
    }
    reveal(F32::at_most);
}

/// A pack that is full at one voltage is full at every higher one.
pub proof fn fuller_pack_stays_full(s: StateView, b: BatterySample, c: BatterySample)
    requires
        s.wf(),
        s.full(b),
        c.current == b.current,
        b.voltage.finite(),
        c.voltage.finite(),
        b.voltage.at_most(c.voltage),
    ensures
        s.full(c),
{
    soc_rises_with_voltage(s.profile.chemistry, s.profile.cells, b.voltage, c.voltage);
    let bar = pack_soc(s.profile.chemistry, s.profile.cells, s.profile.float_v).difference(
        number(FULL_SOC_MARGIN),
    );
    order_is_transitive(
        bar,
        pack_soc(s.profile.chemistry, s.profile.cells, b.voltage),
        pack_soc(s.profile.chemistry, s.profile.cells, c.voltage),
    );
}

} // verus!
