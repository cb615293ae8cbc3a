//! What the numbers of a profile are: decimals, and shares of what the pack is rated for.

use crate::battery::Chemistry;
use crate::charging::profile::{
    chargeable, pack_profile, profile_limits, profile_setup, programmable, Profile, SupplyBudget,
    V_SET_CEILING, I_SET_CEILING, OVP_CEILING, OCP_CEILING, LVP_FLOOR, LVP_CEILING,
    FULL_SOC_MARGIN, OCP_FACTOR,
};
use crate::charging::{
    REGULATION_C, EXIT_ABSORB_C, ENTER_ABSORB_C, OV_MARGIN_V, HARDWARE_OVP_MARGIN_V,
    INPUT_LVP_MARGIN_V, ABSORB_CV_BAND_V, OVERCURRENT_TOL, CHARGE_TEMP_MAX_C, SETPOINT_DRIFT_TOL,
    BATTERY_MISSING_TIMEOUT, CHARGE_TEMP_MIN_C, EXIT_DEBOUNCE, FLAP_WINDOW, MAX_ABSORB, MAX_CHARGE,
    MAX_HOLDS, MODBUS_UNHEALTHY_TIMEOUT, OVERCURRENT_DURATION, OV_DURATION,
    PACK_TEMP_STALE_TIMEOUT,
};
use crate::device::SafetyLimits;
use crate::float::laws::{decimal_is_nearest, is_decimal, products_are_nearest, sums_are_nearest};
use crate::float::rounding::{lemma_mag_value_of, lemma_nearest_scale, mag_value, nearest};
use crate::float::{abs_int, integers_are_exact, number, order_is_by_value, F32};
use vstd::arithmetic::mul::*;
use vstd::arithmetic::power2::*;
use vstd::prelude::*;

verus! {

/// The fractions, margins and bounds are the numbers nearest to their decimals.
pub proof fn numbers_are_their_decimals()
    ensures
        is_decimal(number(REGULATION_C), 2, 10),
        is_decimal(number(EXIT_ABSORB_C), 5, 100),
        is_decimal(number(ENTER_ABSORB_C), 6, 100),
        is_decimal(number(OV_MARGIN_V), 2, 10),
        is_decimal(number(HARDWARE_OVP_MARGIN_V), 6, 10),
        is_decimal(number(INPUT_LVP_MARGIN_V), 2, 1),
        is_decimal(number(ABSORB_CV_BAND_V), 1, 10),
        is_decimal(number(OVERCURRENT_TOL), 125, 100),
        is_decimal(number(CHARGE_TEMP_MAX_C), 45, 1),
        is_decimal(number(SETPOINT_DRIFT_TOL), 2, 100),
        is_decimal(number(V_SET_CEILING), 70, 1),
        is_decimal(number(I_SET_CEILING), 25, 1),
        is_decimal(number(OVP_CEILING), 72, 1),
        is_decimal(number(OCP_CEILING), 27, 1),
        is_decimal(number(LVP_FLOOR), 10, 1),
        is_decimal(number(LVP_CEILING), 95, 1),
        is_decimal(number(FULL_SOC_MARGIN), 5, 1),
        is_decimal(number(OCP_FACTOR), 15, 10),
        number(CHARGE_TEMP_MIN_C).scaled() == 0,
{
    lemma2_to64();
    assert(mag_value(0) == 0);
    decimal_is_nearest(2, 10, 0xcccccd, 123, 0x4000000);
    decimal_is_nearest(5, 100, 0xcccccd, 121, 0x10000000);
    decimal_is_nearest(6, 100, 0xf5c28f, 121, 0x10000000);
    decimal_is_nearest(2, 10, 0xcccccd, 123, 0x4000000);
    decimal_is_nearest(6, 10, 0x99999a, 125, 0x1000000);
    decimal_is_nearest(2, 1, 0x800000, 127, 0x400000);
    decimal_is_nearest(1, 10, 0xcccccd, 122, 0x8000000);
    decimal_is_nearest(125, 100, 0xa00000, 126, 0x800000);
    decimal_is_nearest(45, 1, 0xb40000, 131, 0x40000);
    decimal_is_nearest(2, 100, 0xa3d70a, 120, 0x20000000);
    decimal_is_nearest(70, 1, 0x8c0000, 132, 0x20000);
    decimal_is_nearest(25, 1, 0xc80000, 130, 0x80000);
    decimal_is_nearest(72, 1, 0x900000, 132, 0x20000);
    decimal_is_nearest(27, 1, 0xd80000, 130, 0x80000);
    decimal_is_nearest(10, 1, 0xa00000, 129, 0x100000);
    decimal_is_nearest(95, 1, 0xbe0000, 132, 0x20000);
    decimal_is_nearest(5, 1, 0xa00000, 128, 0x200000);
    decimal_is_nearest(15, 10, 0xc00000, 126, 0x800000);
}

/// The windows are these many seconds: three for an overvoltage, five for a lost link
/// and an overcurrent, ten for a missing sample or temperature, a minute for the taper,
/// two hours at the plateau, eight for a charge, five minutes for a run of holds, of
/// which four are waited out.
pub proof fn windows_are_their_seconds()
    ensures
        OV_DURATION == 3,
        MODBUS_UNHEALTHY_TIMEOUT == 5,
        OVERCURRENT_DURATION == 5,
        BATTERY_MISSING_TIMEOUT == 10,
        PACK_TEMP_STALE_TIMEOUT == 10,
        EXIT_DEBOUNCE == 60,
        MAX_ABSORB == 2 * 3600,
        MAX_CHARGE == 8 * 3600,
        FLAP_WINDOW == 5 * 60,
        MAX_HOLDS == 4,
{
}

/// The targets per cell, in millivolts: absorb and float.
pub open spec fn rated_millivolts(chemistry: Chemistry) -> (nat, nat) {
    match chemistry {
        Chemistry::LiFePo4 => (3600, 3375),
        Chemistry::LiFePo4TopBalance => (3650, 3375),
        Chemistry::LiIon => (4100, 4000),
    }
}

/// The targets per cell are the rated ones.
pub proof fn cell_targets_are_rated(chemistry: Chemistry)
    ensures
        is_decimal(chemistry.cell_voltages().absorb_v, rated_millivolts(chemistry).0, 1000),
        is_decimal(chemistry.cell_voltages().float_v, rated_millivolts(chemistry).1, 1000),
        chemistry.cell_voltages().absorb_v.finite(),
        chemistry.cell_voltages().float_v.finite(),
{
    lemma2_to64();
    decimal_is_nearest(3600, 1000, 0xe66666, 127, 0x400000);
    decimal_is_nearest(3375, 1000, 0xd80000, 127, 0x400000);
    decimal_is_nearest(3650, 1000, 0xe9999a, 127, 0x400000);
    decimal_is_nearest(4100, 1000, 0x833333, 128, 0x200000);
    decimal_is_nearest(4000, 1000, 0x800000, 128, 0x200000);
}

/// A product with a count is nearest to the exact multiple.
proof fn lemma_multiple(v: F32, n: u8)
    requires
        v.finite(),
        !v.negative(),
    ensures
        nearest(v.product(F32::of_integer(n as nat)).magnitude(), mag_value(v.magnitude()) * (n as nat), 1),
        !v.product(F32::of_integer(n as nat)).negative(),
{
    let d = F32::of_integer(n as nat);
    integers_are_exact(n as nat);
    products_are_nearest(v, d);
    lemma_pow2_pos(149);
    assert(!d.negative()) by {
        reveal(F32::of_integer);
        crate::float::nearest_exists(n as nat * pow2(149), 1);
        crate::float::lemma_packed(false, crate::float::rounding::round_mag(n as nat * pow2(149), 1));
    }
    let m = mag_value(v.magnitude());
    let u = pow2(149);
    assert(m * (n * u) == (m * n) * u) by (nonlinear_arith);
    lemma_mul_basics(u as int);
    lemma_nearest_scale(v.product(d).magnitude(), m * (n as nat), 1, u);
}

/// The profile of a pack keeps what it was asked for. Each voltage target is the rated
/// target of a cell times the count of cells, each current its fraction of the
/// capacity, all rounded once.
pub proof fn profile_is_rated(chemistry: Chemistry, cells: u8, capacity_ah: F32)
    requires
        capacity_ah.finite(),
        !capacity_ah.negative(),
    ensures
        ({
            let p = pack_profile(chemistry, cells, capacity_ah);
            let v = chemistry.cell_voltages();
            let c = mag_value(capacity_ah.magnitude());
            &&& p.chemistry == chemistry
            &&& p.cells == cells
            &&& p.capacity_ah == capacity_ah
            &&& nearest(p.absorb_v.magnitude(), mag_value(v.absorb_v.magnitude()) * (cells as nat), 1)
            &&& nearest(p.float_v.magnitude(), mag_value(v.float_v.magnitude()) * (cells as nat), 1)
            &&& nearest(
                p.regulation_a.magnitude(),
                c * mag_value(REGULATION_C as nat),
                pow2(149),
            )
            &&& nearest(
                p.enter_absorb_a.magnitude(),
                c * mag_value(ENTER_ABSORB_C as nat),
                pow2(149),
            )
            &&& nearest(
                p.exit_absorb_a.magnitude(),
                c * mag_value(EXIT_ABSORB_C as nat),
                pow2(149),
            )
            &&& !p.absorb_v.negative() && !p.float_v.negative()
            &&& !p.regulation_a.negative() && !p.enter_absorb_a.negative()
                && !p.exit_absorb_a.negative()
        }),
{
    cell_targets_are_rated(chemistry);
    lemma_multiple(chemistry.cell_voltages().absorb_v, cells);
    lemma_multiple(chemistry.cell_voltages().float_v, cells);
    products_are_nearest(capacity_ah, number(REGULATION_C));
    products_are_nearest(capacity_ah, number(ENTER_ABSORB_C));
    products_are_nearest(capacity_ah, number(EXIT_ABSORB_C));
}

/// The trips that go with a profile: the overvoltage trip is the absorb target and its
/// margin, the overcurrent trip one and a half times the charge current, the input
/// cutoff the rail less its margin. With a load on the output the current setpoint is
/// charge current and load, and its trip one and a half times that.
pub proof fn trips_follow_the_profile(p: Profile, supply: SupplyBudget)
    requires
        p.absorb_v.finite(),
        p.regulation_a.finite(),
        supply.input_nominal_v.finite(),
        supply.load_a.finite(),
    ensures
        ({
            let l = profile_limits(p, supply.input_nominal_v);
            let s = profile_setup(p, supply);
            let margin = number(HARDWARE_OVP_MARGIN_V).scaled();
            let sag = number(INPUT_LVP_MARGIN_V).scaled();
            &&& nearest(l.ovp_v.magnitude(), abs_int(p.absorb_v.scaled() + margin), 1)
            &&& nearest(
                l.lvp_v.magnitude(),
                abs_int(supply.input_nominal_v.scaled() - sag),
                1,
            )
            &&& nearest(
                l.ocp_a.magnitude(),
                mag_value(p.regulation_a.magnitude()) * mag_value(OCP_FACTOR as nat),
                pow2(149),
            )
            &&& l.ocp_a.negative() == p.regulation_a.negative()
            &&& supply.input_nominal_v.scaled() < sag ==> l.lvp_v.negative()
            &&& supply.input_nominal_v.scaled() > sag ==> !l.lvp_v.negative()
            &&& nearest(
                s.i_set_a.magnitude(),
                abs_int(p.regulation_a.scaled() + supply.load_a.scaled()),
                1,
            )
            &&& s.i_set_a.finite() ==> nearest(
                s.limits.ocp_a.magnitude(),
                mag_value(s.i_set_a.magnitude()) * mag_value(OCP_FACTOR as nat),
                pow2(149),
            )
            &&& s.limits.ovp_v == l.ovp_v
            &&& s.limits.lvp_v == l.lvp_v
        }),
{
    let s = profile_setup(p, supply);
    sums_are_nearest(p.absorb_v, number(HARDWARE_OVP_MARGIN_V));
    sums_are_nearest(supply.input_nominal_v, number(INPUT_LVP_MARGIN_V));
    sums_are_nearest(p.regulation_a, supply.load_a);
    products_are_nearest(p.regulation_a, number(OCP_FACTOR));
    if s.i_set_a.finite() {
        products_are_nearest(s.i_set_a, number(OCP_FACTOR));
    }
}

/// What a bound of the buck is in units.
proof fn lemma_bound(bits: u32, q: nat, j: nat, whole: nat, scale: nat)
    requires
        bits == j * 0x80_0000 + q,
        0x80_0000 <= q < 0x100_0000,
        j <= 149,
        pow2((149 - j) as nat) == scale,
        whole * scale == q,
        bits < 0x7f80_0000,
    ensures
        number(bits).finite(),
        number(bits).scaled() == whole * pow2(149),
{
    lemma_mag_value_of(q, j);
    lemma_pow2_adds((149 - j) as nat, j);
    assert(q * pow2(j) == whole * (scale * pow2(j))) by (nonlinear_arith)
        requires
            q == whole * scale,
    ;
}

/// The buck charges a pack of at most 70 V and 25 A, and takes trips of at most 72 V and
/// 27 A and an input cutoff from 10 V to 95 V.
pub proof fn buck_has_its_bounds(p: Profile, limits: SafetyLimits)
    requires
        p.absorb_v.finite(),
        p.regulation_a.finite(),
        limits.ovp_v.finite(),
        limits.ocp_a.finite(),
        limits.lvp_v.finite(),
    ensures
        chargeable(p) <==> p.absorb_v.scaled() <= 70 * pow2(149) && p.regulation_a.scaled() <= 25
            * pow2(149),
        programmable(limits) <==> limits.ovp_v.scaled() <= 72 * pow2(149) && limits.ocp_a.scaled()
            <= 27 * pow2(149) && 10 * pow2(149) <= limits.lvp_v.scaled() && limits.lvp_v.scaled()
            <= 95 * pow2(149),
{
    lemma2_to64();
    lemma_bound(V_SET_CEILING, 0x8c0000, 132, 70, 0x20000);
    lemma_bound(I_SET_CEILING, 0xc80000, 130, 25, 0x80000);
    lemma_bound(OVP_CEILING, 0x900000, 132, 72, 0x20000);
    lemma_bound(OCP_CEILING, 0xd80000, 130, 27, 0x80000);
    lemma_bound(LVP_FLOOR, 0xa00000, 129, 10, 0x100000);
    lemma_bound(LVP_CEILING, 0xbe0000, 132, 95, 0x20000);
    order_is_by_value(p.absorb_v, number(V_SET_CEILING));
    order_is_by_value(p.regulation_a, number(I_SET_CEILING));
    order_is_by_value(limits.ovp_v, number(OVP_CEILING));
    order_is_by_value(limits.ocp_a, number(OCP_CEILING));
    order_is_by_value(number(LVP_FLOOR), limits.lvp_v);
    order_is_by_value(limits.lvp_v, number(LVP_CEILING));
}

/// A pack whose voltage or charge current is beyond all numbers, or none, is not charged.
pub proof fn buck_refuses_no_number(p: Profile)
    requires
        p.absorb_v.nan() || p.regulation_a.nan() || (p.absorb_v.infinite()
            && !p.absorb_v.negative()) || (p.regulation_a.infinite() && !p.regulation_a.negative()),
    ensures
        !chargeable(p),
{
    reveal(F32::at_most);
}

} // verus!
