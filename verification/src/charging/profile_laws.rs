//! What holds of every charge profile.

use crate::battery::Chemistry;
use crate::charging::profile::{pack_profile, profile_limits, Profile, V_SET_CEILING};
use crate::charging::{
    ENTER_ABSORB_C, EXIT_ABSORB_C, HARDWARE_OVP_MARGIN_V, OV_MARGIN_V, REGULATION_C,
};
use crate::float::order::{
    half_rounds_apart, lemma_product_rank, plain, product_keeps_order, rounds_apart,
};
use crate::float::rounding::{
    lemma_mag_monotone, lemma_mag_value_of, mag_value, round_mag, INFINITE_MAG,
};
use crate::float::{
    arithmetic_commutes, integers_are_exact, lemma_packed, lemma_sum_rank, nearest_exists, number,
    order_is_by_value, F32,
};
use vstd::arithmetic::mul::*;
use vstd::arithmetic::power2::*;
use vstd::prelude::*;

verus! {

/// A whole number up to 255 as a plain number.
proof fn lemma_small_integer(n: u8)
    requires
        n > 0,
    ensures
        plain(F32::of_integer(n as nat)),
        mag_value(F32::of_integer(n as nat).magnitude()) == n * pow2(149),
{
    integers_are_exact(n as nat);
    reveal(F32::of_integer);
    nearest_exists(n as nat * pow2(149), 1);
    lemma_packed(false, round_mag(n as nat * pow2(149), 1));
    lemma_mul_nonnegative(n as int, pow2(149) as int);
}

/// Two voltages per cell, a fiftieth apart, stay apart in the pack.
proof fn lemma_scaled_apart(lo: F32, hi: F32, q_lo: nat, q_hi: nat, j: nat, cells: u8)
    requires
        cells > 0,
        plain(lo),
        plain(hi),
        3 <= q_lo < 0x100_0000,
        q_hi < 0x100_0000,
        50 * q_hi >= 51 * q_lo,
        100 <= j <= 200,
        mag_value(lo.magnitude()) == q_lo * pow2(j),
        mag_value(hi.magnitude()) == q_hi * pow2(j),
    ensures
        lo.product(F32::of_integer(cells as nat)).below(hi.product(F32::of_integer(cells as nat))),
{
    let s = F32::of_integer(cells as nat);
    lemma2_to64();
    lemma_pow2_strictly_increases(2, j);
    lemma_small_integer(cells);
    lemma_product_rank(lo, s);
    lemma_product_rank(hi, s);
    let p = pow2(149);
    let u = pow2(j);
    let c = cells as nat;
    lemma_pow2_pos(149);
    lemma_pow2_pos(j);
    let x = (q_lo * u) * (c * p);
    let y = (q_hi * u) * (c * p);
    let w = u * (c * p);
    assert(x == q_lo * w) by (nonlinear_arith)
        requires
            x == (q_lo * u) * (c * p),
            w == u * (c * p),
    ;
    assert(y == q_hi * w) by (nonlinear_arith)
        requires
            y == (q_hi * u) * (c * p),
            w == u * (c * p),
    ;
    assert(0x20_0000 * y >= 0x20_0001 * x) by (nonlinear_arith)
        requires
            x == q_lo * w,
            y == q_hi * w,
            50 * q_hi >= 51 * q_lo,
            w >= 0,
    ;
    assert(w >= 3 * p) by (nonlinear_arith)
        requires
            w == u * (c * p),
            u >= 3,
            c >= 1,
            p >= 0,
    ;
    assert(y >= x + 3 * p) by (nonlinear_arith)
        requires
            x == q_lo * w,
            y == q_hi * w,
            q_hi >= q_lo + 1,
            w >= 3 * p,
    ;
    lemma_pow2_adds(24, 32);
    lemma_pow2_adds(56, 218);
    if j < 218 {
        lemma_pow2_strictly_increases(j, 218);
    }
    assert(x < pow2(274) * p) by (nonlinear_arith)
        requires
            x == (q_lo * u) * (c * p),
            q_lo < 0x100_0000,
            u <= pow2(218),
            c < 0x1_0000_0000,
            pow2(274) == (0x100_0000 * 0x1_0000_0000) * pow2(218),
            p > 0,
            u > 0,
    ;
    rounds_apart(x, y, p);
    reveal(F32::below);
}

/// Every profile of a pack has its absorb target above its float target, so a
/// supervisor can be built on it.
pub proof fn profile_targets_are_ordered(chemistry: Chemistry, cells: u8, capacity_ah: F32)
    requires
        cells > 0,
    ensures
        ({
            let p = pack_profile(chemistry, cells, capacity_ah);
            p.float_v.below(p.absorb_v)
        }),
{
    match chemistry {
        Chemistry::LiFePo4 => {
            lemma_mag_value_of(0xd80000, 127);
            lemma_mag_value_of(0xe66666, 127);
            lemma_scaled_apart(number(0x4058_0000), number(0x4066_6666), 0xd80000, 0xe66666, 127, cells);
        },
        Chemistry::LiFePo4TopBalance => {
            lemma_mag_value_of(0xd80000, 127);
            lemma_mag_value_of(0xe9999a, 127);
            lemma_scaled_apart(number(0x4058_0000), number(0x4069_999a), 0xd80000, 0xe9999a, 127, cells);
        },
        Chemistry::LiIon => {
            lemma_mag_value_of(0x800000, 128);
            lemma_mag_value_of(0x833333, 128);
            lemma_scaled_apart(number(0x4080_0000), number(0x4083_3333), 0x800000, 0x833333, 128, cells);
        },
    }
}

/// The thresholds of a pack with a finite capacity are in order: the tail is at
/// most the current that enters Absorb, and that one at most the charge current.
pub proof fn profile_currents_are_ordered(chemistry: Chemistry, cells: u8, capacity_ah: F32)
    requires
        plain(capacity_ah),
    ensures
        ({
            let p = pack_profile(chemistry, cells, capacity_ah);
            p.exit_absorb_a.at_most(p.enter_absorb_a) && p.enter_absorb_a.at_most(p.regulation_a)
        }),
{
    let a = number(EXIT_ABSORB_C);
    let b = number(ENTER_ABSORB_C);
    let c = number(REGULATION_C);
    reveal(F32::at_most);
    product_keeps_order(a, b, capacity_ah);
    product_keeps_order(b, c, capacity_ah);
    arithmetic_commutes(a, capacity_ah);
    arithmetic_commutes(b, capacity_ah);
    arithmetic_commutes(c, capacity_ah);
}

/// A capacity of so few units of the smallest number that two of the currents, each
/// a fraction of it, round to the same number of units. The largest of them lies near
/// 10^-43 Ah.
pub open spec fn currents_collapse(capacity_ah: F32) -> bool {
    let m = capacity_ah.magnitude();
    ||| m <= 8
    ||| 10 <= m <= 25
    ||| 30 <= m <= 41
    ||| 50 <= m <= 58
    ||| 70 <= m <= 75
    ||| 90 <= m <= 91
}

/// Two fractions of a capacity differ where their exact values do so enough: by more
/// than a unit, or with the half above `n` units between them.
proof fn lemma_fractions_apart(lo: F32, hi: F32, q_lo: nat, q_hi: nat, capacity_ah: F32, n: nat)
    requires
        plain(lo),
        plain(hi),
        plain(capacity_ah),
        q_lo < 0x100_0000,
        q_hi >= q_lo + 2684354,
        mag_value(lo.magnitude()) == q_lo * pow2(121),
        mag_value(hi.magnitude()) == q_hi * pow2(121),
        capacity_ah.magnitude() <= 100 ==> {
            &&& n <= 100
            &&& 2 * (q_lo * capacity_ah.magnitude()) < (2 * n + 1) * 0x1000_0000
            &&& (2 * n + 1) * 0x1000_0000 < 2 * (q_hi * capacity_ah.magnitude())
        },
    ensures
        capacity_ah.product(lo).below(capacity_ah.product(hi)),
{
    let m = capacity_ah.magnitude();
    let v = mag_value(m);
    let u = pow2(121);
    let d = pow2(149);
    let x = v * (q_lo * u);
    let y = v * (q_hi * u);
    lemma_product_rank(capacity_ah, lo);
    lemma_product_rank(capacity_ah, hi);
    lemma_pow2_pos(121);
    lemma2_to64();
    lemma_pow2_adds(28, 121);
    assert(d == 0x1000_0000 * u);
    assert(x == (q_lo * v) * u) by (nonlinear_arith)
        requires
            x == v * (q_lo * u),
    ;
    assert(y == (q_hi * v) * u) by (nonlinear_arith)
        requires
            y == v * (q_hi * u),
    ;
    if m <= 300 {
        assert(v == m);
        let k: nat = if m <= 100 {
            n
        } else {
            (2 * (q_lo * m) + 0x1000_0000) / 0x2000_0000
        };
        if m > 100 {
            assert(q_hi * m >= q_lo * m + 2684354 * m) by (nonlinear_arith)
                requires
                    q_hi >= q_lo + 2684354,
                    m >= 0,
            ;
            assert(q_lo * m <= 0x100_0000 * 300) by (nonlinear_arith)
                requires
                    q_lo < 0x100_0000,
                    m <= 300,
            ;
        }
        let h = (2 * k + 1) * 0x1000_0000;
        assert(2 * (q_lo * v) < h < 2 * (q_hi * v));
        assert((2 * k + 1) * d == h * u) by (nonlinear_arith)
            requires
                d == 0x1000_0000 * u,
                h == (2 * k + 1) * 0x1000_0000,
        ;
        assert(2 * x < h * u && h * u < 2 * y) by (nonlinear_arith)
            requires
                x == (q_lo * v) * u,
                y == (q_hi * v) * u,
                2 * (q_lo * v) < h < 2 * (q_hi * v),
                u > 0,
        ;
        half_rounds_apart(x, y, d, k);
    } else {
        lemma_mag_monotone(300, m);
        assert(mag_value(300) == 300);
        lemma_mag_value_of(0x100_0000, 253);
        lemma_pow2_adds(24, 253);
        lemma_mag_monotone(m, INFINITE_MAG as nat);
        assert(v < pow2(277));
        lemma_pow2_adds(24, 277);
        lemma_pow2_adds(274, 28);
        lemma_pow2_strictly_increases(301, 302);
        let top = pow2(302);
        assert(q_lo * v < top) by (nonlinear_arith)
            requires
                q_lo < 0x100_0000,
                v < pow2(277),
                0x100_0000 * pow2(277) < top,
        ;
        assert(x < pow2(274) * d) by (nonlinear_arith)
            requires
                x == (q_lo * v) * u,
                q_lo * v < top,
                top == pow2(274) * 0x1000_0000,
                d == 0x1000_0000 * u,
                u > 0,
        ;
        assert(q_hi * v >= q_lo * v + 2684354 * v) by (nonlinear_arith)
            requires
                q_hi >= q_lo + 2684354,
                v >= 0,
        ;
        assert(y >= x + 3 * d) by (nonlinear_arith)
            requires
                x == (q_lo * v) * u,
                y == (q_hi * v) * u,
                q_hi * v >= q_lo * v + 3 * 0x1000_0000,
                d == 0x1000_0000 * u,
        ;
        assert(0x20_0000 * y >= 0x20_0001 * x) by (nonlinear_arith)
            requires
                x == (q_lo * v) * u,
                y == (q_hi * v) * u,
                0x20_0000 * q_hi >= 0x20_0001 * q_lo,
                v >= 0,
                u >= 0,
        ;
        rounds_apart(x, y, d);
    }
    reveal(F32::below);
}

/// The thresholds of a pack are strictly in order: the tail lies below the current
/// that enters Absorb, and that one below the charge current. Only some capacities
/// next to nothing are too small for that.
pub proof fn profile_currents_are_apart(chemistry: Chemistry, cells: u8, capacity_ah: F32)
    requires
        plain(capacity_ah),
        !currents_collapse(capacity_ah),
    ensures
        ({
            let p = pack_profile(chemistry, cells, capacity_ah);
            p.exit_absorb_a.below(p.enter_absorb_a) && p.enter_absorb_a.below(p.regulation_a)
        }),
{
    let a = number(EXIT_ABSORB_C);
    let b = number(ENTER_ABSORB_C);
    let c = number(REGULATION_C);
    let m = capacity_ah.magnitude();
    lemma_mag_value_of(0xcccccd, 121);
    lemma_mag_value_of(0xf5c28f, 121);
    lemma_mag_value_of(0xcccccd, 123);
    lemma2_to64();
    lemma_pow2_adds(2, 121);
    assert(0xcccccd * (4 * pow2(121)) == 0x3333334 * pow2(121)) by (nonlinear_arith);
    let n: nat = if m <= 9 {
        0
    } else if m <= 29 {
        1
    } else if m <= 49 {
        2
    } else if m <= 69 {
        3
    } else if m <= 89 {
        4
    } else {
        5
    };
    if m <= 100 {
        assert(2 * (0xcccccd * m) < (2 * n + 1) * 0x1000_0000);
        assert((2 * n + 1) * 0x1000_0000 < 2 * (0xf5c28f * m));
    }
    lemma_fractions_apart(a, b, 0xcccccd, 0xf5c28f, capacity_ah, n);
    let k: nat = if m <= 9 {
        1
    } else {
        ((2 * (0xf5c28f * m) + 0x1000_0000) / 0x2000_0000) as nat
    };
    lemma_fractions_apart(b, c, 0xf5c28f, 0x3333334, capacity_ah, k);
}

/// Voltages scale with the cells and currents with the capacity, and neither with
/// the other.
pub proof fn profile_scales_separately(
    chemistry: Chemistry,
    cells: u8,
    other_cells: u8,
    capacity_ah: F32,
    other_ah: F32,
)
    ensures
        ({
            let p = pack_profile(chemistry, cells, capacity_ah);
            let more_cells = pack_profile(chemistry, other_cells, capacity_ah);
            let more_ah = pack_profile(chemistry, cells, other_ah);
            &&& p.regulation_a == more_cells.regulation_a
            &&& p.enter_absorb_a == more_cells.enter_absorb_a
            &&& p.exit_absorb_a == more_cells.exit_absorb_a
            &&& p.absorb_v == more_ah.absorb_v
            &&& p.float_v == more_ah.float_v
        }),
{
}

/// The buck's own overvoltage trip lies strictly above the supervisor's line, for
/// every absorb target the buck takes: the supervisor trips first.
pub proof fn supervisor_trips_before_the_buck(p: Profile, input_nominal_v: F32)
    requires
        plain(p.absorb_v),
        p.absorb_v.at_most(number(V_SET_CEILING)),
    ensures
        p.absorb_v.sum(number(OV_MARGIN_V)).below(profile_limits(p, input_nominal_v).ovp_v),
{
    let a = p.absorb_v;
    let lo = number(OV_MARGIN_V);
    let hi = number(HARDWARE_OVP_MARGIN_V);
    lemma_sum_rank(a, lo);
    lemma_sum_rank(a, hi);
    order_is_by_value(a, number(V_SET_CEILING));
    lemma_mag_value_of(0xcccccd, 123);
    lemma_mag_value_of(0x99999a, 125);
    lemma_mag_value_of(0x8c0000, 132);
    // all three in units of the smallest of their scales
    let u = pow2(123);
    lemma2_to64();
    lemma_pow2_adds(2, 123);
    lemma_pow2_adds(9, 123);
    lemma_pow2_strictly_increases(2, 123);
    let x = mag_value(a.magnitude()) + mag_value(lo.magnitude());
    let y = mag_value(a.magnitude()) + mag_value(hi.magnitude());
    assert(mag_value(lo.magnitude()) == 13421773 * u);
    assert(mag_value(hi.magnitude()) == 40265320 * u) by {
        assert(0x99999a * (4 * u) == 40265320 * u) by (nonlinear_arith);
    }
    assert(mag_value(a.magnitude()) <= 4697620480 * u) by {
        assert(0x8c0000 * (512 * u) == 4697620480 * u) by (nonlinear_arith);
    }
    assert(x < pow2(274)) by {
        lemma_pow2_adds(32, 8);
        lemma_pow2_adds(40, 123);
        let t = pow2(40);
        assert(t * u == 0x100_0000_0000 * u) by (nonlinear_arith)
            requires
                t == 0x100_0000_0000,
        ;
        lemma_pow2_strictly_increases(163, 274);
    }
    lemma_mul_basics(pow2(274) as int);
    rounds_apart(x, y, 1);
    reveal(F32::below);
}

} // verus!
