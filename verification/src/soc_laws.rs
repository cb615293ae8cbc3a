//! What the state-of-charge estimate is of: the voltage per cell, on straight lines
//! between the points of the measured curves.

use crate::battery::{
    curve_points, curve_value, first_end, on_segment, pack_soc, Chemistry, LFP_OCV, LIION_OCV,
};
use crate::battery_laws::{
    curve_meets_its_points, curves_are_rising, lemma_half_percent, lemma_rising_values,
    lemma_zero_percent,
};
use crate::float::laws::{
    decimal_is_nearest, exact_ratio_rounds_to_itself, products_are_nearest,
    rounding_error_is_bounded, sums_are_nearest,
};
use crate::float::order::{
    exact_difference, fraction_is_at_most_one, lemma_product_rank, lemma_quotient_rank,
    part_is_at_most_whole, plain, rounds_at_most,
};
use crate::float::rounding::{
    lemma_mag_monotone, lemma_mag_split, lemma_mag_value_of, lemma_round_mag, mag_value, nearest,
    round_mag,
};
use crate::float::{
    integers_are_exact, lemma_normal_form, lemma_packed, lemma_sum_rank, nearest_exists, number,
    order_is_by_value, F32,
};
use vstd::arithmetic::mul::*;
use vstd::arithmetic::power2::*;
use vstd::prelude::*;

verus! {

/// A count of cells in units.
proof fn lemma_count(n: u8)
    requires
        n > 0,
    ensures
        plain(F32::of_integer(n as nat)),
        F32::of_integer(n as nat).magnitude() > 0,
        mag_value(F32::of_integer(n as nat).magnitude()) == n * pow2(149),
        n * pow2(149) > 0,
{
    integers_are_exact(n as nat);
    lemma_pow2_pos(149);
    assert(n * pow2(149) > 0) by (nonlinear_arith)
        requires
            n > 0,
            pow2(149) > 0,
    ;
    assert(mag_value(0) == 0);
    reveal(F32::of_integer);
    nearest_exists(n as nat * pow2(149), 1);
    lemma_packed(false, round_mag(n as nat * pow2(149), 1));
}

/// A number over one is the number.
proof fn lemma_over_one(v: F32)
    requires
        v.finite(),
    ensures
        v.quotient(F32::of_integer(1)) == v,
{
    let one = F32::of_integer(1);
    lemma_count(1);
    products_are_nearest(v, one);
    let m = mag_value(v.magnitude());
    let u = pow2(149);
    lemma_mul_basics(u as int);
    exact_ratio_rounds_to_itself(m * u, u, v.magnitude());
    lemma_round_mag(v.quotient(one).magnitude(), m * u, u);
}

/// A finite voltage over a count of cells is finite.
proof fn lemma_over_count(v: F32, n: u8)
    requires
        v.finite(),
        n > 0,
    ensures
        v.quotient(F32::of_integer(n as nat)).finite(),
{
    let d = F32::of_integer(n as nat);
    lemma_count(n);
    products_are_nearest(v, d);
    let m = mag_value(v.magnitude());
    let u = pow2(149);
    assert(m * u <= m * (n * u)) by (nonlinear_arith)
        requires
            n >= 1,
            u >= 0,
            m >= 0,
    ;
    rounds_at_most(m * u, (n * u) as nat, v.magnitude());
    lemma_round_mag(v.quotient(d).magnitude(), m * u, (n * u) as nat);
}

/// The estimate of a pack is that of one of its cells at its share of the voltage:
/// cells in series share it evenly, whatever the chemistry.
pub proof fn soc_is_that_of_one_cell(chemistry: Chemistry, cells: u8, pack_voltage_v: F32)
    requires
        cells > 0,
        pack_voltage_v.finite(),
    ensures
        pack_soc(chemistry, cells, pack_voltage_v) == pack_soc(
            chemistry,
            1,
            pack_voltage_v.quotient(F32::of_integer(cells as nat)),
        ),
{
    let v = pack_voltage_v.quotient(F32::of_integer(cells as nat));
    lemma_over_count(pack_voltage_v, cells);
    lemma_over_one(v);
}

/// The estimate of a single cell is the curve at its voltage.
pub proof fn soc_of_one_cell_is_the_curve(chemistry: Chemistry, cell_v: F32)
    requires
        cell_v.finite(),
    ensures
        pack_soc(chemistry, 1, cell_v) == curve_value(chemistry.curve(), cell_v),
{
    lemma_over_one(cell_v);
}

/// Two packs of the same chemistry whose cells are at the same voltage have the same
/// estimate, however many cells each has.
pub proof fn soc_depends_on_the_cell_voltage(
    chemistry: Chemistry,
    m: u8,
    n: u8,
    v: F32,
    w: F32,
)
    requires
        m > 0,
        n > 0,
        v.finite(),
        w.finite(),
        v.quotient(F32::of_integer(m as nat)) == w.quotient(F32::of_integer(n as nat)),
    ensures
        pack_soc(chemistry, m, v) == pack_soc(chemistry, n, w),
{
    soc_is_that_of_one_cell(chemistry, m, v);
    soc_is_that_of_one_cell(chemistry, n, w);
}

/// A normal number of moderate size times a power of two is exact, and so is the way
/// back.
proof fn lemma_scaled(v: F32, n: u8, k: nat)
    requires
        plain(v),
        0x4000_0000 <= v.magnitude() < 0x4100_0000,
        n == pow2(k),
        k <= 7,
    ensures
        plain(v.product(F32::of_integer(n as nat))),
        v.product(F32::of_integer(n as nat)).quotient(F32::of_integer(n as nat)) == v,
{
    let d = F32::of_integer(n as nat);
    let p = v.product(d);
    let u = pow2(149);
    lemma_pow2_pos(k);
    lemma_count(n);
    lemma_pow2_pos(149);
    let (q, j) = lemma_mag_split(v.magnitude());
    assert(127 <= j <= 128);
    let r = (v.magnitude() + k * 0x80_0000) as nat;
    lemma_mag_value_of(q, (j + k) as nat);
    assert(r == (j + k) * 0x80_0000 + q);
    lemma_pow2_adds(j, k);
    let m = mag_value(v.magnitude());
    assert(mag_value(r) == m * n) by (nonlinear_arith)
        requires
            mag_value(r) == q * (pow2(j) * n),
            m == q * pow2(j),
    ;
    lemma_product_rank(v, d);
    assert(m * (n * u) == mag_value(r) * u) by (nonlinear_arith)
        requires
            mag_value(r) == m * n,
    ;
    exact_ratio_rounds_to_itself(m * (n * u) as nat, u, r);
    assert(p.magnitude() == r);
    lemma_quotient_rank(p, d);
    assert(mag_value(r) * u == m * (n * u)) by (nonlinear_arith)
        requires
            mag_value(r) == m * n,
    ;
    exact_ratio_rounds_to_itself(mag_value(r) * u, (n * u) as nat, v.magnitude());
}

/// The points of the curves lie between 2 and 8 V per cell.
proof fn lemma_curve_range(chemistry: Chemistry, i: int)
    requires
        0 <= i < chemistry.curve().len(),
    ensures
        plain(chemistry.curve()[i].0),
        0x4000_0000 <= chemistry.curve()[i].0.magnitude() < 0x4100_0000,
{
    curves_are_the_measured_ones(chemistry);
    curves_are_rising(chemistry);
    let c = chemistry.curve();
    let m = measured_curve(chemistry)[i];
    reveal(stands_at);
    lemma_two_volts(c[i].0.magnitude(), m.0);
}

proof fn lemma_two_volts(r: nat, mv: nat)
    requires
        2000 <= mv < 8000,
        nearest(r, mv * pow2(149), 1000),
    ensures
        0x4000_0000 <= r <= 0x4100_0000,
        mv <= 7000 ==> r < 0x4100_0000,
{
    lemma_mag_value_of(0x80_0000, 127);
    lemma_mag_value_of(0x80_0000, 129);
    lemma_mag_value_of(0xe0_0000, 128);
    lemma2_to64();
    lemma_pow2_adds(23, 127);
    lemma_pow2_adds(23, 129);
    lemma_pow2_adds(21, 128);
    lemma_pow2_adds(1, 149);
    lemma_pow2_adds(3, 149);
    let u = pow2(149);
    assert(0xe0_0000 * pow2(128) == 7 * u) by (nonlinear_arith)
        requires
            u == 0x20_0000 * pow2(128),
    ;
    lemma_round_mag(r, mv * u, 1000);
    assert(mv * u >= (2 * u) * 1000) by (nonlinear_arith)
        requires
            mv >= 2000,
            u >= 0,
    ;
    assert(mv * u <= (8 * u) * 1000) by (nonlinear_arith)
        requires
            mv <= 8000,
            u >= 0,
    ;
    crate::float::order::rounds_at_least(mv * u, 1000, 0x4000_0000);
    rounds_at_most(mv * u, 1000, 0x4100_0000);
    if mv <= 7000 {
        assert(mv * u <= (7 * u) * 1000) by (nonlinear_arith)
            requires
                mv <= 7000,
                u >= 0,
        ;
        rounds_at_most(mv * u, 1000, 128 * 0x80_0000 + 0xe0_0000);
    }
}

/// A pack of a power of two of cells, each at a point of the curve, has the estimate of
/// that point.
pub proof fn soc_of_a_pack_meets_the_curve(chemistry: Chemistry, cells: u8, k: nat, i: int)
    requires
        cells == pow2(k),
        k <= 7,
        0 <= i < chemistry.curve().len(),
    ensures
        pack_soc(
            chemistry,
            cells,
            chemistry.curve()[i].0.product(F32::of_integer(cells as nat)),
        ).same_value(chemistry.curve()[i].1),
{
    lemma_pow2_pos(k);
    lemma_curve_range(chemistry, i);
    lemma_scaled(chemistry.curve()[i].0, cells, k);
    curves_are_rising(chemistry);
    curve_meets_its_points(chemistry.curve(), i);
}

/// The measured curves: millivolts per cell at rest, and half percents.
pub open spec fn measured_curve(chemistry: Chemistry) -> Seq<(nat, nat)> {
    match chemistry {
        Chemistry::LiFePo4 | Chemistry::LiFePo4TopBalance => seq![
            (2500, 0),
            (2540, 1),
            (2800, 10),
            (3000, 19),
            (3050, 30),
            (3200, 40),
            (3230, 60),
            (3250, 80),
            (3260, 100),
            (3280, 120),
            (3300, 140),
            (3330, 160),
            (3350, 180),
            (3380, 198),
            (3450, 199),
            (3650, 200),
        ],
        Chemistry::LiIon => seq![
            (3000, 0),
            (3400, 10),
            (3500, 20),
            (3570, 40),
            (3630, 60),
            (3700, 80),
            (3750, 100),
            (3820, 120),
            (3900, 140),
            (3980, 160),
            (4080, 180),
            (4150, 190),
            (4200, 200),
        ],
    }
}

/// A point of a curve from its decimals.
proof fn lemma_point(bits: u32, mv: nat, q: nat, j: nat)
    requires
        j == 127 || j == 128,
        bits == j * 0x80_0000 + q,
        0x80_0000 < q < 0x100_0000,
        j == 127 ==> 2000 * q < mv * 0x80_0000 + 1000 && mv * 0x80_0000 < 2000 * q + 1000,
        j == 128 ==> 2000 * q < mv * 0x40_0000 + 1000 && mv * 0x40_0000 < 2000 * q + 1000,
    ensures
        nearest(number(bits).magnitude(), mv * pow2(149), 1000),
{
    lemma2_to64();
    if j == 127 {
        decimal_is_nearest(mv, 1000, q, j, 0x40_0000);
    } else {
        decimal_is_nearest(mv, 1000, q, j, 0x20_0000);
    }
}

/// A point of a curve at its decimals: millivolts and half percents.
#[verifier::opaque]
pub open spec fn stands_at(point: (F32, F32), measured: (nat, nat)) -> bool {
    &&& 2500 <= measured.0 <= 4200
    &&& measured.1 <= 200
    &&& nearest(point.0.magnitude(), measured.0 * pow2(149), 1000)
    &&& point.1.scaled() == measured.1 * pow2(148)
}

proof fn lemma_stands_at(v: u32, soc: u32, mv: nat, q: nat, j: nat, half: nat, k: nat)
    requires
        2500 <= mv <= 4200,
        half <= 200,
        j == 127 || j == 128,
        v == j * 0x80_0000 + q,
        0x80_0000 < q < 0x100_0000,
        j == 127 ==> 2000 * q < mv * 0x80_0000 + 1000 && mv * 0x80_0000 < 2000 * q + 1000,
        j == 128 ==> 2000 * q < mv * 0x40_0000 + 1000 && mv * 0x40_0000 < 2000 * q + 1000,
        half == 0 ==> soc == 0,
        half > 0 ==> k <= 23 && 0x80_0000 <= half * small_power(k) < 0x100_0000 && soc == (149 - k)
            * 0x80_0000 + half * small_power(k) - 0x80_0000,
    ensures
        stands_at((number(v), number(soc)), (mv, half)),
{
    reveal(stands_at);
    lemma_point(v, mv, q, j);
    lemma2_to64();
    if half == 0 {
        lemma_zero_percent();
    } else {
        lemma_half_percent(soc, half, k);
    }
}

/// The powers of two that the curves need.
spec fn small_power(k: nat) -> nat {
    if k == 16 {
        0x1_0000
    } else if k == 17 {
        0x2_0000
    } else if k == 18 {
        0x4_0000
    } else if k == 19 {
        0x8_0000
    } else if k == 20 {
        0x10_0000
    } else if k == 23 {
        0x80_0000
    } else {
        0
    }
}

proof fn lemma_lfp_points()
    ensures
        curve_points(LFP_OCV@).len() == measured_curve(Chemistry::LiFePo4).len(),
        forall|i: int|
            0 <= i < curve_points(LFP_OCV@).len() ==> stands_at(
                curve_points(LFP_OCV@)[i],
                #[trigger] measured_curve(Chemistry::LiFePo4)[i],
            ),
{
    let c = curve_points(LFP_OCV@);
    let m = measured_curve(Chemistry::LiFePo4);
    lemma_stands_at(0x4020_0000, 0x0000_0000, 2500, 0xa00000, 127, 0, 0);
    assert(c[0] == (number(0x4020_0000), number(0x0000_0000)) && m[0] == (2500nat, 0nat));
    lemma_stands_at(0x4022_8f5c, 0x3f00_0000, 2540, 0xa28f5c, 127, 1, 23);
    assert(c[1] == (number(0x4022_8f5c), number(0x3f00_0000)) && m[1] == (2540nat, 1nat));
    lemma_stands_at(0x4033_3333, 0x40a0_0000, 2800, 0xb33333, 127, 10, 20);
    assert(c[2] == (number(0x4033_3333), number(0x40a0_0000)) && m[2] == (2800nat, 10nat));
    lemma_stands_at(0x4040_0000, 0x4118_0000, 3000, 0xc00000, 127, 19, 19);
    assert(c[3] == (number(0x4040_0000), number(0x4118_0000)) && m[3] == (3000nat, 19nat));
    lemma_stands_at(0x4043_3333, 0x4170_0000, 3050, 0xc33333, 127, 30, 19);
    assert(c[4] == (number(0x4043_3333), number(0x4170_0000)) && m[4] == (3050nat, 30nat));
    lemma_stands_at(0x404c_cccd, 0x41a0_0000, 3200, 0xcccccd, 127, 40, 18);
    assert(c[5] == (number(0x404c_cccd), number(0x41a0_0000)) && m[5] == (3200nat, 40nat));
    lemma_stands_at(0x404e_b852, 0x41f0_0000, 3230, 0xceb852, 127, 60, 18);
    assert(c[6] == (number(0x404e_b852), number(0x41f0_0000)) && m[6] == (3230nat, 60nat));
    lemma_stands_at(0x4050_0000, 0x4220_0000, 3250, 0xd00000, 127, 80, 17);
    assert(c[7] == (number(0x4050_0000), number(0x4220_0000)) && m[7] == (3250nat, 80nat));
    lemma_stands_at(0x4050_a3d7, 0x4248_0000, 3260, 0xd0a3d7, 127, 100, 17);
    assert(c[8] == (number(0x4050_a3d7), number(0x4248_0000)) && m[8] == (3260nat, 100nat));
    lemma_stands_at(0x4051_eb85, 0x4270_0000, 3280, 0xd1eb85, 127, 120, 17);
    assert(c[9] == (number(0x4051_eb85), number(0x4270_0000)) && m[9] == (3280nat, 120nat));
    lemma_stands_at(0x4053_3333, 0x428c_0000, 3300, 0xd33333, 127, 140, 16);
    assert(c[10] == (number(0x4053_3333), number(0x428c_0000)) && m[10] == (3300nat, 140nat));
    lemma_stands_at(0x4055_1eb8, 0x42a0_0000, 3330, 0xd51eb8, 127, 160, 16);
    assert(c[11] == (number(0x4055_1eb8), number(0x42a0_0000)) && m[11] == (3330nat, 160nat));
    lemma_stands_at(0x4056_6666, 0x42b4_0000, 3350, 0xd66666, 127, 180, 16);
    assert(c[12] == (number(0x4056_6666), number(0x42b4_0000)) && m[12] == (3350nat, 180nat));
    lemma_stands_at(0x4058_51ec, 0x42c6_0000, 3380, 0xd851ec, 127, 198, 16);
    assert(c[13] == (number(0x4058_51ec), number(0x42c6_0000)) && m[13] == (3380nat, 198nat));
    lemma_stands_at(0x405c_cccd, 0x42c7_0000, 3450, 0xdccccd, 127, 199, 16);
    assert(c[14] == (number(0x405c_cccd), number(0x42c7_0000)) && m[14] == (3450nat, 199nat));
    lemma_stands_at(0x4069_999a, 0x42c8_0000, 3650, 0xe9999a, 127, 200, 16);
    assert(c[15] == (number(0x4069_999a), number(0x42c8_0000)) && m[15] == (3650nat, 200nat));
    assert forall|i: int| 0 <= i < 16 implies stands_at(c[i], #[trigger] m[i]) by {
        if i == 0 {
            assert(stands_at(c[0], m[0]));
        } else if i == 1 {
            assert(stands_at(c[1], m[1]));
        } else if i == 2 {
            assert(stands_at(c[2], m[2]));
        } else if i == 3 {
            assert(stands_at(c[3], m[3]));
        } else if i == 4 {
            assert(stands_at(c[4], m[4]));
        } else if i == 5 {
            assert(stands_at(c[5], m[5]));
        } else if i == 6 {
            assert(stands_at(c[6], m[6]));
        } else if i == 7 {
            assert(stands_at(c[7], m[7]));
        } else if i == 8 {
            assert(stands_at(c[8], m[8]));
        } else if i == 9 {
            assert(stands_at(c[9], m[9]));
        } else if i == 10 {
            assert(stands_at(c[10], m[10]));
        } else if i == 11 {
            assert(stands_at(c[11], m[11]));
        } else if i == 12 {
            assert(stands_at(c[12], m[12]));
        } else if i == 13 {
            assert(stands_at(c[13], m[13]));
        } else if i == 14 {
            assert(stands_at(c[14], m[14]));
        } else if i == 15 {
            assert(stands_at(c[15], m[15]));
        }
    }
}

proof fn lemma_liion_points()
    ensures
        curve_points(LIION_OCV@).len() == measured_curve(Chemistry::LiIon).len(),
        forall|i: int|
            0 <= i < curve_points(LIION_OCV@).len() ==> stands_at(
                curve_points(LIION_OCV@)[i],
                #[trigger] measured_curve(Chemistry::LiIon)[i],
            ),
{
    let c = curve_points(LIION_OCV@);
    let m = measured_curve(Chemistry::LiIon);
    lemma_stands_at(0x4040_0000, 0x0000_0000, 3000, 0xc00000, 127, 0, 0);
    assert(c[0] == (number(0x4040_0000), number(0x0000_0000)) && m[0] == (3000nat, 0nat));
    lemma_stands_at(0x4059_999a, 0x40a0_0000, 3400, 0xd9999a, 127, 10, 20);
    assert(c[1] == (number(0x4059_999a), number(0x40a0_0000)) && m[1] == (3400nat, 10nat));
    lemma_stands_at(0x4060_0000, 0x4120_0000, 3500, 0xe00000, 127, 20, 19);
    assert(c[2] == (number(0x4060_0000), number(0x4120_0000)) && m[2] == (3500nat, 20nat));
    lemma_stands_at(0x4064_7ae1, 0x41a0_0000, 3570, 0xe47ae1, 127, 40, 18);
    assert(c[3] == (number(0x4064_7ae1), number(0x41a0_0000)) && m[3] == (3570nat, 40nat));
    lemma_stands_at(0x4068_51ec, 0x41f0_0000, 3630, 0xe851ec, 127, 60, 18);
    assert(c[4] == (number(0x4068_51ec), number(0x41f0_0000)) && m[4] == (3630nat, 60nat));
    lemma_stands_at(0x406c_cccd, 0x4220_0000, 3700, 0xeccccd, 127, 80, 17);
    assert(c[5] == (number(0x406c_cccd), number(0x4220_0000)) && m[5] == (3700nat, 80nat));
    lemma_stands_at(0x4070_0000, 0x4248_0000, 3750, 0xf00000, 127, 100, 17);
    assert(c[6] == (number(0x4070_0000), number(0x4248_0000)) && m[6] == (3750nat, 100nat));
    lemma_stands_at(0x4074_7ae1, 0x4270_0000, 3820, 0xf47ae1, 127, 120, 17);
    assert(c[7] == (number(0x4074_7ae1), number(0x4270_0000)) && m[7] == (3820nat, 120nat));
    lemma_stands_at(0x4079_999a, 0x428c_0000, 3900, 0xf9999a, 127, 140, 16);
    assert(c[8] == (number(0x4079_999a), number(0x428c_0000)) && m[8] == (3900nat, 140nat));
    lemma_stands_at(0x407e_b852, 0x42a0_0000, 3980, 0xfeb852, 127, 160, 16);
    assert(c[9] == (number(0x407e_b852), number(0x42a0_0000)) && m[9] == (3980nat, 160nat));
    lemma_stands_at(0x4082_8f5c, 0x42b4_0000, 4080, 0x828f5c, 128, 180, 16);
    assert(c[10] == (number(0x4082_8f5c), number(0x42b4_0000)) && m[10] == (4080nat, 180nat));
    lemma_stands_at(0x4084_cccd, 0x42be_0000, 4150, 0x84cccd, 128, 190, 16);
    assert(c[11] == (number(0x4084_cccd), number(0x42be_0000)) && m[11] == (4150nat, 190nat));
    lemma_stands_at(0x4086_6666, 0x42c8_0000, 4200, 0x866666, 128, 200, 16);
    assert(c[12] == (number(0x4086_6666), number(0x42c8_0000)) && m[12] == (4200nat, 200nat));
    assert forall|i: int| 0 <= i < 13 implies stands_at(c[i], #[trigger] m[i]) by {
        if i == 0 {
            assert(stands_at(c[0], m[0]));
        } else if i == 1 {
            assert(stands_at(c[1], m[1]));
        } else if i == 2 {
            assert(stands_at(c[2], m[2]));
        } else if i == 3 {
            assert(stands_at(c[3], m[3]));
        } else if i == 4 {
            assert(stands_at(c[4], m[4]));
        } else if i == 5 {
            assert(stands_at(c[5], m[5]));
        } else if i == 6 {
            assert(stands_at(c[6], m[6]));
        } else if i == 7 {
            assert(stands_at(c[7], m[7]));
        } else if i == 8 {
            assert(stands_at(c[8], m[8]));
        } else if i == 9 {
            assert(stands_at(c[9], m[9]));
        } else if i == 10 {
            assert(stands_at(c[10], m[10]));
        } else if i == 11 {
            assert(stands_at(c[11], m[11]));
        } else if i == 12 {
            assert(stands_at(c[12], m[12]));
        }
    }
}

/// The curves are the measured ones: each voltage is the number nearest to its decimal,
/// each state of charge is exact.
pub proof fn curves_are_the_measured_ones(chemistry: Chemistry)
    ensures
        chemistry.curve().len() == measured_curve(chemistry).len(),
        forall|i: int|
            0 <= i < chemistry.curve().len() ==> stands_at(
                chemistry.curve()[i],
                #[trigger] measured_curve(chemistry)[i],
            ),
{
    lemma_lfp_points();
    lemma_liion_points();
}

/// Voltages of 2 to 8 V per cell are whole numbers of the same step, so that their
/// differences are exact.
proof fn lemma_step_of(v: F32) -> (n: nat)
    requires
        plain(v),
        0x4000_0000 <= v.magnitude() < 0x4100_0000,
    ensures
        mag_value(v.magnitude()) == n * pow2(127),
        n < 0x200_0000,
{
    let (q, j) = lemma_mag_split(v.magnitude());
    assert(127 <= j <= 128);
    if j == 128 {
        lemma_pow2_unfold(128);
        assert(q * (2 * pow2(127)) == (2 * q) * pow2(127)) by (nonlinear_arith);
        2 * q
    } else {
        q
    }
}

proof fn lemma_volts_apart(a: F32, b: F32)
    requires
        plain(a),
        plain(b),
        0x4000_0000 <= b.magnitude(),
        a.magnitude() < 0x4090_0000,
        b.below(a),
    ensures
        plain(a.difference(b)),
        mag_value(a.difference(b).magnitude()) == mag_value(a.magnitude()) - mag_value(
            b.magnitude(),
        ),
        mag_value(a.difference(b).magnitude()) > 0,
{
    assert(b.magnitude() < a.magnitude()) by {
        reveal(F32::below);
    }
    let m = lemma_step_of(a);
    let n = lemma_step_of(b);
    let u = pow2(127);
    order_is_by_value(b, a);
    lemma_pow2_pos(127);
    assert(n < m) by (nonlinear_arith)
        requires
            n * u < m * u,
            u > 0,
    ;
    // below 4.5 V and from 2 V on the two are less than 2^24 steps apart
    lemma_mag_value_of(0x90_0000, 128);
    lemma_mag_value_of(0x80_0000, 127);
    lemma_pow2_unfold(128);
    lemma_mag_monotone(a.magnitude(), 0x4090_0000);
    if b.magnitude() > 0x4000_0000 {
        lemma_mag_monotone(0x4000_0000, b.magnitude());
    }
    assert(m < 0x120_0000 && n >= 0x80_0000) by (nonlinear_arith)
        requires
            m * u < 0x90_0000 * (2 * u),
            n * u >= 0x80_0000 * u,
            u > 0,
    ;
    let d = (m - n) as nat;
    assert(d * u == m * u - n * u) by (nonlinear_arith)
        requires
            d == m - n,
    ;
    let (q, j) = lemma_normal_form(d, 127);
    lemma_mag_value_of(q, j);
    exact_difference(a, b, j * 0x80_0000 + q);
    assert(d * u > 0) by (nonlinear_arith)
        requires
            d > 0,
            u > 0,
    ;
}

/// A point on a segment lies on the straight line through its ends, but for the
/// rounding: less than a ten-thousandth of a percent.
proof fn lemma_on_the_line(lo: (F32, F32), hi: (F32, F32), v: F32, a: nat, b: nat)
    requires
        plain(lo.0) && plain(hi.0) && plain(v) && plain(lo.1) && plain(hi.1),
        0x4000_0000 <= lo.0.magnitude(),
        hi.0.magnitude() < 0x4090_0000,
        lo.0.below(v),
        v.at_most(hi.0),
        a < b <= 200,
        b - a <= 20,
        lo.1.scaled() == a * pow2(148),
        hi.1.scaled() == b * pow2(148),
    ensures
        near_the_line(lo, hi, v, on_segment(lo, hi, v)),
{
    let u = pow2(149);
    let h = pow2(148);
    lemma_pow2_unfold(149);
    lemma_pow2_pos(148);
    reveal(F32::below);
    reveal(F32::at_most);
    lemma_volts_apart(v, lo.0);
    lemma_volts_apart(hi.0, lo.0);
    let av = v.difference(lo.0);
    let dv = hi.0.difference(lo.0);
    let x = mag_value(av.magnitude());
    let d = mag_value(dv.magnitude());
    order_is_by_value(v, hi.0);
    assert(x <= d);
    // the step of the state of charge is exact
    order_is_by_value(lo.1, hi.1);
    assert(a * h < b * h) by (nonlinear_arith)
        requires
            a < b,
            h > 0,
    ;
    let n = (b - a) as nat;
    assert(n * h == b * h - a * h) by (nonlinear_arith)
        requires
            n == b - a,
    ;
    let (q, j) = lemma_normal_form(n, 148);
    lemma_mag_value_of(q, j);
    exact_difference(hi.1, lo.1, j * 0x80_0000 + q);
    let sv = hi.1.difference(lo.1);
    let s = mag_value(sv.magnitude());
    assert(s == n * h);
    // the share of the segment
    let tv = av.quotient(dv);
    assert(av.at_most(dv)) by {
        order_is_by_value(av, dv);
    }
    assert(av.magnitude() > 0 && dv.magnitude() > 0) by {
        assert(mag_value(0) == 0);
    }
    fraction_is_at_most_one(av, dv);
    lemma_quotient_rank(av, dv);
    let t = mag_value(tv.magnitude());
    lemma_pow2_adds(125, 24);
    assert(x * u <= pow2(149) * d) by (nonlinear_arith)
        requires
            x <= d,
            u == pow2(149),
    ;
    rounding_error_is_bounded(x * u, d, 125);
    // of the step
    let xv = tv.product(sv);
    part_is_at_most_whole(tv, sv);
    lemma_product_rank(tv, sv);
    let y = mag_value(xv.magnitude());
    crate::float::order::lemma_one();
    if tv.magnitude() < crate::float::order::ONE_MAG {
        lemma_mag_monotone(tv.magnitude(), crate::float::order::ONE_MAG as nat);
    }
    assert(t <= u);
    lemma2_to64();
    lemma_pow2_adds(4, 149);
    assert(s <= 10 * u) by (nonlinear_arith)
        requires
            s == n * h,
            n <= 20,
            u == 2 * h,
            h > 0,
    ;
    assert(t * s <= pow2(153) * u) by (nonlinear_arith)
        requires
            t <= u,
            s <= 10 * u,
            pow2(153) == 16 * u,
            u >= 0,
            t >= 0,
    ;
    rounding_error_is_bounded(t * s, u, 129);
    if xv.magnitude() < sv.magnitude() {
        lemma_mag_monotone(xv.magnitude(), sv.magnitude());
    }
    assert(y <= s);
    // and the sum
    let rv = lo.1.sum(xv);
    lemma_sum_rank(lo.1, xv);
    sums_are_nearest(lo.1, xv);
    let l = mag_value(lo.1.magnitude());
    let exact = (l + y) as nat;
    assert(exact <= 100 * u) by (nonlinear_arith)
        requires
            exact <= a * h + n * h,
            a + n <= 200,
            u == 2 * h,
            h > 0,
            a >= 0,
            n >= 0,
    ;
    lemma_pow2_adds(7, 149);
    lemma_mul_basics(pow2(156) as int);
    lemma_mul_basics(pow2(132) as int);
    rounding_error_is_bounded(exact, 1, 132);
    lemma_round_mag(rv.magnitude(), exact, 1);
    let r = mag_value(rv.magnitude());
    lemma_mul_basics(r as int);
    assert(rv.scaled() == r) by {
        if exact == 0 {
            assert(mag_value(0) == 0);
        }
    }
    lemma_pow2_adds(20, 129);
    lemma_pow2_adds(4, 125);
    lemma_pow2_adds(3, 129);
    lemma_error_adds_up(x, d, s, t, y, l, r, u, pow2(125));
    assert(lo.1.scaled() == l && hi.1.scaled() - lo.1.scaled() == s);
    assert(v.scaled() - lo.0.scaled() == x && hi.0.scaled() - lo.0.scaled() == d);
}

/// The errors of the three roundings together.
proof fn lemma_error_adds_up(
    x: nat,
    d: nat,
    s: nat,
    t: nat,
    y: nat,
    l: nat,
    r: nat,
    u: nat,
    e: nat,
)
    requires
        u == 0x100_0000 * e,
        e > 0,
        d > 0,
        s <= 10 * u,
        2 * (t * d) <= 2 * (x * u) + e * d,
        2 * (x * u) <= 2 * (t * d) + e * d,
        2 * (y * u) <= 2 * (t * s) + (16 * e) * u,
        2 * (t * s) <= 2 * (y * u) + (16 * e) * u,
        2 * r <= 2 * (l + y) + 128 * e,
        2 * (l + y) <= 2 * r + 128 * e,
    ensures
        ({
            let err = (r - l) * d - x * s;
            &&& err * 10000 <= d * u
            &&& -err * 10000 <= d * u
        }),
{
    let k = r - l;
    let err = k * d - x * s;
    // (2 k - 2 y) d is at most 128 e d
    assert(2 * (k * d) - 2 * (y * d) <= 128 * (e * d)) by (nonlinear_arith)
        requires
            2 * k - 2 * y <= 128 * e,
            d > 0,
    ;
    assert(2 * (y * d) - 2 * (k * d) <= 128 * (e * d)) by (nonlinear_arith)
        requires
            2 * y - 2 * k <= 128 * e,
            d > 0,
    ;
    let yd = y * d;
    let ts = t * s;
    let xs = x * s;
    // multiply by u throughout
    assert(2 * (yd * u) - 2 * (ts * d) <= 16 * ((e * u) * d)) by (nonlinear_arith)
        requires
            2 * (y * u) <= 2 * (t * s) + (16 * e) * u,
            yd == y * d,
            ts == t * s,
            d > 0,
    ;
    assert(2 * (ts * d) - 2 * (yd * u) <= 16 * ((e * u) * d)) by (nonlinear_arith)
        requires
            2 * (t * s) <= 2 * (y * u) + (16 * e) * u,
            yd == y * d,
            ts == t * s,
            d > 0,
    ;
    assert(2 * (ts * d) - 2 * (xs * u) <= (e * d) * s) by (nonlinear_arith)
        requires
            2 * (t * d) <= 2 * (x * u) + e * d,
            ts == t * s,
            xs == x * s,
            s >= 0,
    ;
    assert(2 * (xs * u) - 2 * (ts * d) <= (e * d) * s) by (nonlinear_arith)
        requires
            2 * (x * u) <= 2 * (t * d) + e * d,
            ts == t * s,
            xs == x * s,
            s >= 0,
    ;
    let f = e * d;
    assert(f * s <= 10 * (f * u)) by (nonlinear_arith)
        requires
            s <= 10 * u,
            f >= 0,
    ;
    assert((e * u) * d == f * u) by (nonlinear_arith)
        requires
            f == e * d,
    ;
    assert(2 * (yd * u) - 2 * (xs * u) <= 26 * (f * u));
    assert(2 * (xs * u) - 2 * (yd * u) <= 26 * (f * u));
    assert(2 * yd - 2 * xs <= 26 * f) by (nonlinear_arith)
        requires
            2 * (yd * u) - 2 * (xs * u) <= 26 * (f * u),
            u > 0,
    ;
    assert(2 * xs - 2 * yd <= 26 * f) by (nonlinear_arith)
        requires
            2 * (xs * u) - 2 * (yd * u) <= 26 * (f * u),
            u > 0,
    ;
    assert(2 * err <= 154 * f && -2 * err <= 154 * f);
    assert(d * u == 0x100_0000 * f) by (nonlinear_arith)
        requires
            u == 0x100_0000 * e,
            f == e * d,
    ;
}

/// `soc` lies on the straight line through two points of a curve at `v`, to within a
/// ten-thousandth of a percent: cross-multiplied, in units.
pub open spec fn near_the_line(lo: (F32, F32), hi: (F32, F32), v: F32, soc: F32) -> bool {
    let run = hi.0.scaled() - lo.0.scaled();
    let err = (soc.scaled() - lo.1.scaled()) * run - (v.scaled() - lo.0.scaled()) * (
    hi.1.scaled() - lo.1.scaled());
    &&& err * 10000 <= run * pow2(149)
    &&& -err * 10000 <= run * pow2(149)
}

/// Between two neighbouring points of a chemistry's curve the estimate of a cell lies
/// on the straight line through them, to within a ten-thousandth of a percent.
pub proof fn soc_is_linear_between_points(chemistry: Chemistry, cell_v: F32, i: int)
    requires
        1 <= i < chemistry.curve().len(),
        chemistry.curve()[i - 1].0.below(cell_v),
        cell_v.at_most(chemistry.curve()[i].0),
    ensures
        near_the_line(
            chemistry.curve()[i - 1],
            chemistry.curve()[i],
            cell_v,
            pack_soc(chemistry, 1, cell_v),
        ),
{
    let c = chemistry.curve();
    let n = c.len() - 1;
    curves_are_rising(chemistry);
    curves_are_the_measured_ones(chemistry);
    lemma_curve_range(chemistry, i - 1);
    lemma_curve_range(chemistry, i);
    let m_lo = measured_curve(chemistry)[i - 1];
    let m_hi = measured_curve(chemistry)[i];
    reveal(stands_at);
    assert(plain(cell_v)) by {
        reveal(F32::below);
        reveal(F32::at_most);
    }
    soc_of_one_cell_is_the_curve(chemistry, cell_v);
    lemma_rising_values(c, 0, i - 1);
    lemma_rising_values(c, i, n);
    assert(!cell_v.at_most(c[0].0)) by {
        reveal(F32::below);
        reveal(F32::at_most);
    }
    if c.last().0.at_most(cell_v) {
        assert(plain(c[n].0) && i == n) by {
            reveal(F32::below);
            reveal(F32::at_most);
        }
        order_is_by_value(c[n].0, cell_v);
        order_is_by_value(cell_v, c[n].0);
        let run = c[i].0.scaled() - c[i - 1].0.scaled();
        let rise = c[i].1.scaled() - c[i - 1].1.scaled();
        lemma_mul_is_commutative(run, rise);
        order_is_by_value(c[i - 1].0, c[i].0);
        assert(c[i - 1].0.below(c[i].0));
        lemma_pow2_pos(149);
        assert(run * pow2(149) >= 0) by (nonlinear_arith)
            requires
                run > 0,
                pow2(149) > 0,
        ;
    } else {
        assert forall|j: int| 1 <= j < i implies !cell_v.at_most((#[trigger] c[j]).0) by {
            lemma_rising_values(c, j, i - 1);
            reveal(F32::below);
            reveal(F32::at_most);
        }
        assert(first_end(c, cell_v, i));
        let k = choose|k: int| first_end(c, cell_v, k);
        assert(first_end(c, cell_v, k));
        if k < i {
            assert(!cell_v.at_most(c[k].0));
        } else if i < k {
            assert(!cell_v.at_most(c[i].0));
        }
        lemma_steps(chemistry, i);
        lemma_on_the_line(c[i - 1], c[i], cell_v, m_lo.1, m_hi.1);
    }
}

/// Neighbouring points are at most ten percent apart, and all of them below 4.5 V.
proof fn lemma_steps(chemistry: Chemistry, i: int)
    requires
        1 <= i < chemistry.curve().len(),
    ensures
        measured_curve(chemistry)[i - 1].1 < measured_curve(chemistry)[i].1,
        measured_curve(chemistry)[i].1 - measured_curve(chemistry)[i - 1].1 <= 20,
        chemistry.curve()[i].0.magnitude() < 0x4090_0000,
{
    curves_are_the_measured_ones(chemistry);
    lemma_below_top(chemistry.curve()[i], measured_curve(chemistry)[i]);
    lemma_measured_steps(chemistry, i);
}

proof fn lemma_measured_steps(chemistry: Chemistry, i: int)
    requires
        1 <= i < measured_curve(chemistry).len(),
    ensures
        measured_curve(chemistry)[i - 1].1 < measured_curve(chemistry)[i].1,
        measured_curve(chemistry)[i].1 - measured_curve(chemistry)[i - 1].1 <= 20,
{
}

proof fn lemma_below_top(point: (F32, F32), measured: (nat, nat))
    requires
        stands_at(point, measured),
    ensures
        point.0.magnitude() < 0x4090_0000,
{
    reveal(stands_at);
    let u = pow2(149);
    lemma_round_mag(point.0.magnitude(), measured.0 * u, 1000);
    // 4.25 V
    lemma_mag_value_of(0x88_0000, 128);
    lemma2_to64();
    lemma_pow2_adds(21, 128);
    let m = measured.0;
    assert(m * u <= (0x88_0000 * pow2(128)) * 1000) by (nonlinear_arith)
        requires
            m <= 4200,
            u == 0x20_0000 * pow2(128),
            pow2(128) >= 0,
    ;
    rounds_at_most(m * u, 1000, 128 * 0x80_0000 + 0x88_0000);
}

} // verus!
