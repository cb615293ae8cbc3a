//! What holds of the state-of-charge estimate for every voltage.

use crate::battery::{
    curve_points, curve_value, first_end, on_segment, pack_soc, Chemistry, LFP_OCV, LIION_OCV,
};
use crate::float::order::{
    difference_is_positive, difference_keeps_order, exact_difference, exact_sum,
    fraction_is_at_most_one, lemma_quotient_rank, part_is_at_most_whole, plain,
    product_keeps_order, quotient_keeps_order, rounds_at_most, sum_is_at_least,
    sum_keeps_order_right,
};
use crate::float::rounding::{lemma_mag_value_of, mag_value, INFINITE_MAG};
use crate::float::{
    integers_are_exact, lemma_packed, number, order_is_by_value, order_is_total,
    order_is_transitive, F32,
};
use vstd::arithmetic::mul::*;
use vstd::arithmetic::power2::*;
use vstd::prelude::*;

verus! {

/// The bits of 100.
pub const HUNDRED: u32 = 0x42c8_0000;

/// The last point of a segment is met: the line through both ends gives the upper
/// one at its end.
pub open spec fn closes(lo: (F32, F32), hi: (F32, F32)) -> bool {
    lo.1.sum(hi.1.difference(lo.1)).same_value(hi.1)
}

/// Both coordinates rise from point to point, and every segment meets its end.
pub open spec fn rising(curve: Seq<(F32, F32)>) -> bool {
    &&& curve.len() >= 2
    &&& forall|i: int| 0 <= i < curve.len() ==> plain((#[trigger] curve[i]).0) && plain(curve[i].1)
    &&& forall|i: int|
        1 <= i < curve.len() ==> curve[i - 1].0.below((#[trigger] curve[i]).0)
            && curve[i - 1].1.below(curve[i].1) && closes(curve[i - 1], curve[i])
}

/// A voltage above a plain one and at most a finite one is plain.
proof fn lemma_between(lo: F32, v: F32, hi: F32)
    requires
        plain(lo),
        plain(hi),
        lo.below(v),
        v.at_most(hi),
    ensures
        plain(v),
{
    reveal(F32::below);
    reveal(F32::at_most);
}

/// Within a segment the estimate lies between the values at its ends, and at the
/// upper end it is the upper value.
proof fn lemma_segment(lo: (F32, F32), hi: (F32, F32), v: F32)
    requires
        plain(lo.0),
        plain(hi.0),
        plain(lo.1),
        plain(hi.1),
        lo.0.below(hi.0),
        lo.1.below(hi.1),
        closes(lo, hi),
        lo.0.below(v),
        v.at_most(hi.0),
    ensures
        lo.1.at_most(on_segment(lo, hi, v)),
        on_segment(lo, hi, v).at_most(hi.1),
        v == hi.0 ==> on_segment(lo, hi, v).same_value(hi.1),
{
    lemma_between(lo.0, v, hi.0);
    let a = v.difference(lo.0);
    let d = hi.0.difference(lo.0);
    let s = hi.1.difference(lo.1);
    difference_is_positive(v, lo.0);
    difference_is_positive(hi.0, lo.0);
    difference_is_positive(hi.1, lo.1);
    difference_keeps_order(v, hi.0, lo.0);
    fraction_is_at_most_one(a, d);
    let t = a.quotient(d);
    part_is_at_most_whole(t, s);
    let x = t.product(s);
    sum_is_at_least(lo.1, x);
    assert(x.at_most(s)) by {
        reveal(F32::at_most);
    }
    sum_keeps_order_right(lo.1, x, s);
    let top = lo.1.sum(s);
    lemma_at_most_same(lo.1.sum(x), top, hi.1);
    if v == hi.0 {
        assert(x == s);
    }
}

proof fn lemma_at_most_same(a: F32, b: F32, c: F32)
    requires
        a.at_most(b),
        b.same_value(c),
    ensures
        a.at_most(c),
{
    reveal(F32::at_most);
    reveal(F32::same_value);
}

/// Within a segment a higher voltage has no lower estimate.
proof fn lemma_segment_order(lo: (F32, F32), hi: (F32, F32), v: F32, w: F32)
    requires
        plain(lo.0),
        plain(hi.0),
        plain(lo.1),
        plain(hi.1),
        lo.0.below(hi.0),
        lo.1.below(hi.1),
        lo.0.below(v),
        v.at_most(w),
        w.at_most(hi.0),
    ensures
        on_segment(lo, hi, v).at_most(on_segment(lo, hi, w)),
{
    order_is_transitive(lo.0, v, w);
    order_is_transitive(v, w, hi.0);
    lemma_between(lo.0, v, hi.0);
    lemma_between(lo.0, w, hi.0);
    let d = hi.0.difference(lo.0);
    let s = hi.1.difference(lo.1);
    difference_is_positive(v, lo.0);
    difference_is_positive(w, lo.0);
    difference_is_positive(hi.0, lo.0);
    difference_is_positive(hi.1, lo.1);
    difference_keeps_order(v, w, lo.0);
    difference_keeps_order(v, hi.0, lo.0);
    difference_keeps_order(w, hi.0, lo.0);
    let a = v.difference(lo.0);
    let b = w.difference(lo.0);
    fraction_is_at_most_one(a, d);
    fraction_is_at_most_one(b, d);
    quotient_keeps_order(a, b, d);
    part_is_at_most_whole(a.quotient(d), s);
    part_is_at_most_whole(b.quotient(d), s);
    product_keeps_order(a.quotient(d), b.quotient(d), s);
    sum_keeps_order_right(lo.1, a.quotient(d).product(s), b.quotient(d).product(s));
}

/// A later point of a rising curve has no smaller value.
pub(crate) proof fn lemma_rising_values(curve: Seq<(F32, F32)>, i: int, j: int)
    requires
        rising(curve),
        0 <= i <= j < curve.len(),
    ensures
        curve[i].1.at_most(curve[j].1),
        i < j ==> curve[i].0.below(curve[j].0),
    decreases j - i,
{
    reveal(F32::at_most);
    if i < j {
        lemma_rising_values(curve, i, j - 1);
        assert(curve[j - 1].1.below(curve[j].1));
        assert(curve[j - 1].0.below(curve[j].0));
        reveal(F32::below);
    }
}

/// The segment of a voltage between the ends of a rising curve.
proof fn lemma_segment_of(curve: Seq<(F32, F32)>, v: F32) -> (i: int)
    requires
        rising(curve),
        !v.nan(),
        !v.at_most(curve[0].0),
        !curve.last().0.at_most(v),
    ensures
        first_end(curve, v, i),
        curve[i - 1].0.below(v),
        curve_value(curve, v) == on_segment(curve[i - 1], curve[i], v),
{
    assert(plain(curve[0].0) && plain(curve[curve.len() - 1].0));
    order_is_total(v, curve.last().0);
    order_is_total(curve.last().0, v);
    order_is_total(v, curve[0].0);
    order_is_total(curve[0].0, v);
    let k = lemma_first_end_exists(curve, v, curve.len() - 1);
    let i = choose|i: int| first_end(curve, v, i);
    assert(first_end(curve, v, i));
    if i > 1 {
        assert(!v.at_most(curve[i - 1].0));
    }
    assert(plain(curve[i - 1].0));
    order_is_total(v, curve[i - 1].0);
    order_is_total(curve[i - 1].0, v);
    i
}

proof fn lemma_first_end_exists(curve: Seq<(F32, F32)>, v: F32, n: int) -> (k: int)
    requires
        1 <= n < curve.len(),
        v.at_most(curve[n].0),
    ensures
        first_end(curve, v, k),
    decreases n,
{
    if exists|j: int| 1 <= j < n && v.at_most((#[trigger] curve[j]).0) {
        let j = choose|j: int| 1 <= j < n && v.at_most((#[trigger] curve[j]).0);
        lemma_first_end_exists(curve, v, j)
    } else {
        n
    }
}

/// The value of a rising curve lies between those of its ends, for every voltage
/// that is a number.
pub proof fn curve_stays_within_its_ends(curve: Seq<(F32, F32)>, v: F32)
    requires
        rising(curve),
        !v.nan(),
    ensures
        curve[0].1.at_most(curve_value(curve, v)),
        curve_value(curve, v).at_most(curve.last().1),
{
    let n = curve.len() - 1;
    lemma_rising_values(curve, 0, n);
    assert(plain(curve[0].1) && plain(curve[n].1));
    order_is_total(curve[0].1, curve[0].1);
    order_is_total(curve[n].1, curve[n].1);
    assert(curve[0].1.at_most(curve[0].1)) by {
        reveal(F32::at_most);
    }
    assert(curve[n].1.at_most(curve[n].1)) by {
        reveal(F32::at_most);
    }
    if !v.at_most(curve[0].0) && !curve.last().0.at_most(v) {
        let i = lemma_segment_of(curve, v);
        assert(plain(curve[i].0) && plain(curve[i - 1].0));
        lemma_segment(curve[i - 1], curve[i], v);
        lemma_rising_values(curve, 0, i - 1);
        lemma_rising_values(curve, i, n);
        order_is_transitive(curve[0].1, curve[i - 1].1, curve_value(curve, v));
        order_is_transitive(curve_value(curve, v), curve[i].1, curve[n].1);
    }
}

/// A higher voltage never has a lower value on a rising curve.
pub proof fn curve_keeps_order(curve: Seq<(F32, F32)>, v: F32, w: F32)
    requires
        rising(curve),
        v.at_most(w),
    ensures
        curve_value(curve, v).at_most(curve_value(curve, w)),
{
    reveal(F32::at_most);
    assert(!v.nan() && !w.nan());
    curve_stays_within_its_ends(curve, v);
    curve_stays_within_its_ends(curve, w);
    let n = curve.len() - 1;
    if v.at_most(curve[0].0) {
    } else if curve.last().0.at_most(w) {
    } else {
        order_is_transitive(v, w, curve[0].0);
        order_is_transitive(curve.last().0, v, w);
        let i = lemma_segment_of(curve, v);
        let j = lemma_segment_of(curve, w);
        assert(plain(curve[i].0) && plain(curve[i - 1].0) && plain(curve[j].0) && plain(
            curve[j - 1].0,
        ));
        lemma_segment(curve[i - 1], curve[i], v);
        lemma_segment(curve[j - 1], curve[j], w);
        if i == j {
            lemma_segment_order(curve[i - 1], curve[i], v, w);
        } else if i < j {
            lemma_rising_values(curve, i, j - 1);
        } else {
            // v does not lie beyond w, so w's segment cannot come first
            assert(!v.at_most(curve[j].0));
            order_is_transitive(v, w, curve[j].0);
        }
    }
}

/// At every point of a rising curve its value is that of the point.
pub proof fn curve_meets_its_points(curve: Seq<(F32, F32)>, i: int)
    requires
        rising(curve),
        0 <= i < curve.len(),
    ensures
        curve_value(curve, curve[i].0).same_value(curve[i].1),
{
    let v = curve[i].0;
    let n = curve.len() - 1;
    assert(plain(v) && plain(curve[i].1));
    reveal(F32::same_value);
    reveal(F32::at_most);
    if i == 0 {
        assert(v.at_most(curve[0].0));
    } else {
        lemma_rising_values(curve, 0, i);
        order_is_total(v, curve[0].0);
        order_is_total(curve[0].0, v);
        if i == n {
            assert(curve.last().0.at_most(v));
        } else {
            lemma_rising_values(curve, i, n);
            order_is_total(v, curve[n].0);
            order_is_total(curve[n].0, v);
            let k = lemma_segment_of(curve, v);
            if k < i {
                lemma_rising_values(curve, k, i);
                order_is_total(v, curve[k].0);
                order_is_total(curve[k].0, v);
            } else if i < k {
                assert(!v.at_most(curve[i].0));
            }
            assert(plain(curve[i - 1].0) && plain(curve[i - 1].1));
            lemma_segment(curve[i - 1], curve[i], v);
        }
    }
}

/// `bits` are those of `n` half percent.
pub(crate) proof fn lemma_half_percent(bits: u32, n: nat, k: nat)
    requires
        n > 0,
        k <= 23,
        0x80_0000 <= n * pow2(k) < 0x100_0000,
        bits == (149 - k) * 0x80_0000 + n * pow2(k) - 0x80_0000,
    ensures
        plain(number(bits)),
        number(bits).magnitude() == bits,
        mag_value(bits as nat) == n * pow2(148),
{
    let q = n * pow2(k);
    let j = (148 - k) as nat;
    assert(bits == j * 0x80_0000 + q);
    lemma_mag_value_of(q, j);
    lemma_pow2_adds(k, j);
    assert((n * pow2(k)) * pow2(j) == n * (pow2(k) * pow2(j))) by (nonlinear_arith);
}

/// Two values of whole half percents close their segment.
proof fn lemma_closes(lo: (F32, F32), hi: (F32, F32), a: nat, b: nat)
    requires
        plain(lo.1),
        plain(hi.1),
        a < b <= 0x100_0000,
        mag_value(lo.1.magnitude()) == a * pow2(148),
        mag_value(hi.1.magnitude()) == b * pow2(148),
    ensures
        lo.1.below(hi.1),
        closes(lo, hi),
{
    let p = pow2(148);
    lemma_pow2_pos(148);
    assert(a * p < b * p) by (nonlinear_arith)
        requires
            a < b,
            p > 0,
    ;
    assert(b * p - a * p == (b - a) * p) by (nonlinear_arith);
    order_is_by_value(lo.1, hi.1);
    let n = (b - a) as nat;
    let r = lemma_half_magnitude(n);
    exact_difference(hi.1, lo.1, r);
    exact_sum(lo.1, hi.1.difference(lo.1), hi.1);
}

/// A count of half percents is representable.
proof fn lemma_half_magnitude(n: nat) -> (r: nat)
    requires
        0 < n <= 0x100_0000,
    ensures
        r < INFINITE_MAG,
        mag_value(r) == n * pow2(148),
{
    let (q, j) = crate::float::lemma_normal_form(n, 148);
    lemma_mag_value_of(q, j);
    j * 0x80_0000 + q
}

/// The two curves rise.
pub proof fn curves_are_rising(chemistry: Chemistry)
    ensures
        rising(chemistry.curve()),
        chemistry.curve()[0].1 == number(0),
        chemistry.curve().last().1 == number(HUNDRED),
{
    lemma_lfp_rising();
    lemma_liion_rising();
}

pub(crate) proof fn lemma_zero_percent()
    ensures
        plain(number(0)),
        number(0).magnitude() == 0,
        mag_value(0) == 0 * pow2(148),
{
    lemma_mul_basics(pow2(148) as int);
}

proof fn lemma_lfp_rising()
    ensures
        rising(curve_points(LFP_OCV@)),
        curve_points(LFP_OCV@)[0].1 == number(0),
        curve_points(LFP_OCV@).last().1 == number(HUNDRED),
{
    let c = curve_points(LFP_OCV@);
    lemma2_to64();
    lemma_zero_percent();
    lemma_half_percent(0x3f00_0000, 1, 23);
    lemma_half_percent(0x40a0_0000, 10, 20);
    lemma_half_percent(0x4118_0000, 19, 19);
    lemma_half_percent(0x4170_0000, 30, 19);
    lemma_half_percent(0x41a0_0000, 40, 18);
    lemma_half_percent(0x41f0_0000, 60, 18);
    lemma_half_percent(0x4220_0000, 80, 17);
    lemma_half_percent(0x4248_0000, 100, 17);
    lemma_half_percent(0x4270_0000, 120, 17);
    lemma_half_percent(0x428c_0000, 140, 16);
    lemma_half_percent(0x42a0_0000, 160, 16);
    lemma_half_percent(0x42b4_0000, 180, 16);
    lemma_half_percent(0x42c6_0000, 198, 16);
    lemma_half_percent(0x42c7_0000, 199, 16);
    lemma_half_percent(0x42c8_0000, 200, 16);
    assert(c[0] == (number(0x4020_0000), number(0x0000_0000)));
    assert(c[1] == (number(0x4022_8f5c), number(0x3f00_0000)));
    assert(c[2] == (number(0x4033_3333), number(0x40a0_0000)));
    assert(c[3] == (number(0x4040_0000), number(0x4118_0000)));
    assert(c[4] == (number(0x4043_3333), number(0x4170_0000)));
    assert(c[5] == (number(0x404c_cccd), number(0x41a0_0000)));
    assert(c[6] == (number(0x404e_b852), number(0x41f0_0000)));
    assert(c[7] == (number(0x4050_0000), number(0x4220_0000)));
    assert(c[8] == (number(0x4050_a3d7), number(0x4248_0000)));
    assert(c[9] == (number(0x4051_eb85), number(0x4270_0000)));
    assert(c[10] == (number(0x4053_3333), number(0x428c_0000)));
    assert(c[11] == (number(0x4055_1eb8), number(0x42a0_0000)));
    assert(c[12] == (number(0x4056_6666), number(0x42b4_0000)));
    assert(c[13] == (number(0x4058_51ec), number(0x42c6_0000)));
    assert(c[14] == (number(0x405c_cccd), number(0x42c7_0000)));
    assert(c[15] == (number(0x4069_999a), number(0x42c8_0000)));
    reveal(F32::below);
    lemma_closes(c[0], c[1], 0, 1);
    lemma_closes(c[1], c[2], 1, 10);
    lemma_closes(c[2], c[3], 10, 19);
    lemma_closes(c[3], c[4], 19, 30);
    lemma_closes(c[4], c[5], 30, 40);
    lemma_closes(c[5], c[6], 40, 60);
    lemma_closes(c[6], c[7], 60, 80);
    lemma_closes(c[7], c[8], 80, 100);
    lemma_closes(c[8], c[9], 100, 120);
    lemma_closes(c[9], c[10], 120, 140);
    lemma_closes(c[10], c[11], 140, 160);
    lemma_closes(c[11], c[12], 160, 180);
    lemma_closes(c[12], c[13], 180, 198);
    lemma_closes(c[13], c[14], 198, 199);
    lemma_closes(c[14], c[15], 199, 200);
}

proof fn lemma_liion_rising()
    ensures
        rising(curve_points(LIION_OCV@)),
        curve_points(LIION_OCV@)[0].1 == number(0),
        curve_points(LIION_OCV@).last().1 == number(HUNDRED),
{
    let c = curve_points(LIION_OCV@);
    lemma2_to64();
    lemma_zero_percent();
    lemma_half_percent(0x40a0_0000, 10, 20);
    lemma_half_percent(0x4120_0000, 20, 19);
    lemma_half_percent(0x41a0_0000, 40, 18);
    lemma_half_percent(0x41f0_0000, 60, 18);
    lemma_half_percent(0x4220_0000, 80, 17);
    lemma_half_percent(0x4248_0000, 100, 17);
    lemma_half_percent(0x4270_0000, 120, 17);
    lemma_half_percent(0x428c_0000, 140, 16);
    lemma_half_percent(0x42a0_0000, 160, 16);
    lemma_half_percent(0x42b4_0000, 180, 16);
    lemma_half_percent(0x42be_0000, 190, 16);
    lemma_half_percent(0x42c8_0000, 200, 16);
    assert(c[0] == (number(0x4040_0000), number(0x0000_0000)));
    assert(c[1] == (number(0x4059_999a), number(0x40a0_0000)));
    assert(c[2] == (number(0x4060_0000), number(0x4120_0000)));
    assert(c[3] == (number(0x4064_7ae1), number(0x41a0_0000)));
    assert(c[4] == (number(0x4068_51ec), number(0x41f0_0000)));
    assert(c[5] == (number(0x406c_cccd), number(0x4220_0000)));
    assert(c[6] == (number(0x4070_0000), number(0x4248_0000)));
    assert(c[7] == (number(0x4074_7ae1), number(0x4270_0000)));
    assert(c[8] == (number(0x4079_999a), number(0x428c_0000)));
    assert(c[9] == (number(0x407e_b852), number(0x42a0_0000)));
    assert(c[10] == (number(0x4082_8f5c), number(0x42b4_0000)));
    assert(c[11] == (number(0x4084_cccd), number(0x42be_0000)));
    assert(c[12] == (number(0x4086_6666), number(0x42c8_0000)));
    reveal(F32::below);
    lemma_closes(c[0], c[1], 0, 10);
    lemma_closes(c[1], c[2], 10, 20);
    lemma_closes(c[2], c[3], 20, 40);
    lemma_closes(c[3], c[4], 40, 60);
    lemma_closes(c[4], c[5], 60, 80);
    lemma_closes(c[5], c[6], 80, 100);
    lemma_closes(c[6], c[7], 100, 120);
    lemma_closes(c[7], c[8], 120, 140);
    lemma_closes(c[8], c[9], 140, 160);
    lemma_closes(c[9], c[10], 160, 180);
    lemma_closes(c[10], c[11], 180, 190);
    lemma_closes(c[11], c[12], 190, 200);
}

/// A finite voltage over a cell count is a number, and keeps the order.
pub(crate) proof fn lemma_per_cell(cells: u8, v: F32, w: F32)
    requires
        cells > 0,
        v.finite(),
        w.finite(),
        v.at_most(w),
    ensures
        v.quotient(F32::of_integer(cells as nat)).at_most(w.quotient(F32::of_integer(cells as nat))),
{
    let d = F32::of_integer(cells as nat);
    lemma_cell_count(cells);
    lemma_signed_quotient(v, d);
    lemma_signed_quotient(w, d);
    let nv = number((v.magnitude()) as u32);
    let nw = number((w.magnitude()) as u32);
    reveal(F32::at_most);
    if v.negative() && w.negative() {
        quotient_keeps_order(nw, nv, d);
    } else if !v.negative() && !w.negative() {
        quotient_keeps_order(nv, nw, d);
    } else if !v.negative() {
        // both are zeros
        assert(v.magnitude() == 0 && w.magnitude() == 0);
        lemma_quotient_rank(nv, d);
        assert(mag_value(0) == 0);
        lemma_mul_basics(pow2(149) as int);
        lemma_mul_basics(mag_value(d.magnitude()) as int);
        rounds_at_most(0, mag_value(d.magnitude()), 0);
    }
}

/// A cell count is a positive plain number.
proof fn lemma_cell_count(cells: u8)
    requires
        cells > 0,
    ensures
        plain(F32::of_integer(cells as nat)),
        F32::of_integer(cells as nat).magnitude() > 0,
{
    integers_are_exact(cells as nat);
    lemma_pow2_pos(149);
    assert(cells * pow2(149) > 0) by (nonlinear_arith)
        requires
            cells > 0,
            pow2(149) > 0,
    ;
    assert(mag_value(0) == 0);
    reveal(F32::of_integer);
    crate::float::nearest_exists(cells as nat * pow2(149), 1);
    lemma_packed(false, crate::float::rounding::round_mag(cells as nat * pow2(149), 1));
}

/// A quotient by a positive number has the sign of the dividend and the magnitude
/// of the plain quotient.
proof fn lemma_signed_quotient(v: F32, d: F32)
    requires
        v.finite(),
        plain(d),
        d.magnitude() > 0,
    ensures
        ({
            let m = number((v.magnitude()) as u32);
            &&& plain(m)
            &&& !v.quotient(d).nan()
            &&& v.quotient(d).negative() == v.negative()
            &&& v.quotient(d).magnitude() == m.quotient(d).magnitude()
            &&& !m.quotient(d).nan()
            &&& !m.quotient(d).negative()
        }),
{
    let m = number((v.magnitude()) as u32);
    assert(m.magnitude() == v.magnitude());
    lemma_quotient_rank(m, d);
    reveal(F32::quotient);
    lemma_packed(v.negative(), m.quotient(d).magnitude());
}

/// The state of charge is a percentage, whatever voltage is read: never below 0,
/// never above 100, never NaN.
pub proof fn soc_is_a_percentage(chemistry: Chemistry, cells: u8, pack_voltage_v: F32)
    requires
        cells > 0,
    ensures
        number(0).at_most(pack_soc(chemistry, cells, pack_voltage_v)),
        pack_soc(chemistry, cells, pack_voltage_v).at_most(number(HUNDRED)),
{
    curves_are_rising(chemistry);
    if pack_voltage_v.finite() {
        lemma_cell_count(cells);
        lemma_signed_quotient(pack_voltage_v, F32::of_integer(cells as nat));
        curve_stays_within_its_ends(
            chemistry.curve(),
            pack_voltage_v.quotient(F32::of_integer(cells as nat)),
        );
    } else {
        reveal(F32::at_most);
    }
}

/// A higher pack voltage never has a lower state of charge.
pub proof fn soc_rises_with_voltage(chemistry: Chemistry, cells: u8, v: F32, w: F32)
    requires
        cells > 0,
        v.finite(),
        w.finite(),
        v.at_most(w),
    ensures
        pack_soc(chemistry, cells, v).at_most(pack_soc(chemistry, cells, w)),
{
    curves_are_rising(chemistry);
    lemma_per_cell(cells, v, w);
    curve_keeps_order(
        chemistry.curve(),
        v.quotient(F32::of_integer(cells as nat)),
        w.quotient(F32::of_integer(cells as nat)),
    );
}

/// At every point of a chemistry's curve the estimate is that of the point.
pub proof fn soc_meets_the_curve(chemistry: Chemistry, i: int)
    requires
        0 <= i < chemistry.curve().len(),
    ensures
        curve_value(chemistry.curve(), chemistry.curve()[i].0).same_value(chemistry.curve()[i].1),
{
    curves_are_rising(chemistry);
    curve_meets_its_points(chemistry.curve(), i);
}

/// A reading that is not finite has a state of charge of 0.
pub proof fn soc_of_no_reading(chemistry: Chemistry, cells: u8, v: F32)
    requires
        !v.finite(),
    ensures
        pack_soc(chemistry, cells, v) == number(0),
{
}

/// On any curve: the first value up to the first point, the last from the last point on,
/// and between them the line through the two points next to the voltage.
pub proof fn curve_is_pieced_of_lines(curve: Seq<(F32, F32)>, v: F32, i: int)
    requires
        curve.len() > 0,
    ensures
        v.at_most(curve[0].0) ==> curve_value(curve, v) == curve[0].1,
        !v.at_most(curve[0].0) && curve.last().0.at_most(v) ==> curve_value(curve, v)
            == curve.last().1,
        !v.at_most(curve[0].0) && !curve.last().0.at_most(v) && 1 <= i < curve.len() && v.at_most(
            curve[i].0,
        ) && (forall|j: int| 0 <= j < i ==> !v.at_most((#[trigger] curve[j]).0)) ==> {
            let (v_lo, lo) = curve[i - 1];
            let (v_hi, hi) = curve[i];
            curve_value(curve, v) == lo.sum(
                v.difference(v_lo).quotient(v_hi.difference(v_lo)).product(hi.difference(lo)),
            )
        },
{
    if !v.at_most(curve[0].0) && !curve.last().0.at_most(v) && 1 <= i < curve.len() && v.at_most(
        curve[i].0,
    ) && (forall|j: int| 0 <= j < i ==> !v.at_most((#[trigger] curve[j]).0)) {
        assert(first_end(curve, v, i));
        let k = choose|k: int| first_end(curve, v, k);
        assert(first_end(curve, v, k));
        if k < i {
            assert(!v.at_most(curve[k].0));
        } else if i < k {
            assert(!v.at_most(curve[i].0));
        }
    }
}

} // verus!
