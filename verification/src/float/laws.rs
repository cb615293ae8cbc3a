//! What holds of the arithmetic on every pair of numbers.

use crate::float::order::{exact_value_is_nearest, rounds_at_most};
use crate::float::rounding::{
    lemma_mag_monotone, lemma_mag_split, lemma_mag_step, lemma_mag_value_of, lemma_nearest_scale,
    lemma_nearest_unique, mag_value, nearest, round_mag, INFINITE_MAG,
};
use crate::float::{abs_int, lemma_packed, nearest_exists, F32};
use vstd::arithmetic::mul::*;
use vstd::arithmetic::power2::*;
use vstd::prelude::*;

verus! {

/// Sum and difference of finite numbers are the numbers nearest to the exact results,
/// with their signs.
pub proof fn sums_are_nearest(a: F32, b: F32)
    requires
        a.finite(),
        b.finite(),
    ensures
        nearest(a.sum(b).magnitude(), abs_int(a.scaled() + b.scaled()), 1),
        a.scaled() + b.scaled() > 0 ==> !a.sum(b).negative(),
        a.scaled() + b.scaled() < 0 ==> a.sum(b).negative(),
        nearest(a.difference(b).magnitude(), abs_int(a.scaled() - b.scaled()), 1),
        a.scaled() - b.scaled() > 0 ==> !a.difference(b).negative(),
        a.scaled() - b.scaled() < 0 ==> a.difference(b).negative(),
{
    negation_turns_the_sign(b);
    lemma_sum(a, b);
    lemma_sum(a, b.negated());
}

proof fn lemma_sum(a: F32, b: F32)
    requires
        a.finite(),
        b.finite(),
    ensures
        nearest(a.sum(b).magnitude(), abs_int(a.scaled() + b.scaled()), 1),
        a.scaled() + b.scaled() > 0 ==> !a.sum(b).negative(),
        a.scaled() + b.scaled() < 0 ==> a.sum(b).negative(),
{
    reveal(F32::sum);
    let exact = a.scaled() + b.scaled();
    nearest_exists(abs_int(exact), 1);
    lemma_packed(exact < 0, round_mag(abs_int(exact), 1));
    lemma_packed(a.negative() && b.negative(), 0);
    assert(mag_value(0) == 0 && mag_value(1) == 1);
}

/// Product and quotient of finite numbers are the numbers nearest to the exact results,
/// negative exactly where one of the two is.
pub proof fn products_are_nearest(a: F32, b: F32)
    requires
        a.finite(),
        b.finite(),
    ensures
        nearest(
            a.product(b).magnitude(),
            mag_value(a.magnitude()) * mag_value(b.magnitude()),
            pow2(149),
        ),
        a.product(b).negative() == (a.negative() != b.negative()),
        b.magnitude() > 0 ==> nearest(
            a.quotient(b).magnitude(),
            mag_value(a.magnitude()) * pow2(149),
            mag_value(b.magnitude()),
        ),
        b.magnitude() > 0 ==> a.quotient(b).negative() == (a.negative() != b.negative()),
{
    reveal(F32::product);
    reveal(F32::quotient);
    let x = mag_value(a.magnitude());
    let y = mag_value(b.magnitude());
    lemma_pow2_pos(149);
    nearest_exists(x * y, pow2(149));
    lemma_packed(a.negative() != b.negative(), round_mag(x * y, pow2(149)));
    if b.magnitude() > 0 {
        assert(mag_value(0) == 0);
        lemma_mag_monotone(0, b.magnitude());
        nearest_exists(x * pow2(149), y);
        lemma_packed(a.negative() != b.negative(), round_mag(x * pow2(149), y));
    }
}

/// Negation turns the sign and nothing else, the absolute value takes it off, and both
/// are exact.
pub proof fn negation_turns_the_sign(a: F32)
    requires
        !a.nan(),
    ensures
        a.negated().magnitude() == a.magnitude(),
        a.negated().negative() == !a.negative(),
        a.negated().scaled() == -a.scaled(),
        a.negated().negated() == a,
        a.absolute().magnitude() == a.magnitude(),
        !a.absolute().negative(),
        a.absolute().scaled() == abs_int(a.scaled()),
{
    reveal(F32::negated);
    reveal(F32::absolute);
    lemma_packed(!a.negative(), a.magnitude());
    lemma_packed(false, a.magnitude());
}

/// What is not a number stays so through the arithmetic, and compares with nothing.
pub proof fn not_a_number_spreads(a: F32, b: F32)
    requires
        a.nan() || b.nan(),
    ensures
        a.sum(b).nan(),
        a.difference(b).nan(),
        a.product(b).nan(),
        a.quotient(b).nan(),
        !a.below(b) && !a.at_most(b) && !a.same_value(b),
{
    reveal(F32::sum);
    reveal(F32::product);
    reveal(F32::quotient);
    reveal(F32::negated);
    reveal(F32::below);
    reveal(F32::at_most);
    reveal(F32::same_value);
}

/// Neighbouring magnitudes below `2^(j + 24)` units are at most `2^j` apart.
proof fn lemma_gap(r: nat, j: nat)
    requires
        r < j * 0x80_0000 + 0x100_0000,
    ensures
        mag_value(r) < mag_value(r + 1) <= mag_value(r) + pow2(j),
{
    let (q, i) = lemma_mag_split(r);
    lemma_mag_step(q, i);
    lemma_pow2_pos(i);
    if i < j {
        lemma_pow2_strictly_increases(i, j);
    }
    assert((q + 1) * pow2(i) == q * pow2(i) + pow2(i)) by (nonlinear_arith);
}

/// A value of at most `2^(j + 24)` units is rounded by at most half of `2^j` units.
pub proof fn rounding_error_is_bounded(num: nat, den: nat, j: nat)
    requires
        den > 0,
        j <= 252,
        num <= pow2(j + 24) * den,
    ensures
        2 * (mag_value(round_mag(num, den)) * den) <= 2 * num + pow2(j) * den,
        2 * num <= 2 * (mag_value(round_mag(num, den)) * den) + pow2(j) * den,
{
    let top = (j * 0x80_0000 + 0x100_0000) as nat;
    lemma_mag_value_of(0x100_0000, j);
    lemma2_to64();
    lemma_pow2_adds(24, j);
    lemma_pow2_pos(j);
    rounds_at_most(num, den, top);
    nearest_exists(num, den);
    let r = round_mag(num, den);
    let v = mag_value(r);
    let p = pow2(j);
    if r > 0 {
        lemma_gap((r - 1) as nat, j);
        let w = mag_value((r - 1) as nat);
        assert(2 * (v * den) <= den * (w + v) + p * den) by (nonlinear_arith)
            requires
                v <= w + p,
                den > 0,
        ;
    } else {
        assert(v == 0);
        assert(v * den == 0) by (nonlinear_arith)
            requires
                v == 0,
        ;
    }
    if r < top {
        lemma_gap(r, j);
        let w = mag_value(r + 1);
        assert(den * (v + w) <= 2 * (v * den) + p * den) by (nonlinear_arith)
            requires
                w <= v + p,
                den > 0,
        ;
    }
    assert(p * den >= 0) by (nonlinear_arith)
        requires
            p > 0,
            den > 0,
    ;
}

/// An exact ratio rounds to itself.
pub proof fn exact_ratio_rounds_to_itself(num: nat, den: nat, r: nat)
    requires
        den > 0,
        r < INFINITE_MAG,
        num == mag_value(r) * den,
    ensures
        round_mag(num, den) == r,
{
    nearest_exists(num, den);
    lemma_mul_basics(den as int);
    lemma_nearest_scale(round_mag(num, den), mag_value(r), 1, den);
    exact_value_is_nearest(r);
    lemma_nearest_unique(round_mag(num, den), r, mag_value(r), 1);
}

/// Bits `j * 2^23 + q` are those of the number nearest to `num / den`, where `scale` is
/// how many units of `2^j` make one.
pub proof fn decimal_is_nearest(num: nat, den: nat, q: nat, j: nat, scale: nat)
    requires
        den > 0,
        j <= 149,
        0x80_0000 <= q < 0x100_0000,
        pow2((149 - j) as nat) == scale,
        2 * den * q < 2 * num * scale + den,
        2 * num * scale < 2 * den * q + den,
        q == 0x80_0000 ==> num * scale == den * q,
    ensures
        nearest(j * 0x80_0000 + q, num * pow2(149), den),
{
    let r = j * 0x80_0000 + q;
    let p = pow2(j);
    lemma_pow2_pos(j);
    lemma_pow2_adds((149 - j) as nat, j);
    lemma_mag_step(q, j);
    let x = num * pow2(149);
    assert(x == (num * scale) * p) by (nonlinear_arith)
        requires
            x == num * (scale * p),
    ;
    if q > 0x80_0000 {
        lemma_mag_value_of((q - 1) as nat, j);
        assert((r - 1) as nat == j * 0x80_0000 + (q - 1));
        let mid = den * ((q - 1) as nat * p + q * p);
        assert(2 * x > mid) by (nonlinear_arith)
            requires
                x == (num * scale) * p,
                mid == den * ((q - 1) * p + q * p),
                2 * den * q < 2 * num * scale + den,
                p > 0,
        ;
    } else {
        lemma_mag_monotone((r - 1) as nat, r);
        let below = mag_value((r - 1) as nat);
        let mid = den * (below + q * p);
        assert(2 * x > mid) by (nonlinear_arith)
            requires
                x == (num * scale) * p,
                num * scale == den * q,
                mid == den * (below + q * p),
                below < q * p,
                den > 0,
        ;
    }
    let up = den * (q * p + (q + 1) * p);
    assert(2 * x < up) by (nonlinear_arith)
        requires
            x == (num * scale) * p,
            up == den * (q * p + (q + 1) * p),
            2 * num * scale < 2 * den * q + den,
            p > 0,
    ;
}

/// `x` is the number nearest to the decimal `num / den`.
pub open spec fn is_decimal(x: F32, num: nat, den: nat) -> bool {
    !x.negative() && nearest(x.magnitude(), num * pow2(149), den)
}

/// An integer is the number nearest to it.
pub proof fn integers_are_nearest(n: nat)
    ensures
        nearest(F32::of_integer(n).magnitude(), n * pow2(149), 1),
        !F32::of_integer(n).negative(),
{
    reveal(F32::of_integer);
    nearest_exists(n * pow2(149), 1);
    lemma_packed(false, round_mag(n * pow2(149), 1));
}

/// Infinities lie beyond every number, and stay what they are when a number is added or
/// taken off, or when they are multiplied or divided by a number other than zero, but for
/// the sign. What is opposite to itself or to nothing is no number.
pub proof fn infinities_lie_beyond(x: F32, y: F32)
    requires
        x.infinite(),
    ensures
        y.finite() && !x.negative() ==> y.below(x) && !x.at_most(y),
        y.finite() && x.negative() ==> x.below(y) && !y.at_most(x),
        y.finite() ==> x.sum(y) == x && y.sum(x) == x && x.difference(y) == x,
        y.infinite() ==> (x.sum(y) == x <==> x.negative() == y.negative()),
        y.infinite() && x.negative() != y.negative() ==> x.sum(y).nan(),
        y.magnitude() == 0 ==> x.product(y).nan(),
        !y.nan() && y.magnitude() > 0 ==> x.product(y).infinite() && x.product(y).negative() == (
        x.negative() != y.negative()),
        y.finite() ==> x.quotient(y).infinite() && x.quotient(y).negative() == (x.negative()
            != y.negative()),
        y.finite() ==> y.quotient(x).magnitude() == 0,
        y.infinite() ==> x.quotient(y).nan(),
{
    reveal(F32::below);
    reveal(F32::at_most);
    reveal(F32::sum);
    reveal(F32::product);
    reveal(F32::quotient);
    reveal(F32::negated);
}

/// What is divided by zero is infinite, and nothing by nothing no number.
pub proof fn division_by_zero_is_infinite(x: F32, zero: F32)
    requires
        zero.magnitude() == 0,
        !x.nan(),
    ensures
        x.magnitude() > 0 ==> x.quotient(zero).infinite() && x.quotient(zero).negative() == (
        x.negative() != zero.negative()),
        x.magnitude() == 0 ==> x.quotient(zero).nan(),
{
    reveal(F32::quotient);
}

} // verus!
