//! How rounding keeps order: what is known of a computed number without computing
//! it.

use crate::float::rounding::{
    lemma_mag_monotone, lemma_mag_split, lemma_mag_step, lemma_mag_value_of, lemma_nearest_at,
    lemma_nearest_ordered, lemma_round_mag, mag_value, nearest, round_mag,
    INFINITE_MAG,
};
use crate::float::{
    arithmetic_commutes, lemma_floor_mag, lemma_packed, lemma_sum_rank, nearest_exists, number, order_is_by_value,
    sum_keeps_order, F32,
};
use vstd::arithmetic::mul::*;
use vstd::arithmetic::power2::*;
use vstd::prelude::*;

verus! {

/// The bits of 1.
pub const ONE_MAG: u32 = 0x3f80_0000;

/// Finite, and not negative by its sign.
pub open spec fn plain(x: F32) -> bool {
    x.finite() && !x.negative()
}

/// The value of a magnitude is its own nearest magnitude.
pub proof fn exact_value_is_nearest(r: nat)
    requires
        r < INFINITE_MAG,
    ensures
        nearest(r, mag_value(r), 1),
        round_mag(mag_value(r), 1) == r,
{
    let (q, j) = lemma_mag_split(r);
    lemma_mag_step(q, j);
    lemma_pow2_pos(j);
    let p = pow2(j);
    lemma_mul_basics(p as int);
    assert((q + 1) * p == q * p + p) by (nonlinear_arith);
    assert((2 * q + 1) * p == 2 * (q * p) + p) by (nonlinear_arith);
    lemma_nearest_at(q, j, false, mag_value(r), 1);
    lemma_round_mag(r, mag_value(r), 1);
}

/// A magnitude that rounds from a value at most that of `r` is at most `r`.
pub proof fn rounds_at_most(num: nat, den: nat, r: nat)
    requires
        den > 0,
        r < INFINITE_MAG,
        num <= mag_value(r) * den,
    ensures
        round_mag(num, den) <= r,
{
    nearest_exists(num, den);
    exact_value_is_nearest(r);
    lemma_mul_basics(num as int);
    lemma_nearest_ordered(round_mag(num, den), num, den, r, mag_value(r), 1);
}

/// A magnitude that rounds from a value at least that of `r` is at least `r`.
pub proof fn rounds_at_least(num: nat, den: nat, r: nat)
    requires
        den > 0,
        r < INFINITE_MAG,
        num >= mag_value(r) * den,
    ensures
        round_mag(num, den) >= r,
{
    nearest_exists(num, den);
    exact_value_is_nearest(r);
    lemma_mul_basics(num as int);
    lemma_nearest_ordered(r, mag_value(r), 1, round_mag(num, den), num, den);
}

/// The value of 1 in units.
pub proof fn lemma_one()
    ensures
        mag_value(ONE_MAG as nat) == pow2(149),
        plain(number(ONE_MAG)),
        number(ONE_MAG).magnitude() == ONE_MAG,
{
    lemma_mag_value_of(0x80_0000, 126);
    lemma2_to64();
    lemma_pow2_adds(23, 126);
}

/// A quotient of plain numbers is where its exact value rounds to.
pub proof fn lemma_quotient_rank(a: F32, d: F32)
    requires
        plain(a),
        plain(d),
        d.magnitude() > 0,
    ensures
        !a.quotient(d).nan(),
        !a.quotient(d).negative(),
        a.quotient(d).magnitude() == round_mag(
            mag_value(a.magnitude()) * pow2(149),
            mag_value(d.magnitude()),
        ),
        mag_value(d.magnitude()) > 0,
{
    reveal(F32::quotient);
    assert(mag_value(0) == 0);
    lemma_mag_monotone(0, d.magnitude());
    let num = mag_value(a.magnitude()) * pow2(149);
    let den = mag_value(d.magnitude());
    nearest_exists(num, den);
    lemma_packed(false, round_mag(num, den));
}

/// Dividing plain numbers by the same positive number keeps their order.
pub proof fn quotient_keeps_order(a: F32, b: F32, d: F32)
    requires
        plain(a),
        plain(b),
        plain(d),
        d.magnitude() > 0,
        a.at_most(b),
    ensures
        a.quotient(d).at_most(b.quotient(d)),
{
    lemma_quotient_rank(a, d);
    lemma_quotient_rank(b, d);
    order_is_by_value(a, b);
    let x = mag_value(a.magnitude());
    let y = mag_value(b.magnitude());
    let v = mag_value(d.magnitude());
    let p = pow2(149);
    assert((x * p) * v <= (y * p) * v) by (nonlinear_arith)
        requires
            x <= y,
            p >= 0,
            v >= 0,
    ;
    nearest_exists(x * p, v);
    nearest_exists(y * p, v);
    lemma_nearest_ordered(round_mag(x * p, v), x * p, v, round_mag(y * p, v), y * p, v);
    reveal(F32::at_most);
}

/// A plain number over one at least as large is at most 1, and exactly 1 over
/// itself.
pub proof fn fraction_is_at_most_one(a: F32, d: F32)
    requires
        plain(a),
        plain(d),
        d.magnitude() > 0,
        a.at_most(d),
    ensures
        plain(a.quotient(d)),
        a.quotient(d).magnitude() <= ONE_MAG,
        a.magnitude() == d.magnitude() ==> a.quotient(d) == number(ONE_MAG),
{
    lemma_quotient_rank(a, d);
    order_is_by_value(a, d);
    lemma_one();
    let x = mag_value(a.magnitude());
    let v = mag_value(d.magnitude());
    let p = pow2(149);
    assert(x * p <= p * v) by (nonlinear_arith)
        requires
            x <= v,
            p >= 0,
    ;
    rounds_at_most(x * p, v, ONE_MAG as nat);
    if a.magnitude() == d.magnitude() {
        assert(x * p == p * v) by (nonlinear_arith)
            requires
                x == v,
        ;
        rounds_at_least(x * p, v, ONE_MAG as nat);
    }
}

/// A product of plain numbers is where its exact value rounds to.
pub proof fn lemma_product_rank(a: F32, b: F32)
    requires
        plain(a),
        plain(b),
    ensures
        !a.product(b).nan(),
        !a.product(b).negative(),
        a.product(b).magnitude() == round_mag(
            mag_value(a.magnitude()) * mag_value(b.magnitude()),
            pow2(149),
        ),
{
    reveal(F32::product);
    let num = mag_value(a.magnitude()) * mag_value(b.magnitude());
    lemma_pow2_pos(149);
    nearest_exists(num, pow2(149));
    lemma_packed(false, round_mag(num, pow2(149)));
}

/// Multiplying plain numbers by the same plain number keeps their order.
pub proof fn product_keeps_order(a: F32, b: F32, s: F32)
    requires
        plain(a),
        plain(b),
        plain(s),
        a.at_most(b),
    ensures
        a.product(s).at_most(b.product(s)),
{
    lemma_product_rank(a, s);
    lemma_product_rank(b, s);
    order_is_by_value(a, b);
    let x = mag_value(a.magnitude());
    let y = mag_value(b.magnitude());
    let v = mag_value(s.magnitude());
    let p = pow2(149);
    lemma_pow2_pos(149);
    assert((x * v) * p <= (y * v) * p) by (nonlinear_arith)
        requires
            x <= y,
            p >= 0,
            v >= 0,
    ;
    nearest_exists(x * v, p);
    nearest_exists(y * v, p);
    lemma_nearest_ordered(round_mag(x * v, p), x * v, p, round_mag(y * v, p), y * v, p);
    reveal(F32::at_most);
}

/// A fraction of a plain number is at most that number, and 1 times it is itself.
pub proof fn part_is_at_most_whole(t: F32, s: F32)
    requires
        plain(t),
        plain(s),
        t.magnitude() <= ONE_MAG,
    ensures
        plain(t.product(s)),
        t.product(s).magnitude() <= s.magnitude(),
        t == number(ONE_MAG) ==> t.product(s) == s,
{
    lemma_product_rank(t, s);
    lemma_one();
    lemma_pow2_pos(149);
    let x = mag_value(t.magnitude());
    let v = mag_value(s.magnitude());
    let p = pow2(149);
    if t.magnitude() < ONE_MAG {
        lemma_mag_monotone(t.magnitude(), ONE_MAG as nat);
    }
    assert(x * v <= v * p) by (nonlinear_arith)
        requires
            x <= p,
            v >= 0,
    ;
    rounds_at_most(x * v, p, s.magnitude());
    if t == number(ONE_MAG) {
        assert(x * v == v * p) by (nonlinear_arith)
            requires
                x == p,
        ;
        rounds_at_least(x * v, p, s.magnitude());
    }
}

/// The difference of two plain numbers, the second one smaller, is positive and at
/// most the first.
pub proof fn difference_is_positive(a: F32, b: F32)
    requires
        plain(a),
        plain(b),
        b.below(a),
    ensures
        plain(a.difference(b)),
        0 < a.difference(b).magnitude() <= a.magnitude(),
        a.difference(b).rank() == round_mag(
            (mag_value(a.magnitude()) - mag_value(b.magnitude())) as nat,
            1,
        ),
{
    lemma_negated(b);
    lemma_sum_rank(a, b.negated());
    order_is_by_value(b, a);
    let exact = (mag_value(a.magnitude()) - mag_value(b.magnitude())) as nat;
    lemma_mul_basics(mag_value(a.magnitude()) as int);
    rounds_at_most(exact, 1, a.magnitude());
    assert(mag_value(1) == 1);
    rounds_at_least(exact, 1, 1);
}

/// What the opposite of a plain number is.
proof fn lemma_negated(b: F32)
    requires
        plain(b),
    ensures
        b.negated().finite(),
        b.negated().scaled() == -b.scaled(),
{
    reveal(F32::negated);
    lemma_packed(true, b.magnitude());
}

/// The order of differences: taking the same number off keeps the order.
pub proof fn difference_keeps_order(a: F32, b: F32, c: F32)
    requires
        plain(a),
        plain(b),
        plain(c),
        a.at_most(b),
    ensures
        a.difference(c).at_most(b.difference(c)),
{
    lemma_negated(c);
    sum_keeps_order(a, b, c.negated());
}

/// A difference that is representable is exact.
pub proof fn exact_difference(a: F32, b: F32, r: nat)
    requires
        plain(a),
        plain(b),
        b.below(a),
        r < INFINITE_MAG,
        mag_value(r) == mag_value(a.magnitude()) - mag_value(b.magnitude()),
    ensures
        a.difference(b).magnitude() == r,
        plain(a.difference(b)),
{
    difference_is_positive(a, b);
    exact_value_is_nearest(r);
}

/// A sum that is representable is exact.
pub proof fn exact_sum(a: F32, b: F32, c: F32)
    requires
        plain(a),
        plain(b),
        plain(c),
        mag_value(c.magnitude()) == mag_value(a.magnitude()) + mag_value(b.magnitude()),
    ensures
        a.sum(b).same_value(c),
{
    lemma_sum_rank(a, b);
    exact_value_is_nearest(c.magnitude());
    assert(mag_value(0) == 0);
    if c.magnitude() > 0 {
        lemma_mag_monotone(0, c.magnitude());
    }
    reveal(F32::same_value);
}

/// A sum of plain numbers is at least each of them.
pub proof fn sum_is_at_least(a: F32, b: F32)
    requires
        plain(a),
        plain(b),
    ensures
        a.at_most(a.sum(b)),
        !a.sum(b).nan(),
{
    lemma_sum_rank(a, b);
    lemma_mul_basics(mag_value(a.magnitude()) as int);
    rounds_at_least(mag_value(a.magnitude()) + mag_value(b.magnitude()), 1, a.magnitude());
    assert(mag_value(0) == 0);
    if a.magnitude() > 0 {
        lemma_mag_monotone(0, a.magnitude());
    }
    reveal(F32::at_most);
}

/// Adding on the right keeps the order as well.
pub proof fn sum_keeps_order_right(c: F32, a: F32, b: F32)
    requires
        a.finite(),
        b.finite(),
        c.finite(),
        a.at_most(b),
    ensures
        c.sum(a).at_most(c.sum(b)),
{
    arithmetic_commutes(c, a);
    arithmetic_commutes(c, b);
    sum_keeps_order(a, b, c);
}

/// Two rationals on either side of a half round to different magnitudes, where the
/// magnitudes are whole units.
pub proof fn half_rounds_apart(x: nat, y: nat, den: nat, n: nat)
    requires
        den > 0,
        n < 0x7f_ffff,
        2 * x < (2 * n + 1) * den < 2 * y,
    ensures
        round_mag(x, den) <= n < round_mag(y, den),
{
    nearest_exists(x, den);
    nearest_exists(y, den);
    let r = round_mag(x, den);
    let s = round_mag(y, den);
    assert(mag_value(n) == n && mag_value(n + 1) == n + 1);
    if r > n {
        if r > n + 1 {
            lemma_mag_monotone(n, (r - 1) as nat);
            lemma_mag_monotone(n + 1, r);
        }
        let mid = mag_value((r - 1) as nat) + mag_value(r);
        assert(den * mid >= (2 * n + 1) * den) by (nonlinear_arith)
            requires
                mid >= 2 * n + 1,
        ;
    }
    if s <= n {
        if s < n {
            lemma_mag_monotone(s, n);
            lemma_mag_monotone(s + 1, n + 1);
        }
        let mid = mag_value(s) + mag_value(s + 1);
        assert(den * mid <= (2 * n + 1) * den) by (nonlinear_arith)
            requires
                mid <= 2 * n + 1,
        ;
    }
}

/// Two rationals far enough apart round to different magnitudes: by a ratio above
/// one in 2^21, and by three units.
pub proof fn rounds_apart(x: nat, y: nat, den: nat)
    requires
        den > 0,
        x < pow2(274) * den,
        0x20_0000 * y >= 0x20_0001 * x,
        y >= x + 3 * den,
    ensures
        round_mag(x, den) < round_mag(y, den),
{
    let whole = x / den;
    let rem = x % den;
    vstd::arithmetic::div_mod::lemma_fundamental_div_mod(x as int, den as int);
    assert(whole < pow2(274)) by (nonlinear_arith)
        requires
            x < pow2(274) * den,
            x == den * whole + rem,
            rem >= 0,
            den > 0,
    ;
    // 2^274 is the magnitude 251 * 2^23 + 2^23
    let top: nat = 251 * 0x80_0000 + 0x80_0000;
    lemma_mag_value_of(0x80_0000, 251);
    lemma2_to64();
    lemma_pow2_adds(23, 251);
    assert(mag_value(top) == pow2(274));
    let r = lemma_floor_mag(whole, top);
    let (q, j) = lemma_mag_split(r);
    lemma_mag_step(q, j);
    let p = pow2(j);
    lemma_pow2_pos(j);
    lemma_two_steps(r, q, j);
    let m1 = mag_value(r + 1);
    let m2 = mag_value(r + 2);
    // x lies below the next magnitude
    assert(x <= m1 * den) by (nonlinear_arith)
        requires
            whole + 1 <= m1,
            x == den * whole + rem,
            rem < den,
    ;
    rounds_at_most(x, den, r + 1);
    // and y at or above the one after that
    let u = p * den;
    assert(q * u <= x) by (nonlinear_arith)
        requires
            q * p <= whole,
            x == den * whole + rem,
            rem >= 0,
            u == p * den,
    ;
    assert(y >= (q + 3) * u) by {
        if j == 0 {
            assert(p == 1);
            lemma_mul_basics(den as int);
            assert((q + 3) * den == q * den + 3 * den) by (nonlinear_arith);
        } else {
            assert(0x20_0000 * y >= 0x20_0000 * ((q + 3) * u)) by (nonlinear_arith)
                requires
                    0x20_0000 * y >= 0x20_0001 * x,
                    x >= q * u,
                    q >= 0x80_0000,
            ;
        }
    }
    assert(m2 * den <= (q + 3) * u) by (nonlinear_arith)
        requires
            m2 <= (q + 3) * p,
            u == p * den,
    ;
    rounds_at_least(y, den, r + 2);
}

/// Two magnitudes further is at most three units of the scale further.
proof fn lemma_two_steps(r: nat, q: nat, j: nat)
    requires
        r == j * 0x80_0000 + q,
        q < 0x100_0000,
        j == 0 || q >= 0x80_0000,
    ensures
        mag_value(r + 2) <= (q + 3) * pow2(j),
{
    let p = pow2(j);
    if q + 1 < 0x100_0000 {
        lemma_mag_step(q + 1, j);
        assert(r + 2 == j * 0x80_0000 + (q + 1) + 1);
        assert((q + 2) * p <= (q + 3) * p) by (nonlinear_arith);
    } else {
        lemma_mag_value_of(0x80_0001, j + 1);
        assert(r + 2 == (j + 1) * 0x80_0000 + 0x80_0001);
        lemma_pow2_unfold(j + 1);
        assert(0x80_0001 * (2 * p) == (q + 3) * p) by (nonlinear_arith)
            requires
                q == 0xff_ffff,
        ;
    }
}

} // verus!
