//! Rounding of exact rationals to binary32 magnitudes.
//!
//! A magnitude is the low 31 bits of a binary32 pattern. Read as an integer it
//! counts the representable non-negative values in increasing order, so "the
//! nearest representable value" is a statement about two neighbouring integers.
//! All values are measured in units of the smallest subnormal, 2^-149, which
//! makes every finite value an integer.

use vstd::arithmetic::mul::*;
use vstd::arithmetic::power2::*;
use vstd::prelude::*;

verus! {

/// Magnitudes per binade: 2^23.
pub const BINADE: u32 = 0x80_0000;

/// The magnitude of infinity. As a value it stands one step above the largest
/// finite magnitude, at 2^128.
pub const INFINITE_MAG: u32 = 0x7f80_0000;

/// The value of the magnitude `r`, in units of 2^-149.
pub open spec fn mag_value(r: nat) -> nat {
    let exponent = r / 0x80_0000;
    let fraction = r % 0x80_0000;
    if exponent == 0 {
        fraction
    } else {
        (0x80_0000 + fraction) * pow2((exponent - 1) as nat)
    }
}

/// `r` is the magnitude nearest to `num / den` units, ties going to the even
/// magnitude.
pub open spec fn nearest(r: nat, num: nat, den: nat) -> bool {
    &&& r <= INFINITE_MAG
    &&& r > 0 ==> {
        let mid = den * (mag_value((r - 1) as nat) + mag_value(r));
        2 * num > mid || (2 * num == mid && r % 2 == 0)
    }
    &&& r < INFINITE_MAG ==> {
        let mid = den * (mag_value(r) + mag_value(r + 1));
        2 * num < mid || (2 * num == mid && r % 2 == 0)
    }
}

/// The magnitude nearest to `num / den` units.
pub open spec fn round_mag(num: nat, den: nat) -> nat {
    choose|r: nat| nearest(r, num, den)
}

/// A significand `q` at the scale `2^j` has the magnitude `j * 2^23 + q`.
pub proof fn lemma_mag_value_of(q: nat, j: nat)
    requires
        q <= 0x100_0000,
        j == 0 || q >= 0x80_0000,
    ensures
        mag_value(j * 0x80_0000 + q) == q * pow2(j),
{
    let r = j * 0x80_0000 + q;
    assert(pow2(0) == 1) by {
        lemma2_to64();
    }
    if q == 0x100_0000 {
        assert(r / 0x80_0000 == j + 2 && r % 0x80_0000 == 0);
        lemma_pow2_unfold(j + 1);
        let p = pow2(j);
        assert(0x80_0000 * (2 * p) == 0x100_0000 * p) by (nonlinear_arith);
    } else if q >= 0x80_0000 {
        assert(r / 0x80_0000 == j + 1 && r % 0x80_0000 == q - 0x80_0000);
    } else {
        assert(r / 0x80_0000 == 0 && r % 0x80_0000 == q);
        assert(q * pow2(j) == q) by {
            lemma_mul_basics(q as int);
        }
    }
}

/// Every magnitude splits into a significand and a scale.
pub proof fn lemma_mag_split(r: nat) -> (res: (nat, nat))
    ensures
        ({
            let (q, j) = res;
            &&& r == j * 0x80_0000 + q
            &&& q < 0x100_0000
            &&& j == 0 || q >= 0x80_0000
            &&& mag_value(r) == q * pow2(j)
        }),
{
    let e = r / 0x80_0000;
    let f = r % 0x80_0000;
    let (q, j): (nat, nat) = if e == 0 {
        (f, 0)
    } else {
        ((0x80_0000 + f) as nat, (e - 1) as nat)
    };
    assert(r == j * 0x80_0000 + q);
    lemma_mag_value_of(q, j);
    (q, j)
}

/// Neighbouring magnitudes are one unit of their scale apart, and below a power
/// of two half a unit.
pub proof fn lemma_mag_step(q: nat, j: nat)
    requires
        q < 0x100_0000,
        j == 0 || q >= 0x80_0000,
    ensures
        mag_value(j * 0x80_0000 + q) == q * pow2(j),
        mag_value(j * 0x80_0000 + q + 1) == (q + 1) * pow2(j),
        j * 0x80_0000 + q > 0 ==> 2 * mag_value((j * 0x80_0000 + q - 1) as nat) + pow2(j) <= 2 * q
            * pow2(j),
{
    let r = j * 0x80_0000 + q;
    lemma_mag_value_of(q, j);
    lemma_mag_value_of(q + 1, j);
    assert(r + 1 == j * 0x80_0000 + (q + 1));
    lemma_pow2_pos(j);
    if r > 0 {
        if j == 0 || q > 0x80_0000 {
            lemma_mag_value_of((q - 1) as nat, j);
            assert((r - 1) as nat == j * 0x80_0000 + (q - 1));
            assert(2 * ((q - 1) * pow2(j)) + pow2(j) <= 2 * q * pow2(j)) by (nonlinear_arith)
                requires
                    q >= 1,
                    pow2(j) > 0,
            ;
        } else {
            let i = (j - 1) as nat;
            lemma_mag_value_of(0xff_ffff, i);
            assert((r - 1) as nat == i * 0x80_0000 + 0xff_ffff);
            lemma_pow2_unfold(j);
            let p = pow2(i);
            assert(2 * (0xff_ffff * p) + 2 * p <= 2 * q * (2 * p)) by (nonlinear_arith)
                requires
                    q == 0x80_0000,
            ;
        }
    }
}

/// A larger magnitude has a larger value.
pub proof fn lemma_mag_monotone(r: nat, s: nat)
    requires
        r < s,
    ensures
        mag_value(r) < mag_value(s),
    decreases s,
{
    let (q, j) = lemma_mag_split((s - 1) as nat);
    lemma_mag_step(q, j);
    lemma_pow2_pos(j);
    assert((q + 1) * pow2(j) == q * pow2(j) + pow2(j)) by (nonlinear_arith);
    if r < s - 1 {
        lemma_mag_monotone(r, (s - 1) as nat);
    }
}

/// At most one magnitude is nearest.
pub proof fn lemma_nearest_unique(r: nat, s: nat, num: nat, den: nat)
    requires
        den > 0,
        nearest(r, num, den),
        nearest(s, num, den),
    ensures
        r == s,
{
    lemma_nearest_ordered(r, num, den, s, num, den);
    lemma_nearest_ordered(s, num, den, r, num, den);
}

/// Rounding keeps order: of two rationals, the smaller one has no larger a
/// nearest magnitude.
pub proof fn lemma_nearest_ordered(r: nat, num: nat, den: nat, s: nat, num2: nat, den2: nat)
    requires
        den > 0,
        den2 > 0,
        num * den2 <= num2 * den,
        nearest(r, num, den),
        nearest(s, num2, den2),
    ensures
        r <= s,
{
    if s < r {
        let below = mag_value((r - 1) as nat) + mag_value(r);
        let above = mag_value(s) + mag_value(s + 1);
        lemma_mag_monotone(s, r);
        if s < r - 1 {
            lemma_mag_monotone(s, (r - 1) as nat);
            lemma_mag_monotone(s + 1, r);
        }
        assert(above <= below);
        // den * below <= 2 * num and 2 * num2 <= den2 * above
        assert((den * below) * den2 <= (2 * num) * den2) by (nonlinear_arith)
            requires
                den * below <= 2 * num,
        ;
        assert((2 * num2) * den <= (den2 * above) * den) by (nonlinear_arith)
            requires
                2 * num2 <= den2 * above,
        ;
        assert((2 * num) * den2 <= (2 * num2) * den) by (nonlinear_arith)
            requires
                num * den2 <= num2 * den,
        ;
        assert((den * below) * den2 == (den * den2) * below) by (nonlinear_arith);
        assert((den2 * above) * den == (den * den2) * above) by (nonlinear_arith);
        assert(den * den2 > 0) by (nonlinear_arith)
            requires
                den > 0,
                den2 > 0,
        ;
        assert((den * den2) * below <= (den * den2) * above);
        lemma_mul_is_commutative((den * den2) as int, below as int);
        lemma_mul_is_commutative((den * den2) as int, above as int);
        lemma_mul_inequality_converse(below as int, above as int, (den * den2) as int);
        assert(below == above);
        assert(s == r - 1);
        // both sides are ties, so both neighbours would be even
        assert((2 * num) * den2 == (den * below) * den2);
        lemma_mul_equality_converse(den2 as int, (2 * num) as int, (den * below) as int);
        assert((2 * num2) * den == (den2 * above) * den);
        lemma_mul_equality_converse(den as int, (2 * num2) as int, (den2 * above) as int);
        assert(false);
    }
}

/// The nearest magnitude depends on the rational alone.
pub proof fn lemma_nearest_scale(r: nat, num: nat, den: nat, c: nat)
    requires
        c > 0,
        nearest(r, num * c, den * c),
    ensures
        nearest(r, num, den),
{
    if r > 0 {
        lemma_scale_half(num, den, mag_value((r - 1) as nat) + mag_value(r), c);
    }
    if r < INFINITE_MAG {
        lemma_scale_half(num, den, mag_value(r) + mag_value(r + 1), c);
    }
}

proof fn lemma_scale_half(num: nat, den: nat, v: nat, c: nat)
    requires
        c > 0,
    ensures
        2 * (num * c) > (den * c) * v ==> 2 * num > den * v,
        2 * (num * c) < (den * c) * v ==> 2 * num < den * v,
        2 * (num * c) == (den * c) * v ==> 2 * num == den * v,
{
    let x = (2 * num) as int;
    let y = (den * v) as int;
    let z = c as int;
    assert(2 * (num * c) == x * z) by (nonlinear_arith)
        requires
            x == 2 * num,
            z == c,
    ;
    assert((den * c) * v == y * z) by (nonlinear_arith)
        requires
            y == den * v,
            z == c,
    ;
    if x < y {
        lemma_mul_strict_inequality(x, y, z);
    } else if x > y {
        lemma_mul_strict_inequality(y, x, z);
    }
}

/// A rational between `q` and `q + 1` units of the scale `2^j` rounds to one of
/// the two.
pub proof fn lemma_nearest_at(q: nat, j: nat, up: bool, num: nat, den: nat)
    requires
        den > 0,
        j <= 253,
        q < 0x100_0000,
        j == 0 || q >= 0x80_0000,
        q * (pow2(j) * den) <= num < (q + 1) * (pow2(j) * den),
        up <==> (2 * num > (2 * q + 1) * (pow2(j) * den) || (2 * num == (2 * q + 1) * (pow2(j)
            * den) && q % 2 == 1)),
    ensures
        nearest(j * 0x80_0000 + q + (if up {
            1nat
        } else {
            0nat
        }), num, den),
{
    let r = j * 0x80_0000 + q;
    let p = pow2(j);
    let u = p * den;
    lemma_mag_step(q, j);
    lemma_pow2_pos(j);
    assert(u > 0) by (nonlinear_arith)
        requires
            u == p * den,
            p > 0,
            den > 0,
    ;
    assert(r % 2 == q % 2);
    assert(den * (mag_value(r) + mag_value(r + 1)) == (2 * q + 1) * u) by (nonlinear_arith)
        requires
            mag_value(r) == q * p,
            mag_value(r + 1) == (q + 1) * p,
            u == p * den,
    ;
    if up {
        if r + 1 < INFINITE_MAG {
            lemma_mag_monotone(r + 1, r + 2);
            assert(2 * num < den * (mag_value(r + 1) + mag_value(r + 2))) by (nonlinear_arith)
                requires
                    num < (q + 1) * u,
                    u == p * den,
                    den > 0,
                    mag_value(r + 1) == (q + 1) * p,
                    mag_value(r + 2) > mag_value(r + 1),
            ;
        }
    } else {
        if r > 0 {
            assert(2 * num > den * (mag_value((r - 1) as nat) + mag_value(r)))
                by (nonlinear_arith)
                requires
                    num >= q * u,
                    u == p * den,
                    den > 0,
                    p > 0,
                    mag_value(r) == q * p,
                    2 * mag_value((r - 1) as nat) + p <= 2 * q * p,
            ;
        }
    }
}

/// A rational at or above 2^128 rounds to infinity.
pub proof fn lemma_nearest_infinite(num: nat, den: nat)
    requires
        den > 0,
        num >= pow2(277) * den,
    ensures
        nearest(INFINITE_MAG as nat, num, den),
{
    lemma_mag_value_of(0x100_0000, 253);
    let below = mag_value((INFINITE_MAG - 1) as nat);
    lemma_mag_monotone((INFINITE_MAG - 1) as nat, INFINITE_MAG as nat);
    lemma2_to64();
    lemma_pow2_adds(24, 253);
    assert(mag_value(INFINITE_MAG as nat) == pow2(277));
    assert(2 * num > den * (below + pow2(277))) by (nonlinear_arith)
        requires
            num >= pow2(277) * den,
            below < pow2(277),
            den > 0,
    ;
}

/// Where `r` is nearest, it is what `round_mag` picks.
pub proof fn lemma_round_mag(r: nat, num: nat, den: nat)
    requires
        den > 0,
        nearest(r, num, den),
    ensures
        round_mag(num, den) == r,
{
    lemma_nearest_unique(r, round_mag(num, den), num, den);
}

/// The positive part of an exponent.
pub open spec fn up_shift(k: int) -> nat {
    if k > 0 {
        k as nat
    } else {
        0
    }
}

/// `m` units of `a` make up `b`; with `sticky` set, `b` lies strictly between `m`
/// and `m + 1` units.
pub open spec fn measured(m: nat, sticky: bool, a: nat, b: nat) -> bool {
    if sticky {
        m * a < b < (m + 1) * a
    } else {
        m * a == b
    }
}

/// `2^d` for a `d` that fits.
fn power_of_two(d: u32) -> (p: u128)
    requires
        d <= 127,
    ensures
        p == pow2(d as nat),
        1 <= p <= 0x8000_0000_0000_0000_0000_0000_0000_0000,
{
    let mut p: u128 = 1;
    let mut i: u32 = 0;
    proof {
        lemma2_to64();
        lemma_two_127();
    }
    while i < d
        invariant
            i <= d <= 127,
            p == pow2(i as nat),
            pow2(127) == 0x8000_0000_0000_0000_0000_0000_0000_0000,
        decreases d - i,
    {
        proof {
            lemma_pow2_unfold((i + 1) as nat);
            if i + 1 < 127 {
                lemma_pow2_strictly_increases((i + 1) as nat, 127);
            }
        }
        p = p * 2;
        i = i + 1;
    }
    proof {
        lemma_pow2_pos(d as nat);
        if d < 127 {
            lemma_pow2_strictly_increases(d as nat, 127);
        }
    }
    p
}

proof fn lemma_two_127()
    ensures
        pow2(127) == 0x8000_0000_0000_0000_0000_0000_0000_0000,
{
    lemma2_to64();
    lemma_pow2_adds(64, 32);
    lemma_pow2_adds(96, 31);
}

/// The number of binary digits of `m`.
fn bit_length(m: u128) -> (n: u32)
    requires
        m > 0,
    ensures
        1 <= n <= 128,
        pow2((n - 1) as nat) <= m < pow2(n as nat),
{
    let mut n: u32 = 1;
    let mut rest: u128 = m / 2;
    proof {
        lemma2_to64();
    }
    while rest > 0
        invariant
            1 <= n <= 128,
            rest * pow2(n as nat) <= m < (rest + 1) * pow2(n as nat),
            pow2((n - 1) as nat) <= m,
        decreases rest,
    {
        proof {
            lemma_pow2_unfold((n + 1) as nat);
            let p = pow2(n as nat);
            let half = rest / 2;
            assert(half * (2 * p) <= rest * p) by (nonlinear_arith)
                requires
                    2 * half <= rest,
            ;
            assert((rest + 1) * p <= (half + 1) * (2 * p)) by (nonlinear_arith)
                requires
                    rest + 1 <= 2 * (half + 1),
            ;
            assert(p <= rest * p) by (nonlinear_arith)
                requires
                    rest >= 1,
            ;
            if n >= 128 {
                lemma_two_127();
                lemma_pow2_unfold(128);
                if n > 128 {
                    lemma_pow2_strictly_increases(128, n as nat);
                }
                assert(false);
            }
        }
        rest = rest / 2;
        n = n + 1;
    }
    proof {
        lemma_mul_basics(pow2(n as nat) as int);
    }
    n
}

/// Rounds `num / den` units, handed over as `m` (and with `sticky` set a little
/// more) at the scale `2^k`, to its nearest magnitude.
pub fn round_parts(m: u128, k: i32, sticky: bool, Ghost(num): Ghost<nat>, Ghost(den): Ghost<nat>)
    -> (r: u32)
    requires
        den > 0,
        m < 0x4000_0000_0000_0000_0000_0000_0000_0000,
        -400 <= k <= 400,
        sticky ==> m >= 0x200_0000,
        measured(m as nat, sticky, den * pow2(up_shift(k as int)), num * pow2(up_shift(-k))),
    ensures
        nearest(r as nat, num, den),
        r == round_mag(num, den),
{
    let ghost up = up_shift(k as int);
    let ghost down = up_shift(-k);
    let ghost a = den * pow2(up);
    let ghost b = num * pow2(down);
    proof {
        lemma_pow2_pos(up);
        lemma_pow2_pos(down);
        assert(a > 0) by (nonlinear_arith)
            requires
                a == den * pow2(up),
                den > 0,
                pow2(up) > 0,
        ;
    }
    let r: u32 = if m == 0 {
        proof {
            lemma_mul_basics(a as int);
            lemma_mul_basics(den as int);
            assert(num == 0) by (nonlinear_arith)
                requires
                    num * pow2(down) == 0,
                    pow2(down) > 0,
            ;
            assert(mag_value(0) == 0 && mag_value(1) == 1);
            assert(den * (0 + 1) == den);
        }
        0
    } else {
        let n = bit_length(m);
        proof {
            lemma_bit_length(m as nat, n as nat);
        }
        let j: i32 = if k + n as i32 - 24 > 0 {
            k + n as i32 - 24
        } else {
            0
        };
        if j > 253 {
            proof {
                lemma_round_overflow(m as nat, k as nat, n as nat, num, den, a);
            }
            INFINITE_MAG
        } else if k >= j {
            proof {
                lemma_round_exact(m as nat, k as nat, j as nat, n as nat, num, den);
            }
            let shift = power_of_two((k - j) as u32);
            let q = m * shift;
            j as u32 * BINADE + q as u32
        } else if j - k > 127 {
            proof {
                lemma_round_vanishing(m as nat, (-k) as nat, sticky, num, den);
            }
            0
        } else {
            let unit = power_of_two((j - k) as u32);
            let half = unit / 2;
            let q = m / unit;
            let rem = m % unit;
            let up_one = rem > half || (rem == half && (sticky || q % 2 == 1));
            proof {
                lemma_round_shifted(m as nat, k as int, j as nat, n as nat, sticky, num, den);
            }
            if up_one {
                j as u32 * BINADE + q as u32 + 1
            } else {
                j as u32 * BINADE + q as u32
            }
        }
    };
    proof {
        lemma_round_mag(r as nat, num, den);
    }
    r
}

/// A number below 2^126 has at most 126 digits, and one of at least 2^25 has 26.
proof fn lemma_bit_length(m: nat, n: nat)
    requires
        0 < m < 0x4000_0000_0000_0000_0000_0000_0000_0000,
        1 <= n,
        pow2((n - 1) as nat) <= m < pow2(n),
    ensures
        n <= 126,
        m >= 0x200_0000 ==> n >= 26,
{
    lemma2_to64();
    lemma_two_127();
    lemma_pow2_unfold(127);
    if n > 126 {
        if n - 1 > 126 {
            lemma_pow2_strictly_increases(126, (n - 1) as nat);
        }
    }
    if n < 26 && n < 25 {
        lemma_pow2_strictly_increases(n, 25);
    }
}

proof fn lemma_round_overflow(m: nat, k: nat, n: nat, num: nat, den: nat, a: nat)
    requires
        den > 0,
        n >= 1,
        k + n - 24 > 253,
        pow2((n - 1) as nat) <= m,
        a == den * pow2(k),
        m * a <= num * pow2(0),
    ensures
        nearest(INFINITE_MAG as nat, num, den),
{
    lemma2_to64();
    lemma_mul_basics(num as int);
    let lead = pow2((n - 1) as nat);
    lemma_pow2_adds((n - 1) as nat, k);
    if k + n - 1 > 277 {
        lemma_pow2_strictly_increases(277, (k + n - 1) as nat);
    }
    let p = pow2(k);
    assert(pow2(277) <= lead * p);
    assert(pow2(277) * den <= m * a) by (nonlinear_arith)
        requires
            pow2(277) <= lead * p,
            lead <= m,
            a == den * p,
    ;
    lemma_nearest_infinite(num, den);
}

proof fn lemma_round_exact(m: nat, k: nat, j: nat, n: nat, num: nat, den: nat)
    requires
        den > 0,
        j <= k,
        j <= 253,
        1 <= n,
        pow2((n - 1) as nat) <= m < pow2(n),
        k + n - 24 <= j,
        j == 0 || k + n - 24 == j,
        m * (den * pow2(k)) == num * pow2(0),
    ensures
        k - j <= 23,
        m * pow2((k - j) as nat) < 0x100_0000,
        nearest(j * 0x80_0000 + m * pow2((k - j) as nat), num, den),
{
    let s = (k - j) as nat;
    let q = m * pow2(s);
    lemma2_to64();
    lemma_mul_basics(num as int);
    lemma_pow2_adds(n, s);
    lemma_pow2_pos(s);
    lemma_mul_strict_inequality(m as int, pow2(n) as int, pow2(s) as int);
    if n + s < 24 {
        lemma_pow2_strictly_increases(n + s, 24);
    }
    lemma_pow2_adds((n - 1) as nat, s);
    lemma_mul_inequality(pow2((n - 1) as nat) as int, m as int, pow2(s) as int);
    lemma_pow2_adds(s, j);
    let u = pow2(j) * den;
    assert(num == q * u) by (nonlinear_arith)
        requires
            m * (den * pow2(k)) == num,
            pow2(k) == pow2(s) * pow2(j),
            q == m * pow2(s),
            u == pow2(j) * den,
    ;
    lemma_pow2_pos(j);
    assert(u > 0) by (nonlinear_arith)
        requires
            u == pow2(j) * den,
            pow2(j) > 0,
            den > 0,
    ;
    assert(q * u < (q + 1) * u) by (nonlinear_arith)
        requires
            u > 0,
    ;
    assert(2 * (q * u) < (2 * q + 1) * u) by (nonlinear_arith)
        requires
            u > 0,
    ;
    lemma_nearest_at(q, j, false, num, den);
}

proof fn lemma_round_vanishing(m: nat, d: nat, sticky: bool, num: nat, den: nat)
    requires
        den > 0,
        d >= 128,
        m < 0x4000_0000_0000_0000_0000_0000_0000_0000,
        measured(m, sticky, den * pow2(0), num * pow2(d)),
    ensures
        nearest(0, num, den),
{
    lemma2_to64();
    lemma_two_127();
    lemma_pow2_unfold(127);
    lemma_pow2_unfold(128);
    lemma_mul_basics(den as int);
    if d > 128 {
        lemma_pow2_strictly_increases(128, d);
    }
    assert(num * pow2(d) <= (m + 1) * den) by (nonlinear_arith)
        requires
            m * den == num * pow2(d) || num * pow2(d) < (m + 1) * den,
            den > 0,
    ;
    let c = pow2(126);
    assert(2 * num < den) by (nonlinear_arith)
        requires
            num * pow2(d) <= (m + 1) * den,
            m + 1 <= c,
            pow2(d) >= 4 * c,
            c > 0,
            den > 0,
    ;
    assert(mag_value(0) == 0 && mag_value(1) == 1);
    assert(den * (0 + 1) == den);
}

proof fn lemma_round_shifted(
    m: nat,
    k: int,
    j: nat,
    n: nat,
    sticky: bool,
    num: nat,
    den: nat,
)
    requires
        den > 0,
        k < j <= 253,
        j - k <= 127,
        1 <= n,
        pow2((n - 1) as nat) <= m < pow2(n),
        k + n - 24 <= j,
        j == 0 || k + n - 24 == j,
        measured(m, sticky, den * pow2(up_shift(k)), num * pow2(up_shift(-k))),
    ensures
        ({
            let unit = pow2((j - k) as nat);
            let q = m / unit;
            let rem = m % unit;
            let half = unit / 2;
            let up_one = rem > half || (rem == half && (sticky || q % 2 == 1));
            &&& q < 0x100_0000
            &&& nearest(j * 0x80_0000 + q + (if up_one {
                1nat
            } else {
                0nat
            }), num, den)
        }),
{
    let d = (j - k) as nat;
    let unit = pow2(d);
    let q = m / unit;
    let rem = m % unit;
    let half = unit / 2;
    let up_one = rem > half || (rem == half && (sticky || q % 2 == 1));
    let up = up_shift(k);
    let down = up_shift(-k);
    let a = den * pow2(up);
    let b = num * pow2(down);
    let den2 = den * pow2(down);
    lemma2_to64();
    lemma_pow2_pos(d);
    lemma_pow2_pos(up);
    lemma_pow2_pos(down);
    lemma_pow2_unfold(d);
    assert(unit == 2 * half);
    assert(m == q * unit + rem && rem < unit) by {
        vstd::arithmetic::div_mod::lemma_fundamental_div_mod(m as int, unit as int);
        lemma_mul_is_commutative(q as int, unit as int);
    }
    // 0 <= q < 2^24, and q >= 2^23 above the lowest binade
    if d + 24 > n {
        lemma_pow2_strictly_increases(n, d + 24);
    }
    lemma_pow2_adds(24, d);
    assert(q < 0x100_0000) by (nonlinear_arith)
        requires
            m < 0x100_0000 * unit,
            m == q * unit + rem,
            rem >= 0,
            unit > 0,
    ;
    if j > 0 {
        lemma_pow2_adds(23, d);
        assert((n - 1) as nat == 23 + d);
        assert(q >= 0x80_0000) by (nonlinear_arith)
            requires
                m >= 0x80_0000 * unit,
                m == q * unit + rem,
                rem < unit,
                unit > 0,
        ;
    }
    // one unit of the scale 2^j, measured both ways
    let u = pow2(j) * den2;
    assert(u == unit * a) by {
        lemma_pow2_adds(j, down);
        lemma_pow2_adds(d, up);
        assert(j + down == d + up);
        assert(pow2(j) * (den * pow2(down)) == den * (pow2(j) * pow2(down))) by (nonlinear_arith);
        assert(unit * (den * pow2(up)) == den * (unit * pow2(up))) by (nonlinear_arith);
    }
    assert(a > 0) by (nonlinear_arith)
        requires
            a == den * pow2(up),
            den > 0,
            pow2(up) > 0,
    ;
    assert(den2 > 0) by (nonlinear_arith)
        requires
            den2 == den * pow2(down),
            den > 0,
            pow2(down) > 0,
    ;
    assert(m * a == q * u + rem * a) by (nonlinear_arith)
        requires
            m == q * unit + rem,
            u == unit * a,
    ;
    assert((m + 1) * a == m * a + a) by (nonlinear_arith);
    assert((rem + 1) * a <= unit * a) by (nonlinear_arith)
        requires
            rem + 1 <= unit,
            a > 0,
    ;
    assert((rem + 1) * a == rem * a + a) by (nonlinear_arith);
    assert(0 <= rem * a) by (nonlinear_arith);
    assert((q + 1) * u == q * u + u) by (nonlinear_arith);
    assert(q * u <= b < (q + 1) * u);
    // the halfway point
    assert((2 * q + 1) * u == 2 * (q * u) + u) by (nonlinear_arith);
    assert(u == 2 * (half * a)) by (nonlinear_arith)
        requires
            u == unit * a,
            unit == 2 * half,
    ;
    if rem > half {
        assert(rem * a >= half * a + a) by (nonlinear_arith)
            requires
                rem >= half + 1,
                a > 0,
        ;
    } else if rem < half {
        assert(rem * a + a <= half * a) by (nonlinear_arith)
            requires
                rem + 1 <= half,
                a > 0,
        ;
    }
    lemma_nearest_at(q, j, up_one, b, den2);
    lemma_nearest_scale(
        j * 0x80_0000 + q + (if up_one {
            1nat
        } else {
            0nat
        }),
        num,
        den,
        pow2(down),
    );
}

} // verus!
