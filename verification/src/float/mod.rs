//! Single-precision numbers as bit patterns.
//!
//! [`F32`] holds the bits of an IEEE 754 binary32 number and computes on them
//! with integer arithmetic: round to nearest, ties to even, with subnormals,
//! signed zeros, infinities and NaN. Every operation that yields a NaN yields
//! the canonical quiet one.

pub mod laws;
pub mod order;
pub mod rounding;

use crate::float::rounding::{
    lemma_mag_monotone, lemma_mag_split, lemma_mag_step, lemma_mag_value_of, lemma_nearest_at,
    lemma_nearest_infinite, lemma_nearest_ordered, lemma_round_mag, mag_value, measured, nearest, round_mag, round_parts, up_shift, BINADE,
    INFINITE_MAG,
};
use vstd::arithmetic::mul::*;
use vstd::arithmetic::power2::*;
use vstd::prelude::*;

verus! {

/// The bit that holds the sign.
pub const SIGN_BIT: u32 = 0x8000_0000;

/// The canonical quiet NaN.
pub const NAN_BITS: u32 = 0x7fc0_0000;

/// An IEEE 754 binary32 number, by its bits.
///
/// `==` on this type compares bits; [`F32::eq_value`] compares as numbers.
#[derive(Clone, Copy, Debug, PartialEq, Eq, Structural)]
pub struct F32 {
    pub bits: u32,
}

/// The number with the given sign and magnitude.
pub open spec fn packed(negative: bool, mag: nat) -> F32 {
    F32 {
        bits: (if negative {
            0x8000_0000 + mag
        } else {
            mag
        }) as u32,
    }
}

/// The number with these bits.
pub open spec fn number(bits: u32) -> F32 {
    F32 { bits }
}

/// The canonical NaN.
pub open spec fn nan_value() -> F32 {
    F32 { bits: NAN_BITS }
}

/// The absolute value of an integer.
pub open spec fn abs_int(x: int) -> nat {
    if x < 0 {
        (-x) as nat
    } else {
        x as nat
    }
}

impl F32 {
    /// The sign bit is set.
    pub open spec fn negative(self) -> bool {
        self.bits >= SIGN_BIT
    }

    /// The bits below the sign.
    pub open spec fn magnitude(self) -> nat {
        (self.bits % SIGN_BIT) as nat
    }

    /// Not a number.
    pub open spec fn nan(self) -> bool {
        self.magnitude() > INFINITE_MAG
    }

    /// One of the two infinities.
    pub open spec fn infinite(self) -> bool {
        self.magnitude() == INFINITE_MAG
    }

    /// Neither infinite nor NaN.
    pub open spec fn finite(self) -> bool {
        self.magnitude() < INFINITE_MAG
    }

    /// The value of a finite number in units of 2^-149.
    pub open spec fn scaled(self) -> int {
        if self.negative() {
            -(mag_value(self.magnitude()) as int)
        } else {
            mag_value(self.magnitude()) as int
        }
    }

    /// The place of a number that is not NaN among all of them; both zeros have
    /// the place 0.
    pub open spec fn rank(self) -> int {
        if self.negative() {
            -(self.magnitude() as int)
        } else {
            self.magnitude() as int
        }
    }

    /// `self < other`.
    #[verifier::opaque]
    pub open spec fn below(self, other: F32) -> bool {
        !self.nan() && !other.nan() && self.rank() < other.rank()
    }

    /// `self <= other`.
    #[verifier::opaque]
    pub open spec fn at_most(self, other: F32) -> bool {
        !self.nan() && !other.nan() && self.rank() <= other.rank()
    }

    /// `self == other` as numbers.
    #[verifier::opaque]
    pub open spec fn same_value(self, other: F32) -> bool {
        !self.nan() && !other.nan() && self.rank() == other.rank()
    }

    /// `-self`.
    #[verifier::opaque]
    pub open spec fn negated(self) -> F32 {
        packed(!self.negative(), self.magnitude())
    }

    /// The absolute value.
    #[verifier::opaque]
    pub open spec fn absolute(self) -> F32 {
        packed(false, self.magnitude())
    }

    /// `self + other`.
    #[verifier::opaque]
    pub open spec fn sum(self, other: F32) -> F32 {
        if self.nan() || other.nan() {
            nan_value()
        } else if self.infinite() {
            if other.infinite() && self.negative() != other.negative() {
                nan_value()
            } else {
                self
            }
        } else if other.infinite() {
            other
        } else {
            let exact = self.scaled() + other.scaled();
            if exact == 0 {
                packed(self.negative() && other.negative(), 0)
            } else {
                packed(exact < 0, round_mag(abs_int(exact), 1))
            }
        }
    }

    /// `self - other`.
    pub open spec fn difference(self, other: F32) -> F32 {
        self.sum(other.negated())
    }

    /// `self * other`.
    #[verifier::opaque]
    pub open spec fn product(self, other: F32) -> F32 {
        let negative = self.negative() != other.negative();
        if self.nan() || other.nan() {
            nan_value()
        } else if self.infinite() || other.infinite() {
            if self.magnitude() == 0 || other.magnitude() == 0 {
                nan_value()
            } else {
                packed(negative, INFINITE_MAG as nat)
            }
        } else {
            packed(
                negative,
                round_mag(
                    mag_value(self.magnitude()) * mag_value(other.magnitude()),
                    pow2(149),
                ),
            )
        }
    }

    /// `self / other`.
    #[verifier::opaque]
    pub open spec fn quotient(self, other: F32) -> F32 {
        let negative = self.negative() != other.negative();
        if self.nan() || other.nan() || (self.infinite() && other.infinite()) || (self.magnitude()
            == 0 && other.magnitude() == 0) {
            nan_value()
        } else if self.infinite() || other.magnitude() == 0 {
            packed(negative, INFINITE_MAG as nat)
        } else if other.infinite() {
            packed(negative, 0)
        } else {
            packed(
                negative,
                round_mag(mag_value(self.magnitude()) * pow2(149), mag_value(other.magnitude())),
            )
        }
    }

    /// The number nearest to the integer `n`.
    #[verifier::opaque]
    pub open spec fn of_integer(n: nat) -> F32 {
        packed(false, round_mag(n * pow2(149), 1))
    }

    /// The number with these bits.
    pub fn from_bits(bits: u32) -> (x: F32)
        ensures
            x == (F32 { bits }),
    {
        F32 { bits }
    }

    /// The bits of the number.
    pub fn to_bits(self) -> (bits: u32)
        ensures
            bits == self.bits,
    {
        self.bits
    }

    fn sign(self) -> (negative: bool)
        ensures
            negative == self.negative(),
    {
        self.bits >= SIGN_BIT
    }

    fn mag(self) -> (m: u32)
        ensures
            m == self.magnitude(),
            m < SIGN_BIT,
    {
        self.bits % SIGN_BIT
    }

    /// True of every number that is neither infinite nor NaN.
    pub fn is_finite(self) -> (b: bool)
        ensures
            b == self.finite(),
    {
        self.mag() < INFINITE_MAG
    }

    /// True of every NaN.
    pub fn is_nan(self) -> (b: bool)
        ensures
            b == self.nan(),
    {
        self.mag() > INFINITE_MAG
    }

    fn rank_exec(self) -> (k: i64)
        ensures
            k == self.rank(),
    {
        if self.sign() {
            -(self.mag() as i64)
        } else {
            self.mag() as i64
        }
    }

    /// `self < other`; false where either is NaN.
    pub fn lt(self, other: F32) -> (b: bool)
        ensures
            b == self.below(other),
    {
        proof {
            reveal(F32::below);
        }
        !self.is_nan() && !other.is_nan() && self.rank_exec() < other.rank_exec()
    }

    /// `self <= other`; false where either is NaN.
    pub fn le(self, other: F32) -> (b: bool)
        ensures
            b == self.at_most(other),
    {
        proof {
            reveal(F32::at_most);
        }
        !self.is_nan() && !other.is_nan() && self.rank_exec() <= other.rank_exec()
    }

    /// `self > other`; false where either is NaN.
    pub fn gt(self, other: F32) -> (b: bool)
        ensures
            b == other.below(self),
    {
        other.lt(self)
    }

    /// `self >= other`; false where either is NaN.
    pub fn ge(self, other: F32) -> (b: bool)
        ensures
            b == other.at_most(self),
    {
        other.le(self)
    }

    /// `self == other` as numbers: the zeros are equal, a NaN equals nothing.
    pub fn eq_value(self, other: F32) -> (b: bool)
        ensures
            b == self.same_value(other),
    {
        proof {
            reveal(F32::same_value);
        }
        !self.is_nan() && !other.is_nan() && self.rank_exec() == other.rank_exec()
    }

    /// `-self`.
    pub fn neg(self) -> (r: F32)
        ensures
            r == self.negated(),
    {
        proof {
            reveal(F32::negated);
        }
        if self.sign() {
            F32 { bits: self.mag() }
        } else {
            F32 { bits: self.mag() + SIGN_BIT }
        }
    }

    /// The absolute value.
    pub fn abs(self) -> (r: F32)
        ensures
            r == self.absolute(),
    {
        proof {
            reveal(F32::absolute);
        }
        F32 { bits: self.mag() }
    }

    /// Sign and magnitude put together.
    fn pack(negative: bool, mag: u32) -> (r: F32)
        requires
            mag <= INFINITE_MAG,
        ensures
            r == packed(negative, mag as nat),
    {
        if negative {
            F32 { bits: SIGN_BIT + mag }
        } else {
            F32 { bits: mag }
        }
    }

    /// Significand and scale of a finite magnitude.
    fn split(mag: u32) -> (res: (u32, u32))
        requires
            mag < INFINITE_MAG,
        ensures
            res.0 < 0x100_0000,
            res.1 <= 253,
            res.1 > 0 ==> res.0 >= 0x80_0000,
            mag == res.1 * 0x80_0000 + res.0,
            mag_value(mag as nat) == res.0 * pow2(res.1 as nat),
            res.0 == 0 <==> mag == 0,
    {
        let exponent = mag / BINADE;
        let fraction = mag % BINADE;
        if exponent == 0 {
            proof {
                lemma_mag_value_of(fraction as nat, 0);
            }
            (fraction, 0)
        } else {
            proof {
                lemma_mag_value_of((BINADE + fraction) as nat, (exponent - 1) as nat);
            }
            (BINADE + fraction, exponent - 1)
        }
    }

    /// `self + other`.
    pub fn add(self, other: F32) -> (r: F32)
        ensures
            r == self.sum(other),
    {
        proof {
            reveal(F32::sum);
        }
        if self.is_nan() || other.is_nan() {
            F32 { bits: NAN_BITS }
        } else if self.mag() == INFINITE_MAG {
            if other.mag() == INFINITE_MAG && self.sign() != other.sign() {
                F32 { bits: NAN_BITS }
            } else {
                self
            }
        } else if other.mag() == INFINITE_MAG {
            other
        } else if self.mag() / BINADE >= other.mag() / BINADE {
            self.add_finite(other)
        } else {
            other.add_finite(self)
        }
    }

    /// The sum of two finite numbers, the first of which has no smaller scale.
    fn add_finite(self, other: F32) -> (r: F32)
        requires
            self.finite(),
            other.finite(),
            self.magnitude() / 0x80_0000 >= other.magnitude() / 0x80_0000,
        ensures
            r == ({
                let exact = self.scaled() + other.scaled();
                if exact == 0 {
                    packed(self.negative() && other.negative(), 0)
                } else {
                    packed(exact < 0, round_mag(abs_int(exact), 1))
                }
            }),
    {
        let (ma, ka) = F32::split(self.mag());
        let (mb, kb) = F32::split(other.mag());
        let d = ka - kb;
        let ghost va = mag_value(self.magnitude());
        let ghost vb = mag_value(other.magnitude());
        let ghost exact = self.scaled() + other.scaled();
        proof {
            lemma_pow2_pos(ka as nat);
            lemma_pow2_pos(kb as nat);
        }
        if d > 100 {
            proof {
                lemma_add_negligible(
                    self.magnitude(),
                    ma as nat,
                    ka as nat,
                    mb as nat,
                    kb as nat,
                    self.negative() == other.negative(),
                );
                lemma_round_mag(self.magnitude(), abs_int(exact), 1);
            }
            self
        } else {
            let mut scale: u128 = 1;
            let mut i: u32 = 0;
            proof {
                lemma2_to64();
                lemma_pow2_adds(64, 36);
                lemma_pow2_adds(32, 4);
            }
            while i < d
                invariant
                    i <= d <= 100,
                    scale == pow2(i as nat),
                    pow2(100) == 0x10_0000_0000_0000_0000_0000_0000,
                decreases d - i,
            {
                proof {
                    lemma_pow2_unfold((i + 1) as nat);
                    if i + 1 < 100 {
                        lemma_pow2_strictly_increases((i + 1) as nat, 100);
                    }
                }
                scale = scale * 2;
                i = i + 1;
            }
            proof {
                if d < 100 {
                    lemma_pow2_strictly_increases(d as nat, 100);
                }
                assert(ma * scale <= 0x100_0000 * 0x10_0000_0000_0000_0000_0000_0000)
                    by (nonlinear_arith)
                    requires
                        ma <= 0x100_0000,
                        scale <= 0x10_0000_0000_0000_0000_0000_0000,
                ;
            }
            let x: u128 = ma as u128 * scale;
            let y: u128 = mb as u128;
            let ghost p = pow2(kb as nat);
            proof {
                lemma_pow2_adds(d as nat, kb as nat);
                assert(va == x * p) by (nonlinear_arith)
                    requires
                        va == ma * pow2(ka as nat),
                        pow2(ka as nat) == scale * p,
                        x == ma * scale,
                ;
                assert(vb == y * p);
                lemma_common_scale(x as int, y as int, p);
            }
            let same = self.sign() == other.sign();
            let (m, negative): (u128, bool) = if same {
                (x + y, self.sign())
            } else if x >= y {
                (x - y, self.sign())
            } else {
                (y - x, other.sign())
            };
            proof {
                assert(abs_int(exact) == m * p);
                assert(m == 0 ==> exact == 0) by {
                    lemma_mul_basics(p as int);
                }
                assert(m > 0 ==> m * p > 0) by (nonlinear_arith)
                    requires
                        p > 0,
                ;
            }
            if m == 0 {
                F32::pack(self.sign() && other.sign(), 0)
            } else {
                proof {
                    lemma2_to64();
                    lemma_mul_basics(p as int);
                    lemma_mul_basics(abs_int(exact) as int);
                }
                let mag = round_parts(m, kb as i32, false, Ghost(abs_int(exact)), Ghost(1));
                F32::pack(negative, mag)
            }
        }
    }

    /// `self - other`.
    pub fn sub(self, other: F32) -> (r: F32)
        ensures
            r == self.difference(other),
    {
        self.add(other.neg())
    }

    /// `self * other`.
    pub fn mul(self, other: F32) -> (r: F32)
        ensures
            r == self.product(other),
    {
        proof {
            reveal(F32::product);
        }
        let negative = self.sign() != other.sign();
        if self.is_nan() || other.is_nan() {
            F32 { bits: NAN_BITS }
        } else if self.mag() == INFINITE_MAG || other.mag() == INFINITE_MAG {
            if self.mag() == 0 || other.mag() == 0 {
                F32 { bits: NAN_BITS }
            } else {
                F32::pack(negative, INFINITE_MAG)
            }
        } else {
            let (ma, ka) = F32::split(self.mag());
            let (mb, kb) = F32::split(other.mag());
            let ghost num = mag_value(self.magnitude()) * mag_value(other.magnitude());
            proof {
                assert(ma * mb < 0x1_0000_0000_0000) by (nonlinear_arith)
                    requires
                        ma < 0x100_0000,
                        mb < 0x100_0000,
                ;
            }
            let m: u128 = ma as u128 * mb as u128;
            let k: i32 = ka as i32 + kb as i32 - 149;
            proof {
                lemma_mul_measured(ma as nat, ka as nat, mb as nat, kb as nat);
                lemma_pow2_pos(149);
            }
            let mag = round_parts(m, k, false, Ghost(num), Ghost(pow2(149)));
            F32::pack(negative, mag)
        }
    }

    /// `self / other`.
    pub fn div(self, other: F32) -> (r: F32)
        ensures
            r == self.quotient(other),
            self.finite() && other.finite() && other.magnitude() > 0 ==> !r.nan(),
    {
        proof {
            reveal(F32::quotient);
        }
        let negative = self.sign() != other.sign();
        if self.is_nan() || other.is_nan() || (self.mag() == INFINITE_MAG && other.mag()
            == INFINITE_MAG) || (self.mag() == 0 && other.mag() == 0) {
            F32 { bits: NAN_BITS }
        } else if self.mag() == INFINITE_MAG || other.mag() == 0 {
            F32::pack(negative, INFINITE_MAG)
        } else if other.mag() == INFINITE_MAG {
            F32::pack(negative, 0)
        } else {
            let (ma, ka) = F32::split(self.mag());
            let (mb, kb) = F32::split(other.mag());
            let ghost num = mag_value(self.magnitude()) * pow2(149);
            let ghost den = mag_value(other.magnitude());
            let wide: u128 = ma as u128 * 0x1_0000_0000_0000_0000;
            let m: u128 = wide / mb as u128;
            let sticky = wide % mb as u128 != 0;
            let k: i32 = ka as i32 - kb as i32 + 85;
            proof {
                lemma_div_measured(ma as nat, ka as nat, mb as nat, kb as nat);
                lemma_pow2_pos(kb as nat);
                assert(den > 0) by (nonlinear_arith)
                    requires
                        den == mb * pow2(kb as nat),
                        mb > 0,
                        pow2(kb as nat) > 0,
                ;
            }
            let mag = round_parts(m, k, sticky, Ghost(num), Ghost(den));
            F32::pack(negative, mag)
        }
    }

    /// The number nearest to `n`.
    pub fn from_u32(n: u32) -> (r: F32)
        ensures
            r == F32::of_integer(n as nat),
    {
        let ghost num = n as nat * pow2(149);
        proof {
            reveal(F32::of_integer);
            lemma2_to64();
            lemma_mul_basics(pow2(149) as int);
            lemma_mul_basics(num as int);
        }
        let mag = round_parts(n as u128, 149, false, Ghost(num), Ghost(1));
        F32::pack(false, mag)
    }
}

/// Sum and difference of two multiples of `p`.
proof fn lemma_common_scale(x: int, y: int, p: nat)
    ensures
        x * p + y * p == (x + y) * p,
        x * p - y * p == (x - y) * p,
        y * p - x * p == (y - x) * p,
        x >= y ==> x * p >= y * p,
        y >= x ==> y * p >= x * p,
        (x > y && p > 0) ==> x * p > y * p,
        (y > x && p > 0) ==> y * p > x * p,
        x >= 0 ==> x * p >= 0,
        y >= 0 ==> y * p >= 0,
{
    lemma_mul_is_distributive_add_other_way(p as int, x, y);
    lemma_mul_is_distributive_sub_other_way(p as int, x, y);
    lemma_mul_is_distributive_sub_other_way(p as int, y, x);
    if x >= y {
        lemma_mul_inequality(y, x, p as int);
    }
    if y >= x {
        lemma_mul_inequality(x, y, p as int);
    }
    if x > y && p > 0 {
        lemma_mul_strict_inequality(y, x, p as int);
    }
    if y > x && p > 0 {
        lemma_mul_strict_inequality(x, y, p as int);
    }
    if x >= 0 {
        lemma_mul_nonnegative(x, p as int);
    }
    if y >= 0 {
        lemma_mul_nonnegative(y, p as int);
    }
}

/// An addend more than 100 binades below leaves the larger one the nearest.
proof fn lemma_add_negligible(r: nat, ma: nat, ka: nat, mb: nat, kb: nat, same: bool)
    requires
        r == ka * 0x80_0000 + ma,
        r < INFINITE_MAG,
        0x80_0000 <= ma < 0x100_0000,
        mb < 0x100_0000,
        ka > kb + 100,
    ensures
        mb * pow2(kb) < ma * pow2(ka),
        same ==> nearest(r, ma * pow2(ka) + mb * pow2(kb), 1),
        !same ==> nearest(r, (ma * pow2(ka) - mb * pow2(kb)) as nat, 1),
{
    let pa = pow2(ka);
    let pb = pow2(kb);
    let va = ma * pa;
    let vb = mb * pb;
    lemma_pow2_pos(kb);
    lemma_pow2_pos(ka);
    lemma2_to64();
    lemma_pow2_adds(26, kb);
    lemma_pow2_strictly_increases(26 + kb, ka);
    assert(4 * vb < pa) by (nonlinear_arith)
        requires
            vb == mb * pb,
            mb < 0x100_0000,
            pb > 0,
            0x400_0000 * pb < pa,
    ;
    lemma_mag_step(ma, ka);
    assert((ma + 1) * pa == va + pa) by (nonlinear_arith)
        requires
            va == ma * pa,
    ;
    assert(2 * ma * pa == 2 * va) by (nonlinear_arith)
        requires
            va == ma * pa,
    ;
    assert(va >= pa) by (nonlinear_arith)
        requires
            va == ma * pa,
            ma >= 1,
    ;
    lemma_mul_basics((mag_value((r - 1) as nat) + mag_value(r)) as int);
    lemma_mul_basics((mag_value(r) + mag_value(r + 1)) as int);
}

/// What `mul` hands to the rounding.
proof fn lemma_mul_measured(ma: nat, ka: nat, mb: nat, kb: nat)
    ensures
        measured(
            ma * mb,
            false,
            pow2(149) * pow2(up_shift(ka + kb - 149)),
            ((ma * pow2(ka)) * (mb * pow2(kb))) * pow2(up_shift(149 - (ka + kb))),
        ),
{
    let k = ka + kb - 149;
    let up = up_shift(k);
    let down = up_shift(-k);
    let pa = pow2(ka);
    let pb = pow2(kb);
    lemma_pow2_adds(149, up);
    lemma_pow2_adds(ka, kb);
    lemma_pow2_adds(ka + kb, down);
    assert(149 + up == ka + kb + down);
    assert((ma * pa) * (mb * pb) == (ma * mb) * (pa * pb)) by (nonlinear_arith);
    assert(((ma * mb) * (pa * pb)) * pow2(down) == (ma * mb) * ((pa * pb) * pow2(down)))
        by (nonlinear_arith);
}

/// What `div` hands to the rounding.
proof fn lemma_div_measured(ma: nat, ka: nat, mb: nat, kb: nat)
    requires
        ma < 0x100_0000,
        0 < mb < 0x100_0000,
        ma > 0 || ka == 0,
    ensures
        ({
            let wide = ma * 0x1_0000_0000_0000_0000;
            let k = ka - kb + 85;
            let m = wide / mb;
            let sticky = wide % mb != 0;
            &&& m < 0x4000_0000_0000_0000_0000_0000_0000_0000
            &&& sticky ==> m >= 0x200_0000
            &&& measured(
                m,
                sticky,
                (mb * pow2(kb)) * pow2(up_shift(k)),
                ((ma * pow2(ka)) * pow2(149)) * pow2(up_shift(-k)),
            )
        }),
{
    let wide = ma * 0x1_0000_0000_0000_0000;
    let k = ka - kb + 85;
    let m = wide / mb;
    let rem = wide % mb;
    let up = up_shift(k);
    let down = up_shift(-k);
    let pa = pow2(ka);
    let pb = pow2(kb);
    assert(wide == m * mb + rem && rem < mb) by {
        vstd::arithmetic::div_mod::lemma_fundamental_div_mod(wide as int, mb as int);
        lemma_mul_is_commutative(mb as int, m as int);
    }
    assert(m <= wide) by (nonlinear_arith)
        requires
            wide == m * mb + rem,
            mb >= 1,
    ;
    if rem != 0 {
        assert(m >= 0x200_0000) by (nonlinear_arith)
            requires
                wide == m * mb + rem,
                rem < mb,
                mb < 0x100_0000,
                wide >= 0x1_0000_0000_0000_0000,
        ;
    }
    // both sides over the common scale 2^c
    let c = kb + up;
    lemma_pow2_adds(kb, up);
    lemma_pow2_adds(ka, 149);
    lemma_pow2_adds(ka + 149, down);
    lemma_pow2_adds(64, c);
    lemma2_to64();
    assert(ka + 149 + down == 64 + c);
    let p = pow2(c);
    lemma_pow2_pos(c);
    assert((mb * pb) * pow2(up) == mb * p) by (nonlinear_arith)
        requires
            p == pb * pow2(up),
    ;
    assert(((ma * pa) * pow2(149)) * pow2(down) == ma * ((pa * pow2(149)) * pow2(down)))
        by (nonlinear_arith);
    assert(ma * (0x1_0000_0000_0000_0000 * p) == wide * p) by (nonlinear_arith)
        requires
            wide == ma * 0x1_0000_0000_0000_0000,
    ;
    assert(wide * p == m * (mb * p) + rem * p) by (nonlinear_arith)
        requires
            wide == m * mb + rem,
    ;
    assert((m + 1) * (mb * p) == m * (mb * p) + mb * p) by (nonlinear_arith);
    if rem != 0 {
        assert(0 < rem * p < mb * p) by (nonlinear_arith)
            requires
                0 < rem < mb,
                p > 0,
        ;
    } else {
        lemma_mul_basics(p as int);
    }
}

/// Finite numbers are ordered by their values.
pub proof fn order_is_by_value(a: F32, b: F32)
    requires
        a.finite(),
        b.finite(),
    ensures
        a.below(b) <==> a.scaled() < b.scaled(),
        a.at_most(b) <==> a.scaled() <= b.scaled(),
        a.same_value(b) <==> a.scaled() == b.scaled(),
{
    reveal(F32::below);
    reveal(F32::at_most);
    reveal(F32::same_value);
    let r = a.magnitude();
    let s = b.magnitude();
    lemma2_to64();
    assert(mag_value(0) == 0);
    if r > 0 {
        lemma_mag_monotone(0, r);
    }
    if s > 0 {
        lemma_mag_monotone(0, s);
    }
    if r < s {
        lemma_mag_monotone(r, s);
    } else if s < r {
        lemma_mag_monotone(s, r);
    }
}

/// Of two numbers that are not NaN exactly one is below the other, or they are
/// the same; next to a NaN nothing holds.
pub proof fn order_is_total(a: F32, b: F32)
    ensures
        a.nan() || b.nan() ==> !a.below(b) && !a.at_most(b) && !a.same_value(b) && !b.below(a),
        !a.nan() && !b.nan() ==> {
            &&& a.at_most(b) <==> !b.below(a)
            &&& a.at_most(b) <==> (a.below(b) || a.same_value(b))
            &&& !(a.below(b) && a.same_value(b))
            &&& a.same_value(b) <==> b.same_value(a)
        },
{
    reveal(F32::below);
    reveal(F32::at_most);
    reveal(F32::same_value);
}

/// The order is transitive.
pub proof fn order_is_transitive(a: F32, b: F32, c: F32)
    ensures
        a.below(b) && b.at_most(c) ==> a.below(c),
        a.at_most(b) && b.below(c) ==> a.below(c),
        a.at_most(b) && b.at_most(c) ==> a.at_most(c),
{
    reveal(F32::below);
    reveal(F32::at_most);
}

/// Addition and multiplication commute.
pub proof fn arithmetic_commutes(a: F32, b: F32)
    ensures
        a.sum(b) == b.sum(a),
        a.product(b) == b.product(a),
{
    reveal(F32::sum);
    reveal(F32::product);
    if a.infinite() && b.infinite() && a.negative() == b.negative() {
        assert(a.bits == b.bits);
    }
    assert(a.scaled() + b.scaled() == b.scaled() + a.scaled());
    lemma_mul_is_commutative(
        mag_value(a.magnitude()) as int,
        mag_value(b.magnitude()) as int,
    );
}

/// What sign and magnitude put together make.
pub proof fn lemma_packed(negative: bool, mag: nat)
    requires
        mag <= INFINITE_MAG,
    ensures
        packed(negative, mag).negative() == negative,
        packed(negative, mag).magnitude() == mag,
        !packed(negative, mag).nan(),
        packed(negative, mag).rank() == (if negative {
            -(mag as int)
        } else {
            mag as int
        }),
{
}

/// Every non-negative rational has a nearest magnitude.
pub proof fn nearest_exists(num: nat, den: nat)
    requires
        den > 0,
    ensures
        nearest(round_mag(num, den), num, den),
        round_mag(num, den) <= INFINITE_MAG,
{
    let top = INFINITE_MAG as nat;
    if num >= pow2(277) * den {
        lemma_nearest_infinite(num, den);
    } else {
        assert(mag_value(top) == pow2(277)) by {
            lemma_mag_value_of(0x100_0000, 253);
            lemma2_to64();
            lemma_pow2_adds(24, 253);
        }
        let whole = num / den;
        vstd::arithmetic::div_mod::lemma_fundamental_div_mod(num as int, den as int);
        let rem = num % den;
        assert(whole < pow2(277)) by (nonlinear_arith)
            requires
                num < pow2(277) * den,
                num == den * whole + rem,
                rem >= 0,
                den > 0,
        ;
        let r = lemma_floor_mag(whole, top);
        let (q, j) = lemma_mag_split(r);
        lemma_mag_step(q, j);
        let p = pow2(j);
        let u = p * den;
        assert(q * u <= num < (q + 1) * u) by (nonlinear_arith)
            requires
                q * p <= whole,
                whole + 1 <= (q + 1) * p,
                num == den * whole + rem,
                0 <= rem < den,
                u == p * den,
        ;
        let up = 2 * num > (2 * q + 1) * u || (2 * num == (2 * q + 1) * u && q % 2 == 1);
        lemma_nearest_at(q, j, up, num, den);
    }
}

/// A finite sum lies where its exact value rounds to.
pub proof fn lemma_sum_rank(a: F32, b: F32)
    requires
        a.finite(),
        b.finite(),
    ensures
        ({
            let exact = a.scaled() + b.scaled();
            let r = a.sum(b);
            &&& !r.nan()
            &&& exact == 0 ==> r.rank() == 0
            &&& exact > 0 ==> r.rank() == round_mag(exact as nat, 1)
            &&& exact < 0 ==> r.rank() == -round_mag((-exact) as nat, 1)
        }),
{
    reveal(F32::sum);
    let exact = a.scaled() + b.scaled();
    nearest_exists(abs_int(exact), 1);
    lemma_packed(exact < 0, round_mag(abs_int(exact), 1));
    lemma_packed(a.negative() && b.negative(), 0);
}

/// Rounding keeps the order of whole numbers of units.
proof fn lemma_round_ordered(x: nat, y: nat)
    requires
        x <= y,
    ensures
        round_mag(x, 1) <= round_mag(y, 1),
{
    nearest_exists(x, 1);
    nearest_exists(y, 1);
    lemma_nearest_ordered(round_mag(x, 1), x, 1, round_mag(y, 1), y, 1);
}

/// Adding the same finite number keeps the order of finite numbers.
pub proof fn sum_keeps_order(a: F32, b: F32, c: F32)
    requires
        a.finite(),
        b.finite(),
        c.finite(),
        a.at_most(b),
    ensures
        a.sum(c).at_most(b.sum(c)),
{
    order_is_by_value(a, b);
    lemma_sum_rank(a, c);
    lemma_sum_rank(b, c);
    let x = a.scaled() + c.scaled();
    let y = b.scaled() + c.scaled();
    if x > 0 {
        lemma_round_ordered(x as nat, y as nat);
    } else if y < 0 {
        lemma_round_ordered((-y) as nat, (-x) as nat);
    }
    reveal(F32::at_most);
}

/// The last magnitude whose value does not exceed `n`.
pub proof fn lemma_floor_mag(n: nat, top: nat) -> (r: nat)
    requires
        n < mag_value(top),
    ensures
        r < top,
        mag_value(r) <= n < mag_value(r + 1),
    decreases top,
{
    assert(mag_value(0) == 0);
    if mag_value((top - 1) as nat) <= n {
        (top - 1) as nat
    } else {
        lemma_floor_mag(n, (top - 1) as nat)
    }
}

/// Integers up to 2^24 are represented exactly.
pub proof fn integers_are_exact(n: nat)
    requires
        n <= 0x100_0000,
    ensures
        F32::of_integer(n).finite(),
        F32::of_integer(n).scaled() == n * pow2(149),
{
    reveal(F32::of_integer);
    let v = n * pow2(149);
    lemma2_to64();
    if n == 0 {
        lemma_mul_basics(pow2(149) as int);
        assert(mag_value(0) == 0 && mag_value(1) == 1);
        assert(nearest(0, 0, 1));
        lemma_round_mag(0, 0, 1);
    } else {
        let (q, j) = lemma_normal_form(n, 149);
        lemma_mag_step(q, j);
        lemma_pow2_pos(j);
        let u = pow2(j) * 1;
        assert((q + 1) * u == q * u + u) by (nonlinear_arith);
        assert((2 * q + 1) * u == 2 * (q * u) + u) by (nonlinear_arith);
        lemma_nearest_at(q, j, false, v, 1);
        lemma_round_mag(j * 0x80_0000 + q, v, 1);
        assert(j * 0x80_0000 + q < INFINITE_MAG);
    }
}

/// A number of units below 2^24 scales, brought to 24 digits.
pub proof fn lemma_normal_form(n: nat, k: nat) -> (res: (nat, nat))
    requires
        0 < n <= 0x100_0000,
        24 < k <= 149,
    ensures
        ({
            let (q, j) = res;
            &&& 0x80_0000 <= q < 0x100_0000
            &&& 0 < j <= k + 1
            &&& n * pow2(k) == q * pow2(j)
        }),
{
    if n == 0x100_0000 {
        lemma_pow2_unfold(k + 1);
        let p = pow2(k);
        assert(0x100_0000 * p == 0x80_0000 * (2 * p)) by (nonlinear_arith);
        (0x80_0000nat, k + 1)
    } else {
        lemma2_to64();
        assert(n * pow2(24) >= 0x80_0000) by (nonlinear_arith)
            requires
                n >= 1,
                pow2(24) == 0x100_0000,
        ;
        lemma_normal_steps(n, k, 24)
    }
}

proof fn lemma_normal_steps(n: nat, k: nat, fuel: nat) -> (res: (nat, nat))
    requires
        0 < n < 0x100_0000,
        fuel <= k <= 149,
        n * pow2(fuel) >= 0x80_0000,
        fuel <= 24,
        n < 0x80_0000 ==> fuel > 0,
        k > 0,
        fuel < k || n >= 0x80_0000,
    ensures
        ({
            let (q, j) = res;
            &&& 0x80_0000 <= q < 0x100_0000
            &&& 0 < j <= k
            &&& n * pow2(k) == q * pow2(j)
        }),
    decreases fuel,
{
    if n >= 0x80_0000 {
        (n, k)
    } else {
        lemma_pow2_unfold(k);
        lemma_pow2_unfold(fuel);
        let p = pow2((k - 1) as nat);
        assert(n * (2 * p) == (2 * n) * p) by (nonlinear_arith);
        let f = pow2((fuel - 1) as nat);
        assert(n * (2 * f) == (2 * n) * f) by (nonlinear_arith);
        lemma2_to64();
        if fuel == 1 {
            lemma_mul_basics((2 * n) as int);
        }
        lemma_normal_steps(2 * n, (k - 1) as nat, (fuel - 1) as nat)
    }
}

} // verus!
