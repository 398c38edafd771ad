//! Fixed-point numbers for the layout engine.
//!
//! A [`Scalar`] is either a finite number with 32 fractional bits, stored as
//! a signed 64-bit raw value, or the single value `NonFinite`, which stands
//! for the result of an undefined operation such as a division by zero.
//! Finite arithmetic saturates at the ends of the 64-bit range, and every
//! quotient is rounded towards zero, so that negating an operand negates the
//! result.

use vstd::prelude::*;

verus! {

/// The raw value of the number one.
pub const ONE_RAW: i64 = 0x1_0000_0000;

/// The largest raw value that arithmetic produces; the smallest is its negation.
pub const RAW_MAX: i64 = 0x7fff_ffff_ffff_ffff;

/// The raw bound of the safe operating range: two numbers within the range
/// can be added or subtracted without saturating.
pub const RANGE_MAX_RAW: i64 = 0x2000_0000_0000_0000;

#[derive(Clone, Copy, PartialEq, Eq, Structural, Debug)]
pub enum Scalar {
    /// A finite number, `raw / 2^32`.
    Finite(i64),
    /// The outcome of an undefined operation.
    NonFinite,
}

/// The absolute value of an integer.
pub open spec fn magnitude(v: int) -> int {
    if v >= 0 {
        v
    } else {
        -v
    }
}

/// The quotient of `n` by `d`, rounded towards zero.
pub open spec fn trunc_div(n: int, d: int) -> int
    recommends
        d != 0,
{
    if (n >= 0) == (d >= 0) {
        magnitude(n) / magnitude(d)
    } else {
        -(magnitude(n) / magnitude(d))
    }
}

/// The raw value nearest to `v` that arithmetic can produce.
pub open spec fn saturate(v: int) -> i64 {
    if v > RAW_MAX {
        RAW_MAX
    } else if v < -RAW_MAX {
        (-RAW_MAX) as i64
    } else {
        v as i64
    }
}

/// `v` limited to the interval from `low` to `high`.
pub open spec fn clamp_int(v: int, low: int, high: int) -> int {
    if v < low {
        low
    } else if v > high {
        high
    } else {
        v
    }
}

/// `r` is the integer square root of `n`, rounded down.
pub open spec fn is_sqrt_floor(n: int, r: int) -> bool {
    0 <= r && r * r <= n < (r + 1) * (r + 1)
}

/// The integer square root of `n`, rounded down (for `n >= 0`).
pub open spec fn sqrt_floor(n: int) -> int {
    choose|r: int| is_sqrt_floor(n, r)
}

/// Two integers whose squares bracket the same number in the same way are equal.
pub proof fn lemma_sqrt_floor_unique(n: int, r: int, s: int)
    requires
        is_sqrt_floor(n, r),
        is_sqrt_floor(n, s),
    ensures
        r == s,
{
    if r < s {
        assert((r + 1) * (r + 1) <= s * s) by (nonlinear_arith)
            requires
                0 <= r,
                r + 1 <= s,
        ;
    } else if s < r {
        assert((s + 1) * (s + 1) <= r * r) by (nonlinear_arith)
            requires
                0 <= s,
                s + 1 <= r,
        ;
    }
}

/// Every non-negative integer has an integer square root.
pub proof fn lemma_sqrt_floor_exists(n: int)
    requires
        n >= 0,
    ensures
        is_sqrt_floor(n, sqrt_floor(n)),
    decreases n,
{
    if n == 0 {
        assert(is_sqrt_floor(0, 0));
    } else {
        lemma_sqrt_floor_exists(n - 1);
        let r = sqrt_floor(n - 1);
        if n < (r + 1) * (r + 1) {
            assert(is_sqrt_floor(n, r));
        } else {
            assert((r + 1) * (r + 1) <= n < (r + 2) * (r + 2)) by (nonlinear_arith)
                requires
                    0 <= r,
                    r * r <= n - 1 < (r + 1) * (r + 1),
                    n >= (r + 1) * (r + 1),
            ;
            assert(is_sqrt_floor(n, r + 1));
        }
    }
}

/// The integer square root does not decrease when its argument grows.
pub proof fn lemma_sqrt_floor_monotonic(m: int, n: int)
    requires
        0 <= m <= n,
    ensures
        sqrt_floor(m) <= sqrt_floor(n),
{
    lemma_sqrt_floor_exists(m);
    lemma_sqrt_floor_exists(n);
    let r = sqrt_floor(m);
    let s = sqrt_floor(n);
    if s < r {
        assert((s + 1) * (s + 1) <= r * r) by (nonlinear_arith)
            requires
                0 <= s,
                s + 1 <= r,
        ;
    }
}

/// Divides two wide integers, rounding towards zero.
pub(crate) fn wide_trunc_div(n: i128, d: i128) -> (q: i128)
    requires
        d != 0,
        n != i128::MIN,
        d != i128::MIN,
    ensures
        q == trunc_div(n as int, d as int),
{
    if n >= 0 {
        if d > 0 {
            n / d
        } else {
            -(n / (-d))
        }
    } else {
        if d > 0 {
            -((-n) / d)
        } else {
            (-n) / (-d)
        }
    }
}

/// Brings a wide integer into the raw range.
pub(crate) fn wide_saturate(v: i128) -> (r: i64)
    ensures
        r == saturate(v as int),
{
    if v > RAW_MAX as i128 {
        RAW_MAX
    } else if v < -(RAW_MAX as i128) {
        -RAW_MAX
    } else {
        v as i64
    }
}

/// Computes the integer square root of `n`, rounded down.
pub(crate) fn wide_sqrt_floor(n: u128) -> (r: u64)
    ensures
        is_sqrt_floor(n as int, r as int),
        r == sqrt_floor(n as int),
{
    let mut low: u128 = 0;
    let mut high: u128 = 0x1_0000_0000_0000_0000;
    assert(0x1_0000_0000_0000_0000int * 0x1_0000_0000_0000_0000int
        == 0x1_0000_0000_0000_0000_0000_0000_0000_0000int) by (nonlinear_arith);
    while high - low > 1
        invariant
            low < high <= 0x1_0000_0000_0000_0000,
            low * low <= n < high * high,
        decreases high - low,
    {
        let mid: u128 = low + (high - low) / 2;
        assert(mid * mid <= 0xffff_ffff_ffff_ffff_ffff_ffff_ffff_ffff) by (nonlinear_arith)
            requires
                0 <= mid <= 0xffff_ffff_ffff_ffff,
        ;
        if mid * mid <= n {
            low = mid;
        } else {
            high = mid;
        }
    }
    proof {
        lemma_sqrt_floor_exists(n as int);
        lemma_sqrt_floor_unique(n as int, low as int, sqrt_floor(n as int));
    }
    low as u64
}

impl Scalar {
    /// Whether this is a finite number.
    pub open spec fn finite(self) -> bool {
        self is Finite
    }

    /// The raw value of a finite number, and zero for `NonFinite`.
    pub open spec fn raw(self) -> int {
        match self {
            Scalar::Finite(x) => x as int,
            Scalar::NonFinite => 0,
        }
    }

    /// Whether this is a finite number within the safe operating range.
    pub open spec fn in_range(self) -> bool {
        self.finite() && -RANGE_MAX_RAW <= self.raw() <= RANGE_MAX_RAW
    }

    /// The finite number with the raw value nearest to `v`.
    pub open spec fn of_raw(v: int) -> Scalar {
        Scalar::Finite(saturate(v))
    }

    pub open spec fn sum(self, rhs: Scalar) -> Scalar {
        match (self, rhs) {
            (Scalar::Finite(x), Scalar::Finite(y)) => Scalar::of_raw(x + y),
            _ => Scalar::NonFinite,
        }
    }

    pub open spec fn difference(self, rhs: Scalar) -> Scalar {
        match (self, rhs) {
            (Scalar::Finite(x), Scalar::Finite(y)) => Scalar::of_raw(x - y),
            _ => Scalar::NonFinite,
        }
    }

    pub open spec fn negation(self) -> Scalar {
        match self {
            Scalar::Finite(x) => Scalar::of_raw(-x),
            Scalar::NonFinite => Scalar::NonFinite,
        }
    }

    pub open spec fn absolute(self) -> Scalar {
        match self {
            Scalar::Finite(x) => Scalar::of_raw(magnitude(x as int)),
            Scalar::NonFinite => Scalar::NonFinite,
        }
    }

    /// The product, rounded towards zero to the nearest raw value.
    pub open spec fn product(self, rhs: Scalar) -> Scalar {
        match (self, rhs) {
            (Scalar::Finite(x), Scalar::Finite(y)) => Scalar::of_raw(
                trunc_div(x * y, ONE_RAW as int),
            ),
            _ => Scalar::NonFinite,
        }
    }

    /// The quotient, rounded towards zero to the nearest raw value; undefined
    /// for a zero divisor.
    pub open spec fn quotient(self, rhs: Scalar) -> Scalar {
        match (self, rhs) {
            (Scalar::Finite(x), Scalar::Finite(y)) => if y == 0 {
                Scalar::NonFinite
            } else {
                Scalar::of_raw(trunc_div(x * ONE_RAW, y as int))
            },
            _ => Scalar::NonFinite,
        }
    }

    /// The square root, rounded down to the nearest raw value; undefined for
    /// a negative number.
    pub open spec fn square_root(self) -> Scalar {
        match self {
            Scalar::Finite(x) => if x < 0 {
                Scalar::NonFinite
            } else {
                Scalar::of_raw(sqrt_floor(x * ONE_RAW))
            },
            Scalar::NonFinite => Scalar::NonFinite,
        }
    }

    /// The smaller of two numbers; `NonFinite` if either is.
    pub open spec fn minimum(self, rhs: Scalar) -> Scalar {
        match (self, rhs) {
            (Scalar::Finite(x), Scalar::Finite(y)) => if x <= y {
                self
            } else {
                rhs
            },
            _ => Scalar::NonFinite,
        }
    }

    /// The larger of two numbers; `NonFinite` if either is.
    pub open spec fn maximum(self, rhs: Scalar) -> Scalar {
        match (self, rhs) {
            (Scalar::Finite(x), Scalar::Finite(y)) => if x >= y {
                self
            } else {
                rhs
            },
            _ => Scalar::NonFinite,
        }
    }

    /// This number limited to the interval from `low` to `high`; `NonFinite`
    /// stays `NonFinite`.
    pub open spec fn clamped(self, low: Scalar, high: Scalar) -> Scalar
        recommends
            low.finite(),
            high.finite(),
            low.raw() <= high.raw(),
    {
        match self {
            Scalar::Finite(x) => Scalar::Finite(
                clamp_int(x as int, low.raw(), high.raw()) as i64,
            ),
            Scalar::NonFinite => Scalar::NonFinite,
        }
    }

    /// Whether both numbers are finite and this one is smaller.
    pub open spec fn less_than(self, rhs: Scalar) -> bool {
        self.finite() && rhs.finite() && self.raw() < rhs.raw()
    }

    /// Whether both numbers are finite and this one is not larger.
    pub open spec fn at_most(self, rhs: Scalar) -> bool {
        self.finite() && rhs.finite() && self.raw() <= rhs.raw()
    }

    /// The finite number with the given raw value.
    pub fn from_raw(raw: i64) -> (r: Scalar)
        ensures
            r == Scalar::Finite(raw),
    {
        Scalar::Finite(raw)
    }

    /// The whole number `n`.
    pub fn from_whole(n: i32) -> (r: Scalar)
        ensures
            r == Scalar::Finite((n * ONE_RAW) as i64),
    {
        assert(-0x8000_0000 <= n <= 0x7fff_ffff);
        Scalar::Finite((n as i64) * ONE_RAW)
    }

    pub fn zero() -> (r: Scalar)
        ensures
            r == Scalar::Finite(0),
    {
        Scalar::Finite(0)
    }

    pub fn one() -> (r: Scalar)
        ensures
            r == Scalar::Finite(ONE_RAW),
    {
        Scalar::Finite(ONE_RAW)
    }

    /// The raw value of a finite number.
    pub fn to_raw(self) -> (r: Option<i64>)
        ensures
            r == (match self {
                Scalar::Finite(x) => Some(x),
                Scalar::NonFinite => None,
            }),
    {
        match self {
            Scalar::Finite(x) => Some(x),
            Scalar::NonFinite => None,
        }
    }

    pub fn is_finite(self) -> (r: bool)
        ensures
            r == self.finite(),
    {
        match self {
            Scalar::Finite(_) => true,
            Scalar::NonFinite => false,
        }
    }

    pub fn is_zero(self) -> (r: bool)
        ensures
            r == (self == Scalar::Finite(0)),
    {
        match self {
            Scalar::Finite(x) => x == 0,
            Scalar::NonFinite => false,
        }
    }

    pub fn is_negative(self) -> (r: bool)
        ensures
            r == (self.finite() && self.raw() < 0),
    {
        match self {
            Scalar::Finite(x) => x < 0,
            Scalar::NonFinite => false,
        }
    }

    pub fn lt(self, rhs: Scalar) -> (r: bool)
        ensures
            r == self.less_than(rhs),
    {
        match (self, rhs) {
            (Scalar::Finite(x), Scalar::Finite(y)) => x < y,
            _ => false,
        }
    }

    pub fn le(self, rhs: Scalar) -> (r: bool)
        ensures
            r == self.at_most(rhs),
    {
        match (self, rhs) {
            (Scalar::Finite(x), Scalar::Finite(y)) => x <= y,
            _ => false,
        }
    }

    pub fn add(self, rhs: Scalar) -> (r: Scalar)
        ensures
            r == self.sum(rhs),
    {
        match (self, rhs) {
            (Scalar::Finite(x), Scalar::Finite(y)) => Scalar::Finite(
                wide_saturate(x as i128 + y as i128),
            ),
            _ => Scalar::NonFinite,
        }
    }

    pub fn sub(self, rhs: Scalar) -> (r: Scalar)
        ensures
            r == self.difference(rhs),
    {
        match (self, rhs) {
            (Scalar::Finite(x), Scalar::Finite(y)) => Scalar::Finite(
                wide_saturate(x as i128 - y as i128),
            ),
            _ => Scalar::NonFinite,
        }
    }

    pub fn neg(self) -> (r: Scalar)
        ensures
            r == self.negation(),
    {
        match self {
            Scalar::Finite(x) => Scalar::Finite(wide_saturate(-(x as i128))),
            Scalar::NonFinite => Scalar::NonFinite,
        }
    }

    pub fn abs(self) -> (r: Scalar)
        ensures
            r == self.absolute(),
    {
        match self {
            Scalar::Finite(x) => {
                let wide: i128 = x as i128;
                Scalar::Finite(wide_saturate(if wide >= 0 { wide } else { -wide }))
            },
            Scalar::NonFinite => Scalar::NonFinite,
        }
    }

    pub fn mul(self, rhs: Scalar) -> (r: Scalar)
        ensures
            r == self.product(rhs),
    {
        match (self, rhs) {
            (Scalar::Finite(x), Scalar::Finite(y)) => {
                assert(-0x4000_0000_0000_0000_0000_0000_0000_0000 <= x * y
                    <= 0x4000_0000_0000_0000_0000_0000_0000_0000) by (nonlinear_arith)
                    requires
                        -0x8000_0000_0000_0000 <= x <= 0x7fff_ffff_ffff_ffff,
                        -0x8000_0000_0000_0000 <= y <= 0x7fff_ffff_ffff_ffff,
                ;
                let wide: i128 = (x as i128) * (y as i128);
                Scalar::Finite(wide_saturate(wide_trunc_div(wide, ONE_RAW as i128)))
            },
            _ => Scalar::NonFinite,
        }
    }

    pub fn div(self, rhs: Scalar) -> (r: Scalar)
        ensures
            r == self.quotient(rhs),
    {
        match (self, rhs) {
            (Scalar::Finite(x), Scalar::Finite(y)) => {
                if y == 0 {
                    Scalar::NonFinite
                } else {
                    let wide: i128 = (x as i128) * (ONE_RAW as i128);
                    Scalar::Finite(wide_saturate(wide_trunc_div(wide, y as i128)))
                }
            },
            _ => Scalar::NonFinite,
        }
    }

    pub fn sqrt(self) -> (r: Scalar)
        ensures
            r == self.square_root(),
    {
        match self {
            Scalar::Finite(x) => {
                if x < 0 {
                    Scalar::NonFinite
                } else {
                    let wide: u128 = (x as u64 as u128) * 0x1_0000_0000u128;
                    let root: u64 = wide_sqrt_floor(wide);
                    Scalar::Finite(wide_saturate(root as i128))
                }
            },
            Scalar::NonFinite => Scalar::NonFinite,
        }
    }

    pub fn min(self, rhs: Scalar) -> (r: Scalar)
        ensures
            r == self.minimum(rhs),
    {
        match (self, rhs) {
            (Scalar::Finite(x), Scalar::Finite(y)) => if x <= y {
                self
            } else {
                rhs
            },
            _ => Scalar::NonFinite,
        }
    }

    pub fn max(self, rhs: Scalar) -> (r: Scalar)
        ensures
            r == self.maximum(rhs),
    {
        match (self, rhs) {
            (Scalar::Finite(x), Scalar::Finite(y)) => if x >= y {
                self
            } else {
                rhs
            },
            _ => Scalar::NonFinite,
        }
    }

    /// Limits this number to the interval from `low` to `high`.
    pub fn clamp(self, low: Scalar, high: Scalar) -> (r: Scalar)
        requires
            low.finite(),
            high.finite(),
            low.raw() <= high.raw(),
        ensures
            r == self.clamped(low, high),
    {
        match (self, low, high) {
            (Scalar::Finite(x), Scalar::Finite(l), Scalar::Finite(h)) => {
                if x < l {
                    low
                } else if x > h {
                    high
                } else {
                    self
                }
            },
            _ => Scalar::NonFinite,
        }
    }
}

/// A quotient that is rounded towards zero has the sign of its numerator,
/// for a positive denominator, and is no larger in magnitude.
pub proof fn lemma_trunc_div_sign(n: int, d: int)
    requires
        d > 0,
    ensures
        n >= 0 ==> 0 <= trunc_div(n, d) <= n,
        n <= 0 ==> n <= trunc_div(n, d) <= 0,
{
    assert(0 <= magnitude(n) / d <= magnitude(n)) by (nonlinear_arith)
        requires
            d > 0,
            magnitude(n) >= 0,
    ;
}

/// A multiple of the denominator is divided without a remainder.
pub proof fn lemma_trunc_div_multiple(q: int, d: int)
    requires
        d > 0,
    ensures
        trunc_div(q * d, d) == q,
{
    if q >= 0 {
        assert(q * d >= 0 && (q * d) / d == q) by (nonlinear_arith)
            requires
                q >= 0,
                d > 0,
        ;
    } else {
        assert(q * d < 0 && (-(q * d)) / d == -q) by (nonlinear_arith)
            requires
                q < 0,
                d > 0,
        ;
    }
}

/// Multiplying by one changes nothing.
pub proof fn lemma_product_by_one(x: Scalar)
    requires
        x.finite(),
        x.raw() >= -RAW_MAX,
    ensures
        x.product(Scalar::Finite(ONE_RAW)) == x,
{
    lemma_trunc_div_multiple(x.raw(), ONE_RAW as int);
}

/// Multiplying by zero gives zero.
pub proof fn lemma_product_by_zero(x: Scalar)
    requires
        x.finite(),
    ensures
        x.product(Scalar::Finite(0)) == Scalar::Finite(0),
{
    assert(x.raw() * 0 == 0) by (nonlinear_arith);
}

/// A positive number divided by itself is one.
pub proof fn lemma_quotient_by_self(x: Scalar)
    requires
        x.finite(),
        x.raw() > 0,
    ensures
        x.quotient(x) == Scalar::Finite(ONE_RAW),
{
    assert(x.raw() * ONE_RAW == ONE_RAW * x.raw()) by (nonlinear_arith);
    lemma_trunc_div_multiple(ONE_RAW as int, x.raw());
}

/// Only zero has the integer square root zero.
pub proof fn lemma_sqrt_floor_zero(n: int)
    requires
        n >= 0,
    ensures
        sqrt_floor(n) == 0 <==> n == 0,
        sqrt_floor(n) >= 0,
{
    lemma_sqrt_floor_exists(n);
    let r = sqrt_floor(n);
    if r >= 1 {
        assert(r * r >= 1) by (nonlinear_arith)
            requires
                r >= 1,
        ;
    } else {
        assert((r + 1) * (r + 1) == 1) by (nonlinear_arith)
            requires
                r == 0,
        ;
    }
}

/// The integer square root of a number below `2^126` is below `2^63`.
pub proof fn lemma_sqrt_floor_bound(n: int)
    requires
        0 <= n < 0x4000_0000_0000_0000_0000_0000_0000_0000,
    ensures
        0 <= sqrt_floor(n) < 0x8000_0000_0000_0000,
{
    lemma_sqrt_floor_exists(n);
    let r = sqrt_floor(n);
    if r >= 0x8000_0000_0000_0000 {
        assert(r * r >= 0x4000_0000_0000_0000_0000_0000_0000_0000) by (nonlinear_arith)
            requires
                r >= 0x8000_0000_0000_0000,
        ;
    }
}

/// The larger of two magnitudes has the larger square.
pub proof fn lemma_square_monotonic(x: int, y: int)
    requires
        magnitude(x) <= magnitude(y),
    ensures
        x * x <= y * y,
{
    let a = magnitude(x);
    let b = magnitude(y);
    assert(a * a == x * x) by (nonlinear_arith)
        requires
            a == x || a == -x,
    ;
    assert(b * b == y * y) by (nonlinear_arith)
        requires
            b == y || b == -y,
    ;
    assert(a * a <= b * b) by (nonlinear_arith)
        requires
            0 <= a <= b,
    ;
}

} // verus!
