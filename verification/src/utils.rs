//! The numeric safety layer: fallbacks for undefined values and clamping
//! into the safe operating range.

use vstd::prelude::*;
use rand::rngs::SmallRng;
use crate::random::draw_below;
use crate::scalar::{Scalar, ONE_RAW, RANGE_MAX_RAW};
use crate::vector::Vec2;

verus! {

/// The number of directions that a fallback direction is drawn from. They
/// divide the full turn into equal angles.
pub const DIRECTION_COUNT: u32 = 64;

/// The raw cosine of `step` sixty-fourths of a full turn, for the steps of
/// the first quarter turn.
pub open spec fn quarter_cosine(step: int) -> int
    recommends
        0 <= step <= 16,
{
    if step == 0 {
        4294967296
    } else if step == 1 {
        4274285855
    } else if step == 2 {
        4212440704
    } else if step == 3 {
        4110027446
    } else if step == 4 {
        3968032378
    } else if step == 5 {
        3787822988
    } else if step == 6 {
        3571134792
    } else if step == 7 {
        3320054617
    } else if step == 8 {
        3037000500
    } else if step == 9 {
        2724698408
    } else if step == 10 {
        2386155981
    } else if step == 11 {
        2024633568
    } else if step == 12 {
        1643612827
    } else if step == 13 {
        1246763195
    } else if step == 14 {
        837906553
    } else if step == 15 {
        420980412
    } else {
        0
    }
}

/// The direction at `draw` sixty-fourths of a full turn, counted
/// counter-clockwise from the positive x axis; draws wrap around after a
/// full turn.
pub open spec fn unit_direction(draw: u32) -> Vec2 {
    let step = (draw % DIRECTION_COUNT) as int;
    let c = quarter_cosine(step % 16);
    let s = quarter_cosine(16 - step % 16);
    if step / 16 == 0 {
        Vec2 { x: Scalar::Finite(c as i64), y: Scalar::Finite(s as i64) }
    } else if step / 16 == 1 {
        Vec2 { x: Scalar::Finite((-s) as i64), y: Scalar::Finite(c as i64) }
    } else if step / 16 == 2 {
        Vec2 { x: Scalar::Finite((-c) as i64), y: Scalar::Finite((-s) as i64) }
    } else {
        Vec2 { x: Scalar::Finite(s as i64), y: Scalar::Finite((-c) as i64) }
    }
}

/// Every fallback direction is finite, and its length differs from one by
/// less than a billionth: the sum of the squares of its raw components is
/// within `2^33` of the square of the raw value of one.
pub proof fn lemma_unit_direction_has_unit_length(draw: u32)
    ensures
        unit_direction(draw).finite(),
        unit_direction(draw).in_range(),
        -0x2_0000_0000 <= unit_direction(draw).raw_square() - ONE_RAW * ONE_RAW <= 0x2_0000_0000,
        -ONE_RAW <= unit_direction(draw).x.raw() <= ONE_RAW,
        -ONE_RAW <= unit_direction(draw).y.raw() <= ONE_RAW,
{
    let step = (draw % DIRECTION_COUNT) as int;
    let c = quarter_cosine(step % 16);
    let s = quarter_cosine(16 - step % 16);
    assert(-0x2_0000_0000 <= c * c + s * s - 0x1_0000_0000 * 0x1_0000_0000 <= 0x2_0000_0000)
        by (nonlinear_arith)
        requires
            (c == 4294967296 && s == 0) || (c == 4274285855 && s == 420980412) || (c
                == 4212440704 && s == 837906553) || (c == 4110027446 && s == 1246763195) || (c
                == 3968032378 && s == 1643612827) || (c == 3787822988 && s == 2024633568) || (c
                == 3571134792 && s == 2386155981) || (c == 3320054617 && s == 2724698408) || (c
                == 3037000500 && s == 3037000500) || (c == 2724698408 && s == 3320054617) || (c
                == 2386155981 && s == 3571134792) || (c == 2024633568 && s == 3787822988) || (c
                == 1643612827 && s == 3968032378) || (c == 1246763195 && s == 4110027446) || (c
                == 837906553 && s == 4212440704) || (c == 420980412 && s == 4274285855),
    ;
    assert((-c) * (-c) == c * c) by (nonlinear_arith);
    assert((-s) * (-s) == s * s) by (nonlinear_arith);
}

/// Every fallback direction has a component of more than seven tenths in
/// magnitude.
pub proof fn lemma_unit_direction_has_a_large_component(draw: u32)
    ensures
        crate::scalar::magnitude(unit_direction(draw).x.raw()) >= 3037000500
            || crate::scalar::magnitude(unit_direction(draw).y.raw()) >= 3037000500,
{
}

/// The raw cosine of a step of the first quarter turn.
fn quarter_cosine_raw(step: u32) -> (r: i64)
    requires
        step <= 16,
    ensures
        r == quarter_cosine(step as int),
{
    if step == 0 {
        4294967296
    } else if step == 1 {
        4274285855
    } else if step == 2 {
        4212440704
    } else if step == 3 {
        4110027446
    } else if step == 4 {
        3968032378
    } else if step == 5 {
        3787822988
    } else if step == 6 {
        3571134792
    } else if step == 7 {
        3320054617
    } else if step == 8 {
        3037000500
    } else if step == 9 {
        2724698408
    } else if step == 10 {
        2386155981
    } else if step == 11 {
        2024633568
    } else if step == 12 {
        1643612827
    } else if step == 13 {
        1246763195
    } else if step == 14 {
        837906553
    } else if step == 15 {
        420980412
    } else {
        0
    }
}

/// The fallback direction that a draw selects.
pub fn direction_of_draw(draw: u32) -> (r: Vec2)
    ensures
        r == unit_direction(draw),
{
    let step: u32 = draw % DIRECTION_COUNT;
    let c: i64 = quarter_cosine_raw(step % 16);
    let s: i64 = quarter_cosine_raw(16 - step % 16);
    let quarter: u32 = step / 16;
    if quarter == 0 {
        Vec2 { x: Scalar::Finite(c), y: Scalar::Finite(s) }
    } else if quarter == 1 {
        Vec2 { x: Scalar::Finite(-s), y: Scalar::Finite(c) }
    } else if quarter == 2 {
        Vec2 { x: Scalar::Finite(-c), y: Scalar::Finite(-s) }
    } else {
        Vec2 { x: Scalar::Finite(s), y: Scalar::Finite(-c) }
    }
}

/// Values that may hold an undefined component.
pub trait MapNonFinite: Sized {
    /// Whether every component is finite.
    spec fn all_finite(self) -> bool;

    /// Returns the value itself if every component is finite, and otherwise
    /// what `f` makes of it.
    fn map_nonfinite<F: FnOnce(Self) -> Self>(self, f: F) -> (r: Self)
        requires
            !self.all_finite() ==> f.requires((self,)),
        ensures
            self.all_finite() ==> r == self,
            !self.all_finite() ==> f.ensures((self,), r),
    ;
}

impl MapNonFinite for Scalar {
    open spec fn all_finite(self) -> bool {
        self.finite()
    }

    fn map_nonfinite<F: FnOnce(Self) -> Self>(self, f: F) -> (r: Self) {
        if self.is_finite() {
            self
        } else {
            f(self)
        }
    }
}

impl MapNonFinite for Vec2 {
    open spec fn all_finite(self) -> bool {
        self.finite()
    }

    fn map_nonfinite<F: FnOnce(Self) -> Self>(self, f: F) -> (r: Self) {
        if self.is_finite() {
            self
        } else {
            f(self)
        }
    }
}

/// The finite-value fallback.
pub trait FiniteOr: MapNonFinite {
    /// Returns the value itself if every component is finite, else `v`.
    fn finite_or(self, v: Self) -> (r: Self)
        ensures
            r == (if self.all_finite() {
                self
            } else {
                v
            }),
    ;
}

impl<T: MapNonFinite> FiniteOr for T {
    fn finite_or(self, v: Self) -> (r: Self) {
        let fallback = |_undefined: T| -> (r: T)
            ensures
                r == v,
            { v };
        self.map_nonfinite(fallback)
    }
}

/// Clamping into the safe operating range.
pub trait ClampRange: Sized {
    /// The value with each finite component limited to the safe operating
    /// range, and each undefined component left as it is.
    spec fn range_clamped(self) -> Self;

    fn clamp_range(self) -> (r: Self)
        ensures
            r == self.range_clamped(),
    ;
}

impl ClampRange for Scalar {
    open spec fn range_clamped(self) -> Scalar {
        self.clamped(Scalar::Finite((-RANGE_MAX_RAW) as i64), Scalar::Finite(RANGE_MAX_RAW))
    }

    fn clamp_range(self) -> (r: Scalar) {
        self.clamp(Scalar::Finite(-RANGE_MAX_RAW), Scalar::Finite(RANGE_MAX_RAW))
    }
}

impl ClampRange for Vec2 {
    open spec fn range_clamped(self) -> Vec2 {
        Vec2 { x: self.x.range_clamped(), y: self.y.range_clamped() }
    }

    fn clamp_range(self) -> (r: Vec2) {
        Vec2 { x: self.x.clamp_range(), y: self.y.clamp_range() }
    }
}

/// Clamping with a fallback for an undefined value.
pub trait ClampFiniteOr: Sized {
    spec fn clamped_finite_or(self, min: Self, max: Self, v: Self) -> Self;

    /// Whether `min` and `max` bound an interval.
    spec fn bounds_ordered(min: Self, max: Self) -> bool;

    /// Limits a finite value to the interval from `min` to `max`, and
    /// returns `v` for an undefined one.
    fn clamp_finite_or(self, min: Self, max: Self, v: Self) -> (r: Self)
        requires
            Self::bounds_ordered(min, max),
        ensures
            r == self.clamped_finite_or(min, max, v),
    ;
}

impl ClampFiniteOr for Scalar {
    open spec fn clamped_finite_or(self, min: Scalar, max: Scalar, v: Scalar) -> Scalar {
        if self.finite() {
            self.clamped(min, max)
        } else {
            v
        }
    }

    open spec fn bounds_ordered(min: Scalar, max: Scalar) -> bool {
        min.at_most(max)
    }

    fn clamp_finite_or(self, min: Scalar, max: Scalar, v: Scalar) -> (r: Scalar) {
        self.clamp(min, max).finite_or(v)
    }
}

/// The fallback to a random direction.
pub trait FiniteOrRandom: MapNonFinite {
    /// Whether `r` is one of the fallback directions.
    spec fn is_fallback(r: Self) -> bool;

    /// Returns the value itself if every component is finite, else the
    /// fallback direction that a draw from `generator` selects.
    fn finite_or_random_normalized(self, generator: &mut SmallRng) -> (r: Self)
        ensures
            self.all_finite() ==> r == self,
            !self.all_finite() ==> Self::is_fallback(r),
    ;
}

impl FiniteOrRandom for Vec2 {
    open spec fn is_fallback(r: Vec2) -> bool {
        exists|draw: u32| draw < DIRECTION_COUNT && r == unit_direction(draw)
    }

    fn finite_or_random_normalized(self, generator: &mut SmallRng) -> (r: Vec2) {
        if self.is_finite() {
            self
        } else {
            let draw: u32 = draw_below(generator, DIRECTION_COUNT);
            direction_of_draw(draw)
        }
    }
}

} // verus!
