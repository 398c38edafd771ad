//! Points and displacements in the plane.

use vstd::prelude::*;
use crate::scalar::{Scalar, sqrt_floor, wide_saturate, wide_sqrt_floor};

verus! {

#[derive(Clone, Copy, PartialEq, Eq, Structural, Debug)]
pub struct Vec2 {
    pub x: Scalar,
    pub y: Scalar,
}

/// The magnitude of a raw value as a wide unsigned integer.
fn wide_magnitude(v: i64) -> (r: u128)
    ensures
        r == crate::scalar::magnitude(v as int),
        r <= 0x8000_0000_0000_0000,
{
    if v >= 0 {
        v as u128
    } else {
        (-(v as i128)) as u128
    }
}

impl Vec2 {
    /// Whether both components are finite.
    pub open spec fn finite(self) -> bool {
        self.x.finite() && self.y.finite()
    }

    /// Whether both components are finite and within the safe operating range.
    pub open spec fn in_range(self) -> bool {
        self.x.in_range() && self.y.in_range()
    }

    pub open spec fn sum(self, rhs: Vec2) -> Vec2 {
        Vec2 { x: self.x.sum(rhs.x), y: self.y.sum(rhs.y) }
    }

    pub open spec fn difference(self, rhs: Vec2) -> Vec2 {
        Vec2 { x: self.x.difference(rhs.x), y: self.y.difference(rhs.y) }
    }

    pub open spec fn negation(self) -> Vec2 {
        Vec2 { x: self.x.negation(), y: self.y.negation() }
    }

    /// Both components multiplied by `factor`.
    pub open spec fn scaled(self, factor: Scalar) -> Vec2 {
        Vec2 { x: self.x.product(factor), y: self.y.product(factor) }
    }

    /// The sum of the squares of the two raw components.
    pub open spec fn raw_square(self) -> int {
        self.x.raw() * self.x.raw() + self.y.raw() * self.y.raw()
    }

    /// The Euclidean length, rounded down to the nearest raw value.
    pub open spec fn norm(self) -> Scalar {
        if self.finite() {
            Scalar::of_raw(sqrt_floor(self.raw_square()))
        } else {
            Scalar::NonFinite
        }
    }

    /// Both components divided by the length: a vector of length one in the
    /// same direction, or a vector of `NonFinite` components for a vector of
    /// length zero.
    pub open spec fn direction(self) -> Vec2 {
        Vec2 { x: self.x.quotient(self.norm()), y: self.y.quotient(self.norm()) }
    }

    /// This vector turned by a quarter turn counter-clockwise about the origin.
    pub open spec fn quarter_turn(self) -> Vec2 {
        Vec2 { x: self.y.negation(), y: self.x }
    }

    pub fn new(x: Scalar, y: Scalar) -> (r: Vec2)
        ensures
            r == (Vec2 { x, y }),
    {
        Vec2 { x, y }
    }

    pub fn zero() -> (r: Vec2)
        ensures
            r == (Vec2 { x: Scalar::Finite(0), y: Scalar::Finite(0) }),
    {
        Vec2 { x: Scalar::Finite(0), y: Scalar::Finite(0) }
    }

    pub fn is_finite(self) -> (r: bool)
        ensures
            r == self.finite(),
    {
        self.x.is_finite() && self.y.is_finite()
    }

    pub fn add(self, rhs: Vec2) -> (r: Vec2)
        ensures
            r == self.sum(rhs),
    {
        Vec2 { x: self.x.add(rhs.x), y: self.y.add(rhs.y) }
    }

    pub fn sub(self, rhs: Vec2) -> (r: Vec2)
        ensures
            r == self.difference(rhs),
    {
        Vec2 { x: self.x.sub(rhs.x), y: self.y.sub(rhs.y) }
    }

    pub fn neg(self) -> (r: Vec2)
        ensures
            r == self.negation(),
    {
        Vec2 { x: self.x.neg(), y: self.y.neg() }
    }

    /// Multiplies both components by `factor`.
    pub fn scale(self, factor: Scalar) -> (r: Vec2)
        ensures
            r == self.scaled(factor),
    {
        Vec2 { x: self.x.mul(factor), y: self.y.mul(factor) }
    }

    /// The Euclidean length.
    pub fn length(self) -> (r: Scalar)
        ensures
            r == self.norm(),
    {
        match (self.x, self.y) {
            (Scalar::Finite(x), Scalar::Finite(y)) => {
                let wide_x: u128 = wide_magnitude(x);
                let wide_y: u128 = wide_magnitude(y);
                assert(wide_x * wide_x <= 0x4000_0000_0000_0000_0000_0000_0000_0000)
                    by (nonlinear_arith)
                    requires
                        0 <= wide_x <= 0x8000_0000_0000_0000,
                ;
                assert(wide_y * wide_y <= 0x4000_0000_0000_0000_0000_0000_0000_0000)
                    by (nonlinear_arith)
                    requires
                        0 <= wide_y <= 0x8000_0000_0000_0000,
                ;
                assert(wide_x * wide_x == x * x) by (nonlinear_arith)
                    requires
                        wide_x == x || wide_x == -x,
                ;
                assert(wide_y * wide_y == y * y) by (nonlinear_arith)
                    requires
                        wide_y == y || wide_y == -y,
                ;
                let root: u64 = wide_sqrt_floor(wide_x * wide_x + wide_y * wide_y);
                Scalar::Finite(wide_saturate(root as i128))
            },
            _ => Scalar::NonFinite,
        }
    }

    /// Divides both components by the length.
    pub fn normalize(self) -> (r: Vec2)
        ensures
            r == self.direction(),
    {
        let length = self.length();
        Vec2 { x: self.x.div(length), y: self.y.div(length) }
    }

    /// Turns this vector by a quarter turn counter-clockwise about the origin.
    pub fn perp(self) -> (r: Vec2)
        ensures
            r == self.quarter_turn(),
    {
        Vec2 { x: self.y.neg(), y: self.x }
    }
}

} // verus!
