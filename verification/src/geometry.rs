//! Points, offsets and axis-aligned rectangles in fixed-point coordinates.

use vstd::prelude::*;
use crate::fixed::{fx_add, fx_sub, fx_mul, fx_div, spec_add, spec_sub, spec_mul, spec_div};

verus! {

/// A point or an offset in the plane. Both coordinates are fixed-point
/// numbers.
#[derive(Clone, Copy, Debug, PartialEq, Eq, Hash, Structural)]
pub struct Vec2 {
    pub x: i64,
    pub y: i64,
}

impl Vec2 {
    /// The origin.
    pub open spec fn spec_zero() -> Vec2 {
        Vec2 { x: 0, y: 0 }
    }

    /// Component-wise saturating sum.
    pub open spec fn spec_plus(self, other: Vec2) -> Vec2 {
        Vec2 {
            x: spec_add(self.x as int, other.x as int) as i64,
            y: spec_add(self.y as int, other.y as int) as i64,
        }
    }

    /// Component-wise saturating difference.
    pub open spec fn spec_minus(self, other: Vec2) -> Vec2 {
        Vec2 {
            x: spec_sub(self.x as int, other.x as int) as i64,
            y: spec_sub(self.y as int, other.y as int) as i64,
        }
    }

    /// Both components multiplied by the fixed-point factor `k`.
    pub open spec fn spec_scaled(self, k: i64) -> Vec2 {
        Vec2 {
            x: spec_mul(self.x as int, k as int) as i64,
            y: spec_mul(self.y as int, k as int) as i64,
        }
    }

    /// Both components divided by the fixed-point factor `k`.
    pub open spec fn spec_unscaled(self, k: i64) -> Vec2 {
        Vec2 {
            x: spec_div(self.x as int, k as int) as i64,
            y: spec_div(self.y as int, k as int) as i64,
        }
    }

    pub fn new(x: i64, y: i64) -> (r: Vec2)
        ensures
            r == (Vec2 { x, y }),
    {
        Vec2 { x, y }
    }

    pub fn zero() -> (r: Vec2)
        ensures
            r == Vec2::spec_zero(),
    {
        Vec2 { x: 0, y: 0 }
    }

    pub fn plus(self, other: Vec2) -> (r: Vec2)
        ensures
            r == self.spec_plus(other),
    {
        Vec2 { x: fx_add(self.x, other.x), y: fx_add(self.y, other.y) }
    }

    pub fn minus(self, other: Vec2) -> (r: Vec2)
        ensures
            r == self.spec_minus(other),
    {
        Vec2 { x: fx_sub(self.x, other.x), y: fx_sub(self.y, other.y) }
    }

    pub fn scaled(self, k: i64) -> (r: Vec2)
        ensures
            r == self.spec_scaled(k),
    {
        Vec2 { x: fx_mul(self.x, k), y: fx_mul(self.y, k) }
    }

    pub fn unscaled(self, k: i64) -> (r: Vec2)
        ensures
            r == self.spec_unscaled(k),
    {
        Vec2 { x: fx_div(self.x, k), y: fx_div(self.y, k) }
    }
}

impl Default for Vec2 {
    fn default() -> (r: Vec2)
        ensures
            r == Vec2::spec_zero(),
    {
        Vec2 { x: 0, y: 0 }
    }
}

/// An axis-aligned rectangle, given by its corners. Its edges belong to it.
#[derive(Clone, Copy, Debug, PartialEq, Eq, Structural)]
pub struct Rect {
    pub min: Vec2,
    pub max: Vec2,
}

impl Rect {
    /// The rectangle with top-left corner `min` that extends by `size`.
    pub open spec fn spec_from_min_size(min: Vec2, size: Vec2) -> Rect {
        Rect { min, max: min.spec_plus(size) }
    }

    /// The rectangle that reaches `half` to each side of `center`.
    pub open spec fn spec_from_center_half(center: Vec2, half: Vec2) -> Rect {
        Rect { min: center.spec_minus(half), max: center.spec_plus(half) }
    }

    /// Whether `p` lies inside the rectangle or on its edge.
    pub open spec fn spec_contains(self, p: Vec2) -> bool {
        &&& self.min.x <= p.x <= self.max.x
        &&& self.min.y <= p.y <= self.max.y
    }

    pub fn from_min_size(min: Vec2, size: Vec2) -> (r: Rect)
        ensures
            r == Rect::spec_from_min_size(min, size),
    {
        Rect { min, max: min.plus(size) }
    }

    pub fn from_center_half(center: Vec2, half: Vec2) -> (r: Rect)
        ensures
            r == Rect::spec_from_center_half(center, half),
    {
        Rect { min: center.minus(half), max: center.plus(half) }
    }

    pub fn contains(&self, p: Vec2) -> (r: bool)
        ensures
            r == self.spec_contains(p),
    {
        self.min.x <= p.x && p.x <= self.max.x && self.min.y <= p.y && p.y <= self.max.y
    }
}

} // verus!
