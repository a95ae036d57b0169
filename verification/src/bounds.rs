//! Axis-aligned boxes of integer positions.
use vstd::prelude::*;

use crate::index::Vec3;

verus! {

/// The smaller of two integers.
pub open spec fn min_i(a: int, b: int) -> int {
    if a <= b {
        a
    } else {
        b
    }
}

/// The larger of two integers.
pub open spec fn max_i(a: int, b: int) -> int {
    if a <= b {
        b
    } else {
        a
    }
}

fn min_i64(a: i64, b: i64) -> (r: i64)
    ensures
        r == min_i(a as int, b as int),
{
    if a <= b {
        a
    } else {
        b
    }
}

fn max_i64(a: i64, b: i64) -> (r: i64)
    ensures
        r == max_i(a as int, b as int),
{
    if a <= b {
        b
    } else {
        a
    }
}

/// An axis-aligned box. Its corners are normalized so that `min` is componentwise no larger
/// than `max`; it contains the positions `p` with `min <= p < max` on every axis.
#[derive(Debug, Clone, Copy, PartialEq, Eq, Structural)]
pub struct BoundingBox {
    min: Vec3,
    max: Vec3,
}

impl BoundingBox {
    /// The corners are normalized: `min` is componentwise no larger than `max`.
    #[verifier::type_invariant]
    spec fn normalized(&self) -> bool {
        &&& self.min.x <= self.max.x
        &&& self.min.y <= self.max.y
        &&& self.min.z <= self.max.z
    }

    /// The corner with the smallest coordinates.
    pub closed spec fn lo(&self) -> Vec3 {
        self.min
    }

    /// The corner with the largest coordinates.
    pub closed spec fn hi(&self) -> Vec3 {
        self.max
    }

    /// Whether `p` lies in the box (`min <= p < max` on every axis).
    pub open spec fn contains_spec(&self, x: int, y: int, z: int) -> bool {
        &&& self.lo().x <= x < self.hi().x
        &&& self.lo().y <= y < self.hi().y
        &&& self.lo().z <= z < self.hi().z
    }

    /// Whether this is the box spanned by the opposite corners `a` and `b`.
    pub open spec fn spans(&self, a: Vec3, b: Vec3) -> bool {
        &&& self.lo().x == min_i(a.x as int, b.x as int)
        &&& self.lo().y == min_i(a.y as int, b.y as int)
        &&& self.lo().z == min_i(a.z as int, b.z as int)
        &&& self.hi().x == max_i(a.x as int, b.x as int)
        &&& self.hi().y == max_i(a.y as int, b.y as int)
        &&& self.hi().z == max_i(a.z as int, b.z as int)
    }

    /// The box spanned by two opposite corners `a` and `b`, in any order.
    pub fn new(a: Vec3, b: Vec3) -> (r: BoundingBox)
        ensures
            r.spans(a, b),
    {
        BoundingBox {
            min: Vec3 { x: min_i64(a.x, b.x), y: min_i64(a.y, b.y), z: min_i64(a.z, b.z) },
            max: Vec3 { x: max_i64(a.x, b.x), y: max_i64(a.y, b.y), z: max_i64(a.z, b.z) },
        }
    }

    /// The box of the range `start..end` (its corners normalized).
    pub fn from_range(start: Vec3, end: Vec3) -> (r: BoundingBox)
        ensures
            r.spans(start, end),
    {
        BoundingBox::new(start, end)
    }

    /// The corner with the smallest coordinates.
    pub fn min(&self) -> (r: Vec3)
        ensures
            r == self.lo(),
            r.x <= self.hi().x && r.y <= self.hi().y && r.z <= self.hi().z,
    {
        proof {
            use_type_invariant(self);
        }
        self.min
    }

    /// The corner with the largest coordinates.
    pub fn max(&self) -> (r: Vec3)
        ensures
            r == self.hi(),
            self.lo().x <= r.x && self.lo().y <= r.y && self.lo().z <= r.z,
    {
        proof {
            use_type_invariant(self);
        }
        self.max
    }

    /// Whether `p` lies in the box (`min <= p < max` on every axis).
    pub fn contains(&self, p: Vec3) -> (r: bool)
        ensures
            r == self.contains_spec(p.x as int, p.y as int, p.z as int),
    {
        self.min.x <= p.x && p.x < self.max.x && self.min.y <= p.y && p.y < self.max.y
            && self.min.z <= p.z && p.z < self.max.z
    }
}

} // verus!
