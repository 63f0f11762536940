//! 3D positions over fixed-point scalars.

use vstd::prelude::*;
use crate::fixed::{Fixed, ok_raw};
use crate::vector::Vector3;

verus! {

/// A position in 3D space.
#[derive(Clone, Copy, Debug, PartialEq, Eq, Structural)]
pub struct Point {
    pub x: Fixed,
    pub y: Fixed,
    pub z: Fixed,
}

impl Point {
    /// The origin.
    pub fn zero() -> (r: Point)
        ensures
            r.x.raw == 0,
            r.y.raw == 0,
            r.z.raw == 0,
    {
        Point::from_one(Fixed::zero())
    }

    /// The point with all three coordinates equal to `v`.
    pub fn from_one(v: Fixed) -> (r: Point)
        ensures
            r.x == v,
            r.y == v,
            r.z == v,
    {
        Point { x: v, y: v, z: v }
    }

    /// All three coordinates within `b` raw units of zero.
    pub open spec fn bounded(self, b: int) -> bool {
        &&& -b <= self.x.raw <= b
        &&& -b <= self.y.raw <= b
        &&& -b <= self.z.raw <= b
    }

    /// Exact translation by a vector.
    pub fn add(self, other: Vector3) -> (r: Point)
        requires
            ok_raw(self.x.raw + other.x.raw),
            ok_raw(self.y.raw + other.y.raw),
            ok_raw(self.z.raw + other.z.raw),
        ensures
            r.x.raw == self.x.raw + other.x.raw,
            r.y.raw == self.y.raw + other.y.raw,
            r.z.raw == self.z.raw + other.z.raw,
    {
        Point { x: self.x.add(other.x), y: self.y.add(other.y), z: self.z.add(other.z) }
    }

    /// Exact difference of two points: the displacement from `other` to
    /// `self`.
    pub fn sub(self, other: Point) -> (r: Vector3)
        requires
            ok_raw(self.x.raw - other.x.raw),
            ok_raw(self.y.raw - other.y.raw),
            ok_raw(self.z.raw - other.z.raw),
        ensures
            r.x.raw == self.x.raw - other.x.raw,
            r.y.raw == self.y.raw - other.y.raw,
            r.z.raw == self.z.raw - other.z.raw,
    {
        Vector3 { x: self.x.sub(other.x), y: self.y.sub(other.y), z: self.z.sub(other.z) }
    }
}

} // verus!
