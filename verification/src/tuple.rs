use crate::scalar::{max, maximum, min, minimum, neg, negated, ONE, ZERO};
use vstd::prelude::*;

verus! {

/// Four homogeneous coordinates, each kept as the ordered key of its number.
/// The fourth is one for a point and zero for a vector.
#[derive(Clone, Copy, Debug, PartialEq, Eq, Structural)]
pub struct Tuple {
    pub x: i64,
    pub y: i64,
    pub z: i64,
    pub w: i64,
}

impl Tuple {
    /// The tuple of the four coordinates.
    pub fn new(x: i64, y: i64, z: i64, w: i64) -> (tuple: Self)
        ensures
            tuple == (Tuple { x, y, z, w }),
    {
        Self { x, y, z, w }
    }

    /// The point at the three coordinates.
    pub fn point(x: i64, y: i64, z: i64) -> (tuple: Self)
        ensures
            tuple == (Tuple { x, y, z, w: ONE }),
    {
        Self::new(x, y, z, ONE)
    }

    /// The vector of the three coordinates.
    pub fn vector(x: i64, y: i64, z: i64) -> (tuple: Self)
        ensures
            tuple == (Tuple { x, y, z, w: ZERO }),
    {
        Self::new(x, y, z, ZERO)
    }

    /// The smaller coordinate on every axis.
    pub open spec fn lower(self, other: Self) -> Tuple {
        Tuple {
            x: minimum(self.x, other.x),
            y: minimum(self.y, other.y),
            z: minimum(self.z, other.z),
            w: minimum(self.w, other.w),
        }
    }

    /// The larger coordinate on every axis.
    pub open spec fn upper(self, other: Self) -> Tuple {
        Tuple {
            x: maximum(self.x, other.x),
            y: maximum(self.y, other.y),
            z: maximum(self.z, other.z),
            w: maximum(self.w, other.w),
        }
    }

    /// The tuple that points the other way: every coordinate with the
    /// opposite sign.
    pub open spec fn reversed(self) -> Tuple {
        Tuple { x: negated(self.x), y: negated(self.y), z: negated(self.z), w: negated(self.w) }
    }

    /// Turns the tuple round.
    pub fn neg(&self) -> (tuple: Self)
        ensures
            tuple == self.reversed(),
    {
        Self { x: neg(self.x), y: neg(self.y), z: neg(self.z), w: neg(self.w) }
    }

    /// Takes the smaller coordinate on every axis.
    pub fn min(&self, other: &Self) -> (tuple: Self)
        ensures
            tuple == self.lower(*other),
    {
        Self {
            x: min(self.x, other.x),
            y: min(self.y, other.y),
            z: min(self.z, other.z),
            w: min(self.w, other.w),
        }
    }

    /// Takes the larger coordinate on every axis.
    pub fn max(&self, other: &Self) -> (tuple: Self)
        ensures
            tuple == self.upper(*other),
    {
        Self {
            x: max(self.x, other.x),
            y: max(self.y, other.y),
            z: max(self.z, other.z),
            w: max(self.w, other.w),
        }
    }
}

} // verus!
