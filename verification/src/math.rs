//! Fixed-point vectors and the saturating arithmetic the body integrator
//! uses.
//!
//! Positions, velocities and gravity are carried as integer fixed-point
//! coordinates; the scale of one unit is the host's choice.  The integrator
//! saturates at the representable range instead of wrapping.

use vstd::prelude::*;

verus! {

/// The value `a + b` clamped to the representable range of `i64`.
pub open spec fn sat_add_spec(a: i64, b: i64) -> i64 {
    if a + b > i64::MAX {
        i64::MAX
    } else if a + b < i64::MIN {
        i64::MIN
    } else {
        (a + b) as i64
    }
}

/// Adds two coordinates, clamping at the representable range.
pub fn sat_add(a: i64, b: i64) -> (r: i64)
    ensures
        r == sat_add_spec(a, b),
{
    let wide: i128 = a as i128 + b as i128;
    if wide > i64::MAX as i128 {
        i64::MAX
    } else if wide < i64::MIN as i128 {
        i64::MIN
    } else {
        wide as i64
    }
}

/// A three-component fixed-point vector.
#[derive(Clone, Copy, Debug, PartialEq, Eq, Structural)]
pub struct Vec3 {
    pub x: i64,
    pub y: i64,
    pub z: i64,
}

/// Component-wise saturating vector sum.
pub open spec fn sat_add3_spec(a: Vec3, b: Vec3) -> Vec3 {
    Vec3 { x: sat_add_spec(a.x, b.x), y: sat_add_spec(a.y, b.y), z: sat_add_spec(a.z, b.z) }
}

impl Vec3 {
    /// The zero vector.
    pub fn zero() -> (r: Self)
        ensures
            r == (Vec3 { x: 0, y: 0, z: 0 }),
    {
        Vec3 { x: 0, y: 0, z: 0 }
    }

    /// Builds a vector from its components.
    pub fn new(x: i64, y: i64, z: i64) -> (r: Self)
        ensures
            r == (Vec3 { x, y, z }),
    {
        Vec3 { x, y, z }
    }

    /// Adds another vector component-wise, clamping at the representable
    /// range.
    pub fn sat_add3(self, other: Vec3) -> (r: Vec3)
        ensures
            r == sat_add3_spec(self, other),
    {
        Vec3 {
            x: sat_add(self.x, other.x),
            y: sat_add(self.y, other.y),
            z: sat_add(self.z, other.z),
        }
    }
}

/// Pose data exchanged between an entity and its rigid body: a position and
/// a linear velocity.
#[derive(Clone, Copy, Debug, PartialEq, Eq, Structural)]
pub struct Transform {
    pub position: Vec3,
    pub velocity: Vec3,
}

} // verus!
