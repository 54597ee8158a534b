//! Vectors and quaternions as the inspector carries them.

use vstd::prelude::*;

verus! {

/// Three single-precision numbers, each carried as its IEEE-754 bit pattern.
///
/// The library moves such numbers between the scene and the widgets and
/// compares them for identity; it never does arithmetic on them.
#[derive(Clone, Copy, Debug, PartialEq, Eq, Structural)]
pub struct Vec3 {
    pub x: u32,
    pub y: u32,
    pub z: u32,
}

/// A rotation as a quaternion of four single-precision numbers, each carried
/// as its bit pattern.
#[derive(Clone, Copy, Debug, PartialEq, Eq, Structural)]
pub struct Quat {
    pub x: u32,
    pub y: u32,
    pub z: u32,
    pub w: u32,
}

impl Vec3 {
    /// The vector with the given coordinates.
    pub fn new(x: u32, y: u32, z: u32) -> (v: Vec3)
        ensures
            v == (Vec3 { x, y, z }),
    {
        Vec3 { x, y, z }
    }
}

impl Quat {
    /// The quaternion with the given coordinates.
    pub fn from_xyzw(x: u32, y: u32, z: u32, w: u32) -> (q: Quat)
        ensures
            q == (Quat { x, y, z, w }),
    {
        Quat { x, y, z, w }
    }
}

} // verus!
