//! Positions and rotations in the wire's fixed-point scale.
//!
//! Every coordinate is the signed 32-bit integer that travels on the wire; it
//! stands for that integer divided by `FIXED_ONE`. Distances are compared as
//! exact squares, so no rounding enters an aura decision.

use vstd::prelude::*;

verus! {

/// The wire integer that stands for the coordinate 1.0.
pub const FIXED_ONE: i32 = 65535;

/// A point or displacement, one wire integer per axis.
#[derive(Clone, Copy, Debug, PartialEq, Eq, Structural)]
pub struct Vector3 {
    pub x: i32,
    pub y: i32,
    pub z: i32,
}

impl Vector3 {
    /// The squared length, as a mathematical integer.
    pub open spec fn spec_length_sqr(self) -> int {
        self.x * self.x + self.y * self.y + self.z * self.z
    }

    /// The squared distance to `other`, as a mathematical integer.
    pub open spec fn spec_distance_sqr(self, other: Vector3) -> int {
        (other.x - self.x) * (other.x - self.x) + (other.y - self.y) * (other.y - self.y) + (
        other.z - self.z) * (other.z - self.z)
    }

    pub fn new(x: i32, y: i32, z: i32) -> (v: Vector3)
        ensures
            v == (Vector3 { x, y, z }),
    {
        Vector3 { x, y, z }
    }

    pub fn set(&mut self, x: i32, y: i32, z: i32)
        ensures
            *final(self) == (Vector3 { x, y, z }),
    {
        self.x = x;
        self.y = y;
        self.z = z;
    }

    /// Squared length. Three squares of 32-bit values always fit in 64 bits.
    pub fn length_sqr(&self) -> (r: u64)
        ensures
            r == self.spec_length_sqr(),
    {
        square_i32(self.x) + square_i32(self.y) + square_i32(self.z)
    }

    /// Squared distance between two points.
    pub fn distance_sqr(&self, other: &Vector3) -> (r: u128)
        ensures
            r == self.spec_distance_sqr(*other),
    {
        square_gap(self.x, other.x) + square_gap(self.y, other.y) + square_gap(self.z, other.z)
    }
}

/// `a * a` for a 32-bit `a`; at most 2^62.
fn square_i32(a: i32) -> (r: u64)
    ensures
        r == a * a,
        r <= 0x4000_0000_0000_0000,
{
    let m: u64 = if a >= 0 {
        a as u64
    } else {
        (-(a as i64)) as u64
    };
    assert(m * m == a * a && m * m <= 0x4000_0000_0000_0000) by (nonlinear_arith)
        requires
            m == a || m == -a,
            m <= 0x8000_0000,
    ;
    m * m
}

/// `(b - a)^2` for 32-bit `a` and `b`; below 2^64.
fn square_gap(a: i32, b: i32) -> (r: u128)
    ensures
        r == (b - a) * (b - a),
        r < 0x1_0000_0000_0000_0000,
{
    let d: i64 = b as i64 - a as i64;
    let m: u128 = if d >= 0 {
        d as u128
    } else {
        (-d) as u128
    };
    assert(m * m == (b - a) * (b - a) && m * m < 0x1_0000_0000_0000_0000) by (nonlinear_arith)
        requires
            m == b - a || m == a - b,
            m < 0x1_0000_0000,
    ;
    m * m
}

/// A 3x3 rotation in row-major order, relayed without being inspected.
#[derive(Clone, Copy, Debug, PartialEq, Eq)]
pub struct Mat3 {
    pub data: [i32; 9],
}

impl Mat3 {
    /// The all-zero matrix that a user holds before any transform arrives.
    pub fn new() -> (m: Mat3)
        ensures
            m.data@ == Seq::new(9, |i: int| 0i32),
    {
        Mat3 { data: [0; 9] }
    }
}

} // verus!
