use vstd::prelude::*;

verus! {

/// The fixed-point scale: the integer `ONE` stands for 1.0.
pub const ONE: u64 = 65536;

/// The largest radiance component (and scalar factor) the arithmetic admits.
pub const MAX_VALUE: u64 = 1099511627776;

/// A direction or position, each component in fixed point.
#[derive(Clone, Copy, Debug, PartialEq, Eq, Structural)]
pub struct Vector3 {
    pub x: i64,
    pub y: i64,
    pub z: i64,
}

impl Vector3 {
    pub fn new(x: i64, y: i64, z: i64) -> (r: Vector3)
        ensures
            r == (Vector3 { x, y, z }),
    {
        Vector3 { x, y, z }
    }
}

/// A ray leaving the scene: where it starts and where it points.
#[derive(Clone, Copy, Debug, PartialEq, Eq, Structural)]
pub struct Ray {
    pub origin: Vector3,
    pub direction: Vector3,
}

impl Ray {
    /// The direction is a unit vector: no component exceeds `ONE` in magnitude.
    pub open spec fn wf(&self) -> bool {
        -(ONE as int) <= self.direction.x <= ONE as int
        && -(ONE as int) <= self.direction.y <= ONE as int
        && -(ONE as int) <= self.direction.z <= ONE as int
    }
}

/// Non-negative RGB radiance, each channel in fixed point.
#[derive(Clone, Copy, Debug, PartialEq, Eq, Structural)]
pub struct Rgb {
    pub r: u64,
    pub g: u64,
    pub b: u64,
}

impl Rgb {
    pub fn new(r: u64, g: u64, b: u64) -> (c: Rgb)
        ensures
            c == (Rgb { r, g, b }),
    {
        Rgb { r, g, b }
    }

    pub open spec fn zero_spec() -> Rgb {
        Rgb { r: 0, g: 0, b: 0 }
    }

    pub fn zero() -> (c: Rgb)
        ensures
            c == Rgb::zero_spec(),
    {
        Rgb { r: 0, g: 0, b: 0 }
    }

    /// Every channel lies within the range the arithmetic admits.
    pub open spec fn bounded(&self) -> bool {
        self.r <= MAX_VALUE && self.g <= MAX_VALUE && self.b <= MAX_VALUE
    }
}

} // verus!
