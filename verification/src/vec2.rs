use crate::fixedpoint::{fits_raw, mul_raw, FixedPoint};
use vstd::prelude::*;
use vstd::std_specs::ops::{AddSpecImpl, MulSpecImpl, SubSpecImpl};

verus! {

/// Two-dimensional vector of fixed-point components.
#[derive(Clone, Copy, Debug, PartialEq, Eq, Structural)]
pub struct Vec2 {
    pub x: FixedPoint,
    pub y: FixedPoint,
}

impl AddSpecImpl for Vec2 {
    open spec fn obeys_add_spec() -> bool {
        true
    }

    open spec fn add_req(self, rhs: Vec2) -> bool {
        fits_raw(self.x@ + rhs.x@) && fits_raw(self.y@ + rhs.y@)
    }

    open spec fn add_spec(self, rhs: Vec2) -> Vec2 {
        Vec2 { x: FixedPoint((self.x@ + rhs.x@) as i64), y: FixedPoint((self.y@ + rhs.y@) as i64) }
    }
}

impl core::ops::Add for Vec2 {
    type Output = Self;

    fn add(self, rhs: Self) -> (r: Self) {
        Self { x: self.x + rhs.x, y: self.y + rhs.y }
    }
}

impl SubSpecImpl for Vec2 {
    open spec fn obeys_sub_spec() -> bool {
        true
    }

    open spec fn sub_req(self, rhs: Vec2) -> bool {
        fits_raw(self.x@ - rhs.x@) && fits_raw(self.y@ - rhs.y@)
    }

    open spec fn sub_spec(self, rhs: Vec2) -> Vec2 {
        Vec2 { x: FixedPoint((self.x@ - rhs.x@) as i64), y: FixedPoint((self.y@ - rhs.y@) as i64) }
    }
}

impl core::ops::Sub for Vec2 {
    type Output = Self;

    fn sub(self, rhs: Self) -> (r: Self) {
        Self { x: self.x - rhs.x, y: self.y - rhs.y }
    }
}

impl MulSpecImpl<FixedPoint> for Vec2 {
    open spec fn obeys_mul_spec() -> bool {
        true
    }

    open spec fn mul_req(self, rhs: FixedPoint) -> bool {
        fits_raw(self.x@ * rhs@) && fits_raw(self.y@ * rhs@)
    }

    open spec fn mul_spec(self, rhs: FixedPoint) -> Vec2 {
        Vec2 {
            x: FixedPoint(mul_raw(self.x@, rhs@) as i64),
            y: FixedPoint(mul_raw(self.y@, rhs@) as i64),
        }
    }
}

impl core::ops::Mul<FixedPoint> for Vec2 {
    type Output = Self;

    fn mul(self, rhs: FixedPoint) -> (r: Self) {
        Self { x: self.x * rhs, y: self.y * rhs }
    }
}

} // verus!
