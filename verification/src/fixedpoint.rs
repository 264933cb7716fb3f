use core::ops::{AddAssign, MulAssign, SubAssign};
use vstd::prelude::*;
use vstd::std_specs::ops::{AddSpecImpl, MulSpecImpl, SubSpecImpl};

verus! {

/// Signed fixed-point scalar: a 64-bit integer that counts units of 2^-16.
#[derive(Clone, Copy, Debug, PartialEq, Eq, Structural, PartialOrd, Ord, Hash)]
pub struct FixedPoint(pub i64);

/// Raw units in the value one: 2^16.
pub const ONE_RAW: i64 = 65536;

/// Whether a mathematical integer can be held as a raw fixed-point value.
pub open spec fn fits_raw(v: int) -> bool {
    i64::MIN <= v <= i64::MAX
}

/// Raw product of two raw values: the exact product, divided by 2^16 and
/// rounded toward negative infinity.
pub open spec fn mul_raw(a: int, b: int) -> int {
    (a * b) / 65536
}

impl View for FixedPoint {
    type V = int;

    open spec fn view(&self) -> int {
        self.0 as int
    }
}

impl FixedPoint {
    /// Number of fractional bits.
    pub const DECIMALS: usize = 16;

    /// The value zero.
    pub fn zero() -> (r: Self)
        ensures
            r == FixedPoint(0),
    {
        Self(0)
    }

    /// The value whose raw representation is `raw`.
    pub fn new_raw(raw: i64) -> (r: Self)
        ensures
            r@ == raw,
            r == FixedPoint(raw),
    {
        Self(raw)
    }

    /// The whole part: the value rounded toward negative infinity.
    pub fn whole_part(self) -> (r: i64)
        ensures
            r == self@ / 65536,
    {
        let raw: i64 = self.0;
        assert(raw >> 16 == raw / 65536) by (bit_vector);
        raw >> 16
    }

    /// What the value has beyond a multiple of one, in raw units, counted
    /// from the multiple next to it on the side of zero: the remainder has
    /// the sign of the value.
    pub fn frac_part(self) -> (r: i64)
        ensures
            self@ >= 0 ==> r == self@ % 65536,
            self@ < 0 ==> r == -((-self@) % 65536),
    {
        self.0 % 65536
    }

    /// The raw representation: the value times 2^16.
    pub fn raw(self) -> (r: i64)
        ensures
            r == self@,
    {
        self.0
    }
}

impl AddSpecImpl for FixedPoint {
    open spec fn obeys_add_spec() -> bool {
        true
    }

    open spec fn add_req(self, rhs: FixedPoint) -> bool {
        fits_raw(self@ + rhs@)
    }

    open spec fn add_spec(self, rhs: FixedPoint) -> FixedPoint {
        FixedPoint((self@ + rhs@) as i64)
    }
}

impl core::ops::Add for FixedPoint {
    type Output = Self;

    fn add(self, rhs: Self) -> (r: Self) {
        Self(self.0 + rhs.0)
    }
}

impl SubSpecImpl for FixedPoint {
    open spec fn obeys_sub_spec() -> bool {
        true
    }

    open spec fn sub_req(self, rhs: FixedPoint) -> bool {
        fits_raw(self@ - rhs@)
    }

    open spec fn sub_spec(self, rhs: FixedPoint) -> FixedPoint {
        FixedPoint((self@ - rhs@) as i64)
    }
}

impl core::ops::Sub for FixedPoint {
    type Output = Self;

    fn sub(self, rhs: Self) -> (r: Self) {
        Self(self.0 - rhs.0)
    }
}

impl MulSpecImpl for FixedPoint {
    open spec fn obeys_mul_spec() -> bool {
        true
    }

    open spec fn mul_req(self, rhs: FixedPoint) -> bool {
        fits_raw(self@ * rhs@)
    }

    open spec fn mul_spec(self, rhs: FixedPoint) -> FixedPoint {
        FixedPoint(mul_raw(self@, rhs@) as i64)
    }
}

impl core::ops::Mul for FixedPoint {
    type Output = Self;

    fn mul(self, rhs: Self) -> (r: Self) {
        let p: i64 = self.0 * rhs.0;
        assert(p >> 16 == p / 65536) by (bit_vector);
        Self(p >> 16)
    }
}

impl AddAssign for FixedPoint {
    fn add_assign(&mut self, rhs: Self)
        requires
            fits_raw(old(self)@ + rhs@),
        ensures
            final(self)@ == old(self)@ + rhs@,
    {
        *self = *self + rhs;
    }
}

impl SubAssign for FixedPoint {
    fn sub_assign(&mut self, rhs: Self)
        requires
            fits_raw(old(self)@ - rhs@),
        ensures
            final(self)@ == old(self)@ - rhs@,
    {
        *self = *self - rhs;
    }
}

impl MulAssign for FixedPoint {
    fn mul_assign(&mut self, rhs: Self)
        requires
            fits_raw(old(self)@ * rhs@),
        ensures
            final(self)@ == mul_raw(old(self)@, rhs@),
    {
        *self = *self * rhs;
    }
}

/// A product never exceeds the exact quotient and comes within one raw
/// unit of it: multiplication rounds toward negative infinity.
pub proof fn lemma_mul_rounds_down(a: int, b: int)
    ensures
        mul_raw(a, b) * 65536 <= a * b < (mul_raw(a, b) + 1) * 65536,
{
    vstd::arithmetic::div_mod::lemma_fundamental_div_mod(a * b, 65536);
    vstd::arithmetic::div_mod::lemma_mod_bound(a * b, 65536);
}

/// Multiplying by one keeps a value, and multiplying by minus one negates
/// it, both exactly.
pub proof fn lemma_mul_unit(a: int)
    ensures
        mul_raw(a, 65536) == a,
        mul_raw(a, -65536) == -a,
{
    assert((a * 65536) / 65536 == a) by (nonlinear_arith);
    assert((a * (-65536)) / 65536 == -a) by (nonlinear_arith);
}

/// Multiplying by a factor between zero and one never moves a value away
/// from zero, and never across it.
pub proof fn lemma_mul_shrinks(a: int, f: int)
    requires
        0 <= f <= 65536,
    ensures
        a >= 0 ==> 0 <= mul_raw(a, f) <= a,
        a <= 0 ==> a <= mul_raw(a, f) <= 0,
{
    lemma_mul_rounds_down(a, f);
    if a >= 0 {
        assert(0 <= a * f <= a * 65536) by (nonlinear_arith)
            requires
                a >= 0,
                0 <= f <= 65536,
        ;
    } else {
        assert(a * 65536 <= a * f <= 0) by (nonlinear_arith)
            requires
                a <= 0,
                0 <= f <= 65536,
        ;
    }
}

} // verus!
