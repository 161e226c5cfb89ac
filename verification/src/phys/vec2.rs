use super::fixed::{is_tame, magnitude, narrow, saturate, scale, scaled, tame, Fixed, UNIT};
use std::ops::{Add, AddAssign, Div, Mul, MulAssign, Neg, Sub, SubAssign};
use vstd::prelude::*;
use vstd::std_specs::convert::FromSpecImpl;
use vstd::std_specs::ops::{AddSpecImpl, DivSpecImpl, MulSpecImpl, NegSpecImpl, SubSpecImpl};

verus! {

/// A pair of fixed-point coordinates.
#[derive(Debug, Copy, Clone, PartialEq, Eq, Structural)]
pub struct Vec2 {
    pub x: Fixed,
    pub y: Fixed,
}

impl Vec2 {
    /// Whether both components are tame. Every vector that the operators give
    /// is, and on tame vectors adding or taking away nothing changes nothing.
    pub open spec fn tame(self) -> bool {
        tame(self.x) && tame(self.y)
    }

    /// Whether both components are tame.
    pub fn is_tame(self) -> (r: bool)
        ensures
            r == self.tame(),
    {
        is_tame(self.x) && is_tame(self.y)
    }

    /// The componentwise saturating sum.
    pub open spec fn plus(self, rhs: Vec2) -> Vec2 {
        Vec2 { x: saturate(self.x + rhs.x), y: saturate(self.y + rhs.y) }
    }

    /// The componentwise saturating difference.
    pub open spec fn minus(self, rhs: Vec2) -> Vec2 {
        Vec2 { x: saturate(self.x - rhs.x), y: saturate(self.y - rhs.y) }
    }

    /// The vector pointing the other way.
    pub open spec fn negated(self) -> Vec2 {
        Vec2 { x: saturate(-self.x), y: saturate(-self.y) }
    }

    /// The vector with both components multiplied by the ratio `num / den`.
    pub open spec fn stretched(self, num: int, den: int) -> Vec2 {
        Vec2 { x: scaled(self.x as int, num, den), y: scaled(self.y as int, num, den) }
    }

    /// The product with the fixed-point factor `rhs`.
    pub open spec fn times(self, rhs: Fixed) -> Vec2 {
        self.stretched(rhs as int, UNIT as int)
    }

    /// The quotient by the fixed-point divisor `rhs`.
    pub open spec fn over(self, rhs: Fixed) -> Vec2 {
        self.stretched(UNIT as int, rhs as int)
    }

    /// The sum of the absolute values of the components.
    pub open spec fn taxicab_len(self) -> Fixed {
        saturate(magnitude(self.x as int) + magnitude(self.y as int))
    }

    /// The larger of the absolute values of the components.
    pub open spec fn chebyshev_len(self) -> Fixed {
        if magnitude(self.x as int) >= magnitude(self.y as int) {
            saturate(magnitude(self.x as int))
        } else {
            saturate(magnitude(self.y as int))
        }
    }

    /// The exact sum of the squares of the raw components, in millionths.
    pub open spec fn square_sum(self) -> int {
        self.x * self.x + self.y * self.y
    }

    /// The squared Euclidean length as a fixed-point number.
    pub open spec fn euclid_squared_len(self) -> Fixed {
        saturate(self.square_sum() / (UNIT as int))
    }

    /// Multiplies both components by `num / den`.
    pub fn stretch(self, num: Fixed, den: Fixed) -> (r: Vec2)
        requires
            den != 0,
        ensures
            r == self.stretched(num as int, den as int),
    {
        Vec2 { x: scale(self.x, num, den), y: scale(self.y, num, den) }
    }

    /// The sum of the absolute values of the components.
    pub fn taxicab(self) -> (r: Fixed)
        ensures
            r == self.taxicab_len(),
    {
        narrow(wide_magnitude(self.x) + wide_magnitude(self.y))
    }

    /// The larger of the absolute values of the components.
    pub fn chebyshev(self) -> (r: Fixed)
        ensures
            r == self.chebyshev_len(),
    {
        let ax = wide_magnitude(self.x);
        let ay = wide_magnitude(self.y);
        if ax >= ay {
            narrow(ax)
        } else {
            narrow(ay)
        }
    }

    /// The squared Euclidean length, rounded down.
    pub fn euclid_squared(self) -> (r: Fixed)
        ensures
            r == self.euclid_squared_len(),
    {
        let total: u128 = self.raw_square_sum();
        let q: u128 = total / 1000;
        if q > i64::MAX as u128 {
            i64::MAX
        } else {
            q as i64
        }
    }

    /// The exact sum of the squares of the raw components.
    pub fn raw_square_sum(self) -> (r: u128)
        ensures
            r == self.square_sum(),
            r <= 0x8000_0000_0000_0000_0000_0000_0000_0000,
    {
        let ax: u128 = wide_magnitude(self.x) as u128;
        let ay: u128 = wide_magnitude(self.y) as u128;
        assert(ax * ax <= 0x4000_0000_0000_0000_0000_0000_0000_0000) by (nonlinear_arith)
            requires
                ax <= 0x8000_0000_0000_0000,
        ;
        assert(ay * ay <= 0x4000_0000_0000_0000_0000_0000_0000_0000) by (nonlinear_arith)
            requires
                ay <= 0x8000_0000_0000_0000,
        ;
        assert(ax * ax == self.x * self.x) by (nonlinear_arith)
            requires
                ax == self.x || ax == -self.x,
        ;
        assert(ay * ay == self.y * self.y) by (nonlinear_arith)
            requires
                ay == self.y || ay == -self.y,
        ;
        ax * ax + ay * ay
    }
}

/// The absolute value of `v`, which always fits the wider type.
pub fn wide_magnitude(v: Fixed) -> (r: i128)
    ensures
        r == magnitude(v as int),
        0 <= r <= 0x8000_0000_0000_0000,
{
    if v < 0 {
        -(v as i128)
    } else {
        v as i128
    }
}

impl Default for Vec2 {
    fn default() -> (r: Vec2)
        ensures
            r == (Vec2 { x: 0, y: 0 }),
    {
        Vec2 { x: 0, y: 0 }
    }
}

impl FromSpecImpl<(Fixed, Fixed)> for Vec2 {
    open spec fn obeys_from_spec() -> bool {
        true
    }

    open spec fn from_spec(pair: (Fixed, Fixed)) -> Vec2 {
        Vec2 { x: pair.0, y: pair.1 }
    }
}

impl From<(Fixed, Fixed)> for Vec2 {
    fn from(pair: (Fixed, Fixed)) -> (r: Vec2) {
        Vec2 { x: pair.0, y: pair.1 }
    }
}

impl AddSpecImpl<Vec2> for Vec2 {
    open spec fn obeys_add_spec() -> bool {
        true
    }

    open spec fn add_req(self, rhs: Vec2) -> bool {
        true
    }

    open spec fn add_spec(self, rhs: Vec2) -> Vec2 {
        self.plus(rhs)
    }
}

impl Add<Vec2> for Vec2 {
    type Output = Vec2;

    fn add(self, rhs: Vec2) -> (r: Vec2) {
        Vec2 {
            x: narrow(self.x as i128 + rhs.x as i128),
            y: narrow(self.y as i128 + rhs.y as i128),
        }
    }
}

impl AddAssign<Vec2> for Vec2 {
    fn add_assign(&mut self, rhs: Vec2)
        ensures
            *final(self) == old(self).plus(rhs),
    {
        self.x = narrow(self.x as i128 + rhs.x as i128);
        self.y = narrow(self.y as i128 + rhs.y as i128);
    }
}

impl SubSpecImpl<Vec2> for Vec2 {
    open spec fn obeys_sub_spec() -> bool {
        true
    }

    open spec fn sub_req(self, rhs: Vec2) -> bool {
        true
    }

    open spec fn sub_spec(self, rhs: Vec2) -> Vec2 {
        self.minus(rhs)
    }
}

impl Sub<Vec2> for Vec2 {
    type Output = Vec2;

    fn sub(self, rhs: Vec2) -> (r: Vec2) {
        Vec2 {
            x: narrow(self.x as i128 - rhs.x as i128),
            y: narrow(self.y as i128 - rhs.y as i128),
        }
    }
}

impl SubAssign<Vec2> for Vec2 {
    fn sub_assign(&mut self, rhs: Vec2)
        ensures
            *final(self) == old(self).minus(rhs),
    {
        self.x = narrow(self.x as i128 - rhs.x as i128);
        self.y = narrow(self.y as i128 - rhs.y as i128);
    }
}

impl MulSpecImpl<Fixed> for Vec2 {
    open spec fn obeys_mul_spec() -> bool {
        true
    }

    open spec fn mul_req(self, rhs: Fixed) -> bool {
        true
    }

    open spec fn mul_spec(self, rhs: Fixed) -> Vec2 {
        self.times(rhs)
    }
}

impl Mul<Fixed> for Vec2 {
    type Output = Vec2;

    fn mul(self, rhs: Fixed) -> (r: Vec2) {
        self.stretch(rhs, UNIT)
    }
}

impl MulAssign<Fixed> for Vec2 {
    fn mul_assign(&mut self, rhs: Fixed)
        ensures
            *final(self) == old(self).times(rhs),
    {
        self.x = scale(self.x, rhs, UNIT);
        self.y = scale(self.y, rhs, UNIT);
    }
}

impl DivSpecImpl<Fixed> for Vec2 {
    open spec fn obeys_div_spec() -> bool {
        true
    }

    open spec fn div_req(self, rhs: Fixed) -> bool {
        rhs != 0
    }

    open spec fn div_spec(self, rhs: Fixed) -> Vec2 {
        self.over(rhs)
    }
}

impl Div<Fixed> for Vec2 {
    type Output = Vec2;

    fn div(self, rhs: Fixed) -> (r: Vec2) {
        self.stretch(UNIT, rhs)
    }
}

impl NegSpecImpl for Vec2 {
    open spec fn obeys_neg_spec() -> bool {
        true
    }

    open spec fn neg_req(self) -> bool {
        true
    }

    open spec fn neg_spec(self) -> Vec2 {
        self.negated()
    }
}

impl Neg for Vec2 {
    type Output = Vec2;

    fn neg(self) -> (r: Vec2) {
        Vec2 { x: narrow(-(self.x as i128)), y: narrow(-(self.y as i128)) }
    }
}

} // verus!
