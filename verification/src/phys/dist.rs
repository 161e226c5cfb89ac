use super::fixed::Fixed;
use super::vec2::Vec2;
use std::ops::{Add, AddAssign, Div, Mul, Neg};
use vstd::prelude::*;
use vstd::std_specs::convert::FromSpecImpl;
use vstd::std_specs::ops::{AddSpecImpl, DivSpecImpl, MulSpecImpl, NegSpecImpl};

verus! {

/// The displacement between two positions.
#[derive(Debug, Copy, Clone, PartialEq, Eq, Structural)]
pub struct Distance(pub Vec2);

impl Distance {
    /// The sum of two displacements.
    pub open spec fn plus(self, rhs: Distance) -> Distance {
        Distance(self.0.plus(rhs.0))
    }

    /// The opposite displacement.
    pub open spec fn negated(self) -> Distance {
        Distance(self.0.negated())
    }

    /// The displacement multiplied by the fixed-point factor `rhs`.
    pub open spec fn times(self, rhs: Fixed) -> Distance {
        Distance(self.0.times(rhs))
    }

    /// The displacement divided by the fixed-point divisor `rhs`.
    pub open spec fn over(self, rhs: Fixed) -> Distance {
        Distance(self.0.over(rhs))
    }

    /// The displacement with these components, in thousandths.
    pub fn new(x: Fixed, y: Fixed) -> (r: Distance)
        ensures
            r == Distance(Vec2 { x, y }),
    {
        Distance(Vec2 { x, y })
    }

    /// The sum of the absolute values of the components.
    pub fn taxicab(self) -> (r: Fixed)
        ensures
            r == self.0.taxicab_len(),
    {
        self.0.taxicab()
    }

    /// The larger of the absolute values of the components.
    pub fn chebyshev(self) -> (r: Fixed)
        ensures
            r == self.0.chebyshev_len(),
    {
        self.0.chebyshev()
    }

    /// The squared Euclidean length, rounded down.
    pub fn euclid_squared(self) -> (r: Fixed)
        ensures
            r == self.0.euclid_squared_len(),
    {
        self.0.euclid_squared()
    }
}

impl Default for Distance {
    fn default() -> (r: Distance)
        ensures
            r == Distance(Vec2 { x: 0, y: 0 }),
    {
        Distance(Vec2 { x: 0, y: 0 })
    }
}

impl FromSpecImpl<Vec2> for Distance {
    open spec fn obeys_from_spec() -> bool {
        true
    }

    open spec fn from_spec(v: Vec2) -> Distance {
        Distance(v)
    }
}

impl From<Vec2> for Distance {
    fn from(v: Vec2) -> (r: Distance) {
        Distance(v)
    }
}

impl FromSpecImpl<(Fixed, Fixed)> for Distance {
    open spec fn obeys_from_spec() -> bool {
        true
    }

    open spec fn from_spec(pair: (Fixed, Fixed)) -> Distance {
        Distance(Vec2 { x: pair.0, y: pair.1 })
    }
}

impl From<(Fixed, Fixed)> for Distance {
    fn from(pair: (Fixed, Fixed)) -> (r: Distance) {
        Distance(Vec2 { x: pair.0, y: pair.1 })
    }
}

impl FromSpecImpl<[Fixed; 2]> for Distance {
    open spec fn obeys_from_spec() -> bool {
        true
    }

    open spec fn from_spec(pair: [Fixed; 2]) -> Distance {
        Distance(Vec2 { x: pair@[0], y: pair@[1] })
    }
}

impl From<[Fixed; 2]> for Distance {
    fn from(pair: [Fixed; 2]) -> (r: Distance) {
        Distance(Vec2 { x: pair[0], y: pair[1] })
    }
}

impl AddSpecImpl<Distance> for Distance {
    open spec fn obeys_add_spec() -> bool {
        true
    }

    open spec fn add_req(self, rhs: Distance) -> bool {
        true
    }

    open spec fn add_spec(self, rhs: Distance) -> Distance {
        self.plus(rhs)
    }
}

impl Add<Distance> for Distance {
    type Output = Distance;

    fn add(self, rhs: Distance) -> (r: Distance) {
        Distance(self.0 + rhs.0)
    }
}

impl AddAssign<Distance> for Distance {
    fn add_assign(&mut self, rhs: Distance)
        ensures
            *final(self) == old(self).plus(rhs),
    {
        *self = *self + rhs;
    }
}

impl MulSpecImpl<Fixed> for Distance {
    open spec fn obeys_mul_spec() -> bool {
        true
    }

    open spec fn mul_req(self, rhs: Fixed) -> bool {
        true
    }

    open spec fn mul_spec(self, rhs: Fixed) -> Distance {
        self.times(rhs)
    }
}

impl Mul<Fixed> for Distance {
    type Output = Distance;

    fn mul(self, rhs: Fixed) -> (r: Distance) {
        Distance(self.0 * rhs)
    }
}

impl DivSpecImpl<Fixed> for Distance {
    open spec fn obeys_div_spec() -> bool {
        true
    }

    open spec fn div_req(self, rhs: Fixed) -> bool {
        rhs != 0
    }

    open spec fn div_spec(self, rhs: Fixed) -> Distance {
        self.over(rhs)
    }
}

impl Div<Fixed> for Distance {
    type Output = Distance;

    fn div(self, rhs: Fixed) -> (r: Distance) {
        Distance(self.0 / rhs)
    }
}

impl NegSpecImpl for Distance {
    open spec fn obeys_neg_spec() -> bool {
        true
    }

    open spec fn neg_req(self) -> bool {
        true
    }

    open spec fn neg_spec(self) -> Distance {
        self.negated()
    }
}

impl Neg for Distance {
    type Output = Distance;

    fn neg(self) -> (r: Distance) {
        Distance(self.0.neg())
    }
}

} // verus!
