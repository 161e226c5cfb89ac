use super::fixed::Fixed;
use super::vec2::Vec2;
use super::span::{seconds, whole_seconds};
use crate::clock::Span;
use super::vel::Velocity;
use std::ops::{Add, AddAssign, Div, Mul, Neg};
use vstd::prelude::*;
use vstd::std_specs::convert::FromSpecImpl;
use vstd::std_specs::ops::{AddSpecImpl, DivSpecImpl, MulSpecImpl, NegSpecImpl};

verus! {

/// A change of velocity per second.
#[derive(Debug, Copy, Clone, PartialEq, Eq, Structural)]
pub struct Acceleration(pub Vec2);

impl Acceleration {
    /// The sum of two accelerations.
    pub open spec fn plus(self, rhs: Acceleration) -> Acceleration {
        Acceleration(self.0.plus(rhs.0))
    }

    /// The opposite acceleration.
    pub open spec fn negated(self) -> Acceleration {
        Acceleration(self.0.negated())
    }

    /// The velocity gained under this acceleration in `secs` fixed-point seconds.
    pub open spec fn gained(self, secs: Fixed) -> Velocity {
        Velocity(self.0.times(secs))
    }

    /// The acceleration multiplied by the fixed-point factor `rhs`.
    pub open spec fn times(self, rhs: Fixed) -> Acceleration {
        Acceleration(self.0.times(rhs))
    }

    /// The acceleration divided by the fixed-point divisor `rhs`.
    pub open spec fn over(self, rhs: Fixed) -> Acceleration {
        Acceleration(self.0.over(rhs))
    }

    /// The acceleration with these components, in thousandths.
    pub fn new(x: Fixed, y: Fixed) -> (r: Acceleration)
        ensures
            r == Acceleration(Vec2 { x, y }),
    {
        Acceleration(Vec2 { x, y })
    }
}

impl Default for Acceleration {
    fn default() -> (r: Acceleration)
        ensures
            r == Acceleration(Vec2 { x: 0, y: 0 }),
    {
        Acceleration(Vec2 { x: 0, y: 0 })
    }
}

impl FromSpecImpl<Vec2> for Acceleration {
    open spec fn obeys_from_spec() -> bool {
        true
    }

    open spec fn from_spec(v: Vec2) -> Acceleration {
        Acceleration(v)
    }
}

impl From<Vec2> for Acceleration {
    fn from(v: Vec2) -> (r: Acceleration) {
        Acceleration(v)
    }
}

impl FromSpecImpl<(Fixed, Fixed)> for Acceleration {
    open spec fn obeys_from_spec() -> bool {
        true
    }

    open spec fn from_spec(pair: (Fixed, Fixed)) -> Acceleration {
        Acceleration(Vec2 { x: pair.0, y: pair.1 })
    }
}

impl From<(Fixed, Fixed)> for Acceleration {
    fn from(pair: (Fixed, Fixed)) -> (r: Acceleration) {
        Acceleration(Vec2 { x: pair.0, y: pair.1 })
    }
}

impl AddSpecImpl<Acceleration> for Acceleration {
    open spec fn obeys_add_spec() -> bool {
        true
    }

    open spec fn add_req(self, rhs: Acceleration) -> bool {
        true
    }

    open spec fn add_spec(self, rhs: Acceleration) -> Acceleration {
        self.plus(rhs)
    }
}

impl Add<Acceleration> for Acceleration {
    type Output = Acceleration;

    fn add(self, rhs: Acceleration) -> (r: Acceleration) {
        Acceleration(self.0 + rhs.0)
    }
}

impl AddAssign<Acceleration> for Acceleration {
    fn add_assign(&mut self, rhs: Acceleration)
        ensures
            *final(self) == old(self).plus(rhs),
    {
        *self = *self + rhs;
    }
}

impl MulSpecImpl<Span> for Acceleration {
    open spec fn obeys_mul_spec() -> bool {
        true
    }

    open spec fn mul_req(self, rhs: Span) -> bool {
        true
    }

    open spec fn mul_spec(self, rhs: Span) -> Velocity {
        self.gained(whole_seconds(rhs))
    }
}

impl Mul<Span> for Acceleration {
    type Output = Velocity;

    fn mul(self, rhs: Span) -> (r: Velocity) {
        Velocity(self.0 * seconds(rhs))
    }
}

impl MulSpecImpl<Fixed> for Acceleration {
    open spec fn obeys_mul_spec() -> bool {
        true
    }

    open spec fn mul_req(self, rhs: Fixed) -> bool {
        true
    }

    open spec fn mul_spec(self, rhs: Fixed) -> Acceleration {
        self.times(rhs)
    }
}

impl Mul<Fixed> for Acceleration {
    type Output = Acceleration;

    fn mul(self, rhs: Fixed) -> (r: Acceleration) {
        Acceleration(self.0 * rhs)
    }
}

impl DivSpecImpl<Fixed> for Acceleration {
    open spec fn obeys_div_spec() -> bool {
        true
    }

    open spec fn div_req(self, rhs: Fixed) -> bool {
        rhs != 0
    }

    open spec fn div_spec(self, rhs: Fixed) -> Acceleration {
        self.over(rhs)
    }
}

impl Div<Fixed> for Acceleration {
    type Output = Acceleration;

    fn div(self, rhs: Fixed) -> (r: Acceleration) {
        Acceleration(self.0 / rhs)
    }
}

impl NegSpecImpl for Acceleration {
    open spec fn obeys_neg_spec() -> bool {
        true
    }

    open spec fn neg_req(self) -> bool {
        true
    }

    open spec fn neg_spec(self) -> Acceleration {
        self.negated()
    }
}

impl Neg for Acceleration {
    type Output = Acceleration;

    fn neg(self) -> (r: Acceleration) {
        Acceleration(self.0.neg())
    }
}

} // verus!
