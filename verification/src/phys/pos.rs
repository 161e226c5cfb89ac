use super::fixed::Fixed;
use super::vec2::Vec2;
use super::dist::Distance;
use std::ops::{Add, AddAssign, Div, Mul, Sub};
use vstd::prelude::*;
use vstd::std_specs::convert::FromSpecImpl;
use vstd::std_specs::ops::{AddSpecImpl, DivSpecImpl, MulSpecImpl, SubSpecImpl};

verus! {

/// A point of the plane.
#[derive(Debug, Copy, Clone, PartialEq, Eq, Structural)]
pub struct Position(pub Vec2);

impl Position {
    /// The point reached from here by the displacement `by`.
    pub open spec fn moved(self, by: Distance) -> Position {
        Position(self.0.plus(by.0))
    }

    /// The point from which the displacement `by` leads here.
    pub open spec fn moved_back(self, by: Distance) -> Position {
        Position(self.0.minus(by.0))
    }

    /// The displacement that leads from `origin` here.
    pub open spec fn offset_from(self, origin: Position) -> Distance {
        Distance(self.0.minus(origin.0))
    }

    /// The position vector multiplied by the fixed-point factor `rhs`.
    pub open spec fn times(self, rhs: Fixed) -> Position {
        Position(self.0.times(rhs))
    }

    /// The position vector divided by the fixed-point divisor `rhs`.
    pub open spec fn over(self, rhs: Fixed) -> Position {
        Position(self.0.over(rhs))
    }

    /// The point with these coordinates, in thousandths.
    pub fn new(x: Fixed, y: Fixed) -> (r: Position)
        ensures
            r == Position(Vec2 { x, y }),
    {
        Position(Vec2 { x, y })
    }
}

impl Default for Position {
    fn default() -> (r: Position)
        ensures
            r == Position(Vec2 { x: 0, y: 0 }),
    {
        Position(Vec2 { x: 0, y: 0 })
    }
}

impl FromSpecImpl<Vec2> for Position {
    open spec fn obeys_from_spec() -> bool {
        true
    }

    open spec fn from_spec(v: Vec2) -> Position {
        Position(v)
    }
}

impl From<Vec2> for Position {
    fn from(v: Vec2) -> (r: Position) {
        Position(v)
    }
}

impl FromSpecImpl<(Fixed, Fixed)> for Position {
    open spec fn obeys_from_spec() -> bool {
        true
    }

    open spec fn from_spec(pair: (Fixed, Fixed)) -> Position {
        Position(Vec2 { x: pair.0, y: pair.1 })
    }
}

impl From<(Fixed, Fixed)> for Position {
    fn from(pair: (Fixed, Fixed)) -> (r: Position) {
        Position(Vec2 { x: pair.0, y: pair.1 })
    }
}

impl FromSpecImpl<[Fixed; 2]> for Position {
    open spec fn obeys_from_spec() -> bool {
        true
    }

    open spec fn from_spec(pair: [Fixed; 2]) -> Position {
        Position(Vec2 { x: pair@[0], y: pair@[1] })
    }
}

impl From<[Fixed; 2]> for Position {
    fn from(pair: [Fixed; 2]) -> (r: Position) {
        Position(Vec2 { x: pair[0], y: pair[1] })
    }
}

impl AddSpecImpl<Distance> for Position {
    open spec fn obeys_add_spec() -> bool {
        true
    }

    open spec fn add_req(self, rhs: Distance) -> bool {
        true
    }

    open spec fn add_spec(self, rhs: Distance) -> Position {
        self.moved(rhs)
    }
}

impl Add<Distance> for Position {
    type Output = Position;

    fn add(self, rhs: Distance) -> (r: Position) {
        Position(self.0 + rhs.0)
    }
}

impl AddAssign<Distance> for Position {
    fn add_assign(&mut self, rhs: Distance)
        ensures
            *final(self) == old(self).moved(rhs),
    {
        *self = *self + rhs;
    }
}

impl SubSpecImpl<Distance> for Position {
    open spec fn obeys_sub_spec() -> bool {
        true
    }

    open spec fn sub_req(self, rhs: Distance) -> bool {
        true
    }

    open spec fn sub_spec(self, rhs: Distance) -> Position {
        self.moved_back(rhs)
    }
}

impl Sub<Distance> for Position {
    type Output = Position;

    fn sub(self, rhs: Distance) -> (r: Position) {
        Position(self.0 - rhs.0)
    }
}

impl SubSpecImpl<Position> for Position {
    open spec fn obeys_sub_spec() -> bool {
        true
    }

    open spec fn sub_req(self, rhs: Position) -> bool {
        true
    }

    open spec fn sub_spec(self, rhs: Position) -> Distance {
        self.offset_from(rhs)
    }
}

impl Sub<Position> for Position {
    type Output = Distance;

    fn sub(self, rhs: Position) -> (r: Distance) {
        Distance(self.0 - rhs.0)
    }
}

impl MulSpecImpl<Fixed> for Position {
    open spec fn obeys_mul_spec() -> bool {
        true
    }

    open spec fn mul_req(self, rhs: Fixed) -> bool {
        true
    }

    open spec fn mul_spec(self, rhs: Fixed) -> Position {
        self.times(rhs)
    }
}

impl Mul<Fixed> for Position {
    type Output = Position;

    fn mul(self, rhs: Fixed) -> (r: Position) {
        Position(self.0 * rhs)
    }
}

impl DivSpecImpl<Fixed> for Position {
    open spec fn obeys_div_spec() -> bool {
        true
    }

    open spec fn div_req(self, rhs: Fixed) -> bool {
        rhs != 0
    }

    open spec fn div_spec(self, rhs: Fixed) -> Position {
        self.over(rhs)
    }
}

impl Div<Fixed> for Position {
    type Output = Position;

    fn div(self, rhs: Fixed) -> (r: Position) {
        Position(self.0 / rhs)
    }
}

} // verus!
