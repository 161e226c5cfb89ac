//! Uniform draws of vectors, positions, velocities and accelerations.

use super::acc::Acceleration;
use super::fixed::Fixed;
use super::pos::Position;
use super::vec2::Vec2;
use super::vel::Velocity;
use rand::Rng;
use vstd::prelude::*;

verus! {

/// `Rng::gen_range` on the thread's generator: some number of the half-open
/// range, which must not be empty.
#[verifier::external_body]
fn uniform(low: Fixed, high: Fixed) -> (r: Fixed)
    requires
        low < high,
    ensures
        low <= r < high,
{
    rand::thread_rng().gen_range(low..high)
}

/// Whether `v` lies in the box that begins at `low` and ends before `high`.
pub open spec fn boxed(low: Vec2, high: Vec2, v: Vec2) -> bool {
    &&& low.x <= v.x < high.x
    &&& low.y <= v.y < high.y
}

/// Draws vectors from a box, each component on its own.
#[derive(Clone, Copy, Debug)]
pub struct UniformVec2 {
    low: Vec2,
    high: Vec2,
}

impl UniformVec2 {
    /// The corner at which the box begins.
    pub closed spec fn low(self) -> Vec2 {
        self.low
    }

    /// The corner before which the box ends.
    pub closed spec fn high(self) -> Vec2 {
        self.high
    }

    /// Whether the box holds anything.
    pub open spec fn wf(self) -> bool {
        &&& self.low().x < self.high().x
        &&& self.low().y < self.high().y
    }

    /// The draw from the box that begins at `low` and ends before `high`.
    pub fn new(low: Vec2, high: Vec2) -> (r: UniformVec2)
        requires
            low.x < high.x,
            low.y < high.y,
        ensures
            r.wf(),
            r.low() == low,
            r.high() == high,
    {
        UniformVec2 { low, high }
    }

    /// The same as [`UniformVec2::new`]: the far corner stays out.
    pub fn new_inclusive(low: Vec2, high: Vec2) -> (r: UniformVec2)
        requires
            low.x < high.x,
            low.y < high.y,
        ensures
            r.wf(),
            r.low() == low,
            r.high() == high,
    {
        UniformVec2::new(low, high)
    }

    /// Some vector of the box.
    pub fn sample(&self) -> (r: Vec2)
        requires
            self.wf(),
        ensures
            boxed(self.low(), self.high(), r),
    {
        Vec2 { x: uniform(self.low.x, self.high.x), y: uniform(self.low.y, self.high.y) }
    }
}

/// Draws positions from a box.
#[derive(Clone, Copy, Debug)]
pub struct UniformPosition(UniformVec2);

impl UniformPosition {
    /// The box of coordinates.
    pub closed spec fn range(self) -> UniformVec2 {
        self.0
    }

    /// The draw from the box that begins at `low` and ends before `high`.
    pub fn new(low: Position, high: Position) -> (r: UniformPosition)
        requires
            low.0.x < high.0.x,
            low.0.y < high.0.y,
        ensures
            r.range().wf(),
            r.range().low() == low.0,
            r.range().high() == high.0,
    {
        UniformPosition(UniformVec2::new(low.0, high.0))
    }

    /// The same as [`UniformPosition::new`]: the far corner stays out.
    pub fn new_inclusive(low: Position, high: Position) -> (r: UniformPosition)
        requires
            low.0.x < high.0.x,
            low.0.y < high.0.y,
        ensures
            r.range().wf(),
            r.range().low() == low.0,
            r.range().high() == high.0,
    {
        UniformPosition::new(low, high)
    }

    /// Some position of the box.
    pub fn sample(&self) -> (r: Position)
        requires
            self.range().wf(),
        ensures
            boxed(self.range().low(), self.range().high(), r.0),
    {
        Position(self.0.sample())
    }
}

/// Draws velocities from a box.
#[derive(Clone, Copy, Debug)]
pub struct UniformVelocity(UniformVec2);

impl UniformVelocity {
    /// The box of components.
    pub closed spec fn range(self) -> UniformVec2 {
        self.0
    }

    /// The draw from the box that begins at `low` and ends before `high`.
    pub fn new(low: Velocity, high: Velocity) -> (r: UniformVelocity)
        requires
            low.0.x < high.0.x,
            low.0.y < high.0.y,
        ensures
            r.range().wf(),
            r.range().low() == low.0,
            r.range().high() == high.0,
    {
        UniformVelocity(UniformVec2::new(low.0, high.0))
    }

    /// The same as [`UniformVelocity::new`]: the far corner stays out.
    pub fn new_inclusive(low: Velocity, high: Velocity) -> (r: UniformVelocity)
        requires
            low.0.x < high.0.x,
            low.0.y < high.0.y,
        ensures
            r.range().wf(),
            r.range().low() == low.0,
            r.range().high() == high.0,
    {
        UniformVelocity::new(low, high)
    }

    /// Some velocity of the box.
    pub fn sample(&self) -> (r: Velocity)
        requires
            self.range().wf(),
        ensures
            boxed(self.range().low(), self.range().high(), r.0),
    {
        Velocity(self.0.sample())
    }
}

/// Draws accelerations from a box.
#[derive(Clone, Copy, Debug)]
pub struct UniformAcceleration(UniformVec2);

impl UniformAcceleration {
    /// The box of components.
    pub closed spec fn range(self) -> UniformVec2 {
        self.0
    }

    /// The draw from the box that begins at `low` and ends before `high`.
    pub fn new(low: Acceleration, high: Acceleration) -> (r: UniformAcceleration)
        requires
            low.0.x < high.0.x,
            low.0.y < high.0.y,
        ensures
            r.range().wf(),
            r.range().low() == low.0,
            r.range().high() == high.0,
    {
        UniformAcceleration(UniformVec2::new(low.0, high.0))
    }

    /// The same as [`UniformAcceleration::new`]: the far corner stays out.
    pub fn new_inclusive(low: Acceleration, high: Acceleration) -> (r: UniformAcceleration)
        requires
            low.0.x < high.0.x,
            low.0.y < high.0.y,
        ensures
            r.range().wf(),
            r.range().low() == low.0,
            r.range().high() == high.0,
    {
        UniformAcceleration::new(low, high)
    }

    /// Some acceleration of the box.
    pub fn sample(&self) -> (r: Acceleration)
        requires
            self.range().wf(),
        ensures
            boxed(self.range().low(), self.range().high(), r.0),
    {
        Acceleration(self.0.sample())
    }
}

} // verus!
