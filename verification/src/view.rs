//! What the display shows of the plane: the camera, and which entities and
//! edges are worth drawing.

use crate::clock::Span;
use crate::data::Entity;
use crate::phys::{
    is_between, lexical, scale, scaled, whole_seconds, Distance, Fixed, Position, Vec2, LIMIT,
    UNIT,
};
use std::cmp::Ordering;
use vstd::prelude::*;

verus! {

/// How short an edge may be, along both axes, and still be drawn.
pub const SHORTEST_EDGE: Fixed = 1_000;

/// The camera: the point of the display at which the origin of the plane
/// appears, and the magnification.
#[derive(Debug, Copy, Clone, PartialEq, Eq, Structural)]
pub struct Camera {
    pub position: Position,
    pub zoom: Fixed,
}

/// Where the entity is the time `delta` after the last tick, if it keeps its
/// velocity.
pub open spec fn glided(e: Entity, delta: Span) -> Position {
    e.position.moved(e.velocity.travelled(whole_seconds(delta)))
}

/// The magnification after one step of the wheel: half as much again for a
/// step forward, but more than before wherever there is more; two thirds for
/// a step back, but never nothing.
pub open spec fn zoomed(zoom: Fixed, forward: bool) -> Fixed {
    if forward {
        if scaled(zoom as int, 3, 2) > zoom {
            scaled(zoom as int, 3, 2)
        } else if zoom < LIMIT {
            (zoom + 1) as i64
        } else {
            zoom
        }
    } else if scaled(zoom as int, 2, 3) < 1 {
        1
    } else {
        scaled(zoom as int, 2, 3)
    }
}

impl Camera {
    /// Whether the camera magnifies at all.
    pub open spec fn wf(self) -> bool {
        self.zoom > 0
    }

    /// The point of the plane that appears at `position` on the display.
    pub open spec fn seen_at(self, position: Position) -> Position {
        Position(position.0.minus(self.position.0).over(self.zoom))
    }

    /// The camera after a step of the wheel while the pointer is at
    /// `pointer`: the point under the pointer stays where it is.
    pub open spec fn wheeled(self, pointer: Position, forward: bool) -> Camera {
        let (num, den) = if forward {
            (3int, 2int)
        } else {
            (2int, 3int)
        };
        Camera {
            position: pointer.moved(
                Distance(self.position.offset_from(pointer).0.stretched(num, den)),
            ),
            zoom: zoomed(self.zoom, forward),
        }
    }

    /// The camera that shows the plane as it is, the origin in the corner.
    pub fn new() -> (r: Camera)
        ensures
            r.wf(),
            r == (Camera { position: Position(Vec2 { x: 0, y: 0 }), zoom: UNIT }),
    {
        Camera { position: Position::new(0, 0), zoom: UNIT }
    }

    /// The point of the plane that appears at `position` on the display.
    pub fn offset_to_camera(&self, position: Position) -> (r: Position)
        requires
            self.wf(),
        ensures
            r == self.seen_at(position),
    {
        Position::from((position.0 - self.position.0) / self.zoom)
    }

    /// Turns the wheel by `wheel` while the pointer is at `pointer`: forward
    /// where `wheel` is positive, back where it is negative.
    pub fn mouse_wheel(&mut self, pointer: Position, wheel: Fixed)
        requires
            old(self).wf(),
        ensures
            final(self).wf(),
            wheel == 0 ==> *final(self) == *old(self),
            wheel != 0 ==> *final(self) == old(self).wheeled(pointer, wheel > 0),
    {
        if wheel != 0 {
            let (num, den): (Fixed, Fixed) = if wheel > 0 {
                (3, 2)
            } else {
                (2, 3)
            };
            let next = scale(self.zoom, num, den);
            self.zoom = if wheel > 0 {
                if next > self.zoom {
                    next
                } else if self.zoom < LIMIT {
                    self.zoom + 1
                } else {
                    self.zoom
                }
            } else if next < 1 {
                1
            } else {
                next
            };
            let offset = self.position - pointer;
            self.position = pointer + Distance(offset.0.stretch(num, den));
        }
    }

    /// Moves the camera by `delta`.
    pub fn pan(&mut self, delta: Distance)
        ensures
            *final(self) == (Camera { position: old(self).position.moved(delta), ..*old(self) }),
    {
        self.position = self.position + delta;
    }

    /// Keeps the middle of the display in the middle when its size changes by
    /// `growth`.
    pub fn resize(&mut self, growth: Distance)
        ensures
            *final(self) == (Camera {
                position: old(self).position.moved(Distance(growth.0.stretched(1, 2))),
                ..*old(self)
            }),
    {
        self.position = self.position + Distance(growth.0.stretch(1, 2));
    }

    /// Whether the entity appears on a display of the given size. As in the
    /// order of positions, the first coordinate decides before the second.
    pub fn shows(&self, entity: &Entity, delta: Span, size: Position) -> (r: bool)
        requires
            self.wf(),
        ensures
            r == {
                let at = glided(*entity, delta).0;
                let low = self.seen_at(Position(Vec2 { x: 0, y: 0 })).0;
                let high = self.seen_at(size).0;
                lexical(at, low) == Ordering::Greater && lexical(at, high) == Ordering::Less
            },
    {
        let low = self.offset_to_camera(Position::new(0, 0));
        let high = self.offset_to_camera(size);
        is_between(glide(entity, delta), low, high)
    }
}

/// Where the entity is the time `delta` after the last tick, if it keeps its
/// velocity.
pub fn glide(entity: &Entity, delta: Span) -> (r: Position)
    ensures
        r == glided(*entity, delta),
{
    entity.position + entity.velocity * delta
}

/// Whether the edge between the two entities is long enough to be drawn.
pub fn is_drawn(first: &Entity, second: &Entity, delta: Span) -> (r: bool)
    ensures
        r == (glided(*first, delta).offset_from(glided(*second, delta)).0.chebyshev_len()
            > SHORTEST_EDGE),
{
    (glide(first, delta) - glide(second, delta)).chebyshev() > SHORTEST_EDGE
}

} // verus!
