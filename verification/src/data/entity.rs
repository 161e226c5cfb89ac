use super::links::{id_set, id_set_clone, id_set_contains, id_set_new};
use crate::phys::{
    saturate, Acceleration, Distance, Fixed, Position, UniformPosition, UniformVelocity, Vec2,
    Velocity,
};
use std::sync::Arc;
use std::time::Instant;
use vstd::prelude::*;

verus! {

/// The two kinds of node.
#[derive(Debug, Copy, Clone, PartialEq, Eq, Structural)]
pub enum Type {
    Album,
    User,
}

/// The external identity of a collection.
#[derive(Copy, Clone, Debug, PartialEq, Eq, Structural, PartialOrd, Ord, Hash)]
pub struct AlbumId(pub u64);

/// The external identity of a member.
#[derive(Copy, Clone, Debug, PartialEq, Eq, Structural, PartialOrd, Ord, Hash)]
pub struct UserId(pub u64);

/// The position of an entity in the arena. It is handed out when the entity is
/// added and names that entity from then on.
#[derive(Copy, Clone, Debug, PartialEq, Eq, Structural, PartialOrd, Ord, Hash)]
pub struct EntityId(pub u32);

/// A member record as discovery reports it.
#[derive(Debug)]
pub struct User {
    pub id: UserId,
    pub url: String,
}

/// A collection record as discovery reports it.
#[derive(Debug)]
pub struct Album {
    pub id: AlbumId,
    pub url: String,
}

/// What a node stands for.
#[derive(Debug)]
pub enum EntityData {
    Album(Album),
    User(User),
}

/// Where and when the pointer took hold of an entity.
#[derive(Debug, Copy, Clone)]
pub struct Drag {
    pub start_position: Position,
    pub start_time: Instant,
}

/// A membership edge. The collection always comes first.
#[derive(Copy, Clone, Debug, PartialEq, Eq, Structural, PartialOrd, Ord, Hash)]
pub struct Relationship {
    pub album: EntityId,
    pub user: EntityId,
}

/// `Arc::clone`: another handle to the same payload.
#[verifier::external_body]
fn share(data: &Arc<EntityData>) -> (r: Arc<EntityData>)
    ensures
        r == *data,
{
    Arc::clone(data)
}

/// One node of the graph with its physical state.
#[derive(Debug)]
pub struct Entity {
    pub position: Position,
    pub velocity: Velocity,
    pub acceleration: Acceleration,
    pub dragged: Option<Drag>,
    pub is_under_mouse: bool,
    pub is_scraped: bool,
    pub data: Arc<EntityData>,
    pub related: im::HashSet<u32>,
}

/// The width of the canvas on which an entity without a known neighbour appears.
pub const CANVAS_WIDTH: Fixed = 800_000;

/// The height of that canvas.
pub const CANVAS_HEIGHT: Fixed = 600_000;

/// How far from a known neighbour, along each axis, a new entity may appear.
pub const WINDOW: Fixed = 100_000;

/// The bound, along each axis, on the speed with which a new entity sets out.
pub const LAUNCH_SPEED: Fixed = 10_000;

/// Whether `p` lies on the canvas.
pub open spec fn on_canvas(p: Position) -> bool {
    &&& 0 <= p.0.x < CANVAS_WIDTH
    &&& 0 <= p.0.y < CANVAS_HEIGHT
}

/// Whether `p` lies in the window around `anchor`: along each axis from the
/// window's width before the anchor up to, but not including, as much after it.
pub open spec fn near(anchor: Position, p: Position) -> bool {
    &&& saturate(anchor.0.x - WINDOW) <= p.0.x < saturate(anchor.0.x + WINDOW)
    &&& saturate(anchor.0.y - WINDOW) <= p.0.y < saturate(anchor.0.y + WINDOW)
}

/// Whether `p` is at most [`WINDOW`] away from `anchor` along each axis.
pub open spec fn within_window(anchor: Position, p: Position) -> bool {
    &&& -WINDOW <= p.0.x - anchor.0.x <= WINDOW
    &&& -WINDOW <= p.0.y - anchor.0.y <= WINDOW
}

/// Whether `v` is a velocity with which a new entity may set out.
pub open spec fn gentle(v: Velocity) -> bool {
    &&& -LAUNCH_SPEED <= v.0.x < LAUNCH_SPEED
    &&& -LAUNCH_SPEED <= v.0.y < LAUNCH_SPEED
}

impl Clone for User {
    fn clone(&self) -> (r: User)
        ensures
            r == *self,
    {
        User { id: self.id, url: self.url.clone() }
    }
}

impl Clone for Album {
    fn clone(&self) -> (r: Album)
        ensures
            r == *self,
    {
        Album { id: self.id, url: self.url.clone() }
    }
}

impl Relationship {
    /// The arena indices of the collection and of the member.
    pub open spec fn pair(self) -> (u32, u32) {
        (self.album.0, self.user.0)
    }
}

/// The edges as pairs of arena indices.
pub open spec fn pairs_of(edges: Seq<Relationship>) -> Seq<(u32, u32)> {
    edges.map_values(|e: Relationship| e.pair())
}

impl EntityData {
    /// Which kind of node this is.
    pub open spec fn kind_of(self) -> Type {
        match self {
            EntityData::Album(_) => Type::Album,
            EntityData::User(_) => Type::User,
        }
    }

    /// The external id, whichever the kind.
    pub open spec fn external_id(self) -> u64 {
        match self {
            EntityData::Album(album) => album.id.0,
            EntityData::User(user) => user.id.0,
        }
    }

    /// Which kind of node this is.
    pub fn kind(&self) -> (r: Type)
        ensures
            r == self.kind_of(),
    {
        match self {
            EntityData::Album(_) => Type::Album,
            EntityData::User(_) => Type::User,
        }
    }
}

impl Clone for Entity {
    fn clone(&self) -> (r: Entity)
        ensures
            r.alike(*self),
    {
        Entity {
            position: self.position,
            velocity: self.velocity,
            acceleration: self.acceleration,
            dragged: self.dragged,
            is_under_mouse: self.is_under_mouse,
            is_scraped: self.is_scraped,
            data: share(&self.data),
            related: id_set_clone(&self.related),
        }
    }
}

impl EntityData {
    /// The entity that starts out at `position` for this payload.
    fn launched(self, position: Position) -> (r: Entity)
        ensures
            r.newborn(self),
            r.neighbours() == Set::<u32>::empty(),
            r.position == position,
    {
        let velocities = UniformVelocity::new(
            Velocity::new(-LAUNCH_SPEED, -LAUNCH_SPEED),
            Velocity::new(LAUNCH_SPEED, LAUNCH_SPEED),
        );
        Entity {
            position,
            velocity: velocities.sample(),
            acceleration: Acceleration::default(),
            dragged: None,
            is_under_mouse: false,
            is_scraped: false,
            data: Arc::new(self),
            related: id_set_new(),
        }
    }

    /// A new entity for this payload, somewhere on the canvas.
    pub fn at_random_location(self) -> (r: Entity)
        ensures
            r.newborn(self),
            r.neighbours() == Set::<u32>::empty(),
            on_canvas(r.position),
    {
        let positions = UniformPosition::new(
            Position::new(0, 0),
            Position::new(CANVAS_WIDTH, CANVAS_HEIGHT),
        );
        self.launched(positions.sample())
    }

    /// A new entity for this payload, somewhere in the window around `position`.
    pub fn at_random_location_near(self, position: Position) -> (r: Entity)
        ensures
            r.newborn(self),
            r.neighbours() == Set::<u32>::empty(),
            near(position, r.position),
    {
        let positions = UniformPosition::new(
            position - Distance::new(WINDOW, WINDOW),
            position + Distance::new(WINDOW, WINDOW),
        );
        self.launched(positions.sample())
    }
}

impl Entity {
    /// Whether this entity shares an edge with any other.
    pub open spec fn has_neighbour(self) -> bool {
        exists|j: u32| #[trigger] self.neighbours().contains(j)
    }

    /// What this entity stands for.
    pub open spec fn payload(self) -> EntityData {
        *self.data
    }

    /// Whether this is an entity as it is created for `payload`: it sets out
    /// gently and unaccelerated, nobody holds it, and it has not been visited.
    pub open spec fn newborn(self, payload: EntityData) -> bool {
        &&& self.payload() == payload
        &&& gentle(self.velocity)
        &&& self.acceleration == Acceleration(Vec2 { x: 0, y: 0 })
        &&& self.dragged is None
        &&& !self.is_under_mouse
        &&& !self.is_scraped
    }

    /// Whether this entity is `before` but for its neighbours.
    pub open spec fn same_but_neighbours(self, before: Entity) -> bool {
        &&& self.position == before.position
        &&& self.velocity == before.velocity
        &&& self.acceleration == before.acceleration
        &&& self.dragged == before.dragged
        &&& self.is_under_mouse == before.is_under_mouse
        &&& self.is_scraped == before.is_scraped
        &&& self.data == before.data
    }

    /// Whether this entity is `before` with `partner` among its neighbours.
    pub open spec fn joined(self, before: Entity, partner: u32) -> bool {
        &&& self.same_but_neighbours(before)
        &&& self.neighbours() == before.neighbours().insert(partner)
    }

    /// The indices of the entities that share an edge with this one.
    pub open spec fn neighbours(self) -> Set<u32> {
        id_set(self.related)
    }

    /// Whether this node is of kind `kind`.
    pub open spec fn is_kind(self, kind: Type) -> bool {
        self.payload().kind_of() == kind
    }

    /// Whether the two entities stand for the same thing and have the same
    /// neighbours.
    pub open spec fn same_identity(self, other: Entity) -> bool {
        &&& self.data == other.data
        &&& self.neighbours() == other.neighbours()
    }

    /// Whether the two entities are the same in everything that can be told of
    /// them.
    pub open spec fn alike(self, other: Entity) -> bool {
        &&& self.same_but_neighbours(other)
        &&& self.neighbours() == other.neighbours()
    }

    /// Whether the entity with index `id` shares an edge with this one.
    pub fn is_related(&self, id: EntityId) -> (r: bool)
        ensures
            r == self.neighbours().contains(id.0),
    {
        id_set_contains(&self.related, id.0)
    }
}

} // verus!
