//! What the pointer does to the entities: it hovers over them, takes hold of
//! them, drags them along and lets go of them.

use crate::clock::{elapsed, now, Span};
use crate::data::{lemma_same_graph_keeps_wf, Data, Drag, Entity, EntityId};
use crate::phys::{Fixed, Position};
use vstd::prelude::*;

verus! {

/// How close to an entity, along each axis, the pointer must be to touch it,
/// and how far at most an entity may have been dragged for a click.
pub const REACH: Fixed = 5_000;

/// How long at most the pointer may have held an entity for a click, in
/// nanoseconds.
pub const CLICK_NANOS: u128 = 100_000_000;

/// Whether the pointer at `pointer` touches something at `position`.
pub open spec fn touches(position: Position, pointer: Position) -> bool {
    position.offset_from(pointer).0.chebyshev_len() < REACH
}

/// The entity as the pointer at `pointer` finds it.
pub open spec fn hovered(e: Entity, pointer: Position) -> Entity {
    Entity { is_under_mouse: touches(e.position, pointer), ..e }
}

/// The entity after the pointer has moved to `pointer`: it follows where the
/// pointer holds it.
pub open spec fn dragged_to(e: Entity, pointer: Position) -> Entity {
    if e.dragged is Some {
        Entity { position: pointer, ..e }
    } else {
        e
    }
}

/// The entity once the pointer has let go of it.
pub open spec fn released(e: Entity) -> Entity {
    Entity { dragged: None, ..e }
}

/// Whether letting go of an entity at `position` after the time `held` ends a
/// click rather than a drag.
pub open spec fn clicked(drag: Drag, position: Position, held: Span) -> bool {
    &&& touches(drag.start_position, position)
    &&& held.0 < CLICK_NANOS
}

/// Whether the pointer at `pointer` touches something at `position`.
pub fn is_touching(position: Position, pointer: Position) -> (r: bool)
    ensures
        r == touches(position, pointer),
{
    (position - pointer).chebyshev() < REACH
}

/// Whether letting go of an entity at `position` after the time `held` ends a
/// click rather than a drag.
pub fn is_click(drag: &Drag, position: Position, held: Span) -> (r: bool)
    ensures
        r == clicked(*drag, position, held),
{
    is_touching(drag.start_position, position) && held.as_nanos() < CLICK_NANOS
}

/// Marks the entities that the pointer at `pointer` touches, and no others.
pub fn update_under_mouse(data: &mut Data, pointer: Position)
    ensures
        old(data).wf() ==> final(data).wf(),
        old(data).placed() ==> final(data).placed(),
        old(data).same_graph(*final(data)),
        final(data).arena() == old(data).arena().map_values(|e: Entity| hovered(e, pointer)),
{
    let n = data.entities.len();
    let mut i: usize = 0;
    while i < n
        invariant
            n == old(data).arena().len(),
            i <= n,
            data.arena().len() == n,
            data.relationships == old(data).relationships,
            data.albums == old(data).albums,
            data.users == old(data).users,
            forall|k: int| 0 <= k < i ==> #[trigger] data.arena()[k] == hovered(
                old(data).arena()[k],
                pointer,
            ),
            forall|k: int| i <= k < n ==> #[trigger] data.arena()[k] == old(data).arena()[k],
        decreases n - i,
    {
        let entity = data.entities.at_mut(i);
        entity.is_under_mouse = is_touching(entity.position, pointer);
        i += 1;
    }
    proof {
        assert(data.arena() =~= old(data).arena().map_values(|e: Entity| hovered(e, pointer)));
        if old(data).wf() {
            lemma_same_graph_keeps_wf(*old(data), *data);
        }
    }
}

/// Moves every entity that the pointer holds to `pointer`. Returns whether the
/// pointer holds any.
pub fn update_drag(data: &mut Data, pointer: Position) -> (dragged_item: bool)
    requires
        pointer.0.tame(),
    ensures
        old(data).wf() ==> final(data).wf(),
        old(data).placed() ==> final(data).placed(),
        old(data).same_graph(*final(data)),
        final(data).arena() == old(data).arena().map_values(|e: Entity| dragged_to(e, pointer)),
        dragged_item == exists|i: int|
            0 <= i < old(data).arena().len() && (#[trigger] old(data).arena()[i]).dragged is Some,
{
    let n = data.entities.len();
    let mut dragged_item = false;
    let mut i: usize = 0;
    while i < n
        invariant
            n == old(data).arena().len(),
            i <= n,
            data.arena().len() == n,
            data.relationships == old(data).relationships,
            data.albums == old(data).albums,
            data.users == old(data).users,
            forall|k: int| 0 <= k < i ==> #[trigger] data.arena()[k] == dragged_to(
                old(data).arena()[k],
                pointer,
            ),
            forall|k: int| i <= k < n ==> #[trigger] data.arena()[k] == old(data).arena()[k],
            dragged_item == exists|k: int|
                0 <= k < i && (#[trigger] old(data).arena()[k]).dragged is Some,
        decreases n - i,
    {
        let entity = data.entities.at_mut(i);
        if entity.dragged.is_some() {
            entity.position = pointer;
            dragged_item = true;
        }
        i += 1;
    }
    proof {
        assert(data.arena() =~= old(data).arena().map_values(|e: Entity| dragged_to(e, pointer)));
        if old(data).wf() {
            lemma_same_graph_keeps_wf(*old(data), *data);
        }
    }
    dragged_item
}

/// Lets the pointer take hold of the first entity that it touches, if it
/// touches any. Returns that entity.
pub fn start_drag(data: &mut Data) -> (held: Option<EntityId>)
    requires
        old(data).arena().len() <= u32::MAX,
    ensures
        old(data).wf() ==> final(data).wf(),
        old(data).placed() ==> final(data).placed(),
        old(data).same_graph(*final(data)),
        final(data).arena().len() == old(data).arena().len(),
        match held {
            Some(id) => {
                &&& id.0 < old(data).arena().len()
                &&& old(data).arena()[id.0 as int].is_under_mouse
                &&& forall|k: int|
                    0 <= k < id.0 ==> !(#[trigger] old(data).arena()[k]).is_under_mouse
                &&& final(data).arena()[id.0 as int].dragged is Some
                &&& final(data).arena()[id.0 as int].dragged->0.start_position
                    == old(data).arena()[id.0 as int].position
                &&& final(data).arena() == old(data).arena().update(
                    id.0 as int,
                    Entity {
                        dragged: final(data).arena()[id.0 as int].dragged,
                        ..old(data).arena()[id.0 as int]
                    },
                )
            },
            None => {
                &&& final(data).arena() == old(data).arena()
                &&& forall|k: int|
                    0 <= k < old(data).arena().len() ==> !(#[trigger] old(
                        data,
                    ).arena()[k]).is_under_mouse
            },
        },
{
    let n = data.entities.len();
    let mut i: usize = 0;
    while i < n
        invariant
            n == old(data).arena().len(),
            n <= u32::MAX,
            i <= n,
            *data == *old(data),
            forall|k: int| 0 <= k < i ==> !(#[trigger] old(data).arena()[k]).is_under_mouse,
        decreases n - i,
    {
        let id = EntityId(i as u32);
        if data.entities.get(id).is_under_mouse {
            let entity = data.entities.get_mut(id);
            entity.dragged = Some(Drag { start_position: entity.position, start_time: now() });
            proof {
                assert(data.arena() =~= old(data).arena().update(
                    i as int,
                    Entity {
                        dragged: data.arena()[i as int].dragged,
                        ..old(data).arena()[i as int]
                    },
                ));
                if old(data).wf() {
                    lemma_same_graph_keeps_wf(*old(data), *data);
                }
            }
            return Some(id);
        }
        i += 1;
    }
    proof {
        if old(data).wf() {
            lemma_same_graph_keeps_wf(*old(data), *data);
        }
    }
    None
}

/// Lets the pointer go of the entities that it holds, one after the other.
/// The first of them that it held only for a click is returned, and what
/// comes after that one in the arena stays held.
pub fn stop_drag(data: &mut Data) -> (hit: Option<EntityId>)
    requires
        old(data).arena().len() <= u32::MAX,
    ensures
        old(data).wf() ==> final(data).wf(),
        old(data).placed() ==> final(data).placed(),
        old(data).same_graph(*final(data)),
        final(data).arena().len() == old(data).arena().len(),
        match hit {
            Some(id) => {
                &&& id.0 < old(data).arena().len()
                &&& old(data).arena()[id.0 as int].dragged is Some
                &&& touches(
                    old(data).arena()[id.0 as int].dragged->0.start_position,
                    old(data).arena()[id.0 as int].position,
                )
                &&& forall|k: int|
                    0 <= k <= id.0 ==> #[trigger] final(data).arena()[k] == released(
                        old(data).arena()[k],
                    )
                &&& forall|k: int|
                    id.0 < k < old(data).arena().len() ==> #[trigger] final(data).arena()[k] == old(
                        data,
                    ).arena()[k]
            },
            None => final(data).arena() == old(data).arena().map_values(|e: Entity| released(e)),
        },
{
    let n = data.entities.len();
    let mut i: usize = 0;
    while i < n
        invariant
            n == old(data).arena().len(),
            n <= u32::MAX,
            i <= n,
            data.arena().len() == n,
            data.relationships == old(data).relationships,
            data.albums == old(data).albums,
            data.users == old(data).users,
            forall|k: int| 0 <= k < i ==> #[trigger] data.arena()[k] == released(
                old(data).arena()[k],
            ),
            forall|k: int| i <= k < n ==> #[trigger] data.arena()[k] == old(data).arena()[k],
        decreases n - i,
    {
        let id = EntityId(i as u32);
        let entity = data.entities.get_mut(id);
        let held = entity.dragged;
        entity.dragged = None;
        let position = entity.position;
        if let Some(drag) = held {
            if is_click(&drag, position, elapsed(&drag.start_time)) {
                proof {
                    if old(data).wf() {
                        lemma_same_graph_keeps_wf(*old(data), *data);
                    }
                }
                return Some(id);
            }
        }
        i += 1;
    }
    proof {
        assert(data.arena() =~= old(data).arena().map_values(|e: Entity| released(e)));
        if old(data).wf() {
            lemma_same_graph_keeps_wf(*old(data), *data);
        }
    }
    None
}

} // verus!
