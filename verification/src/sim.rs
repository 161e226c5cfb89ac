//! The fixed-timestep layout simulator.
//!
//! One tick moves every entity along its velocity, computes the accelerations
//! anew (every two entities repel each other, every edge pulls its two ends
//! together), and then lets the accelerations act on the velocities.

use crate::clock::Span;
use crate::data::{
    lemma_pairs_in_range, lemma_same_graph_keeps_bipartite, lemma_same_graph_keeps_wf,
    in_order, pairs_after, pairs_from, pairs_of, unique_pairs, Data, Entities, Entity,
    Relationship,
};
use crate::phys::{
    lemma_saturate_odd, lemma_scaled_odd, whole_seconds, Acceleration, Fixed, Position, Vec2,
    Velocity, LIMIT, UNIT,
};
use std::ops::Neg;
use vstd::prelude::*;

verus! {

/// The strength of the repulsion between two entities.
pub const REPULSION: Fixed = 1_000_000;

/// The strength of the attraction along an edge.
pub const ATTRACTION: Fixed = 2_000;

/// The part of its velocity that an entity keeps from one tick to the next.
pub const DAMPING: Fixed = 700;

/// The highest speed of an entity.
pub const MAX_SPEED: Fixed = 1_000_000;

/// The squared distance below which two entities repel each other no more
/// strongly.
pub const CLOSEST_SQUARED: Fixed = 1;

/// The acceleration with which an entity at `a` is pushed away from one at
/// `b`. The entity at `b` is pushed the opposite way.
pub open spec fn repulsion(a: Position, b: Position) -> Acceleration {
    let distance = a.offset_from(b);
    let squared = distance.0.euclid_squared_len();
    let dsq = if squared < CLOSEST_SQUARED {
        CLOSEST_SQUARED
    } else {
        squared
    };
    Acceleration(distance.0.times(REPULSION)).over(dsq)
}

/// The acceleration with which a collection at `album` is pulled toward its
/// member at `user`. The member is pulled the opposite way.
pub open spec fn attraction(album: Position, user: Position) -> Acceleration {
    Acceleration(user.offset_from(album).0.times(ATTRACTION))
}

/// The entity after `secs` seconds at its velocity.
pub open spec fn moved(e: Entity, secs: Fixed) -> Entity {
    Entity { position: e.position.moved(e.velocity.travelled(secs)), ..e }
}

/// The entity without acceleration.
pub open spec fn stilled(e: Entity) -> Entity {
    Entity { acceleration: Acceleration(Vec2 { x: 0, y: 0 }), ..e }
}

/// The entity accelerated by `by` on top of its acceleration.
pub open spec fn pushed(e: Entity, by: Acceleration) -> Entity {
    Entity { acceleration: e.acceleration.plus(by), ..e }
}

/// The entity after its acceleration has acted on its velocity for `secs`
/// seconds: one under the pointer stands still, any other keeps the damped
/// part of its velocity, gains what the acceleration gives, and is held to the
/// highest speed.
pub open spec fn sped(e: Entity, secs: Fixed) -> Entity {
    Entity {
        velocity: if e.is_under_mouse {
            Velocity(Vec2 { x: 0, y: 0 })
        } else {
            e.velocity.times(DAMPING).plus(e.acceleration.gained(secs)).clamped(MAX_SPEED)
        },
        ..e
    }
}

/// An entity at a position with tame coordinates stays where it is while no
/// time passes, and while it has no velocity.
pub proof fn lemma_rest_stays(e: Entity, secs: Fixed)
    requires
        e.position.0.tame(),
        secs == 0 || e.velocity == Velocity(Vec2 { x: 0, y: 0 }),
    ensures
        moved(e, secs) == e,
{
    assert(e.velocity.0.x * 0 == 0);
    assert(e.velocity.0.y * 0 == 0);
    assert(0 * secs == 0);
    assert(0int / (UNIT as int) == 0);
    assert(moved(e, secs).position == e.position);
}

/// Two entities repel each other with accelerations that are exactly opposite:
/// what the one at `b` gets from the one at `a` is what the one at `a` gets
/// from it, turned round, and the two add up to nothing.
pub proof fn lemma_repulsion_opposite(a: Position, b: Position)
    ensures
        repulsion(b, a) == repulsion(a, b).negated(),
        repulsion(a, b).0.x + repulsion(b, a).0.x == 0,
        repulsion(a, b).0.y + repulsion(b, a).0.y == 0,
{
    let there = a.offset_from(b).0;
    let back = b.offset_from(a).0;
    lemma_saturate_odd(a.0.x - b.0.x);
    lemma_saturate_odd(a.0.y - b.0.y);
    assert(back.x == -there.x && back.y == -there.y);
    assert(back.square_sum() == there.square_sum()) by (nonlinear_arith)
        requires
            back.x == -there.x,
            back.y == -there.y,
            back.square_sum() == back.x * back.x + back.y * back.y,
            there.square_sum() == there.x * there.x + there.y * there.y,
    ;
    let squared = there.euclid_squared_len();
    let dsq = if squared < CLOSEST_SQUARED {
        CLOSEST_SQUARED
    } else {
        squared
    };
    lemma_scaled_odd(there.x as int, REPULSION as int, UNIT as int);
    lemma_scaled_odd(there.y as int, REPULSION as int, UNIT as int);
    let push = there.times(REPULSION);
    lemma_scaled_odd(push.x as int, UNIT as int, dsq as int);
    lemma_scaled_odd(push.y as int, UNIT as int, dsq as int);
    let result = push.over(dsq);
    lemma_saturate_odd(result.x as int);
    lemma_saturate_odd(result.y as int);
}

/// Two entities at rest that repel each other, and nothing else, get exactly
/// opposite accelerations.
pub proof fn lemma_two_bodies(first: Entity, second: Entity)
    ensures
        pushed_along(
            seq![stilled(first), stilled(second)],
            unique_pairs(2),
            Force::Repulsion,
        ) == seq![
            pushed(stilled(first), repulsion(first.position, second.position)),
            pushed(stilled(second), repulsion(second.position, first.position)),
        ],
        pushed(stilled(first), repulsion(first.position, second.position)).acceleration.0.x
            + pushed(stilled(second), repulsion(second.position, first.position)).acceleration.0.x
            == 0,
        pushed(stilled(first), repulsion(first.position, second.position)).acceleration.0.y
            + pushed(stilled(second), repulsion(second.position, first.position)).acceleration.0.y
            == 0,
{
    let start = seq![stilled(first), stilled(second)];
    let order = unique_pairs(2);
    reveal_with_fuel(pairs_after, 4);
    assert(order =~= seq![(0int, 1int)]);
    assert(order.drop_last() =~= Seq::<(int, int)>::empty());
    assert(order.last() == (0int, 1int));
    reveal_with_fuel(pushed_along, 3);
    lemma_repulsion_opposite(first.position, second.position);
    let push = repulsion(first.position, second.position);
    lemma_saturate_odd(push.0.x as int);
    lemma_saturate_odd(push.0.y as int);
    assert(pushed_along(start, order, Force::Repulsion) =~= seq![
        pushed(stilled(first), repulsion(first.position, second.position)),
        pushed(stilled(second), repulsion(second.position, first.position)),
    ]);
}

/// The two forces of the layout.
#[derive(Debug, Copy, Clone, PartialEq, Eq, Structural)]
pub enum Force {
    /// Acts between any two entities.
    Repulsion,
    /// Acts between a collection and each of its members.
    Attraction,
}

impl Force {
    /// The acceleration that the force gives to the first of two entities at
    /// these positions. The second is accelerated the opposite way.
    pub open spec fn between(self, first: Position, second: Position) -> Acceleration {
        match self {
            Force::Repulsion => repulsion(first, second),
            Force::Attraction => attraction(first, second),
        }
    }
}

/// The arena after the force between the two entities of `pair` has acted on
/// both: the first is pushed by the force, the second the opposite way.
pub open spec fn pushed_apart(s: Seq<Entity>, pair: (int, int), force: Force) -> Seq<Entity> {
    let push = force.between(s[pair.0].position, s[pair.1].position);
    s.update(pair.0, pushed(s[pair.0], push)).update(pair.1, pushed(s[pair.1], push.negated()))
}

/// The arena after the force has acted on each pair of `order`, one pair after
/// the other.
pub open spec fn pushed_along(s: Seq<Entity>, order: Seq<(int, int)>, force: Force) -> Seq<
    Entity,
>
    decreases order.len(),
{
    if order.len() == 0 {
        s
    } else {
        pushed_apart(pushed_along(s, order.drop_last(), force), order.last(), force)
    }
}

/// The edges as pairs of arena indices.
pub open spec fn as_pairs(order: Seq<(u32, u32)>) -> Seq<(int, int)> {
    order.map_values(|e: (u32, u32)| (e.0 as int, e.1 as int))
}

/// Whether every pair of `order` is two distinct indices below `n`.
pub open spec fn pairs_within(order: Seq<(int, int)>, n: int) -> bool {
    forall|k: int|
        0 <= k < order.len() ==> {
            &&& 0 <= (#[trigger] order[k]).0 < n
            &&& 0 <= order[k].1 < n
            &&& order[k].0 != order[k].1
        }
}

/// Whether `after` differs from `before` in accelerations at most.
pub open spec fn only_accelerated(before: Seq<Entity>, after: Seq<Entity>) -> bool {
    &&& after.len() == before.len()
    &&& forall|i: int|
        0 <= i < before.len() ==> (#[trigger] after[i]) == (Entity {
            acceleration: after[i].acceleration,
            ..before[i]
        })
}

/// Forces change accelerations and nothing else.
pub proof fn lemma_pushed_along_only_accelerates(
    s: Seq<Entity>,
    order: Seq<(int, int)>,
    force: Force,
)
    requires
        pairs_within(order, s.len() as int),
    ensures
        only_accelerated(s, pushed_along(s, order, force)),
    decreases order.len(),
{
    if order.len() > 0 {
        let rest = order.drop_last();
        assert forall|k: int| 0 <= k < rest.len() implies {
            &&& 0 <= (#[trigger] rest[k]).0 < s.len()
            &&& 0 <= rest[k].1 < s.len()
            &&& rest[k].0 != rest[k].1
        } by {
            assert(rest[k] == order[k]);
        }
        lemma_pushed_along_only_accelerates(s, rest, force);
        let mid = pushed_along(s, rest, force);
        let last = order.last();
        assert(last == order[order.len() - 1]);
        let end = pushed_apart(mid, last, force);
        assert forall|i: int| 0 <= i < s.len() implies (#[trigger] end[i]) == (Entity {
            acceleration: end[i].acceleration,
            ..s[i]
        }) by {
            assert(mid[i] == (Entity { acceleration: mid[i].acceleration, ..s[i] }));
        }
    }
}

/// A trace whose every state follows from the one before it by the force on
/// the next pair ends in the state that [`pushed_along`] gives.
proof fn lemma_trace(states: Seq<Seq<Entity>>, order: Seq<(int, int)>, force: Force)
    requires
        states.len() == order.len() + 1,
        forall|k: int|
            0 <= k < order.len() ==> #[trigger] states[k + 1] == pushed_apart(
                states[k],
                order[k],
                force,
            ),
    ensures
        states[order.len() as int] == pushed_along(states[0], order, force),
    decreases order.len(),
{
    if order.len() > 0 {
        let m = order.len() as int;
        lemma_trace(states.subrange(0, m), order.drop_last(), force);
        assert(states[m - 1 + 1] == pushed_apart(states[m - 1], order[m - 1], force));
    }
}

/// Moves one entity along its velocity.
pub fn move_entity(entity: &mut Entity, delta: Span)
    ensures
        *final(entity) == moved(*old(entity), whole_seconds(delta)),
{
    entity.position = entity.position + entity.velocity * delta;
}

/// Lets the acceleration of one entity act on its velocity.
pub fn speed_entity(entity: &mut Entity, delta: Span)
    ensures
        *final(entity) == sped(*old(entity), whole_seconds(delta)),
{
    if entity.is_under_mouse {
        entity.velocity = Velocity::default();
    } else {
        entity.velocity = (entity.velocity * DAMPING + entity.acceleration * delta).clamp(
            MAX_SPEED,
        );
    }
}

/// Takes the acceleration from one entity.
pub fn still_entity(entity: &mut Entity)
    ensures
        *final(entity) == stilled(*old(entity)),
{
    entity.acceleration = Acceleration::default();
}

/// Lets two entities repel each other.
pub fn repel_pair(entity1: &mut Entity, entity2: &mut Entity)
    ensures
        *final(entity1) == pushed(
            *old(entity1),
            repulsion(old(entity1).position, old(entity2).position),
        ),
        *final(entity2) == pushed(
            *old(entity2),
            repulsion(old(entity1).position, old(entity2).position).negated(),
        ),
{
    let distance = entity1.position - entity2.position;
    let squared = distance.euclid_squared();
    let dsq = if squared < CLOSEST_SQUARED {
        CLOSEST_SQUARED
    } else {
        squared
    };
    let acceleration = Acceleration::from(distance.0 * REPULSION) / dsq;
    entity1.acceleration = entity1.acceleration + acceleration;
    entity2.acceleration = entity2.acceleration + acceleration.neg();
}

/// Lets a collection and its member attract each other.
pub fn attract_pair(album: &mut Entity, user: &mut Entity)
    ensures
        *final(album) == pushed(*old(album), attraction(old(album).position, old(user).position)),
        *final(user) == pushed(
            *old(user),
            attraction(old(album).position, old(user).position).negated(),
        ),
{
    let attraction = Acceleration::from((user.position - album.position).0 * ATTRACTION);
    album.acceleration = album.acceleration + attraction;
    user.acceleration = user.acceleration + attraction.neg();
}

/// Integrates the positions: every entity moves along its velocity for the
/// time `delta`.
pub fn update_position(data: &mut Data, delta: Span)
    requires
        old(data).placed(),
    ensures
        final(data).placed(),
        old(data).wf() ==> final(data).wf(),
        old(data).same_graph(*final(data)),
        final(data).arena() == old(data).arena().map_values(
            |e: Entity| moved(e, whole_seconds(delta)),
        ),
{
    let n = data.entities.len();
    let mut i: usize = 0;
    while i < n
        invariant
            n == old(data).arena().len(),
            i <= n,
            data.arena().len() == n,
            data.relationships == old(data).relationships,
            data.albums == old(data).albums,
            data.users == old(data).users,
            forall|k: int| 0 <= k < i ==> #[trigger] data.arena()[k] == moved(
                old(data).arena()[k],
                whole_seconds(delta),
            ),
            forall|k: int| i <= k < n ==> #[trigger] data.arena()[k] == old(data).arena()[k],
        decreases n - i,
    {
        move_entity(data.entities.at_mut(i), delta);
        i += 1;
    }
    proof {
        assert(data.arena() =~= old(data).arena().map_values(
            |e: Entity| moved(e, whole_seconds(delta)),
        ));
        if old(data).wf() {
            lemma_same_graph_keeps_wf(*old(data), *data);
        }
    }
}

/// Integrates the velocities: see [`sped`].
pub fn update_velocity(data: &mut Data, delta: Span)
    ensures
        old(data).wf() ==> final(data).wf(),
        old(data).placed() ==> final(data).placed(),
        old(data).same_graph(*final(data)),
        final(data).arena() == old(data).arena().map_values(
            |e: Entity| sped(e, whole_seconds(delta)),
        ),
{
    let step = |entity: &mut Entity|
        ensures
            *final(entity) == sped(*old(entity), whole_seconds(delta)),
        {
            speed_entity(entity, delta);
        };
    data.entities.par_for_each(step);
    proof {
        assert(data.arena() =~= old(data).arena().map_values(
            |e: Entity| sped(e, whole_seconds(delta)),
        ));
        if old(data).wf() {
            lemma_same_graph_keeps_wf(*old(data), *data);
        }
    }
}

/// Lets every two entities of an arena repel each other, pair after pair in
/// the order of [`unique_pairs`].
pub fn repel_among(entities: &mut Entities)
    ensures
        final(entities)@ == pushed_along(
            old(entities)@,
            unique_pairs(old(entities)@.len()),
            Force::Repulsion,
        ),
{
    entities.combinations(repel_pair);
    proof {
        let n = old(entities)@.len();
        let order = unique_pairs(n);
        let states = choose|states: Seq<Seq<Entity>>|
            {
                &&& #[trigger] states.len() == order.len() + 1
                &&& states[0] == old(entities)@
                &&& states[order.len() as int] == entities@
                &&& forall|k: int| 0 <= k <= order.len() ==> (#[trigger] states[k]).len() == n
                &&& forall|k: int|
                    0 <= k < order.len() ==> exists|a: &mut Entity, b: &mut Entity|
                        {
                            &&& *a == (#[trigger] states[k])[order[k].0]
                            &&& *b == states[k][order[k].1]
                            &&& #[trigger] call_ensures(repel_pair, (a, b), ())
                            &&& states[k + 1] == states[k].update(order[k].0, *final(a)).update(
                                order[k].1,
                                *final(b),
                            )
                        }
            };
        assert forall|k: int| 0 <= k < order.len() implies #[trigger] states[k + 1]
            == pushed_apart(states[k], order[k], Force::Repulsion) by {
            lemma_pairs_in_range(0, n as int, k);
            let (a, b) = choose|a: &mut Entity, b: &mut Entity|
                {
                    &&& *a == (#[trigger] states[k])[order[k].0]
                    &&& *b == states[k][order[k].1]
                    &&& #[trigger] call_ensures(repel_pair, (a, b), ())
                    &&& states[k + 1] == states[k].update(order[k].0, *final(a)).update(
                        order[k].1,
                        *final(b),
                    )
                };
            assert(*final(a) == pushed(*a, repulsion(a.position, b.position)));
        }
        lemma_trace(states, order, Force::Repulsion);
    }
}

/// Lets every two entities repel each other, pair after pair in the order of
/// [`unique_pairs`].
pub fn repel(data: &mut Data)
    ensures
        old(data).wf() ==> final(data).wf(),
        old(data).placed() ==> final(data).placed(),
        old(data).same_graph(*final(data)),
        final(data).arena() == pushed_along(
            old(data).arena(),
            unique_pairs(old(data).arena().len()),
            Force::Repulsion,
        ),
{
    repel_among(&mut data.entities);
    proof {
        let n = old(data).arena().len();
        lemma_unique_pairs_within(n);
        lemma_pushed_along_only_accelerates(old(data).arena(), unique_pairs(n), Force::Repulsion);
        if old(data).wf() {
            lemma_same_graph_keeps_wf(*old(data), *data);
        }
    }
}

/// The pairs that [`repel`] visits are pairs of distinct entities of the arena.
proof fn lemma_unique_pairs_within(n: nat)
    ensures
        pairs_within(unique_pairs(n), n as int),
{
    assert forall|k: int| 0 <= k < unique_pairs(n).len() implies {
        &&& 0 <= (#[trigger] unique_pairs(n)[k]).0 < n
        &&& 0 <= unique_pairs(n)[k].1 < n
        &&& unique_pairs(n)[k].0 != unique_pairs(n)[k].1
    } by {
        lemma_pairs_in_range(0, n as int, k);
    }
}

/// Lets the two ends of each edge of `order` attract each other, edge after
/// edge.
pub fn attract_along(data: &mut Data, order: &Vec<Relationship>)
    requires
        pairs_within(as_pairs(pairs_of(order@)), old(data).arena().len() as int),
    ensures
        old(data).wf() ==> final(data).wf(),
        old(data).placed() ==> final(data).placed(),
        old(data).same_graph(*final(data)),
        final(data).arena() == pushed_along(
            old(data).arena(),
            as_pairs(pairs_of(order@)),
            Force::Attraction,
        ),
{
    let ghost start = data.arena();
    let ghost pairs = as_pairs(pairs_of(order@));
    proof {
        assert(pairs.subrange(0, 0) =~= Seq::<(int, int)>::empty());
    }
    let mut k: usize = 0;
    while k < order.len()
        invariant
            k <= order@.len(),
            pairs == as_pairs(pairs_of(order@)),
            pairs.len() == order@.len(),
            pairs_within(pairs, start.len() as int),
            start == old(data).arena(),
            data.relationships == old(data).relationships,
            data.albums == old(data).albums,
            data.users == old(data).users,
            data.arena() == pushed_along(start, pairs.subrange(0, k as int), Force::Attraction),
            data.arena().len() == start.len(),
        decreases order@.len() - k,
    {
        let edge = order[k];
        assert(pairs[k as int] == (edge.album.0 as int, edge.user.0 as int));
        let (album, user) = data.entities.index_pair(edge.album, edge.user);
        attract_pair(album, user);
        proof {
            let done = pairs.subrange(0, k as int + 1);
            assert(done.drop_last() =~= pairs.subrange(0, k as int));
            assert(done.last() == pairs[k as int]);
            assert(data.arena() =~= pushed_apart(
                pushed_along(start, pairs.subrange(0, k as int), Force::Attraction),
                pairs[k as int],
                Force::Attraction,
            ));
        }
        k += 1;
    }
    proof {
        assert(pairs.subrange(0, k as int) =~= pairs);
        lemma_pushed_along_only_accelerates(start, pairs, Force::Attraction);
        if old(data).wf() {
            lemma_same_graph_keeps_wf(*old(data), *data);
        }
    }
}

/// Lets the two ends of every edge attract each other, edge after edge in
/// ascending order.
pub fn attract(data: &mut Data)
    requires
        old(data).bipartite(),
    ensures
        final(data).bipartite(),
        old(data).wf() ==> final(data).wf(),
        old(data).placed() ==> final(data).placed(),
        old(data).same_graph(*final(data)),
        final(data).arena() == pushed_along(
            old(data).arena(),
            as_pairs(in_order(old(data).edges())),
            Force::Attraction,
        ),
{
    let order = data.relationships();
    proof {
        let pairs = as_pairs(pairs_of(order@));
        assert forall|k: int| 0 <= k < pairs.len() implies {
            &&& 0 <= (#[trigger] pairs[k]).0 < data.arena().len()
            &&& 0 <= pairs[k].1 < data.arena().len()
            &&& pairs[k].0 != pairs[k].1
        } by {
            assert(pairs_of(order@)[k] == order@[k].pair());
            assert(pairs_of(order@).to_set().contains(pairs_of(order@)[k]));
            assert(data.edges().contains(order@[k].pair()));
        }
    }
    attract_along(data, &order);
    proof {
        lemma_same_graph_keeps_bipartite(*old(data), *data);
    }
}

/// The arena with the accelerations computed anew: none to begin with, then
/// the repulsion between every two entities, then the attraction along every
/// edge, in ascending order of the edges.
pub open spec fn recomputed(s: Seq<Entity>, edges: Set<(u32, u32)>) -> Seq<Entity> {
    pushed_along(
        pushed_along(s.map_values(|e: Entity| stilled(e)), unique_pairs(s.len()), Force::Repulsion),
        as_pairs(in_order(edges)),
        Force::Attraction,
    )
}

/// Computing the accelerations anew a second time changes nothing: they
/// depend on where the entities are and on the edges, not on what the
/// accelerations were.
pub proof fn lemma_recomputed_again(s: Seq<Entity>, edges: Set<(u32, u32)>)
    requires
        pairs_within(as_pairs(in_order(edges)), s.len() as int),
    ensures
        recomputed(recomputed(s, edges), edges) == recomputed(s, edges),
{
    let rested = s.map_values(|e: Entity| stilled(e));
    let apart = pushed_along(rested, unique_pairs(s.len()), Force::Repulsion);
    let once = recomputed(s, edges);
    lemma_unique_pairs_within(s.len());
    lemma_pushed_along_only_accelerates(rested, unique_pairs(s.len()), Force::Repulsion);
    lemma_pushed_along_only_accelerates(apart, as_pairs(in_order(edges)), Force::Attraction);
    assert forall|i: int| 0 <= i < s.len() implies stilled(#[trigger] once[i]) == stilled(s[i]) by {
        assert(apart[i] == (Entity { acceleration: apart[i].acceleration, ..rested[i] }));
        assert(once[i] == (Entity { acceleration: once[i].acceleration, ..apart[i] }));
        assert(rested[i] == stilled(s[i]));
    }
    assert(once.map_values(|e: Entity| stilled(e)) =~= rested);
}

/// Computes the accelerations anew: none to begin with, then the repulsion
/// between every two entities, then the attraction along every edge.
pub fn update_acc(data: &mut Data)
    requires
        old(data).bipartite(),
    ensures
        final(data).bipartite(),
        old(data).wf() ==> final(data).wf(),
        old(data).placed() ==> final(data).placed(),
        old(data).same_graph(*final(data)),
        final(data).arena() == recomputed(old(data).arena(), old(data).edges()),
{
    data.entities.par_for_each(still_entity);
    proof {
        assert(data.arena() =~= old(data).arena().map_values(|e: Entity| stilled(e)));
        if old(data).wf() {
            lemma_same_graph_keeps_wf(*old(data), *data);
        }
    }
    let ghost stilled_all = *data;
    repel(data);
    proof {
        lemma_same_graph_keeps_bipartite(*old(data), stilled_all);
        lemma_same_graph_keeps_bipartite(stilled_all, *data);
    }
    attract(data);
}

/// Advances the layout by one tick of the length `delta`.
pub fn update(data: &mut Data, delta: Span)
    requires
        old(data).placed(),
        old(data).bipartite(),
    ensures
        final(data).placed(),
        final(data).bipartite(),
        old(data).wf() ==> final(data).wf(),
        old(data).same_graph(*final(data)),
        final(data).arena() == recomputed(
            old(data).arena().map_values(|e: Entity| moved(e, whole_seconds(delta))),
            old(data).edges(),
        ).map_values(|e: Entity| sped(e, whole_seconds(delta))),
{
    update_position(data, delta);
    proof {
        lemma_same_graph_keeps_bipartite(*old(data), *data);
    }
    update_acc(data);
    update_velocity(data, delta);
}

/// The acceleration of the entity at the place `i` once every other entity at
/// a place from `from` up to but not including `upto` has pushed it away, one
/// after the other by rising place.
pub open spec fn repelled(s: Seq<Entity>, i: int, from: int, upto: int) -> Acceleration
    decreases upto - from,
{
    if upto <= from {
        s[i].acceleration
    } else {
        let before = repelled(s, i, from, upto - 1);
        if upto - 1 == i {
            before
        } else {
            before.plus(repulsion(s[i].position, s[upto - 1].position))
        }
    }
}

/// The exact sums, component by component, of the acceleration of the entity
/// at the place `i` and the repulsion from every other entity at a place from
/// `from` up to but not including `upto`.
pub open spec fn repulsion_sum(s: Seq<Entity>, i: int, from: int, upto: int) -> (int, int)
    decreases upto - from,
{
    if upto <= from {
        (s[i].acceleration.0.x as int, s[i].acceleration.0.y as int)
    } else {
        let before = repulsion_sum(s, i, from, upto - 1);
        if upto - 1 == i {
            before
        } else {
            let push = repulsion(s[i].position, s[upto - 1].position);
            (before.0 + push.0.x, before.1 + push.0.y)
        }
    }
}

/// Whether both sums lie within what a fixed-point number holds.
pub open spec fn within_limit(sums: (int, int)) -> bool {
    &&& -LIMIT <= sums.0 <= LIMIT
    &&& -LIMIT <= sums.1 <= LIMIT
}

/// Forces that act one after another act as forces that act on what the
/// earlier ones have left.
pub proof fn lemma_pushed_along_in_parts(
    s: Seq<Entity>,
    first: Seq<(int, int)>,
    second: Seq<(int, int)>,
    force: Force,
)
    ensures
        pushed_along(s, first + second, force) == pushed_along(
            pushed_along(s, first, force),
            second,
            force,
        ),
    decreases second.len(),
{
    if second.len() == 0 {
        assert(first + second =~= first);
    } else {
        lemma_pushed_along_in_parts(s, first, second.drop_last(), force);
        assert((first + second).drop_last() =~= first + second.drop_last());
        assert((first + second).last() == second.last());
    }
}

/// What the first `m` pairs of the row of the entity at `r` make of an arena:
/// that entity is pushed away from the `m` entities after it, each of these is
/// pushed away from it, and no other entity is touched.
proof fn lemma_row(t: Seq<Entity>, r: int, m: int)
    requires
        0 <= r < t.len(),
        0 <= m <= t.len() - r - 1,
    ensures
        pushed_along(t, pairs_from(r, t.len() as int).take(m), Force::Repulsion).len() == t.len(),
        forall|k: int|
            0 <= k < t.len() ==> (#[trigger] pushed_along(
                t,
                pairs_from(r, t.len() as int).take(m),
                Force::Repulsion,
            )[k]) == (if k == r {
                Entity { acceleration: repelled(t, r, r, r + 1 + m), ..t[r] }
            } else if r < k <= r + m {
                pushed(t[k], repulsion(t[k].position, t[r].position))
            } else {
                t[k]
            }),
    decreases m,
{
    let n = t.len() as int;
    let row = pairs_from(r, n);
    if m == 0 {
        assert(row.take(0) =~= Seq::<(int, int)>::empty());
        assert(repelled(t, r, r, r + 1) == t[r].acceleration) by {
            assert(repelled(t, r, r, r) == t[r].acceleration);
        }
    } else {
        lemma_row(t, r, m - 1);
        let earlier = pushed_along(t, row.take(m - 1), Force::Repulsion);
        assert(row.take(m).drop_last() =~= row.take(m - 1));
        assert(row.take(m).last() == (r, r + m));
        let after = pushed_along(t, row.take(m), Force::Repulsion);
        assert(after == pushed_apart(earlier, (r, r + m), Force::Repulsion));
        lemma_repulsion_opposite(t[r + m].position, t[r].position);
        assert(earlier[r + m] == t[r + m]);
        assert(earlier[r].position == t[r].position);
        assert forall|k: int| 0 <= k < t.len() implies (#[trigger] after[k]) == (if k == r {
            Entity { acceleration: repelled(t, r, r, r + 1 + m), ..t[r] }
        } else if r < k <= r + m {
            pushed(t[k], repulsion(t[k].position, t[r].position))
        } else {
            t[k]
        }) by {
            if k != r && k != r + m {
                assert(after[k] == earlier[k]);
            }
        }
    }
}

/// The pushes that an entity gets from the entities after a place can be
/// counted from that place on, where the push from the entity at the place
/// has been given to it already.
proof fn lemma_peel(t: Seq<Entity>, u: Seq<Entity>, i: int, r: int, upto: int)
    requires
        0 <= r < i < t.len(),
        u.len() == t.len(),
        r + 1 <= upto <= t.len(),
        forall|k: int| 0 <= k < t.len() ==> (#[trigger] u[k]).position == t[k].position,
        u[i].acceleration == t[i].acceleration.plus(repulsion(t[i].position, t[r].position)),
    ensures
        repelled(u, i, r + 1, upto) == repelled(t, i, r, upto),
    decreases upto - r,
{
    if upto == r + 1 {
        assert(repelled(u, i, r + 1, r + 1) == u[i].acceleration);
        assert(repelled(t, i, r, r) == t[i].acceleration);
        assert(repelled(t, i, r, r + 1) == t[i].acceleration.plus(
            repulsion(t[i].position, t[r].position),
        ));
    } else {
        lemma_peel(t, u, i, r, upto - 1);
        assert(u[upto - 1].position == t[upto - 1].position);
    }
}

/// What the rows from the entity at `r` on make of an arena: the entities
/// before it stay, and each of the others is pushed away from every other
/// entity at a place from `r` on.
proof fn lemma_rows(t: Seq<Entity>, r: int)
    requires
        0 <= r <= t.len(),
    ensures
        pushed_along(t, pairs_after(r, t.len() as int), Force::Repulsion).len() == t.len(),
        forall|k: int|
            0 <= k < t.len() ==> (#[trigger] pushed_along(
                t,
                pairs_after(r, t.len() as int),
                Force::Repulsion,
            )[k]) == (if k < r {
                t[k]
            } else {
                Entity { acceleration: repelled(t, k, r, t.len() as int), ..t[k] }
            }),
    decreases t.len() - r,
{
    let n = t.len() as int;
    if r >= n {
        assert(pairs_after(r, n) =~= Seq::<(int, int)>::empty());
    } else {
        let row = pairs_from(r, n);
        let rest = pairs_after(r + 1, n);
        lemma_pushed_along_in_parts(t, row, rest, Force::Repulsion);
        lemma_row(t, r, n - r - 1);
        assert(row.take(n - r - 1) =~= row);
        let u = pushed_along(t, row, Force::Repulsion);
        lemma_rows(u, r + 1);
        let after = pushed_along(u, rest, Force::Repulsion);
        assert(after == pushed_along(t, pairs_after(r, n), Force::Repulsion));
        assert forall|k: int| 0 <= k < n implies (#[trigger] after[k]) == (if k < r {
            t[k]
        } else {
            Entity { acceleration: repelled(t, k, r, n), ..t[k] }
        }) by {
            if k < r {
                assert(after[k] == u[k]);
                assert(u[k] == t[k]);
            } else if k == r {
                assert(after[k] == u[k]);
            } else {
                assert(u[k] == pushed(t[k], repulsion(t[k].position, t[r].position)));
                assert forall|j: int| 0 <= j < n implies (#[trigger] u[j]).position
                    == t[j].position by {}
                lemma_peel(t, u, k, r, n);
            }
        }
    }
}

/// After the repulsion pass every entity has the acceleration that it had and
/// on top of it, one after the other by rising place, the repulsion from every
/// other entity; nothing else of it has changed.
pub proof fn lemma_repelled_by_all(s: Seq<Entity>, i: int)
    requires
        0 <= i < s.len(),
    ensures
        pushed_along(s, unique_pairs(s.len()), Force::Repulsion).len() == s.len(),
        pushed_along(s, unique_pairs(s.len()), Force::Repulsion)[i] == (Entity {
            acceleration: repelled(s, i, 0, s.len() as int),
            ..s[i]
        }),
{
    lemma_rows(s, 0);
}

/// Where no sum on the way leaves what a fixed-point number holds, the
/// acceleration after the repulsion pass is exactly the acceleration before it
/// plus the sum of the repulsion from every other entity.
pub proof fn lemma_repelled_is_the_sum(s: Seq<Entity>, i: int, from: int, upto: int)
    requires
        0 <= i < s.len(),
        0 <= from <= upto <= s.len(),
        forall|k: int| from <= k <= upto ==> within_limit(#[trigger] repulsion_sum(s, i, from, k)),
    ensures
        repelled(s, i, from, upto).0.x == repulsion_sum(s, i, from, upto).0,
        repelled(s, i, from, upto).0.y == repulsion_sum(s, i, from, upto).1,
    decreases upto - from,
{
    if upto > from {
        lemma_repelled_is_the_sum(s, i, from, upto - 1);
        assert(within_limit(repulsion_sum(s, i, from, upto)));
        assert(within_limit(repulsion_sum(s, i, from, upto - 1)));
    }
}

} // verus!
