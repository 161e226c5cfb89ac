use opt::clock::Span;
use opt::data::{Album, AlbumId, Data, Entities, Entity, EntityData, EntityId, User, UserId};
use opt::phys::{Acceleration, Position, Velocity};
use opt::sim::{
    attract, attract_along, attract_pair, move_entity, repel, repel_among, repel_pair,
    speed_entity, still_entity, update, update_acc, update_position, update_velocity,
    ATTRACTION, CLOSEST_SQUARED, DAMPING, MAX_SPEED, REPULSION,
};

fn album(id: u64) -> Album {
    Album { id: AlbumId(id), url: format!("https://example.test/album/{id}") }
}

fn user(id: u64) -> User {
    User { id: UserId(id), url: format!("https://example.test/{id}") }
}

fn resting_at(x: i64, y: i64) -> Entity {
    let mut entity = EntityData::User(user(0)).at_random_location();
    entity.position = Position::new(x, y);
    entity.velocity = Velocity::new(0, 0);
    entity
}

fn arena_at(places: &[(i64, i64)]) -> Entities {
    let mut arena = Entities::new();
    for &(x, y) in places {
        arena.add(resting_at(x, y));
    }
    arena
}

fn physics(entity: &Entity) -> (Position, Velocity, Acceleration) {
    (entity.position, entity.velocity, entity.acceleration)
}

fn snapshot(data: &Data) -> Vec<(Position, Velocity, Acceleration)> {
    (0..data.entities().len()).map(|i| physics(data.entities().get(EntityId(i as u32)))).collect()
}

fn sample_store() -> Data {
    let mut data = Data::new();
    for (a, u) in [(1, 1), (1, 2), (2, 2), (3, 1), (3, 3), (4, 3)] {
        data.add_relationship(&album(a), &user(u));
    }
    data
}

#[test]
fn the_constants_of_the_layout() {
    assert_eq!(REPULSION, 1_000_000);
    assert_eq!(ATTRACTION, 2_000);
    assert_eq!(DAMPING, 700);
    assert_eq!(MAX_SPEED, 1_000_000);
    assert_eq!(CLOSEST_SQUARED, 1);
}

#[test]
fn an_entity_moves_along_its_velocity() {
    let mut entity = resting_at(1_000, 2_000);
    entity.velocity = Velocity::new(10_000, -4_000);
    move_entity(&mut entity, Span::from_millis(50));
    assert_eq!(entity.position, Position::new(1_500, 1_800));
    assert_eq!(entity.velocity, Velocity::new(10_000, -4_000));
}

#[test]
fn still_entity_takes_the_acceleration() {
    let mut entity = resting_at(1_000, 2_000);
    entity.acceleration = Acceleration::new(5, 5);
    still_entity(&mut entity);
    assert_eq!(entity.acceleration, Acceleration::new(0, 0));
    assert_eq!(entity.position, Position::new(1_000, 2_000));
}

#[test]
fn a_velocity_is_damped_and_gains_from_the_acceleration() {
    let mut entity = resting_at(0, 0);
    entity.velocity = Velocity::new(10_000, -20_000);
    entity.acceleration = Acceleration::new(100_000, 40_000);
    speed_entity(&mut entity, Span::from_millis(50));
    assert_eq!(entity.velocity, Velocity::new(7_000 + 5_000, -14_000 + 2_000));
    assert_eq!(entity.acceleration, Acceleration::new(100_000, 40_000));
    assert_eq!(entity.position, Position::new(0, 0));
}

#[test]
fn a_huge_acceleration_is_cut_to_exactly_the_highest_speed() {
    let mut entity = resting_at(0, 0);
    entity.acceleration = Acceleration::new(1_000_000_000, 0);
    speed_entity(&mut entity, Span::from_millis(50));
    assert_eq!(entity.velocity, Velocity::new(MAX_SPEED, 0));

    let mut entity = resting_at(0, 0);
    entity.acceleration = Acceleration::new(-300_000_000, 400_000_000);
    speed_entity(&mut entity, Span::from_millis(50));
    assert_eq!(entity.velocity, Velocity::new(-600_000, 800_000));
    assert_eq!(entity.velocity.0.raw_square_sum(), 1_000_000_000_000);
}

#[test]
fn an_entity_under_the_pointer_stands_still() {
    let mut entity = resting_at(0, 0);
    entity.velocity = Velocity::new(10_000, -20_000);
    entity.acceleration = Acceleration::new(100_000, 40_000);
    entity.is_under_mouse = true;
    speed_entity(&mut entity, Span::from_millis(50));
    assert_eq!(entity.velocity, Velocity::new(0, 0));
}

#[test]
fn two_entities_repel_each_other_with_opposite_accelerations() {
    let places = [
        ((0, 0), (10_000, 0)),
        ((0, 0), (3_000, 4_000)),
        ((123_456, -654_321), (-42, 77_777)),
        ((5, 5), (5, 5)),
        ((0, 0), (1, 0)),
        ((i64::MAX, i64::MIN), (i64::MIN, i64::MAX)),
    ];
    for (p, q) in places {
        let mut a = resting_at(p.0, p.1);
        let mut b = resting_at(q.0, q.1);
        repel_pair(&mut a, &mut b);
        assert_eq!(a.acceleration.0.x, -b.acceleration.0.x);
        assert_eq!(a.acceleration.0.y, -b.acceleration.0.y);
        let (mut c, mut d) = (resting_at(q.0, q.1), resting_at(p.0, p.1));
        repel_pair(&mut c, &mut d);
        assert_eq!(c.acceleration, b.acceleration);
        assert_eq!(d.acceleration, a.acceleration);
    }
}

#[test]
fn repulsion_falls_with_the_square_of_the_distance() {
    let mut a = resting_at(0, 0);
    let mut b = resting_at(10_000, 0);
    repel_pair(&mut a, &mut b);
    assert_eq!(a.acceleration, Acceleration::new(-100_000, 0));
    assert_eq!(b.acceleration, Acceleration::new(100_000, 0));

    let mut a = resting_at(0, 0);
    let mut b = resting_at(3_000, 4_000);
    repel_pair(&mut a, &mut b);
    assert_eq!(a.acceleration, Acceleration::new(-120_000, -160_000));
    assert_eq!(b.acceleration, Acceleration::new(120_000, 160_000));
}

#[test]
fn repulsion_is_bounded_where_two_entities_all_but_coincide() {
    let mut a = resting_at(7, 0);
    let mut b = resting_at(0, 0);
    repel_pair(&mut a, &mut b);
    assert_eq!(a.acceleration, Acceleration::new(7_000_000, 0));
    assert_eq!(b.acceleration, Acceleration::new(-7_000_000, 0));

    let mut a = resting_at(5, 5);
    let mut b = resting_at(5, 5);
    repel_pair(&mut a, &mut b);
    assert_eq!(a.acceleration, Acceleration::new(0, 0));
    assert_eq!(b.acceleration, Acceleration::new(0, 0));
}

#[test]
fn repulsion_adds_to_the_acceleration_that_is_there() {
    let mut a = resting_at(0, 0);
    let mut b = resting_at(10_000, 0);
    a.acceleration = Acceleration::new(1, 2);
    b.acceleration = Acceleration::new(3, 4);
    repel_pair(&mut a, &mut b);
    assert_eq!(a.acceleration, Acceleration::new(-99_999, 2));
    assert_eq!(b.acceleration, Acceleration::new(100_003, 4));
}

#[test]
fn three_entities_push_each_other_outward() {
    let mut arena = arena_at(&[(0, 0), (10_000, 0), (0, 10_000)]);
    repel_among(&mut arena);
    assert_eq!(arena.get(EntityId(0)).acceleration, Acceleration::new(-100_000, -100_000));
    assert_eq!(arena.get(EntityId(1)).acceleration, Acceleration::new(150_000, -50_000));
    assert_eq!(arena.get(EntityId(2)).acceleration, Acceleration::new(-50_000, 150_000));
    assert_eq!(arena.get(EntityId(0)).position, Position::new(0, 0));
    assert_eq!(arena.get(EntityId(1)).position, Position::new(10_000, 0));
    assert_eq!(arena.get(EntityId(2)).position, Position::new(0, 10_000));
}

#[test]
fn entities_on_one_axis_stay_on_it() {
    let mut arena = arena_at(&[(0, 0), (10_000, 0), (25_000, 0)]);
    repel_among(&mut arena);
    for i in 0..3 {
        assert_eq!(arena.get(EntityId(i)).acceleration.0.y, 0);
    }
    assert!(arena.get(EntityId(0)).acceleration.0.x < 0);
    assert!(arena.get(EntityId(2)).acceleration.0.x > 0);
}

#[test]
fn repulsion_among_all_cancels_out() {
    let mut arena = arena_at(&[(0, 0), (10_000, 0), (0, 10_000), (-7_000, 3_000), (500, 500)]);
    repel_among(&mut arena);
    let (mut x, mut y) = (0i64, 0i64);
    for i in 0..5 {
        x += arena.get(EntityId(i)).acceleration.0.x;
        y += arena.get(EntityId(i)).acceleration.0.y;
    }
    assert_eq!((x, y), (0, 0));
}

#[test]
fn an_edge_pulls_its_ends_together() {
    let mut collection = resting_at(0, 0);
    let mut member = resting_at(10_000, -5_000);
    attract_pair(&mut collection, &mut member);
    assert_eq!(collection.acceleration, Acceleration::new(20_000, -10_000));
    assert_eq!(member.acceleration, Acceleration::new(-20_000, 10_000));
}

#[test]
fn update_position_moves_every_entity() {
    let mut data = sample_store();
    let before = snapshot(&data);
    update_position(&mut data, Span::from_millis(50));
    let after = snapshot(&data);
    for (b, a) in before.iter().zip(&after) {
        assert_eq!(a.0, b.0 + b.1 * Span::from_millis(50));
        assert_eq!(a.1, b.1);
        assert_eq!(a.2, b.2);
    }
}

#[test]
fn repel_on_a_store_is_repel_among_its_entities() {
    let mut data = sample_store();
    let mut model = data.entities().clone();
    repel(&mut data);
    repel_among(&mut model);
    for i in 0..model.len() {
        let id = EntityId(i as u32);
        assert_eq!(physics(data.entities().get(id)), physics(model.get(id)));
    }
}

#[test]
fn attract_pulls_along_every_edge() {
    let mut data = sample_store();
    let mut model = data.entities().clone();
    for edge in data.relationships() {
        let (a, u) = model.index_pair(edge.album, edge.user);
        attract_pair(a, u);
    }
    attract(&mut data);
    for i in 0..model.len() {
        let id = EntityId(i as u32);
        assert_eq!(physics(data.entities().get(id)), physics(model.get(id)));
    }
}

#[test]
fn attract_along_follows_the_order_given() {
    let mut data = sample_store();
    let mut model = data.entities().clone();
    let mut order = data.relationships();
    order.sort();
    order.reverse();
    order.push(order[0]);
    for edge in &order {
        let (a, u) = model.index_pair(edge.album, edge.user);
        attract_pair(a, u);
    }
    attract_along(&mut data, &order);
    for i in 0..model.len() {
        let id = EntityId(i as u32);
        assert_eq!(physics(data.entities().get(id)), physics(model.get(id)));
    }
}

#[test]
fn update_acc_starts_from_nothing() {
    let mut data = sample_store();
    update_acc(&mut data);
    let first = snapshot(&data);
    update_acc(&mut data);
    assert_eq!(snapshot(&data), first);
    assert!(first.iter().any(|state| state.2 != Acceleration::new(0, 0)));
}

#[test]
fn update_velocity_lets_the_accelerations_act() {
    let mut data = sample_store();
    update_acc(&mut data);
    let before = snapshot(&data);
    update_velocity(&mut data, Span::from_millis(50));
    let after = snapshot(&data);
    for (b, a) in before.iter().zip(&after) {
        assert_eq!(a.1, (b.1 * DAMPING + b.2 * Span::from_millis(50)).clamp(MAX_SPEED));
        assert_eq!(a.0, b.0);
        assert_eq!(a.2, b.2);
    }
}

#[test]
fn a_tick_is_the_three_steps_in_order() {
    let delta = Span::from_millis(50);
    let mut data = sample_store();
    let mut model = data.clone();
    update(&mut data, delta);
    update_position(&mut model, delta);
    update_acc(&mut model);
    update_velocity(&mut model, delta);
    assert_eq!(snapshot(&data), snapshot(&model));
}

#[test]
fn a_tick_leaves_the_graph_alone() {
    let mut data = sample_store();
    let mut edges = data.relationships();
    edges.sort();
    for _ in 0..20 {
        update(&mut data, Span::from_millis(50));
    }
    let mut after = data.relationships();
    after.sort();
    assert_eq!(after, edges);
    assert_eq!(data.entities().len(), 7);
    assert_eq!(data.album_entity(AlbumId(4)), Some(EntityId(6)));
    assert_eq!(data.user_entity(UserId(3)), Some(EntityId(5)));
    for i in 0..7 {
        let v = data.entities().get(EntityId(i)).velocity;
        assert!(v.0.raw_square_sum() <= 1_000_000_000_000);
    }
}

#[test]
fn a_tick_on_an_empty_store_does_nothing() {
    let mut data = Data::new();
    update(&mut data, Span::from_millis(50));
    assert_eq!(data.entities().len(), 0);
}

#[test]
fn nothing_moves_while_no_time_passes() {
    let mut data = sample_store();
    let before = snapshot(&data);
    update_position(&mut data, Span::zero());
    assert_eq!(snapshot(&data), before);

    let mut entity = resting_at(-i64::MAX, i64::MAX);
    entity.velocity = Velocity::new(i64::MAX, -i64::MAX);
    move_entity(&mut entity, Span::zero());
    assert_eq!(entity.position, Position::new(-i64::MAX, i64::MAX));
    let mut entity = resting_at(-i64::MAX, i64::MAX);
    move_entity(&mut entity, Span::from_secs(1_000));
    assert_eq!(entity.position, Position::new(-i64::MAX, i64::MAX));
}

#[test]
fn positions_stay_on_the_plane() {
    let mut entity = resting_at(i64::MAX - 5, -i64::MAX + 5);
    entity.velocity = Velocity::new(1_000_000, -1_000_000);
    move_entity(&mut entity, Span::from_secs(1));
    assert_eq!(entity.position, Position::new(i64::MAX, -i64::MAX));
    assert!(entity.position.0.is_tame());
    assert!(!Position::new(i64::MIN, 0).0.is_tame());
    assert!(!Position::new(0, i64::MIN).0.is_tame());
    assert!(Position::new(-i64::MAX, i64::MAX).0.is_tame());
}
