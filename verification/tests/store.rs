use opt::data::{
    Album, AlbumId, Data, Entity, EntityData, EntityId, Relationship, Type, User, UserId,
    CANVAS_HEIGHT, CANVAS_WIDTH, LAUNCH_SPEED, WINDOW,
};
use opt::phys::{Acceleration, Position};

fn album(id: u64) -> Album {
    Album { id: AlbumId(id), url: format!("https://example.test/album/{id}") }
}

fn user(id: u64) -> User {
    User { id: UserId(id), url: format!("https://example.test/{id}") }
}

fn assert_fresh(entity: &Entity) {
    assert!(-LAUNCH_SPEED <= entity.velocity.0.x && entity.velocity.0.x < LAUNCH_SPEED);
    assert!(-LAUNCH_SPEED <= entity.velocity.0.y && entity.velocity.0.y < LAUNCH_SPEED);
    assert_eq!(entity.acceleration, Acceleration::new(0, 0));
    assert!(entity.dragged.is_none());
    assert!(!entity.is_under_mouse);
    assert!(!entity.is_scraped);
}

fn assert_on_canvas(p: Position) {
    assert!(0 <= p.0.x && p.0.x < CANVAS_WIDTH);
    assert!(0 <= p.0.y && p.0.y < CANVAS_HEIGHT);
}

fn assert_near(anchor: Position, p: Position) {
    assert!((p.0.x - anchor.0.x).abs() <= WINDOW);
    assert!((p.0.y - anchor.0.y).abs() <= WINDOW);
}

fn assert_bipartite(data: &Data) {
    let entities = data.entities();
    for edge in data.relationships() {
        assert!((edge.album.0 as usize) < entities.len());
        assert!((edge.user.0 as usize) < entities.len());
        assert_eq!(entities.get(edge.album).data.kind(), Type::Album);
        assert_eq!(entities.get(edge.user).data.kind(), Type::User);
        assert!(entities.get(edge.album).is_related(edge.user));
        assert!(entities.get(edge.user).is_related(edge.album));
    }
}

#[test]
fn an_empty_store_holds_nothing() {
    let data = Data::default();
    assert_eq!(data.entities().len(), 0);
    assert_eq!(data.relationship_count(), 0);
    assert_eq!(data.album_count(), 0);
    assert_eq!(data.user_count(), 0);
    assert_eq!(data.relationships(), vec![]);
    assert_eq!(data.album_entity(AlbumId(1)), None);
    assert_eq!(data.user_entity(UserId(1)), None);
}

#[test]
fn inserting_an_edge_twice_changes_nothing() {
    let mut data = Data::new();
    data.add_relationship(&album(1), &user(2));
    assert_eq!(data.entities().len(), 2);
    assert_eq!(data.relationship_count(), 1);
    let positions = [
        data.entities().get(EntityId(0)).position,
        data.entities().get(EntityId(1)).position,
    ];
    data.add_relationship(&album(1), &user(2));
    assert_eq!(data.entities().len(), 2);
    assert_eq!(data.relationship_count(), 1);
    assert_eq!(data.album_count(), 1);
    assert_eq!(data.user_count(), 1);
    assert_eq!(data.entities().get(EntityId(0)).position, positions[0]);
    assert_eq!(data.entities().get(EntityId(1)).position, positions[1]);
    assert_eq!(
        data.relationships(),
        vec![Relationship { album: EntityId(0), user: EntityId(1) }]
    );
}

#[test]
fn two_strangers_appear_on_the_canvas_collection_first() {
    let mut data = Data::new();
    data.add_relationship(&album(10), &user(20));
    assert_eq!(data.album_entity(AlbumId(10)), Some(EntityId(0)));
    assert_eq!(data.user_entity(UserId(20)), Some(EntityId(1)));
    let entities = data.entities();
    let (a, u) = (entities.get(EntityId(0)), entities.get(EntityId(1)));
    assert_fresh(a);
    assert_fresh(u);
    assert_on_canvas(a.position);
    assert_on_canvas(u.position);
    assert!(a.is_related(EntityId(1)));
    assert!(u.is_related(EntityId(0)));
    assert!(!a.is_related(EntityId(0)));
    assert!(data.contains_relationship(Relationship { album: EntityId(0), user: EntityId(1) }));
    assert!(!data.contains_relationship(Relationship { album: EntityId(1), user: EntityId(0) }));
}

#[test]
fn a_new_member_appears_near_its_collection() {
    for round in 0..200 {
        let mut data = Data::new();
        data.add_relationship(&album(1), &user(2));
        let anchor = data.entities().get(EntityId(0)).position;
        data.add_relationship(&album(1), &user(100 + round));
        assert_eq!(data.entities().len(), 3);
        assert_eq!(data.user_entity(UserId(100 + round)), Some(EntityId(2)));
        let newcomer = data.entities().get(EntityId(2));
        assert_near(anchor, newcomer.position);
        assert_fresh(newcomer);
        assert_eq!(data.entities().get(EntityId(0)).position, anchor);
    }
}

#[test]
fn a_new_collection_appears_near_its_member() {
    for round in 0..200 {
        let mut data = Data::new();
        data.add_relationship(&album(1), &user(2));
        let anchor = data.entities().get(EntityId(1)).position;
        data.add_relationship(&album(100 + round), &user(2));
        assert_eq!(data.album_entity(AlbumId(100 + round)), Some(EntityId(2)));
        let newcomer = data.entities().get(EntityId(2));
        assert_near(anchor, newcomer.position);
        assert_fresh(newcomer);
    }
}

#[test]
fn an_edge_between_two_known_entities_makes_no_entity() {
    let mut data = Data::new();
    data.add_relationship(&album(1), &user(2));
    data.add_relationship(&album(3), &user(4));
    assert_eq!(data.entities().len(), 4);
    data.add_relationship(&album(1), &user(4));
    assert_eq!(data.entities().len(), 4);
    assert_eq!(data.relationship_count(), 3);
    assert!(data.contains_relationship(Relationship { album: EntityId(0), user: EntityId(3) }));
    assert!(data.entities().get(EntityId(0)).is_related(EntityId(3)));
    assert!(data.entities().get(EntityId(0)).is_related(EntityId(1)));
    assert!(data.entities().get(EntityId(3)).is_related(EntityId(0)));
    assert!(data.entities().get(EntityId(3)).is_related(EntityId(2)));
    assert!(!data.entities().get(EntityId(1)).is_related(EntityId(2)));
    assert_bipartite(&data);
}

#[test]
fn collections_and_members_have_separate_ids() {
    let mut data = Data::new();
    data.add_relationship(&album(5), &user(5));
    assert_eq!(data.entities().len(), 2);
    assert_eq!(data.album_entity(AlbumId(5)), Some(EntityId(0)));
    assert_eq!(data.user_entity(UserId(5)), Some(EntityId(1)));
    assert_bipartite(&data);
}

#[test]
fn every_edge_joins_a_collection_and_a_member() {
    let mut data = Data::new();
    for a in 0..20u64 {
        for u in 0..20u64 {
            if (a * 7 + u * 3) % 5 == 0 {
                data.add_relationship(&album(a), &user(u));
                assert_bipartite(&data);
            }
        }
    }
    assert_eq!(data.relationship_count(), data.relationships().len());
    assert_eq!(data.entities().len(), data.album_count() + data.user_count());
}

#[test]
fn an_id_keeps_naming_its_entity() {
    let mut data = Data::new();
    let mut handed_out: Vec<(EntityId, Type, u64)> = Vec::new();
    for step in 0..100u64 {
        let (a, u) = (step % 13, step % 7);
        data.add_relationship(&album(a), &user(u));
        let album_id = data.album_entity(AlbumId(a)).unwrap();
        let user_id = data.user_entity(UserId(u)).unwrap();
        handed_out.push((album_id, Type::Album, a));
        handed_out.push((user_id, Type::User, u));
        for &(id, kind, external) in &handed_out {
            let entity = data.entities().get(id);
            assert_eq!(entity.data.kind(), kind);
            match &*entity.data {
                EntityData::Album(album) => assert_eq!(album.id, AlbumId(external)),
                EntityData::User(user) => assert_eq!(user.id, UserId(external)),
            }
            match kind {
                Type::Album => assert_eq!(data.album_entity(AlbumId(external)), Some(id)),
                Type::User => assert_eq!(data.user_entity(UserId(external)), Some(id)),
            }
        }
    }
}

#[test]
fn the_payload_keeps_the_record() {
    let mut data = Data::new();
    data.add_relationship(&album(1), &user(2));
    match &*data.entities().get(EntityId(0)).data {
        EntityData::Album(a) => {
            assert_eq!(a.id, AlbumId(1));
            assert_eq!(a.url, "https://example.test/album/1");
        }
        EntityData::User(_) => panic!("the collection comes first"),
    }
    match &*data.entities().get(EntityId(1)).data {
        EntityData::User(u) => {
            assert_eq!(u.id, UserId(2));
            assert_eq!(u.url, "https://example.test/2");
        }
        EntityData::Album(_) => panic!("the member comes second"),
    }
}

#[test]
fn relationships_lists_every_edge_once() {
    let mut data = Data::new();
    for u in 0..10u64 {
        data.add_relationship(&album(0), &user(u));
        data.add_relationship(&album(0), &user(u));
    }
    let mut edges = data.relationships();
    edges.sort();
    let expected: Vec<Relationship> = (1..=10)
        .map(|u| Relationship { album: EntityId(0), user: EntityId(u) })
        .collect();
    assert_eq!(edges, expected);
    assert_eq!(data.relationship_count(), 10);
}

#[test]
fn mark_scraped_touches_one_flag() {
    let mut data = Data::new();
    data.add_relationship(&album(1), &user(2));
    let before = data.entities().get(EntityId(1)).clone();
    data.mark_scraped(EntityId(1));
    let after = data.entities().get(EntityId(1));
    assert!(after.is_scraped);
    assert!(!data.entities().get(EntityId(0)).is_scraped);
    assert_eq!(after.position, before.position);
    assert_eq!(after.velocity, before.velocity);
    assert!(after.is_related(EntityId(0)));
}

#[test]
fn a_cloned_store_is_a_store_of_its_own() {
    let mut data = Data::new();
    data.add_relationship(&album(1), &user(2));
    let copy = data.clone();
    data.add_relationship(&album(1), &user(3));
    assert_eq!(copy.entities().len(), 2);
    assert_eq!(copy.relationship_count(), 1);
    assert_eq!(copy.album_entity(AlbumId(1)), Some(EntityId(0)));
    assert_eq!(copy.user_entity(UserId(3)), None);
    assert!(!copy.entities().get(EntityId(0)).is_related(EntityId(2)));
    assert!(copy.entities().get(EntityId(0)).is_related(EntityId(1)));
    assert!(copy.entities().get(EntityId(1)).is_related(EntityId(0)));
    assert!(copy.contains_relationship(Relationship { album: EntityId(0), user: EntityId(1) }));
    assert_eq!(data.entities().len(), 3);
    assert_bipartite(&copy);
    let mut other = Data::new();
    other.clone_from(&data);
    assert_eq!(other.entities().len(), 3);
    assert_eq!(other.user_entity(UserId(3)), Some(EntityId(2)));
    assert_eq!(
        other.entities().get(EntityId(2)).position,
        data.entities().get(EntityId(2)).position
    );
}

#[test]
fn placement_saturates_at_the_edge_of_the_plane() {
    let payload = EntityData::User(user(1));
    let corner = Position::new(i64::MAX, i64::MIN);
    let entity = payload.at_random_location_near(corner);
    assert!(entity.position.0.x >= i64::MAX - WINDOW);
    assert!(entity.position.0.y <= -i64::MAX + WINDOW);
    assert_fresh(&entity);
}

#[test]
fn newcomers_scatter_over_the_window() {
    let mut data = Data::new();
    data.add_relationship(&album(1), &user(2));
    let anchor = data.entities().get(EntityId(0)).position;
    let mut places: Vec<Position> = Vec::new();
    let mut speeds = Vec::new();
    for round in 0..100 {
        data.add_relationship(&album(1), &user(100 + round));
        let newcomer = data.entities().get(EntityId(2 + round as u32));
        assert_near(anchor, newcomer.position);
        places.push(newcomer.position);
        speeds.push(newcomer.velocity);
    }
    let corner = Position::new(anchor.0.x - WINDOW, anchor.0.y - WINDOW);
    assert!(places.iter().any(|&p| p != corner));
    assert!(places.iter().any(|&p| p.0.x != places[0].0.x));
    assert!(places.iter().any(|&p| p.0.y != places[0].0.y));
    assert!(speeds.iter().any(|&v| v != speeds[0]));
}

#[test]
fn strangers_scatter_over_the_canvas() {
    let mut places: Vec<Position> = Vec::new();
    for _ in 0..100 {
        let entity = EntityData::User(user(1)).at_random_location();
        assert_on_canvas(entity.position);
        assert_fresh(&entity);
        places.push(entity.position);
    }
    assert!(places.iter().any(|&p| p.0.x != places[0].0.x));
    assert!(places.iter().any(|&p| p.0.y != places[0].0.y));
    assert!(places.iter().any(|&p| p != Position::new(0, 0)));
}

#[test]
fn relationships_come_in_ascending_order() {
    let mut data = Data::new();
    for (a, u) in [(9, 1), (3, 7), (9, 7), (1, 1), (3, 1), (5, 2), (1, 7), (5, 1)] {
        data.add_relationship(&album(a), &user(u));
    }
    let edges = data.relationships();
    assert_eq!(edges.len(), 8);
    let mut sorted = edges.clone();
    sorted.sort();
    assert_eq!(edges, sorted);
    for pair in edges.windows(2) {
        assert!((pair[0].album, pair[0].user) < (pair[1].album, pair[1].user));
    }
    assert_eq!(data.relationships(), edges);
    assert_eq!(data.clone().relationships(), edges);
}
