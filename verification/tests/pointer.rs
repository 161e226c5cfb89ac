use opt::clock::Span;
use opt::data::{Album, AlbumId, Data, Drag, EntityId, User, UserId};
use opt::phys::Position;
use opt::pointer::{
    is_click, is_touching, start_drag, stop_drag, update_drag, update_under_mouse, CLICK_NANOS,
    REACH,
};
use std::time::{Duration, Instant};

fn sample_store() -> Data {
    let mut data = Data::new();
    for (a, u) in [(1, 1), (2, 2), (3, 3)] {
        data.add_relationship(
            &Album { id: AlbumId(a), url: format!("https://example.test/album/{a}") },
            &User { id: UserId(u), url: format!("https://example.test/{u}") },
        );
    }
    data
}

fn wait(span: Duration) {
    let start = Instant::now();
    while start.elapsed() < span {}
}

fn far_away() -> Position {
    Position::new(-10_000_000, -10_000_000)
}

#[test]
fn the_pointer_touches_what_is_within_reach() {
    assert_eq!(REACH, 5_000);
    let p = Position::new(100_000, 100_000);
    assert!(is_touching(p, p));
    assert!(is_touching(p, Position::new(104_999, 95_001)));
    assert!(!is_touching(p, Position::new(105_000, 100_000)));
    assert!(!is_touching(p, Position::new(100_000, 95_000)));
}

#[test]
fn a_short_hold_in_place_is_a_click() {
    assert_eq!(CLICK_NANOS, 100_000_000);
    let at = Position::new(0, 0);
    let drag = Drag { start_position: at, start_time: Instant::now() };
    assert!(is_click(&drag, at, Span::from_millis(99)));
    assert!(is_click(&drag, Position::new(4_999, -4_999), Span::zero()));
    assert!(!is_click(&drag, at, Span::from_millis(100)));
    assert!(is_click(&drag, at, Span(99_999_999)));
    assert!(!is_click(&drag, Position::new(5_000, 0), Span::from_millis(1)));
}

#[test]
fn hovering_marks_the_touched_entities() {
    let mut data = sample_store();
    let target = data.entities().get(EntityId(2)).position;
    update_under_mouse(&mut data, target);
    for i in 0..6 {
        let entity = data.entities().get(EntityId(i));
        assert_eq!(entity.is_under_mouse, is_touching(entity.position, target));
    }
    assert!(data.entities().get(EntityId(2)).is_under_mouse);
    update_under_mouse(&mut data, far_away());
    for i in 0..6 {
        assert!(!data.entities().get(EntityId(i)).is_under_mouse);
    }
}

#[test]
fn nothing_is_held_where_nothing_is_touched() {
    let mut data = sample_store();
    update_under_mouse(&mut data, far_away());
    assert_eq!(start_drag(&mut data), None);
    assert!(!update_drag(&mut data, Position::new(1, 1)));
    assert_eq!(stop_drag(&mut data), None);
}

#[test]
fn the_pointer_holds_the_first_entity_that_it_touches() {
    let mut data = sample_store();
    let target = data.entities().get(EntityId(3)).position;
    update_under_mouse(&mut data, target);
    let first = (0..6).find(|&i| data.entities().get(EntityId(i)).is_under_mouse).unwrap();
    assert_eq!(start_drag(&mut data), Some(EntityId(first)));
    for i in 0..6 {
        let entity = data.entities().get(EntityId(i));
        assert_eq!(entity.dragged.is_some(), i == first);
    }
    let held = data.entities().get(EntityId(first));
    assert_eq!(held.dragged.unwrap().start_position, held.position);
}

#[test]
fn a_held_entity_follows_the_pointer() {
    let mut data = sample_store();
    let target = data.entities().get(EntityId(4)).position;
    update_under_mouse(&mut data, target);
    let held = start_drag(&mut data).unwrap();
    let others: Vec<Position> =
        (0..6).map(|i| data.entities().get(EntityId(i)).position).collect();
    assert!(update_drag(&mut data, Position::new(42_000, 43_000)));
    for i in 0..6 {
        let entity = data.entities().get(EntityId(i));
        if EntityId(i) == held {
            assert_eq!(entity.position, Position::new(42_000, 43_000));
        } else {
            assert_eq!(entity.position, others[i as usize]);
        }
    }
}

#[test]
fn letting_go_at_once_is_a_click() {
    let mut data = sample_store();
    let target = data.entities().get(EntityId(1)).position;
    update_under_mouse(&mut data, target);
    let held = start_drag(&mut data).unwrap();
    assert_eq!(stop_drag(&mut data), Some(held));
    assert!(data.entities().get(held).dragged.is_none());
    assert_eq!(stop_drag(&mut data), None);
}

#[test]
fn letting_go_after_a_drag_is_no_click() {
    let mut data = sample_store();
    let target = data.entities().get(EntityId(1)).position;
    update_under_mouse(&mut data, target);
    let held = start_drag(&mut data).unwrap();
    let away = Position::new(target.0.x + 50_000, target.0.y);
    assert!(update_drag(&mut data, away));
    assert_eq!(stop_drag(&mut data), None);
    assert!(data.entities().get(held).dragged.is_none());
    assert_eq!(data.entities().get(held).position, away);
}

#[test]
fn letting_go_late_is_no_click() {
    let mut data = sample_store();
    let target = data.entities().get(EntityId(1)).position;
    update_under_mouse(&mut data, target);
    let held = start_drag(&mut data).unwrap();
    wait(Duration::from_millis(120));
    assert_eq!(stop_drag(&mut data), None);
    assert!(data.entities().get(held).dragged.is_none());
}

#[test]
fn the_pointer_leaves_the_graph_alone() {
    let mut data = sample_store();
    let target = data.entities().get(EntityId(0)).position;
    update_under_mouse(&mut data, target);
    start_drag(&mut data);
    update_drag(&mut data, far_away());
    stop_drag(&mut data);
    assert_eq!(data.entities().len(), 6);
    assert_eq!(data.relationship_count(), 3);
    assert_eq!(data.album_entity(AlbumId(2)), Some(EntityId(2)));
    assert!(data.entities().get(EntityId(2)).is_related(EntityId(3)));
}
