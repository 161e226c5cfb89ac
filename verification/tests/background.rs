use opt::background::{absorb, Request, Response};
use opt::data::{Album, AlbumId, Data, EntityId, Relationship, User, UserId};

fn album(id: u64) -> Album {
    Album { id: AlbumId(id), url: format!("https://example.test/album/{id}") }
}

fn user(id: u64) -> User {
    User { id: UserId(id), url: format!("https://example.test/{id}") }
}

#[test]
fn the_fans_of_a_collection_are_linked_to_it() {
    let mut data = Data::new();
    let request = absorb(&mut data, Response::Fans(album(1), vec![user(1), user(2), user(3)]));
    assert!(request.is_none());
    assert_eq!(data.entities().len(), 4);
    assert_eq!(data.relationship_count(), 3);
    let a = data.album_entity(AlbumId(1)).unwrap();
    for id in 1..=3 {
        let u = data.user_entity(UserId(id)).unwrap();
        assert!(data.contains_relationship(Relationship { album: a, user: u }));
    }
}

#[test]
fn the_collection_of_a_member_is_linked_to_it() {
    let mut data = Data::new();
    let request = absorb(&mut data, Response::Collection(user(9), vec![album(1), album(2)]));
    assert!(request.is_none());
    assert_eq!(data.entities().len(), 3);
    let u = data.user_entity(UserId(9)).unwrap();
    for id in 1..=2 {
        let a = data.album_entity(AlbumId(id)).unwrap();
        assert!(data.contains_relationship(Relationship { album: a, user: u }));
    }
}

#[test]
fn an_empty_list_brings_nothing() {
    let mut data = Data::new();
    assert!(absorb(&mut data, Response::Fans(album(1), vec![])).is_none());
    assert!(absorb(&mut data, Response::Collection(user(1), vec![])).is_none());
    assert_eq!(data.entities().len(), 0);
    assert_eq!(data.relationship_count(), 0);
}

#[test]
fn a_release_is_to_be_visited() {
    let mut data = Data::new();
    let request = absorb(&mut data, Response::Release("https://example.test/album/5".to_string()));
    match request {
        Some(Request::Album { url }) => assert_eq!(url, "https://example.test/album/5"),
        _ => panic!("a release asks for its collection"),
    }
    assert_eq!(data.entities().len(), 0);
}

#[test]
fn a_visited_entity_is_marked() {
    let mut data = Data::new();
    absorb(&mut data, Response::Fans(album(1), vec![user(1), user(2)]));
    assert!(absorb(&mut data, Response::Album(album(1))).is_none());
    assert!(data.entities().get(EntityId(0)).is_scraped);
    assert!(!data.entities().get(EntityId(1)).is_scraped);
    assert!(absorb(&mut data, Response::User(user(2))).is_none());
    assert!(data.entities().get(EntityId(2)).is_scraped);
    assert!(!data.entities().get(EntityId(1)).is_scraped);
}

#[test]
fn a_visited_stranger_is_passed_over() {
    let mut data = Data::new();
    absorb(&mut data, Response::Fans(album(1), vec![user(1)]));
    assert!(absorb(&mut data, Response::Album(album(7))).is_none());
    assert!(absorb(&mut data, Response::User(user(7))).is_none());
    assert_eq!(data.entities().len(), 2);
    assert!(!data.entities().get(EntityId(0)).is_scraped);
    assert!(!data.entities().get(EntityId(1)).is_scraped);
}
