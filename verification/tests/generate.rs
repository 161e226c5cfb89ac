use opt::data::{random_albums, random_users, Album, AlbumId, Data, EntityId, Type, User, UserId};

fn check_graph(data: &Data, albums: usize, users: usize, before: usize) {
    let entities = data.entities();
    assert!(entities.len() <= before + albums + users);
    assert_eq!(entities.len(), data.album_count() + data.user_count());
    let edges = data.relationships();
    for edge in &edges {
        assert!((edge.album.0 as usize) < entities.len());
        assert!((edge.user.0 as usize) < entities.len());
        assert_eq!(entities.get(edge.album).data.kind(), Type::Album);
        assert_eq!(entities.get(edge.user).data.kind(), Type::User);
    }
    for i in 0..entities.len() {
        let id = EntityId(i as u32);
        let linked = edges.iter().any(|edge| edge.album == id || edge.user == id);
        assert!(linked);
    }
}

#[test]
fn every_collection_of_a_random_graph_has_an_edge() {
    for (albums, users) in [(1, 1), (5, 1), (1, 5), (100, 5), (50, 50), (300, 2)] {
        let mut data = Data::new();
        data.spawn_random(albums, users);
        assert_eq!(data.album_count() as u64, albums);
        assert!(data.user_count() as u64 <= users);
        assert!(data.user_count() >= 1);
        check_graph(&data, albums as usize, users as usize, 0);
    }
}

#[test]
fn generating_nothing_changes_nothing() {
    let mut data = Data::new();
    data.spawn_random(0, 0);
    assert_eq!(data.entities().len(), 0);
    data.spawn_random(0, 3);
    assert_eq!(data.entities().len(), 0);
    assert_eq!(data.relationship_count(), 0);
}

#[test]
fn generating_twice_keeps_what_was_there() {
    let mut data = Data::new();
    data.spawn_random(20, 3);
    let before = data.entities().len();
    let edges = data.relationships();
    data.spawn_random(30, 4);
    check_graph(&data, 30, 4, before);
    for edge in edges {
        assert!(data.contains_relationship(edge));
    }
    assert_eq!(data.album_count(), 50);
}

#[test]
fn link_random_knows_every_collection_afterwards() {
    let albums: Vec<Album> = (0..40)
        .map(|id| Album { id: AlbumId(id), url: format!("https://example.test/a/{id}") })
        .collect();
    let users: Vec<User> =
        (0..3).map(|id| User { id: UserId(id), url: format!("https://example.test/{id}") }).collect();
    let mut data = Data::new();
    data.link_random(&albums, &users);
    for album in &albums {
        let id = data.album_entity(album.id).unwrap();
        assert_eq!(data.entities().get(id).data.kind(), Type::Album);
        assert!(data.relationships().iter().any(|edge| edge.album == id));
    }
    check_graph(&data, 40, 3, 0);
}

#[test]
fn link_random_takes_records_with_the_same_id_for_one() {
    let albums: Vec<Album> =
        (0..10).map(|_| Album { id: AlbumId(7), url: "https://example.test/a/7".to_string() }).collect();
    let users: Vec<User> =
        (0..4).map(|_| User { id: UserId(7), url: "https://example.test/7".to_string() }).collect();
    let mut data = Data::new();
    data.link_random(&albums, &users);
    assert_eq!(data.entities().len(), 2);
    assert_eq!(data.relationship_count(), 1);
    assert_eq!(data.album_count(), 1);
    assert_eq!(data.user_count(), 1);
}

#[test]
fn made_up_records_carry_their_id_in_their_address() {
    let albums = random_albums(25);
    assert_eq!(albums.len(), 25);
    for album in &albums {
        assert_eq!(album.url, format!("no://random/album/{}", album.id.0));
    }
    let users = random_users(25);
    assert_eq!(users.len(), 25);
    for user in &users {
        assert_eq!(user.url, format!("no://random/user/{}", user.id.0));
    }
    assert_eq!(random_albums(0).len(), 0);
    assert_eq!(random_users(0).len(), 0);
}

#[test]
fn made_up_ids_differ() {
    let albums = random_albums(100);
    let mut ids: Vec<u64> = albums.iter().map(|album| album.id.0).collect();
    ids.sort();
    ids.dedup();
    assert_eq!(ids.len(), 100);
}

#[test]
fn a_member_gets_few_collections_besides_its_own() {
    let mut data = Data::new();
    data.spawn_random(300, 2);
    assert!(data.relationship_count() >= 300);
    assert!(data.relationship_count() <= 300 + 2 * 30);
}
