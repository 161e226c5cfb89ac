use super::arena::{all_alike, Entities};
use super::entity::{
    near, on_canvas, pairs_of, within_window, Album, AlbumId, Entity, EntityData, EntityId,
    Relationship, Type, User, UserId,
};
use super::links::{
    id_map, id_map_clone, id_map_get, id_map_insert, id_map_len, id_map_new, id_set_insert,
    by_places, pair_set, pair_set_clone, pair_set_contains, pair_set_insert, pair_set_items,
    pair_set_len, pair_set_new, sort_pairs,
};
use vstd::relations::{sorted_by, total_ordering};
use vstd::prelude::*;

verus! {

/// The graph store: the arena, the set of edges, and for either kind of node
/// the index from external id to arena index.
#[derive(Debug)]
pub struct Data {
    pub(crate) entities: Entities,
    pub(crate) relationships: im::HashSet<(u32, u32)>,
    pub(crate) albums: im::HashMap<u64, u32>,
    pub(crate) users: im::HashMap<u64, u32>,
}

/// Whether `index` knows exactly the entities of kind `kind`, each under its
/// own external id.
pub open spec fn indexed(arena: Seq<Entity>, index: Map<u64, u32>, kind: Type) -> bool {
    &&& index.dom().finite()
    &&& forall|k: u64| #[trigger]
        index.dom().contains(k) ==> {
            &&& index[k] < arena.len()
            &&& arena[index[k] as int].is_kind(kind)
            &&& arena[index[k] as int].payload().external_id() == k
        }
    &&& forall|i: int|
        0 <= i < arena.len() && (#[trigger] arena[i]).is_kind(kind) ==> {
            &&& index.dom().contains(arena[i].payload().external_id())
            &&& index[arena[i].payload().external_id()] == i
        }
}

/// Whether every edge leads from a collection to a member, both in the arena.
pub open spec fn bipartite(arena: Seq<Entity>, edges: Set<(u32, u32)>) -> bool {
    &&& edges.finite()
    &&& forall|e: (u32, u32)| #[trigger]
        edges.contains(e) ==> {
            &&& e.0 < arena.len()
            &&& e.1 < arena.len()
            &&& arena[e.0 as int].is_kind(Type::Album)
            &&& arena[e.1 as int].is_kind(Type::User)
        }
}

/// Whether the neighbours of every entity are those with which it shares an
/// edge.
pub open spec fn adjacent(arena: Seq<Entity>, edges: Set<(u32, u32)>) -> bool {
    forall|i: int, j: u32|
        0 <= i < arena.len() ==> (#[trigger] arena[i].neighbours().contains(j) <==> (
        edges.contains((i as u32, j)) || edges.contains((j, i as u32))))
}

/// Whether the pairs come in ascending order, none of them twice.
pub open spec fn ascending(s: Seq<(u32, u32)>) -> bool {
    sorted_by(s, by_places()) && s.no_duplicates()
}

/// The pairs of a finite set in ascending order.
pub open spec fn in_order(set: Set<(u32, u32)>) -> Seq<(u32, u32)> {
    choose|s: Seq<(u32, u32)>| ascending(s) && s.to_set() == set
}

/// There is one way only to put the pairs of a set in ascending order.
pub proof fn lemma_in_order(s: Seq<(u32, u32)>, set: Set<(u32, u32)>)
    requires
        ascending(s),
        s.to_set() == set,
    ensures
        in_order(set) == s,
{
    let c = in_order(set);
    assert(ascending(c) && c.to_set() == set);
    s.lemma_multiset_has_no_duplicates();
    c.lemma_multiset_has_no_duplicates();
    assert forall|x: (u32, u32)| s.to_multiset().count(x) == c.to_multiset().count(x) by {
        vstd::seq_lib::to_multiset_contains(s, x);
        vstd::seq_lib::to_multiset_contains(c, x);
        assert(s.contains(x) <==> s.to_set().contains(x));
        assert(c.contains(x) <==> c.to_set().contains(x));
    }
    assert(s.to_multiset() =~= c.to_multiset());
    lemma_by_places_is_total();
    vstd::seq_lib::lemma_sorted_unique(s, c, by_places());
}

/// Pairs of numbers are totally ordered.
pub proof fn lemma_by_places_is_total()
    ensures
        total_ordering(by_places()),
{
    let leq = by_places();
    assert(vstd::relations::reflexive(leq));
    assert(vstd::relations::antisymmetric(leq)) by {
        assert forall|a: (u32, u32), b: (u32, u32)| #[trigger] leq(a, b) && #[trigger] leq(b, a)
            implies a == b by {}
    }
    assert(vstd::relations::transitive(leq));
    assert(vstd::relations::strongly_connected(leq));
}

/// A vector that holds what a vector without duplicates holds has no
/// duplicates either, and the same members.
pub proof fn lemma_same_pairs(s: Seq<(u32, u32)>, t: Seq<(u32, u32)>)
    requires
        s.no_duplicates(),
        t.to_multiset() == s.to_multiset(),
    ensures
        t.no_duplicates(),
        t.to_set() == s.to_set(),
{
    s.lemma_multiset_has_no_duplicates();
    t.lemma_multiset_has_no_duplicates_conv();
    assert forall|x: (u32, u32)| t.to_set().contains(x) <==> s.to_set().contains(x) by {
        vstd::seq_lib::to_multiset_contains(s, x);
        vstd::seq_lib::to_multiset_contains(t, x);
        assert(s.contains(x) <==> s.to_set().contains(x));
        assert(t.contains(x) <==> t.to_set().contains(x));
    }
    assert(t.to_set() =~= s.to_set());
}

/// Whether every entity is at a position with tame coordinates.
pub open spec fn placed(arena: Seq<Entity>) -> bool {
    forall|i: int| 0 <= i < arena.len() ==> (#[trigger] arena[i]).position.0.tame()
}

/// Whether every entity has a neighbour.
pub open spec fn linked(arena: Seq<Entity>) -> bool {
    forall|i: int| 0 <= i < arena.len() ==> (#[trigger] arena[i]).has_neighbour()
}

impl Data {
    /// The entities, by arena index.
    pub open(crate) spec fn arena(&self) -> Seq<Entity> {
        self.entities@
    }

    /// The edges, each as the arena index of its collection and of its member.
    pub open(crate) spec fn edges(&self) -> Set<(u32, u32)> {
        pair_set(self.relationships)
    }

    /// The arena index of every known collection, by external id.
    pub open(crate) spec fn album_index(&self) -> Map<u64, u32> {
        id_map(self.albums)
    }

    /// The arena index of every known member, by external id.
    pub open(crate) spec fn user_index(&self) -> Map<u64, u32> {
        id_map(self.users)
    }

    /// The invariant of the store.
    pub open spec fn wf(&self) -> bool {
        &&& self.arena().len() <= u32::MAX
        &&& indexed(self.arena(), self.album_index(), Type::Album)
        &&& indexed(self.arena(), self.user_index(), Type::User)
        &&& bipartite(self.arena(), self.edges())
        &&& adjacent(self.arena(), self.edges())
        &&& linked(self.arena())
        &&& placed(self.arena())
        &&& self.arena().len() == self.album_index().dom().len() + self.user_index().dom().len()
    }

    /// Whether every entity is at a position with tame coordinates.
    pub open spec fn placed(&self) -> bool {
        placed(self.arena())
    }

    /// Whether every edge leads from a collection to a member, both in the
    /// arena.
    pub open spec fn bipartite(&self) -> bool {
        bipartite(self.arena(), self.edges())
    }

    /// Whether the store has an entity for the collection.
    pub open spec fn knows_album(&self, album: Album) -> bool {
        self.album_index().dom().contains(album.id.0)
    }

    /// Whether the store has an entity for the member.
    pub open spec fn knows_user(&self, user: User) -> bool {
        self.user_index().dom().contains(user.id.0)
    }

    /// How many entities an edge between the two brings into the arena.
    pub open spec fn missing(&self, album: Album, user: User) -> nat {
        (if self.knows_album(album) {
            0nat
        } else {
            1nat
        }) + (if self.knows_user(user) {
            0nat
        } else {
            1nat
        })
    }

    /// The arena index of the collection once an edge to it is there.
    pub open spec fn album_slot(&self, album: Album) -> u32 {
        if self.knows_album(album) {
            self.album_index()[album.id.0]
        } else {
            self.arena().len() as u32
        }
    }

    /// The arena index of the member once an edge between the two is there. A
    /// collection that is new as well takes the place before it.
    pub open spec fn user_slot(&self, album: Album, user: User) -> u32 {
        if self.knows_user(user) {
            self.user_index()[user.id.0]
        } else if self.knows_album(album) {
            self.arena().len() as u32
        } else {
            (self.arena().len() + 1) as u32
        }
    }

    /// Whether `post` is this store with the edge between the two inserted: the
    /// indices know both, the edge is there, whoever was missing has joined the
    /// arena next to the other, and nothing else has changed.
    pub open spec fn links(&self, album: Album, user: User, post: Data) -> bool {
        let a = self.album_slot(album);
        let u = self.user_slot(album, user);
        let before = self.arena();
        let after = post.arena();
        &&& post.album_index() == self.album_index().insert(album.id.0, a)
        &&& post.user_index() == self.user_index().insert(user.id.0, u)
        &&& post.edges() == self.edges().insert((a, u))
        &&& after.len() == before.len() + self.missing(album, user)
        &&& forall|i: int|
            0 <= i < before.len() && i != a && i != u ==> #[trigger] after[i] == before[i]
        &&& if self.knows_album(album) {
            after[a as int].joined(before[a as int], u)
        } else {
            &&& after[a as int].newborn(EntityData::Album(album))
            &&& after[a as int].neighbours() == set![u]
            &&& if self.knows_user(user) {
                near(before[u as int].position, after[a as int].position)
            } else {
                on_canvas(after[a as int].position)
            }
        }
        &&& if self.knows_user(user) {
            after[u as int].joined(before[u as int], a)
        } else {
            &&& after[u as int].newborn(EntityData::User(user))
            &&& after[u as int].neighbours() == set![a]
            &&& if self.knows_album(album) {
                near(before[a as int].position, after[u as int].position)
            } else {
                on_canvas(after[u as int].position)
            }
        }
    }

    /// Whether `post` has grown out of this store: every index of the arena
    /// still names what it named, every external id still has its index, and
    /// every edge is still there.
    pub open spec fn grown_into(&self, post: Data) -> bool {
        &&& self.arena().len() <= post.arena().len()
        &&& forall|i: int|
            0 <= i < self.arena().len() ==> (#[trigger] post.arena()[i]).payload()
                == self.arena()[i].payload()
        &&& forall|k: u64| #[trigger]
            self.album_index().dom().contains(k) ==> post.album_index().dom().contains(k)
                && post.album_index()[k] == self.album_index()[k]
        &&& forall|k: u64| #[trigger]
            self.user_index().dom().contains(k) ==> post.user_index().dom().contains(k)
                && post.user_index()[k] == self.user_index()[k]
        &&& self.edges().subset_of(post.edges())
    }

    /// Whether `post` is the same graph as this store: the same edges and
    /// indices, and entity for entity the same payload and neighbours. Where the
    /// entities are and how they move may differ.
    pub open spec fn same_graph(&self, post: Data) -> bool {
        &&& post.edges() == self.edges()
        &&& post.album_index() == self.album_index()
        &&& post.user_index() == self.user_index()
        &&& post.arena().len() == self.arena().len()
        &&& forall|i: int|
            0 <= i < self.arena().len() ==> (#[trigger] post.arena()[i]).same_identity(
                self.arena()[i],
            )
    }

    /// The empty store.
    pub fn new() -> (r: Data)
        ensures
            r.wf(),
            r.arena() == Seq::<Entity>::empty(),
            r.edges() == Set::<(u32, u32)>::empty(),
            r.album_index() == Map::<u64, u32>::empty(),
            r.user_index() == Map::<u64, u32>::empty(),
    {
        Data {
            entities: Entities::new(),
            relationships: pair_set_new(),
            albums: id_map_new(),
            users: id_map_new(),
        }
    }

    /// The entities.
    pub fn entities(&self) -> (r: &Entities)
        ensures
            r@ == self.arena(),
    {
        &self.entities
    }

    /// Every edge once, in ascending order of the collection's index and then
    /// of the member's.
    pub fn relationships(&self) -> (r: Vec<Relationship>)
        ensures
            pairs_of(r@) == in_order(self.edges()),
            pairs_of(r@).no_duplicates(),
            pairs_of(r@).to_set() == self.edges(),
    {
        let mut items = pair_set_items(&self.relationships);
        let ghost found = items@;
        sort_pairs(&mut items);
        proof {
            lemma_same_pairs(found, items@);
            lemma_in_order(items@, self.edges());
        }
        let mut edges: Vec<Relationship> = Vec::new();
        let mut k: usize = 0;
        while k < items.len()
            invariant
                k <= items.len(),
                edges@.len() == k,
                pairs_of(edges@) == items@.subrange(0, k as int),
            decreases items.len() - k,
        {
            let (album, user) = items[k];
            let ghost before = edges@;
            edges.push(Relationship { album: EntityId(album), user: EntityId(user) });
            k += 1;
            proof {
                assert forall|j: int| 0 <= j < k implies pairs_of(edges@)[j] == items@[j] by {
                    if j < k - 1 {
                        assert(pairs_of(before)[j] == items@.subrange(0, k - 1)[j]);
                        assert(edges@[j] == before[j]);
                    }
                }
                assert(pairs_of(edges@) =~= items@.subrange(0, k as int));
            }
        }
        assert(items@.subrange(0, k as int) =~= items@);
        edges
    }

    /// The number of edges.
    pub fn relationship_count(&self) -> (r: usize)
        ensures
            r == self.edges().len(),
    {
        pair_set_len(&self.relationships)
    }

    /// Whether the edge is in the store.
    pub fn contains_relationship(&self, edge: Relationship) -> (r: bool)
        ensures
            r == self.edges().contains(edge.pair()),
    {
        pair_set_contains(&self.relationships, (edge.album.0, edge.user.0))
    }

    /// The number of known collections.
    pub fn album_count(&self) -> (r: usize)
        ensures
            r == self.album_index().dom().len(),
    {
        id_map_len(&self.albums)
    }

    /// The number of known members.
    pub fn user_count(&self) -> (r: usize)
        ensures
            r == self.user_index().dom().len(),
    {
        id_map_len(&self.users)
    }

    /// The entity that stands for the collection, if the store knows it.
    pub fn album_entity(&self, id: AlbumId) -> (r: Option<EntityId>)
        ensures
            r == (if self.album_index().dom().contains(id.0) {
                Some(EntityId(self.album_index()[id.0]))
            } else {
                None
            }),
    {
        match id_map_get(&self.albums, id.0) {
            Some(index) => Some(EntityId(index)),
            None => None,
        }
    }

    /// The entity that stands for the member, if the store knows it.
    pub fn user_entity(&self, id: UserId) -> (r: Option<EntityId>)
        ensures
            r == (if self.user_index().dom().contains(id.0) {
                Some(EntityId(self.user_index()[id.0]))
            } else {
                None
            }),
    {
        match id_map_get(&self.users, id.0) {
            Some(index) => Some(EntityId(index)),
            None => None,
        }
    }

    /// Notes that discovery has visited the entity.
    pub fn mark_scraped(&mut self, id: EntityId)
        requires
            id.0 < old(self).arena().len(),
        ensures
            old(self).wf() ==> final(self).wf(),
            old(self).placed() ==> final(self).placed(),
            old(self).same_graph(*final(self)),
            final(self).arena() == old(self).arena().update(
                id.0 as int,
                Entity { is_scraped: true, ..old(self).arena()[id.0 as int] },
            ),
    {
        self.entities.get_mut(id).is_scraped = true;
        proof {
            if old(self).wf() {
                lemma_same_graph_keeps_wf(*old(self), *self);
            }
        }
    }

    /// Inserts the edge between a collection and a member. Whichever of the
    /// two the store does not know yet becomes an entity: near the other where
    /// that one is known, anywhere on the canvas where neither is.
    pub fn add_relationship(&mut self, album: &Album, user: &User)
        requires
            old(self).wf(),
            old(self).arena().len() + old(self).missing(*album, *user) <= u32::MAX,
        ensures
            final(self).wf(),
            old(self).links(*album, *user, *final(self)),
            old(self).grown_into(*final(self)),
    {
        let known_album = id_map_get(&self.albums, album.id.0);
        let known_user = id_map_get(&self.users, user.id.0);
        let (a, u): (u32, u32) = match (known_album, known_user) {
            (Some(a), Some(u)) => (a, u),
            (Some(a), None) => {
                let anchor = self.entities.get(EntityId(a)).position;
                let entity = EntityData::User(user.clone()).at_random_location_near(anchor);
                let u = self.entities.add(entity);
                id_map_insert(&mut self.users, user.id.0, u.0);
                (a, u.0)
            },
            (None, Some(u)) => {
                let anchor = self.entities.get(EntityId(u)).position;
                let entity = EntityData::Album(album.clone()).at_random_location_near(anchor);
                let a = self.entities.add(entity);
                id_map_insert(&mut self.albums, album.id.0, a.0);
                (a.0, u)
            },
            (None, None) => {
                let a = self.entities.add(EntityData::Album(album.clone()).at_random_location());
                id_map_insert(&mut self.albums, album.id.0, a.0);
                let u = self.entities.add(EntityData::User(user.clone()).at_random_location());
                id_map_insert(&mut self.users, user.id.0, u.0);
                (a.0, u.0)
            },
        };
        pair_set_insert(&mut self.relationships, (a, u));
        id_set_insert(&mut self.entities.get_mut(EntityId(a)).related, u);
        id_set_insert(&mut self.entities.get_mut(EntityId(u)).related, a);
        proof {
            assert(self.album_index() =~= old(self).album_index().insert(album.id.0, a));
            assert(self.user_index() =~= old(self).user_index().insert(user.id.0, u));
            lemma_links_keep_wf(*old(self), *album, *user, *self);
            lemma_links_keep_ids(*old(self), *album, *user, *self);
        }
    }
}

impl Data {
    /// Whether `other` is a copy of this store: the same edges and indices, and
    /// place for place entities that are alike.
    pub open spec fn copied(&self, other: Data) -> bool {
        &&& other.edges() == self.edges()
        &&& other.album_index() == self.album_index()
        &&& other.user_index() == self.user_index()
        &&& all_alike(other.arena(), self.arena())
    }
}

impl Clone for Data {
    fn clone(&self) -> (r: Data)
        ensures
            self.copied(r),
            self.wf() ==> r.wf(),
    {
        let r = Data {
            entities: self.entities.clone(),
            relationships: pair_set_clone(&self.relationships),
            albums: id_map_clone(&self.albums),
            users: id_map_clone(&self.users),
        };
        proof {
            if self.wf() {
                lemma_copy_keeps_wf(*self, r);
            }
        }
        r
    }

    fn clone_from(&mut self, source: &Self)
        ensures
            source.copied(*final(self)),
            source.wf() ==> final(self).wf(),
    {
        *self = source.clone();
    }
}

impl Default for Data {
    fn default() -> (r: Data)
        ensures
            r.wf(),
            r.arena() == Seq::<Entity>::empty(),
            r.edges() == Set::<(u32, u32)>::empty(),
            r.album_index() == (Map::<u64, u32>::empty()),
            r.user_index() == (Map::<u64, u32>::empty()),
    {
        Data::new()
    }
}

/// A copy of a store satisfies the invariant that the store satisfies.
pub proof fn lemma_copy_keeps_wf(pre: Data, post: Data)
    requires
        pre.wf(),
        pre.copied(post),
    ensures
        post.wf(),
{
    assert(pre.same_graph(post)) by {
        assert forall|i: int| 0 <= i < pre.arena().len() implies (#[trigger] post.arena()[
            i
        ]).same_identity(pre.arena()[i]) by {
            assert(post.arena()[i].alike(pre.arena()[i]));
        }
    }
    lemma_same_graph_keeps_wf(pre, post);
}

/// Whether the edges join collections and members does not depend on where
/// the entities are or how they move.
pub proof fn lemma_same_graph_keeps_bipartite(pre: Data, post: Data)
    requires
        pre.bipartite(),
        pre.same_graph(post),
    ensures
        post.bipartite(),
{
    assert forall|e: (u32, u32)| #[trigger] post.edges().contains(e) implies {
        &&& e.0 < post.arena().len()
        &&& e.1 < post.arena().len()
        &&& post.arena()[e.0 as int].is_kind(Type::Album)
        &&& post.arena()[e.1 as int].is_kind(Type::User)
    } by {
        assert(pre.edges().contains(e));
        assert(post.arena()[e.0 as int].same_identity(pre.arena()[e.0 as int]));
        assert(post.arena()[e.1 as int].same_identity(pre.arena()[e.1 as int]));
    }
}

/// The invariant of the store does not depend on where the entities are, as
/// long as their coordinates are tame, nor on how they move.
pub proof fn lemma_same_graph_keeps_wf(pre: Data, post: Data)
    requires
        pre.wf(),
        pre.same_graph(post),
        post.placed(),
    ensures
        post.wf(),
{
    let before = pre.arena();
    let after = post.arena();
    assert forall|i: int| 0 <= i < after.len() implies (#[trigger] after[i]).has_neighbour() by {
        assert(after[i].same_identity(before[i]));
        assert(before[i].has_neighbour());
        let j = choose|j: u32| before[i].neighbours().contains(j);
        assert(after[i].neighbours().contains(j));
    }
    assert forall|i: int| 0 <= i < after.len() implies (#[trigger] after[i]).data
        == before[i].data by {
        assert(after[i].same_identity(before[i]));
    }
    assert forall|i: int, j: u32| 0 <= i < after.len() implies (#[trigger] after[
        i
    ].neighbours().contains(j) <==> (post.edges().contains((i as u32, j))
        || post.edges().contains((j, i as u32)))) by {
        assert(after[i].same_identity(before[i]));
        assert(before[i].neighbours().contains(j) <==> (pre.edges().contains((i as u32, j))
            || pre.edges().contains((j, i as u32))));
    }
}

/// Inserting an edge keeps the invariant of the store.
pub proof fn lemma_links_keep_wf(pre: Data, album: Album, user: User, post: Data)
    requires
        pre.wf(),
        pre.arena().len() + pre.missing(album, user) <= u32::MAX,
        pre.links(album, user, post),
    ensures
        post.wf(),
{
    let a = pre.album_slot(album);
    let u = pre.user_slot(album, user);
    let before = pre.arena();
    let after = post.arena();
    assert forall|i: int| 0 <= i < after.len() implies (#[trigger] after[i]).has_neighbour() by {
        if i == a {
            assert(after[i].neighbours().contains(u));
        } else if i == u {
            assert(after[i].neighbours().contains(a));
        } else {
            assert(before[i].has_neighbour());
        }
    }
}

/// Inserting an edge that is there already changes nothing: the edges, the
/// indices and the number of entities stay, and every entity stays what it was,
/// with the neighbours it had.
pub proof fn lemma_link_twice(first: Data, album: Album, user: User, second: Data, third: Data)
    requires
        first.wf(),
        first.arena().len() + first.missing(album, user) <= u32::MAX,
        first.links(album, user, second),
        second.links(album, user, third),
    ensures
        third.edges() == second.edges(),
        third.album_index() == second.album_index(),
        third.user_index() == second.user_index(),
        third.arena().len() == second.arena().len(),
        forall|i: int|
            0 <= i < second.arena().len() ==> {
                &&& (#[trigger] third.arena()[i]).same_but_neighbours(second.arena()[i])
                &&& third.arena()[i].neighbours() == second.arena()[i].neighbours()
            },
{
    lemma_links_keep_wf(first, album, user, second);
    let a = second.album_slot(album);
    let u = second.user_slot(album, user);
    assert(second.knows_album(album));
    assert(second.knows_user(user));
    assert(a == first.album_slot(album));
    assert(u == first.user_slot(album, user));
    assert(second.edges().contains((a, u)));
    assert(third.edges() =~= second.edges());
    assert(third.album_index() =~= second.album_index());
    assert(third.user_index() =~= second.user_index());
    assert(second.arena()[a as int].neighbours().contains(u));
    assert(second.arena()[u as int].neighbours().contains(a));
    assert forall|i: int| 0 <= i < second.arena().len() implies {
        &&& (#[trigger] third.arena()[i]).same_but_neighbours(second.arena()[i])
        &&& third.arena()[i].neighbours() == second.arena()[i].neighbours()
    } by {
        if i == a {
            assert(third.arena()[i].neighbours() =~= second.arena()[i].neighbours());
        } else if i == u {
            assert(third.arena()[i].neighbours() =~= second.arena()[i].neighbours());
        }
    }
}

/// In a store that satisfies its invariant every edge joins a collection and
/// a member of the arena, which are two different entities.
pub proof fn lemma_edges_bipartite(store: Data, edge: (u32, u32))
    requires
        store.wf(),
        store.edges().contains(edge),
    ensures
        edge.0 < store.arena().len(),
        edge.1 < store.arena().len(),
        store.arena()[edge.0 as int].is_kind(Type::Album),
        store.arena()[edge.1 as int].is_kind(Type::User),
        edge.0 != edge.1,
{
}

/// Inserting an edge leaves every index of the arena with the entity that it
/// named before, and every external id with the index that it had.
pub proof fn lemma_links_keep_ids(pre: Data, album: Album, user: User, post: Data)
    requires
        pre.wf(),
        pre.arena().len() + pre.missing(album, user) <= u32::MAX,
        pre.links(album, user, post),
    ensures
        pre.grown_into(post),
{
}

/// Growth is transitive: an id that was handed out names the same entity over
/// any number of insertions.
pub proof fn lemma_grown_into_transitive(first: Data, second: Data, third: Data)
    requires
        first.grown_into(second),
        second.grown_into(third),
    ensures
        first.grown_into(third),
{
    assert forall|i: int| 0 <= i < first.arena().len() implies (#[trigger] third.arena()[
        i
    ]).payload() == first.arena()[i].payload() by {
        assert(second.arena()[i].payload() == first.arena()[i].payload());
    }
    assert forall|k: u64| #[trigger]
        first.album_index().dom().contains(k) implies third.album_index().dom().contains(k)
        && third.album_index()[k] == first.album_index()[k] by {
        assert(second.album_index().dom().contains(k));
    }
    assert forall|k: u64| #[trigger]
        first.user_index().dom().contains(k) implies third.user_index().dom().contains(k)
        && third.user_index()[k] == first.user_index()[k] by {
        assert(second.user_index().dom().contains(k));
    }
    assert forall|e: (u32, u32)| first.edges().contains(e) implies third.edges().contains(e) by {
        assert(second.edges().contains(e));
    }
}

/// An edge stays where the store grows.
pub proof fn lemma_joins_stay(pre: Data, post: Data, album: Album, user: User)
    requires
        pre.grown_into(post),
        pre.joins(album, user),
    ensures
        post.joins(album, user),
{
}

/// The same graph is a graph that has grown by nothing.
pub proof fn lemma_same_graph_has_grown(pre: Data, post: Data)
    requires
        pre.same_graph(post),
    ensures
        pre.grown_into(post),
{
    assert forall|i: int| 0 <= i < pre.arena().len() implies (#[trigger] post.arena()[
        i
    ]).payload() == pre.arena()[i].payload() by {
        assert(post.arena()[i].same_identity(pre.arena()[i]));
    }
}

/// A collection that the store knows has an edge, and so has a member that it
/// knows.
pub proof fn lemma_known_has_edge(store: Data, album: Album, user: User)
    requires
        store.wf(),
    ensures
        store.knows_album(album) ==> exists|u: u32| #[trigger]
            store.edges().contains((store.album_index()[album.id.0], u)),
        store.knows_user(user) ==> exists|a: u32| #[trigger]
            store.edges().contains((a, store.user_index()[user.id.0])),
{
    if store.knows_album(album) {
        let i = store.album_index()[album.id.0];
        assert(store.arena()[i as int].has_neighbour());
        let j = choose|j: u32| store.arena()[i as int].neighbours().contains(j);
        assert(store.arena()[i as int].neighbours().contains(j));
        assert(store.edges().contains((i, j)) || store.edges().contains((j, i)));
        if store.edges().contains((j, i)) {
            assert(store.arena()[i as int].is_kind(Type::User));
        }
        assert(store.edges().contains((i, j)));
    }
    if store.knows_user(user) {
        let i = store.user_index()[user.id.0];
        assert(store.arena()[i as int].has_neighbour());
        let j = choose|j: u32| store.arena()[i as int].neighbours().contains(j);
        assert(store.arena()[i as int].neighbours().contains(j));
        assert(store.edges().contains((i, j)) || store.edges().contains((j, i)));
        if store.edges().contains((i, j)) {
            assert(store.arena()[i as int].is_kind(Type::Album));
        }
        assert(store.edges().contains((j, i)));
    }
}

/// A member that enters with an edge to a known collection appears within the
/// window around that collection, and the same holds with the two exchanged.
pub proof fn lemma_newcomer_is_near(pre: Data, album: Album, user: User, post: Data)
    requires
        pre.wf(),
        pre.arena().len() + pre.missing(album, user) <= u32::MAX,
        pre.links(album, user, post),
        pre.knows_album(album) != pre.knows_user(user),
    ensures
        pre.knows_album(album) ==> within_window(
            pre.arena()[pre.album_slot(album) as int].position,
            post.arena()[pre.user_slot(album, user) as int].position,
        ),
        pre.knows_user(user) ==> within_window(
            pre.arena()[pre.user_slot(album, user) as int].position,
            post.arena()[pre.album_slot(album) as int].position,
        ),
{
}

} // verus!
