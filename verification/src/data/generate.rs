//! The generator of random graphs for demonstrations.
//!
//! It makes up collections and members and links them through
//! [`Data::add_relationship`], as discovery would.

use super::chance::{pick, pick_some, poisson, random_id};
use super::entity::{Album, AlbumId, User, UserId};
use super::store::{lemma_grown_into_transitive, lemma_known_has_edge, Data};
use vstd::prelude::*;

verus! {

/// The mean number of collections that a member is the first to hold.
pub const PRIMARY_MEAN: u32 = 20;

/// The mean number of collections that a member holds besides.
pub const SECONDARY_MEAN: u32 = 3;

/// The decimal digits of `n`, the most significant first.
pub open spec fn decimal(n: nat) -> Seq<char>
    decreases n,
{
    let digits = seq!['0', '1', '2', '3', '4', '5', '6', '7', '8', '9'];
    if n < 10 {
        seq![digits[n as int]]
    } else {
        decimal(n / 10).push(digits[(n % 10) as int])
    }
}

/// The address of a collection that the generator made up.
pub open spec fn album_address(id: u64) -> Seq<char> {
    "no://random/album/"@ + decimal(id as nat)
}

/// The address of a member that the generator made up.
pub open spec fn user_address(id: u64) -> Seq<char> {
    "no://random/user/"@ + decimal(id as nat)
}

/// The external ids of the collections.
pub open spec fn album_ids(albums: Seq<Album>) -> Set<u64> {
    albums.map_values(|a: Album| a.id.0).to_set()
}

/// The external ids of the members.
pub open spec fn user_ids(users: Seq<User>) -> Set<u64> {
    users.map_values(|u: User| u.id.0).to_set()
}

/// `format!` with a text and a number, which the standard library writes out
/// in decimal digits after the text.
#[verifier::external_body]
fn numbered(prefix: &str, id: u64) -> (r: String)
    ensures
        r@ == prefix@ + decimal(id as nat),
{
    format!("{prefix}{id}")
}

/// Makes up `count` collections.
pub fn random_albums(count: u64) -> (r: Vec<Album>)
    ensures
        r@.len() == count,
        forall|k: int| 0 <= k < r@.len() ==> (#[trigger] r@[k]).url@ == album_address(r@[k].id.0),
{
    let mut albums: Vec<Album> = Vec::new();
    let mut k: u64 = 0;
    while k < count
        invariant
            k <= count,
            albums@.len() == k,
            forall|j: int|
                0 <= j < albums@.len() ==> (#[trigger] albums@[j]).url@ == album_address(
                    albums@[j].id.0,
                ),
        decreases count - k,
    {
        let id = random_id();
        albums.push(Album { id: AlbumId(id), url: numbered("no://random/album/", id) });
        k += 1;
    }
    albums
}

/// Makes up `count` members.
pub fn random_users(count: u64) -> (r: Vec<User>)
    ensures
        r@.len() == count,
        forall|k: int| 0 <= k < r@.len() ==> (#[trigger] r@[k]).url@ == user_address(r@[k].id.0),
{
    let mut users: Vec<User> = Vec::new();
    let mut k: u64 = 0;
    while k < count
        invariant
            k <= count,
            users@.len() == k,
            forall|j: int|
                0 <= j < users@.len() ==> (#[trigger] users@[j]).url@ == user_address(
                    users@[j].id.0,
                ),
        decreases count - k,
    {
        let id = random_id();
        users.push(User { id: UserId(id), url: numbered("no://random/user/", id) });
        k += 1;
    }
    users
}

impl Data {
    /// Whether the store knows both and has the edge between them.
    pub open spec fn joins(&self, album: Album, user: User) -> bool {
        &&& self.knows_album(album)
        &&& self.knows_user(user)
        &&& self.edges().contains((self.album_index()[album.id.0], self.user_index()[user.id.0]))
    }

    /// The edge between the two, as the store indexes them.
    pub open spec fn edge_of(&self, album: Album, user: User) -> (u32, u32) {
        (self.album_index()[album.id.0], self.user_index()[user.id.0])
    }

    /// The edges between the member and the collections at the places `picks`
    /// of `albums`.
    pub open spec fn edges_to(&self, albums: Seq<Album>, picks: Seq<usize>, user: User) -> Set<
        (u32, u32),
    > {
        Set::new(
            |e: (u32, u32)|
                exists|p: int|
                    0 <= p < picks.len() && e == self.edge_of(
                        albums[#[trigger] picks[p] as int],
                        user,
                    ),
        )
    }

    /// Whether the store knows the collection and has an edge from it.
    pub open spec fn has_edge_from(&self, album: Album) -> bool {
        &&& self.knows_album(album)
        &&& exists|u: u32| #[trigger] self.edges().contains((self.album_index()[album.id.0], u))
    }

    /// Whether the edge joins a collection of the one list and a member of the
    /// other.
    pub open spec fn joins_some(
        &self,
        edge: (u32, u32),
        albums: Seq<Album>,
        users: Seq<User>,
    ) -> bool {
        exists|i: int, j: int|
            {
                &&& 0 <= i < albums.len()
                &&& 0 <= j < users.len()
                &&& #[trigger] self.knows_album(albums[i])
                &&& #[trigger] self.knows_user(users[j])
                &&& edge == (self.album_index()[albums[i].id.0], self.user_index()[users[j].id.0])
            }
    }

    /// Whether every edge of this store is an edge of `base` or joins a
    /// collection of the one list and a member of the other.
    #[verifier::opaque]
    pub open spec fn linked_from(&self, base: Data, albums: Seq<Album>, users: Seq<User>) -> bool {
        forall|e: (u32, u32)| #[trigger]
            self.edges().contains(e) ==> base.edges().contains(e) || self.joins_some(
                e,
                albums,
                users,
            )
    }

    /// Whether this store knows no collection and no member beyond those that
    /// `base` knows and those of the two lists.
    pub open spec fn within(&self, base: Data, albums: Seq<Album>, users: Seq<User>) -> bool {
        &&& self.album_index().dom().subset_of(base.album_index().dom().union(album_ids(albums)))
        &&& self.user_index().dom().subset_of(base.user_index().dom().union(user_ids(users)))
    }
}

/// The places from `low` up to but not including `high`.
pub open spec fn places(low: usize, high: usize) -> Seq<usize> {
    Seq::new((high - low) as nat, |k: int| (low + k) as usize)
}

/// How many collections a member takes in the first round: as many as were
/// drawn, or all that are left where fewer are left.
pub open spec fn taken(count: u64, left: nat) -> nat {
    if count > left {
        left
    } else {
        count as nat
    }
}

/// A store that knows nobody beyond an older store and two lists has not
/// outgrown them, and an edge between one of each list fits in.
pub proof fn lemma_room(
    store: Data,
    base: Data,
    albums: Seq<Album>,
    users: Seq<User>,
    album: Album,
    user: User,
)
    requires
        store.wf(),
        base.wf(),
        store.within(base, albums, users),
        albums.contains(album),
        users.contains(user),
    ensures
        store.arena().len() + store.missing(album, user) <= base.arena().len() + albums.len()
            + users.len(),
        album_ids(albums).contains(album.id.0),
        user_ids(users).contains(user.id.0),
{
    let album_seq = albums.map_values(|a: Album| a.id.0);
    let user_seq = users.map_values(|u: User| u.id.0);
    album_seq.lemma_cardinality_of_set();
    user_seq.lemma_cardinality_of_set();
    let i = choose|i: int| 0 <= i < albums.len() && albums[i] == album;
    assert(album_seq[i] == album.id.0);
    let j = choose|j: int| 0 <= j < users.len() && users[j] == user;
    assert(user_seq[j] == user.id.0);
    let known_albums = base.album_index().dom();
    let known_users = base.user_index().dom();
    let all_albums = known_albums.union(album_ids(albums));
    let all_users = known_users.union(user_ids(users));
    vstd::set_lib::lemma_len_union(known_albums, album_ids(albums));
    vstd::set_lib::lemma_len_union(known_users, user_ids(users));
    let now_albums = store.album_index().dom().insert(album.id.0);
    let now_users = store.user_index().dom().insert(user.id.0);
    assert(now_albums.subset_of(all_albums));
    assert(now_users.subset_of(all_users));
    vstd::set_lib::lemma_len_subset(now_albums, all_albums);
    vstd::set_lib::lemma_len_subset(now_users, all_users);
}

impl Data {
    /// Inserts the edge between a collection and a member of two lists into a
    /// store that has grown out of `base` by such edges only.
    pub(crate) fn link_within(
        &mut self,
        album: &Album,
        user: &User,
        Ghost(base): Ghost<Data>,
        Ghost(albums): Ghost<Seq<Album>>,
        Ghost(users): Ghost<Seq<User>>,
    )
        requires
            old(self).wf(),
            base.wf(),
            old(self).within(base, albums, users),
            old(self).linked_from(base, albums, users),
            albums.contains(*album),
            users.contains(*user),
            base.arena().len() + albums.len() + users.len() <= u32::MAX,
        ensures
            final(self).wf(),
            final(self).within(base, albums, users),
            final(self).linked_from(base, albums, users),
            old(self).grown_into(*final(self)),
            final(self).joins(*album, *user),
            final(self).edges() == old(self).edges().insert(final(self).edge_of(*album, *user)),
    {
        proof {
            lemma_room(*self, base, albums, users, *album, *user);
        }
        self.add_relationship(album, user);
        proof {
            lemma_linked_from_grows(*old(self), *self, base, albums, users, *album, *user);
        }
    }

    /// Joins the member to each of the collections at the places `picks` of
    /// `albums`, one after the other, and to no other.
    pub(crate) fn join_all(
        &mut self,
        albums: &Vec<Album>,
        picks: &Vec<usize>,
        user: &User,
        Ghost(base): Ghost<Data>,
        Ghost(users): Ghost<Seq<User>>,
    )
        requires
            old(self).wf(),
            base.wf(),
            old(self).within(base, albums@, users),
            old(self).linked_from(base, albums@, users),
            users.contains(*user),
            forall|p: int| 0 <= p < picks@.len() ==> #[trigger] picks@[p] < albums@.len(),
            base.arena().len() + albums@.len() + users.len() <= u32::MAX,
        ensures
            final(self).wf(),
            final(self).within(base, albums@, users),
            final(self).linked_from(base, albums@, users),
            old(self).grown_into(*final(self)),
            forall|p: int|
                0 <= p < picks@.len() ==> final(self).joins(
                    albums@[#[trigger] picks@[p] as int],
                    *user,
                ),
            final(self).edges() == old(self).edges().union(
                final(self).edges_to(albums@, picks@, *user),
            ),
    {
        let ghost start = *self;
        proof {
            assert(self.edges() =~= start.edges().union(
                self.edges_to(albums@, picks@.take(0), *user),
            ));
        }
        let mut p: usize = 0;
        while p < picks.len()
            invariant
                self.wf(),
                base.wf(),
                start == *old(self),
                self.within(base, albums@, users),
                self.linked_from(base, albums@, users),
                start.grown_into(*self),
                users.contains(*user),
                forall|q: int| 0 <= q < picks@.len() ==> #[trigger] picks@[q] < albums@.len(),
                base.arena().len() + albums@.len() + users.len() <= u32::MAX,
                p <= picks@.len(),
                forall|q: int|
                    0 <= q < p ==> self.joins(albums@[#[trigger] picks@[q] as int], *user),
                self.edges() == start.edges().union(
                    self.edges_to(albums@, picks@.take(p as int), *user),
                ),
            decreases picks@.len() - p,
        {
            let ghost before = *self;
            self.link_within(&albums[picks[p]], user, Ghost(base), Ghost(albums@), Ghost(users));
            proof {
                lemma_grown_into_transitive(start, before, *self);
                lemma_one_more_joined(before, *self, start, albums@, picks@, p as int, *user);
            }
            p += 1;
        }
        proof {
            assert(picks@.take(p as int) =~= picks@);
        }
    }

    /// The first round for one member, who has drawn `count`: the member takes
    /// the collections from the place `next` on, as many as were drawn or as are
    /// left, and is joined to these and to no other. Returns the place of the
    /// first collection that is left, and notes the places taken in `linked`.
    pub(crate) fn take_primary(
        &mut self,
        albums: &Vec<Album>,
        next: usize,
        count: u64,
        user: &User,
        linked: &mut Vec<usize>,
        Ghost(base): Ghost<Data>,
        Ghost(users): Ghost<Seq<User>>,
    ) -> (stop: usize)
        requires
            old(self).wf(),
            base.wf(),
            old(self).within(base, albums@, users),
            old(self).linked_from(base, albums@, users),
            users.contains(*user),
            next <= albums@.len(),
            base.arena().len() + albums@.len() + users.len() <= u32::MAX,
        ensures
            final(self).wf(),
            final(self).within(base, albums@, users),
            final(self).linked_from(base, albums@, users),
            old(self).grown_into(*final(self)),
            stop == next + taken(count, (albums@.len() - next) as nat),
            final(linked)@ == old(linked)@ + places(next, stop),
            forall|k: int|
                next <= k < stop ==> final(self).joins(#[trigger] albums@[k], *user),
            final(self).edges() == old(self).edges().union(
                final(self).edges_to(albums@, places(next, stop), *user),
            ),
    {
        let left = albums.len() - next;
        let take: usize = if count > left as u64 {
            left
        } else {
            count as usize
        };
        let stop = next + take;
        let mut fresh: Vec<usize> = Vec::new();
        let mut k: usize = next;
        while k < stop
            invariant
                next <= k <= stop <= albums@.len(),
                fresh@ == places(next, k),
                linked@ == old(linked)@ + places(next, k),
            decreases stop - k,
        {
            fresh.push(k);
            linked.push(k);
            k += 1;
            proof {
                assert(fresh@ =~= places(next, k));
                assert(linked@ =~= old(linked)@ + places(next, k));
            }
        }
        self.join_all(albums, &fresh, user, Ghost(base), Ghost(users));
        proof {
            assert forall|k: int| next <= k < stop implies self.joins(
                #[trigger] albums@[k],
                *user,
            ) by {
                assert(fresh@[k - next] == k);
            }
        }
        stop
    }

    /// Links the collections and the members of the two lists at random:
    ///
    /// 1. Member after member takes a random number of the collections that
    ///    nobody has taken yet, as long as there are any.
    /// 2. Member after member is linked to a random number of the collections
    ///    that were taken in the first round, to none of them twice.
    /// 3. Each collection that nobody took is linked to a member picked at
    ///    random.
    ///
    /// However the draws come out, the store then knows every collection of
    /// `albums` and has an edge from it, and every edge that has come in joins
    /// a collection of `albums` and a member of `users`.
    pub fn link_random(&mut self, albums: &Vec<Album>, users: &Vec<User>)
        requires
            old(self).wf(),
            old(self).arena().len() + albums@.len() + users@.len() <= u32::MAX,
            users@.len() > 0 || albums@.len() == 0,
        ensures
            final(self).wf(),
            old(self).grown_into(*final(self)),
            final(self).within(*old(self), albums@, users@),
            final(self).linked_from(*old(self), albums@, users@),
            final(self).arena().len() <= old(self).arena().len() + albums@.len() + users@.len(),
            forall|k: int|
                0 <= k < albums@.len() ==> final(self).has_edge_from(#[trigger] albums@[k]),
    {
        let ghost base = *self;
        proof {
            lemma_linked_from_itself(base, albums@, users@);
        }
        let mut linked: Vec<usize> = Vec::new();
        let mut next: usize = 0;
        let mut ui: usize = 0;
        while ui < users.len()
            invariant
                self.wf(),
                base.wf(),
                base == *old(self),
                self.within(base, albums@, users@),
                self.linked_from(base, albums@, users@),
                base.grown_into(*self),
                base.arena().len() + albums@.len() + users@.len() <= u32::MAX,
                ui <= users@.len(),
                next <= albums@.len(),
                linked@.len() == next,
                forall|j: int| 0 <= j < linked@.len() ==> #[trigger] linked@[j] < albums@.len(),
                forall|k: int| 0 <= k < next ==> self.knows_album(#[trigger] albums@[k]),
            decreases users@.len() - ui,
        {
            let count = poisson(PRIMARY_MEAN);
            let ghost before = *self;
            let stop = self.take_primary(
                albums,
                next,
                count,
                &users[ui],
                &mut linked,
                Ghost(base),
                Ghost(users@),
            );
            proof {
                lemma_grown_into_transitive(base, before, *self);
            }
            next = stop;
            ui += 1;
        }
        let mut ui: usize = 0;
        while ui < users.len()
            invariant
                self.wf(),
                base.wf(),
                self.within(base, albums@, users@),
                self.linked_from(base, albums@, users@),
                base.grown_into(*self),
                base.arena().len() + albums@.len() + users@.len() <= u32::MAX,
                ui <= users@.len(),
                next <= albums@.len(),
                forall|j: int| 0 <= j < linked@.len() ==> #[trigger] linked@[j] < albums@.len(),
                forall|k: int| 0 <= k < next ==> self.knows_album(#[trigger] albums@[k]),
            decreases users@.len() - ui,
        {
            let count = poisson(SECONDARY_MEAN);
            let amount: usize = if count > linked.len() as u64 {
                linked.len()
            } else {
                count as usize
            };
            let picks = pick_some(&linked, amount);
            proof {
                let places = choose|places: Seq<int>|
                    #[trigger] places.len() == picks@.len() && places.no_duplicates() && forall|
                        k: int,
                    |
                        0 <= k < picks@.len() ==> 0 <= #[trigger] places[k] < linked@.len()
                            && picks@[k] == linked@[places[k]];
                assert forall|j: int| 0 <= j < picks@.len() implies #[trigger] picks@[j]
                    < albums@.len() by {
                    assert(picks@[j] == linked@[places[j]]);
                }
            }
            let ghost before = *self;
            self.join_all(albums, &picks, &users[ui], Ghost(base), Ghost(users@));
            proof {
                lemma_grown_into_transitive(base, before, *self);
            }
            ui += 1;
        }
        let mut k: usize = next;
        while k < albums.len()
            invariant
                self.wf(),
                base.wf(),
                self.within(base, albums@, users@),
                self.linked_from(base, albums@, users@),
                base.grown_into(*self),
                base.arena().len() + albums@.len() + users@.len() <= u32::MAX,
                users@.len() > 0 || albums@.len() == 0,
                k <= albums@.len(),
                forall|j: int| 0 <= j < k ==> self.knows_album(#[trigger] albums@[j]),
            decreases albums@.len() - k,
        {
            let ghost before = *self;
            let user = pick(users).unwrap();
            self.link_within(&albums[k], user, Ghost(base), Ghost(albums@), Ghost(users@));
            proof {
                lemma_grown_into_transitive(base, before, *self);
            }
            k += 1;
        }
        proof {
            lemma_within_bound(*self, base, albums@, users@);
            assert forall|k: int| 0 <= k < albums@.len() implies self.has_edge_from(
                #[trigger] albums@[k],
            ) by {
                lemma_known_has_edge(*self, albums@[k], users@[0]);
            }
        }
    }

    /// Makes up `albums` collections and `users` members with random external
    /// ids and links them at random, see [`Data::link_random`].
    pub fn spawn_random(&mut self, albums: u64, users: u64)
        requires
            old(self).wf(),
            old(self).arena().len() + albums + users <= u32::MAX,
            users > 0 || albums == 0,
        ensures
            final(self).wf(),
            old(self).grown_into(*final(self)),
            final(self).arena().len() <= old(self).arena().len() + albums + users,
            exists|made: Seq<Album>, met: Seq<User>|
                {
                    &&& #[trigger] final(self).linked_from(*old(self), made, met)
                    &&& made.len() == albums
                    &&& met.len() == users
                    &&& forall|k: int|
                        0 <= k < made.len() ==> final(self).has_edge_from(#[trigger] made[k])
                },
    {
        let albums = random_albums(albums);
        let users = random_users(users);
        self.link_random(&albums, &users);
        proof {
            assert(self.linked_from(*old(self), albums@, users@));
        }
    }
}

/// A store that knows nobody beyond an older store and two lists has at most
/// as many entities as that store and the two lists together.
pub proof fn lemma_within_bound(store: Data, base: Data, albums: Seq<Album>, users: Seq<User>)
    requires
        store.wf(),
        base.wf(),
        store.within(base, albums, users),
    ensures
        store.arena().len() <= base.arena().len() + albums.len() + users.len(),
{
    albums.map_values(|a: Album| a.id.0).lemma_cardinality_of_set();
    users.map_values(|u: User| u.id.0).lemma_cardinality_of_set();
    let all_albums = base.album_index().dom().union(album_ids(albums));
    let all_users = base.user_index().dom().union(user_ids(users));
    vstd::set_lib::lemma_len_union(base.album_index().dom(), album_ids(albums));
    vstd::set_lib::lemma_len_union(base.user_index().dom(), user_ids(users));
    vstd::set_lib::lemma_len_subset(store.album_index().dom(), all_albums);
    vstd::set_lib::lemma_len_subset(store.user_index().dom(), all_users);
}

/// Every edge of a store is an edge of that store.
pub proof fn lemma_linked_from_itself(base: Data, albums: Seq<Album>, users: Seq<User>)
    ensures
        base.linked_from(base, albums, users),
{
    reveal(Data::linked_from);
}

/// Where every edge of a store is an old one or joins one of each list, the
/// same holds once another such edge has been inserted.
pub proof fn lemma_linked_from_grows(
    pre: Data,
    post: Data,
    base: Data,
    albums: Seq<Album>,
    users: Seq<User>,
    album: Album,
    user: User,
)
    requires
        pre.wf(),
        pre.arena().len() + pre.missing(album, user) <= u32::MAX,
        pre.links(album, user, post),
        pre.linked_from(base, albums, users),
        albums.contains(album),
        users.contains(user),
    ensures
        post.linked_from(base, albums, users),
{
    reveal(Data::linked_from);
    let a = pre.album_slot(album);
    let u = pre.user_slot(album, user);
    assert forall|e: (u32, u32)| #[trigger] post.edges().contains(e) implies base.edges().contains(
        e,
    ) || post.joins_some(e, albums, users) by {
        if e == (a, u) {
            let i = choose|i: int| 0 <= i < albums.len() && albums[i] == album;
            let j = choose|j: int| 0 <= j < users.len() && users[j] == user;
            assert(post.knows_album(albums[i]) && post.knows_user(users[j]));
        } else {
            assert(pre.edges().contains(e));
            if !base.edges().contains(e) {
                assert(pre.joins_some(e, albums, users));
                let (i, j) = choose|i: int, j: int|
                    {
                        &&& 0 <= i < albums.len()
                        &&& 0 <= j < users.len()
                        &&& #[trigger] pre.knows_album(albums[i])
                        &&& #[trigger] pre.knows_user(users[j])
                        &&& e == (
                            pre.album_index()[albums[i].id.0],
                            pre.user_index()[users[j].id.0],
                        )
                    };
                assert(post.knows_album(albums[i]) && post.knows_user(users[j]));
            }
        }
    }
}

/// Where a store holds the edges of an older store and those between a member
/// and the first `p` picked collections, and one more such edge comes in, it
/// holds the edges of the older store and those to the first `p + 1`.
pub proof fn lemma_one_more_joined(
    before: Data,
    after: Data,
    start: Data,
    albums: Seq<Album>,
    picks: Seq<usize>,
    p: int,
    user: User,
)
    requires
        0 <= p < picks.len(),
        before.grown_into(after),
        forall|q: int| 0 <= q < p ==> before.joins(albums[#[trigger] picks[q] as int], user),
        before.edges() == start.edges().union(before.edges_to(albums, picks.take(p), user)),
        after.joins(albums[picks[p] as int], user),
        after.edges() == before.edges().insert(after.edge_of(albums[picks[p] as int], user)),
    ensures
        forall|q: int| 0 <= q <= p ==> after.joins(albums[#[trigger] picks[q] as int], user),
        after.edges() == start.edges().union(after.edges_to(albums, picks.take(p + 1), user)),
{
    let earlier = picks.take(p);
    let now = picks.take(p + 1);
    assert forall|q: int| 0 <= q < p implies after.edge_of(albums[#[trigger] picks[q] as int], user)
        == before.edge_of(albums[picks[q] as int], user) && after.joins(
        albums[picks[q] as int],
        user,
    ) by {
        assert(before.joins(albums[picks[q] as int], user));
    }
    assert forall|e: (u32, u32)| after.edges().contains(e) <==> start.edges().union(
        after.edges_to(albums, now, user),
    ).contains(e) by {
        if after.edges().contains(e) {
            if e == after.edge_of(albums[picks[p] as int], user) {
                assert(now[p] == picks[p]);
            } else {
                assert(before.edges().contains(e));
                if !start.edges().contains(e) {
                    assert(before.edges_to(albums, earlier, user).contains(e));
                    let q = choose|q: int|
                        0 <= q < earlier.len() && e == before.edge_of(
                            albums[#[trigger] earlier[q] as int],
                            user,
                        );
                    assert(earlier[q] == picks[q]);
                    assert(now[q] == picks[q]);
                    assert(after.edges_to(albums, now, user).contains(e));
                }
            }
        }
        if start.edges().contains(e) {
            assert(before.edges().contains(e));
        }
        if after.edges_to(albums, now, user).contains(e) {
            let q = choose|q: int|
                0 <= q < now.len() && e == after.edge_of(albums[#[trigger] now[q] as int], user);
            assert(now[q] == picks[q]);
            if q < p {
                assert(earlier[q] == picks[q]);
                assert(before.edges_to(albums, earlier, user).contains(e));
                assert(before.edges().contains(e));
            }
        }
    }
    assert(after.edges() =~= start.edges().union(after.edges_to(albums, now, user)));
}

} // verus!
