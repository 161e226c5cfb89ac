//! What passes between the store and discovery: requests to visit an address,
//! and the responses that come back.

use crate::data::{
    lemma_grown_into_transitive, lemma_joins_stay, lemma_linked_from_itself,
    lemma_same_graph_has_grown, lemma_within_bound, Album, Data, Entity, User,
};
use vstd::prelude::*;

verus! {

/// A request to discovery.
#[derive(Debug)]
pub enum Request {
    User { url: String },
    Album { url: String },
    Artist { url: String },
}

/// What discovery has found.
#[derive(Debug)]
pub enum Response {
    /// The member has been visited.
    User(User),
    /// The collection has been visited.
    Album(Album),
    /// Some of the members of a collection.
    Fans(Album, Vec<User>),
    /// Some of the collections of a member.
    Collection(User, Vec<Album>),
    /// The address of a collection that an artist has released.
    Release(String),
}

impl Response {
    /// How many entities the response can bring into the arena at most.
    pub open spec fn weight(self) -> nat {
        match self {
            Response::Fans(_, users) => 1 + users@.len(),
            Response::Collection(_, albums) => 1 + albums@.len(),
            _ => 0,
        }
    }
}

/// Takes a response into the store. Returns what is to be asked of discovery
/// in turn.
///
/// - Members of a collection, or collections of a member: the edge between
///   each of them and the one they belong to is inserted.
/// - A release: its collection is to be visited.
/// - A visited collection or member: it is marked where the store knows it.
pub fn absorb(data: &mut Data, response: Response) -> (request: Option<Request>)
    requires
        old(data).wf(),
        old(data).arena().len() + response.weight() <= u32::MAX,
    ensures
        final(data).wf(),
        old(data).grown_into(*final(data)),
        final(data).arena().len() <= old(data).arena().len() + response.weight(),
        match response {
            Response::Fans(album, users) => {
                &&& request is None
                &&& final(data).within(*old(data), seq![album], users@)
                &&& final(data).linked_from(*old(data), seq![album], users@)
                &&& forall|k: int|
                    0 <= k < users@.len() ==> final(data).joins(album, #[trigger] users@[k])
            },
            Response::Collection(user, albums) => {
                &&& request is None
                &&& final(data).within(*old(data), albums@, seq![user])
                &&& final(data).linked_from(*old(data), albums@, seq![user])
                &&& forall|k: int|
                    0 <= k < albums@.len() ==> final(data).joins(#[trigger] albums@[k], user)
            },
            Response::Release(url) => {
                &&& request == Some(Request::Album { url })
                &&& *final(data) == *old(data)
            },
            Response::Album(album) => {
                &&& request is None
                &&& old(data).same_graph(*final(data))
                &&& final(data).arena() == (if old(data).knows_album(album) {
                    let at = old(data).album_index()[album.id.0] as int;
                    old(data).arena().update(
                        at,
                        Entity { is_scraped: true, ..old(data).arena()[at] },
                    )
                } else {
                    old(data).arena()
                })
            },
            Response::User(user) => {
                &&& request is None
                &&& old(data).same_graph(*final(data))
                &&& final(data).arena() == (if old(data).knows_user(user) {
                    let at = old(data).user_index()[user.id.0] as int;
                    old(data).arena().update(
                        at,
                        Entity { is_scraped: true, ..old(data).arena()[at] },
                    )
                } else {
                    old(data).arena()
                })
            },
        },
{
    let ghost base = *data;
    match response {
        Response::Fans(album, users) => {
            let ghost albums = seq![album];
            assert(albums[0] == album);
            proof {
                lemma_linked_from_itself(base, albums, users@);
            }
            let mut k: usize = 0;
            while k < users.len()
                invariant
                    data.wf(),
                    base.wf(),
                    base.arena().len() + albums.len() + users@.len() <= u32::MAX,
                    albums == seq![album],
                    albums.contains(album),
                    data.within(base, albums, users@),
                    data.linked_from(base, albums, users@),
                    base.grown_into(*data),
                    k <= users@.len(),
                    forall|j: int| 0 <= j < k ==> data.joins(album, #[trigger] users@[j]),
                decreases users@.len() - k,
            {
                let ghost before = *data;
                data.link_within(&album, &users[k], Ghost(base), Ghost(albums), Ghost(users@));
                proof {
                    lemma_grown_into_transitive(base, before, *data);
                    assert forall|j: int| 0 <= j < k implies data.joins(
                        album,
                        #[trigger] users@[j],
                    ) by {
                        lemma_joins_stay(before, *data, album, users@[j]);
                    }
                }
                k += 1;
            }
            proof {
                lemma_within_bound(*data, base, albums, users@);
            }
            None
        },
        Response::Collection(user, albums) => {
            let ghost users = seq![user];
            assert(users[0] == user);
            proof {
                lemma_linked_from_itself(base, albums@, users);
            }
            let mut k: usize = 0;
            while k < albums.len()
                invariant
                    data.wf(),
                    base.wf(),
                    base.arena().len() + albums@.len() + users.len() <= u32::MAX,
                    users == seq![user],
                    users.contains(user),
                    data.within(base, albums@, users),
                    data.linked_from(base, albums@, users),
                    base.grown_into(*data),
                    k <= albums@.len(),
                    forall|j: int| 0 <= j < k ==> data.joins(#[trigger] albums@[j], user),
                decreases albums@.len() - k,
            {
                let ghost before = *data;
                data.link_within(&albums[k], &user, Ghost(base), Ghost(albums@), Ghost(users));
                proof {
                    lemma_grown_into_transitive(base, before, *data);
                    assert forall|j: int| 0 <= j < k implies data.joins(
                        #[trigger] albums@[j],
                        user,
                    ) by {
                        lemma_joins_stay(before, *data, albums@[j], user);
                    }
                }
                k += 1;
            }
            proof {
                lemma_within_bound(*data, base, albums@, users);
            }
            None
        },
        Response::Release(url) => Some(Request::Album { url }),
        Response::Album(album) => {
            if let Some(id) = data.album_entity(album.id) {
                data.mark_scraped(id);
            }
            proof {
                lemma_same_graph_has_grown(base, *data);
            }
            None
        },
        Response::User(user) => {
            if let Some(id) = data.user_entity(user.id) {
                data.mark_scraped(id);
            }
            proof {
                lemma_same_graph_has_grown(base, *data);
            }
            None
        },
    }
}

} // verus!
