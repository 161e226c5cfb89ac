//! The entities, the arena that owns them, the graph store and the generator
//! of random graphs.

mod arena;
mod chance;
mod entity;
mod generate;
mod links;
mod store;

pub use self::arena::{
    all_alike, lemma_pair_present, lemma_pairs_in_range, lemma_pairs_len,
    lemma_unique_pair_coverage, pair_count, pair_rank, pairs_after, pairs_from, unique_pairs,
    Entities,
};
pub use self::entity::{
    gentle, near, on_canvas, pairs_of, within_window, Album, AlbumId, Drag, Entity, EntityData,
    EntityId, Relationship, Type, User, UserId, CANVAS_HEIGHT, CANVAS_WIDTH, LAUNCH_SPEED,
    WINDOW,
};
pub use self::generate::{
    album_address, album_ids, decimal, lemma_linked_from_grows, lemma_linked_from_itself,
    lemma_one_more_joined, lemma_room, lemma_within_bound, places, random_albums, random_users,
    taken, user_address, user_ids, PRIMARY_MEAN, SECONDARY_MEAN,
};
pub use self::links::{by_places, id_map, id_set, pair_set};
pub use self::store::{
    adjacent, ascending, bipartite, in_order, indexed, lemma_by_places_is_total, lemma_in_order,
    lemma_same_pairs, lemma_copy_keeps_wf, lemma_edges_bipartite,
    lemma_grown_into_transitive, lemma_joins_stay, lemma_known_has_edge, lemma_link_twice,
    lemma_links_keep_ids, lemma_links_keep_wf, lemma_newcomer_is_near,
    lemma_same_graph_has_grown, lemma_same_graph_keeps_bipartite, lemma_same_graph_keeps_wf,
    linked, placed, Data,
};
