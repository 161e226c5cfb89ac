use super::entity::{Entity, EntityId};
use rayon::iter::{IntoParallelRefMutIterator, ParallelIterator};
use vstd::prelude::*;

verus! {

/// The arena: every entity in the order in which it was added. An entity keeps
/// its index for as long as the arena lives.
#[derive(Debug)]
pub struct Entities(pub(crate) Vec<Entity>);

impl View for Entities {
    type V = Seq<Entity>;

    closed spec fn view(&self) -> Seq<Entity> {
        self.0@
    }
}

/// Whether the two arenas hold, place for place, entities that are alike.
pub open spec fn all_alike(first: Seq<Entity>, second: Seq<Entity>) -> bool {
    &&& first.len() == second.len()
    &&& forall|i: int| 0 <= i < first.len() ==> (#[trigger] first[i]).alike(second[i])
}

impl Clone for Entities {
    fn clone(&self) -> (r: Entities)
        ensures
            all_alike(r@, self@),
    {
        let mut entities: Vec<Entity> = Vec::new();
        let mut i: usize = 0;
        while i < self.0.len()
            invariant
                i <= self.0@.len(),
                entities@.len() == i,
                forall|k: int| 0 <= k < i ==> (#[trigger] entities@[k]).alike(self.0@[k]),
            decreases self.0@.len() - i,
        {
            entities.push(self.0[i].clone());
            i += 1;
        }
        Entities(entities)
    }

    fn clone_from(&mut self, source: &Self)
        ensures
            all_alike(final(self)@, source@),
    {
        *self = source.clone();
    }
}

impl Default for Entities {
    fn default() -> (r: Entities)
        ensures
            r@ == Seq::<Entity>::empty(),
    {
        Entities::new()
    }
}

/// The number of unordered pairs among `n` things.
pub open spec fn pair_count(n: nat) -> nat {
    (n * (n - 1) / 2) as nat
}

/// The pairs `(i, j)` with `i < j < n` for the one `i`, by rising `j`.
pub open spec fn pairs_from(i: int, n: int) -> Seq<(int, int)> {
    Seq::new((n - i - 1) as nat, |k: int| (i, i + 1 + k))
}

/// The pairs `(i, j)` with `from <= i < j < n`, by rising `i`, then by rising `j`.
pub open spec fn pairs_after(from: int, n: int) -> Seq<(int, int)>
    decreases n - from,
{
    if from >= n {
        Seq::empty()
    } else {
        pairs_from(from, n) + pairs_after(from + 1, n)
    }
}

/// The order in which [`Entities::combinations`] visits the pairs of an arena
/// of `n` entities.
pub open spec fn unique_pairs(n: nat) -> Seq<(int, int)> {
    pairs_after(0, n as int)
}

impl Entities {
    /// An arena without entities.
    pub fn new() -> (r: Entities)
        ensures
            r@ == Seq::<Entity>::empty(),
    {
        Entities(Vec::new())
    }

    /// Appends `entity` and returns the index that names it from now on.
    pub fn add(&mut self, entity: Entity) -> (id: EntityId)
        requires
            old(self)@.len() < u32::MAX,
        ensures
            final(self)@ == old(self)@.push(entity),
            id.0 == old(self)@.len(),
    {
        self.0.push(entity);
        EntityId((self.0.len() - 1) as u32)
    }

    /// The number of entities.
    pub fn len(&self) -> (r: usize)
        ensures
            r == self@.len(),
    {
        self.0.len()
    }

    /// All entities in the order of their indices, for reading.
    pub fn as_slice(&self) -> (r: &[Entity])
        ensures
            r@ == self@,
    {
        self.0.as_slice()
    }

    /// The entity that `id` names.
    pub fn get(&self, id: EntityId) -> (r: &Entity)
        requires
            id.0 < self@.len(),
        ensures
            *r == self@[id.0 as int],
    {
        &self.0[id.0 as usize]
    }

    /// The entity at the place `i`.
    pub(crate) fn at(&self, i: usize) -> (r: &Entity)
        requires
            i < self@.len(),
        ensures
            *r == self@[i as int],
    {
        &self.0[i]
    }

    /// The entity at the place `i`, for changing it in place.
    pub(crate) fn at_mut(&mut self, i: usize) -> (r: &mut Entity)
        requires
            i < old(self)@.len(),
        ensures
            *r == old(self)@[i as int],
            final(self)@ == old(self)@.update(i as int, *final(r)),
    {
        &mut self.0[i]
    }

    /// The entity that `id` names, for changing it in place.
    pub fn get_mut(&mut self, id: EntityId) -> (r: &mut Entity)
        requires
            id.0 < old(self)@.len(),
        ensures
            *r == old(self)@[id.0 as int],
            final(self)@ == old(self)@.update(id.0 as int, *final(r)),
    {
        &mut self.0[id.0 as usize]
    }

    /// Replaces the entity that `id` names.
    pub fn set(&mut self, id: EntityId, entity: Entity)
        requires
            id.0 < old(self)@.len(),
        ensures
            final(self)@ == old(self)@.update(id.0 as int, entity),
    {
        self.0[id.0 as usize] = entity;
    }

    /// Calls `f` once on every unordered pair of distinct entities, in the order
    /// of [`unique_pairs`].
    pub fn combinations<F: Fn(&mut Entity, &mut Entity)>(&mut self, f: F)
        requires
            forall|a: &mut Entity, b: &mut Entity| call_requires(f, (a, b)),
        ensures
            final(self)@.len() == old(self)@.len(),
            exists|states: Seq<Seq<Entity>>|
                {
                    let order = unique_pairs(old(self)@.len());
                    &&& #[trigger] states.len() == order.len() + 1
                    &&& states[0] == old(self)@
                    &&& states[order.len() as int] == final(self)@
                    &&& forall|k: int|
                        0 <= k <= order.len() ==> (#[trigger] states[k]).len() == old(self)@.len()
                    &&& forall|k: int|
                        0 <= k < order.len() ==> exists|a: &mut Entity, b: &mut Entity|
                            {
                                &&& *a == (#[trigger] states[k])[order[k].0]
                                &&& *b == states[k][order[k].1]
                                &&& #[trigger] call_ensures(f, (a, b), ())
                                &&& states[k + 1] == states[k].update(order[k].0, *final(a)).update(
                                    order[k].1,
                                    *final(b),
                                )
                            }
                },
    {
        let n = self.0.len();
        let ghost start = self@;
        let ghost mut states: Seq<Seq<Entity>> = seq![self@];
        let ghost mut done: Seq<(int, int)> = Seq::empty();
        let mut i: usize = 0;
        while i < n
            invariant
                n == self@.len(),
                n == start.len(),
                i <= n,
                forall|a: &mut Entity, b: &mut Entity| call_requires(f, (a, b)),
                done + pairs_after(i as int, n as int) == unique_pairs(n as nat),
                states.len() == done.len() + 1,
                states[0] == start,
                states[done.len() as int] == self@,
                forall|k: int| 0 <= k <= done.len() ==> (#[trigger] states[k]).len() == n,
                forall|k: int|
                    0 <= k < done.len() ==> exists|a: &mut Entity, b: &mut Entity|
                        {
                            &&& *a == (#[trigger] states[k])[done[k].0]
                            &&& *b == states[k][done[k].1]
                            &&& #[trigger] call_ensures(f, (a, b), ())
                            &&& states[k + 1] == states[k].update(done[k].0, *final(a)).update(
                                done[k].1,
                                *final(b),
                            )
                        },
            decreases n - i,
        {
            let ghost row_start = done;
            let mut j: usize = i + 1;
            while j < n
                invariant
                    n == self@.len(),
                    i < j <= n,
                    forall|a: &mut Entity, b: &mut Entity| call_requires(f, (a, b)),
                    done == row_start + pairs_from(i as int, n as int).subrange(0, j - i - 1),
                    states.len() == done.len() + 1,
                    states[0] == start,
                    states[done.len() as int] == self@,
                    forall|k: int| 0 <= k <= done.len() ==> (#[trigger] states[k]).len() == n,
                    forall|k: int|
                        0 <= k < done.len() ==> exists|a: &mut Entity, b: &mut Entity|
                            {
                                &&& *a == (#[trigger] states[k])[done[k].0]
                                &&& *b == states[k][done[k].1]
                                &&& #[trigger] call_ensures(f, (a, b), ())
                                &&& states[k + 1] == states[k].update(
                                    done[k].0,
                                    *final(a),
                                ).update(done[k].1, *final(b))
                            },
                decreases n - j,
            {
                let ghost before = self@;
                let ghost old_states = states;
                let ghost old_done = done;
                let (a, b) = self.pair_at(i, j);
                f(a, b);
                proof {
                    done = done.push((i as int, j as int));
                    states = states.push(self@);
                    assert(pairs_from(i as int, n as int).subrange(0, j - i) =~= pairs_from(
                        i as int,
                        n as int,
                    ).subrange(0, j - i - 1).push((i as int, j as int)));
                    assert(done =~= row_start + pairs_from(i as int, n as int).subrange(
                        0,
                        j + 1 - i - 1,
                    ));
                    assert forall|k: int| 0 <= k < done.len() implies exists|
                        a: &mut Entity,
                        b: &mut Entity,
                    |
                        {
                            &&& *a == (#[trigger] states[k])[done[k].0]
                            &&& *b == states[k][done[k].1]
                            &&& #[trigger] call_ensures(f, (a, b), ())
                            &&& states[k + 1] == states[k].update(done[k].0, *final(a)).update(
                                done[k].1,
                                *final(b),
                            )
                        } by {
                        if k < old_done.len() {
                            assert(states[k] == old_states[k]);
                            assert(states[k + 1] == old_states[k + 1]);
                            assert(done[k] == old_done[k]);
                        } else {
                            assert(states[k] == before);
                            assert(states[k + 1] == self@);
                        }
                    }
                }
                j += 1;
            }
            proof {
                assert(pairs_from(i as int, n as int).subrange(0, n - i - 1) =~= pairs_from(
                    i as int,
                    n as int,
                ));
                assert(done + pairs_after(i as int + 1, n as int) =~= row_start + pairs_after(
                    i as int,
                    n as int,
                ));
            }
            i += 1;
        }
        proof {
            assert(done =~= unique_pairs(n as nat));
        }
    }

    /// Calls `f` once on every entity; the calls may run on several threads.
    ///
    /// This is `for_each` on rayon's `par_iter_mut`: it applies the function to
    /// each item of the vector exactly once and to nothing else.
    #[verifier::external_body]
    pub fn par_for_each<F: Fn(&mut Entity) + Sync + Send>(&mut self, f: F)
        requires
            forall|e: &mut Entity| call_requires(f, (e,)),
        ensures
            final(self)@.len() == old(self)@.len(),
            forall|i: int|
                0 <= i < old(self)@.len() ==> exists|e: &mut Entity|
                    {
                        &&& *e == #[trigger] old(self)@[i]
                        &&& #[trigger] call_ensures(f, (e,), ())
                        &&& final(self)@[i] == *final(e)
                    },
    {
        self.0.par_iter_mut().for_each(f);
    }

    /// Two distinct entities at once, both for changing in place.
    pub fn index_pair(&mut self, i: EntityId, j: EntityId) -> (r: (&mut Entity, &mut Entity))
        requires
            i.0 != j.0,
            i.0 < old(self)@.len(),
            j.0 < old(self)@.len(),
        ensures
            *r.0 == old(self)@[i.0 as int],
            *r.1 == old(self)@[j.0 as int],
            final(self)@ == old(self)@.update(i.0 as int, *final(r.0)).update(
                j.0 as int,
                *final(r.1),
            ),
    {
        self.pair_at(i.0 as usize, j.0 as usize)
    }

    /// The entities at two distinct places at once. The storage is split behind
    /// the earlier of the two, so that each comes from a part of its own.
    fn pair_at(&mut self, i: usize, j: usize) -> (r: (&mut Entity, &mut Entity))
        requires
            i != j,
            i < old(self)@.len(),
            j < old(self)@.len(),
        ensures
            *r.0 == old(self)@[i as int],
            *r.1 == old(self)@[j as int],
            final(self)@ == old(self)@.update(i as int, *final(r.0)).update(j as int, *final(r.1)),
    {
        if i < j {
            let (left, right) = self.0.as_mut_slice().split_at_mut(i + 1);
            (&mut left[i], &mut right[j - i - 1])
        } else {
            let (left, right) = self.0.as_mut_slice().split_at_mut(j + 1);
            (&mut right[i - j - 1], &mut left[j])
        }
    }
}

/// The position of the pair `(i, j)` in [`pairs_after`]`(from, n)`.
pub open spec fn pair_rank(from: int, n: int, i: int, j: int) -> int
    decreases i - from,
{
    if i <= from {
        j - i - 1
    } else {
        (n - from - 1) + pair_rank(from + 1, n, i, j)
    }
}

/// Every entry of [`pairs_after`] is a pair of two indices in rising order,
/// and stands at its [`pair_rank`].
pub proof fn lemma_pairs_in_range(from: int, n: int, k: int)
    requires
        0 <= from,
        0 <= k < pairs_after(from, n).len(),
    ensures
        from <= pairs_after(from, n)[k].0 < pairs_after(from, n)[k].1 < n,
        pair_rank(from, n, pairs_after(from, n)[k].0, pairs_after(from, n)[k].1) == k,
    decreases n - from,
{
    if from < n {
        if k >= pairs_from(from, n).len() {
            lemma_pairs_in_range(from + 1, n, k - pairs_from(from, n).len());
        }
    }
}

/// Every pair of two indices in rising order has its entry in [`pairs_after`].
pub proof fn lemma_pair_present(from: int, n: int, i: int, j: int)
    requires
        0 <= from <= i < j < n,
    ensures
        0 <= pair_rank(from, n, i, j) < pairs_after(from, n).len(),
        pairs_after(from, n)[pair_rank(from, n, i, j)] == (i, j),
    decreases i - from,
{
    if i > from {
        lemma_pair_present(from + 1, n, i, j);
    }
}

/// The number of entries of [`pairs_after`].
pub proof fn lemma_pairs_len(from: int, n: int)
    requires
        0 <= from <= n,
    ensures
        pairs_after(from, n).len() == (n - from) * (n - from - 1) / 2,
    decreases n - from,
{
    if from < n {
        lemma_pairs_len(from + 1, n);
        let m = n - from;
        assert(m * (m - 1) / 2 == (m - 1) + (m - 1) * (m - 2) / 2) by (nonlinear_arith)
            requires
                m >= 1,
        ;
    } else {
        assert((n - from) * (n - from - 1) / 2 == 0) by (nonlinear_arith)
            requires
                n - from == 0,
        ;
    }
}

/// [`Entities::combinations`] visits `n * (n - 1) / 2` pairs, each of them two
/// distinct indices of the arena in rising order, none of them twice, and every
/// unordered pair of distinct indices among them.
pub proof fn lemma_unique_pair_coverage(n: nat)
    ensures
        unique_pairs(n).len() == pair_count(n),
        forall|k: int|
            0 <= k < unique_pairs(n).len() ==> 0 <= (#[trigger] unique_pairs(n)[k]).0
                < unique_pairs(n)[k].1 < n,
        unique_pairs(n).no_duplicates(),
        forall|i: int, j: int|
            0 <= i < j < n ==> #[trigger] unique_pairs(n).contains((i, j)),
{
    lemma_pairs_len(0, n as int);
    assert forall|k: int| 0 <= k < unique_pairs(n).len() implies 0 <= (#[trigger] unique_pairs(
        n,
    )[k]).0 < unique_pairs(n)[k].1 < n by {
        lemma_pairs_in_range(0, n as int, k);
    }
    assert forall|k1: int, k2: int|
        0 <= k1 < unique_pairs(n).len() && 0 <= k2 < unique_pairs(n).len() && k1 != k2 implies
        unique_pairs(n)[k1] != unique_pairs(n)[k2] by {
        lemma_pairs_in_range(0, n as int, k1);
        lemma_pairs_in_range(0, n as int, k2);
    }
    assert forall|i: int, j: int| 0 <= i < j < n implies #[trigger] unique_pairs(n).contains(
        (i, j),
    ) by {
        lemma_pair_present(0, n as int, i, j);
    }
}

} // verus!
