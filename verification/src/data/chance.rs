//! The random draws that the generator makes.

use super::entity::User;
use rand::seq::SliceRandom;
use rand_distr::num_traits::ToPrimitive;
use rand_distr::Distribution;
use vstd::prelude::*;

verus! {

/// `rand::random`: some number. Nothing is known of it.
#[verifier::external_body]
pub(crate) fn random_id() -> u64 {
    rand::random()
}

/// A draw from `rand_distr::Poisson` with the given mean, which must be
/// positive. Nothing is known of the count that comes back.
#[verifier::external_body]
pub(crate) fn poisson(mean: u32) -> u64
    requires
        mean > 0,
{
    let lambda = mean.to_f64().unwrap();
    let count = rand_distr::Poisson::new(lambda).unwrap().sample(&mut rand::thread_rng());
    count as u64
}

/// `SliceRandom::choose`: one of the items, or nothing where there is none.
#[verifier::external_body]
pub(crate) fn pick(items: &Vec<User>) -> (r: Option<&User>)
    ensures
        items@.len() == 0 ==> r.is_none(),
        items@.len() > 0 ==> r.is_some() && items@.contains(*r.unwrap()),
{
    items.choose(&mut rand::thread_rng())
}

/// `SliceRandom::choose_multiple`: `amount` items of the pool, or all of them
/// where it holds fewer, none of its places taken twice, in no particular
/// order.
#[verifier::external_body]
pub(crate) fn pick_some(pool: &Vec<usize>, amount: usize) -> (r: Vec<usize>)
    ensures
        amount <= pool@.len() ==> r@.len() == amount,
        amount > pool@.len() ==> r@.len() == pool@.len(),
        exists|places: Seq<int>|
            #[trigger] places.len() == r@.len() && places.no_duplicates() && forall|k: int|
                0 <= k < r@.len() ==> 0 <= #[trigger] places[k] < pool@.len() && r@[k]
                    == pool@[places[k]],
{
    pool.choose_multiple(&mut rand::thread_rng(), amount).copied().collect()
}

} // verus!
