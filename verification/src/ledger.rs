//! What a run of wagers does to a pool, and the accounting law it obeys.

use crate::outcome::Outcome;
use crate::pricing::{
    funded, lemma_pool_stays_funded, lemma_released_shares, pool_after, released_shares, Reserves,
};
use vstd::prelude::*;

verus! {

/// A wager: the outcome it is placed on and the money paid for it.
pub type Wager = (Outcome, nat);

/// The reserves after the wagers were made one after another, first to last.
pub open spec fn pool_after_all(pool: Reserves, wagers: Seq<Wager>) -> Reserves
    decreases wagers.len(),
{
    if wagers.len() == 0 {
        pool
    } else {
        let last = wagers.last();
        pool_after(pool_after_all(pool, wagers.drop_last()), last.0, last.1)
    }
}

/// All the money paid for the wagers.
pub open spec fn paid_in(wagers: Seq<Wager>) -> nat
    decreases wagers.len(),
{
    if wagers.len() == 0 {
        0
    } else {
        paid_in(wagers.drop_last()) + wagers.last().1
    }
}

/// All the shares of `outcome` that the wagers released to traders.
pub open spec fn issued(pool: Reserves, wagers: Seq<Wager>, outcome: Outcome) -> nat
    decreases wagers.len(),
{
    if wagers.len() == 0 {
        0
    } else {
        let last = wagers.last();
        let before = pool_after_all(pool, wagers.drop_last());
        issued(pool, wagers.drop_last(), outcome) + if last.0 == outcome {
            released_shares(before, last.0, last.1)
        } else {
            0
        }
    }
}

/// No run of wagers creates money. Starting from a funded pool, the shares of
/// an outcome still in the pool and those released to traders add up to the
/// initial reserve of that outcome plus all the money paid in. As the pool is
/// never emptied, the shares released stay below that sum.
pub proof fn lemma_conservation(pool: Reserves, wagers: Seq<Wager>, outcome: Outcome)
    requires
        funded(pool),
    ensures
        funded(pool_after_all(pool, wagers)),
        pool_after_all(pool, wagers).spec_get(outcome) + issued(pool, wagers, outcome)
            == pool.spec_get(outcome) + paid_in(wagers),
        issued(pool, wagers, outcome) < pool.spec_get(outcome) + paid_in(wagers),
    decreases wagers.len(),
{
    if wagers.len() > 0 {
        let last = wagers.last();
        let before = pool_after_all(pool, wagers.drop_last());
        lemma_conservation(pool, wagers.drop_last(), outcome);
        lemma_pool_stays_funded(before, last.0, last.1);
        lemma_released_shares(before, last.0, last.1);
    }
}

} // verus!
