//! The constant-product pricing rule, stated over unbounded share counts.
//!
//! A wager of `money` first grows both reserves by `money`. The side that was
//! bought is then cut back to the least whole number of shares whose product
//! with the other side is no smaller than the product before the wager. The
//! shares cut away are what the trader receives.
//!
//! Rounding up is defined by `ceil_div`, whose body is opaque: proofs work
//! from what the lemmas below say of it, that it is the least whole number
//! whose multiple covers the amount that is divided, and `reveal` it only
//! where the division itself is at stake.

use crate::outcome::Outcome;
use crate::paired::YesNoValues;
use vstd::arithmetic::div_mod::{lemma_fundamental_div_mod, lemma_fundamental_div_mod_converse};
use vstd::arithmetic::mul::lemma_mul_inequality;
use vstd::prelude::*;

verus! {

/// The market maker's reserve of shares of each outcome, as natural numbers.
pub type Reserves = YesNoValues<nat>;

impl View for YesNoValues<u64> {
    type V = Reserves;

    open spec fn view(&self) -> Reserves {
        YesNoValues { yes: self.yes as nat, no: self.no as nat }
    }
}

/// `amount / divisor`, rounded up to a whole number.
#[verifier::opaque]
pub open spec fn ceil_div(amount: nat, divisor: nat) -> nat
    recommends
        divisor > 0,
{
    if amount % divisor == 0 {
        amount / divisor
    } else {
        amount / divisor + 1
    }
}

/// Both reserves hold at least one share.
pub open spec fn funded(pool: Reserves) -> bool {
    pool.yes > 0 && pool.no > 0
}

/// The quantity that every trade restores: the product of the two reserves.
pub open spec fn product(pool: Reserves) -> nat {
    pool.yes * pool.no
}

/// The reserve of the side that was not bought, once the wager is added.
pub open spec fn divisor_for(pool: Reserves, outcome: Outcome, money: nat) -> nat {
    pool.spec_get(outcome.spec_complement()) + money
}

/// Shares of `outcome` that stay in the pool after a wager of `money` on it.
pub open spec fn retained_shares(pool: Reserves, outcome: Outcome, money: nat) -> nat {
    ceil_div(product(pool), divisor_for(pool, outcome, money))
}

/// Shares of `outcome` handed to the trader for a wager of `money` on it.
pub open spec fn released_shares(pool: Reserves, outcome: Outcome, money: nat) -> nat {
    (pool.spec_get(outcome) + money - retained_shares(pool, outcome, money)) as nat
}

/// The reserves after a wager of `money` on `outcome`.
pub open spec fn pool_after(pool: Reserves, outcome: Outcome, money: nat) -> Reserves {
    (YesNoValues { yes: pool.yes + money, no: pool.no + money }).spec_set(
        outcome,
        retained_shares(pool, outcome, money),
    )
}

/// Divides `amount` by `divisor` and rounds the quotient up.
pub fn div_round_up(amount: u128, divisor: u128) -> (quotient: u128)
    requires
        divisor > 0,
    ensures
        quotient == ceil_div(amount as nat, divisor as nat),
{
    let whole: u128 = amount / divisor;
    let rest: u128 = amount % divisor;
    proof {
        reveal(ceil_div);
    }
    if rest == 0 {
        whole
    } else {
        proof {
            lemma_fundamental_div_mod(amount as int, divisor as int);
            assert(whole <= divisor * whole) by (nonlinear_arith)
                requires
                    divisor >= 1,
                    whole >= 0,
            ;
        }
        whole + 1
    }
}

/// `ceil_div(amount, divisor)` times `divisor` covers `amount` and overshoots
/// it by less than one `divisor`.
pub proof fn lemma_ceil_div_covers(amount: nat, divisor: nat)
    requires
        divisor > 0,
    ensures
        amount <= ceil_div(amount, divisor) * divisor < amount + divisor,
{
    let q: int = amount as int / divisor as int;
    reveal(ceil_div);
    lemma_fundamental_div_mod(amount as int, divisor as int);
    assert(q * divisor == divisor * q) by (nonlinear_arith);
    assert((q + 1) * divisor == q * divisor + divisor) by (nonlinear_arith);
}

/// No whole number below `ceil_div(amount, divisor)` covers `amount`.
pub proof fn lemma_ceil_div_is_least(amount: nat, divisor: nat, cover: nat)
    requires
        divisor > 0,
        cover * divisor >= amount,
    ensures
        ceil_div(amount, divisor) <= cover,
{
    let c: int = ceil_div(amount, divisor) as int;
    lemma_ceil_div_covers(amount, divisor);
    if cover < c {
        lemma_mul_inequality(cover as int, c - 1, divisor as int);
        assert((c - 1) * divisor == c * divisor - divisor) by (nonlinear_arith);
    }
}

/// The whole number that covers `amount` and overshoots it by less than one
/// `divisor` is `ceil_div(amount, divisor)` and no other.
pub proof fn lemma_ceil_div_unique(amount: nat, divisor: nat, cover: nat)
    requires
        divisor > 0,
        amount <= cover * divisor < amount + divisor,
    ensures
        ceil_div(amount, divisor) == cover,
{
    let c: int = ceil_div(amount, divisor) as int;
    lemma_ceil_div_is_least(amount, divisor, cover);
    lemma_ceil_div_covers(amount, divisor);
    if c < cover {
        lemma_mul_inequality(c, cover - 1, divisor as int);
        assert((cover - 1) * divisor == cover * divisor - divisor) by (nonlinear_arith);
    }
}

/// A multiple of the divisor is divided without rounding.
pub proof fn lemma_ceil_div_of_multiple(factor: nat, divisor: nat)
    requires
        divisor > 0,
    ensures
        ceil_div(factor * divisor, divisor) == factor,
{
    lemma_ceil_div_unique(factor * divisor, divisor, factor);
}

/// In a funded pool a wager leaves at least one share of the bought side in
/// the pool, and never more than were there before the wager.
pub proof fn lemma_retained_bounds(pool: Reserves, outcome: Outcome, money: nat)
    requires
        funded(pool),
    ensures
        1 <= retained_shares(pool, outcome, money) <= pool.spec_get(outcome),
{
    let own: nat = pool.spec_get(outcome);
    let other: nat = pool.spec_get(outcome.spec_complement());
    let divisor: nat = divisor_for(pool, outcome, money);
    let kept: nat = retained_shares(pool, outcome, money);
    assert(product(pool) == own * other) by (nonlinear_arith)
        requires
            product(pool) == pool.yes * pool.no,
            (own == pool.yes && other == pool.no) || (own == pool.no && other == pool.yes),
    ;
    assert(own * divisor >= own * other >= 1) by (nonlinear_arith)
        requires
            own >= 1,
            other >= 1,
            divisor >= other,
    ;
    lemma_ceil_div_is_least(product(pool), divisor, own);
    lemma_ceil_div_covers(product(pool), divisor);
    assert(kept >= 1) by (nonlinear_arith)
        requires
            kept * divisor >= 1,
            divisor >= 1,
    ;
}

/// The shares that stay in the pool are the one whole number whose product
/// with the grown reserve of the other side reaches the old product and
/// overshoots it by less than that reserve.
pub proof fn lemma_retained_unique(pool: Reserves, outcome: Outcome, money: nat, kept: nat)
    requires
        funded(pool),
        product(pool) <= kept * divisor_for(pool, outcome, money) < product(pool) + divisor_for(
            pool,
            outcome,
            money,
        ),
    ensures
        retained_shares(pool, outcome, money) == kept,
        released_shares(pool, outcome, money) == pool.spec_get(outcome) + money - kept,
{
    lemma_ceil_div_unique(product(pool), divisor_for(pool, outcome, money), kept);
    lemma_retained_bounds(pool, outcome, money);
}

/// A funded pool is still funded after any wager.
pub proof fn lemma_pool_stays_funded(pool: Reserves, outcome: Outcome, money: nat)
    requires
        funded(pool),
    ensures
        funded(pool_after(pool, outcome, money)),
{
    lemma_retained_bounds(pool, outcome, money);
}

/// What a wager adds to the bought side is split between the pool and the
/// trader, and the trader receives at least one share per unit wagered.
pub proof fn lemma_released_shares(pool: Reserves, outcome: Outcome, money: nat)
    requires
        funded(pool),
    ensures
        pool_after(pool, outcome, money).spec_get(outcome) + released_shares(pool, outcome, money)
            == pool.spec_get(outcome) + money,
        pool_after(pool, outcome, money).spec_get(outcome.spec_complement())
            == pool.spec_get(outcome.spec_complement()) + money,
        released_shares(pool, outcome, money) >= money,
{
    lemma_retained_bounds(pool, outcome, money);
}

/// A wager of nothing changes nothing and releases nothing.
pub proof fn lemma_zero_wager(pool: Reserves, outcome: Outcome)
    requires
        funded(pool),
    ensures
        pool_after(pool, outcome, 0) == pool,
        released_shares(pool, outcome, 0) == 0,
{
    let own: nat = pool.spec_get(outcome);
    let other: nat = pool.spec_get(outcome.spec_complement());
    assert(product(pool) == own * other) by (nonlinear_arith)
        requires
            product(pool) == pool.yes * pool.no,
            (own == pool.yes && other == pool.no) || (own == pool.no && other == pool.yes),
    ;
    lemma_ceil_div_of_multiple(own, other);
}

/// After a wager the product of the reserves is at least what it was before,
/// and exceeds it by less than the reserve of the side that was not bought.
pub proof fn lemma_product_never_falls(pool: Reserves, outcome: Outcome, money: nat)
    requires
        funded(pool),
    ensures
        product(pool) <= product(pool_after(pool, outcome, money)) < product(pool) + divisor_for(
            pool,
            outcome,
            money,
        ),
{
    let divisor: nat = divisor_for(pool, outcome, money);
    let kept: nat = retained_shares(pool, outcome, money);
    let after: Reserves = pool_after(pool, outcome, money);
    lemma_ceil_div_covers(product(pool), divisor);
    assert(product(after) == kept * divisor) by (nonlinear_arith)
        requires
            product(after) == after.yes * after.no,
            (after.yes == kept && after.no == divisor) || (after.no == kept && after.yes
                == divisor),
    ;
}

/// A wager restores the old product exactly where the grown reserve of the
/// other side divides it, and nowhere else: whatever the product gains, it
/// gains by rounding.
pub proof fn lemma_product_restored_exactly(pool: Reserves, outcome: Outcome, money: nat)
    requires
        funded(pool),
    ensures
        product(pool_after(pool, outcome, money)) == product(pool) <==> product(pool) % divisor_for(
            pool,
            outcome,
            money,
        ) == 0,
{
    let divisor: nat = divisor_for(pool, outcome, money);
    let kept: nat = retained_shares(pool, outcome, money);
    let after: Reserves = pool_after(pool, outcome, money);
    assert(product(after) == kept * divisor && product(after) == divisor * kept)
        by (nonlinear_arith)
        requires
            product(after) == after.yes * after.no,
            (after.yes == kept && after.no == divisor) || (after.no == kept && after.yes
                == divisor),
    ;
    if product(pool) % divisor == 0 {
        reveal(ceil_div);
        lemma_fundamental_div_mod(product(pool) as int, divisor as int);
    }
    if product(after) == product(pool) {
        lemma_fundamental_div_mod_converse(product(pool) as int, divisor as int, kept as int, 0);
    }
}

} // verus!
