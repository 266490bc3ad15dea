//! A binary market and the trades made against it.

use crate::outcome::Outcome;
use crate::paired::YesNoValues;
use crate::pricing::{
    div_round_up, funded, lemma_ceil_div_covers, lemma_released_shares, lemma_retained_bounds,
    lemma_zero_wager, pool_after, product, released_shares, retained_shares, Reserves,
};
use vstd::prelude::*;

verus! {

/// The result of one trade: the side bought and the shares issued for it.
#[derive(Debug, Clone, PartialEq, Eq, Hash, Structural)]
pub struct Bet {
    pub outcome: Outcome,
    pub shares: u64,
}

/// Why a market could not be made or a wager could not be priced.
#[derive(Debug, Clone, Copy, PartialEq, Eq, Hash, Structural)]
pub enum MarketError {
    /// One of the two reserves holds no shares.
    EmptyReserve,
    /// A reserve grown by the wager would not fit in a `u64`.
    Overflow,
}

/// An exact probability: the fraction `numerator / denominator`.
#[derive(Debug, Clone, Copy, PartialEq, Eq, Hash, Structural)]
pub struct Probability {
    pub numerator: u64,
    pub denominator: u128,
}

/// A market with two outcomes, YES and NO.
///
/// The pool is all that is needed to price a trade. Keeping the bets that
/// were made, and paying them out once the market resolves, is left to the
/// owner of the market.
#[derive(Debug, Clone)]
pub struct BinaryMarket {
    pub pool: YesNoValues<u64>,
}

impl View for BinaryMarket {
    type V = Reserves;

    open spec fn view(&self) -> Reserves {
        self.pool@
    }
}

impl BinaryMarket {
    /// The invariant of a market at rest: neither reserve is empty.
    pub open spec fn is_funded(&self) -> bool {
        funded(self@)
    }

    /// Both reserves can grow by `money` without leaving the range of `u64`.
    pub open spec fn has_room_for(&self, money: u64) -> bool {
        self.pool.yes + money <= u64::MAX && self.pool.no + money <= u64::MAX
    }

    /// Opens a market with the given reserves, both of which must hold at
    /// least one share.
    pub fn new(yes: u64, no: u64) -> (made: Result<BinaryMarket, MarketError>)
        ensures
            made is Ok <==> yes > 0 && no > 0,
            match made {
                Ok(market) => yes > 0 && no > 0 && market.pool.yes == yes && market.pool.no == no,
                Err(reason) => (yes == 0 || no == 0) && reason == MarketError::EmptyReserve,
            },
    {
        if yes == 0 || no == 0 {
            Err(MarketError::EmptyReserve)
        } else {
            Ok(BinaryMarket { pool: YesNoValues::new(yes, no) })
        }
    }

    /// Prices a wager of `money` on `outcome` without touching the market.
    ///
    /// Returns the pool as it would stand after the trade, and the bet. The
    /// wager is added to both reserves; the reserve of `outcome` is then cut
    /// back to the fewest shares that restore the product of the reserves, and
    /// the shares cut away make up the bet. Rounding is in the pool's favour.
    ///
    /// The product is taken in 128 bits and the division is exact, so the
    /// result is right for every pool that fits in `u64`.
    ///
    /// The contract gives the result twice. First by the pricing rule of
    /// [`crate::pricing`]. Then in plain arithmetic: the other side has grown
    /// by the wager; what the wager added to the side that was bought is
    /// shared between the pool and the bet; and the shares that stay, times
    /// the grown other side, reach the old product and overshoot it by less
    /// than the grown other side. That product is written out term by term,
    /// so that each term has a factor known to the caller.
    pub fn evaluate_shares(&self, outcome: Outcome, money: u64) -> (result: (YesNoValues<u64>, Bet))
        requires
            self.is_funded(),
            self.has_room_for(money),
        ensures
            result.0@ == pool_after(self@, outcome, money as nat),
            result.1.outcome == outcome,
            result.1.shares == released_shares(self@, outcome, money as nat),
            funded(result.0@),
            money == 0 ==> result.0 == self.pool && result.1.shares == 0,
            result.0.spec_get(outcome.spec_complement())
                == self.pool.spec_get(outcome.spec_complement()) + money,
            result.0.spec_get(outcome) + result.1.shares == self.pool.spec_get(outcome) + money,
            self.pool.yes * self.pool.no
                <= result.0.spec_get(outcome) * self.pool.spec_get(outcome.spec_complement())
                    + result.0.spec_get(outcome) * money
                < self.pool.yes * self.pool.no
                    + self.pool.spec_get(outcome.spec_complement()) + money,
    {
        proof {
            assert(self.pool.yes * self.pool.no <= u64::MAX * u64::MAX) by (nonlinear_arith)
                requires
                    0 <= self.pool.yes <= u64::MAX,
                    0 <= self.pool.no <= u64::MAX,
            ;
        }
        let current_product: u128 = (self.pool.yes as u128) * (self.pool.no as u128);
        let grow = |side: &u64| -> (grown: u64)
            requires
                *side + money <= u64::MAX,
            ensures
                grown == *side + money,
            { *side + money };
        let mut new_pool: YesNoValues<u64> = self.pool.map(grow);
        let divisor: u64 = new_pool[outcome.complement()];
        let expected: u128 = div_round_up(current_product, divisor as u128);
        proof {
            lemma_retained_bounds(self@, outcome, money as nat);
            lemma_released_shares(self@, outcome, money as nat);
            if money == 0 {
                lemma_zero_wager(self@, outcome);
            }
            assert(expected == retained_shares(self@, outcome, money as nat));
            lemma_ceil_div_covers(product(self@), divisor as nat);
            assert(expected * divisor == expected * self.pool.spec_get(outcome.spec_complement())
                + expected * money) by (nonlinear_arith)
                requires
                    divisor == self.pool.spec_get(outcome.spec_complement()) + money,
            ;
        }
        // The pool never has to keep more shares than it holds, so the
        // subtraction below cannot fall below zero.
        assert(expected <= new_pool.spec_get(outcome));
        let expected_shares: u64 = expected as u64;
        let share_diff: u64 = new_pool[outcome] - expected_shares;
        new_pool.set(outcome, expected_shares);
        (new_pool, Bet { outcome, shares: share_diff })
    }

    /// Makes a wager of `money` on `outcome`: the pool moves to where
    /// `evaluate_shares` says, and the bet is returned. The contract is that
    /// of `evaluate_shares`, with the market after the call in the place of
    /// the pool returned there.
    pub fn buy_shares(&mut self, outcome: Outcome, money: u64) -> (bet: Bet)
        requires
            old(self).is_funded(),
            old(self).has_room_for(money),
        ensures
            final(self)@ == pool_after(old(self)@, outcome, money as nat),
            bet.outcome == outcome,
            bet.shares == released_shares(old(self)@, outcome, money as nat),
            final(self).is_funded(),
            money == 0 ==> *final(self) == *old(self) && bet.shares == 0,
            final(self).pool.spec_get(outcome.spec_complement())
                == old(self).pool.spec_get(outcome.spec_complement()) + money,
            final(self).pool.spec_get(outcome) + bet.shares
                == old(self).pool.spec_get(outcome) + money,
            old(self).pool.yes * old(self).pool.no
                <= final(self).pool.spec_get(outcome)
                    * old(self).pool.spec_get(outcome.spec_complement())
                    + final(self).pool.spec_get(outcome) * money
                < old(self).pool.yes * old(self).pool.no
                    + old(self).pool.spec_get(outcome.spec_complement()) + money,
    {
        let (new_pool, bet) = self.evaluate_shares(outcome, money);
        self.pool = new_pool;
        bet
    }

    /// Like `evaluate_shares`, for any market and any wager: says why the
    /// wager cannot be priced instead of asking the caller to rule that out.
    pub fn try_evaluate_shares(&self, outcome: Outcome, money: u64) -> (result: Result<
        (YesNoValues<u64>, Bet),
        MarketError,
    >)
        ensures
            result is Ok <==> self.is_funded() && self.has_room_for(money),
            match result {
                Ok((new_pool, bet)) => {
                    &&& self.is_funded()
                    &&& self.has_room_for(money)
                    &&& new_pool@ == pool_after(self@, outcome, money as nat)
                    &&& funded(new_pool@)
                    &&& bet.outcome == outcome
                    &&& bet.shares == released_shares(self@, outcome, money as nat)
                    &&& new_pool.spec_get(outcome.spec_complement())
                        == self.pool.spec_get(outcome.spec_complement()) + money
                    &&& new_pool.spec_get(outcome) + bet.shares
                        == self.pool.spec_get(outcome) + money
                    &&& self.pool.yes * self.pool.no
                        <= new_pool.spec_get(outcome)
                            * self.pool.spec_get(outcome.spec_complement())
                            + new_pool.spec_get(outcome) * money
                        < self.pool.yes * self.pool.no
                            + self.pool.spec_get(outcome.spec_complement()) + money
                },
                Err(MarketError::EmptyReserve) => !self.is_funded(),
                Err(MarketError::Overflow) => self.is_funded() && !self.has_room_for(money),
            },
    {
        if self.pool.yes == 0 || self.pool.no == 0 {
            Err(MarketError::EmptyReserve)
        } else if money > u64::MAX - self.pool.yes || money > u64::MAX - self.pool.no {
            Err(MarketError::Overflow)
        } else {
            Ok(self.evaluate_shares(outcome, money))
        }
    }

    /// Like `buy_shares`, for any market and any wager: where the wager
    /// cannot be priced the market is left as it was.
    pub fn try_buy_shares(&mut self, outcome: Outcome, money: u64) -> (result: Result<
        Bet,
        MarketError,
    >)
        ensures
            result is Ok <==> old(self).is_funded() && old(self).has_room_for(money),
            match result {
                Ok(bet) => {
                    &&& old(self).is_funded()
                    &&& old(self).has_room_for(money)
                    &&& final(self)@ == pool_after(old(self)@, outcome, money as nat)
                    &&& final(self).is_funded()
                    &&& bet.outcome == outcome
                    &&& bet.shares == released_shares(old(self)@, outcome, money as nat)
                    &&& final(self).pool.spec_get(outcome.spec_complement())
                        == old(self).pool.spec_get(outcome.spec_complement()) + money
                    &&& final(self).pool.spec_get(outcome) + bet.shares
                        == old(self).pool.spec_get(outcome) + money
                    &&& old(self).pool.yes * old(self).pool.no
                        <= final(self).pool.spec_get(outcome)
                            * old(self).pool.spec_get(outcome.spec_complement())
                            + final(self).pool.spec_get(outcome) * money
                        < old(self).pool.yes * old(self).pool.no
                            + old(self).pool.spec_get(outcome.spec_complement()) + money
                },
                Err(MarketError::EmptyReserve) => {
                    &&& !old(self).is_funded()
                    &&& *final(self) == *old(self)
                },
                Err(MarketError::Overflow) => {
                    &&& old(self).is_funded()
                    &&& !old(self).has_room_for(money)
                    &&& *final(self) == *old(self)
                },
            },
    {
        match self.try_evaluate_shares(outcome, money) {
            Ok((new_pool, bet)) => {
                self.pool = new_pool;
                Ok(bet)
            },
            Err(reason) => Err(reason),
        }
    }

    /// The probability that the pool implies for `outcome`: the share of the
    /// other side's reserve in the two reserves taken together.
    pub fn probability_of(&self, outcome: Outcome) -> (chance: Probability)
        ensures
            chance.numerator == self.pool.spec_get(outcome.spec_complement()),
            chance.denominator == self.pool.yes + self.pool.no,
            chance.numerator + self.pool.spec_get(outcome) == chance.denominator,
            chance.numerator <= chance.denominator,
    {
        let total: u128 = (self.pool.yes as u128) + (self.pool.no as u128);
        Probability { numerator: self.pool[outcome.complement()], denominator: total }
    }
}

} // verus!
