//! Market entities and the per-chain application state.
//!
//! A `Market` owns one share pool per outcome. Its well-formedness ties the
//! redundant `shares_available` field to the sum of the outcome pools, keeps
//! every pool positive, and bounds the outcome count and the fee schedules.

use vstd::prelude::*;

use crate::errors::Error;
use crate::ledger::{ReceiptCache, ShareLedger};
use crate::{fees_valid, Fees, MarketState, MAX_OUTCOMES};

verus! {

/// One outcome of a market: its index, the shares ever issued for it, and
/// the shares still available (unsold) in its pool.
#[derive(Clone, Copy, PartialEq, Eq, Structural)]
pub struct MarketOutcome {
    pub id: u32,
    pub shares_total: u128,
    pub shares_available: u128,
}

impl MarketOutcome {
    /// Well-formedness of the outcome sitting at position `k`: it carries
    /// its own index, never has more shares available than were ever
    /// issued, and its pool is never drained to zero.
    pub open spec fn wf_at(self, k: int) -> bool {
        &&& self.id == k
        &&& self.shares_available <= self.shares_total
        &&& 1 <= self.shares_available
    }
}

/// A multi-outcome prediction market.
pub struct Market {
    pub id: u64,
    pub closes_at_timestamp: u64,
    pub balance: u128,
    pub liquidity: u128,
    pub shares_available: u128,
    pub state: MarketState,
    pub buy_fees: Fees,
    pub sell_fees: Fees,
    pub treasury: u64,
    pub distributor: u64,
    pub fee_accumulator: u128,
    pub question: String,
    pub question_id: String,
    pub arbitrator: u64,
    pub realitio_timeout: u32,
    pub outcome_count: u32,
    pub outcomes: Vec<MarketOutcome>,
    pub token: u64,
    pub manager: u64,
    pub creator: u64,
    pub paused: bool,
    pub image: String,
}

/// Sum of the available shares over a sequence of outcomes.
pub open spec fn sum_avail(s: Seq<MarketOutcome>) -> nat
    decreases s.len(),
{
    if s.len() == 0 {
        0
    } else {
        sum_avail(s.drop_last()) + s.last().shares_available as nat
    }
}

/// The available pool of each outcome, as a sequence of mathematical
/// naturals in index order.
pub open spec fn avail_pools(s: Seq<MarketOutcome>) -> Seq<nat> {
    s.map_values(|o: MarketOutcome| o.shares_available as nat)
}

impl Market {
    /// The market invariant: the outcome list matches the declared count,
    /// the count is within bounds, the `shares_available` field equals the
    /// sum of the outcome pools, every outcome is well formed at its index,
    /// and both fee schedules are within bounds.
    pub open spec fn wf(self) -> bool {
        &&& self.outcomes@.len() == self.outcome_count as int
        &&& 2 <= self.outcome_count <= MAX_OUTCOMES
        &&& self.shares_available as nat == sum_avail(self.outcomes@)
        &&& forall|k: int|
            0 <= k < self.outcomes@.len() ==> (#[trigger] self.outcomes@[k]).wf_at(k)
        &&& fees_valid(self.buy_fees)
        &&& fees_valid(self.sell_fees)
    }
}

/// Replacing one outcome changes the sum by the difference of the
/// available shares.
pub proof fn lemma_sum_avail_update(s: Seq<MarketOutcome>, k: int, v: MarketOutcome)
    requires
        0 <= k < s.len(),
    ensures
        sum_avail(s.update(k, v)) == sum_avail(s) - s[k].shares_available + v.shares_available,
    decreases s.len(),
{
    if k == s.len() - 1 {
        assert(s.update(k, v).drop_last() =~= s.drop_last());
    } else {
        lemma_sum_avail_update(s.drop_last(), k, v);
        assert(s.update(k, v).drop_last() =~= s.drop_last().update(k, v));
    }
}

/// Appending an outcome adds its available shares to the sum.
pub proof fn lemma_sum_avail_push(s: Seq<MarketOutcome>, v: MarketOutcome)
    ensures
        sum_avail(s.push(v)) == sum_avail(s) + v.shares_available,
{
    assert(s.push(v).drop_last() =~= s);
}

/// Every element is bounded by the sum.
pub proof fn lemma_sum_avail_ge_elem(s: Seq<MarketOutcome>, k: int)
    requires
        0 <= k < s.len(),
    ensures
        s[k].shares_available <= sum_avail(s),
    decreases s.len(),
{
    if k < s.len() - 1 {
        lemma_sum_avail_ge_elem(s.drop_last(), k);
    }
}

/// Whether crediting `units` to every pool of `m` would overflow a `u128`
/// anywhere: in an outcome's fields, in the running share sum, or in the
/// market's collateral balance.
pub open spec fn add_shares_overflows(m: Market, units: u128) -> bool {
    ||| exists|k: int|
        0 <= k < m.outcomes@.len() && ((#[trigger] m.outcomes@[k]).shares_available + units
            > u128::MAX || m.outcomes@[k].shares_total + units > u128::MAX)
    ||| m.shares_available + m.outcomes@.len() * units > u128::MAX
    ||| m.balance + units > u128::MAX
}

impl Market {
    /// Decide, without mutating anything, whether crediting `units` to
    /// every pool would overflow somewhere.
    pub fn add_shares_would_overflow(&self, units: u128) -> (b: bool)
        ensures
            b == add_shares_overflows(*self, units),
    {
        let n = self.outcomes.len();
        let mut acc: u128 = self.shares_available;
        let mut j: usize = 0;
        while j < n
            invariant
                n == self.outcomes@.len(),
                0 <= j <= n,
                acc == self.shares_available + j * units,
                forall|k: int|
                    0 <= k < j ==> (#[trigger] self.outcomes@[k]).shares_available + units
                        <= u128::MAX && self.outcomes@[k].shares_total + units <= u128::MAX,
            decreases n - j,
        {
            let o = self.outcomes[j];
            if o.shares_available > u128::MAX - units || o.shares_total > u128::MAX - units {
                return true;
            }
            if acc > u128::MAX - units {
                proof {
                    vstd::arithmetic::mul::lemma_mul_inequality(
                        (j + 1) as int,
                        self.outcomes@.len() as int,
                        units as int,
                    );
                    vstd::arithmetic::mul::lemma_mul_is_distributive_add_other_way(
                        units as int,
                        j as int,
                        1,
                    );
                    vstd::arithmetic::mul::lemma_mul_basics(units as int);
                }
                return true;
            }
            acc = acc + units;
            proof {
                vstd::arithmetic::mul::lemma_mul_is_distributive_add_other_way(
                    units as int,
                    j as int,
                    1,
                );
                vstd::arithmetic::mul::lemma_mul_basics(units as int);
            }
            j += 1;
        }
        self.balance > u128::MAX - units
    }

    /// Credit `units` to every outcome's pool (both available and total),
    /// to the market's running share sum, and to its collateral balance.
    /// This keeps the sum invariant intact regardless of how share
    /// issuance later moves shares between outcomes. Fails exactly when
    /// some field would overflow, leaving the market untouched.
    pub fn add_shares_to_market(&mut self, units: u128) -> (r: Result<(), Error>)
        ensures
            match r {
                Ok(()) => {
                    &&& !add_shares_overflows(*old(self), units)
                    &&& final(self).outcomes@.len() == old(self).outcomes@.len()
                    &&& forall|k: int|
                        0 <= k < old(self).outcomes@.len() ==> (#[trigger] final(self).outcomes@[k]) == (MarketOutcome {
                            id: old(self).outcomes@[k].id,
                            shares_total: (old(self).outcomes@[k].shares_total + units) as u128,
                            shares_available: (old(self).outcomes@[k].shares_available
                                + units) as u128,
                        })
                    &&& final(self).shares_available == old(self).shares_available + old(self).outcomes@.len() * units
                    &&& final(self).balance == old(self).balance + units
                    &&& sum_avail(final(self).outcomes@) == sum_avail(old(self).outcomes@) + old(self).outcomes@.len() * units
                    &&& *final(self) == (Market {
                        balance: final(self).balance,
                        shares_available: final(self).shares_available,
                        outcomes: final(self).outcomes,
                        ..*old(self)
                    })
                },
                Err(e) => {
                    &&& e == Error::Arithmetic
                    &&& add_shares_overflows(*old(self), units)
                    &&& *final(self) == *old(self)
                },
            },
    {
        let n = self.outcomes.len();
        // Check every addition before committing any of them, so that a
        // failure leaves the market untouched.
        let mut acc: u128 = self.shares_available;
        let mut j: usize = 0;
        while j < n
            invariant
                n == self.outcomes@.len(),
                *self == *old(self),
                0 <= j <= n,
                acc == self.shares_available + j * units,
                forall|k: int|
                    0 <= k < j ==> (#[trigger] self.outcomes@[k]).shares_available + units
                        <= u128::MAX && self.outcomes@[k].shares_total + units <= u128::MAX,
            decreases n - j,
        {
            let o = self.outcomes[j];
            if o.shares_available > u128::MAX - units || o.shares_total > u128::MAX - units {
                return Err(Error::Arithmetic);
            }
            if acc > u128::MAX - units {
                proof {
                    vstd::arithmetic::mul::lemma_mul_inequality(
                        (j + 1) as int,
                        self.outcomes@.len() as int,
                        units as int,
                    );
                    vstd::arithmetic::mul::lemma_mul_is_distributive_add_other_way(
                        units as int,
                        j as int,
                        1,
                    );
                    vstd::arithmetic::mul::lemma_mul_basics(units as int);
                }
                return Err(Error::Arithmetic);
            }
            acc = acc + units;
            proof {
                vstd::arithmetic::mul::lemma_mul_is_distributive_add_other_way(
                    units as int,
                    j as int,
                    1,
                );
                vstd::arithmetic::mul::lemma_mul_basics(units as int);
            }
            j += 1;
        }
        if self.balance > u128::MAX - units {
            return Err(Error::Arithmetic);
        }
        // Commit.
        let mut c: usize = 0;
        while c < n
            invariant
                n == self.outcomes@.len(),
                0 <= c <= n,
                forall|k: int|
                    0 <= k < n ==> (#[trigger] old(self).outcomes@[k]).shares_available + units
                        <= u128::MAX && old(self).outcomes@[k].shares_total + units <= u128::MAX,
                forall|k: int|
                    0 <= k < c ==> (#[trigger] self.outcomes@[k]) == (MarketOutcome {
                        id: old(self).outcomes@[k].id,
                        shares_total: (old(self).outcomes@[k].shares_total + units) as u128,
                        shares_available: (old(self).outcomes@[k].shares_available
                            + units) as u128,
                    }),
                forall|k: int| c <= k < n ==> self.outcomes@[k] == old(self).outcomes@[k],
                sum_avail(self.outcomes@) == sum_avail(old(self).outcomes@) + c * units,
                *self == (Market { outcomes: self.outcomes, ..*old(self) }),
            decreases n - c,
        {
            let o = self.outcomes[c];
            let updated = MarketOutcome {
                id: o.id,
                shares_total: o.shares_total + units,
                shares_available: o.shares_available + units,
            };
            proof {
                lemma_sum_avail_update(self.outcomes@, c as int, updated);
                vstd::arithmetic::mul::lemma_mul_is_distributive_add_other_way(
                    units as int,
                    c as int,
                    1,
                );
                vstd::arithmetic::mul::lemma_mul_basics(units as int);
            }
            self.outcomes[c] = updated;
            c += 1;
        }
        self.shares_available = acc;
        self.balance = self.balance + units;
        Ok(())
    }

    /// Seed a fresh market's liquidity: record the initial payment as the
    /// market's total liquidity and credit it to every outcome's pool.
    pub fn add_initial_liquidity(&mut self, units: u128) -> (r: Result<(), Error>)
        ensures
            match r {
                Ok(()) => {
                    &&& !add_shares_overflows(*old(self), units)
                    &&& old(self).liquidity + units <= u128::MAX
                    &&& final(self).outcomes@.len() == old(self).outcomes@.len()
                    &&& forall|k: int|
                        0 <= k < old(self).outcomes@.len() ==> (#[trigger] final(self).outcomes@[k]) == (MarketOutcome {
                            id: old(self).outcomes@[k].id,
                            shares_total: (old(self).outcomes@[k].shares_total + units) as u128,
                            shares_available: (old(self).outcomes@[k].shares_available
                                + units) as u128,
                        })
                    &&& final(self).shares_available == old(self).shares_available + old(self).outcomes@.len() * units
                    &&& final(self).balance == old(self).balance + units
                    &&& final(self).liquidity == old(self).liquidity + units
                    &&& sum_avail(final(self).outcomes@) == sum_avail(old(self).outcomes@) + old(self).outcomes@.len() * units
                    &&& *final(self) == (Market {
                        balance: final(self).balance,
                        liquidity: final(self).liquidity,
                        shares_available: final(self).shares_available,
                        outcomes: final(self).outcomes,
                        ..*old(self)
                    })
                },
                Err(e) => {
                    &&& e == Error::Arithmetic
                    &&& old(self).liquidity + units > u128::MAX || add_shares_overflows(
                        *old(self),
                        units,
                    )
                    &&& *final(self) == *old(self)
                },
            },
    {
        if self.liquidity > u128::MAX - units {
            return Err(Error::Arithmetic);
        }
        let saved_liquidity = self.liquidity;
        self.liquidity = self.liquidity + units;
        match self.add_shares_to_market(units) {
            Ok(()) => Ok(()),
            Err(e) => {
                self.liquidity = saved_liquidity;
                Err(e)
            },
        }
    }
}

/// What the read interface exposes of a market.
pub struct MarketView {
    pub id: u64,
    pub question: String,
    pub image: String,
    pub outcome_count: u32,
    pub state: MarketState,
}

/// One row of the local holdings listing: the cached shares of this
/// chain's holder for one outcome of a market.
#[derive(Clone, Copy, PartialEq, Eq, Debug, Structural)]
pub struct ShareView {
    pub market_id: u64,
    pub outcome_id: u32,
    pub amount: u128,
}

/// The per-chain application state: the market-id counter, the markets
/// this chain owns, the authoritative share ledger, and the chain-local
/// receipt cache.
pub struct TruemarketState {
    pub market_index: u64,
    pub markets: Vec<Market>,
    pub market_shares: ShareLedger,
    pub my_shares: ReceiptCache,
}

impl TruemarketState {
    /// Markets are stored in creation order: the id of each market is its
    /// position, the counter equals the number of markets, and every
    /// market satisfies its own invariant.
    pub open spec fn wf(self) -> bool {
        &&& self.market_index as int == self.markets@.len()
        &&& forall|k: int|
            0 <= k < self.markets@.len() ==> (#[trigger] self.markets@[k]).wf()
                && self.markets@[k].id == k
    }

    /// Read a market's display summary, when this chain holds a market
    /// under the id.
    pub fn market(&self, id: u64) -> (r: Option<MarketView>)
        ensures
            match r {
                Some(v) => {
                    &&& (id as int) < self.markets@.len()
                    &&& v.id == self.markets@[id as int].id
                    &&& v.question@ == self.markets@[id as int].question@
                    &&& v.image@ == self.markets@[id as int].image@
                    &&& v.outcome_count == self.markets@[id as int].outcome_count
                    &&& v.state == self.markets@[id as int].state
                },
                None => id as int >= self.markets@.len(),
            },
    {
        if id >= self.markets.len() as u64 {
            return None;
        }
        let m = &self.markets[id as usize];
        Some(
            MarketView {
                id: m.id,
                question: m.question.clone(),
                image: m.image.clone(),
                outcome_count: m.outcome_count,
                state: m.state,
            },
        )
    }

    /// List this chain's cached holdings for a market: one row per outcome
    /// slot with a positive cached amount, in outcome order. The chain may
    /// not hold the market definition, so every possible outcome slot is
    /// probed.
    pub fn my_shares_view(&self, market_id: u64) -> (r: Vec<ShareView>)
        ensures
            forall|j: int|
                0 <= j < r@.len() ==> {
                    let row = #[trigger] r@[j];
                    &&& row.market_id == market_id
                    &&& row.outcome_id < MAX_OUTCOMES
                    &&& row.amount as nat == crate::ledger::receipt_shares_of(
                        self.my_shares.entries@,
                        market_id,
                        row.outcome_id,
                    )
                    &&& row.amount > 0
                },
            forall|j1: int, j2: int|
                0 <= j1 < j2 < r@.len() ==> r@[j1].outcome_id < r@[j2].outcome_id,
            forall|o: u32|
                o < MAX_OUTCOMES && crate::ledger::receipt_shares_of(
                    self.my_shares.entries@,
                    market_id,
                    o,
                ) > 0 ==> exists|j: int| 0 <= j < r@.len() && (#[trigger] r@[j]).outcome_id == o,
    {
        let mut results: Vec<ShareView> = Vec::new();
        let mut outcome_id: u32 = 0;
        while outcome_id < MAX_OUTCOMES
            invariant
                0 <= outcome_id <= MAX_OUTCOMES,
                forall|j: int|
                    0 <= j < results@.len() ==> {
                        let row = #[trigger] results@[j];
                        &&& row.market_id == market_id
                        &&& row.outcome_id < outcome_id
                        &&& row.amount as nat == crate::ledger::receipt_shares_of(
                            self.my_shares.entries@,
                            market_id,
                            row.outcome_id,
                        )
                        &&& row.amount > 0
                    },
                forall|j1: int, j2: int|
                    0 <= j1 < j2 < results@.len() ==> results@[j1].outcome_id
                        < results@[j2].outcome_id,
                forall|o: u32|
                    o < outcome_id && crate::ledger::receipt_shares_of(
                        self.my_shares.entries@,
                        market_id,
                        o,
                    ) > 0 ==> exists|j: int|
                        0 <= j < results@.len() && (#[trigger] results@[j]).outcome_id == o,
            decreases MAX_OUTCOMES - outcome_id,
        {
            let amount = self.my_shares.get(market_id, outcome_id);
            if amount > 0 {
                let ghost before = results@;
                results.push(ShareView { market_id, outcome_id, amount });
                proof {
                    assert(results@[before.len() as int].outcome_id == outcome_id);
                    assert forall|o: u32|
                        o < outcome_id + 1 && crate::ledger::receipt_shares_of(
                            self.my_shares.entries@,
                            market_id,
                            o,
                        ) > 0 implies exists|j: int|
                        0 <= j < results@.len() && (#[trigger] results@[j]).outcome_id == o by {
                        if o == outcome_id {
                            assert(results@[before.len() as int].outcome_id == o);
                        } else {
                            let w = choose|j: int|
                                0 <= j < before.len() && (#[trigger] before[j]).outcome_id == o;
                            assert(results@[w] == before[w]);
                        }
                    };
                    assert forall|j1: int, j2: int|
                        0 <= j1 < j2 < results@.len() implies results@[j1].outcome_id
                        < results@[j2].outcome_id by {
                        if j2 < before.len() {
                            assert(results@[j1] == before[j1] && results@[j2] == before[j2]);
                        } else {
                            assert(results@[j2].outcome_id == outcome_id);
                            if j1 < before.len() {
                                assert(results@[j1] == before[j1]);
                            }
                        }
                    };
                }
            }
            outcome_id += 1;
        }
        results
    }

    /// An empty state: no markets, no ledger entries, no receipts.
    pub fn new() -> (s: Self)
        ensures
            s.wf(),
            s.markets@.len() == 0,
            s.market_shares.entries@.len() == 0,
            s.my_shares.entries@.len() == 0,
    {
        TruemarketState {
            market_index: 0,
            markets: Vec::new(),
            market_shares: ShareLedger { entries: Vec::new() },
            my_shares: ReceiptCache { entries: Vec::new() },
        }
    }
}

} // verus!
