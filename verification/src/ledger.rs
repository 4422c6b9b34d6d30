//! Share bookkeeping.
//!
//! `ShareLedger` is the authoritative mapping from (market, outcome, owner)
//! to cumulative purchased shares, owned by the market's home chain.
//! `ReceiptCache` is the chain-local shadow keyed by (market, outcome),
//! credited only by receipt messages or same-chain purchases. Entries are
//! created on first use and never deleted; amounts only grow.

use vstd::prelude::*;

use crate::errors::Error;

verus! {

/// One ledger entry: cumulative shares of `owner` in an outcome of a market.
#[derive(Clone, Copy, PartialEq, Eq, Structural)]
pub struct ShareEntry {
    pub market_id: u64,
    pub outcome_id: u32,
    pub owner: u64,
    pub shares: u128,
}

/// Whether an entry carries the given (market, outcome, owner) key.
pub open spec fn entry_matches(e: ShareEntry, market_id: u64, outcome_id: u32, owner: u64) -> bool {
    e.market_id == market_id && e.outcome_id == outcome_id && e.owner == owner
}

/// Cumulative shares recorded for a key: the first entry carrying the key,
/// or zero when none does.
pub open spec fn shares_of(s: Seq<ShareEntry>, market_id: u64, outcome_id: u32, owner: u64) -> nat
    decreases s.len(),
{
    if s.len() == 0 {
        0
    } else if entry_matches(s[0], market_id, outcome_id, owner) {
        s[0].shares as nat
    } else {
        shares_of(s.drop_first(), market_id, outcome_id, owner)
    }
}

/// Skipping a key-free prefix does not change a key's recorded shares.
proof fn lemma_shares_of_skip(s: Seq<ShareEntry>, i: int, market_id: u64, outcome_id: u32, owner: u64)
    requires
        0 <= i <= s.len(),
        forall|j: int| 0 <= j < i ==> !entry_matches(#[trigger] s[j], market_id, outcome_id, owner),
    ensures
        shares_of(s, market_id, outcome_id, owner) == shares_of(
            s.skip(i),
            market_id,
            outcome_id,
            owner,
        ),
    decreases i,
{
    if i == 0 {
        assert(s.skip(0) =~= s);
    } else {
        lemma_shares_of_skip(s, i - 1, market_id, outcome_id, owner);
        assert(s.skip(i - 1).drop_first() =~= s.skip(i));
    }
}

/// Overwriting the first entry of a key with an entry carrying the same
/// key leaves every other key's recorded shares unchanged.
proof fn lemma_shares_of_update_other(
    s: Seq<ShareEntry>,
    i: int,
    e: ShareEntry,
    market_id: u64,
    outcome_id: u32,
    owner: u64,
)
    requires
        0 <= i < s.len(),
        e.market_id == s[i].market_id,
        e.outcome_id == s[i].outcome_id,
        e.owner == s[i].owner,
        !entry_matches(e, market_id, outcome_id, owner),
    ensures
        shares_of(s.update(i, e), market_id, outcome_id, owner) == shares_of(
            s,
            market_id,
            outcome_id,
            owner,
        ),
    decreases s.len(),
{
    if i == 0 {
        assert(s.update(0, e).drop_first() =~= s.drop_first());
    } else {
        if !entry_matches(s[0], market_id, outcome_id, owner) {
            lemma_shares_of_update_other(s.drop_first(), i - 1, e, market_id, outcome_id, owner);
            assert(s.update(i, e).drop_first() =~= s.drop_first().update(i - 1, e));
        } else {
            assert(s.update(i, e)[0] == s[0]);
        }
    }
}

/// Appending an entry leaves every other key's recorded shares unchanged.
proof fn lemma_shares_of_push_other(
    s: Seq<ShareEntry>,
    e: ShareEntry,
    market_id: u64,
    outcome_id: u32,
    owner: u64,
)
    requires
        !entry_matches(e, market_id, outcome_id, owner),
    ensures
        shares_of(s.push(e), market_id, outcome_id, owner) == shares_of(
            s,
            market_id,
            outcome_id,
            owner,
        ),
    decreases s.len(),
{
    if s.len() == 0 {
        assert(s.push(e)[0] == e);
        assert(s.push(e).drop_first() =~= s);
    } else {
        assert(s.push(e)[0] == s[0]);
        if !entry_matches(s[0], market_id, outcome_id, owner) {
            lemma_shares_of_push_other(s.drop_first(), e, market_id, outcome_id, owner);
            assert(s.push(e).drop_first() =~= s.drop_first().push(e));
        }
    }
}

/// The authoritative (market, outcome, owner) -> shares mapping.
pub struct ShareLedger {
    pub entries: Vec<ShareEntry>,
}

impl ShareLedger {
    /// Read the cumulative shares recorded for a key.
    pub fn get(&self, market_id: u64, outcome_id: u32, owner: u64) -> (r: u128)
        ensures
            r as nat == shares_of(self.entries@, market_id, outcome_id, owner),
    {
        let n = self.entries.len();
        let mut i: usize = 0;
        while i < n
            invariant
                n == self.entries@.len(),
                0 <= i <= n,
                forall|j: int|
                    0 <= j < i ==> !entry_matches(
                        #[trigger] self.entries@[j],
                        market_id,
                        outcome_id,
                        owner,
                    ),
            decreases n - i,
        {
            let e = self.entries[i];
            if e.market_id == market_id && e.outcome_id == outcome_id && e.owner == owner {
                proof {
                    lemma_shares_of_skip(self.entries@, i as int, market_id, outcome_id, owner);
                }
                return e.shares;
            }
            i += 1;
        }
        proof {
            lemma_shares_of_skip(self.entries@, n as int, market_id, outcome_id, owner);
            assert(self.entries@.skip(n as int) =~= Seq::<ShareEntry>::empty());
        }
        0
    }

    /// Add `delta` to a key's cumulative shares, creating the entry at zero
    /// if absent. Fails exactly when the new total would overflow a `u128`,
    /// leaving the ledger untouched.
    pub fn record_purchase(
        &mut self,
        market_id: u64,
        outcome_id: u32,
        owner: u64,
        delta: u128,
    ) -> (r: Result<(), Error>)
        ensures
            match r {
                Ok(()) => {
                    &&& shares_of(old(self).entries@, market_id, outcome_id, owner) + delta
                        <= u128::MAX
                    &&& shares_of(final(self).entries@, market_id, outcome_id, owner) == shares_of(
                        old(self).entries@,
                        market_id,
                        outcome_id,
                        owner,
                    ) + delta
                    &&& forall|m2: u64, o2: u32, w2: u64|
                        !(m2 == market_id && o2 == outcome_id && w2 == owner) ==> shares_of(
                            final(self).entries@,
                            m2,
                            o2,
                            w2,
                        ) == shares_of(old(self).entries@, m2, o2, w2)
                },
                Err(e) => {
                    &&& e == Error::Arithmetic
                    &&& shares_of(old(self).entries@, market_id, outcome_id, owner) + delta
                        > u128::MAX
                    &&& *final(self) == *old(self)
                },
            },
    {
        let n = self.entries.len();
        let mut i: usize = 0;
        while i < n
            invariant
                n == self.entries@.len(),
                0 <= i <= n,
                *self == *old(self),
                forall|j: int|
                    0 <= j < i ==> !entry_matches(
                        #[trigger] self.entries@[j],
                        market_id,
                        outcome_id,
                        owner,
                    ),
            decreases n - i,
        {
            let e = self.entries[i];
            if e.market_id == market_id && e.outcome_id == outcome_id && e.owner == owner {
                proof {
                    lemma_shares_of_skip(self.entries@, i as int, market_id, outcome_id, owner);
                }
                if delta > u128::MAX - e.shares {
                    return Err(Error::Arithmetic);
                }
                let updated = ShareEntry {
                    market_id: e.market_id,
                    outcome_id: e.outcome_id,
                    owner: e.owner,
                    shares: e.shares + delta,
                };
                proof {
                    lemma_shares_of_skip(
                        self.entries@.update(i as int, updated),
                        i as int,
                        market_id,
                        outcome_id,
                        owner,
                    );
                    assert forall|m2: u64, o2: u32, w2: u64|
                        !(m2 == market_id && o2 == outcome_id && w2 == owner) implies shares_of(
                        self.entries@.update(i as int, updated),
                        m2,
                        o2,
                        w2,
                    ) == shares_of(self.entries@, m2, o2, w2) by {
                        lemma_shares_of_update_other(
                            self.entries@,
                            i as int,
                            updated,
                            m2,
                            o2,
                            w2,
                        );
                    };
                }
                self.entries[i] = updated;
                return Ok(());
            }
            i += 1;
        }
        proof {
            lemma_shares_of_skip(self.entries@, n as int, market_id, outcome_id, owner);
            assert(self.entries@.skip(n as int) =~= Seq::<ShareEntry>::empty());
        }
        let fresh = ShareEntry { market_id, outcome_id, owner, shares: delta };
        proof {
            lemma_shares_of_skip(
                self.entries@.push(fresh),
                n as int,
                market_id,
                outcome_id,
                owner,
            );
            assert(self.entries@.push(fresh).skip(n as int) =~= seq![fresh]);
            assert forall|m2: u64, o2: u32, w2: u64|
                !(m2 == market_id && o2 == outcome_id && w2 == owner) implies shares_of(
                self.entries@.push(fresh),
                m2,
                o2,
                w2,
            ) == shares_of(self.entries@, m2, o2, w2) by {
                lemma_shares_of_push_other(self.entries@, fresh, m2, o2, w2);
            };
        }
        self.entries.push(fresh);
        Ok(())
    }
}

/// One receipt-cache entry: cumulative shares credited to this chain's
/// holder for an outcome of a market.
#[derive(Clone, Copy, PartialEq, Eq, Structural)]
pub struct ReceiptEntry {
    pub market_id: u64,
    pub outcome_id: u32,
    pub shares: u128,
}

/// Whether a receipt entry carries the given (market, outcome) key.
pub open spec fn receipt_matches(e: ReceiptEntry, market_id: u64, outcome_id: u32) -> bool {
    e.market_id == market_id && e.outcome_id == outcome_id
}

/// Cumulative shares cached for a key: the first entry carrying the key,
/// or zero when none does.
pub open spec fn receipt_shares_of(s: Seq<ReceiptEntry>, market_id: u64, outcome_id: u32) -> nat
    decreases s.len(),
{
    if s.len() == 0 {
        0
    } else if receipt_matches(s[0], market_id, outcome_id) {
        s[0].shares as nat
    } else {
        receipt_shares_of(s.drop_first(), market_id, outcome_id)
    }
}

/// Skipping a key-free prefix does not change a key's cached shares.
proof fn lemma_receipt_of_skip(s: Seq<ReceiptEntry>, i: int, market_id: u64, outcome_id: u32)
    requires
        0 <= i <= s.len(),
        forall|j: int| 0 <= j < i ==> !receipt_matches(#[trigger] s[j], market_id, outcome_id),
    ensures
        receipt_shares_of(s, market_id, outcome_id) == receipt_shares_of(
            s.skip(i),
            market_id,
            outcome_id,
        ),
    decreases i,
{
    if i == 0 {
        assert(s.skip(0) =~= s);
    } else {
        lemma_receipt_of_skip(s, i - 1, market_id, outcome_id);
        assert(s.skip(i - 1).drop_first() =~= s.skip(i));
    }
}

/// Overwriting the first entry of a key with an entry carrying the same
/// key leaves every other key's cached shares unchanged.
proof fn lemma_receipt_of_update_other(
    s: Seq<ReceiptEntry>,
    i: int,
    e: ReceiptEntry,
    market_id: u64,
    outcome_id: u32,
)
    requires
        0 <= i < s.len(),
        e.market_id == s[i].market_id,
        e.outcome_id == s[i].outcome_id,
        !receipt_matches(e, market_id, outcome_id),
    ensures
        receipt_shares_of(s.update(i, e), market_id, outcome_id) == receipt_shares_of(
            s,
            market_id,
            outcome_id,
        ),
    decreases s.len(),
{
    if i == 0 {
        assert(s.update(0, e).drop_first() =~= s.drop_first());
    } else {
        if !receipt_matches(s[0], market_id, outcome_id) {
            lemma_receipt_of_update_other(s.drop_first(), i - 1, e, market_id, outcome_id);
            assert(s.update(i, e).drop_first() =~= s.drop_first().update(i - 1, e));
        } else {
            assert(s.update(i, e)[0] == s[0]);
        }
    }
}

/// Appending an entry leaves every other key's cached shares unchanged.
proof fn lemma_receipt_of_push_other(
    s: Seq<ReceiptEntry>,
    e: ReceiptEntry,
    market_id: u64,
    outcome_id: u32,
)
    requires
        !receipt_matches(e, market_id, outcome_id),
    ensures
        receipt_shares_of(s.push(e), market_id, outcome_id) == receipt_shares_of(
            s,
            market_id,
            outcome_id,
        ),
    decreases s.len(),
{
    if s.len() == 0 {
        assert(s.push(e)[0] == e);
        assert(s.push(e).drop_first() =~= s);
    } else {
        assert(s.push(e)[0] == s[0]);
        if !receipt_matches(s[0], market_id, outcome_id) {
            lemma_receipt_of_push_other(s.drop_first(), e, market_id, outcome_id);
            assert(s.push(e).drop_first() =~= s.drop_first().push(e));
        }
    }
}

/// The chain-local (market, outcome) -> shares shadow cache.
pub struct ReceiptCache {
    pub entries: Vec<ReceiptEntry>,
}

impl ReceiptCache {
    /// Read the cumulative shares cached for a key.
    pub fn get(&self, market_id: u64, outcome_id: u32) -> (r: u128)
        ensures
            r as nat == receipt_shares_of(self.entries@, market_id, outcome_id),
    {
        let n = self.entries.len();
        let mut i: usize = 0;
        while i < n
            invariant
                n == self.entries@.len(),
                0 <= i <= n,
                forall|j: int|
                    0 <= j < i ==> !receipt_matches(
                        #[trigger] self.entries@[j],
                        market_id,
                        outcome_id,
                    ),
            decreases n - i,
        {
            let e = self.entries[i];
            if e.market_id == market_id && e.outcome_id == outcome_id {
                proof {
                    lemma_receipt_of_skip(self.entries@, i as int, market_id, outcome_id);
                }
                return e.shares;
            }
            i += 1;
        }
        proof {
            lemma_receipt_of_skip(self.entries@, n as int, market_id, outcome_id);
            assert(self.entries@.skip(n as int) =~= Seq::<ReceiptEntry>::empty());
        }
        0
    }

    /// Add `delta` to a key's cached shares, creating the entry at zero if
    /// absent. Fails exactly when the new total would overflow a `u128`,
    /// leaving the cache untouched.
    pub fn record_local_receipt(&mut self, market_id: u64, outcome_id: u32, delta: u128) -> (r:
        Result<(), Error>)
        ensures
            match r {
                Ok(()) => {
                    &&& receipt_shares_of(old(self).entries@, market_id, outcome_id) + delta
                        <= u128::MAX
                    &&& receipt_shares_of(final(self).entries@, market_id, outcome_id)
                        == receipt_shares_of(old(self).entries@, market_id, outcome_id) + delta
                    &&& forall|m2: u64, o2: u32|
                        !(m2 == market_id && o2 == outcome_id) ==> receipt_shares_of(
                            final(self).entries@,
                            m2,
                            o2,
                        ) == receipt_shares_of(old(self).entries@, m2, o2)
                },
                Err(e) => {
                    &&& e == Error::Arithmetic
                    &&& receipt_shares_of(old(self).entries@, market_id, outcome_id) + delta
                        > u128::MAX
                    &&& *final(self) == *old(self)
                },
            },
    {
        let n = self.entries.len();
        let mut i: usize = 0;
        while i < n
            invariant
                n == self.entries@.len(),
                0 <= i <= n,
                *self == *old(self),
                forall|j: int|
                    0 <= j < i ==> !receipt_matches(
                        #[trigger] self.entries@[j],
                        market_id,
                        outcome_id,
                    ),
            decreases n - i,
        {
            let e = self.entries[i];
            if e.market_id == market_id && e.outcome_id == outcome_id {
                proof {
                    lemma_receipt_of_skip(self.entries@, i as int, market_id, outcome_id);
                }
                if delta > u128::MAX - e.shares {
                    return Err(Error::Arithmetic);
                }
                let updated = ReceiptEntry {
                    market_id: e.market_id,
                    outcome_id: e.outcome_id,
                    shares: e.shares + delta,
                };
                proof {
                    lemma_receipt_of_skip(
                        self.entries@.update(i as int, updated),
                        i as int,
                        market_id,
                        outcome_id,
                    );
                    assert forall|m2: u64, o2: u32|
                        !(m2 == market_id && o2 == outcome_id) implies receipt_shares_of(
                        self.entries@.update(i as int, updated),
                        m2,
                        o2,
                    ) == receipt_shares_of(self.entries@, m2, o2) by {
                        lemma_receipt_of_update_other(self.entries@, i as int, updated, m2, o2);
                    };
                }
                self.entries[i] = updated;
                return Ok(());
            }
            i += 1;
        }
        proof {
            lemma_receipt_of_skip(self.entries@, n as int, market_id, outcome_id);
            assert(self.entries@.skip(n as int) =~= Seq::<ReceiptEntry>::empty());
        }
        let fresh = ReceiptEntry { market_id, outcome_id, shares: delta };
        proof {
            lemma_receipt_of_skip(self.entries@.push(fresh), n as int, market_id, outcome_id);
            assert(self.entries@.push(fresh).skip(n as int) =~= seq![fresh]);
            assert forall|m2: u64, o2: u32|
                !(m2 == market_id && o2 == outcome_id) implies receipt_shares_of(
                self.entries@.push(fresh),
                m2,
                o2,
            ) == receipt_shares_of(self.entries@, m2, o2) by {
                lemma_receipt_of_push_other(self.entries@, fresh, m2, o2);
            };
        }
        self.entries.push(fresh);
        Ok(())
    }
}

} // verus!
