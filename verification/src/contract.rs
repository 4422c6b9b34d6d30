//! The market application's chain handlers.
//!
//! Each chain executes sequentially; a handler takes the chain's state and
//! a runtime context, and returns the actions the runtime must perform:
//! token transfers through the fungible application and outgoing messages.
//! A handler that returns an error has no effect at all, mirroring the
//! all-or-nothing commit of a block. There is no cross-chain rollback:
//! once a fund push has been committed by the buyer's chain, a later
//! failure on the market chain cannot undo it.

use vstd::prelude::*;

use crate::amm::{calc_buy_amount, lemma_shares_issued_bounds, shares_issued};
use crate::errors::Error;
use crate::fees::{compute_fee_split, fee_part, fee_split_overflows, validate_fees};
use crate::ledger::{receipt_shares_of, shares_of};
use crate::state::{
    add_shares_overflows, avail_pools, lemma_sum_avail_ge_elem, lemma_sum_avail_push,
    lemma_sum_avail_update, Market, MarketOutcome, TruemarketState,
};
use crate::{fees_valid, Fees, MarketState, Message, Operation, MAX_OUTCOMES};

verus! {

/// What the surrounding runtime tells a handler about its invocation.
#[derive(Clone, Copy)]
pub struct RuntimeContext {
    /// The chain this handler runs on.
    pub chain_id: u64,
    /// The chain the application was created on: the home chain of every
    /// market, sole owner of the authoritative market state.
    pub creator_chain_id: u64,
    /// The signer of the operation, when one was authenticated.
    pub authenticated_signer: Option<u64>,
    /// For a message handler, the chain the message came from; `None` for
    /// an operation.
    pub message_origin_chain_id: Option<u64>,
    /// The timestamp of the current block.
    pub block_time: u64,
    /// The application's own account identity, custodian of pulled funds.
    pub application_account: u64,
}

/// An effect a handler asks the runtime to perform, in order.
#[derive(Clone, Copy, PartialEq, Eq, Debug, Structural)]
pub enum Action {
    /// Debit `owner` on the current chain and credit the target account
    /// through the fungible token application.
    TokenTransfer { token: u64, owner: u64, amount: u128, target_chain: u64, target_owner: u64 },
    /// Send an authenticated message to another chain.
    SendMessage { destination: u64, message: Message },
}

/// The residual units traded against the pools after the three buy-fee
/// components are taken out of `value`.
pub open spec fn buy_remaining(m: Market, value: u128) -> nat {
    (value - fee_part(value as nat, m.buy_fees.fee as nat) - fee_part(
        value as nat,
        m.buy_fees.treasury_fee as nat,
    ) - fee_part(value as nat, m.buy_fees.distributor_fee as nat)) as nat
}

/// The shares a buy of `value` units on `outcome_id` issues against the
/// market's current pools.
pub open spec fn buy_shares(m: Market, outcome_id: u32, value: u128) -> int {
    shares_issued(avail_pools(m.outcomes@), outcome_id as int, buy_remaining(m, value))
}

/// The error a buy aborts with, or `None` when it succeeds: the market
/// must exist, be open and not paused, the outcome index must be valid,
/// the issued shares must reach the caller's minimum, and no balance
/// update anywhere may overflow.
pub open spec fn buy_error(
    pre: TruemarketState,
    ctx: RuntimeContext,
    market_id: u64,
    outcome_id: u32,
    min_shares: u128,
    buyer: u64,
    value: u128,
    recipient_chain_id: u64,
) -> Option<Error> {
    if market_id as int >= pre.markets@.len() {
        Some(Error::MarketNotFound)
    } else {
        let m = pre.markets@[market_id as int];
        if m.state != MarketState::Open {
            Some(Error::MarketNotOpen)
        } else if m.paused {
            Some(Error::MarketPaused)
        } else if outcome_id >= m.outcome_count {
            Some(Error::InvalidOutcome)
        } else if fee_split_overflows(value, m.buy_fees) {
            Some(Error::Arithmetic)
        } else {
            let remaining = buy_remaining(m, value);
            if m.outcomes@[outcome_id as int].shares_available + remaining > u128::MAX {
                Some(Error::Arithmetic)
            } else {
                let shares = buy_shares(m, outcome_id, value);
                if shares < min_shares {
                    Some(Error::Slippage)
                } else if m.fee_accumulator + fee_part(value as nat, m.buy_fees.fee as nat)
                    > u128::MAX {
                    Some(Error::Arithmetic)
                } else if add_shares_overflows(m, remaining as u128) {
                    Some(Error::Arithmetic)
                } else if shares_of(pre.market_shares.entries@, market_id, outcome_id, buyer)
                    + shares > u128::MAX {
                    Some(Error::Arithmetic)
                } else if recipient_chain_id == ctx.chain_id && receipt_shares_of(
                    pre.my_shares.entries@,
                    market_id,
                    outcome_id,
                ) + shares > u128::MAX {
                    Some(Error::Arithmetic)
                } else {
                    None
                }
            }
        }
    }
}

/// The actions a successful buy emits, in order: the fund pull (only when
/// running as a local operation; a remote buy pushed the funds already),
/// the treasury and distributor payouts when non-zero, and the receipt
/// message when the recipient is another chain.
pub open spec fn buy_actions(
    ctx: RuntimeContext,
    m: Market,
    market_id: u64,
    outcome_id: u32,
    buyer: u64,
    value: u128,
    recipient_chain_id: u64,
) -> Seq<Action> {
    let tfee = fee_part(value as nat, m.buy_fees.treasury_fee as nat);
    let dfee = fee_part(value as nat, m.buy_fees.distributor_fee as nat);
    let shares = buy_shares(m, outcome_id, value);
    let pull = if ctx.message_origin_chain_id == None::<u64> {
        seq![
            (Action::TokenTransfer {
                token: m.token,
                owner: buyer,
                amount: value,
                target_chain: ctx.chain_id,
                target_owner: ctx.application_account,
            }),
        ]
    } else {
        Seq::<Action>::empty()
    };
    let pay_treasury = if tfee > 0 {
        seq![
            (Action::TokenTransfer {
                token: m.token,
                owner: ctx.application_account,
                amount: tfee as u128,
                target_chain: ctx.chain_id,
                target_owner: m.treasury,
            }),
        ]
    } else {
        Seq::<Action>::empty()
    };
    let pay_distributor = if dfee > 0 {
        seq![
            (Action::TokenTransfer {
                token: m.token,
                owner: ctx.application_account,
                amount: dfee as u128,
                target_chain: ctx.chain_id,
                target_owner: m.distributor,
            }),
        ]
    } else {
        Seq::<Action>::empty()
    };
    let receipt = if recipient_chain_id != ctx.chain_id {
        seq![
            (Action::SendMessage {
                destination: recipient_chain_id,
                message: Message::ShareMinted {
                    market_id,
                    outcome_id,
                    amount: shares as u128,
                },
            }),
        ]
    } else {
        Seq::<Action>::empty()
    };
    pull + pay_treasury + pay_distributor + receipt
}

/// How a successful buy transforms the state: the residual is credited to
/// every pool, the issued shares are taken out of the bought outcome's
/// pool and out of the running sum, the protocol fee accumulates, the
/// ledger credits the buyer, and the receipt is cached locally exactly
/// when the recipient chain is the current chain.
pub open spec fn buy_post(
    pre: TruemarketState,
    post: TruemarketState,
    ctx: RuntimeContext,
    market_id: u64,
    outcome_id: u32,
    buyer: u64,
    value: u128,
    recipient_chain_id: u64,
    actions: Seq<Action>,
) -> bool {
    let m0 = pre.markets@[market_id as int];
    let fee = fee_part(value as nat, m0.buy_fees.fee as nat);
    let remaining = buy_remaining(m0, value);
    let n = m0.outcomes@.len();
    let shares = buy_shares(m0, outcome_id, value);
    let m1 = post.markets@[market_id as int];
    &&& post.market_index == pre.market_index
    &&& post.markets@.len() == pre.markets@.len()
    &&& forall|k: int|
        0 <= k < pre.markets@.len() && k != market_id as int ==> post.markets@[k]
            == pre.markets@[k]
    &&& m1 == (Market {
        balance: (m0.balance + remaining) as u128,
        shares_available: (m0.shares_available + n * remaining - shares) as u128,
        fee_accumulator: (m0.fee_accumulator + fee) as u128,
        outcomes: m1.outcomes,
        ..m0
    })
    &&& m1.outcomes@.len() == n
    &&& forall|k: int|
        0 <= k < n && k != outcome_id as int ==> (#[trigger] m1.outcomes@[k]) == (MarketOutcome {
            id: m0.outcomes@[k].id,
            shares_total: (m0.outcomes@[k].shares_total + remaining) as u128,
            shares_available: (m0.outcomes@[k].shares_available + remaining) as u128,
        })
    &&& m1.outcomes@[outcome_id as int] == (MarketOutcome {
        id: m0.outcomes@[outcome_id as int].id,
        shares_total: (m0.outcomes@[outcome_id as int].shares_total + remaining) as u128,
        shares_available: (m0.outcomes@[outcome_id as int].shares_available + remaining
            - shares) as u128,
    })
    &&& 1 <= value ==> 1 <= shares
    &&& shares_of(post.market_shares.entries@, market_id, outcome_id, buyer) == shares_of(
        pre.market_shares.entries@,
        market_id,
        outcome_id,
        buyer,
    ) + shares
    &&& forall|m2: u64, o2: u32, w2: u64|
        !(m2 == market_id && o2 == outcome_id && w2 == buyer) ==> shares_of(
            post.market_shares.entries@,
            m2,
            o2,
            w2,
        ) == shares_of(pre.market_shares.entries@, m2, o2, w2)
    &&& if recipient_chain_id == ctx.chain_id {
        &&& receipt_shares_of(post.my_shares.entries@, market_id, outcome_id)
            == receipt_shares_of(pre.my_shares.entries@, market_id, outcome_id) + shares
        &&& forall|m2: u64, o2: u32|
            !(m2 == market_id && o2 == outcome_id) ==> receipt_shares_of(
                post.my_shares.entries@,
                m2,
                o2,
            ) == receipt_shares_of(pre.my_shares.entries@, m2, o2)
    } else {
        post.my_shares == pre.my_shares
    }
    &&& actions == buy_actions(ctx, m0, market_id, outcome_id, buyer, value, recipient_chain_id)
}

/// The error a market creation aborts with, or `None` when it succeeds.
pub open spec fn create_market_error(
    pre: TruemarketState,
    ctx: RuntimeContext,
    value: u128,
    closes_at: u64,
    outcomes: u32,
    buy_fees: Fees,
    sell_fees: Fees,
) -> Option<Error> {
    if ctx.authenticated_signer == None::<u64> {
        Some(Error::MissingSigner)
    } else if value == 0 {
        Some(Error::ZeroValue)
    } else if ctx.block_time >= closes_at {
        Some(Error::ClosingTimeInPast)
    } else if outcomes < 2 || outcomes > MAX_OUTCOMES {
        Some(Error::InvalidOutcomeCount)
    } else if !fees_valid(buy_fees) {
        Some(Error::FeeTooHigh)
    } else if !fees_valid(sell_fees) {
        Some(Error::FeeTooHigh)
    } else if pre.market_index == u64::MAX {
        Some(Error::Arithmetic)
    } else if outcomes * value > u128::MAX {
        Some(Error::Arithmetic)
    } else {
        None
    }
}

/// How a successful creation transforms the state: one new market is
/// appended under the next sequential id, seeded so that every outcome's
/// pool holds the whole initial payment; the only action pulls the
/// creator's collateral into the application's custody.
pub open spec fn create_market_post(
    pre: TruemarketState,
    post: TruemarketState,
    ctx: RuntimeContext,
    value: u128,
    closes_at: u64,
    outcomes: u32,
    token: u64,
    question: Seq<char>,
    image: Seq<char>,
    arbitrator: u64,
    buy_fees: Fees,
    sell_fees: Fees,
    treasury: u64,
    distributor: u64,
    realitio_timeout: u32,
    manager: u64,
    actions: Seq<Action>,
) -> bool {
    let id = pre.market_index;
    let m = post.markets@[id as int];
    &&& post.market_index == pre.market_index + 1
    &&& post.markets@.len() == pre.markets@.len() + 1
    &&& forall|k: int| 0 <= k < pre.markets@.len() ==> post.markets@[k] == pre.markets@[k]
    &&& post.market_shares == pre.market_shares
    &&& post.my_shares == pre.my_shares
    &&& m.id == id
    &&& m.closes_at_timestamp == closes_at
    &&& m.balance == value
    &&& m.liquidity == value
    &&& m.shares_available == outcomes * value
    &&& m.state == MarketState::Open
    &&& m.buy_fees == buy_fees
    &&& m.sell_fees == sell_fees
    &&& m.treasury == treasury
    &&& m.distributor == distributor
    &&& m.fee_accumulator == 0
    &&& m.question@ == question
    &&& m.question_id@ == question_id_of(id, question)
    &&& m.arbitrator == arbitrator
    &&& m.realitio_timeout == realitio_timeout
    &&& m.outcome_count == outcomes
    &&& m.token == token
    &&& m.manager == manager
    &&& Some(m.creator) == ctx.authenticated_signer
    &&& m.paused == false
    &&& m.image@ == image
    &&& m.outcomes@.len() == outcomes as int
    &&& forall|k: int|
        0 <= k < outcomes as int ==> (#[trigger] m.outcomes@[k]) == (MarketOutcome {
            id: k as u32,
            shares_total: value,
            shares_available: value,
        })
    &&& actions == seq![
        (Action::TokenTransfer {
            token,
            owner: m.creator,
            amount: value,
            target_chain: ctx.chain_id,
            target_owner: ctx.application_account,
        }),
    ]
}

/// The derived question identifier, a pure function of the market id and
/// the question text.
pub uninterp spec fn question_id_of(market_id: u64, question: Seq<char>) -> Seq<char>;

/// Relies on std's string formatting (`format!`): the derived question
/// identifier is computed from the market id and the question text alone.
#[verifier::external_body]
fn make_question_id(market_id: u64, question: &String) -> (r: String)
    ensures
        r@ == question_id_of(market_id, question@),
{
    format!("q_{}_{}", market_id, question)
}

/// Whether `a * b` exceeds `u128::MAX`.
fn mul_overflows(a: u128, b: u128) -> (r: bool)
    ensures
        r == (a as nat * b as nat > u128::MAX),
{
    if a == 0 {
        proof {
            vstd::arithmetic::mul::lemma_mul_basics(b as int);
        }
        return false;
    }
    if b > u128::MAX / a {
        proof {
            let q = (u128::MAX / a) as int;
            vstd::arithmetic::div_mod::lemma_fundamental_div_mod(u128::MAX as int, a as int);
            vstd::arithmetic::div_mod::lemma_mod_bound(u128::MAX as int, a as int);
            vstd::arithmetic::mul::lemma_mul_inequality(q + 1, b as int, a as int);
            vstd::arithmetic::mul::lemma_mul_is_distributive_add(a as int, q, 1);
            vstd::arithmetic::mul::lemma_mul_basics(a as int);
            vstd::arithmetic::mul::lemma_mul_is_commutative(q + 1, a as int);
            vstd::arithmetic::mul::lemma_mul_is_commutative(b as int, a as int);
        }
        true
    } else {
        proof {
            let q = (u128::MAX / a) as int;
            vstd::arithmetic::div_mod::lemma_fundamental_div_mod(u128::MAX as int, a as int);
            vstd::arithmetic::div_mod::lemma_mod_bound(u128::MAX as int, a as int);
            vstd::arithmetic::mul::lemma_mul_inequality(b as int, q, a as int);
            vstd::arithmetic::mul::lemma_mul_is_commutative(q, a as int);
            vstd::arithmetic::mul::lemma_mul_is_commutative(b as int, a as int);
        }
        false
    }
}

/// The market application on one chain: its durable state. The runtime
/// context of each invocation is passed to the handlers.
pub struct TruemarketContract {
    pub state: TruemarketState,
}

impl TruemarketContract {
    /// A fresh application state, as instantiated on any chain.
    pub fn new() -> (c: Self)
        ensures
            c.state.wf(),
            c.state.markets@.len() == 0,
            c.state.market_shares.entries@.len() == 0,
            c.state.my_shares.entries@.len() == 0,
    {
        TruemarketContract { state: TruemarketState::new() }
    }

    /// The transfer pulling `amount` of `token` from `from` into the
    /// application's own account on the current chain.
    pub fn receive_tokens(ctx: &RuntimeContext, token: u64, from: u64, amount: u128) -> (a: Action)
        ensures
            a == (Action::TokenTransfer {
                token,
                owner: from,
                amount,
                target_chain: ctx.chain_id,
                target_owner: ctx.application_account,
            }),
    {
        Action::TokenTransfer {
            token,
            owner: from,
            amount,
            target_chain: ctx.chain_id,
            target_owner: ctx.application_account,
        }
    }

    /// The transfer paying `amount` of `token` out of the application's
    /// account to `to` on the current chain; nothing for a zero amount.
    pub fn send_tokens(ctx: &RuntimeContext, token: u64, to: u64, amount: u128) -> (a: Option<
        Action,
    >)
        ensures
            amount == 0 ==> a == None::<Action>,
            amount > 0 ==> a == Some(
                Action::TokenTransfer {
                    token,
                    owner: ctx.application_account,
                    amount,
                    target_chain: ctx.chain_id,
                    target_owner: to,
                },
            ),
    {
        if amount == 0 {
            return None;
        }
        Some(
            Action::TokenTransfer {
                token,
                owner: ctx.application_account,
                amount,
                target_chain: ctx.chain_id,
                target_owner: to,
            },
        )
    }

    /// The remote half of a buy, run on the buyer's chain: push the payment
    /// into the application's custody on the market chain, then send the
    /// buy instruction there. Fire-and-forget: nothing here can be rolled
    /// back once committed.
    pub fn buy_remote(
        ctx: &RuntimeContext,
        market_chain_id: u64,
        market_id: u64,
        outcome_id: u32,
        min_outcome_shares_to_buy: u128,
        buyer: u64,
        value: u128,
        return_chain_id: u64,
        token: u64,
    ) -> (actions: Vec<Action>)
        ensures
            actions@ == seq![
                (Action::TokenTransfer {
                    token,
                    owner: buyer,
                    amount: value,
                    target_chain: market_chain_id,
                    target_owner: ctx.application_account,
                }),
                (Action::SendMessage {
                    destination: market_chain_id,
                    message: Message::Buy {
                        market_id,
                        outcome_id,
                        min_outcome_shares_to_buy,
                        owner: buyer,
                        value,
                        return_chain_id,
                    },
                }),
            ],
    {
        let mut actions: Vec<Action> = Vec::new();
        actions.push(
            Action::TokenTransfer {
                token,
                owner: buyer,
                amount: value,
                target_chain: market_chain_id,
                target_owner: ctx.application_account,
            },
        );
        actions.push(
            Action::SendMessage {
                destination: market_chain_id,
                message: Message::Buy {
                    market_id,
                    outcome_id,
                    min_outcome_shares_to_buy,
                    owner: buyer,
                    value,
                    return_chain_id,
                },
            },
        );
        proof {
            assert(actions@ =~= seq![
                (Action::TokenTransfer {
                    token,
                    owner: buyer,
                    amount: value,
                    target_chain: market_chain_id,
                    target_owner: ctx.application_account,
                }),
                (Action::SendMessage {
                    destination: market_chain_id,
                    message: Message::Buy {
                        market_id,
                        outcome_id,
                        min_outcome_shares_to_buy,
                        owner: buyer,
                        value,
                        return_chain_id,
                    },
                }),
            ]);
        }
        actions
    }

    /// Execute a buy on the market's home chain: take the fees out of the
    /// payment, issue shares against the fee-adjusted value, credit the
    /// residual back to every pool, record the purchase in the ledger, pay
    /// the treasury and distributor, and hand the receipt to the recipient
    /// chain (directly into the local cache when it is this chain).
    pub fn buy(
        &mut self,
        ctx: &RuntimeContext,
        market_id: u64,
        outcome_id: u32,
        min_outcome_shares_to_buy: u128,
        buyer: u64,
        value: u128,
        recipient_chain_id: u64,
    ) -> (r: Result<Vec<Action>, Error>)
        requires
            old(self).state.wf(),
        ensures
            match r {
                Ok(actions) => {
                    &&& buy_error(
                        old(self).state,
                        *ctx,
                        market_id,
                        outcome_id,
                        min_outcome_shares_to_buy,
                        buyer,
                        value,
                        recipient_chain_id,
                    ) == None::<Error>
                    &&& final(self).state.wf()
                    &&& buy_post(
                        old(self).state,
                        final(self).state,
                        *ctx,
                        market_id,
                        outcome_id,
                        buyer,
                        value,
                        recipient_chain_id,
                        actions@,
                    )
                },
                Err(e) => {
                    &&& Some(e) == buy_error(
                        old(self).state,
                        *ctx,
                        market_id,
                        outcome_id,
                        min_outcome_shares_to_buy,
                        buyer,
                        value,
                        recipient_chain_id,
                    )
                    &&& *final(self) == *old(self)
                },
            },
    {
        let n_markets = self.state.markets.len();
        if market_id >= n_markets as u64 {
            return Err(Error::MarketNotFound);
        }
        let idx = market_id as usize;
        let ghost m0 = self.state.markets@[market_id as int];
        let ghost pools0 = avail_pools(m0.outcomes@);
        let ghost skip = outcome_id as int;

        // Validation and overflow checks, all read-only: the state is
        // mutated only once nothing can fail any more.
        let market_ref = &self.state.markets[idx];
        if market_ref.state != MarketState::Open {
            return Err(Error::MarketNotOpen);
        }
        if market_ref.paused {
            return Err(Error::MarketPaused);
        }
        if outcome_id >= market_ref.outcome_count {
            return Err(Error::InvalidOutcome);
        }
        let split = match compute_fee_split(value, &market_ref.buy_fees) {
            Ok(s) => s,
            Err(e) => {
                return Err(e);
            },
        };
        let shares = match calc_buy_amount(market_ref, split.remaining, outcome_id) {
            Ok(s) => s,
            Err(e) => {
                return Err(e);
            },
        };
        if shares < min_outcome_shares_to_buy {
            return Err(Error::Slippage);
        }
        if market_ref.fee_accumulator > u128::MAX - split.fee {
            return Err(Error::Arithmetic);
        }
        if market_ref.add_shares_would_overflow(split.remaining) {
            return Err(Error::Arithmetic);
        }
        let token = market_ref.token;
        let treasury = market_ref.treasury;
        let distributor = market_ref.distributor;

        let cur_shares = self.state.market_shares.get(market_id, outcome_id, buyer);
        if shares > u128::MAX - cur_shares {
            return Err(Error::Arithmetic);
        }
        if recipient_chain_id == ctx.chain_id {
            let cur_receipt = self.state.my_shares.get(market_id, outcome_id);
            if shares > u128::MAX - cur_receipt {
                return Err(Error::Arithmetic);
            }
        }
        proof {
            assert forall|k: int| 0 <= k < pools0.len() implies 1 <= #[trigger] pools0[k] by {
                assert(m0.outcomes@[k].wf_at(k));
            };
            lemma_shares_issued_bounds(pools0, skip, split.remaining as nat);
        }

        // Commit. None of the steps below can fail: every overflow was
        // ruled out above, and the issued shares stay within the credited
        // target pool.
        let mut market = self.state.markets.remove(idx);
        match market.add_shares_to_market(split.remaining) {
            Ok(()) => {},
            Err(e) => {
                proof {
                    assert(false);
                }
                self.state.markets.insert(idx, market);
                return Err(e);
            },
        }
        market.fee_accumulator = market.fee_accumulator + split.fee;
        let o = market.outcomes[outcome_id as usize];
        let updated = MarketOutcome {
            id: o.id,
            shares_total: o.shares_total,
            shares_available: o.shares_available - shares,
        };
        proof {
            lemma_sum_avail_update(market.outcomes@, skip, updated);
            lemma_sum_avail_ge_elem(market.outcomes@, skip);
        }
        market.outcomes[outcome_id as usize] = updated;
        market.shares_available = market.shares_available - shares;
        self.state.markets.insert(idx, market);
        proof {
            assert(self.state.markets@ =~= old(self).state.markets@.update(
                market_id as int,
                self.state.markets@[market_id as int],
            ));
        }

        match self.state.market_shares.record_purchase(market_id, outcome_id, buyer, shares) {
            Ok(()) => {},
            Err(e) => {
                proof {
                    assert(false);
                }
                return Err(e);
            },
        }

        let mut actions: Vec<Action> = Vec::new();
        if ctx.message_origin_chain_id.is_none() {
            actions.push(Self::receive_tokens(ctx, token, buyer, value));
        }
        match Self::send_tokens(ctx, token, treasury, split.treasury_fee) {
            Some(a) => actions.push(a),
            None => {},
        }
        match Self::send_tokens(ctx, token, distributor, split.distributor_fee) {
            Some(a) => actions.push(a),
            None => {},
        }
        if recipient_chain_id == ctx.chain_id {
            match self.state.my_shares.record_local_receipt(market_id, outcome_id, shares) {
                Ok(()) => {},
                Err(e) => {
                    proof {
                        assert(false);
                    }
                    return Err(e);
                },
            }
        } else {
            actions.push(
                Action::SendMessage {
                    destination: recipient_chain_id,
                    message: Message::ShareMinted { market_id, outcome_id, amount: shares },
                },
            );
        }
        proof {
            assert(actions@ =~= buy_actions(
                *ctx,
                m0,
                market_id,
                outcome_id,
                buyer,
                value,
                recipient_chain_id,
            ));
        }
        Ok(actions)
    }

    /// Create a market: validate the payment, closing time, outcome count
    /// and fee schedules, pull the creator's collateral into custody,
    /// assign the next sequential id, and seed every outcome's pool with
    /// the whole initial payment so the starting price is uniform.
    pub fn create_market(
        &mut self,
        ctx: &RuntimeContext,
        value: u128,
        closes_at: u64,
        outcomes: u32,
        token: u64,
        distribution: Vec<u64>,
        question: String,
        image: String,
        arbitrator: u64,
        buy_fees: Fees,
        sell_fees: Fees,
        treasury: u64,
        distributor: u64,
        realitio_timeout: u32,
        manager: u64,
    ) -> (r: Result<Vec<Action>, Error>)
        requires
            old(self).state.wf(),
        ensures
            match r {
                Ok(actions) => {
                    &&& create_market_error(
                        old(self).state,
                        *ctx,
                        value,
                        closes_at,
                        outcomes,
                        buy_fees,
                        sell_fees,
                    ) == None::<Error>
                    &&& final(self).state.wf()
                    &&& create_market_post(
                        old(self).state,
                        final(self).state,
                        *ctx,
                        value,
                        closes_at,
                        outcomes,
                        token,
                        question@,
                        image@,
                        arbitrator,
                        buy_fees,
                        sell_fees,
                        treasury,
                        distributor,
                        realitio_timeout,
                        manager,
                        actions@,
                    )
                },
                Err(e) => {
                    &&& Some(e) == create_market_error(
                        old(self).state,
                        *ctx,
                        value,
                        closes_at,
                        outcomes,
                        buy_fees,
                        sell_fees,
                    )
                    &&& *final(self) == *old(self)
                },
            },
    {
        let _ = distribution;
        let creator = match ctx.authenticated_signer {
            Some(s) => s,
            None => {
                return Err(Error::MissingSigner);
            },
        };
        if value == 0 {
            return Err(Error::ZeroValue);
        }
        if ctx.block_time >= closes_at {
            return Err(Error::ClosingTimeInPast);
        }
        if outcomes < 2 || outcomes > MAX_OUTCOMES {
            return Err(Error::InvalidOutcomeCount);
        }
        match validate_fees(&buy_fees) {
            Ok(()) => {},
            Err(e) => {
                return Err(e);
            },
        }
        match validate_fees(&sell_fees) {
            Ok(()) => {},
            Err(e) => {
                return Err(e);
            },
        }
        if self.state.market_index == u64::MAX {
            return Err(Error::Arithmetic);
        }
        if mul_overflows(outcomes as u128, value) {
            return Err(Error::Arithmetic);
        }

        let market_id = self.state.market_index;
        let question_id = make_question_id(market_id, &question);
        let mut market = Market {
            id: market_id,
            closes_at_timestamp: closes_at,
            balance: 0,
            liquidity: 0,
            shares_available: 0,
            state: MarketState::Open,
            buy_fees,
            sell_fees,
            treasury,
            distributor,
            fee_accumulator: 0,
            question,
            question_id,
            arbitrator,
            realitio_timeout,
            outcome_count: outcomes,
            outcomes: Vec::new(),
            token,
            manager,
            creator,
            paused: false,
            image,
        };
        let ghost m_init = market;
        let mut i: u32 = 0;
        while i < outcomes
            invariant
                0 <= i <= outcomes,
                market == (Market { outcomes: market.outcomes, ..m_init }),
                market.outcomes@.len() == i as int,
                forall|k: int|
                    0 <= k < i as int ==> (#[trigger] market.outcomes@[k]) == (MarketOutcome {
                        id: k as u32,
                        shares_total: 0,
                        shares_available: 0,
                    }),
                crate::state::sum_avail(market.outcomes@) == 0,
            decreases outcomes - i,
        {
            proof {
                lemma_sum_avail_push(
                    market.outcomes@,
                    MarketOutcome { id: i, shares_total: 0, shares_available: 0 },
                );
            }
            market.outcomes.push(MarketOutcome { id: i, shares_total: 0, shares_available: 0 });
            i += 1;
        }
        match market.add_initial_liquidity(value) {
            Ok(()) => {},
            Err(e) => {
                proof {
                    assert(false);
                }
                return Err(e);
            },
        }
        self.state.markets.push(market);
        self.state.market_index = self.state.market_index + 1;

        let mut actions: Vec<Action> = Vec::new();
        actions.push(Self::receive_tokens(ctx, token, creator, value));
        proof {
            assert(actions@ =~= seq![
                (Action::TokenTransfer {
                    token,
                    owner: creator,
                    amount: value,
                    target_chain: ctx.chain_id,
                    target_owner: ctx.application_account,
                }),
            ]);
        }
        Ok(actions)
    }

    /// Dispatch a caller-initiated operation. A buy is executed locally
    /// when this chain owns the market state; otherwise the funds are
    /// pushed and the instruction is sent to the market chain.
    pub fn execute_operation(&mut self, ctx: &RuntimeContext, operation: Operation) -> (r: Result<
        Vec<Action>,
        Error,
    >)
        requires
            old(self).state.wf(),
            ctx.message_origin_chain_id == None::<u64>,
        ensures
            match operation {
                Operation::CreateMarket {
                    value,
                    closes_at,
                    outcomes,
                    token,
                    distribution,
                    question,
                    image,
                    arbitrator,
                    buy_fees,
                    sell_fees,
                    treasury,
                    distributor,
                    realitio_timeout,
                    manager,
                } => match r {
                    Ok(actions) => {
                        &&& create_market_error(
                            old(self).state,
                            *ctx,
                            value,
                            closes_at,
                            outcomes,
                            buy_fees,
                            sell_fees,
                        ) == None::<Error>
                        &&& final(self).state.wf()
                        &&& create_market_post(
                            old(self).state,
                            final(self).state,
                            *ctx,
                            value,
                            closes_at,
                            outcomes,
                            token,
                            question@,
                            image@,
                            arbitrator,
                            buy_fees,
                            sell_fees,
                            treasury,
                            distributor,
                            realitio_timeout,
                            manager,
                            actions@,
                        )
                    },
                    Err(e) => {
                        &&& Some(e) == create_market_error(
                            old(self).state,
                            *ctx,
                            value,
                            closes_at,
                            outcomes,
                            buy_fees,
                            sell_fees,
                        )
                        &&& *final(self) == *old(self)
                    },
                },
                Operation::Buy { market_id, outcome_id, min_outcome_shares_to_buy, value, token } => {
                    if ctx.authenticated_signer == None::<u64> {
                        r == Err::<Vec<Action>, Error>(Error::MissingSigner) && *final(self)
                            == *old(self)
                    } else if ctx.chain_id == ctx.creator_chain_id {
                        let buyer = ctx.authenticated_signer.unwrap();
                        match r {
                            Ok(actions) => {
                                &&& buy_error(
                                    old(self).state,
                                    *ctx,
                                    market_id,
                                    outcome_id,
                                    min_outcome_shares_to_buy,
                                    buyer,
                                    value,
                                    ctx.chain_id,
                                ) == None::<Error>
                                &&& final(self).state.wf()
                                &&& buy_post(
                                    old(self).state,
                                    final(self).state,
                                    *ctx,
                                    market_id,
                                    outcome_id,
                                    buyer,
                                    value,
                                    ctx.chain_id,
                                    actions@,
                                )
                            },
                            Err(e) => {
                                &&& Some(e) == buy_error(
                                    old(self).state,
                                    *ctx,
                                    market_id,
                                    outcome_id,
                                    min_outcome_shares_to_buy,
                                    buyer,
                                    value,
                                    ctx.chain_id,
                                )
                                &&& *final(self) == *old(self)
                            },
                        }
                    } else {
                        let buyer = ctx.authenticated_signer.unwrap();
                        &&& *final(self) == *old(self)
                        &&& r matches Ok(actions) && actions@ == seq![
                            (Action::TokenTransfer {
                                token,
                                owner: buyer,
                                amount: value,
                                target_chain: ctx.creator_chain_id,
                                target_owner: ctx.application_account,
                            }),
                            (Action::SendMessage {
                                destination: ctx.creator_chain_id,
                                message: Message::Buy {
                                    market_id,
                                    outcome_id,
                                    min_outcome_shares_to_buy,
                                    owner: buyer,
                                    value,
                                    return_chain_id: ctx.chain_id,
                                },
                            }),
                        ]
                    }
                },
            },
    {
        match operation {
            Operation::CreateMarket {
                value,
                closes_at,
                outcomes,
                token,
                distribution,
                question,
                image,
                arbitrator,
                buy_fees,
                sell_fees,
                treasury,
                distributor,
                realitio_timeout,
                manager,
            } => self.create_market(
                ctx,
                value,
                closes_at,
                outcomes,
                token,
                distribution,
                question,
                image,
                arbitrator,
                buy_fees,
                sell_fees,
                treasury,
                distributor,
                realitio_timeout,
                manager,
            ),
            Operation::Buy { market_id, outcome_id, min_outcome_shares_to_buy, value, token } => {
                let buyer = match ctx.authenticated_signer {
                    Some(s) => s,
                    None => {
                        return Err(Error::MissingSigner);
                    },
                };
                if ctx.chain_id == ctx.creator_chain_id {
                    // Local buy, on the market chain itself: the receipt
                    // goes straight into this chain's cache. The token in
                    // the operation is ignored in favour of the market's.
                    self.buy(
                        ctx,
                        market_id,
                        outcome_id,
                        min_outcome_shares_to_buy,
                        buyer,
                        value,
                        ctx.chain_id,
                    )
                } else {
                    // Remote buy: push funds and send the instruction to
                    // the market chain, using the token named by the
                    // operation since this chain may not hold the market.
                    Ok(
                        Self::buy_remote(
                            ctx,
                            ctx.creator_chain_id,
                            market_id,
                            outcome_id,
                            min_outcome_shares_to_buy,
                            buyer,
                            value,
                            ctx.chain_id,
                            token,
                        ),
                    )
                }
            },
        }
    }

    /// Handle an incoming message. A buy instruction is only valid on the
    /// market chain; funds were already pushed, so the pull is skipped. A
    /// receipt is only accepted from the market chain itself: any other
    /// declared origin is a forged receipt and credits nothing.
    pub fn execute_message(&mut self, ctx: &RuntimeContext, message: Message) -> (r: Result<
        Vec<Action>,
        Error,
    >)
        requires
            old(self).state.wf(),
            !(ctx.message_origin_chain_id == None::<u64>),
        ensures
            match message {
                Message::Buy {
                    market_id,
                    outcome_id,
                    min_outcome_shares_to_buy,
                    owner,
                    value,
                    return_chain_id,
                } => {
                    if ctx.chain_id != ctx.creator_chain_id {
                        r == Err::<Vec<Action>, Error>(Error::NotMarketChain) && *final(self)
                            == *old(self)
                    } else {
                        match r {
                            Ok(actions) => {
                                &&& buy_error(
                                    old(self).state,
                                    *ctx,
                                    market_id,
                                    outcome_id,
                                    min_outcome_shares_to_buy,
                                    owner,
                                    value,
                                    return_chain_id,
                                ) == None::<Error>
                                &&& final(self).state.wf()
                                &&& buy_post(
                                    old(self).state,
                                    final(self).state,
                                    *ctx,
                                    market_id,
                                    outcome_id,
                                    owner,
                                    value,
                                    return_chain_id,
                                    actions@,
                                )
                            },
                            Err(e) => {
                                &&& Some(e) == buy_error(
                                    old(self).state,
                                    *ctx,
                                    market_id,
                                    outcome_id,
                                    min_outcome_shares_to_buy,
                                    owner,
                                    value,
                                    return_chain_id,
                                )
                                &&& *final(self) == *old(self)
                            },
                        }
                    }
                },
                Message::ShareMinted { market_id, outcome_id, amount } => {
                    if ctx.message_origin_chain_id != Some(ctx.creator_chain_id) {
                        // A receipt whose declared origin is not the market
                        // chain is rejected and never credits the cache.
                        r == Err::<Vec<Action>, Error>(Error::ForgedReceipt) && *final(self)
                            == *old(self)
                    } else {
                        match r {
                            Ok(actions) => {
                                &&& actions@ == Seq::<Action>::empty()
                                &&& final(self).state.wf()
                                &&& final(self).state.market_index == old(self).state.market_index
                                &&& final(self).state.markets == old(self).state.markets
                                &&& final(self).state.market_shares == old(
                                    self,
                                ).state.market_shares
                                &&& receipt_shares_of(
                                    final(self).state.my_shares.entries@,
                                    market_id,
                                    outcome_id,
                                ) == receipt_shares_of(
                                    old(self).state.my_shares.entries@,
                                    market_id,
                                    outcome_id,
                                ) + amount
                                &&& forall|m2: u64, o2: u32|
                                    !(m2 == market_id && o2 == outcome_id) ==> receipt_shares_of(
                                        final(self).state.my_shares.entries@,
                                        m2,
                                        o2,
                                    ) == receipt_shares_of(
                                        old(self).state.my_shares.entries@,
                                        m2,
                                        o2,
                                    )
                            },
                            Err(e) => {
                                &&& e == Error::Arithmetic
                                &&& receipt_shares_of(
                                    old(self).state.my_shares.entries@,
                                    market_id,
                                    outcome_id,
                                ) + amount > u128::MAX
                                &&& *final(self) == *old(self)
                            },
                        }
                    }
                },
            },
    {
        match message {
            Message::Buy {
                market_id,
                outcome_id,
                min_outcome_shares_to_buy,
                owner,
                value,
                return_chain_id,
            } => {
                // Only the market creator chain holds the authoritative
                // market state.
                if ctx.chain_id != ctx.creator_chain_id {
                    return Err(Error::NotMarketChain);
                }
                self.buy(
                    ctx,
                    market_id,
                    outcome_id,
                    min_outcome_shares_to_buy,
                    owner,
                    value,
                    return_chain_id,
                )
            },
            Message::ShareMinted { market_id, outcome_id, amount } => {
                let origin_ok = match ctx.message_origin_chain_id {
                    Some(origin) => origin == ctx.creator_chain_id,
                    None => false,
                };
                if !origin_ok {
                    return Err(Error::ForgedReceipt);
                }
                match self.state.my_shares.record_local_receipt(market_id, outcome_id, amount) {
                    Ok(()) => Ok(Vec::new()),
                    Err(e) => Err(e),
                }
            },
        }
    }
}

} // verus!
