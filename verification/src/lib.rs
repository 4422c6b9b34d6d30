//! A multi-outcome prediction-market automated market maker whose state is
//! split across independently owned chains that communicate only through
//! asynchronous messages.
//!
//! Each chain is a sequential state machine. The handlers here are pure:
//! they take the chain's state together with a runtime context, and return
//! the actions (token transfers, outgoing messages) that the surrounding
//! runtime must perform. A handler that fails leaves the state untouched,
//! mirroring the all-or-nothing commit of a block boundary.

use vstd::prelude::*;

mod amm;
mod contract;
mod errors;
mod fees;
pub mod fungible;
mod ledger;
mod state;

pub use amm::{
    calc_buy_amount, ceil_div, ending_balance, lemma_shares_issued_bounds,
    lemma_shares_strictly_increasing, shares_issued,
};
pub use contract::{Action, RuntimeContext, TruemarketContract};
pub use errors::Error;
pub use fees::{compute_fee_split, fee_part, lemma_fee_components_bounded, validate_fees, FeeSplit};
pub use ledger::{ReceiptCache, ReceiptEntry, ShareEntry, ShareLedger};
pub use state::{Market, MarketOutcome, MarketView, ShareView, TruemarketState};

verus! {

/// Largest number of outcomes a market may have.
pub const MAX_OUTCOMES: u32 = 32;

/// Largest value any single fee rate may take, in parts of `FEE_DENOMINATOR`.
pub const MAX_FEE: u64 = 500;

/// Smallest arbitration timeout accepted by the market creation interface.
pub const MINIMUM_REALITIO_TIMEOUT: u32 = 3600;

/// Fee rates are expressed as parts of this denominator.
pub const FEE_DENOMINATOR: u128 = 10_000;

/// A fee schedule: three independent rates, each in parts of
/// `FEE_DENOMINATOR` and each individually bounded by `MAX_FEE`.
#[derive(Clone, Copy, PartialEq, Eq, Structural)]
pub struct Fees {
    pub fee: u64,
    pub treasury_fee: u64,
    pub distributor_fee: u64,
}

/// Lifecycle state of a market. Only `Open` markets accept trades;
/// the transitions into `Closed` and `Resolved` are outside this core.
#[derive(Clone, Copy, PartialEq, Eq, Structural)]
pub enum MarketState {
    Open,
    Closed,
    Resolved,
}

/// Whether every rate of the schedule is within the allowed bound.
pub open spec fn fees_valid(fees: Fees) -> bool {
    &&& fees.fee <= MAX_FEE
    &&& fees.treasury_fee <= MAX_FEE
    &&& fees.distributor_fee <= MAX_FEE
}

/// Marker for the market application's interface.
pub struct TruemarketAbi;

/// A caller-initiated, chain-local operation on the market application.
pub enum Operation {
    CreateMarket {
        value: u128,
        closes_at: u64,
        outcomes: u32,
        token: u64,
        distribution: Vec<u64>,
        question: String,
        image: String,
        arbitrator: u64,
        buy_fees: Fees,
        sell_fees: Fees,
        treasury: u64,
        distributor: u64,
        realitio_timeout: u32,
        manager: u64,
    },
    Buy {
        market_id: u64,
        outcome_id: u32,
        min_outcome_shares_to_buy: u128,
        value: u128,
        // The user chain may not hold the market state, so the token to
        // send must travel with the operation.
        token: u64,
    },
}

/// A chain-to-chain message of the market application. The transport
/// supplies the authenticated sender and the origin chain.
#[derive(Clone, Copy, PartialEq, Eq, Debug, Structural)]
pub enum Message {
    /// Buy instruction, sent buyer-chain to market-chain after the funds
    /// were pushed.
    Buy {
        market_id: u64,
        outcome_id: u32,
        min_outcome_shares_to_buy: u128,
        owner: u64,
        value: u128,
        return_chain_id: u64,
    },
    /// Receipt for minted shares, sent market-chain to return-chain.
    ShareMinted { market_id: u64, outcome_id: u32, amount: u128 },
}

} // verus!
