//! The error taxonomy of the library. Every error is fatal to the handler
//! invocation that raised it: the handler's effects are discarded and
//! nothing is persisted.

use vstd::prelude::*;

verus! {

/// Reasons a handler invocation aborts.
#[derive(Clone, Copy, PartialEq, Eq, Debug, Structural)]
pub enum Error {
    /// The referenced market id does not exist.
    MarketNotFound,
    /// The market's lifecycle state is not `Open`.
    MarketNotOpen,
    /// The market's independent `paused` flag gates buys.
    MarketPaused,
    /// The outcome index is outside the market's outcome list.
    InvalidOutcome,
    /// A market must have between 2 and `MAX_OUTCOMES` outcomes.
    InvalidOutcomeCount,
    /// A fee rate exceeds `MAX_FEE`.
    FeeTooHigh,
    /// The closing timestamp is not in the future.
    ClosingTimeInPast,
    /// The initial payment for a market may not be zero.
    ZeroValue,
    /// The operation carries no authenticated signer.
    MissingSigner,
    /// The signer of an operation does not match the claimed owner.
    WrongSigner,
    /// A buy instruction message arrived on a chain that does not own
    /// the market state.
    NotMarketChain,
    /// A receipt message's declared origin chain differs from the
    /// market's home chain.
    ForgedReceipt,
    /// Issued shares fell below the caller's acceptable minimum.
    Slippage,
    /// Overflow or underflow in fee computation, share issuance, or a
    /// balance update.
    Arithmetic,
    /// A token debit exceeds the account's balance.
    InsufficientBalance,
}

} // verus!
