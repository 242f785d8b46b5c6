use vstd::prelude::*;

verus! {

/// Every way a boundary operation can be refused.
///
/// A refused operation aborts as a whole: the caller sees the error and no
/// partial mutation. Each failure carries a distinct kind so callers can tell
/// recoverable conditions (resubmit with different input) from terminal ones
/// (the market is already decided).
#[derive(Clone, Copy, Debug, PartialEq, Eq, Structural)]
pub enum DpmError {
    /// A market with the requested id already exists.
    DuplicateMarket,
    /// Both seed amounts are zero, leaving the initial price undefined.
    InvalidSeed,
    /// The market is no longer open for bets.
    MarketClosed,
    /// A bet's amount must be strictly positive.
    InvalidAmount,
    /// Accepting the amount would overflow the escrowed pools; the bet is
    /// rejected outright, never saturated.
    AmountOverflow,
    /// The market has already reached a terminal state.
    AlreadyResolved,
    /// The caller is not the market's designated resolver.
    Unauthorized,
    /// Payouts can only be claimed once the market has been decided.
    NotResolved,
    /// The bet's payout has already been claimed.
    AlreadyClaimed,
    /// No market with the requested id exists.
    MarketNotFound,
    /// No bet with the requested key exists.
    BetNotFound,
}

} // verus!
