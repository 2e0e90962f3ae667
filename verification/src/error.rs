//! Failures that the escrow reports to its callers.

use vstd::prelude::*;

verus! {

/// A rule of the market that a request broke.
#[derive(Clone, Copy, Debug, PartialEq, Eq, Structural)]
pub enum PredictionMarketError {
    MarketAlreadyResolved,
    MarketNotExpired,
    MarketExpired,
    BetAmountTooLow,
    MarketNotResolved,
    NoWinningsToClaim,
    UserAlreadyBet,
    UnauthorizedResolver,
    TitleTooLong,
    DescriptionTooLong,
    InvalidResolutionTime,
    MarketStillActive,
    ArithmeticOverflow,
    UserBetOnLosingOutcome,
}

impl PredictionMarketError {
    /// The text shown to the caller for each rule.
    pub open spec fn spec_message(self) -> Seq<char> {
        match self {
            PredictionMarketError::MarketAlreadyResolved => "Market has already been resolved"@,
            PredictionMarketError::MarketNotExpired => "Market resolution time has not passed"@,
            PredictionMarketError::MarketExpired => "Market has expired and cannot accept new bets"@,
            PredictionMarketError::BetAmountTooLow => "Bet amount is below minimum required"@,
            PredictionMarketError::MarketNotResolved => "Market is not resolved yet"@,
            PredictionMarketError::NoWinningsToClaim => "User has no winnings to claim"@,
            PredictionMarketError::UserAlreadyBet => "User already has a bet on this market"@,
            PredictionMarketError::UnauthorizedResolver => "Unauthorized to resolve market"@,
            PredictionMarketError::TitleTooLong => "Title too long"@,
            PredictionMarketError::DescriptionTooLong => "Description too long"@,
            PredictionMarketError::InvalidResolutionTime => "Invalid resolution time"@,
            PredictionMarketError::MarketStillActive => "Market is still active"@,
            PredictionMarketError::ArithmeticOverflow => "Arithmetic overflow"@,
            PredictionMarketError::UserBetOnLosingOutcome => "User bet on losing outcome"@,
        }
    }

    /// Renders the rule as text.
    pub fn message(&self) -> (text: String)
        ensures
            text@ == self.spec_message(),
    {
        let text: &str = match self {
            PredictionMarketError::MarketAlreadyResolved => "Market has already been resolved",
            PredictionMarketError::MarketNotExpired => "Market resolution time has not passed",
            PredictionMarketError::MarketExpired => "Market has expired and cannot accept new bets",
            PredictionMarketError::BetAmountTooLow => "Bet amount is below minimum required",
            PredictionMarketError::MarketNotResolved => "Market is not resolved yet",
            PredictionMarketError::NoWinningsToClaim => "User has no winnings to claim",
            PredictionMarketError::UserAlreadyBet => "User already has a bet on this market",
            PredictionMarketError::UnauthorizedResolver => "Unauthorized to resolve market",
            PredictionMarketError::TitleTooLong => "Title too long",
            PredictionMarketError::DescriptionTooLong => "Description too long",
            PredictionMarketError::InvalidResolutionTime => "Invalid resolution time",
            PredictionMarketError::MarketStillActive => "Market is still active",
            PredictionMarketError::ArithmeticOverflow => "Arithmetic overflow",
            PredictionMarketError::UserBetOnLosingOutcome => "User bet on losing outcome",
        };
        text.to_owned()
    }
}

/// Why a request was turned down: a market rule, or the record store and the
/// balances around it.
#[derive(Clone, Copy, Debug, PartialEq, Eq, Structural)]
pub enum EscrowError {
    /// A rule of the market was broken.
    Rule(PredictionMarketError),
    /// A record already exists under the key that the request would create.
    AccountInUse,
    /// No record exists under the key that the request names.
    AccountNotFound,
    /// A record passed with the request belongs to another market.
    AccountMismatch,
    /// The caller is not the authority stored in the record.
    Unauthorized,
    /// The payer's balance does not cover the amount to move.
    InsufficientFunds,
}

} // verus!
