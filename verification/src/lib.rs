//! Binary-outcome prediction-market escrow: markets, bets, the payout rule and
//! the custody bookkeeping around them.

pub mod account;
pub mod books;
pub mod constants;
pub mod error;
pub mod handlers;
pub mod identity;
pub mod invariants;
pub mod ledger;
pub mod prediction_market;
pub mod state;
