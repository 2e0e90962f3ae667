//! The five transitions of the market and bet lifecycle. Each one either
//! applies all of its effects or leaves every record and balance as it was.

pub mod claim_winnings;
pub mod close_market;
pub mod create_market;
pub mod place_bet;
pub mod resolve_market;
