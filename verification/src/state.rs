//! The records that the escrow keeps: markets and bets.

pub mod bet;
pub mod market;
