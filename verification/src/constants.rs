//! Fixed parameters of the escrow.

use vstd::prelude::*;

verus! {

/// The tag under which a market's key is derived; its bytes are the seed.
pub const MARKET_SEED: &'static str = "market";

/// The tag under which a bet's key is derived; its bytes are the seed.
pub const BET_SEED: &'static str = "bet";

/// The tag under which a vault's key is derived; its bytes are the seed.
pub const VAULT_SEED: &'static str = "vault";

/// The tag reserved for a treasury's key; no request uses it.
pub const TREASURY_SEED: &'static str = "treasury";

/// Platform fee in basis points (100 = 1%).
pub const PLATFORM_FEE_BPS: u64 = 200;

/// Smallest stake a bet may carry, in base currency units.
pub const MIN_BET_AMOUNT: u64 = 1_000_000;

/// Longest market title, in bytes.
pub const MAX_TITLE_LENGTH: usize = 100;

/// Longest market description, in bytes.
pub const MAX_DESCRIPTION_LENGTH: usize = 500;

} // verus!
