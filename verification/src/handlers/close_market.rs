//! Closing a resolved market.

use vstd::prelude::*;
use crate::account::Account;
use crate::error::{EscrowError, PredictionMarketError};
use crate::state::market::{Market, MarketView};

verus! {

/// The records and balances that closing a market touches.
#[derive(Clone, Debug)]
pub struct CloseMarket {
    /// The signer that closes the market.
    pub creator: Account,
    pub market: Market,
    /// The balance of the market's vault.
    pub vault: u64,
}

/// Whether `caller` may close `market`, and if not, why.
pub open spec fn close_market_outcome(
    market: MarketView,
    caller: Seq<u8>,
    caller_lamports: u64,
    vault: u64,
) -> Result<(), EscrowError> {
    if caller != market.creator {
        Err(EscrowError::Unauthorized)
    } else if !market.is_resolved() {
        Err(EscrowError::Rule(PredictionMarketError::MarketNotResolved))
    } else if caller_lamports + vault > u64::MAX {
        Err(EscrowError::Rule(PredictionMarketError::ArithmeticOverflow))
    } else {
        Ok(())
    }
}

/// Sweeps whatever the vault of a resolved market still holds to the
/// market's creator and leaves the vault empty.
pub fn close_market(ctx: &mut CloseMarket) -> (r: Result<(), EscrowError>)
    ensures
        r == close_market_outcome(
            old(ctx).market@,
            old(ctx).creator.key@,
            old(ctx).creator.lamports,
            old(ctx).vault,
        ),
        r is Err ==> *final(ctx) == *old(ctx),
        r is Ok ==> {
            &&& final(ctx).vault == 0
            &&& final(ctx).creator.lamports == old(ctx).creator.lamports + old(ctx).vault
        },
        final(ctx).market == old(ctx).market,
        final(ctx).creator.key == old(ctx).creator.key,
{
    if !ctx.creator.key.same(&ctx.market.creator) {
        return Err(EscrowError::Unauthorized);
    }
    if !ctx.market.is_resolved() {
        return Err(EscrowError::Rule(PredictionMarketError::MarketNotResolved));
    }
    let vault_balance: u64 = ctx.vault;
    if vault_balance > 0 {
        let lamports: u64 = match ctx.creator.lamports.checked_add(vault_balance) {
            Some(sum) => sum,
            None => {
                return Err(EscrowError::Rule(PredictionMarketError::ArithmeticOverflow));
            },
        };
        ctx.vault = 0;
        ctx.creator.lamports = lamports;
    }
    Ok(())
}

} // verus!
