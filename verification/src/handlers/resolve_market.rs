//! Declaring the winning outcome.

use vstd::prelude::*;
use crate::account::Account;
use crate::error::{EscrowError, PredictionMarketError};
use crate::state::market::{Market, MarketView};

verus! {

/// The records that resolving a market touches.
#[derive(Clone, Debug)]
pub struct ResolveMarket {
    /// The signer that declares the outcome.
    pub resolver: Account,
    pub market: Market,
}

/// Whether `caller` may resolve `market` at time `now`, and if not, why.
pub open spec fn resolve_market_outcome(market: MarketView, caller: Seq<u8>, now: i64) -> Result<
    (),
    EscrowError,
> {
    if caller != market.resolver {
        Err(EscrowError::Rule(PredictionMarketError::UnauthorizedResolver))
    } else if market.is_resolved() {
        Err(EscrowError::Rule(PredictionMarketError::MarketAlreadyResolved))
    } else if !market.is_expired(now) {
        Err(EscrowError::Rule(PredictionMarketError::MarketNotExpired))
    } else {
        Ok(())
    }
}

/// The market after it was resolved at `now`: the outcome is set, the market
/// no longer active, the pools as they were.
pub open spec fn resolved_market(market: MarketView, winning_outcome: bool, now: i64) -> MarketView {
    MarketView {
        winning_outcome: Some(winning_outcome),
        resolved_at: Some(now),
        is_active: false,
        ..market
    }
}

/// Declares `winning_outcome` at time `now`. Only the market's resolver may
/// do so, once, and not before the resolution time.
pub fn resolve_market(ctx: &mut ResolveMarket, winning_outcome: bool, now: i64) -> (r: Result<
    (),
    EscrowError,
>)
    ensures
        r == resolve_market_outcome(old(ctx).market@, old(ctx).resolver.key@, now),
        r is Err ==> *final(ctx) == *old(ctx),
        r is Ok ==> final(ctx).market@ == resolved_market(old(ctx).market@, winning_outcome, now),
        old(ctx).market@.wf() ==> final(ctx).market@.wf(),
        final(ctx).resolver == old(ctx).resolver,
{
    if !ctx.resolver.key.same(&ctx.market.resolver) {
        return Err(EscrowError::Rule(PredictionMarketError::UnauthorizedResolver));
    }
    if ctx.market.is_resolved() {
        return Err(EscrowError::Rule(PredictionMarketError::MarketAlreadyResolved));
    }
    if !ctx.market.is_expired(now) {
        return Err(EscrowError::Rule(PredictionMarketError::MarketNotExpired));
    }
    ctx.market.winning_outcome = Some(winning_outcome);
    ctx.market.resolved_at = Some(now);
    ctx.market.is_active = false;
    Ok(())
}

} // verus!
