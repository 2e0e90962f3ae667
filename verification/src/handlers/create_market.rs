//! Opening a market.

use vstd::prelude::*;
use crate::account::Account;
use crate::constants::{MAX_DESCRIPTION_LENGTH, MAX_TITLE_LENGTH};
use crate::error::{EscrowError, PredictionMarketError};
use crate::identity::Identity;
use crate::state::market::{Market, MarketView};

verus! {

/// The records that opening a market touches.
#[derive(Clone, Debug)]
pub struct CreateMarket {
    /// The signer that opens the market.
    pub creator: Account,
    /// The record to fill; what it held before is overwritten.
    pub market: Market,
    /// The authority that will resolve the market; may be the creator.
    pub resolver: Identity,
}

/// The length of a text in bytes, as a string of that text reports it.
pub open spec fn byte_len(text: Seq<char>) -> usize {
    vstd::utf8::encode_utf8(text).len() as usize
}

/// Whether a request to open a market is accepted, and if not, why.
pub open spec fn create_market_outcome(
    title: Seq<char>,
    description: Seq<char>,
    resolution_time: i64,
    now: i64,
) -> Result<(), EscrowError> {
    if byte_len(title) > MAX_TITLE_LENGTH {
        Err(EscrowError::Rule(PredictionMarketError::TitleTooLong))
    } else if byte_len(description) > MAX_DESCRIPTION_LENGTH {
        Err(EscrowError::Rule(PredictionMarketError::DescriptionTooLong))
    } else if resolution_time <= now {
        Err(EscrowError::Rule(PredictionMarketError::InvalidResolutionTime))
    } else {
        Ok(())
    }
}

/// The market that an accepted request opens: active, unresolved, with empty
/// pools.
pub open spec fn opened_market(
    creator: Seq<u8>,
    resolver: Seq<u8>,
    market_id: u64,
    title: Seq<char>,
    description: Seq<char>,
    resolution_time: i64,
    now: i64,
) -> MarketView {
    MarketView {
        market_id,
        title,
        description,
        creator,
        resolver,
        resolution_time,
        created_at: now,
        resolved_at: None,
        winning_outcome: None,
        total_yes_amount: 0,
        total_no_amount: 0,
        total_bets: 0,
        is_active: true,
    }
}

/// Opens a market at time `now`. The title may hold at most 100 bytes, the
/// description at most 500, and the resolution time must lie after `now`.
pub fn create_market(
    ctx: &mut CreateMarket,
    market_id: u64,
    title: String,
    description: String,
    resolution_time: i64,
    now: i64,
) -> (r: Result<(), EscrowError>)
    ensures
        r == create_market_outcome(title@, description@, resolution_time, now),
        r is Err ==> *final(ctx) == *old(ctx),
        r is Ok ==> final(ctx).market@ == opened_market(
            old(ctx).creator.key@,
            old(ctx).resolver@,
            market_id,
            title@,
            description@,
            resolution_time,
            now,
        ),
        r is Ok ==> final(ctx).market@.wf(),
        final(ctx).creator == old(ctx).creator,
        final(ctx).resolver == old(ctx).resolver,
{
    if title.as_str().len() > MAX_TITLE_LENGTH {
        return Err(EscrowError::Rule(PredictionMarketError::TitleTooLong));
    }
    if description.as_str().len() > MAX_DESCRIPTION_LENGTH {
        return Err(EscrowError::Rule(PredictionMarketError::DescriptionTooLong));
    }
    if resolution_time <= now {
        return Err(EscrowError::Rule(PredictionMarketError::InvalidResolutionTime));
    }
    ctx.market.market_id = market_id;
    ctx.market.title = title;
    ctx.market.description = description;
    ctx.market.creator = ctx.creator.key;
    ctx.market.resolver = ctx.resolver;
    ctx.market.resolution_time = resolution_time;
    ctx.market.created_at = now;
    ctx.market.resolved_at = None;
    ctx.market.winning_outcome = None;
    ctx.market.total_yes_amount = 0;
    ctx.market.total_no_amount = 0;
    ctx.market.total_bets = 0;
    ctx.market.is_active = true;
    Ok(())
}

} // verus!
