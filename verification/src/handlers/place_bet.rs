//! Staking on an outcome.

use vstd::prelude::*;
use crate::account::Account;
use crate::constants::MIN_BET_AMOUNT;
use crate::error::{EscrowError, PredictionMarketError};
use crate::state::bet::{Bet, BetView};
use crate::state::market::{Market, MarketView};

verus! {

/// The records and balances that placing a bet touches.
#[derive(Clone, Debug)]
pub struct PlaceBet {
    /// The signer that stakes.
    pub bettor: Account,
    pub market: Market,
    /// The record to fill; what it held before is overwritten.
    pub bet: Bet,
    /// The balance of the market's vault.
    pub vault: u64,
}

/// Whether a stake of `amount` on `outcome` is admitted at time `now`, and if
/// not, why.
pub open spec fn place_bet_outcome(
    market: MarketView,
    bettor_lamports: u64,
    vault: u64,
    amount: u64,
    outcome: bool,
    now: i64,
) -> Result<(), EscrowError> {
    if !market.can_accept_bets(now) {
        Err(EscrowError::Rule(PredictionMarketError::MarketExpired))
    } else if amount < MIN_BET_AMOUNT {
        Err(EscrowError::Rule(PredictionMarketError::BetAmountTooLow))
    } else if bettor_lamports < amount {
        Err(EscrowError::InsufficientFunds)
    } else if vault + amount > u64::MAX {
        Err(EscrowError::Rule(PredictionMarketError::ArithmeticOverflow))
    } else if market.pool_of(outcome) + amount > u64::MAX {
        Err(EscrowError::Rule(PredictionMarketError::ArithmeticOverflow))
    } else if market.total_bets + 1 > u64::MAX {
        Err(EscrowError::Rule(PredictionMarketError::ArithmeticOverflow))
    } else {
        Ok(())
    }
}

/// The market after a stake of `amount` on `outcome` was admitted: the pool
/// of that side grows by `amount`, the count of bets by one.
pub open spec fn market_after_bet(market: MarketView, amount: u64, outcome: bool) -> MarketView {
    MarketView {
        total_yes_amount: if outcome {
            (market.total_yes_amount + amount) as u64
        } else {
            market.total_yes_amount
        },
        total_no_amount: if outcome {
            market.total_no_amount
        } else {
            (market.total_no_amount + amount) as u64
        },
        total_bets: (market.total_bets + 1) as u64,
        ..market
    }
}

/// The record of an admitted stake: unclaimed, placed at `now`.
pub open spec fn placed_bet(
    market_id: u64,
    bettor: Seq<u8>,
    amount: u64,
    outcome: bool,
    now: i64,
) -> BetView {
    BetView { market: market_id, bettor, amount, outcome, placed_at: now, claimed: false }
}

/// Stakes `amount` on `outcome` at time `now`: moves the amount from the
/// bettor to the vault, adds it to the pool of that side, counts the bet and
/// fills the bet's record.
pub fn place_bet(ctx: &mut PlaceBet, amount: u64, outcome: bool, now: i64) -> (r: Result<
    (),
    EscrowError,
>)
    ensures
        r == place_bet_outcome(
            old(ctx).market@,
            old(ctx).bettor.lamports,
            old(ctx).vault,
            amount,
            outcome,
            now,
        ),
        r is Err ==> *final(ctx) == *old(ctx),
        r is Ok ==> {
            &&& final(ctx).market@ == market_after_bet(old(ctx).market@, amount, outcome)
            &&& final(ctx).bet@ == placed_bet(
                old(ctx).market.market_id,
                old(ctx).bettor.key@,
                amount,
                outcome,
                now,
            )
            &&& final(ctx).bettor.lamports == old(ctx).bettor.lamports - amount
            &&& final(ctx).vault == old(ctx).vault + amount
        },
        old(ctx).market@.wf() ==> final(ctx).market@.wf(),
        final(ctx).bettor.key == old(ctx).bettor.key,
{
    if !ctx.market.can_accept_bets(now) {
        return Err(EscrowError::Rule(PredictionMarketError::MarketExpired));
    }
    if amount < MIN_BET_AMOUNT {
        return Err(EscrowError::Rule(PredictionMarketError::BetAmountTooLow));
    }
    let bettor_lamports: u64 = match ctx.bettor.lamports.checked_sub(amount) {
        Some(rest) => rest,
        None => {
            return Err(EscrowError::InsufficientFunds);
        },
    };
    let vault: u64 = match ctx.vault.checked_add(amount) {
        Some(sum) => sum,
        None => {
            return Err(EscrowError::Rule(PredictionMarketError::ArithmeticOverflow));
        },
    };
    let side: u64 = if outcome {
        ctx.market.total_yes_amount
    } else {
        ctx.market.total_no_amount
    };
    let side: u64 = match side.checked_add(amount) {
        Some(sum) => sum,
        None => {
            return Err(EscrowError::Rule(PredictionMarketError::ArithmeticOverflow));
        },
    };
    let total_bets: u64 = match ctx.market.total_bets.checked_add(1) {
        Some(count) => count,
        None => {
            return Err(EscrowError::Rule(PredictionMarketError::ArithmeticOverflow));
        },
    };
    ctx.bettor.lamports = bettor_lamports;
    ctx.vault = vault;
    if outcome {
        ctx.market.total_yes_amount = side;
    } else {
        ctx.market.total_no_amount = side;
    }
    ctx.market.total_bets = total_bets;
    ctx.bet.market = ctx.market.market_id;
    ctx.bet.bettor = ctx.bettor.key;
    ctx.bet.amount = amount;
    ctx.bet.outcome = outcome;
    ctx.bet.placed_at = now;
    ctx.bet.claimed = false;
    Ok(())
}

} // verus!
