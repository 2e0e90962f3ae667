//! Paying a winner.

use vstd::prelude::*;
use crate::account::Account;
use crate::constants::PLATFORM_FEE_BPS;
use crate::error::{EscrowError, PredictionMarketError};
use crate::state::bet::{Bet, BetView};
use crate::state::market::{net_payout, platform_fee, Market, MarketView};

verus! {

/// The records and balances that a claim touches.
#[derive(Clone, Debug)]
pub struct ClaimWinnings {
    /// The signer that claims.
    pub bettor: Account,
    pub market: Market,
    pub bet: Bet,
    /// The balance of the market's vault.
    pub vault: u64,
}

/// Whether the bet is paid from the vault, and if not, why.
pub open spec fn claim_winnings_outcome(
    market: MarketView,
    bet: BetView,
    caller: Seq<u8>,
    caller_lamports: u64,
    vault: u64,
) -> Result<(), EscrowError> {
    let winnings = market.payout(bet.amount, bet.outcome);
    if bet.market != market.market_id {
        Err(EscrowError::AccountMismatch)
    } else if bet.bettor != caller {
        Err(EscrowError::Unauthorized)
    } else if !market.is_resolved() {
        Err(EscrowError::Rule(PredictionMarketError::MarketNotResolved))
    } else if bet.claimed {
        Err(EscrowError::Rule(PredictionMarketError::NoWinningsToClaim))
    } else if market.winning_outcome != Some(bet.outcome) {
        Err(EscrowError::Rule(PredictionMarketError::UserBetOnLosingOutcome))
    } else if winnings > u64::MAX {
        Err(EscrowError::Rule(PredictionMarketError::ArithmeticOverflow))
    } else if winnings == 0 {
        Err(EscrowError::Rule(PredictionMarketError::NoWinningsToClaim))
    } else if winnings * PLATFORM_FEE_BPS > u64::MAX {
        Err(EscrowError::Rule(PredictionMarketError::ArithmeticOverflow))
    } else if vault < net_payout(winnings) {
        Err(EscrowError::Rule(PredictionMarketError::ArithmeticOverflow))
    } else if caller_lamports + net_payout(winnings) > u64::MAX {
        Err(EscrowError::Rule(PredictionMarketError::ArithmeticOverflow))
    } else {
        Ok(())
    }
}

/// What a winning bet is paid: its share of the pool less the platform fee.
pub open spec fn claim_payout(market: MarketView, bet: BetView) -> int {
    net_payout(market.payout(bet.amount, bet.outcome))
}

/// Pays a winning bet: moves its share of the pool, less the platform fee,
/// from the vault to the bettor and marks the bet as claimed. The fee stays
/// in the vault.
pub fn claim_winnings(ctx: &mut ClaimWinnings) -> (r: Result<(), EscrowError>)
    ensures
        r == claim_winnings_outcome(
            old(ctx).market@,
            old(ctx).bet@,
            old(ctx).bettor.key@,
            old(ctx).bettor.lamports,
            old(ctx).vault,
        ),
        r is Err ==> *final(ctx) == *old(ctx),
        r is Ok ==> {
            &&& final(ctx).vault == old(ctx).vault - claim_payout(old(ctx).market@, old(ctx).bet@)
            &&& final(ctx).bettor.lamports == old(ctx).bettor.lamports + claim_payout(
                old(ctx).market@,
                old(ctx).bet@,
            )
            &&& final(ctx).bet@ == (BetView { claimed: true, ..old(ctx).bet@ })
            &&& claim_payout(old(ctx).market@, old(ctx).bet@) > 0
        },
        final(ctx).market == old(ctx).market,
        final(ctx).bettor.key == old(ctx).bettor.key,
{
    if ctx.bet.market != ctx.market.market_id {
        return Err(EscrowError::AccountMismatch);
    }
    if !ctx.bet.bettor.same(&ctx.bettor.key) {
        return Err(EscrowError::Unauthorized);
    }
    let winning_outcome: bool = match ctx.market.winning_outcome {
        Some(w) => w,
        None => {
            return Err(EscrowError::Rule(PredictionMarketError::MarketNotResolved));
        },
    };
    if ctx.bet.claimed {
        return Err(EscrowError::Rule(PredictionMarketError::NoWinningsToClaim));
    }
    if ctx.bet.outcome != winning_outcome {
        return Err(EscrowError::Rule(PredictionMarketError::UserBetOnLosingOutcome));
    }
    let winnings: u64 = match ctx.bet.calculate_winnings(&ctx.market) {
        Ok(w) => w,
        Err(e) => {
            return Err(EscrowError::Rule(e));
        },
    };
    if winnings == 0 {
        return Err(EscrowError::Rule(PredictionMarketError::NoWinningsToClaim));
    }
    let scaled: u64 = match winnings.checked_mul(PLATFORM_FEE_BPS) {
        Some(product) => product,
        None => {
            return Err(EscrowError::Rule(PredictionMarketError::ArithmeticOverflow));
        },
    };
    let fee: u64 = scaled / 10000;
    assert(fee == platform_fee(winnings as int));
    assert(fee < winnings);
    let payout: u64 = winnings - fee;
    let vault: u64 = match ctx.vault.checked_sub(payout) {
        Some(rest) => rest,
        None => {
            return Err(EscrowError::Rule(PredictionMarketError::ArithmeticOverflow));
        },
    };
    let lamports: u64 = match ctx.bettor.lamports.checked_add(payout) {
        Some(sum) => sum,
        None => {
            return Err(EscrowError::Rule(PredictionMarketError::ArithmeticOverflow));
        },
    };
    ctx.vault = vault;
    ctx.bettor.lamports = lamports;
    ctx.bet.claimed = true;
    Ok(())
}

} // verus!
