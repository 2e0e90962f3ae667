//! The escrow's accounts, audited: what the bets on record add up to, what
//! was paid out, and the balance that a market's pools and vault must show.

use vstd::prelude::*;
use crate::handlers::claim_winnings::claim_payout;
use crate::ledger::{LedgerView, MarketAccountView};
use crate::state::bet::BetView;
use crate::state::market::MarketView;

verus! {

/// What a bet adds to the stake on `outcome` of the market `market_id`: its
/// amount where it is a bet on that outcome of that market, else nothing.
pub open spec fn stake_of(bet: BetView, market_id: u64, outcome: bool) -> int {
    if bet.market == market_id && bet.outcome == outcome {
        bet.amount as int
    } else {
        0
    }
}

/// The sum of the amounts of the bets on `outcome` of the market `market_id`.
pub open spec fn staked(bets: Seq<BetView>, market_id: u64, outcome: bool) -> int
    decreases bets.len(),
{
    if bets.len() == 0 {
        0
    } else {
        staked(bets.drop_last(), market_id, outcome) + stake_of(bets.last(), market_id, outcome)
    }
}

/// The sum of the amounts of all bets on the market `market_id`.
pub open spec fn admitted(bets: Seq<BetView>, market_id: u64) -> int
    decreases bets.len(),
{
    if bets.len() == 0 {
        0
    } else {
        admitted(bets.drop_last(), market_id) + if bets.last().market == market_id {
            bets.last().amount as int
        } else {
            0
        }
    }
}

/// What a bet has drawn from the vault of `market`: its payout where it is a
/// claimed bet on that market, else nothing.
pub open spec fn paid_to(bet: BetView, market: MarketView) -> int {
    if bet.market == market.market_id && bet.claimed {
        claim_payout(market, bet)
    } else {
        0
    }
}

/// The sum of the payouts of all claimed bets on `market`.
pub open spec fn paid_out(bets: Seq<BetView>, market: MarketView) -> int
    decreases bets.len(),
{
    if bets.len() == 0 {
        0
    } else {
        paid_out(bets.drop_last(), market) + paid_to(bets.last(), market)
    }
}

/// What a bet may still draw from the vault of `market`: its payout where it
/// is an unclaimed bet on that market, else nothing.
pub open spec fn owed_to(bet: BetView, market: MarketView) -> int {
    if bet.market == market.market_id && !bet.claimed {
        claim_payout(market, bet)
    } else {
        0
    }
}

/// The sum of the payouts that the unclaimed bets on `market` may still draw.
pub open spec fn owed(bets: Seq<BetView>, market: MarketView) -> int
    decreases bets.len(),
{
    if bets.len() == 0 {
        0
    } else {
        owed(bets.drop_last(), market) + owed_to(bets.last(), market)
    }
}

/// The sum of the winnings, before the fee, of all bets on `market`.
pub open spec fn winnings_due(bets: Seq<BetView>, market: MarketView) -> int
    decreases bets.len(),
{
    if bets.len() == 0 {
        0
    } else {
        winnings_due(bets.drop_last(), market) + if bets.last().market == market.market_id {
            market.payout(bets.last().amount, bets.last().outcome)
        } else {
            0
        }
    }
}

/// Whether no bet on the market `market_id` is marked as claimed.
pub open spec fn no_claims(bets: Seq<BetView>, market_id: u64) -> bool {
    forall|j: int|
        0 <= j < bets.len() && (#[trigger] bets[j]).market == market_id ==> !bets[j].claimed
}

/// Whether no bet on record names the market `market_id`.
pub open spec fn untouched(bets: Seq<BetView>, market_id: u64) -> bool {
    forall|j: int| 0 <= j < bets.len() ==> (#[trigger] bets[j]).market != market_id
}

/// The balance that a market must show against the bets on record: each pool
/// is the sum of the stakes on its side, the vault holds the pools less what
/// was paid out, and nothing is paid out before the market is resolved.
pub open spec fn books_hold(account: MarketAccountView, bets: Seq<BetView>) -> bool {
    let market = account.market;
    &&& staked(bets, market.market_id, true) == market.total_yes_amount
    &&& staked(bets, market.market_id, false) == market.total_no_amount
    &&& account.vault + paid_out(bets, market) == market.total_pool()
    &&& !market.is_resolved() ==> no_claims(bets, market.market_id)
}

/// Whether the books of the market `market_id` balance, if it is on record.
pub open spec fn balanced(v: LedgerView, market_id: u64) -> bool {
    forall|i: int|
        0 <= i < v.markets.len() && (#[trigger] v.markets[i]).market.market_id == market_id
            ==> books_hold(v.markets[i], v.bets)
}

/// A bet recorded last adds its own stake to the sum.
pub proof fn lemma_staked_push(bets: Seq<BetView>, bet: BetView, market_id: u64, outcome: bool)
    ensures
        staked(bets.push(bet), market_id, outcome) == staked(bets, market_id, outcome) + stake_of(
            bet,
            market_id,
            outcome,
        ),
{
    assert(bets.push(bet).drop_last() =~= bets);
}

/// Replacing a bet changes the sum by the difference of the two stakes.
pub proof fn lemma_staked_update(
    bets: Seq<BetView>,
    j: int,
    bet: BetView,
    market_id: u64,
    outcome: bool,
)
    requires
        0 <= j < bets.len(),
    ensures
        staked(bets.update(j, bet), market_id, outcome) == staked(bets, market_id, outcome)
            - stake_of(bets[j], market_id, outcome) + stake_of(bet, market_id, outcome),
    decreases bets.len(),
{
    if j == bets.len() - 1 {
        assert(bets.update(j, bet).drop_last() =~= bets.drop_last());
    } else {
        assert(bets.update(j, bet).drop_last() =~= bets.drop_last().update(j, bet));
        lemma_staked_update(bets.drop_last(), j, bet, market_id, outcome);
    }
}

/// Nothing is staked on a market that no bet names.
pub proof fn lemma_staked_untouched(bets: Seq<BetView>, market_id: u64, outcome: bool)
    requires
        untouched(bets, market_id),
    ensures
        staked(bets, market_id, outcome) == 0,
    decreases bets.len(),
{
    if bets.len() > 0 {
        assert(bets.last() == bets[bets.len() - 1]);
        assert forall|j: int| 0 <= j < bets.drop_last().len() implies (
        #[trigger] bets.drop_last()[j]).market != market_id by {
            assert(bets.drop_last()[j] == bets[j]);
        }
        lemma_staked_untouched(bets.drop_last(), market_id, outcome);
    }
}

/// A bet recorded last adds what it has drawn to the sum of payouts.
pub proof fn lemma_paid_push(bets: Seq<BetView>, bet: BetView, market: MarketView)
    ensures
        paid_out(bets.push(bet), market) == paid_out(bets, market) + paid_to(bet, market),
{
    assert(bets.push(bet).drop_last() =~= bets);
}

/// Replacing a bet changes the sum of payouts by the difference of what
/// the two have drawn.
pub proof fn lemma_paid_update(bets: Seq<BetView>, j: int, bet: BetView, market: MarketView)
    requires
        0 <= j < bets.len(),
    ensures
        paid_out(bets.update(j, bet), market) == paid_out(bets, market) - paid_to(bets[j], market)
            + paid_to(bet, market),
    decreases bets.len(),
{
    if j == bets.len() - 1 {
        assert(bets.update(j, bet).drop_last() =~= bets.drop_last());
    } else {
        assert(bets.update(j, bet).drop_last() =~= bets.drop_last().update(j, bet));
        lemma_paid_update(bets.drop_last(), j, bet, market);
    }
}

/// Nothing was paid out of a market none of whose bets is claimed.
pub proof fn lemma_paid_no_claims(bets: Seq<BetView>, market: MarketView)
    requires
        no_claims(bets, market.market_id),
    ensures
        paid_out(bets, market) == 0,
    decreases bets.len(),
{
    if bets.len() > 0 {
        assert(bets.last() == bets[bets.len() - 1]);
        assert forall|j: int|
            0 <= j < bets.drop_last().len() && (#[trigger] bets.drop_last()[j]).market
                == market.market_id implies !bets.drop_last()[j].claimed by {
            assert(bets.drop_last()[j] == bets[j]);
        }
        lemma_paid_no_claims(bets.drop_last(), market);
    }
}

/// A quotient rounded down, multiplied back, does not exceed the dividend.
pub proof fn lemma_floor_times(x: int, d: int)
    by (nonlinear_arith)
    requires
        0 <= x,
        0 < d,
    ensures
        0 <= x / d,
        (x / d) * d <= x,
{
}

/// The winnings of a stake are not negative.
pub proof fn lemma_payout_not_negative(market: MarketView, amount: u64, outcome: bool)
    ensures
        0 <= market.payout(amount, outcome),
        0 <= crate::state::market::net_payout(market.payout(amount, outcome)) <= market.payout(
            amount,
            outcome,
        ),
{
    let pool = market.pool_of(outcome);
    if market.winning_outcome == Some(outcome) && pool != 0 {
        let x = amount as int * market.total_pool();
        assert(0 <= x) by (nonlinear_arith)
            requires
                x == amount as int * market.total_pool(),
                0 <= amount as int,
                0 <= market.total_pool(),
        ;
        lemma_floor_times(x, pool);
    }
}

/// What the bets on a market have drawn and what they may still draw is, in
/// all, no more than their winnings before the fee.
pub proof fn lemma_paid_and_owed(bets: Seq<BetView>, market: MarketView)
    ensures
        0 <= paid_out(bets, market),
        0 <= owed(bets, market),
        paid_out(bets, market) + owed(bets, market) <= winnings_due(bets, market),
    decreases bets.len(),
{
    if bets.len() > 0 {
        lemma_paid_and_owed(bets.drop_last(), market);
        lemma_payout_not_negative(market, bets.last().amount, bets.last().outcome);
    }
}

/// Each unclaimed bet on a market may draw no more than all of them together.
pub proof fn lemma_owed_covers(bets: Seq<BetView>, market: MarketView, j: int)
    requires
        0 <= j < bets.len(),
    ensures
        owed_to(bets[j], market) <= owed(bets, market),
    decreases bets.len(),
{
    lemma_paid_and_owed(bets.drop_last(), market);
    lemma_payout_not_negative(market, bets.last().amount, bets.last().outcome);
    if j < bets.len() - 1 {
        assert(bets.drop_last()[j] == bets[j]);
        lemma_owed_covers(bets.drop_last(), market, j);
    }
}

/// The winnings of all bets on a resolved market, each rounded down, are
/// together no more than the stakes on the winning side scaled by the ratio
/// of the whole pool to the winning pool.
pub proof fn lemma_winnings_scaled(bets: Seq<BetView>, market: MarketView, winner: bool)
    requires
        market.winning_outcome == Some(winner),
        market.pool_of(winner) > 0,
    ensures
        winnings_due(bets, market) * market.pool_of(winner) <= staked(
            bets,
            market.market_id,
            winner,
        ) * market.total_pool(),
    decreases bets.len(),
{
    let pool = market.pool_of(winner);
    let total = market.total_pool();
    if bets.len() > 0 {
        lemma_winnings_scaled(bets.drop_last(), market, winner);
        let last = bets.last();
        let head = winnings_due(bets.drop_last(), market);
        let head_staked = staked(bets.drop_last(), market.market_id, winner);
        let term = winnings_due(bets, market) - head;
        let stake = stake_of(last, market.market_id, winner);
        assert(term * pool <= stake * total) by {
            if last.market == market.market_id && last.outcome == winner {
                let x = last.amount as int * total;
                assert(0 <= x) by (nonlinear_arith)
                    requires
                        x == last.amount as int * total,
                        0 <= last.amount as int,
                        0 <= total,
                ;
                lemma_floor_times(x, pool);
            } else {
                assert(term == 0);
                assert(stake == 0);
                assert(term * pool == 0) by (nonlinear_arith)
                    requires
                        term == 0,
                ;
                assert(stake * total == 0) by (nonlinear_arith)
                    requires
                        stake == 0,
                ;
            }
        }
        assert((head + term) * pool <= (head_staked + stake) * total) by (nonlinear_arith)
            requires
                head * pool <= head_staked * total,
                term * pool <= stake * total,
        ;
    } else {
        assert(0 * pool <= 0 * total) by (nonlinear_arith);
    }
}

/// Where the pool of the winning side is the sum of the stakes on that side,
/// the winnings of all bets on the market are together no more than the
/// whole pool: rounding leaves dust in the vault and never takes from it.
pub proof fn lemma_winnings_within_pool(bets: Seq<BetView>, market: MarketView)
    requires
        staked(bets, market.market_id, true) == market.total_yes_amount,
        staked(bets, market.market_id, false) == market.total_no_amount,
    ensures
        0 <= winnings_due(bets, market) <= market.total_pool(),
{
    lemma_paid_and_owed(bets, market);
    match market.winning_outcome {
        Some(winner) => {
            let pool = market.pool_of(winner);
            if pool > 0 {
                lemma_winnings_scaled(bets, market, winner);
                let due = winnings_due(bets, market);
                let total = market.total_pool();
                assert(due <= total) by (nonlinear_arith)
                    requires
                        due * pool <= pool * total,
                        pool > 0,
                ;
            } else {
                lemma_winnings_zero(bets, market);
            }
        },
        None => {
            lemma_winnings_zero(bets, market);
        },
    }
}

/// While a market is unresolved, or nothing is staked on the side that won,
/// no bet on it has winnings.
pub proof fn lemma_winnings_zero(bets: Seq<BetView>, market: MarketView)
    requires
        market.winning_outcome matches Some(winner) ==> market.pool_of(winner) == 0,
    ensures
        winnings_due(bets, market) == 0,
    decreases bets.len(),
{
    if bets.len() > 0 {
        lemma_winnings_zero(bets.drop_last(), market);
    }
}

/// The stakes on the two sides of a market add up to all that was staked on
/// it.
pub proof fn lemma_sides_add_up(bets: Seq<BetView>, market_id: u64)
    ensures
        staked(bets, market_id, true) + staked(bets, market_id, false) == admitted(bets, market_id),
    decreases bets.len(),
{
    if bets.len() > 0 {
        lemma_sides_add_up(bets.drop_last(), market_id);
    }
}

} // verus!
