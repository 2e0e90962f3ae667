//! What holds of the escrow across requests: the books of a market stay
//! balanced, payouts stay within the pool, and a bet is placed and paid once.

use vstd::prelude::*;
use crate::account::Account;
use crate::books::{
    admitted, balanced, books_hold, lemma_owed_covers, lemma_paid_and_owed, lemma_paid_no_claims,
    lemma_paid_push, lemma_paid_update, lemma_sides_add_up, lemma_staked_push,
    lemma_staked_untouched, lemma_staked_update, lemma_winnings_within_pool, no_claims, owed,
    paid_out, staked, untouched,
};
use crate::constants::MIN_BET_AMOUNT;
use crate::error::{EscrowError, PredictionMarketError};
use crate::ledger::{lemma_market_at, LedgerView, MarketAccountView};
use crate::prediction_market::{
    bet_placed, claim_winnings_outcome, claimed_amount, close_market_outcome, create_market_outcome,
    market_closed, market_created, market_resolved, place_bet_outcome, resolve_market_outcome,
    winnings_claimed,
};
use crate::handlers::create_market::opened_market;
use crate::handlers::place_bet::market_after_bet;
use crate::handlers::resolve_market::resolved_market;
use crate::state::bet::BetView;
use crate::state::market::MarketView;

verus! {

/// A market's books stay balanced when a bet on another market is recorded.
proof fn lemma_books_after_foreign_push(account: MarketAccountView, bets: Seq<BetView>, bet: BetView)
    requires
        books_hold(account, bets),
        bet.market != account.market.market_id,
    ensures
        books_hold(account, bets.push(bet)),
{
    let id = account.market.market_id;
    lemma_staked_push(bets, bet, id, true);
    lemma_staked_push(bets, bet, id, false);
    lemma_paid_push(bets, bet, account.market);
    if no_claims(bets, id) {
        assert forall|j: int|
            0 <= j < bets.push(bet).len() && (#[trigger] bets.push(bet)[j]).market
                == id implies !bets.push(bet)[j].claimed by {
            if j < bets.len() {
                assert(bets.push(bet)[j] == bets[j]);
            }
        }
    }
}

/// A market's books stay balanced when a bet on another market changes.
proof fn lemma_books_after_foreign_update(
    account: MarketAccountView,
    bets: Seq<BetView>,
    j: int,
    bet: BetView,
)
    requires
        books_hold(account, bets),
        0 <= j < bets.len(),
        bets[j].market != account.market.market_id,
        bet.market == bets[j].market,
    ensures
        books_hold(account, bets.update(j, bet)),
{
    let id = account.market.market_id;
    lemma_staked_update(bets, j, bet, id, true);
    lemma_staked_update(bets, j, bet, id, false);
    lemma_paid_update(bets, j, bet, account.market);
    if no_claims(bets, id) {
        assert forall|k: int|
            0 <= k < bets.update(j, bet).len() && (#[trigger] bets.update(j, bet)[k]).market
                == id implies !bets.update(j, bet)[k].claimed by {
            if k != j {
                assert(bets.update(j, bet)[k] == bets[k]);
            }
        }
    }
}

/// An empty store is balanced for every market id.
pub proof fn empty_store_is_balanced(v: LedgerView, id: u64)
    requires
        v.markets.len() == 0,
    ensures
        balanced(v, id),
{
}

/// Opening a market keeps the books of every other market balanced, and
/// opens the new market with balanced books where no bet on record names its
/// id.
pub proof fn create_market_keeps_books(
    v: LedgerView,
    creator: Seq<u8>,
    resolver: Seq<u8>,
    market_id: u64,
    title: Seq<char>,
    description: Seq<char>,
    resolution_time: i64,
    now: i64,
    id: u64,
)
    requires
        v.wf(),
        create_market_outcome(v, market_id, title, description, resolution_time, now) is Ok,
        id != market_id ==> balanced(v, id),
        id == market_id ==> untouched(v.bets, id),
    ensures
        balanced(
            market_created(
                v,
                creator,
                resolver,
                market_id,
                title,
                description,
                resolution_time,
                now,
            ),
            id,
        ),
{
    let after = market_created(
        v,
        creator,
        resolver,
        market_id,
        title,
        description,
        resolution_time,
        now,
    );
    assert forall|i: int|
        0 <= i < after.markets.len() && (#[trigger] after.markets[i]).market.market_id
            == id implies books_hold(after.markets[i], after.bets) by {
        if i < v.markets.len() {
            assert(after.markets[i] == v.markets[i]);
            if id == market_id {
                assert(v.has_market(market_id));
            }
        } else {
            lemma_staked_untouched(v.bets, id, true);
            lemma_staked_untouched(v.bets, id, false);
            assert(no_claims(v.bets, id)) by {
                assert forall|j: int|
                    0 <= j < v.bets.len() && (#[trigger] v.bets[j]).market == id implies !v.bets[j].claimed by {}
            }
            lemma_paid_no_claims(v.bets, after.markets[i].market);
        }
    }
}

/// Admitting a bet keeps the books of every market balanced.
pub proof fn place_bet_keeps_books(
    v: LedgerView,
    bettor: Account,
    market_id: u64,
    amount: u64,
    outcome: bool,
    now: i64,
    id: u64,
)
    requires
        v.wf(),
        place_bet_outcome(v, bettor, market_id, amount, outcome, now) is Ok,
        balanced(v, id),
    ensures
        balanced(bet_placed(v, bettor.key@, market_id, amount, outcome, now), id),
{
    let after = bet_placed(v, bettor.key@, market_id, amount, outcome, now);
    let at = v.market_index(market_id);
    let bet = after.bets.last();
    assert(after.bets == v.bets.push(bet));
    assert forall|i: int|
        0 <= i < after.markets.len() && (#[trigger] after.markets[i]).market.market_id
            == id implies books_hold(after.markets[i], after.bets) by {
        if i == at {
            let before = v.markets[at];
            let account = after.markets[i];
            assert(books_hold(before, v.bets));
            lemma_staked_push(v.bets, bet, id, true);
            lemma_staked_push(v.bets, bet, id, false);
            lemma_paid_no_claims(v.bets, before.market);
            assert(no_claims(after.bets, id)) by {
                assert forall|j: int|
                    0 <= j < after.bets.len() && (#[trigger] after.bets[j]).market
                        == id implies !after.bets[j].claimed by {
                    if j < v.bets.len() {
                        assert(after.bets[j] == v.bets[j]);
                    }
                }
            }
            lemma_paid_no_claims(after.bets, account.market);
        } else {
            assert(after.markets[i] == v.markets[i]);
            if i < at {
                assert(v.markets[i].market.market_id != v.markets[at].market.market_id);
            } else {
                assert(v.markets[at].market.market_id != v.markets[i].market.market_id);
            }
            lemma_books_after_foreign_push(v.markets[i], v.bets, bet);
        }
    }
}

/// Resolving a market keeps the books of every market balanced.
pub proof fn resolve_market_keeps_books(
    v: LedgerView,
    caller: Seq<u8>,
    market_id: u64,
    winning_outcome: bool,
    now: i64,
    id: u64,
)
    requires
        v.wf(),
        resolve_market_outcome(v, caller, market_id, now) is Ok,
        balanced(v, id),
    ensures
        balanced(market_resolved(v, market_id, winning_outcome, now), id),
{
    let after = market_resolved(v, market_id, winning_outcome, now);
    let at = v.market_index(market_id);
    assert forall|i: int|
        0 <= i < after.markets.len() && (#[trigger] after.markets[i]).market.market_id
            == id implies books_hold(after.markets[i], after.bets) by {
        if i == at {
            assert(books_hold(v.markets[at], v.bets));
            lemma_paid_no_claims(v.bets, v.markets[at].market);
            lemma_paid_no_claims(v.bets, after.markets[i].market);
        } else {
            assert(after.markets[i] == v.markets[i]);
        }
    }
}

/// Paying a bet keeps the books of every market balanced.
pub proof fn claim_winnings_keeps_books(v: LedgerView, bettor: Account, market_id: u64, id: u64)
    requires
        v.wf(),
        claim_winnings_outcome(v, bettor, market_id) is Ok,
        balanced(v, id),
    ensures
        balanced(winnings_claimed(v, bettor.key@, market_id), id),
{
    let after = winnings_claimed(v, bettor.key@, market_id);
    let at = v.market_index(market_id);
    let j = v.bet_index(market_id, bettor.key@);
    let bet = after.bets[j];
    assert(after.bets == v.bets.update(j, bet));
    assert forall|i: int|
        0 <= i < after.markets.len() && (#[trigger] after.markets[i]).market.market_id
            == id implies books_hold(after.markets[i], after.bets) by {
        if i == at {
            assert(books_hold(v.markets[at], v.bets));
            lemma_staked_update(v.bets, j, bet, id, true);
            lemma_staked_update(v.bets, j, bet, id, false);
            lemma_paid_update(v.bets, j, bet, v.markets[at].market);
        } else {
            assert(after.markets[i] == v.markets[i]);
            if i < at {
                assert(v.markets[i].market.market_id != v.markets[at].market.market_id);
            } else {
                assert(v.markets[at].market.market_id != v.markets[i].market.market_id);
            }
            lemma_books_after_foreign_update(v.markets[i], v.bets, j, bet);
        }
    }
}

/// Closing a market keeps the books of every market balanced.
pub proof fn close_market_keeps_books(v: LedgerView, caller: Account, market_id: u64, id: u64)
    requires
        v.wf(),
        close_market_outcome(v, caller, market_id) is Ok,
        balanced(v, id),
    ensures
        balanced(market_closed(v, market_id), id),
{
    let after = market_closed(v, market_id);
    let at = v.market_index(market_id);
    assert forall|i: int|
        0 <= i < after.markets.len() && (#[trigger] after.markets[i]).market.market_id
            == id implies books_hold(after.markets[i], after.bets) by {
        if i < at {
            assert(after.markets[i] == v.markets[i]);
        } else {
            assert(after.markets[i] == v.markets[i + 1]);
        }
    }
}

/// While a market's books are balanced, its two pools together equal the
/// sum of the amounts of all bets admitted on it.
pub proof fn pools_equal_admitted_bets(v: LedgerView, market_id: u64)
    requires
        v.has_market(market_id),
        balanced(v, market_id),
    ensures
        v.market(market_id).market.total_pool() == admitted(v.bets, market_id),
        v.market(market_id).market.total_yes_amount == staked(v.bets, market_id, true),
        v.market(market_id).market.total_no_amount == staked(v.bets, market_id, false),
{
    let at = v.market_index(market_id);
    assert(books_hold(v.markets[at], v.bets));
    lemma_sides_add_up(v.bets, market_id);
}

/// While a market's books are balanced, all that was paid to its claimed
/// bets is no more than its pool, and the vault holds the rest.
pub proof fn payouts_within_pool(v: LedgerView, market_id: u64)
    requires
        v.has_market(market_id),
        balanced(v, market_id),
    ensures
        paid_out(v.bets, v.market(market_id).market) <= v.market(market_id).market.total_pool(),
        v.market(market_id).vault == v.market(market_id).market.total_pool() - paid_out(
            v.bets,
            v.market(market_id).market,
        ),
{
    let at = v.market_index(market_id);
    assert(books_hold(v.markets[at], v.bets));
}

/// While a resolved market's books are balanced, the payouts of all its bets
/// together, those made and those still to be claimed, are no more than its
/// pool: the fee and the rounding dust never exceed it.
pub proof fn all_payouts_within_pool(v: LedgerView, market_id: u64)
    requires
        v.has_market(market_id),
        balanced(v, market_id),
    ensures
        paid_out(v.bets, v.market(market_id).market) + owed(v.bets, v.market(market_id).market)
            <= v.market(market_id).market.total_pool(),
        owed(v.bets, v.market(market_id).market) <= v.market(market_id).vault,
{
    let at = v.market_index(market_id);
    assert(books_hold(v.markets[at], v.bets));
    lemma_paid_and_owed(v.bets, v.markets[at].market);
    lemma_winnings_within_pool(v.bets, v.markets[at].market);
}

/// While a market's books are balanced, its vault covers the payout of each
/// bet that has not been claimed: no winner finds the vault short.
pub proof fn vault_covers_each_claim(v: LedgerView, bettor: Seq<u8>, market_id: u64)
    requires
        v.wf(),
        v.has_market(market_id),
        v.has_bet(market_id, bettor),
        !v.bet(market_id, bettor).claimed,
        balanced(v, market_id),
    ensures
        claimed_amount(v, bettor, market_id) <= v.market(market_id).vault,
{
    all_payouts_within_pool(v, market_id);
    let j = v.bet_index(market_id, bettor);
    lemma_owed_covers(v.bets, v.market(market_id).market, j);
}

/// Once a bet was paid, a second claim for it fails: there are no winnings
/// left to claim.
pub proof fn second_claim_is_refused(
    v: LedgerView,
    bettor: Account,
    market_id: u64,
    again: Account,
)
    requires
        v.wf(),
        claim_winnings_outcome(v, bettor, market_id) is Ok,
        again.key@ == bettor.key@,
    ensures
        claim_winnings_outcome(winnings_claimed(v, bettor.key@, market_id), again, market_id) == Err::<
            (),
            EscrowError,
        >(EscrowError::Rule(PredictionMarketError::NoWinningsToClaim)),
{
    let after = winnings_claimed(v, bettor.key@, market_id);
    let at = v.market_index(market_id);
    let j = v.bet_index(market_id, bettor.key@);
    assert(after.markets[at].market.market_id == market_id);
    assert(after.bets[j].market == market_id && after.bets[j].bettor == bettor.key@);
    assert(after.wf()) by {
        assert forall|a: int, b: int| 0 <= a < b < after.markets.len() implies (
        #[trigger] after.markets[a]).market.market_id != (
        #[trigger] after.markets[b]).market.market_id by {
            assert(after.markets[a].market.market_id == v.markets[a].market.market_id);
            assert(after.markets[b].market.market_id == v.markets[b].market.market_id);
        }
        assert forall|a: int, b: int| 0 <= a < b < after.bets.len() implies !((
        #[trigger] after.bets[a]).market == (#[trigger] after.bets[b]).market
            && after.bets[a].bettor == after.bets[b].bettor) by {
            assert(after.bets[a].market == v.bets[a].market && after.bets[a].bettor
                == v.bets[a].bettor);
            assert(after.bets[b].market == v.bets[b].market && after.bets[b].bettor
                == v.bets[b].bettor);
        }
    }
    lemma_market_at(after, at);
    crate::ledger::lemma_bet_at(after, j);
}

/// A claim for a bet that is marked as claimed fails on a resolved market,
/// whoever holds what: there are no winnings left to claim.
pub proof fn claimed_bet_claims_nothing(
    market: MarketView,
    bet: BetView,
    caller_lamports: u64,
    vault: u64,
)
    requires
        market.is_resolved(),
        bet.market == market.market_id,
        bet.claimed,
    ensures
        crate::handlers::claim_winnings::claim_winnings_outcome(
            market,
            bet,
            bet.bettor,
            caller_lamports,
            vault,
        ) == Err::<(), EscrowError>(EscrowError::Rule(PredictionMarketError::NoWinningsToClaim)),
{
}

/// Once a bettor's stake on a market was admitted, a second stake of that
/// bettor on that market fails, whatever its amount, side and time.
pub proof fn second_bet_is_refused(
    v: LedgerView,
    bettor: Account,
    market_id: u64,
    amount: u64,
    outcome: bool,
    now: i64,
    again: Account,
    second_amount: u64,
    second_outcome: bool,
    later: i64,
)
    requires
        v.wf(),
        place_bet_outcome(v, bettor, market_id, amount, outcome, now) is Ok,
        again.key@ == bettor.key@,
    ensures
        place_bet_outcome(
            bet_placed(v, bettor.key@, market_id, amount, outcome, now),
            again,
            market_id,
            second_amount,
            second_outcome,
            later,
        ) == Err::<(), EscrowError>(EscrowError::Rule(PredictionMarketError::UserAlreadyBet)),
{
    let after = bet_placed(v, bettor.key@, market_id, amount, outcome, now);
    let at = v.market_index(market_id);
    assert(after.markets[at].market.market_id == market_id);
    let last = after.bets.len() - 1;
    assert(after.bets[last].market == market_id && after.bets[last].bettor == bettor.key@);
}

/// A market that was just opened is well formed.
pub proof fn opened_market_is_well_formed(
    creator: Seq<u8>,
    resolver: Seq<u8>,
    market_id: u64,
    title: Seq<char>,
    description: Seq<char>,
    resolution_time: i64,
    now: i64,
)
    requires
        crate::handlers::create_market::create_market_outcome(
            title,
            description,
            resolution_time,
            now,
        ) is Ok,
    ensures
        opened_market(
            creator,
            resolver,
            market_id,
            title,
            description,
            resolution_time,
            now,
        ).wf(),
{
}

/// An admitted bet leaves its market well formed and unresolved, and
/// neither of the market's pools smaller than before.
pub proof fn pools_only_grow(
    market: MarketView,
    bettor_lamports: u64,
    vault: u64,
    amount: u64,
    outcome: bool,
    now: i64,
)
    requires
        market.wf(),
        crate::handlers::place_bet::place_bet_outcome(
            market,
            bettor_lamports,
            vault,
            amount,
            outcome,
            now,
        ) is Ok,
    ensures
        market_after_bet(market, amount, outcome).wf(),
        !market_after_bet(market, amount, outcome).is_resolved(),
        market_after_bet(market, amount, outcome).total_yes_amount >= market.total_yes_amount,
        market_after_bet(market, amount, outcome).total_no_amount >= market.total_no_amount,
        market_after_bet(market, amount, outcome).total_pool() == market.total_pool() + amount,
{
}

/// Resolving a well-formed market leaves it well formed, resolved and no
/// longer active, with its pools as they were.
pub proof fn resolution_freezes_the_pools(
    market: MarketView,
    caller: Seq<u8>,
    winning_outcome: bool,
    now: i64,
)
    requires
        market.wf(),
        crate::handlers::resolve_market::resolve_market_outcome(market, caller, now) is Ok,
    ensures
        resolved_market(market, winning_outcome, now).wf(),
        resolved_market(market, winning_outcome, now).winning_outcome == Some(winning_outcome),
        !resolved_market(market, winning_outcome, now).is_active,
        resolved_market(market, winning_outcome, now).total_yes_amount == market.total_yes_amount,
        resolved_market(market, winning_outcome, now).total_no_amount == market.total_no_amount,
{
}

/// A resolved market stays as it is: nobody can resolve it again, at any
/// time, and no bet on it is admitted any more.
pub proof fn resolution_is_final(
    market: MarketView,
    caller: Seq<u8>,
    now: i64,
    bettor_lamports: u64,
    vault: u64,
    amount: u64,
    outcome: bool,
)
    requires
        market.is_resolved(),
    ensures
        crate::handlers::resolve_market::resolve_market_outcome(market, caller, now) is Err,
        caller == market.resolver ==> crate::handlers::resolve_market::resolve_market_outcome(
            market,
            caller,
            now,
        ) == Err::<(), EscrowError>(
            EscrowError::Rule(PredictionMarketError::MarketAlreadyResolved),
        ),
        crate::handlers::place_bet::place_bet_outcome(
            market,
            bettor_lamports,
            vault,
            amount,
            outcome,
            now,
        ) == Err::<(), EscrowError>(EscrowError::Rule(PredictionMarketError::MarketExpired)),
{
}

/// A stake one unit under the minimum is refused; a stake of exactly the
/// minimum is admitted on a market that accepts bets, where the bettor
/// holds it and no count overflows.
pub proof fn minimum_bet_is_the_boundary(
    market: MarketView,
    bettor_lamports: u64,
    vault: u64,
    outcome: bool,
    now: i64,
)
    ensures
        crate::handlers::place_bet::place_bet_outcome(
            market,
            bettor_lamports,
            vault,
            (MIN_BET_AMOUNT - 1) as u64,
            outcome,
            now,
        ) is Err,
        market.can_accept_bets(now) ==> crate::handlers::place_bet::place_bet_outcome(
            market,
            bettor_lamports,
            vault,
            (MIN_BET_AMOUNT - 1) as u64,
            outcome,
            now,
        ) == Err::<(), EscrowError>(EscrowError::Rule(PredictionMarketError::BetAmountTooLow)),
        market.can_accept_bets(now) && bettor_lamports >= MIN_BET_AMOUNT && vault + MIN_BET_AMOUNT
            <= u64::MAX && market.pool_of(outcome) + MIN_BET_AMOUNT <= u64::MAX
            && market.total_bets < u64::MAX ==> crate::handlers::place_bet::place_bet_outcome(
            market,
            bettor_lamports,
            vault,
            MIN_BET_AMOUNT,
            outcome,
            now,
        ) is Ok,
{
}

/// The resolver of an unresolved market may resolve it at the resolution
/// time itself, and not one unit of time before.
pub proof fn resolution_time_is_the_boundary(market: MarketView)
    requires
        !market.is_resolved(),
        market.resolution_time > i64::MIN,
    ensures
        crate::handlers::resolve_market::resolve_market_outcome(
            market,
            market.resolver,
            market.resolution_time,
        ) is Ok,
        crate::handlers::resolve_market::resolve_market_outcome(
            market,
            market.resolver,
            (market.resolution_time - 1) as i64,
        ) == Err::<(), EscrowError>(EscrowError::Rule(PredictionMarketError::MarketNotExpired)),
{
}

} // verus!
