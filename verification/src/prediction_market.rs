//! The escrow's entry points: each one finds the records of a request under
//! their keys, runs the transition on them, and stores what it changed, or
//! leaves the store and the caller's balance as they were.

use vstd::prelude::*;
use crate::account::Account;
use crate::books::{balanced, untouched};
use crate::error::{EscrowError, PredictionMarketError};
use crate::handlers::claim_winnings::{claim_payout, ClaimWinnings};
use crate::handlers::close_market::CloseMarket;
use crate::handlers::create_market::{opened_market, CreateMarket};
use crate::handlers::place_bet::{market_after_bet, placed_bet, PlaceBet};
use crate::handlers::resolve_market::{resolved_market, ResolveMarket};
use crate::identity::Identity;
use crate::invariants::{
    claim_winnings_keeps_books, close_market_keeps_books, create_market_keeps_books,
    place_bet_keeps_books, resolve_market_keeps_books,
};
use crate::ledger::{
    lemma_bet_pushed, lemma_bet_updated, lemma_market_pushed, lemma_market_removed,
    lemma_market_updated, Ledger, LedgerView, MarketAccount, MarketAccountView,
};
use crate::state::bet::{Bet, BetView};
use crate::state::market::Market;

verus! {

/// Whether a market may be opened under `market_id`, and if not, why: the id
/// must be free, and the request must pass the rules of opening.
pub open spec fn create_market_outcome(
    v: LedgerView,
    market_id: u64,
    title: Seq<char>,
    description: Seq<char>,
    resolution_time: i64,
    now: i64,
) -> Result<(), EscrowError> {
    if v.has_market(market_id) {
        Err(EscrowError::AccountInUse)
    } else {
        crate::handlers::create_market::create_market_outcome(
            title,
            description,
            resolution_time,
            now,
        )
    }
}

/// A market that was just opened, with its empty vault.
pub open spec fn opened_account(
    creator: Seq<u8>,
    resolver: Seq<u8>,
    market_id: u64,
    title: Seq<char>,
    description: Seq<char>,
    resolution_time: i64,
    now: i64,
) -> MarketAccountView {
    MarketAccountView {
        market: opened_market(
            creator,
            resolver,
            market_id,
            title,
            description,
            resolution_time,
            now,
        ),
        vault: 0,
    }
}

/// The store after a market was opened: one more market, with an empty vault.
pub open spec fn market_created(
    v: LedgerView,
    creator: Seq<u8>,
    resolver: Seq<u8>,
    market_id: u64,
    title: Seq<char>,
    description: Seq<char>,
    resolution_time: i64,
    now: i64,
) -> LedgerView {
    LedgerView {
        markets: v.markets.push(
            opened_account(
                creator,
                resolver,
                market_id,
                title,
                description,
                resolution_time,
                now,
            ),
        ),
        bets: v.bets,
    }
}

/// Whether `bettor` may stake `amount` on `outcome` of the market
/// `market_id`, and if not, why: the market must be recorded, the bettor must
/// have no bet on it yet, and the stake must pass the rules of betting.
pub open spec fn place_bet_outcome(
    v: LedgerView,
    bettor: Account,
    market_id: u64,
    amount: u64,
    outcome: bool,
    now: i64,
) -> Result<(), EscrowError> {
    if !v.has_market(market_id) {
        Err(EscrowError::AccountNotFound)
    } else if v.has_bet(market_id, bettor.key@) {
        Err(EscrowError::Rule(PredictionMarketError::UserAlreadyBet))
    } else {
        crate::handlers::place_bet::place_bet_outcome(
            v.market(market_id).market,
            bettor.lamports,
            v.market(market_id).vault,
            amount,
            outcome,
            now,
        )
    }
}

/// A market and its vault after a stake of `amount` on `outcome` was
/// admitted.
pub open spec fn account_after_bet(
    account: MarketAccountView,
    amount: u64,
    outcome: bool,
) -> MarketAccountView {
    MarketAccountView {
        market: market_after_bet(account.market, amount, outcome),
        vault: (account.vault + amount) as u64,
    }
}

/// The store after a stake was admitted: the market's pool and vault grow by
/// the amount, and the bet is recorded after all earlier ones.
pub open spec fn bet_placed(
    v: LedgerView,
    bettor: Seq<u8>,
    market_id: u64,
    amount: u64,
    outcome: bool,
    now: i64,
) -> LedgerView {
    let i = v.market_index(market_id);
    LedgerView {
        markets: v.markets.update(i, account_after_bet(v.markets[i], amount, outcome)),
        bets: v.bets.push(placed_bet(market_id, bettor, amount, outcome, now)),
    }
}

/// Whether `caller` may resolve the market `market_id` at `now`, and if not,
/// why.
pub open spec fn resolve_market_outcome(
    v: LedgerView,
    caller: Seq<u8>,
    market_id: u64,
    now: i64,
) -> Result<(), EscrowError> {
    if !v.has_market(market_id) {
        Err(EscrowError::AccountNotFound)
    } else {
        crate::handlers::resolve_market::resolve_market_outcome(
            v.market(market_id).market,
            caller,
            now,
        )
    }
}

/// A market and its vault after the market was resolved: the vault is as it
/// was.
pub open spec fn account_after_resolution(
    account: MarketAccountView,
    winning_outcome: bool,
    now: i64,
) -> MarketAccountView {
    MarketAccountView {
        market: resolved_market(account.market, winning_outcome, now),
        vault: account.vault,
    }
}

/// The store after the market `market_id` was resolved.
pub open spec fn market_resolved(
    v: LedgerView,
    market_id: u64,
    winning_outcome: bool,
    now: i64,
) -> LedgerView {
    let i = v.market_index(market_id);
    LedgerView {
        markets: v.markets.update(i, account_after_resolution(v.markets[i], winning_outcome, now)),
        bets: v.bets,
    }
}

/// Whether the bet of `bettor` on the market `market_id` is paid, and if not,
/// why.
pub open spec fn claim_winnings_outcome(v: LedgerView, bettor: Account, market_id: u64) -> Result<
    (),
    EscrowError,
> {
    if !v.has_market(market_id) {
        Err(EscrowError::AccountNotFound)
    } else if !v.has_bet(market_id, bettor.key@) {
        Err(EscrowError::AccountNotFound)
    } else {
        crate::handlers::claim_winnings::claim_winnings_outcome(
            v.market(market_id).market,
            v.bet(market_id, bettor.key@),
            bettor.key@,
            bettor.lamports,
            v.market(market_id).vault,
        )
    }
}

/// What the bet of `bettor` on the market `market_id` is paid.
pub open spec fn claimed_amount(v: LedgerView, bettor: Seq<u8>, market_id: u64) -> int {
    claim_payout(v.market(market_id).market, v.bet(market_id, bettor))
}

/// A market and its vault after `bet` was paid from the vault.
pub open spec fn account_after_claim(account: MarketAccountView, bet: BetView) -> MarketAccountView {
    MarketAccountView {
        market: account.market,
        vault: (account.vault - claim_payout(account.market, bet)) as u64,
    }
}

/// A bet after it was paid: marked as claimed, and else as it was.
pub open spec fn claimed_bet(bet: BetView) -> BetView {
    BetView { claimed: true, ..bet }
}

/// The store after the bet of `bettor` on the market `market_id` was paid:
/// the vault holds that much less, and the bet is marked as claimed.
pub open spec fn winnings_claimed(v: LedgerView, bettor: Seq<u8>, market_id: u64) -> LedgerView {
    let i = v.market_index(market_id);
    let j = v.bet_index(market_id, bettor);
    LedgerView {
        markets: v.markets.update(i, account_after_claim(v.markets[i], v.bets[j])),
        bets: v.bets.update(j, claimed_bet(v.bets[j])),
    }
}

/// Whether `caller` may close the market `market_id`, and if not, why.
pub open spec fn close_market_outcome(v: LedgerView, caller: Account, market_id: u64) -> Result<
    (),
    EscrowError,
> {
    if !v.has_market(market_id) {
        Err(EscrowError::AccountNotFound)
    } else {
        crate::handlers::close_market::close_market_outcome(
            v.market(market_id).market,
            caller.key@,
            caller.lamports,
            v.market(market_id).vault,
        )
    }
}

/// The store after the market `market_id` was closed: its record and vault
/// are gone, the bets stay.
pub open spec fn market_closed(v: LedgerView, market_id: u64) -> LedgerView {
    LedgerView { markets: v.markets.remove(v.market_index(market_id)), bets: v.bets }
}

/// Opens a market under `market_id` for `creator`, to be resolved by
/// `resolver`. Moves no funds.
pub fn create_market(
    ledger: &mut Ledger,
    creator: &Account,
    resolver: Identity,
    market_id: u64,
    title: String,
    description: String,
    resolution_time: i64,
    now: i64,
) -> (r: Result<(), EscrowError>)
    requires
        old(ledger).wf(),
    ensures
        r == create_market_outcome(
            old(ledger)@,
            market_id,
            title@,
            description@,
            resolution_time,
            now,
        ),
        r is Err ==> final(ledger)@ == old(ledger)@,
        r is Ok ==> final(ledger)@ == market_created(
            old(ledger)@,
            creator.key@,
            resolver@,
            market_id,
            title@,
            description@,
            resolution_time,
            now,
        ),
        r is Ok ==> {
            &&& final(ledger)@.market_map() == old(ledger)@.market_map().insert(
                market_id,
                opened_account(
                    creator.key@,
                    resolver@,
                    market_id,
                    title@,
                    description@,
                    resolution_time,
                    now,
                ),
            )
            &&& final(ledger)@.bet_map() == old(ledger)@.bet_map()
        },
        final(ledger).wf(),
        forall|id: u64|
            id != market_id && balanced(old(ledger)@, id) ==> #[trigger] balanced(
                final(ledger)@,
                id,
            ),
        r is Ok && untouched(old(ledger)@.bets, market_id) ==> balanced(final(ledger)@, market_id),
{
    if ledger.find_market(market_id).is_some() {
        return Err(EscrowError::AccountInUse);
    }
    let mut ctx = CreateMarket { creator: *creator, market: Market::default(), resolver };
    let r = crate::handlers::create_market::create_market(
        &mut ctx,
        market_id,
        title,
        description,
        resolution_time,
        now,
    );
    match r {
        Ok(()) => {
            let ghost before = ledger@;
            let account = MarketAccount { market: ctx.market, vault: 0 };
            ledger.markets.push(account);
            proof {
                assert(ledger@.markets =~= before.markets.push(account@));
                assert(ledger@.bets =~= before.bets);
                lemma_market_pushed(before, account@);
                assert forall|id: u64|
                    (id != market_id && balanced(before, id)) || (id == market_id && untouched(
                        before.bets,
                        id,
                    )) implies #[trigger] balanced(ledger@, id) by {
                    create_market_keeps_books(
                        before,
                        creator.key@,
                        resolver@,
                        market_id,
                        title@,
                        description@,
                        resolution_time,
                        now,
                        id,
                    );
                }
            }
            Ok(())
        },
        Err(e) => Err(e),
    }
}

/// Stakes `amount` of `bettor`'s balance on `outcome` of the market
/// `market_id`. A bettor has at most one bet on a market.
pub fn place_bet(
    ledger: &mut Ledger,
    bettor: &mut Account,
    market_id: u64,
    amount: u64,
    outcome: bool,
    now: i64,
) -> (r: Result<(), EscrowError>)
    requires
        old(ledger).wf(),
    ensures
        r == place_bet_outcome(old(ledger)@, *old(bettor), market_id, amount, outcome, now),
        r is Err ==> final(ledger)@ == old(ledger)@ && *final(bettor) == *old(bettor),
        r is Ok ==> {
            &&& final(ledger)@ == bet_placed(
                old(ledger)@,
                old(bettor).key@,
                market_id,
                amount,
                outcome,
                now,
            )
            &&& final(ledger)@.market_map() == old(ledger)@.market_map().insert(
                market_id,
                account_after_bet(old(ledger)@.market(market_id), amount, outcome),
            )
            &&& final(ledger)@.bet_map() == old(ledger)@.bet_map().insert(
                (market_id, old(bettor).key@),
                placed_bet(market_id, old(bettor).key@, amount, outcome, now),
            )
            &&& final(bettor).lamports == old(bettor).lamports - amount
            &&& final(bettor).key == old(bettor).key
        },
        final(ledger).wf(),
        forall|id: u64| balanced(old(ledger)@, id) ==> #[trigger] balanced(final(ledger)@, id),
{
    let i: usize = match ledger.find_market(market_id) {
        Some(i) => i,
        None => {
            return Err(EscrowError::AccountNotFound);
        },
    };
    if ledger.find_bet(market_id, &bettor.key).is_some() {
        return Err(EscrowError::Rule(PredictionMarketError::UserAlreadyBet));
    }
    let ghost before = ledger@;
    let account = ledger.markets.remove(i);
    let mut ctx = PlaceBet {
        bettor: *bettor,
        market: account.market,
        bet: Bet::default(),
        vault: account.vault,
    };
    let r = crate::handlers::place_bet::place_bet(&mut ctx, amount, outcome, now);
    let bet = ctx.bet;
    let payer = ctx.bettor;
    let account = MarketAccount { market: ctx.market, vault: ctx.vault };
    ledger.markets.insert(i, account);
    match r {
        Ok(()) => {
            *bettor = payer;
            ledger.bets.push(bet);
            proof {
                assert(ledger@.markets =~= before.markets.update(i as int, account@));
                assert(ledger@.bets =~= before.bets.push(bet@));
                let stored = LedgerView {
                    markets: before.markets.update(i as int, account@),
                    bets: before.bets,
                };
                lemma_market_updated(before, i as int, account@);
                assert(stored.bets == before.bets);
                assert(stored.has_bet(market_id, bet@.bettor) == before.has_bet(
                    market_id,
                    bet@.bettor,
                ));
                lemma_bet_pushed(stored, bet@);
                assert forall|id: u64| balanced(before, id) implies #[trigger] balanced(
                    ledger@,
                    id,
                ) by {
                    place_bet_keeps_books(before, *old(bettor), market_id, amount, outcome, now, id);
                }
            }
            Ok(())
        },
        Err(e) => {
            proof {
                assert(ledger@.markets =~= before.markets);
                assert(ledger@.bets =~= before.bets);
            }
            Err(e)
        },
    }
}

/// Declares the winning outcome of the market `market_id` in the name of
/// `resolver`.
pub fn resolve_market(
    ledger: &mut Ledger,
    resolver: &Account,
    market_id: u64,
    winning_outcome: bool,
    now: i64,
) -> (r: Result<(), EscrowError>)
    requires
        old(ledger).wf(),
    ensures
        r == resolve_market_outcome(old(ledger)@, resolver.key@, market_id, now),
        r is Err ==> final(ledger)@ == old(ledger)@,
        r is Ok ==> final(ledger)@ == market_resolved(
            old(ledger)@,
            market_id,
            winning_outcome,
            now,
        ),
        r is Ok ==> {
            &&& final(ledger)@.market_map() == old(ledger)@.market_map().insert(
                market_id,
                account_after_resolution(old(ledger)@.market(market_id), winning_outcome, now),
            )
            &&& final(ledger)@.bet_map() == old(ledger)@.bet_map()
        },
        final(ledger).wf(),
        forall|id: u64| balanced(old(ledger)@, id) ==> #[trigger] balanced(final(ledger)@, id),
{
    let i: usize = match ledger.find_market(market_id) {
        Some(i) => i,
        None => {
            return Err(EscrowError::AccountNotFound);
        },
    };
    let ghost before = ledger@;
    let account = ledger.markets.remove(i);
    let vault: u64 = account.vault;
    let mut ctx = ResolveMarket { resolver: *resolver, market: account.market };
    let r = crate::handlers::resolve_market::resolve_market(&mut ctx, winning_outcome, now);
    let account = MarketAccount { market: ctx.market, vault };
    ledger.markets.insert(i, account);
    proof {
        assert(ledger@.markets =~= before.markets.update(i as int, account@));
        assert(ledger@.bets =~= before.bets);
        lemma_market_updated(before, i as int, account@);
        if r is Err {
            assert(ledger@.markets =~= before.markets);
        } else {
            assert forall|id: u64| balanced(before, id) implies #[trigger] balanced(
                ledger@,
                id,
            ) by {
                resolve_market_keeps_books(
                    before,
                    resolver.key@,
                    market_id,
                    winning_outcome,
                    now,
                    id,
                );
            }
        }
    }
    r
}

/// Pays the bet of `bettor` on the market `market_id` from the market's
/// vault into `bettor`'s balance.
pub fn claim_winnings(ledger: &mut Ledger, bettor: &mut Account, market_id: u64) -> (r: Result<
    (),
    EscrowError,
>)
    requires
        old(ledger).wf(),
    ensures
        r == claim_winnings_outcome(old(ledger)@, *old(bettor), market_id),
        r is Err ==> final(ledger)@ == old(ledger)@ && *final(bettor) == *old(bettor),
        r is Ok ==> {
            &&& final(ledger)@ == winnings_claimed(old(ledger)@, old(bettor).key@, market_id)
            &&& final(ledger)@.market_map() == old(ledger)@.market_map().insert(
                market_id,
                account_after_claim(
                    old(ledger)@.market(market_id),
                    old(ledger)@.bet(market_id, old(bettor).key@),
                ),
            )
            &&& final(ledger)@.bet_map() == old(ledger)@.bet_map().insert(
                (market_id, old(bettor).key@),
                claimed_bet(old(ledger)@.bet(market_id, old(bettor).key@)),
            )
            &&& final(bettor).lamports == old(bettor).lamports + claimed_amount(
                old(ledger)@,
                old(bettor).key@,
                market_id,
            )
            &&& final(bettor).key == old(bettor).key
        },
        final(ledger).wf(),
        forall|id: u64| balanced(old(ledger)@, id) ==> #[trigger] balanced(final(ledger)@, id),
{
    let i: usize = match ledger.find_market(market_id) {
        Some(i) => i,
        None => {
            return Err(EscrowError::AccountNotFound);
        },
    };
    let j: usize = match ledger.find_bet(market_id, &bettor.key) {
        Some(j) => j,
        None => {
            return Err(EscrowError::AccountNotFound);
        },
    };
    let ghost before = ledger@;
    let account = ledger.markets.remove(i);
    let mut ctx = ClaimWinnings {
        bettor: *bettor,
        market: account.market,
        bet: ledger.bets[j],
        vault: account.vault,
    };
    let r = crate::handlers::claim_winnings::claim_winnings(&mut ctx);
    let bet = ctx.bet;
    let payee = ctx.bettor;
    let account = MarketAccount { market: ctx.market, vault: ctx.vault };
    ledger.markets.insert(i, account);
    match r {
        Ok(()) => {
            *bettor = payee;
            ledger.bets.set(j, bet);
            proof {
                assert(ledger@.markets =~= before.markets.update(i as int, account@));
                assert(ledger@.bets =~= before.bets.update(j as int, bet@));
                let stored = LedgerView {
                    markets: before.markets.update(i as int, account@),
                    bets: before.bets,
                };
                lemma_market_updated(before, i as int, account@);
                assert(stored.bets == before.bets);
                lemma_bet_updated(stored, j as int, bet@);
                assert forall|id: u64| balanced(before, id) implies #[trigger] balanced(
                    ledger@,
                    id,
                ) by {
                    claim_winnings_keeps_books(before, *old(bettor), market_id, id);
                }
            }
            Ok(())
        },
        Err(e) => {
            proof {
                assert(ledger@.markets =~= before.markets);
                assert(ledger@.bets =~= before.bets);
            }
            Err(e)
        },
    }
}

/// Closes the resolved market `market_id`: sweeps what its vault still holds
/// into `creator`'s balance and removes the market's record. Its bets stay
/// on record.
pub fn close_market(ledger: &mut Ledger, creator: &mut Account, market_id: u64) -> (r: Result<
    (),
    EscrowError,
>)
    requires
        old(ledger).wf(),
    ensures
        r == close_market_outcome(old(ledger)@, *old(creator), market_id),
        r is Err ==> final(ledger)@ == old(ledger)@ && *final(creator) == *old(creator),
        r is Ok ==> {
            &&& final(ledger)@ == market_closed(old(ledger)@, market_id)
            &&& final(ledger)@.market_map() == old(ledger)@.market_map().remove(market_id)
            &&& final(ledger)@.bet_map() == old(ledger)@.bet_map()
            &&& final(creator).lamports == old(creator).lamports + old(ledger)@.market(
                market_id,
            ).vault
            &&& final(creator).key == old(creator).key
        },
        final(ledger).wf(),
        forall|id: u64| balanced(old(ledger)@, id) ==> #[trigger] balanced(final(ledger)@, id),
{
    let i: usize = match ledger.find_market(market_id) {
        Some(i) => i,
        None => {
            return Err(EscrowError::AccountNotFound);
        },
    };
    let ghost before = ledger@;
    let account = ledger.markets.remove(i);
    let mut ctx = CloseMarket { creator: *creator, market: account.market, vault: account.vault };
    let r = crate::handlers::close_market::close_market(&mut ctx);
    match r {
        Ok(()) => {
            *creator = ctx.creator;
            proof {
                assert(ledger@.markets =~= before.markets.remove(i as int));
                assert(ledger@.bets =~= before.bets);
                lemma_market_removed(before, i as int);
                assert forall|id: u64| balanced(before, id) implies #[trigger] balanced(
                    ledger@,
                    id,
                ) by {
                    close_market_keeps_books(before, *old(creator), market_id, id);
                }
            }
            Ok(())
        },
        Err(e) => {
            let account = MarketAccount { market: ctx.market, vault: ctx.vault };
            ledger.markets.insert(i, account);
            proof {
                assert(ledger@.markets =~= before.markets);
                assert(ledger@.bets =~= before.bets);
            }
            Err(e)
        },
    }
}

} // verus!
