use escrow::account::Account;
use escrow::error::{EscrowError, PredictionMarketError};
use escrow::identity::Identity;
use escrow::ledger::Ledger;
use escrow::prediction_market::{
    claim_winnings, close_market, create_market, place_bet, resolve_market,
};

const MARKET: u64 = 42;
const OPENED: i64 = 1_000;
const DEADLINE: i64 = 2_000;

fn party(tag: u8, lamports: u64) -> Account {
    Account::new(Identity::new([tag; 32]), lamports)
}

fn rule(e: PredictionMarketError) -> Result<(), EscrowError> {
    Err(EscrowError::Rule(e))
}

/// A market with 10,000,000 on YES from `a` and 5,000,000 on NO from `b`.
fn staked_market() -> (Ledger, Account, Account, Account, Account) {
    let mut ledger = Ledger::new();
    let creator = party(1, 0);
    let resolver = party(2, 0);
    let mut a = party(3, 50_000_000);
    let mut b = party(4, 50_000_000);
    assert_eq!(
        create_market(
            &mut ledger,
            &creator,
            resolver.key,
            MARKET,
            String::from("Will it rain?"),
            String::from("Resolves YES if it rains."),
            DEADLINE,
            OPENED,
        ),
        Ok(())
    );
    assert_eq!(place_bet(&mut ledger, &mut a, MARKET, 10_000_000, true, OPENED + 1), Ok(()));
    assert_eq!(place_bet(&mut ledger, &mut b, MARKET, 5_000_000, false, OPENED + 2), Ok(()));
    (ledger, creator, resolver, a, b)
}

/// The same market, resolved for YES at the deadline.
fn resolved_market() -> (Ledger, Account, Account, Account, Account) {
    let (mut ledger, creator, resolver, a, b) = staked_market();
    assert_eq!(resolve_market(&mut ledger, &resolver, MARKET, true, DEADLINE), Ok(()));
    (ledger, creator, resolver, a, b)
}

#[test]
fn winner_is_paid_the_share_less_the_fee() {
    let (mut ledger, _creator, _resolver, mut a, _b) = resolved_market();
    let market = ledger.market(MARKET).unwrap();
    assert_eq!(market.total_yes_amount, 10_000_000);
    assert_eq!(market.total_no_amount, 5_000_000);
    assert_eq!(market.total_pool(), 15_000_000);
    assert_eq!(market.total_bets, 2);
    assert_eq!(ledger.vault_balance(MARKET), Some(15_000_000));
    assert_eq!(a.lamports, 40_000_000);

    assert_eq!(claim_winnings(&mut ledger, &mut a, MARKET), Ok(()));
    assert_eq!(a.lamports, 40_000_000 + 14_700_000);
    assert_eq!(ledger.vault_balance(MARKET), Some(300_000));
    assert!(ledger.bet(MARKET, &a.key).unwrap().claimed);
}

#[test]
fn losing_bettor_gets_nothing() {
    let (mut ledger, _creator, _resolver, _a, mut b) = resolved_market();
    let before = b.lamports;
    assert_eq!(
        claim_winnings(&mut ledger, &mut b, MARKET),
        rule(PredictionMarketError::UserBetOnLosingOutcome)
    );
    assert_eq!(b.lamports, before);
    assert_eq!(ledger.vault_balance(MARKET), Some(15_000_000));
    assert!(!ledger.bet(MARKET, &b.key).unwrap().claimed);
}

#[test]
fn creator_sweeps_the_remainder() {
    let (mut ledger, mut creator, _resolver, mut a, _b) = resolved_market();
    assert_eq!(claim_winnings(&mut ledger, &mut a, MARKET), Ok(()));
    assert_eq!(close_market(&mut ledger, &mut creator, MARKET), Ok(()));
    assert_eq!(creator.lamports, 300_000);
    assert!(ledger.market(MARKET).is_none());
    assert_eq!(ledger.vault_balance(MARKET), None);
    assert_eq!(ledger.market_count(), 0);
    // Bets stay on record after their market is gone.
    assert_eq!(ledger.bet_count(), 2);
}

#[test]
fn resolution_time_must_lie_ahead() {
    let mut ledger = Ledger::new();
    let creator = party(1, 0);
    for resolution_time in [OPENED, OPENED - 1] {
        assert_eq!(
            create_market(
                &mut ledger,
                &creator,
                creator.key,
                MARKET,
                String::from("t"),
                String::from("d"),
                resolution_time,
                OPENED,
            ),
            rule(PredictionMarketError::InvalidResolutionTime)
        );
        assert!(ledger.market(MARKET).is_none());
        assert_eq!(ledger.market_count(), 0);
    }
}

#[test]
fn only_the_resolver_resolves() {
    let (mut ledger, creator, _resolver, _a, _b) = staked_market();
    assert_eq!(
        resolve_market(&mut ledger, &creator, MARKET, true, DEADLINE),
        rule(PredictionMarketError::UnauthorizedResolver)
    );
    let market = ledger.market(MARKET).unwrap();
    assert_eq!(market.winning_outcome, None);
    assert_eq!(market.resolved_at, None);
    assert!(market.is_active);
}

#[test]
fn minimum_bet_boundary() {
    let (mut ledger, _creator, _resolver, _a, _b) = staked_market();
    let mut c = party(5, 10_000_000);
    assert_eq!(
        place_bet(&mut ledger, &mut c, MARKET, 999_999, true, OPENED + 3),
        rule(PredictionMarketError::BetAmountTooLow)
    );
    assert_eq!(c.lamports, 10_000_000);
    assert!(ledger.bet(MARKET, &c.key).is_none());
    assert_eq!(place_bet(&mut ledger, &mut c, MARKET, 1_000_000, true, OPENED + 3), Ok(()));
    assert_eq!(c.lamports, 9_000_000);
    assert_eq!(ledger.bet(MARKET, &c.key).unwrap().amount, 1_000_000);
}

#[test]
fn resolution_time_boundary() {
    let (mut ledger, _creator, resolver, _a, _b) = staked_market();
    assert_eq!(
        resolve_market(&mut ledger, &resolver, MARKET, false, DEADLINE - 1),
        rule(PredictionMarketError::MarketNotExpired)
    );
    assert_eq!(ledger.market(MARKET).unwrap().winning_outcome, None);
    assert_eq!(resolve_market(&mut ledger, &resolver, MARKET, false, DEADLINE), Ok(()));
    let market = ledger.market(MARKET).unwrap();
    assert_eq!(market.winning_outcome, Some(false));
    assert_eq!(market.resolved_at, Some(DEADLINE));
    assert!(!market.is_active);
}

#[test]
fn a_bet_at_the_deadline_is_late() {
    let (mut ledger, _creator, _resolver, _a, _b) = staked_market();
    let mut c = party(5, 10_000_000);
    assert_eq!(place_bet(&mut ledger, &mut c, MARKET, 1_000_000, true, DEADLINE - 1), Ok(()));
    let mut d = party(6, 10_000_000);
    assert_eq!(
        place_bet(&mut ledger, &mut d, MARKET, 1_000_000, true, DEADLINE),
        rule(PredictionMarketError::MarketExpired)
    );
    assert_eq!(d.lamports, 10_000_000);
}

#[test]
fn second_claim_is_refused() {
    let (mut ledger, _creator, _resolver, mut a, _b) = resolved_market();
    assert_eq!(claim_winnings(&mut ledger, &mut a, MARKET), Ok(()));
    let paid = a.lamports;
    assert_eq!(
        claim_winnings(&mut ledger, &mut a, MARKET),
        rule(PredictionMarketError::NoWinningsToClaim)
    );
    assert_eq!(a.lamports, paid);
    assert_eq!(ledger.vault_balance(MARKET), Some(300_000));
}

#[test]
fn second_bet_is_refused() {
    let (mut ledger, _creator, _resolver, mut a, _b) = staked_market();
    let before = a.lamports;
    assert_eq!(
        place_bet(&mut ledger, &mut a, MARKET, 2_000_000, false, OPENED + 5),
        rule(PredictionMarketError::UserAlreadyBet)
    );
    assert_eq!(a.lamports, before);
    assert_eq!(ledger.bet_count(), 2);
    assert_eq!(ledger.market(MARKET).unwrap().total_no_amount, 5_000_000);
}

#[test]
fn market_id_is_taken_once() {
    let (mut ledger, creator, resolver, _a, _b) = staked_market();
    assert_eq!(
        create_market(
            &mut ledger,
            &creator,
            resolver.key,
            MARKET,
            String::from("again"),
            String::from("again"),
            DEADLINE,
            OPENED,
        ),
        Err(EscrowError::AccountInUse)
    );
    assert_eq!(ledger.market_count(), 1);
    assert_eq!(ledger.market(MARKET).unwrap().title, "Will it rain?");
}

#[test]
fn requests_on_a_missing_market_fail() {
    let mut ledger = Ledger::new();
    let mut p = party(9, 5_000_000);
    assert_eq!(
        place_bet(&mut ledger, &mut p, 7, 1_000_000, true, 0),
        Err(EscrowError::AccountNotFound)
    );
    assert_eq!(resolve_market(&mut ledger, &p, 7, true, 0), Err(EscrowError::AccountNotFound));
    assert_eq!(claim_winnings(&mut ledger, &mut p, 7), Err(EscrowError::AccountNotFound));
    assert_eq!(close_market(&mut ledger, &mut p, 7), Err(EscrowError::AccountNotFound));
    assert_eq!(p.lamports, 5_000_000);
}

#[test]
fn claim_without_a_bet_fails() {
    let (mut ledger, _creator, _resolver, _a, _b) = resolved_market();
    let mut stranger = party(8, 1);
    assert_eq!(
        claim_winnings(&mut ledger, &mut stranger, MARKET),
        Err(EscrowError::AccountNotFound)
    );
    assert_eq!(stranger.lamports, 1);
}

#[test]
fn claim_and_close_wait_for_resolution() {
    let (mut ledger, mut creator, _resolver, mut a, _b) = staked_market();
    assert_eq!(
        claim_winnings(&mut ledger, &mut a, MARKET),
        rule(PredictionMarketError::MarketNotResolved)
    );
    assert_eq!(
        close_market(&mut ledger, &mut creator, MARKET),
        rule(PredictionMarketError::MarketNotResolved)
    );
    assert_eq!(ledger.vault_balance(MARKET), Some(15_000_000));
    assert!(ledger.market(MARKET).is_some());
}

#[test]
fn only_the_creator_closes() {
    let (mut ledger, _creator, mut resolver, _a, _b) = resolved_market();
    assert_eq!(close_market(&mut ledger, &mut resolver, MARKET), Err(EscrowError::Unauthorized));
    assert_eq!(resolver.lamports, 0);
    assert_eq!(ledger.vault_balance(MARKET), Some(15_000_000));
}

#[test]
fn a_market_resolves_once() {
    let (mut ledger, _creator, resolver, _a, _b) = resolved_market();
    assert_eq!(
        resolve_market(&mut ledger, &resolver, MARKET, false, DEADLINE + 10),
        rule(PredictionMarketError::MarketAlreadyResolved)
    );
    let market = ledger.market(MARKET).unwrap();
    assert_eq!(market.winning_outcome, Some(true));
    assert_eq!(market.resolved_at, Some(DEADLINE));
}

#[test]
fn no_bets_after_resolution() {
    let (mut ledger, _creator, _resolver, _a, _b) = resolved_market();
    let mut c = party(5, 10_000_000);
    assert_eq!(
        place_bet(&mut ledger, &mut c, MARKET, 1_000_000, true, DEADLINE + 1),
        rule(PredictionMarketError::MarketExpired)
    );
}

#[test]
fn a_bettor_needs_the_stake() {
    let (mut ledger, _creator, _resolver, _a, _b) = staked_market();
    let mut poor = party(5, 999_999);
    assert_eq!(
        place_bet(&mut ledger, &mut poor, MARKET, 1_000_000, true, OPENED + 3),
        Err(EscrowError::InsufficientFunds)
    );
    assert_eq!(poor.lamports, 999_999);
    assert_eq!(ledger.vault_balance(MARKET), Some(15_000_000));
}

#[test]
fn pools_equal_the_bets_on_record() {
    let mut ledger = Ledger::new();
    let creator = party(1, 0);
    for id in [1u64, 2u64] {
        assert_eq!(
            create_market(
                &mut ledger,
                &creator,
                creator.key,
                id,
                String::from("t"),
                String::from("d"),
                DEADLINE,
                OPENED,
            ),
            Ok(())
        );
    }
    let stakes: [(u8, u64, u64, bool); 5] = [
        (10, 1, 3_000_000, true),
        (11, 1, 4_500_000, false),
        (12, 2, 1_000_000, true),
        (10, 2, 2_000_001, true),
        (13, 1, 7_000_000, true),
    ];
    for (tag, id, amount, outcome) in stakes {
        let mut p = party(tag, 20_000_000);
        assert_eq!(place_bet(&mut ledger, &mut p, id, amount, outcome, OPENED + 1), Ok(()));
    }
    for id in [1u64, 2u64] {
        let mut yes: u64 = 0;
        let mut no: u64 = 0;
        for (tag, market, _, _) in stakes {
            if market == id {
                let bet = ledger.bet(id, &Identity::new([tag; 32])).unwrap();
                if bet.outcome {
                    yes += bet.amount;
                } else {
                    no += bet.amount;
                }
            }
        }
        let market = ledger.market(id).unwrap();
        assert_eq!(market.total_yes_amount, yes);
        assert_eq!(market.total_no_amount, no);
        assert_eq!(ledger.vault_balance(id), Some(yes + no));
    }
    assert_eq!(ledger.market(1).unwrap().total_yes_amount, 10_000_000);
    assert_eq!(ledger.market(1).unwrap().total_no_amount, 4_500_000);
    assert_eq!(ledger.market(1).unwrap().total_bets, 3);
    assert_eq!(ledger.market(2).unwrap().total_yes_amount, 3_000_001);
    assert_eq!(ledger.market(2).unwrap().total_bets, 2);
}

#[test]
fn payouts_stay_within_the_pool() {
    let mut ledger = Ledger::new();
    let creator = party(1, 0);
    assert_eq!(
        create_market(
            &mut ledger,
            &creator,
            creator.key,
            MARKET,
            String::from("t"),
            String::from("d"),
            DEADLINE,
            OPENED,
        ),
        Ok(())
    );
    let stakes: [(u8, u64, bool); 4] =
        [(10, 3_000_000, true), (11, 3_000_001, true), (12, 1_000_000, true), (13, 4_000_000, false)];
    let mut parties: Vec<Account> = Vec::new();
    for (tag, amount, outcome) in stakes {
        let mut p = party(tag, amount);
        assert_eq!(place_bet(&mut ledger, &mut p, MARKET, amount, outcome, OPENED + 1), Ok(()));
        assert_eq!(p.lamports, 0);
        parties.push(p);
    }
    assert_eq!(resolve_market(&mut ledger, &creator, MARKET, true, DEADLINE), Ok(()));
    let pool: u64 = 11_000_001;
    let mut paid: u64 = 0;
    for p in parties.iter_mut().take(3) {
        assert_eq!(claim_winnings(&mut ledger, p, MARKET), Ok(()));
        paid += p.lamports;
    }
    // floor(3_000_000 * 11_000_001 / 7_000_001) = 4_714_285, fee 94_285
    assert_eq!(parties[0].lamports, 4_620_000);
    // floor(3_000_001 * 11_000_001 / 7_000_001) = 4_714_287, fee 94_285
    assert_eq!(parties[1].lamports, 4_620_002);
    // floor(1_000_000 * 11_000_001 / 7_000_001) = 1_571_428, fee 31_428
    assert_eq!(parties[2].lamports, 1_540_000);
    assert!(paid <= pool);
    assert_eq!(ledger.vault_balance(MARKET), Some(pool - paid));
}

#[test]
fn a_closed_market_leaves_its_id_free_and_its_bets_on_record() {
    let (mut ledger, mut creator, resolver, mut a, _b) = resolved_market();
    assert_eq!(close_market(&mut ledger, &mut creator, MARKET), Ok(()));
    assert_eq!(creator.lamports, 15_000_000);
    assert_eq!(
        create_market(
            &mut ledger,
            &creator,
            resolver.key,
            MARKET,
            String::from("second round"),
            String::from("same id"),
            DEADLINE + 1_000,
            DEADLINE + 1,
        ),
        Ok(())
    );
    let market = ledger.market(MARKET).unwrap();
    assert_eq!(market.total_yes_amount, 0);
    assert_eq!(market.total_bets, 0);
    assert_eq!(ledger.vault_balance(MARKET), Some(0));
    assert_eq!(ledger.bet_count(), 2);
    assert_eq!(
        place_bet(&mut ledger, &mut a, MARKET, 1_000_000, true, DEADLINE + 2),
        rule(PredictionMarketError::UserAlreadyBet)
    );
}

#[test]
fn records_are_found_under_their_keys() {
    let (ledger, _creator, _resolver, a, b) = staked_market();
    assert_eq!(ledger.find_market(MARKET), Some(0));
    assert_eq!(ledger.find_market(MARKET + 1), None);
    assert_eq!(ledger.find_bet(MARKET, &a.key), Some(0));
    assert_eq!(ledger.find_bet(MARKET, &b.key), Some(1));
    assert_eq!(ledger.find_bet(MARKET + 1, &a.key), None);
    assert_eq!(ledger.find_bet(MARKET, &Identity::new([99; 32])), None);
    let bet = ledger.bet(MARKET, &b.key).unwrap();
    assert_eq!(bet.market, MARKET);
    assert_eq!(bet.bettor, b.key);
    assert_eq!(bet.amount, 5_000_000);
    assert!(!bet.outcome);
    assert_eq!(bet.placed_at, OPENED + 2);
    assert!(!bet.claimed);
}

#[test]
fn markets_keep_their_own_books() {
    let mut ledger = Ledger::new();
    let creator = party(1, 0);
    for id in [1u64, 2u64, 3u64] {
        assert_eq!(
            create_market(
                &mut ledger,
                &creator,
                creator.key,
                id,
                String::from("t"),
                String::from("d"),
                DEADLINE,
                OPENED,
            ),
            Ok(())
        );
    }
    let mut p = party(7, 10_000_000);
    assert_eq!(place_bet(&mut ledger, &mut p, 2, 4_000_000, true, OPENED + 1), Ok(()));
    assert_eq!(resolve_market(&mut ledger, &creator, 2, true, DEADLINE), Ok(()));
    assert_eq!(claim_winnings(&mut ledger, &mut p, 2), Ok(()));
    // Alone in the pool: winnings 4_000_000, fee 80_000.
    assert_eq!(p.lamports, 6_000_000 + 3_920_000);
    assert_eq!(ledger.vault_balance(2), Some(80_000));
    for id in [1u64, 3u64] {
        let market = ledger.market(id).unwrap();
        assert_eq!(market.total_pool(), 0);
        assert_eq!(market.winning_outcome, None);
        assert_eq!(ledger.vault_balance(id), Some(0));
    }
    let mut owner = creator;
    assert_eq!(close_market(&mut ledger, &mut owner, 2), Ok(()));
    assert_eq!(owner.lamports, 80_000);
    assert_eq!(ledger.market_count(), 2);
    assert!(ledger.market(1).is_some());
    assert!(ledger.market(2).is_none());
    assert!(ledger.market(3).is_some());
}
