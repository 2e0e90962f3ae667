use escrow::account::Account;
use escrow::constants::{
    MAX_DESCRIPTION_LENGTH, MAX_TITLE_LENGTH, MIN_BET_AMOUNT, PLATFORM_FEE_BPS,
};
use escrow::error::{EscrowError, PredictionMarketError};
use escrow::handlers::claim_winnings::{claim_winnings, ClaimWinnings};
use escrow::handlers::close_market::{close_market, CloseMarket};
use escrow::handlers::create_market::{create_market, CreateMarket};
use escrow::handlers::place_bet::{place_bet, PlaceBet};
use escrow::handlers::resolve_market::{resolve_market, ResolveMarket};
use escrow::identity::Identity;
use escrow::state::bet::Bet;
use escrow::state::market::Market;

fn id(tag: u8) -> Identity {
    Identity::new([tag; 32])
}

fn market(yes: u64, no: u64, winning_outcome: Option<bool>) -> Market {
    Market {
        market_id: 5,
        title: String::from("title"),
        description: String::from("description"),
        creator: id(1),
        resolver: id(2),
        resolution_time: 100,
        created_at: 10,
        resolved_at: winning_outcome.map(|_| 100),
        winning_outcome,
        total_yes_amount: yes,
        total_no_amount: no,
        total_bets: 2,
        is_active: winning_outcome.is_none(),
    }
}

fn bet(amount: u64, outcome: bool, claimed: bool) -> Bet {
    Bet { market: 5, bettor: id(3), amount, outcome, placed_at: 20, claimed }
}

#[test]
fn constants_have_their_values() {
    assert_eq!(PLATFORM_FEE_BPS, 200);
    assert_eq!(MIN_BET_AMOUNT, 1_000_000);
    assert_eq!(MAX_TITLE_LENGTH, 100);
    assert_eq!(MAX_DESCRIPTION_LENGTH, 500);
}

#[test]
fn identities_compare_by_bytes() {
    let mut bytes = [7u8; 32];
    assert!(id(7).same(&Identity::new(bytes)));
    bytes[31] = 8;
    assert!(!id(7).same(&Identity::new(bytes)));
    bytes[31] = 7;
    bytes[0] = 0;
    assert!(!id(7).same(&Identity::new(bytes)));
    assert!(Identity::default().same(&id(0)));
}

#[test]
fn market_state_predicates() {
    let open = market(0, 0, None);
    assert!(!open.is_resolved());
    assert!(!open.is_expired(99));
    assert!(open.is_expired(100));
    assert!(open.is_expired(101));
    assert!(open.can_accept_bets(99));
    assert!(!open.can_accept_bets(100));
    let mut paused = market(0, 0, None);
    paused.is_active = false;
    assert!(!paused.can_accept_bets(50));
    let resolved = market(1, 2, Some(false));
    assert!(resolved.is_resolved());
    assert!(!resolved.can_accept_bets(50));
    assert_eq!(resolved.total_pool(), 3);
    assert_eq!(market(u64::MAX - 1, 1, None).total_pool(), u64::MAX);
}

#[test]
fn payout_is_the_proportional_share() {
    let m = market(10_000_000, 5_000_000, Some(true));
    assert_eq!(m.calculate_payout(10_000_000, true), Ok(15_000_000));
    assert_eq!(m.calculate_payout(1_000_000, true), Ok(1_500_000));
    assert_eq!(m.calculate_payout(3, true), Ok(4));
    assert_eq!(m.calculate_payout(5_000_000, false), Ok(0));
    let n = market(10_000_000, 5_000_000, Some(false));
    assert_eq!(n.calculate_payout(5_000_000, false), Ok(15_000_000));
    assert_eq!(n.calculate_payout(1, false), Ok(3));
    assert_eq!(n.calculate_payout(10_000_000, true), Ok(0));
}

#[test]
fn payout_is_zero_without_a_winner() {
    assert_eq!(market(10, 5, None).calculate_payout(10, true), Ok(0));
    assert_eq!(market(0, 5, Some(true)).calculate_payout(10, true), Ok(0));
    assert_eq!(market(5, 0, Some(false)).calculate_payout(10, false), Ok(0));
}

#[test]
fn payout_that_does_not_fit_overflows() {
    let m = market(1, u64::MAX, Some(true));
    assert_eq!(m.calculate_payout(1, true), Err(PredictionMarketError::ArithmeticOverflow));
    let m = market(1, u64::MAX - 1, Some(true));
    assert_eq!(m.calculate_payout(1, true), Ok(u64::MAX));
    let m = market(u64::MAX, u64::MAX, Some(true));
    assert_eq!(m.calculate_payout(u64::MAX, true), Err(PredictionMarketError::ArithmeticOverflow));
    assert_eq!(m.calculate_payout(u64::MAX / 2, true), Ok(u64::MAX - 1));
    let m = market(2, u64::MAX, Some(true));
    assert_eq!(m.calculate_payout(u64::MAX, true), Err(PredictionMarketError::ArithmeticOverflow));
}

#[test]
fn winnings_of_a_claimed_bet_are_zero() {
    let m = market(10_000_000, 5_000_000, Some(true));
    assert_eq!(bet(10_000_000, true, false).calculate_winnings(&m), Ok(15_000_000));
    assert_eq!(bet(10_000_000, true, true).calculate_winnings(&m), Ok(0));
    assert_eq!(bet(5_000_000, false, false).calculate_winnings(&m), Ok(0));
    let big = market(1, u64::MAX, Some(true));
    assert_eq!(
        bet(1, true, false).calculate_winnings(&big),
        Err(PredictionMarketError::ArithmeticOverflow)
    );
    assert_eq!(bet(1, true, true).calculate_winnings(&big), Ok(0));
}

#[test]
fn create_market_fills_the_record() {
    let mut ctx = CreateMarket {
        creator: Account::new(id(1), 9),
        market: market(77, 88, Some(true)),
        resolver: id(2),
    };
    let title = "t".repeat(100);
    let description = "d".repeat(500);
    assert_eq!(create_market(&mut ctx, 11, title.clone(), description.clone(), 101, 100), Ok(()));
    let m = &ctx.market;
    assert_eq!(m.market_id, 11);
    assert_eq!(m.title, title);
    assert_eq!(m.description, description);
    assert!(m.creator.same(&id(1)));
    assert!(m.resolver.same(&id(2)));
    assert_eq!(m.resolution_time, 101);
    assert_eq!(m.created_at, 100);
    assert_eq!(m.resolved_at, None);
    assert_eq!(m.winning_outcome, None);
    assert_eq!(m.total_yes_amount, 0);
    assert_eq!(m.total_no_amount, 0);
    assert_eq!(m.total_bets, 0);
    assert!(m.is_active);
    assert_eq!(ctx.creator.lamports, 9);
}

#[test]
fn create_market_checks_lengths_in_bytes() {
    let blank = || CreateMarket {
        creator: Account::new(id(1), 0),
        market: Market::default(),
        resolver: id(2),
    };
    let mut ctx = blank();
    assert_eq!(
        create_market(&mut ctx, 1, "t".repeat(101), "d".repeat(501), 0, 100),
        Err(EscrowError::Rule(PredictionMarketError::TitleTooLong))
    );
    assert_eq!(
        create_market(&mut ctx, 1, "t".repeat(100), "d".repeat(501), 0, 100),
        Err(EscrowError::Rule(PredictionMarketError::DescriptionTooLong))
    );
    assert_eq!(
        create_market(&mut ctx, 1, "t".repeat(100), "d".repeat(500), 100, 100),
        Err(EscrowError::Rule(PredictionMarketError::InvalidResolutionTime))
    );
    // 34 letters of three bytes each are 102 bytes.
    assert_eq!(
        create_market(&mut ctx, 1, "\u{20ac}".repeat(34), String::new(), 101, 100),
        Err(EscrowError::Rule(PredictionMarketError::TitleTooLong))
    );
    assert_eq!(ctx.market.market_id, 0);
    assert!(!ctx.market.is_active);
    assert_eq!(create_market(&mut ctx, 1, "\u{20ac}".repeat(33), String::new(), 101, 100), Ok(()));
}

#[test]
fn place_bet_moves_the_stake() {
    let mut ctx = PlaceBet {
        bettor: Account::new(id(3), 5_000_000),
        market: market(1_000_000, 2_000_000, None),
        bet: Bet::default(),
        vault: 3_000_000,
    };
    assert_eq!(place_bet(&mut ctx, 1_500_000, false, 50), Ok(()));
    assert_eq!(ctx.bettor.lamports, 3_500_000);
    assert_eq!(ctx.vault, 4_500_000);
    assert_eq!(ctx.market.total_yes_amount, 1_000_000);
    assert_eq!(ctx.market.total_no_amount, 3_500_000);
    assert_eq!(ctx.market.total_bets, 3);
    assert_eq!(ctx.bet.market, 5);
    assert!(ctx.bet.bettor.same(&id(3)));
    assert_eq!(ctx.bet.amount, 1_500_000);
    assert!(!ctx.bet.outcome);
    assert_eq!(ctx.bet.placed_at, 50);
    assert!(!ctx.bet.claimed);
}

#[test]
fn place_bet_overflow_changes_nothing() {
    let fresh = |yes: u64, bets: u64, vault: u64| {
        let mut m = market(yes, 0, None);
        m.total_bets = bets;
        PlaceBet { bettor: Account::new(id(3), u64::MAX), market: m, bet: Bet::default(), vault }
    };
    let overflow = Err(EscrowError::Rule(PredictionMarketError::ArithmeticOverflow));
    let mut ctx = fresh(u64::MAX - 1_000_000 + 1, 0, 0);
    assert_eq!(place_bet(&mut ctx, 1_000_000, true, 50), overflow);
    assert_eq!(ctx.market.total_yes_amount, u64::MAX - 1_000_000 + 1);
    assert_eq!(ctx.bettor.lamports, u64::MAX);
    assert_eq!(ctx.vault, 0);
    let mut ctx = fresh(0, u64::MAX, 0);
    assert_eq!(place_bet(&mut ctx, 1_000_000, true, 50), overflow);
    assert_eq!(ctx.market.total_bets, u64::MAX);
    assert_eq!(ctx.market.total_yes_amount, 0);
    let mut ctx = fresh(0, 0, u64::MAX);
    assert_eq!(place_bet(&mut ctx, 1_000_000, true, 50), overflow);
    assert_eq!(ctx.vault, u64::MAX);
    let mut ctx = fresh(u64::MAX - 1_000_000, 0, 0);
    assert_eq!(place_bet(&mut ctx, 1_000_000, true, 50), Ok(()));
    assert_eq!(ctx.market.total_yes_amount, u64::MAX);
}

#[test]
fn resolve_market_sets_the_outcome() {
    let mut ctx = ResolveMarket { resolver: Account::new(id(2), 0), market: market(1, 2, None) };
    assert_eq!(resolve_market(&mut ctx, false, 100), Ok(()));
    assert_eq!(ctx.market.winning_outcome, Some(false));
    assert_eq!(ctx.market.resolved_at, Some(100));
    assert!(!ctx.market.is_active);
    assert_eq!(ctx.market.total_yes_amount, 1);
    assert_eq!(ctx.market.total_no_amount, 2);
}

#[test]
fn resolve_market_checks_the_caller_first() {
    let mut ctx =
        ResolveMarket { resolver: Account::new(id(9), 0), market: market(1, 2, Some(true)) };
    assert_eq!(
        resolve_market(&mut ctx, false, 0),
        Err(EscrowError::Rule(PredictionMarketError::UnauthorizedResolver))
    );
    ctx.resolver = Account::new(id(2), 0);
    assert_eq!(
        resolve_market(&mut ctx, false, 0),
        Err(EscrowError::Rule(PredictionMarketError::MarketAlreadyResolved))
    );
    assert_eq!(ctx.market.winning_outcome, Some(true));
}

#[test]
fn claim_pays_the_share_less_the_fee() {
    let mut ctx = ClaimWinnings {
        bettor: Account::new(id(3), 7),
        market: market(10_000_000, 5_000_000, Some(true)),
        bet: bet(10_000_000, true, false),
        vault: 15_000_000,
    };
    assert_eq!(claim_winnings(&mut ctx), Ok(()));
    assert_eq!(ctx.bettor.lamports, 14_700_007);
    assert_eq!(ctx.vault, 300_000);
    assert!(ctx.bet.claimed);
    assert_eq!(ctx.bet.amount, 10_000_000);
}

#[test]
fn claim_fee_rounds_down() {
    // winnings 49: fee floor(49 * 200 / 10000) = 0; winnings 50: fee 1.
    let mut ctx = ClaimWinnings {
        bettor: Account::new(id(3), 0),
        market: market(49, 0, Some(true)),
        bet: bet(49, true, false),
        vault: 49,
    };
    assert_eq!(claim_winnings(&mut ctx), Ok(()));
    assert_eq!(ctx.bettor.lamports, 49);
    let mut ctx = ClaimWinnings {
        bettor: Account::new(id(3), 0),
        market: market(50, 0, Some(true)),
        bet: bet(50, true, false),
        vault: 50,
    };
    assert_eq!(claim_winnings(&mut ctx), Ok(()));
    assert_eq!(ctx.bettor.lamports, 49);
    assert_eq!(ctx.vault, 1);
}

#[test]
fn claim_is_refused_in_order() {
    let base = || ClaimWinnings {
        bettor: Account::new(id(3), 0),
        market: market(10_000_000, 5_000_000, Some(true)),
        bet: bet(10_000_000, true, false),
        vault: 15_000_000,
    };
    let mut ctx = base();
    ctx.bet.market = 6;
    ctx.bettor = Account::new(id(4), 0);
    assert_eq!(claim_winnings(&mut ctx), Err(EscrowError::AccountMismatch));
    let mut ctx = base();
    ctx.bettor = Account::new(id(4), 0);
    ctx.market.winning_outcome = None;
    assert_eq!(claim_winnings(&mut ctx), Err(EscrowError::Unauthorized));
    let mut ctx = base();
    ctx.market.winning_outcome = None;
    ctx.bet.claimed = true;
    assert_eq!(
        claim_winnings(&mut ctx),
        Err(EscrowError::Rule(PredictionMarketError::MarketNotResolved))
    );
    let mut ctx = base();
    ctx.bet.claimed = true;
    ctx.bet.outcome = false;
    assert_eq!(
        claim_winnings(&mut ctx),
        Err(EscrowError::Rule(PredictionMarketError::NoWinningsToClaim))
    );
    let mut ctx = base();
    ctx.bet.outcome = false;
    assert_eq!(
        claim_winnings(&mut ctx),
        Err(EscrowError::Rule(PredictionMarketError::UserBetOnLosingOutcome))
    );
    let mut ctx = base();
    ctx.bet.amount = 0;
    assert_eq!(
        claim_winnings(&mut ctx),
        Err(EscrowError::Rule(PredictionMarketError::NoWinningsToClaim))
    );
    assert_eq!(ctx.vault, 15_000_000);
    assert!(!ctx.bet.claimed);
}

#[test]
fn claim_overflows_change_nothing() {
    let overflow = Err(EscrowError::Rule(PredictionMarketError::ArithmeticOverflow));
    // The share itself does not fit.
    let mut ctx = ClaimWinnings {
        bettor: Account::new(id(3), 0),
        market: market(1, u64::MAX, Some(true)),
        bet: bet(1, true, false),
        vault: u64::MAX,
    };
    assert_eq!(claim_winnings(&mut ctx), overflow);
    // The share fits, its product with the fee rate does not.
    let mut ctx = ClaimWinnings {
        bettor: Account::new(id(3), 0),
        market: market(u64::MAX / 200 + 1, 0, Some(true)),
        bet: bet(u64::MAX / 200 + 1, true, false),
        vault: u64::MAX,
    };
    assert_eq!(claim_winnings(&mut ctx), overflow);
    ctx.market.total_yes_amount = u64::MAX / 200;
    ctx.bet.amount = u64::MAX / 200;
    assert_eq!(claim_winnings(&mut ctx), Ok(()));
    // The vault holds less than the payout.
    let mut ctx = ClaimWinnings {
        bettor: Account::new(id(3), 0),
        market: market(10_000_000, 5_000_000, Some(true)),
        bet: bet(10_000_000, true, false),
        vault: 14_699_999,
    };
    assert_eq!(claim_winnings(&mut ctx), overflow);
    assert_eq!(ctx.vault, 14_699_999);
    assert!(!ctx.bet.claimed);
    // The bettor's balance cannot take the payout.
    ctx.vault = 15_000_000;
    ctx.bettor.lamports = u64::MAX - 14_699_999;
    assert_eq!(claim_winnings(&mut ctx), overflow);
    assert_eq!(ctx.bettor.lamports, u64::MAX - 14_699_999);
    ctx.bettor.lamports = u64::MAX - 14_700_000;
    assert_eq!(claim_winnings(&mut ctx), Ok(()));
    assert_eq!(ctx.bettor.lamports, u64::MAX);
}

#[test]
fn close_sweeps_the_vault() {
    let mut ctx = CloseMarket {
        creator: Account::new(id(1), 11),
        market: market(1, 2, Some(true)),
        vault: 300_000,
    };
    assert_eq!(close_market(&mut ctx), Ok(()));
    assert_eq!(ctx.creator.lamports, 300_011);
    assert_eq!(ctx.vault, 0);
    assert_eq!(close_market(&mut ctx), Ok(()));
    assert_eq!(ctx.creator.lamports, 300_011);
}

#[test]
fn close_is_refused() {
    let mut ctx = CloseMarket {
        creator: Account::new(id(2), 0),
        market: market(1, 2, None),
        vault: 3,
    };
    assert_eq!(close_market(&mut ctx), Err(EscrowError::Unauthorized));
    ctx.creator = Account::new(id(1), u64::MAX);
    assert_eq!(
        close_market(&mut ctx),
        Err(EscrowError::Rule(PredictionMarketError::MarketNotResolved))
    );
    ctx.market.winning_outcome = Some(false);
    assert_eq!(
        close_market(&mut ctx),
        Err(EscrowError::Rule(PredictionMarketError::ArithmeticOverflow))
    );
    assert_eq!(ctx.vault, 3);
    assert_eq!(ctx.creator.lamports, u64::MAX);
}

#[test]
fn every_rule_has_its_message() {
    let expected = [
        (PredictionMarketError::MarketAlreadyResolved, "Market has already been resolved"),
        (PredictionMarketError::MarketNotExpired, "Market resolution time has not passed"),
        (PredictionMarketError::MarketExpired, "Market has expired and cannot accept new bets"),
        (PredictionMarketError::BetAmountTooLow, "Bet amount is below minimum required"),
        (PredictionMarketError::MarketNotResolved, "Market is not resolved yet"),
        (PredictionMarketError::NoWinningsToClaim, "User has no winnings to claim"),
        (PredictionMarketError::UserAlreadyBet, "User already has a bet on this market"),
        (PredictionMarketError::UnauthorizedResolver, "Unauthorized to resolve market"),
        (PredictionMarketError::TitleTooLong, "Title too long"),
        (PredictionMarketError::DescriptionTooLong, "Description too long"),
        (PredictionMarketError::InvalidResolutionTime, "Invalid resolution time"),
        (PredictionMarketError::MarketStillActive, "Market is still active"),
        (PredictionMarketError::ArithmeticOverflow, "Arithmetic overflow"),
        (PredictionMarketError::UserBetOnLosingOutcome, "User bet on losing outcome"),
    ];
    for (rule, text) in expected {
        assert_eq!(rule.message(), text);
    }
}
