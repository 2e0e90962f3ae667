//! A market: the proposition, its pools and its resolution state.

use vstd::prelude::*;
use crate::constants::PLATFORM_FEE_BPS;
use crate::error::PredictionMarketError;
use crate::identity::Identity;

verus! {

/// The proposition being wagered on, with its running pools.
#[derive(Clone, Debug, PartialEq, Eq)]
pub struct Market {
    pub market_id: u64,
    pub title: String,
    pub description: String,
    pub creator: Identity,
    /// The authority that may declare the winning outcome.
    pub resolver: Identity,
    pub resolution_time: i64,
    pub created_at: i64,
    pub resolved_at: Option<i64>,
    /// `None` while unresolved; `Some(true)` when YES won, `Some(false)` when NO won.
    pub winning_outcome: Option<bool>,
    pub total_yes_amount: u64,
    pub total_no_amount: u64,
    pub total_bets: u64,
    pub is_active: bool,
}

/// What a market is, as plain mathematical data.
pub struct MarketView {
    pub market_id: u64,
    pub title: Seq<char>,
    pub description: Seq<char>,
    pub creator: Seq<u8>,
    pub resolver: Seq<u8>,
    pub resolution_time: i64,
    pub created_at: i64,
    pub resolved_at: Option<i64>,
    pub winning_outcome: Option<bool>,
    pub total_yes_amount: u64,
    pub total_no_amount: u64,
    pub total_bets: u64,
    pub is_active: bool,
}

impl View for Market {
    type V = MarketView;

    open spec fn view(&self) -> MarketView {
        MarketView {
            market_id: self.market_id,
            title: self.title@,
            description: self.description@,
            creator: self.creator@,
            resolver: self.resolver@,
            resolution_time: self.resolution_time,
            created_at: self.created_at,
            resolved_at: self.resolved_at,
            winning_outcome: self.winning_outcome,
            total_yes_amount: self.total_yes_amount,
            total_no_amount: self.total_no_amount,
            total_bets: self.total_bets,
            is_active: self.is_active,
        }
    }
}

/// The share of the whole pool that a stake on the winning side recovers:
/// `floor(amount * total_pool / winning_pool)`, and nothing when nobody staked
/// on the winning side.
pub open spec fn proportional_share(amount: int, total_pool: int, winning_pool: int) -> int {
    if winning_pool == 0 {
        0
    } else {
        (amount * total_pool) / winning_pool
    }
}

/// The platform's cut of some winnings: `floor(winnings * fee_bps / 10000)`.
pub open spec fn platform_fee(winnings: int) -> int {
    (winnings * PLATFORM_FEE_BPS as int) / 10000
}

/// What a winner is paid: the winnings less the platform's cut.
pub open spec fn net_payout(winnings: int) -> int {
    winnings - platform_fee(winnings)
}

impl MarketView {
    /// What holds of a market from its opening on: it resolves after it was
    /// created, it is active exactly while it is unresolved, and it carries
    /// the time of its resolution exactly when it carries an outcome.
    pub open spec fn wf(self) -> bool {
        &&& self.resolution_time > self.created_at
        &&& self.is_active == !self.is_resolved()
        &&& self.resolved_at.is_some() == self.winning_outcome.is_some()
    }

    /// Whether a winning outcome has been declared.
    pub open spec fn is_resolved(self) -> bool {
        self.winning_outcome.is_some()
    }

    /// Whether the resolution time has been reached at time `now`.
    pub open spec fn is_expired(self, now: i64) -> bool {
        now >= self.resolution_time
    }

    /// Whether a bet may still be placed at time `now`: the market is
    /// active, unresolved and not yet expired.
    pub open spec fn can_accept_bets(self, now: i64) -> bool {
        self.is_active && !self.is_resolved() && !self.is_expired(now)
    }

    /// The combined stake on both sides.
    pub open spec fn total_pool(self) -> int {
        self.total_yes_amount + self.total_no_amount
    }

    /// The total staked on one side.
    pub open spec fn pool_of(self, outcome: bool) -> int {
        if outcome {
            self.total_yes_amount as int
        } else {
            self.total_no_amount as int
        }
    }

    /// The winnings owed to a stake of `bet_amount` on `bet_outcome`: zero
    /// while the market is unresolved or when the stake is on the losing side,
    /// else its proportional share of the whole pool.
    pub open spec fn payout(self, bet_amount: u64, bet_outcome: bool) -> int {
        if self.winning_outcome == Some(bet_outcome) {
            proportional_share(bet_amount as int, self.total_pool(), self.pool_of(bet_outcome))
        } else {
            0
        }
    }
}

impl Default for Market {
    /// A blank record: no text, zero numbers, unresolved and not active.
    fn default() -> (market: Market)
        ensures
            market@ == (MarketView {
                market_id: 0,
                title: Seq::empty(),
                description: Seq::empty(),
                creator: Identity::default_view(),
                resolver: Identity::default_view(),
                resolution_time: 0,
                created_at: 0,
                resolved_at: None,
                winning_outcome: None,
                total_yes_amount: 0,
                total_no_amount: 0,
                total_bets: 0,
                is_active: false,
            }),
    {
        Market {
            market_id: 0,
            title: String::new(),
            description: String::new(),
            creator: Identity::default(),
            resolver: Identity::default(),
            resolution_time: 0,
            created_at: 0,
            resolved_at: None,
            winning_outcome: None,
            total_yes_amount: 0,
            total_no_amount: 0,
            total_bets: 0,
            is_active: false,
        }
    }
}

impl Market {
    /// Whether a winning outcome has been declared.
    pub fn is_resolved(&self) -> (r: bool)
        ensures
            r == self@.is_resolved(),
    {
        self.winning_outcome.is_some()
    }

    /// Whether the resolution time has been reached at time `now`.
    pub fn is_expired(&self, now: i64) -> (r: bool)
        ensures
            r == self@.is_expired(now),
    {
        now >= self.resolution_time
    }

    /// Whether a bet may still be placed at time `now`.
    pub fn can_accept_bets(&self, now: i64) -> (r: bool)
        ensures
            r == self@.can_accept_bets(now),
    {
        self.is_active && !self.is_resolved() && !self.is_expired(now)
    }

    /// The combined stake on both sides.
    pub fn total_pool(&self) -> (r: u64)
        requires
            self@.total_pool() <= u64::MAX,
        ensures
            r == self@.total_pool(),
    {
        self.total_yes_amount + self.total_no_amount
    }

    /// The winnings owed to a stake of `bet_amount` on `bet_outcome`, before
    /// the platform fee. Fails only when the share does not fit in 64 bits.
    pub fn calculate_payout(&self, bet_amount: u64, bet_outcome: bool) -> (r: Result<
        u64,
        PredictionMarketError,
    >)
        ensures
            self@.payout(bet_amount, bet_outcome) <= u64::MAX ==> r == Ok::<
                u64,
                PredictionMarketError,
            >(self@.payout(bet_amount, bet_outcome) as u64),
            self@.payout(bet_amount, bet_outcome) > u64::MAX ==> r == Err::<
                u64,
                PredictionMarketError,
            >(PredictionMarketError::ArithmeticOverflow),
    {
        let winning_outcome: bool = match self.winning_outcome {
            None => {
                return Ok(0);
            },
            Some(w) => w,
        };
        if bet_outcome != winning_outcome {
            return Ok(0);
        }
        let total_pool: u128 = self.total_yes_amount as u128 + self.total_no_amount as u128;
        let winning_pool: u64 = if winning_outcome {
            self.total_yes_amount
        } else {
            self.total_no_amount
        };
        if winning_pool == 0 {
            return Ok(0);
        }
        let ghost product: int = bet_amount as int * total_pool as int;
        let ghost pool: int = winning_pool as int;
        assert(product >= 0) by (nonlinear_arith)
            requires
                product == bet_amount as int * total_pool as int,
        ;
        match (bet_amount as u128).checked_mul(total_pool) {
            None => {
                assert(product / pool > u64::MAX) by (nonlinear_arith)
                    requires
                        product > u128::MAX,
                        0 < pool <= u64::MAX,
                ;
                Err(PredictionMarketError::ArithmeticOverflow)
            },
            Some(scaled) => {
                let share: u128 = scaled / (winning_pool as u128);
                if share > u64::MAX as u128 {
                    Err(PredictionMarketError::ArithmeticOverflow)
                } else {
                    Ok(share as u64)
                }
            },
        }
    }
}

} // verus!
