//! A bet: one participant's stake on one outcome of one market.

use vstd::prelude::*;
use crate::error::PredictionMarketError;
use crate::identity::Identity;
use crate::state::market::Market;

verus! {

/// One participant's stake and chosen outcome.
#[derive(Clone, Copy, Debug, PartialEq, Eq)]
pub struct Bet {
    /// The market that the stake is on, by its id.
    pub market: u64,
    pub bettor: Identity,
    pub amount: u64,
    /// `true` for YES, `false` for NO.
    pub outcome: bool,
    pub placed_at: i64,
    pub claimed: bool,
}

/// What a bet is, as plain mathematical data.
pub struct BetView {
    pub market: u64,
    pub bettor: Seq<u8>,
    pub amount: u64,
    pub outcome: bool,
    pub placed_at: i64,
    pub claimed: bool,
}

impl View for Bet {
    type V = BetView;

    open spec fn view(&self) -> BetView {
        BetView {
            market: self.market,
            bettor: self.bettor@,
            amount: self.amount,
            outcome: self.outcome,
            placed_at: self.placed_at,
            claimed: self.claimed,
        }
    }
}

impl Default for Bet {
    /// A blank record: no stake, unclaimed.
    fn default() -> (bet: Bet)
        ensures
            bet@ == (BetView {
                market: 0,
                bettor: Identity::default_view(),
                amount: 0,
                outcome: false,
                placed_at: 0,
                claimed: false,
            }),
    {
        Bet {
            market: 0,
            bettor: Identity::default(),
            amount: 0,
            outcome: false,
            placed_at: 0,
            claimed: false,
        }
    }
}

impl Bet {
    /// The winnings that this bet may still draw from `market`: nothing once
    /// claimed, else the market's payout for its stake and outcome.
    pub open spec fn spec_winnings(&self, market: &Market) -> int {
        if self.claimed {
            0
        } else {
            market@.payout(self.amount, self.outcome)
        }
    }

    /// The winnings that this bet may still draw from `market`, before the
    /// platform fee. Fails only when they do not fit in 64 bits.
    pub fn calculate_winnings(&self, market: &Market) -> (r: Result<u64, PredictionMarketError>)
        ensures
            self.spec_winnings(market) <= u64::MAX ==> r == Ok::<u64, PredictionMarketError>(
                self.spec_winnings(market) as u64,
            ),
            self.spec_winnings(market) > u64::MAX ==> r == Err::<u64, PredictionMarketError>(
                PredictionMarketError::ArithmeticOverflow,
            ),
    {
        if self.claimed {
            return Ok(0);
        }
        market.calculate_payout(self.amount, self.outcome)
    }
}

} // verus!
