//! The record store: every market with its vault, and every bet, each under
//! its own key. A market is keyed by its id, a bet by its market and bettor;
//! no key holds two records.

use vstd::prelude::*;
use crate::identity::Identity;
use crate::state::bet::{Bet, BetView};
use crate::state::market::{Market, MarketView};

verus! {

/// A market's record together with the vault that holds its stakes.
#[derive(Clone, Debug)]
pub struct MarketAccount {
    pub market: Market,
    /// The balance of the vault.
    pub vault: u64,
}

/// A market and its vault as plain mathematical data.
pub struct MarketAccountView {
    pub market: MarketView,
    pub vault: u64,
}

impl View for MarketAccount {
    type V = MarketAccountView;

    open spec fn view(&self) -> MarketAccountView {
        MarketAccountView { market: self.market@, vault: self.vault }
    }
}

/// All records of the escrow.
#[derive(Clone, Debug)]
pub struct Ledger {
    pub markets: Vec<MarketAccount>,
    pub bets: Vec<Bet>,
}

/// The records as plain mathematical data: the open markets, and the bets in
/// the order in which they were admitted.
pub struct LedgerView {
    pub markets: Seq<MarketAccountView>,
    pub bets: Seq<BetView>,
}

impl LedgerView {
    /// Whether a market is recorded under `market_id`.
    pub open spec fn has_market(self, market_id: u64) -> bool {
        exists|i: int|
            0 <= i < self.markets.len() && (#[trigger] self.markets[i]).market.market_id
                == market_id
    }

    /// Where the market of `market_id` stands among the markets.
    pub open spec fn market_index(self, market_id: u64) -> int {
        choose|i: int|
            0 <= i < self.markets.len() && (#[trigger] self.markets[i]).market.market_id
                == market_id
    }

    /// The market recorded under `market_id`, with its vault.
    pub open spec fn market(self, market_id: u64) -> MarketAccountView {
        self.markets[self.market_index(market_id)]
    }

    /// Whether a bet of `bettor` on the market `market_id` is recorded.
    pub open spec fn has_bet(self, market_id: u64, bettor: Seq<u8>) -> bool {
        exists|j: int|
            0 <= j < self.bets.len() && (#[trigger] self.bets[j]).market == market_id
                && self.bets[j].bettor == bettor
    }

    /// Where the bet of `bettor` on the market `market_id` stands among the bets.
    pub open spec fn bet_index(self, market_id: u64, bettor: Seq<u8>) -> int {
        choose|j: int|
            0 <= j < self.bets.len() && (#[trigger] self.bets[j]).market == market_id
                && self.bets[j].bettor == bettor
    }

    /// The bet of `bettor` on the market `market_id`.
    pub open spec fn bet(self, market_id: u64, bettor: Seq<u8>) -> BetView {
        self.bets[self.bet_index(market_id, bettor)]
    }

    /// The markets as a mapping from their ids.
    pub open spec fn market_map(self) -> Map<u64, MarketAccountView> {
        Map::new(|id: u64| self.has_market(id), |id: u64| self.market(id))
    }

    /// The bets as a mapping from their keys, the pairs of market id and
    /// bettor.
    pub open spec fn bet_map(self) -> Map<(u64, Seq<u8>), BetView> {
        Map::new(
            |key: (u64, Seq<u8>)| self.has_bet(key.0, key.1),
            |key: (u64, Seq<u8>)| self.bet(key.0, key.1),
        )
    }

    /// No key holds two records: market ids differ pairwise, and so do the
    /// pairs of market and bettor of the bets.
    pub open spec fn wf(self) -> bool {
        &&& forall|i: int, j: int|
            0 <= i < j < self.markets.len() ==> (#[trigger] self.markets[i]).market.market_id != (
            #[trigger] self.markets[j]).market.market_id
        &&& forall|i: int, j: int|
            0 <= i < j < self.bets.len() ==> !((#[trigger] self.bets[i]).market == (
            #[trigger] self.bets[j]).market && self.bets[i].bettor == self.bets[j].bettor)
    }
}

/// In a well-formed store the market found at a place is the market of its id.
pub proof fn lemma_market_at(v: LedgerView, i: int)
    requires
        v.wf(),
        0 <= i < v.markets.len(),
    ensures
        v.has_market(v.markets[i].market.market_id),
        v.market_index(v.markets[i].market.market_id) == i,
        v.market(v.markets[i].market.market_id) == v.markets[i],
{
    let id = v.markets[i].market.market_id;
    let k = v.market_index(id);
    assert(0 <= k < v.markets.len() && v.markets[k].market.market_id == id);
    if k < i {
        assert(v.markets[k].market.market_id != v.markets[i].market.market_id);
    } else if i < k {
        assert(v.markets[i].market.market_id != v.markets[k].market.market_id);
    }
}

/// In a well-formed store the bet found at a place is the bet of its market
/// and bettor.
pub proof fn lemma_bet_at(v: LedgerView, j: int)
    requires
        v.wf(),
        0 <= j < v.bets.len(),
    ensures
        v.has_bet(v.bets[j].market, v.bets[j].bettor),
        v.bet_index(v.bets[j].market, v.bets[j].bettor) == j,
        v.bet(v.bets[j].market, v.bets[j].bettor) == v.bets[j],
{
    let id = v.bets[j].market;
    let who = v.bets[j].bettor;
    let k = v.bet_index(id, who);
    assert(0 <= k < v.bets.len() && v.bets[k].market == id && v.bets[k].bettor == who);
    if k < j {
        assert(!(v.bets[k].market == v.bets[j].market && v.bets[k].bettor == v.bets[j].bettor));
    } else if j < k {
        assert(!(v.bets[j].market == v.bets[k].market && v.bets[j].bettor == v.bets[k].bettor));
    }
}

/// Recording a market under a free id adds it to the mapping of markets and
/// leaves all other records as they were.
pub proof fn lemma_market_pushed(v: LedgerView, account: MarketAccountView)
    requires
        v.wf(),
        !v.has_market(account.market.market_id),
    ensures
        ({
            let after = LedgerView { markets: v.markets.push(account), bets: v.bets };
            &&& after.wf()
            &&& after.market_map() == v.market_map().insert(account.market.market_id, account)
            &&& after.bet_map() == v.bet_map()
        }),
{
    let id = account.market.market_id;
    let after = LedgerView { markets: v.markets.push(account), bets: v.bets };
    let n = v.markets.len() as int;
    assert forall|i: int| 0 <= i < n implies (#[trigger] v.markets[i]).market.market_id != id by {
        if v.markets[i].market.market_id == id {
            assert(v.has_market(id));
        }
    }
    assert(after.wf()) by {
        assert forall|a: int, b: int| 0 <= a < b < after.markets.len() implies (
        #[trigger] after.markets[a]).market.market_id != (
        #[trigger] after.markets[b]).market.market_id by {
            assert(after.markets[a] == v.markets[a]);
            if b < n {
                assert(after.markets[b] == v.markets[b]);
            }
        }
    }
    assert forall|o: u64| #[trigger] after.has_market(o) == (o == id || v.has_market(o)) by {
        if after.has_market(o) {
            let k = after.market_index(o);
            if k < n {
                assert(v.markets[k].market.market_id == o);
            }
        }
        if v.has_market(o) {
            let k = v.market_index(o);
            assert(after.markets[k].market.market_id == o);
        }
        if o == id {
            assert(after.markets[n].market.market_id == o);
        }
    }
    assert forall|o: u64| #[trigger] after.has_market(o) implies after.market(o) == (if o == id {
        account
    } else {
        v.market(o)
    }) by {
        if o == id {
            lemma_market_at(after, n);
        } else {
            let k = v.market_index(o);
            assert(after.markets[k] == v.markets[k]);
            lemma_market_at(after, k);
        }
    }
    assert(after.market_map() =~= v.market_map().insert(id, account));
    assert forall|o: (u64, Seq<u8>)|
        after.has_bet(o.0, o.1) == v.has_bet(o.0, o.1) && after.bet(o.0, o.1) == v.bet(
            o.0,
            o.1,
        ) by {
        assert(after.bets == v.bets);
    }
    assert(after.bet_map() =~= v.bet_map());
}

/// Storing a market over the record of the same id replaces it in the
/// mapping of markets and leaves all other records as they were.
pub proof fn lemma_market_updated(v: LedgerView, i: int, account: MarketAccountView)
    requires
        v.wf(),
        0 <= i < v.markets.len(),
        account.market.market_id == v.markets[i].market.market_id,
    ensures
        ({
            let after = LedgerView { markets: v.markets.update(i, account), bets: v.bets };
            &&& after.wf()
            &&& after.market_map() == v.market_map().insert(account.market.market_id, account)
            &&& after.bet_map() == v.bet_map()
        }),
{
    let id = account.market.market_id;
    let after = LedgerView { markets: v.markets.update(i, account), bets: v.bets };
    assert forall|k: int| 0 <= k < v.markets.len() implies (
    #[trigger] after.markets[k]).market.market_id == v.markets[k].market.market_id by {}
    assert(after.wf()) by {
        assert forall|a: int, b: int| 0 <= a < b < after.markets.len() implies (
        #[trigger] after.markets[a]).market.market_id != (
        #[trigger] after.markets[b]).market.market_id by {
            assert(v.markets[a].market.market_id != v.markets[b].market.market_id);
        }
    }
    assert forall|o: u64| #[trigger] after.has_market(o) == (o == id || v.has_market(o)) by {
        if after.has_market(o) {
            let k = after.market_index(o);
            assert(v.markets[k].market.market_id == o);
        }
        if v.has_market(o) {
            let k = v.market_index(o);
            assert(after.markets[k].market.market_id == o);
        }
        if o == id {
            assert(after.markets[i].market.market_id == o);
        }
    }
    assert forall|o: u64| #[trigger] after.has_market(o) implies after.market(o) == (if o == id {
        account
    } else {
        v.market(o)
    }) by {
        if o == id {
            lemma_market_at(after, i);
        } else {
            let k = v.market_index(o);
            assert(v.markets[k].market.market_id == o);
            assert(after.markets[k] == v.markets[k]);
            lemma_market_at(after, k);
        }
    }
    assert(after.market_map() =~= v.market_map().insert(id, account));
    assert forall|o: (u64, Seq<u8>)|
        after.has_bet(o.0, o.1) == v.has_bet(o.0, o.1) && after.bet(o.0, o.1) == v.bet(
            o.0,
            o.1,
        ) by {
        assert(after.bets == v.bets);
    }
    assert(after.bet_map() =~= v.bet_map());
}

/// Removing a market takes its id out of the mapping of markets and leaves
/// all other records as they were.
pub proof fn lemma_market_removed(v: LedgerView, i: int)
    requires
        v.wf(),
        0 <= i < v.markets.len(),
    ensures
        ({
            let after = LedgerView { markets: v.markets.remove(i), bets: v.bets };
            &&& after.wf()
            &&& after.market_map() == v.market_map().remove(v.markets[i].market.market_id)
            &&& after.bet_map() == v.bet_map()
        }),
{
    let id = v.markets[i].market.market_id;
    let after = LedgerView { markets: v.markets.remove(i), bets: v.bets };
    assert forall|k: int| 0 <= k < after.markets.len() implies #[trigger] after.markets[k] == (if k
        < i {
        v.markets[k]
    } else {
        v.markets[k + 1]
    }) by {}
    assert(after.wf()) by {
        assert forall|a: int, b: int| 0 <= a < b < after.markets.len() implies (
        #[trigger] after.markets[a]).market.market_id != (
        #[trigger] after.markets[b]).market.market_id by {
            let a0 = if a < i {
                a
            } else {
                a + 1
            };
            let b0 = if b < i {
                b
            } else {
                b + 1
            };
            assert(v.markets[a0].market.market_id != v.markets[b0].market.market_id);
        }
    }
    assert forall|o: u64| #[trigger] after.has_market(o) == (o != id && v.has_market(o)) by {
        if after.has_market(o) {
            let k = after.market_index(o);
            let k0 = if k < i {
                k
            } else {
                k + 1
            };
            assert(v.markets[k0].market.market_id == o);
            if k0 < i {
                assert(v.markets[k0].market.market_id != v.markets[i].market.market_id);
            } else {
                assert(v.markets[i].market.market_id != v.markets[k0].market.market_id);
            }
        }
        if v.has_market(o) && o != id {
            let k = v.market_index(o);
            let k1 = if k < i {
                k
            } else {
                k - 1
            };
            assert(after.markets[k1].market.market_id == o);
        }
    }
    assert forall|o: u64| #[trigger] after.has_market(o) implies after.market(o) == v.market(o) by {
        let k = v.market_index(o);
        let k1 = if k < i {
            k
        } else {
            k - 1
        };
        assert(after.markets[k1] == v.markets[k]);
        lemma_market_at(after, k1);
    }
    assert(after.market_map() =~= v.market_map().remove(id));
    assert forall|o: (u64, Seq<u8>)|
        after.has_bet(o.0, o.1) == v.has_bet(o.0, o.1) && after.bet(o.0, o.1) == v.bet(
            o.0,
            o.1,
        ) by {
        assert(after.bets == v.bets);
    }
    assert(after.bet_map() =~= v.bet_map());
}

/// Recording a bet under a free key adds it to the mapping of bets and
/// leaves all other records as they were.
pub proof fn lemma_bet_pushed(v: LedgerView, bet: BetView)
    requires
        v.wf(),
        !v.has_bet(bet.market, bet.bettor),
    ensures
        ({
            let after = LedgerView { markets: v.markets, bets: v.bets.push(bet) };
            &&& after.wf()
            &&& after.bet_map() == v.bet_map().insert((bet.market, bet.bettor), bet)
            &&& after.market_map() == v.market_map()
        }),
{
    let after = LedgerView { markets: v.markets, bets: v.bets.push(bet) };
    let n = v.bets.len() as int;
    assert forall|j: int| 0 <= j < n implies !((#[trigger] v.bets[j]).market == bet.market
        && v.bets[j].bettor == bet.bettor) by {
        if v.bets[j].market == bet.market && v.bets[j].bettor == bet.bettor {
            assert(v.has_bet(bet.market, bet.bettor));
        }
    }
    assert(after.wf()) by {
        assert forall|a: int, b: int| 0 <= a < b < after.bets.len() implies !((
        #[trigger] after.bets[a]).market == (#[trigger] after.bets[b]).market
            && after.bets[a].bettor == after.bets[b].bettor) by {
            assert(after.bets[a] == v.bets[a]);
            if b < n {
                assert(after.bets[b] == v.bets[b]);
            }
        }
    }
    assert forall|o: (u64, Seq<u8>)| #[trigger]
        after.has_bet(o.0, o.1) == (o == (bet.market, bet.bettor) || v.has_bet(o.0, o.1)) by {
        if after.has_bet(o.0, o.1) {
            let k = after.bet_index(o.0, o.1);
            if k < n {
                assert(v.bets[k].market == o.0 && v.bets[k].bettor == o.1);
            }
        }
        if v.has_bet(o.0, o.1) {
            let k = v.bet_index(o.0, o.1);
            assert(after.bets[k].market == o.0 && after.bets[k].bettor == o.1);
        }
        if o == (bet.market, bet.bettor) {
            assert(after.bets[n].market == o.0 && after.bets[n].bettor == o.1);
        }
    }
    assert forall|o: (u64, Seq<u8>)| #[trigger] after.has_bet(o.0, o.1) implies after.bet(o.0, o.1)
        == (if o == (bet.market, bet.bettor) {
        bet
    } else {
        v.bet(o.0, o.1)
    }) by {
        if o == (bet.market, bet.bettor) {
            lemma_bet_at(after, n);
        } else {
            let k = v.bet_index(o.0, o.1);
            assert(after.bets[k] == v.bets[k]);
            lemma_bet_at(after, k);
        }
    }
    assert(after.bet_map() =~= v.bet_map().insert((bet.market, bet.bettor), bet));
    assert(after.market_map() =~= v.market_map());
}

/// Storing a bet over the record of the same key replaces it in the mapping
/// of bets and leaves all other records as they were.
pub proof fn lemma_bet_updated(v: LedgerView, j: int, bet: BetView)
    requires
        v.wf(),
        0 <= j < v.bets.len(),
        bet.market == v.bets[j].market,
        bet.bettor == v.bets[j].bettor,
    ensures
        ({
            let after = LedgerView { markets: v.markets, bets: v.bets.update(j, bet) };
            &&& after.wf()
            &&& after.bet_map() == v.bet_map().insert((bet.market, bet.bettor), bet)
            &&& after.market_map() == v.market_map()
        }),
{
    let after = LedgerView { markets: v.markets, bets: v.bets.update(j, bet) };
    assert forall|k: int| 0 <= k < v.bets.len() implies (#[trigger] after.bets[k]).market
        == v.bets[k].market && after.bets[k].bettor == v.bets[k].bettor by {}
    assert(after.wf()) by {
        assert forall|a: int, b: int| 0 <= a < b < after.bets.len() implies !((
        #[trigger] after.bets[a]).market == (#[trigger] after.bets[b]).market
            && after.bets[a].bettor == after.bets[b].bettor) by {
            assert(!(v.bets[a].market == v.bets[b].market && v.bets[a].bettor
                == v.bets[b].bettor));
        }
    }
    assert forall|o: (u64, Seq<u8>)| #[trigger]
        after.has_bet(o.0, o.1) == (o == (bet.market, bet.bettor) || v.has_bet(o.0, o.1)) by {
        if after.has_bet(o.0, o.1) {
            let k = after.bet_index(o.0, o.1);
            assert(v.bets[k].market == o.0 && v.bets[k].bettor == o.1);
        }
        if v.has_bet(o.0, o.1) {
            let k = v.bet_index(o.0, o.1);
            assert(after.bets[k].market == o.0 && after.bets[k].bettor == o.1);
        }
        if o == (bet.market, bet.bettor) {
            assert(after.bets[j].market == o.0 && after.bets[j].bettor == o.1);
        }
    }
    assert forall|o: (u64, Seq<u8>)| #[trigger] after.has_bet(o.0, o.1) implies after.bet(o.0, o.1)
        == (if o == (bet.market, bet.bettor) {
        bet
    } else {
        v.bet(o.0, o.1)
    }) by {
        if o == (bet.market, bet.bettor) {
            lemma_bet_at(after, j);
        } else {
            let k = v.bet_index(o.0, o.1);
            assert(v.bets[k].market == o.0 && v.bets[k].bettor == o.1);
            assert(after.bets[k] == v.bets[k]);
            lemma_bet_at(after, k);
        }
    }
    assert(after.bet_map() =~= v.bet_map().insert((bet.market, bet.bettor), bet));
    assert(after.market_map() =~= v.market_map());
}

impl View for Ledger {
    type V = LedgerView;

    open spec fn view(&self) -> LedgerView {
        LedgerView {
            markets: Seq::new(self.markets@.len(), |i: int| self.markets@[i]@),
            bets: Seq::new(self.bets@.len(), |j: int| self.bets@[j]@),
        }
    }
}

impl Ledger {
    /// Whether no key holds two records.
    pub open spec fn wf(&self) -> bool {
        self@.wf()
    }

    /// An empty store.
    pub fn new() -> (ledger: Ledger)
        ensures
            ledger.wf(),
            ledger@.markets.len() == 0,
            ledger@.bets.len() == 0,
            forall|id: u64| #[trigger] crate::books::balanced(ledger@, id),
    {
        Ledger { markets: Vec::new(), bets: Vec::new() }
    }

    /// How many markets are open.
    pub fn market_count(&self) -> (n: usize)
        ensures
            n == self@.markets.len(),
    {
        self.markets.len()
    }

    /// How many bets were admitted.
    pub fn bet_count(&self) -> (n: usize)
        ensures
            n == self@.bets.len(),
    {
        self.bets.len()
    }

    /// The place of the market of `market_id`, if one is recorded.
    pub fn find_market(&self, market_id: u64) -> (r: Option<usize>)
        ensures
            r is Some == self@.has_market(market_id),
            r matches Some(i) ==> i < self.markets@.len() && self.markets@[i as int].market.market_id
                == market_id && (self.wf() ==> i == self@.market_index(market_id)),
    {
        let mut i: usize = 0;
        while i < self.markets.len()
            invariant
                i <= self.markets@.len(),
                forall|k: int| 0 <= k < i ==> (#[trigger] self@.markets[k]).market.market_id != market_id,
            decreases self.markets@.len() - i,
        {
            if self.markets[i].market.market_id == market_id {
                proof {
                    assert(self@.markets[i as int].market.market_id == market_id);
                    if self.wf() {
                        lemma_market_at(self@, i as int);
                    }
                }
                return Some(i);
            }
            i = i + 1;
        }
        None
    }

    /// The place of the bet of `bettor` on the market `market_id`, if one is
    /// recorded.
    pub fn find_bet(&self, market_id: u64, bettor: &Identity) -> (r: Option<usize>)
        ensures
            r is Some == self@.has_bet(market_id, bettor@),
            r matches Some(j) ==> j < self.bets@.len() && self.bets@[j as int].market == market_id
                && self.bets@[j as int].bettor@ == bettor@ && (self.wf() ==> j
                == self@.bet_index(market_id, bettor@)),
    {
        let mut j: usize = 0;
        while j < self.bets.len()
            invariant
                j <= self.bets@.len(),
                forall|k: int|
                    0 <= k < j ==> !((#[trigger] self@.bets[k]).market == market_id
                        && self@.bets[k].bettor == bettor@),
            decreases self.bets@.len() - j,
        {
            if self.bets[j].market == market_id && self.bets[j].bettor.same(bettor) {
                proof {
                    assert(self@.bets[j as int].market == market_id && self@.bets[j as int].bettor
                        == bettor@);
                    if self.wf() {
                        lemma_bet_at(self@, j as int);
                    }
                }
                return Some(j);
            }
            j = j + 1;
        }
        None
    }

    /// The market recorded under `market_id`.
    pub fn market(&self, market_id: u64) -> (r: Option<&Market>)
        ensures
            r is Some == self@.has_market(market_id),
            r matches Some(m) ==> m@.market_id == market_id,
            r matches Some(m) ==> self.wf() ==> m@ == self@.market(market_id).market,
    {
        match self.find_market(market_id) {
            Some(i) => Some(&self.markets[i].market),
            None => None,
        }
    }

    /// The balance of the vault of the market `market_id`.
    pub fn vault_balance(&self, market_id: u64) -> (r: Option<u64>)
        ensures
            r is Some == self@.has_market(market_id),
            r matches Some(b) ==> self.wf() ==> b == self@.market(market_id).vault,
    {
        match self.find_market(market_id) {
            Some(i) => Some(self.markets[i].vault),
            None => None,
        }
    }

    /// The bet of `bettor` on the market `market_id`.
    pub fn bet(&self, market_id: u64, bettor: &Identity) -> (r: Option<Bet>)
        ensures
            r is Some == self@.has_bet(market_id, bettor@),
            r matches Some(b) ==> b@.market == market_id && b@.bettor == bettor@,
            r matches Some(b) ==> self.wf() ==> b@ == self@.bet(market_id, bettor@),
    {
        match self.find_bet(market_id, bettor) {
            Some(j) => Some(self.bets[j]),
            None => None,
        }
    }
}

} // verus!
