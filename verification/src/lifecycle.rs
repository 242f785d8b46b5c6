use vstd::prelude::*;

use crate::errors::DpmError;
use crate::market::bet_applied;
use crate::market::fresh_bet;
use crate::market::fresh_market;
use crate::market::resolution_applied;
use crate::market::seeds_valid;
use crate::market::Bet;
use crate::market::BetProps;
use crate::market::Contract;
use crate::market::NewContractProps;
use crate::market::ResolutionOutcome;
use crate::settle::bet_matches;
use crate::settle::claim_marked;
use crate::settle::payout_spec;

verus! {

/// The lifecycle controller: every market and bet record, mutated only
/// through the four boundary operations, each of which either fully commits
/// or leaves no observable change.
///
/// Markets are keyed by their id; bets are independently addressable records
/// keyed by `(market_id, bettor_id, sequence)`, with the sequence number
/// equal to the bet's position in the bet store.
pub struct Dpm {
    pub markets: Vec<Contract>,
    pub bets: Vec<Bet>,
}

impl Dpm {
    /// No two market records share an id.
    pub open spec fn market_ids_unique(self) -> bool {
        forall|i: int, j: int|
            0 <= i < j < self.markets@.len() ==> self.markets@[i].id@ != self.markets@[j].id@
    }

    /// The bet at position `k` is a record of some stored market, with its
    /// stake counted in that market's pool.
    pub open spec fn bet_backed(self, k: int) -> bool {
        exists|i: int|
            0 <= i < self.markets@.len() && bet_matches(
                self.bets@[k],
                #[trigger] self.markets@[i],
            )
    }

    /// Well-formedness of the whole store: every market record is
    /// well-formed, market ids are unique, every bet is backed by its
    /// market, and bets sit at the position their sequence number names.
    pub open spec fn wf(self) -> bool {
        &&& forall|i: int| 0 <= i < self.markets@.len() ==> (#[trigger] self.markets@[i]).wf()
        &&& self.market_ids_unique()
        &&& forall|k: int| 0 <= k < self.bets@.len() ==> #[trigger] self.bet_backed(k)
        &&& forall|k: int| 0 <= k < self.bets@.len() ==> (#[trigger] self.bets@[k]).sequence == k
    }

    /// Some stored market carries the id.
    pub open spec fn has_market(self, id: Seq<char>) -> bool {
        exists|i: int| 0 <= i < self.markets@.len() && (#[trigger] self.markets@[i]).id@ == id
    }

    /// The position of the market with the id; meaningful when `has_market`.
    pub open spec fn market_index_of(self, id: Seq<char>) -> int {
        choose|i: int| 0 <= i < self.markets@.len() && (#[trigger] self.markets@[i]).id@ == id
    }

    /// The stored market with the id; meaningful when `has_market`.
    pub open spec fn market_with(self, id: Seq<char>) -> Contract {
        self.markets@[self.market_index_of(id)]
    }

    /// With unique ids, any position holding the id is the position
    /// `market_index_of` names.
    pub proof fn lemma_market_index_of(self, i: int, id: Seq<char>)
        requires
            self.market_ids_unique(),
            0 <= i < self.markets@.len(),
            self.markets@[i].id@ == id,
        ensures
            self.has_market(id),
            self.market_index_of(id) == i,
            self.market_with(id) == self.markets@[i],
    {
        assert(self.has_market(id));
        let j = self.market_index_of(id);
        assert(0 <= j < self.markets@.len() && self.markets@[j].id@ == id);
        if i < j {
            assert(self.markets@[i].id@ != self.markets@[j].id@);
        } else if j < i {
            assert(self.markets@[j].id@ != self.markets@[i].id@);
        }
    }

    /// An empty store: no markets, no bets.
    pub fn new() -> (r: Dpm)
        ensures
            r.wf(),
            r.markets@.len() == 0,
            r.bets@.len() == 0,
    {
        Dpm { markets: Vec::new(), bets: Vec::new() }
    }

    /// Position of the market carrying `id`, if any.
    fn find_market(&self, id: &String) -> (r: Option<usize>)
        ensures
            match r {
                Some(i) => i < self.markets@.len() && self.markets@[i as int].id@ == id@,
                None => !self.has_market(id@),
            },
    {
        let mut i: usize = 0;
        while i < self.markets.len()
            invariant
                i <= self.markets@.len(),
                forall|j: int| 0 <= j < i ==> (#[trigger] self.markets@[j]).id@ != id@,
            decreases self.markets@.len() - i,
        {
            if self.markets[i].id.eq(id) {
                return Some(i);
            }
            i = i + 1;
        }
        None
    }

    /// Creates a new market under `props.id`, as `market::create_market`
    /// does, after checking that the id is not taken.
    ///
    /// Fails `DuplicateMarket` if a market with the id exists, then
    /// `InvalidSeed` or `AmountOverflow` as market creation does; a failure
    /// changes nothing.
    pub fn create_market(&mut self, props: NewContractProps, now: u64) -> (r: Result<
        (),
        DpmError,
    >)
        requires
            old(self).wf(),
        ensures
            final(self).wf(),
            final(self).bets@ == old(self).bets@,
            match r {
                Ok(()) => {
                    &&& !old(self).has_market(props.id@)
                    &&& seeds_valid(props.seed_amounts)
                    &&& final(self).markets@.len() == old(self).markets@.len() + 1
                    &&& forall|j: int|
                        0 <= j < old(self).markets@.len() ==> final(self).markets@[j] == old(
                            self,
                        ).markets@[j]
                    &&& fresh_market(final(self).markets@.last(), props, now)
                },
                Err(e) => {
                    &&& final(self).markets@ == old(self).markets@
                    &&& (e == DpmError::DuplicateMarket <==> old(self).has_market(props.id@))
                    &&& (e == DpmError::InvalidSeed <==> (!old(self).has_market(props.id@)
                        && props.seed_amounts.yes == 0 && props.seed_amounts.no == 0))
                    &&& (e == DpmError::AmountOverflow <==> (!old(self).has_market(props.id@)
                        && (props.seed_amounts.yes > 0 || props.seed_amounts.no > 0)
                        && props.seed_amounts.yes + props.seed_amounts.no > u64::MAX))
                    &&& (e == DpmError::DuplicateMarket || e == DpmError::InvalidSeed
                        || e == DpmError::AmountOverflow)
                },
            },
            r is Ok <==> (!old(self).has_market(props.id@) && seeds_valid(props.seed_amounts)),
    {
        match self.find_market(&props.id) {
            Some(i) => {
                proof {
                    self.lemma_market_index_of(i as int, props.id@);
                }
                return Err(DpmError::DuplicateMarket);
            }
            None => {}
        }
        let ghost pre = *self;
        match crate::market::create_market(props, now) {
            Ok(m) => {
                self.markets.push(m);
                proof {
                    assert forall|k: int|
                        0 <= k < self.bets@.len() implies #[trigger] self.bet_backed(k) by {
                        assert(pre.bet_backed(k));
                        let i = choose|i: int|
                            0 <= i < pre.markets@.len() && bet_matches(
                                pre.bets@[k],
                                #[trigger] pre.markets@[i],
                            );
                        assert(self.markets@[i] == pre.markets@[i]);
                        assert(bet_matches(self.bets@[k], self.markets@[i]));
                    }
                }
                Ok(())
            }
            Err(e) => Err(e),
        }
    }

    /// Places a stake on the market carrying `market_id`, as
    /// `market::place_bet` does, and stores the resulting bet record under
    /// the next sequence number, which it returns.
    ///
    /// Fails `MarketNotFound` if no market carries the id, then
    /// `MarketClosed`, `InvalidAmount` or `AmountOverflow` as bet placement
    /// does; a failure changes nothing.
    pub fn place_bet(&mut self, market_id: &String, props: BetProps, now: u64) -> (r: Result<
        u64,
        DpmError,
    >)
        requires
            old(self).wf(),
        ensures
            final(self).wf(),
            match r {
                Ok(seq_no) => ({
                    let i = old(self).market_index_of(market_id@);
                    &&& old(self).has_market(market_id@)
                    &&& old(self).market_with(market_id@).is_open()
                    &&& props.amount > 0
                    &&& old(self).market_with(market_id@).total_pool() + props.amount <= u64::MAX
                    &&& seq_no == old(self).bets@.len()
                    &&& final(self).bets@ == old(self).bets@.push(final(self).bets@.last())
                    &&& fresh_bet(final(self).bets@.last(), market_id@, props, seq_no, now)
                    &&& final(self).markets@ == old(self).markets@.update(
                        i,
                        final(self).markets@[i],
                    )
                    &&& bet_applied(
                        old(self).markets@[i],
                        final(self).markets@[i],
                        props.outcome,
                        props.amount,
                        now,
                    )
                }),
                Err(e) => {
                    &&& final(self).markets@ == old(self).markets@
                    &&& final(self).bets@ == old(self).bets@
                    &&& (e == DpmError::MarketNotFound <==> !old(self).has_market(market_id@))
                    &&& (e == DpmError::MarketClosed <==> (old(self).has_market(market_id@)
                        && !old(self).market_with(market_id@).is_open()))
                    &&& (e == DpmError::InvalidAmount <==> (old(self).has_market(market_id@)
                        && old(self).market_with(market_id@).is_open() && props.amount == 0))
                    &&& (e == DpmError::AmountOverflow <==> (old(self).has_market(market_id@)
                        && old(self).market_with(market_id@).is_open() && props.amount > 0
                        && old(self).market_with(market_id@).total_pool() + props.amount
                        > u64::MAX))
                    &&& (e == DpmError::MarketNotFound || e == DpmError::MarketClosed
                        || e == DpmError::InvalidAmount || e == DpmError::AmountOverflow)
                },
            },
            r is Ok <==> (old(self).has_market(market_id@) && old(self).market_with(
                market_id@,
            ).is_open() && props.amount > 0 && old(self).market_with(market_id@).total_pool()
                + props.amount <= u64::MAX),
    {
        let i = match self.find_market(market_id) {
            None => {
                return Err(DpmError::MarketNotFound);
            }
            Some(i) => i,
        };
        proof {
            self.lemma_market_index_of(i as int, market_id@);
        }
        let ghost pre = *self;
        let ghost gi = i as int;
        let seq_no: u64 = self.bets.len() as u64;
        let m = &mut self.markets[i];
        match crate::market::place_bet(m, props, seq_no, now) {
            Err(e) => {
                proof {
                    assert(self.markets@ =~= pre.markets@);
                    assert(self.markets@ =~= pre.markets@.update(gi, self.markets@[gi]));
                    self.lemma_store_update_keeps_wf(pre, gi);
                }
                Err(e)
            }
            Ok(bet) => {
                self.bets.push(bet);
                proof {
                    self.lemma_store_update_keeps_wf(pre, gi);
                }
                Ok(seq_no)
            }
        }
    }

    /// After one market is updated in place without shrinking its pools or
    /// changing its id, and at most one fresh bet backed by that market is
    /// appended at its sequence position, the store invariant carries over.
    proof fn lemma_store_update_keeps_wf(self, pre: Dpm, gi: int)
        requires
            pre.wf(),
            0 <= gi < pre.markets@.len(),
            self.markets@ == pre.markets@.update(gi, self.markets@[gi]),
            self.markets@[gi].wf(),
            self.markets@[gi].id@ == pre.markets@[gi].id@,
            self.markets@[gi].pool_of(crate::market::BetOutcome::Yes) >= pre.markets@[
                gi
            ].pool_of(crate::market::BetOutcome::Yes),
            self.markets@[gi].pool_of(crate::market::BetOutcome::No) >= pre.markets@[gi].pool_of(
                crate::market::BetOutcome::No,
            ),
            self.bets@ == pre.bets@.push(self.bets@.last()) || self.bets@ == pre.bets@,
            self.bets@.len() > pre.bets@.len() ==> {
                let b = self.bets@.last();
                &&& b.market_id@ == self.markets@[gi].id@
                &&& b.amount <= self.markets@[gi].pool_of(b.outcome)
                &&& b.sequence == pre.bets@.len()
            },
        ensures
            self.wf(),
    {
        assert forall|j: int| 0 <= j < self.markets@.len() implies (
        #[trigger] self.markets@[j]).wf() by {
            if j != gi {
                assert(self.markets@[j] == pre.markets@[j]);
            }
        }
        assert forall|j: int|
            0 <= j < self.markets@.len() implies (#[trigger] self.markets@[j]).id@ == pre.markets@[
            j
        ].id@ by {
            if j != gi {
                assert(self.markets@[j] == pre.markets@[j]);
            }
        }
        assert forall|k: int| 0 <= k < self.bets@.len() implies #[trigger] self.bet_backed(
            k,
        ) by {
            if k < pre.bets@.len() {
                assert(pre.bet_backed(k));
                let w = choose|w: int|
                    0 <= w < pre.markets@.len() && bet_matches(
                        pre.bets@[k],
                        #[trigger] pre.markets@[w],
                    );
                assert(self.bets@[k] == pre.bets@[k]);
                if w == gi {
                    let o = self.bets@[k].outcome;
                    assert(self.markets@[gi].pool_of(o) >= pre.markets@[gi].pool_of(o));
                    assert(bet_matches(self.bets@[k], self.markets@[gi]));
                } else {
                    assert(self.markets@[w] == pre.markets@[w]);
                    assert(bet_matches(self.bets@[k], self.markets@[w]));
                }
            } else {
                assert(bet_matches(self.bets@[k], self.markets@[gi]));
            }
        }
        assert forall|k: int|
            0 <= k < self.bets@.len() implies (#[trigger] self.bets@[k]).sequence == k by {
            if k < pre.bets@.len() {
                assert(self.bets@[k] == pre.bets@[k]);
            }
        }
    }

    /// Resolves the market carrying `market_id` to an outcome or cancels
    /// it, as `market::resolve_market` does.
    ///
    /// Fails `MarketNotFound` if no market carries the id, then
    /// `AlreadyResolved` or `Unauthorized` as resolution does; a failure —
    /// in particular any second resolution attempt — changes nothing.
    pub fn resolve_market(
        &mut self,
        market_id: &String,
        outcome: ResolutionOutcome,
        caller: &String,
        now: u64,
    ) -> (r: Result<(), DpmError>)
        requires
            old(self).wf(),
        ensures
            final(self).wf(),
            final(self).bets@ == old(self).bets@,
            match r {
                Ok(()) => ({
                    let i = old(self).market_index_of(market_id@);
                    &&& old(self).has_market(market_id@)
                    &&& old(self).market_with(market_id@).is_open()
                    &&& caller@ == old(self).market_with(market_id@).creator_id@
                    &&& final(self).markets@ == old(self).markets@.update(
                        i,
                        final(self).markets@[i],
                    )
                    &&& resolution_applied(
                        old(self).markets@[i],
                        final(self).markets@[i],
                        outcome,
                        now,
                    )
                    &&& !final(self).markets@[i].is_open()
                }),
                Err(e) => {
                    &&& final(self).markets@ == old(self).markets@
                    &&& (e == DpmError::MarketNotFound <==> !old(self).has_market(market_id@))
                    &&& (e == DpmError::AlreadyResolved <==> (old(self).has_market(market_id@)
                        && !old(self).market_with(market_id@).is_open()))
                    &&& (e == DpmError::Unauthorized <==> (old(self).has_market(market_id@)
                        && old(self).market_with(market_id@).is_open() && caller@ != old(
                        self,
                    ).market_with(market_id@).creator_id@))
                    &&& (e == DpmError::MarketNotFound || e == DpmError::AlreadyResolved
                        || e == DpmError::Unauthorized)
                },
            },
            r is Ok <==> (old(self).has_market(market_id@) && old(self).market_with(
                market_id@,
            ).is_open() && caller@ == old(self).market_with(market_id@).creator_id@),
    {
        let i = match self.find_market(market_id) {
            None => {
                return Err(DpmError::MarketNotFound);
            }
            Some(i) => i,
        };
        proof {
            self.lemma_market_index_of(i as int, market_id@);
        }
        let ghost pre = *self;
        let ghost gi = i as int;
        let m = &mut self.markets[i];
        match crate::market::resolve_market(m, outcome, caller, now) {
            Err(e) => {
                proof {
                    assert(self.markets@ =~= pre.markets@);
                    assert(self.markets@ =~= pre.markets@.update(gi, self.markets@[gi]));
                    self.lemma_store_update_keeps_wf(pre, gi);
                }
                Err(e)
            }
            Ok(()) => {
                proof {
                    self.lemma_store_update_keeps_wf(pre, gi);
                }
                Ok(())
            }
        }
    }

    /// The bet key `(market_id, bettor_id, sequence)` names a stored bet:
    /// the sequence number is a valid position and the record there carries
    /// the other two key parts.
    pub open spec fn bet_key_ok(
        self,
        market_id: Seq<char>,
        bettor_id: Seq<char>,
        sequence: u64,
    ) -> bool {
        &&& sequence < self.bets@.len()
        &&& self.bets@[sequence as int].market_id@ == market_id
        &&& self.bets@[sequence as int].bettor_id@ == bettor_id
    }

    /// After one bet is rewritten in place with everything but its claimed
    /// flag intact, and the markets are untouched, the store invariant
    /// carries over.
    proof fn lemma_claim_keeps_wf(self, pre: Dpm, gk: int)
        requires
            pre.wf(),
            0 <= gk < pre.bets@.len(),
            self.markets@ == pre.markets@,
            self.bets@ == pre.bets@.update(gk, self.bets@[gk]),
            self.bets@[gk].market_id@ == pre.bets@[gk].market_id@,
            self.bets@[gk].outcome == pre.bets@[gk].outcome,
            self.bets@[gk].amount == pre.bets@[gk].amount,
            self.bets@[gk].sequence == pre.bets@[gk].sequence,
        ensures
            self.wf(),
    {
        assert forall|j: int| 0 <= j < self.markets@.len() implies (
        #[trigger] self.markets@[j]).wf() by {
            assert(pre.markets@[j].wf());
        }
        assert forall|k: int| 0 <= k < self.bets@.len() implies #[trigger] self.bet_backed(
            k,
        ) by {
            assert(pre.bet_backed(k));
            let w = choose|w: int|
                0 <= w < pre.markets@.len() && bet_matches(
                    pre.bets@[k],
                    #[trigger] pre.markets@[w],
                );
            assert(bet_matches(self.bets@[k], self.markets@[w]));
        }
        assert forall|k: int|
            0 <= k < self.bets@.len() implies (#[trigger] self.bets@[k]).sequence == k by {
            assert(pre.bets@[k].sequence == k);
        }
    }

    /// Settles the bet named by `(market_id, bettor_id, sequence)` against
    /// its market, as `settle::claim_payout` does, and returns the payout
    /// amount for the external transfer interface to disburse.
    ///
    /// Fails `MarketNotFound` if no market carries the id and `BetNotFound`
    /// if the key names no stored bet, then `NotResolved` or
    /// `AlreadyClaimed` as settlement does; a failure changes nothing, so a
    /// repeated claim is refused without touching the earlier payout.
    pub fn claim_payout(
        &mut self,
        market_id: &String,
        bettor_id: &String,
        sequence: u64,
    ) -> (r: Result<u64, DpmError>)
        requires
            old(self).wf(),
        ensures
            final(self).wf(),
            final(self).markets@ == old(self).markets@,
            match r {
                Ok(p) => ({
                    let i = old(self).market_index_of(market_id@);
                    let k = sequence as int;
                    &&& old(self).has_market(market_id@)
                    &&& old(self).bet_key_ok(market_id@, bettor_id@, sequence)
                    &&& !old(self).markets@[i].is_open()
                    &&& !old(self).bets@[k].claimed
                    &&& final(self).bets@ == old(self).bets@.update(k, final(self).bets@[k])
                    &&& claim_marked(old(self).bets@[k], final(self).bets@[k])
                    &&& p == payout_spec(
                        old(self).markets@[i],
                        old(self).bets@[k].outcome,
                        old(self).bets@[k].amount,
                    )
                    &&& (old(self).markets@[i].is_cancelled() ==> p == old(self).bets@[k].amount)
                }),
                Err(e) => {
                    &&& final(self).bets@ == old(self).bets@
                    &&& (e == DpmError::MarketNotFound <==> !old(self).has_market(market_id@))
                    &&& (e == DpmError::BetNotFound <==> (old(self).has_market(market_id@)
                        && !old(self).bet_key_ok(market_id@, bettor_id@, sequence)))
                    &&& (e == DpmError::NotResolved <==> (old(self).has_market(market_id@)
                        && old(self).bet_key_ok(market_id@, bettor_id@, sequence) && old(
                        self,
                    ).market_with(market_id@).is_open()))
                    &&& (e == DpmError::AlreadyClaimed <==> (old(self).has_market(market_id@)
                        && old(self).bet_key_ok(market_id@, bettor_id@, sequence) && !old(
                        self,
                    ).market_with(market_id@).is_open() && old(self).bets@[sequence as int].claimed))
                    &&& (e == DpmError::MarketNotFound || e == DpmError::BetNotFound
                        || e == DpmError::NotResolved || e == DpmError::AlreadyClaimed)
                },
            },
            r is Ok <==> (old(self).has_market(market_id@) && old(self).bet_key_ok(
                market_id@,
                bettor_id@,
                sequence,
            ) && !old(self).market_with(market_id@).is_open() && !old(self).bets@[
                sequence as int
            ].claimed),
    {
        let i = match self.find_market(market_id) {
            None => {
                return Err(DpmError::MarketNotFound);
            }
            Some(i) => i,
        };
        proof {
            self.lemma_market_index_of(i as int, market_id@);
        }
        if sequence >= self.bets.len() as u64 {
            return Err(DpmError::BetNotFound);
        }
        let k: usize = sequence as usize;
        let key_matches: bool = self.bets[k].market_id.eq(market_id) && self.bets[
            k
        ].bettor_id.eq(bettor_id);
        if !key_matches {
            return Err(DpmError::BetNotFound);
        }
        let ghost pre = *self;
        let ghost gi = i as int;
        let ghost gk = k as int;
        proof {
            assert(pre.bet_backed(gk));
            let w = choose|w: int|
                0 <= w < pre.markets@.len() && bet_matches(
                    pre.bets@[gk],
                    #[trigger] pre.markets@[w],
                );
            pre.lemma_market_index_of(w, market_id@);
        }
        let r = crate::settle::claim_payout(&self.markets[i], &mut self.bets[k]);
        match r {
            Err(e) => {
                proof {
                    assert(self.bets@ =~= pre.bets@);
                    assert(self.bets@ =~= pre.bets@.update(gk, self.bets@[gk]));
                    self.lemma_claim_keeps_wf(pre, gk);
                }
                Err(e)
            }
            Ok(p) => {
                proof {
                    self.lemma_claim_keeps_wf(pre, gk);
                }
                Ok(p)
            }
        }
    }
}

} // verus!
