use vstd::prelude::*;

use crate::errors::DpmError;

verus! {

/// The outcome a bet backs.
#[derive(Clone, Copy, Debug, PartialEq, Eq, Structural)]
pub enum BetOutcome {
    Yes,
    No,
}

/// How a market leaves the open state: resolved to an outcome, or cancelled
/// with a full refund for every bet.
#[derive(Clone, Copy, Debug, PartialEq, Eq, Structural)]
pub enum ResolutionOutcome {
    Yes,
    No,
    Cancel,
}

/// Creator-contributed initial liquidity, counted in the pools from market
/// creation on.
#[derive(Clone, Copy, Debug, PartialEq, Eq, Structural)]
pub struct SeedAmounts {
    pub yes: u64,
    pub no: u64,
}

/// Aggregate stake per outcome. Totals grow only while the market is open
/// and are frozen afterward.
#[derive(Clone, Copy, Debug, PartialEq, Eq, Structural)]
pub struct Pool {
    pub yes_total: u64,
    pub no_total: u64,
}

/// The one resolution event of a market: when it happened and how it ended.
#[derive(Clone, Copy, Debug, PartialEq, Eq, Structural)]
pub struct Resolution {
    pub time: u64,
    pub outcome: ResolutionOutcome,
}

/// A market's lifecycle position. Transitions are one-way: `Open` to
/// `Decided`, exactly once, never back.
#[derive(Clone, Copy, Debug, PartialEq, Eq, Structural)]
pub enum MarketStatus {
    Open,
    Decided(Resolution),
}

/// What a caller supplies to create a market.
#[derive(Clone, Debug)]
pub struct NewContractProps {
    pub id: String,
    pub creator_id: String,
    pub question: String,
    pub description: String,
    pub seed_amounts: SeedAmounts,
}

/// What a caller supplies to place a bet.
#[derive(Clone, Debug)]
pub struct BetProps {
    pub amount: u64,
    pub user_id: String,
    pub outcome: BetOutcome,
}

/// One market's ledger record: metadata, aggregate pools, and status.
///
/// The ghost fields record the amounts of the accepted bets per outcome, in
/// acceptance order; `wf` ties them to the pool totals, so the aggregate
/// accounting invariant is machine-checked across every operation.
pub struct Contract {
    pub id: String,
    pub creator_id: String,
    pub question: String,
    pub description: String,
    pub seed_amounts: SeedAmounts,
    pub pool: Pool,
    pub created_time: u64,
    pub last_updated_time: u64,
    pub status: MarketStatus,
    /// Amounts of the accepted bets on `Yes`, oldest first (ghost).
    pub accepted_yes: Ghost<Seq<u64>>,
    /// Amounts of the accepted bets on `No`, oldest first (ghost).
    pub accepted_no: Ghost<Seq<u64>>,
}

/// One accepted stake, an independently addressable record keyed by
/// `(market_id, bettor_id, sequence)`.
#[derive(Clone, Debug, PartialEq, Eq)]
pub struct Bet {
    pub market_id: String,
    pub bettor_id: String,
    pub sequence: u64,
    pub outcome: BetOutcome,
    pub amount: u64,
    pub placed_time: u64,
    pub claimed: bool,
}

/// The side opposite to `o`.
pub open spec fn other(o: BetOutcome) -> BetOutcome {
    match o {
        BetOutcome::Yes => BetOutcome::No,
        BetOutcome::No => BetOutcome::Yes,
    }
}

/// Sum of a sequence of stake amounts, as a mathematical integer.
pub open spec fn seq_sum(s: Seq<u64>) -> int
    decreases s.len(),
{
    if s.len() == 0 {
        0
    } else {
        seq_sum(s.drop_last()) + s.last()
    }
}

pub proof fn lemma_seq_sum_push(s: Seq<u64>, x: u64)
    ensures
        seq_sum(s.push(x)) == seq_sum(s) + x,
{
    assert(s.push(x).drop_last() =~= s);
}

pub proof fn lemma_seq_sum_nonneg(s: Seq<u64>)
    ensures
        seq_sum(s) >= 0,
    decreases s.len(),
{
    if s.len() > 0 {
        lemma_seq_sum_nonneg(s.drop_last());
    }
}

impl Contract {
    /// The market still accepts bets and has not been decided.
    pub open spec fn is_open(self) -> bool {
        self.status is Open
    }

    /// The market ended in the cancelled terminal state.
    pub open spec fn is_cancelled(self) -> bool {
        self.status matches MarketStatus::Decided(r) && r.outcome is Cancel
    }

    /// The market was resolved to the outcome `o` (not cancelled).
    pub open spec fn is_resolved_to(self, o: BetOutcome) -> bool {
        match self.status {
            MarketStatus::Open => false,
            MarketStatus::Decided(r) => match (r.outcome, o) {
                (ResolutionOutcome::Yes, BetOutcome::Yes) => true,
                (ResolutionOutcome::No, BetOutcome::No) => true,
                _ => false,
            },
        }
    }

    /// Aggregate stake currently escrowed for the outcome `o`.
    pub open spec fn pool_of(self, o: BetOutcome) -> u64 {
        match o {
            BetOutcome::Yes => self.pool.yes_total,
            BetOutcome::No => self.pool.no_total,
        }
    }

    /// Everything escrowed in this market, both sides together.
    pub open spec fn total_pool(self) -> int {
        self.pool.yes_total + self.pool.no_total
    }

    /// The seed amount contributed for the outcome `o`.
    pub open spec fn seed_of(self, o: BetOutcome) -> u64 {
        match o {
            BetOutcome::Yes => self.seed_amounts.yes,
            BetOutcome::No => self.seed_amounts.no,
        }
    }

    /// The accepted stake amounts on the outcome `o`, oldest first.
    pub open spec fn accepted_of(self, o: BetOutcome) -> Seq<u64> {
        match o {
            BetOutcome::Yes => self.accepted_yes@,
            BetOutcome::No => self.accepted_no@,
        }
    }

    /// Well-formedness of a market record.
    ///
    /// For each outcome the pool total equals the seed amount plus the sum of
    /// the accepted stakes for that outcome; the combined escrow stays
    /// representable in `u64`, which keeps every later payout (at most the
    /// combined escrow) representable; and at least one seed amount is
    /// positive, so the initial price is defined.
    pub open spec fn wf(self) -> bool {
        &&& self.pool.yes_total == self.seed_amounts.yes + seq_sum(self.accepted_yes@)
        &&& self.pool.no_total == self.seed_amounts.no + seq_sum(self.accepted_no@)
        &&& self.total_pool() <= u64::MAX
        &&& self.seed_amounts.yes > 0 || self.seed_amounts.no > 0
    }
}

/// The market record `create_market` hands back for `props` at time `now`:
/// open, pools equal to the seeds, no accepted bets yet.
pub open spec fn fresh_market(m: Contract, props: NewContractProps, now: u64) -> bool {
    &&& m.wf()
    &&& m.is_open()
    &&& m.id@ == props.id@
    &&& m.creator_id@ == props.creator_id@
    &&& m.question@ == props.question@
    &&& m.description@ == props.description@
    &&& m.seed_amounts == props.seed_amounts
    &&& m.pool.yes_total == props.seed_amounts.yes
    &&& m.pool.no_total == props.seed_amounts.no
    &&& m.created_time == now
    &&& m.last_updated_time == now
    &&& m.accepted_yes@ == Seq::<u64>::empty()
    &&& m.accepted_no@ == Seq::<u64>::empty()
}

/// Seed amounts that a market can be created from: not both zero, and with a
/// combined value that fits the escrow bound.
pub open spec fn seeds_valid(seeds: SeedAmounts) -> bool {
    &&& seeds.yes > 0 || seeds.no > 0
    &&& seeds.yes + seeds.no <= u64::MAX
}

/// Creates a new market ledger record with status `Open`, pools equal to the
/// seed amounts, and both timestamps set to `now`.
///
/// Fails `InvalidSeed` if both seed amounts are zero (the initial price would
/// be undefined), and `AmountOverflow` if the combined seed liquidity does
/// not fit the escrow bound. Duplicate-id detection needs the market store
/// and lives in the lifecycle controller.
pub fn create_market(props: NewContractProps, now: u64) -> (r: Result<Contract, DpmError>)
    ensures
        match r {
            Ok(m) => seeds_valid(props.seed_amounts) && fresh_market(m, props, now),
            Err(e) => {
                &&& (e == DpmError::InvalidSeed <==> (props.seed_amounts.yes == 0
                    && props.seed_amounts.no == 0))
                &&& (e == DpmError::AmountOverflow <==> ((props.seed_amounts.yes > 0
                    || props.seed_amounts.no > 0) && props.seed_amounts.yes
                    + props.seed_amounts.no > u64::MAX))
                &&& (e == DpmError::InvalidSeed || e == DpmError::AmountOverflow)
            },
        },
        r is Ok <==> seeds_valid(props.seed_amounts),
{
    let seeds = props.seed_amounts;
    if seeds.yes == 0 && seeds.no == 0 {
        return Err(DpmError::InvalidSeed);
    }
    if seeds.yes > u64::MAX - seeds.no {
        return Err(DpmError::AmountOverflow);
    }
    let m = Contract {
        id: props.id,
        creator_id: props.creator_id,
        question: props.question,
        description: props.description,
        seed_amounts: seeds,
        pool: Pool { yes_total: seeds.yes, no_total: seeds.no },
        created_time: now,
        last_updated_time: now,
        status: MarketStatus::Open,
        accepted_yes: Ghost(Seq::empty()),
        accepted_no: Ghost(Seq::empty()),
    };
    Ok(m)
}

/// How an accepted bet of `amount` on `outcome` at time `now` changes a
/// market record: the backed pool grows by the amount, that outcome's
/// accepted-stake history gains the amount, and everything else but the
/// update timestamp is untouched.
pub open spec fn bet_applied(
    pre: Contract,
    post: Contract,
    outcome: BetOutcome,
    amount: u64,
    now: u64,
) -> bool {
    &&& post.pool_of(outcome) == pre.pool_of(outcome) + amount
    &&& post.pool_of(other(outcome)) == pre.pool_of(other(outcome))
    &&& (outcome is Yes ==> post.accepted_yes@ == pre.accepted_yes@.push(amount)
        && post.accepted_no@ == pre.accepted_no@)
    &&& (outcome is No ==> post.accepted_no@ == pre.accepted_no@.push(amount)
        && post.accepted_yes@ == pre.accepted_yes@)
    &&& post.id@ == pre.id@
    &&& post.creator_id@ == pre.creator_id@
    &&& post.question@ == pre.question@
    &&& post.description@ == pre.description@
    &&& post.seed_amounts == pre.seed_amounts
    &&& post.status == pre.status
    &&& post.created_time == pre.created_time
    &&& post.last_updated_time == now
}

/// The bet record `place_bet` hands back.
pub open spec fn fresh_bet(
    b: Bet,
    market_id: Seq<char>,
    props: BetProps,
    sequence: u64,
    now: u64,
) -> bool {
    &&& b.market_id@ == market_id
    &&& b.bettor_id@ == props.user_id@
    &&& b.sequence == sequence
    &&& b.outcome == props.outcome
    &&& b.amount == props.amount
    &&& b.placed_time == now
    &&& !b.claimed
}

/// Validates and applies a new stake on an open market.
///
/// On success the backed pool grows by exactly the amount, the update
/// timestamp moves to `now`, and the returned bet record carries the stake
/// with `claimed == false`. A failing precondition leaves the market exactly
/// as it was: `MarketClosed` if the market is not open, `InvalidAmount` if
/// the amount is zero, `AmountOverflow` if accepting the amount would push
/// the combined escrow past `u64::MAX` (rejected, never saturated). The
/// `sequence` key is assigned by the lifecycle controller; escrow of the
/// staked funds is the external custody interface's part.
pub fn place_bet(
    m: &mut Contract,
    props: BetProps,
    sequence: u64,
    now: u64,
) -> (r: Result<Bet, DpmError>)
    requires
        old(m).wf(),
    ensures
        final(m).wf(),
        match r {
            Ok(b) => {
                &&& old(m).is_open()
                &&& props.amount > 0
                &&& old(m).total_pool() + props.amount <= u64::MAX
                &&& fresh_bet(b, old(m).id@, props, sequence, now)
                &&& bet_applied(*old(m), *final(m), props.outcome, props.amount, now)
                &&& final(m).is_open()
            },
            Err(e) => {
                &&& *final(m) == *old(m)
                &&& (e == DpmError::MarketClosed <==> !old(m).is_open())
                &&& (e == DpmError::InvalidAmount <==> (old(m).is_open() && props.amount == 0))
                &&& (e == DpmError::AmountOverflow <==> (old(m).is_open() && props.amount > 0
                    && old(m).total_pool() + props.amount > u64::MAX))
                &&& (e == DpmError::MarketClosed || e == DpmError::InvalidAmount
                    || e == DpmError::AmountOverflow)
            },
        },
        r is Ok <==> (old(m).is_open() && props.amount > 0
            && old(m).total_pool() + props.amount <= u64::MAX),
{
    match m.status {
        MarketStatus::Open => {}
        MarketStatus::Decided(_) => {
            return Err(DpmError::MarketClosed);
        }
    }
    if props.amount == 0 {
        return Err(DpmError::InvalidAmount);
    }
    let total: u64 = m.pool.yes_total + m.pool.no_total;
    if props.amount > u64::MAX - total {
        return Err(DpmError::AmountOverflow);
    }
    match props.outcome {
        BetOutcome::Yes => {
            proof {
                lemma_seq_sum_push(m.accepted_yes@, props.amount);
            }
            m.pool.yes_total = m.pool.yes_total + props.amount;
            m.accepted_yes = Ghost(m.accepted_yes@.push(props.amount));
        }
        BetOutcome::No => {
            proof {
                lemma_seq_sum_push(m.accepted_no@, props.amount);
            }
            m.pool.no_total = m.pool.no_total + props.amount;
            m.accepted_no = Ghost(m.accepted_no@.push(props.amount));
        }
    }
    m.last_updated_time = now;
    let bet = Bet {
        market_id: m.id.clone(),
        bettor_id: props.user_id,
        sequence,
        outcome: props.outcome,
        amount: props.amount,
        placed_time: now,
        claimed: false,
    };
    Ok(bet)
}

/// How resolution at time `now` changes a market record: the status becomes
/// the terminal `Decided` state carrying `outcome` and the resolution time,
/// while the pools and the accepted-stake history are frozen exactly as they
/// were.
pub open spec fn resolution_applied(
    pre: Contract,
    post: Contract,
    outcome: ResolutionOutcome,
    now: u64,
) -> bool {
    &&& post.status matches MarketStatus::Decided(res) && res.time == now && res.outcome
        == outcome
    &&& post.pool == pre.pool
    &&& post.accepted_yes@ == pre.accepted_yes@
    &&& post.accepted_no@ == pre.accepted_no@
    &&& post.id@ == pre.id@
    &&& post.creator_id@ == pre.creator_id@
    &&& post.question@ == pre.question@
    &&& post.description@ == pre.description@
    &&& post.seed_amounts == pre.seed_amounts
    &&& post.created_time == pre.created_time
    &&& post.last_updated_time == now
}

/// Moves an open market to its terminal state: `Resolved(outcome)` or, for
/// `Cancel`, the cancelled state that refunds every bet in full.
///
/// Only the market's designated resolver — its creator — may resolve.
/// Irreversible: on a market already decided the call fails `AlreadyResolved`
/// and changes nothing, whoever calls; an unauthorized caller fails
/// `Unauthorized` and changes nothing. On success the pools and the accepted
/// stakes are frozen exactly as they were and the resolution time is set to
/// `now`, once.
pub fn resolve_market(
    m: &mut Contract,
    outcome: ResolutionOutcome,
    caller: &String,
    now: u64,
) -> (r: Result<(), DpmError>)
    requires
        old(m).wf(),
    ensures
        final(m).wf(),
        match r {
            Ok(()) => {
                &&& old(m).is_open()
                &&& caller@ == old(m).creator_id@
                &&& resolution_applied(*old(m), *final(m), outcome, now)
                &&& !final(m).is_open()
            },
            Err(e) => {
                &&& *final(m) == *old(m)
                &&& (e == DpmError::AlreadyResolved <==> !old(m).is_open())
                &&& (e == DpmError::Unauthorized <==> (old(m).is_open()
                    && caller@ != old(m).creator_id@))
                &&& (e == DpmError::AlreadyResolved || e == DpmError::Unauthorized)
            },
        },
        r is Ok <==> (old(m).is_open() && caller@ == old(m).creator_id@),
{
    match m.status {
        MarketStatus::Open => {}
        MarketStatus::Decided(_) => {
            return Err(DpmError::AlreadyResolved);
        }
    }
    if !caller.eq(&m.creator_id) {
        return Err(DpmError::Unauthorized);
    }
    m.status = MarketStatus::Decided(Resolution { time: now, outcome });
    m.last_updated_time = now;
    Ok(())
}

} // verus!
