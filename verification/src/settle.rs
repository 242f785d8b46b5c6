use vstd::prelude::*;

use vstd::arithmetic::div_mod::lemma_div_is_ordered;
use vstd::arithmetic::div_mod::lemma_div_multiples_vanish;
use vstd::arithmetic::div_mod::lemma_div_pos_is_pos;
use vstd::arithmetic::mul::lemma_mul_inequality;
use vstd::arithmetic::mul::lemma_mul_upper_bound;

use crate::errors::DpmError;
use crate::market::other;
use crate::market::Bet;
use crate::market::BetOutcome;
use crate::market::Contract;
use crate::market::MarketStatus;

verus! {

/// Payout for a winning stake of `amount` against a winning pool total `w`
/// and a losing pool total `l`: the principal plus a pro-rata share of the
/// losing pool, rounded down. In the degenerate case `w == 0` (no stake at
/// all on the winning side, seed included) there is nothing to redistribute
/// against and the payout is the principal alone.
pub open spec fn winning_payout_spec(amount: int, w: int, l: int) -> int {
    if w == 0 {
        amount
    } else {
        amount + (amount * l) / w
    }
}

/// Payout owed to a bet of `amount` on `o` under the decided market `m`:
/// the full stake back on cancellation, the parimutuel payout for a winning
/// bet, and nothing for a losing bet.
pub open spec fn payout_spec(m: Contract, o: BetOutcome, amount: u64) -> int {
    if m.is_cancelled() {
        amount as int
    } else if m.is_resolved_to(o) {
        winning_payout_spec(amount as int, m.pool_of(o) as int, m.pool_of(other(o)) as int)
    } else {
        0
    }
}

/// The bet is a record of the market `m`: it carries `m`'s id, and its stake
/// is counted in — hence bounded by — the pool of its outcome. Every bet the
/// lifecycle controller accepts satisfies this by construction.
pub open spec fn bet_matches(b: Bet, m: Contract) -> bool {
    &&& b.market_id@ == m.id@
    &&& b.amount <= m.pool_of(b.outcome)
}

/// A stake's pro-rata slice of the losing pool, rounded down:
/// `floor(amount * l / w)`. The product is taken in 128-bit arithmetic, so
/// it cannot overflow; the quotient is at most `l` because the stake is at
/// most the winning pool total.
pub fn pro_rata_share(amount: u64, w: u64, l: u64) -> (r: u64)
    requires
        amount <= w,
        w > 0,
    ensures
        r == (amount as int * l as int) / (w as int),
        r <= l,
{
    proof {
        lemma_mul_upper_bound(amount as int, u64::MAX as int, l as int, u64::MAX as int);
        lemma_mul_inequality(amount as int, w as int, l as int);
        lemma_div_is_ordered(amount as int * l as int, w as int * l as int, w as int);
        lemma_div_multiples_vanish(l as int, w as int);
        lemma_div_pos_is_pos(amount as int * l as int, w as int);
    }
    let share_wide: u128 = (amount as u128) * (l as u128) / (w as u128);
    share_wide as u64
}

/// Computes `winning_payout_spec` in executable arithmetic. The result fits
/// `u64` because the stake is part of the winning pool and the combined
/// escrow fits `u64`.
pub fn payout_amount(amount: u64, w: u64, l: u64) -> (r: u64)
    requires
        amount <= w,
        w + l <= u64::MAX,
    ensures
        r == winning_payout_spec(amount as int, w as int, l as int),
{
    if w == 0 {
        return amount;
    }
    let share = pro_rata_share(amount, w, l);
    amount + share
}

/// How a successful claim changes a bet record: the claimed flag flips to
/// `true` and every other field is untouched.
pub open spec fn claim_marked(pre: Bet, post: Bet) -> bool {
    &&& post.market_id@ == pre.market_id@
    &&& post.bettor_id@ == pre.bettor_id@
    &&& post.sequence == pre.sequence
    &&& post.outcome == pre.outcome
    &&& post.amount == pre.amount
    &&& post.placed_time == pre.placed_time
    &&& post.claimed
}

/// Settles one bet against its decided market: computes the payout, marks
/// the bet claimed, and returns the amount for the external transfer
/// interface to disburse.
///
/// Fails `NotResolved` while the market is still open and `AlreadyClaimed`
/// if the bet was settled before; either failure leaves the bet untouched.
/// The claimed flag flips `false` to `true` at most once, within the same
/// atomic unit as the returned transfer authorization, so a repeated claim
/// can never pay twice. Cancellation refunds exactly the stake, whatever the
/// bet's outcome.
pub fn claim_payout(m: &Contract, b: &mut Bet) -> (r: Result<u64, DpmError>)
    requires
        m.wf(),
        bet_matches(*old(b), *m),
    ensures
        final(b).market_id@ == old(b).market_id@,
        final(b).bettor_id@ == old(b).bettor_id@,
        final(b).sequence == old(b).sequence,
        final(b).outcome == old(b).outcome,
        final(b).amount == old(b).amount,
        final(b).placed_time == old(b).placed_time,
        match r {
            Ok(p) => {
                &&& !m.is_open()
                &&& !old(b).claimed
                &&& claim_marked(*old(b), *final(b))
                &&& p == payout_spec(*m, old(b).outcome, old(b).amount)
                &&& (m.is_cancelled() ==> p == old(b).amount)
                &&& (!m.is_cancelled() && !m.is_resolved_to(old(b).outcome) ==> p == 0)
            },
            Err(e) => {
                &&& *final(b) == *old(b)
                &&& (e == DpmError::NotResolved <==> m.is_open())
                &&& (e == DpmError::AlreadyClaimed <==> (!m.is_open() && old(b).claimed))
                &&& (e == DpmError::NotResolved || e == DpmError::AlreadyClaimed)
            },
        },
        r is Ok <==> (!m.is_open() && !old(b).claimed),
{
    let res = match m.status {
        MarketStatus::Open => {
            return Err(DpmError::NotResolved);
        }
        MarketStatus::Decided(res) => res,
    };
    if b.claimed {
        return Err(DpmError::AlreadyClaimed);
    }
    let payout: u64 = match res.outcome {
        crate::market::ResolutionOutcome::Cancel => b.amount,
        crate::market::ResolutionOutcome::Yes => match b.outcome {
            BetOutcome::Yes => payout_amount(b.amount, m.pool.yes_total, m.pool.no_total),
            BetOutcome::No => 0,
        },
        crate::market::ResolutionOutcome::No => match b.outcome {
            BetOutcome::No => payout_amount(b.amount, m.pool.no_total, m.pool.yes_total),
            BetOutcome::Yes => 0,
        },
    };
    b.claimed = true;
    Ok(payout)
}

} // verus!
