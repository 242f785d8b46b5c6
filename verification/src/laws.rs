use vstd::prelude::*;

use vstd::arithmetic::div_mod::lemma_div_pos_is_pos;
use vstd::arithmetic::div_mod::lemma_fundamental_div_mod;
use vstd::arithmetic::div_mod::lemma_mod_bound;
use vstd::arithmetic::mul::lemma_mul_inequality;
use vstd::arithmetic::mul::lemma_mul_inequality_converse;
use vstd::arithmetic::mul::lemma_mul_is_commutative;
use vstd::arithmetic::mul::lemma_mul_is_distributive_add_other_way;
use vstd::arithmetic::mul::lemma_mul_nonnegative;

use crate::market::seq_sum;
use crate::settle::pro_rata_share;
use crate::settle::winning_payout_spec;

verus! {

/// Sum of the rounded-down pro-rata shares of the losing pool over the
/// winning stakes `stakes`, against winning total `w` and losing total `l`.
/// Zero when `w == 0`: with no winning stake there are no shares at all.
pub open spec fn sum_shares(stakes: Seq<u64>, w: int, l: int) -> int
    decreases stakes.len(),
{
    if stakes.len() == 0 {
        0
    } else {
        sum_shares(stakes.drop_last(), w, l) + (
        if w == 0 {
            0
        } else {
            (stakes.last() * l) / w
        })
    }
}

/// Sum of the full winning payouts (principal plus share) over `stakes`.
pub open spec fn sum_payouts(stakes: Seq<u64>, w: int, l: int) -> int
    decreases stakes.len(),
{
    if stakes.len() == 0 {
        0
    } else {
        sum_payouts(stakes.drop_last(), w, l) + winning_payout_spec(stakes.last() as int, w, l)
    }
}

/// What the rounding leaves behind for the protocol treasury: the losing
/// pool minus every winner's rounded-down share of it.
pub open spec fn treasury_remainder_spec(stakes: Seq<u64>, w: int, l: int) -> int {
    l - sum_shares(stakes, w, l)
}

/// A winning payout splits into principal and pro-rata share, so their sums
/// split the same way.
pub proof fn lemma_sum_payouts_split(stakes: Seq<u64>, w: int, l: int)
    ensures
        sum_payouts(stakes, w, l) == seq_sum(stakes) + sum_shares(stakes, w, l),
    decreases stakes.len(),
{
    if stakes.len() > 0 {
        lemma_sum_payouts_split(stakes.drop_last(), w, l);
    }
}

/// The summed shares, scaled back up by the winning pool, never exceed the
/// summed stakes scaled by the losing pool: each rounded-down share obeys
/// `w * floor(s * l / w) <= s * l`.
pub proof fn lemma_sum_shares_mul(stakes: Seq<u64>, w: int, l: int)
    requires
        w > 0,
        l >= 0,
    ensures
        0 <= sum_shares(stakes, w, l),
        sum_shares(stakes, w, l) * w <= seq_sum(stakes) * l,
    decreases stakes.len(),
{
    if stakes.len() == 0 {
        assert(0 * w == 0);
        assert(0 * l == 0);
    } else {
        let prefix = stakes.drop_last();
        let s = stakes.last() as int;
        lemma_sum_shares_mul(prefix, w, l);
        let sh = (s * l) / w;
        lemma_mul_nonnegative(s, l);
        lemma_div_pos_is_pos(s * l, w);
        lemma_fundamental_div_mod(s * l, w);
        lemma_mod_bound(s * l, w);
        assert(w * sh <= s * l);
        lemma_mul_is_distributive_add_other_way(w, sum_shares(prefix, w, l), sh);
        lemma_mul_is_distributive_add_other_way(l, seq_sum(prefix), s);
        lemma_mul_is_commutative(w, sh);
        assert(sum_shares(stakes, w, l) * w == sum_shares(prefix, w, l) * w + sh * w);
        assert(seq_sum(stakes) * l == seq_sum(prefix) * l + s * l);
    }
}

/// The summed shares never exceed the losing pool itself, provided the
/// stakes are all counted in the winning pool.
pub proof fn lemma_sum_shares_le_losing(stakes: Seq<u64>, w: int, l: int)
    requires
        w >= 0,
        l >= 0,
        seq_sum(stakes) <= w,
    ensures
        0 <= sum_shares(stakes, w, l) <= l,
    decreases stakes.len(),
{
    if w == 0 {
        if stakes.len() > 0 {
            crate::market::lemma_seq_sum_nonneg(stakes.drop_last());
            lemma_sum_shares_le_losing(stakes.drop_last(), w, l);
        }
    } else {
        lemma_sum_shares_mul(stakes, w, l);
        lemma_mul_inequality(seq_sum(stakes), w, l);
        lemma_mul_is_commutative(w, l);
        lemma_mul_inequality_converse(sum_shares(stakes, w, l), l, w);
    }
}

/// Conservation of funds at settlement.
///
/// For a resolved, non-cancelled market with winning pool total `w` and
/// losing pool total `l`, and any collection of winning stakes whose sum is
/// counted in `w`: the winners' payouts together with the retained rounding
/// remainder account for the stakes plus the whole losing pool, exactly —
/// the remainder is never dropped and never double-paid — and the payouts
/// alone never exceed `w + l`, the total escrow.
pub proof fn lemma_conservation(stakes: Seq<u64>, w: u64, l: u64)
    requires
        seq_sum(stakes) <= w,
    ensures
        sum_payouts(stakes, w as int, l as int) + treasury_remainder_spec(
            stakes,
            w as int,
            l as int,
        ) == seq_sum(stakes) + l,
        0 <= treasury_remainder_spec(stakes, w as int, l as int) <= l,
        sum_payouts(stakes, w as int, l as int) <= w + l,
{
    lemma_sum_payouts_split(stakes, w as int, l as int);
    lemma_sum_shares_le_losing(stakes, w as int, l as int);
}

/// Conservation of funds for a resolved, non-cancelled market record.
///
/// Relabel the pools by the resolved outcome: `w` is the winning total and
/// `l` the losing total. Settling every accepted winning bet pays out, in
/// all, the winners' stakes plus the losing pool less the retained rounding
/// remainder; and those payouts never exceed the market's total escrow. The
/// winning seed's slice of the losing pool is part of the remainder, since
/// the seed is liquidity, not a claimable bet.
pub proof fn lemma_market_conservation(m: crate::market::Contract, o: crate::market::BetOutcome)
    requires
        m.wf(),
        m.is_resolved_to(o),
    ensures
        ({
            let stakes = m.accepted_of(o);
            let w = m.pool_of(o) as int;
            let l = m.pool_of(crate::market::other(o)) as int;
            &&& sum_payouts(stakes, w, l) + treasury_remainder_spec(stakes, w, l) == seq_sum(
                stakes,
            ) + l
            &&& 0 <= treasury_remainder_spec(stakes, w, l) <= l
            &&& sum_payouts(stakes, w, l) <= m.total_pool()
        }),
{
    let stakes = m.accepted_of(o);
    assert(m.pool_of(o) == m.seed_of(o) + seq_sum(stakes));
    lemma_conservation(stakes, m.pool_of(o), m.pool_of(crate::market::other(o)));
}

/// Pool accounting. For every well-formed market — and every operation
/// returns one — each outcome's pool total equals that outcome's seed amount
/// plus the sum of the accepted stakes on it, however many bets were placed.
pub proof fn lemma_pool_accounting(m: crate::market::Contract)
    requires
        m.wf(),
    ensures
        m.pool.yes_total == m.seed_amounts.yes + seq_sum(m.accepted_yes@),
        m.pool.no_total == m.seed_amounts.no + seq_sum(m.accepted_no@),
{
}

/// Cancellation refund. Under a cancelled market every bet's payout is its
/// original stake, exactly, whatever outcome it backed.
pub proof fn lemma_cancellation_refund(
    m: crate::market::Contract,
    o: crate::market::BetOutcome,
    amount: u64,
)
    requires
        m.is_cancelled(),
    ensures
        crate::settle::payout_spec(m, o, amount) == amount,
{
}

/// Computes the retained rounding remainder for the treasury bucket: the
/// losing pool total minus every listed winning stake's rounded-down share.
pub fn treasury_remainder(stakes: &Vec<u64>, w: u64, l: u64) -> (r: u64)
    requires
        seq_sum(stakes@) <= w,
    ensures
        r == treasury_remainder_spec(stakes@, w as int, l as int),
{
    if w == 0 {
        proof {
            lemma_shares_zero_when_w_zero(stakes@, l as int);
        }
        return l;
    }
    let ghost gw: int = w as int;
    let ghost gl: int = l as int;
    let mut acc: u64 = 0;
    let mut i: usize = 0;
    proof {
        assert(stakes@.take(0) =~= Seq::<u64>::empty());
    }
    while i < stakes.len()
        invariant
            i <= stakes@.len(),
            seq_sum(stakes@) <= gw,
            gw == w as int && gl == l as int,
            gw > 0,
            acc == sum_shares(stakes@.take(i as int), gw, gl),
            acc <= gl,
        decreases stakes@.len() - i,
    {
        let s = stakes[i];
        proof {
            lemma_seq_sum_take_le(stakes@, i as int + 1);
            assert(stakes@.take(i as int + 1).drop_last() =~= stakes@.take(i as int));
            assert(stakes@.take(i as int + 1).last() == stakes@[i as int]);
            crate::market::lemma_seq_sum_nonneg(stakes@.take(i as int));
            lemma_sum_shares_le_losing(stakes@.take(i as int + 1), gw, gl);
        }
        let share = pro_rata_share(s, w, l);
        acc = acc + share;
        i = i + 1;
    }
    proof {
        assert(stakes@.take(stakes@.len() as int) =~= stakes@);
    }
    l - acc
}

/// With an empty winning pool there are no shares at all.
proof fn lemma_shares_zero_when_w_zero(stakes: Seq<u64>, l: int)
    ensures
        sum_shares(stakes, 0, l) == 0,
    decreases stakes.len(),
{
    if stakes.len() > 0 {
        lemma_shares_zero_when_w_zero(stakes.drop_last(), l);
    }
}

/// A prefix of a sequence of nonnegative stakes never sums to more than the
/// whole sequence.
pub proof fn lemma_seq_sum_take_le(s: Seq<u64>, i: int)
    requires
        0 <= i <= s.len(),
    ensures
        seq_sum(s.take(i)) <= seq_sum(s),
    decreases s.len() - i,
{
    if i == s.len() {
        assert(s.take(i) =~= s);
    } else {
        assert(s.take(i + 1).drop_last() =~= s.take(i));
        assert(s.take(i + 1).last() == s[i]);
        lemma_seq_sum_take_le(s, i + 1);
    }
}

} // verus!
