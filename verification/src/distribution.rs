//! How an amount of VCU is shared out among the shareholders of an AGV.
use vstd::prelude::*;

use crate::types::{AccountId, Balance};

verus! {

/// The total of the shares in `h` (pairs of holder and shares).
pub open spec fn share_sum(h: Seq<(AccountId, u32)>) -> nat
    decreases h.len(),
{
    if h.len() == 0 {
        0
    } else {
        share_sum(h.drop_last()) + h.last().1 as nat
    }
}

/// The total of the amounts in `p` (pairs of holder and amount).
pub open spec fn payout_sum(p: Seq<(AccountId, Balance)>) -> nat
    decreases p.len(),
{
    if p.len() == 0 {
        0
    } else {
        payout_sum(p.drop_last()) + p.last().1 as nat
    }
}

/// What the holder at position `j` of `h` is paid out of `amount`: every
/// holder but the last gets `amount / total` per share; the last gets what
/// is left of `amount`.
pub open spec fn payout_amount(amount: Balance, total: u128, h: Seq<(AccountId, u32)>, j: int) -> int {
    if j < h.len() - 1 {
        (amount / total) * h[j].1
    } else {
        amount - (amount / total) * share_sum(h.take(h.len() - 1))
    }
}

/// The payouts of `amount` among the holders `h`, in their order.
pub open spec fn payouts(amount: Balance, total: u128, h: Seq<(AccountId, u32)>) -> Seq<
    (AccountId, Balance),
> {
    Seq::new(h.len(), |j: int| (h[j].0, payout_amount(amount, total, h, j) as Balance))
}

/// The shares of a prefix grow by the next holder's shares.
pub proof fn lemma_share_sum_take(h: Seq<(AccountId, u32)>, i: int)
    requires
        0 <= i < h.len(),
    ensures
        share_sum(h.take(i + 1)) == share_sum(h.take(i)) + h[i].1,
{
    assert(h.take(i + 1).drop_last() =~= h.take(i));
}

/// The shares of a prefix are at most those of the whole.
pub proof fn lemma_share_sum_prefix(h: Seq<(AccountId, u32)>, i: int)
    requires
        0 <= i <= h.len(),
    ensures
        share_sum(h.take(i)) <= share_sum(h),
    decreases h.len() - i,
{
    if i < h.len() {
        lemma_share_sum_take(h, i);
        lemma_share_sum_prefix(h, i + 1);
    } else {
        assert(h.take(i) =~= h);
    }
}

/// A holder's shares are at most the total of the shares.
pub proof fn lemma_share_at_most_sum(h: Seq<(AccountId, u32)>, j: int)
    requires
        0 <= j < h.len(),
    ensures
        h[j].1 <= share_sum(h),
{
    lemma_share_sum_take(h, j);
    lemma_share_sum_prefix(h, j + 1);
}

proof fn lemma_quota_times_bounded(amount: int, total: int, s: int)
    requires
        0 <= amount,
        0 < total,
        0 <= s <= total,
    ensures
        0 <= (amount / total) * s <= amount,
{
    assert(0 <= amount / total) by (nonlinear_arith)
        requires
            0 <= amount,
            0 < total,
    ;
    assert((amount / total) * s <= (amount / total) * total) by (nonlinear_arith)
        requires
            0 <= amount / total,
            0 <= s <= total,
    ;
    assert((amount / total) * total <= amount) by (nonlinear_arith)
        requires
            0 <= amount,
            0 < total,
    ;
    assert(0 <= (amount / total) * s) by (nonlinear_arith)
        requires
            0 <= amount / total,
            0 <= s,
    ;
}

/// Every payout lies between 0 and the amount, so none is cut short by its type.
pub proof fn lemma_payout_in_range(amount: Balance, total: u128, h: Seq<(AccountId, u32)>, j: int)
    requires
        0 < total,
        share_sum(h) <= total,
        0 <= j < h.len(),
    ensures
        0 <= payout_amount(amount, total, h, j) <= amount,
{
    if j < h.len() - 1 {
        lemma_share_at_most_sum(h, j);
        lemma_quota_times_bounded(amount as int, total as int, h[j].1 as int);
    } else {
        lemma_share_sum_prefix(h, h.len() - 1);
        lemma_quota_times_bounded(
            amount as int,
            total as int,
            share_sum(h.take(h.len() - 1)) as int,
        );
    }
}

/// Shares out `amount_vcu` among `holders` (in their order) for a total of
/// `total_shares` shares: each holder gets `amount_vcu / total_shares` per
/// share, and the last holder gets the rest of `amount_vcu`, so that what is
/// paid out adds up to `amount_vcu`.
pub fn distribute_vcu(amount_vcu: Balance, total_shares: u128, holders: &Vec<(AccountId, u32)>) -> (r:
    Vec<(AccountId, Balance)>)
    requires
        holders.len() > 0 ==> total_shares > 0,
        share_sum(holders@) <= total_shares,
    ensures
        r@ == payouts(amount_vcu, total_shares, holders@),
        r@.len() == holders@.len(),
        forall|j: int| 0 <= j < holders@.len() ==> #[trigger] r@[j].0 == holders@[j].0,
        forall|j: int|
            0 <= j < holders.len() ==> #[trigger] r@[j].1 == payout_amount(
                amount_vcu,
                total_shares,
                holders@,
                j,
            ),
{
    let n = holders.len();
    let mut out: Vec<(AccountId, Balance)> = Vec::new();
    let mut vcuminted: u128 = 0;
    let mut processed: usize = 0;
    let ghost h = holders@;
    let ghost q = amount_vcu / total_shares;
    assert(h.take(0) =~= Seq::<(AccountId, u32)>::empty());
    assert(share_sum(h.take(0)) == 0);
    assert(q * 0 == 0) by (nonlinear_arith);
    while processed < n
        invariant
            n == holders.len(),
            h == holders@,
            processed <= n,
            n > 0 ==> total_shares > 0,
            q == amount_vcu / total_shares,
            share_sum(h) <= total_shares,
            processed < n ==> vcuminted == q * share_sum(h.take(processed as int)),
            out@.len() == processed,
            forall|j: int|
                0 <= j < processed ==> #[trigger] out@[j] == (
                    h[j].0,
                    payout_amount(amount_vcu, total_shares, h, j) as Balance,
                ),
        decreases n - processed,
    {
        let i = processed;
        let holder = holders[i].0;
        let numshares: u128 = holders[i].1 as u128;
        proof {
            lemma_share_at_most_sum(h, i as int);
            lemma_quota_times_bounded(amount_vcu as int, total_shares as int, numshares as int);
            lemma_share_sum_take(h, i as int);
            lemma_share_sum_prefix(h, i as int);
            lemma_share_sum_prefix(h, i + 1);
            lemma_quota_times_bounded(
                amount_vcu as int,
                total_shares as int,
                share_sum(h.take(i as int)) as int,
            );
            lemma_quota_times_bounded(
                amount_vcu as int,
                total_shares as int,
                share_sum(h.take(i + 1)) as int,
            );
            lemma_payout_in_range(amount_vcu, total_shares, h, i as int);
            assert(q * share_sum(h.take(i + 1)) == q * share_sum(h.take(i as int)) + q
                * numshares) by (nonlinear_arith)
                requires
                    share_sum(h.take(i + 1)) == share_sum(h.take(i as int)) + numshares,
            ;
        }
        let mut nvcu: u128 = amount_vcu / total_shares * numshares;
        processed = processed + 1;
        if processed == n && vcuminted + nvcu > amount_vcu {
            nvcu = amount_vcu - vcuminted;
        }
        if processed == n && vcuminted + nvcu < amount_vcu {
            nvcu = amount_vcu - vcuminted;
        }
        out.push((holder, nvcu));
        if processed < n {
            vcuminted = vcuminted + nvcu;
        }
    }
    assert(out@ =~= payouts(amount_vcu, total_shares, h));
    assert forall|j: int| 0 <= j < holders.len() implies #[trigger] out@[j].1 == payout_amount(
        amount_vcu,
        total_shares,
        holders@,
        j,
    ) by {
        lemma_payout_in_range(amount_vcu, total_shares, h, j);
    }
    out
}

/// The payouts go to exactly the holders given, one payout each, in their order.
pub proof fn payouts_name_the_holders(amount: Balance, total: u128, h: Seq<(AccountId, u32)>)
    ensures
        payouts(amount, total, h).len() == h.len(),
        forall|j: int| 0 <= j < h.len() ==> #[trigger] payouts(amount, total, h)[j].0 == h[j].0,
{
}

/// Every holder but the last walked gets exactly `amount / total` per share;
/// the last gets what the others leave of `amount`.
pub proof fn payouts_are_proportional(amount: Balance, total: u128, h: Seq<(AccountId, u32)>, j: int)
    requires
        0 < total,
        share_sum(h) <= total,
        0 <= j < h.len(),
    ensures
        j < h.len() - 1 ==> payouts(amount, total, h)[j].1 == (amount / total) * h[j].1,
        j == h.len() - 1 ==> payouts(amount, total, h)[j].1 + payout_sum(payouts(amount, total, h).take(j))
            == amount,
{
    lemma_payout_in_range(amount, total, h, j);
    if j == h.len() - 1 {
        payouts_add_up_to_amount(amount, total, h);
        assert(payouts(amount, total, h).drop_last() =~= payouts(amount, total, h).take(j));
    }
}

/// The payouts of a prefix of the holders that stops before the last one.
proof fn lemma_payout_sum_prefix(amount: Balance, total: u128, h: Seq<(AccountId, u32)>, k: int)
    requires
        0 < total,
        share_sum(h) <= total,
        0 <= k < h.len(),
    ensures
        payout_sum(payouts(amount, total, h).take(k)) == (amount / total) * share_sum(h.take(k)),
    decreases k,
{
    let p = payouts(amount, total, h);
    if k == 0 {
        assert(p.take(0) =~= Seq::<(AccountId, Balance)>::empty());
        assert(h.take(0) =~= Seq::<(AccountId, u32)>::empty());
        assert(share_sum(h.take(0)) == 0);
        assert(payout_sum(p.take(0)) == 0);
        assert((amount / total) * 0 == 0) by (nonlinear_arith);
    } else {
        lemma_payout_sum_prefix(amount, total, h, k - 1);
        assert(p.take(k).drop_last() =~= p.take(k - 1));
        lemma_share_sum_take(h, k - 1);
        lemma_payout_in_range(amount, total, h, k - 1);
        let q = amount / total;
        assert(q * share_sum(h.take(k)) == q * share_sum(h.take(k - 1)) + q * h[k - 1].1)
            by (nonlinear_arith)
            requires
                share_sum(h.take(k)) == share_sum(h.take(k - 1)) + h[k - 1].1,
        ;
    }
}

/// What is paid out to a non-empty set of holders adds up to exactly the amount.
pub proof fn payouts_add_up_to_amount(amount: Balance, total: u128, h: Seq<(AccountId, u32)>)
    requires
        h.len() > 0,
        0 < total,
        share_sum(h) <= total,
    ensures
        payout_sum(payouts(amount, total, h)) == amount,
{
    let p = payouts(amount, total, h);
    let n = h.len() as int;
    lemma_payout_sum_prefix(amount, total, h, n - 1);
    assert(p.drop_last() =~= p.take(n - 1));
    lemma_payout_in_range(amount, total, h, n - 1);
}

/// Every holder but the last is paid in proportion to its shares: a holder
/// with more shares never gets less.
pub proof fn payouts_follow_shares(
    amount: Balance,
    total: u128,
    h: Seq<(AccountId, u32)>,
    i: int,
    j: int,
)
    requires
        0 < total,
        share_sum(h) <= total,
        0 <= i < h.len() - 1,
        0 <= j < h.len() - 1,
        h[i].1 <= h[j].1,
    ensures
        payouts(amount, total, h)[i].1 <= payouts(amount, total, h)[j].1,
        payouts(amount, total, h)[i].1 == (amount / total) * h[i].1,
{
    lemma_payout_in_range(amount, total, h, i);
    lemma_payout_in_range(amount, total, h, j);
    let q = amount / total;
    assert(q * h[i].1 <= q * h[j].1) by (nonlinear_arith)
        requires
            0 <= q,
            h[i].1 <= h[j].1,
    ;
}

} // verus!
