//! Sums of amounts.
use vstd::prelude::*;

verus! {

/// The sum of some amounts.
pub open spec fn amount_sum(values: Seq<u64>) -> int
    decreases values.len(),
{
    if values.len() == 0 {
        0
    } else {
        amount_sum(values.drop_last()) + values.last()
    }
}

/// What an amount comes to when it costs a fee to use, and is not used where it is not worth the
/// fee.
pub open spec fn net_worth(value: u64, fee: u64) -> int {
    if value > fee {
        value - fee
    } else {
        0
    }
}

/// What some amounts come to when each of them costs a fee to use, and those that are not worth
/// their fee are not used.
pub open spec fn net_sum(values: Seq<u64>, fee: u64) -> int
    decreases values.len(),
{
    if values.len() == 0 {
        0
    } else {
        net_sum(values.drop_last(), fee) + net_worth(values.last(), fee)
    }
}

/// Without a fee the amounts come to their sum.
pub proof fn lemma_net_sum_without_fee(values: Seq<u64>)
    ensures
        net_sum(values, 0) == amount_sum(values),
    decreases values.len(),
{
    if values.len() > 0 {
        lemma_net_sum_without_fee(values.drop_last());
    }
}

proof fn lemma_net_sum_remove(values: Seq<u64>, i: int, fee: u64)
    requires
        0 <= i < values.len(),
    ensures
        net_sum(values, fee) == net_sum(values.remove(i), fee) + net_worth(values[i], fee),
    decreases values.len(),
{
    if i == values.len() - 1 {
        assert(values.remove(i) =~= values.drop_last());
    } else {
        lemma_net_sum_remove(values.drop_last(), i, fee);
        assert(values.remove(i).drop_last() =~= values.drop_last().remove(i));
        assert(values.remove(i).last() == values.last());
    }
}

/// Fewer amounts come to no more.
pub proof fn lemma_net_sum_subset(part: Seq<u64>, whole: Seq<u64>, fee: u64)
    requires
        part.to_multiset().subset_of(whole.to_multiset()),
    ensures
        net_sum(part, fee) <= net_sum(whole, fee),
    decreases part.len(),
{
    broadcast use vstd::seq_lib::group_to_multiset_ensures;

    if part.len() == 0 {
        lemma_net_sum_nonnegative(whole, fee);
    } else {
        let value = part.last();
        let last = part.len() - 1;
        assert(part.to_multiset().count(value) > 0);
        assert(whole.contains(value));
        let i = choose|i: int| 0 <= i < whole.len() && whole[i] == value;
        assert(part.remove(last) =~= part.drop_last());
        assert(part.remove(last).to_multiset().subset_of(whole.remove(i).to_multiset()));
        lemma_net_sum_subset(part.drop_last(), whole.remove(i), fee);
        lemma_net_sum_remove(whole, i, fee);
    }
}

proof fn lemma_net_sum_nonnegative(values: Seq<u64>, fee: u64)
    ensures
        net_sum(values, fee) >= 0,
    decreases values.len(),
{
    if values.len() > 0 {
        lemma_net_sum_nonnegative(values.drop_last(), fee);
    }
}

/// The sum of some amounts does not depend on their order.
pub proof fn lemma_sum_of_same_amounts(a: Seq<u64>, b: Seq<u64>)
    requires
        a.to_multiset() == b.to_multiset(),
    ensures
        amount_sum(a) == amount_sum(b),
        a.len() == b.len(),
{
    broadcast use vstd::seq_lib::group_to_multiset_ensures;

    lemma_net_sum_subset(a, b, 0);
    lemma_net_sum_subset(b, a, 0);
    lemma_net_sum_without_fee(a);
    lemma_net_sum_without_fee(b);
    assert(a.len() == a.to_multiset().len());
    assert(b.len() == b.to_multiset().len());
}

/// Amounts come to no less than their sum after a fee for each.
pub proof fn lemma_net_sum_bound(values: Seq<u64>, fee: u64)
    ensures
        net_sum(values, fee) >= amount_sum(values) - values.len() * fee,
    decreases values.len(),
{
    if values.len() > 0 {
        lemma_net_sum_bound(values.drop_last(), fee);
        let n = values.len() as int;
        assert(n * fee == (n - 1) * fee + fee) by (nonlinear_arith);
    }
}

} // verus!
