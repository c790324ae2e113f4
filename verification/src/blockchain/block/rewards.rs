//! Totals over reward amounts.

use crate::blockchain::block::Reward;
use vstd::prelude::*;

verus! {

/// The sum of the amounts of a sequence of rewards.
pub open spec fn total_amount(rewards: Seq<Reward>) -> nat
    decreases rewards.len(),
{
    if rewards.len() == 0 {
        0
    } else {
        total_amount(rewards.drop_last()) + rewards.last().amount as nat
    }
}

/// The sum of a growing sequence of rewards grows.
pub proof fn lemma_total_amount_grows(rewards: Seq<Reward>, count: int)
    requires
        0 <= count <= rewards.len(),
    ensures
        total_amount(rewards.take(count)) <= total_amount(rewards),
    decreases rewards.len() - count,
{
    if count < rewards.len() {
        lemma_total_amount_grows(rewards, count + 1);
        assert(rewards.take(count + 1).drop_last() =~= rewards.take(count));
    } else {
        assert(rewards.take(count) =~= rewards);
    }
}

/// Total rewards as an integer.
pub fn total_u64(rewards: &[Reward]) -> (total: u64)
    requires
        total_amount(rewards@) <= u64::MAX,
    ensures
        total == total_amount(rewards@),
{
    let mut total: u64 = 0;
    let mut i: usize = 0;
    while i < rewards.len()
        invariant
            i <= rewards.len(),
            total == total_amount(rewards@.take(i as int)),
            total_amount(rewards@) <= u64::MAX,
        decreases rewards.len() - i,
    {
        proof {
            lemma_total_amount_grows(rewards@, i + 1);
            assert(rewards@.take(i + 1).drop_last() =~= rewards@.take(i as int));
        }
        total = total + rewards[i].amount;
        i += 1;
    }
    assert(rewards@.take(i as int) =~= rewards@);
    total
}

/// Total rewards, or `None` where the sum does not fit in 64 bits.
pub fn checked_total_u64(rewards: &[Reward]) -> (total: Option<u64>)
    ensures
        total is Some <==> total_amount(rewards@) <= u64::MAX,
        total matches Some(sum) ==> sum == total_amount(rewards@),
{
    let mut total: u64 = 0;
    let mut i: usize = 0;
    while i < rewards.len()
        invariant
            i <= rewards.len(),
            total == total_amount(rewards@.take(i as int)),
        decreases rewards.len() - i,
    {
        proof {
            lemma_total_amount_grows(rewards@, i + 1);
            assert(rewards@.take(i + 1).drop_last() =~= rewards@.take(i as int));
        }
        match total.checked_add(rewards[i].amount) {
            Some(sum) => {
                total = sum;
            },
            None => {
                return None;
            },
        }
        i += 1;
    }
    assert(rewards@.take(i as int) =~= rewards@);
    Some(total)
}

} // verus!
