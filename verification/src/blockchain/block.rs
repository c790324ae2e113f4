//! Block-level reward amounts.

pub mod rewards;

use vstd::prelude::*;

verus! {

/// A reward amount in base units.
#[derive(Debug, Clone, Copy, PartialEq, Eq, Structural)]
pub struct Reward {
    pub amount: u64,
}

impl Reward {
    pub fn new(amount: u64) -> (reward: Self)
        ensures
            reward.amount == amount,
    {
        Reward { amount }
    }
}

} // verus!
