//! The emission schedule: a block reward that falls in a straight line from
//! the initial to the final reward over the decay period and stays at the
//! final reward from then on.

use crate::clock::unix_time;
use crate::text::{decimal, decimal_text, padded, padded_text};
use vstd::prelude::*;
use vstd::string::StringExecFns;

verus! {

/// Blocks per year at ten minutes a block.
pub const BLOCKS_PER_YEAR: u64 = 52_560;

/// Base units in one coin.
pub const COIN: u64 = 100_000_000;

/// The reward of the first block, 32.375 coins, in base units.
pub const INITIAL_REWARD: u64 = 3_237_500_000;

/// The tail emission, 0.5 coins, in base units.
pub const FINAL_REWARD: u64 = 50_000_000;

/// Years over which the reward falls.
pub const DECAY_PERIOD_YEARS: u64 = 24;

/// Blocks over which the reward falls.
pub const DECAY_PERIOD_BLOCKS: u64 = 1_261_440;

/// The reward of the block at `height`, in base units: the point at `height`
/// on the line from the initial reward at height 0 to the final reward at the
/// end of the decay period, rounded down; the final reward from there on.
pub open spec fn block_reward(height: nat) -> nat {
    if height >= DECAY_PERIOD_BLOCKS {
        FINAL_REWARD as nat
    } else {
        ((INITIAL_REWARD * DECAY_PERIOD_BLOCKS - (INITIAL_REWARD - FINAL_REWARD) * height)
            / DECAY_PERIOD_BLOCKS as int) as nat
    }
}

/// The rewards of all blocks from height 0 up to `height`, both included.
pub open spec fn total_supply(height: nat) -> nat
    decreases height,
{
    if height == 0 {
        block_reward(0)
    } else {
        total_supply((height - 1) as nat) + block_reward(height)
    }
}

/// The reward never rises with the height and never leaves the range from
/// the final to the initial reward.
pub proof fn lemma_reward_non_increasing(lower: nat, higher: nat)
    requires
        lower <= higher,
    ensures
        block_reward(higher) <= block_reward(lower),
        FINAL_REWARD <= block_reward(higher),
        block_reward(lower) <= INITIAL_REWARD,
{
}

/// The first block earns the initial reward; from the end of the decay period
/// on every block earns the final reward.
pub proof fn lemma_reward_ends(height: nat)
    ensures
        block_reward(0) == INITIAL_REWARD,
        height >= DECAY_PERIOD_BLOCKS ==> block_reward(height) == FINAL_REWARD,
{
}

/// The supply at a lower height is at most that at a higher one.
pub proof fn lemma_total_supply_monotonic(lower: nat, higher: nat)
    requires
        lower <= higher,
    ensures
        total_supply(lower) <= total_supply(higher),
    decreases higher,
{
    if lower < higher {
        lemma_total_supply_monotonic(lower, (higher - 1) as nat);
    }
}

/// Linear-decay block reward: 32.375 coins falling to 0.5 over 24 years, then
/// 0.5 for every block.
pub fn calculate_block_reward(block_height: u64) -> (reward: u64)
    ensures
        reward == block_reward(block_height as nat),
        FINAL_REWARD <= reward <= INITIAL_REWARD,
{
    if block_height >= DECAY_PERIOD_BLOCKS {
        return FINAL_REWARD;
    }
    assert((INITIAL_REWARD - FINAL_REWARD) * block_height <= 3_187_500_000 * 1_261_440)
        by (nonlinear_arith)
        requires
            block_height < 1_261_440,
            INITIAL_REWARD - FINAL_REWARD == 3_187_500_000,
    ;
    assert(INITIAL_REWARD * DECAY_PERIOD_BLOCKS == 4_083_912_000_000_000);
    let fallen: u64 = (INITIAL_REWARD - FINAL_REWARD) * block_height;
    let reward_base_units: u64 = (INITIAL_REWARD * DECAY_PERIOD_BLOCKS - fallen)
        / DECAY_PERIOD_BLOCKS;
    if reward_base_units < FINAL_REWARD {
        FINAL_REWARD
    } else {
        reward_base_units
    }
}

/// Returns the total supply at a block height: the rewards of all blocks up
/// to and with that height.
pub fn calculate_total_supply(block_height: u64) -> (supply: u64)
    requires
        total_supply(block_height as nat) <= u64::MAX,
    ensures
        supply == total_supply(block_height as nat),
{
    let mut total: u64 = calculate_block_reward(0);
    let mut height: u64 = 0;
    while height < block_height
        invariant
            height <= block_height,
            total == total_supply(height as nat),
            total_supply(block_height as nat) <= u64::MAX,
        decreases block_height - height,
    {
        height = height + 1;
        proof {
            lemma_total_supply_monotonic(height as nat, block_height as nat);
        }
        total = total + calculate_block_reward(height);
    }
    total
}

/// The total supply at a block height, or `None` where it does not fit in
/// 64 bits.
pub fn checked_total_supply(block_height: u64) -> (supply: Option<u64>)
    ensures
        supply is Some <==> total_supply(block_height as nat) <= u64::MAX,
        supply matches Some(total) ==> total == total_supply(block_height as nat),
{
    let mut total: u64 = calculate_block_reward(0);
    let mut height: u64 = 0;
    while height < block_height
        invariant
            height <= block_height,
            total == total_supply(height as nat),
        decreases block_height - height,
    {
        height = height + 1;
        match total.checked_add(calculate_block_reward(height)) {
            Some(sum) => {
                total = sum;
            },
            None => {
                proof {
                    lemma_total_supply_monotonic(height as nat, block_height as nat);
                }
                return None;
            },
        }
    }
    Some(total)
}

/// Represents a reward paid out under the linear decay model.
#[derive(Debug, Clone)]
pub struct Reward {
    pub recipient: String,
    /// Amount in base units.
    pub amount: u64,
    /// Seconds since the Unix epoch at which the reward was made.
    pub timestamp: u64,
    pub reason: String,
    pub transaction_hash: Option<String>,
    pub block_height: u64,
}

/// The amount in thousandths of a coin, rounded to the nearest, halves up.
pub open spec fn milli_coins(amount: u64) -> nat {
    ((amount + 50_000) / 100_000) as nat
}

impl Reward {
    /// Whether the reward names a recipient and an amount and, at height 0,
    /// carries the initial reward.
    pub open spec fn valid(&self) -> bool {
        &&& self.amount != 0
        &&& self.recipient@.len() > 0
        &&& self.block_height == 0 ==> self.amount == block_reward(0)
    }

    /// The seconds from the reward's timestamp to `now`, 0 where `now` lies
    /// before it.
    pub open spec fn age_at_spec(&self, now: u64) -> u64 {
        if now >= self.timestamp {
            (now - self.timestamp) as u64
        } else {
            0
        }
    }

    /// Creates the block reward of `block_height`, made at `timestamp`.
    pub fn at_time(
        recipient: String,
        block_height: u64,
        reason: String,
        transaction_hash: Option<String>,
        timestamp: u64,
    ) -> (reward: Self)
        ensures
            reward == (Reward {
                recipient,
                amount: block_reward(block_height as nat) as u64,
                timestamp,
                reason,
                transaction_hash,
                block_height,
            }),
    {
        let amount: u64 = calculate_block_reward(block_height);
        Reward { recipient, amount, timestamp, reason, transaction_hash, block_height }
    }

    /// Creates the block reward of `block_height`, stamped with the current
    /// time.
    pub fn new(recipient: String, block_height: u64, reason: String) -> (reward: Self)
        ensures
            reward.recipient == recipient,
            reward.amount == block_reward(block_height as nat),
            reward.reason == reason,
            reward.transaction_hash is None,
            reward.block_height == block_height,
    {
        let timestamp: u64 = unix_time();
        Self::at_time(recipient, block_height, reason, None, timestamp)
    }

    /// Creates the block reward of `block_height` with the hash of the
    /// transaction that settles it, stamped with the current time.
    pub fn with_transaction_hash(
        recipient: String,
        block_height: u64,
        reason: String,
        transaction_hash: String,
    ) -> (reward: Self)
        ensures
            reward.recipient == recipient,
            reward.amount == block_reward(block_height as nat),
            reward.reason == reason,
            reward.transaction_hash == Some(transaction_hash),
            reward.block_height == block_height,
    {
        let timestamp: u64 = unix_time();
        Self::at_time(recipient, block_height, reason, Some(transaction_hash), timestamp)
    }

    /// Validates the reward.
    pub fn is_valid(&self) -> (valid: bool)
        ensures
            valid == self.valid(),
    {
        if self.amount == 0 {
            return false;
        }
        if self.recipient.as_str().is_empty() {
            return false;
        }
        if self.block_height == 0 && self.amount != calculate_block_reward(0) {
            return false;
        }
        true
    }

    /// Returns the currency symbol.
    pub fn get_currency_symbol(&self) -> (symbol: &str)
        ensures
            symbol@ == "BTP"@,
    {
        "BTP"
    }

    /// Checks if the reward has a transaction hash.
    pub fn has_transaction_hash(&self) -> (has: bool)
        ensures
            has == self.transaction_hash is Some,
    {
        self.transaction_hash.is_some()
    }

    /// Sets the transaction hash.
    pub fn set_transaction_hash(&mut self, hash: String)
        ensures
            *final(self) == (Reward { transaction_hash: Some(hash), ..*old(self) }),
    {
        self.transaction_hash = Some(hash);
    }

    /// The age of the reward in seconds at time `now`.
    pub fn age_at(&self, now: u64) -> (age: u64)
        ensures
            age == self.age_at_spec(now),
    {
        if now >= self.timestamp {
            now - self.timestamp
        } else {
            0
        }
    }

    /// Returns the age of the reward in seconds by the system clock.
    pub fn get_age(&self) -> (age: u64)
        ensures
            exists|now: u64| age == #[trigger] self.age_at_spec(now),
    {
        let current_time: u64 = unix_time();
        let age: u64 = self.age_at(current_time);
        assert(age == self.age_at_spec(current_time));
        age
    }

    /// Returns true if this is a tail emission reward, one after the decay
    /// period.
    pub fn is_tail_emission(&self) -> (tail: bool)
        ensures
            tail == (self.block_height >= DECAY_PERIOD_BLOCKS),
    {
        self.block_height >= DECAY_PERIOD_BLOCKS
    }

    /// The amount in thousandths of a coin, rounded to the nearest.
    pub fn amount_in_milli_coins(&self) -> (thousandths: u64)
        ensures
            thousandths == milli_coins(self.amount),
    {
        let whole: u64 = self.amount / 100_000;
        if self.amount % 100_000 >= 50_000 {
            whole + 1
        } else {
            whole
        }
    }

    /// The reward in words: the amount in coins with three decimals, the
    /// recipient, the height and the reason.
    pub open spec fn text(&self) -> Seq<char> {
        "Reward: "@ + decimal_text(milli_coins(self.amount) / 1000) + "."@ + padded_text(
            milli_coins(self.amount) % 1000,
            3,
        ) + " BTP to "@ + self.recipient@ + " at block "@ + decimal_text(self.block_height as nat)
            + " - "@ + self.reason@
    }

    /// The reward in words.
    pub fn to_string(&self) -> (text: String)
        ensures
            text@ == self.text(),
    {
        let thousandths: u64 = self.amount_in_milli_coins();
        let whole = decimal(thousandths / 1000);
        let part = padded(thousandths % 1000, 3);
        let height = decimal(self.block_height);
        "Reward: ".to_owned().concat(whole.as_str()).concat(".").concat(part.as_str()).concat(
            " BTP to ",
        ).concat(self.recipient.as_str()).concat(" at block ").concat(height.as_str()).concat(
            " - ",
        ).concat(self.reason.as_str())
    }
}

/// Reward types.
#[derive(Debug, Clone)]
pub enum RewardType {
    BlockReward,
    TransactionFee,
    StakingReward,
    GovernanceReward,
    Custom(String),
}

impl RewardType {
    /// The reason that a reward of this type carries unless another is given.
    pub open spec fn reason(&self) -> Seq<char> {
        match *self {
            RewardType::BlockReward => "Block mining reward"@,
            RewardType::TransactionFee => "Transaction fee collection"@,
            RewardType::StakingReward => "Staking reward"@,
            RewardType::GovernanceReward => "Governance participation reward"@,
            RewardType::Custom(reason) => reason@,
        }
    }

    /// Returns the default reason for the reward type.
    pub fn default_reason(&self) -> (reason: String)
        ensures
            reason@ == self.reason(),
    {
        match self {
            RewardType::BlockReward => "Block mining reward".to_owned(),
            RewardType::TransactionFee => "Transaction fee collection".to_owned(),
            RewardType::StakingReward => "Staking reward".to_owned(),
            RewardType::GovernanceReward => "Governance participation reward".to_owned(),
            RewardType::Custom(reason) => reason.clone(),
        }
    }

    /// Creates a reward of this type.
    pub fn create_reward(&self, recipient: String, block_height: u64) -> (reward: Reward)
        ensures
            reward.recipient == recipient,
            reward.amount == block_reward(block_height as nat),
            reward.reason@ == self.reason(),
            reward.transaction_hash is None,
            reward.block_height == block_height,
    {
        Reward::new(recipient, block_height, self.default_reason())
    }
}

/// Parameters for reward calculation.
#[derive(Debug, Clone, Copy)]
pub struct RewardParameters {
    pub block_height: u64,
    pub transaction_fees: u64,
    pub total_staked: u64,
}

impl Default for RewardParameters {
    fn default() -> (params: Self)
        ensures
            params == (RewardParameters { block_height: 0, transaction_fees: 0, total_staked: 0 }),
    {
        RewardParameters { block_height: 0, transaction_fees: 0, total_staked: 0 }
    }
}

/// Reward calculator for the linear decay model.
pub struct LinearDecayRewardCalculator;

impl LinearDecayRewardCalculator {
    /// Calculates the total reward for a block: block reward plus fees.
    pub fn calculate_total_reward(params: &RewardParameters) -> (total: u64)
        requires
            block_reward(params.block_height as nat) + params.transaction_fees <= u64::MAX,
        ensures
            total == block_reward(params.block_height as nat) + params.transaction_fees,
    {
        let block_reward: u64 = calculate_block_reward(params.block_height);
        block_reward + params.transaction_fees
    }

    /// Returns the remaining decay period in blocks.
    pub fn remaining_decay_blocks(block_height: u64) -> (remaining: u64)
        ensures
            remaining == if block_height >= DECAY_PERIOD_BLOCKS {
                0
            } else {
                DECAY_PERIOD_BLOCKS - block_height
            },
    {
        DECAY_PERIOD_BLOCKS.saturating_sub(block_height)
    }

    /// The progress of the decay in hundredths of a percent, from 0 to 10,000.
    pub fn decay_progress_basis_points(block_height: u64) -> (progress: u64)
        ensures
            progress == if block_height >= DECAY_PERIOD_BLOCKS {
                10_000
            } else {
                block_height * 10_000 / DECAY_PERIOD_BLOCKS as int
            },
    {
        if block_height >= DECAY_PERIOD_BLOCKS {
            10_000
        } else {
            block_height * 10_000 / DECAY_PERIOD_BLOCKS
        }
    }
}

} // verus!
