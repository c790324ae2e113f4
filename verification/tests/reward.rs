use btpc_quantum_resistant_chain::blockchain::block::rewards::{checked_total_u64, total_u64};
use btpc_quantum_resistant_chain::blockchain::block::Reward as Amount;
use btpc_quantum_resistant_chain::blockchain::chain::QuantumResistantBlockchain;
use btpc_quantum_resistant_chain::blockchain::reward::{
    calculate_block_reward, calculate_total_supply, checked_total_supply,
    LinearDecayRewardCalculator, Reward,
    RewardParameters, RewardType,
};

const BLOCKS_PER_YEAR: u64 = 52_560;
const COIN: u64 = 100_000_000;
const INITIAL_REWARD: f64 = 32.375;
const FINAL_REWARD: f64 = 0.5;
const DECAY_PERIOD_YEARS: u64 = 24;
const DECAY_PERIOD_BLOCKS: u64 = BLOCKS_PER_YEAR * DECAY_PERIOD_YEARS;

#[test]
fn test_calculate_block_reward() {
    // Test genesis block reward
    assert_eq!(calculate_block_reward(0), (INITIAL_REWARD * COIN as f64) as u64);

    // Test middle of decay period
    let middle_block = DECAY_PERIOD_BLOCKS / 2;
    let expected_middle = (INITIAL_REWARD - (INITIAL_REWARD - FINAL_REWARD) * 0.5) * COIN as f64;
    assert_eq!(calculate_block_reward(middle_block), expected_middle as u64);

    // Test final decay block
    let final_block = DECAY_PERIOD_BLOCKS - 1;
    let expected_final = (INITIAL_REWARD
        - (INITIAL_REWARD - FINAL_REWARD)
            * ((DECAY_PERIOD_BLOCKS - 1) as f64 / DECAY_PERIOD_BLOCKS as f64))
        * COIN as f64;
    assert_eq!(calculate_block_reward(final_block), expected_final as u64);

    // Test tail emission
    assert_eq!(calculate_block_reward(DECAY_PERIOD_BLOCKS), (FINAL_REWARD * COIN as f64) as u64);
    assert_eq!(
        calculate_block_reward(DECAY_PERIOD_BLOCKS + 1000),
        (FINAL_REWARD * COIN as f64) as u64
    );
}

#[test]
fn test_reward_creation() {
    let reward = Reward::new("miner123".to_string(), 1000, "Block mining".to_string());

    assert_eq!(reward.recipient, "miner123");
    assert_eq!(reward.block_height, 1000);
    assert_eq!(reward.amount, calculate_block_reward(1000));
    assert!(reward.is_valid());

    let s = reward.to_string();
    assert!(s.contains("Reward:"));
    assert!(s.contains("miner123"));
}

#[test]
fn test_total_supply_calculation() {
    // Test early supply
    let early_supply = calculate_total_supply(10);
    assert!(early_supply > 0);

    // Test that supply increases
    let later_supply = calculate_total_supply(20);
    assert!(later_supply > early_supply);
}

#[test]
fn test_tail_emission_detection() {
    let pre_tail_reward =
        Reward::new("test".to_string(), DECAY_PERIOD_BLOCKS - 1, "test".to_string());
    let tail_reward = Reward::new("test".to_string(), DECAY_PERIOD_BLOCKS, "test".to_string());

    assert!(!pre_tail_reward.is_tail_emission());
    assert!(tail_reward.is_tail_emission());
}

#[test]
fn sums_rewards_correctly() {
    let rs = [Amount::new(10), Amount::new(20), Amount::new(30)];
    assert_eq!(total_u64(&rs), 60);
    assert!((total_u64(&rs) as f64 - 60.0).abs() < f64::EPSILON);
}

#[test]
fn checked_total_notices_overflow() {
    assert_eq!(checked_total_u64(&[]), Some(0));
    assert_eq!(checked_total_u64(&[Amount::new(u64::MAX - 1), Amount::new(1)]), Some(u64::MAX));
    assert_eq!(checked_total_u64(&[Amount::new(u64::MAX), Amount::new(1)]), None);
}

#[test]
fn reward_ends_of_the_schedule() {
    assert_eq!(calculate_block_reward(0), 3_237_500_000);
    assert_eq!(calculate_block_reward(1_261_440), 50_000_000);
    assert_eq!(calculate_block_reward(1_261_440 + 1_000_000), 50_000_000);
    assert_eq!(calculate_block_reward(u64::MAX), 50_000_000);
}

#[test]
fn reward_exact_values() {
    // 3_237_500_000 - ceil(3_187_500_000 * h / 1_261_440)
    assert_eq!(calculate_block_reward(1), 3_237_497_473);
    assert_eq!(calculate_block_reward(1000), 3_234_973_125);
    assert_eq!(calculate_block_reward(630_720), 1_643_750_000);
    assert_eq!(calculate_block_reward(1_261_439), 50_002_526);
}

#[test]
fn reward_never_rises() {
    let mut last = calculate_block_reward(0);
    for height in (0..1_300_000u64).step_by(9_973) {
        let reward = calculate_block_reward(height);
        assert!(reward <= last);
        assert!(reward >= 50_000_000);
        last = reward;
    }
}

#[test]
fn total_supply_exact_values() {
    assert_eq!(calculate_total_supply(0), 3_237_500_000);
    assert_eq!(calculate_total_supply(1), 3_237_500_000 + 3_237_497_473);
    assert_eq!(calculate_total_supply(10), 35_612_361_018);
    assert_eq!(calculate_total_supply(20), 67_986_969_348);
}

#[test]
fn reward_validity() {
    let mut reward = Reward::at_time("miner".to_string(), 0, "mining".to_string(), None, 77);
    assert_eq!(reward.timestamp, 77);
    assert_eq!(reward.amount, 3_237_500_000);
    assert!(reward.is_valid());
    reward.amount -= 1;
    assert!(!reward.is_valid());
    reward.block_height = 5;
    assert!(reward.is_valid());
    reward.recipient = String::new();
    assert!(!reward.is_valid());
    reward.recipient = "x".to_string();
    reward.amount = 0;
    assert!(!reward.is_valid());
}

#[test]
fn reward_hash_age_and_symbol() {
    let mut reward = Reward::at_time("miner".to_string(), 3, "mining".to_string(), None, 1_000);
    assert!(!reward.has_transaction_hash());
    reward.set_transaction_hash("abc".to_string());
    assert!(reward.has_transaction_hash());
    assert_eq!(reward.transaction_hash, Some("abc".to_string()));
    assert_eq!(reward.get_currency_symbol(), "BTP");
    assert_eq!(reward.age_at(1_060), 60);
    assert_eq!(reward.age_at(999), 0);
    let with = Reward::with_transaction_hash(
        "m".to_string(),
        9,
        "r".to_string(),
        "h".to_string(),
    );
    assert_eq!(with.transaction_hash, Some("h".to_string()));
    assert_eq!(with.amount, calculate_block_reward(9));
    assert!(with.get_age() < 1_000_000);
}

#[test]
fn reward_in_words() {
    let reward = Reward::at_time("miner123".to_string(), 0, "Block mining".to_string(), None, 1);
    assert_eq!(reward.amount_in_milli_coins(), 32_375);
    assert_eq!(reward.to_string(), "Reward: 32.375 BTP to miner123 at block 0 - Block mining");
    let tail = Reward::at_time("m".to_string(), 2_000_000, "r".to_string(), None, 1);
    assert_eq!(tail.to_string(), "Reward: 0.500 BTP to m at block 2000000 - r");
    let mut odd = Reward::at_time("m".to_string(), 1, "r".to_string(), None, 1);
    odd.amount = 100_049_999;
    assert_eq!(odd.amount_in_milli_coins(), 1_000);
    odd.amount = 100_050_000;
    assert_eq!(odd.amount_in_milli_coins(), 1_001);
    assert_eq!(odd.to_string(), "Reward: 1.001 BTP to m at block 1 - r");
}

#[test]
fn reward_types() {
    assert_eq!(RewardType::BlockReward.default_reason(), "Block mining reward");
    assert_eq!(RewardType::TransactionFee.default_reason(), "Transaction fee collection");
    assert_eq!(RewardType::StakingReward.default_reason(), "Staking reward");
    assert_eq!(RewardType::GovernanceReward.default_reason(), "Governance participation reward");
    assert_eq!(RewardType::Custom("bonus".to_string()).default_reason(), "bonus");
    let reward = RewardType::StakingReward.create_reward("staker".to_string(), 42);
    assert_eq!(reward.reason, "Staking reward");
    assert_eq!(reward.recipient, "staker");
    assert_eq!(reward.amount, calculate_block_reward(42));
    assert_eq!(reward.transaction_hash, None);
}

#[test]
fn calculator() {
    let params = RewardParameters { block_height: 0, transaction_fees: 25, total_staked: 0 };
    assert_eq!(LinearDecayRewardCalculator::calculate_total_reward(&params), 3_237_500_025);
    let none = RewardParameters::default();
    assert_eq!(none.block_height, 0);
    assert_eq!(none.transaction_fees, 0);
    assert_eq!(LinearDecayRewardCalculator::remaining_decay_blocks(0), 1_261_440);
    assert_eq!(LinearDecayRewardCalculator::remaining_decay_blocks(1_261_000), 440);
    assert_eq!(LinearDecayRewardCalculator::remaining_decay_blocks(2_000_000), 0);
    assert_eq!(LinearDecayRewardCalculator::decay_progress_basis_points(0), 0);
    assert_eq!(LinearDecayRewardCalculator::decay_progress_basis_points(630_720), 5_000);
    assert_eq!(LinearDecayRewardCalculator::decay_progress_basis_points(1_261_440), 10_000);
    assert_eq!(LinearDecayRewardCalculator::decay_progress_basis_points(1_262_440), 10_000);
}

#[test]
fn chain_reward_is_the_linear_schedule() {
    assert_eq!(QuantumResistantBlockchain::calculate_block_reward(0), 3_237_500_000);
    assert_eq!(QuantumResistantBlockchain::calculate_block_reward(1), 3_237_497_473);
    assert_eq!(QuantumResistantBlockchain::calculate_block_reward(630_720), 1_643_750_000);
    assert_eq!(QuantumResistantBlockchain::calculate_block_reward(1_261_439), 50_002_526);
    assert_eq!(QuantumResistantBlockchain::calculate_block_reward(1_261_440), 50_000_000);
    assert_eq!(QuantumResistantBlockchain::calculate_block_reward(u64::MAX), 50_000_000);
    let mut last = QuantumResistantBlockchain::calculate_block_reward(0);
    for height in (0..1_300_000u64).step_by(210_000) {
        let reward = QuantumResistantBlockchain::calculate_block_reward(height);
        assert_eq!(reward, calculate_block_reward(height));
        assert!(reward <= last);
        last = reward;
    }
}

#[test]
fn checked_total_supply_agrees() {
    assert_eq!(checked_total_supply(0), Some(3_237_500_000));
    assert_eq!(checked_total_supply(10), Some(35_612_361_018));
    assert_eq!(checked_total_supply(20), Some(calculate_total_supply(20)));
}
