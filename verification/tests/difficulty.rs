use btpc_quantum_resistant_chain::consensus::difficulty::{
    CompactDifficulty, DifficultyError, DifficultyManager, DifficultyParams,
};

#[test]
fn test_difficulty_adjustment() {
    let params = DifficultyParams::default();
    let mut manager = DifficultyManager::new(params, 1000);

    // Simulate faster blocks (should increase difficulty)
    let fast_times = vec![500; 2016]; // 500s blocks instead of 600s
    let result = manager.adjust_difficulty(2016, &fast_times);
    assert!(result.is_ok());
    assert!(manager.get_difficulty() > 1000);

    // Simulate slower blocks (should decrease difficulty)
    let slow_times = vec![1200; 2016]; // 1200s blocks
    let result = manager.adjust_difficulty(4032, &slow_times);
    assert!(result.is_ok());
    assert!(manager.get_difficulty() < 2000);
}

#[test]
fn test_difficulty_target_conversion() {
    let difficulty = 1000;
    let target = DifficultyManager::difficulty_to_target(difficulty);
    let converted_diff = DifficultyManager::target_to_difficulty(&target);

    // Allow for some floating point precision loss
    assert!((converted_diff as i64 - difficulty as i64).abs() <= 1);
}

#[test]
fn test_compact_difficulty() {
    let test_values = [1, 1000, 10000, 100000, 1000000, u64::MAX];

    for &value in &test_values {
        let compact = CompactDifficulty::from_difficulty(value);
        let recovered = compact.to_difficulty();

        // Compact representation may lose some precision for very large values
        if value < 1 << 24 {
            assert_eq!(recovered, value);
        }
    }
}

#[test]
fn test_meets_difficulty() {
    let target = DifficultyManager::difficulty_to_target(1000);
    let low_hash = [0x00; 32]; // Meets difficulty
    let high_hash = [0xFF; 32]; // Doesn't meet difficulty

    assert!(DifficultyManager::meets_difficulty(&low_hash, &target));
    assert!(!DifficultyManager::meets_difficulty(&high_hash, &target));
}

#[test]
fn adjustment_scales_by_expected_over_actual() {
    let mut manager = DifficultyManager::new(DifficultyParams::default(), 1000);
    let fast_times = vec![500; 2016];
    assert_eq!(manager.adjust_difficulty(2016, &fast_times), Ok(1200));
    assert_eq!(manager.get_difficulty(), 1200);
    assert_eq!(manager.get_last_adjustment_height(), 2016);
    let slow_times = vec![1200; 2016];
    assert_eq!(manager.adjust_difficulty(4032, &slow_times), Ok(600));
    assert_eq!(manager.get_last_adjustment_height(), 4032);
}

#[test]
fn adjustment_waits_for_the_interval() {
    let mut manager = DifficultyManager::new(DifficultyParams::default(), 1000);
    assert_eq!(manager.adjust_difficulty(2015, &[]), Ok(1000));
    assert_eq!(manager.get_last_adjustment_height(), 0);
    let times = vec![300; 2016];
    assert_eq!(manager.adjust_difficulty(2016, &times), Ok(2000));
    // the next one is due one interval later, not before
    assert_eq!(manager.adjust_difficulty(4031, &times), Ok(2000));
    assert_eq!(manager.adjust_difficulty(4032, &times), Ok(4000));
}

#[test]
fn adjustment_needs_one_interval_of_times() {
    let mut manager = DifficultyManager::new(DifficultyParams::default(), 1000);
    let short = vec![600; 2015];
    assert_eq!(manager.adjust_difficulty(2016, &short), Err(DifficultyError::InsufficientData));
    assert_eq!(manager.get_difficulty(), 1000);
    assert_eq!(manager.get_last_adjustment_height(), 0);
    assert_eq!(
        DifficultyError::InsufficientData.message(),
        "Insufficient block time data for adjustment"
    );
}

#[test]
fn adjustment_is_clamped_and_survives_zero_time() {
    let params = DifficultyParams {
        target_block_time: 600,
        adjustment_interval: 4,
        min_difficulty: 500,
        max_difficulty: 3000,
        difficulty_precision: 16,
    };
    assert!(params.is_valid());
    let mut manager = DifficultyManager::new(params, 1000);
    assert_eq!(manager.adjust_difficulty(4, &[60, 60, 60, 60]), Ok(3000));
    assert_eq!(manager.adjust_difficulty(8, &[60000, 60000, 60000, 60000]), Ok(500));
    assert_eq!(manager.adjust_difficulty(12, &[0, 0, 0, 0]), Ok(500));
    // rounding down: 500 * 2400 / 2401
    assert_eq!(manager.adjust_difficulty(16, &[600, 600, 600, 601]), Ok(500));
    let mut other = DifficultyManager::new(params, 1000);
    assert_eq!(other.adjust_difficulty(4, &[600, 600, 600, 601]), Ok(999));
}

#[test]
fn parameters_are_checked() {
    let mut params = DifficultyParams::default();
    assert!(params.is_valid());
    assert_eq!(params.target_block_time, 600);
    assert_eq!(params.adjustment_interval, 2016);
    assert_eq!(params.min_difficulty, 1);
    assert_eq!(params.max_difficulty, u64::MAX);
    params.adjustment_interval = 0;
    assert!(!params.is_valid());
    assert!(params.expected_time_fits());
    params.adjustment_interval = u64::MAX;
    assert!(!params.is_valid());
    assert!(!params.expected_time_fits());
}

#[test]
fn target_holds_the_scalar_in_its_last_bytes() {
    let target = DifficultyManager::difficulty_to_target(1000);
    let scalar: u64 = u64::MAX / 1000;
    assert_eq!(&target[..24], &[0u8; 24]);
    assert_eq!(&target[24..], &scalar.to_be_bytes());
    assert_eq!(DifficultyManager::difficulty_to_target(0), [0xFF; 32]);
    assert_eq!(DifficultyManager::difficulty_to_target(1)[24..], [0xFF; 8]);
    assert_eq!(DifficultyManager::target_to_difficulty(&[0u8; 32]), u64::MAX);
    assert_eq!(DifficultyManager::target_to_difficulty(&[0xFF; 32]), 1);
    let mut two = [0u8; 32];
    two[31] = 2;
    two[0] = 9;
    assert_eq!(DifficultyManager::target_to_difficulty(&two), u64::MAX / 2);
}

#[test]
fn target_round_trip_within_one() {
    for d in [1u64, 2, 3, 999, 1000, 65_535, 1 << 20, (1 << 32) - 1, 1 << 32] {
        let back = DifficultyManager::target_to_difficulty(&DifficultyManager::difficulty_to_target(d));
        assert!(back == d || back == d + 1);
        if d < 1 << 32 {
            assert_eq!(back, d);
        }
    }
}

#[test]
fn meets_difficulty_compares_as_numbers() {
    let mut a = [0u8; 32];
    let mut b = [0u8; 32];
    a[31] = 1;
    b[30] = 1;
    assert!(DifficultyManager::meets_difficulty(&a, &b));
    assert!(!DifficultyManager::meets_difficulty(&b, &a));
    assert!(DifficultyManager::meets_difficulty(&a, &a));
    a[0] = 1;
    assert!(!DifficultyManager::meets_difficulty(&a, &b));
}

#[test]
fn compact_form_is_exponent_and_mantissa() {
    assert_eq!(CompactDifficulty::from_difficulty(0).to_bits(), 0);
    assert_eq!(CompactDifficulty::from_difficulty(1).to_bits(), 0x0101_0000);
    assert_eq!(CompactDifficulty::from_difficulty(0x7F).to_bits(), 0x017F_0000);
    // top bit of the mantissa set: one byte down, exponent one up
    assert_eq!(CompactDifficulty::from_difficulty(0x80).to_bits(), 0x0200_8000);
    assert_eq!(CompactDifficulty::from_difficulty(1000).to_bits(), 0x0203_E800);
    assert_eq!(CompactDifficulty::from_difficulty(0x12_3456).to_bits(), 0x0312_3456);
    assert_eq!(CompactDifficulty::from_difficulty(0x1234_5678).to_bits(), 0x0412_3456);
    assert_eq!(CompactDifficulty::from_difficulty(u64::MAX).to_bits(), 0x0900_FFFF);
    assert_eq!(CompactDifficulty::from_difficulty(u64::MAX).to_difficulty(), 0xFFFF << 48);
    assert_eq!(CompactDifficulty::from_difficulty(0x1234_5678).to_difficulty(), 0x1234_5600);
}

#[test]
fn compact_round_trip_below_two_to_the_twenty_three() {
    for d in [0u64, 1, 127, 128, 255, 256, 32_767, 32_768, 65_535, 65_536, 8_388_607] {
        assert_eq!(CompactDifficulty::from_difficulty(d).to_difficulty(), d);
    }
    // from 2^23 on the lowest byte is lost
    assert_eq!(CompactDifficulty::from_difficulty(0x80_0100).to_difficulty(), 0x80_0100);
    assert_eq!(CompactDifficulty::from_difficulty(0x80_0001).to_difficulty(), 0x80_0000);
}

#[test]
fn manager_with_no_interval_adjusts_at_every_height() {
    let params = DifficultyParams {
        target_block_time: 600,
        adjustment_interval: 0,
        min_difficulty: 7,
        max_difficulty: 5000,
        difficulty_precision: 16,
    };
    let mut manager = DifficultyManager::new(params, 1000);
    // nothing is expected of no blocks: the scale is zero, the lower bound holds
    assert_eq!(manager.adjust_difficulty(0, &[600]), Ok(7));
    assert_eq!(manager.get_last_adjustment_height(), 0);
    // no time at all leaves the scale at one
    assert_eq!(manager.adjust_difficulty(3, &[]), Ok(7));
    assert_eq!(manager.get_last_adjustment_height(), 3);
}
