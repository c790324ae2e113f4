use btpc_quantum_resistant_chain::consensus::difficulty::DifficultyManager;
use btpc_quantum_resistant_chain::consensus::pow::{
    PowAlgorithm, PowMiner, PowParams, PowSolution, PowValidator,
};
use btpc_quantum_resistant_chain::consensus::{ConsensusConfig, ConsensusError, ConsensusManager, Miner};
use sha2::{Digest, Sha256};

fn sha256d(data: &[u8]) -> [u8; 32] {
    let first = Sha256::digest(data);
    let second = Sha256::digest(first);
    let mut out = [0u8; 32];
    out.copy_from_slice(&second);
    out
}

fn params(range: (u64, u64)) -> PowParams {
    PowParams { algorithm: PowAlgorithm::Sha256d, version: 1, nonce_range: range }
}

#[test]
fn test_pow_computation() {
    let block_header = b"test block header";
    let nonce = 12345;

    let hash = PowSolution::compute_hash(block_header, nonce, None);
    assert_eq!(hash.len(), 32);
}

#[test]
fn hash_is_double_sha256_of_header_and_nonces() {
    let header = b"test block header";
    let mut input = header.to_vec();
    input.extend_from_slice(&12345u64.to_be_bytes());
    assert_eq!(PowSolution::compute_hash(header, 12345, None), sha256d(&input));
    input.extend_from_slice(&7u64.to_be_bytes());
    assert_eq!(PowSolution::compute_hash(header, 12345, Some(7)), sha256d(&input));
    assert_ne!(PowSolution::compute_hash(header, 12345, Some(7)), PowSolution::compute_hash(header, 12345, None));
}

#[test]
fn mining_against_the_largest_target_takes_the_first_nonce() {
    let target = [0xFF; 32];
    let mut miner = PowMiner::new(params((0, 100_000)));
    let solution = miner.mine(b"header", &target).unwrap();
    assert_eq!(solution.nonce, 0);
    assert_eq!(solution.extra_nonce, Some(0));
    assert_eq!(solution.difficulty, 1);
    assert_eq!(solution.hash, PowSolution::compute_hash(b"header", 0, Some(0)));
    assert_eq!(miner.get_hashes_computed(), 1);
    assert!(PowValidator::validate(&solution, b"header", &target));
    assert!(solution.is_valid(b"header", &target));
    assert!(!solution.is_valid(b"other header", &target));
    let target_of_one = DifficultyManager::difficulty_to_target(1);
    assert_eq!(DifficultyManager::target_to_difficulty(&target_of_one), 1);
}

#[test]
fn mining_returns_the_first_fit() {
    // a target that about one hash in sixteen meets
    let mut target = [0xFF; 32];
    target[0] = 0x0F;
    let mut miner = PowMiner::new(params((5, 5_000)));
    let solution = miner.mine(b"block", &target).unwrap();
    assert!(solution.nonce >= 5);
    for nonce in 5..solution.nonce {
        let hash = PowSolution::compute_hash(b"block", nonce, Some(0));
        assert!(!DifficultyManager::meets_difficulty(&hash, &target));
    }
    assert!(DifficultyManager::meets_difficulty(&solution.hash, &target));
    assert_eq!(miner.get_hashes_computed(), solution.nonce - 5 + 1);
    assert_eq!(miner.get_extra_nonce(), 0);
    miner.reset();
    assert_eq!(miner.get_hashes_computed(), 0);
}

#[test]
fn exhausted_range_moves_the_extra_nonce_on() {
    let target = [0u8; 32];
    let mut miner = PowMiner::new(params((10, 19)));
    assert!(miner.mine(b"block", &target).is_none());
    assert_eq!(miner.get_hashes_computed(), 10);
    assert_eq!(miner.get_extra_nonce(), 1);
    assert!(miner.mine(b"block", &target).is_none());
    assert_eq!(miner.get_hashes_computed(), 20);
    assert_eq!(miner.get_extra_nonce(), 2);
    let found = miner.mine(b"block", &[0xFF; 32]).unwrap();
    assert_eq!(found.nonce, 10);
    assert_eq!(found.extra_nonce, Some(2));
    let mut empty = PowMiner::new(params((5, 4)));
    assert!(empty.mine(b"block", &[0xFF; 32]).is_none());
    assert_eq!(empty.get_hashes_computed(), 0);
    assert_eq!(empty.get_extra_nonce(), 0);
}

#[test]
fn tampered_solution_is_not_valid() {
    let target = [0xFF; 32];
    let hash = PowSolution::compute_hash(b"header", 3, None);
    let good = PowSolution::at_time(3, hash, 1, None, 50);
    assert!(good.is_valid(b"header", &target));
    let mut bad = good;
    bad.hash[5] ^= 1;
    assert!(!bad.is_valid(b"header", &target));
    let mut other_nonce = good;
    other_nonce.nonce = 4;
    assert!(!other_nonce.is_valid(b"header", &target));
    // a right hash over the target
    assert!(!good.is_valid(b"header", &[0u8; 32]));
}

#[test]
fn best_solution_is_the_last_of_the_lowest_difficulty() {
    let solutions = vec![
        PowSolution::at_time(1, [0x01; 32], 2000, None, 1),
        PowSolution::at_time(2, [0x02; 32], 1000, None, 2),
        PowSolution::at_time(3, [0x03; 32], 3000, None, 3),
        PowSolution::at_time(4, [0x04; 32], 1000, None, 4),
    ];
    let best = PowValidator::choose_best_solution(&solutions).unwrap();
    assert_eq!(best.difficulty, 1000);
    assert_eq!(best.nonce, 4);
    assert!(PowValidator::choose_best_solution(&[]).is_none());
    let one = [PowSolution::at_time(9, [0; 32], 5, None, 0)];
    assert_eq!(PowValidator::choose_best_solution(&one).unwrap().nonce, 9);
}

#[test]
fn timestamps() {
    assert!(PowValidator::timestamp_within(100, 100, 0));
    assert!(PowValidator::timestamp_within(100, 40, 60));
    assert!(!PowValidator::timestamp_within(100, 39, 60));
    assert!(!PowValidator::timestamp_within(100, 101, 60));
    let fresh = PowSolution::new(1, [0; 32], 1, None);
    assert!(PowValidator::validate_timestamp(&fresh, 3_600));
    let old = PowSolution::at_time(1, [0; 32], 1, None, 1);
    assert!(!PowValidator::validate_timestamp(&old, 3_600));
}

#[test]
fn solution_to_compact() {
    let solution = PowSolution::at_time(1, [0; 32], 1000, None, 0);
    assert_eq!(solution.to_compact().to_bits(), 0x0203_E800);
}

#[test]
fn consensus_manager_takes_consecutive_blocks() {
    let mut config = ConsensusConfig::default();
    config.difficulty_params.adjustment_interval = 4;
    let mut manager = ConsensusManager::new(config, 1000);
    assert_eq!(manager.get_current_height(), 0);
    assert_eq!(manager.get_current_difficulty(), 1000);
    assert!(matches!(manager.process_block(600, 2), Err(ConsensusError::BlockValidation(_))));
    assert!(matches!(manager.process_block(600, 0), Err(ConsensusError::BlockValidation(_))));
    assert_eq!(manager.get_current_height(), 0);
    assert_eq!(manager.process_block(300, 1).unwrap(), 1000);
    assert_eq!(manager.process_block(300, 2).unwrap(), 1000);
    assert_eq!(manager.process_block(300, 3).unwrap(), 1000);
    // four blocks in half the time: twice the difficulty
    assert_eq!(manager.process_block(300, 4).unwrap(), 2000);
    assert_eq!(manager.get_current_height(), 4);
    assert_eq!(manager.block_time_totals(), (1200, 4));
    assert_eq!(manager.process_block(600, 5).unwrap(), 2000);
    assert_eq!(manager.process_block(600, 6).unwrap(), 2000);
    assert_eq!(manager.process_block(600, 7).unwrap(), 2000);
    // all eight times kept count: 2000 * 2400 / 3600
    assert_eq!(manager.process_block(600, 8).unwrap(), 1333);
    assert_eq!(manager.block_time_totals(), (2400, 4));
    assert_eq!(manager.get_current_target(), DifficultyManager::difficulty_to_target(1333));
}

#[test]
fn consensus_manager_limits() {
    let manager = ConsensusManager::new(ConsensusConfig::default(), 1);
    assert_eq!(manager.get_config().max_block_size, 1_000_000);
    assert_eq!(manager.get_config().coinbase_maturity, 100);
    assert!(manager.validate_block_size(1_000_000).is_ok());
    match manager.validate_block_size(1_000_001) {
        Err(ConsensusError::BlockValidation(text)) => {
            assert_eq!(text, "Block size 1000001 exceeds maximum 1000000")
        },
        _ => panic!("an oversized block passed"),
    }
    assert!(manager.validate_transaction_size(100_000).is_ok());
    assert!(matches!(
        manager.validate_transaction_size(100_001),
        Err(ConsensusError::TransactionValidation(_))
    ));
    assert!(!manager.is_transaction_mature(0));
    assert!(!manager.is_transaction_mature(u64::MAX));
    let _ = Miner::new();
}

#[test]
fn consensus_manager_checks_solutions() {
    // difficulty 0 stands for the largest target
    let manager = ConsensusManager::new(ConsensusConfig::default(), 0);
    let hash = PowSolution::compute_hash(b"header", 0, None);
    let solution = PowSolution::at_time(0, hash, 1, None, 10_000);
    assert!(manager.check_block_pow(&solution, b"header", 10_000).is_ok());
    assert!(manager.check_block_pow(&solution, b"header", 17_200).is_ok());
    match manager.check_block_pow(&solution, b"header", 17_201) {
        Err(ConsensusError::InvalidProofOfWork(text)) => {
            assert_eq!(text, "Solution timestamp too far in future")
        },
        _ => panic!("an old solution passed"),
    }
    assert!(manager.check_block_pow(&solution, b"header", 9_999).is_err());
    assert!(manager.check_block_pow(&solution, b"other", 10_000).is_err());
    assert!(manager.validate_block_pow(&solution, b"header").is_err());
    let now = PowSolution::new(0, hash, 1, None);
    assert!(manager.validate_block_pow(&now, b"header").is_ok());
    let error = manager.validate_block_pow(&now, b"other").unwrap_err();
    assert_eq!(error.message(), "Invalid proof of work: Invalid PoW solution");
    assert_eq!(error.detail(), "Invalid PoW solution");
}

#[test]
fn miner_elapsed_time() {
    let miner = PowMiner::new(params((0, 1)));
    assert!(miner.elapsed_seconds() < 1_000);
    assert_eq!(miner.elapsed_since_start(0), 0);
    let far = miner.elapsed_since_start(u64::MAX);
    assert!(far > u64::MAX - 4_000_000_000);
    assert_eq!(miner.elapsed_since_start(u64::MAX - 60), far - 60);
}

#[test]
fn test_solution_validation() {
    let block_header = b"test block header";
    let target = DifficultyManager::difficulty_to_target(1000); // Easy target

    let mut miner = PowMiner::new(PowParams {
        algorithm: PowAlgorithm::Sha256d,
        version: 1,
        nonce_range: (0, 100000),
    });

    let solution = miner.mine(block_header, &target);
    if let Some(solution) = solution {
        assert!(PowValidator::validate(&solution, block_header, &target));
    }
}

#[test]
fn test_best_solution_selection() {
    let solutions = vec![
        PowSolution::new(1, [0x01; 32], 1000, None), // Lower difficulty
        PowSolution::new(2, [0x00; 32], 2000, None), // Higher difficulty
    ];

    let best = PowValidator::choose_best_solution(&solutions);
    assert!(best.is_some());
    assert_eq!(best.unwrap().difficulty, 1000);
}

#[test]
fn solution_is_held_to_the_current_target_not_to_its_claim() {
    let hash = PowSolution::compute_hash(b"header", 0, None);
    // the solution claims difficulty 0, under which every hash would pass
    let solution = PowSolution::at_time(0, hash, 0, None, 10_000);
    let easy = ConsensusManager::new(ConsensusConfig::default(), 0);
    assert!(easy.check_block_pow(&solution, b"header", 10_000).is_ok());
    let hard = ConsensusManager::new(ConsensusConfig::default(), 1000);
    match hard.check_block_pow(&solution, b"header", 10_000) {
        Err(ConsensusError::InvalidProofOfWork(text)) => assert_eq!(text, "Invalid PoW solution"),
        _ => panic!("a solution passed on its own claim"),
    }
    assert!(hard.validate_block_pow(&PowSolution::new(0, hash, 0, None), b"header").is_err());
    assert_eq!(hard.get_current_difficulty(), 1000);
    assert_eq!(hard.get_current_height(), 0);
}
