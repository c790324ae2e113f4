//! Consensus rules: difficulty, proof of work and their coordination.

pub mod difficulty;
pub mod pow;

use crate::clock::unix_time;
use crate::consensus::difficulty::{
    retarget, sum_times, target_of, DifficultyManager, DifficultyParams,
};
use crate::consensus::pow::{
    meets_target, pow_hash, timestamp_in_window, PowAlgorithm, PowParams, PowSolution,
    PowValidator,
};
use crate::text::{decimal, decimal_text};
use vstd::arithmetic::div_mod::{lemma_fundamental_div_mod, lemma_fundamental_div_mod_converse};
use vstd::prelude::*;
use vstd::string::StringExecFns;

verus! {

/// Consensus configuration.
#[derive(Debug)]
pub struct ConsensusConfig {
    pub difficulty_params: DifficultyParams,
    pub pow_params: PowParams,
    pub max_block_size: u64,
    pub max_transaction_size: u64,
    /// Number of blocks before a coinbase output can be spent.
    pub coinbase_maturity: u64,
    /// Largest accepted age of a solution, in seconds.
    pub max_future_block_time: u64,
}

impl Default for ConsensusConfig {
    fn default() -> (config: Self)
        ensures
            config.difficulty_params == DifficultyParams::spec_default(),
            config.difficulty_params.wf(),
            config.pow_params.algorithm is Sha256d,
            config.pow_params.version == 1,
            config.pow_params.nonce_range == (0u64, u64::MAX),
            config.max_block_size == 1_000_000,
            config.max_transaction_size == 100_000,
            config.coinbase_maturity == 100,
            config.max_future_block_time == 7200,
    {
        ConsensusConfig {
            difficulty_params: DifficultyParams::default(),
            pow_params: PowParams {
                algorithm: PowAlgorithm::Sha256d,
                version: 1,
                nonce_range: (0, u64::MAX),
            },
            max_block_size: 1_000_000,
            max_transaction_size: 100_000,
            coinbase_maturity: 100,
            max_future_block_time: 7200,
        }
    }
}

/// Consensus errors.
#[derive(Debug)]
pub enum ConsensusError {
    InvalidProofOfWork(String),
    BlockValidation(String),
    TransactionValidation(String),
    DifficultyAdjustment(String),
}

impl ConsensusError {
    /// The error in words.
    pub open spec fn text(&self) -> Seq<char> {
        match *self {
            ConsensusError::InvalidProofOfWork(detail) => "Invalid proof of work: "@ + detail@,
            ConsensusError::BlockValidation(detail) => "Block validation failed: "@ + detail@,
            ConsensusError::TransactionValidation(detail) => "Transaction validation failed: "@
                + detail@,
            ConsensusError::DifficultyAdjustment(detail) => "Difficulty adjustment error: "@
                + detail@,
        }
    }

    /// The error in words.
    pub fn message(&self) -> (text: String)
        ensures
            text@ == self.text(),
    {
        match self {
            ConsensusError::InvalidProofOfWork(detail) => "Invalid proof of work: ".to_owned().concat(
                detail.as_str(),
            ),
            ConsensusError::BlockValidation(detail) => "Block validation failed: ".to_owned().concat(
                detail.as_str(),
            ),
            ConsensusError::TransactionValidation(detail) => "Transaction validation failed: ".to_owned().concat(
                detail.as_str(),
            ),
            ConsensusError::DifficultyAdjustment(detail) => "Difficulty adjustment error: ".to_owned().concat(
                detail.as_str(),
            ),
        }
    }

    /// The detail that the error carries.
    pub fn detail(&self) -> (text: &String)
        ensures
            *text == (match *self {
                ConsensusError::InvalidProofOfWork(t) => t,
                ConsensusError::BlockValidation(t) => t,
                ConsensusError::TransactionValidation(t) => t,
                ConsensusError::DifficultyAdjustment(t) => t,
            }),
    {
        match self {
            ConsensusError::InvalidProofOfWork(t) => t,
            ConsensusError::BlockValidation(t) => t,
            ConsensusError::TransactionValidation(t) => t,
            ConsensusError::DifficultyAdjustment(t) => t,
        }
    }
}

/// The words for a size over its limit.
pub open spec fn oversize_text(what: Seq<char>, size: u64, limit: u64) -> Seq<char> {
    what + " size "@ + decimal_text(size as nat) + " exceeds maximum "@ + decimal_text(
        limit as nat,
    )
}

fn oversize_message(what: &str, size: u64, limit: u64) -> (text: String)
    ensures
        text@ == oversize_text(what@, size, limit),
{
    let size_text = decimal(size);
    let limit_text = decimal(limit);
    what.to_owned().concat(" size ").concat(size_text.as_str()).concat(" exceeds maximum ").concat(
        limit_text.as_str(),
    )
}

/// The block times that are kept after an adjustment: the last `interval` of
/// them, or all where there are no more.
pub open spec fn recent_times(times: Seq<u64>, interval: u64) -> Seq<u64> {
    if times.len() > interval {
        times.subrange(times.len() - interval, times.len() as int)
    } else {
        times
    }
}

/// Whether a solution is valid for a header at a difficulty: its hash meets
/// the target of the difficulty and is the hash of the header with the
/// solution's nonces. The difficulty that the solution claims does not count.
pub open spec fn pow_acceptable(solution: PowSolution, header: Seq<u8>, difficulty: u64) -> bool {
    &&& meets_target(solution.hash@, target_of(difficulty))
    &&& solution.hash@ == pow_hash(header, solution.nonce, solution.extra_nonce)
}

/// The first multiple of the interval after a multiple is one interval on.
proof fn lemma_next_multiple(last: int, height: int, interval: int)
    requires
        interval > 0,
        last % interval == 0,
        height % interval == 0,
        last < height <= last + interval,
    ensures
        height == last + interval,
{
    lemma_fundamental_div_mod(last, interval);
    lemma_fundamental_div_mod(height, interval);
    let a = last / interval;
    let b = height / interval;
    assert(b == a + 1) by (nonlinear_arith)
        requires
            interval > 0,
            last == interval * a,
            height == interval * b,
            last < height <= last + interval,
    ;
    assert(height == last + interval) by (nonlinear_arith)
        requires
            b == a + 1,
            last == interval * a,
            height == interval * b,
    ;
}

/// One interval on from a multiple of the interval is a multiple again.
proof fn lemma_multiple_plus_interval(last: int, interval: int)
    requires
        interval > 0,
        last >= 0,
        last % interval == 0,
    ensures
        (last + interval) % interval == 0,
{
    lemma_fundamental_div_mod(last, interval);
    let a = last / interval;
    assert(last + interval == (a + 1) * interval) by (nonlinear_arith)
        requires
            last == interval * a,
    ;
    lemma_fundamental_div_mod_converse(last + interval, interval, a + 1, 0);
}

/// Consensus manager that coordinates difficulty and proof of work along a
/// chain that grows block by block.
#[derive(Debug)]
pub struct ConsensusManager {
    config: ConsensusConfig,
    difficulty_manager: DifficultyManager,
    current_height: u64,
    block_times: Vec<u64>,
}

impl ConsensusManager {
    /// The manager stands between two adjustments: the last one was made at
    /// a multiple of the interval, less than one interval ago, and the block
    /// times since then are all kept.
    pub closed spec fn wf(&self) -> bool {
        let interval = self.config.difficulty_params.adjustment_interval;
        let last = self.difficulty_manager.last_adjustment();
        &&& self.config.difficulty_params.wf()
        &&& self.difficulty_manager.params() == self.config.difficulty_params
        &&& last % interval == 0
        &&& last <= self.current_height < last + interval
        &&& self.block_times@.len() >= self.current_height - last
    }

    /// The configuration.
    pub closed spec fn config(&self) -> ConsensusConfig {
        self.config
    }

    /// The height of the last block processed, 0 before the first.
    pub closed spec fn height(&self) -> u64 {
        self.current_height
    }

    /// The current difficulty.
    pub closed spec fn difficulty(&self) -> u64 {
        self.difficulty_manager.difficulty()
    }

    /// The block times kept for the next adjustment.
    pub closed spec fn block_times(&self) -> Seq<u64> {
        self.block_times@
    }

    /// Creates a manager at height 0.
    pub fn new(config: ConsensusConfig, initial_difficulty: u64) -> (manager: Self)
        requires
            config.difficulty_params.wf(),
        ensures
            manager.wf(),
            manager.config() == config,
            manager.height() == 0,
            manager.difficulty() == initial_difficulty,
            manager.block_times() == Seq::<u64>::empty(),
    {
        let difficulty_manager = DifficultyManager::new(config.difficulty_params, initial_difficulty);
        proof {
            let interval = config.difficulty_params.adjustment_interval as int;
            assert(0int % interval == 0) by (nonlinear_arith)
                requires
                    interval > 0,
            ;
        }
        ConsensusManager { config, difficulty_manager, current_height: 0, block_times: Vec::new() }
    }

    fn keep_recent(times: &Vec<u64>, interval: u64) -> (kept: Vec<u64>)
        ensures
            kept@ == recent_times(times@, interval),
    {
        let mut kept: Vec<u64> = Vec::new();
        let len: usize = times.len();
        let mut i: usize = if len as u64 > interval {
            len - interval as usize
        } else {
            0
        };
        let ghost first = i;
        while i < len
            invariant
                first <= i <= len,
                len == times.len(),
                kept@ == times@.subrange(first as int, i as int),
            decreases len - i,
        {
            kept.push(times[i]);
            i += 1;
            assert(kept@ =~= times@.subrange(first as int, i as int));
        }
        assert(times@.subrange(0, len as int) =~= times@);
        kept
    }

    /// Takes the next block into the chain.
    ///
    /// The block must stand directly on the current height. At every height
    /// that is a multiple of the adjustment interval the difficulty is
    /// adjusted from all block times kept, and only the last interval of them
    /// is kept on.
    pub fn process_block(&mut self, block_time: u64, block_height: u64) -> (res: Result<
        u64,
        ConsensusError,
    >)
        requires
            old(self).wf(),
        ensures
            final(self).wf(),
            final(self).config() == old(self).config(),
            block_height != old(self).height() + 1 ==> {
                &&& res matches Err(e)
                &&& e matches ConsensusError::BlockValidation(text)
                &&& text@ == "Block height must be consecutive"@
                &&& *final(self) == *old(self)
            },
            block_height == old(self).height() + 1 ==> {
                let times = old(self).block_times().push(block_time);
                let params = old(self).config().difficulty_params;
                &&& res matches Ok(difficulty)
                &&& difficulty == final(self).difficulty()
                &&& final(self).height() == block_height
                &&& block_height % params.adjustment_interval != 0 ==> {
                    &&& final(self).difficulty() == old(self).difficulty()
                    &&& final(self).block_times() == times
                }
                &&& block_height % params.adjustment_interval == 0 ==> {
                    &&& final(self).difficulty() == retarget(
                        old(self).difficulty(),
                        params.expected_time(),
                        sum_times(times),
                        params.min_difficulty,
                        params.max_difficulty,
                    )
                    &&& final(self).block_times() == recent_times(times, params.adjustment_interval)
                }
            },
    {
        if block_height as u128 != self.current_height as u128 + 1 {
            return Err(
                ConsensusError::BlockValidation("Block height must be consecutive".to_owned()),
            );
        }
        let interval: u64 = self.config.difficulty_params.adjustment_interval;
        let ghost last = self.difficulty_manager.last_adjustment();
        self.block_times.push(block_time);
        self.current_height = block_height;
        if block_height % interval == 0 {
            proof {
                lemma_next_multiple(last as int, block_height as int, interval as int);
            }
            let adjusted = self.difficulty_manager.adjust_difficulty(
                block_height,
                self.block_times.as_slice(),
            );
            let new_difficulty: u64 = match adjusted {
                Ok(difficulty) => difficulty,
                Err(_) => self.difficulty_manager.get_difficulty(),
            };
            if self.block_times.len() as u64 > interval {
                self.block_times = Self::keep_recent(&self.block_times, interval);
            }
            Ok(new_difficulty)
        } else {
            proof {
                lemma_multiple_plus_interval(last as int, interval as int);
            }
            Ok(self.difficulty_manager.get_difficulty())
        }
    }

    /// Whether a solution is valid for a header at the current difficulty
    /// and, at time `now`, not older than the configured age.
    pub open spec fn accepts_at(&self, solution: PowSolution, header: Seq<u8>, now: u64) -> bool {
        &&& pow_acceptable(solution, header, self.difficulty())
        &&& timestamp_in_window(now, solution.timestamp, self.config().max_future_block_time)
    }

    /// Whether a solution is valid for a header against the current target
    /// and, at time `now`, not older than the configured age. The manager
    /// stays as it is.
    pub fn check_block_pow(&self, solution: &PowSolution, block_header: &[u8], now: u64) -> (res:
        Result<(), ConsensusError>)
        ensures
            res is Ok <==> self.accepts_at(*solution, block_header@, now),
            res matches Err(e) ==> e matches ConsensusError::InvalidProofOfWork(text) && text@ == (
            if !pow_acceptable(*solution, block_header@, self.difficulty()) {
                "Invalid PoW solution"@
            } else {
                "Solution timestamp too far in future"@
            }),
    {
        let target = DifficultyManager::difficulty_to_target(
            self.difficulty_manager.get_difficulty(),
        );
        if !PowValidator::validate(solution, block_header, &target) {
            return Err(ConsensusError::InvalidProofOfWork("Invalid PoW solution".to_owned()));
        }
        if !PowValidator::timestamp_within(
            now,
            solution.timestamp,
            self.config.max_future_block_time,
        ) {
            return Err(
                ConsensusError::InvalidProofOfWork(
                    "Solution timestamp too far in future".to_owned(),
                ),
            );
        }
        Ok(())
    }

    /// Validates a block's solution against the current target and the
    /// system clock.
    pub fn validate_block_pow(&self, solution: &PowSolution, block_header: &[u8]) -> (res: Result<
        (),
        ConsensusError,
    >)
        ensures
            res is Ok ==> pow_acceptable(*solution, block_header@, self.difficulty()),
            !pow_acceptable(*solution, block_header@, self.difficulty()) ==> (res matches Err(
                ConsensusError::InvalidProofOfWork(text),
            ) && text@ == "Invalid PoW solution"@),
            res matches Err(e) ==> e is InvalidProofOfWork,
            exists|now: u64|
                res is Ok <==> #[trigger] self.accepts_at(*solution, block_header@, now),
    {
        let now: u64 = unix_time();
        let res = self.check_block_pow(solution, block_header, now);
        assert(res is Ok <==> self.accepts_at(*solution, block_header@, now));
        res
    }

    /// Returns the current target for mining.
    pub fn get_current_target(&self) -> (target: [u8; 32])
        ensures
            target@ == target_of(self.difficulty()),
    {
        DifficultyManager::difficulty_to_target(self.difficulty_manager.get_difficulty())
    }

    /// Returns the current difficulty.
    pub fn get_current_difficulty(&self) -> (difficulty: u64)
        ensures
            difficulty == self.difficulty(),
    {
        self.difficulty_manager.get_difficulty()
    }

    /// Returns the consensus configuration.
    pub fn get_config(&self) -> (config: &ConsensusConfig)
        ensures
            *config == self.config(),
            self.wf() ==> config.difficulty_params.wf(),
    {
        &self.config
    }

    /// Returns the current block height.
    pub fn get_current_height(&self) -> (height: u64)
        ensures
            height == self.height(),
    {
        self.current_height
    }

    /// The sum and the count of the block times kept, for an average.
    pub fn block_time_totals(&self) -> (totals: (u128, usize))
        ensures
            totals.0 == sum_times(self.block_times()),
            totals.1 == self.block_times().len(),
    {
        let mut total: u128 = 0;
        let mut i: usize = 0;
        while i < self.block_times.len()
            invariant
                i <= self.block_times.len(),
                total == sum_times(self.block_times@.take(i as int)),
                total <= i * 0xFFFF_FFFF_FFFF_FFFF,
            decreases self.block_times.len() - i,
        {
            assert(self.block_times@.take(i + 1).drop_last() =~= self.block_times@.take(i as int));
            assert((i + 1) * 0xFFFF_FFFF_FFFF_FFFF <= 0xFFFF_FFFF_FFFF_FFFF
                * 0xFFFF_FFFF_FFFF_FFFF) by (nonlinear_arith)
                requires
                    i + 1 <= 0xFFFF_FFFF_FFFF_FFFF,
            ;
            total = total + self.block_times[i] as u128;
            i += 1;
        }
        assert(self.block_times@.take(i as int) =~= self.block_times@);
        (total, self.block_times.len())
    }

    /// Whether an output made at `transaction_height` has waited out the
    /// coinbase maturity.
    pub fn is_transaction_mature(&self, transaction_height: u64) -> (mature: bool)
        ensures
            mature == (self.height() >= transaction_height + self.config().coinbase_maturity),
    {
        self.current_height as u128 >= transaction_height as u128
            + self.config.coinbase_maturity as u128
    }

    /// Validates block size constraints.
    pub fn validate_block_size(&self, block_size: u64) -> (res: Result<(), ConsensusError>)
        ensures
            res is Err <==> block_size > self.config().max_block_size,
            res matches Err(e) ==> e matches ConsensusError::BlockValidation(text) && text@
                == oversize_text("Block"@, block_size, self.config().max_block_size),
    {
        if block_size > self.config.max_block_size {
            return Err(
                ConsensusError::BlockValidation(
                    oversize_message("Block", block_size, self.config.max_block_size),
                ),
            );
        }
        Ok(())
    }

    /// Validates transaction size constraints.
    pub fn validate_transaction_size(&self, transaction_size: u64) -> (res: Result<
        (),
        ConsensusError,
    >)
        ensures
            res is Err <==> transaction_size > self.config().max_transaction_size,
            res matches Err(e) ==> e matches ConsensusError::TransactionValidation(text) && text@
                == oversize_text(
                "Transaction"@,
                transaction_size,
                self.config().max_transaction_size,
            ),
    {
        if transaction_size > self.config.max_transaction_size {
            return Err(
                ConsensusError::TransactionValidation(
                    oversize_message(
                        "Transaction",
                        transaction_size,
                        self.config.max_transaction_size,
                    ),
                ),
            );
        }
        Ok(())
    }
}

/// A miner that is not configured yet.
#[derive(Debug)]
pub struct Miner {}

impl Miner {
    pub fn new() -> (miner: Self) {
        Miner {  }
    }
}

} // verus!
