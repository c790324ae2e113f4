//! Hash-based proof of work: solutions, the mining loop and validation.

use crate::bytes::{append_bytes, be_bytes, be_value, bytes_equal, push_be_u64};
use crate::clock::unix_time;
use crate::consensus::difficulty::{
    difficulty_of, CompactDifficulty, DifficultyManager, compact_of,
};
use crate::crypto::sha256::{sha256, sha256_digest};
use vstd::prelude::*;

verus! {

#[derive(Debug, Clone)]
pub enum PowAlgorithm {
    /// Double SHA-256.
    Sha256d,
    RandomX,
    Ethash,
    Custom(String),
}

/// Proof of work algorithm parameters.
#[derive(Debug)]
pub struct PowParams {
    pub algorithm: PowAlgorithm,
    pub version: u32,
    /// First and last nonce of one pass, both included.
    pub nonce_range: (u64, u64),
}

impl Clone for PowParams {
    fn clone(&self) -> (copy: Self)
        ensures
            copy.version == self.version,
            copy.nonce_range == self.nonce_range,
    {
        PowParams {
            algorithm: self.algorithm.clone(),
            version: self.version,
            nonce_range: (self.nonce_range.0, self.nonce_range.1),
        }
    }
}

/// The bytes that are hashed for a nonce: the header, the nonce and, where
/// there is one, the extra nonce, each number as eight big-endian bytes.
pub open spec fn pow_input(header: Seq<u8>, nonce: u64, extra_nonce: Option<u64>) -> Seq<u8> {
    header + be_bytes(nonce) + (match extra_nonce {
        Some(extra) => be_bytes(extra),
        None => Seq::<u8>::empty(),
    })
}

/// The proof-of-work hash: SHA-256 applied twice to the input.
pub open spec fn pow_hash(header: Seq<u8>, nonce: u64, extra_nonce: Option<u64>) -> Seq<u8> {
    sha256(sha256(pow_input(header, nonce, extra_nonce))@)@
}

/// Whether a hash, read as a big-endian number, is at most the target.
pub open spec fn meets_target(hash: Seq<u8>, target: Seq<u8>) -> bool {
    be_value(hash) <= be_value(target)
}

/// Whether `nonce` solves the header for the target.
pub open spec fn solves(header: Seq<u8>, target: Seq<u8>, nonce: u64, extra_nonce: u64) -> bool {
    meets_target(pow_hash(header, nonce, Some(extra_nonce)), target)
}

/// Whether no nonce from `from` up to, but without, `to` solves the header.
pub open spec fn none_solves(
    header: Seq<u8>,
    target: Seq<u8>,
    extra_nonce: u64,
    from: int,
    to: int,
) -> bool {
    forall|n: u64| from <= n < to ==> !solves(header, target, n, extra_nonce)
}

/// A sum cut at the largest 64-bit number.
pub open spec fn saturated(total: int) -> u64 {
    if total > u64::MAX {
        u64::MAX
    } else {
        total as u64
    }
}

/// Whether a timestamp lies at most `max_age` seconds before `now`, and not
/// after it.
pub open spec fn timestamp_in_window(now: u64, timestamp: u64, max_age: u64) -> bool {
    timestamp <= now && now - timestamp <= max_age
}

/// Proof of work solution.
#[derive(Debug, Clone, Copy)]
pub struct PowSolution {
    pub nonce: u64,
    pub hash: [u8; 32],
    pub difficulty: u64,
    /// Seconds since the Unix epoch at which the solution was made.
    pub timestamp: u64,
    pub extra_nonce: Option<u64>,
}

impl PowSolution {
    /// Creates a solution made at `timestamp`.
    pub fn at_time(
        nonce: u64,
        hash: [u8; 32],
        difficulty: u64,
        extra_nonce: Option<u64>,
        timestamp: u64,
    ) -> (solution: Self)
        ensures
            solution == (PowSolution { nonce, hash, difficulty, timestamp, extra_nonce }),
    {
        PowSolution { nonce, hash, difficulty, timestamp, extra_nonce }
    }

    /// Creates a solution stamped with the current time.
    pub fn new(nonce: u64, hash: [u8; 32], difficulty: u64, extra_nonce: Option<u64>) -> (solution:
        Self)
        ensures
            solution.nonce == nonce,
            solution.hash == hash,
            solution.difficulty == difficulty,
            solution.extra_nonce == extra_nonce,
    {
        let timestamp: u64 = unix_time();
        Self::at_time(nonce, hash, difficulty, extra_nonce, timestamp)
    }

    /// Whether the solution's hash meets the target and is the hash of the
    /// header with the solution's nonces.
    pub fn is_valid(&self, block_header: &[u8], target: &[u8; 32]) -> (valid: bool)
        ensures
            valid == (meets_target(self.hash@, target@) && self.hash@ == pow_hash(
                block_header@,
                self.nonce,
                self.extra_nonce,
            )),
    {
        if !DifficultyManager::meets_difficulty(&self.hash, target) {
            return false;
        }
        let computed_hash = Self::compute_hash(block_header, self.nonce, self.extra_nonce);
        bytes_equal(computed_hash.as_slice(), self.hash.as_slice())
    }

    /// Computes the hash for a block header and nonce.
    pub fn compute_hash(block_header: &[u8], nonce: u64, extra_nonce: Option<u64>) -> (hash: [
        u8;
        32
    ])
        ensures
            hash@ == pow_hash(block_header@, nonce, extra_nonce),
    {
        let mut input: Vec<u8> = Vec::new();
        append_bytes(&mut input, block_header);
        push_be_u64(&mut input, nonce);
        match extra_nonce {
            Some(extra) => {
                push_be_u64(&mut input, extra);
            },
            None => {
                assert(input@ + Seq::<u8>::empty() =~= input@);
            },
        }
        assert(input@ =~= pow_input(block_header@, nonce, extra_nonce));
        let first_hash = sha256_digest(input.as_slice());
        sha256_digest(first_hash.as_slice())
    }

    /// Converts the difficulty to its compact representation.
    pub fn to_compact(&self) -> (compact: CompactDifficulty)
        ensures
            compact.bits() == compact_of(self.difficulty),
    {
        CompactDifficulty::from_difficulty(self.difficulty)
    }
}

/// Proof of work miner.
#[derive(Debug)]
pub struct PowMiner {
    params: PowParams,
    current_nonce: u64,
    extra_nonce: u64,
    hashes_computed: u64,
    start_time: u64,
}

impl PowMiner {
    /// The parameters the miner was made with.
    pub closed spec fn params(&self) -> PowParams {
        self.params
    }

    /// The first and last nonce of a pass.
    pub closed spec fn nonce_range(&self) -> (u64, u64) {
        self.params.nonce_range
    }

    /// The nonce tried last.
    pub closed spec fn current_nonce(&self) -> u64 {
        self.current_nonce
    }

    /// The extra nonce of the current pass.
    pub closed spec fn extra_nonce(&self) -> u64 {
        self.extra_nonce
    }

    /// The number of hashes computed since the last reset.
    pub closed spec fn hashes_computed(&self) -> u64 {
        self.hashes_computed
    }

    /// The time at which the statistics started, in seconds since the Unix
    /// epoch.
    pub closed spec fn started(&self) -> u64 {
        self.start_time
    }

    /// The seconds from the start of the statistics to `now`, 0 where `now`
    /// lies before it.
    pub open spec fn elapsed_at(&self, now: u64) -> u64 {
        if now >= self.started() {
            (now - self.started()) as u64
        } else {
            0
        }
    }

    /// Creates a miner; its statistics start now.
    pub fn new(params: PowParams) -> (miner: Self)
        ensures
            miner.params() == params,
            miner.nonce_range() == params.nonce_range,
            miner.current_nonce() == 0,
            miner.extra_nonce() == 0,
            miner.hashes_computed() == 0,
    {
        let start_time: u64 = unix_time();
        PowMiner { params, current_nonce: 0, extra_nonce: 0, hashes_computed: 0, start_time }
    }

    /// Tries the nonces of the range in order with the current extra nonce and
    /// returns the first that solves the header. Where none does, the extra
    /// nonce moves on by one, wrapping, and the next call makes a new pass.
    /// The hash count grows by the hashes tried and stops at `u64::MAX`.
    pub fn mine(&mut self, block_header: &[u8], target: &[u8; 32]) -> (found: Option<PowSolution>)
        ensures
            final(self).params() == old(self).params(),
            final(self).nonce_range() == old(self).nonce_range(),
            final(self).started() == old(self).started(),
            old(self).nonce_range().0 > old(self).nonce_range().1 ==> found is None && *final(self)
                == *old(self),
            found matches Some(solution) ==> {
                &&& old(self).nonce_range().0 <= solution.nonce <= old(self).nonce_range().1
                &&& solves(block_header@, target@, solution.nonce, old(self).extra_nonce())
                &&& none_solves(
                    block_header@,
                    target@,
                    old(self).extra_nonce(),
                    old(self).nonce_range().0 as int,
                    solution.nonce as int,
                )
                &&& solution.hash@ == pow_hash(
                    block_header@,
                    solution.nonce,
                    Some(old(self).extra_nonce()),
                )
                &&& solution.difficulty == difficulty_of(target@)
                &&& solution.extra_nonce == Some(old(self).extra_nonce())
                &&& final(self).extra_nonce() == old(self).extra_nonce()
                &&& final(self).current_nonce() == solution.nonce
                &&& final(self).hashes_computed() == saturated(
                    old(self).hashes_computed() + (solution.nonce - old(self).nonce_range().0) + 1,
                )
            },
            found is None && old(self).nonce_range().0 <= old(self).nonce_range().1 ==> {
                &&& none_solves(
                    block_header@,
                    target@,
                    old(self).extra_nonce(),
                    old(self).nonce_range().0 as int,
                    old(self).nonce_range().1 + 1,
                )
                &&& final(self).extra_nonce() == if old(self).extra_nonce() == u64::MAX {
                    0
                } else {
                    (old(self).extra_nonce() + 1) as u64
                }
                &&& final(self).current_nonce() == old(self).nonce_range().0
                &&& final(self).hashes_computed() == saturated(
                    old(self).hashes_computed() + (old(self).nonce_range().1 - old(
                        self,
                    ).nonce_range().0) + 1,
                )
            },
    {
        let start_nonce: u64 = self.params.nonce_range.0;
        let end_nonce: u64 = self.params.nonce_range.1;
        if start_nonce > end_nonce {
            return None;
        }
        let extra: u64 = self.extra_nonce;
        let mut nonce: u64 = start_nonce;
        loop
            invariant
                start_nonce <= nonce <= end_nonce,
                self.params == old(self).params,
                self.start_time == old(self).start_time,
                self.extra_nonce == extra,
                extra == old(self).extra_nonce,
                start_nonce == old(self).params.nonce_range.0,
                end_nonce == old(self).params.nonce_range.1,
                none_solves(block_header@, target@, extra, start_nonce as int, nonce as int),
                self.hashes_computed == saturated(
                    old(self).hashes_computed + (nonce - start_nonce),
                ),
            decreases end_nonce - nonce,
        {
            self.current_nonce = nonce;
            self.hashes_computed = self.hashes_computed.saturating_add(1);
            let hash = PowSolution::compute_hash(block_header, nonce, Some(extra));
            if DifficultyManager::meets_difficulty(&hash, target) {
                let solution = PowSolution::new(
                    nonce,
                    hash,
                    DifficultyManager::target_to_difficulty(target),
                    Some(extra),
                );
                return Some(solution);
            }
            if nonce == end_nonce {
                self.extra_nonce = self.extra_nonce.wrapping_add(1);
                self.current_nonce = start_nonce;
                return None;
            }
            nonce = nonce + 1;
        }
    }

    /// Resets the miner statistics; they start again now.
    pub fn reset(&mut self)
        ensures
            final(self).hashes_computed() == 0,
            final(self).params() == old(self).params(),
            final(self).nonce_range() == old(self).nonce_range(),
            final(self).current_nonce() == old(self).current_nonce(),
            final(self).extra_nonce() == old(self).extra_nonce(),
    {
        self.hashes_computed = 0;
        self.start_time = unix_time();
    }

    /// The number of hashes computed since the last reset.
    pub fn get_hashes_computed(&self) -> (count: u64)
        ensures
            count == self.hashes_computed(),
    {
        self.hashes_computed
    }

    /// The extra nonce of the current pass.
    pub fn get_extra_nonce(&self) -> (extra: u64)
        ensures
            extra == self.extra_nonce(),
    {
        self.extra_nonce
    }

    /// The seconds from the start of the statistics to `now`, 0 where `now`
    /// lies before it.
    pub fn elapsed_since_start(&self, now: u64) -> (elapsed: u64)
        ensures
            elapsed == self.elapsed_at(now),
    {
        now.saturating_sub(self.start_time)
    }

    /// The seconds since the statistics started by the system clock, 0 where
    /// the clock went back.
    pub fn elapsed_seconds(&self) -> (elapsed: u64)
        ensures
            exists|now: u64| elapsed == #[trigger] self.elapsed_at(now),
    {
        let now: u64 = unix_time();
        let elapsed: u64 = self.elapsed_since_start(now);
        assert(elapsed == self.elapsed_at(now));
        elapsed
    }
}

/// Whether `best` is the place of the last of the solutions with the lowest
/// difficulty.
pub open spec fn is_best(solutions: Seq<PowSolution>, best: int) -> bool {
    &&& 0 <= best < solutions.len()
    &&& forall|j: int|
        0 <= j < solutions.len() ==> solutions[best].difficulty <= (#[trigger] solutions[j]).difficulty
    &&& forall|j: int|
        best < j < solutions.len() ==> solutions[best].difficulty < (#[trigger] solutions[j]).difficulty
}

/// Proof of work validator.
pub struct PowValidator;

impl PowValidator {
    /// Validates a solution against a block header and a target.
    pub fn validate(solution: &PowSolution, block_header: &[u8], target: &[u8; 32]) -> (valid:
        bool)
        ensures
            valid == (meets_target(solution.hash@, target@) && solution.hash@ == pow_hash(
                block_header@,
                solution.nonce,
                solution.extra_nonce,
            )),
    {
        solution.is_valid(block_header, target)
    }

    /// Chooses the solution with the highest score, the score being the
    /// inverse of the difficulty: the last of those with the lowest difficulty.
    pub fn choose_best_solution(solutions: &[PowSolution]) -> (best: Option<&PowSolution>)
        ensures
            best is None <==> solutions@.len() == 0,
            best matches Some(solution) ==> exists|i: int|
                is_best(solutions@, i) && *solution == solutions@[i],
    {
        if solutions.len() == 0 {
            return None;
        }
        let mut best: usize = 0;
        let mut i: usize = 1;
        while i < solutions.len()
            invariant
                1 <= i <= solutions.len(),
                best < i,
                forall|j: int|
                    0 <= j < i ==> solutions@[best as int].difficulty <= (
                    #[trigger] solutions@[j]).difficulty,
                forall|j: int|
                    best < j < i ==> solutions@[best as int].difficulty < (
                    #[trigger] solutions@[j]).difficulty,
            decreases solutions.len() - i,
        {
            if solutions[i].difficulty <= solutions[best].difficulty {
                best = i;
            }
            i += 1;
        }
        assert(is_best(solutions@, best as int));
        Some(&solutions[best])
    }

    /// Whether a solution made at `timestamp` is at most `max_age` seconds
    /// old at `now`. A timestamp after `now` is not accepted.
    pub fn timestamp_within(now: u64, timestamp: u64, max_age: u64) -> (ok: bool)
        ensures
            ok == timestamp_in_window(now, timestamp, max_age),
    {
        timestamp <= now && now - timestamp <= max_age
    }

    /// Whether the solution is at most `max_age` seconds old by the system
    /// clock.
    pub fn validate_timestamp(solution: &PowSolution, max_age: u64) -> (ok: bool)
        ensures
            exists|now: u64| ok == timestamp_in_window(now, solution.timestamp, max_age),
    {
        let current_time: u64 = unix_time();
        Self::timestamp_within(current_time, solution.timestamp, max_age)
    }
}

} // verus!
