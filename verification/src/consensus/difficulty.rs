//! Difficulty retargeting, the 256-bit target and the compact encoding.

use crate::bytes::{
    be_bytes, be_value, lemma_be_bytes_value, lemma_be_value_eight,
    lemma_be_value_first_difference, lemma_be_value_leading_zeros,
};
use vstd::prelude::*;

verus! {

/// Difficulty adjustment parameters.
#[derive(Debug, Clone, Copy)]
pub struct DifficultyParams {
    /// Intended seconds between blocks.
    pub target_block_time: u64,
    /// Number of blocks between adjustments.
    pub adjustment_interval: u64,
    pub min_difficulty: u64,
    pub max_difficulty: u64,
    pub difficulty_precision: u32,
}

impl DifficultyParams {
    /// The time that one interval should take fits in 64 bits.
    pub open spec fn time_fits(&self) -> bool {
        self.target_block_time * self.adjustment_interval <= u64::MAX
    }

    /// The interval is positive and the time one interval should take fits in
    /// 64 bits.
    pub open spec fn wf(&self) -> bool {
        &&& self.adjustment_interval > 0
        &&& self.time_fits()
    }

    /// The seconds that one adjustment interval should take.
    pub open spec fn expected_time(&self) -> nat {
        (self.target_block_time * self.adjustment_interval) as nat
    }

    /// The default parameters: ten-minute blocks, an adjustment every 2016
    /// blocks, and no bound on the difficulty but the least one.
    pub open spec fn spec_default() -> DifficultyParams {
        DifficultyParams {
            target_block_time: 600,
            adjustment_interval: 2016,
            min_difficulty: 1,
            max_difficulty: u64::MAX,
            difficulty_precision: 16,
        }
    }

    /// Tests the parameters for [`DifficultyParams::time_fits`].
    pub fn expected_time_fits(&self) -> (ok: bool)
        ensures
            ok == self.time_fits(),
    {
        self.target_block_time.checked_mul(self.adjustment_interval).is_some()
    }

    /// Tests the parameters for [`DifficultyParams::wf`].
    pub fn is_valid(&self) -> (ok: bool)
        ensures
            ok == self.wf(),
    {
        self.adjustment_interval > 0 && self.target_block_time.checked_mul(
            self.adjustment_interval,
        ).is_some()
    }
}

impl Default for DifficultyParams {
    fn default() -> (params: Self)
        ensures
            params == DifficultyParams::spec_default(),
            params.wf(),
    {
        DifficultyParams {
            target_block_time: 600,
            adjustment_interval: 2016,
            min_difficulty: 1,
            max_difficulty: u64::MAX,
            difficulty_precision: 16,
        }
    }
}

/// Why a difficulty adjustment failed.
#[derive(Debug, Clone, Copy, PartialEq, Eq, Structural)]
pub enum DifficultyError {
    /// Fewer block times were given than one adjustment interval holds.
    InsufficientData,
}

impl DifficultyError {
    /// The human-readable description of the error.
    pub fn message(&self) -> (text: String)
        ensures
            text@ == "Insufficient block time data for adjustment"@,
    {
        "Insufficient block time data for adjustment".to_owned()
    }
}

/// The sum of a sequence of block times.
pub open spec fn sum_times(times: Seq<u64>) -> nat
    decreases times.len(),
{
    if times.len() == 0 {
        0
    } else {
        sum_times(times.drop_last()) + times.last() as nat
    }
}

/// A value brought into `[lo, hi]`: raised to `lo` first, then cut at `hi`.
pub open spec fn clamp(value: nat, lo: u64, hi: u64) -> u64 {
    let raised = if value < lo {
        lo as nat
    } else {
        value
    };
    if raised > hi {
        hi
    } else {
        raised as u64
    }
}

/// The difficulty after an adjustment: the current one scaled by
/// `expected / actual`, rounded down and clamped. Blocks that took no time
/// at all leave the scale at one.
pub open spec fn retarget(current: u64, expected: nat, actual: nat, lo: u64, hi: u64) -> u64 {
    let scaled = if actual == 0 {
        current as nat
    } else {
        (current as nat * expected) / actual
    };
    clamp(scaled, lo, hi)
}

/// An adjusted difficulty lies within the bounds, where the lower bound is
/// not above the upper one; and blocks that took as long as expected leave
/// a difficulty within the bounds as it is.
pub proof fn lemma_retarget_in_bounds(current: u64, expected: nat, actual: nat, lo: u64, hi: u64)
    requires
        lo <= hi,
    ensures
        lo <= retarget(current, expected, actual, lo, hi) <= hi,
        expected == actual && lo <= current <= hi ==> retarget(current, expected, actual, lo, hi)
            == current,
{
    if expected == actual && actual > 0 {
        assert((current as nat * expected) / actual == current) by (nonlinear_arith)
            requires
                expected == actual,
                actual > 0,
        ;
    }
}

/// Whether an adjustment is due at `height`.
pub open spec fn adjustment_due(height: u64, last_adjustment: u64, interval: u64) -> bool {
    height >= last_adjustment + interval
}

/// The 32-byte target that holds `scalar` in its last eight bytes.
pub open spec fn scalar_target(scalar: u64) -> Seq<u8> {
    Seq::new(24, |i: int| 0u8) + be_bytes(scalar)
}

/// The target of a difficulty: every byte set for difficulty 0, else
/// `u64::MAX / difficulty` in the last eight bytes.
pub open spec fn target_of(difficulty: u64) -> Seq<u8> {
    if difficulty == 0 {
        Seq::new(32, |i: int| 0xFFu8)
    } else {
        scalar_target(u64::MAX / difficulty)
    }
}

/// The number held by the last eight bytes of a 32-byte target.
pub open spec fn target_scalar(target: Seq<u8>) -> nat {
    be_value(target.subrange(24, 32))
}

/// The difficulty of a target: `u64::MAX` over its scalar, or `u64::MAX`
/// itself where the scalar is 0.
pub open spec fn difficulty_of(target: Seq<u8>) -> u64 {
    let scalar = target_scalar(target);
    if scalar == 0 {
        u64::MAX
    } else {
        (u64::MAX as nat / scalar) as u64
    }
}

/// A target built from a scalar stands for that scalar, as a whole and in its
/// last eight bytes.
pub proof fn lemma_scalar_target_value(scalar: u64)
    ensures
        be_value(scalar_target(scalar)) == scalar,
        target_scalar(scalar_target(scalar)) == scalar,
        scalar_target(scalar).len() == 32,
{
    let zeros = Seq::new(24, |i: int| 0u8);
    lemma_be_value_leading_zeros(zeros, be_bytes(scalar));
    lemma_be_bytes_value(scalar);
    assert(scalar_target(scalar).subrange(24, 32) =~= be_bytes(scalar));
}

/// Converting a difficulty to its target and back gives the difficulty again,
/// or one more, as long as the difficulty is at most 2^32. From 1 to below
/// 2^32 the difficulty comes back exactly.
pub proof fn lemma_target_round_trip(difficulty: u64)
    requires
        difficulty <= 0x1_0000_0000,
    ensures
        difficulty <= difficulty_of(target_of(difficulty)) <= difficulty + 1,
        1 <= difficulty < 0x1_0000_0000 ==> difficulty_of(target_of(difficulty)) == difficulty,
{
    if difficulty == 0 {
        let low = target_of(0).subrange(24, 32);
        lemma_be_value_eight(low);
        assert(target_scalar(target_of(0)) == 0xFFFF_FFFF_FFFF_FFFF);
    } else {
        let m: int = u64::MAX as int;
        let d: int = difficulty as int;
        let t: int = m / d;
        lemma_scalar_target_value((u64::MAX / difficulty) as u64);
        assert(target_scalar(target_of(difficulty)) == t);
        assert(t >= 0xFFFF_FFFF) by (nonlinear_arith)
            requires
                t == m / d,
                1 <= d <= 0x1_0000_0000,
                m == 0xFFFF_FFFF_FFFF_FFFF,
        ;
        let back: int = m / t;
        assert(d <= back <= d + 1 && (d < 0x1_0000_0000 ==> back == d)) by (nonlinear_arith)
            requires
                t == m / d,
                back == m / t,
                1 <= d <= 0x1_0000_0000,
                t >= 0xFFFF_FFFF,
                m == 0xFFFF_FFFF_FFFF_FFFF,
        {
            assert(t * d <= m < t * d + d);
            assert(back * t <= m < back * t + t);
        }
    }
}

/// Difficulty calculation and adjustment.
#[derive(Debug, Clone, Copy)]
pub struct DifficultyManager {
    params: DifficultyParams,
    current_difficulty: u64,
    last_adjustment_height: u64,
}

impl DifficultyManager {
    #[verifier::type_invariant]
    spec fn inv(self) -> bool {
        self.params.time_fits()
    }

    /// The parameters the manager was made with.
    pub closed spec fn params(&self) -> DifficultyParams {
        self.params
    }

    /// The current difficulty.
    pub closed spec fn difficulty(&self) -> u64 {
        self.current_difficulty
    }

    /// The height of the last adjustment, 0 before the first.
    pub closed spec fn last_adjustment(&self) -> u64 {
        self.last_adjustment_height
    }

    /// Creates a manager with the given initial difficulty.
    pub fn new(params: DifficultyParams, initial_difficulty: u64) -> (manager: Self)
        requires
            params.time_fits(),
        ensures
            manager.params() == params,
            manager.difficulty() == initial_difficulty,
            manager.last_adjustment() == 0,
    {
        DifficultyManager {
            params,
            current_difficulty: initial_difficulty,
            last_adjustment_height: 0,
        }
    }

    fn total_time(times: &[u64]) -> (total: u128)
        ensures
            total == sum_times(times@),
    {
        let mut total: u128 = 0;
        let mut i: usize = 0;
        while i < times.len()
            invariant
                i <= times.len(),
                total == sum_times(times@.take(i as int)),
                total <= i * 0xFFFF_FFFF_FFFF_FFFF,
            decreases times.len() - i,
        {
            assert(times@.take(i + 1).drop_last() =~= times@.take(i as int));
            assert((i + 1) * 0xFFFF_FFFF_FFFF_FFFF <= 0xFFFF_FFFF_FFFF_FFFF
                * 0xFFFF_FFFF_FFFF_FFFF) by (nonlinear_arith)
                requires
                    i + 1 <= 0xFFFF_FFFF_FFFF_FFFF,
            ;
            total = total + times[i] as u128;
            i += 1;
        }
        assert(times@.take(i as int) =~= times@);
        total
    }

    /// Adjusts the difficulty from the times the last blocks took.
    ///
    /// Before the next adjustment is due nothing changes. Once it is due, at
    /// least one interval of block times is needed; the new difficulty is the
    /// current one scaled by the expected over the actual total time, clamped
    /// to the bounds of the parameters.
    pub fn adjust_difficulty(&mut self, current_height: u64, previous_block_times: &[u64]) -> (res:
        Result<u64, DifficultyError>)
        ensures
            final(self).params() == old(self).params(),
            !adjustment_due(
                current_height,
                old(self).last_adjustment(),
                old(self).params().adjustment_interval,
            ) ==> {
                &&& res == Ok::<u64, DifficultyError>(old(self).difficulty())
                &&& *final(self) == *old(self)
            },
            adjustment_due(
                current_height,
                old(self).last_adjustment(),
                old(self).params().adjustment_interval,
            ) && previous_block_times@.len() < old(self).params().adjustment_interval ==> {
                &&& res == Err::<u64, DifficultyError>(DifficultyError::InsufficientData)
                &&& *final(self) == *old(self)
            },
            adjustment_due(
                current_height,
                old(self).last_adjustment(),
                old(self).params().adjustment_interval,
            ) && previous_block_times@.len() >= old(self).params().adjustment_interval ==> {
                &&& res == Ok::<u64, DifficultyError>(final(self).difficulty())
                &&& final(self).difficulty() == retarget(
                    old(self).difficulty(),
                    old(self).params().expected_time(),
                    sum_times(previous_block_times@),
                    old(self).params().min_difficulty,
                    old(self).params().max_difficulty,
                )
                &&& final(self).last_adjustment() == current_height
            },
    {
        proof {
            use_type_invariant(&*self);
        }
        let due_at: u128 = self.last_adjustment_height as u128
            + self.params.adjustment_interval as u128;
        if (current_height as u128) < due_at {
            return Ok(self.current_difficulty);
        }
        if (previous_block_times.len() as u64) < self.params.adjustment_interval {
            return Err(DifficultyError::InsufficientData);
        }
        let actual_time: u128 = Self::total_time(previous_block_times);
        let expected_time: u64 = self.params.target_block_time * self.params.adjustment_interval;
        let scaled: u128 = if actual_time == 0 {
            self.current_difficulty as u128
        } else {
            assert(self.current_difficulty * expected_time <= 0xFFFF_FFFF_FFFF_FFFF
                * 0xFFFF_FFFF_FFFF_FFFF) by (nonlinear_arith)
                requires
                    self.current_difficulty <= 0xFFFF_FFFF_FFFF_FFFF,
                    expected_time <= 0xFFFF_FFFF_FFFF_FFFF,
            ;
            (self.current_difficulty as u128 * expected_time as u128) / actual_time
        };
        let raised: u128 = if scaled < self.params.min_difficulty as u128 {
            self.params.min_difficulty as u128
        } else {
            scaled
        };
        let new_difficulty: u64 = if raised > self.params.max_difficulty as u128 {
            self.params.max_difficulty
        } else {
            raised as u64
        };
        self.current_difficulty = new_difficulty;
        self.last_adjustment_height = current_height;
        Ok(new_difficulty)
    }

    /// Returns the current difficulty.
    pub fn get_difficulty(&self) -> (difficulty: u64)
        ensures
            difficulty == self.difficulty(),
    {
        self.current_difficulty
    }

    /// Returns the difficulty adjustment parameters.
    pub fn get_params(&self) -> (params: &DifficultyParams)
        ensures
            *params == self.params(),
            params.time_fits(),
    {
        proof {
            use_type_invariant(self);
        }
        &self.params
    }

    /// The height of the last adjustment.
    pub fn get_last_adjustment_height(&self) -> (height: u64)
        ensures
            height == self.last_adjustment(),
    {
        self.last_adjustment_height
    }

    /// Calculates the target value from a difficulty.
    pub fn difficulty_to_target(difficulty: u64) -> (target: [u8; 32])
        ensures
            target@ == target_of(difficulty),
            difficulty > 0 ==> be_value(target@) == u64::MAX / difficulty,
    {
        if difficulty == 0 {
            let full: [u8; 32] = [0xFFu8; 32];
            assert(full@ =~= target_of(difficulty));
            return full;
        }
        let scalar: u64 = u64::MAX / difficulty;
        let mut target: [u8; 32] = [0u8; 32];
        target[24] = (scalar / 0x100_0000_0000_0000) as u8;
        target[25] = (scalar / 0x1_0000_0000_0000 % 256) as u8;
        target[26] = (scalar / 0x100_0000_0000 % 256) as u8;
        target[27] = (scalar / 0x1_0000_0000 % 256) as u8;
        target[28] = (scalar / 0x100_0000 % 256) as u8;
        target[29] = (scalar / 0x1_0000 % 256) as u8;
        target[30] = (scalar / 0x100 % 256) as u8;
        target[31] = (scalar % 256) as u8;
        proof {
            assert(target@ =~= scalar_target(scalar));
            lemma_scalar_target_value(scalar);
        }
        target
    }

    /// Calculates the difficulty from a target value.
    pub fn target_to_difficulty(target: &[u8; 32]) -> (difficulty: u64)
        ensures
            difficulty == difficulty_of(target@),
    {
        let scalar: u64 = (target[24] as u64) * 0x100_0000_0000_0000 + (target[25] as u64)
            * 0x1_0000_0000_0000 + (target[26] as u64) * 0x100_0000_0000 + (target[27] as u64)
            * 0x1_0000_0000 + (target[28] as u64) * 0x100_0000 + (target[29] as u64) * 0x1_0000
            + (target[30] as u64) * 0x100 + (target[31] as u64);
        proof {
            lemma_be_value_eight(target@.subrange(24, 32));
        }
        if scalar == 0 {
            return u64::MAX;
        }
        u64::MAX / scalar
    }

    /// Checks whether a hash, read as a big-endian number, is at most the
    /// target.
    pub fn meets_difficulty(hash: &[u8; 32], target: &[u8; 32]) -> (meets: bool)
        ensures
            meets == (be_value(hash@) <= be_value(target@)),
    {
        let mut i: usize = 0;
        while i < 32
            invariant
                i <= 32,
                forall|j: int| 0 <= j < i ==> hash@[j] == target@[j],
            decreases 32 - i,
        {
            if hash[i] < target[i] {
                proof {
                    lemma_be_value_first_difference(hash@, target@, i as int);
                }
                return true;
            }
            if hash[i] > target[i] {
                proof {
                    lemma_be_value_first_difference(target@, hash@, i as int);
                }
                return false;
            }
            i += 1;
        }
        assert(hash@ =~= target@);
        true
    }
}

/// The number of bytes needed to write `value`, at least one.
pub open spec fn byte_length(value: u64) -> u64 {
    if value < 0x100 {
        1
    } else if value < 0x1_0000 {
        2
    } else if value < 0x100_0000 {
        3
    } else if value < 0x1_0000_0000 {
        4
    } else if value < 0x100_0000_0000 {
        5
    } else if value < 0x1_0000_0000_0000 {
        6
    } else if value < 0x100_0000_0000_0000 {
        7
    } else {
        8
    }
}

/// 256 to the power `k`, for `k` up to 7.
pub open spec fn pow256(k: int) -> int {
    if k <= 0 {
        1
    } else if k == 1 {
        0x100
    } else if k == 2 {
        0x1_0000
    } else if k == 3 {
        0x100_0000
    } else if k == 4 {
        0x1_0000_0000
    } else if k == 5 {
        0x100_0000_0000
    } else if k == 6 {
        0x1_0000_0000_0000
    } else {
        0x100_0000_0000_0000
    }
}

/// The three mantissa bytes of a value of `size` bytes: the value shifted so
/// that its top byte is the mantissa's top byte; what does not fit is cut off.
pub open spec fn top_three_bytes(value: u64, size: u64) -> int {
    if size <= 3 {
        value * pow256(3 - size)
    } else {
        value as int / pow256(size - 3)
    }
}

/// The compact form of a difficulty: the exponent (the number of bytes) in the
/// top byte, the mantissa (the top three bytes) below. A mantissa whose top
/// bit is set is shifted down one byte and the exponent raised by one.
pub open spec fn compact_of(difficulty: u64) -> u32 {
    if difficulty == 0 {
        0
    } else {
        let size = byte_length(difficulty);
        let mantissa = top_three_bytes(difficulty, size);
        if mantissa >= 0x80_0000 {
            (mantissa / 256 + (size + 1) * 0x100_0000) as u32
        } else {
            (mantissa + size * 0x100_0000) as u32
        }
    }
}

/// The difficulty that a compact form stands for: the mantissa moved to the
/// place that the exponent gives, cut to 64 bits.
pub open spec fn expand_compact(bits: u32) -> u64 {
    let exponent = bits / 0x100_0000;
    let mantissa = bits % 0x100_0000;
    if exponent <= 3 {
        (mantissa as int / pow256(3 - exponent)) as u64
    } else {
        ((mantissa * pow256(exponent - 3)) % 0x1_0000_0000_0000_0000) as u64
    }
}

/// The compact form gives back every difficulty below 2^23 exactly, and from
/// there up to 2^24 those whose lowest byte is 0.
pub proof fn lemma_compact_round_trip(difficulty: u64)
    requires
        difficulty < 0x100_0000,
        difficulty < 0x80_0000 || difficulty % 256 == 0,
    ensures
        expand_compact(compact_of(difficulty)) == difficulty,
{
}

/// Compact difficulty representation: one exponent byte over three mantissa
/// bytes.
#[derive(Debug, Clone, Copy)]
pub struct CompactDifficulty(u32);

impl CompactDifficulty {
    #[verifier::type_invariant]
    spec fn inv(self) -> bool {
        self.0 / 0x100_0000 <= 10
    }

    /// The 32 bits of the compact form.
    pub closed spec fn bits(&self) -> u32 {
        self.0
    }

    /// The 32 bits of the compact form.
    pub fn to_bits(&self) -> (bits: u32)
        ensures
            bits == self.bits(),
    {
        self.0
    }

    /// Converts from the compact representation to the full difficulty.
    pub fn to_difficulty(&self) -> (difficulty: u64)
        ensures
            difficulty == expand_compact(self.bits()),
    {
        proof {
            use_type_invariant(self);
        }
        let bits: u32 = self.0;
        let exponent: u32 = bits >> 24;
        let mantissa: u32 = bits & 0x00FF_FFFF;
        assert(exponent == bits / 0x100_0000 && mantissa == bits % 0x100_0000) by (bit_vector)
            requires
                exponent == bits >> 24,
                mantissa == bits & 0x00FF_FFFF,
        ;
        if exponent <= 3 {
            let shift: u32 = 8 * (3 - exponent);
            let moved: u32 = mantissa >> shift;
            assert(moved == mantissa / (pow256(3 - exponent) as u32)) by {
                assert(mantissa >> 0u32 == mantissa / 1) by (bit_vector);
                assert(mantissa >> 8u32 == mantissa / 0x100) by (bit_vector);
                assert(mantissa >> 16u32 == mantissa / 0x1_0000) by (bit_vector);
                assert(mantissa >> 24u32 == mantissa / 0x100_0000) by (bit_vector);
            }
            moved as u64
        } else {
            let shift: u32 = 8 * (exponent - 3);
            let wide: u64 = mantissa as u64;
            let moved: u64 = wide << shift;
            assert(moved == (wide * pow256(exponent - 3)) % 0x1_0000_0000_0000_0000) by {
                assert(wide << 8u32 == (wide * 0x100) % 0x1_0000_0000_0000_0000) by (bit_vector)
                    requires
                        wide < 0x100_0000,
                ;
                assert(wide << 16u32 == (wide * 0x1_0000) % 0x1_0000_0000_0000_0000)
                    by (bit_vector)
                    requires
                        wide < 0x100_0000,
                ;
                assert(wide << 24u32 == (wide * 0x100_0000) % 0x1_0000_0000_0000_0000)
                    by (bit_vector)
                    requires
                        wide < 0x100_0000,
                ;
                assert(wide << 32u32 == (wide * 0x1_0000_0000) % 0x1_0000_0000_0000_0000)
                    by (bit_vector)
                    requires
                        wide < 0x100_0000,
                ;
                assert(wide << 40u32 == (wide * 0x100_0000_0000) % 0x1_0000_0000_0000_0000)
                    by (bit_vector)
                    requires
                        wide < 0x100_0000,
                ;
                assert(wide << 48u32 == (wide * 0x1_0000_0000_0000) % 0x1_0000_0000_0000_0000)
                    by (bit_vector)
                    requires
                        wide < 0x100_0000,
                ;
                assert(wide << 56u32 == (wide * 0x100_0000_0000_0000)
                    % 0x1_0000_0000_0000_0000) by (bit_vector)
                    requires
                        wide < 0x100_0000,
                ;
            }
            moved
        }
    }

    fn byte_length(value: u64) -> (size: u64)
        ensures
            size == byte_length(value),
    {
        if value < 0x100 {
            1
        } else if value < 0x1_0000 {
            2
        } else if value < 0x100_0000 {
            3
        } else if value < 0x1_0000_0000 {
            4
        } else if value < 0x100_0000_0000 {
            5
        } else if value < 0x1_0000_0000_0000 {
            6
        } else if value < 0x100_0000_0000_0000 {
            7
        } else {
            8
        }
    }

    /// Converts from the full difficulty to the compact representation.
    pub fn from_difficulty(difficulty: u64) -> (compact: Self)
        ensures
            compact.bits() == compact_of(difficulty),
    {
        if difficulty == 0 {
            return CompactDifficulty(0);
        }
        let mut size: u64 = Self::byte_length(difficulty);
        let mut mantissa: u64 = if size <= 3 {
            let shift: u64 = 8 * (3 - size);
            let moved: u64 = difficulty << shift;
            assert(moved == difficulty * pow256(3 - size)) by {
                if size == 3 {
                    assert(difficulty << 0u64 == difficulty) by (bit_vector);
                } else if size == 2 {
                    assert(difficulty << 8u64 == difficulty * 0x100) by (bit_vector)
                        requires
                            difficulty < 0x1_0000,
                    ;
                } else {
                    assert(difficulty << 16u64 == difficulty * 0x1_0000) by (bit_vector)
                        requires
                            difficulty < 0x100,
                    ;
                }
            }
            moved
        } else {
            let shift: u64 = 8 * (size - 3);
            let moved: u64 = difficulty >> shift;
            assert(moved == difficulty / (pow256(size - 3) as u64)) by {
                assert(difficulty >> 8u64 == difficulty / 0x100) by (bit_vector);
                assert(difficulty >> 16u64 == difficulty / 0x1_0000) by (bit_vector);
                assert(difficulty >> 24u64 == difficulty / 0x100_0000) by (bit_vector);
                assert(difficulty >> 32u64 == difficulty / 0x1_0000_0000) by (bit_vector);
                assert(difficulty >> 40u64 == difficulty / 0x100_0000_0000) by (bit_vector);
            }
            moved
        };
        assert(mantissa == top_three_bytes(difficulty, size));
        assert(mantissa < 0x100_0000);
        if mantissa >= 0x80_0000 {
            mantissa = mantissa / 256;
            size = size + 1;
        }
        let bits: u64 = mantissa + size * 0x100_0000;
        CompactDifficulty(bits as u32)
    }
}

} // verus!
