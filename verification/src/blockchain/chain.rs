//! Block acceptance: a candidate block passes a fixed order of gates and is
//! then applied to the ledger as a whole, or it is refused and nothing
//! changes.

use crate::blockchain::reward::{block_reward, calculate_block_reward};
use crate::consensus::difficulty::{
    adjustment_due, retarget, sum_times, target_of, DifficultyError, DifficultyManager,
};
use crate::consensus::pow::{meets_target, pow_hash, PowSolution};
use crate::crypto::signatures::SignatureData;
use crate::database::utxo_set::{
    entry_of, MemoryUTXOStorage, OutPoint, TxOutput, UTXOStorage, UtxoEntry,
};
use crate::network::protocol::{Block, BlockHash, Transaction};
use vstd::prelude::*;

verus! {

/// The entries of a ledger by output reference.
pub type Ledger = Map<(Seq<u8>, u32), UtxoEntry>;

/// How an accepted block changed the chain.
#[derive(Debug, Clone, Copy, PartialEq, Eq, Structural)]
pub enum BlockAdded {
    ExtendedChain,
}

/// Why a block was refused.
#[derive(Debug, Clone, Copy, PartialEq, Eq, Structural)]
pub enum BlockRejection {
    /// The block does not stand directly on the current height.
    WrongHeight,
    /// No transactions, or hashes, signatures and transactions do not match
    /// in number, or the coinbase has inputs.
    Malformed,
    /// The header's Merkle root is not that of the transaction hashes.
    MerkleMismatch,
    InvalidProofOfWork,
    InvalidSignature,
    /// An input is not in the ledger, or is spent twice in the block.
    MissingInput,
    OutputsExceedInputs,
    /// The coinbase outputs are not the reward plus the fees.
    BadCoinbase,
    /// An output is in the ledger already, or is made twice in the block.
    DuplicateOutput,
}

impl BlockRejection {
    /// The refusal in words.
    pub open spec fn text(&self) -> Seq<char> {
        match *self {
            BlockRejection::WrongHeight => "block does not stand on the current height"@,
            BlockRejection::Malformed => "block is malformed"@,
            BlockRejection::MerkleMismatch => "Merkle root does not match the transactions"@,
            BlockRejection::InvalidProofOfWork => "invalid proof of work"@,
            BlockRejection::InvalidSignature => "invalid signature"@,
            BlockRejection::MissingInput => "input is missing or spent"@,
            BlockRejection::OutputsExceedInputs => "outputs exceed inputs"@,
            BlockRejection::BadCoinbase => "coinbase is not the reward plus the fees"@,
            BlockRejection::DuplicateOutput => "output exists already"@,
        }
    }

    /// The refusal in words.
    pub fn message(&self) -> (text: String)
        ensures
            text@ == self.text(),
    {
        match self {
            BlockRejection::WrongHeight => "block does not stand on the current height".to_owned(),
            BlockRejection::Malformed => "block is malformed".to_owned(),
            BlockRejection::MerkleMismatch => "Merkle root does not match the transactions".to_owned(),
            BlockRejection::InvalidProofOfWork => "invalid proof of work".to_owned(),
            BlockRejection::InvalidSignature => "invalid signature".to_owned(),
            BlockRejection::MissingInput => "input is missing or spent".to_owned(),
            BlockRejection::OutputsExceedInputs => "outputs exceed inputs".to_owned(),
            BlockRejection::BadCoinbase => "coinbase is not the reward plus the fees".to_owned(),
            BlockRejection::DuplicateOutput => "output exists already".to_owned(),
        }
    }
}

/// A block offered for acceptance, with all that the gates look at.
#[derive(Debug)]
pub struct BlockCandidate {
    /// The header and the transaction hashes.
    pub block: Block,
    pub height: u64,
    /// The proof of work over the header's bytes.
    pub solution: PowSolution,
    /// The transactions in the order of their hashes; the first is the
    /// coinbase.
    pub transactions: Vec<Transaction>,
    /// For each transaction, one signature an input over the transaction's
    /// hash.
    pub signatures: Vec<Vec<SignatureData>>,
}

/// The ledger after spending `inputs` in order, or `None` where one of them
/// is not there (any more).
pub open spec fn spend_inputs(utxos: Ledger, inputs: Seq<OutPoint>) -> Option<Ledger>
    decreases inputs.len(),
{
    if inputs.len() == 0 {
        Some(utxos)
    } else {
        match spend_inputs(utxos, inputs.drop_last()) {
            Some(rest) => if rest.dom().contains(inputs.last()@) {
                Some(rest.remove(inputs.last()@))
            } else {
                None
            },
            None => None,
        }
    }
}

/// The sum of the values that `inputs` have in the ledger.
pub open spec fn input_total(utxos: Ledger, inputs: Seq<OutPoint>) -> nat
    decreases inputs.len(),
{
    if inputs.len() == 0 {
        0
    } else {
        input_total(utxos, inputs.drop_last()) + utxos[inputs.last()@].value as nat
    }
}

/// The sum of the values of `outputs`.
pub open spec fn output_total(outputs: Seq<(OutPoint, u64)>) -> nat
    decreases outputs.len(),
{
    if outputs.len() == 0 {
        0
    } else {
        output_total(outputs.drop_last()) + outputs.last().1 as nat
    }
}

/// The entry that a new output gets: its value, no script, the block's
/// height, and whether it stems from the coinbase.
pub open spec fn new_entry(value: u64, height: u64, coinbase: bool) -> UtxoEntry {
    UtxoEntry { value, script: Seq::<u8>::empty(), height, coinbase }
}

/// The ledger after adding `outputs` in order, or `None` where one of them
/// is there already.
pub open spec fn add_outputs(
    utxos: Ledger,
    outputs: Seq<(OutPoint, u64)>,
    height: u64,
    coinbase: bool,
) -> Option<Ledger>
    decreases outputs.len(),
{
    if outputs.len() == 0 {
        Some(utxos)
    } else {
        match add_outputs(utxos, outputs.drop_last(), height, coinbase) {
            Some(rest) => if rest.dom().contains(outputs.last().0@) {
                None
            } else {
                Some(rest.insert(outputs.last().0@, new_entry(outputs.last().1, height, coinbase)))
            },
            None => None,
        }
    }
}

/// The ledger after spending the inputs of all transactions but the first,
/// or `None` where an input is missing or spent twice.
pub open spec fn spend_block_inputs(utxos: Ledger, txs: Seq<Transaction>) -> Option<Ledger>
    decreases txs.len(),
{
    if txs.len() <= 1 {
        Some(utxos)
    } else {
        match spend_block_inputs(utxos, txs.drop_last()) {
            Some(rest) => spend_inputs(rest, txs.last().inputs@),
            None => None,
        }
    }
}

/// The ledger after adding the outputs of all transactions, those of the
/// first as coinbase outputs, or `None` where an output is there already.
pub open spec fn add_block_outputs(utxos: Ledger, txs: Seq<Transaction>, height: u64) -> Option<
    Ledger,
>
    decreases txs.len(),
{
    if txs.len() == 0 {
        Some(utxos)
    } else {
        match add_block_outputs(utxos, txs.drop_last(), height) {
            Some(rest) => add_outputs(rest, txs.last().outputs@, height, txs.len() == 1),
            None => None,
        }
    }
}

/// The ledger after the whole block: inputs spent, then outputs added.
pub open spec fn block_result(utxos: Ledger, txs: Seq<Transaction>, height: u64) -> Option<
    Ledger,
> {
    match spend_block_inputs(utxos, txs) {
        Some(spent) => add_block_outputs(spent, txs, height),
        None => None,
    }
}

/// Whether the outputs of a transaction are worth no more than its inputs.
pub open spec fn tx_covered(utxos: Ledger, tx: Transaction) -> bool {
    output_total(tx.outputs@) <= input_total(utxos, tx.inputs@)
}

/// The fee of a transaction: what its inputs are worth over its outputs.
pub open spec fn tx_fee(utxos: Ledger, tx: Transaction) -> nat {
    if tx_covered(utxos, tx) {
        (input_total(utxos, tx.inputs@) - output_total(tx.outputs@)) as nat
    } else {
        0
    }
}

/// Whether every transaction but the first is covered by its inputs.
pub open spec fn outputs_covered(utxos: Ledger, txs: Seq<Transaction>) -> bool {
    forall|t: int| 1 <= t < txs.len() ==> tx_covered(utxos, #[trigger] txs[t])
}

/// The fees of all transactions but the first.
pub open spec fn fees(utxos: Ledger, txs: Seq<Transaction>) -> nat
    decreases txs.len(),
{
    if txs.len() <= 1 {
        0
    } else {
        fees(utxos, txs.drop_last()) + tx_fee(utxos, txs.last())
    }
}

/// Whether every signature of a list signs the message.
pub open spec fn all_sign(signatures: Seq<SignatureData>, message: Seq<u8>) -> bool {
    forall|i: int| 0 <= i < signatures.len() ==> (#[trigger] signatures[i]).signs(message)
}

impl BlockCandidate {
    /// There is a coinbase without inputs, and there are as many hashes and
    /// signature lists as transactions, and as many signatures as inputs.
    pub open spec fn well_formed(&self) -> bool {
        &&& self.transactions@.len() >= 1
        &&& self.block.tx_hashes@.len() == self.transactions@.len()
        &&& self.signatures@.len() == self.transactions@.len()
        &&& self.transactions@[0].inputs@.len() == 0
        &&& forall|t: int|
            0 <= t < self.transactions@.len() ==> (#[trigger] self.signatures@[t])@.len()
                == self.transactions@[t].inputs@.len()
    }

    /// The header's Merkle root is that of the transaction hashes.
    pub open spec fn root_matches(&self) -> bool {
        self.block.header.merkle_root@ == self.block.spec_merkle_root()
    }

    /// The solution's hash meets `target` and is the hash of the header.
    pub open spec fn pow_valid(&self, target: Seq<u8>) -> bool {
        &&& meets_target(self.solution.hash@, target)
        &&& self.solution.hash@ == pow_hash(
            self.block.header.bytes(),
            self.solution.nonce,
            self.solution.extra_nonce,
        )
    }

    /// Every input of every transaction but the first is signed over the
    /// transaction's hash.
    pub open spec fn signed(&self) -> bool {
        forall|t: int|
            1 <= t < self.transactions@.len() ==> all_sign(
                (#[trigger] self.signatures@[t])@,
                self.block.tx_hashes@[t]@,
            )
    }

    /// The coinbase outputs are worth the reward of the height plus the fees.
    pub open spec fn coinbase_exact(&self, utxos: Ledger) -> bool {
        output_total(self.transactions@[0].outputs@) == block_reward(self.height as nat) + fees(
            utxos,
            self.transactions@,
        )
    }
}

/// Whether every entry of `part` is an entry of `whole`.
pub open spec fn part_of(part: Ledger, whole: Ledger) -> bool {
    forall|key: (Seq<u8>, u32)| #[trigger]
        part.dom().contains(key) ==> whole.dom().contains(key) && part[key] == whole[key]
}

/// What is spent in part cannot be spent as a whole.
pub proof fn lemma_spend_inputs_prefix(utxos: Ledger, inputs: Seq<OutPoint>, count: int)
    requires
        0 <= count <= inputs.len(),
        spend_inputs(utxos, inputs.take(count)) is None,
    ensures
        spend_inputs(utxos, inputs) is None,
    decreases inputs.len(),
{
    if count == inputs.len() {
        assert(inputs.take(count) =~= inputs);
    } else {
        assert(inputs.drop_last().take(count) =~= inputs.take(count));
        lemma_spend_inputs_prefix(utxos, inputs.drop_last(), count);
    }
}

/// Spending leaves a part of the ledger, and every input spent was in it.
pub proof fn lemma_spend_inputs_part(utxos: Ledger, inputs: Seq<OutPoint>)
    requires
        spend_inputs(utxos, inputs) is Some,
    ensures
        part_of(spend_inputs(utxos, inputs)->0, utxos),
        forall|i: int| 0 <= i < inputs.len() ==> utxos.dom().contains((#[trigger] inputs[i])@),
    decreases inputs.len(),
{
    if inputs.len() > 0 {
        lemma_spend_inputs_part(utxos, inputs.drop_last());
        assert forall|i: int| 0 <= i < inputs.len() implies utxos.dom().contains(
            (#[trigger] inputs[i])@,
        ) by {
            if i < inputs.len() - 1 {
                assert(inputs.drop_last()[i] == inputs[i]);
            }
        }
    }
}

/// Inputs are worth the same in a ledger and in a part of it that holds
/// them all.
pub proof fn lemma_input_total_part(part: Ledger, utxos: Ledger, inputs: Seq<OutPoint>)
    requires
        part_of(part, utxos),
        forall|i: int| 0 <= i < inputs.len() ==> part.dom().contains((#[trigger] inputs[i])@),
    ensures
        input_total(part, inputs) == input_total(utxos, inputs),
    decreases inputs.len(),
{
    if inputs.len() > 0 {
        assert forall|i: int| 0 <= i < inputs.drop_last().len() implies part.dom().contains(
            (#[trigger] inputs.drop_last()[i])@,
        ) by {
            assert(inputs.drop_last()[i] == inputs[i]);
        }
        lemma_input_total_part(part, utxos, inputs.drop_last());
        assert(part.dom().contains(inputs[inputs.len() - 1]@));
        assert(part[inputs.last()@] == utxos[inputs.last()@]);
    }
}

/// Where the inputs of the first transactions cannot be spent, those of all
/// cannot.
pub proof fn lemma_spend_block_prefix(utxos: Ledger, txs: Seq<Transaction>, count: int)
    requires
        0 <= count <= txs.len(),
        spend_block_inputs(utxos, txs.take(count)) is None,
    ensures
        spend_block_inputs(utxos, txs) is None,
    decreases txs.len(),
{
    if count == txs.len() {
        assert(txs.take(count) =~= txs);
    } else {
        assert(txs.drop_last().take(count) =~= txs.take(count));
        lemma_spend_block_prefix(utxos, txs.drop_last(), count);
    }
}

/// Spending the inputs of a block leaves a part of the ledger.
pub proof fn lemma_spend_block_part(utxos: Ledger, txs: Seq<Transaction>)
    requires
        spend_block_inputs(utxos, txs) is Some,
    ensures
        part_of(spend_block_inputs(utxos, txs)->0, utxos),
    decreases txs.len(),
{
    if txs.len() > 1 {
        lemma_spend_block_part(utxos, txs.drop_last());
        lemma_spend_inputs_part(spend_block_inputs(utxos, txs.drop_last())->0, txs.last().inputs@);
    }
}

/// What cannot be added in part cannot be added as a whole.
pub proof fn lemma_add_outputs_prefix(
    utxos: Ledger,
    outputs: Seq<(OutPoint, u64)>,
    height: u64,
    coinbase: bool,
    count: int,
)
    requires
        0 <= count <= outputs.len(),
        add_outputs(utxos, outputs.take(count), height, coinbase) is None,
    ensures
        add_outputs(utxos, outputs, height, coinbase) is None,
    decreases outputs.len(),
{
    if count == outputs.len() {
        assert(outputs.take(count) =~= outputs);
    } else {
        assert(outputs.drop_last().take(count) =~= outputs.take(count));
        lemma_add_outputs_prefix(utxos, outputs.drop_last(), height, coinbase, count);
    }
}

/// Where the outputs of the first transactions cannot be added, those of all
/// cannot.
pub proof fn lemma_add_block_prefix(utxos: Ledger, txs: Seq<Transaction>, height: u64, count: int)
    requires
        0 <= count <= txs.len(),
        add_block_outputs(utxos, txs.take(count), height) is None,
    ensures
        add_block_outputs(utxos, txs, height) is None,
    decreases txs.len(),
{
    if count == txs.len() {
        assert(txs.take(count) =~= txs);
    } else {
        assert(txs.drop_last().take(count) =~= txs.take(count));
        lemma_add_block_prefix(utxos, txs.drop_last(), height, count);
    }
}

/// The chain's ledger and height, and the difficulty that new blocks must
/// meet.
#[derive(Debug)]
pub struct QuantumResistantBlockchain {
    utxo_set: MemoryUTXOStorage,
    difficulty_manager: DifficultyManager,
    current_height: u64,
}

fn total_outputs(outputs: &Vec<(OutPoint, u64)>) -> (total: u128)
    ensures
        total == output_total(outputs@),
{
    let mut total: u128 = 0;
    let mut i: usize = 0;
    while i < outputs.len()
        invariant
            i <= outputs.len(),
            total == output_total(outputs@.take(i as int)),
            total <= i * 0xFFFF_FFFF_FFFF_FFFF,
        decreases outputs.len() - i,
    {
        assert(outputs@.take(i + 1).drop_last() =~= outputs@.take(i as int));
        assert((i + 1) * 0xFFFF_FFFF_FFFF_FFFF <= 0xFFFF_FFFF_FFFF_FFFF * 0xFFFF_FFFF_FFFF_FFFF)
            by (nonlinear_arith)
            requires
                i + 1 <= 0xFFFF_FFFF_FFFF_FFFF,
        ;
        total = total + outputs[i].1 as u128;
        i += 1;
    }
    assert(outputs@.take(i as int) =~= outputs@);
    total
}

fn spend_all(
    working: &mut MemoryUTXOStorage,
    inputs: &Vec<OutPoint>,
    spender: BlockHash,
) -> (res: Option<u128>)
    requires
        old(working).wf(),
    ensures
        final(working).wf(),
        res is Some <==> spend_inputs(old(working).utxos(), inputs@) is Some,
        res matches Some(total) ==> {
            &&& Some(final(working).utxos()) == spend_inputs(old(working).utxos(), inputs@)
            &&& total == input_total(old(working).utxos(), inputs@)
        },
{
    let ghost start = working.utxos();
    let mut total: u128 = 0;
    let mut i: usize = 0;
    while i < inputs.len()
        invariant
            i <= inputs.len(),
            working.wf(),
            start == old(working).utxos(),
            Some(working.utxos()) == spend_inputs(start, inputs@.take(i as int)),
            total == input_total(start, inputs@.take(i as int)),
            total <= i * 0xFFFF_FFFF_FFFF_FFFF,
        decreases inputs.len() - i,
    {
        proof {
            assert(inputs@.take(i + 1).drop_last() =~= inputs@.take(i as int));
            assert(inputs@.take(i + 1).last() == inputs@[i as int]);
            lemma_spend_inputs_part(start, inputs@.take(i as int));
            assert(part_of(working.utxos(), start));
            assert((i + 1) * 0xFFFF_FFFF_FFFF_FFFF <= 0xFFFF_FFFF_FFFF_FFFF
                * 0xFFFF_FFFF_FFFF_FFFF) by (nonlinear_arith)
                requires
                    i + 1 <= 0xFFFF_FFFF_FFFF_FFFF,
            ;
        }
        let value: u64 = match working.value_of(&inputs[i]) {
            Some(value) => value,
            None => {
                proof {
                    lemma_spend_inputs_prefix(start, inputs@, i + 1);
                }
                return None;
            },
        };
        match working.spend_output(&inputs[i], spender) {
            Ok(()) => {},
            Err(_) => {
                return None;
            },
        }
        total = total + value as u128;
        i += 1;
    }
    assert(inputs@.take(i as int) =~= inputs@);
    Some(total)
}

fn add_all(working: &mut MemoryUTXOStorage, outputs: &Vec<(OutPoint, u64)>, height: u64, coinbase: bool) -> (ok:
    bool)
    requires
        old(working).wf(),
    ensures
        final(working).wf(),
        ok <==> add_outputs(old(working).utxos(), outputs@, height, coinbase) is Some,
        ok ==> Some(final(working).utxos()) == add_outputs(
            old(working).utxos(),
            outputs@,
            height,
            coinbase,
        ),
{
    let ghost start = working.utxos();
    let mut i: usize = 0;
    while i < outputs.len()
        invariant
            i <= outputs.len(),
            working.wf(),
            start == old(working).utxos(),
            Some(working.utxos()) == add_outputs(start, outputs@.take(i as int), height, coinbase),
        decreases outputs.len() - i,
    {
        proof {
            assert(outputs@.take(i + 1).drop_last() =~= outputs@.take(i as int));
            assert(outputs@.take(i + 1).last() == outputs@[i as int]);
        }
        let output = TxOutput { value: outputs[i].1, script_pubkey: Vec::new() };
        assert(entry_of(output, height, coinbase) == new_entry(outputs@[i as int].1, height, coinbase));
        match working.add_output(outputs[i].0, output, height, coinbase) {
            Ok(()) => {},
            Err(_) => {
                proof {
                    lemma_add_outputs_prefix(start, outputs@, height, coinbase, i + 1);
                }
                return false;
            },
        }
        i += 1;
    }
    assert(outputs@.take(i as int) =~= outputs@);
    true
}

impl QuantumResistantBlockchain {
    /// The ledger is in order.
    pub closed spec fn wf(&self) -> bool {
        self.utxo_set.wf()
    }

    /// The unspent outputs.
    pub closed spec fn utxos(&self) -> Ledger {
        self.utxo_set.utxos()
    }

    /// The height of the last block accepted, 0 before the first.
    pub closed spec fn height(&self) -> u64 {
        self.current_height
    }

    /// The difficulty that the next block must meet.
    pub closed spec fn difficulty(&self) -> u64 {
        self.difficulty_manager.difficulty()
    }

    /// The difficulty engine.
    pub closed spec fn engine(&self) -> DifficultyManager {
        self.difficulty_manager
    }

    /// The first gate that refuses the candidate, or `None` where all let
    /// it pass.
    pub open spec fn verdict(&self, candidate: BlockCandidate) -> Option<BlockRejection> {
        let txs = candidate.transactions@;
        if candidate.height != self.height() + 1 {
            Some(BlockRejection::WrongHeight)
        } else if !candidate.well_formed() {
            Some(BlockRejection::Malformed)
        } else if !candidate.root_matches() {
            Some(BlockRejection::MerkleMismatch)
        } else if !candidate.pow_valid(target_of(self.difficulty())) {
            Some(BlockRejection::InvalidProofOfWork)
        } else if !candidate.signed() {
            Some(BlockRejection::InvalidSignature)
        } else if spend_block_inputs(self.utxos(), txs) is None {
            Some(BlockRejection::MissingInput)
        } else if !outputs_covered(self.utxos(), txs) {
            Some(BlockRejection::OutputsExceedInputs)
        } else if !candidate.coinbase_exact(self.utxos()) {
            Some(BlockRejection::BadCoinbase)
        } else if block_result(self.utxos(), txs, candidate.height) is None {
            Some(BlockRejection::DuplicateOutput)
        } else {
            None
        }
    }

    /// A chain at height 0 over an empty ledger.
    pub fn new(difficulty_manager: DifficultyManager) -> (chain: Self)
        ensures
            chain.wf(),
            chain.height() == 0,
            chain.utxos() == Map::<(Seq<u8>, u32), UtxoEntry>::empty(),
            chain.engine() == difficulty_manager,
            chain.difficulty() == difficulty_manager.difficulty(),
    {
        QuantumResistantBlockchain {
            utxo_set: MemoryUTXOStorage::new(),
            difficulty_manager,
            current_height: 0,
        }
    }

    /// The height of the last block accepted.
    pub fn current_height(&self) -> (height: u64)
        ensures
            height == self.height(),
    {
        self.current_height
    }

    /// The ledger.
    pub fn utxo_set(&self) -> (set: &MemoryUTXOStorage)
        ensures
            set.utxos() == self.utxos(),
            set.wf() == self.wf(),
    {
        &self.utxo_set
    }

    /// The difficulty engine.
    pub fn difficulty_manager(&self) -> (manager: &DifficultyManager)
        ensures
            *manager == self.engine(),
            manager.difficulty() == self.difficulty(),
    {
        &self.difficulty_manager
    }

    /// Adjusts the difficulty at the current height from the times the last
    /// blocks took, as [`DifficultyManager::adjust_difficulty`] does. The
    /// ledger and the height stay.
    pub fn adjust_difficulty(&mut self, recent_block_times: &[u64]) -> (res: Result<
        u64,
        DifficultyError,
    >)
        requires
            old(self).wf(),
        ensures
            final(self).wf(),
            final(self).utxos() == old(self).utxos(),
            final(self).height() == old(self).height(),
            final(self).engine().params() == old(self).engine().params(),
            res matches Ok(difficulty) ==> difficulty == final(self).difficulty(),
            res is Err <==> adjustment_due(
                old(self).height(),
                old(self).engine().last_adjustment(),
                old(self).engine().params().adjustment_interval,
            ) && recent_block_times@.len() < old(self).engine().params().adjustment_interval,
            res is Err ==> final(self).engine() == old(self).engine(),
            !adjustment_due(
                old(self).height(),
                old(self).engine().last_adjustment(),
                old(self).engine().params().adjustment_interval,
            ) ==> final(self).engine() == old(self).engine(),
            res is Ok && adjustment_due(
                old(self).height(),
                old(self).engine().last_adjustment(),
                old(self).engine().params().adjustment_interval,
            ) ==> {
                &&& final(self).difficulty() == retarget(
                    old(self).difficulty(),
                    old(self).engine().params().expected_time(),
                    sum_times(recent_block_times@),
                    old(self).engine().params().min_difficulty,
                    old(self).engine().params().max_difficulty,
                )
                &&& final(self).engine().last_adjustment() == old(self).height()
            },
    {
        self.difficulty_manager.adjust_difficulty(self.current_height, recent_block_times)
    }

    /// Structural validation.
    pub fn validate_block_structure(candidate: &BlockCandidate) -> (ok: bool)
        ensures
            ok == candidate.well_formed(),
    {
        let n: usize = candidate.transactions.len();
        if n == 0 || candidate.block.tx_hashes.len() != n || candidate.signatures.len() != n {
            return false;
        }
        if candidate.transactions[0].inputs.len() != 0 {
            return false;
        }
        let mut t: usize = 0;
        while t < n
            invariant
                t <= n,
                n == candidate.transactions@.len(),
                n == candidate.signatures@.len(),
                forall|s: int|
                    0 <= s < t ==> (#[trigger] candidate.signatures@[s])@.len()
                        == candidate.transactions@[s].inputs@.len(),
            decreases n - t,
        {
            if candidate.signatures[t].len() != candidate.transactions[t].inputs.len() {
                return false;
            }
            t += 1;
        }
        true
    }

    /// Signature validation for every input of every transaction but the
    /// coinbase. A candidate that is not well formed has no valid signatures.
    pub fn validate_transactions(candidate: &BlockCandidate) -> (ok: bool)
        ensures
            ok == (candidate.well_formed() && candidate.signed()),
    {
        if !Self::validate_block_structure(candidate) {
            return false;
        }
        let n: usize = candidate.transactions.len();
        let mut t: usize = 1;
        while t < n
            invariant
                1 <= t <= n,
                n == candidate.transactions@.len(),
                candidate.well_formed(),
                forall|s: int|
                    1 <= s < t ==> all_sign(
                        (#[trigger] candidate.signatures@[s])@,
                        candidate.block.tx_hashes@[s]@,
                    ),
            decreases n - t,
        {
            let signatures = &candidate.signatures[t];
            let message = &candidate.block.tx_hashes[t];
            let mut i: usize = 0;
            while i < signatures.len()
                invariant
                    i <= signatures.len(),
                    1 <= t < n,
                    n == candidate.transactions@.len(),
                    candidate.well_formed(),
                    signatures@ == candidate.signatures@[t as int]@,
                    message@ == candidate.block.tx_hashes@[t as int]@,
                    forall|j: int| 0 <= j < i ==> (#[trigger] signatures@[j]).signs(message@),
                decreases signatures.len() - i,
            {
                if signatures[i].verify(message.0.as_slice()).is_err() {
                    assert(!signatures@[i as int].signs(message@));
                    assert(signatures@ == candidate.signatures@[t as int]@);
                    assert(message@ == candidate.block.tx_hashes@[t as int]@);
                    assert(!all_sign(candidate.signatures@[t as int]@, candidate.block.tx_hashes@[t as int]@));
                    return false;
                }
                i += 1;
            }
            t += 1;
        }
        true
    }

    fn spend_block(working: &mut MemoryUTXOStorage, candidate: &BlockCandidate) -> (res: Option<
        Vec<u128>,
    >)
        requires
            old(working).wf(),
            candidate.well_formed(),
        ensures
            final(working).wf(),
            res is Some <==> spend_block_inputs(old(working).utxos(), candidate.transactions@)
                is Some,
            res matches Some(totals) ==> {
                &&& Some(final(working).utxos()) == spend_block_inputs(
                    old(working).utxos(),
                    candidate.transactions@,
                )
                &&& totals@.len() == candidate.transactions@.len()
                &&& forall|t: int|
                    1 <= t < totals@.len() ==> #[trigger] totals@[t] == input_total(
                        old(working).utxos(),
                        candidate.transactions@[t].inputs@,
                    )
            },
    {
        let ghost start = working.utxos();
        let ghost txs = candidate.transactions@;
        let n: usize = candidate.transactions.len();
        let mut totals: Vec<u128> = Vec::new();
        totals.push(0);
        let mut t: usize = 1;
        while t < n
            invariant
                1 <= t <= n,
                n == txs.len(),
                txs == candidate.transactions@,
                candidate.well_formed(),
                working.wf(),
                start == old(working).utxos(),
                Some(working.utxos()) == spend_block_inputs(start, txs.take(t as int)),
                totals@.len() == t,
                forall|s: int|
                    1 <= s < t ==> #[trigger] totals@[s] == input_total(start, txs[s].inputs@),
            decreases n - t,
        {
            let ghost before = working.utxos();
            proof {
                assert(txs.take(t + 1).drop_last() =~= txs.take(t as int));
                assert(txs.take(t + 1).last() == txs[t as int]);
                lemma_spend_block_part(start, txs.take(t as int));
            }
            let spent = spend_all(
                working,
                &candidate.transactions[t].inputs,
                candidate.block.tx_hashes[t],
            );
            match spent {
                Some(total) => {
                    proof {
                        lemma_spend_inputs_part(before, txs[t as int].inputs@);
                        lemma_input_total_part(before, start, txs[t as int].inputs@);
                    }
                    totals.push(total);
                },
                None => {
                    proof {
                        lemma_spend_block_prefix(start, txs, t + 1);
                    }
                    return None;
                },
            }
            t += 1;
        }
        assert(txs.take(t as int) =~= txs);
        Some(totals)
    }

    fn collect_fees(candidate: &BlockCandidate, totals: &Vec<u128>, Ghost(utxos): Ghost<Ledger>) -> (res:
        (bool, Option<u128>))
        requires
            totals@.len() == candidate.transactions@.len(),
            forall|t: int|
                1 <= t < totals@.len() ==> #[trigger] totals@[t] == input_total(
                    utxos,
                    candidate.transactions@[t].inputs@,
                ),
        ensures
            res.0 == outputs_covered(utxos, candidate.transactions@),
            res.0 ==> match res.1 {
                Some(sum) => sum == fees(utxos, candidate.transactions@),
                None => fees(utxos, candidate.transactions@) > u128::MAX,
            },
    {
        let ghost txs = candidate.transactions@;
        let n: usize = candidate.transactions.len();
        let mut sum: Option<u128> = Some(0);
        let mut t: usize = 1;
        if n == 0 {
            return (true, sum);
        }
        while t < n
            invariant
                1 <= t <= n,
                n == txs.len(),
                txs == candidate.transactions@,
                totals@.len() == n,
                forall|s: int|
                    1 <= s < totals@.len() ==> #[trigger] totals@[s] == input_total(
                        utxos,
                        txs[s].inputs@,
                    ),
                forall|s: int| 1 <= s < t ==> tx_covered(utxos, #[trigger] txs[s]),
                match sum {
                    Some(so_far) => so_far == fees(utxos, txs.take(t as int)),
                    None => fees(utxos, txs.take(t as int)) > u128::MAX,
                },
            decreases n - t,
        {
            proof {
                assert(txs.take(t + 1).drop_last() =~= txs.take(t as int));
                assert(txs.take(t + 1).last() == txs[t as int]);
            }
            let spent: u128 = totals[t];
            let made: u128 = total_outputs(&candidate.transactions[t].outputs);
            if made > spent {
                assert(!tx_covered(utxos, txs[t as int]));
                return (false, None);
            }
            let fee: u128 = spent - made;
            sum =
            match sum {
                Some(so_far) => so_far.checked_add(fee),
                None => None,
            };
            t += 1;
        }
        assert(txs.take(t as int) =~= txs);
        (true, sum)
    }

    fn add_block_outputs(working: &mut MemoryUTXOStorage, candidate: &BlockCandidate) -> (ok: bool)
        requires
            old(working).wf(),
        ensures
            final(working).wf(),
            ok <==> add_block_outputs(
                old(working).utxos(),
                candidate.transactions@,
                candidate.height,
            ) is Some,
            ok ==> Some(final(working).utxos()) == add_block_outputs(
                old(working).utxos(),
                candidate.transactions@,
                candidate.height,
            ),
    {
        let ghost start = working.utxos();
        let ghost txs = candidate.transactions@;
        let n: usize = candidate.transactions.len();
        let mut t: usize = 0;
        while t < n
            invariant
                t <= n,
                n == txs.len(),
                txs == candidate.transactions@,
                working.wf(),
                start == old(working).utxos(),
                Some(working.utxos()) == add_block_outputs(
                    start,
                    txs.take(t as int),
                    candidate.height,
                ),
            decreases n - t,
        {
            proof {
                assert(txs.take(t + 1).drop_last() =~= txs.take(t as int));
                assert(txs.take(t + 1).last() == txs[t as int]);
            }
            if !add_all(working, &candidate.transactions[t].outputs, candidate.height, t == 0) {
                proof {
                    lemma_add_block_prefix(start, txs, candidate.height, t + 1);
                }
                return false;
            }
            t += 1;
        }
        assert(txs.take(t as int) =~= txs);
        true
    }

    /// Takes a candidate through the gates and, where all let it pass,
    /// applies it to the ledger and moves the height on.
    ///
    /// The gates, in order: the height, the structure, the Merkle root, the
    /// proof of work against the current target, the signatures, the inputs,
    /// the cover of the outputs, the coinbase and the new outputs. The first
    /// gate that refuses decides the error, and the chain stays as it was.
    pub fn add_block(&mut self, candidate: &BlockCandidate) -> (res: Result<
        BlockAdded,
        BlockRejection,
    >)
        requires
            old(self).wf(),
        ensures
            final(self).wf(),
            final(self).engine() == old(self).engine(),
            final(self).difficulty() == old(self).difficulty(),
            match old(self).verdict(*candidate) {
                Some(rejection) => {
                    &&& res == Err::<BlockAdded, BlockRejection>(rejection)
                    &&& *final(self) == *old(self)
                    &&& final(self).utxos() == old(self).utxos()
                    &&& final(self).height() == old(self).height()
                },
                None => {
                    &&& res == Ok::<BlockAdded, BlockRejection>(BlockAdded::ExtendedChain)
                    &&& final(self).height() == candidate.height
                    &&& Some(final(self).utxos()) == block_result(
                        old(self).utxos(),
                        candidate.transactions@,
                        candidate.height,
                    )
                },
            },
    {
        if candidate.height as u128 != self.current_height as u128 + 1 {
            return Err(BlockRejection::WrongHeight);
        }
        if !Self::validate_block_structure(candidate) {
            return Err(BlockRejection::Malformed);
        }
        if !candidate.block.merkle_root().same(&candidate.block.header.merkle_root) {
            return Err(BlockRejection::MerkleMismatch);
        }
        let target = DifficultyManager::difficulty_to_target(
            self.difficulty_manager.get_difficulty(),
        );
        let header_bytes = candidate.block.header.to_bytes();
        if !candidate.solution.is_valid(header_bytes.as_slice(), &target) {
            return Err(BlockRejection::InvalidProofOfWork);
        }
        if !Self::validate_transactions(candidate) {
            return Err(BlockRejection::InvalidSignature);
        }
        let mut working = self.utxo_set.snapshot();
        let totals = match Self::spend_block(&mut working, candidate) {
            Some(totals) => totals,
            None => {
                return Err(BlockRejection::MissingInput);
            },
        };
        let (covered, fee_sum) = Self::collect_fees(candidate, &totals, Ghost(self.utxo_set.utxos()));
        if !covered {
            return Err(BlockRejection::OutputsExceedInputs);
        }
        let coinbase_total: u128 = total_outputs(&candidate.transactions[0].outputs);
        let reward: u64 = calculate_block_reward(candidate.height);
        let owed: Option<u128> = match fee_sum {
            Some(sum) => sum.checked_add(reward as u128),
            None => None,
        };
        match owed {
            Some(owed) => {
                if coinbase_total != owed {
                    return Err(BlockRejection::BadCoinbase);
                }
            },
            None => {
                return Err(BlockRejection::BadCoinbase);
            },
        }
        if !Self::add_block_outputs(&mut working, candidate) {
            return Err(BlockRejection::DuplicateOutput);
        }
        self.utxo_set = working;
        self.current_height = candidate.height;
        Ok(BlockAdded::ExtendedChain)
    }

    /// The reward of the block at `height`: that of the linear schedule, the
    /// one that the coinbase of an accepted block is held to.
    pub fn calculate_block_reward(height: u64) -> (reward: u64)
        ensures
            reward == block_reward(height as nat),
    {
        calculate_block_reward(height)
    }
}

/// What the gates refuse: a block that does not stand on the current height,
/// a block with an input that is not signed, and a block whose coinbase is
/// not worth the reward plus the fees. Each is an error of
/// [`QuantumResistantBlockchain::add_block`], which then leaves the ledger
/// as it was.
pub proof fn lemma_refused(chain: QuantumResistantBlockchain, candidate: BlockCandidate)
    ensures
        candidate.height != chain.height() + 1 ==> chain.verdict(candidate) == Some(
            BlockRejection::WrongHeight,
        ),
        !candidate.signed() ==> chain.verdict(candidate) is Some,
        !candidate.coinbase_exact(chain.utxos()) ==> chain.verdict(candidate) is Some,
{
}

} // verus!
