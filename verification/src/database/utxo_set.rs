//! The set of unspent transaction outputs: the storage interface and an
//! in-memory implementation.

use crate::crypto::sha512::{sha512, sha512_digest};
use crate::network::protocol::BlockHash;
use vstd::prelude::*;
use vstd::string::StringExecFns;

verus! {

/// A reference to a transaction output: the transaction's hash and the
/// output's place in it.
#[derive(Debug, Clone, Copy, PartialEq, Eq, Hash)]
pub struct OutPoint {
    pub tx_hash: BlockHash,
    pub index: u32,
}

impl View for OutPoint {
    type V = (Seq<u8>, u32);

    open spec fn view(&self) -> (Seq<u8>, u32) {
        (self.tx_hash@, self.index)
    }
}

impl OutPoint {
    /// Whether two references name the same output.
    pub fn same(&self, other: &OutPoint) -> (same: bool)
        ensures
            same == (self@ == other@),
    {
        self.index == other.index && self.tx_hash.same(&other.tx_hash)
    }
}

/// A transaction output: a value and the script that locks it.
#[derive(Debug, Clone, PartialEq, Eq)]
pub struct TxOutput {
    /// Value in base units.
    pub value: u64,
    /// Locking script; the set does not look into it.
    pub script_pubkey: Vec<u8>,
}

impl TxOutput {
    /// A copy of the output.
    pub fn duplicate(&self) -> (copy: Self)
        ensures
            copy.value == self.value,
            copy.script_pubkey@ == self.script_pubkey@,
    {
        TxOutput { value: self.value, script_pubkey: self.script_pubkey.clone() }
    }
}

/// An unspent output as it is listed.
#[derive(Debug, Clone, PartialEq, Eq)]
pub struct UTXORecord {
    pub outpoint: OutPoint,
    pub output: TxOutput,
    pub block_height: u64,
    pub is_coinbase: bool,
}

/// What the set knows of an unspent output.
pub struct UtxoEntry {
    pub value: u64,
    pub script: Seq<u8>,
    pub height: u64,
    pub coinbase: bool,
}

/// The entry made of an output, the height of its block and whether it is a
/// coinbase output.
pub open spec fn entry_of(output: TxOutput, height: u64, coinbase: bool) -> UtxoEntry {
    UtxoEntry { value: output.value, script: output.script_pubkey@, height, coinbase }
}

/// The key of a listed record.
pub open spec fn record_key(record: UTXORecord) -> (Seq<u8>, u32) {
    record.outpoint@
}

/// The entry of a listed record.
pub open spec fn record_entry(record: UTXORecord) -> UtxoEntry {
    entry_of(record.output, record.block_height, record.is_coinbase)
}

/// Accumulated statistics over the set. Nothing spent is kept, so the totals
/// and the unspent figures are the same.
#[derive(Debug, Clone, Copy, PartialEq, Eq)]
pub struct UTXOStats {
    pub total_outputs: u64,
    pub total_value: u64,
    pub unspent_outputs: u64,
    pub unspent_value: u64,
}

impl Default for UTXOStats {
    fn default() -> (stats: Self)
        ensures
            stats == (UTXOStats {
                total_outputs: 0,
                total_value: 0,
                unspent_outputs: 0,
                unspent_value: 0,
            }),
    {
        UTXOStats { total_outputs: 0, total_value: 0, unspent_outputs: 0, unspent_value: 0 }
    }
}

/// Errors produced by operations on the set.
#[derive(Debug)]
pub enum UTXOError {
    SerializationError(String),
    NotFound,
    AlreadyExists,
    AlreadySpent,
    InvalidInput,
}

impl UTXOError {
    /// The error in words.
    pub open spec fn text(&self) -> Seq<char> {
        match *self {
            UTXOError::SerializationError(detail) => "Serialization error: "@ + detail@,
            UTXOError::NotFound => "UTXO not found"@,
            UTXOError::AlreadyExists => "UTXO already exists"@,
            UTXOError::AlreadySpent => "UTXO already spent"@,
            UTXOError::InvalidInput => "Invalid input"@,
        }
    }

    /// The error in words.
    pub fn message(&self) -> (text: String)
        ensures
            text@ == self.text(),
    {
        match self {
            UTXOError::SerializationError(detail) => "Serialization error: ".to_owned().concat(
                detail.as_str(),
            ),
            UTXOError::NotFound => "UTXO not found".to_owned(),
            UTXOError::AlreadyExists => "UTXO already exists".to_owned(),
            UTXOError::AlreadySpent => "UTXO already spent".to_owned(),
            UTXOError::InvalidInput => "Invalid input".to_owned(),
        }
    }
}

/// The sum of the values of a finite set of entries.
pub open spec fn total_value(utxos: Map<(Seq<u8>, u32), UtxoEntry>) -> nat
    decreases utxos.dom().len(),
    when utxos.dom().finite()
{
    if utxos.dom().len() == 0 {
        0
    } else {
        let key = utxos.dom().choose();
        utxos[key].value as nat + total_value(utxos.remove(key))
    }
}

/// A number cut at the largest 64-bit number.
pub open spec fn capped(total: nat) -> u64 {
    if total > u64::MAX {
        u64::MAX
    } else {
        total as u64
    }
}

/// The statistics of a set of entries: their number and the sum of their
/// values, each cut at the largest 64-bit number.
pub open spec fn stats_of(utxos: Map<(Seq<u8>, u32), UtxoEntry>) -> UTXOStats {
    UTXOStats {
        total_outputs: capped(utxos.dom().len()),
        total_value: capped(total_value(utxos)),
        unspent_outputs: capped(utxos.dom().len()),
        unspent_value: capped(total_value(utxos)),
    }
}

/// Whether `records` lists `utxos`: every record is an entry of the set, and
/// every entry is listed once.
pub open spec fn lists(records: Seq<UTXORecord>, utxos: Map<(Seq<u8>, u32), UtxoEntry>) -> bool {
    &&& distinct_keys(records)
    &&& records_map(records) == utxos
}

/// The total of a set is the value of any of its entries plus the total of
/// the others.
pub proof fn lemma_total_value_remove(utxos: Map<(Seq<u8>, u32), UtxoEntry>, key: (Seq<u8>, u32))
    requires
        utxos.dom().finite(),
        utxos.dom().contains(key),
    ensures
        total_value(utxos) == utxos[key].value + total_value(utxos.remove(key)),
    decreases utxos.dom().len(),
{
    let chosen = utxos.dom().choose();
    if chosen != key {
        lemma_total_value_remove(utxos.remove(chosen), key);
        lemma_total_value_remove(utxos.remove(key), chosen);
        assert(utxos.remove(chosen).remove(key) =~= utxos.remove(key).remove(chosen));
    }
}

/// A new entry adds its value to the total.
pub proof fn lemma_total_value_insert(
    utxos: Map<(Seq<u8>, u32), UtxoEntry>,
    key: (Seq<u8>, u32),
    entry: UtxoEntry,
)
    requires
        utxos.dom().finite(),
        !utxos.dom().contains(key),
    ensures
        total_value(utxos.insert(key, entry)) == entry.value + total_value(utxos),
{
    lemma_total_value_remove(utxos.insert(key, entry), key);
    assert(utxos.insert(key, entry).remove(key) =~= utxos);
}

/// The set that a list of records stands for; a later record replaces an
/// earlier one with the same key.
pub open spec fn records_map(records: Seq<UTXORecord>) -> Map<(Seq<u8>, u32), UtxoEntry>
    decreases records.len(),
{
    if records.len() == 0 {
        Map::empty()
    } else {
        records_map(records.drop_last()).insert(
            record_key(records.last()),
            record_entry(records.last()),
        )
    }
}

/// Whether no two records have the same key.
pub open spec fn distinct_keys(records: Seq<UTXORecord>) -> bool {
    forall|i: int, j: int|
        0 <= i < j < records.len() ==> record_key(#[trigger] records[i]) != record_key(
            #[trigger] records[j],
        )
}

/// The sum of the values of a list of records.
pub open spec fn records_total(records: Seq<UTXORecord>) -> nat
    decreases records.len(),
{
    if records.len() == 0 {
        0
    } else {
        records_total(records.drop_last()) + records.last().output.value as nat
    }
}

/// Whether some record of the list has the key.
pub open spec fn has_key(records: Seq<UTXORecord>, key: (Seq<u8>, u32)) -> bool {
    exists|i: int| 0 <= i < records.len() && record_key(#[trigger] records[i]) == key
}

/// The set of a list holds exactly the keys of its records.
pub proof fn lemma_records_map_keys(records: Seq<UTXORecord>)
    ensures
        records_map(records).dom().finite(),
        forall|key: (Seq<u8>, u32)|
            records_map(records).dom().contains(key) <==> has_key(records, key),
    decreases records.len(),
{
    if records.len() > 0 {
        let front = records.drop_last();
        lemma_records_map_keys(front);
        assert forall|key: (Seq<u8>, u32)|
            records_map(records).dom().contains(key) <==> has_key(records, key) by {
            if has_key(records, key) {
                let i = choose|i: int|
                    0 <= i < records.len() && record_key(#[trigger] records[i]) == key;
                if i < records.len() - 1 {
                    assert(front[i] == records[i]);
                    assert(has_key(front, key));
                }
            }
            if records_map(records).dom().contains(key) {
                if key == record_key(records.last()) {
                    assert(record_key(records[records.len() - 1]) == key);
                } else {
                    assert(has_key(front, key));
                    let i = choose|i: int|
                        0 <= i < front.len() && record_key(#[trigger] front[i]) == key;
                    assert(records[i] == front[i]);
                }
            }
        }
    }
}

/// In a list without a key twice, the set holds for each record its entry,
/// has as many entries as the list has records, and the same total.
pub proof fn lemma_records_map_entries(records: Seq<UTXORecord>)
    requires
        distinct_keys(records),
    ensures
        records_map(records).dom().finite(),
        records_map(records).dom().len() == records.len(),
        forall|i: int|
            0 <= i < records.len() ==> {
                &&& records_map(records).dom().contains(record_key(#[trigger] records[i]))
                &&& records_map(records)[record_key(records[i])] == record_entry(records[i])
            },
        total_value(records_map(records)) == records_total(records),
    decreases records.len(),
{
    if records.len() > 0 {
        let front = records.drop_last();
        let last = records.last();
        assert(distinct_keys(front)) by {
            assert forall|i: int, j: int| 0 <= i < j < front.len() implies record_key(
                #[trigger] front[i],
            ) != record_key(#[trigger] front[j]) by {
                assert(front[i] == records[i] && front[j] == records[j]);
            }
        }
        lemma_records_map_entries(front);
        lemma_records_map_keys(front);
        assert(!has_key(front, record_key(last))) by {
            if has_key(front, record_key(last)) {
                let i = choose|i: int|
                    0 <= i < front.len() && record_key(#[trigger] front[i]) == record_key(last);
                assert(front[i] == records[i]);
                assert(records[records.len() - 1] == last);
            }
        }
        lemma_total_value_insert(records_map(front), record_key(last), record_entry(last));
        assert forall|i: int| 0 <= i < records.len() implies {
            &&& records_map(records).dom().contains(record_key(#[trigger] records[i]))
            &&& records_map(records)[record_key(records[i])] == record_entry(records[i])
        } by {
            if i < records.len() - 1 {
                assert(front[i] == records[i]);
                assert(record_key(records[i]) != record_key(records[records.len() - 1]));
            }
        }
    }
}

/// Taking a record out of a list without a key twice takes its key out of
/// the set.
pub proof fn lemma_records_map_remove(records: Seq<UTXORecord>, at: int)
    requires
        distinct_keys(records),
        0 <= at < records.len(),
    ensures
        distinct_keys(records.remove(at)),
        records_map(records.remove(at)) == records_map(records).remove(record_key(records[at])),
{
    let rest = records.remove(at);
    let key = record_key(records[at]);
    assert(distinct_keys(rest)) by {
        assert forall|i: int, j: int| 0 <= i < j < rest.len() implies record_key(
            #[trigger] rest[i],
        ) != record_key(#[trigger] rest[j]) by {
            let i2 = if i < at {
                i
            } else {
                i + 1
            };
            let j2 = if j < at {
                j
            } else {
                j + 1
            };
            assert(rest[i] == records[i2] && rest[j] == records[j2]);
        }
    }
    lemma_records_map_entries(records);
    lemma_records_map_entries(rest);
    lemma_records_map_keys(records);
    lemma_records_map_keys(rest);
    let left = records_map(rest);
    let right = records_map(records).remove(key);
    assert forall|k: (Seq<u8>, u32)| left.dom().contains(k) <==> right.dom().contains(k) by {
        if left.dom().contains(k) {
            assert(has_key(rest, k));
            let i = choose|i: int| 0 <= i < rest.len() && record_key(#[trigger] rest[i]) == k;
            let i2 = if i < at {
                i
            } else {
                i + 1
            };
            assert(rest[i] == records[i2]);
            assert(record_key(records[i2]) != record_key(records[at]));
        }
        if right.dom().contains(k) {
            assert(records_map(records).dom().contains(k));
            assert(has_key(records, k));
            let i = choose|i: int|
                0 <= i < records.len() && record_key(#[trigger] records[i]) == k;
            assert(i != at);
            let i2 = if i < at {
                i
            } else {
                i - 1
            };
            assert(rest[i2] == records[i]);
        }
    }
    assert forall|k: (Seq<u8>, u32)| left.dom().contains(k) implies left[k] == right[k] by {
        assert(has_key(rest, k));
        let i = choose|i: int| 0 <= i < rest.len() && record_key(#[trigger] rest[i]) == k;
        let i2 = if i < at {
            i
        } else {
            i + 1
        };
        assert(rest[i] == records[i2]);
    }
    assert(left =~= right);
}

/// An output that is added and then spent is gone, and a set that did not
/// hold it is as it was before.
pub proof fn lemma_added_then_spent(
    utxos: Map<(Seq<u8>, u32), UtxoEntry>,
    key: (Seq<u8>, u32),
    entry: UtxoEntry,
)
    ensures
        !utxos.insert(key, entry).remove(key).dom().contains(key),
        !utxos.dom().contains(key) ==> utxos.insert(key, entry).remove(key) == utxos,
{
    if !utxos.dom().contains(key) {
        assert(utxos.insert(key, entry).remove(key) =~= utxos);
    }
}

/// The statistics of a set are those of its listing: the number of the
/// records and the sum of their values, each cut at the largest 64-bit
/// number.
pub proof fn lemma_stats_of_listing(
    records: Seq<UTXORecord>,
    utxos: Map<(Seq<u8>, u32), UtxoEntry>,
)
    requires
        lists(records, utxos),
    ensures
        stats_of(utxos).unspent_outputs == capped(records.len()),
        stats_of(utxos).unspent_value == capped(records_total(records)),
        stats_of(utxos).total_outputs == stats_of(utxos).unspent_outputs,
        stats_of(utxos).total_value == stats_of(utxos).unspent_value,
{
    lemma_records_map_entries(records);
}

/// Storage interface of the set. A store stands for a set of entries;
/// an operation that fails leaves the set as it was. A store may fail for
/// reasons of its own unless it is dependable; a dependable store succeeds
/// wherever the set itself has nothing against the operation.
pub trait UTXOStorage {
    /// The entries in the store.
    spec fn utxos(&self) -> Map<(Seq<u8>, u32), UtxoEntry>;

    /// The store is in order.
    spec fn wf(&self) -> bool;

    /// The store never fails for reasons of its own: it refuses only what
    /// the set itself refuses. A store in memory is dependable; one on a
    /// disk or across a network may not be.
    spec fn dependable(&self) -> bool;

    /// Adds an output that is not in the set yet.
    fn add_output(
        &mut self,
        outpoint: OutPoint,
        output: TxOutput,
        block_height: u64,
        is_coinbase: bool,
    ) -> (res: Result<(), UTXOError>)
        requires
            old(self).wf(),
        ensures
            final(self).wf(),
            final(self).dependable() == old(self).dependable(),
            old(self).utxos().dom().contains(outpoint@) ==> (res matches Err(e) && e is AlreadyExists),
            old(self).dependable() && !old(self).utxos().dom().contains(outpoint@) ==> res is Ok,
            res is Ok ==> final(self).utxos() == old(self).utxos().insert(
                outpoint@,
                entry_of(output, block_height, is_coinbase),
            ),
            res is Err ==> final(self).utxos() == old(self).utxos(),
    ;

    /// Spends an output: takes it out of the set.
    fn spend_output(&mut self, outpoint: &OutPoint, spending_tx_hash: BlockHash) -> (res: Result<
        (),
        UTXOError,
    >)
        requires
            old(self).wf(),
        ensures
            final(self).wf(),
            final(self).dependable() == old(self).dependable(),
            !old(self).utxos().dom().contains(outpoint@) ==> (res matches Err(e) && e is NotFound),
            old(self).dependable() && old(self).utxos().dom().contains(outpoint@) ==> res is Ok,
            res is Ok ==> final(self).utxos() == old(self).utxos().remove(outpoint@),
            res is Err ==> final(self).utxos() == old(self).utxos(),
    ;

    /// Looks an output up.
    fn get_output(&self, outpoint: &OutPoint) -> (res: Result<
        Option<(TxOutput, u64, bool)>,
        UTXOError,
    >)
        requires
            self.wf(),
        ensures
            self.dependable() ==> res is Ok,
            res matches Ok(Some(found)) ==> {
                &&& self.utxos().dom().contains(outpoint@)
                &&& self.utxos()[outpoint@] == entry_of(found.0, found.1, found.2)
            },
            res matches Ok(None) ==> !self.utxos().dom().contains(outpoint@),
    ;

    /// Lists the set.
    fn get_unspent_outputs(&self) -> (res: Result<Vec<UTXORecord>, UTXOError>)
        requires
            self.wf(),
        ensures
            self.dependable() ==> res is Ok,
            res matches Ok(records) ==> lists(records@, self.utxos()),
    ;

    /// The statistics of the set.
    fn get_stats(&self) -> (res: Result<UTXOStats, UTXOError>)
        requires
            self.wf(),
        ensures
            self.dependable() ==> res is Ok,
            res matches Ok(stats) ==> stats == stats_of(self.utxos()),
    ;

    /// Empties the set.
    fn clear(&mut self) -> (res: Result<(), UTXOError>)
        requires
            old(self).wf(),
        ensures
            final(self).wf(),
            final(self).dependable() == old(self).dependable(),
            old(self).dependable() ==> res is Ok,
            res is Ok ==> final(self).utxos() == Map::<(Seq<u8>, u32), UtxoEntry>::empty(),
            res is Err ==> final(self).utxos() == old(self).utxos(),
    ;
}

/// SHA-512 of a byte string.
pub fn hash_transaction(data: &[u8]) -> (digest: [u8; 64])
    ensures
        digest@ == sha512(data@)@,
{
    sha512_digest(data)
}

/// Makes the reference to output `index` of the transaction with `tx_hash`.
pub fn create_outpoint(tx_hash: BlockHash, index: u32) -> (outpoint: OutPoint)
    ensures
        outpoint == (OutPoint { tx_hash, index }),
{
    OutPoint { tx_hash, index }
}

/// A store in memory. It never fails for reasons of its own.
#[derive(Debug)]
pub struct MemoryUTXOStorage {
    records: Vec<UTXORecord>,
}

impl MemoryUTXOStorage {
    /// The records in the order in which they were added.
    pub closed spec fn records(&self) -> Seq<UTXORecord> {
        self.records@
    }

    /// An empty store.
    pub fn new() -> (store: Self)
        ensures
            store.wf(),
            store.dependable(),
            store.utxos() == Map::<(Seq<u8>, u32), UtxoEntry>::empty(),
    {
        MemoryUTXOStorage { records: Vec::new() }
    }

    fn position(&self, outpoint: &OutPoint) -> (found: Option<usize>)
        ensures
            found matches Some(at) ==> at < self.records@.len() && record_key(
                self.records@[at as int],
            ) == outpoint@,
            found is None ==> !has_key(self.records@, outpoint@),
    {
        let mut i: usize = 0;
        while i < self.records.len()
            invariant
                i <= self.records.len(),
                forall|j: int| 0 <= j < i ==> record_key(#[trigger] self.records@[j]) != outpoint@,
            decreases self.records.len() - i,
        {
            if self.records[i].outpoint.same(outpoint) {
                return Some(i);
            }
            i += 1;
        }
        None
    }

    /// Whether the output is in the set.
    pub fn contains(&self, outpoint: &OutPoint) -> (present: bool)
        requires
            self.wf(),
        ensures
            present == self.utxos().dom().contains(outpoint@),
    {
        proof {
            lemma_records_map_keys(self.records@);
            lemma_records_map_entries(self.records@);
        }
        self.position(outpoint).is_some()
    }

    /// The value of the output, if it is in the set.
    pub fn value_of(&self, outpoint: &OutPoint) -> (value: Option<u64>)
        requires
            self.wf(),
        ensures
            value is Some <==> self.utxos().dom().contains(outpoint@),
            value matches Some(v) ==> v == self.utxos()[outpoint@].value,
    {
        proof {
            lemma_records_map_keys(self.records@);
            lemma_records_map_entries(self.records@);
        }
        match self.position(outpoint) {
            Some(at) => Some(self.records[at].output.value),
            None => None,
        }
    }

    /// A copy of the store.
    pub fn snapshot(&self) -> (copy: Self)
        requires
            self.wf(),
        ensures
            copy.wf(),
            copy.utxos() == self.utxos(),
    {
        let mut records: Vec<UTXORecord> = Vec::new();
        let mut i: usize = 0;
        while i < self.records.len()
            invariant
                i <= self.records.len(),
                records.len() == i,
                forall|j: int|
                    0 <= j < i ==> {
                        &&& record_key(#[trigger] records@[j]) == record_key(self.records@[j])
                        &&& record_entry(records@[j]) == record_entry(self.records@[j])
                    },
            decreases self.records.len() - i,
        {
            let record = &self.records[i];
            records.push(
                UTXORecord {
                    outpoint: record.outpoint,
                    output: record.output.duplicate(),
                    block_height: record.block_height,
                    is_coinbase: record.is_coinbase,
                },
            );
            i += 1;
        }
        proof {
            lemma_same_records_same_map(records@, self.records@);
        }
        MemoryUTXOStorage { records }
    }
}

/// Two lists whose records agree in key and entry, place by place, stand for
/// the same set.
pub proof fn lemma_same_records_same_map(left: Seq<UTXORecord>, right: Seq<UTXORecord>)
    requires
        left.len() == right.len(),
        forall|j: int|
            0 <= j < left.len() ==> {
                &&& record_key(#[trigger] left[j]) == record_key(right[j])
                &&& record_entry(left[j]) == record_entry(right[j])
            },
    ensures
        records_map(left) == records_map(right),
        distinct_keys(right) ==> distinct_keys(left),
    decreases left.len(),
{
    if left.len() > 0 {
        assert forall|j: int| 0 <= j < left.drop_last().len() implies {
            &&& record_key(#[trigger] left.drop_last()[j]) == record_key(right.drop_last()[j])
            &&& record_entry(left.drop_last()[j]) == record_entry(right.drop_last()[j])
        } by {
            assert(left.drop_last()[j] == left[j]);
            assert(right.drop_last()[j] == right[j]);
        }
        lemma_same_records_same_map(left.drop_last(), right.drop_last());
        assert(record_key(left[left.len() - 1]) == record_key(right[left.len() - 1]));
    }
    if distinct_keys(right) {
        assert forall|i: int, j: int| 0 <= i < j < left.len() implies record_key(
            #[trigger] left[i],
        ) != record_key(#[trigger] left[j]) by {
            assert(record_key(left[i]) == record_key(right[i]));
            assert(record_key(left[j]) == record_key(right[j]));
        }
    }
}

impl UTXOStorage for MemoryUTXOStorage {
    closed spec fn utxos(&self) -> Map<(Seq<u8>, u32), UtxoEntry> {
        records_map(self.records@)
    }

    closed spec fn wf(&self) -> bool {
        distinct_keys(self.records@)
    }

    open spec fn dependable(&self) -> bool {
        true
    }

    fn add_output(
        &mut self,
        outpoint: OutPoint,
        output: TxOutput,
        block_height: u64,
        is_coinbase: bool,
    ) -> (res: Result<(), UTXOError>)
        ensures
            res is Err <==> old(self).utxos().dom().contains(outpoint@),
    {
        proof {
            lemma_records_map_keys(self.records@);
        }
        match self.position(&outpoint) {
            Some(at) => {
                assert(record_key(self.records@[at as int]) == outpoint@);
                assert(has_key(self.records@, outpoint@));
                return Err(UTXOError::AlreadyExists);
            },
            None => {},
        }
        let ghost before = self.records@;
        self.records.push(UTXORecord { outpoint, output, block_height, is_coinbase });
        proof {
            assert(self.records@.drop_last() =~= before);
            assert forall|i: int, j: int| 0 <= i < j < self.records@.len() implies record_key(
                #[trigger] self.records@[i],
            ) != record_key(#[trigger] self.records@[j]) by {
                assert(self.records@[i] == before[i]);
                if j < before.len() {
                    assert(self.records@[j] == before[j]);
                }
            }
        }
        Ok(())
    }

    fn spend_output(&mut self, outpoint: &OutPoint, spending_tx_hash: BlockHash) -> (res: Result<
        (),
        UTXOError,
    >)
        ensures
            res is Err <==> !old(self).utxos().dom().contains(outpoint@),
    {
        proof {
            lemma_records_map_keys(self.records@);
        }
        match self.position(outpoint) {
            Some(at) => {
                proof {
                    assert(record_key(self.records@[at as int]) == outpoint@);
                    assert(has_key(self.records@, outpoint@));
                    lemma_records_map_remove(self.records@, at as int);
                }
                let _ = self.records.remove(at);
                Ok(())
            },
            None => Err(UTXOError::NotFound),
        }
    }

    fn get_output(&self, outpoint: &OutPoint) -> (res: Result<
        Option<(TxOutput, u64, bool)>,
        UTXOError,
    >)
        ensures
            res is Ok,
            res matches Ok(found) ==> (found is Some <==> self.utxos().dom().contains(outpoint@)),
    {
        proof {
            lemma_records_map_keys(self.records@);
            lemma_records_map_entries(self.records@);
        }
        match self.position(outpoint) {
            Some(at) => {
                let record = &self.records[at];
                Ok(Some((record.output.duplicate(), record.block_height, record.is_coinbase)))
            },
            None => Ok(None),
        }
    }

    fn get_unspent_outputs(&self) -> (res: Result<Vec<UTXORecord>, UTXOError>)
        ensures
            res is Ok,
    {
        let copy = self.snapshot();
        Ok(copy.records)
    }

    fn get_stats(&self) -> (res: Result<UTXOStats, UTXOError>)
        ensures
            res is Ok,
    {
        let mut value: u64 = 0;
        let mut i: usize = 0;
        while i < self.records.len()
            invariant
                i <= self.records.len(),
                value == capped(records_total(self.records@.take(i as int))),
            decreases self.records.len() - i,
        {
            assert(self.records@.take(i + 1).drop_last() =~= self.records@.take(i as int));
            value = value.saturating_add(self.records[i].output.value);
            i += 1;
        }
        proof {
            assert(self.records@.take(i as int) =~= self.records@);
            lemma_records_map_entries(self.records@);
        }
        let count: u64 = self.records.len() as u64;
        Ok(
            UTXOStats {
                total_outputs: count,
                total_value: value,
                unspent_outputs: count,
                unspent_value: value,
            },
        )
    }

    fn clear(&mut self) -> (res: Result<(), UTXOError>)
        ensures
            res is Ok,
    {
        self.records.clear();
        Ok(())
    }
}

/// The set of unspent outputs over a store of any kind.
pub struct UTXOSet<S: UTXOStorage> {
    storage: S,
}

impl<S: UTXOStorage> UTXOSet<S> {
    /// The entries in the set.
    pub closed spec fn utxos(&self) -> Map<(Seq<u8>, u32), UtxoEntry> {
        self.storage.utxos()
    }

    /// The store is in order.
    pub closed spec fn wf(&self) -> bool {
        self.storage.wf()
    }

    /// The store never fails for reasons of its own.
    pub closed spec fn dependable(&self) -> bool {
        self.storage.dependable()
    }

    pub fn new(storage: S) -> (set: Self)
        requires
            storage.wf(),
        ensures
            set.wf(),
            set.dependable() == storage.dependable(),
            set.utxos() == storage.utxos(),
    {
        UTXOSet { storage }
    }

    /// Adds an output. An output that is in the set already is refused, and
    /// whatever fails leaves the set as it was.
    pub fn add(&mut self, outpoint: OutPoint, output: TxOutput, block_height: u64, is_coinbase: bool) -> (res:
        Result<(), UTXOError>)
        requires
            old(self).wf(),
        ensures
            final(self).wf(),
            final(self).dependable() == old(self).dependable(),
            old(self).utxos().dom().contains(outpoint@) ==> (res matches Err(e) && e is AlreadyExists),
            old(self).dependable() && !old(self).utxos().dom().contains(outpoint@) ==> res is Ok,
            res is Ok ==> final(self).utxos() == old(self).utxos().insert(
                outpoint@,
                entry_of(output, block_height, is_coinbase),
            ),
            res is Err ==> final(self).utxos() == old(self).utxos(),
    {
        self.storage.add_output(outpoint, output, block_height, is_coinbase)
    }

    /// Spends an output. An output that is not in the set is refused, and
    /// whatever fails leaves the set as it was.
    pub fn spend(&mut self, outpoint: &OutPoint, spending_tx_hash: BlockHash) -> (res: Result<
        (),
        UTXOError,
    >)
        requires
            old(self).wf(),
        ensures
            final(self).wf(),
            final(self).dependable() == old(self).dependable(),
            !old(self).utxos().dom().contains(outpoint@) ==> (res matches Err(e) && e is NotFound),
            old(self).dependable() && old(self).utxos().dom().contains(outpoint@) ==> res is Ok,
            res is Ok ==> final(self).utxos() == old(self).utxos().remove(outpoint@),
            res is Err ==> final(self).utxos() == old(self).utxos(),
    {
        self.storage.spend_output(outpoint, spending_tx_hash)
    }

    /// Looks an output up.
    pub fn get(&self, outpoint: &OutPoint) -> (res: Result<
        Option<(TxOutput, u64, bool)>,
        UTXOError,
    >)
        requires
            self.wf(),
        ensures
            self.dependable() ==> res is Ok,
            res matches Ok(Some(found)) ==> {
                &&& self.utxos().dom().contains(outpoint@)
                &&& self.utxos()[outpoint@] == entry_of(found.0, found.1, found.2)
            },
            res matches Ok(None) ==> !self.utxos().dom().contains(outpoint@),
    {
        self.storage.get_output(outpoint)
    }

    /// Lists the set.
    pub fn unspent(&self) -> (res: Result<Vec<UTXORecord>, UTXOError>)
        requires
            self.wf(),
        ensures
            self.dependable() ==> res is Ok,
            res matches Ok(records) ==> {
                &&& lists(records@, self.utxos())
                &&& records@.len() == self.utxos().dom().len()
                &&& records_total(records@) == total_value(self.utxos())
            },
    {
        let res = self.storage.get_unspent_outputs();
        proof {
            if res is Ok {
                lemma_records_map_entries(res->Ok_0@);
            }
        }
        res
    }

    /// The statistics of the set.
    pub fn stats(&self) -> (res: Result<UTXOStats, UTXOError>)
        requires
            self.wf(),
        ensures
            self.dependable() ==> res is Ok,
            res matches Ok(stats) ==> stats == stats_of(self.utxos()),
    {
        self.storage.get_stats()
    }

    /// Empties the set.
    pub fn clear(&mut self) -> (res: Result<(), UTXOError>)
        requires
            old(self).wf(),
        ensures
            final(self).wf(),
            final(self).dependable() == old(self).dependable(),
            old(self).dependable() ==> res is Ok,
            res is Ok ==> final(self).utxos() == Map::<(Seq<u8>, u32), UtxoEntry>::empty(),
            res is Err ==> final(self).utxos() == old(self).utxos(),
    {
        self.storage.clear()
    }
}

} // verus!
