//! Synchronisation with peers as a state machine.
//!
//! A cycle runs through the stages in a fixed order: peers are discovered,
//! headers fetched, blocks downloaded and verified. The manager decides; the
//! node around it waits, sends and receives, and reports back what happened.

use crate::clock::unix_time;
use crate::network::protocol::{
    BlockHash, GetBlocksMessage, InvEntry, InvMessage, PeerInfo, ProtocolError, INV_BLOCK,
};
use std::collections::VecDeque;
use vstd::prelude::*;
use vstd::string::StringExecFns;

verus! {

#[derive(Debug, Clone)]
pub enum SyncError {
    Protocol(ProtocolError),
    NoPeers,
    Timeout,
    InvalidChain,
    DatabaseError(String),
    AlreadySyncing,
}

impl SyncError {
    /// The error in words.
    pub open spec fn text(&self) -> Seq<char> {
        match *self {
            SyncError::Protocol(cause) => "Protocol error: "@ + cause.text(),
            SyncError::NoPeers => "No peers available for synchronization"@,
            SyncError::Timeout => "Synchronization timeout"@,
            SyncError::InvalidChain => "Invalid blockchain"@,
            SyncError::DatabaseError(detail) => "Database error: "@ + detail@,
            SyncError::AlreadySyncing => "Already synchronizing"@,
        }
    }

    /// The error in words.
    pub fn message(&self) -> (text: String)
        ensures
            text@ == self.text(),
    {
        match self {
            SyncError::Protocol(cause) => {
                let detail = cause.message();
                "Protocol error: ".to_owned().concat(detail.as_str())
            },
            SyncError::NoPeers => "No peers available for synchronization".to_owned(),
            SyncError::Timeout => "Synchronization timeout".to_owned(),
            SyncError::InvalidChain => "Invalid blockchain".to_owned(),
            SyncError::DatabaseError(detail) => "Database error: ".to_owned().concat(
                detail.as_str(),
            ),
            SyncError::AlreadySyncing => "Already synchronizing".to_owned(),
        }
    }

    /// The synchronisation error that wraps a protocol error.
    pub fn from_protocol(cause: ProtocolError) -> (error: Self)
        ensures
            error == SyncError::Protocol(cause),
    {
        SyncError::Protocol(cause)
    }
}

/// The stage of a synchronisation cycle.
#[derive(Debug, Clone, PartialEq)]
pub enum SyncStatus {
    Idle,
    DiscoveringPeers,
    FetchingHeaders,
    DownloadingBlocks,
    VerifyingBlocks,
    Completed,
    Error(String),
}

impl SyncStatus {
    /// The stage that follows in a cycle. `Completed` and `Error` have none.
    pub open spec fn next(self) -> Option<SyncStatus> {
        match self {
            SyncStatus::Idle => Some(SyncStatus::DiscoveringPeers),
            SyncStatus::DiscoveringPeers => Some(SyncStatus::FetchingHeaders),
            SyncStatus::FetchingHeaders => Some(SyncStatus::DownloadingBlocks),
            SyncStatus::DownloadingBlocks => Some(SyncStatus::VerifyingBlocks),
            SyncStatus::VerifyingBlocks => Some(SyncStatus::Completed),
            SyncStatus::Completed => None,
            SyncStatus::Error(_) => None,
        }
    }

    pub fn is_idle(&self) -> (idle: bool)
        ensures
            idle == (*self is Idle),
    {
        match self {
            SyncStatus::Idle => true,
            _ => false,
        }
    }

    pub fn is_completed(&self) -> (completed: bool)
        ensures
            completed == (*self is Completed),
    {
        match self {
            SyncStatus::Completed => true,
            _ => false,
        }
    }

    /// A copy of the status.
    pub fn duplicate(&self) -> (copy: Self)
        ensures
            copy == *self,
    {
        match self {
            SyncStatus::Idle => SyncStatus::Idle,
            SyncStatus::DiscoveringPeers => SyncStatus::DiscoveringPeers,
            SyncStatus::FetchingHeaders => SyncStatus::FetchingHeaders,
            SyncStatus::DownloadingBlocks => SyncStatus::DownloadingBlocks,
            SyncStatus::VerifyingBlocks => SyncStatus::VerifyingBlocks,
            SyncStatus::Completed => SyncStatus::Completed,
            SyncStatus::Error(reason) => SyncStatus::Error(reason.clone()),
        }
    }
}

/// A cycle runs from `Idle` through the discovery of peers, the fetching of
/// headers, the download and the verification of blocks to `Completed`, in
/// this order, and ends there.
pub proof fn lemma_cycle_order()
    ensures
        SyncStatus::Idle.next() == Some(SyncStatus::DiscoveringPeers),
        SyncStatus::DiscoveringPeers.next() == Some(SyncStatus::FetchingHeaders),
        SyncStatus::FetchingHeaders.next() == Some(SyncStatus::DownloadingBlocks),
        SyncStatus::DownloadingBlocks.next() == Some(SyncStatus::VerifyingBlocks),
        SyncStatus::VerifyingBlocks.next() == Some(SyncStatus::Completed),
        SyncStatus::Completed.next() is None,
        forall|reason: String| #[trigger] SyncStatus::Error(reason).next() is None,
{
}

/// Progress of a whole cycle, in hundredths of a percent.
pub const FULL_PROGRESS: u64 = 10_000;

/// The live figures of the synchronisation.
#[derive(Debug, Clone)]
pub struct SyncState {
    pub current_height: u64,
    pub target_height: u64,
    /// Progress in hundredths of a percent; [`FULL_PROGRESS`] is all.
    pub progress: u64,
    pub status: SyncStatus,
    pub peers_connected: usize,
    pub blocks_downloaded: u64,
    pub bytes_transferred: u64,
    pub start_time: u64,
    pub estimated_time_remaining: u64,
}

impl SyncState {
    /// A copy of the state.
    pub fn duplicate(&self) -> (copy: Self)
        ensures
            copy == *self,
    {
        SyncState {
            current_height: self.current_height,
            target_height: self.target_height,
            progress: self.progress,
            status: self.status.duplicate(),
            peers_connected: self.peers_connected,
            blocks_downloaded: self.blocks_downloaded,
            bytes_transferred: self.bytes_transferred,
            start_time: self.start_time,
            estimated_time_remaining: self.estimated_time_remaining,
        }
    }
}

/// The progress after `downloaded` of `target` blocks, in hundredths of a
/// percent, cut at the largest 64-bit number.
pub open spec fn progress_of(downloaded: u64, target: u64) -> u64 {
    let share = downloaded * 10_000 / target as int;
    if share > u64::MAX {
        u64::MAX
    } else {
        share as u64
    }
}

/// The hashes a node knows, newest first, and where the answer may stop.
#[derive(Debug, Clone)]
pub struct BlockLocator {
    pub hashes: Vec<BlockHash>,
    pub stop_hash: BlockHash,
}

fn copy_hashes(hashes: &Vec<BlockHash>) -> (copy: Vec<
    BlockHash,
>)
    ensures
        copy@ == hashes@,
{
    let mut copy: Vec<BlockHash> = Vec::new();
    let mut i: usize = 0;
    while i < hashes.len()
        invariant
            i <= hashes.len(),
            copy@ == hashes@.take(i as int),
        decreases hashes.len() - i,
    {
        copy.push(hashes[i]);
        i += 1;
        assert(copy@ =~= hashes@.take(i as int));
    }
    assert(hashes@.take(i as int) =~= hashes@);
    copy
}

impl BlockLocator {
    pub fn new(
        known_hashes: Vec<BlockHash>,
        stop_hash: BlockHash,
    ) -> (locator: Self)
        ensures
            locator.hashes == known_hashes,
            locator.stop_hash == stop_hash,
    {
        BlockLocator { hashes: known_hashes, stop_hash }
    }

    /// The request for the blocks after the known ones.
    pub fn to_getblocks(&self, version: u32) -> (message: GetBlocksMessage)
        ensures
            message.version == version,
            message.block_locator_hashes@ == self.hashes@,
            message.hash_stop == self.stop_hash,
    {
        GetBlocksMessage {
            version,
            block_locator_hashes: copy_hashes(&self.hashes),
            hash_stop: self.stop_hash,
        }
    }
}

/// What the node has to do next.
#[derive(Debug)]
pub enum SyncAction {
    /// Give peers time to be found.
    WaitForPeers,
    /// Ask these peers for headers; a peer that fails is passed over.
    RequestHeaders { peers: Vec<PeerInfo>, locator: BlockLocator },
    /// Fetch these blocks: for each, call `download_block`, request it where
    /// that says so, and report with `process_block` or `block_failed`.
    DownloadBlocks(Vec<BlockHash>),
    /// Verify the blocks that arrived.
    VerifyBlocks,
    /// The cycle is over.
    Finished,
}

/// Whether some hash of the sequence has these bytes.
pub open spec fn holds_hash(hashes: Seq<BlockHash>, bytes: Seq<u8>) -> bool {
    exists|i: int| 0 <= i < hashes.len() && (#[trigger] hashes[i])@ == bytes
}

/// The sequence without the hashes that have these bytes.
pub open spec fn without_hash(
    hashes: Seq<BlockHash>,
    bytes: Seq<u8>,
) -> Seq<BlockHash>
    decreases hashes.len(),
{
    if hashes.len() == 0 {
        hashes
    } else if hashes.last()@ == bytes {
        without_hash(hashes.drop_last(), bytes)
    } else {
        without_hash(hashes.drop_last(), bytes).push(hashes.last())
    }
}

/// Whether no two hashes of the sequence have the same bytes.
pub open spec fn distinct_hashes(hashes: Seq<BlockHash>) -> bool {
    forall|i: int, j: int|
        0 <= i < j < hashes.len() ==> (#[trigger] hashes[i])@ != (#[trigger] hashes[j])@
}

/// Taking a hash out leaves hashes of the sequence, none of them the one
/// taken out, and no hash twice where none was twice before.
pub proof fn lemma_without_hash(hashes: Seq<BlockHash>, bytes: Seq<u8>)
    ensures
        !holds_hash(without_hash(hashes, bytes), bytes),
        forall|other: Seq<u8>|
            holds_hash(without_hash(hashes, bytes), other) ==> holds_hash(hashes, other),
        distinct_hashes(hashes) ==> distinct_hashes(without_hash(hashes, bytes)),
    decreases hashes.len(),
{
    if hashes.len() > 0 {
        let front = hashes.drop_last();
        let last = hashes.last();
        lemma_without_hash(front, bytes);
        let kept = without_hash(hashes, bytes);
        assert forall|other: Seq<u8>| holds_hash(kept, other) implies holds_hash(hashes, other) by {
            let i = choose|i: int| 0 <= i < kept.len() && (#[trigger] kept[i])@ == other;
            if last@ != bytes && i == kept.len() - 1 {
                assert(hashes[hashes.len() - 1]@ == other);
            } else {
                assert(without_hash(front, bytes)[i]@ == other);
                assert(holds_hash(without_hash(front, bytes), other));
                assert(holds_hash(front, other));
                let k = choose|k: int| 0 <= k < front.len() && (#[trigger] front[k])@ == other;
                assert(front[k] == hashes[k]);
            }
        }
        if holds_hash(kept, bytes) {
            let i = choose|i: int| 0 <= i < kept.len() && (#[trigger] kept[i])@ == bytes;
            assert(without_hash(front, bytes)[i]@ == bytes);
            assert(holds_hash(without_hash(front, bytes), bytes));
        }
        if distinct_hashes(hashes) {
            assert(distinct_hashes(front)) by {
                assert forall|i: int, j: int| 0 <= i < j < front.len() implies (
                #[trigger] front[i])@ != (#[trigger] front[j])@ by {
                    assert(front[i] == hashes[i] && front[j] == hashes[j]);
                }
            }
            if last@ != bytes {
                let rest = without_hash(front, bytes);
                assert forall|i: int, j: int| 0 <= i < j < kept.len() implies (
                #[trigger] kept[i])@ != (#[trigger] kept[j])@ by {
                    if j == kept.len() - 1 {
                        assert(kept[i] == rest[i]);
                        if rest[i]@ == last@ {
                            assert(holds_hash(rest, last@));
                            assert(holds_hash(front, last@));
                            let k = choose|k: int|
                                0 <= k < front.len() && (#[trigger] front[k])@ == last@;
                            assert(front[k] == hashes[k]);
                            assert(hashes[k]@ == hashes[hashes.len() - 1]@);
                        }
                    } else {
                        assert(kept[i] == rest[i] && kept[j] == rest[j]);
                    }
                }
            }
        }
    }
}

/// The queue after an inventory: every announced block that is neither
/// queued nor in flight is appended, in the order of the announcement.
pub open spec fn with_announced(
    queue: Seq<BlockHash>,
    in_flight: Seq<BlockHash>,
    items: Seq<InvEntry>,
) -> Seq<BlockHash>
    decreases items.len(),
{
    if items.len() == 0 {
        queue
    } else {
        let before = with_announced(queue, in_flight, items.drop_last());
        let item = items.last();
        if item.kind == INV_BLOCK && !holds_hash(before, item.hash@) && !holds_hash(
            in_flight,
            item.hash@,
        ) {
            before.push(item.hash)
        } else {
            before
        }
    }
}

/// Whether `blocks` are the first blocks of the queue, `max_count` of them or
/// all where there are fewer, and `rest` is what stays of the queue.
pub open spec fn handed_out(
    queue: Seq<BlockHash>,
    rest: Seq<BlockHash>,
    blocks: Seq<BlockHash>,
    max_count: usize,
) -> bool {
    &&& blocks.len() == if queue.len() <= max_count {
        queue.len()
    } else {
        max_count as nat
    }
    &&& blocks == queue.take(blocks.len() as int)
    &&& rest == queue.skip(blocks.len() as int)
}

/// Whether some peer of the sequence has this identifier.
pub open spec fn has_peer(peers: Seq<PeerInfo>, id: Seq<char>) -> bool {
    exists|i: int| 0 <= i < peers.len() && (#[trigger] peers[i]).spec_id() == id
}

/// The sequence without the peers that have this identifier.
pub open spec fn without_peer(peers: Seq<PeerInfo>, id: Seq<char>) -> Seq<PeerInfo>
    decreases peers.len(),
{
    if peers.len() == 0 {
        peers
    } else if peers.last().spec_id() == id {
        without_peer(peers.drop_last(), id)
    } else {
        without_peer(peers.drop_last(), id).push(peers.last())
    }
}

/// The sequence without the texts equal to this one.
pub open spec fn without_text(texts: Seq<String>, text: Seq<char>) -> Seq<String>
    decreases texts.len(),
{
    if texts.len() == 0 {
        texts
    } else if texts.last()@ == text {
        without_text(texts.drop_last(), text)
    } else {
        without_text(texts.drop_last(), text).push(texts.last())
    }
}

/// Whether some text of the sequence equals this one.
pub open spec fn has_text(texts: Seq<String>, text: Seq<char>) -> bool {
    exists|i: int| 0 <= i < texts.len() && (#[trigger] texts[i])@ == text
}

/// The valid peers of a sequence, in order.
pub open spec fn valid_peers(peers: Seq<PeerInfo>) -> Seq<PeerInfo>
    decreases peers.len(),
{
    if peers.len() == 0 {
        peers
    } else if peers.last().valid() {
        valid_peers(peers.drop_last()).push(peers.last())
    } else {
        valid_peers(peers.drop_last())
    }
}

/// The first `count` valid peers, or all valid peers where there are fewer.
pub open spec fn best_peers(peers: Seq<PeerInfo>, count: nat) -> Seq<PeerInfo> {
    let valid = valid_peers(peers);
    if valid.len() <= count {
        valid
    } else {
        valid.take(count as int)
    }
}

/// The manager of the synchronisation: its state, the peers it knows, the
/// blocks that wait for download and those in flight.
#[derive(Debug)]
pub struct SyncManager {
    state: SyncState,
    known_peers: Vec<PeerInfo>,
    active_peers: Vec<String>,
    block_queue: VecDeque<BlockHash>,
    requested_blocks: Vec<BlockHash>,
}

impl SyncManager {
    /// The live figures.
    pub closed spec fn state(&self) -> SyncState {
        self.state
    }

    /// The peers known, in the order in which they became known.
    pub closed spec fn peers(&self) -> Seq<PeerInfo> {
        self.known_peers@
    }

    /// The identifiers of the peers marked active.
    pub closed spec fn active(&self) -> Seq<String> {
        self.active_peers@
    }

    /// The blocks that wait for download, first in first out.
    pub closed spec fn queue(&self) -> Seq<BlockHash> {
        self.block_queue@
    }

    /// The blocks that were requested and have not arrived yet.
    pub closed spec fn in_flight(&self) -> Seq<BlockHash> {
        self.requested_blocks@
    }

    /// A manager whose state is the given one and that knows no peer and no
    /// block.
    pub open spec fn fresh(&self, state: SyncState) -> bool {
        &&& self.state() == state
        &&& self.peers().len() == 0
        &&& self.active().len() == 0
        &&& self.queue().len() == 0
        &&& self.in_flight().len() == 0
    }

    /// The idle state of a manager started at `start_time`.
    pub open spec fn idle_state(start_time: u64) -> SyncState {
        SyncState {
            current_height: 0,
            target_height: 0,
            progress: 0,
            status: SyncStatus::Idle,
            peers_connected: 0,
            blocks_downloaded: 0,
            bytes_transferred: 0,
            start_time,
            estimated_time_remaining: 0,
        }
    }

    /// An idle manager started at `start_time`.
    pub fn started_at(start_time: u64) -> (manager: Self)
        ensures
            manager.fresh(Self::idle_state(start_time)),
    {
        SyncManager {
            state: SyncState {
                current_height: 0,
                target_height: 0,
                progress: 0,
                status: SyncStatus::Idle,
                peers_connected: 0,
                blocks_downloaded: 0,
                bytes_transferred: 0,
                start_time,
                estimated_time_remaining: 0,
            },
            known_peers: Vec::new(),
            active_peers: Vec::new(),
            block_queue: VecDeque::new(),
            requested_blocks: Vec::new(),
        }
    }

    /// An idle manager started now.
    pub fn new() -> (manager: Self)
        ensures
            exists|start_time: u64| #[trigger] manager.fresh(Self::idle_state(start_time)),
    {
        let start_time: u64 = unix_time();
        let manager = Self::started_at(start_time);
        assert(manager.fresh(Self::idle_state(start_time)));
        manager
    }

    /// A copy of the live figures.
    pub fn get_state(&self) -> (state: SyncState)
        ensures
            state == self.state(),
    {
        self.state.duplicate()
    }

    /// Replaces the figures that the node keeps: the heights, the bytes
    /// transferred and the time remaining. The stage, the progress and the
    /// counts of the manager stay.
    pub fn update_state(
        &mut self,
        current_height: u64,
        target_height: u64,
        bytes_transferred: u64,
        estimated_time_remaining: u64,
    )
        ensures
            final(self).state() == (SyncState {
                current_height,
                target_height,
                bytes_transferred,
                estimated_time_remaining,
                ..old(self).state()
            }),
            final(self).peers() == old(self).peers(),
            final(self).active() == old(self).active(),
            final(self).queue() == old(self).queue(),
            final(self).in_flight() == old(self).in_flight(),
    {
        self.state.current_height = current_height;
        self.state.target_height = target_height;
        self.state.bytes_transferred = bytes_transferred;
        self.state.estimated_time_remaining = estimated_time_remaining;
    }

    fn peer_position(&self, id: &String) -> (found: Option<usize>)
        ensures
            found matches Some(at) ==> {
                &&& at < self.known_peers@.len()
                &&& self.known_peers@[at as int].spec_id() == id@
                &&& forall|j: int| 0 <= j < at ==> (#[trigger] self.known_peers@[j]).spec_id() != id@
            },
            found is None ==> !has_peer(self.known_peers@, id@),
    {
        let mut i: usize = 0;
        while i < self.known_peers.len()
            invariant
                i <= self.known_peers.len(),
                forall|j: int| 0 <= j < i ==> (#[trigger] self.known_peers@[j]).spec_id() != id@,
            decreases self.known_peers.len() - i,
        {
            let other = self.known_peers[i].id();
            if other == *id {
                return Some(i);
            }
            i += 1;
        }
        None
    }

    /// Makes a peer known. A peer with the same identifier is replaced where
    /// it stands; a new peer comes last.
    pub fn add_peer(&mut self, peer: PeerInfo)
        ensures
            final(self).state() == old(self).state(),
            final(self).active() == old(self).active(),
            final(self).queue() == old(self).queue(),
            final(self).in_flight() == old(self).in_flight(),
            !has_peer(old(self).peers(), peer.spec_id()) ==> final(self).peers() == old(
                self,
            ).peers().push(peer),
            has_peer(old(self).peers(), peer.spec_id()) ==> exists|at: int|
                {
                    &&& 0 <= at < old(self).peers().len()
                    &&& (#[trigger] old(self).peers()[at]).spec_id() == peer.spec_id()
                    &&& forall|j: int|
                        0 <= j < at ==> (#[trigger] old(self).peers()[j]).spec_id()
                            != peer.spec_id()
                    &&& final(self).peers() == old(self).peers().update(at, peer)
                },
    {
        let id = peer.id();
        match self.peer_position(&id) {
            Some(at) => {
                self.known_peers.set(at, peer);
                assert(has_peer(old(self).peers(), peer.spec_id()));
            },
            None => {
                self.known_peers.push(peer);
            },
        }
    }

    /// Forgets the peer with this identifier, known or active.
    pub fn remove_peer(&mut self, peer_id: &str)
        ensures
            final(self).state() == old(self).state(),
            final(self).queue() == old(self).queue(),
            final(self).in_flight() == old(self).in_flight(),
            final(self).peers() == without_peer(old(self).peers(), peer_id@),
            final(self).active() == without_text(old(self).active(), peer_id@),
    {
        let id: String = peer_id.to_owned();
        let mut kept: Vec<PeerInfo> = Vec::new();
        let mut i: usize = 0;
        while i < self.known_peers.len()
            invariant
                i <= self.known_peers.len(),
                id@ == peer_id@,
                kept@ == without_peer(self.known_peers@.take(i as int), peer_id@),
            decreases self.known_peers.len() - i,
        {
            assert(self.known_peers@.take(i + 1).drop_last() =~= self.known_peers@.take(i as int));
            let other = self.known_peers[i].id();
            if !(other == id) {
                kept.push(self.known_peers[i].duplicate());
            }
            i += 1;
        }
        assert(self.known_peers@.take(i as int) =~= self.known_peers@);
        let mut active: Vec<String> = Vec::new();
        let mut j: usize = 0;
        while j < self.active_peers.len()
            invariant
                j <= self.active_peers.len(),
                id@ == peer_id@,
                active@ == without_text(self.active_peers@.take(j as int), peer_id@),
            decreases self.active_peers.len() - j,
        {
            assert(self.active_peers@.take(j + 1).drop_last() =~= self.active_peers@.take(
                j as int,
            ));
            if !(self.active_peers[j] == id) {
                active.push(self.active_peers[j].clone());
            }
            j += 1;
        }
        assert(self.active_peers@.take(j as int) =~= self.active_peers@);
        self.known_peers = kept;
        self.active_peers = active;
    }

    /// Marks the peer with this identifier active.
    pub fn mark_peer_active(&mut self, peer_id: &str)
        ensures
            final(self).state() == old(self).state(),
            final(self).peers() == old(self).peers(),
            final(self).queue() == old(self).queue(),
            final(self).in_flight() == old(self).in_flight(),
            has_text(old(self).active(), peer_id@) ==> final(self).active() == old(self).active(),
            !has_text(old(self).active(), peer_id@) ==> {
                &&& final(self).active().len() == old(self).active().len() + 1
                &&& final(self).active().drop_last() == old(self).active()
                &&& final(self).active().last()@ == peer_id@
            },
    {
        let id: String = peer_id.to_owned();
        let mut i: usize = 0;
        while i < self.active_peers.len()
            invariant
                i <= self.active_peers.len(),
                id@ == peer_id@,
                forall|j: int| 0 <= j < i ==> (#[trigger] self.active_peers@[j])@ != peer_id@,
            decreases self.active_peers.len() - i,
        {
            if self.active_peers[i] == id {
                return ;
            }
            i += 1;
        }
        self.active_peers.push(id);
        assert(self.active_peers@.drop_last() =~= old(self).active_peers@);
    }

    /// The first `count` valid peers.
    pub fn get_best_peers(&self, count: usize) -> (best: Vec<PeerInfo>)
        ensures
            best@ == best_peers(self.peers(), count as nat),
    {
        let mut best: Vec<PeerInfo> = Vec::new();
        let mut i: usize = 0;
        while i < self.known_peers.len()
            invariant
                i <= self.known_peers.len(),
                best@ == best_peers(self.known_peers@.take(i as int), count as nat),
                best@.len() <= count,
            decreases self.known_peers.len() - i,
        {
            proof {
                let front = self.known_peers@.take(i as int);
                let more = self.known_peers@.take(i + 1);
                assert(more.drop_last() =~= front);
                if more.last().valid() && valid_peers(front).len() >= count {
                    assert(valid_peers(more).take(count as int) =~= valid_peers(front).take(
                        count as int,
                    ));
                }
            }
            if best.len() < count && self.known_peers[i].is_valid() {
                best.push(self.known_peers[i].duplicate());
            }
            i += 1;
        }
        assert(self.known_peers@.take(i as int) =~= self.known_peers@);
        best
    }

    /// Begins a cycle. Only an idle manager can.
    pub fn start_sync(&mut self) -> (res: Result<SyncAction, SyncError>)
        ensures
            final(self).peers() == old(self).peers(),
            final(self).active() == old(self).active(),
            final(self).queue() == old(self).queue(),
            final(self).in_flight() == old(self).in_flight(),
            old(self).state().status is Idle ==> Some(final(self).state().status) == old(
                self,
            ).state().status.next(),
            !(old(self).state().status is Idle) ==> {
                &&& res matches Err(e)
                &&& e is AlreadySyncing
                &&& final(self).state() == old(self).state()
            },
            old(self).state().status is Idle ==> {
                &&& res matches Ok(action)
                &&& action is WaitForPeers
                &&& final(self).state() == (SyncState {
                    status: SyncStatus::DiscoveringPeers,
                    ..old(self).state()
                })
            },
    {
        if !self.state.status.is_idle() {
            return Err(SyncError::AlreadySyncing);
        }
        self.state.status = SyncStatus::DiscoveringPeers;
        Ok(SyncAction::WaitForPeers)
    }

    /// Looks for peers to synchronise with, once the node has waited: up to
    /// five valid peers count as connected. Without a valid peer the cycle
    /// cannot go on.
    pub fn discover_peers(&mut self) -> (res: Result<(), SyncError>)
        requires
            old(self).state().status is DiscoveringPeers,
        ensures
            final(self).peers() == old(self).peers(),
            final(self).active() == old(self).active(),
            final(self).queue() == old(self).queue(),
            final(self).in_flight() == old(self).in_flight(),
            valid_peers(old(self).peers()).len() == 0 ==> {
                &&& res matches Err(e)
                &&& e is NoPeers
                &&& final(self).state() == old(self).state()
            },
            valid_peers(old(self).peers()).len() > 0 ==> {
                &&& res is Ok
                &&& final(self).state() == (SyncState {
                    peers_connected: best_peers(old(self).peers(), 5).len() as usize,
                    ..old(self).state()
                })
            },
    {
        let peers = self.get_best_peers(5);
        if peers.len() == 0 {
            return Err(SyncError::NoPeers);
        }
        self.state.peers_connected = peers.len();
        Ok(())
    }

    /// Moves on to the fetching of headers and names the peers to ask: up
    /// to three valid ones. A peer that fails to answer is passed over by
    /// the node; the cycle goes on.
    pub fn fetch_headers(&mut self) -> (action: SyncAction)
        requires
            old(self).state().status is DiscoveringPeers,
        ensures
            Some(final(self).state().status) == old(self).state().status.next(),
            final(self).peers() == old(self).peers(),
            final(self).active() == old(self).active(),
            final(self).queue() == old(self).queue(),
            final(self).in_flight() == old(self).in_flight(),
            final(self).state() == (SyncState {
                status: SyncStatus::FetchingHeaders,
                ..old(self).state()
            }),
            action matches SyncAction::RequestHeaders { peers, locator } && peers@ == best_peers(
                old(self).peers(),
                3,
            ) && locator.hashes@.len() == 0 && locator.stop_hash@ == Seq::new(64, |i: int| 0u8),
    {
        self.state.status = SyncStatus::FetchingHeaders;
        let locator = Self::create_block_locator();
        let peers = self.get_best_peers(3);
        SyncAction::RequestHeaders { peers, locator }
    }

    /// The locator of a node that knows no block yet.
    pub fn create_block_locator() -> (locator: BlockLocator)
        ensures
            locator.hashes@.len() == 0,
            locator.stop_hash@ == Seq::new(64, |i: int| 0u8),
    {
        BlockLocator::new(Vec::new(), BlockHash::zero())
    }

    /// Moves on to the download and hands out the first blocks to fetch:
    /// up to `max_count` from the front of the queue.
    pub fn download_blocks(&mut self, max_count: usize) -> (blocks: Vec<
        BlockHash,
    >)
        requires
            old(self).state().status is FetchingHeaders,
        ensures
            Some(final(self).state().status) == old(self).state().status.next(),
            final(self).peers() == old(self).peers(),
            final(self).active() == old(self).active(),
            final(self).in_flight() == old(self).in_flight(),
            final(self).state() == (SyncState {
                status: SyncStatus::DownloadingBlocks,
                ..old(self).state()
            }),
            handed_out(old(self).queue(), final(self).queue(), blocks@, max_count),
    {
        self.state.status = SyncStatus::DownloadingBlocks;
        self.get_blocks_for_download(max_count)
    }

    /// Whether a block is queued or in flight.
    pub fn is_block_known(&self, block_hash: &BlockHash) -> (known: bool)
        ensures
            known == (holds_hash(self.queue(), block_hash@) || holds_hash(
                self.in_flight(),
                block_hash@,
            )),
    {
        let mut i: usize = 0;
        while i < self.block_queue.len()
            invariant
                i <= self.block_queue.len(),
                forall|j: int| 0 <= j < i ==> (#[trigger] self.block_queue@[j])@ != block_hash@,
            decreases self.block_queue.len() - i,
        {
            if self.block_queue[i].same(block_hash) {
                return true;
            }
            i += 1;
        }
        self.is_requested(block_hash)
    }

    fn is_requested(&self, block_hash: &BlockHash) -> (requested: bool)
        ensures
            requested == holds_hash(self.requested_blocks@, block_hash@),
    {
        let mut i: usize = 0;
        while i < self.requested_blocks.len()
            invariant
                i <= self.requested_blocks.len(),
                forall|j: int|
                    0 <= j < i ==> (#[trigger] self.requested_blocks@[j])@ != block_hash@,
            decreases self.requested_blocks.len() - i,
        {
            if self.requested_blocks[i].same(block_hash) {
                return true;
            }
            i += 1;
        }
        false
    }

    /// Marks a block as requested. Returns whether the node is to request
    /// it: not where it is in flight already.
    pub fn download_block(&mut self, block_hash: BlockHash) -> (request: bool)
        ensures
            final(self).state() == old(self).state(),
            final(self).peers() == old(self).peers(),
            final(self).active() == old(self).active(),
            final(self).queue() == old(self).queue(),
            request == !holds_hash(old(self).in_flight(), block_hash@),
            final(self).in_flight() == if request {
                old(self).in_flight().push(block_hash)
            } else {
                old(self).in_flight()
            },
            distinct_hashes(old(self).in_flight()) ==> distinct_hashes(final(self).in_flight()),
    {
        if self.is_requested(&block_hash) {
            return false;
        }
        self.requested_blocks.push(block_hash);
        proof {
            let before = old(self).requested_blocks@;
            let after = self.requested_blocks@;
            if distinct_hashes(before) {
                assert forall|i: int, j: int| 0 <= i < j < after.len() implies (
                #[trigger] after[i])@ != (#[trigger] after[j])@ by {
                    assert(after[i] == before[i]);
                    if j < before.len() {
                        assert(after[j] == before[j]);
                    }
                }
            }
        }
        true
    }

    fn forget_request(&mut self, block_hash: &BlockHash)
        ensures
            final(self).state == old(self).state,
            final(self).known_peers == old(self).known_peers,
            final(self).active_peers == old(self).active_peers,
            final(self).block_queue == old(self).block_queue,
            final(self).requested_blocks@ == without_hash(old(self).requested_blocks@, block_hash@),
            !holds_hash(final(self).requested_blocks@, block_hash@),
            distinct_hashes(old(self).requested_blocks@) ==> distinct_hashes(
                final(self).requested_blocks@,
            ),
    {
        proof {
            lemma_without_hash(self.requested_blocks@, block_hash@);
        }
        let mut kept: Vec<BlockHash> = Vec::new();
        let mut i: usize = 0;
        while i < self.requested_blocks.len()
            invariant
                i <= self.requested_blocks.len(),
                kept@ == without_hash(self.requested_blocks@.take(i as int), block_hash@),
            decreases self.requested_blocks.len() - i,
        {
            assert(self.requested_blocks@.take(i + 1).drop_last() =~= self.requested_blocks@.take(
                i as int,
            ));
            if !self.requested_blocks[i].same(block_hash) {
                kept.push(self.requested_blocks[i]);
            }
            i += 1;
        }
        assert(self.requested_blocks@.take(i as int) =~= self.requested_blocks@);
        self.requested_blocks = kept;
    }

    /// Records that a block arrived and was taken in: it is no longer in
    /// flight, it counts as downloaded, and the progress follows where the
    /// target height is known.
    pub fn process_block(&mut self, block_hash: BlockHash)
        requires
            old(self).state().blocks_downloaded < u64::MAX,
        ensures
            final(self).peers() == old(self).peers(),
            final(self).active() == old(self).active(),
            final(self).queue() == old(self).queue(),
            final(self).in_flight() == without_hash(old(self).in_flight(), block_hash@),
            !holds_hash(final(self).in_flight(), block_hash@),
            distinct_hashes(old(self).in_flight()) ==> distinct_hashes(final(self).in_flight()),
            final(self).state() == (SyncState {
                blocks_downloaded: (old(self).state().blocks_downloaded + 1) as u64,
                progress: if old(self).state().target_height > 0 {
                    progress_of(
                        (old(self).state().blocks_downloaded + 1) as u64,
                        old(self).state().target_height,
                    )
                } else {
                    old(self).state().progress
                },
                ..old(self).state()
            }),
    {
        self.forget_request(&block_hash);
        self.state.blocks_downloaded = self.state.blocks_downloaded + 1;
        if self.state.target_height > 0 {
            let share: u128 = self.state.blocks_downloaded as u128 * 10_000
                / self.state.target_height as u128;
            self.state.progress =
            if share > u64::MAX as u128 {
                u64::MAX
            } else {
                share as u64
            };
        }
    }

    /// Records that a block did not arrive: it is no longer in flight.
    pub fn block_failed(&mut self, block_hash: BlockHash)
        ensures
            final(self).state() == old(self).state(),
            final(self).peers() == old(self).peers(),
            final(self).active() == old(self).active(),
            final(self).queue() == old(self).queue(),
            final(self).in_flight() == without_hash(old(self).in_flight(), block_hash@),
            !holds_hash(final(self).in_flight(), block_hash@),
            distinct_hashes(old(self).in_flight()) ==> distinct_hashes(final(self).in_flight()),
    {
        self.forget_request(&block_hash);
    }

    /// Moves on from the download to the verification.
    pub fn verify_blocks(&mut self)
        requires
            old(self).state().status is DownloadingBlocks,
        ensures
            Some(final(self).state().status) == old(self).state().status.next(),
            final(self).peers() == old(self).peers(),
            final(self).active() == old(self).active(),
            final(self).queue() == old(self).queue(),
            final(self).in_flight() == old(self).in_flight(),
            final(self).state() == (SyncState {
                status: SyncStatus::VerifyingBlocks,
                ..old(self).state()
            }),
    {
        self.state.status = SyncStatus::VerifyingBlocks;
    }

    /// Ends the cycle: the manager is `Completed` and the progress is full.
    pub fn complete_sync(&mut self)
        requires
            old(self).state().status is VerifyingBlocks,
        ensures
            Some(final(self).state().status) == old(self).state().status.next(),
            final(self).peers() == old(self).peers(),
            final(self).active() == old(self).active(),
            final(self).queue() == old(self).queue(),
            final(self).in_flight() == old(self).in_flight(),
            final(self).state() == (SyncState {
                status: SyncStatus::Completed,
                progress: FULL_PROGRESS,
                ..old(self).state()
            }),
    {
        self.state.status = SyncStatus::Completed;
        self.state.progress = FULL_PROGRESS;
    }

    /// Takes the next step of the cycle, whatever the stage, and says what
    /// the node has to do before the step after it.
    ///
    /// An idle manager begins a cycle. After the wait for peers the peers
    /// are counted and headers requested; without a valid peer the step
    /// fails and the stage stays. After the headers the first blocks are
    /// handed out, `max_count` at most, and then more as long as blocks
    /// wait; once none waits the blocks are to be verified, and after that
    /// the cycle is over. A manager whose cycle is over, or that stands in
    /// an error, takes no step.
    pub fn advance(&mut self, max_count: usize) -> (res: Result<SyncAction, SyncError>)
        ensures
            final(self).peers() == old(self).peers(),
            final(self).active() == old(self).active(),
            final(self).in_flight() == old(self).in_flight(),
            res is Ok ==> Some(final(self).state().status) == old(self).state().status.next()
                || (old(self).state().status is DownloadingBlocks && final(self).state().status
                is DownloadingBlocks),
            res is Err ==> final(self).state() == old(self).state() && final(self).queue() == old(
                self,
            ).queue(),
            match old(self).state().status {
                SyncStatus::Idle => {
                    &&& res matches Ok(action)
                    &&& action is WaitForPeers
                    &&& final(self).queue() == old(self).queue()
                    &&& final(self).state() == (SyncState {
                        status: SyncStatus::DiscoveringPeers,
                        ..old(self).state()
                    })
                },
                SyncStatus::DiscoveringPeers => if valid_peers(old(self).peers()).len() == 0 {
                    res matches Err(e) && e is NoPeers
                } else {
                    &&& res matches Ok(SyncAction::RequestHeaders { peers, locator })
                    &&& peers@ == best_peers(old(self).peers(), 3)
                    &&& locator.hashes@.len() == 0
                    &&& locator.stop_hash@ == Seq::new(64, |i: int| 0u8)
                    &&& final(self).queue() == old(self).queue()
                    &&& final(self).state() == (SyncState {
                        status: SyncStatus::FetchingHeaders,
                        peers_connected: best_peers(old(self).peers(), 5).len() as usize,
                        ..old(self).state()
                    })
                },
                SyncStatus::FetchingHeaders => {
                    &&& res matches Ok(SyncAction::DownloadBlocks(blocks))
                    &&& handed_out(old(self).queue(), final(self).queue(), blocks@, max_count)
                    &&& final(self).state() == (SyncState {
                        status: SyncStatus::DownloadingBlocks,
                        ..old(self).state()
                    })
                },
                SyncStatus::DownloadingBlocks => if old(self).queue().len() == 0 {
                    &&& res matches Ok(action)
                    &&& action is VerifyBlocks
                    &&& final(self).queue() == old(self).queue()
                    &&& final(self).state() == (SyncState {
                        status: SyncStatus::VerifyingBlocks,
                        ..old(self).state()
                    })
                } else {
                    &&& res matches Ok(SyncAction::DownloadBlocks(blocks))
                    &&& handed_out(old(self).queue(), final(self).queue(), blocks@, max_count)
                    &&& final(self).state() == old(self).state()
                },
                SyncStatus::VerifyingBlocks => {
                    &&& res matches Ok(action)
                    &&& action is Finished
                    &&& final(self).queue() == old(self).queue()
                    &&& final(self).state() == (SyncState {
                        status: SyncStatus::Completed,
                        progress: FULL_PROGRESS,
                        ..old(self).state()
                    })
                },
                SyncStatus::Completed => res matches Err(e) && e is AlreadySyncing,
                SyncStatus::Error(_) => res matches Err(e) && e is AlreadySyncing,
            },
    {
        match self.state.status {
            SyncStatus::Idle => self.start_sync(),
            SyncStatus::DiscoveringPeers => {
                match self.discover_peers() {
                    Ok(()) => Ok(self.fetch_headers()),
                    Err(e) => Err(e),
                }
            },
            SyncStatus::FetchingHeaders => Ok(
                SyncAction::DownloadBlocks(self.download_blocks(max_count)),
            ),
            SyncStatus::DownloadingBlocks => {
                if self.block_queue.len() == 0 {
                    self.verify_blocks();
                    Ok(SyncAction::VerifyBlocks)
                } else {
                    Ok(SyncAction::DownloadBlocks(self.get_blocks_for_download(max_count)))
                }
            },
            SyncStatus::VerifyingBlocks => {
                self.complete_sync();
                Ok(SyncAction::Finished)
            },
            SyncStatus::Completed => Err(SyncError::AlreadySyncing),
            SyncStatus::Error(_) => Err(SyncError::AlreadySyncing),
        }
    }

    /// Makes a manager that completed its cycle idle again.
    pub fn reset(&mut self)
        requires
            old(self).state().status is Completed,
        ensures
            final(self).peers() == old(self).peers(),
            final(self).active() == old(self).active(),
            final(self).queue() == old(self).queue(),
            final(self).in_flight() == old(self).in_flight(),
            final(self).state() == (SyncState { status: SyncStatus::Idle, ..old(self).state() }),
    {
        self.state.status = SyncStatus::Idle;
    }

    /// Takes an inventory in: every announced block that is neither queued
    /// nor in flight joins the queue.
    pub fn handle_inv_message(&mut self, inv: InvMessage, peer_id: &str) -> (res: Result<
        (),
        SyncError,
    >)
        ensures
            res is Ok,
            final(self).state() == old(self).state(),
            final(self).peers() == old(self).peers(),
            final(self).active() == old(self).active(),
            final(self).in_flight() == old(self).in_flight(),
            final(self).queue() == with_announced(
                old(self).queue(),
                old(self).in_flight(),
                inv.items@,
            ),
    {
        let mut i: usize = 0;
        while i < inv.items.len()
            invariant
                i <= inv.items.len(),
                self.state == old(self).state,
                self.known_peers == old(self).known_peers,
                self.active_peers == old(self).active_peers,
                self.requested_blocks == old(self).requested_blocks,
                self.block_queue@ == with_announced(
                    old(self).block_queue@,
                    old(self).requested_blocks@,
                    inv.items@.take(i as int),
                ),
            decreases inv.items.len() - i,
        {
            assert(inv.items@.take(i + 1).drop_last() =~= inv.items@.take(i as int));
            let item = inv.items[i];
            if item.kind == INV_BLOCK {
                if !self.is_block_known(&item.hash) {
                    self.block_queue.push_back(item.hash);
                }
            }
            i += 1;
        }
        assert(inv.items@.take(i as int) =~= inv.items@);
        Ok(())
    }

    /// Takes up to `max_count` blocks from the front of the queue.
    pub fn get_blocks_for_download(&mut self, max_count: usize) -> (blocks: Vec<
        BlockHash,
    >)
        ensures
            final(self).state() == old(self).state(),
            final(self).peers() == old(self).peers(),
            final(self).active() == old(self).active(),
            final(self).in_flight() == old(self).in_flight(),
            handed_out(old(self).queue(), final(self).queue(), blocks@, max_count),
    {
        let mut blocks: Vec<BlockHash> = Vec::new();
        while blocks.len() < max_count && self.block_queue.len() > 0
            invariant
                self.state == old(self).state,
                self.known_peers == old(self).known_peers,
                self.active_peers == old(self).active_peers,
                self.requested_blocks == old(self).requested_blocks,
                blocks@.len() <= max_count,
                blocks@.len() <= old(self).block_queue@.len(),
                blocks@ == old(self).block_queue@.take(blocks@.len() as int),
                self.block_queue@ == old(self).block_queue@.skip(blocks@.len() as int),
            decreases self.block_queue@.len(),
        {
            let ghost taken = blocks@.len() as int;
            match self.block_queue.pop_front() {
                Some(block_hash) => {
                    blocks.push(block_hash);
                    assert(blocks@ =~= old(self).block_queue@.take(taken + 1));
                    assert(self.block_queue@ =~= old(self).block_queue@.skip(taken + 1));
                },
                None => {},
            }
        }
        blocks
    }
}

/// Starts cycles at a fixed interval.
#[derive(Debug, Clone, Copy)]
pub struct SyncScheduler {
    /// Seconds between two ticks.
    pub interval_secs: u64,
}

impl SyncScheduler {
    pub fn new(interval_secs: u64) -> (scheduler: Self)
        ensures
            scheduler.interval_secs == interval_secs,
    {
        SyncScheduler { interval_secs }
    }

    /// One tick: a manager that completed its cycle becomes idle again, and
    /// an idle manager begins a cycle. A manager in the middle of a cycle is
    /// left alone.
    pub fn tick(&self, manager: &mut SyncManager) -> (action: Option<SyncAction>)
        ensures
            final(manager).peers() == old(manager).peers(),
            final(manager).active() == old(manager).active(),
            final(manager).queue() == old(manager).queue(),
            final(manager).in_flight() == old(manager).in_flight(),
            old(manager).state().status is Idle || old(manager).state().status is Completed ==> {
                &&& action matches Some(first)
                &&& first is WaitForPeers
                &&& final(manager).state() == (SyncState {
                    status: SyncStatus::DiscoveringPeers,
                    ..old(manager).state()
                })
            },
            !(old(manager).state().status is Idle || old(manager).state().status is Completed)
                ==> {
                &&& action is None
                &&& final(manager).state() == old(manager).state()
            },
    {
        let state = manager.get_state();
        if state.status.is_completed() {
            manager.reset();
        }
        let state = manager.get_state();
        if state.status.is_idle() {
            match manager.start_sync() {
                Ok(action) => Some(action),
                Err(_) => None,
            }
        } else {
            None
        }
    }
}

} // verus!
