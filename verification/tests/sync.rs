use btpc_quantum_resistant_chain::network::protocol::{
    BlockHash, InvEntry, InvMessage, PeerInfo, ProtocolError, PublicKeyBuiltin, INV_BLOCK,
    INV_TRANSACTION, PROTOCOL_VERSION,
};
use btpc_quantum_resistant_chain::network::sync::{
    BlockLocator, SyncAction, SyncError, SyncManager, SyncScheduler, SyncStatus, FULL_PROGRESS,
};

fn peer(address: &str) -> PeerInfo {
    PeerInfo::seen_at(
        address.to_string(),
        PublicKeyBuiltin { key: [3u8; 32] },
        "test/1.0".to_string(),
        1_700_000_000,
    )
}

fn hash(byte: u8) -> BlockHash {
    BlockHash::from_bytes([byte; 64])
}

fn block(byte: u8) -> InvEntry {
    InvEntry { kind: INV_BLOCK, hash: hash(byte) }
}

#[test]
fn new_manager_is_idle() {
    let manager = SyncManager::new();
    let state = manager.get_state();
    assert_eq!(state.status, SyncStatus::Idle);
    assert_eq!(state.progress, 0);
    assert_eq!(state.current_height, 0);
    assert_eq!(state.target_height, 0);
    assert_eq!(state.peers_connected, 0);
    assert_eq!(state.blocks_downloaded, 0);
    assert!(state.start_time > 1_600_000_000);
    assert_eq!(SyncManager::started_at(9).get_state().start_time, 9);
}

#[test]
fn start_sync_only_when_idle() {
    let mut manager = SyncManager::started_at(0);
    assert!(matches!(manager.start_sync(), Ok(SyncAction::WaitForPeers)));
    assert_eq!(manager.get_state().status, SyncStatus::DiscoveringPeers);
    assert!(matches!(manager.start_sync(), Err(SyncError::AlreadySyncing)));
    assert_eq!(manager.get_state().status, SyncStatus::DiscoveringPeers);
}

#[test]
fn no_peers_no_sync() {
    let mut manager = SyncManager::started_at(0);
    manager.start_sync().unwrap();
    assert!(matches!(manager.discover_peers(), Err(SyncError::NoPeers)));
    assert_eq!(manager.get_state().status, SyncStatus::DiscoveringPeers);
    // a peer that is not valid does not count
    let mut stale = peer("10.0.0.1:8333");
    stale.last_seen = 0;
    manager.add_peer(stale);
    assert!(matches!(manager.discover_peers(), Err(SyncError::NoPeers)));
    manager.add_peer(peer("10.0.0.2:8333"));
    assert!(manager.discover_peers().is_ok());
    assert_eq!(manager.get_state().peers_connected, 1);
}

#[test]
fn full_cycle_completes() {
    let mut manager = SyncManager::started_at(0);
    for i in 0..7 {
        manager.add_peer(peer(&format!("10.0.0.{}:8333", i)));
    }
    manager.update_state(0, 4, 0, 0);
    manager
        .handle_inv_message(
            InvMessage { items: vec![block(1), block(2), block(3), block(4)] },
            "peer",
        )
        .unwrap();
    assert!(matches!(manager.start_sync(), Ok(SyncAction::WaitForPeers)));
    manager.discover_peers().unwrap();
    assert_eq!(manager.get_state().peers_connected, 5);
    match manager.fetch_headers() {
        SyncAction::RequestHeaders { peers, locator } => {
            assert_eq!(peers.len(), 3);
            assert_eq!(peers[0].address, "10.0.0.0:8333");
            assert!(locator.hashes.is_empty());
            assert_eq!(locator.stop_hash, BlockHash::zero());
        },
        _ => panic!("no headers to request"),
    }
    assert_eq!(manager.get_state().status, SyncStatus::FetchingHeaders);
    let batch = manager.download_blocks(3);
    assert_eq!(batch, vec![hash(1), hash(2), hash(3)]);
    assert_eq!(manager.get_state().status, SyncStatus::DownloadingBlocks);
    for (done, block_hash) in batch.into_iter().enumerate() {
        assert!(manager.download_block(block_hash));
        assert!(!manager.download_block(block_hash));
        manager.process_block(block_hash);
        let state = manager.get_state();
        assert_eq!(state.blocks_downloaded, done as u64 + 1);
        assert_eq!(state.progress, (done as u64 + 1) * 2_500);
    }
    assert_eq!(manager.get_blocks_for_download(10), vec![hash(4)]);
    assert!(manager.download_block(hash(4)));
    manager.block_failed(hash(4));
    assert!(manager.download_block(hash(4)));
    manager.process_block(hash(4));
    assert_eq!(manager.get_state().progress, FULL_PROGRESS);
    manager.verify_blocks();
    assert_eq!(manager.get_state().status, SyncStatus::VerifyingBlocks);
    manager.complete_sync();
    let state = manager.get_state();
    assert_eq!(state.status, SyncStatus::Completed);
    assert_eq!(state.progress, 10_000);
    assert!(matches!(manager.start_sync(), Err(SyncError::AlreadySyncing)));
}

#[test]
fn completed_cycle_without_blocks_is_full() {
    let mut manager = SyncManager::started_at(0);
    manager.add_peer(peer("10.0.0.1:8333"));
    manager.start_sync().unwrap();
    manager.discover_peers().unwrap();
    manager.fetch_headers();
    assert!(manager.download_blocks(16).is_empty());
    manager.verify_blocks();
    manager.complete_sync();
    assert_eq!(manager.get_state().status, SyncStatus::Completed);
    assert_eq!(manager.get_state().progress, FULL_PROGRESS);
}

#[test]
fn scheduler_starts_idle_and_completed_managers() {
    let scheduler = SyncScheduler::new(5);
    assert_eq!(scheduler.interval_secs, 5);
    let mut manager = SyncManager::started_at(0);
    manager.add_peer(peer("10.0.0.1:8333"));
    assert!(matches!(scheduler.tick(&mut manager), Some(SyncAction::WaitForPeers)));
    assert_eq!(manager.get_state().status, SyncStatus::DiscoveringPeers);
    // in the middle of a cycle the tick does nothing
    assert!(scheduler.tick(&mut manager).is_none());
    manager.discover_peers().unwrap();
    manager.fetch_headers();
    assert!(scheduler.tick(&mut manager).is_none());
    assert_eq!(manager.get_state().status, SyncStatus::FetchingHeaders);
    manager.download_blocks(1);
    manager.verify_blocks();
    manager.complete_sync();
    // the next tick begins a new cycle
    assert!(matches!(scheduler.tick(&mut manager), Some(SyncAction::WaitForPeers)));
    assert_eq!(manager.get_state().status, SyncStatus::DiscoveringPeers);
}

#[test]
fn inventory_joins_the_queue_once() {
    let mut manager = SyncManager::started_at(0);
    let inv = InvMessage {
        items: vec![
            block(1),
            InvEntry { kind: INV_TRANSACTION, hash: hash(9) },
            block(2),
            block(1),
            InvEntry { kind: 7, hash: hash(8) },
        ],
    };
    assert!(manager.handle_inv_message(inv, "peer").is_ok());
    assert!(manager.is_block_known(&hash(1)));
    assert!(manager.is_block_known(&hash(2)));
    assert!(!manager.is_block_known(&hash(9)));
    assert!(!manager.is_block_known(&hash(8)));
    // a block in flight is not queued again
    assert_eq!(manager.get_blocks_for_download(1), vec![hash(1)]);
    assert!(manager.download_block(hash(1)));
    manager.handle_inv_message(InvMessage { items: vec![block(1), block(3)] }, "peer").unwrap();
    assert_eq!(manager.get_blocks_for_download(10), vec![hash(2), hash(3)]);
    assert!(manager.get_blocks_for_download(10).is_empty());
    assert!(manager.get_blocks_for_download(0).is_empty());
}

#[test]
fn queue_hands_out_in_order_and_loses_nothing() {
    let mut manager = SyncManager::started_at(0);
    let items: Vec<InvEntry> = (1..=5u8).map(block).collect();
    manager.handle_inv_message(InvMessage { items }, "peer").unwrap();
    assert_eq!(manager.get_blocks_for_download(2), vec![hash(1), hash(2)]);
    assert_eq!(manager.get_blocks_for_download(2), vec![hash(3), hash(4)]);
    assert_eq!(manager.get_blocks_for_download(2), vec![hash(5)]);
}

#[test]
fn peers_are_kept_by_identifier() {
    let mut manager = SyncManager::started_at(0);
    let first = peer("10.0.0.1:8333");
    let second = peer("10.0.0.2:8333");
    manager.add_peer(first.clone());
    manager.add_peer(second.clone());
    let mut renewed = first.clone();
    renewed.last_seen = 5;
    renewed.user_agent = "test/2.0".to_string();
    manager.add_peer(renewed.clone());
    assert_eq!(manager.get_best_peers(10), vec![renewed.clone(), second.clone()]);
    assert_eq!(manager.get_best_peers(1), vec![renewed]);
    assert!(manager.get_best_peers(0).is_empty());
    manager.mark_peer_active(&first.id());
    manager.mark_peer_active(&first.id());
    manager.remove_peer(&first.id());
    assert_eq!(manager.get_best_peers(10), vec![second]);
    manager.remove_peer("unknown");
    assert_eq!(manager.get_best_peers(10).len(), 1);
}

#[test]
fn best_peers_are_the_first_valid_ones() {
    let mut manager = SyncManager::started_at(0);
    for i in 0..6u32 {
        let mut p = peer(&format!("10.0.0.{}:8333", i));
        if i % 2 == 0 {
            p.version = PROTOCOL_VERSION - 1;
        }
        manager.add_peer(p);
    }
    let best = manager.get_best_peers(2);
    assert_eq!(best.len(), 2);
    assert_eq!(best[0].address, "10.0.0.1:8333");
    assert_eq!(best[1].address, "10.0.0.3:8333");
    assert_eq!(manager.get_best_peers(5).len(), 3);
}

#[test]
fn progress_follows_the_target() {
    let mut manager = SyncManager::started_at(0);
    manager.process_block(hash(1));
    assert_eq!(manager.get_state().blocks_downloaded, 1);
    assert_eq!(manager.get_state().progress, 0);
    manager.update_state(10, 3, 500, 60);
    let state = manager.get_state();
    assert_eq!((state.current_height, state.target_height), (10, 3));
    assert_eq!((state.bytes_transferred, state.estimated_time_remaining), (500, 60));
    assert_eq!(state.blocks_downloaded, 1);
    manager.process_block(hash(2));
    assert_eq!(manager.get_state().progress, 6_666);
    manager.process_block(hash(3));
    manager.process_block(hash(4));
    assert_eq!(manager.get_state().progress, 13_333);
}

#[test]
fn locator_and_errors() {
    let locator = BlockLocator::new(vec![hash(1), hash(2)], hash(9));
    let message = locator.to_getblocks(PROTOCOL_VERSION);
    assert_eq!(message.version, 1);
    assert_eq!(message.block_locator_hashes, vec![hash(1), hash(2)]);
    assert_eq!(message.hash_stop, hash(9));
    assert_eq!(SyncError::NoPeers.message(), "No peers available for synchronization");
    assert_eq!(SyncError::AlreadySyncing.message(), "Already synchronizing");
    assert_eq!(SyncError::Timeout.message(), "Synchronization timeout");
    assert_eq!(SyncError::InvalidChain.message(), "Invalid blockchain");
    assert_eq!(SyncError::DatabaseError("disk".to_string()).message(), "Database error: disk");
    assert_eq!(
        SyncError::from_protocol(ProtocolError::Timeout).message(),
        "Protocol error: Timeout"
    );
    assert_eq!(SyncStatus::Error("x".to_string()).duplicate(), SyncStatus::Error("x".to_string()));
}

#[test]
fn advance_runs_a_whole_cycle() {
    let mut manager = SyncManager::started_at(0);
    manager.add_peer(peer("10.0.0.1:8333"));
    manager.update_state(0, 3, 0, 0);
    manager
        .handle_inv_message(InvMessage { items: vec![block(1), block(2), block(3)] }, "peer")
        .unwrap();
    assert!(matches!(manager.advance(2), Ok(SyncAction::WaitForPeers)));
    assert_eq!(manager.get_state().status, SyncStatus::DiscoveringPeers);
    match manager.advance(2) {
        Ok(SyncAction::RequestHeaders { peers, .. }) => assert_eq!(peers.len(), 1),
        _ => panic!("no headers to request"),
    }
    assert_eq!(manager.get_state().status, SyncStatus::FetchingHeaders);
    assert_eq!(manager.get_state().peers_connected, 1);
    let mut seen = vec![];
    loop {
        match manager.advance(2) {
            Ok(SyncAction::DownloadBlocks(blocks)) => {
                assert_eq!(manager.get_state().status, SyncStatus::DownloadingBlocks);
                assert!(blocks.len() <= 2);
                for block_hash in blocks {
                    assert!(manager.download_block(block_hash));
                    manager.process_block(block_hash);
                    seen.push(block_hash);
                }
            },
            Ok(SyncAction::VerifyBlocks) => break,
            _ => panic!("the download went wrong"),
        }
    }
    assert_eq!(seen, vec![hash(1), hash(2), hash(3)]);
    assert_eq!(manager.get_state().status, SyncStatus::VerifyingBlocks);
    assert!(matches!(manager.advance(2), Ok(SyncAction::Finished)));
    let state = manager.get_state();
    assert_eq!(state.status, SyncStatus::Completed);
    assert_eq!(state.progress, 10_000);
    assert_eq!(state.blocks_downloaded, 3);
    assert!(matches!(manager.advance(2), Err(SyncError::AlreadySyncing)));
    assert_eq!(manager.get_state().status, SyncStatus::Completed);
}

#[test]
fn advance_without_peers_stays() {
    let mut manager = SyncManager::started_at(0);
    manager.advance(1).unwrap();
    assert!(matches!(manager.advance(1), Err(SyncError::NoPeers)));
    assert!(matches!(manager.advance(1), Err(SyncError::NoPeers)));
    assert_eq!(manager.get_state().status, SyncStatus::DiscoveringPeers);
    manager.add_peer(peer("10.0.0.1:8333"));
    assert!(manager.advance(1).is_ok());
}
