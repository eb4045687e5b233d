use metanode::node::block_coordinator::{
    BlockCoordinator, BlockSource, CoordinatorConfig, CoordinatorStats, DrainStep, QueuedBlock,
};
use metanode::node::NodeMode;

fn block(index: u64, source: BlockSource, data: Vec<u8>) -> QueuedBlock {
    QueuedBlock {
        global_exec_index: index,
        commit_index: index,
        epoch: 0,
        data,
        source,
        received_at: 0,
    }
}

fn coordinator() -> BlockCoordinator {
    BlockCoordinator::new(1, CoordinatorConfig::default())
}

#[test]
fn test_deduplication_consensus_wins() {
    let mut coordinator = coordinator();
    let sync_block = block(1, BlockSource::Sync, vec![1, 2, 3]);
    assert!(coordinator.push_block(sync_block));
    let consensus_block = block(1, BlockSource::Consensus, vec![4, 5, 6]);
    assert!(coordinator.push_block(consensus_block));
    let drained = coordinator.drain_ready();
    assert_eq!(drained.len(), 1);
    assert_eq!(drained[0].source, BlockSource::Consensus);
    assert_eq!(drained[0].data, vec![4, 5, 6]);
}

#[test]
fn test_sequential_drain() {
    let mut coordinator = coordinator();
    for idx in [3u64, 1, 2] {
        coordinator.push_block(block(idx, BlockSource::Consensus, vec![idx as u8]));
    }
    let drained = coordinator.drain_ready();
    assert_eq!(drained.len(), 3);
    assert_eq!(drained[0].global_exec_index, 1);
    assert_eq!(drained[1].global_exec_index, 2);
    assert_eq!(drained[2].global_exec_index, 3);
}

#[test]
fn test_gap_stops_drain() {
    let mut coordinator = coordinator();
    for idx in [1u64, 2, 5, 6] {
        coordinator.push_block(block(idx, BlockSource::Consensus, vec![idx as u8]));
    }
    let drained = coordinator.drain_ready();
    assert_eq!(drained.len(), 2);
    assert_eq!(coordinator.next_expected(), 3);
    assert_eq!(coordinator.queue_size(), 2);
}

#[test]
fn sync_does_not_replace_consensus() {
    let mut c = coordinator();
    assert!(c.push_block(block(1, BlockSource::Consensus, vec![4])));
    assert!(!c.push_block(block(1, BlockSource::Sync, vec![1])));
    let drained = c.drain_ready();
    assert_eq!(drained[0].data, vec![4]);
    assert_eq!(
        c.get_stats(),
        CoordinatorStats {
            blocks_from_consensus: 1,
            blocks_from_sync: 0,
            blocks_deduplicated: 1,
            gaps_detected: 0,
            gaps_filled: 0,
        }
    );
}

#[test]
fn drained_block_is_not_taken_again() {
    let mut c = coordinator();
    c.push_block(block(1, BlockSource::Consensus, vec![1]));
    c.drain_ready();
    assert!(!c.push_block(block(1, BlockSource::Consensus, vec![1])));
    assert_eq!(c.queue_size(), 0);
    assert_eq!(c.get_stats().blocks_deduplicated, 0);
}

#[test]
fn standby_takes_only_gap_fillers() {
    let mut c = coordinator();
    c.set_sync_standby(true);
    assert!(c.is_sync_standby());
    // An empty queue takes anything.
    assert!(c.push_block(block(4, BlockSource::Sync, vec![])));
    // 6 lies behind the first block of the queue, 2 before it.
    assert!(!c.push_block(block(6, BlockSource::Sync, vec![])));
    assert!(c.push_block(block(2, BlockSource::Sync, vec![])));
    assert!(c.push_block(block(6, BlockSource::Consensus, vec![])));
    assert_eq!(c.queue_size(), 3);
}

#[test]
fn batch_limit_is_kept() {
    let config = CoordinatorConfig { gap_threshold: 5, max_drain_batch: 2, gap_fill_timeout_secs: 1 };
    let mut c = BlockCoordinator::new(1, config);
    for i in 1..=5u64 {
        c.push_block(block(i, BlockSource::Consensus, vec![1]));
    }
    assert_eq!(c.drain_ready().len(), 2);
    assert_eq!(c.next_expected(), 3);
    let config = CoordinatorConfig { gap_threshold: 5, max_drain_batch: 0, gap_fill_timeout_secs: 1 };
    let mut c = BlockCoordinator::new(1, config);
    c.push_block(block(1, BlockSource::Consensus, vec![1]));
    c.push_block(block(2, BlockSource::Consensus, vec![1]));
    assert_eq!(c.drain_ready().len(), 1);
}

#[test]
fn gaps_are_reported_beyond_the_threshold() {
    let mut c = coordinator().with_gap_fill_channel();
    c.push_block(block(6, BlockSource::Consensus, vec![1]));
    assert_eq!(c.check_and_fill_gaps(), None);
    let mut c = coordinator().with_gap_fill_channel();
    c.push_block(block(7, BlockSource::Consensus, vec![1]));
    assert_eq!(c.check_and_fill_gaps(), Some((1, 7)));
    assert_eq!(c.get_stats().gaps_detected, 1);
    // Without someone to report to nothing is counted.
    let mut c = coordinator();
    c.push_block(block(7, BlockSource::Consensus, vec![1]));
    assert_eq!(c.check_and_fill_gaps(), None);
    assert_eq!(c.get_stats().gaps_detected, 0);
}

#[test]
fn following_the_executor_drops_old_blocks() {
    let mut c = coordinator();
    for i in [1u64, 2, 3, 9] {
        c.push_block(block(i, BlockSource::Consensus, vec![1]));
    }
    c.sync_with_go(2);
    assert_eq!(c.next_expected(), 3);
    assert_eq!(c.queue_size(), 2);
    // Going back keeps what is queued.
    c.sync_with_go(0);
    assert_eq!(c.next_expected(), 1);
    assert_eq!(c.queue_size(), 2);
}

#[test]
fn processed_blocks_do_not_stop_the_drain() {
    let mut c = coordinator();
    c.push_block(block(1, BlockSource::Consensus, vec![1]));
    c.push_block(block(2, BlockSource::Consensus, vec![2]));
    c.set_next_expected(2);
    let drained = c.drain_ready();
    assert_eq!(drained.len(), 1);
    assert_eq!(drained[0].global_exec_index, 2);
    assert_eq!((c.next_expected(), c.queue_size()), (3, 0));
}

#[test]
fn two_blocks_of_one_index_grow_the_queue_by_one() {
    for consensus_first in [true, false] {
        let mut c = coordinator();
        c.push_block(block(9, BlockSource::Sync, vec![]));
        let k = block(4, BlockSource::Consensus, vec![1]);
        let s = block(4, BlockSource::Sync, vec![2]);
        let before = c.queue_size();
        let (first, second) = if consensus_first { (k, s) } else { (s, k) };
        assert!(c.push_block(first));
        assert_eq!(c.push_block(second), !consensus_first);
        assert_eq!(c.queue_size(), before + 1);
        c.set_next_expected(4);
        assert_eq!(c.drain_ready()[0].data, vec![1]);
    }
}

#[test]
fn drain_step_sends_or_reports() {
    let mut c = coordinator().with_gap_fill_channel();
    c.set_mode(NodeMode::Validator);
    assert!(matches!(c.drain_step(), DrainStep::Idle(None)));
    c.push_block(block(20, BlockSource::Sync, vec![]));
    assert!(matches!(c.drain_step(), DrainStep::Idle(Some((1, 20)))));
    c.push_block(block(1, BlockSource::Sync, vec![7]));
    match c.drain_step() {
        DrainStep::Send(v) => {
            assert_eq!(v.len(), 1);
            assert!(!v[0].is_marker());
        }
        DrainStep::Idle(_) => panic!("a block is ready"),
    }
}

#[test]
fn texts_of_blocks() {
    assert_eq!(BlockSource::Consensus.to_text(), "Consensus");
    assert_eq!(BlockSource::Sync.to_text(), "Sync");
    let b = block(12, BlockSource::Sync, vec![1, 2, 3]);
    assert_eq!(
        b.summary(),
        "QueuedBlock { global_exec_index: 12, commit_index: 12, epoch: 0, source: Sync, data_len: 3 }"
    );
    assert!(block(1, BlockSource::Sync, vec![]).is_marker());
}

#[test]
fn blocks_leave_in_sequence_whatever_comes() {
    let mut c = coordinator();
    let mut out = Vec::new();
    for (i, source) in [
        (2u64, BlockSource::Sync),
        (4, BlockSource::Consensus),
        (1, BlockSource::Sync),
        (1, BlockSource::Consensus),
        (2, BlockSource::Sync),
        (3, BlockSource::Consensus),
        (1, BlockSource::Consensus),
        (5, BlockSource::Sync),
    ] {
        c.push_block(block(i, source, vec![i as u8]));
        if i % 2 == 1 {
            out.extend(c.drain_ready().iter().map(|b| b.global_exec_index));
        }
    }
    assert_eq!(out, vec![1, 2, 3, 4, 5]);
    assert_eq!(c.next_expected(), 6);
}

#[test]
fn a_waiting_consensus_block_stays() {
    let mut c = coordinator();
    c.push_block(block(2, BlockSource::Consensus, vec![9]));
    c.push_block(block(2, BlockSource::Consensus, vec![8]));
    c.push_block(block(2, BlockSource::Sync, vec![7]));
    assert_eq!(c.drain_ready().len(), 0);
    c.push_block(block(1, BlockSource::Sync, vec![1]));
    let out = c.drain_ready();
    assert_eq!(out[1].data, vec![9]);
}
