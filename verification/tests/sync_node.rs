use metanode::node::committee::{
    Authority, Candidate, Committee, ValidatorInfo, ValidatorInfoSimple,
};
use metanode::node::committee_source::EpochBoundary;
use metanode::node::executor_client::responses::BlockData;
use metanode::node::rust_sync_node::block_queue::BlockQueue;
use metanode::node::rust_sync_node::commit::{
    attach_blocks, collect_block_refs, keep_readable, BlockRef, Commit, CommitData, VerifiedBlock,
};
use metanode::node::rust_sync_node::fetch::{
    fetch_from_index, peers_of, plan_fetch, queue_commits, FetchPlan, HedgeStep, HedgedFetch,
    QueueOutcome,
};
use metanode::node::rust_sync_node::fetch_run::{FetchAction, FetchRun, GlobalCommit};
use metanode::node::rust_sync_node::peer_blocks::{
    PeerBlocksAction, PeerBlocksError, PeerBlocksEvent, PeerBlocksFetch,
};
use metanode::node::rust_sync_node::process::{ProcessAction, ProcessEvent, ProcessRun, SendRun};
use metanode::node::rust_sync_node::sync_round::{SyncAction, SyncEvent, SyncRound};
use metanode::node::rust_sync_node::{
    initial_queue_index, FetchSource, LeaderLookup, RustSyncConfig, RustSyncNode, SyncPacer,
};
use metanode::node::sync::PeerBoundary;
use metanode::node::PendingEpochTransition;

const BLS: &str = "k+ArYFJxn2B9rNOgiCdPZVlr0NCZILYatdphu9x/UEkzTPESE5RdV+WsfQVdBCt+AkqisvCPCpEmCAUnLcUQUcbketT6QDsCtFELZHrj0XcLrAMmqAW779SAVsjBIb24";
const ED: &str = "11qYAYKxCrfVS/7TyWQHOg7hcvPapiMlrwIaaPcHURo=";

fn block_ref(round: u32, author: u32, digest: u8) -> BlockRef {
    BlockRef { round, author, digest: vec![digest] }
}

fn commit(index: u32, global: u64, blocks: Vec<BlockRef>) -> Commit {
    Commit {
        index,
        global_exec_index: global,
        timestamp_ms: 0,
        leader: block_ref(index, 0, 0),
        blocks,
    }
}

fn data(global: u64) -> CommitData {
    CommitData { commit: commit(global as u32, global, vec![]), blocks: vec![], epoch: 1 }
}

fn indices(v: &[CommitData]) -> Vec<u64> {
    v.iter().map(|d| d.commit.global_exec_index).collect()
}

fn committee(n: u8) -> Committee {
    Committee {
        epoch: 1,
        authorities: (0..n)
            .map(|k| Authority {
                stake: 1,
                address: format!("/dns/host{}/tcp/90", k),
                hostname: String::new(),
                authority_key: vec![],
                protocol_key: vec![k],
                network_key: vec![k],
            })
            .collect(),
    }
}

fn validator(address: &str, authority_key: &str) -> ValidatorInfo {
    ValidatorInfo {
        name: String::new(),
        address: address.to_string(),
        stake: "1".to_string(),
        protocol_key: ED.to_string(),
        network_key: ED.to_string(),
        authority_key: authority_key.to_string(),
        description: String::new(),
        website: String::new(),
        image: String::new(),
        commission_rate: 0,
        min_self_delegation: String::new(),
        accumulated_rewards_per_share: String::new(),
        p2p_address: String::new(),
    }
}

fn boundary(epoch: u64, block: u64, n: usize) -> EpochBoundary {
    EpochBoundary {
        epoch,
        timestamp_ms: 1,
        boundary_block: block,
        validators: (0..n)
            .map(|i| Candidate { info: validator(&format!("/dns/v{}", i), BLS), address_ok: true })
            .collect(),
    }
}

fn node(next: u32) -> RustSyncNode {
    RustSyncNode::new(1, next, 10)
}

#[test]
fn queues_hand_out_in_sequence() {
    let mut q = BlockQueue::new(5);
    for i in [7u64, 5, 4, 6, 9] {
        q.push(data(i));
    }
    assert_eq!(q.pending_count(), 4);
    assert!(!q.is_pending(4));
    assert_eq!(indices(&q.drain_ready()), vec![5, 6, 7]);
    assert_eq!((q.next_expected(), q.pending_count()), (8, 1));
    // What was handed out is not taken again, nor is a second commit.
    q.push(data(6));
    let mut other = data(9);
    other.epoch = 2;
    q.push(other);
    q.push(data(8));
    let ready = q.drain_ready();
    assert_eq!(indices(&ready), vec![8, 9]);
    assert_eq!(ready[1].epoch, 1);
}

#[test]
fn queues_follow_the_executor() {
    let mut q = BlockQueue::new(5);
    for i in [5u64, 6, 20] {
        q.push(data(i));
    }
    q.sync_with_go(10);
    assert_eq!((q.next_expected(), q.pending_count()), (11, 1));
    // Slightly ahead is normal.
    q.sync_with_go(5);
    assert_eq!(q.next_expected(), 11);
    let mut q = BlockQueue::new(200);
    for i in [200u64, 1000, 1098, 1099, 5000] {
        q.push(data(i));
    }
    q.sync_with_go(98);
    assert_eq!((q.next_expected(), q.pending_count()), (99, 3));
    assert!(q.is_pending(1098) && !q.is_pending(1099));
}

#[test]
fn plans_follow_the_epoch() {
    assert_eq!(plan_fetch(150, 3, 100, 500), FetchPlan::Local { start: 51, end: 550 });
    assert_eq!(plan_fetch(100, 3, 100, 500), FetchPlan::Local { start: 1, end: 500 });
    assert_eq!(plan_fetch(50, 1, 100, 500), FetchPlan::Local { start: 51, end: 550 });
    assert_eq!(plan_fetch(50, 3, 100, 500), FetchPlan::Global { start: 50, end: 550 });
    assert_eq!(fetch_from_index(1), 0);
    assert_eq!(fetch_from_index(0x1_0000_0001), 0);
    assert_eq!(peers_of(&committee(3), Some(&[1])), vec![0, 2]);
    assert_eq!(peers_of(&committee(3), None), vec![0, 1, 2]);
}

#[test]
fn peers_race() {
    assert!(HedgedFetch::new(vec![], 1).is_none());
    let mut h = HedgedFetch::new(vec![4, 5, 6], 7).unwrap();
    assert_eq!(h.primary_peer(), 5);
    assert_eq!(h.on_timer(), vec![4, 6]);
    assert_eq!(h.on_timer(), Vec::<u32>::new());
    assert!(matches!(h.on_failure(), HedgeStep::Wait));
    assert!(matches!(h.on_failure(), HedgeStep::Wait));
    assert!(matches!(h.on_failure(), HedgeStep::GiveUp));
    let mut h = HedgedFetch::new(vec![4, 5], 0).unwrap();
    match h.on_failure() {
        HedgeStep::Ask(v) => assert_eq!(v, vec![5]),
        _ => panic!("the other peer is asked"),
    }
    assert!(matches!(h.on_failure(), HedgeStep::GiveUp));
    let mut h = HedgedFetch::new(vec![4], 0).unwrap();
    assert!(matches!(h.on_failure(), HedgeStep::GiveUp));
}

#[test]
fn references_are_asked_for_once() {
    let a = block_ref(2, 1, 5);
    let b = block_ref(1, 9, 9);
    let c = block_ref(2, 1, 4);
    let commits = vec![
        commit(1, 1, vec![a.clone(), b.clone()]),
        commit(2, 2, vec![c.clone(), a.clone()]),
    ];
    let refs = collect_block_refs(&commits);
    let keys: Vec<(u32, u32, u8)> = refs.iter().map(|r| (r.round, r.author, r.digest[0])).collect();
    assert_eq!(keys, vec![(1, 9, 9), (2, 1, 4), (2, 1, 5)]);
    let blocks = vec![
        VerifiedBlock { reference: a.clone(), transactions: vec![vec![1]] },
        VerifiedBlock { reference: a.clone(), transactions: vec![vec![2]] },
    ];
    let found = attach_blocks(&vec![b, a], &blocks);
    assert_eq!(found.len(), 1);
    assert_eq!(found[0].transactions, vec![vec![2]]);
    assert_eq!(keep_readable(vec![None, Some(commits[0].clone())]).len(), 1);
}

#[test]
fn commits_are_queued_or_shown_to_be_elsewhere() {
    let mut q = BlockQueue::new(2000);
    assert_eq!(queue_commits(&mut q, vec![data(999)]), QueueOutcome::EpochMismatch);
    assert_eq!(queue_commits(&mut q, vec![data(1000)]), QueueOutcome::Pushed(1));
    assert_eq!(q.pending_count(), 0);
    assert_eq!(
        queue_commits(&mut q, vec![data(2011)]),
        QueueOutcome::Gap { start: 2000, end: 2010 }
    );
    assert_eq!(queue_commits(&mut q, vec![data(2010), data(5000)]), QueueOutcome::Pushed(2));
    assert_eq!(q.pending_count(), 2);
    assert_eq!(queue_commits(&mut q, vec![]), QueueOutcome::Pushed(0));
}

#[test]
fn a_fetch_ends_in_the_queue() {
    let mut q = BlockQueue::new(11);
    let (mut run, a) = FetchRun::start(&committee(3), Some(&[0]), 10, 1, 10, 500);
    match a {
        FetchAction::AskCommits { peers, start, end } => {
            assert_eq!((peers, start, end), (vec![2], 1, 500))
        }
        _ => panic!("the primary peer is asked"),
    }
    assert_eq!(run.on_timer(), vec![1]);
    let c = commit(1, 11, vec![block_ref(1, 1, 1)]);
    match run.on_commits(&mut q, 1, vec![Some(c), None]) {
        FetchAction::AskBlocks { peer, refs } => assert_eq!((peer, refs.len()), (1, 1)),
        _ => panic!("the blocks are asked for"),
    }
    let block = VerifiedBlock { reference: block_ref(1, 1, 1), transactions: vec![vec![7]] };
    let a = run.on_blocks(&mut q, Some(vec![None, Some(block)]));
    assert!(matches!(a, FetchAction::Done { pushed: 1 }));
    let ready = q.drain_ready();
    assert_eq!((ready[0].blocks.len(), ready[0].epoch), (1, 1));
}

#[test]
fn a_fetch_falls_back_to_global_indices() {
    let mut q = BlockQueue::new(11);
    let (mut run, _) = FetchRun::start(&committee(2), None, 10, 1, 10, 500);
    assert!(matches!(run.on_peer_failed(), FetchAction::AskCommits { .. }));
    // A peer without commits has failed too.
    match run.on_commits(&mut q, 1, vec![]) {
        FetchAction::AskGlobal { peer, start, end } => assert_eq!((peer, start, end), (0, 10, 510)),
        _ => panic!("nobody had the commits"),
    }
    assert!(matches!(run.on_global(&mut q, None), FetchAction::AskGlobal { peer: 1, .. }));
    let answer = vec![
        GlobalCommit { epoch: 4, commit: Some(commit(1, 11, vec![])) },
        GlobalCommit { epoch: 4, commit: None },
    ];
    let a = run.on_global(&mut q, Some(answer));
    assert!(matches!(a, FetchAction::Done { pushed: 1 }));
    assert_eq!(q.drain_ready()[0].epoch, 4);
    // Between epochs there is no index in the epoch.
    let (mut run, a) = FetchRun::start(&committee(1), None, 5, 3, 10, 500);
    assert!(matches!(a, FetchAction::AskGlobal { peer: 0, start: 5, end: 505 }));
    assert!(matches!(run.on_global(&mut q, Some(vec![])), FetchAction::Done { pushed: 0 }));
    let (_, a) = FetchRun::start(&committee(1), Some(&[0]), 10, 1, 10, 500);
    assert!(matches!(a, FetchAction::Done { pushed: 0 }));
    // A gap before the first commit is fetched by global index.
    let (mut run, _) = FetchRun::start(&committee(1), None, 10, 1, 10, 500);
    let a = run.on_commits(&mut q, 0, vec![Some(commit(50, 60, vec![]))]);
    assert!(matches!(a, FetchAction::AskGlobal { peer: 0, start: 12, end: 59 }));
}

#[test]
fn blocks_come_from_executors_of_peers() {
    let mut n = node(11);
    let (_, a) = PeerBlocksFetch::start(0, 11, 100);
    match a {
        PeerBlocksAction::Fail(e) => assert_eq!(e.message(), "No peer addresses configured"),
        _ => panic!("nobody to ask"),
    }
    let (mut f, a) = PeerBlocksFetch::start(2, 11, 100);
    assert!(matches!(a, PeerBlocksAction::AskPeer { peer: 0, from: 11, to: 110 }));
    let a = f.on_event(&mut n, PeerBlocksEvent::Blocks(Some(vec![])));
    assert!(matches!(a, PeerBlocksAction::AskPeer { peer: 1, .. }));
    let b = |block_number, epoch| BlockData { block_number, epoch, data: vec![] };
    let blocks = vec![b(11, 1), b(12, 2), b(13, 2)];
    let a = f.on_event(&mut n, PeerBlocksEvent::Blocks(Some(blocks)));
    assert!(matches!(a, PeerBlocksAction::AskBoundary { epoch: 2, announce: None }));
    match f.on_event(&mut n, PeerBlocksEvent::Boundary(Some((77, 11)))) {
        PeerBlocksAction::SyncBlocks { announce } => assert_eq!(
            announce,
            Some(PendingEpochTransition { epoch: 2, timestamp_ms: 77, boundary_block: 11 })
        ),
        _ => panic!("the blocks are handed over"),
    }
    assert_eq!(n.current_epoch, 2);
    let a = f.on_event(&mut n, PeerBlocksEvent::Synced(Some(3)));
    assert!(matches!(a, PeerBlocksAction::Done { synced: 3 }));
    let (mut f, _) = PeerBlocksFetch::start(1, 11, 100);
    match f.on_event(&mut n, PeerBlocksEvent::Blocks(None)) {
        PeerBlocksAction::Fail(e) => assert_eq!(e.message(), "All peers failed to provide blocks"),
        _ => panic!("all have failed"),
    }
    let (mut f, _) = PeerBlocksFetch::start(1, 11, 100);
    f.on_event(&mut n, PeerBlocksEvent::Blocks(Some(vec![b(11, 1)])));
    match f.on_event(&mut n, PeerBlocksEvent::Synced(None)) {
        PeerBlocksAction::Fail(e) => {
            assert_eq!(e, PeerBlocksError::NotTaken);
            assert_eq!(e.message(), "Failed to sync blocks to local Go");
        }
        _ => panic!("the blocks were not taken"),
    }
}

const ADDRESS: &str = "0x0102030405060708090a0b0c0d0e0f1011121314";

#[test]
fn commits_go_with_the_address_of_their_leader() {
    let mut n = node(11).with_peer_rpc_addresses(vec!["p".to_string()]);
    n.block_queue.push(data(11));
    n.block_queue.push(data(12));
    let (mut p, a) = ProcessRun::start(&mut n);
    assert!(matches!(a, ProcessAction::AskExecutor { epoch: 1 }));
    let a = p.on_event(&mut n, ProcessEvent::ExecutorValidators(None));
    assert!(matches!(a, ProcessAction::AskPeer { peer: 0, epoch: 1 }));
    let a = p.on_event(&mut n, ProcessEvent::PeerValidators(None));
    assert!(matches!(a, ProcessAction::Pause));
    let a = p.on_event(&mut n, ProcessEvent::Paused);
    assert!(matches!(a, ProcessAction::AskExecutor { epoch: 1 }));
    p.on_event(&mut n, ProcessEvent::ExecutorValidators(None));
    let simple = |address: &str, authority_key: &str| ValidatorInfoSimple {
        name: String::new(),
        address: address.to_string(),
        stake: 1,
        protocol_key: String::new(),
        network_key: String::new(),
        authority_key: authority_key.to_string(),
    };
    let b = PeerBoundary {
        epoch: 1,
        timestamp_ms: 0,
        boundary_block: 0,
        validators: vec![simple("0xff", "z"), simple(ADDRESS, "a")],
        error: None,
    };
    match p.on_event(&mut n, ProcessEvent::PeerValidators(Some(b))) {
        ProcessAction::Send { leader_address } => assert_eq!(leader_address[..2], [1, 2]),
        _ => panic!("the commit is sent"),
    }
    assert!(matches!(n.lookup_leader(1, 1), LeaderLookup::Invalid));
    assert!(matches!(n.lookup_leader(1, 9), LeaderLookup::Invalid));
    assert!(matches!(n.lookup_leader(2, 0), LeaderLookup::NotCached));
    assert!(matches!(p.on_event(&mut n, ProcessEvent::Sent(true)), ProcessAction::Send { .. }));
    let a = p.on_event(&mut n, ProcessEvent::Sent(false));
    assert!(matches!(a, ProcessAction::Done { sent: 1 }));
    // The commit that was not taken waits again and is the next one.
    assert_eq!((n.block_queue.next_expected(), n.block_queue.pending_count()), (12, 1));
    assert!(matches!(p.on_event(&mut n, ProcessEvent::Paused), ProcessAction::Ignore));
    n.block_queue.push(data(13));
    let (mut p, _) = ProcessRun::start(&mut n);
    assert_eq!(indices(&p.run.ready), vec![12, 13]);
    p.on_event(&mut n, ProcessEvent::Sent(true));
    let a = p.on_event(&mut n, ProcessEvent::Sent(true));
    assert!(matches!(a, ProcessAction::Done { sent: 2 }));
    let mut q = BlockQueue::new(1);
    q.push(data(1));
    assert_eq!(SendRun::start(&mut q).current().unwrap().commit.index, 1);
}

#[test]
fn unprocessed_commits_are_queued_again() {
    let mut q = BlockQueue::new(5);
    for i in [5u64, 6, 7, 8, 20] {
        q.push(data(i));
    }
    let mut run = SendRun::start(&mut q);
    run.on_sent();
    assert_eq!(run.requeue_rest(&mut q), 1);
    assert_eq!((q.next_expected(), q.pending_count()), (6, 4));
    assert_eq!(indices(&q.drain_ready()), vec![6, 7, 8]);
    q.take_back(vec![]);
    assert_eq!(q.next_expected(), 9);
}

#[test]
fn epoch_changes_wait_for_their_boundary() {
    let mut n = node(11);
    let t = |epoch, boundary_block| PendingEpochTransition { epoch, timestamp_ms: 0, boundary_block };
    let mut pending = vec![t(2, 50), t(3, 80)];
    let due = n.take_due_transitions(&mut pending, 60);
    assert_eq!(due, vec![t(2, 50)]);
    assert_eq!(pending, vec![t(3, 80)]);
    assert_eq!((n.current_epoch, n.epoch_base_index), (3, 80));
    assert_eq!(n.on_advance_result(t(2, 50), false, &mut pending), None);
    assert_eq!(pending, vec![t(3, 80), t(2, 50)]);
    assert_eq!(n.on_advance_result(t(3, 80), true, &mut pending), Some(t(3, 80)));
    assert_eq!(n.note_block_epoch(3, Some((1, 2))), None);
    assert_eq!(n.note_block_epoch(4, None), None);
    assert!(n.note_block_epoch(4, Some((1, 2))).is_some());
    assert_eq!(n.current_epoch, 4);
}

#[test]
fn rounds_follow_the_executor() {
    let mut n = node(11).with_network(committee(2));
    let mut r = SyncRound::new();
    assert!(matches!(r.first_action(), SyncAction::AskLastBlock));
    assert!(matches!(r.on_event(&mut n, SyncEvent::LastBlock(Some(30))), SyncAction::AskEpoch));
    let a = r.on_event(&mut n, SyncEvent::Epoch(Some(2)));
    assert!(matches!(a, SyncAction::AskBoundary { epoch: 2 }));
    match r.on_event(&mut n, SyncEvent::Boundary(Some(boundary(2, 25, 3)))) {
        SyncAction::Fetch(s) => assert_eq!(s, FetchSource::Commits { from: 30 }),
        _ => panic!("commits are fetched"),
    }
    assert_eq!((n.current_epoch, n.epoch_base_index), (2, 25));
    assert_eq!(n.committee.as_ref().unwrap().size(), 3);
    assert_eq!(n.block_queue.next_expected(), 31);
    assert!(matches!(r.on_event(&mut n, SyncEvent::Fetched), SyncAction::Process));
    let a = r.on_event(&mut n, SyncEvent::Processed);
    assert!(matches!(a, SyncAction::CheckPending { last: 30 }));
    // In the same epoch only the size of the committee counts.
    let mut r = SyncRound::new();
    r.on_event(&mut n, SyncEvent::LastBlock(Some(30)));
    r.on_event(&mut n, SyncEvent::Epoch(Some(2)));
    r.on_event(&mut n, SyncEvent::Boundary(Some(boundary(2, 99, 4))));
    assert_eq!((n.committee.as_ref().unwrap().size(), n.epoch_base_index), (4, 25));
    let mut r = SyncRound::new();
    assert!(matches!(r.on_event(&mut n, SyncEvent::LastBlock(None)), SyncAction::Fail));
}

#[test]
fn broken_records_are_repaired() {
    let mut n = node(11).with_network(committee(2));
    n.epoch_base_index = 100;
    let start = |n: &mut RustSyncNode| {
        let mut r = SyncRound::new();
        r.on_event(n, SyncEvent::LastBlock(Some(30)));
        let a = r.on_event(n, SyncEvent::Epoch(Some(0)));
        assert!(matches!(a, SyncAction::AskBoundary { epoch: 1 }));
        r
    };
    let mut r = start(&mut n);
    match r.on_event(&mut n, SyncEvent::Boundary(Some(boundary(1, 100, 0)))) {
        SyncAction::AskPeers { addresses } => {
            assert_eq!(addresses, vec!["host0:8000".to_string(), "host1:8000".to_string()])
        }
        _ => panic!("the peers are asked"),
    }
    let a = r.on_event(&mut n, SyncEvent::BestPeer(Some(1)));
    assert!(matches!(a, SyncAction::AskPeerBoundary { epoch: 1 }));
    let a = r.on_event(&mut n, SyncEvent::PeerBoundary(Some(120)));
    assert!(matches!(a, SyncAction::Fetch(_)));
    assert_eq!(n.epoch_base_index, 120);
    let mut r = start(&mut n);
    let a = r.on_event(&mut n, SyncEvent::Boundary(Some(boundary(1, 20, 0))));
    assert!(matches!(a, SyncAction::Fetch(_)));
    assert_eq!(n.epoch_base_index, 20);
    assert!(!n.needs_repair(30) && n.needs_repair(19));
}

#[test]
fn blocks_are_fetched_from_someone() {
    let n = node(11);
    assert_eq!(n.fetch_source(), FetchSource::NoPeers);
    let n = n.with_peer_rpc_addresses(vec!["10.0.0.1:19000".to_string()]);
    assert_eq!(n.get_peer_go_addresses(), vec!["10.0.0.1:19000".to_string()]);
    assert_eq!(n.member_addresses(), Vec::<String>::new());
    assert_eq!(n.fetch_source(), FetchSource::PeerBlocks { from: 11, batch: 2000 });
    let mut n = n;
    n.committee = Some(committee(1));
    assert_eq!(n.fetch_source(), FetchSource::PeerBlocks { from: 11, batch: 2000 });
    n.committee.as_mut().unwrap().authorities[0].address = "nowhere".to_string();
    assert_eq!(n.fetch_source(), FetchSource::NoPeers);
    n.has_network = true;
    assert_eq!(n.fetch_source(), FetchSource::Commits { from: 10 });
    n.committee = None;
    assert_eq!(n.fetch_source(), FetchSource::NoCommittee);
    assert_eq!(initial_queue_index(None), 1);
    assert_eq!(initial_queue_index(Some(41)), 42);
}

#[test]
fn rounds_are_paced() {
    let c = RustSyncConfig::default();
    assert_eq!((c.fetch_batch_size, c.turbo_batch_size, c.fetch_timeout_secs), (500, 2000, 30));
    let mut p = SyncPacer::new();
    assert_eq!(p.choose_pause(0, 3, 3, &c), 2000);
    assert_eq!(p.choose_pause(1, 3, 3, &c), 50);
    assert_eq!(p.choose_pause(0, 3, 4, &c), 50);
    for _ in 0..4 {
        assert!(!p.note_round(false));
    }
    assert!(p.note_round(false));
    assert_eq!(p.consecutive_errors, 0);
    p.note_round(false);
    p.note_round(true);
    assert_eq!(p.consecutive_errors, 0);
}
