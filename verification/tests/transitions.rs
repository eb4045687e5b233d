use metanode::node::committee::{decode_key, Authority, Committee, ValidatorInfo};
use metanode::node::consensus_node::{
    cleanup_at_start, consensus_db_path, detect_local_epoch, effective_tip, epoch_duration_secs,
    handoff_wait, initial_next_expected, legacy_epoch_to_load, needs_recovery_check, peer_tip,
    single_node_validators, ConsensusNode, EpochCleanup, ModeAction, StartError,
};
use metanode::node::node_start::{
    NodeStart, NodeStartAction, NodeStartError, NodeStartEvent, PeerReport, StartSettings,
};
use metanode::node::sync::BoundaryData;
use metanode::node::transition::epoch_transition::{
    classify_request, commit_wait_secs, target_commit_index, EpochRequest, EpochStart,
    EpochTransition, RequestKind, StartOutcome, TransitionAction, TransitionError,
    TransitionEvent, TransitionSettings,
};
use metanode::node::transition::mode_transition::{
    Demotion, DemotionAction, DemotionEvent, DemotionStep, DemotionWait, ModeEvent, ModeStep,
    ModeTransition, UpgradeStep, UpgradeWait,
};
use metanode::node::transition::tx_recovery::CommittedHashes;
use metanode::node::transition::verification::{
    agreed_timestamp, commit_wait_step, ready_step, snapshot_plan, SnapshotPlan, TimestampError,
    TimestampStep, TimestampSync, WaitStep,
};
use metanode::node::{NodeMode, PendingEpochTransition};

fn node(mode: NodeMode) -> ConsensusNode {
    ConsensusNode {
        node_mode: mode,
        current_epoch: 4,
        last_global_exec_index: 100,
        shared_last_global_exec_index: 120,
        current_commit_index: 20,
        own_index: 1,
        boot_counter: 0,
        executor_commit_enabled: true,
        is_transitioning: false,
        last_transition_hash: None,
        has_authority: mode == NodeMode::Validator,
        has_client: mode == NodeMode::Validator,
        has_sync_task: mode == NodeMode::SyncOnly,
        has_notification_server: false,
        has_epoch_monitor: true,
        execution_lock_epoch: 4,
        user_certs_open: true,
        protocol_key: vec![7],
        pending_transactions_queue: vec![],
        epoch_pending_transactions: vec![],
        committed_transaction_hashes: CommittedHashes::new(),
        pending_epoch_transitions: vec![],
    }
}

fn committee(keys: &[u8]) -> Committee {
    Committee {
        epoch: 5,
        authorities: keys
            .iter()
            .map(|k| Authority {
                stake: 1,
                address: String::new(),
                hostname: String::new(),
                authority_key: vec![],
                protocol_key: vec![*k],
                network_key: vec![],
            })
            .collect(),
    }
}

fn request() -> EpochRequest {
    EpochRequest { new_epoch: 5, boundary_block_from_tx: 119, synced_global_exec_index: 120 }
}

const SETTINGS: TransitionSettings = TransitionSettings { executor_read_enabled: true, fast: false };

fn begun(n: &mut ConsensusNode, settings: TransitionSettings) -> EpochTransition {
    match EpochTransition::start(n, request(), settings) {
        StartOutcome::Begun(t) => t,
        _ => panic!("a change"),
    }
}

fn up_to_boundary(n: &mut ConsensusNode) -> EpochTransition {
    let mut t = begun(n, SETTINGS);
    t.on_event(n, TransitionEvent::Announced);
    t.on_event(n, TransitionEvent::RoleKnown(true));
    t.on_event(n, TransitionEvent::Waited);
    t.on_event(n, TransitionEvent::SourceFound(Some(110)));
    let a = t.on_event(n, TransitionEvent::LastBlock(Some(90)));
    if a == (TransitionAction::StopAuthority { store_epoch: 4 }) {
        t.on_event(n, TransitionEvent::AuthorityStopped);
    }
    t.on_event(n, TransitionEvent::LastBlock(Some(120)));
    t.on_event(n, TransitionEvent::LastBlock(Some(121)));
    t.on_event(n, TransitionEvent::ClockSet(1000));
    t
}

#[test]
fn requests_are_classified() {
    assert_eq!(classify_request(NodeMode::SyncOnly, 4, 4), RequestKind::Upgrade);
    assert_eq!(classify_request(NodeMode::Validator, 4, 4), RequestKind::Skip);
    assert_eq!(classify_request(NodeMode::SyncOnly, 4, 3), RequestKind::Skip);
    assert_eq!(classify_request(NodeMode::SyncingUp, 4, 3), RequestKind::Skip);
    assert_eq!(classify_request(NodeMode::SyncOnly, 4, 5), RequestKind::Full);
    assert_eq!(target_commit_index(120, 100), 20);
    assert_eq!(target_commit_index(90, 100), 90);
    assert_eq!(target_commit_index(0x1_0000_0005, 0), 5);
    assert_eq!(commit_wait_secs(NodeMode::SyncOnly, true), 0);
    assert_eq!(commit_wait_secs(NodeMode::Validator, true), 5);
    assert_eq!(commit_wait_secs(NodeMode::Validator, false), 10);
}

#[test]
fn epochs_change_step_by_step() {
    let mut n = node(NodeMode::Validator);
    let mut t = begun(&mut n, SETTINGS);
    assert!(n.is_transitioning);
    assert_eq!(t.first_action(), TransitionAction::Announce { epoch: 5, boundary: 120 });
    assert_eq!(t.on_event(&mut n, TransitionEvent::Announced), TransitionAction::DetermineRole);
    assert_eq!(
        t.on_event(&mut n, TransitionEvent::RoleKnown(true)),
        TransitionAction::WaitCommits { target: 20, secs: 10 }
    );
    assert!(!n.user_certs_open);
    assert_eq!(t.on_event(&mut n, TransitionEvent::Waited), TransitionAction::DiscoverSource);
    let a = t.on_event(&mut n, TransitionEvent::SourceFound(Some(110)));
    assert_eq!(a, TransitionAction::AskLastBlock);
    let a = t.on_event(&mut n, TransitionEvent::LastBlock(Some(90)));
    assert_eq!(a, TransitionAction::StopAuthority { store_epoch: 4 });
    assert!(!n.has_authority);
    t.on_event(&mut n, TransitionEvent::AuthorityStopped);
    let a = t.on_event(&mut n, TransitionEvent::LastBlock(Some(119)));
    assert_eq!(a, TransitionAction::AskLastBlockAgain);
    let a = t.on_event(&mut n, TransitionEvent::LastBlock(Some(120)));
    assert_eq!(a, TransitionAction::AskLastBlock);
    let a = t.on_event(&mut n, TransitionEvent::LastBlock(Some(121)));
    assert_eq!(a, TransitionAction::SetClock { epoch: 5, present: true });
    assert_eq!(n.current_epoch, 4);
    let a = t.on_event(&mut n, TransitionEvent::ClockSet(1000));
    assert_eq!(a, TransitionAction::AskLastBlock);
    assert_eq!(
        t.on_event(&mut n, TransitionEvent::LastBlock(Some(120))),
        TransitionAction::Advance { epoch: 5, timestamp: 1000, boundary: 120 }
    );
    assert_eq!((n.current_epoch, n.execution_lock_epoch, n.current_commit_index), (5, 5, 0));
    assert_eq!((n.last_global_exec_index, n.shared_last_global_exec_index), (121, 121));
    let a = t.on_event(&mut n, TransitionEvent::Advanced);
    assert_eq!(a, TransitionAction::AskBoundary { epoch: 5 });
    let start = EpochStart { timestamp_ms: 1500, boundary_block: 120 };
    assert_eq!(
        t.on_event(&mut n, TransitionEvent::BoundaryKnown(Some(start))),
        TransitionAction::FetchCommittee { epoch: 5, timestamp: 1500, clock_changed: true }
    );
    assert_eq!(
        t.on_event(&mut n, TransitionEvent::ModeSet(true)),
        TransitionAction::StartValidator { epoch: 5, base: 120, timestamp: 1500 }
    );
    assert_eq!((n.boot_counter, n.has_authority, n.has_client), (1, true, true));
    assert_eq!(t.on_event(&mut n, TransitionEvent::Started(true)), TransitionAction::Recover);
    assert!(n.is_transitioning);
    assert_eq!(t.on_event(&mut n, TransitionEvent::Recovered), TransitionAction::SubmitQueued);
    assert!(!n.is_transitioning);
    assert_eq!(
        t.on_event(&mut n, TransitionEvent::Submitted { in_committee: true }),
        TransitionAction::Verify { epoch: 5, timestamp: 1500 }
    );
    assert!(n.user_certs_open);
    assert_eq!(t.on_event(&mut n, TransitionEvent::Upgraded), TransitionAction::Ignore);
}

#[test]
fn a_change_waits_for_the_executor() {
    let mut n = node(NodeMode::SyncOnly);
    let mut t = up_to_boundary(&mut n);
    let waiting = PendingEpochTransition { epoch: 5, timestamp_ms: 1000, boundary_block: 120 };
    let a = t.on_event(&mut n, TransitionEvent::LastBlock(None));
    assert_eq!(a, TransitionAction::Defer(waiting));
    assert_eq!(n.pending_epoch_transitions, vec![waiting]);
    // The node stays in its epoch, so the request leads to the change again.
    assert_eq!((n.current_epoch, n.execution_lock_epoch, n.is_transitioning), (4, 4, false));
    assert_eq!((n.last_global_exec_index, n.current_commit_index), (120, 0));
    assert_eq!(classify_request(n.node_mode, n.current_epoch, 5), RequestKind::Full);
    begun(&mut n, SETTINGS);
}

#[test]
fn a_node_that_does_not_vote_syncs() {
    let mut n = node(NodeMode::SyncOnly);
    let mut t = up_to_boundary(&mut n);
    t.on_event(&mut n, TransitionEvent::LastBlock(Some(130)));
    t.on_event(&mut n, TransitionEvent::Advanced);
    assert_eq!(
        t.on_event(&mut n, TransitionEvent::BoundaryKnown(None)),
        TransitionAction::FetchCommittee { epoch: 5, timestamp: 1000, clock_changed: false }
    );
    assert_eq!(
        t.on_event(&mut n, TransitionEvent::ModeSet(true)),
        TransitionAction::StartSync { epoch: 5, base: 121, timestamp: 1000 }
    );
    assert!(n.has_sync_task && !n.has_client);
    t.on_event(&mut n, TransitionEvent::Started(true));
    t.on_event(&mut n, TransitionEvent::Recovered);
    assert_eq!(
        t.on_event(&mut n, TransitionEvent::Submitted { in_committee: false }),
        TransitionAction::Verify { epoch: 5, timestamp: 1000 }
    );
}

#[test]
fn members_that_sync_become_validators() {
    let mut n = node(NodeMode::SyncOnly);
    let mut t = up_to_boundary(&mut n);
    t.on_event(&mut n, TransitionEvent::LastBlock(Some(130)));
    t.on_event(&mut n, TransitionEvent::Advanced);
    t.on_event(&mut n, TransitionEvent::BoundaryKnown(None));
    t.on_event(&mut n, TransitionEvent::ModeSet(true));
    t.on_event(&mut n, TransitionEvent::Started(true));
    t.on_event(&mut n, TransitionEvent::Recovered);
    assert_eq!(
        t.on_event(&mut n, TransitionEvent::Submitted { in_committee: true }),
        TransitionAction::Upgrade { epoch: 5, base: 121 }
    );
    assert!(!n.user_certs_open && !n.is_transitioning);
    assert_eq!(
        t.on_event(&mut n, TransitionEvent::Upgraded),
        TransitionAction::Verify { epoch: 5, timestamp: 1000 }
    );
    assert!(n.user_certs_open);
}

#[test]
fn changes_can_fail() {
    let fail = |e| TransitionAction::Fail(e);
    let mut n = node(NodeMode::Validator);
    let mut t = begun(&mut n, SETTINGS);
    t.on_event(&mut n, TransitionEvent::Announced);
    let a = t.on_event(&mut n, TransitionEvent::RoleKnown(false));
    assert_eq!(a, fail(TransitionError::Role));
    assert!(!n.is_transitioning);
    let mut t = begun(&mut n, TransitionSettings { executor_read_enabled: false, fast: true });
    t.on_event(&mut n, TransitionEvent::Announced);
    t.on_event(&mut n, TransitionEvent::RoleKnown(true));
    let a = t.on_event(&mut n, TransitionEvent::Waited);
    assert_eq!(a, fail(TransitionError::ExecutorReadDisabled));
    let mut t = begun(&mut n, SETTINGS);
    t.on_event(&mut n, TransitionEvent::Announced);
    t.on_event(&mut n, TransitionEvent::RoleKnown(true));
    t.on_event(&mut n, TransitionEvent::Waited);
    let a = t.on_event(&mut n, TransitionEvent::SourceFound(None));
    assert_eq!(a, fail(TransitionError::Source));
    let mut t = begun(&mut n, SETTINGS);
    t.on_event(&mut n, TransitionEvent::Announced);
    t.on_event(&mut n, TransitionEvent::RoleKnown(true));
    t.on_event(&mut n, TransitionEvent::Waited);
    t.on_event(&mut n, TransitionEvent::SourceFound(Some(1)));
    let a = t.on_event(&mut n, TransitionEvent::LastBlock(None));
    assert_eq!(a, fail(TransitionError::LastBlock));
    assert!(n.has_authority);
    let mut t = up_to_boundary(&mut n);
    t.on_event(&mut n, TransitionEvent::LastBlock(Some(130)));
    t.on_event(&mut n, TransitionEvent::Advanced);
    t.on_event(&mut n, TransitionEvent::BoundaryKnown(None));
    let a = t.on_event(&mut n, TransitionEvent::ModeSet(false));
    assert_eq!(a, fail(TransitionError::Committee));
    let mut n = node(NodeMode::Validator);
    let mut t = up_to_boundary(&mut n);
    t.on_event(&mut n, TransitionEvent::LastBlock(Some(130)));
    t.on_event(&mut n, TransitionEvent::Advanced);
    t.on_event(&mut n, TransitionEvent::BoundaryKnown(None));
    t.on_event(&mut n, TransitionEvent::ModeSet(true));
    let a = t.on_event(&mut n, TransitionEvent::Started(false));
    assert_eq!(a, fail(TransitionError::SetUp));
    n.is_transitioning = true;
    let later = EpochRequest { new_epoch: 9, ..request() };
    let r = EpochTransition::start(&mut n, later, SETTINGS);
    assert!(matches!(r, StartOutcome::Busy));
    assert!(!n.is_transitioning);
    let r = EpochTransition::start(&mut n, request(), SETTINGS);
    assert!(matches!(r, StartOutcome::Skip));
}

#[test]
fn modes_follow_the_committee() {
    let mut n = node(NodeMode::SyncOnly);
    assert_eq!(
        n.check_and_update_node_mode(&committee(&[1, 7])),
        vec![
            ModeAction::StopSync,
            ModeAction::ModeChanged,
            ModeAction::NotifyConsensusStart(101),
            ModeAction::RestartMonitor,
        ]
    );
    assert_eq!((n.node_mode, n.has_sync_task), (NodeMode::Validator, false));
    assert!(n.update_own_index(&committee(&[1, 7])));
    assert_eq!(n.own_index, 1);
    n.has_authority = true;
    assert_eq!(
        n.check_and_update_node_mode(&committee(&[1])),
        vec![
            ModeAction::StopAuthority,
            ModeAction::ModeChanged,
            ModeAction::NotifySyncStart(100),
            ModeAction::StartSync,
            ModeAction::StartMonitor,
        ]
    );
    assert_eq!((n.node_mode, n.has_authority), (NodeMode::SyncOnly, false));
    assert!(!n.update_own_index(&committee(&[1])));
    assert_eq!(n.own_index, 0);
    assert_eq!(n.check_and_update_node_mode(&committee(&[1])), vec![]);
    let mut waiting = node(NodeMode::SyncingUp);
    assert_eq!(
        waiting.check_and_update_node_mode(&committee(&[7])),
        vec![ModeAction::ModeChanged]
    );
    assert_eq!(handoff_wait(true, 5), None);
    assert_eq!(handoff_wait(false, 5), Some((4, 30)));
}

#[test]
fn transactions_are_taken_or_kept() {
    let mut n = node(NodeMode::Validator);
    let a = n.check_transaction_acceptance(true);
    assert_eq!((a.accept, a.queue, a.reason.as_str()), (true, false, "Node is ready"));
    let a = n.check_transaction_acceptance(false);
    assert_eq!((a.accept, a.queue, a.reason.as_str()), (false, true, "Reconfiguration in progress"));
    n.is_transitioning = true;
    let a = n.check_transaction_acceptance(true);
    assert_eq!((a.accept, a.queue, a.reason.as_str()), (false, true, "Epoch transition in progress"));
    n.last_transition_hash = Some(vec![]);
    let a = n.check_transaction_acceptance(true);
    assert_eq!((a.accept, a.queue), (false, false));
    assert_eq!(a.reason, "Epoch transition in progress: epoch 4 -> 5");
    n.has_authority = false;
    let a = n.check_transaction_acceptance(true);
    assert_eq!((a.accept, a.queue, a.reason.as_str()), (false, false, "Node is still initializing"));
    assert!(n.queue_transaction_for_next_epoch(vec![1]).is_some());
    assert_eq!(n.pending_transactions_queue, vec![vec![1]]);
    n.close_user_certs();
    assert!(!n.user_certs_open);
    n.reset_reconfig_state();
    assert!(n.user_certs_open);
    n.update_execution_lock_epoch(9);
    assert_eq!(n.execution_lock_epoch, 9);
}

#[test]
fn nodes_wait_to_become_validators() {
    let mut w = UpgradeWait::new(5, 100);
    assert_eq!(w.on_poll(Some(5), Some(99)), UpgradeStep::Wait);
    assert_eq!(w.on_poll(Some(6), Some(100)), UpgradeStep::Abort);
    let mut w = UpgradeWait::new(5, 100);
    assert_eq!(w.on_poll(None, Some(100)), UpgradeStep::Promote);
    let mut w = UpgradeWait::new(5, 100);
    for _ in 0..599 {
        assert_eq!(w.on_poll(None, None), UpgradeStep::Wait);
    }
    assert_eq!(w.on_poll(None, None), UpgradeStep::GiveUp);
    let mut d = DemotionWait::new(100);
    assert_eq!(d.on_poll(None), DemotionStep::Wait);
    assert_eq!(d.on_poll(Some(100)), DemotionStep::Reached);
    let mut d = DemotionWait { expected_block: 100, attempt: 5999 };
    assert_eq!(d.on_poll(Some(99)), DemotionStep::GiveUp);
}

#[test]
fn modes_change_within_an_epoch() {
    let mut n = node(NodeMode::SyncOnly);
    let mut t = ModeTransition::start(&mut n, 4, 130).unwrap();
    assert_eq!(t.first_step(), ModeStep::DiscoverSource);
    let a = t.on_event(&mut n, ModeEvent::SourceFound(true));
    assert_eq!(a, ModeStep::FetchCommittee { epoch: 4 });
    let a = t.on_event(&mut n, ModeEvent::CommitteeFetched(Some(77)));
    assert_eq!(a, ModeStep::TakeMode);
    assert_eq!(
        t.on_event(&mut n, ModeEvent::ModeTaken(Some(true))),
        ModeStep::StartAuthority { epoch: 4, base: 130, timestamp: 77, stop_sync: true }
    );
    assert!(n.has_authority && !n.has_sync_task && n.is_transitioning);
    assert_eq!((n.last_global_exec_index, n.boot_counter), (130, 1));
    assert_eq!(t.on_event(&mut n, ModeEvent::Started(true)), ModeStep::Done);
    assert!(!n.is_transitioning);

    let mut n = node(NodeMode::SyncOnly);
    let mut t = ModeTransition::start(&mut n, 4, 130).unwrap();
    t.on_event(&mut n, ModeEvent::SourceFound(true));
    t.on_event(&mut n, ModeEvent::CommitteeFetched(Some(77)));
    let a = t.on_event(&mut n, ModeEvent::ModeTaken(Some(false)));
    assert_eq!(a, ModeStep::RestartSync);
    assert!(!n.has_authority);
    assert_eq!(t.on_event(&mut n, ModeEvent::Started(false)), ModeStep::Fail);
    let mut t = ModeTransition::start(&mut n, 4, 130).unwrap();
    assert_eq!(t.on_event(&mut n, ModeEvent::SourceFound(false)), ModeStep::Fail);
    assert!(!n.is_transitioning);
    let mut t = ModeTransition::start(&mut n, 4, 130).unwrap();
    t.on_event(&mut n, ModeEvent::SourceFound(true));
    t.on_event(&mut n, ModeEvent::CommitteeFetched(Some(77)));
    assert_eq!(t.on_event(&mut n, ModeEvent::ModeTaken(None)), ModeStep::Fail);
    assert!(!n.is_transitioning);
    n.is_transitioning = true;
    assert!(ModeTransition::start(&mut n, 4, 130).is_none());
    assert!(!n.is_transitioning);
    n.is_transitioning = true;
    assert!(Demotion::start(&mut n, 6, 140, true).is_none());
    assert!(!n.is_transitioning);
    let n = node(NodeMode::SyncOnly);
    assert_eq!(n.check_promotion_eligibility(4, true), Some(4));
    assert_eq!(n.check_promotion_eligibility(5, true), None);
    assert_eq!(n.check_promotion_eligibility(4, false), None);
    assert_eq!(node(NodeMode::Validator).check_promotion_eligibility(4, true), None);
    assert!(n.needs_upgrade(true) && !n.needs_upgrade(false));
}

#[test]
fn nodes_leave_the_committee() {
    let mut n = node(NodeMode::Validator);
    let (mut d, a) = Demotion::start(&mut n, 6, 140, true).unwrap();
    assert_eq!(a, DemotionAction::StopAuthority);
    assert_eq!(d.on_event(&mut n, DemotionEvent::Stopped), DemotionAction::AskLastBlock);
    let a = d.on_event(&mut n, DemotionEvent::LastBlock(Some(99)));
    assert_eq!(a, DemotionAction::AskLastBlockAgain);
    let a = d.on_event(&mut n, DemotionEvent::LastBlock(Some(100)));
    assert_eq!(a, DemotionAction::StartSync { from: 140 });
    assert_eq!((n.node_mode, n.current_epoch, n.last_global_exec_index), (NodeMode::SyncOnly, 6, 140));
    assert_eq!(d.on_event(&mut n, DemotionEvent::Started), DemotionAction::Done);
    assert!(!n.is_transitioning && !n.has_authority);
    let (_, a) = Demotion::start(&mut n, 6, 140, false).unwrap();
    assert_eq!(a, DemotionAction::StartSync { from: 140 });
}

#[test]
fn start_times_are_agreed_on() {
    let mut t = TimestampSync::new(5, 50_000);
    assert_eq!(t.on_epoch(Some(4)), TimestampStep::Retry);
    assert_eq!(t.on_epoch(Some(5)), TimestampStep::AskTime);
    assert_eq!(t.on_time(Some(39_999)), TimestampStep::Retry);
    assert_eq!(t.on_time(Some(40_000)), TimestampStep::Accept(40_000));
    assert_eq!(t.on_time(None), TimestampStep::Retry);
    assert_eq!(t.on_epoch(None), TimestampStep::Retry);
    assert_eq!(t.on_time(Some(1)), TimestampStep::Accept(1));
    let other = TimestampError::OtherEpoch { found: 4, expected: 5 };
    assert_eq!(t.on_epoch(Some(4)), TimestampStep::Fail(other));
    assert_eq!(other.message(""), "Go still in epoch 4 after 5 attempts, expected epoch 5");
    assert_eq!(t.on_epoch(None), TimestampStep::Fail(TimestampError::EpochUnknown));
    assert_eq!(
        TimestampError::EpochUnknown.message("x"),
        "Failed to verify Go epoch after transition: x"
    );
    assert_eq!(t.on_time(None), TimestampStep::Fail(TimestampError::TimeUnknown));
    assert_eq!(
        TimestampError::TimeUnknown.message("x"),
        "Failed to get timestamp from Go after transition: x"
    );
    assert_eq!(agreed_timestamp(Some(1), 2), 1);
    assert_eq!(agreed_timestamp(None, 2), 2);
    assert_eq!(commit_wait_step(20, 20, 0, 10), WaitStep::Reached);
    assert_eq!(commit_wait_step(19, 20, 9, 10), WaitStep::Wait);
    assert_eq!(commit_wait_step(19, 20, 10, 10), WaitStep::TimedOut);
    assert_eq!(ready_step(20, true), WaitStep::Reached);
    assert_eq!(ready_step(19, false), WaitStep::Wait);
    assert_eq!(ready_step(20, false), WaitStep::TimedOut);
    assert_eq!(
        snapshot_plan(true, true, 5, 9),
        Some(SnapshotPlan { epoch: 4, delay_secs: 9 })
    );
    assert_eq!(snapshot_plan(true, false, 5, 9), None);
    assert_eq!(snapshot_plan(true, true, 0, 9).unwrap().epoch, 0);
}

const BLS: &str = "k+ArYFJxn2B9rNOgiCdPZVlr0NCZILYatdphu9x/UEkzTPESE5RdV+WsfQVdBCt+AkqisvCPCpEmCAUnLcUQUcbketT6QDsCtFELZHrj0XcLrAMmqAW779SAVsjBIb24";
const ED_A: &str = "11qYAYKxCrfVS/7TyWQHOg7hcvPapiMlrwIaaPcHURo=";
const ED_B: &str = "PUAXw+hDiVqStwqnTRt+vJyYLM8uxJaMwM1V8Sr0Zgw=";

fn validator(name: &str) -> ValidatorInfo {
    ValidatorInfo {
        name: name.to_string(),
        address: name.to_string(),
        stake: "1".to_string(),
        protocol_key: if name == "b" { ED_B.to_string() } else { ED_A.to_string() },
        network_key: ED_A.to_string(),
        authority_key: BLS.to_string(),
        description: String::new(),
        website: String::new(),
        image: String::new(),
        commission_rate: 0,
        min_self_delegation: String::new(),
        accumulated_rewards_per_share: String::new(),
        p2p_address: String::new(),
    }
}

fn boundary(epoch: u64, names: &[&str]) -> BoundaryData {
    BoundaryData {
        epoch,
        timestamp_ms: 70,
        boundary_block: 60,
        validators: names.iter().map(|n| validator(n)).collect(),
    }
}

fn start(read_enabled: bool, has_peers: bool) -> NodeStart {
    let settings = StartSettings { read_enabled, has_peers, epochs_to_keep: 2, single_node: false };
    NodeStart::new(settings, decode_key(ED_B).unwrap())
}

#[test]
fn nodes_start_from_the_network() {
    let mut s = start(true, true);
    assert!(matches!(s.first_action(), NodeStartAction::AskLastBlock));
    assert!(matches!(s.on_event(NodeStartEvent::LastBlock(None)), NodeStartAction::ReadKeptBlock));
    assert!(matches!(s.on_event(NodeStartEvent::KeptBlock(Some(40))), NodeStartAction::AskPeers));
    let report = PeerReport { epoch: 5, last_block: 200, readable: false };
    let a = s.on_event(NodeStartEvent::Peers(Some(report)));
    assert!(matches!(a, NodeStartAction::ListEpochs));
    match s.on_event(NodeStartEvent::DiskEpoch(3)) {
        NodeStartAction::Clean(c) => assert_eq!(c, EpochCleanup::Range { from: 3, to: 5 }),
        _ => panic!("outdated epochs are cleared"),
    }
    let a = s.on_event(NodeStartEvent::Cleaned);
    assert!(matches!(a, NodeStartAction::AskBoundary { epoch: 5 }));
    assert!(matches!(s.on_event(NodeStartEvent::Boundary(None)), NodeStartAction::AskEpoch));
    let a = s.on_event(NodeStartEvent::Epoch(Some(2)));
    assert!(matches!(a, NodeStartAction::AskBoundary { epoch: 2 }));
    let a = s.on_event(NodeStartEvent::Boundary(Some(boundary(2, &["b", "a"]))));
    assert!(matches!(a, NodeStartAction::CheckAddresses));
    assert_eq!(s.validators.len(), 2);
    let a = s.on_event(NodeStartEvent::Addresses(vec![true, true]));
    assert!(matches!(a, NodeStartAction::AskLastBlock));
    let built = s.committee.as_ref().unwrap();
    assert_eq!((built.epoch, built.size()), (2, 2));
    assert_eq!(built.authorities[0].hostname, "a");
    match s.on_event(NodeStartEvent::LastBlock(Some(55))) {
        NodeStartAction::Start(p) => {
            assert_eq!((p.epoch, p.timestamp_ms, p.epoch_base), (2, 70, 60));
            assert_eq!((p.last_global_exec_index, p.next_expected), (55, 56));
            assert!(p.recovery_check);
            assert_eq!((p.mode, p.own_index), (NodeMode::Validator, 1));
        }
        _ => panic!("the node starts"),
    }
    assert!(matches!(s.on_event(NodeStartEvent::Cleaned), NodeStartAction::Ignore));
}

#[test]
fn nodes_start_from_genesis() {
    let mut s = start(false, false);
    s.on_event(NodeStartEvent::LastBlock(Some(9)));
    s.on_event(NodeStartEvent::Epoch(Some(1)));
    s.on_event(NodeStartEvent::DiskEpoch(1));
    s.on_event(NodeStartEvent::Cleaned);
    s.on_event(NodeStartEvent::Boundary(None));
    s.on_event(NodeStartEvent::Epoch(None));
    let a = s.on_event(NodeStartEvent::Boundary(None));
    assert!(matches!(a, NodeStartAction::AskGenesis));
    s.on_event(NodeStartEvent::Genesis(Some(vec![validator("a")])));
    match s.on_event(NodeStartEvent::Addresses(vec![true])) {
        NodeStartAction::Start(p) => {
            assert_eq!((p.epoch, p.last_global_exec_index, p.next_expected), (0, 0, 1));
            assert_eq!((p.mode, p.recovery_check), (NodeMode::SyncOnly, false));
        }
        _ => panic!("the node starts"),
    }
}

fn start_beside_peer(readable: bool, last: u64) -> u64 {
    let mut s = start(true, true);
    s.on_event(NodeStartEvent::LastBlock(Some(last)));
    let report = PeerReport { epoch: 1, last_block: 100, readable };
    s.on_event(NodeStartEvent::Peers(Some(report)));
    s.on_event(NodeStartEvent::DiskEpoch(1));
    s.on_event(NodeStartEvent::Cleaned);
    s.on_event(NodeStartEvent::Boundary(Some(boundary(1, &["a"]))));
    s.on_event(NodeStartEvent::Addresses(vec![true]));
    match s.on_event(NodeStartEvent::LastBlock(Some(last))) {
        NodeStartAction::Start(p) => p.last_global_exec_index,
        _ => panic!("the node starts"),
    }
}

#[test]
fn abandoned_chains_are_left() {
    assert_eq!(start_beside_peer(true, 106), 100);
    assert_eq!(start_beside_peer(true, 105), 105);
    assert_eq!(start_beside_peer(true, 50), 50);
    assert_eq!(start_beside_peer(false, 106), 106);
}

fn start_error(a: NodeStartAction) -> NodeStartError {
    match a {
        NodeStartAction::Fail(e) => e,
        _ => panic!("a failure"),
    }
}

#[test]
fn starts_can_fail() {
    let mut s = start(true, false);
    s.on_event(NodeStartEvent::LastBlock(Some(9)));
    let e = start_error(s.on_event(NodeStartEvent::Epoch(None)));
    assert_eq!(e, NodeStartError::NoEpoch);
    let to_boundary = || {
        let mut s = start(true, false);
        s.on_event(NodeStartEvent::LastBlock(Some(9)));
        s.on_event(NodeStartEvent::Epoch(Some(1)));
        s.on_event(NodeStartEvent::DiskEpoch(2));
        s.on_event(NodeStartEvent::Cleaned);
        s
    };
    let e = start_error(to_boundary().on_event(NodeStartEvent::Boundary(Some(boundary(1, &[])))));
    assert_eq!(e, NodeStartError::Validators(StartError::EmptyValidators));
    assert_eq!(
        StartError::EmptyValidators.message(),
        "Go state returned empty validators list at epoch boundary"
    );
    let mut s = to_boundary();
    s.on_event(NodeStartEvent::Boundary(None));
    s.on_event(NodeStartEvent::Epoch(None));
    s.on_event(NodeStartEvent::Boundary(None));
    let e = start_error(s.on_event(NodeStartEvent::Genesis(None)));
    assert_eq!(e, NodeStartError::Validators(StartError::NoGenesisValidators));
    assert_eq!(StartError::NoGenesisValidators.message(), "Failed to fetch genesis validators");
    let mut s = to_boundary();
    s.on_event(NodeStartEvent::Boundary(Some(boundary(1, &["a"]))));
    let e = start_error(s.on_event(NodeStartEvent::Addresses(vec![false])));
    assert_eq!(e, NodeStartError::Committee);
    // An address without a verdict is none.
    let mut s = to_boundary();
    s.on_event(NodeStartEvent::Boundary(Some(boundary(1, &["a", "b"]))));
    let e = start_error(s.on_event(NodeStartEvent::Addresses(vec![true])));
    assert_eq!(e, NodeStartError::Committee);
}

#[test]
fn decisions_of_a_start() {
    assert_eq!(cleanup_at_start(3, 5, 1), EpochCleanup::Range { from: 3, to: 5 });
    assert_eq!(cleanup_at_start(3, 5, 0), EpochCleanup::Nothing);
    assert_eq!(cleanup_at_start(6, 5, 0), EpochCleanup::All);
    assert_eq!(cleanup_at_start(5, 5, 1), EpochCleanup::Nothing);
    let kept = single_node_validators(vec![validator("node-1"), validator("node-0")]);
    assert_eq!(kept.len(), 1);
    assert_eq!(kept[0].name, "node-0");
    assert_eq!(peer_tip(true, true, 9), 9);
    assert_eq!(peer_tip(true, false, 9), 0);
    assert_eq!(effective_tip(true, 106, 100), 100);
    assert_eq!(effective_tip(true, 105, 100), 105);
    assert_eq!(effective_tip(true, 10, 100), 10);
    assert_eq!(effective_tip(true, 10, 0), 10);
    assert_eq!(effective_tip(false, 10, 0), 0);
    assert_eq!(initial_next_expected(true, 9), 10);
    assert_eq!(initial_next_expected(false, 9), 1);
    assert!(needs_recovery_check(true, 1) && !needs_recovery_check(true, 0));
    assert_eq!(epoch_duration_secs(None), 180);
    assert_eq!(epoch_duration_secs(Some(7)), 7);
    assert_eq!(consensus_db_path(3), "epochs/epoch_3/consensus_db");
    let names = |v: &[&str]| v.iter().map(|s| s.to_string()).collect::<Vec<_>>();
    assert_eq!(detect_local_epoch(&names(&["epoch_2", "epoch_10", "epoch_x", "other"])), 10);
    assert_eq!(detect_local_epoch(&names(&[])), 0);
    assert_eq!(legacy_epoch_to_load(5, &vec![1, 4, 5, 3]), Some(4));
    assert_eq!(legacy_epoch_to_load(1, &vec![1, 2]), None);
}
