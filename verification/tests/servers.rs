use metanode::node::catchup::SyncStatus;
use metanode::node::committee::{ValidatorInfo, ValidatorInfoSimple};
use metanode::node::consensus_node::Acceptance;
use metanode::node::epoch_monitor::{
    EpochMonitor, EpochPoll, PollAction, PollEvent, TransitionRequest,
};
use metanode::node::startup::{
    after_check, before_check, begin_catchup, end_catchup, notification_socket_name, rpc_port,
    shutdown_steps, tx_socket_path, CatchupStep, ShutdownStep,
};
use metanode::node::sync::{
    should_start_sync, BoundaryData, PeerBoundary, StartStep, SyncOnlyNode, SyncStart,
    SyncStartError,
};
use metanode::node::NodeMode;
use metanode::sui_epoch_transition::{
    ProposalAction, ProposalEvent, ProposalPlan, ProposalRun, ReconfigError,
    SuiEpochTransitionManager, SuiEpochTransitionOrchestrator, SuiReconfigurationManager,
};
use metanode::tx_hash::{calculate_transaction_hash_hex, PayloadReading};
use metanode::tx_socket_server::{
    list_text, request_length, response_frame, split_request, ConnectionAction, ConnectionEvent,
    ReadResult, RequestReading, SocketConnection, SubmitReport,
};

fn node_says(accept: bool, queue: bool, reason: &str) -> ConnectionEvent {
    ConnectionEvent::NodeSays(Acceptance { accept, queue, reason: reason.to_string() })
}

fn submitted(report: SubmitReport) -> ConnectionEvent {
    let first = PayloadReading { list: None, single: None };
    ConnectionEvent::Submitted { report, first, encoded: None }
}

fn read(v: Vec<u8>) -> ReadResult {
    ReadResult::Bytes(v)
}

fn reply_of(a: ConnectionAction) -> (String, bool) {
    match a {
        ConnectionAction::Reply { text, queue } => (text, queue),
        _ => panic!("an answer"),
    }
}

fn decoded() -> SocketConnection {
    let mut c = SocketConnection::new();
    assert!(matches!(c.first_action(), ConnectionAction::ReadPrefix));
    let a = c.on_event(ConnectionEvent::Prefix(read(vec![0, 0, 0, 2])));
    assert!(matches!(a, ConnectionAction::ReadBody(2)));
    let a = c.on_event(ConnectionEvent::Body(read(vec![7, 8])));
    assert!(matches!(a, ConnectionAction::Decode(_)));
    let r = RequestReading::Transactions(vec![Some(vec![7]), None, Some(vec![8])]);
    assert!(matches!(c.on_event(ConnectionEvent::Decoded(r)), ConnectionAction::AskNode));
    assert_eq!(c.transactions, vec![vec![7], vec![8]]);
    c
}

#[test]
fn transactions_are_submitted() {
    let mut c = decoded();
    assert!(matches!(c.on_event(node_says(true, false, "")), ConnectionAction::AskNode));
    assert!(matches!(c.on_event(node_says(true, false, "")), ConnectionAction::Submit));
    let report = SubmitReport::Taken { block_ref: "B3".to_string(), indices: vec![4, 5] };
    let e = submitted(report);
    let (text, queue) = reply_of(c.on_event(e));
    // The hash is that of the first transaction, which is plain bytes here.
    let plain = PayloadReading { list: None, single: None };
    let hash = calculate_transaction_hash_hex(&[7], &plain, None);
    assert_eq!(hash.len(), 16);
    let tail = r#","block_ref":"B3","indices":[4, 5],"count":2}"#;
    assert_eq!(text, format!("{{\"success\":true,\"tx_hash\":\"{}\"{}", hash, tail));
    assert!(!queue);
    let a = c.on_event(ConnectionEvent::Replied(true));
    assert!(matches!(a, ConnectionAction::ReadPrefix));
    let a = c.on_event(ConnectionEvent::Prefix(ReadResult::Closed));
    assert!(matches!(a, ConnectionAction::Close));
}

#[test]
fn refused_submissions_are_answered() {
    let mut c = decoded();
    c.on_event(node_says(true, false, ""));
    c.on_event(node_says(true, false, ""));
    let report = SubmitReport::Refused("say \"no\"".to_string());
    let e = submitted(report);
    let (text, _) = reply_of(c.on_event(e));
    assert_eq!(
        text,
        r#"{"success":false,"error":"Transaction submission failed: say \"no\""}"#
    );
    let a = c.on_event(ConnectionEvent::Replied(false));
    assert!(matches!(a, ConnectionAction::Fail));
}

#[test]
fn the_node_is_asked_twice() {
    let mut c = decoded();
    let (text, queue) = reply_of(c.on_event(node_says(false, true, "soon")));
    assert_eq!(
        text,
        r#"{"success":true,"queued":true,"message":"Transaction queued for next epoch: soon"}"#
    );
    assert!(queue);
    assert!(matches!(c.on_event(ConnectionEvent::Replied(true)), ConnectionAction::ReadPrefix));

    let mut c = decoded();
    let (text, queue) = reply_of(c.on_event(node_says(false, false, "busy")));
    assert_eq!(
        text,
        r#"{"success":false,"error":"Node not ready to accept transactions: busy"}"#
    );
    assert!(!queue);

    let mut c = decoded();
    c.on_event(node_says(true, false, ""));
    let (text, queue) = reply_of(c.on_event(node_says(true, true, "late")));
    assert_eq!(
        text,
        r#"{"success":true,"queued":true,"message":"Transaction queued due to barrier race condition: late"}"#
    );
    assert!(queue);
    assert!(matches!(c.on_event(ConnectionEvent::Replied(true)), ConnectionAction::ReadPrefix));

    let mut c = decoded();
    c.on_event(node_says(true, false, ""));
    let (text, _) = reply_of(c.on_event(node_says(false, false, "gone")));
    assert_eq!(text, r#"{"success":false,"error":"Node not ready: gone"}"#);
    assert!(matches!(c.on_event(ConnectionEvent::Replied(true)), ConnectionAction::ReadPrefix));
}

#[test]
fn bad_requests_are_answered() {
    assert_eq!(request_length(&[0, 0xa0, 0, 0]), Ok(10_485_760));
    assert_eq!(
        request_length(&[0, 0xa0, 0, 1]).unwrap_err(),
        r#"{"success":false,"error":"Transaction too large: 10485761 bytes (max: 10485760)"}"#
    );
    assert_eq!(
        split_request(RequestReading::Invalid("a \"b\"".to_string())).unwrap_err(),
        r#"{"success":false,"error":"Invalid Transactions protobuf: a \"b\""}"#
    );
    assert_eq!(
        split_request(RequestReading::Transactions(vec![])).unwrap_err(),
        r#"{"success":false,"error":"Empty Transactions message"}"#
    );
    assert_eq!(
        split_request(RequestReading::Transactions(vec![None])).unwrap_err(),
        r#"{"success":false,"error":"No valid transactions after encoding"}"#
    );
    let mut c = SocketConnection::new();
    let (text, _) = reply_of(c.on_event(ConnectionEvent::Prefix(read(vec![1, 0, 0, 0]))));
    assert!(text.starts_with(r#"{"success":false,"error":"Transaction too large: 16777216"#));
    assert!(matches!(c.on_event(ConnectionEvent::Replied(true)), ConnectionAction::ReadPrefix));
    c.on_event(ConnectionEvent::Prefix(read(vec![0, 0, 0, 1])));
    let a = c.on_event(ConnectionEvent::Body(ReadResult::Failed));
    assert!(matches!(a, ConnectionAction::Fail));
    let a = c.on_event(ConnectionEvent::Replied(true));
    assert!(matches!(a, ConnectionAction::Ignore));
    assert_eq!(response_frame("ok"), vec![0, 0, 0, 2, b'o', b'k']);
    assert_eq!(list_text(&vec![]), "[]");
}

#[test]
fn one_reconfiguration_at_a_time() {
    let mut m = SuiReconfigurationManager::new();
    assert_eq!(m.acquire_execution_lock_for_reconfiguration(), Ok(()));
    let e = m.acquire_execution_lock_for_reconfiguration().unwrap_err();
    assert_eq!(e, ReconfigError::AlreadyReconfiguring);
    assert_eq!(e.message(), "Already reconfiguring");
    m.release();
    assert!(m.acquire_execution_lock_for_reconfiguration().is_ok());
    let mut held = SuiReconfigurationManager { locked: true, reconfiguring: false };
    let e = held.acquire_execution_lock_for_reconfiguration().unwrap_err();
    assert_eq!(e.message(), "Failed to acquire execution lock");
    let mut o = SuiEpochTransitionOrchestrator::new(3, 1);
    assert!(o.begin_epoch_transition().is_ok());
    assert!(o.begin_epoch_transition().is_err());
    o.complete_epoch_transition(4);
    assert_eq!(o.sui_manager.current_epoch, 4);
    assert!(o.begin_epoch_transition().is_ok());
}

#[test]
fn proposals_are_voted_on() {
    let mut m = SuiEpochTransitionManager::new(3, 2);
    assert_eq!(m.check_and_trigger_epoch_transition(9), None);
    assert_eq!(m.plan_integrated(true, 4, 9), None);
    let plan = m.plan_integrated(false, 4, 9).unwrap();
    assert_eq!(plan, ProposalPlan { new_epoch: 4, commit_index: 9, proposer: 2 });
    assert_eq!(m.trigger_block_based_epoch_transition().new_epoch, 4);
    assert_eq!(m.plan_for_executor(7).commit_index, 100);
    assert_eq!(SuiEpochTransitionManager::proposal_timestamp(Some(5), 6), 5);
    assert_eq!(SuiEpochTransitionManager::proposal_timestamp(None, 6), 6);
    assert!(!SuiEpochTransitionManager::quorum_reached(None));
    m.update_current_epoch(8);
    assert_eq!(m.current_epoch, 8);
    let (mut r, first) = ProposalRun::start(plan, true);
    assert_eq!(first, ProposalAction::Propose(plan));
    assert_eq!(r.on_event(ProposalEvent::Proposed(true)), ProposalAction::Vote);
    assert_eq!(r.on_event(ProposalEvent::Voted(true)), ProposalAction::CountVotes);
    assert_eq!(
        r.on_event(ProposalEvent::Counted(Some(true))),
        ProposalAction::Reconfigure { new_epoch: 4, commit_index: 9 }
    );
    assert_eq!(r.on_event(ProposalEvent::Voted(true)), ProposalAction::Ignore);
    let (mut r, _) = ProposalRun::start(plan, true);
    r.on_event(ProposalEvent::Proposed(true));
    assert_eq!(r.on_event(ProposalEvent::Voted(false)), ProposalAction::Fail);
    let (mut r, _) = ProposalRun::start(plan, false);
    r.on_event(ProposalEvent::Proposed(true));
    assert_eq!(r.on_event(ProposalEvent::Voted(false)), ProposalAction::Done);
    let (mut r, _) = ProposalRun::start(plan, true);
    assert_eq!(r.on_event(ProposalEvent::Proposed(false)), ProposalAction::Fail);
}

#[test]
fn nodes_wait_until_they_have_caught_up() {
    assert_eq!(begin_catchup(NodeMode::Validator), NodeMode::SyncingUp);
    assert_eq!(end_catchup(begin_catchup(NodeMode::Validator)), NodeMode::Validator);
    assert_eq!(end_catchup(begin_catchup(NodeMode::SyncOnly)), NodeMode::SyncOnly);
    assert_eq!(before_check(600_000), CatchupStep::Check);
    assert_eq!(before_check(600_001), CatchupStep::ForceStart);
    assert_eq!(after_check(None), CatchupStep::Pause);
    let status = |ready| SyncStatus {
        go_epoch: 1,
        go_last_block: 1,
        epoch_match: true,
        commit_gap: 0,
        block_gap: 0,
        network_block_height: 1,
        ready,
    };
    assert_eq!(after_check(Some(status(true))), CatchupStep::Join);
    assert_eq!(after_check(Some(status(false))), CatchupStep::Pause);
    assert_eq!(rpc_port(9100), 10100);
    assert_eq!(tx_socket_path(3), "/tmp/metanode-tx-3.sock");
    assert_eq!(notification_socket_name(3), "metanode-notification-3.sock");
}

fn simple(name: &str, key: &str) -> ValidatorInfoSimple {
    ValidatorInfoSimple {
        name: name.to_string(),
        address: "/a".to_string(),
        stake: 1,
        protocol_key: key.to_string(),
        network_key: String::new(),
        authority_key: String::new(),
    }
}

fn peer_boundary(validators: Vec<ValidatorInfoSimple>) -> PeerBoundary {
    PeerBoundary { epoch: 5, timestamp_ms: 50, boundary_block: 500, validators, error: None }
}

fn boundary(name: &str, key: &str) -> BoundaryData {
    BoundaryData {
        epoch: 5,
        timestamp_ms: 50,
        boundary_block: 500,
        validators: vec![ValidatorInfo {
            name: name.to_string(),
            address: String::new(),
            stake: String::new(),
            protocol_key: key.to_string(),
            network_key: String::new(),
            authority_key: String::new(),
            description: String::new(),
            website: String::new(),
            image: String::new(),
            commission_rate: 0,
            min_self_delegation: String::new(),
            accumulated_rewards_per_share: String::new(),
            p2p_address: String::new(),
        }],
    }
}

#[test]
fn executors_are_watched() {
    let mut n = SyncOnlyNode::new(10, 2);
    n.note_last_block(Some(9));
    assert_eq!(n.shared_index, 10);
    n.note_last_block(Some(12));
    n.note_last_block(None);
    assert_eq!(n.shared_index, 12);
    assert_eq!(n.epoch_to_fetch(Some(2)), None);
    assert_eq!(n.epoch_to_fetch(None), None);
    assert_eq!(n.epoch_to_fetch(Some(4)), Some(4));
    n.on_announced(4, false);
    assert_eq!(n.current_epoch, 2);
    n.on_announced(4, true);
    assert_eq!(n.current_epoch, 4);
    assert!(should_start_sync(NodeMode::SyncOnly, false));
    assert!(!should_start_sync(NodeMode::SyncOnly, true));
    assert!(!should_start_sync(NodeMode::Validator, false));
}

#[test]
fn sync_starts_from_whoever_knows() {
    let mut s = SyncStart::new(5, 3);
    assert!(matches!(s.on_local(None), StartStep::AskPeer { peer: 0 }));
    let mut with_error = peer_boundary(vec![simple("a", "k")]);
    with_error.error = Some("x".to_string());
    assert!(matches!(s.on_peer(Some(with_error)), StartStep::AskPeer { peer: 1 }));
    assert!(matches!(s.on_peer(Some(peer_boundary(vec![]))), StartStep::AskPeer { peer: 2 }));
    match s.on_peer(Some(peer_boundary(vec![simple("a", "k")]))) {
        StartStep::Use(d) => {
            assert_eq!((d.epoch, d.timestamp_ms, d.boundary_block), (5, 50, 500));
            assert_eq!(d.validators[0].stake, "1");
        }
        _ => panic!("the peer knows"),
    }
    let mut s = SyncStart::new(5, 1);
    s.on_local(None);
    match s.on_peer(None) {
        StartStep::Fail(e) => {
            assert_eq!(e, SyncStartError::NoBoundary { epoch: 5 });
            assert_eq!(
                e.message("gone"),
                "Failed to get epoch 5 boundary data from Go or any peer: gone"
            );
        }
        _ => panic!("nobody knows"),
    }
    let mut s = SyncStart::new(5, 0);
    match s.on_local(None) {
        StartStep::Fail(e) => assert_eq!(
            e.message(""),
            "No local epoch data and no peer addresses configured for fallback"
        ),
        _ => panic!("nobody to ask"),
    }
    let mut s = SyncStart::new(5, 0);
    assert!(matches!(s.on_local(Some(boundary("a", "k"))), StartStep::Use(_)));
}

#[test]
fn the_monitor_follows_the_network() {
    let m = EpochMonitor::new(3, Some(&[1, 2, 3]), None);
    assert_eq!(m.own_key, "AQID");
    assert_eq!((m.hostname.as_str(), m.poll_interval_secs), ("node-3", 10));
    let mut p = EpochPoll::new(2);
    assert_eq!(p.first_action(), PollAction::AskEpoch);
    assert_eq!(p.on_event(&m, PollEvent::Epoch(Some(4))), PollAction::AskPeerEpochs);
    assert_eq!(p.on_event(&m, PollEvent::PeerEpoch(Some(5))), PollAction::AskNode);
    let a = p.on_event(&m, PollEvent::NodeEpoch(Some(4)));
    assert_eq!(a, PollAction::AskBoundary { epoch: 5 });
    let a = p.on_event(&m, PollEvent::Boundary(None));
    assert_eq!(a, PollAction::AskPeerBoundary { epoch: 5, peer: 0 });
    let a = p.on_event(&m, PollEvent::PeerBoundary(None));
    assert_eq!(a, PollAction::AskPeerBoundary { epoch: 5, peer: 1 });
    let b = peer_boundary(vec![simple("node-3", "x"), simple("a", "AQID")]);
    assert_eq!(
        p.on_event(&m, PollEvent::PeerBoundary(Some(b))),
        PollAction::Transition(TransitionRequest {
            new_epoch: 5,
            timestamp_ms: 50,
            synced_global_exec_index: 500,
            target_mode: NodeMode::Validator,
        })
    );
    assert_eq!(p.on_event(&m, PollEvent::Epoch(None)), PollAction::Ignore);
}

#[test]
fn the_monitor_waits_when_level() {
    let m = EpochMonitor::new(3, None, Some(7));
    assert_eq!((m.own_key.as_str(), m.poll_interval_secs), ("", 7));
    let mut p = EpochPoll::new(0);
    assert_eq!(p.on_event(&m, PollEvent::Epoch(Some(4))), PollAction::AskNode);
    assert_eq!(p.on_event(&m, PollEvent::NodeEpoch(Some(4))), PollAction::Wait);
    let mut p = EpochPoll::new(1);
    assert_eq!(p.on_event(&m, PollEvent::Epoch(None)), PollAction::Wait);
    let mut p = EpochPoll::new(1);
    p.on_event(&m, PollEvent::Epoch(Some(4)));
    p.on_event(&m, PollEvent::PeerEpoch(None));
    p.on_event(&m, PollEvent::NodeEpoch(Some(3)));
    // Without a key the node is found by its name.
    match p.on_event(&m, PollEvent::Boundary(Some(boundary("node-3", "x")))) {
        PollAction::Transition(t) => assert_eq!(t.target_mode, NodeMode::Validator),
        _ => panic!("an epoch change"),
    }
    assert!(!m.is_in_committee(&boundary("node-4", "").validators));
    let t = m.plan_transition(&boundary("node-4", ""));
    assert_eq!(t.target_mode, NodeMode::SyncOnly);
}

#[test]
fn nodes_go_in_order() {
    let steps = shutdown_steps();
    assert_eq!(
        steps,
        vec![ShutdownStep::StopConsensus, ShutdownStep::FlushBlocks, ShutdownStep::StopServers]
    );
}
