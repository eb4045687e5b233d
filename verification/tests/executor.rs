use metanode::node::committee::ValidatorInfo;
use metanode::node::executor_client::call::{
    Arrival, CallAction, CallEvent, ExecutorCall, MAX_CONNECT_ATTEMPTS,
};
use metanode::node::executor_client::commit_data::{
    convert_to_epoch_data, describe, CommittedSubDag, CommittedTx,
};
use metanode::node::executor_client::connection_pool::{ConnectStep, ConnectionPool};
use metanode::node::executor_client::flush::{FlushAction, FlushEvent, FlushRun};
use metanode::node::executor_client::persistence::{
    is_executor_enabled, load_persisted_last_index, persist_last_block_number,
    persist_last_sent_index, read_last_block_number, write_uvarint,
};
use metanode::node::executor_client::responses::{
    block_sync_length, handoff_length, read_advance_epoch, read_blocks_range, read_current_epoch,
    read_epoch_boundary_data, read_epoch_start_timestamp, read_handoff, read_last_block,
    read_sync_blocks, read_timeout_secs, read_validators, request_frame, response_length,
    sync_nothing, BlockData, HandoffKind, ResponsePayload, RpcError,
};
use metanode::node::executor_client::socket::SocketAddress;
use metanode::tx_hash::PayloadReading;
use metanode::node::executor_client::{
    after_write, block_frame, next_connect_delay, BufferFull, Buffered, BufferedCommit,
    ExecutorClient, SendError, WriteNext, WriteResult,
};

fn unix(path: &str) -> SocketAddress {
    SocketAddress::Unix(path.to_string())
}

fn client(next: u64) -> ExecutorClient {
    ExecutorClient::new_with_initial_index(true, true, unix("/tmp/s"), unix("/tmp/r"), next)
}

fn commit(epoch: u64, commit_index: u32) -> BufferedCommit {
    BufferedCommit { data: vec![commit_index as u8], epoch, commit_index }
}

fn validator(name: &str) -> ValidatorInfo {
    ValidatorInfo {
        name: name.to_string(),
        address: String::new(),
        stake: String::new(),
        protocol_key: String::new(),
        network_key: String::new(),
        authority_key: String::new(),
        description: String::new(),
        website: String::new(),
        image: String::new(),
        commission_rate: 0,
        min_self_delegation: String::new(),
        accumulated_rewards_per_share: String::new(),
        p2p_address: String::new(),
    }
}

#[test]
fn test_pool_creation() {
    let addr = SocketAddress::Unix("/tmp/test_pool.sock".to_string());
    let pool = ConnectionPool::new(addr, 4, 30);
    assert_eq!(pool.size(), 4);
    assert_eq!((0..4).filter(|i| !pool.is_connected(*i)).count(), 4);
}

#[test]
fn test_round_robin_index() {
    let addr = SocketAddress::Unix("/tmp/test_rr.sock".to_string());
    let mut pool = ConnectionPool::new(addr, 3, 30);
    assert_eq!(pool.next_slot(), 0);
    assert_eq!(pool.next_slot(), 1);
    assert_eq!(pool.next_slot(), 2);
    assert_eq!(pool.next_slot(), 0);
}

#[test]
fn pool_slots_reconnect() {
    let mut pool = ConnectionPool::new(unix("/tmp/p"), 2, 30);
    assert!(pool.check_slot(0, true));
    pool.slot_connected(0);
    assert!(!pool.check_slot(0, true));
    assert!(pool.check_slot(0, false));
    assert!(!pool.is_connected(0));
    pool.slot_connected(1);
    pool.reset_all();
    assert!(!pool.is_connected(1));
    assert_eq!(ConnectionPool::after_failed_connect(2), ConnectStep::Retry);
    assert_eq!(ConnectionPool::after_failed_connect(3), ConnectStep::GiveUp);
}

#[test]
fn addresses_are_told_apart() {
    let tcp = SocketAddress::parse("tcp://127.0.0.1:90", Some("127.0.0.1:90".to_string())).unwrap();
    assert_eq!(tcp.as_str(), "tcp://127.0.0.1:90");
    let bare = SocketAddress::parse("10.0.0.1:90", Some("10.0.0.1:90".to_string())).unwrap();
    assert_eq!(bare.as_str(), "tcp://10.0.0.1:90");
    assert_eq!(SocketAddress::parse("unix:///tmp/a", None).unwrap().as_str(), "/tmp/a");
    assert_eq!(SocketAddress::parse("/tmp/a:b", None).unwrap().as_str(), "/tmp/a:b");
    assert_eq!(SocketAddress::parse("tcp://nowhere", None).unwrap_err().text, "nowhere");
    assert_eq!(SocketAddress::parse_or_path("host:x", None).as_str(), "host:x");
    assert!(matches!(SocketAddress::classify("tcp://a"), SocketAddress::Tcp(_)));
}

#[test]
fn addresses_in_every_form() {
    let unix_addr = SocketAddress::parse("/tmp/socket.sock", None).unwrap();
    assert_eq!(unix_addr.as_str(), "/tmp/socket.sock");
    let prefixed = SocketAddress::parse("unix:///tmp/socket.sock", None).unwrap();
    assert_eq!(prefixed.as_str(), "/tmp/socket.sock");
    let resolved = Some("192.168.1.100:9001".to_string());
    let tcp_addr = SocketAddress::parse("tcp://192.168.1.100:9001", resolved.clone()).unwrap();
    let tcp_addr2 = SocketAddress::parse("192.168.1.100:9001", resolved).unwrap();
    assert_eq!(tcp_addr.as_str(), tcp_addr2.as_str());
    assert!(matches!(tcp_addr, SocketAddress::Tcp(_)));
}

#[test]
fn commits_are_buffered_once() {
    let mut c = client(5);
    assert!(!c.wants(4));
    assert!(c.wants(5));
    assert_eq!(c.buffer_commit(5, commit(1, 1)), Ok(Buffered::Added));
    assert_eq!(c.buffer_commit(5, commit(1, 1)), Ok(Buffered::Duplicate));
    assert_eq!(c.buffer_commit(5, commit(2, 1)), Ok(Buffered::Replaced));
    assert_eq!(c.buffer_commit(4, commit(2, 1)), Ok(Buffered::Unwanted));
    assert_eq!(c.buffered_count(), 1);
    let off = ExecutorClient::new(false, true, unix("a"), unix("b"));
    assert!(!off.wants(1) && !off.is_enabled() && off.can_commit());
    let readonly = ExecutorClient::new(true, false, unix("a"), unix("b"));
    assert!(!readonly.wants(1));
    assert_eq!(readonly.next_expected_index(), 1);
}

#[test]
fn full_buffer_refuses() {
    let mut c = client(1);
    for i in 2..10_002u64 {
        assert_eq!(c.buffer_commit(i, commit(0, i as u32)), Ok(Buffered::Added));
    }
    let e = c.buffer_commit(20_000, commit(0, 1)).unwrap_err();
    assert_eq!(e, BufferFull { buffered: 10_000 });
    assert_eq!(e.message(), "Buffer full: 10000 blocks (max 10000)");
}

#[test]
fn start_follows_the_executor() {
    let mut c = client(1);
    c.buffer_commit(2, commit(0, 2)).unwrap();
    c.buffer_commit(9, commit(0, 9)).unwrap();
    c.initialize_from_go(None, Some(4));
    assert_eq!(c.next_expected_index(), 5);
    assert_eq!(c.buffered_count(), 1);
    c.initialize_from_go(Some(1), Some(100));
    assert_eq!(c.next_expected_index(), 5);
    c.initialize_from_go(None, None);
    assert_eq!(c.next_expected_index(), 5);
}

#[test]
fn flush_sends_in_order() {
    let mut c = client(9);
    for i in [11u64, 9, 10, 13] {
        c.buffer_commit(i, commit(0, i as u32)).unwrap();
    }
    let mut run = FlushRun::new();
    assert!(matches!(run.first_action(), FlushAction::Connect));
    let mut sent = Vec::new();
    let mut action = run.on_event(&mut c, FlushEvent::Connected(true));
    loop {
        action = match action {
            FlushAction::Send => {
                sent.push(run.outgoing.as_ref().unwrap().index);
                run.on_event(&mut c, FlushEvent::Sent)
            }
            FlushAction::Record { index, commit_index } => {
                assert_eq!(index, commit_index as u64);
                run.on_event(&mut c, FlushEvent::Recorded)
            }
            FlushAction::AskLastBlock => run.on_event(&mut c, FlushEvent::LastBlock(Some(8))),
            FlushAction::Done => break,
            _ => panic!("unexpected action"),
        };
    }
    assert_eq!(sent, vec![9, 10, 11]);
    assert_eq!(c.next_expected_index(), 12);
    assert!(!c.wants(10));
    let check = run.last_check.unwrap();
    assert!(!check.fork && !check.lagging);
    assert_eq!(check.lag, 2);
}

#[test]
fn failed_send_is_kept() {
    let mut c = client(1);
    c.buffer_commit(1, commit(0, 6)).unwrap();
    let mut run = FlushRun::new();
    assert!(matches!(run.on_event(&mut c, FlushEvent::Connected(true)), FlushAction::Send));
    assert_eq!(run.outgoing.as_ref().unwrap().index, 1);
    assert_eq!(c.buffered_count(), 0);
    assert!(matches!(run.on_event(&mut c, FlushEvent::NotSent), FlushAction::Done));
    assert!(run.outgoing.is_none());
    assert_eq!(c.buffered_count(), 1);
    assert_eq!(c.next_expected_index(), 1);
    // The commit that goes out again is the one that came back.
    let mut run = FlushRun::new();
    run.on_event(&mut c, FlushEvent::Connected(true));
    let a = run.on_event(&mut c, FlushEvent::Sent);
    assert!(matches!(a, FlushAction::Record { index: 1, commit_index: 6 }));
    let mut run = FlushRun::new();
    assert!(matches!(run.on_event(&mut c, FlushEvent::Connected(false)), FlushAction::Done));
    assert!(matches!(run.on_event(&mut c, FlushEvent::Recorded), FlushAction::Ignore));
}

#[test]
fn large_gap_is_settled() {
    let mut c = client(1);
    c.buffer_commit(102, commit(0, 2)).unwrap();
    assert!(c.needs_resync());
    let mut run = FlushRun::new();
    let a = run.on_event(&mut c, FlushEvent::Connected(true));
    assert!(matches!(a, FlushAction::AskLastBlock));
    let a = run.on_event(&mut c, FlushEvent::LastBlock(Some(101)));
    assert!(matches!(a, FlushAction::Send));
    let mut c = client(1);
    c.buffer_commit(101, commit(0, 2)).unwrap();
    assert!(!c.needs_resync());
}

#[test]
fn executor_going_back_is_a_fork() {
    let mut c = client(1);
    let first = c.on_verified(300, 150);
    assert!(!first.fork && first.lagging);
    assert_eq!(first.lag, 150);
    assert!(c.on_verified(300, 149).fork);
}

#[test]
fn frames_carry_the_length() {
    assert_eq!(block_frame(&[7, 8]), vec![2, 7, 8]);
    let long = vec![1u8; 300];
    assert_eq!(&block_frame(&long)[..3], &[0xac, 0x02, 1]);
    assert_eq!(request_frame(&[9]), vec![0, 0, 0, 1, 9]);
    let mut b = Vec::new();
    write_uvarint(&mut b, 0);
    write_uvarint(&mut b, 127);
    write_uvarint(&mut b, 128);
    write_uvarint(&mut b, u64::MAX);
    assert_eq!(&b[..4], &[0, 127, 0x80, 1]);
    assert_eq!(b.len(), 14);
    assert_eq!(b[13], 1);
}

#[test]
fn writes_are_retried_once() {
    assert_eq!(after_write(false, WriteResult::Written).next, WriteNext::Done);
    let s = after_write(false, WriteResult::Failed);
    assert!(s.close && s.next == WriteNext::Reconnect);
    assert_eq!(after_write(true, WriteResult::Failed).next, WriteNext::Fail(SendError::RetryFailed));
    assert_eq!(after_write(false, WriteResult::TimedOut).next, WriteNext::Fail(SendError::Timeout));
    assert_eq!(
        after_write(true, WriteResult::TimedOut).next,
        WriteNext::Fail(SendError::RetryTimeout)
    );
    assert_eq!(
        after_write(false, WriteResult::NotConnected).next,
        WriteNext::Fail(SendError::ConnectionLost)
    );
    assert_eq!(
        after_write(true, WriteResult::NotConnected).next,
        WriteNext::Fail(SendError::LostAfterReconnect)
    );
    assert_eq!(next_connect_delay(500), 1000);
    assert_eq!(next_connect_delay(4000), 5000);
}

#[test]
fn files_survive() {
    let b = persist_last_sent_index(258, 7);
    assert_eq!(b, vec![2, 1, 0, 0, 0, 0, 0, 0, 7, 0, 0, 0]);
    assert_eq!(load_persisted_last_index(&b), Some((258, 7)));
    assert_eq!(load_persisted_last_index(&b[..8]), Some((258, 0)));
    assert_eq!(load_persisted_last_index(&b[..9]), None);
    let n = persist_last_block_number(u64::MAX);
    assert_eq!(read_last_block_number(&n), Some(u64::MAX));
    assert_eq!(read_last_block_number(&n[..7]), None);
    let files = vec!["a.toml".to_string(), "enable_executor.toml".to_string()];
    assert!(is_executor_enabled(&files));
    assert!(!is_executor_enabled(&vec!["a.toml".to_string()]));
}

#[test]
fn lengths_of_answers() {
    assert_eq!(response_length(&[0, 0, 1, 0]).unwrap(), 256);
    assert!(matches!(response_length(&[0, 0, 0, 0]), Err(RpcError::ZeroLength)));
    let e = response_length(&[0, 0x98, 0x96, 0x81]).unwrap_err();
    assert_eq!(e.message(), "Response too large: 10000001 bytes");
    assert_eq!(response_length(&[0, 0x98, 0x96, 0x80]).unwrap(), 10_000_000);
    let e = handoff_length(&[0, 0, 0, 0]).unwrap_err();
    assert_eq!(e.message(), "Invalid response length: 0");
    assert_eq!(handoff_length(&[0, 0, 0, 5]).unwrap(), 5);
    assert_eq!(block_sync_length(&[0xff, 0, 0, 0]), 0xff00_0000);
}

#[test]
fn answers_are_sorted_out() {
    let v = read_validators(
        Some(ResponsePayload::ValidatorInfoList {
            validators: vec![validator("a")],
            epoch_timestamp_ms: 4,
            last_global_exec_index: 9,
        }),
        &[],
    )
    .unwrap();
    assert_eq!((v.0.len(), v.1), (1, 4));
    let e = read_validators(Some(ResponsePayload::ServerStatus), &[]).unwrap_err();
    assert_eq!(e.message(), "Unexpected ServerStatus response (expected ValidatorInfoList)");
    let e = read_validators(
        Some(ResponsePayload::GetBlocksRangeResponse { error: String::new(), blocks: vec![] }),
        &[],
    )
    .unwrap_err();
    assert_eq!(e.message(), "Unexpected Block Sync response (expected ValidatorInfoList)");
    let e = read_validators(None, &[0xab, 1]).unwrap_err();
    assert_eq!(
        e.message(),
        "Unexpected response type from Go. Response payload: None. Response bytes (hex): ab01"
    );
    let e = read_validators(Some(ResponsePayload::NotifyEpochChangeResponse), &[]).unwrap_err();
    assert_eq!(e.message(), "Unexpected NotifyEpochChangeResponse");

    assert_eq!(read_current_epoch(Some(ResponsePayload::GetCurrentEpochResponse(3))).unwrap(), 3);
    let e = read_current_epoch(Some(ResponsePayload::Error("x".to_string()))).unwrap_err();
    assert_eq!(e.message(), "Go returned error: x");
    assert_eq!(read_current_epoch(None).unwrap_err().message(), "Unexpected response payload type");

    let p = ResponsePayload::GetEpochStartTimestampResponse(8);
    assert_eq!(read_epoch_start_timestamp(Some(p)).unwrap(), 8);
    let e = read_epoch_start_timestamp(None).unwrap_err();
    assert_eq!(e.message(), "Request connection is not available");

    assert!(read_advance_epoch(Some(ResponsePayload::AdvanceEpochResponse)).is_ok());
    let e = read_advance_epoch(Some(ResponsePayload::Error("y".to_string()))).unwrap_err();
    assert_eq!(e.message(), "Go returned error during epoch advance: y");

    let b = read_epoch_boundary_data(Some(ResponsePayload::EpochBoundaryData {
        epoch: 1,
        epoch_start_timestamp_ms: 2,
        boundary_block: 3,
        validators: vec![validator("a"), validator("b")],
    }))
    .unwrap();
    assert_eq!((b.0, b.1, b.2, b.3.len()), (1, 2, 3, 2));
    assert_eq!(
        read_epoch_boundary_data(None).unwrap_err().message(),
        "Unexpected response payload type for GetEpochBoundaryData"
    );

    assert_eq!(read_last_block(Some(ResponsePayload::LastBlockNumberResponse(5))).unwrap(), 5);
    assert_eq!(
        read_last_block(Some(ResponsePayload::ValidatorList)).unwrap_err().message(),
        "Unexpected response type from Go (expected LastBlockNumberResponse)"
    );
}

#[test]
fn handoffs_and_block_transfers() {
    let p = ResponsePayload::SetSyncStartBlockResponse {
        success: true,
        sync_start_block: 6,
        message: "m".to_string(),
    };
    let h = read_handoff(HandoffKind::SyncStart, Some(p)).unwrap();
    assert!(h.ok && h.block == 6 && h.message == "m");
    let p = ResponsePayload::WaitForSyncToBlockResponse {
        reached: true,
        current_block: 6,
        message: String::new(),
    };
    let e = read_handoff(HandoffKind::ConsensusStart, Some(p)).unwrap_err();
    assert_eq!(e.message(), "Unexpected response type from Go");
    assert_eq!(read_timeout_secs(HandoffKind::ConsensusStart, 1), 35);
    assert_eq!(read_timeout_secs(HandoffKind::SyncStart, 1), 5);
    assert_eq!(read_timeout_secs(HandoffKind::WaitForSync, 30), 40);

    let block = BlockData { block_number: 1, epoch: 0, data: vec![] };
    let p = ResponsePayload::GetBlocksRangeResponse {
        error: String::new(),
        blocks: vec![block.clone()],
    };
    assert_eq!(read_blocks_range(Some(p)).unwrap().len(), 1);
    let p = ResponsePayload::GetBlocksRangeResponse { error: "no".to_string(), blocks: vec![] };
    assert_eq!(read_blocks_range(Some(p)).unwrap_err().message(), "Go returned error: no");
    let e = read_blocks_range(Some(ResponsePayload::Error("bad".to_string()))).unwrap_err();
    assert_eq!(e.message(), "Go Master error: bad");
    let p = ResponsePayload::SyncBlocksResponse {
        error: String::new(),
        synced_count: 2,
        last_synced_block: 9,
    };
    assert_eq!(read_sync_blocks(Some(p)).unwrap(), (2, 9));
    assert_eq!(
        read_sync_blocks(None).unwrap_err().message(),
        "Unexpected response type from Go Master"
    );
    assert_eq!(sync_nothing(&vec![]), Some((0, 0)));
    assert_eq!(sync_nothing(&vec![block]), None);
}

#[test]
fn questions_go_step_by_step() {
    assert!(matches!(ExecutorCall::start(false, false), Err(RpcError::NotEnabled)));
    let mut c = ExecutorCall::start(true, false).unwrap();
    assert!(matches!(c.first_action(), CallAction::Connect));
    for _ in 1..MAX_CONNECT_ATTEMPTS {
        let a = c.on_event(CallEvent::Connected(Some("refused".to_string())));
        assert!(matches!(a, CallAction::ConnectAgain));
    }
    match c.on_event(CallEvent::Connected(Some("refused".to_string()))) {
        CallAction::Fail(e) => {
            assert_eq!(e.message(), "Failed to connect to Go request socket: refused")
        }
        _ => panic!("the last attempt fails"),
    }
    let mut c = ExecutorCall::start(true, false).unwrap();
    assert!(matches!(c.on_event(CallEvent::Connected(None)), CallAction::Send));
    assert!(matches!(c.on_event(CallEvent::Sent(None)), CallAction::ReadLength));
    let a = c.on_event(CallEvent::Length(Arrival::Bytes(vec![0, 0, 0, 2])));
    assert!(matches!(a, CallAction::ReadData(2)));
    match c.on_event(CallEvent::Data(Arrival::Bytes(vec![1, 2]))) {
        CallAction::Decode(b) => assert_eq!(b, vec![1, 2]),
        _ => panic!("the answer is there"),
    }
    let mut c = ExecutorCall::start(true, true).unwrap();
    c.on_event(CallEvent::Connected(None));
    c.on_event(CallEvent::Sent(None));
    match c.on_event(CallEvent::Length(Arrival::TimedOut("late".to_string()))) {
        CallAction::Fail(e) => assert_eq!(e.message(), "Timeout reading response length: late"),
        _ => panic!("too late"),
    }
    let mut c = ExecutorCall::start(true, true).unwrap();
    c.on_event(CallEvent::Connected(None));
    c.on_event(CallEvent::Sent(None));
    c.on_event(CallEvent::Length(Arrival::Bytes(vec![0, 0, 0, 1])));
    match c.on_event(CallEvent::Data(Arrival::TimedOut("late".to_string()))) {
        CallAction::Fail(e) => assert_eq!(e.message(), "Timeout reading response data: late"),
        _ => panic!("too late"),
    }
}

fn tx(data: u8, hash: u8, is_system: bool, is_protobuf: bool) -> CommittedTx {
    CommittedTx { data: vec![data], hash: vec![hash, 1], is_system, is_protobuf }
}

#[test]
fn commits_are_converted() {
    let subdag = CommittedSubDag {
        blocks: vec![
            vec![tx(1, 9, false, true), tx(2, 3, false, true), tx(3, 1, true, true)],
            vec![tx(4, 2, false, false)],
            vec![tx(5, 4, false, true), tx(6, 4, false, true)],
        ],
        commit_index: 17,
        timestamp_ms: 99,
        leader_author: 2,
    };
    let d = convert_to_epoch_data(subdag, 3, 40, Some(vec![1; 20]));
    assert_eq!((d.epoch, d.global_exec_index, d.commit_index), (3, 40, 17));
    assert_eq!((d.commit_timestamp_ms, d.leader_author_index), (99, 2));
    assert_eq!(d.leader_address, vec![1; 20]);
    let digests: Vec<Vec<u8>> = d.blocks[0].transactions.iter().map(|t| t.digest.clone()).collect();
    assert_eq!(digests, vec![vec![2], vec![1]]);
    assert!(d.blocks[1].transactions.is_empty());
    // Equal hashes keep their order.
    assert_eq!(d.blocks[2].transactions[0].digest, vec![5]);
    assert_eq!(d.blocks[2].transactions[0].worker_id, 0);
    assert!(d.blocks.iter().all(|b| b.height == 17 && b.epoch == 3));
    let empty = CommittedSubDag { blocks: vec![], commit_index: 1, timestamp_ms: 0, leader_author: 0 };
    assert!(convert_to_epoch_data(empty, 0, 1, None).leader_address.is_empty());
}

#[test]
fn order_in_a_block_does_not_matter() {
    let a = vec![tx(1, 9, false, true), tx(2, 3, false, true), tx(3, 5, false, true)];
    let b = vec![a[2].clone(), a[0].clone(), a[1].clone()];
    let of = |txs: Vec<CommittedTx>| {
        let s = CommittedSubDag { blocks: vec![txs], commit_index: 1, timestamp_ms: 0, leader_author: 0 };
        let d = convert_to_epoch_data(s, 0, 1, None);
        d.blocks[0].transactions.iter().map(|t| t.digest.clone()).collect::<Vec<_>>()
    };
    assert_eq!(of(a), of(b));
}

#[test]
fn transactions_are_described() {
    let reading = PayloadReading { list: Some(vec![]), single: None };
    let t = describe(b"abc".to_vec(), &reading, None, true);
    assert_eq!(t.hash[..4], [0x4e, 0x03, 0x65, 0x7a]);
    assert!(t.is_system && t.is_protobuf);
    let reading = PayloadReading { list: None, single: None };
    assert!(!describe(vec![], &reading, None, false).is_protobuf);
}
