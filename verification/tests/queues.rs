use metanode::node::executor_client::commit_data::CommittedTx;
use metanode::node::notification_listener::{
    after_prefix, notification_of, CommitteeNotificationListener, ListenStep, PrefixRead,
};
use metanode::node::queue::{
    begin_submission, load_transaction_queue_static, persist_transaction_queue, queue_transaction,
    queue_transactions, retry_delay_ms, select_for_submission, FileStep,
};
use metanode::node::recovery::{perform_block_recovery_check, RecoveryFinding};
use metanode::node::transition::tx_recovery::{
    hashes_path, plan_recovery, save_committed_transaction_hash, CommittedHashes, HashedTx,
    Recovery, SubmitResult,
};

fn tx(data: u8, hash: u8) -> CommittedTx {
    CommittedTx { data: vec![data], hash: vec![hash], is_system: false, is_protobuf: true }
}

fn none_committed() -> CommittedHashes {
    CommittedHashes::new()
}

#[test]
fn queue_survives_a_restart() {
    let queue = vec![vec![1, 2], vec![], vec![3]];
    let file = persist_transaction_queue(&queue);
    assert_eq!(file, vec![3, 0, 0, 0, 2, 0, 0, 0, 1, 2, 0, 0, 0, 0, 1, 0, 0, 0, 3]);
    assert_eq!(load_transaction_queue_static(Some(&file)), Some(queue));
    assert_eq!(load_transaction_queue_static(Some(&file[..file.len() - 1])), None);
    assert_eq!(load_transaction_queue_static(Some(&[1, 0, 0])), None);
    assert_eq!(load_transaction_queue_static(None), Some(vec![]));
    // What follows the announced transactions is not looked at.
    assert_eq!(load_transaction_queue_static(Some(&[0, 0, 0, 0, 9])), Some(vec![]));
}

#[test]
fn transactions_enter_the_queue() {
    let mut q = vec![vec![1]];
    assert_eq!(queue_transactions(&mut q, vec![]), None);
    let file = queue_transactions(&mut q, vec![vec![2], vec![3]]).unwrap();
    assert_eq!(q, vec![vec![1], vec![2], vec![3]]);
    assert_eq!(load_transaction_queue_static(Some(&file)), Some(q.clone()));
    assert!(queue_transaction(&mut q, vec![4]).is_some());
    assert_eq!(q.len(), 4);
}

#[test]
fn submissions_are_selected() {
    let mut system = tx(5, 5);
    system.is_system = true;
    let mut opaque = tx(6, 6);
    opaque.is_protobuf = false;
    let queued = vec![tx(1, 9), tx(2, 3), system, opaque, tx(3, 9), tx(4, 7)];
    let mut committed = CommittedHashes::new();
    committed.insert(vec![7]);
    let out = select_for_submission(queued, &committed);
    let data: Vec<u8> = out.iter().map(|t| t.data[0]).collect();
    assert_eq!(data, vec![2, 1]);
}

#[test]
fn taken_transactions_delete_the_file() {
    let mut q = vec![vec![1], vec![2]];
    let mut s = begin_submission(&mut q, vec![tx(1, 1), tx(2, 2)], &none_committed());
    assert!(q.is_empty());
    assert_eq!(s.current().unwrap().data, vec![1]);
    s.on_taken();
    s.on_unavailable(&mut q);
    assert!(s.current().is_none());
    assert_eq!(q, vec![vec![2]]);
    assert!(matches!(s.finish(&q), FileStep::Delete));
}

#[test]
fn refused_transactions_go_back() {
    let mut q = vec![vec![1]];
    let mut s = begin_submission(&mut q, vec![tx(1, 1)], &none_committed());
    assert_eq!(s.on_refused(&mut q), 200);
    assert_eq!(s.on_refused(&mut q), 400);
    for _ in 2..20 {
        assert!(q.is_empty());
        s.on_refused(&mut q);
    }
    assert_eq!(q, vec![vec![1]]);
    assert!(s.current().is_none());
    match s.finish(&q) {
        FileStep::Write(b) => assert_eq!(load_transaction_queue_static(Some(&b)), Some(q)),
        _ => panic!("the queue is kept"),
    }
    assert_eq!(retry_delay_ms(20), 104_857_600);
    let empty = begin_submission(&mut vec![], vec![], &none_committed());
    assert!(matches!(empty.finish(&vec![]), FileStep::Keep));
}

#[test]
fn committed_hashes_survive() {
    let mut c = CommittedHashes::new();
    c.insert(vec![1, 2]);
    c.insert(vec![3]);
    c.insert(vec![1, 2]);
    assert_eq!(c.len(), 2);
    let bytes = c.to_bytes();
    let back = CommittedHashes::from_bytes(&bytes).unwrap();
    assert_eq!(back.len(), 2);
    assert!(back.contains(&[1, 2]) && back.contains(&[3]) && !back.contains(&[1]));
    assert!(CommittedHashes::from_bytes(&bytes[..bytes.len() - 1]).is_none());
    assert_eq!(CommittedHashes::load(None).len(), 0);
    assert_eq!(CommittedHashes::load(Some(&[9])).len(), 0);
    let file = save_committed_transaction_hash(Some(&bytes), vec![7]);
    assert_eq!(CommittedHashes::load(Some(&file)).len(), 3);
    let first = save_committed_transaction_hash(None, vec![7]);
    assert!(CommittedHashes::load(Some(&first)).contains(&[7]));
    assert_eq!(hashes_path(12), "epochs/epoch_12/committed_transaction_hashes.bin");
}

#[test]
fn pending_transactions_are_recovered() {
    let mut committed = CommittedHashes::new();
    committed.insert(vec![2]);
    let t = |data: u8, hash: u8| HashedTx { data: vec![data], hash: vec![hash] };
    let mut pending = vec![t(1, 1), t(2, 2), t(3, 3), t(4, 4)];
    let todo = plan_recovery(&mut pending, &committed);
    let data: Vec<u8> = todo.iter().map(|t| t.data[0]).collect();
    assert_eq!(data, vec![1, 3, 4]);
    let mut q = Vec::new();
    let mut r = Recovery::start(todo);
    assert_eq!(r.current().unwrap().data, vec![1]);
    assert_eq!(r.on_result(SubmitResult::Taken, &mut q), Some(vec![1]));
    assert!(q.is_empty());
    assert_eq!(r.current().unwrap().data, vec![3]);
    // What is refused goes to the queue; without a client it is given up.
    assert_eq!(r.on_result(SubmitResult::NoClient, &mut q), None);
    assert!(q.is_empty());
    assert_eq!(r.on_result(SubmitResult::Refused, &mut q), None);
    assert_eq!(q, vec![vec![4]]);
    assert!(r.current().is_none());
    assert_eq!(r.recovered, 1);
}

#[test]
fn refused_transactions_keep_their_order() {
    let t = |data: u8| HashedTx { data: vec![data], hash: vec![data] };
    let mut r = Recovery::start(vec![t(1), t(2), t(3)]);
    let mut q = vec![vec![9]];
    r.on_result(SubmitResult::Refused, &mut q);
    r.on_result(SubmitResult::Taken, &mut q);
    r.on_result(SubmitResult::Refused, &mut q);
    assert_eq!(q, vec![vec![9], vec![1], vec![3]]);
    assert_eq!(r.recovered, 1);
}

#[test]
fn notifications_are_framed() {
    assert_eq!(after_prefix(&PrefixRead::Bytes(vec![1, 2, 0, 0])), ListenStep::ReadMessage(513));
    assert_eq!(after_prefix(&PrefixRead::Closed), ListenStep::Stop);
    assert_eq!(after_prefix(&PrefixRead::Failed), ListenStep::Fail);
    let n = notification_of(&[1, 2, 3]);
    assert_eq!(n.change_type, "UNKNOWN");
    assert_eq!((n.block_number, n.new_validator_count), (0, 0));
    assert_eq!(CommitteeNotificationListener::new("/tmp/n").socket_path, "/tmp/n");
}

#[test]
fn missing_blocks_are_found() {
    assert_eq!(perform_block_recovery_check(1, Some(9), 3, None), RecoveryFinding::NotOurs);
    assert_eq!(perform_block_recovery_check(0, None, 3, None), RecoveryFinding::NothingStored);
    assert_eq!(perform_block_recovery_check(0, Some(9), 3, Some(9)), RecoveryFinding::UpToDate);
    assert_eq!(
        perform_block_recovery_check(0, Some(9), 3, Some(8)),
        RecoveryFinding::Behind { from: 4, last_commit: 9 }
    );
    assert_eq!(
        perform_block_recovery_check(0, Some(9), 3, None),
        RecoveryFinding::Behind { from: 4, last_commit: 9 }
    );
}
