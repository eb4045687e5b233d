use metanode::node::catchup::{CatchupError, CatchupManager, CatchupState, Height};
use metanode::node::committee::{
    build_committee_from_validator_list, committee_from_answer, decode_address, decode_key,
    eth_addresses, leader_address, validators_from_peer, Candidate, CommitteeError, KeyKind,
    ValidatorFault, ValidatorInfo, ValidatorInfoSimple,
};
use metanode::node::epoch_monitor::EpochMonitor;
use metanode::node::committee_source::{
    CommitteeSource, EpochBoundary, FetchStep, FetchTimeout, Progress,
};

const BLS_HEX: &str = "93e02b6052719f607dacd3a088274f65596bd0d09920b61ab5da61bbdc7f5049334cf11213945d57e5ac7d055d042b7e024aa2b2f08f0a91260805272dc51051c6e47ad4fa403b02b4510b647ae3d1770bac0326a805bbefd48056c8c121bdb8";
const BLS_BASE64: &str = "k+ArYFJxn2B9rNOgiCdPZVlr0NCZILYatdphu9x/UEkzTPESE5RdV+WsfQVdBCt+AkqisvCPCpEmCAUnLcUQUcbketT6QDsCtFELZHrj0XcLrAMmqAW779SAVsjBIb24";
const ED_A: &str = "d75a980182b10ab7d54bfed3c964073a0ee172f3daa62325af021a68f707511a";
const ED_A_BASE64: &str = "11qYAYKxCrfVS/7TyWQHOg7hcvPapiMlrwIaaPcHURo=";
const ED_B_BASE64: &str = "PUAXw+hDiVqStwqnTRt+vJyYLM8uxJaMwM1V8Sr0Zgw=";

fn candidate(name: &str, address: &str) -> Candidate {
    Candidate {
        info: ValidatorInfo {
            name: name.to_string(),
            address: address.to_string(),
            stake: "7".to_string(),
            protocol_key: ED_A_BASE64.to_string(),
            network_key: ED_B_BASE64.to_string(),
            authority_key: BLS_BASE64.to_string(),
            description: String::new(),
            website: String::new(),
            image: String::new(),
            commission_rate: 0,
            min_self_delegation: String::new(),
            accumulated_rewards_per_share: String::new(),
            p2p_address: String::new(),
        },
        address_ok: true,
    }
}

#[test]
fn keys_are_read_in_every_form() {
    let a = decode_key(ED_A_BASE64).unwrap();
    assert_eq!(decode_key(&format!("0x{}", ED_A)).unwrap(), a);
    assert_eq!(a.len(), 32);
    assert_eq!(&a[..3], &[0xd7, 0x5a, 0x98]);
    // Without a mark, text that is base64 is read as such.
    assert_eq!(decode_key("abcd").unwrap(), vec![0x69, 0xb7, 0x1d]);
    // Six digits are no base64, so they are hexadecimal.
    assert_eq!(decode_key("abcdef").unwrap(), vec![0xab, 0xcd, 0xef]);
    // Only canonical text is taken: padded, and with no bits left over.
    assert_eq!(decode_key("TQ==").unwrap(), vec![77]);
    assert_eq!(decode_key("TWE=").unwrap(), vec![77, 97]);
    assert_eq!(decode_key("///+").unwrap(), vec![255, 255, 254]);
    assert!(decode_key("").unwrap().is_empty());
    assert_eq!(decode_key("TQ"), None);
    assert_eq!(decode_key("TQ="), None);
    assert_eq!(decode_key("TR=="), None);
    assert_eq!(decode_key("TQ==TQ=="), None);
    assert_eq!(decode_key("TWE=\n"), None);
    assert_eq!(decode_key("0xabc"), None);
    assert_eq!(decode_key("-"), None);
}

#[test]
fn committees_are_in_the_order_of_addresses() {
    let c = build_committee_from_validator_list(
        vec![candidate("b", "/ip4/2"), candidate("", "/ip4/10"), candidate("a", "/ip4/3")],
        4,
    )
    .unwrap();
    assert_eq!((c.epoch, c.size()), (4, 3));
    let hosts: Vec<&str> = c.authorities.iter().map(|a| a.hostname.as_str()).collect();
    assert_eq!(hosts, vec!["node-0", "b", "a"]);
    assert!(c.authorities.iter().all(|a| a.stake == 7 && a.authority_key.len() == 96));
    let key = decode_key(ED_A_BASE64).unwrap();
    assert_eq!(c.index_of_key(&key), Some(0));
    assert!(c.has_key(&key));
    assert!(!c.has_key(&[1; 32]));
    assert_eq!(c.index_of_key(&[1; 32]), None);
}

#[test]
fn order_of_reports_does_not_matter() {
    let a = vec![candidate("x", "1"), candidate("y", "2"), candidate("z", "3")];
    let b = vec![a[2].clone(), a[0].clone(), a[1].clone()];
    let names = |v| {
        let c = build_committee_from_validator_list(v, 0).unwrap();
        c.authorities.iter().map(|a| a.hostname.clone()).collect::<Vec<_>>()
    };
    assert_eq!(names(a), names(b));
}

fn fault(change: fn(&mut Candidate)) -> CommitteeError {
    let mut bad = candidate("bad", "/b");
    change(&mut bad);
    build_committee_from_validator_list(vec![bad, candidate("good", "/a")], 1).unwrap_err()
}

#[test]
fn faults_are_found() {
    assert_eq!(fault(|c| c.info.stake = "1x".to_string()).fault, ValidatorFault::Stake);
    assert_eq!(fault(|c| c.info.stake = "-1".to_string()).position, 1);
    assert_eq!(fault(|c| c.address_ok = false).fault, ValidatorFault::Address);
    assert_eq!(
        fault(|c| c.info.authority_key = "?".to_string()).fault,
        ValidatorFault::KeyText(KeyKind::Authority)
    );
    assert_eq!(
        fault(|c| c.info.authority_key = ED_A_BASE64.to_string()).fault,
        ValidatorFault::Key(KeyKind::Authority)
    );
    assert_eq!(
        fault(|c| c.info.protocol_key = "0x1".to_string()).fault,
        ValidatorFault::KeyText(KeyKind::Protocol)
    );
    assert_eq!(
        fault(|c| c.info.protocol_key = "0x01".to_string()).fault,
        ValidatorFault::Key(KeyKind::Protocol)
    );
    assert_eq!(
        fault(|c| c.info.network_key = "!".to_string()).fault,
        ValidatorFault::KeyText(KeyKind::Network)
    );
    assert_eq!(
        fault(|c| c.info.network_key = BLS_BASE64.to_string()).fault,
        ValidatorFault::Key(KeyKind::Network)
    );
    // A point that is not on the curve.
    assert_eq!(
        fault(|c| c.info.authority_key = format!("0x{}", "ff".repeat(96))).fault,
        ValidatorFault::Key(KeyKind::Authority)
    );
    let mut hex = candidate("hex", "/b");
    hex.info.authority_key = format!("0x{}", BLS_HEX);
    assert!(build_committee_from_validator_list(vec![hex], 1).is_ok());
}

#[test]
fn answers_without_validators_are_no_answers() {
    assert!(committee_from_answer(None, 1).is_none());
    assert!(committee_from_answer(Some(vec![]), 1).is_none());
    assert!(committee_from_answer(Some(vec![candidate("a", "/a")]), 1).unwrap().is_ok());
}

#[test]
fn leaders_have_addresses() {
    let mut a = candidate("a", "0x0102030405060708090a0b0c0d0e0f1011121314").info;
    a.authority_key = "zz".to_string();
    let mut b = candidate("b", "0xzz").info;
    b.authority_key = "aa".to_string();
    let list = eth_addresses(vec![a, b]);
    assert_eq!(list[0], Vec::<u8>::new());
    assert_eq!(list[1].len(), 20);
    assert_eq!(leader_address(&list, 0), None);
    assert_eq!(leader_address(&list, 1).unwrap()[19], 0x14);
    assert_eq!(leader_address(&list, 2), None);
    assert_eq!(decode_address("0x0x01"), vec![1]);
    assert_eq!(decode_address("1"), Vec::<u8>::new());
}

#[test]
fn stakes_of_peers_survive() {
    let v = vec![ValidatorInfoSimple {
        name: "n".to_string(),
        address: "/a".to_string(),
        stake: u64::MAX,
        protocol_key: ED_A_BASE64.to_string(),
        network_key: ED_B_BASE64.to_string(),
        authority_key: BLS_BASE64.to_string(),
    }];
    let t = validators_from_peer(&v);
    assert_eq!(t[0].stake, "18446744073709551615");
    let c = build_committee_from_validator_list(
        vec![Candidate { info: t[0].clone(), address_ok: true }],
        0,
    )
    .unwrap();
    assert_eq!(c.authorities[0].stake, u64::MAX);
}

fn progress(epoch: u64, last_block: u64) -> Option<Progress> {
    Some(Progress { epoch, last_block })
}

#[test]
fn test_committee_source_local_only() {
    let s = CommitteeSource::discover(Some(2), Some(9), "/tmp/r".to_string(), vec![], &vec![]);
    assert!(!s.is_peer);
    assert_eq!((s.epoch, s.last_block), (2, 9));
    assert_eq!(s.socket_path, "/tmp/r");
    assert!(s.validate_epoch(2));
    assert!(!s.validate_epoch(3));
}

#[test]
fn the_most_advanced_peer_is_followed() {
    let peers = vec!["a".to_string(), "b".to_string(), "c".to_string()];
    let replies = vec![progress(2, 50), None, progress(3, 1)];
    let s = CommitteeSource::discover(Some(2), Some(9), "/r".to_string(), peers.clone(), &replies);
    assert!(s.is_peer);
    assert_eq!((s.epoch, s.last_block), (3, 1));
    assert_eq!(s.peer_rpc_addresses, peers);
    let level = vec![progress(2, 9), None, progress(1, 100)];
    let s = CommitteeSource::discover(Some(2), Some(9), "/r".to_string(), peers.clone(), &level);
    assert!(!s.is_peer);
    let s = CommitteeSource::discover(None, None, "/r".to_string(), peers, &level);
    assert_eq!((s.epoch, s.last_block), (2, 9));
}

#[test]
fn committees_are_waited_for() {
    let s = CommitteeSource::discover(Some(2), Some(9), "/r".to_string(), vec![], &vec![]);
    let boundary = |epoch| EpochBoundary {
        epoch,
        timestamp_ms: 55,
        boundary_block: 8,
        validators: vec![candidate("a", "/a")],
    };
    let mut f = s.fetch_committee_with_timestamp(3);
    assert_eq!(f.begin(), Ok(true));
    assert!(matches!(f.on_answer(None), FetchStep::Wait(500)));
    assert_eq!(f.begin(), Ok(false));
    assert!(matches!(f.on_answer(Some(boundary(2))), FetchStep::Wait(1000)));
    match f.on_answer(Some(boundary(3))) {
        FetchStep::Found { committee, timestamp_ms } => {
            assert_eq!((committee.epoch, committee.size(), timestamp_ms), (3, 1, 55));
        }
        FetchStep::Wait(_) => panic!("the committee is there"),
    }
    let waits: Vec<u64> = (0..4).map(|_| f.pause()).collect();
    assert_eq!(waits, vec![2000, 4000, 5000, 5000]);
    for _ in 2..60 {
        assert!(f.begin().is_ok());
    }
    let e = f.begin().unwrap_err();
    assert_eq!(e, FetchTimeout { epoch: 3, attempts: 60 });
    assert_eq!(
        e.message(),
        "Timeout waiting for Go to have epoch 3 data after 60 attempts. Go may not have synced to this epoch yet."
    );
    let mut f = s.fetch_committee(3);
    for _ in 0..100 {
        assert!(f.begin().is_ok());
    }
    let mut bad = boundary(3);
    bad.validators[0].address_ok = false;
    assert!(matches!(f.on_answer(Some(bad)), FetchStep::Wait(500)));
}

#[test]
fn nodes_catch_up() {
    let mut m = CatchupManager::new("/s".to_string(), vec!["p".to_string()]);
    assert_eq!(m.state, CatchupState::Initializing);
    assert_eq!(m.check_sync_status(1, 0, None, Some(1), None), Err(CatchupError::Epoch));
    assert_eq!(m.check_sync_status(1, 0, Some(1), None, None), Err(CatchupError::LastBlock));
    assert_eq!(m.state, CatchupState::Initializing);
    let peers = Some(Height { epoch: 2, block: 100 });
    let s = m.check_sync_status(1, 7, Some(1), Some(50), peers).unwrap();
    assert!(!s.ready && !s.epoch_match);
    assert_eq!((s.block_gap, s.commit_gap, s.go_epoch), (u64::MAX, u64::MAX, 1));
    assert_eq!(m.state, CatchupState::SyncingEpoch { target_epoch: 2, local_epoch: 1 });
    let s = m.check_sync_status(2, 7, Some(1), Some(94), peers).unwrap();
    assert!(!s.ready);
    assert_eq!((s.block_gap, s.commit_gap, s.network_block_height), (6, 0, 100));
    assert_eq!(m.state, CatchupState::SyncingCommits { target_commit: 0, current_commit: 7 });
    assert!(m.check_sync_status(2, 7, Some(1), Some(95), peers).unwrap().ready);
    assert_eq!(m.state, CatchupState::Ready);
    assert!(m.check_sync_status(1, 7, Some(1), Some(0), None).unwrap().ready);
    // Without configured peers nobody else is asked.
    let mut alone = CatchupManager::new("/s".to_string(), vec![]);
    assert!(alone.check_sync_status(1, 7, Some(1), Some(0), peers).unwrap().ready);
}

#[test]
fn the_monitor_and_the_committee_agree() {
    let key = decode_key(ED_A_BASE64).unwrap();
    let monitor = EpochMonitor::new(0, Some(&key), None);
    assert_eq!(monitor.own_key, ED_A_BASE64);
    let v = candidate("x", "/a");
    assert!(monitor.is_in_committee(&vec![v.info.clone()]));
    let c = build_committee_from_validator_list(vec![v], 0).unwrap();
    assert!(c.has_key(&key));
}

#[test]
fn marked_hexadecimal_is_read_back() {
    for bytes in [vec![], vec![0x0f], vec![0, 255, 16]] {
        let text: String = bytes.iter().map(|b: &u8| format!("{:02x}", b)).collect();
        assert_eq!(decode_key(&format!("0x{}", text)), Some(bytes.clone()));
        assert_eq!(decode_address(&format!("0x{}", text)), bytes);
    }
}

#[test]
fn the_status_names_the_executors_epoch() {
    let mut cm = CatchupManager::new("s".to_string(), vec!["10.0.0.1:19000".to_string()]);
    let peers = Some(Height { epoch: 4, block: 12 });
    let s = cm.check_sync_status(3, 0, Some(3), Some(10), peers).unwrap();
    assert_eq!((s.go_epoch, s.epoch_match, s.ready), (3, false, false));
    assert_eq!(cm.state, CatchupState::SyncingEpoch { target_epoch: 4, local_epoch: 3 });
}
