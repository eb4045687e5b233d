use metanode::rpc::{
    failed_response, find_body, follow_hash, not_found_response, not_ready_response, read_request,
    read_request_bytes, submitted_response, transaction_of, trim, trim_0x, RpcRequest,
};
use metanode::transaction::NoopTransactionVerifier;
use metanode::tx_hash::{
    calculate_single_transaction_hash, calculate_transaction_hash, calculate_transaction_hash_hex,
    hash_data, short_hash, verify_transaction_protobuf, AccessTuple, PayloadReading, Transaction,
};

const KECCAK_EMPTY: [u8; 32] = [
    0xc5, 0xd2, 0x46, 0x01, 0x86, 0xf7, 0x23, 0x3c, 0x92, 0x7e, 0x7d, 0xb2, 0xdc, 0xc7, 0x03, 0xc0,
    0xe5, 0x00, 0xb6, 0x53, 0xca, 0x82, 0x27, 0x3b, 0x7b, 0xfa, 0xd8, 0x04, 0x5d, 0x85, 0xa4, 0x70,
];

const KECCAK_ABC: [u8; 32] = [
    0x4e, 0x03, 0x65, 0x7a, 0xea, 0x45, 0xa9, 0x4f, 0xc7, 0xd4, 0x7b, 0xa8, 0x26, 0xc8, 0xd6, 0x67,
    0xc0, 0xd1, 0xe6, 0xe3, 0x3a, 0x64, 0xa0, 0x36, 0xec, 0x44, 0xf5, 0x8f, 0xa1, 0x2d, 0x6c, 0x45,
];

fn transaction(data: Vec<u8>) -> Transaction {
    Transaction {
        from_address: vec![1; 20],
        to_address: vec![2; 20],
        amount: vec![3],
        max_gas: 4,
        max_gas_price: 5,
        max_time_use: 6,
        data,
        tx_type: 7,
        last_device_key: vec![8],
        new_device_key: vec![9],
        nonce: vec![10],
        chain_id: 11,
        r: vec![12],
        s: vec![13],
        v: vec![14],
        gas_tip_cap: vec![15],
        gas_fee_cap: vec![16],
        access_list: vec![AccessTuple { address: vec![17], storage_keys: vec![vec![18], vec![]] }],
    }
}

fn unreadable() -> PayloadReading {
    PayloadReading { list: None, single: None }
}

#[test]
fn plain_bytes_are_hashed_as_they_are() {
    assert_eq!(calculate_transaction_hash(b"", &unreadable(), None), KECCAK_EMPTY.to_vec());
    assert_eq!(calculate_transaction_hash(b"abc", &unreadable(), None), KECCAK_ABC.to_vec());
    assert!(hash_data(&unreadable()).is_none());
    assert_eq!(calculate_transaction_hash_hex(b"abc", &unreadable(), None), "4e03657aea45a94f");
}

#[test]
fn transactions_are_hashed_by_their_fields() {
    let single = PayloadReading { list: None, single: Some(transaction(vec![1])) };
    let listed = PayloadReading {
        list: Some(vec![transaction(vec![1]), transaction(vec![2])]),
        single: Some(transaction(vec![3])),
    };
    let a = calculate_transaction_hash(b"x", &single, Some(b"abc".to_vec()));
    let b = calculate_transaction_hash(b"y", &listed, Some(b"abc".to_vec()));
    assert_eq!(a, KECCAK_ABC.to_vec());
    assert_eq!(a, b);
    let d = hash_data(&listed).unwrap();
    assert_eq!(d.data, vec![1]);
    assert_eq!((d.max_gas, d.max_gas_price, d.max_time_use, d.tx_type, d.chain_id), (4, 5, 6, 7, 11));
    assert_eq!(d.access_list[0].storage_keys, vec![vec![18], vec![]]);
    // An empty list gives way to the single reading.
    let empty = PayloadReading { list: Some(vec![]), single: Some(transaction(vec![3])) };
    assert_eq!(hash_data(&empty).unwrap().data, vec![3]);
}

#[test]
fn fields_that_cannot_be_encoded_leave_the_data() {
    let single = PayloadReading { list: None, single: Some(transaction(b"abc".to_vec())) };
    assert_eq!(calculate_transaction_hash(b"x", &single, None), KECCAK_ABC.to_vec());
    assert_eq!(calculate_single_transaction_hash(b"", None), KECCAK_EMPTY.to_vec());
}

#[test]
fn payloads_are_readable_either_way() {
    assert!(!verify_transaction_protobuf(&unreadable()));
    assert!(verify_transaction_protobuf(&PayloadReading { list: Some(vec![]), single: None }));
    let single = PayloadReading { list: None, single: Some(transaction(vec![])) };
    assert!(verify_transaction_protobuf(&single));
}

#[test]
fn short_hashes() {
    assert_eq!(short_hash(&[0xAB, 0x01]), "ab01");
    assert_eq!(short_hash(&[1, 2, 3, 4, 5, 6, 7, 8, 9]), "0102030405060708");
    assert_eq!(follow_hash(&[0xff; 32]), "ffffffffffffffff");
}

#[test]
fn every_transaction_passes() {
    let v = NoopTransactionVerifier;
    assert!(v.verify_batch(&vec![vec![1], vec![]]).is_ok());
    assert_eq!(v.verify_and_vote_batch(&vec![vec![1]]), Ok(vec![]));
}

#[test]
fn bodies_are_hexadecimal_or_text() {
    assert_eq!(transaction_of("0x12aB"), vec![0x12, 0xab]);
    assert_eq!(transaction_of("12ab"), vec![0x12, 0xab]);
    assert_eq!(transaction_of("0x12ab\r\n"), vec![0x12, 0xab]);
    assert_eq!(transaction_of("0x0x12"), vec![0x12]);
    // An odd number of digits is taken as it is.
    assert_eq!(transaction_of("123"), b"123".to_vec());
    assert_eq!(transaction_of("0xzz "), b"0xzz ".to_vec());
    assert_eq!(transaction_of("  hello \n"), b"hello".to_vec());
    assert_eq!(transaction_of(""), Vec::<u8>::new());
    assert_eq!(trim("\u{3000}a b\u{a0}"), "a b");
    assert_eq!(trim_0x("0x0x0a"), "0a");
}

#[test]
fn requests_are_read() {
    match read_request("POST /submit HTTP/1.1\r\nHost: a\r\n\r\nhello") {
        RpcRequest::Submit { tx_data, tx_hash } => {
            assert_eq!(tx_data, b"hello".to_vec());
            assert_eq!(tx_hash, "324dcf027dd4a30a");
        }
        RpcRequest::NotFound => panic!("a submission"),
    }
    match read_request("POST /submit\r\n\r\n0x12ab") {
        RpcRequest::Submit { tx_data, tx_hash } => {
            assert_eq!(tx_data, vec![0x12, 0xab]);
            assert_eq!(tx_hash, "3b4878aac56f8cbb");
        }
        RpcRequest::NotFound => panic!("a submission"),
    }
    assert!(matches!(read_request("GET / HTTP/1.1\r\n\r\n"), RpcRequest::NotFound));
}

#[test]
fn requests_are_read_from_bytes() {
    match read_request_bytes(b"POST /submit\r\n\r\n0x12ab") {
        Some(RpcRequest::Submit { tx_data, .. }) => assert_eq!(tx_data, vec![0x12, 0xab]),
        _ => panic!("a submission"),
    }
    // What is no text is replaced.
    match read_request_bytes(b"POST /submit\r\n\r\na\xffb") {
        Some(RpcRequest::Submit { tx_data, .. }) => {
            assert_eq!(tx_data, "a\u{fffd}b".as_bytes().to_vec())
        }
        _ => panic!("a submission"),
    }
    assert!(matches!(read_request_bytes(b"GET /\xff"), Some(RpcRequest::NotFound)));
    assert!(read_request_bytes(b"POST /submit\n\nb").is_none());
}

#[test]
fn bodies_start_after_the_blank_line() {
    assert_eq!(find_body("a\r\n\r\nbody"), Some(5));
    // Four bytes on after a bare blank line, too.
    assert_eq!(find_body("a\n\nbody"), Some(5));
    assert_eq!(find_body("a\n\n\u{e9}x"), Some(4));
    assert_eq!(find_body("a\n\nb"), None);
    assert_eq!(find_body("a\n\nb\u{e9}"), None);
    assert_eq!(find_body("abc"), Some(0));
}

#[test]
fn http_answers() {
    assert_eq!(not_found_response(), "HTTP/1.1 404 Not Found\r\n\r\n");
    assert_eq!(
        not_ready_response("busy"),
        "HTTP/1.1 503 Service Unavailable\r\nContent-Type: application/json\r\n\r\n{\"success\":false,\"error\":\"Node not ready to accept transactions: busy\"}"
    );
    assert_eq!(
        submitted_response("ab", "B1(2)", &vec![0, 12]),
        "HTTP/1.1 200 OK\r\nContent-Type: application/json\r\n\r\n{\"success\":true,\"tx_hash\":\"ab\",\"block_ref\":\"B1(2)\",\"indices\":[0, 12]}"
    );
    assert_eq!(
        failed_response("no"),
        "HTTP/1.1 500 Internal Server Error\r\nContent-Type: application/json\r\n\r\n{\"success\":false,\"error\":\"no\"}"
    );
}
