//! Transaction hashes.
//!
//! A payload is a list of transactions, one transaction, or plain bytes. The
//! hash of a transaction is the Keccak-256 digest of its signed fields in
//! their encoded form.
use crate::crypto::{hex_encode, hex_text, keccak256, keccak256_digest};
use crate::wire::{contents, copy_list, copy_range};
use vstd::prelude::*;

verus! {

/// Storage that a transaction touches.
#[derive(Clone, Debug)]
pub struct AccessTuple {
    pub address: Vec<u8>,
    pub storage_keys: Vec<Vec<u8>>,
}

/// The value of an [`AccessTuple`].
pub struct AccessValue {
    pub address: Seq<u8>,
    pub storage_keys: Seq<Seq<u8>>,
}

impl View for AccessTuple {
    type V = AccessValue;

    open spec fn view(&self) -> AccessValue {
        AccessValue { address: self.address@, storage_keys: contents(self.storage_keys@) }
    }
}

/// The values of a list of access tuples.
pub open spec fn access_values(v: Seq<AccessTuple>) -> Seq<AccessValue> {
    v.map_values(|a: AccessTuple| a@)
}

/// A transaction.
#[derive(Clone, Debug)]
pub struct Transaction {
    pub from_address: Vec<u8>,
    pub to_address: Vec<u8>,
    pub amount: Vec<u8>,
    pub max_gas: u64,
    pub max_gas_price: u64,
    pub max_time_use: u64,
    pub data: Vec<u8>,
    pub tx_type: u64,
    pub last_device_key: Vec<u8>,
    pub new_device_key: Vec<u8>,
    pub nonce: Vec<u8>,
    pub chain_id: u64,
    pub r: Vec<u8>,
    pub s: Vec<u8>,
    pub v: Vec<u8>,
    pub gas_tip_cap: Vec<u8>,
    pub gas_fee_cap: Vec<u8>,
    pub access_list: Vec<AccessTuple>,
}

/// The fields of a transaction that its hash covers.
#[derive(Clone, Debug)]
pub struct TransactionHashData {
    pub from_address: Vec<u8>,
    pub to_address: Vec<u8>,
    pub amount: Vec<u8>,
    pub max_gas: u64,
    pub max_gas_price: u64,
    pub max_time_use: u64,
    pub data: Vec<u8>,
    pub tx_type: u64,
    pub last_device_key: Vec<u8>,
    pub new_device_key: Vec<u8>,
    pub nonce: Vec<u8>,
    pub chain_id: u64,
    pub r: Vec<u8>,
    pub s: Vec<u8>,
    pub v: Vec<u8>,
    pub gas_tip_cap: Vec<u8>,
    pub gas_fee_cap: Vec<u8>,
    pub access_list: Vec<AccessTuple>,
}

/// The value of the fields that a hash covers.
pub struct HashFields {
    pub from_address: Seq<u8>,
    pub to_address: Seq<u8>,
    pub amount: Seq<u8>,
    pub max_gas: u64,
    pub max_gas_price: u64,
    pub max_time_use: u64,
    pub data: Seq<u8>,
    pub tx_type: u64,
    pub last_device_key: Seq<u8>,
    pub new_device_key: Seq<u8>,
    pub nonce: Seq<u8>,
    pub chain_id: u64,
    pub r: Seq<u8>,
    pub s: Seq<u8>,
    pub v: Seq<u8>,
    pub gas_tip_cap: Seq<u8>,
    pub gas_fee_cap: Seq<u8>,
    pub access_list: Seq<AccessValue>,
}

impl View for Transaction {
    type V = HashFields;

    open spec fn view(&self) -> HashFields {
        HashFields {
            from_address: self.from_address@,
            to_address: self.to_address@,
            amount: self.amount@,
            max_gas: self.max_gas,
            max_gas_price: self.max_gas_price,
            max_time_use: self.max_time_use,
            data: self.data@,
            tx_type: self.tx_type,
            last_device_key: self.last_device_key@,
            new_device_key: self.new_device_key@,
            nonce: self.nonce@,
            chain_id: self.chain_id,
            r: self.r@,
            s: self.s@,
            v: self.v@,
            gas_tip_cap: self.gas_tip_cap@,
            gas_fee_cap: self.gas_fee_cap@,
            access_list: access_values(self.access_list@),
        }
    }
}

impl View for TransactionHashData {
    type V = HashFields;

    open spec fn view(&self) -> HashFields {
        HashFields {
            from_address: self.from_address@,
            to_address: self.to_address@,
            amount: self.amount@,
            max_gas: self.max_gas,
            max_gas_price: self.max_gas_price,
            max_time_use: self.max_time_use,
            data: self.data@,
            tx_type: self.tx_type,
            last_device_key: self.last_device_key@,
            new_device_key: self.new_device_key@,
            nonce: self.nonce@,
            chain_id: self.chain_id,
            r: self.r@,
            s: self.s@,
            v: self.v@,
            gas_tip_cap: self.gas_tip_cap@,
            gas_fee_cap: self.gas_fee_cap@,
            access_list: access_values(self.access_list@),
        }
    }
}

/// What reading a payload gave: as a list of transactions and as a single one.
/// `None` stands for a payload that cannot be read that way.
#[derive(Clone, Debug)]
pub struct PayloadReading {
    pub list: Option<Vec<Transaction>>,
    pub single: Option<Transaction>,
}

/// The transaction that stands for a payload: the first of a list that is not
/// empty, or else the single one.
pub open spec fn payload_transaction(p: PayloadReading) -> Option<HashFields> {
    if p.list is Some && p.list->Some_0@.len() > 0 {
        Some(p.list->Some_0@[0]@)
    } else {
        match p.single {
            Some(t) => Some(t@),
            None => None,
        }
    }
}

/// The hash of a payload. `encoded` is the encoded form of the fields to hash;
/// without it the transaction's data are hashed, and a payload without a
/// transaction is hashed as it is.
pub open spec fn payload_hash(
    raw: Seq<u8>,
    transaction: Option<HashFields>,
    encoded: Option<Seq<u8>>,
) -> Seq<u8> {
    match transaction {
        Some(t) => match encoded {
            Some(e) => keccak256(e),
            None => keccak256(t.data),
        },
        None => keccak256(raw),
    }
}

/// The bytes of an encoded form.
pub open spec fn optional_bytes(v: Option<Vec<u8>>) -> Option<Seq<u8>> {
    match v {
        Some(b) => Some(b@),
        None => None,
    }
}

fn copied(v: &Vec<u8>) -> (out: Vec<u8>)
    ensures
        out@ == v@,
{
    let out = copy_range(v.as_slice(), 0, v.len());
    assert(out@ =~= v@);
    out
}

impl TransactionHashData {
    /// The fields of `tx` that its hash covers.
    pub fn of(tx: &Transaction) -> (d: TransactionHashData)
        ensures
            d@ == tx@,
    {
        let mut access_list: Vec<AccessTuple> = Vec::new();
        let ghost all = access_values(tx.access_list@);
        let mut i: usize = 0;
        while i < tx.access_list.len()
            invariant
                i <= tx.access_list@.len(),
                all == access_values(tx.access_list@),
                access_values(access_list@) == all.subrange(0, i as int),
            decreases tx.access_list.len() - i,
        {
            let ghost before = access_values(access_list@);
            let t = &tx.access_list[i];
            let a = AccessTuple {
                address: copied(&t.address),
                storage_keys: copy_list(&t.storage_keys),
            };
            access_list.push(a);
            i += 1;
            assert(a@ == all[i - 1]);
            assert(access_values(access_list@) =~= before.push(a@));
            assert(access_values(access_list@) =~= all.subrange(0, i as int));
        }
        assert(all.subrange(0, all.len() as int) =~= all);
        TransactionHashData {
            from_address: copied(&tx.from_address),
            to_address: copied(&tx.to_address),
            amount: copied(&tx.amount),
            max_gas: tx.max_gas,
            max_gas_price: tx.max_gas_price,
            max_time_use: tx.max_time_use,
            data: copied(&tx.data),
            tx_type: tx.tx_type,
            last_device_key: copied(&tx.last_device_key),
            new_device_key: copied(&tx.new_device_key),
            nonce: copied(&tx.nonce),
            chain_id: tx.chain_id,
            r: copied(&tx.r),
            s: copied(&tx.s),
            v: copied(&tx.v),
            gas_tip_cap: copied(&tx.gas_tip_cap),
            gas_fee_cap: copied(&tx.gas_fee_cap),
            access_list,
        }
    }
}

/// The fields to encode for the hash of a payload, if it holds a transaction.
pub fn hash_data(p: &PayloadReading) -> (r: Option<TransactionHashData>)
    ensures
        match r {
            Some(d) => payload_transaction(*p) == Some(d@),
            None => payload_transaction(*p) is None,
        },
{
    match &p.list {
        Some(v) => {
            if v.len() > 0 {
                return Some(TransactionHashData::of(&v[0]));
            }
        },
        None => {},
    }
    match &p.single {
        Some(t) => Some(TransactionHashData::of(t)),
        None => None,
    }
}

/// The hash of one transaction, from the encoded form of its fields.
pub fn calculate_single_transaction_hash(data: &[u8], encoded: Option<Vec<u8>>) -> (h: Vec<u8>)
    ensures
        h@ == match encoded {
            Some(e) => keccak256(e@),
            None => keccak256(data@),
        },
        h@.len() == 32,
{
    match encoded {
        Some(e) => keccak256_digest(e.as_slice()),
        None => keccak256_digest(data),
    }
}

/// The hash of a payload, see [`payload_hash`]. `encoded` is the encoded form
/// of what [`hash_data`] gives.
pub fn calculate_transaction_hash(
    tx_data: &[u8],
    reading: &PayloadReading,
    encoded: Option<Vec<u8>>,
) -> (h: Vec<u8>)
    ensures
        h@ == payload_hash(tx_data@, payload_transaction(*reading), optional_bytes(encoded)),
        h@.len() == 32,
{
    match hash_data(reading) {
        Some(d) => calculate_single_transaction_hash(d.data.as_slice(), encoded),
        None => keccak256_digest(tx_data),
    }
}

/// The first eight bytes of a hash, or all of a shorter one, in hexadecimal.
pub fn short_hash(hash: &[u8]) -> (s: String)
    ensures
        s@ == hex_text(
            hash@.subrange(
                0,
                if hash@.len() < 8 {
                    hash@.len() as int
                } else {
                    8
                },
            ),
        ),
{
    let n: usize = if hash.len() < 8 {
        hash.len()
    } else {
        8
    };
    let head = copy_range(hash, 0, n);
    hex_encode(head.as_slice())
}

/// The first eight bytes of the hash of a payload, in hexadecimal.
pub fn calculate_transaction_hash_hex(
    tx_data: &[u8],
    reading: &PayloadReading,
    encoded: Option<Vec<u8>>,
) -> (s: String)
    ensures
        s@ == hex_text(
            payload_hash(
                tx_data@,
                payload_transaction(*reading),
                optional_bytes(encoded),
            ).subrange(0, 8),
        ),
{
    let hash = calculate_transaction_hash(tx_data, reading, encoded);
    short_hash(hash.as_slice())
}

/// Whether a payload can be read as transactions, either way.
pub fn verify_transaction_protobuf(reading: &PayloadReading) -> (b: bool)
    ensures
        b == (reading.list is Some || reading.single is Some),
{
    reading.list.is_some() || reading.single.is_some()
}

/// The hash depends on the fields of the transaction alone, not on how the
/// payload carries it: alone or as the first of a list.
pub proof fn law_hash_same_in_list(
    raw_a: Seq<u8>,
    raw_b: Seq<u8>,
    a: PayloadReading,
    b: PayloadReading,
    encoded: Option<Seq<u8>>,
)
    requires
        a.list is Some && a.list->Some_0@.len() > 0,
        b.list is None && b.single is Some,
        a.list->Some_0@[0]@ == b.single->Some_0@,
    ensures
        payload_hash(raw_a, payload_transaction(a), encoded) == payload_hash(
            raw_b,
            payload_transaction(b),
            encoded,
        ),
{
}

/// The hash of a transaction covers each of its fields: what is encoded for it
/// has the same sender, receiver, amount, limits, data, kind, keys, nonce, chain,
/// signature, fees and access list.
pub proof fn law_hash_covers_all_fields(t: Transaction, d: TransactionHashData)
    requires
        d@ == t@,
    ensures
        d.from_address@ == t.from_address@,
        d.to_address@ == t.to_address@,
        d.amount@ == t.amount@,
        d.max_gas == t.max_gas,
        d.max_gas_price == t.max_gas_price,
        d.max_time_use == t.max_time_use,
        d.data@ == t.data@,
        d.tx_type == t.tx_type,
        d.last_device_key@ == t.last_device_key@,
        d.new_device_key@ == t.new_device_key@,
        d.nonce@ == t.nonce@,
        d.chain_id == t.chain_id,
        d.r@ == t.r@,
        d.s@ == t.s@,
        d.v@ == t.v@,
        d.gas_tip_cap@ == t.gas_tip_cap@,
        d.gas_fee_cap@ == t.gas_fee_cap@,
        d.access_list@.len() == t.access_list@.len(),
        forall|i: int|
            0 <= i < t.access_list@.len() ==> (#[trigger] d.access_list@[i]).address@
                == t.access_list@[i].address@ && contents(d.access_list@[i].storage_keys@)
                == contents(t.access_list@[i].storage_keys@),
{
    let a = access_values(d.access_list@);
    let b = access_values(t.access_list@);
    assert(a == b);
    assert(a.len() == d.access_list@.len() && b.len() == t.access_list@.len());
    assert forall|i: int| 0 <= i < t.access_list@.len() implies (
    #[trigger] d.access_list@[i]).address@ == t.access_list@[i].address@ && contents(
        d.access_list@[i].storage_keys@,
    ) == contents(t.access_list@[i].storage_keys@) by {
        assert(a[i] == d.access_list@[i]@ && b[i] == t.access_list@[i]@);
    }
}

/// A payload is hashed by the encoded fields of its first transaction, a list
/// coming before a single one. Where they could not be encoded the data of that
/// transaction are hashed, and bytes that are no transaction are hashed as they
/// are.
pub proof fn law_what_is_hashed(raw: Seq<u8>, p: PayloadReading, encoded: Seq<u8>)
    ensures
        p.list is Some && p.list->Some_0@.len() > 0 ==> payload_hash(
            raw,
            payload_transaction(p),
            Some(encoded),
        ) == keccak256(encoded) && payload_hash(raw, payload_transaction(p), None) == keccak256(
            p.list->Some_0@[0].data@,
        ),
        (p.list is None || p.list->Some_0@.len() == 0) && p.single is Some ==> payload_hash(
            raw,
            payload_transaction(p),
            Some(encoded),
        ) == keccak256(encoded) && payload_hash(raw, payload_transaction(p), None) == keccak256(
            p.single->Some_0.data@,
        ),
        (p.list is None || p.list->Some_0@.len() == 0) && p.single is None ==> payload_hash(
            raw,
            payload_transaction(p),
            Some(encoded),
        ) == keccak256(raw) && payload_hash(raw, payload_transaction(p), None) == keccak256(raw),
{
}

} // verus!
