//! Committees: who validates in an epoch, in an order that all nodes share.
use crate::crypto::{
    base64_bytes, base64_decode, base64_text, bls_public_key_ok, ed25519_public_key_ok, hex_bytes,
    hex_decode, hex_text, is_bls_public_key, is_ed25519_public_key, law_base64_roundtrip,
    law_hex_roundtrip, lemma_hex_text, same_bytes,
};
use crate::order::{
    byte_key, bytes_eq, bytes_le, key_of, lex_le, stable_sort, stable_sort_vec, SortKey,
};
use crate::text::{decimal, decimal_text, parse_u64, u64_value};
use crate::wire::{contents, copy_range};
use vstd::prelude::*;
use vstd::string::*;
use vstd::utf8::{encode_utf8, is_ascii_chars, is_ascii_chars_encode_utf8};

verus! {

/// A validator as the executor reports it; keys and amounts are text.
#[derive(Clone, Debug)]
pub struct ValidatorInfo {
    pub name: String,
    pub address: String,
    pub stake: String,
    pub protocol_key: String,
    pub network_key: String,
    pub authority_key: String,
    pub description: String,
    pub website: String,
    pub image: String,
    pub commission_rate: u64,
    pub min_self_delegation: String,
    pub accumulated_rewards_per_share: String,
    pub p2p_address: String,
}

/// A validator as a peer reports it.
#[derive(Clone, Debug)]
pub struct ValidatorInfoSimple {
    pub name: String,
    pub address: String,
    pub stake: u64,
    pub protocol_key: String,
    pub network_key: String,
    pub authority_key: String,
}

/// A validator, and whether its address is a network address that can be used.
#[derive(Clone, Debug)]
pub struct Candidate {
    pub info: ValidatorInfo,
    pub address_ok: bool,
}

/// A member of a committee.
#[derive(Clone, Debug)]
pub struct Authority {
    pub stake: u64,
    pub address: String,
    pub hostname: String,
    pub authority_key: Vec<u8>,
    pub protocol_key: Vec<u8>,
    pub network_key: Vec<u8>,
}

/// The value of an [`Authority`].
pub struct AuthorityValue {
    pub stake: u64,
    pub address: Seq<char>,
    pub hostname: Seq<char>,
    pub authority_key: Seq<u8>,
    pub protocol_key: Seq<u8>,
    pub network_key: Seq<u8>,
}

impl View for Authority {
    type V = AuthorityValue;

    open spec fn view(&self) -> AuthorityValue {
        AuthorityValue {
            stake: self.stake,
            address: self.address@,
            hostname: self.hostname@,
            authority_key: self.authority_key@,
            protocol_key: self.protocol_key@,
            network_key: self.network_key@,
        }
    }
}

/// The members of an epoch, in order.
#[derive(Clone, Debug)]
pub struct Committee {
    pub epoch: u64,
    pub authorities: Vec<Authority>,
}

/// The values of the members.
pub open spec fn authority_values(v: Seq<Authority>) -> Seq<AuthorityValue> {
    v.map_values(|a: Authority| a@)
}

/// What is wrong with a validator.
#[derive(Clone, Copy, Debug, PartialEq, Eq, Structural)]
pub enum ValidatorFault {
    /// The stake is no number.
    Stake,
    /// The address is no network address.
    Address,
    /// A key is neither hexadecimal nor base64 text.
    KeyText(KeyKind),
    /// The bytes of a key are no public key.
    Key(KeyKind),
}

/// The keys of a validator.
#[derive(Clone, Copy, Debug, PartialEq, Eq, Structural)]
pub enum KeyKind {
    Authority,
    Protocol,
    Network,
}

/// The first fault in a list of validators, with its place in the sorted list.
#[derive(Clone, Copy, Debug, PartialEq, Eq, Structural)]
pub struct CommitteeError {
    pub position: usize,
    pub fault: ValidatorFault,
}

/// Text starts with `0x`.
pub open spec fn hex_marked(text: Seq<u8>) -> bool {
    text.len() >= 2 && text[0] == 48 && text[1] == 120
}

/// The bytes of a key: hexadecimal after `0x`; otherwise base64, or else
/// hexadecimal. `decoded` is what the text gives as base64.
pub open spec fn key_bytes(text: Seq<u8>, decoded: Option<Seq<u8>>) -> Option<Seq<u8>> {
    if hex_marked(text) {
        hex_bytes(text.subrange(2, text.len() as int))
    } else if decoded is Some {
        decoded
    } else {
        hex_bytes(text)
    }
}

/// The bytes of a key given as text.
pub open spec fn text_key(text: Seq<char>) -> Option<Seq<u8>> {
    key_bytes(encode_utf8(text), base64_bytes(encode_utf8(text)))
}

/// `text` without any `0x` in front.
pub open spec fn without_marks(text: Seq<u8>) -> Seq<u8>
    decreases text.len(),
{
    if hex_marked(text) {
        without_marks(text.subrange(2, text.len() as int))
    } else {
        text
    }
}

/// The bytes of an account address; empty if it is not hexadecimal.
pub open spec fn address_bytes(text: Seq<char>) -> Seq<u8> {
    match hex_bytes(without_marks(encode_utf8(text))) {
        Some(b) => b,
        None => Seq::empty(),
    }
}

/// The name of a member: its own, or one made of its place.
pub open spec fn member_name(name: Seq<char>, position: nat) -> Seq<char> {
    if name.len() > 0 {
        name
    } else {
        "node-"@ + decimal_text(position)
    }
}

/// A key that was read: its bytes and whether they are a public key, or
/// nothing if the text gives no bytes.
pub struct KeyReading {
    pub bytes: Seq<u8>,
    pub is_key: bool,
}

/// The member that a validator becomes, from the readings of its keys.
pub open spec fn member_of(
    c: Candidate,
    position: nat,
    authority: Option<KeyReading>,
    protocol: Option<KeyReading>,
    network: Option<KeyReading>,
) -> Result<AuthorityValue, ValidatorFault> {
    if u64_value(c.info.stake@) is None {
        Err(ValidatorFault::Stake)
    } else if !c.address_ok {
        Err(ValidatorFault::Address)
    } else if authority is None {
        Err(ValidatorFault::KeyText(KeyKind::Authority))
    } else if !authority->Some_0.is_key {
        Err(ValidatorFault::Key(KeyKind::Authority))
    } else if protocol is None {
        Err(ValidatorFault::KeyText(KeyKind::Protocol))
    } else if !protocol->Some_0.is_key {
        Err(ValidatorFault::Key(KeyKind::Protocol))
    } else if network is None {
        Err(ValidatorFault::KeyText(KeyKind::Network))
    } else if !network->Some_0.is_key {
        Err(ValidatorFault::Key(KeyKind::Network))
    } else {
        Ok(
            AuthorityValue {
                stake: u64_value(c.info.stake@)->Some_0,
                address: c.info.address@,
                hostname: member_name(c.info.name@, position),
                authority_key: authority->Some_0.bytes,
                protocol_key: protocol->Some_0.bytes,
                network_key: network->Some_0.bytes,
            },
        )
    }
}

/// The reading of a BLS key.
pub open spec fn bls_reading(text: Seq<char>) -> Option<KeyReading> {
    match text_key(text) {
        Some(bytes) => Some(KeyReading { bytes, is_key: is_bls_public_key(bytes) }),
        None => None,
    }
}

/// The reading of an Ed25519 key.
pub open spec fn ed25519_reading(text: Seq<char>) -> Option<KeyReading> {
    match text_key(text) {
        Some(bytes) => Some(KeyReading { bytes, is_key: is_ed25519_public_key(bytes) }),
        None => None,
    }
}

/// The member that a validator becomes at a place of the sorted list.
pub open spec fn validator_member(c: Candidate, position: nat) -> Result<
    AuthorityValue,
    ValidatorFault,
> {
    member_of(
        c,
        position,
        bls_reading(c.info.authority_key@),
        ed25519_reading(c.info.protocol_key@),
        ed25519_reading(c.info.network_key@),
    )
}

/// Validators are ordered by the bytes of their address.
pub open spec fn candidate_key(c: Candidate) -> Seq<int> {
    byte_key(encode_utf8(c.info.address@))
}

/// The validators in the order of the committee.
pub open spec fn committee_order(v: Seq<Candidate>) -> Seq<Candidate> {
    stable_sort(v, |c: Candidate| candidate_key(c))
}

/// A committee leaves no validator out.
pub proof fn lemma_order_permutes(v: Seq<Candidate>, c: Candidate)
    requires
        v.contains(c),
    ensures
        committee_order(v).contains(c),
        committee_order(v).len() == v.len(),
{
    broadcast use vstd::seq_lib::group_to_multiset_ensures;

    let key = |c: Candidate| candidate_key(c);
    crate::order::lemma_sort_permutes(v, key);
    crate::order::lemma_sort_sorted(v, key);
    assert(v.to_multiset().count(c) > 0);
    assert(committee_order(v).to_multiset().count(c) > 0);
}

impl SortKey for Candidate {
    open spec fn sort_key(&self) -> Seq<int> {
        candidate_key(*self)
    }

    fn key_le(&self, other: &Self) -> (b: bool) {
        bytes_le(self.info.address.as_str().as_bytes(), other.info.address.as_str().as_bytes())
    }
}

/// The bytes of a key, from its text and what the text gives as base64.
pub fn key_bytes_from(text: &str, decoded: Option<Vec<u8>>) -> (r: Option<Vec<u8>>)
    ensures
        same_bytes(
            r,
            key_bytes(
                encode_utf8(text@),
                match decoded {
                    Some(d) => Some(d@),
                    None => None,
                },
            ),
        ),
{
    let b = text.as_bytes();
    if b.len() >= 2 && b[0] == 48 && b[1] == 120 {
        let rest = copy_range(b, 2, b.len());
        hex_decode(rest.as_slice())
    } else {
        match decoded {
            Some(d) => Some(d),
            None => hex_decode(b),
        }
    }
}

/// The bytes of a key given as text, see [`text_key`].
pub fn decode_key(text: &str) -> (r: Option<Vec<u8>>)
    ensures
        same_bytes(r, text_key(text@)),
{
    let decoded = base64_decode(text.as_bytes());
    key_bytes_from(text, decoded)
}

/// The bytes of an account address, see [`address_bytes`].
pub fn decode_address(text: &str) -> (r: Vec<u8>)
    ensures
        r@ == address_bytes(text@),
{
    let b = text.as_bytes();
    let mut from: usize = 0;
    assert(b@.subrange(0, b@.len() as int) =~= b@);
    while b.len() - from >= 2 && b[from] == 48 && b[from + 1] == 120
        invariant
            from <= b@.len(),
            without_marks(b@) == without_marks(b@.subrange(from as int, b@.len() as int)),
        decreases b.len() - from,
    {
        proof {
            let part = b@.subrange(from as int, b@.len() as int);
            assert(part[0] == b@[from as int] && part[1] == b@[from + 1]);
            assert(part.subrange(2, part.len() as int) =~= b@.subrange(
                from + 2,
                b@.len() as int,
            ));
        }
        from += 2;
    }
    proof {
        let part = b@.subrange(from as int, b@.len() as int);
        if part.len() >= 2 {
            assert(part[0] == b@[from as int] && part[1] == b@[from + 1]);
        }
    }
    let rest = copy_range(b, from, b.len());
    match hex_decode(rest.as_slice()) {
        Some(v) => v,
        None => Vec::new(),
    }
}

/// The reading that a key's bytes and the verdict on them make up.
pub open spec fn reading_of(k: Option<(Vec<u8>, bool)>) -> Option<KeyReading> {
    match k {
        Some((bytes, is_key)) => Some(KeyReading { bytes: bytes@, is_key }),
        None => None,
    }
}

/// Makes a member of a validator, from the readings of its keys.
pub fn authority_from(
    c: &Candidate,
    position: usize,
    authority: Option<(Vec<u8>, bool)>,
    protocol: Option<(Vec<u8>, bool)>,
    network: Option<(Vec<u8>, bool)>,
) -> (r: Result<Authority, ValidatorFault>)
    ensures
        match r {
            Ok(a) => member_of(
                *c,
                position as nat,
                reading_of(authority),
                reading_of(protocol),
                reading_of(network),
            ) == Ok::<AuthorityValue, ValidatorFault>(a@),
            Err(f) => member_of(
                *c,
                position as nat,
                reading_of(authority),
                reading_of(protocol),
                reading_of(network),
            ) == Err::<AuthorityValue, ValidatorFault>(f),
        },
{
    let stake: u64 = match parse_u64(c.info.stake.as_str()) {
        Some(n) => n,
        None => {
            return Err(ValidatorFault::Stake);
        },
    };
    if !c.address_ok {
        return Err(ValidatorFault::Address);
    }
    let authority_key = match authority {
        Some((bytes, is_key)) => {
            if !is_key {
                return Err(ValidatorFault::Key(KeyKind::Authority));
            }
            bytes
        },
        None => {
            return Err(ValidatorFault::KeyText(KeyKind::Authority));
        },
    };
    let protocol_key = match protocol {
        Some((bytes, is_key)) => {
            if !is_key {
                return Err(ValidatorFault::Key(KeyKind::Protocol));
            }
            bytes
        },
        None => {
            return Err(ValidatorFault::KeyText(KeyKind::Protocol));
        },
    };
    let network_key = match network {
        Some((bytes, is_key)) => {
            if !is_key {
                return Err(ValidatorFault::Key(KeyKind::Network));
            }
            bytes
        },
        None => {
            return Err(ValidatorFault::KeyText(KeyKind::Network));
        },
    };
    let hostname = if c.info.name.as_str().is_empty() {
        let mut s = String::from_str("node-");
        s.append(decimal(position as u64).as_str());
        s
    } else {
        c.info.name.clone()
    };
    Ok(
        Authority {
            stake,
            address: c.info.address.clone(),
            hostname,
            authority_key,
            protocol_key,
            network_key,
        },
    )
}

fn read_bls_key(text: &str) -> (r: Option<(Vec<u8>, bool)>)
    ensures
        reading_of(r) == bls_reading(text@),
{
    match decode_key(text) {
        Some(bytes) => {
            let ok: bool = bls_public_key_ok(bytes.as_slice());
            Some((bytes, ok))
        },
        None => None,
    }
}

fn read_ed25519_key(text: &str) -> (r: Option<(Vec<u8>, bool)>)
    ensures
        reading_of(r) == ed25519_reading(text@),
{
    match decode_key(text) {
        Some(bytes) => {
            let ok: bool = ed25519_public_key_ok(bytes.as_slice());
            Some((bytes, ok))
        },
        None => None,
    }
}

/// Builds the committee of an epoch: the validators in the order of their
/// addresses, each with its keys decoded. The first fault in that order is
/// reported.
pub fn build_committee_from_validator_list(validators: Vec<Candidate>, epoch: u64) -> (r: Result<
    Committee,
    CommitteeError,
>)
    ensures
        match r {
            Ok(c) => {
                &&& c.epoch == epoch
                &&& c.authorities@.len() == validators@.len()
                &&& forall|i: int|
                    0 <= i < validators@.len() ==> validator_member(
                        #[trigger] committee_order(validators@)[i],
                        i as nat,
                    ) == Ok::<AuthorityValue, ValidatorFault>(c.authorities@[i]@)
            },
            Err(e) => {
                &&& e.position < validators@.len()
                &&& validator_member(
                    committee_order(validators@)[e.position as int],
                    e.position as nat,
                ) == Err::<AuthorityValue, ValidatorFault>(e.fault)
                &&& forall|i: int|
                    0 <= i < e.position ==> validator_member(
                        #[trigger] committee_order(validators@)[i],
                        i as nat,
                    ) is Ok
            },
        },
{
    let ghost given = validators@;
    let sorted = stable_sort_vec(validators);
    proof {
        let f = |c: Candidate| c;
        let key = |c: Candidate| candidate_key(c);
        crate::order::lemma_sort_map(given, key_of::<Candidate>(), f, key);
        assert(given.map_values(f) =~= given);
        assert(sorted@.map_values(f) =~= sorted@);
        assert(sorted@ == committee_order(given));
        crate::order::lemma_sort_sorted(given, key);
    }
    let mut authorities: Vec<Authority> = Vec::new();
    let mut i: usize = 0;
    while i < sorted.len()
        invariant
            i <= sorted@.len(),
            sorted@ == committee_order(given),
            sorted@.len() == given.len(),
            given == validators@,
            authorities@.len() == i,
            forall|j: int|
                0 <= j < i ==> validator_member(#[trigger] sorted@[j], j as nat) == Ok::<
                    AuthorityValue,
                    ValidatorFault,
                >(authorities@[j]@),
        decreases sorted.len() - i,
    {
        let c = &sorted[i];
        let authority = read_bls_key(c.info.authority_key.as_str());
        let protocol = read_ed25519_key(c.info.protocol_key.as_str());
        let network = read_ed25519_key(c.info.network_key.as_str());
        match authority_from(c, i, authority, protocol, network) {
            Ok(a) => {
                authorities.push(a);
            },
            Err(fault) => {
                return Err(CommitteeError { position: i, fault });
            },
        }
        i += 1;
    }
    Ok(Committee { epoch, authorities })
}

impl Committee {
    /// The number of members.
    pub fn size(&self) -> (n: usize)
        ensures
            n == self.authorities@.len(),
    {
        self.authorities.len()
    }

    /// The place of the member with a protocol key; of several the first.
    pub fn index_of_key(&self, protocol_key: &[u8]) -> (r: Option<usize>)
        ensures
            match r {
                Some(i) => {
                    &&& i < self.authorities@.len()
                    &&& self.authorities@[i as int].protocol_key@ == protocol_key@
                    &&& forall|j: int|
                        0 <= j < i ==> (#[trigger] self.authorities@[j]).protocol_key@
                            != protocol_key@
                },
                None => !has_member(*self, protocol_key@),
            },
    {
        let mut i: usize = 0;
        while i < self.authorities.len()
            invariant
                i <= self.authorities@.len(),
                forall|j: int|
                    0 <= j < i ==> (#[trigger] self.authorities@[j]).protocol_key@ != protocol_key@,
            decreases self.authorities.len() - i,
        {
            if bytes_eq(self.authorities[i].protocol_key.as_slice(), protocol_key) {
                return Some(i);
            }
            i += 1;
        }
        None
    }

    /// Whether a member has a protocol key.
    pub fn has_key(&self, protocol_key: &[u8]) -> (b: bool)
        ensures
            b == has_member(*self, protocol_key@),
    {
        let r = self.index_of_key(protocol_key);
        assert(r is Some ==> self.authorities@[r->Some_0 as int].protocol_key@ == protocol_key@);
        r.is_some()
    }
}

/// The committee has a member with a protocol key.
pub open spec fn has_member(c: Committee, protocol_key: Seq<u8>) -> bool {
    exists|i: int|
        0 <= i < c.authorities@.len() && (#[trigger] c.authorities@[i]).protocol_key@
            == protocol_key
}

/// Validators by authority key.
pub open spec fn by_authority_key(v: Seq<ValidatorInfo>) -> Seq<ValidatorInfo> {
    stable_sort(v, |i: ValidatorInfo| byte_key(encode_utf8(i.authority_key@)))
}

impl SortKey for ValidatorInfo {
    open spec fn sort_key(&self) -> Seq<int> {
        byte_key(encode_utf8(self.authority_key@))
    }

    fn key_le(&self, other: &Self) -> (b: bool) {
        bytes_le(self.authority_key.as_str().as_bytes(), other.authority_key.as_str().as_bytes())
    }
}

/// The account addresses of the validators, in the order of their authority
/// keys: the place of an address is the leader index that it belongs to.
pub fn eth_addresses(validators: Vec<ValidatorInfo>) -> (r: Vec<Vec<u8>>)
    ensures
        r@.len() == validators@.len(),
        forall|i: int|
            0 <= i < r@.len() ==> (#[trigger] r@[i])@ == address_bytes(
                by_authority_key(validators@)[i].address@,
            ),
{
    let ghost given = validators@;
    let sorted = stable_sort_vec(validators);
    proof {
        let f = |c: ValidatorInfo| c;
        let key = |i: ValidatorInfo| byte_key(encode_utf8(i.authority_key@));
        crate::order::lemma_sort_map(given, key_of::<ValidatorInfo>(), f, key);
        assert(given.map_values(f) =~= given);
        assert(sorted@.map_values(f) =~= sorted@);
        crate::order::lemma_sort_sorted(given, key);
    }
    let mut r: Vec<Vec<u8>> = Vec::new();
    let mut i: usize = 0;
    while i < sorted.len()
        invariant
            i <= sorted@.len(),
            sorted@ == by_authority_key(given),
            sorted@.len() == given.len(),
            r@.len() == i,
            forall|j: int|
                0 <= j < i ==> (#[trigger] r@[j])@ == address_bytes(sorted@[j].address@),
        decreases sorted.len() - i,
    {
        let a = decode_address(sorted[i].address.as_str());
        r.push(a);
        i += 1;
    }
    r
}

/// Length of an account address.
pub const ADDRESS_LEN: usize = 20;

/// The address of a leader: there is one at its index, and it has the right
/// length.
pub open spec fn leader_address_of(addresses: Seq<Seq<u8>>, index: int) -> Option<Seq<u8>> {
    if 0 <= index < addresses.len() && addresses[index].len() == ADDRESS_LEN {
        Some(addresses[index])
    } else {
        None
    }
}

/// The address of a leader, see [`leader_address_of`].
pub fn leader_address(addresses: &Vec<Vec<u8>>, index: usize) -> (r: Option<Vec<u8>>)
    ensures
        same_bytes(r, leader_address_of(contents(addresses@), index as int)),
{
    if index < addresses.len() && addresses[index].len() == ADDRESS_LEN {
        let a = copy_range(addresses[index].as_slice(), 0, ADDRESS_LEN);
        assert(a@ =~= addresses@[index as int]@);
        Some(a)
    } else {
        None
    }
}

/// `i` is the text form of what a peer reported: what a peer does not report
/// is left empty.
pub open spec fn is_text_form(i: ValidatorInfo, v: ValidatorInfoSimple) -> bool {
    &&& i.name@ == v.name@
    &&& i.address@ == v.address@
    &&& i.stake@ == decimal_text(v.stake as nat)
    &&& i.protocol_key@ == v.protocol_key@
    &&& i.network_key@ == v.network_key@
    &&& i.authority_key@ == v.authority_key@
    &&& i.description@ == ""@
    &&& i.website@ == ""@
    &&& i.image@ == ""@
    &&& i.commission_rate == 0
    &&& i.min_self_delegation@ == ""@
    &&& i.accumulated_rewards_per_share@ == ""@
    &&& i.p2p_address@ == ""@
}

/// The text form of a validator that a peer reported.
pub fn validator_from_peer(v: &ValidatorInfoSimple) -> (i: ValidatorInfo)
    ensures
        is_text_form(i, *v),
{
    ValidatorInfo {
        name: v.name.clone(),
        address: v.address.clone(),
        stake: decimal(v.stake),
        protocol_key: v.protocol_key.clone(),
        network_key: v.network_key.clone(),
        authority_key: v.authority_key.clone(),
        description: String::from_str(""),
        website: String::from_str(""),
        image: String::from_str(""),
        commission_rate: 0,
        min_self_delegation: String::from_str(""),
        accumulated_rewards_per_share: String::from_str(""),
        p2p_address: String::from_str(""),
    }
}

/// The text forms of the validators that a peer reported.
pub fn validators_from_peer(v: &Vec<ValidatorInfoSimple>) -> (r: Vec<ValidatorInfo>)
    ensures
        r@.len() == v@.len(),
        forall|i: int| 0 <= i < r@.len() ==> is_text_form(#[trigger] r@[i], v@[i]),
{
    let mut r: Vec<ValidatorInfo> = Vec::new();
    let mut i: usize = 0;
    while i < v.len()
        invariant
            i <= v@.len(),
            r@.len() == i,
            forall|j: int| 0 <= j < i ==> is_text_form(#[trigger] r@[j], v@[j]),
        decreases v.len() - i,
    {
        let t = validator_from_peer(&v[i]);
        r.push(t);
        i += 1;
    }
    r
}

/// What to do with an answer to the question for validators.
pub fn committee_from_answer(answer: Option<Vec<Candidate>>, epoch: u64) -> (r: Option<
    Result<Committee, CommitteeError>,
>)
    ensures
        r is None <==> answer is None || answer->Some_0@.len() == 0,
        r matches Some(Ok(c)) ==> c.epoch == epoch && c.authorities@.len() == answer->Some_0@.len()
            && forall|i: int|
            0 <= i < c.authorities@.len() ==> validator_member(
                #[trigger] committee_order(answer->Some_0@)[i],
                i as nat,
            ) == Ok::<AuthorityValue, ValidatorFault>(c.authorities@[i]@),
        r matches Some(Err(e)) ==> e.position < answer->Some_0@.len() && validator_member(
            committee_order(answer->Some_0@)[e.position as int],
            e.position as nat,
        ) == Err::<AuthorityValue, ValidatorFault>(e.fault) && forall|i: int|
            0 <= i < e.position ==> validator_member(
                #[trigger] committee_order(answer->Some_0@)[i],
                i as nat,
            ) is Ok,
{
    match answer {
        Some(validators) => {
            if validators.len() == 0 {
                None
            } else {
                Some(build_committee_from_validator_list(validators, epoch))
            }
        },
        None => None,
    }
}

/// The committee does not depend on the order in which the validators are
/// reported, as long as different validators have different addresses: all
/// nodes agree on it.
pub proof fn law_committee_order_independent(a: Seq<Candidate>, b: Seq<Candidate>)
    requires
        a.to_multiset() == b.to_multiset(),
        forall|i: int, j: int|
            0 <= i < a.len() && 0 <= j < a.len() && candidate_key(a[i]) == candidate_key(a[j])
                ==> a[i] == a[j],
    ensures
        committee_order(a) == committee_order(b),
{
    crate::order::lemma_sort_order_independent(a, b, |c: Candidate| candidate_key(c));
}

proof fn lemma_marked_hex(data: Seq<u8>)
    ensures
        hex_marked(encode_utf8("0x"@ + hex_text(data))),
        encode_utf8("0x"@ + hex_text(data)).subrange(2, (2 + 2 * data.len()) as int) == encode_utf8(
            hex_text(data),
        ),
        encode_utf8("0x"@ + hex_text(data)).len() == 2 + 2 * data.len(),
        !hex_marked(encode_utf8(hex_text(data))),
{
    reveal_strlit("0x");
    let h = hex_text(data);
    let t = "0x"@ + h;
    lemma_hex_text(data);
    assert(is_ascii_chars("0x"@));
    assert forall|i: int| 0 <= i < t.len() implies '\0' <= #[trigger] t[i] <= '\u{7f}' by {
        if i >= 2 {
            assert(t[i] == h[i - 2]);
        }
    }
    is_ascii_chars_encode_utf8(t);
    assert(t[0] == '0' && t[1] == 'x');
    assert(encode_utf8(t)[0] == t[0] as u8 && encode_utf8(t)[1] == t[1] as u8);
    let rest = encode_utf8(t).subrange(2, (2 + 2 * data.len()) as int);
    assert forall|i: int| 0 <= i < rest.len() implies rest[i] == encode_utf8(h)[i] by {
        assert(t[i + 2] == h[i]);
        assert(encode_utf8(t)[i + 2] == t[i + 2] as u8);
    }
    assert(rest =~= encode_utf8(h));
    if h.len() >= 2 {
        assert(encode_utf8(h)[1] == h[1] as u8);
    }
}

/// A key or an account address that is written in hexadecimal after `0x` is
/// read back, whatever its bytes.
pub proof fn law_marked_hex_roundtrip(data: Seq<u8>)
    ensures
        text_key("0x"@ + hex_text(data)) == Some(data),
        address_bytes("0x"@ + hex_text(data)) == data,
{
    let t = encode_utf8("0x"@ + hex_text(data));
    lemma_marked_hex(data);
    law_hex_roundtrip(data);
    assert(t.subrange(2, t.len() as int) == encode_utf8(hex_text(data)));
    assert(without_marks(encode_utf8(hex_text(data))) == encode_utf8(hex_text(data)));
    assert(without_marks(t) == encode_utf8(hex_text(data)));
}

/// A stake that a peer reports survives its text form.
pub proof fn law_peer_stake_roundtrip(stake: u64)
    ensures
        u64_value(decimal_text(stake as nat)) == Some(stake),
{
    crate::text::lemma_decimal_roundtrip(stake);
}

/// A member of a committee is reached and known as its validator says: it has
/// the address, the stake and the keys that were reported of it, and its name,
/// or one made of its place where it has none.
pub proof fn law_member_is_as_reported(c: Candidate, position: nat, a: Authority)
    requires
        validator_member(c, position) == Ok::<AuthorityValue, ValidatorFault>(a@),
    ensures
        a.address@ == c.info.address@,
        u64_value(c.info.stake@) == Some(a.stake),
        text_key(c.info.authority_key@) == Some(a.authority_key@),
        text_key(c.info.protocol_key@) == Some(a.protocol_key@),
        text_key(c.info.network_key@) == Some(a.network_key@),
        c.info.name@.len() > 0 ==> a.hostname@ == c.info.name@,
        c.info.name@.len() == 0 ==> a.hostname@ == "node-"@ + decimal_text(position),
        c.address_ok,
        is_bls_public_key(a.authority_key@),
        is_ed25519_public_key(a.protocol_key@),
        is_ed25519_public_key(a.network_key@),
{
}

/// A validator becomes a member exactly if its stake is a number, its address
/// can be used, and each of its keys is a public key of its kind.
pub proof fn law_sound_validators_become_members(c: Candidate, position: nat)
    ensures
        validator_member(c, position) is Ok <==> {
            &&& u64_value(c.info.stake@) is Some
            &&& c.address_ok
            &&& text_key(c.info.authority_key@) matches Some(k) && is_bls_public_key(k)
            &&& text_key(c.info.protocol_key@) matches Some(k) && is_ed25519_public_key(k)
            &&& text_key(c.info.network_key@) matches Some(k) && is_ed25519_public_key(k)
        },
        validator_member(c, position) == Err::<AuthorityValue, ValidatorFault>(
            ValidatorFault::Stake,
        ) <==> u64_value(c.info.stake@) is None,
        validator_member(c, position) == Err::<AuthorityValue, ValidatorFault>(
            ValidatorFault::Address,
        ) <==> u64_value(c.info.stake@) is Some && !c.address_ok,
        validator_member(c, position) matches Err(ValidatorFault::KeyText(k)) ==> match k {
            KeyKind::Authority => text_key(c.info.authority_key@) is None,
            KeyKind::Protocol => text_key(c.info.protocol_key@) is None,
            KeyKind::Network => text_key(c.info.network_key@) is None,
        },
        validator_member(c, position) matches Err(ValidatorFault::Key(k)) ==> match k {
            KeyKind::Authority => text_key(c.info.authority_key@) matches Some(b)
                && !is_bls_public_key(b),
            KeyKind::Protocol => text_key(c.info.protocol_key@) matches Some(b)
                && !is_ed25519_public_key(b),
            KeyKind::Network => text_key(c.info.network_key@) matches Some(b)
                && !is_ed25519_public_key(b),
        },
{
}

/// The order of a committee holds each validator once, and the addresses ascend
/// by their bytes.
pub proof fn law_committee_sorted_by_address(v: Seq<Candidate>)
    ensures
        committee_order(v).to_multiset() == v.to_multiset(),
        committee_order(v).len() == v.len(),
        forall|i: int, j: int|
            0 <= i <= j < v.len() ==> lex_le(
                byte_key(encode_utf8((#[trigger] committee_order(v)[i]).info.address@)),
                byte_key(encode_utf8((#[trigger] committee_order(v)[j]).info.address@)),
            ),
{
    let key = |c: Candidate| candidate_key(c);
    crate::order::lemma_sort_permutes(v, key);
    crate::order::lemma_sort_sorted(v, key);
    let order = committee_order(v);
    assert forall|i: int, j: int| 0 <= i <= j < v.len() implies lex_le(
        byte_key(encode_utf8((#[trigger] order[i]).info.address@)),
        byte_key(encode_utf8((#[trigger] order[j]).info.address@)),
    ) by {
        assert(lex_le(key(order[i]), key(order[j])));
    }
}

/// The text of a key is read as hexadecimal behind `0x`, and else as base64;
/// what is no base64 is read as plain hexadecimal.
pub proof fn law_key_text_forms(data: Seq<u8>, text: Seq<char>)
    ensures
        text_key("0x"@ + hex_text(data)) == Some(data),
        !hex_marked(encode_utf8(base64_text(data))) ==> text_key(base64_text(data)) == Some(data),
        base64_bytes(encode_utf8(hex_text(data))) is None ==> text_key(hex_text(data)) == Some(
            data,
        ),
        text_key(text) is None ==> base64_bytes(encode_utf8(text)) is None || hex_marked(
            encode_utf8(text),
        ),
{
    law_marked_hex_roundtrip(data);
    law_hex_roundtrip(data);
    law_base64_roundtrip(data);
    lemma_marked_hex(data);
}

/// A committee has a member with a key exactly if one of the members has it.
pub proof fn law_membership_by_key(c: Committee, key: Seq<u8>, i: int)
    requires
        0 <= i < c.authorities@.len(),
    ensures
        c.authorities@[i].protocol_key@ == key ==> has_member(c, key),
        (forall|j: int|
            0 <= j < c.authorities@.len() ==> (#[trigger] c.authorities@[j]).protocol_key@ != key)
            ==> !has_member(c, key),
{
}

/// The addresses of leaders belong to the places of the validators in the order
/// of their authority keys, which holds each validator once.
pub proof fn law_leaders_by_authority_key(v: Seq<ValidatorInfo>)
    ensures
        by_authority_key(v).to_multiset() == v.to_multiset(),
        by_authority_key(v).len() == v.len(),
        forall|i: int, j: int|
            0 <= i <= j < v.len() ==> lex_le(
                byte_key(encode_utf8((#[trigger] by_authority_key(v)[i]).authority_key@)),
                byte_key(encode_utf8((#[trigger] by_authority_key(v)[j]).authority_key@)),
            ),
{
    let key = |i: ValidatorInfo| byte_key(encode_utf8(i.authority_key@));
    crate::order::lemma_sort_permutes(v, key);
    crate::order::lemma_sort_sorted(v, key);
    let order = by_authority_key(v);
    assert forall|i: int, j: int| 0 <= i <= j < v.len() implies lex_le(
        byte_key(encode_utf8((#[trigger] order[i]).authority_key@)),
        byte_key(encode_utf8((#[trigger] order[j]).authority_key@)),
    ) by {
        assert(lex_le(key(order[i]), key(order[j])));
    }
}

/// A leader has the address at its place if that has twenty bytes, and none
/// otherwise.
pub proof fn law_leader_address(addresses: Seq<Seq<u8>>, index: int)
    ensures
        leader_address_of(addresses, index) matches Some(a) ==> 0 <= index < addresses.len() && a
            == addresses[index] && a.len() == 20,
        0 <= index < addresses.len() && addresses[index].len() == 20 ==> leader_address_of(
            addresses,
            index,
        ) == Some(addresses[index]),
{
}

/// A validator that a peer reports and one that the executor reports with the
/// same values become the same member.
pub proof fn law_peer_report_gives_member(
    i: ValidatorInfo,
    v: ValidatorInfoSimple,
    position: nat,
    a: Authority,
)
    requires
        is_text_form(i, v),
        validator_member(Candidate { info: i, address_ok: true }, position) == Ok::<
            AuthorityValue,
            ValidatorFault,
        >(a@),
    ensures
        a.address@ == v.address@,
        a.stake == v.stake,
        v.name@.len() > 0 ==> a.hostname@ == v.name@,
        text_key(v.authority_key@) == Some(a.authority_key@),
        text_key(v.protocol_key@) == Some(a.protocol_key@),
        text_key(v.network_key@) == Some(a.network_key@),
{
    law_peer_stake_roundtrip(v.stake);
}

/// The addresses of a committee that is built are those of the validators: the
/// member at each place has the address of the validator at that place of the
/// committee's order, and the addresses ascend by their bytes.
pub proof fn law_committee_has_validators_addresses(c: Committee, v: Seq<Candidate>)
    requires
        c.authorities@.len() == v.len(),
        forall|i: int|
            0 <= i < v.len() ==> validator_member(#[trigger] committee_order(v)[i], i as nat) == Ok::<
                AuthorityValue,
                ValidatorFault,
            >(c.authorities@[i]@),
    ensures
        forall|i: int|
            0 <= i < v.len() ==> (#[trigger] c.authorities@[i]).address@ == committee_order(
                v,
            )[i].info.address@,
        c.authorities@.map_values(|a: Authority| a.address@).to_multiset() == v.map_values(
            |x: Candidate| x.info.address@,
        ).to_multiset(),
        forall|i: int, j: int|
            0 <= i <= j < v.len() ==> lex_le(
                byte_key(encode_utf8((#[trigger] c.authorities@[i]).address@)),
                byte_key(encode_utf8((#[trigger] c.authorities@[j]).address@)),
            ),
{
    let order = committee_order(v);
    law_committee_sorted_by_address(v);
    assert forall|i: int| 0 <= i < v.len() implies (#[trigger] c.authorities@[i]).address@
        == order[i].info.address@ by {
        law_member_is_as_reported(order[i], i as nat, c.authorities@[i]);
    }
    let f = |x: Candidate| x.info.address@;
    assert(c.authorities@.map_values(|a: Authority| a.address@) =~= order.map_values(f));
    lemma_map_permuted(order, v, f);
    assert forall|i: int, j: int| 0 <= i <= j < v.len() implies lex_le(
        byte_key(encode_utf8((#[trigger] c.authorities@[i]).address@)),
        byte_key(encode_utf8((#[trigger] c.authorities@[j]).address@)),
    ) by {
        assert(order[i].info.address@ == c.authorities@[i].address@);
        assert(order[j].info.address@ == c.authorities@[j].address@);
    }
}

proof fn lemma_map_permuted(
    a: Seq<Candidate>,
    b: Seq<Candidate>,
    f: spec_fn(Candidate) -> Seq<char>,
)
    requires
        a.to_multiset() == b.to_multiset(),
    ensures
        a.map_values(f).to_multiset() == b.map_values(f).to_multiset(),
    decreases a.len(),
{
    broadcast use vstd::seq_lib::group_to_multiset_ensures;

    vstd::seq_lib::to_multiset_len(a);
    vstd::seq_lib::to_multiset_len(b);
    if a.len() > 0 {
        let x = a.last();
        let front = a.drop_last();
        assert(a =~= front.push(x));
        assert(a.to_multiset().count(x) > 0);
        assert(b.contains(x));
        let m = b.index_of(x);
        let rest = b.remove(m);
        assert(b =~= rest.insert(m, x));
        vstd::seq_lib::to_multiset_insert(rest, m, x);
        assert(front.to_multiset() =~= a.to_multiset().remove(x));
        assert(rest.to_multiset() =~= b.to_multiset().remove(x));
        lemma_map_permuted(front, rest, f);
        assert(a.map_values(f) =~= front.map_values(f).push(f(x)));
        assert(b.map_values(f) =~= rest.map_values(f).insert(m, f(x)));
        vstd::seq_lib::to_multiset_insert(rest.map_values(f), m, f(x));
    } else {
        assert(a.map_values(f) =~= b.map_values(f));
    }
}

/// An account address is read from its hexadecimal digits, with `0x` in front or
/// without; text that holds anything else has no address.
pub proof fn law_account_addresses(data: Seq<u8>, text: Seq<char>)
    ensures
        address_bytes(hex_text(data)) == data,
        address_bytes("0x"@ + hex_text(data)) == data,
        !hex_marked(encode_utf8(text)) && hex_bytes(encode_utf8(text)) is None ==> address_bytes(
            text,
        ).len() == 0,
{
    law_hex_roundtrip(data);
    law_marked_hex_roundtrip(data);
    lemma_marked_hex(data);
}

} // verus!
