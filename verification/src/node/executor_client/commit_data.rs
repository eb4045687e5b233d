//! Commits in the form in which the executor takes them.
use crate::order::{
    byte_key, bytes_le, key_of, lemma_filter_map, lemma_sort_map, lex_le, stable_sort,
    stable_sort_vec, SortKey,
};
use crate::tx_hash::{
    calculate_transaction_hash, optional_bytes, payload_hash, payload_transaction,
    verify_transaction_protobuf, PayloadReading,
};
use vstd::prelude::*;

verus! {

/// A transaction of a committed block, with what is known of it.
#[derive(Clone, Debug)]
pub struct CommittedTx {
    pub data: Vec<u8>,
    pub hash: Vec<u8>,
    /// It is a message between nodes that the executor does not run.
    pub is_system: bool,
    /// It can be read as a transaction.
    pub is_protobuf: bool,
}

/// The value of a [`CommittedTx`].
pub struct TxValue {
    pub data: Seq<u8>,
    pub hash: Seq<u8>,
    pub is_system: bool,
    pub is_protobuf: bool,
}

impl View for CommittedTx {
    type V = TxValue;

    open spec fn view(&self) -> TxValue {
        TxValue {
            data: self.data@,
            hash: self.hash@,
            is_system: self.is_system,
            is_protobuf: self.is_protobuf,
        }
    }
}

/// The values of the transactions of a block.
pub open spec fn tx_values(v: Seq<CommittedTx>) -> Seq<TxValue> {
    v.map_values(|t: CommittedTx| t@)
}

/// The executor runs the transaction.
pub open spec fn is_executable(t: TxValue) -> bool {
    !t.is_system && t.is_protobuf
}

/// The transactions of a block that the executor runs, in the order of their
/// hashes.
pub open spec fn executable_order(txs: Seq<TxValue>) -> Seq<TxValue> {
    stable_sort(txs.filter(|t: TxValue| is_executable(t)), |t: TxValue| byte_key(t.hash))
}

/// What is sent of each transaction.
pub open spec fn payloads(txs: Seq<TxValue>) -> Seq<Seq<u8>> {
    txs.map_values(|t: TxValue| t.data)
}

impl SortKey for CommittedTx {
    open spec fn sort_key(&self) -> Seq<int> {
        byte_key(self.hash@)
    }

    fn key_le(&self, other: &Self) -> (b: bool) {
        bytes_le(self.hash.as_slice(), other.hash.as_slice())
    }
}

/// A transaction with what is known of it: its hash is that of the payload, see
/// [`payload_hash`], and it is one if it can be read as one either way.
pub fn describe(
    data: Vec<u8>,
    reading: &PayloadReading,
    encoded: Option<Vec<u8>>,
    is_system: bool,
) -> (t: CommittedTx)
    ensures
        t@ == (TxValue {
            data: data@,
            hash: payload_hash(data@, payload_transaction(*reading), optional_bytes(encoded)),
            is_system,
            is_protobuf: reading.list is Some || reading.single is Some,
        }),
{
    let hash = calculate_transaction_hash(data.as_slice(), reading, encoded);
    let is_protobuf: bool = verify_transaction_protobuf(reading);
    CommittedTx { data, hash, is_system, is_protobuf }
}

/// A commit of the consensus with the transactions of its blocks.
#[derive(Clone, Debug)]
pub struct CommittedSubDag {
    pub blocks: Vec<Vec<CommittedTx>>,
    pub commit_index: u32,
    pub timestamp_ms: u64,
    pub leader_author: u32,
}

/// A transaction in the executor's form.
#[derive(Clone, Debug)]
pub struct TransactionExe {
    pub digest: Vec<u8>,
    pub worker_id: u32,
}

/// A block in the executor's form.
#[derive(Clone, Debug)]
pub struct CommittedBlock {
    pub epoch: u64,
    pub height: u64,
    pub transactions: Vec<TransactionExe>,
}

/// A commit in the executor's form.
#[derive(Clone, Debug)]
pub struct CommittedEpochData {
    pub blocks: Vec<CommittedBlock>,
    pub global_exec_index: u64,
    pub commit_index: u32,
    pub epoch: u64,
    pub commit_timestamp_ms: u64,
    pub leader_author_index: u32,
    pub leader_address: Vec<u8>,
}

/// `out` holds `data` as transactions.
pub open spec fn carries(out: Seq<TransactionExe>, data: Seq<Seq<u8>>) -> bool {
    &&& out.len() == data.len()
    &&& forall|i: int|
        0 <= i < out.len() ==> (#[trigger] out[i]).digest@ == data[i] && out[i].worker_id == 0
}

/// The transactions of a block that the executor runs, in the order of their
/// hashes: nodes that have the same transactions send the same block.
pub fn executable_transactions(txs: Vec<CommittedTx>) -> (out: Vec<TransactionExe>)
    ensures
        carries(out@, payloads(executable_order(tx_values(txs@)))),
{
    let ghost all = txs@;
    let ghost keep = |t: CommittedTx| is_executable(t@);
    let mut kept: Vec<CommittedTx> = Vec::new();
    proof {
        reveal(Seq::filter);
        assert(all.subrange(0, 0) =~= Seq::<CommittedTx>::empty());
        assert(kept@ =~= all.subrange(0, 0).filter(keep));
    }
    for t in it: txs
        invariant
            it.seq() == all,
            keep == (|t: CommittedTx| is_executable(t@)),
            kept@ == all.subrange(0, it.index() as int).filter(keep),
    {
        proof {
            reveal(Seq::filter);
            let longer = all.subrange(0, it.index() as int + 1);
            assert(longer.drop_last() =~= all.subrange(0, it.index() as int));
            assert(longer.last() == t);
        }
        if !t.is_system && t.is_protobuf {
            kept.push(t);
        }
    }
    assert(all.subrange(0, all.len() as int) =~= all);
    let ghost kept_seq = kept@;
    let sorted = stable_sort_vec(kept);
    let ghost sorted_seq = sorted@;
    proof {
        let f = |t: CommittedTx| t@;
        let ukeep = |t: TxValue| is_executable(t);
        let ukey = |t: TxValue| byte_key(t.hash);
        lemma_filter_map(all, keep, f, ukeep);
        lemma_sort_map(kept_seq, key_of::<CommittedTx>(), f, ukey);
        assert(tx_values(sorted_seq) == executable_order(tx_values(all)));
    }
    let mut out: Vec<TransactionExe> = Vec::new();
    for t in it: sorted
        invariant
            it.seq() == sorted_seq,
            out@.len() == it.index(),
            forall|i: int|
                0 <= i < out@.len() ==> (#[trigger] out@[i]).digest@ == sorted_seq[i].data@
                    && out@[i].worker_id == 0,
    {
        out.push(TransactionExe { digest: t.data, worker_id: 0 });
    }
    proof {
        let data = payloads(executable_order(tx_values(all)));
        assert forall|i: int| 0 <= i < out@.len() implies (#[trigger] out@[i]).digest@ == data[i] by {
            assert(tx_values(sorted_seq)[i] == sorted_seq[i]@);
        }
    }
    out
}

/// Puts a commit into the executor's form. All blocks of a commit have its
/// index as height and keep their order.
pub fn convert_to_epoch_data(
    subdag: CommittedSubDag,
    epoch: u64,
    global_exec_index: u64,
    leader_address: Option<Vec<u8>>,
) -> (d: CommittedEpochData)
    ensures
        d.global_exec_index == global_exec_index,
        d.commit_index == subdag.commit_index,
        d.epoch == epoch,
        d.commit_timestamp_ms == subdag.timestamp_ms,
        d.leader_author_index == subdag.leader_author,
        d.leader_address@ == match leader_address {
            Some(a) => a@,
            None => Seq::empty(),
        },
        d.blocks@.len() == subdag.blocks@.len(),
        forall|i: int|
            0 <= i < d.blocks@.len() ==> {
                &&& (#[trigger] d.blocks@[i]).epoch == epoch
                &&& d.blocks@[i].height == subdag.commit_index
                &&& carries(
                    d.blocks@[i].transactions@,
                    payloads(executable_order(tx_values(subdag.blocks@[i]@))),
                )
            },
{
    let ghost all = subdag.blocks@;
    let commit_index: u32 = subdag.commit_index;
    let mut blocks: Vec<CommittedBlock> = Vec::new();
    for txs in it: subdag.blocks
        invariant
            it.seq() == all,
            blocks@.len() == it.index(),
            forall|i: int|
                0 <= i < blocks@.len() ==> {
                    &&& (#[trigger] blocks@[i]).epoch == epoch
                    &&& blocks@[i].height == commit_index
                    &&& carries(
                        blocks@[i].transactions@,
                        payloads(executable_order(tx_values(all[i]@))),
                    )
                },
    {
        let transactions = executable_transactions(txs);
        blocks.push(CommittedBlock { epoch, height: commit_index as u64, transactions });
    }
    let leader_address: Vec<u8> = match leader_address {
        Some(a) => a,
        None => Vec::new(),
    };
    CommittedEpochData {
        blocks,
        global_exec_index,
        commit_index,
        epoch,
        commit_timestamp_ms: subdag.timestamp_ms,
        leader_author_index: subdag.leader_author,
        leader_address,
    }
}

/// The transactions of a block are sent in an order that does not depend on
/// the order in which a node holds them, as long as those that the executor
/// runs have different hashes where they hold different data: all nodes send
/// the executor the same block.
pub proof fn law_block_order_independent(a: Seq<TxValue>, b: Seq<TxValue>)
    requires
        a.to_multiset() == b.to_multiset(),
        forall|i: int, j: int|
            0 <= i < a.len() && 0 <= j < a.len() && is_executable(a[i]) && is_executable(a[j])
                && (#[trigger] a[i]).hash == (#[trigger] a[j]).hash ==> a[i].data == a[j].data,
    ensures
        executable_order(a) == executable_order(b),
{
    let keep = |t: TxValue| is_executable(t);
    let key = |t: TxValue| byte_key(t.hash);
    let fa = a.filter(keep);
    let fb = b.filter(keep);
    lemma_filter_multiset(a, keep);
    lemma_filter_multiset(b, keep);
    assert(fa.to_multiset() =~= fb.to_multiset());
    assert forall|i: int, j: int|
        0 <= i < fa.len() && 0 <= j < fa.len() && #[trigger] key(fa[i]) == #[trigger] key(
            fa[j],
        ) implies fa[i] == fa[j] by {
        lemma_filter_member(a, keep, i);
        lemma_filter_member(a, keep, j);
        let m = a.index_of(fa[i]);
        let n = a.index_of(fa[j]);
        if a[m].hash != a[n].hash {
            crate::order::lemma_byte_key_injective(a[m].hash, a[n].hash);
        }
        assert(a[m].data == a[n].data);
    }
    crate::order::lemma_sort_order_independent(fa, fb, key);
}

proof fn lemma_filter_multiset(s: Seq<TxValue>, keep: spec_fn(TxValue) -> bool)
    ensures
        s.filter(keep).to_multiset() == s.to_multiset().filter(keep),
    decreases s.len(),
{
    broadcast use vstd::seq_lib::group_to_multiset_ensures;
    broadcast use vstd::multiset::group_multiset_axioms;

    reveal(Seq::filter);
    if s.len() > 0 {
        let front = s.drop_last();
        lemma_filter_multiset(front, keep);
        assert(s =~= front.push(s.last()));
        assert(s.filter(keep).to_multiset() =~= s.to_multiset().filter(keep));
    } else {
        assert(s.filter(keep) =~= s);
        assert(s.filter(keep).to_multiset() =~= s.to_multiset().filter(keep));
    }
}

proof fn lemma_filter_member(s: Seq<TxValue>, keep: spec_fn(TxValue) -> bool, i: int)
    requires
        0 <= i < s.filter(keep).len(),
    ensures
        s.contains(s.filter(keep)[i]),
        keep(s.filter(keep)[i]),
{
    broadcast use vstd::multiset::group_multiset_axioms;

    let t = s.filter(keep)[i];
    s.lemma_filter_pred(keep, i);
    lemma_filter_multiset(s, keep);
    assert(s.filter(keep).contains(t));
    crate::order::lemma_contains_multiset(s.filter(keep), t);
    crate::order::lemma_contains_multiset(s, t);
}

/// A block is sent with each transaction that the executor runs: neither a
/// system transaction nor one that is no protobuf. Each is sent as it is, as
/// often as it was committed, and they ascend by their hashes.
pub proof fn law_executable_are_sent(txs: Seq<TxValue>, i: int, j: int)
    requires
        0 <= i <= j < executable_order(txs).len(),
    ensures
        executable_order(txs).to_multiset() == txs.filter(
            |t: TxValue| !t.is_system && t.is_protobuf,
        ).to_multiset(),
        payloads(executable_order(txs)).len() == executable_order(txs).len(),
        payloads(executable_order(txs))[i] == executable_order(txs)[i].data,
        lex_le(byte_key(executable_order(txs)[i].hash), byte_key(executable_order(txs)[j].hash)),
{
    let key = |t: TxValue| byte_key(t.hash);
    let keep = |t: TxValue| is_executable(t);
    let direct = |t: TxValue| !t.is_system && t.is_protobuf;
    assert(keep =~= direct);
    crate::order::lemma_sort_permutes(txs.filter(keep), key);
    crate::order::lemma_sort_sorted(txs.filter(keep), key);
    let out = executable_order(txs);
    assert(lex_le(key(out[i]), key(out[j])));
}

/// What goes to the executor carries the bytes of each transaction, one by one.
pub proof fn law_bytes_are_carried(out: Seq<TransactionExe>, data: Seq<Seq<u8>>, i: int)
    requires
        carries(out, data),
        0 <= i < data.len(),
    ensures
        out.len() == data.len(),
        out[i].digest@ == data[i],
        out[i].worker_id == 0,
{
}

} // verus!
