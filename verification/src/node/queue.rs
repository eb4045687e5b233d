//! Transactions that wait for the next epoch.
use crate::node::executor_client::commit_data::{
    is_executable, payloads, tx_values, CommittedTx, TxValue,
};
use crate::node::transition::tx_recovery::CommittedHashes;
use crate::order::{
    byte_key, bytes_eq, dedup_adjacent, key_of, lemma_byte_key_injective, lemma_dedup_map,
    lemma_filter_map, lemma_sort_map, lex_le, stable_sort, stable_sort_vec,
};
use crate::wire::{
    contents, copy_range, get_le, get_records, le_bytes, le_value, lemma_le_len,
    lemma_records_roundtrip, lemma_u32_roundtrip, parse_records, put_le, put_records, records,
};
use vstd::prelude::*;

verus! {

/// How often a transaction is submitted before it goes back to the queue.
pub const MAX_SUBMIT_RETRIES: u32 = 20;

/// The file that keeps the queue: the number of transactions in four bytes,
/// least significant byte first, and a record for each.
pub open spec fn queue_file(txs: Seq<Seq<u8>>) -> Seq<u8> {
    le_bytes(txs.len(), 4) + records(txs)
}

/// The transactions that a file holds, if it is complete.
pub open spec fn queue_in_file(bytes: Seq<u8>) -> Option<Seq<Seq<u8>>> {
    if bytes.len() < 4 {
        None
    } else {
        parse_records(bytes.subrange(4, bytes.len() as int), le_value(bytes.subrange(0, 4)))
    }
}

/// The bytes of the file that keeps the queue, see [`queue_file`].
pub fn persist_transaction_queue(queue: &Vec<Vec<u8>>) -> (r: Vec<u8>)
    ensures
        r@ == queue_file(contents(queue@)),
{
    let mut r: Vec<u8> = Vec::new();
    put_le(&mut r, queue.len() as u64, 4);
    assert(r@ =~= le_bytes(contents(queue@).len(), 4));
    put_records(&mut r, queue);
    r
}

/// Reads the queue from its file. Without a file it is empty; a file that is
/// too short for what it announces cannot be read.
pub fn load_transaction_queue_static(file: Option<&[u8]>) -> (r: Option<Vec<Vec<u8>>>)
    ensures
        match file {
            None => r matches Some(v) && v@.len() == 0,
            Some(b) => match r {
                Some(v) => queue_in_file(b@) == Some(contents(v@)),
                None => queue_in_file(b@) is None,
            },
        },
{
    match file {
        None => Some(Vec::new()),
        Some(b) => {
            if b.len() < 4 {
                return None;
            }
            let count: u64 = get_le(b, 0, 4);
            get_records(b, 4, count)
        },
    }
}

/// Adds transactions to the queue; gives the bytes to keep on disk, none if
/// there was nothing to add.
pub fn queue_transactions(queue: &mut Vec<Vec<u8>>, tx_data_list: Vec<Vec<u8>>) -> (file: Option<
    Vec<u8>,
>)
    ensures
        contents(final(queue)@) == contents(old(queue)@) + contents(tx_data_list@),
        match file {
            Some(f) => tx_data_list@.len() > 0 && f@ == queue_file(contents(final(queue)@)),
            None => tx_data_list@.len() == 0,
        },
{
    if tx_data_list.len() == 0 {
        assert(contents(queue@) =~= contents(old(queue)@) + contents(tx_data_list@));
        return None;
    }
    let mut list = tx_data_list;
    queue.append(&mut list);
    assert(contents(queue@) =~= contents(old(queue)@) + contents(tx_data_list@));
    Some(persist_transaction_queue(queue))
}

/// Adds one transaction to the queue; gives the bytes to keep on disk.
pub fn queue_transaction(queue: &mut Vec<Vec<u8>>, tx_data: Vec<u8>) -> (file: Option<Vec<u8>>)
    ensures
        contents(final(queue)@) == contents(old(queue)@).push(tx_data@),
        file matches Some(f) && f@ == queue_file(contents(final(queue)@)),
{
    let ghost data = tx_data@;
    let mut list: Vec<Vec<u8>> = Vec::new();
    list.push(tx_data);
    assert(contents(list@) =~= seq![data]);
    let file = queue_transactions(queue, list);
    assert(contents(queue@) =~= contents(old(queue)@).push(data));
    file
}

/// The transactions to look at: those whose hash is not among `committed`, in
/// the order of their hashes, each hash once.
pub open spec fn unique_pending(txs: Seq<TxValue>, committed: Seq<Seq<u8>>) -> Seq<TxValue> {
    let key = |t: TxValue| byte_key(t.hash);
    dedup_adjacent(stable_sort(txs.filter(|t: TxValue| !committed.contains(t.hash)), key), key)
}

/// The transactions to submit: those of [`unique_pending`] that are meant for
/// the executor.
pub open spec fn to_submit(txs: Seq<TxValue>, committed: Seq<Seq<u8>>) -> Seq<TxValue> {
    unique_pending(txs, committed).filter(|t: TxValue| is_executable(t))
}

fn dedup_txs(v: Vec<CommittedTx>) -> (out: Vec<CommittedTx>)
    ensures
        out@ == dedup_adjacent(v@, key_of::<CommittedTx>()),
{
    let mut out: Vec<CommittedTx> = Vec::new();
    let ghost all = v@;
    let ghost key = key_of::<CommittedTx>();
    assert(all.subrange(0, 0) =~= Seq::<CommittedTx>::empty());
    for t in it: v
        invariant
            it.seq() == all,
            key == key_of::<CommittedTx>(),
            out@ == dedup_adjacent(all.subrange(0, it.index() as int), key),
    {
        proof {
            let longer = all.subrange(0, it.index() as int + 1);
            assert(longer.drop_last() =~= all.subrange(0, it.index() as int));
            assert(longer.last() == t);
        }
        let repeats: bool = if out.len() == 0 {
            false
        } else {
            bytes_eq(out[out.len() - 1].hash.as_slice(), t.hash.as_slice())
        };
        proof {
            if out@.len() > 0 {
                lemma_byte_key_injective(out@.last().hash@, t.hash@);
            }
        }
        if !repeats {
            out.push(t);
        }
    }
    assert(all.subrange(0, all.len() as int) =~= all);
    out
}

fn keep_uncommitted(txs: Vec<CommittedTx>, committed: &CommittedHashes) -> (out: Vec<CommittedTx>)
    ensures
        out@ == txs@.filter(|t: CommittedTx| !committed@.contains(t.hash@)),
{
    let ghost all = txs@;
    let ghost keep = |t: CommittedTx| !committed@.contains(t.hash@);
    let mut out: Vec<CommittedTx> = Vec::new();
    proof {
        reveal(Seq::filter);
        assert(all.subrange(0, 0) =~= Seq::<CommittedTx>::empty());
        assert(out@ =~= all.subrange(0, 0).filter(keep));
    }
    for t in it: txs
        invariant
            it.seq() == all,
            keep == (|t: CommittedTx| !committed@.contains(t.hash@)),
            out@ == all.subrange(0, it.index() as int).filter(keep),
    {
        proof {
            reveal(Seq::filter);
            let longer = all.subrange(0, it.index() as int + 1);
            assert(longer.drop_last() =~= all.subrange(0, it.index() as int));
            assert(longer.last() == t);
        }
        if !committed.contains(t.hash.as_slice()) {
            out.push(t);
        }
    }
    assert(all.subrange(0, all.len() as int) =~= all);
    out
}

/// The transactions of the queue to submit, see [`to_submit`].
pub fn select_for_submission(queued: Vec<CommittedTx>, committed: &CommittedHashes) -> (out: Vec<
    CommittedTx,
>)
    ensures
        tx_values(out@) == to_submit(tx_values(queued@), committed@),
{
    let ghost all = queued@;
    let open = keep_uncommitted(queued, committed);
    let ghost open_seq = open@;
    let sorted = stable_sort_vec(open);
    let ghost sorted_seq = sorted@;
    let unique = dedup_txs(sorted);
    let ghost unique_seq = unique@;
    let ghost f = |t: CommittedTx| t@;
    let ghost keep = |t: CommittedTx| is_executable(t@);
    proof {
        let ukey = |t: TxValue| byte_key(t.hash);
        lemma_filter_map(
            all,
            |t: CommittedTx| !committed@.contains(t.hash@),
            f,
            |t: TxValue| !committed@.contains(t.hash),
        );
        lemma_sort_map(open_seq, key_of::<CommittedTx>(), f, ukey);
        lemma_dedup_map(sorted_seq, key_of::<CommittedTx>(), f, ukey);
        assert(tx_values(unique_seq) == unique_pending(tx_values(all), committed@));
        lemma_filter_map(unique_seq, keep, f, |t: TxValue| is_executable(t));
    }
    let mut out: Vec<CommittedTx> = Vec::new();
    proof {
        reveal(Seq::filter);
        assert(unique_seq.subrange(0, 0) =~= Seq::<CommittedTx>::empty());
        assert(out@ =~= unique_seq.subrange(0, 0).filter(keep));
    }
    for t in it: unique
        invariant
            it.seq() == unique_seq,
            keep == (|t: CommittedTx| is_executable(t@)),
            out@ == unique_seq.subrange(0, it.index() as int).filter(keep),
    {
        proof {
            reveal(Seq::filter);
            let longer = unique_seq.subrange(0, it.index() as int + 1);
            assert(longer.drop_last() =~= unique_seq.subrange(0, it.index() as int));
            assert(longer.last() == t);
        }
        if !t.is_system && t.is_protobuf {
            out.push(t);
        }
    }
    assert(unique_seq.subrange(0, unique_seq.len() as int) =~= unique_seq);
    out
}

/// 2 to the power `n`.
pub open spec fn pow2(n: nat) -> nat
    decreases n,
{
    if n == 0 {
        1
    } else {
        2 * pow2((n - 1) as nat)
    }
}

/// How long to wait after attempt `retry` has failed, in milliseconds: 200 at
/// first, twice as long each time.
pub fn retry_delay_ms(retry: u32) -> (ms: u64)
    requires
        1 <= retry <= MAX_SUBMIT_RETRIES,
    ensures
        ms == 200 * pow2((retry - 1) as nat),
{
    let mut p: u64 = 1;
    let mut i: u32 = 1;
    proof {
        lemma_pow2_monotone(0, 19);
    }
    while i < retry
        invariant
            1 <= i <= retry <= MAX_SUBMIT_RETRIES,
            p == pow2((i - 1) as nat),
            p <= pow2(19),
        decreases retry - i,
    {
        proof {
            reveal_with_fuel(pow2, 20);
            lemma_pow2_monotone(i as nat, 19);
        }
        p = p * 2;
        i += 1;
    }
    proof {
        reveal_with_fuel(pow2, 20);
    }
    200 * p
}

proof fn lemma_pow2_monotone(a: nat, b: nat)
    requires
        a <= b,
    ensures
        pow2(a) <= pow2(b),
    decreases b,
{
    if a < b {
        lemma_pow2_monotone(a, (b - 1) as nat);
    }
}

/// A run of submissions.
pub struct Submission {
    pub todo: Vec<CommittedTx>,
    pub at: usize,
    /// Failed attempts for the current transaction.
    pub retry: u32,
    pub successful: usize,
    pub requeued: usize,
}

/// What becomes of the queue's file after a run.
pub enum FileStep {
    /// Transactions were taken: the file is deleted.
    Delete,
    /// None was taken and some went back to the queue: these bytes are kept.
    Write(Vec<u8>),
    /// There is nothing to do.
    Keep,
}

impl Submission {
    /// Each transaction that was dealt with was taken or went back.
    pub open spec fn wf(&self) -> bool {
        &&& self.at <= self.todo@.len()
        &&& self.successful + self.requeued == self.at
        &&& self.retry < MAX_SUBMIT_RETRIES
    }

    /// Starts with the transactions that [`select_for_submission`] gives.
    pub fn start(todo: Vec<CommittedTx>) -> (s: Submission)
        ensures
            s.wf(),
            s.todo == todo,
            s.at == 0,
            s.retry == 0,
            s.successful == 0,
            s.requeued == 0,
    {
        Submission { todo, at: 0, retry: 0, successful: 0, requeued: 0 }
    }

    /// The transaction to submit next.
    pub fn current(&self) -> (t: Option<&CommittedTx>)
        requires
            self.wf(),
        ensures
            match t {
                Some(x) => self.at < self.todo@.len() && *x == self.todo@[self.at as int],
                None => self.at == self.todo@.len(),
            },
    {
        if self.at < self.todo.len() {
            Some(&self.todo[self.at])
        } else {
            None
        }
    }

    fn requeue_current(&mut self, queue: &mut Vec<Vec<u8>>)
        requires
            old(self).wf(),
            old(self).at < old(self).todo@.len(),
        ensures
            final(self).wf(),
            final(self).todo == old(self).todo,
            final(self).at == old(self).at + 1,
            final(self).retry == 0,
            final(self).successful == old(self).successful,
            final(self).requeued == old(self).requeued + 1,
            contents(final(queue)@) == contents(old(queue)@).push(
                old(self).todo@[old(self).at as int].data@,
            ),
    {
        let i: usize = self.at;
        let total: usize = self.todo.len();
        assert(i < total);
        let ghost before = contents(queue@);
        let d = copy_range(self.todo[i].data.as_slice(), 0, self.todo[i].data.len());
        assert(d@ =~= self.todo@[i as int].data@);
        queue.push(d);
        assert(contents(queue@) =~= before.push(d@));
        self.at = i + 1;
        self.retry = 0;
        self.requeued = self.requeued + 1;
    }

    /// There is nobody to submit to: the transaction goes back to the queue.
    pub fn on_unavailable(&mut self, queue: &mut Vec<Vec<u8>>)
        requires
            old(self).wf(),
            old(self).at < old(self).todo@.len(),
        ensures
            final(self).wf(),
            final(self).todo == old(self).todo,
            final(self).at == old(self).at + 1,
            final(self).retry == 0,
            final(self).successful == old(self).successful,
            final(self).requeued == old(self).requeued + 1,
            contents(final(queue)@) == contents(old(queue)@).push(
                old(self).todo@[old(self).at as int].data@,
            ),
    {
        self.requeue_current(queue);
    }

    /// The transaction was taken.
    pub fn on_taken(&mut self)
        requires
            old(self).wf(),
            old(self).at < old(self).todo@.len(),
        ensures
            final(self).wf(),
            final(self).todo == old(self).todo,
            final(self).at == old(self).at + 1,
            final(self).retry == 0,
            final(self).successful == old(self).successful + 1,
            final(self).requeued == old(self).requeued,
    {
        let total: usize = self.todo.len();
        assert(self.at < total);
        self.at = self.at + 1;
        self.retry = 0;
        self.successful = self.successful + 1;
    }

    /// The transaction was refused. Gives the pause before going on; after
    /// [`MAX_SUBMIT_RETRIES`] attempts the transaction goes back to the queue.
    pub fn on_refused(&mut self, queue: &mut Vec<Vec<u8>>) -> (pause_ms: u64)
        requires
            old(self).wf(),
            old(self).at < old(self).todo@.len(),
        ensures
            final(self).wf(),
            final(self).todo == old(self).todo,
            final(self).successful == old(self).successful,
            pause_ms == 200 * pow2(old(self).retry as nat),
            if old(self).retry + 1 < MAX_SUBMIT_RETRIES {
                &&& final(self).at == old(self).at
                &&& final(self).retry == old(self).retry + 1
                &&& final(self).requeued == old(self).requeued
                &&& final(queue)@ == old(queue)@
            } else {
                &&& final(self).at == old(self).at + 1
                &&& final(self).retry == 0
                &&& final(self).requeued == old(self).requeued + 1
                &&& contents(final(queue)@) == contents(old(queue)@).push(
                    old(self).todo@[old(self).at as int].data@,
                )
            },
    {
        let attempt: u32 = self.retry + 1;
        let pause_ms: u64 = retry_delay_ms(attempt);
        if attempt < MAX_SUBMIT_RETRIES {
            self.retry = attempt;
        } else {
            self.requeue_current(queue);
        }
        pause_ms
    }

    /// What becomes of the queue's file once all transactions were dealt with.
    pub fn finish(&self, queue: &Vec<Vec<u8>>) -> (f: FileStep)
        requires
            self.wf(),
        ensures
            match f {
                FileStep::Delete => self.successful > 0,
                FileStep::Write(b) => self.successful == 0 && self.requeued > 0 && b@
                    == queue_file(contents(queue@)),
                FileStep::Keep => self.successful == 0 && self.requeued == 0,
            },
    {
        if self.successful > 0 {
            FileStep::Delete
        } else if self.requeued > 0 {
            FileStep::Write(persist_transaction_queue(queue))
        } else {
            FileStep::Keep
        }
    }
}

/// Starts to submit what waits in the queue, which is empty afterwards.
/// `queued` holds the transactions of the queue with what is known of them.
pub fn begin_submission(
    queue: &mut Vec<Vec<u8>>,
    queued: Vec<CommittedTx>,
    committed: &CommittedHashes,
) -> (s: Submission)
    requires
        contents(old(queue)@) == payloads(tx_values(queued@)),
    ensures
        final(queue)@.len() == 0,
        s.wf(),
        s.at == 0,
        s.retry == 0,
        s.successful == 0,
        s.requeued == 0,
        tx_values(s.todo@) == to_submit(tx_values(queued@), committed@),
{
    queue.clear();
    Submission::start(select_for_submission(queued, committed))
}

/// The queue that was kept is read back.
pub proof fn law_queue_roundtrip(txs: Seq<Seq<u8>>)
    requires
        txs.len() <= u32::MAX,
        forall|i: int| 0 <= i < txs.len() ==> (#[trigger] txs[i]).len() <= u32::MAX,
    ensures
        queue_in_file(queue_file(txs)) == Some(txs),
{
    let n = txs.len() as u32;
    lemma_u32_roundtrip(n);
    lemma_le_len(txs.len(), 4);
    let f = queue_file(txs);
    assert(f.subrange(0, 4) =~= le_bytes(txs.len(), 4));
    assert(f.subrange(4, f.len() as int) =~= records(txs) + Seq::<u8>::empty());
    lemma_records_roundtrip(txs, Seq::empty());
}

/// No hash is submitted twice, and none that was committed is submitted.
pub proof fn law_each_hash_once(txs: Seq<TxValue>, committed: Seq<Seq<u8>>)
    ensures
        forall|i: int, j: int|
            0 <= i < unique_pending(txs, committed).len() && 0 <= j < unique_pending(
                txs,
                committed,
            ).len() && i != j ==> (#[trigger] unique_pending(txs, committed)[i]).hash != (
            #[trigger] unique_pending(txs, committed)[j]).hash,
        forall|i: int|
            0 <= i < unique_pending(txs, committed).len() ==> !committed.contains(
                (#[trigger] unique_pending(txs, committed)[i]).hash,
            ),
{
    let key = |t: TxValue| byte_key(t.hash);
    let keep = |t: TxValue| !committed.contains(t.hash);
    let open = txs.filter(keep);
    let sorted = stable_sort(open, key);
    let out = unique_pending(txs, committed);
    crate::order::lemma_sort_sorted(open, key);
    crate::order::lemma_dedup_distinct(sorted, key);
    crate::order::lemma_sort_permutes(open, key);
    assert forall|i: int, j: int| 0 <= i < out.len() && 0 <= j < out.len() && i != j implies (
    #[trigger] out[i]).hash != (#[trigger] out[j]).hash by {
        assert(key(out[i]) != key(out[j]));
    }
    assert forall|i: int| 0 <= i < out.len() implies !committed.contains(
        (#[trigger] out[i]).hash,
    ) by {
        broadcast use vstd::seq_lib::group_to_multiset_ensures;

        assert(sorted.contains(out[i]));
        assert(sorted.to_multiset().count(out[i]) > 0);
        assert(open.contains(out[i]));
        crate::seqs::lemma_filter_keeps(txs, keep, open.index_of(out[i]));
    }
}

/// No transaction is lost before submission: the hash of each one that was not
/// committed is among those that are looked at.
pub proof fn law_no_pending_lost(txs: Seq<TxValue>, committed: Seq<Seq<u8>>, t: TxValue)
    requires
        txs.contains(t),
        !committed.contains(t.hash),
    ensures
        exists|i: int|
            0 <= i < unique_pending(txs, committed).len() && (#[trigger] unique_pending(
                txs,
                committed,
            )[i]).hash == t.hash,
{
    let key = |t: TxValue| byte_key(t.hash);
    let keep = |t: TxValue| !committed.contains(t.hash);
    let open = txs.filter(keep);
    let sorted = stable_sort(open, key);
    let out = unique_pending(txs, committed);
    crate::seqs::lemma_filter_complete(txs, keep, t);
    crate::order::lemma_sort_permutes(open, key);
    assert(sorted.contains(t)) by {
        broadcast use vstd::seq_lib::group_to_multiset_ensures;

        assert(open.to_multiset().count(t) > 0);
        assert(sorted.to_multiset().count(t) > 0);
    }
    let p = sorted.index_of(t);
    crate::order::lemma_dedup_keeps_keys(sorted, key, p);
    let q = choose|q: int| 0 <= q < out.len() && key(#[trigger] out[q]) == key(sorted[p]);
    lemma_byte_key_injective(out[q].hash, t.hash);
    assert(out[q].hash == t.hash);
}

/// The file of the queue begins with the number of transactions in four bytes,
/// and a record for each follows.
pub proof fn law_queue_file_layout(txs: Seq<Seq<u8>>)
    ensures
        queue_file(txs).len() == 4 + records(txs).len(),
        queue_file(txs).subrange(0, 4) == le_bytes(txs.len(), 4),
        queue_file(txs).subrange(4, queue_file(txs).len() as int) == records(txs),
{
    lemma_le_len(txs.len(), 4);
    let f = queue_file(txs);
    assert(f.subrange(0, 4) =~= le_bytes(txs.len(), 4));
    assert(f.subrange(4, f.len() as int) =~= records(txs));
}

/// What is submitted are transactions of the queue that were not committed and
/// that the executor runs, by ascending hash; and of each such hash one is
/// submitted, provided that transactions with one hash are the same.
pub proof fn law_open_transactions_are_submitted(
    txs: Seq<TxValue>,
    committed: Seq<Seq<u8>>,
    t: TxValue,
    i: int,
    j: int,
)
    requires
        0 <= i <= j < to_submit(txs, committed).len(),
    ensures
        txs.contains(to_submit(txs, committed)[i]),
        !committed.contains(to_submit(txs, committed)[i].hash),
        !to_submit(txs, committed)[i].is_system,
        to_submit(txs, committed)[i].is_protobuf,
        lex_le(
            byte_key(to_submit(txs, committed)[i].hash),
            byte_key(to_submit(txs, committed)[j].hash),
        ),
        txs.contains(t) && !committed.contains(t.hash) && !t.is_system && t.is_protobuf && (
        forall|m: int| 0 <= m < txs.len() && (#[trigger] txs[m]).hash == t.hash ==> txs[m] == t)
            ==> to_submit(txs, committed).contains(t),
{
    let unique = unique_pending(txs, committed);
    let runs = |t: TxValue| is_executable(t);
    crate::seqs::lemma_filter_keeps(unique, runs, i);
    let u = to_submit(txs, committed)[i];
    let key = |t: TxValue| byte_key(t.hash);
    let open = txs.filter(|t: TxValue| !committed.contains(t.hash));
    crate::order::lemma_sort_sorted(open, key);
    crate::order::lemma_dedup_members(stable_sort(open, key), key);
    crate::order::lemma_filter_sorted(unique, key, runs);
    assert(lex_le(key(u), key(to_submit(txs, committed)[j])));
    lemma_unique_pending_members(txs, committed, unique.index_of(u));
    if txs.contains(t) && !committed.contains(t.hash) && !t.is_system && t.is_protobuf && (forall|
        m: int,
    |
        0 <= m < txs.len() && (#[trigger] txs[m]).hash == t.hash ==> txs[m] == t) {
        law_no_pending_lost(txs, committed, t);
        let k = choose|k: int|
            0 <= k < unique.len() && (#[trigger] unique[k]).hash == t.hash;
        lemma_unique_pending_members(txs, committed, k);
        let m = txs.index_of(unique[k]);
        assert(txs[m].hash == t.hash);
        assert(unique[k] == t);
        crate::seqs::lemma_filter_complete(unique, runs, t);
    }
}

proof fn lemma_unique_pending_members(txs: Seq<TxValue>, committed: Seq<Seq<u8>>, k: int)
    requires
        0 <= k < unique_pending(txs, committed).len(),
    ensures
        txs.contains(unique_pending(txs, committed)[k]),
        !committed.contains(unique_pending(txs, committed)[k].hash),
{
    broadcast use vstd::seq_lib::group_to_multiset_ensures;

    let key = |t: TxValue| byte_key(t.hash);
    let keep = |t: TxValue| !committed.contains(t.hash);
    let open = txs.filter(keep);
    let sorted = stable_sort(open, key);
    let out = unique_pending(txs, committed);
    crate::order::lemma_sort_sorted(open, key);
    crate::order::lemma_dedup_distinct(sorted, key);
    crate::order::lemma_sort_permutes(open, key);
    assert(sorted.contains(out[k]));
    assert(sorted.to_multiset().count(out[k]) > 0);
    assert(open.contains(out[k]));
    crate::seqs::lemma_filter_keeps(txs, keep, open.index_of(out[k]));
}

/// The pause doubles with each attempt.
pub proof fn law_pause_doubles(n: nat)
    ensures
        pow2(0) == 1,
        pow2(n + 1) == 2 * pow2(n),
{
}

} // verus!
