//! Transactions of an epoch that ended before they were committed, and the
//! hashes of those that were committed.
use crate::order::bytes_eq;
use crate::text::{decimal, decimal_text};
use crate::wire::{
    contents, copy_range, get_le, get_records, le_bytes, le_value, lemma_le_len,
    lemma_records_roundtrip, lemma_u64_roundtrip, parse_records, put_le, put_records, records,
};
use vstd::prelude::*;
use vstd::string::*;

verus! {

/// The hashes of the transactions that an epoch has committed; none twice.
pub struct CommittedHashes {
    hashes: Vec<Vec<u8>>,
}

/// The file that keeps the hashes: their number in eight bytes, least
/// significant byte first, and a record for each.
pub open spec fn hashes_file(hashes: Seq<Seq<u8>>) -> Seq<u8> {
    le_bytes(hashes.len(), 8) + records(hashes)
}

/// The hashes that a file holds, if it is complete.
pub open spec fn hashes_in_file(bytes: Seq<u8>) -> Option<Seq<Seq<u8>>> {
    if bytes.len() < 8 {
        None
    } else {
        parse_records(bytes.subrange(8, bytes.len() as int), le_value(bytes.subrange(0, 8)))
    }
}

impl CommittedHashes {
    /// The hashes, in the order in which they were added.
    pub closed spec fn view(&self) -> Seq<Seq<u8>> {
        contents(self.hashes@)
    }

    /// No hash is there twice.
    pub open spec fn wf(&self) -> bool {
        self@.no_duplicates()
    }

    /// No hashes.
    pub fn new() -> (c: CommittedHashes)
        ensures
            c.wf(),
            c@ == Seq::<Seq<u8>>::empty(),
    {
        let c = CommittedHashes { hashes: Vec::new() };
        assert(c@ =~= Seq::<Seq<u8>>::empty());
        c
    }

    /// How many hashes there are.
    pub fn len(&self) -> (n: usize)
        ensures
            n == self@.len(),
    {
        self.hashes.len()
    }

    /// Whether a hash is there.
    pub fn contains(&self, hash: &[u8]) -> (b: bool)
        ensures
            b == self@.contains(hash@),
    {
        let mut i: usize = 0;
        while i < self.hashes.len()
            invariant
                i <= self.hashes@.len(),
                forall|j: int| 0 <= j < i ==> #[trigger] self@[j] != hash@,
            decreases self.hashes.len() - i,
        {
            assert(self@[i as int] == self.hashes@[i as int]@);
            if bytes_eq(self.hashes[i].as_slice(), hash) {
                return true;
            }
            i += 1;
        }
        false
    }

    /// Adds a hash, unless it is there.
    pub fn insert(&mut self, hash: Vec<u8>)
        requires
            old(self).wf(),
        ensures
            final(self).wf(),
            final(self)@ == if old(self)@.contains(hash@) {
                old(self)@
            } else {
                old(self)@.push(hash@)
            },
    {
        if !self.contains(hash.as_slice()) {
            let ghost before = self@;
            self.hashes.push(hash);
            assert(self@ =~= before.push(hash@));
        }
    }

    /// The bytes of the file that keeps the hashes, see [`hashes_file`].
    pub fn to_bytes(&self) -> (r: Vec<u8>)
        ensures
            r@ == hashes_file(self@),
    {
        let mut r: Vec<u8> = Vec::new();
        put_le(&mut r, self.hashes.len() as u64, 8);
        assert(r@ =~= le_bytes(self@.len(), 8));
        put_records(&mut r, &self.hashes);
        r
    }

    /// Reads the hashes from a file; none if the file is too short for what
    /// it announces.
    pub fn from_bytes(bytes: &[u8]) -> (r: Option<CommittedHashes>)
        ensures
            match r {
                Some(c) => c.wf() && hashes_in_file(bytes@) is Some && c@.to_set()
                    == hashes_in_file(bytes@)->Some_0.to_set(),
                None => hashes_in_file(bytes@) is None,
            },
    {
        if bytes.len() < 8 {
            return None;
        }
        let count: u64 = get_le(bytes, 0, 8);
        match get_records(bytes, 8, count) {
            Some(items) => {
                let ghost all = contents(items@);
                let mut c = CommittedHashes::new();
                let mut i: usize = 0;
                assert(c@.to_set() =~= all.subrange(0, 0).to_set());
                while i < items.len()
                    invariant
                        i <= items@.len(),
                        all == contents(items@),
                        c.wf(),
                        c@.to_set() == all.subrange(0, i as int).to_set(),
                    decreases items.len() - i,
                {
                    let ghost before = c@;
                    let item = copy_range(items[i].as_slice(), 0, items[i].len());
                    assert(item@ =~= all[i as int]);
                    c.insert(item);
                    i += 1;
                    proof {
                        let shorter = all.subrange(0, i - 1);
                        let longer = all.subrange(0, i as int);
                        assert(longer =~= shorter.push(all[i - 1]));
                        lemma_push_to_set(shorter, all[i - 1]);
                        lemma_push_to_set(before, all[i - 1]);
                        if before.contains(all[i - 1]) {
                            assert(before.to_set().contains(all[i - 1]));
                            assert(before.to_set().insert(all[i - 1]) =~= before.to_set());
                        }
                        assert(c@.to_set() =~= longer.to_set());
                    }
                }
                assert(all.subrange(0, all.len() as int) =~= all);
                Some(c)
            },
            None => None,
        }
    }

    /// The hashes of an epoch from its file; none if there is no file or it
    /// cannot be read.
    pub fn load(file: Option<&[u8]>) -> (c: CommittedHashes)
        ensures
            c.wf(),
            c@.to_set() == match file {
                Some(b) => match hashes_in_file(b@) {
                    Some(items) => items.to_set(),
                    None => Set::<Seq<u8>>::empty(),
                },
                None => Set::<Seq<u8>>::empty(),
            },
    {
        let empty = CommittedHashes::new();
        assert(empty@.to_set() =~= Set::<Seq<u8>>::empty());
        match file {
            Some(b) => match CommittedHashes::from_bytes(b) {
                Some(c) => c,
                None => empty,
            },
            None => empty,
        }
    }
}

proof fn lemma_push_to_set(s: Seq<Seq<u8>>, x: Seq<u8>)
    ensures
        s.push(x).to_set() == s.to_set().insert(x),
{
    assert forall|y: Seq<u8>| s.push(x).to_set().contains(y) == s.to_set().insert(x).contains(y) by {
        if s.contains(y) {
            let i = s.index_of(y);
            assert(s.push(x)[i] == y);
        }
        assert(s.push(x)[s.len() as int] == x);
        if s.push(x).contains(y) {
            let i = s.push(x).index_of(y);
            if i < s.len() {
                assert(s[i] == y);
            }
        }
    }
    assert(s.push(x).to_set() =~= s.to_set().insert(x));
}

/// Adds one hash to the file of an epoch and gives the new file. A file that
/// cannot be read counts as empty.
pub fn save_committed_transaction_hash(file: Option<&[u8]>, hash: Vec<u8>) -> (r: Vec<u8>)
    ensures
        exists|hashes: Seq<Seq<u8>>|
            #![trigger hashes_file(hashes)]
            r@ == hashes_file(hashes) && hashes.no_duplicates() && hashes.to_set() == (match file {
                Some(b) => match hashes_in_file(b@) {
                    Some(items) => items.to_set(),
                    None => Set::<Seq<u8>>::empty(),
                },
                None => Set::<Seq<u8>>::empty(),
            }).insert(hash@),
{
    let mut c = CommittedHashes::load(file);
    let ghost before = c@;
    c.insert(hash);
    proof {
        lemma_push_to_set(before, hash@);
        if before.contains(hash@) {
            assert(before.to_set().contains(hash@));
            assert(before.to_set().insert(hash@) =~= before.to_set());
        }
    }
    let r = c.to_bytes();
    assert(r@ == hashes_file(c@));
    r
}

/// Where the hashes of an epoch are kept, below the storage directory.
pub fn hashes_path(epoch: u64) -> (s: String)
    ensures
        s@ == "epochs/epoch_"@ + decimal_text(epoch as nat) + "/committed_transaction_hashes.bin"@,
{
    let mut s = String::from_str("epochs/epoch_");
    s.append(decimal(epoch).as_str());
    s.append("/committed_transaction_hashes.bin");
    s
}

/// A transaction that waits, with its hash.
#[derive(Clone, Debug)]
pub struct HashedTx {
    pub data: Vec<u8>,
    pub hash: Vec<u8>,
}

/// The transactions whose hash is not among `committed`, in order.
pub open spec fn uncommitted(txs: Seq<HashedTx>, committed: Seq<Seq<u8>>) -> Seq<HashedTx> {
    txs.filter(|t: HashedTx| !committed.contains(t.hash@))
}

/// The transactions to bring into the new epoch: those that the epoch before
/// did not commit. `pending` is empty afterwards.
pub fn plan_recovery(pending: &mut Vec<HashedTx>, committed: &CommittedHashes) -> (r: Vec<HashedTx>)
    ensures
        final(pending)@.len() == 0,
        r@ == uncommitted(old(pending)@, committed@),
{
    let ghost all = pending@;
    let ghost keep = |t: HashedTx| !committed@.contains(t.hash@);
    let mut taken: Vec<HashedTx> = Vec::new();
    taken.append(pending);
    assert(taken@ =~= all);
    let mut r: Vec<HashedTx> = Vec::new();
    proof {
        reveal(Seq::filter);
        assert(all.subrange(0, 0) =~= Seq::<HashedTx>::empty());
        assert(r@ =~= all.subrange(0, 0).filter(keep));
    }
    for t in it: taken
        invariant
            it.seq() == all,
            keep == (|t: HashedTx| !committed@.contains(t.hash@)),
            r@ == all.subrange(0, it.index() as int).filter(keep),
    {
        proof {
            reveal(Seq::filter);
            let longer = all.subrange(0, it.index() as int + 1);
            assert(longer.drop_last() =~= all.subrange(0, it.index() as int));
            assert(longer.last() == t);
        }
        if !committed.contains(t.hash.as_slice()) {
            r.push(t);
        }
    }
    assert(all.subrange(0, all.len() as int) =~= all);
    r
}

/// How submitting a transaction went.
#[derive(Clone, Copy, Debug, PartialEq, Eq, Structural)]
pub enum SubmitResult {
    /// The consensus took it.
    Taken,
    /// The consensus did not take it.
    Refused,
    /// There is nobody to submit it to.
    NoClient,
}

/// A recovery that is under way.
pub struct Recovery {
    pub todo: Vec<HashedTx>,
    pub at: usize,
    pub recovered: usize,
}

/// How far a recovery has come, with the queue that it fills.
pub struct RecoveryState {
    pub todo: Seq<HashedTx>,
    pub at: int,
    pub recovered: int,
    pub queue: Seq<Seq<u8>>,
}

/// The state after the result of one transaction: one that was taken is
/// counted, one that was refused goes to the queue. Without a client it is
/// given up.
pub open spec fn after_result(p: RecoveryState, result: SubmitResult) -> RecoveryState {
    RecoveryState {
        todo: p.todo,
        at: p.at + 1,
        recovered: if result is Taken {
            p.recovered + 1
        } else {
            p.recovered
        },
        queue: if result is Refused {
            p.queue.push(p.todo[p.at].data@)
        } else {
            p.queue
        },
    }
}

/// The state after results one after the other.
pub open spec fn after_results(p: RecoveryState, results: Seq<SubmitResult>) -> RecoveryState
    decreases results.len(),
{
    if results.len() == 0 {
        p
    } else {
        after_result(after_results(p, results.drop_last()), results.last())
    }
}

/// The data of the transactions that were refused, in order.
pub open spec fn refused_data(todo: Seq<HashedTx>, results: Seq<SubmitResult>) -> Seq<Seq<u8>>
    decreases results.len(),
{
    if results.len() == 0 {
        Seq::empty()
    } else {
        let before = refused_data(todo, results.drop_last());
        if results.last() is Refused {
            before.push(todo[results.len() - 1].data@)
        } else {
            before
        }
    }
}

/// How many of the results are `r`.
pub open spec fn count_of(results: Seq<SubmitResult>, r: SubmitResult) -> nat
    decreases results.len(),
{
    if results.len() == 0 {
        0
    } else if results.last() == r {
        count_of(results.drop_last(), r) + 1
    } else {
        count_of(results.drop_last(), r)
    }
}

impl Recovery {
    /// The recovery with the queue that it fills.
    pub open spec fn state(&self, queue: Seq<Vec<u8>>) -> RecoveryState {
        RecoveryState {
            todo: self.todo@,
            at: self.at as int,
            recovered: self.recovered as int,
            queue: contents(queue),
        }
    }

    /// No more was recovered than was tried.
    pub open spec fn wf(&self) -> bool {
        self.at <= self.todo@.len() && self.recovered <= self.at
    }

    /// Starts with the transactions that [`plan_recovery`] gives.
    pub fn start(todo: Vec<HashedTx>) -> (r: Recovery)
        ensures
            r.wf(),
            r.todo == todo,
            r.at == 0,
            r.recovered == 0,
    {
        Recovery { todo, at: 0, recovered: 0 }
    }

    /// The transaction to submit next.
    pub fn current(&self) -> (t: Option<&HashedTx>)
        requires
            self.wf(),
        ensures
            match t {
                Some(x) => self.at < self.todo@.len() && *x == self.todo@[self.at as int],
                None => self.at == self.todo@.len(),
            },
    {
        if self.at < self.todo.len() {
            Some(&self.todo[self.at])
        } else {
            None
        }
    }

    /// Notes how submitting the current transaction went. One that was taken
    /// is recorded: its hash is returned. One that was refused goes to the
    /// queue. Without a client it is given up. See [`after_result`].
    pub fn on_result(&mut self, result: SubmitResult, queue: &mut Vec<Vec<u8>>) -> (save: Option<
        Vec<u8>,
    >)
        requires
            old(self).wf(),
            old(self).at < old(self).todo@.len(),
        ensures
            final(self).wf(),
            final(self).todo == old(self).todo,
            final(self).state(final(queue)@) == after_result(
                old(self).state(old(queue)@),
                result,
            ),
            save is Some <==> result is Taken,
            save matches Some(h) ==> h@ == old(self).todo@[old(self).at as int].hash@,
    {
        let i: usize = self.at;
        let total: usize = self.todo.len();
        assert(i < total);
        self.at = i + 1;
        match result {
            SubmitResult::Taken => {
                self.recovered = self.recovered + 1;
                let h = copy_range(self.todo[i].hash.as_slice(), 0, self.todo[i].hash.len());
                assert(h@ =~= self.todo@[i as int].hash@);
                Some(h)
            },
            SubmitResult::NoClient => None,
            SubmitResult::Refused => {
                let ghost before = contents(queue@);
                let d = copy_range(self.todo[i].data.as_slice(), 0, self.todo[i].data.len());
                assert(d@ =~= self.todo@[i as int].data@);
                queue.push(d);
                assert(contents(queue@) =~= before.push(d@));
                None
            },
        }
    }
}

/// After all results of a recovery the queue is the one before it, followed by
/// the data of the transactions that were refused, in order; as many were
/// recovered as were taken, and each transaction was taken, refused, or met no
/// client.
pub proof fn law_recovery_result(todo: Seq<HashedTx>, queue: Seq<Seq<u8>>, results: Seq<SubmitResult>)
    requires
        results.len() <= todo.len(),
    ensures
        ({
            let begun = RecoveryState { todo, at: 0, recovered: 0, queue };
            let end = after_results(begun, results);
            &&& end.todo == todo
            &&& end.at == results.len()
            &&& end.queue == queue + refused_data(todo, results)
            &&& end.recovered == count_of(results, SubmitResult::Taken)
            &&& refused_data(todo, results).len() == count_of(results, SubmitResult::Refused)
            &&& results.len() == count_of(results, SubmitResult::Taken) + count_of(
                results,
                SubmitResult::Refused,
            ) + count_of(results, SubmitResult::NoClient)
        }),
    decreases results.len(),
{
    if results.len() > 0 {
        law_recovery_result(todo, queue, results.drop_last());
    }
    let begun = RecoveryState { todo, at: 0, recovered: 0, queue };
    assert(after_results(begun, results).queue =~= queue + refused_data(todo, results));
}

/// The hashes that were kept are read back.
pub proof fn law_hashes_roundtrip(hashes: Seq<Seq<u8>>)
    requires
        hashes.len() <= u64::MAX,
        forall|i: int| 0 <= i < hashes.len() ==> (#[trigger] hashes[i]).len() <= u32::MAX,
    ensures
        hashes_in_file(hashes_file(hashes)) == Some(hashes),
{
    let n = hashes.len() as u64;
    lemma_u64_roundtrip(n);
    lemma_le_len(hashes.len(), 8);
    let f = hashes_file(hashes);
    assert(f.subrange(0, 8) =~= le_bytes(hashes.len(), 8));
    assert(f.subrange(8, f.len() as int) =~= records(hashes) + Seq::<u8>::empty());
    lemma_records_roundtrip(hashes, Seq::empty());
}

/// A transaction that the epoch before has committed is not submitted again.
pub proof fn law_no_committed_recovered(txs: Seq<HashedTx>, committed: Seq<Seq<u8>>, i: int)
    requires
        0 <= i < uncommitted(txs, committed).len(),
    ensures
        !committed.contains(uncommitted(txs, committed)[i].hash@),
        txs.contains(uncommitted(txs, committed)[i]),
{
    let keep = |t: HashedTx| !committed.contains(t.hash@);
    crate::seqs::lemma_filter_keeps(txs, keep, i);
}

/// No transaction that the epoch before has not committed is left out of a
/// recovery, and they keep their order.
pub proof fn law_uncommitted_are_recovered(
    a: Seq<HashedTx>,
    b: Seq<HashedTx>,
    committed: Seq<Seq<u8>>,
    t: HashedTx,
)
    ensures
        uncommitted(a + b, committed) == uncommitted(a, committed) + uncommitted(b, committed),
        !committed.contains(t.hash@) ==> uncommitted(seq![t], committed) == seq![t],
        committed.contains(t.hash@) ==> uncommitted(seq![t], committed).len() == 0,
{
    reveal(Seq::filter);
    let keep = |t: HashedTx| !committed.contains(t.hash@);
    Seq::filter_distributes_over_add(a, b, keep);
    reveal_with_fuel(Seq::filter, 2);
    assert(seq![t].drop_last() =~= Seq::<HashedTx>::empty());
    assert(seq![t].last() == t);
    if keep(t) {
        assert(seq![t].filter(keep) =~= seq![t]);
    }
}

/// The file of the hashes begins with their number in eight bytes, and a record
/// for each follows.
pub proof fn law_hashes_file_layout(hashes: Seq<Seq<u8>>)
    ensures
        hashes_file(hashes).len() == 8 + records(hashes).len(),
        hashes_file(hashes).subrange(0, 8) == le_bytes(hashes.len(), 8),
        hashes_file(hashes).subrange(8, hashes_file(hashes).len() as int) == records(hashes),
{
    lemma_le_len(hashes.len(), 8);
    let f = hashes_file(hashes);
    assert(f.subrange(0, 8) =~= le_bytes(hashes.len(), 8));
    assert(f.subrange(8, f.len() as int) =~= records(hashes));
}

/// One result more: a transaction that was taken is counted and leaves the
/// queue as it is; one that was refused is put behind what waits; one that met
/// no client changes neither.
pub proof fn law_each_result_counts(p: RecoveryState)
    ensures
        after_result(p, SubmitResult::Taken).recovered == p.recovered + 1,
        after_result(p, SubmitResult::Taken).queue == p.queue,
        after_result(p, SubmitResult::Refused).recovered == p.recovered,
        after_result(p, SubmitResult::Refused).queue == p.queue.push(p.todo[p.at].data@),
        after_result(p, SubmitResult::NoClient).recovered == p.recovered,
        after_result(p, SubmitResult::NoClient).queue == p.queue,
        forall|r: SubmitResult| (#[trigger] after_result(p, r)).at == p.at + 1,
        forall|r: SubmitResult| (#[trigger] after_result(p, r)).todo == p.todo,
{
}

} // verus!
