//! The queue of fetched commits.
use crate::index_map::{
    entries_between, entries_from, entry_count, first_index, has_entry, no_entries, put_entry,
    retain_between, retain_from, take_entry,
};
use crate::node::rust_sync_node::commit::CommitData;
use std::collections::BTreeMap;
use vstd::prelude::*;

verus! {

/// How far the queue may be ahead of the executor before it is reset.
pub const MAX_LEAD: u64 = 100;

/// How many indices ahead of the executor survive a reset.
pub const RESET_WINDOW: u64 = 1000;

/// The state of a [`BlockQueue`].
pub struct QueueState {
    pub pending: Map<u64, CommitData>,
    pub next_expected: u64,
}

/// Commits by global execution index, handed out in sequence.
pub struct BlockQueue {
    pending: BTreeMap<u64, CommitData>,
    next_expected: u64,
}

/// A commit enters the queue: it was not handed out yet, and none waits under
/// its index.
pub open spec fn will_queue(s: QueueState, index: u64) -> bool {
    s.next_expected <= index && !s.pending.contains_key(index)
}

/// The state after a push.
pub open spec fn after_push(s: QueueState, data: CommitData) -> QueueState {
    if will_queue(s, data.commit.global_exec_index) {
        QueueState { pending: s.pending.insert(data.commit.global_exec_index, data), ..s }
    } else {
        s
    }
}

/// The state after pushes one after the other.
pub open spec fn after_pushes(s: QueueState, items: Seq<CommitData>) -> QueueState
    decreases items.len(),
{
    if items.len() == 0 {
        s
    } else {
        after_push(after_pushes(s, items.drop_last()), items.last())
    }
}

/// How many indices from `next` on are pending one after the other.
pub open spec fn run_length(pending: Map<u64, CommitData>, next: int) -> nat
    decreases u64::MAX + 1 - next,
{
    if next < 0 || next > u64::MAX || !pending.contains_key(next as u64) {
        0
    } else {
        1 + run_length(pending, next + 1)
    }
}

/// How many commits are ready.
pub open spec fn ready_count(s: QueueState) -> nat {
    run_length(s.pending, s.next_expected as int)
}

/// The state after the ready commits have left.
pub open spec fn after_drain(s: QueueState) -> QueueState {
    QueueState {
        pending: entries_from(s.pending, s.next_expected + ready_count(s)),
        next_expected: (s.next_expected + ready_count(s)) as u64,
    }
}

/// `pending` with commits put under their indices.
pub open spec fn with_commits(pending: Map<u64, CommitData>, items: Seq<CommitData>) -> Map<
    u64,
    CommitData,
>
    decreases items.len(),
{
    if items.len() == 0 {
        pending
    } else {
        with_commits(pending, items.drop_last()).insert(
            items.last().commit.global_exec_index,
            items.last(),
        )
    }
}

/// The state after commits that were handed out have come back: they wait
/// again, and the first of them is the next to be handed out.
pub open spec fn after_take_back(s: QueueState, items: Seq<CommitData>) -> QueueState {
    if items.len() == 0 {
        s
    } else {
        let first = items[0].commit.global_exec_index;
        QueueState {
            pending: with_commits(s.pending, items),
            next_expected: if first < s.next_expected {
                first
            } else {
                s.next_expected
            },
        }
    }
}

/// The state after following the executor, whose last block is `last`.
pub open spec fn after_sync(s: QueueState, last: u64) -> QueueState {
    let go_next = last + 1;
    if go_next > s.next_expected {
        QueueState { pending: entries_from(s.pending, go_next), next_expected: go_next as u64 }
    } else if s.next_expected > go_next + MAX_LEAD {
        QueueState {
            pending: entries_between(s.pending, go_next, go_next + RESET_WINDOW),
            next_expected: go_next as u64,
        }
    } else {
        s
    }
}

/// The arithmetic of [`BlockQueue::sync_with_go`] stays within 64 bits.
pub open spec fn can_sync(s: QueueState, last: u64) -> bool {
    &&& last < u64::MAX
    &&& s.next_expected > last ==> last + 1 + MAX_LEAD <= u64::MAX
    &&& s.next_expected > last + 1 + MAX_LEAD ==> last + 1 + RESET_WINDOW <= u64::MAX
}

proof fn lemma_run(pending: Map<u64, CommitData>, next: int)
    requires
        0 <= next <= u64::MAX + 1,
    ensures
        next + run_length(pending, next) <= u64::MAX + 1,
        forall|i: int|
            #![trigger pending.contains_key((next + i) as u64)]
            0 <= i < run_length(pending, next) ==> pending.contains_key((next + i) as u64),
    decreases u64::MAX + 1 - next,
{
    if next <= u64::MAX && pending.contains_key(next as u64) {
        lemma_run(pending, next + 1);
        assert forall|i: int|
            #![trigger pending.contains_key((next + i) as u64)]
            0 <= i < run_length(pending, next) implies pending.contains_key((next + i) as u64) by {
            if i > 0 {
                assert(pending.contains_key((next + 1 + (i - 1)) as u64));
            }
        }
    }
}

impl BlockQueue {
    /// The state.
    pub closed spec fn view(&self) -> QueueState {
        QueueState { pending: self.pending@, next_expected: self.next_expected }
    }

    /// Each commit waits under its own index.
    pub open spec fn wf(&self) -> bool {
        forall|k: u64| #[trigger]
            self@.pending.contains_key(k) ==> self@.pending[k].commit.global_exec_index == k
    }

    /// An empty queue; `start_index` is the first index that it hands out.
    pub fn new(start_index: u64) -> (q: Self)
        ensures
            q.wf(),
            q@ == (QueueState { pending: Map::empty(), next_expected: start_index }),
    {
        BlockQueue { pending: no_entries(), next_expected: start_index }
    }

    /// Adds a commit, unless it was handed out or waits already.
    pub fn push(&mut self, data: CommitData)
        requires
            old(self).wf(),
        ensures
            final(self).wf(),
            final(self)@ == after_push(old(self)@, data),
    {
        let index: u64 = data.commit.global_exec_index;
        if index >= self.next_expected && !has_entry(&self.pending, index) {
            put_entry(&mut self.pending, index, data);
        }
        assert forall|k: u64| #[trigger] self@.pending.contains_key(k) implies self@.pending[k]
            .commit.global_exec_index == k by {
            assert(k == index || old(self)@.pending.contains_key(k));
        }
    }

    /// Takes the commits that are ready out of the queue: those from the next
    /// index on, one after the other, up to the first gap. A gap is never
    /// skipped.
    pub fn drain_ready(&mut self) -> (r: Vec<CommitData>)
        requires
            old(self).wf(),
            old(self)@.next_expected + ready_count(old(self)@) <= u64::MAX,
        ensures
            final(self).wf(),
            final(self)@ == after_drain(old(self)@),
            r@.len() == ready_count(old(self)@),
            forall|i: int|
                0 <= i < r@.len() ==> #[trigger] r@[i] == old(self)@.pending[(old(
                    self,
                )@.next_expected + i) as u64] && r@[i].commit.global_exec_index == old(
                    self,
                )@.next_expected + i,
    {
        let ghost s = self@;
        let ghost p = s.pending;
        let ghost start = s.next_expected as int;
        let mut ready: Vec<CommitData> = Vec::new();
        let mut done: bool = false;
        retain_from(&mut self.pending, self.next_expected);
        while !done
            invariant
                start == s.next_expected,
                p == s.pending,
                start + ready_count(s) <= u64::MAX,
                self.next_expected == start + ready@.len(),
                ready_count(s) == ready@.len() + run_length(p, self.next_expected as int),
                self.pending@ == entries_from(p, self.next_expected as int),
                done ==> ready@.len() == ready_count(s),
                forall|i: int| 0 <= i < ready@.len() ==> #[trigger] ready@[i] == p[(start + i) as u64],
            ensures
                done,
            decreases (if done { 0int } else { 1 + ready_count(s) - ready@.len() }),
        {
            let next: u64 = self.next_expected;
            assert(entries_from(p, next as int).contains_key(next) == p.contains_key(next));
            match first_index(&self.pending) {
                Some(index) => {
                    if index == next {
                        let ghost before = self.pending@;
                        proof {
                            lemma_run(p, next as int);
                        }
                        match take_entry(&mut self.pending, index) {
                            Some(data) => {
                                ready.push(data);
                            },
                            None => {},
                        }
                        self.next_expected = index + 1;
                        assert(before.remove(index) =~= entries_from(p, next + 1));
                    } else {
                        done = true;
                    }
                },
                None => {
                    done = true;
                },
            }
        }
        proof {
            lemma_run(p, start);
            assert forall|i: int| 0 <= i < ready@.len() implies #[trigger] ready@[i]
                == p[(start + i) as u64] && ready@[i].commit.global_exec_index == start + i by {
                assert(p.contains_key((start + i) as u64));
            }
        }
        ready
    }

    /// Takes back commits that were handed out, see [`after_take_back`].
    pub fn take_back(&mut self, items: Vec<CommitData>)
        requires
            old(self).wf(),
        ensures
            final(self).wf(),
            final(self)@ == after_take_back(old(self)@, items@),
    {
        if items.len() == 0 {
            return;
        }
        let first: u64 = items[0].commit.global_exec_index;
        let ghost all = items@;
        let ghost start = self@;
        assert(all.subrange(0, 0) =~= Seq::<CommitData>::empty());
        for data in it: items
            invariant
                it.seq() == all,
                self.wf(),
                self.next_expected == start.next_expected,
                self.pending@ == with_commits(
                    start.pending,
                    all.subrange(0, it.index() as int),
                ),
        {
            proof {
                let longer = all.subrange(0, it.index() as int + 1);
                assert(longer.drop_last() =~= all.subrange(0, it.index() as int));
                assert(longer.last() == data);
            }
            let ghost before = self@;
            let index: u64 = data.commit.global_exec_index;
            put_entry(&mut self.pending, index, data);
            assert forall|k: u64| #[trigger] self@.pending.contains_key(k) implies self@.pending[k]
                .commit.global_exec_index == k by {
                assert(k == index || before.pending.contains_key(k));
            }
        }
        assert(all.subrange(0, all.len() as int) =~= all);
        let ghost filled = self@;
        if first < self.next_expected {
            self.next_expected = first;
        }
        assert forall|k: u64| #[trigger] self@.pending.contains_key(k) implies self@.pending[k]
            .commit.global_exec_index == k by {
            assert(filled.pending.contains_key(k));
        }
    }

    /// Index of the next commit to hand out.
    pub fn next_expected(&self) -> (n: u64)
        ensures
            n == self@.next_expected,
    {
        self.next_expected
    }

    /// Follows the executor, which is the authority on progress. Where it is
    /// ahead, the queue catches up; where it is more than [`MAX_LEAD`] behind,
    /// the queue goes back to it.
    pub fn sync_with_go(&mut self, go_last_block: u64)
        requires
            old(self).wf(),
            can_sync(old(self)@, go_last_block),
        ensures
            final(self).wf(),
            final(self)@ == after_sync(old(self)@, go_last_block),
    {
        let go_next: u64 = go_last_block + 1;
        if go_next > self.next_expected {
            retain_from(&mut self.pending, go_next);
            self.next_expected = go_next;
        } else if self.next_expected > go_next + MAX_LEAD {
            retain_between(&mut self.pending, go_next, go_next + RESET_WINDOW);
            self.next_expected = go_next;
        }
        assert forall|k: u64| #[trigger] self@.pending.contains_key(k) implies self@.pending[k]
            .commit.global_exec_index == k by {
            assert(old(self)@.pending.contains_key(k));
        }
    }

    /// How many commits wait.
    pub fn pending_count(&self) -> (n: usize)
        ensures
            n == self@.pending.len(),
    {
        entry_count(&self.pending)
    }

    /// Whether a commit waits under an index.
    pub fn is_pending(&self, index: u64) -> (b: bool)
        ensures
            b == self@.pending.contains_key(index),
    {
        has_entry(&self.pending, index)
    }
}

/// After draining, the next commit is missing: the queue never holds back a
/// commit that is ready, and never jumps over a gap.
pub proof fn law_drain_stops_at_gap(s: QueueState)
    requires
        s.next_expected + ready_count(s) <= u64::MAX,
    ensures
        !after_drain(s).pending.contains_key(after_drain(s).next_expected),
        ready_count(after_drain(s)) == 0,
{
    lemma_run_stops(s.pending, s.next_expected as int);
}

proof fn lemma_run_stops(pending: Map<u64, CommitData>, next: int)
    requires
        0 <= next,
    ensures
        next + run_length(pending, next) > u64::MAX || !pending.contains_key(
            (next + run_length(pending, next)) as u64,
        ),
    decreases u64::MAX + 1 - next,
{
    if next <= u64::MAX && pending.contains_key(next as u64) {
        lemma_run_stops(pending, next + 1);
    }
}

/// A commit that was handed out does not enter the queue again when it is
/// fetched once more. It comes back only by [`BlockQueue::take_back`], or if
/// the executor turns out to be far behind.
pub proof fn law_no_commit_twice(s: QueueState, data: CommitData)
    requires
        s.next_expected + ready_count(s) <= u64::MAX,
        data.commit.global_exec_index < s.next_expected + ready_count(s),
    ensures
        after_push(after_drain(s), data) == after_drain(s),
{
}

/// What was handed out from `next + j` on, for a queue that was at `next`.
pub open spec fn handed_out_from(s: QueueState, j: nat) -> Seq<CommitData> {
    Seq::new(
        (ready_count(s) - j) as nat,
        |i: int| s.pending[(s.next_expected + j + i) as u64],
    )
}

proof fn lemma_with_commits(pending: Map<u64, CommitData>, items: Seq<CommitData>, from: int)
    requires
        0 <= from,
        from + items.len() <= u64::MAX + 1,
        forall|i: int|
            0 <= i < items.len() ==> (#[trigger] items[i]).commit.global_exec_index == from + i,
    ensures
        forall|k: u64| #[trigger]
            with_commits(pending, items).contains_key(k) <==> from <= k < from + items.len()
                || pending.contains_key(k),
        forall|k: u64|
            from <= k < from + items.len() ==> #[trigger] with_commits(pending, items)[k]
                == items[k - from],
        forall|k: u64|
            !(from <= k < from + items.len()) ==> #[trigger] with_commits(pending, items)[k]
                == pending[k],
    decreases items.len(),
{
    if items.len() > 0 {
        let front = items.drop_last();
        assert forall|i: int| 0 <= i < front.len() implies (#[trigger] front[i])
            .commit.global_exec_index == from + i by {
            assert(front[i] == items[i]);
        }
        lemma_with_commits(pending, front, from);
        let last = items.len() - 1;
        assert(items.last() == items[last]);
        let before = with_commits(pending, front);
        let all = with_commits(pending, items);
        assert(all == before.insert((from + last) as u64, items[last]));
        assert forall|k: u64| #[trigger] all.contains_key(k) <==> from <= k < from + items.len()
            || pending.contains_key(k) by {
            assert(all.contains_key(k) <==> k == from + last || before.contains_key(k));
        }
        assert forall|k: u64| from <= k < from + items.len() implies #[trigger] all[k] == items[k
            - from] by {
            if k != from + last {
                assert(all[k] == before[k]);
                assert(front[k - from] == items[k - from]);
            }
        }
        assert forall|k: u64| !(from <= k < from + items.len()) implies #[trigger] all[k]
            == pending[k] by {
            assert(all[k] == before[k]);
        }
    }
}

proof fn lemma_run_same(a: Map<u64, CommitData>, b: Map<u64, CommitData>, next: int)
    requires
        0 <= next,
        forall|k: u64| next <= k ==> (#[trigger] a.contains_key(k) <==> b.contains_key(k)),
    ensures
        run_length(a, next) == run_length(b, next),
    decreases u64::MAX + 1 - next,
{
    if next <= u64::MAX && a.contains_key(next as u64) {
        lemma_run_same(a, b, next + 1);
    }
}

proof fn lemma_run_tail(pending: Map<u64, CommitData>, next: int, j: nat)
    requires
        0 <= next,
        j <= run_length(pending, next),
    ensures
        run_length(pending, next + j) == run_length(pending, next) - j,
    decreases j,
{
    if j > 0 {
        lemma_run_tail(pending, next + 1, (j - 1) as nat);
    }
}

/// Commits that were not taken are not lost: if all commits that were handed
/// out from the one at place `j` on come back, the queue is as if only those
/// before it had been handed out. It hands out the same commits again.
pub proof fn law_taken_back_in_full(s: QueueState, j: nat)
    requires
        j < ready_count(s),
        s.next_expected + ready_count(s) <= u64::MAX,
        forall|k: u64| #[trigger]
            s.pending.contains_key(k) ==> s.pending[k].commit.global_exec_index == k,
    ensures
        ({
            let t = after_take_back(after_drain(s), handed_out_from(s, j));
            &&& t.next_expected == s.next_expected + j
            &&& t.pending == entries_from(s.pending, s.next_expected + j)
            &&& ready_count(t) == ready_count(s) - j
            &&& handed_out_from(t, 0) == handed_out_from(s, j)
        }),
{
    let items = handed_out_from(s, j);
    let n = s.next_expected as int;
    let from = n + j;
    let t = after_take_back(after_drain(s), items);
    lemma_run(s.pending, n);
    assert forall|i: int| 0 <= i < items.len() implies (#[trigger] items[i])
        .commit.global_exec_index == from + i by {
        assert(s.pending.contains_key((n + (j + i)) as u64));
    }
    lemma_with_commits(after_drain(s).pending, items, from);
    assert(t.next_expected == from);
    assert forall|k: u64| from <= k < from + items.len() implies #[trigger] s.pending.contains_key(
        k,
    ) by {
        assert(s.pending.contains_key((n + (k - n)) as u64));
    }
    assert(t.pending =~= entries_from(s.pending, from));
    lemma_run_same(t.pending, s.pending, from);
    lemma_run_tail(s.pending, n, j);
    assert(handed_out_from(t, 0) =~= items);
}

/// After following the executor, the queue is at most [`MAX_LEAD`] ahead of it
/// and not behind it, and holds nothing that the executor has.
pub proof fn law_sync_bounds(s: QueueState, last: u64)
    requires
        can_sync(s, last),
        forall|k: u64| #[trigger] s.pending.contains_key(k) ==> s.next_expected <= k,
    ensures
        last + 1 <= after_sync(s, last).next_expected <= last + 1 + MAX_LEAD,
        forall|k: u64| #[trigger] after_sync(s, last).pending.contains_key(k) ==> last < k,
        after_sync(after_sync(s, last), last) == after_sync(s, last),
{
}

/// A commit that comes waits under its index, unless it was handed out or one
/// waits there already, which stays. Nothing else in the queue changes.
pub proof fn law_pushed_commit_waits(s: QueueState, data: CommitData)
    ensures
        ({
            let t = after_push(s, data);
            let index = data.commit.global_exec_index;
            &&& index >= s.next_expected ==> t.pending.contains_key(index)
            &&& index >= s.next_expected && !s.pending.contains_key(index) ==> t.pending[index]
                == data
            &&& index < s.next_expected ==> t == s
            &&& forall|k: u64|
                s.pending.contains_key(k) ==> #[trigger] t.pending.contains_key(k) && t.pending[k]
                    == s.pending[k]
            &&& forall|k: u64| #[trigger]
                t.pending.contains_key(k) ==> k == index || s.pending.contains_key(k)
            &&& t.next_expected == s.next_expected
        }),
{
}

/// Of commits that come one after the other, each one that was not handed out
/// waits under its index or finds one there, and what waited before stays.
pub proof fn law_pushed_commits_wait(s: QueueState, items: Seq<CommitData>)
    ensures
        ({
            let t = after_pushes(s, items);
            &&& forall|i: int|
                0 <= i < items.len() && items[i].commit.global_exec_index >= s.next_expected
                    ==> t.pending.contains_key((#[trigger] items[i]).commit.global_exec_index)
            &&& forall|k: u64|
                s.pending.contains_key(k) ==> #[trigger] t.pending.contains_key(k) && t.pending[k]
                    == s.pending[k]
            &&& forall|k: u64| #[trigger]
                t.pending.contains_key(k) && !s.pending.contains_key(k) ==> exists|i: int|
                    0 <= i < items.len() && #[trigger] items[i] == t.pending[k]
                        && items[i].commit.global_exec_index == k
            &&& t.next_expected == s.next_expected
        }),
    decreases items.len(),
{
    if items.len() > 0 {
        let front = items.drop_last();
        let mid = after_pushes(s, front);
        let t = after_pushes(s, items);
        law_pushed_commits_wait(s, front);
        law_pushed_commit_waits(mid, items.last());
        assert forall|i: int|
            0 <= i < items.len() && items[i].commit.global_exec_index
                >= s.next_expected implies t.pending.contains_key(
            (#[trigger] items[i]).commit.global_exec_index,
        ) by {
            if i < front.len() {
                assert(front[i] == items[i]);
                assert(mid.pending.contains_key(front[i].commit.global_exec_index));
            }
        }
        assert forall|k: u64|
            #[trigger] t.pending.contains_key(k) && !s.pending.contains_key(k) implies exists|
            i: int,
        |
            0 <= i < items.len() && #[trigger] items[i] == t.pending[k]
                && items[i].commit.global_exec_index == k by {
            if mid.pending.contains_key(k) {
                let i = choose|i: int|
                    0 <= i < front.len() && #[trigger] front[i] == mid.pending[k]
                        && front[i].commit.global_exec_index == k;
                assert(items[i] == front[i]);
            } else {
                assert(items[items.len() - 1] == t.pending[k]);
            }
        }
    }
}

/// Commits that wait one after the other from the next index on are ready, all
/// of them; what waits behind the first gap stays as it is.
pub proof fn law_whole_run_is_ready(s: QueueState, n: nat)
    requires
        s.next_expected + n <= u64::MAX,
        forall|i: int|
            0 <= i < n ==> #[trigger] s.pending.contains_key((s.next_expected + i) as u64),
    ensures
        ready_count(s) >= n,
        s.next_expected + ready_count(s) <= u64::MAX ==> {
            let t = after_drain(s);
            &&& t.next_expected == s.next_expected + ready_count(s)
            &&& forall|k: u64|
                k >= t.next_expected && s.pending.contains_key(k)
                    ==> #[trigger] t.pending.contains_key(k) && t.pending[k] == s.pending[k]
            &&& forall|k: u64| #[trigger]
                t.pending.contains_key(k) ==> k >= t.next_expected && s.pending.contains_key(k)
        },
{
    lemma_run_reaches(s.pending, s.next_expected as int, n);
}

proof fn lemma_run_reaches(pending: Map<u64, CommitData>, next: int, n: nat)
    requires
        0 <= next,
        next + n <= u64::MAX,
        forall|i: int| 0 <= i < n ==> #[trigger] pending.contains_key((next + i) as u64),
    ensures
        run_length(pending, next) >= n,
    decreases n,
{
    if n > 0 {
        assert(pending.contains_key((next + 0) as u64));
        assert forall|i: int| 0 <= i < n - 1 implies #[trigger] pending.contains_key(
            (next + 1 + i) as u64,
        ) by {
            assert(pending.contains_key((next + (i + 1)) as u64));
        }
        lemma_run_reaches(pending, next + 1, (n - 1) as nat);
    }
}

/// The queue follows the executor: where that is ahead, it goes on behind the
/// executor's last block and keeps every commit behind it. Up to a hundred
/// indices ahead of the executor it stays as it is. Farther ahead it goes back
/// behind the executor's last block, and keeps the commits of the thousand
/// indices from there on.
pub proof fn law_queue_follows_executor(s: QueueState, last: u64)
    requires
        can_sync(s, last),
    ensures
        ({
            let t = after_sync(s, last);
            &&& last >= s.next_expected ==> t.next_expected == last + 1 && forall|k: u64|
                s.pending.contains_key(k) && k > last ==> #[trigger] t.pending.contains_key(k)
            &&& last + 1 <= s.next_expected <= last + 101 ==> t == s
            &&& s.next_expected > last + 101 ==> t.next_expected == last + 1 && forall|k: u64|
                s.pending.contains_key(k) && last < k <= last + 1000
                    ==> #[trigger] t.pending.contains_key(k)
            &&& forall|k: u64| #[trigger]
                t.pending.contains_key(k) ==> s.pending.contains_key(k) && t.pending[k]
                    == s.pending[k]
        }),
{
}

/// Commits that come back in the order of their indices wait again, each under
/// its index, and none of them is passed over; what waited before stays.
pub proof fn law_returned_commits_wait(s: QueueState, items: Seq<CommitData>, i: int)
    requires
        0 <= i < items.len(),
        forall|x: int, y: int|
            0 <= x < y < items.len() ==> (#[trigger] items[x]).commit.global_exec_index < (
            #[trigger] items[y]).commit.global_exec_index,
    ensures
        ({
            let t = after_take_back(s, items);
            let index = items[i].commit.global_exec_index;
            &&& t.pending.contains_key(index) && t.pending[index] == items[i]
            &&& t.next_expected <= index
            &&& t.next_expected <= s.next_expected
            &&& t.next_expected == s.next_expected || t.next_expected
                == items[0].commit.global_exec_index
            &&& forall|k: u64|
                s.pending.contains_key(k) ==> #[trigger] t.pending.contains_key(k)
        }),
{
    lemma_returned(s.pending, items, i);
    if i > 0 {
        assert(items[0].commit.global_exec_index < items[i].commit.global_exec_index);
    }
}

proof fn lemma_returned(pending: Map<u64, CommitData>, items: Seq<CommitData>, i: int)
    requires
        0 <= i < items.len(),
        forall|x: int, y: int|
            0 <= x < y < items.len() ==> (#[trigger] items[x]).commit.global_exec_index < (
            #[trigger] items[y]).commit.global_exec_index,
    ensures
        with_commits(pending, items).contains_key(items[i].commit.global_exec_index),
        with_commits(pending, items)[items[i].commit.global_exec_index] == items[i],
        forall|k: u64|
            pending.contains_key(k) ==> #[trigger] with_commits(pending, items).contains_key(k),
    decreases items.len(),
{
    let front = items.drop_last();
    if i < front.len() {
        assert forall|x: int, y: int| 0 <= x < y < front.len() implies (
        #[trigger] front[x]).commit.global_exec_index < (
        #[trigger] front[y]).commit.global_exec_index by {
            assert(front[x] == items[x] && front[y] == items[y]);
        }
        lemma_returned(pending, front, i);
        assert(front[i] == items[i]);
        assert(items[i].commit.global_exec_index < items[items.len()
            - 1].commit.global_exec_index);
    }
    lemma_returned_keeps(pending, items);
}

proof fn lemma_returned_keeps(pending: Map<u64, CommitData>, items: Seq<CommitData>)
    ensures
        forall|k: u64|
            pending.contains_key(k) ==> #[trigger] with_commits(pending, items).contains_key(k),
    decreases items.len(),
{
    if items.len() > 0 {
        let front = with_commits(pending, items.drop_last());
        lemma_returned_keeps(pending, items.drop_last());
        assert forall|k: u64| pending.contains_key(k) implies #[trigger] with_commits(
            pending,
            items,
        ).contains_key(k) by {
            assert(front.contains_key(k));
        }
    }
}

} // verus!
