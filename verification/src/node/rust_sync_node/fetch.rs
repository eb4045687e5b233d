//! What to fetch, from whom, and what to do with the answers.
use crate::node::committee::Committee;
use crate::node::rust_sync_node::block_queue::{after_pushes, BlockQueue};
use crate::node::rust_sync_node::commit::{
    attach_blocks, block_values, found_blocks, law_all_blocks_attached, ref_values, was_fetched,
    Commit, CommitData, VerifiedBlock,
};
use crate::order::bytes_eq;
use crate::wire::contents;
use vstd::prelude::*;

verus! {

/// A commit this far behind the queue shows that the peer is in another epoch.
pub const MAX_BEHIND: u64 = 1000;

/// A commit this far ahead of the queue shows that commits are missing.
pub const MAX_AHEAD: u64 = 10;

/// What to ask peers for.
#[allow(inconsistent_fields)]
#[derive(Clone, Copy, Debug, PartialEq, Eq, Structural)]
pub enum FetchPlan {
    /// Commits of the current epoch, by their index in it.
    Local { start: u32, end: u32 },
    /// Commits by their index over all epochs.
    Global { start: u64, end: u64 },
}

/// The index in the epoch that a global index has: counted from the epoch's
/// base. In the first epoch after the start, earlier commits are asked for by
/// their global index; in later ones they have no index in the epoch.
pub open spec fn local_index(from_global: u32, current_epoch: u64, epoch_base: u64) -> Option<int> {
    if from_global >= epoch_base {
        Some(from_global - epoch_base)
    } else if current_epoch == 1 {
        Some(from_global as int)
    } else {
        None
    }
}

/// Plans a fetch of `batch_size` commits after `from_global`.
pub fn plan_fetch(
    from_global: u32,
    current_epoch: u64,
    epoch_base: u64,
    batch_size: u32,
) -> (p: FetchPlan)
    requires
        from_global < u32::MAX,
        from_global + batch_size <= u32::MAX,
    ensures
        p == match local_index(from_global, current_epoch, epoch_base) {
            Some(i) => FetchPlan::Local { start: (i + 1) as u32, end: (i + batch_size) as u32 },
            None => FetchPlan::Global {
                start: from_global as u64,
                end: (from_global + batch_size) as u64,
            },
        },
{
    if from_global as u64 >= epoch_base {
        let from_local: u32 = (from_global as u64 - epoch_base) as u32;
        FetchPlan::Local { start: from_local + 1, end: from_local + batch_size }
    } else if current_epoch == 1 && epoch_base > 0 {
        FetchPlan::Local { start: from_global + 1, end: from_global + batch_size }
    } else {
        FetchPlan::Global { start: from_global as u64, end: (from_global + batch_size) as u64 }
    }
}

/// The index after which to fetch: the one before the next that the queue
/// hands out, in 32 bits.
pub fn fetch_from_index(next_expected: u64) -> (i: u32)
    requires
        next_expected > 0,
    ensures
        i == (next_expected - 1) % 0x1_0000_0000,
{
    ((next_expected - 1) % 0x1_0000_0000) as u32
}

/// The bytes of a key, if there is one.
pub open spec fn key_bytes(k: Option<&[u8]>) -> Option<Seq<u8>> {
    match k {
        Some(b) => Some(b@),
        None => None,
    }
}

/// The members other than the one with network key `own`.
pub open spec fn is_peer_of(c: Committee, own: Option<Seq<u8>>, i: int) -> bool {
    0 <= i < c.authorities@.len() && match own {
        Some(k) => c.authorities@[i].network_key@ != k,
        None => true,
    }
}

/// The places of the members that can be asked: all but the node itself.
pub fn peers_of(committee: &Committee, own_network_key: Option<&[u8]>) -> (r: Vec<u32>)
    requires
        committee.authorities@.len() <= u32::MAX,
    ensures
        forall|i: int, j: int| 0 <= i < j < r@.len() ==> r@[i] < r@[j],
        forall|p: u32| #[trigger]
            r@.contains(p) <==> is_peer_of(
                *committee,
                key_bytes(own_network_key),
                p as int,
            ),
{
    let ghost own = key_bytes(own_network_key);
    let mut r: Vec<u32> = Vec::new();
    let mut i: usize = 0;
    while i < committee.authorities.len()
        invariant
            i <= committee.authorities@.len() <= u32::MAX,
            own == key_bytes(own_network_key),
            forall|a: int, b: int| 0 <= a < b < r@.len() ==> r@[a] < r@[b],
            forall|a: int| 0 <= a < r@.len() ==> #[trigger] r@[a] < i,
            forall|p: u32| #[trigger]
                r@.contains(p) <==> p < i && is_peer_of(*committee, own, p as int),
        decreases committee.authorities.len() - i,
    {
        let other: bool = match own_network_key {
            Some(k) => !bytes_eq(committee.authorities[i].network_key.as_slice(), k),
            None => true,
        };
        let ghost before = r@;
        if other {
            r.push(i as u32);
        }
        proof {
            assert forall|p: u32| #[trigger] r@.contains(p) <==> p < i + 1 && is_peer_of(
                *committee,
                own,
                p as int,
            ) by {
                if r@.contains(p) {
                    let m = r@.index_of(p);
                    if m < before.len() {
                        assert(before[m] == p);
                        assert(before.contains(p));
                    }
                }
                if p < i && is_peer_of(*committee, own, p as int) {
                    assert(before.contains(p));
                    let m = before.index_of(p);
                    assert(r@[m] == p);
                }
                if p == i && other {
                    assert(r@[before.len() as int] == p);
                }
            }
        }
        i += 1;
    }
    r
}

/// The peers other than `p`.
pub open spec fn others(peers: Seq<u32>, p: u32) -> Seq<u32> {
    peers.filter(|q: u32| q != p)
}

/// A race between peers for one range: a primary peer is asked first; the
/// others join if it is slow or fails.
pub struct HedgedFetch {
    peers: Vec<u32>,
    primary: u32,
    hedged: bool,
    in_flight: usize,
    failed: usize,
}

/// The state of a [`HedgedFetch`].
pub struct HedgeState {
    pub peers: Seq<u32>,
    pub primary: u32,
    pub hedged: bool,
    pub in_flight: nat,
    pub failed: nat,
}

/// What to do after a peer has failed.
pub enum HedgeStep {
    /// Ask these peers too.
    Ask(Vec<u32>),
    /// Wait for the peers that have not answered.
    Wait,
    /// All peers have failed.
    GiveUp,
}

/// The race once the others have joined.
pub open spec fn all_asked(s: HedgeState) -> HedgeState {
    HedgeState { hedged: true, in_flight: s.in_flight + others(s.peers, s.primary).len(), ..s }
}

fn other_peers(peers: &Vec<u32>, p: u32) -> (r: Vec<u32>)
    ensures
        r@ == others(peers@, p),
{
    let mut r: Vec<u32> = Vec::new();
    let mut i: usize = 0;
    assert(peers@.subrange(0, 0) =~= Seq::<u32>::empty());
    proof {
        reveal(Seq::filter);
    }
    assert(r@ =~= others(peers@.subrange(0, 0), p));
    while i < peers.len()
        invariant
            i <= peers@.len(),
            r@ == others(peers@.subrange(0, i as int), p),
        decreases peers.len() - i,
    {
        proof {
            reveal(Seq::filter);
            let longer = peers@.subrange(0, i + 1);
            assert(longer.drop_last() =~= peers@.subrange(0, i as int));
            assert(longer.last() == peers@[i as int]);
        }
        if peers[i] != p {
            r.push(peers[i]);
        }
        i += 1;
    }
    assert(peers@.subrange(0, peers@.len() as int) =~= peers@);
    r
}

impl HedgedFetch {
    /// The state.
    pub closed spec fn view(&self) -> HedgeState {
        HedgeState {
            peers: self.peers@,
            primary: self.primary,
            hedged: self.hedged,
            in_flight: self.in_flight as nat,
            failed: self.failed as nat,
        }
    }

    /// The primary is one of the peers; the peers that were asked are those in
    /// flight and those that failed.
    pub open spec fn wf(&self) -> bool {
        &&& self@.peers.contains(self@.primary)
        &&& self@.in_flight + self@.failed == 1 + if self@.hedged {
            others(self@.peers, self@.primary).len()
        } else {
            0
        }
        &&& !self@.hedged ==> self@.in_flight == 1
        &&& self@.peers.len() <= usize::MAX
    }

    /// Starts a race for a range that begins at `range_start`; none without
    /// peers. The range decides who is the primary, which spreads the load.
    pub fn new(peers: Vec<u32>, range_start: u32) -> (r: Option<HedgedFetch>)
        ensures
            r is None <==> peers@.len() == 0,
            r matches Some(h) ==> h.wf() && h@ == (HedgeState {
                peers: peers@,
                primary: peers@[range_start as int % peers@.len() as int],
                hedged: false,
                in_flight: 1,
                failed: 0,
            }),
    {
        if peers.len() == 0 {
            return None;
        }
        let place: usize = range_start as usize % peers.len();
        let primary: u32 = peers[place];
        Some(HedgedFetch { peers, primary, hedged: false, in_flight: 1, failed: 0 })
    }

    /// The peer that is asked first.
    pub fn primary_peer(&self) -> (p: u32)
        ensures
            p == self@.primary,
    {
        self.primary
    }

    /// The primary took too long: the peers to ask now, none if they were
    /// asked before.
    pub fn on_timer(&mut self) -> (ask: Vec<u32>)
        requires
            old(self).wf(),
        ensures
            final(self).wf(),
            old(self)@.hedged ==> ask@.len() == 0 && final(self)@ == old(self)@,
            !old(self)@.hedged ==> ask@ == others(old(self)@.peers, old(self)@.primary),
            !old(self)@.hedged ==> final(self)@ == all_asked(old(self)@),
    {
        if self.hedged {
            return Vec::new();
        }
        self.hedged = true;
        let ask = other_peers(&self.peers, self.primary);
        proof {
            lemma_others_shorter(self@.peers, self@.primary);
        }
        self.in_flight = self.in_flight + ask.len();
        ask
    }

    /// A peer failed or had nothing to give.
    pub fn on_failure(&mut self) -> (step: HedgeStep)
        requires
            old(self).wf(),
            old(self)@.in_flight > 0,
        ensures
            final(self).wf(),
            ({
                let s = HedgeState {
                    in_flight: (old(self)@.in_flight - 1) as nat,
                    failed: old(self)@.failed + 1,
                    ..old(self)@
                };
                let joined = if old(self)@.hedged {
                    s
                } else {
                    all_asked(s)
                };
                &&& final(self)@ == joined
                &&& match step {
                    HedgeStep::Ask(ask) => !old(self)@.hedged && ask@.len() > 0 && ask@ == others(
                        s.peers,
                        s.primary,
                    ),
                    HedgeStep::Wait => old(self)@.hedged && joined.in_flight > 0,
                    HedgeStep::GiveUp => joined.in_flight == 0 && joined.failed == 1 + others(
                        s.peers,
                        s.primary,
                    ).len(),
                }
            }),
    {
        proof {
            lemma_others_shorter(self@.peers, self@.primary);
        }
        self.in_flight = self.in_flight - 1;
        self.failed = self.failed + 1;
        if !self.hedged {
            self.hedged = true;
            let ask = other_peers(&self.peers, self.primary);
            self.in_flight = self.in_flight + ask.len();
            if ask.len() > 0 {
                return HedgeStep::Ask(ask);
            }
        }
        if self.in_flight == 0 {
            HedgeStep::GiveUp
        } else {
            HedgeStep::Wait
        }
    }
}

proof fn lemma_others_shorter(peers: Seq<u32>, p: u32)
    requires
        peers.contains(p),
    ensures
        others(peers, p).len() < peers.len(),
    decreases peers.len(),
{
    reveal(Seq::filter);
    let front = peers.drop_last();
    if peers.last() == p {
        lemma_others_not_longer(front, p);
    } else {
        let m = peers.index_of(p);
        assert(front[m] == p);
        lemma_others_shorter(front, p);
    }
}

proof fn lemma_others_not_longer(peers: Seq<u32>, p: u32)
    ensures
        others(peers, p).len() <= peers.len(),
    decreases peers.len(),
{
    reveal(Seq::filter);
    if peers.len() > 0 {
        lemma_others_not_longer(peers.drop_last(), p);
    }
}

/// No peer is asked twice: the primary is not among the others.
pub proof fn law_primary_asked_once(peers: Seq<u32>, p: u32)
    ensures
        !others(peers, p).contains(p),
        forall|q: u32| q != p && peers.contains(q) ==> #[trigger] others(peers, p).contains(q),
{
    let pred = |q: u32| q != p;
    if others(peers, p).contains(p) {
        crate::seqs::lemma_filter_keeps(peers, pred, others(peers, p).index_of(p));
    }
    assert forall|q: u32| q != p && peers.contains(q) implies #[trigger] others(peers, p).contains(
        q,
    ) by {
        crate::seqs::lemma_filter_complete(peers, pred, q);
    }
}

/// What came of queueing the commits that a peer sent.
#[derive(Clone, Copy, Debug, PartialEq, Eq, Structural)]
pub enum QueueOutcome {
    /// So many commits were handed to the queue.
    Pushed(usize),
    /// The peer's commits belong to another epoch: nothing was queued.
    EpochMismatch,
    /// Commits are missing: fetch this range, by global index.
    Gap { start: u64, end: u64 },
}

/// What comes of queueing commits: the first one decides.
pub open spec fn outcome_of(next_expected: u64, items: Seq<CommitData>) -> QueueOutcome {
    if items.len() == 0 {
        QueueOutcome::Pushed(0)
    } else {
        let first = items[0].commit.global_exec_index;
        if next_expected - first > MAX_BEHIND {
            QueueOutcome::EpochMismatch
        } else if first - next_expected > MAX_AHEAD {
            QueueOutcome::Gap { start: next_expected, end: (first - 1) as u64 }
        } else {
            QueueOutcome::Pushed(items.len() as usize)
        }
    }
}

/// Hands commits to the queue one after the other.
pub fn push_all(queue: &mut BlockQueue, items: Vec<CommitData>) -> (n: usize)
    requires
        old(queue).wf(),
    ensures
        final(queue).wf(),
        final(queue)@ == after_pushes(old(queue)@, items@),
        n == items@.len(),
{
    let n: usize = items.len();
    let ghost all = items@;
    let ghost start = queue@;
    assert(all.subrange(0, 0) =~= Seq::<CommitData>::empty());
    for data in it: items
        invariant
            it.seq() == all,
            queue.wf(),
            queue@ == after_pushes(start, all.subrange(0, it.index() as int)),
    {
        proof {
            let longer = all.subrange(0, it.index() as int + 1);
            assert(longer.drop_last() =~= all.subrange(0, it.index() as int));
            assert(longer.last() == data);
        }
        queue.push(data);
    }
    assert(all.subrange(0, all.len() as int) =~= all);
    n
}

/// Queues the commits that a peer sent, unless the first one shows that they
/// belong elsewhere, see [`outcome_of`].
pub fn queue_commits(queue: &mut BlockQueue, items: Vec<CommitData>) -> (r: QueueOutcome)
    requires
        old(queue).wf(),
    ensures
        final(queue).wf(),
        r == outcome_of(old(queue)@.next_expected, items@),
        final(queue)@ == if r is Pushed {
            after_pushes(old(queue)@, items@)
        } else {
            old(queue)@
        },
{
    if items.len() > 0 {
        let first: u64 = items[0].commit.global_exec_index;
        let next: u64 = queue.next_expected();
        if next > first && next - first > MAX_BEHIND {
            return QueueOutcome::EpochMismatch;
        }
        if first > next && first - next > MAX_AHEAD {
            return QueueOutcome::Gap { start: next, end: first - 1 };
        }
    }
    QueueOutcome::Pushed(push_all(queue, items))
}

/// `d` is `c` with those of its blocks that are among `blocks`.
pub open spec fn is_item(
    d: CommitData,
    c: Commit,
    blocks: Seq<VerifiedBlock>,
    epoch: u64,
) -> bool {
    &&& d.commit == c
    &&& d.epoch == epoch
    &&& block_values(d.blocks@) == found_blocks(ref_values(c.blocks@), block_values(blocks))
}

/// Puts each commit together with its blocks; `epochs` holds the epoch of each.
pub fn commit_items(commits: Vec<Commit>, epochs: &Vec<u64>, blocks: &Vec<VerifiedBlock>) -> (r: Vec<
    CommitData,
>)
    requires
        epochs@.len() == commits@.len(),
    ensures
        r@.len() == commits@.len(),
        forall|i: int|
            0 <= i < r@.len() ==> is_item(
                #[trigger] r@[i],
                commits@[i],
                blocks@,
                epochs@[i],
            ),
{
    let ghost all = commits@;
    let mut r: Vec<CommitData> = Vec::new();
    for commit in it: commits
        invariant
            it.seq() == all,
            epochs@.len() == all.len(),
            r@.len() == it.index(),
            forall|i: int|
                0 <= i < r@.len() ==> is_item(#[trigger] r@[i], all[i], blocks@, epochs@[i]),
    {
        let found = attach_blocks(&commit.blocks, blocks);
        let epoch: u64 = epochs[r.len()];
        r.push(CommitData { commit, blocks: found, epoch });
    }
    r
}

/// Commits of an epoch are counted from its base: the commit with index `i` in
/// the epoch is the one with global index `base + i`. Before the base only the
/// first epoch has an index, the global one.
pub proof fn law_epoch_index_counts_from_base(from: u32, epoch: u64, base: u64)
    ensures
        from >= base ==> (local_index(from, epoch, base) matches Some(i) && base + i == from),
        from < base && epoch == 1 ==> local_index(from, epoch, base) == Some(from as int),
        from < base && epoch != 1 ==> local_index(from, epoch, base) is None,
{
}

/// The first commit decides what becomes of those that a peer sent. More than a
/// thousand indices behind the queue they belong to another epoch; more than ten
/// ahead of it commits are missing, and the range from the next index up to the
/// one before the first commit is asked for; otherwise all are queued.
pub proof fn law_first_commit_decides(next: u64, items: Seq<CommitData>)
    requires
        items.len() > 0,
        items.len() <= usize::MAX,
    ensures
        ({
            let first = items[0].commit.global_exec_index;
            &&& first + 1000 < next <==> outcome_of(next, items) is EpochMismatch
            &&& first > next + 10 ==> outcome_of(next, items) == (QueueOutcome::Gap {
                start: next,
                end: (first - 1) as u64,
            })
            &&& next <= first + 1000 && first <= next + 10 ==> outcome_of(next, items)
                == QueueOutcome::Pushed(items.len() as usize)
        }),
{
}

/// Every peer but the primary joins a race, each once where no peer is listed
/// twice.
pub proof fn law_all_others_join(s: HedgeState)
    requires
        s.peers.no_duplicates(),
        s.peers.contains(s.primary),
    ensures
        all_asked(s).hedged,
        all_asked(s).in_flight == s.in_flight + s.peers.len() - 1,
        all_asked(s).failed == s.failed,
        all_asked(s).peers == s.peers,
        all_asked(s).primary == s.primary,
        others(s.peers, s.primary).len() == s.peers.len() - 1,
{
    lemma_others_count(s.peers, s.primary);
}

proof fn lemma_others_count(peers: Seq<u32>, p: u32)
    requires
        peers.no_duplicates(),
    ensures
        peers.contains(p) ==> others(peers, p).len() == peers.len() - 1,
        !peers.contains(p) ==> others(peers, p).len() == peers.len(),
    decreases peers.len(),
{
    reveal(Seq::filter);
    if peers.len() > 0 {
        let front = peers.drop_last();
        lemma_others_count(front, p);
        if front.contains(p) {
            let i = front.index_of(p);
            assert(peers[i] == p);
            assert(peers.last() != p);
        }
        if peers.contains(p) && !front.contains(p) {
            let i = peers.index_of(p);
            if i < front.len() {
                assert(front[i] == p);
            }
        }
        assert(peers[peers.len() - 1] == peers.last());
    }
}

/// A commit goes to the queue with its epoch and, where all of them were
/// fetched, with every block that it refers to, in order and with all of its
/// transactions.
pub proof fn law_commit_keeps_its_blocks(
    d: CommitData,
    c: Commit,
    blocks: Seq<VerifiedBlock>,
    epoch: u64,
)
    requires
        is_item(d, c, blocks, epoch),
        forall|i: int|
            0 <= i < c.blocks@.len() ==> exists|j: int|
                0 <= j < blocks.len() && (#[trigger] blocks[j]).reference@ == (
                #[trigger] c.blocks@[i])@,
    ensures
        d.commit == c,
        d.epoch == epoch,
        d.blocks@.len() == c.blocks@.len(),
        forall|i: int|
            0 <= i < c.blocks@.len() ==> (#[trigger] d.blocks@[i]).reference@ == c.blocks@[i]@
                && exists|j: int|
                0 <= j < blocks.len() && (#[trigger] blocks[j]).reference@ == c.blocks@[i]@
                    && contents(blocks[j].transactions@) == contents(d.blocks@[i].transactions@),
{
    let refs = ref_values(c.blocks@);
    let values = block_values(blocks);
    assert forall|i: int| 0 <= i < refs.len() implies was_fetched(values, #[trigger] refs[i]) by {
        assert(refs[i] == c.blocks@[i]@);
        let j = choose|j: int|
            0 <= j < blocks.len() && (#[trigger] blocks[j]).reference@ == c.blocks@[i]@;
        assert(values[j] == blocks[j]@);
        assert(values[j].reference == refs[i]);
    }
    law_all_blocks_attached(refs, values);
    let out = found_blocks(refs, values);
    assert(block_values(d.blocks@).len() == d.blocks@.len());
    assert forall|i: int| 0 <= i < c.blocks@.len() implies (#[trigger] d.blocks@[i]).reference@
        == c.blocks@[i]@ && exists|j: int|
        0 <= j < blocks.len() && (#[trigger] blocks[j]).reference@ == c.blocks@[i]@ && contents(
            blocks[j].transactions@,
        ) == contents(d.blocks@[i].transactions@) by {
        assert(out[i] == d.blocks@[i]@);
        assert(out[i].reference == refs[i]);
        assert(values.contains(out[i]));
        let j = values.index_of(out[i]);
        assert(values[j] == blocks[j]@);
        assert(blocks[j].reference@ == c.blocks@[i]@);
    }
}

/// A node can ask every member but those with its own network key, and all of
/// them where it has none.
pub proof fn law_peers_are_the_others(c: Committee, own: Seq<u8>, i: int)
    requires
        0 <= i < c.authorities@.len(),
    ensures
        is_peer_of(c, Some(own), i) <==> c.authorities@[i].network_key@ != own,
        is_peer_of(c, None, i),
        !is_peer_of(c, None, c.authorities@.len() as int),
        !is_peer_of(c, None, -1),
{
}

} // verus!
