//! Handing commits to the executor, and epoch changes that had to wait.
use crate::index_map::entries_from;
use crate::node::committee::{
    address_bytes, by_authority_key, is_text_form, leader_address_of, validators_from_peer,
    ValidatorInfo, ValidatorInfoSimple,
};
use crate::node::rust_sync_node::block_queue::{
    after_drain, after_take_back, handed_out_from, law_taken_back_in_full, ready_count, BlockQueue,
    QueueState,
};
use crate::node::rust_sync_node::commit::CommitData;
use crate::node::rust_sync_node::{LeaderLookup, RustSyncNode};
use crate::node::sync::PeerBoundary;
use crate::node::PendingEpochTransition;
use crate::wire::contents;
use vstd::prelude::*;

verus! {

/// A run of commits that are sent one after the other.
pub struct SendRun {
    pub ready: Vec<CommitData>,
    pub sent: usize,
}

impl SendRun {
    /// No more commits were sent than there are.
    pub open spec fn wf(&self) -> bool {
        self.sent <= self.ready@.len()
    }

    /// Takes the ready commits out of the queue.
    pub fn start(queue: &mut BlockQueue) -> (r: SendRun)
        requires
            old(queue).wf(),
            old(queue)@.next_expected + ready_count(old(queue)@) <= u64::MAX,
        ensures
            final(queue).wf(),
            final(queue)@ == after_drain(old(queue)@),
            r.wf(),
            r.sent == 0,
            r.ready@.len() == ready_count(old(queue)@),
            forall|i: int|
                0 <= i < r.ready@.len() ==> #[trigger] r.ready@[i] == old(queue)@.pending[(old(
                    queue,
                )@.next_expected + i) as u64] && r.ready@[i].commit.global_exec_index == old(
                    queue,
                )@.next_expected + i,
    {
        SendRun { ready: queue.drain_ready(), sent: 0 }
    }

    /// The commit to send next.
    pub fn current(&self) -> (c: Option<&CommitData>)
        requires
            self.wf(),
        ensures
            match c {
                Some(d) => self.sent < self.ready@.len() && *d == self.ready@[self.sent as int],
                None => self.sent == self.ready@.len(),
            },
    {
        if self.sent < self.ready.len() {
            Some(&self.ready[self.sent])
        } else {
            None
        }
    }

    /// The current commit was taken by the executor.
    pub fn on_sent(&mut self)
        requires
            old(self).wf(),
            old(self).sent < old(self).ready@.len(),
        ensures
            final(self).wf(),
            final(self).sent == old(self).sent + 1,
            final(self).ready == old(self).ready,
    {
        let total: usize = self.ready.len();
        assert(self.sent < total);
        self.sent = self.sent + 1;
    }

    /// The current commit was not taken: it and those after it go back to the
    /// queue, which hands them out again. Gives the number of commits that were
    /// sent.
    pub fn requeue_rest(&mut self, queue: &mut BlockQueue) -> (sent: usize)
        requires
            old(self).wf(),
            old(queue).wf(),
        ensures
            final(self).wf(),
            final(self).sent == old(self).sent,
            final(self).ready@ == old(self).ready@.subrange(0, old(self).sent as int),
            final(queue).wf(),
            final(queue)@ == after_take_back(old(queue)@, unsent(*old(self))),
            sent == old(self).sent,
    {
        let ghost all = self.ready@;
        let rest = self.ready.split_off(self.sent);
        assert(rest@ =~= all.subrange(self.sent as int, all.len() as int));
        assert(self.ready@ =~= all.subrange(0, self.sent as int));
        queue.take_back(rest);
        self.sent
    }
}

/// The commits that were not sent.
pub open spec fn unsent(r: SendRun) -> Seq<CommitData> {
    r.ready@.subrange(r.sent as int, r.ready@.len() as int)
}

/// A run that has taken the ready commits of a queue, and whose current commit
/// was not taken, leaves the queue at that commit: it and all those after it
/// wait again, beside what waited before, and are handed out again.
pub proof fn law_unsent_wait_again(s: QueueState, r: SendRun)
    requires
        s.next_expected + ready_count(s) <= u64::MAX,
        forall|k: u64| #[trigger]
            s.pending.contains_key(k) ==> s.pending[k].commit.global_exec_index == k,
        r.sent < r.ready@.len(),
        r.ready@ == handed_out_from(s, 0),
    ensures
        after_take_back(after_drain(s), unsent(r)).next_expected == s.next_expected + r.sent,
        after_take_back(after_drain(s), unsent(r)).pending == entries_from(
            s.pending,
            s.next_expected + r.sent,
        ),
        handed_out_from(after_take_back(after_drain(s), unsent(r)), 0) == unsent(r),
{
    law_taken_back_in_full(s, r.sent as nat);
    assert(unsent(r) =~= handed_out_from(s, r.sent as nat));
}

/// How far handing over the ready commits has come.
#[derive(Clone, Copy, Debug, PartialEq, Eq, Structural)]
pub enum ProcessPhase {
    /// The executor is asked for the validators of the commit's epoch.
    AskingExecutor,
    /// A peer is asked for them.
    AskingPeer { peer: usize },
    /// Nobody has a valid address: the search pauses.
    Pausing,
    /// The commit is on its way.
    Sending,
    /// All is handed over, or a commit was not taken.
    Ended,
}

/// What has to be done next.
pub enum ProcessAction {
    AskExecutor { epoch: u64 },
    AskPeer { peer: usize, epoch: u64 },
    /// Search again after a second.
    Pause,
    /// Send the current commit with the address of its leader.
    Send { leader_address: Vec<u8> },
    /// So many commits were sent.
    Done { sent: usize },
    /// The event does not belong to the phase: nothing was done.
    Ignore,
}

/// What came of an action.
pub enum ProcessEvent {
    /// The validators as the executor knows them.
    ExecutorValidators(Option<Vec<ValidatorInfo>>),
    /// The validators as a peer knows them.
    PeerValidators(Option<PeerBoundary>),
    Paused,
    /// The executor took the commit, or not.
    Sent(bool),
}

/// Hands the ready commits over. No commit goes without the address of its
/// leader: it is searched for until it is found.
pub struct ProcessRun {
    pub run: SendRun,
    pub phase: ProcessPhase,
}

/// `a` is what to do for the current commit, given the addresses that are
/// known, and `phase` the phase that goes with it.
pub open spec fn resolves(
    a: ProcessAction,
    phase: ProcessPhase,
    cache: Map<u64, Vec<Vec<u8>>>,
    run: SendRun,
) -> bool {
    if run.sent >= run.ready@.len() {
        phase is Ended && (a matches ProcessAction::Done { sent } && sent == run.sent)
    } else {
        let c = run.ready@[run.sent as int];
        if !cache.contains_key(c.epoch) {
            phase is AskingExecutor && a == (ProcessAction::AskExecutor { epoch: c.epoch })
        } else {
            match leader_address_of(contents(cache[c.epoch]@), c.commit.leader.author as int) {
                Some(address) => phase is Sending && (a matches ProcessAction::Send {
                    leader_address,
                } && leader_address@ == address),
                None => phase is Pausing && a is Pause,
            }
        }
    }
}

/// `a` follows from an answer that did not give the validators: the next peer
/// is asked, or the search pauses.
pub open spec fn asks_on(
    a: ProcessAction,
    phase: ProcessPhase,
    peer: int,
    peers: nat,
    run: SendRun,
) -> bool {
    if peer < peers {
        phase == (ProcessPhase::AskingPeer { peer: peer as usize }) && a == (
        ProcessAction::AskPeer { peer: peer as usize, epoch: run.ready@[run.sent as int].epoch })
    } else {
        phase is Pausing && a is Pause
    }
}

impl ProcessRun {
    /// There is a commit while one is dealt with.
    pub open spec fn wf(&self) -> bool {
        self.run.wf() && (!(self.phase is Ended) ==> self.run.sent < self.run.ready@.len())
    }

    /// Takes the ready commits out of the node's queue.
    pub fn start(node: &mut RustSyncNode) -> (r: (ProcessRun, ProcessAction))
        requires
            old(node).wf(),
            old(node).block_queue@.next_expected + ready_count(old(node).block_queue@) <= u64::MAX,
        ensures
            final(node).wf(),
            final(node).block_queue@ == after_drain(old(node).block_queue@),
            *final(node) == (RustSyncNode { block_queue: final(node).block_queue, ..*old(node) }),
            r.0.wf(),
            r.0.run.sent == 0,
            r.0.run.ready@.len() == ready_count(old(node).block_queue@),
            forall|i: int|
                0 <= i < r.0.run.ready@.len() ==> #[trigger] r.0.run.ready@[i] == old(
                    node,
                ).block_queue@.pending[(old(node).block_queue@.next_expected + i) as u64]
                    && r.0.run.ready@[i].commit.global_exec_index == old(
                    node,
                ).block_queue@.next_expected + i,
            resolves(r.1, r.0.phase, old(node).epoch_eth_addresses@, r.0.run),
    {
        let run = SendRun::start(&mut node.block_queue);
        let mut p = ProcessRun { run, phase: ProcessPhase::Ended };
        let a = p.resolve(node);
        (p, a)
    }

    /// What to do for the current commit.
    fn resolve(&mut self, node: &RustSyncNode) -> (a: ProcessAction)
        requires
            old(self).run.wf(),
        ensures
            final(self).wf(),
            final(self).run == old(self).run,
            resolves(a, final(self).phase, node.epoch_eth_addresses@, old(self).run),
    {
        match self.run.current() {
            None => {
                self.phase = ProcessPhase::Ended;
                ProcessAction::Done { sent: self.run.sent }
            },
            Some(c) => {
                let epoch: u64 = c.epoch;
                let leader: usize = c.commit.leader.author as usize;
                match node.lookup_leader(epoch, leader) {
                    LeaderLookup::Found(address) => {
                        self.phase = ProcessPhase::Sending;
                        ProcessAction::Send { leader_address: address }
                    },
                    LeaderLookup::NotCached => {
                        self.phase = ProcessPhase::AskingExecutor;
                        ProcessAction::AskExecutor { epoch }
                    },
                    LeaderLookup::Invalid => {
                        self.phase = ProcessPhase::Pausing;
                        ProcessAction::Pause
                    },
                }
            },
        }
    }

    /// Asks the peer at a place, or pauses if there is none.
    fn ask_on(&mut self, peer: usize, peers: usize) -> (a: ProcessAction)
        requires
            old(self).wf(),
            !(old(self).phase is Ended),
        ensures
            final(self).wf(),
            final(self).run == old(self).run,
            asks_on(a, final(self).phase, peer as int, peers as nat, old(self).run),
    {
        if peer < peers {
            let epoch: u64 = self.run.ready[self.run.sent].epoch;
            self.phase = ProcessPhase::AskingPeer { peer };
            ProcessAction::AskPeer { peer, epoch }
        } else {
            self.phase = ProcessPhase::Pausing;
            ProcessAction::Pause
        }
    }

    /// Takes the validators that the executor or a peer gave, and looks for
    /// the leader's address again.
    fn learn(&mut self, node: &mut RustSyncNode, validators: Vec<ValidatorInfo>) -> (a:
        ProcessAction)
        requires
            old(self).wf(),
            !(old(self).phase is Ended),
            old(node).wf(),
        ensures
            final(self).wf(),
            final(node).wf(),
            final(self).run == old(self).run,
            learned(
                *old(node),
                *final(node),
                old(self).run.ready@[old(self).run.sent as int].epoch,
                validators@,
            ),
            resolves(a, final(self).phase, final(node).epoch_eth_addresses@, old(self).run),
    {
        let epoch: u64 = self.run.ready[self.run.sent].epoch;
        node.cache_addresses(epoch, validators);
        self.resolve(node)
    }

    /// Takes an event and gives what to do next.
    pub fn on_event(&mut self, node: &mut RustSyncNode, event: ProcessEvent) -> (a: ProcessAction)
        requires
            old(self).wf(),
            old(node).wf(),
        ensures
            final(self).wf(),
            final(node).wf(),
            process_step(*old(self), *old(node), event, *final(self), *final(node), a),
    {
        let peers: usize = node.config.peer_rpc_addresses.len();
        match (self.phase, event) {
            (ProcessPhase::AskingExecutor, ProcessEvent::ExecutorValidators(v)) => match v {
                Some(validators) => self.learn(node, validators),
                None => self.ask_on(0, peers),
            },
            (ProcessPhase::AskingPeer { peer }, ProcessEvent::PeerValidators(b)) => {
                let answer: Option<Vec<ValidatorInfo>> = match b {
                    Some(x) => {
                        if x.error.is_none() {
                            Some(validators_from_peer(&x.validators))
                        } else {
                            None
                        }
                    },
                    None => None,
                };
                match answer {
                    Some(validators) => self.learn(node, validators),
                    None => {
                        let next: usize = if peer < peers {
                            peer + 1
                        } else {
                            peers
                        };
                        self.ask_on(next, peers)
                    },
                }
            },
            (ProcessPhase::Pausing, ProcessEvent::Paused) => self.resolve(node),
            (ProcessPhase::Sending, ProcessEvent::Sent(ok)) => {
                if ok {
                    self.run.on_sent();
                    self.resolve(node)
                } else {
                    self.phase = ProcessPhase::Ended;
                    let sent: usize = self.run.requeue_rest(&mut node.block_queue);
                    ProcessAction::Done { sent }
                }
            },
            _ => ProcessAction::Ignore,
        }
    }
}

/// `after` is `before` with the addresses of an epoch's validators in the
/// cache.
pub open spec fn learned(
    before: RustSyncNode,
    after: RustSyncNode,
    epoch: u64,
    validators: Seq<ValidatorInfo>,
) -> bool {
    &&& after == (RustSyncNode { epoch_eth_addresses: after.epoch_eth_addresses, ..before })
    &&& after.epoch_eth_addresses@.dom() == before.epoch_eth_addresses@.dom().insert(epoch)
    &&& forall|e: u64|
        e != epoch && #[trigger] before.epoch_eth_addresses@.contains_key(e)
            ==> after.epoch_eth_addresses@[e] == before.epoch_eth_addresses@[e]
    &&& after.epoch_eth_addresses@[epoch]@.len() == validators.len()
    &&& forall|i: int|
        0 <= i < validators.len() ==> (#[trigger] after.epoch_eth_addresses@[epoch]@[i])@
            == address_bytes(by_authority_key(validators)[i].address@)
}

/// A step of handing over: `p2` and `n2` are what comes of the event, `a` is
/// what to do.
pub open spec fn process_step(
    p: ProcessRun,
    n: RustSyncNode,
    e: ProcessEvent,
    p2: ProcessRun,
    n2: RustSyncNode,
    a: ProcessAction,
) -> bool {
    let epoch = p.run.ready@[p.run.sent as int].epoch;
    let peers = n.config.peer_rpc_addresses@.len();
    match (p.phase, e) {
        (ProcessPhase::AskingExecutor, ProcessEvent::ExecutorValidators(v)) => match v {
            Some(validators) => p2.run == p.run && learned(n, n2, epoch, validators@) && resolves(
                a,
                p2.phase,
                n2.epoch_eth_addresses@,
                p.run,
            ),
            None => p2.run == p.run && n2 == n && asks_on(a, p2.phase, 0, peers, p.run),
        },
        (ProcessPhase::AskingPeer { peer }, ProcessEvent::PeerValidators(b)) => if b is Some
            && b->Some_0.error is None {
            &&& p2.run == p.run
            &&& exists|validators: Seq<ValidatorInfo>|
                #![trigger learned(n, n2, epoch, validators)]
                text_forms(validators, b->Some_0.validators@) && learned(n, n2, epoch, validators)
            &&& resolves(a, p2.phase, n2.epoch_eth_addresses@, p.run)
        } else {
            p2.run == p.run && n2 == n && asks_on(a, p2.phase, peer + 1, peers, p.run)
        },
        (ProcessPhase::Pausing, ProcessEvent::Paused) => p2.run == p.run && n2 == n && resolves(
            a,
            p2.phase,
            n.epoch_eth_addresses@,
            p.run,
        ),
        (ProcessPhase::Sending, ProcessEvent::Sent(ok)) => if ok {
            &&& n2 == n
            &&& p2.run.sent == p.run.sent + 1
            &&& p2.run.ready == p.run.ready
            &&& resolves(a, p2.phase, n.epoch_eth_addresses@, p2.run)
        } else {
            &&& p2.phase is Ended
            &&& p2.run.sent == p.run.sent
            &&& p2.run.ready@ == p.run.ready@.subrange(0, p.run.sent as int)
            &&& a == (ProcessAction::Done { sent: p.run.sent })
            &&& n2 == (RustSyncNode { block_queue: n2.block_queue, ..n })
            &&& n2.block_queue@ == after_take_back(n.block_queue@, unsent(p.run))
        },
        _ => p2 == p && n2 == n && a is Ignore,
    }
}

/// `forms` are the text forms of what a peer reported.
pub open spec fn text_forms(forms: Seq<ValidatorInfo>, v: Seq<ValidatorInfoSimple>) -> bool {
    forms.len() == v.len() && forall|i: int|
        0 <= i < v.len() ==> is_text_form(#[trigger] forms[i], v[i])
}

/// A commit is sent only with an address of the right length, and that is the
/// address of its leader in its epoch.
pub proof fn law_no_send_without_leader(
    a: ProcessAction,
    phase: ProcessPhase,
    cache: Map<u64, Vec<Vec<u8>>>,
    run: SendRun,
)
    requires
        resolves(a, phase, cache, run),
        a is Send,
    ensures
        run.sent < run.ready@.len(),
        a->leader_address@.len() == crate::node::committee::ADDRESS_LEN,
        leader_address_of(
            contents(cache[run.ready@[run.sent as int].epoch]@),
            run.ready@[run.sent as int].commit.leader.author as int,
        ) == Some(a->leader_address@),
{
}

/// Where the node fetches: its epoch and that epoch's base.
pub struct SyncPoint {
    pub epoch: u64,
    pub base: u64,
}

/// The point after hearing of one epoch change that waits.
pub open spec fn moved(p: SyncPoint, t: PendingEpochTransition) -> SyncPoint {
    if t.epoch > p.epoch || t.boundary_block > p.base {
        SyncPoint { epoch: t.epoch, base: t.boundary_block }
    } else {
        p
    }
}

/// The point after hearing of all epoch changes that wait, in order.
pub open spec fn moved_all(p: SyncPoint, ts: Seq<PendingEpochTransition>) -> SyncPoint
    decreases ts.len(),
{
    if ts.len() == 0 {
        p
    } else {
        moved(moved_all(p, ts.drop_last()), ts.last())
    }
}

/// The executor has all blocks up to the boundary.
pub open spec fn is_due(t: PendingEpochTransition, go_last_block: u64) -> bool {
    go_last_block >= t.boundary_block
}

/// The changes that are due, in order.
pub open spec fn due(ts: Seq<PendingEpochTransition>, go_last_block: u64) -> Seq<
    PendingEpochTransition,
> {
    ts.filter(|t: PendingEpochTransition| is_due(t, go_last_block))
}

/// The changes that have to wait on, in order.
pub open spec fn waiting(ts: Seq<PendingEpochTransition>, go_last_block: u64) -> Seq<
    PendingEpochTransition,
> {
    ts.filter(|t: PendingEpochTransition| !is_due(t, go_last_block))
}

impl RustSyncNode {
    /// Looks through the epoch changes that wait. The node fetches from the
    /// new epochs at once; the changes whose boundary the executor has reached
    /// are taken out and returned.
    pub fn take_due_transitions(
        &mut self,
        pending: &mut Vec<PendingEpochTransition>,
        go_last_block: u64,
    ) -> (r: Vec<PendingEpochTransition>)
        requires
            old(self).wf(),
        ensures
            final(self).wf(),
            r@ == due(old(pending)@, go_last_block),
            final(pending)@ == waiting(old(pending)@, go_last_block),
            ({
                let p = moved_all(
                    SyncPoint {
                        epoch: old(self).current_epoch,
                        base: old(self).epoch_base_index,
                    },
                    old(pending)@,
                );
                *final(self) == (RustSyncNode {
                    current_epoch: p.epoch,
                    epoch_base_index: p.base,
                    ..*old(self)
                })
            }),
    {
        let ghost all = pending@;
        let ghost start = SyncPoint { epoch: self.current_epoch, base: self.epoch_base_index };
        let mut ready: Vec<PendingEpochTransition> = Vec::new();
        let mut rest: Vec<PendingEpochTransition> = Vec::new();
        let mut i: usize = 0;
        proof {
            reveal(Seq::filter);
            assert(all.subrange(0, 0) =~= Seq::<PendingEpochTransition>::empty());
            assert(ready@ =~= due(all.subrange(0, 0), go_last_block));
            assert(rest@ =~= waiting(all.subrange(0, 0), go_last_block));
        }
        while i < pending.len()
            invariant
                i <= pending@.len(),
                pending@ == all,
                self.wf(),
                ready@ == due(all.subrange(0, i as int), go_last_block),
                rest@ == waiting(all.subrange(0, i as int), go_last_block),
                (SyncPoint { epoch: self.current_epoch, base: self.epoch_base_index }) == moved_all(
                    start,
                    all.subrange(0, i as int),
                ),
                *self == (RustSyncNode {
                    current_epoch: self.current_epoch,
                    epoch_base_index: self.epoch_base_index,
                    ..*old(self)
                }),
            decreases pending.len() - i,
        {
            proof {
                reveal(Seq::filter);
                let longer = all.subrange(0, i + 1);
                assert(longer.drop_last() =~= all.subrange(0, i as int));
                assert(longer.last() == all[i as int]);
            }
            let t = pending[i];
            if t.epoch > self.current_epoch || t.boundary_block > self.epoch_base_index {
                self.current_epoch = t.epoch;
                self.epoch_base_index = t.boundary_block;
            }
            if go_last_block >= t.boundary_block {
                ready.push(t);
            } else {
                rest.push(t);
            }
            i += 1;
        }
        assert(all.subrange(0, all.len() as int) =~= all);
        *pending = rest;
        ready
    }

    /// Notes what the executor said to an epoch change that was due. If it
    /// took the change, the node is at the change's epoch, and the change is
    /// announced so that the node's mode is looked at again; if not, the change
    /// waits on.
    pub fn on_advance_result(
        &mut self,
        t: PendingEpochTransition,
        ok: bool,
        pending: &mut Vec<PendingEpochTransition>,
    ) -> (announce: Option<PendingEpochTransition>)
        requires
            old(self).wf(),
        ensures
            final(self).wf(),
            announce == if ok {
                Some(t)
            } else {
                None
            },
            final(pending)@ == if ok {
                old(pending)@
            } else {
                old(pending)@.push(t)
            },
            *final(self) == if ok {
                RustSyncNode {
                    current_epoch: t.epoch,
                    epoch_base_index: t.boundary_block,
                    ..*old(self)
                }
            } else {
                *old(self)
            },
    {
        if ok {
            self.current_epoch = t.epoch;
            self.epoch_base_index = t.boundary_block;
            Some(t)
        } else {
            pending.push(t);
            None
        }
    }
}

/// No epoch change is lost: each one that waits is either due or waits on,
/// never both.
pub proof fn law_no_transition_lost(
    ts: Seq<PendingEpochTransition>,
    go_last_block: u64,
    t: PendingEpochTransition,
)
    requires
        ts.contains(t),
    ensures
        due(ts, go_last_block).contains(t) != waiting(ts, go_last_block).contains(t),
        due(ts, go_last_block).contains(t) <==> is_due(t, go_last_block),
        due(ts, go_last_block).len() + waiting(ts, go_last_block).len() == ts.len(),
{
    let d = |t: PendingEpochTransition| is_due(t, go_last_block);
    let w = |t: PendingEpochTransition| !is_due(t, go_last_block);
    if d(t) {
        crate::seqs::lemma_filter_complete(ts, d, t);
    } else {
        crate::seqs::lemma_filter_complete(ts, w, t);
    }
    if due(ts, go_last_block).contains(t) {
        crate::seqs::lemma_filter_keeps(ts, d, due(ts, go_last_block).index_of(t));
    }
    if waiting(ts, go_last_block).contains(t) {
        crate::seqs::lemma_filter_keeps(ts, w, waiting(ts, go_last_block).index_of(t));
    }
    lemma_split_lengths(ts, go_last_block);
}

proof fn lemma_split_lengths(ts: Seq<PendingEpochTransition>, go_last_block: u64)
    ensures
        due(ts, go_last_block).len() + waiting(ts, go_last_block).len() == ts.len(),
    decreases ts.len(),
{
    reveal(Seq::filter);
    if ts.len() > 0 {
        lemma_split_lengths(ts.drop_last(), go_last_block);
    }
}

/// An epoch is advanced only when the executor has all blocks up to its
/// boundary.
pub proof fn law_advance_after_boundary(
    ts: Seq<PendingEpochTransition>,
    go_last_block: u64,
    i: int,
)
    requires
        0 <= i < due(ts, go_last_block).len(),
    ensures
        go_last_block >= due(ts, go_last_block)[i].boundary_block,
{
    let d = |t: PendingEpochTransition| is_due(t, go_last_block);
    crate::seqs::lemma_filter_keeps(ts, d, i);
}

/// What is done for a commit: where the validators of its epoch are not known,
/// the executor is asked for them; where the address of its leader is known, it
/// is sent with that address; where it has none, the search pauses. After the
/// last commit the run ends with the number that were sent.
pub proof fn law_commit_finds_its_leader(
    a: ProcessAction,
    phase: ProcessPhase,
    cache: Map<u64, Vec<Vec<u8>>>,
    run: SendRun,
)
    requires
        resolves(a, phase, cache, run),
    ensures
        run.sent >= run.ready@.len() ==> a == (ProcessAction::Done { sent: run.sent }),
        run.sent < run.ready@.len() ==> {
            let c = run.ready@[run.sent as int];
            let leader = c.commit.leader.author as int;
            let known = cache.contains_key(c.epoch);
            let there = known && leader < cache[c.epoch]@.len() && cache[c.epoch]@[leader]@.len()
                == 20;
            &&& !known ==> a == (ProcessAction::AskExecutor { epoch: c.epoch })
            &&& there ==> (a matches ProcessAction::Send { leader_address } && leader_address@
                == cache[c.epoch]@[leader]@)
            &&& known && !there ==> a is Pause
        },
{
}

/// The validators of an epoch are asked for of the executor, and then of each
/// peer in turn, for the epoch of the commit; only after the last one the search
/// pauses, and it begins again after the pause.
pub proof fn law_leader_is_searched_for(
    p: ProcessRun,
    n: RustSyncNode,
    e: ProcessEvent,
    p2: ProcessRun,
    n2: RustSyncNode,
    a: ProcessAction,
)
    requires
        process_step(p, n, e, p2, n2, a),
    ensures
        ({
            let epoch = p.run.ready@[p.run.sent as int].epoch;
            let peers = n.config.peer_rpc_addresses@.len();
            &&& p.phase is AskingExecutor && e == ProcessEvent::ExecutorValidators(None) && peers > 0
                ==> a == (ProcessAction::AskPeer { peer: 0, epoch })
            &&& p.phase is AskingExecutor && e == ProcessEvent::ExecutorValidators(None) && peers
                == 0 ==> a is Pause
            &&& p.phase matches ProcessPhase::AskingPeer { peer } ==> e
                == ProcessEvent::PeerValidators(None) ==> {
                &&& peer + 1 < peers <= usize::MAX ==> a == (ProcessAction::AskPeer {
                    peer: (peer + 1) as usize,
                    epoch,
                })
                &&& peer + 1 >= peers ==> a is Pause
            }
            &&& p.phase matches ProcessPhase::AskingPeer { peer } ==> e matches
                ProcessEvent::PeerValidators(Some(b)) ==> b.error is Some ==> {
                &&& peer + 1 < peers <= usize::MAX ==> a == (ProcessAction::AskPeer {
                    peer: (peer + 1) as usize,
                    epoch,
                })
                &&& peer + 1 >= peers ==> a is Pause
            }
            &&& p.phase is Pausing && e is Paused && p.run.sent < p.run.ready@.len()
                && !n.epoch_eth_addresses@.contains_key(epoch) ==> a == (
            ProcessAction::AskExecutor { epoch })
            &&& !(p.phase is Sending) ==> p2.run == p.run
        }),
{
}

/// A commit that the executor took is followed by the next one. One that it did
/// not take ends the run: the queue has every commit again that was not sent.
pub proof fn law_commits_go_one_by_one(
    p: ProcessRun,
    n: RustSyncNode,
    ok: bool,
    p2: ProcessRun,
    n2: RustSyncNode,
    a: ProcessAction,
)
    requires
        p.phase is Sending,
        p.run.sent < p.run.ready@.len(),
        process_step(p, n, ProcessEvent::Sent(ok), p2, n2, a),
    ensures
        ok ==> p2.run.sent == p.run.sent + 1 && p2.run.ready == p.run.ready && n2 == n,
        ok && p.run.sent + 1 == p.run.ready@.len() ==> a == (ProcessAction::Done {
            sent: (p.run.sent + 1) as usize,
        }),
        !ok ==> a == (ProcessAction::Done { sent: p.run.sent }),
        !ok ==> forall|i: int|
            p.run.sent <= i < p.run.ready@.len() && (forall|x: int, y: int|
                0 <= x < y < p.run.ready@.len() ==> (
                #[trigger] p.run.ready@[x]).commit.global_exec_index < (
                #[trigger] p.run.ready@[y]).commit.global_exec_index) ==> {
                let index = (#[trigger] p.run.ready@[i]).commit.global_exec_index;
                n2.block_queue@.pending.contains_key(index) && n2.block_queue@.pending[index]
                    == p.run.ready@[i] && n2.block_queue@.next_expected <= index
            },
{
    if !ok {
        let rest = unsent(p.run);
        assert forall|i: int|
            p.run.sent <= i < p.run.ready@.len() && (forall|x: int, y: int|
                0 <= x < y < p.run.ready@.len() ==> (
                #[trigger] p.run.ready@[x]).commit.global_exec_index < (
                #[trigger] p.run.ready@[y]).commit.global_exec_index) implies {
            let index = (#[trigger] p.run.ready@[i]).commit.global_exec_index;
            n2.block_queue@.pending.contains_key(index) && n2.block_queue@.pending[index]
                == p.run.ready@[i] && n2.block_queue@.next_expected <= index
        } by {
            let k = i - p.run.sent;
            assert(rest[k] == p.run.ready@[i]);
            assert(rest[0] == p.run.ready@[p.run.sent as int]);
            assert forall|x: int, y: int| 0 <= x < y < rest.len() implies (
            #[trigger] rest[x]).commit.global_exec_index < (
            #[trigger] rest[y]).commit.global_exec_index by {
                assert(rest[x] == p.run.ready@[x + p.run.sent]);
                assert(rest[y] == p.run.ready@[y + p.run.sent]);
            }
            crate::node::rust_sync_node::block_queue::law_returned_commits_wait(
                n.block_queue@,
                rest,
                k,
            );
        }
    }
}

/// The addresses of an epoch's validators are known after they were told, in the
/// order of the authority keys; those of other epochs stay.
pub proof fn law_addresses_are_learned(
    before: RustSyncNode,
    after: RustSyncNode,
    epoch: u64,
    validators: Seq<ValidatorInfo>,
    i: int,
)
    requires
        learned(before, after, epoch, validators),
        0 <= i < validators.len(),
    ensures
        after.epoch_eth_addresses@.contains_key(epoch),
        after.epoch_eth_addresses@[epoch]@.len() == validators.len(),
        after.epoch_eth_addresses@[epoch]@[i]@ == address_bytes(
            by_authority_key(validators)[i].address@,
        ),
        forall|e: u64|
            e != epoch && before.epoch_eth_addresses@.contains_key(e)
                ==> #[trigger] after.epoch_eth_addresses@.contains_key(e)
                && after.epoch_eth_addresses@[e] == before.epoch_eth_addresses@[e],
        after.block_queue == before.block_queue,
        after.current_epoch == before.current_epoch,
        after.epoch_base_index == before.epoch_base_index,
        after.committee == before.committee,
{
    assert(after.epoch_eth_addresses@.dom().contains(epoch));
    assert forall|e: u64| e != epoch && before.epoch_eth_addresses@.contains_key(
        e,
    ) implies #[trigger] after.epoch_eth_addresses@.contains_key(e)
        && after.epoch_eth_addresses@[e] == before.epoch_eth_addresses@[e] by {
        assert(after.epoch_eth_addresses@.dom().contains(e));
    }
}

/// An epoch change is due as soon as the executor has its boundary block, and
/// not before.
pub proof fn law_due_at_the_boundary(
    ts: Seq<PendingEpochTransition>,
    go_last_block: u64,
    t: PendingEpochTransition,
)
    requires
        ts.contains(t),
    ensures
        go_last_block >= t.boundary_block ==> due(ts, go_last_block).contains(t),
        go_last_block < t.boundary_block ==> waiting(ts, go_last_block).contains(t),
{
    law_no_transition_lost(ts, go_last_block, t);
}

/// A node fetches where the changes that wait lead it: to the epoch and the
/// boundary of each that is of a later epoch or has a later boundary, one after
/// the other. It never stays behind one of them in both.
pub proof fn law_node_moves_to_waiting_epochs(
    p: SyncPoint,
    a: Seq<PendingEpochTransition>,
    b: Seq<PendingEpochTransition>,
    t: PendingEpochTransition,
)
    ensures
        moved_all(p, a + b) == moved_all(moved_all(p, a), b),
        t.epoch > p.epoch || t.boundary_block > p.base ==> moved_all(p, seq![t]) == (SyncPoint {
            epoch: t.epoch,
            base: t.boundary_block,
        }),
        t.epoch <= p.epoch && t.boundary_block <= p.base ==> moved_all(p, seq![t]) == p,
    decreases b.len(),
{
    if b.len() > 0 {
        law_node_moves_to_waiting_epochs(p, a, b.drop_last(), t);
        assert((a + b).drop_last() =~= a + b.drop_last());
        assert((a + b).last() == b.last());
    } else {
        assert(a + b =~= a);
    }
    reveal_with_fuel(moved_all, 2);
    assert(seq![t].drop_last() =~= Seq::<PendingEpochTransition>::empty());
    assert(seq![t].last() == t);
}

/// A peer's report of the validators is as good as the executor's: after it the
/// addresses of the epoch are known, one for each validator that the peer named,
/// and each of them is the account address of one of these validators.
pub proof fn law_peer_validators_are_learned(
    p: ProcessRun,
    n: RustSyncNode,
    peer: usize,
    b: PeerBoundary,
    p2: ProcessRun,
    n2: RustSyncNode,
    a: ProcessAction,
    i: int,
)
    requires
        p.phase == (ProcessPhase::AskingPeer { peer }),
        b.error is None,
        process_step(p, n, ProcessEvent::PeerValidators(Some(b)), p2, n2, a),
        0 <= i < b.validators@.len(),
    ensures
        ({
            let epoch = p.run.ready@[p.run.sent as int].epoch;
            &&& n2.epoch_eth_addresses@.contains_key(epoch)
            &&& n2.epoch_eth_addresses@[epoch]@.len() == b.validators@.len()
            &&& exists|j: int|
                0 <= j < b.validators@.len() && n2.epoch_eth_addresses@[epoch]@[i]@
                    == address_bytes((#[trigger] b.validators@[j]).address@)
            &&& n2.block_queue == n.block_queue
            &&& n2.current_epoch == n.current_epoch
        }),
{
    broadcast use vstd::seq_lib::group_to_multiset_ensures;

    let epoch = p.run.ready@[p.run.sent as int].epoch;
    let forms = choose|forms: Seq<ValidatorInfo>|
        #![trigger learned(n, n2, epoch, forms)]
        text_forms(forms, b.validators@) && learned(n, n2, epoch, forms);
    law_addresses_are_learned(n, n2, epoch, forms, i);
    crate::node::committee::law_leaders_by_authority_key(forms);
    let order = by_authority_key(forms);
    assert(order.contains(order[i]));
    assert(order.to_multiset().count(order[i]) > 0);
    assert(forms.contains(order[i]));
    let j = forms.index_of(order[i]);
    assert(is_text_form(forms[j], b.validators@[j]));
    assert(n2.epoch_eth_addresses@[epoch]@[i]@ == address_bytes(b.validators@[j].address@));
}

/// An event that does not belong to where handing over stands changes nothing.
pub proof fn law_stray_events_are_ignored(
    p: ProcessRun,
    n: RustSyncNode,
    e: ProcessEvent,
    p2: ProcessRun,
    n2: RustSyncNode,
    a: ProcessAction,
)
    requires
        process_step(p, n, e, p2, n2, a),
        p.phase is AskingExecutor ==> !(e is ExecutorValidators),
        p.phase is AskingPeer ==> !(e is PeerValidators),
        p.phase is Pausing ==> !(e is Paused),
        p.phase is Sending ==> !(e is Sent),
    ensures
        p2 == p,
        n2 == n,
        a is Ignore,
{
}

/// Epoch changes that are due, and those that wait on, keep their order.
pub proof fn law_changes_keep_their_order(
    a: Seq<PendingEpochTransition>,
    b: Seq<PendingEpochTransition>,
    go_last_block: u64,
)
    ensures
        due(a + b, go_last_block) == due(a, go_last_block) + due(b, go_last_block),
        waiting(a + b, go_last_block) == waiting(a, go_last_block) + waiting(b, go_last_block),
{
    let d = |t: PendingEpochTransition| is_due(t, go_last_block);
    let w = |t: PendingEpochTransition| !is_due(t, go_last_block);
    Seq::filter_distributes_over_add(a, b, d);
    Seq::filter_distributes_over_add(a, b, w);
}

} // verus!
