//! One round of sync: follow the executor, fetch, hand over.
use crate::node::committee_source::{forms_committee, texts, EpochBoundary};
use crate::node::rust_sync_node::block_queue::{after_sync, can_sync};
use crate::node::rust_sync_node::{
    committee_peers, committee_size, epoch_record_broken, is_committee_of, source_of, EpochCheck,
    FetchSource, RustSyncNode,
};
use vstd::prelude::*;

verus! {

/// How far a round has come. `last` is the executor's last block.
#[derive(Clone, Copy, Debug, PartialEq, Eq, Structural)]
pub enum SyncPhase {
    /// The executor is asked for its last block.
    LastBlock,
    /// The executor is asked for its epoch.
    Epoch { last: u64 },
    /// The executor is in a later epoch, whose start is asked for.
    Adopt { last: u64, go_epoch: u64 },
    /// The executor is in the same epoch, whose validators are asked for.
    Refresh { last: u64, go_epoch: u64 },
    /// The record of the epoch is wrong: the executor is asked again.
    Repair { last: u64 },
    /// The executor has the same record: peers are asked how far they are.
    RepairPeers { last: u64 },
    /// A peer in the same epoch is asked for its boundary.
    RepairBoundary { last: u64, peer_epoch: u64 },
    /// Commits or blocks are fetched.
    Fetch { last: u64 },
    /// Ready commits are handed over.
    Process { last: u64 },
    /// The round has ended.
    Ended,
}

/// What has to be done next.
pub enum SyncAction {
    AskLastBlock,
    AskEpoch,
    AskBoundary { epoch: u64 },
    /// Ask peers for their epoch.
    AskPeers { addresses: Vec<String> },
    /// Ask the best peer for the start of an epoch.
    AskPeerBoundary { epoch: u64 },
    Fetch(FetchSource),
    Process,
    /// Look at the epoch changes that wait.
    CheckPending { last: u64 },
    /// The executor does not answer: the round has failed.
    Fail,
    /// The event does not belong to the phase: nothing was done.
    Ignore,
}

/// What came of an action.
pub enum SyncEvent {
    LastBlock(Option<u64>),
    Epoch(Option<u64>),
    Boundary(Option<EpochBoundary>),
    /// The epoch of the best peer.
    BestPeer(Option<u64>),
    /// The boundary block as the best peer knows it.
    PeerBoundary(Option<u64>),
    Fetched,
    Processed,
}

/// The executor's last block, where the phase knows it.
pub open spec fn last_of(phase: SyncPhase) -> Option<u64> {
    match phase {
        SyncPhase::Epoch { last } => Some(last),
        SyncPhase::Adopt { last, .. } => Some(last),
        SyncPhase::Refresh { last, .. } => Some(last),
        SyncPhase::Repair { last } => Some(last),
        SyncPhase::RepairPeers { last } => Some(last),
        SyncPhase::RepairBoundary { last, .. } => Some(last),
        _ => None,
    }
}

/// The queue follows the executor, and fetching begins.
pub open spec fn begins_fetch(
    n: RustSyncNode,
    last: u64,
    n2: RustSyncNode,
    phase2: SyncPhase,
    a: SyncAction,
) -> bool {
    &&& n2 == (RustSyncNode { block_queue: n2.block_queue, ..n })
    &&& n2.block_queue@ == after_sync(n.block_queue@, last)
    &&& phase2 == (SyncPhase::Fetch { last })
    &&& a == SyncAction::Fetch(source_of(n2))
}

/// The record of the epoch is looked at before fetching begins.
pub open spec fn checks_record(
    n: RustSyncNode,
    last: u64,
    n2: RustSyncNode,
    phase2: SyncPhase,
    a: SyncAction,
) -> bool {
    if epoch_record_broken(n.current_epoch, n.epoch_base_index, last) {
        n2 == n && phase2 == (SyncPhase::Repair { last }) && a == (SyncAction::AskBoundary {
            epoch: n.current_epoch,
        })
    } else {
        begins_fetch(n, last, n2, phase2, a)
    }
}

/// `n2` is `n` in the executor's epoch.
pub open spec fn adopted(n: RustSyncNode, go_epoch: u64, b: EpochBoundary, n2: RustSyncNode) -> bool {
    let replaced = b.validators@.len() > 0 && forms_committee(b.validators@);
    &&& n2 == (RustSyncNode {
        current_epoch: go_epoch,
        epoch_base_index: b.boundary_block,
        committee: n2.committee,
        ..n
    })
    &&& if replaced {
        n2.committee is Some && is_committee_of(n2.committee->Some_0, go_epoch, b.validators@)
    } else {
        n2.committee == n.committee
    }
}

/// `n2` is `n` with the committee that the executor reports, if that has
/// another size.
pub open spec fn refreshed(
    n: RustSyncNode,
    go_epoch: u64,
    b: EpochBoundary,
    n2: RustSyncNode,
) -> bool {
    let replaced = b.validators@.len() > 0 && b.validators@.len() != committee_size(n.committee)
        && forms_committee(b.validators@);
    &&& n2 == (RustSyncNode { committee: n2.committee, ..n })
    &&& if replaced {
        n2.committee is Some && is_committee_of(n2.committee->Some_0, go_epoch, b.validators@)
    } else {
        n2.committee == n.committee
    }
}

/// A step of a round: `n2` and `phase2` are what comes of the event, `a` is
/// what to do.
pub open spec fn sync_step(
    phase: SyncPhase,
    n: RustSyncNode,
    e: SyncEvent,
    phase2: SyncPhase,
    n2: RustSyncNode,
    a: SyncAction,
) -> bool {
    match (phase, e) {
        (SyncPhase::LastBlock, SyncEvent::LastBlock(b)) => n2 == n && match b {
            Some(last) => phase2 == (SyncPhase::Epoch { last }) && a is AskEpoch,
            None => phase2 is Ended && a is Fail,
        },
        (SyncPhase::Epoch { last }, SyncEvent::Epoch(g)) => match g {
            None => n2 == n && phase2 is Ended && a is Fail,
            Some(go_epoch) => if go_epoch > n.current_epoch {
                n2 == n && phase2 == (SyncPhase::Adopt { last, go_epoch }) && a == (
                SyncAction::AskBoundary { epoch: go_epoch })
            } else if go_epoch == n.current_epoch {
                n2 == n && phase2 == (SyncPhase::Refresh { last, go_epoch }) && a == (
                SyncAction::AskBoundary { epoch: go_epoch })
            } else {
                checks_record(n, last, n2, phase2, a)
            },
        },
        (SyncPhase::Adopt { last, go_epoch }, SyncEvent::Boundary(b)) => match b {
            Some(x) => exists|m: RustSyncNode|
                #![trigger adopted(n, go_epoch, x, m)]
                adopted(n, go_epoch, x, m) && checks_record(m, last, n2, phase2, a),
            None => checks_record(n, last, n2, phase2, a),
        },
        (SyncPhase::Refresh { last, go_epoch }, SyncEvent::Boundary(b)) => match b {
            Some(x) => exists|m: RustSyncNode|
                #![trigger refreshed(n, go_epoch, x, m)]
                refreshed(n, go_epoch, x, m) && checks_record(m, last, n2, phase2, a),
            None => checks_record(n, last, n2, phase2, a),
        },
        (SyncPhase::Repair { last }, SyncEvent::Boundary(b)) => match b {
            Some(x) => if x.boundary_block != n.epoch_base_index {
                begins_fetch(
                    RustSyncNode { epoch_base_index: x.boundary_block, ..n },
                    last,
                    n2,
                    phase2,
                    a,
                )
            } else if committee_peers(n.committee).len() > 0 {
                &&& n2 == n
                &&& phase2 == (SyncPhase::RepairPeers { last })
                &&& a matches SyncAction::AskPeers { addresses } && texts(addresses@)
                    == committee_peers(n.committee)
            } else {
                begins_fetch(n, last, n2, phase2, a)
            },
            None => begins_fetch(n, last, n2, phase2, a),
        },
        (SyncPhase::RepairPeers { last }, SyncEvent::BestPeer(p)) => if p == Some(
            n.current_epoch,
        ) {
            n2 == n && phase2 == (SyncPhase::RepairBoundary { last, peer_epoch: n.current_epoch })
                && a == (SyncAction::AskPeerBoundary { epoch: n.current_epoch })
        } else {
            begins_fetch(n, last, n2, phase2, a)
        },
        (
            SyncPhase::RepairBoundary { last, peer_epoch },
            SyncEvent::PeerBoundary(b),
        ) => begins_fetch(
            if b is Some && peer_epoch == n.current_epoch && b->Some_0 > n.epoch_base_index {
                RustSyncNode { epoch_base_index: b->Some_0, ..n }
            } else {
                n
            },
            last,
            n2,
            phase2,
            a,
        ),
        (SyncPhase::Fetch { last }, SyncEvent::Fetched) => n2 == n && phase2 == (
        SyncPhase::Process { last }) && a is Process,
        (SyncPhase::Process { last }, SyncEvent::Processed) => n2 == n && phase2 is Ended && a == (
        SyncAction::CheckPending { last }),
        _ => n2 == n && phase2 == phase && a is Ignore,
    }
}

/// A round that is under way.
#[derive(Clone, Copy, Debug, PartialEq, Eq, Structural)]
pub struct SyncRound {
    pub phase: SyncPhase,
}

impl SyncRound {
    /// A round begins with the executor's last block.
    pub fn new() -> (r: SyncRound)
        ensures
            r.phase is LastBlock,
    {
        SyncRound { phase: SyncPhase::LastBlock }
    }

    /// What has to be done first.
    pub fn first_action(&self) -> (a: SyncAction)
        ensures
            a is AskLastBlock,
    {
        SyncAction::AskLastBlock
    }

    fn begin_fetch(&mut self, node: &mut RustSyncNode, last: u64) -> (a: SyncAction)
        requires
            old(node).wf(),
            can_sync(old(node).block_queue@, last),
        ensures
            final(node).wf(),
            begins_fetch(*old(node), last, *final(node), final(self).phase, a),
    {
        node.block_queue.sync_with_go(last);
        self.phase = SyncPhase::Fetch { last };
        SyncAction::Fetch(node.fetch_source())
    }

    fn check_record(&mut self, node: &mut RustSyncNode, last: u64) -> (a: SyncAction)
        requires
            old(node).wf(),
            can_sync(old(node).block_queue@, last),
        ensures
            final(node).wf(),
            checks_record(*old(node), last, *final(node), final(self).phase, a),
    {
        if node.needs_repair(last) {
            self.phase = SyncPhase::Repair { last };
            SyncAction::AskBoundary { epoch: node.current_epoch }
        } else {
            self.begin_fetch(node, last)
        }
    }

    /// Takes an event and gives what to do next, see [`sync_step`].
    pub fn on_event(&mut self, node: &mut RustSyncNode, event: SyncEvent) -> (a: SyncAction)
        requires
            old(node).wf(),
            last_of(old(self).phase) matches Some(last) ==> can_sync(old(node).block_queue@, last),
        ensures
            final(node).wf(),
            sync_step(old(self).phase, *old(node), event, final(self).phase, *final(node), a),
    {
        match self.phase {
            SyncPhase::LastBlock => match event {
                SyncEvent::LastBlock(b) => match b {
                    Some(last) => {
                        self.phase = SyncPhase::Epoch { last };
                        SyncAction::AskEpoch
                    },
                    None => {
                        self.phase = SyncPhase::Ended;
                        SyncAction::Fail
                    },
                },
                _ => SyncAction::Ignore,
            },
            SyncPhase::Epoch { last } => match event {
                SyncEvent::Epoch(g) => match g {
                    None => {
                        self.phase = SyncPhase::Ended;
                        SyncAction::Fail
                    },
                    Some(go_epoch) => match node.check_epoch(go_epoch) {
                        EpochCheck::Adopt => {
                            self.phase = SyncPhase::Adopt { last, go_epoch };
                            SyncAction::AskBoundary { epoch: go_epoch }
                        },
                        EpochCheck::Refresh => {
                            self.phase = SyncPhase::Refresh { last, go_epoch };
                            SyncAction::AskBoundary { epoch: go_epoch }
                        },
                        EpochCheck::Keep => self.check_record(node, last),
                    },
                },
                _ => SyncAction::Ignore,
            },
            SyncPhase::Adopt { last, go_epoch } => match event {
                SyncEvent::Boundary(b) => {
                    match b {
                        Some(x) => {
                            let ghost before = *node;
                            node.adopt_epoch(go_epoch, x.boundary_block, x.validators);
                            assert(adopted(before, go_epoch, x, *node));
                        },
                        None => {},
                    }
                    self.check_record(node, last)
                },
                _ => SyncAction::Ignore,
            },
            SyncPhase::Refresh { last, go_epoch } => match event {
                SyncEvent::Boundary(b) => {
                    match b {
                        Some(x) => {
                            let ghost before = *node;
                            node.refresh_committee(go_epoch, x.validators);
                            assert(refreshed(before, go_epoch, x, *node));
                        },
                        None => {},
                    }
                    self.check_record(node, last)
                },
                _ => SyncAction::Ignore,
            },
            SyncPhase::Repair { last } => match event {
                SyncEvent::Boundary(b) => {
                    match b {
                        Some(x) => {
                            if !node.repair_from_executor(x.boundary_block) {
                                let addresses = node.member_addresses();
                                assert(texts(addresses@).len() == addresses@.len());
                                if addresses.len() > 0 {
                                    self.phase = SyncPhase::RepairPeers { last };
                                    return SyncAction::AskPeers { addresses };
                                }
                            }
                        },
                        None => {},
                    }
                    self.begin_fetch(node, last)
                },
                _ => SyncAction::Ignore,
            },
            SyncPhase::RepairPeers { last } => match event {
                SyncEvent::BestPeer(p) => {
                    match p {
                        Some(e) => {
                            if e == node.current_epoch {
                                self.phase = SyncPhase::RepairBoundary { last, peer_epoch: e };
                                return SyncAction::AskPeerBoundary { epoch: e };
                            }
                        },
                        None => {},
                    }
                    self.begin_fetch(node, last)
                },
                _ => SyncAction::Ignore,
            },
            SyncPhase::RepairBoundary { last, peer_epoch } => match event {
                SyncEvent::PeerBoundary(b) => {
                    match b {
                        Some(x) => {
                            node.repair_from_peer(peer_epoch, x);
                        },
                        None => {},
                    }
                    self.begin_fetch(node, last)
                },
                _ => SyncAction::Ignore,
            },
            SyncPhase::Fetch { last } => match event {
                SyncEvent::Fetched => {
                    self.phase = SyncPhase::Process { last };
                    SyncAction::Process
                },
                _ => SyncAction::Ignore,
            },
            SyncPhase::Process { last } => match event {
                SyncEvent::Processed => {
                    self.phase = SyncPhase::Ended;
                    SyncAction::CheckPending { last }
                },
                _ => SyncAction::Ignore,
            },
            SyncPhase::Ended => SyncAction::Ignore,
        }
    }
}

/// Nothing is fetched before the queue has followed the executor.
pub proof fn law_fetch_follows_executor(
    phase: SyncPhase,
    n: RustSyncNode,
    e: SyncEvent,
    phase2: SyncPhase,
    n2: RustSyncNode,
    a: SyncAction,
)
    requires
        sync_step(phase, n, e, phase2, n2, a),
        a is Fetch,
    ensures
        last_of(phase) is Some,
        n2.block_queue@ == after_sync(n.block_queue@, last_of(phase)->Some_0),
        a->Fetch_0 == source_of(n2),
{
}

/// A round asks the executor for its last block and its epoch, and for the start
/// of that epoch unless the node is in a later one. Without an answer to the
/// first two the round has failed.
pub proof fn law_round_asks_executor(
    n: RustSyncNode,
    last: u64,
    go_epoch: u64,
    p1: SyncPhase,
    n1: RustSyncNode,
    a1: SyncAction,
    p2: SyncPhase,
    n2: RustSyncNode,
    a2: SyncAction,
)
    requires
        sync_step(SyncPhase::LastBlock, n, SyncEvent::LastBlock(Some(last)), p1, n1, a1),
        sync_step(p1, n1, SyncEvent::Epoch(Some(go_epoch)), p2, n2, a2),
    ensures
        a1 is AskEpoch,
        n1 == n,
        go_epoch >= n.current_epoch ==> a2 == (SyncAction::AskBoundary { epoch: go_epoch }) && n2
            == n,
        go_epoch < n.current_epoch && (last >= n.epoch_base_index || n.epoch_base_index == 0)
            ==> a2 is Fetch,
        forall|q: SyncPhase, m: RustSyncNode, a: SyncAction|
            sync_step(SyncPhase::LastBlock, n, SyncEvent::LastBlock(None), q, m, a) ==> a is Fail
                && m == n,
        forall|q: SyncPhase, m: RustSyncNode, a: SyncAction|
            #[trigger] sync_step(p1, n1, SyncEvent::Epoch(None), q, m, a) ==> a is Fail && m == n,
{
}

/// A node whose executor is in a later epoch goes over to it: its epoch is the
/// executor's, its commits are counted from the boundary that the executor
/// reports, and the validators that it reports are its committee.
pub proof fn law_later_epoch_is_adopted(
    n: RustSyncNode,
    last: u64,
    go_epoch: u64,
    x: EpochBoundary,
    phase2: SyncPhase,
    n2: RustSyncNode,
    a: SyncAction,
)
    requires
        sync_step(
            SyncPhase::Adopt { last, go_epoch },
            n,
            SyncEvent::Boundary(Some(x)),
            phase2,
            n2,
            a,
        ),
    ensures
        n2.current_epoch == go_epoch,
        n2.epoch_base_index == x.boundary_block,
        x.validators@.len() > 0 && forms_committee(x.validators@) ==> n2.committee is Some
            && n2.committee->Some_0.epoch == go_epoch && n2.committee->Some_0.authorities@.len()
            == x.validators@.len(),
        !(x.validators@.len() > 0 && forms_committee(x.validators@)) ==> n2.committee
            == n.committee,
        n2.config == n.config,
        n2.has_network == n.has_network,
{
}

/// Within an epoch the committee is replaced only by one of another size, and
/// the epoch and its base stay.
pub proof fn law_committee_is_refreshed(
    n: RustSyncNode,
    last: u64,
    go_epoch: u64,
    x: EpochBoundary,
    phase2: SyncPhase,
    n2: RustSyncNode,
    a: SyncAction,
)
    requires
        sync_step(
            SyncPhase::Refresh { last, go_epoch },
            n,
            SyncEvent::Boundary(Some(x)),
            phase2,
            n2,
            a,
        ),
    ensures
        n2.current_epoch == n.current_epoch,
        n2.epoch_base_index == n.epoch_base_index,
        ({
            let size = match n.committee {
                Some(c) => c.authorities@.len(),
                None => 0,
            };
            let replaced = x.validators@.len() > 0 && x.validators@.len() != size
                && forms_committee(x.validators@);
            &&& replaced ==> n2.committee is Some && n2.committee->Some_0.authorities@.len()
                == x.validators@.len()
            &&& !replaced ==> n2.committee == n.committee
        }),
{
}

/// Before a node fetches, it looks whether its executor is behind the start of
/// the node's epoch. If so the start is asked for again; a start that differs is
/// taken from the executor. One that does not differ is asked for of the members,
/// and a later one of a peer in the same epoch is taken.
pub proof fn law_wrong_start_is_repaired(
    n: RustSyncNode,
    last: u64,
    n2: RustSyncNode,
    phase2: SyncPhase,
    a: SyncAction,
    x: EpochBoundary,
    n3: RustSyncNode,
    phase3: SyncPhase,
    b: SyncAction,
    peer: Option<u64>,
    n4: RustSyncNode,
    phase4: SyncPhase,
    c: SyncAction,
)
    requires
        checks_record(n, last, n2, phase2, a),
        sync_step(SyncPhase::Repair { last }, n, SyncEvent::Boundary(Some(x)), phase3, n3, b),
        sync_step(
            SyncPhase::RepairBoundary { last, peer_epoch: n.current_epoch },
            n,
            SyncEvent::PeerBoundary(peer),
            phase4,
            n4,
            c,
        ),
    ensures
        n.current_epoch > 0 && n.epoch_base_index > 0 && last < n.epoch_base_index ==> a == (
        SyncAction::AskBoundary { epoch: n.current_epoch }) && n2 == n,
        n.current_epoch == 0 || n.epoch_base_index == 0 || last >= n.epoch_base_index ==> a
            is Fetch,
        x.boundary_block != n.epoch_base_index ==> b is Fetch && n3.epoch_base_index
            == x.boundary_block,
        x.boundary_block == n.epoch_base_index ==> n3.epoch_base_index == n.epoch_base_index,
        x.boundary_block == n.epoch_base_index && committee_peers(n.committee).len() > 0 ==> b
            is AskPeers,
        c is Fetch,
        peer matches Some(block) ==> n4.epoch_base_index == if block > n.epoch_base_index {
            block
        } else {
            n.epoch_base_index
        },
        peer is None ==> n4.epoch_base_index == n.epoch_base_index,
        n3.current_epoch == n.current_epoch,
        n4.current_epoch == n.current_epoch,
{
}

/// A member is asked for the start of an epoch only if the best peer is in the
/// same epoch as the node; otherwise fetching begins.
pub proof fn law_repair_within_epoch(
    n: RustSyncNode,
    last: u64,
    best: Option<u64>,
    n2: RustSyncNode,
    phase2: SyncPhase,
    a: SyncAction,
)
    requires
        sync_step(SyncPhase::RepairPeers { last }, n, SyncEvent::BestPeer(best), phase2, n2, a),
    ensures
        best == Some(n.current_epoch) ==> a == (SyncAction::AskPeerBoundary {
            epoch: n.current_epoch,
        }) && n2 == n,
        best != Some(n.current_epoch) ==> a is Fetch && n2.epoch_base_index == n.epoch_base_index,
{
}

/// After fetching, ready commits are handed over, and then the epoch changes
/// that wait are looked at with the executor's last block of this round.
pub proof fn law_round_ends_with_pending(
    n: RustSyncNode,
    last: u64,
    p1: SyncPhase,
    n1: RustSyncNode,
    a1: SyncAction,
    p2: SyncPhase,
    n2: RustSyncNode,
    a2: SyncAction,
)
    requires
        sync_step(SyncPhase::Fetch { last }, n, SyncEvent::Fetched, p1, n1, a1),
        sync_step(p1, n1, SyncEvent::Processed, p2, n2, a2),
    ensures
        a1 is Process,
        a2 == (SyncAction::CheckPending { last }),
        p2 is Ended,
        n2 == n,
{
}

/// An event that does not belong to where a round stands changes nothing.
pub proof fn law_stray_events_are_ignored(
    phase: SyncPhase,
    n: RustSyncNode,
    e: SyncEvent,
    phase2: SyncPhase,
    n2: RustSyncNode,
    a: SyncAction,
)
    requires
        sync_step(phase, n, e, phase2, n2, a),
        phase is LastBlock ==> !(e is LastBlock),
        phase is Epoch ==> !(e is Epoch),
        phase is Adopt || phase is Refresh || phase is Repair ==> !(e is Boundary),
        phase is RepairPeers ==> !(e is BestPeer),
        phase is RepairBoundary ==> !(e is PeerBoundary),
        phase is Fetch ==> !(e is Fetched),
        phase is Process ==> !(e is Processed),
    ensures
        phase2 == phase,
        n2 == n,
        a is Ignore,
{
}

/// An epoch whose start the executor does not give leaves the node in its own.
pub proof fn law_unknown_start_changes_nothing(
    phase: SyncPhase,
    n: RustSyncNode,
    phase2: SyncPhase,
    n2: RustSyncNode,
    a: SyncAction,
)
    requires
        phase is Adopt || phase is Refresh || phase is Repair,
        sync_step(phase, n, SyncEvent::Boundary(None), phase2, n2, a),
    ensures
        n2.current_epoch == n.current_epoch,
        n2.epoch_base_index == n.epoch_base_index,
        n2.committee == n.committee,
        a is Fetch || a is AskBoundary,
        phase is Repair ==> a is Fetch,
{
}

} // verus!
