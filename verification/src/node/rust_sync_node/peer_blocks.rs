//! Fetching blocks from the executors of peers.
use crate::node::executor_client::responses::BlockData;
use crate::node::rust_sync_node::RustSyncNode;
use crate::node::PendingEpochTransition;
use vstd::prelude::*;
use vstd::string::*;

verus! {

/// Why no blocks were fetched.
#[derive(Clone, Copy, Debug, PartialEq, Eq, Structural)]
pub enum PeerBlocksError {
    NoPeers,
    AllFailed,
    /// The local executor did not take the blocks.
    NotTaken,
}

impl PeerBlocksError {
    /// What to tell the user.
    pub fn message(&self) -> (s: String)
        ensures
            s@ == match self {
                PeerBlocksError::NoPeers => "No peer addresses configured"@,
                PeerBlocksError::AllFailed => "All peers failed to provide blocks"@,
                PeerBlocksError::NotTaken => "Failed to sync blocks to local Go"@,
            },
    {
        match self {
            PeerBlocksError::NoPeers => String::from_str("No peer addresses configured"),
            PeerBlocksError::AllFailed => String::from_str("All peers failed to provide blocks"),
            PeerBlocksError::NotTaken => String::from_str("Failed to sync blocks to local Go"),
        }
    }
}

/// How far a fetch has come.
#[derive(Clone, Copy, Debug, PartialEq, Eq, Structural)]
pub enum PeerBlocksPhase {
    /// A peer is asked for blocks.
    Peer { peer: usize },
    /// The blocks are looked through; the start of a later epoch is asked for.
    Epochs { at: usize },
    /// The local executor is given the blocks.
    Syncing,
    Ended,
}

/// What has to be done next.
pub enum PeerBlocksAction {
    /// Ask a peer for a range of blocks.
    AskPeer { peer: usize, from: u64, to: u64 },
    /// Ask the local executor for the start of an epoch; before that,
    /// announce the epoch change of the step before, if there is one.
    AskBoundary { epoch: u64, announce: Option<PendingEpochTransition> },
    /// Give the blocks to the local executor, after announcing.
    SyncBlocks { announce: Option<PendingEpochTransition> },
    /// So many blocks were taken.
    Done { synced: u64 },
    Fail(PeerBlocksError),
    /// The event does not belong to the phase: nothing was done.
    Ignore,
}

/// What came of an action.
pub enum PeerBlocksEvent {
    /// The blocks of the peer; none if it could not be asked.
    Blocks(Option<Vec<BlockData>>),
    /// The start time and the boundary block of the epoch.
    Boundary(Option<(u64, u64)>),
    /// The number of blocks that the executor took.
    Synced(Option<u64>),
}

/// A fetch that is under way.
pub struct PeerBlocksFetch {
    pub from: u64,
    pub to: u64,
    pub peers: usize,
    pub phase: PeerBlocksPhase,
    pub blocks: Vec<BlockData>,
}

/// The next peer is asked, or the fetch has failed.
pub open spec fn next_peer(f: PeerBlocksFetch, peer: int, phase2: PeerBlocksPhase, a: PeerBlocksAction)
    -> bool {
    if peer < f.peers {
        phase2 == (PeerBlocksPhase::Peer { peer: peer as usize }) && a == (
        PeerBlocksAction::AskPeer { peer: peer as usize, from: f.from, to: f.to })
    } else {
        phase2 is Ended && a == PeerBlocksAction::Fail(PeerBlocksError::AllFailed)
    }
}

/// The first block from `at` on that is of a later epoch than `epoch`.
pub open spec fn later_epoch(blocks: Seq<BlockData>, at: int, epoch: u64) -> Option<int>
    decreases blocks.len() - at,
{
    if at < 0 || at >= blocks.len() {
        None
    } else if blocks[at].epoch > epoch {
        Some(at)
    } else {
        later_epoch(blocks, at + 1, epoch)
    }
}

/// The blocks from `at` on are looked through: the start of the first later
/// epoch is asked for; without one the executor is given the blocks.
pub open spec fn looks_on(
    blocks: Seq<BlockData>,
    at: int,
    epoch: u64,
    announced: Option<PendingEpochTransition>,
    phase2: PeerBlocksPhase,
    a: PeerBlocksAction,
) -> bool {
    match later_epoch(blocks, at, epoch) {
        Some(i) => phase2 == (PeerBlocksPhase::Epochs { at: i as usize }) && a == (
        PeerBlocksAction::AskBoundary { epoch: blocks[i].epoch, announce: announced }),
        None => phase2 is Syncing && a == (PeerBlocksAction::SyncBlocks { announce: announced }),
    }
}

/// A step of a fetch: `f2` and `n2` are what comes of the event, `a` is what to
/// do.
pub open spec fn peer_blocks_step(
    f: PeerBlocksFetch,
    n: RustSyncNode,
    e: PeerBlocksEvent,
    f2: PeerBlocksFetch,
    n2: RustSyncNode,
    a: PeerBlocksAction,
) -> bool {
    match (f.phase, e) {
        (PeerBlocksPhase::Peer { peer }, PeerBlocksEvent::Blocks(b)) => n2 == n && if b is Some
            && b->Some_0@.len() > 0 {
            &&& f2 == (PeerBlocksFetch { phase: f2.phase, blocks: b->Some_0, ..f })
            &&& looks_on(b->Some_0@, 0, n.current_epoch, None, f2.phase, a)
        } else {
            f2 == (PeerBlocksFetch { phase: f2.phase, ..f }) && next_peer(f, peer + 1, f2.phase, a)
        },
        (PeerBlocksPhase::Epochs { at }, PeerBlocksEvent::Boundary(b)) => {
            let epoch = f.blocks@[at as int].epoch;
            let moved = b is Some && epoch > n.current_epoch;
            &&& f2 == (PeerBlocksFetch { phase: f2.phase, ..f })
            &&& n2 == (RustSyncNode {
                current_epoch: if moved {
                    epoch
                } else {
                    n.current_epoch
                },
                ..n
            })
            &&& looks_on(
                f.blocks@,
                at + 1,
                n2.current_epoch,
                if moved {
                    Some(
                        PendingEpochTransition {
                            epoch,
                            timestamp_ms: b->Some_0.0,
                            boundary_block: b->Some_0.1,
                        },
                    )
                } else {
                    None
                },
                f2.phase,
                a,
            )
        },
        (PeerBlocksPhase::Syncing, PeerBlocksEvent::Synced(r)) => n2 == n && f2 == (
        PeerBlocksFetch { phase: PeerBlocksPhase::Ended, ..f }) && a == match r {
            Some(synced) => PeerBlocksAction::Done { synced },
            None => PeerBlocksAction::Fail(PeerBlocksError::NotTaken),
        },
        _ => f2 == f && n2 == n && a is Ignore,
    }
}

impl PeerBlocksFetch {
    /// The block that is looked at is there.
    pub open spec fn wf(&self) -> bool {
        self.phase matches PeerBlocksPhase::Epochs { at } ==> at < self.blocks@.len()
    }

    /// Starts a fetch of `batch_size` blocks from `from_block` on.
    pub fn start(peers: usize, from_block: u64, batch_size: u64) -> (r: (
        PeerBlocksFetch,
        PeerBlocksAction,
    ))
        requires
            peers > 0 ==> 1 <= from_block + batch_size <= u64::MAX,
        ensures
            r.0.wf(),
            r.0.peers == peers,
            r.0.blocks@.len() == 0,
            if peers == 0 {
                r.0.phase is Ended && r.1 == PeerBlocksAction::Fail(PeerBlocksError::NoPeers)
            } else {
                &&& r.0.from == from_block
                &&& r.0.to == from_block + batch_size - 1
                &&& next_peer(r.0, 0, r.0.phase, r.1)
            },
    {
        if peers == 0 {
            let f = PeerBlocksFetch {
                from: from_block,
                to: from_block,
                peers,
                phase: PeerBlocksPhase::Ended,
                blocks: Vec::new(),
            };
            return (f, PeerBlocksAction::Fail(PeerBlocksError::NoPeers));
        }
        let to: u64 = from_block + batch_size - 1;
        let f = PeerBlocksFetch {
            from: from_block,
            to,
            peers,
            phase: PeerBlocksPhase::Peer { peer: 0 },
            blocks: Vec::new(),
        };
        (f, PeerBlocksAction::AskPeer { peer: 0, from: from_block, to })
    }

    /// Looks through the blocks from `at` on.
    fn look_on(&mut self, epoch: u64, at: usize, announced: Option<PendingEpochTransition>) -> (a:
        PeerBlocksAction)
        requires
            at <= old(self).blocks@.len(),
        ensures
            final(self).wf(),
            *final(self) == (PeerBlocksFetch { phase: final(self).phase, ..*old(self) }),
            looks_on(old(self).blocks@, at as int, epoch, announced, final(self).phase, a),
    {
        let mut i: usize = at;
        while i < self.blocks.len() && self.blocks[i].epoch <= epoch
            invariant
                at <= i <= self.blocks@.len(),
                *self == *old(self),
                later_epoch(self.blocks@, at as int, epoch) == later_epoch(
                    self.blocks@,
                    i as int,
                    epoch,
                ),
            decreases self.blocks.len() - i,
        {
            i += 1;
        }
        if i < self.blocks.len() {
            self.phase = PeerBlocksPhase::Epochs { at: i };
            PeerBlocksAction::AskBoundary { epoch: self.blocks[i].epoch, announce: announced }
        } else {
            self.phase = PeerBlocksPhase::Syncing;
            PeerBlocksAction::SyncBlocks { announce: announced }
        }
    }

    /// Takes an event and gives what to do next, see [`peer_blocks_step`].
    pub fn on_event(&mut self, node: &mut RustSyncNode, event: PeerBlocksEvent) -> (a:
        PeerBlocksAction)
        requires
            old(self).wf(),
            old(node).wf(),
        ensures
            final(self).wf(),
            final(node).wf(),
            peer_blocks_step(*old(self), *old(node), event, *final(self), *final(node), a),
    {
        match self.phase {
            PeerBlocksPhase::Peer { peer } => match event {
                PeerBlocksEvent::Blocks(b) => {
                    match b {
                        Some(blocks) => {
                            if blocks.len() > 0 {
                                self.blocks = blocks;
                                return self.look_on(node.current_epoch, 0, None);
                            }
                        },
                        None => {},
                    }
                    if peer < self.peers && peer + 1 < self.peers {
                        self.phase = PeerBlocksPhase::Peer { peer: peer + 1 };
                        PeerBlocksAction::AskPeer {
                            peer: peer + 1,
                            from: self.from,
                            to: self.to,
                        }
                    } else {
                        self.phase = PeerBlocksPhase::Ended;
                        PeerBlocksAction::Fail(PeerBlocksError::AllFailed)
                    }
                },
                _ => PeerBlocksAction::Ignore,
            },
            PeerBlocksPhase::Epochs { at } => match event {
                PeerBlocksEvent::Boundary(b) => {
                    let count: usize = self.blocks.len();
                    assert(at < count);
                    let epoch: u64 = self.blocks[at].epoch;
                    let announced = node.note_block_epoch(epoch, b);
                    self.look_on(node.current_epoch, at + 1, announced)
                },
                _ => PeerBlocksAction::Ignore,
            },
            PeerBlocksPhase::Syncing => match event {
                PeerBlocksEvent::Synced(r) => {
                    self.phase = PeerBlocksPhase::Ended;
                    match r {
                        Some(synced) => PeerBlocksAction::Done { synced },
                        None => PeerBlocksAction::Fail(PeerBlocksError::NotTaken),
                    }
                },
                _ => PeerBlocksAction::Ignore,
            },
            PeerBlocksPhase::Ended => PeerBlocksAction::Ignore,
        }
    }
}

/// The peers are asked for the range one after the other until one of them has
/// blocks; after the last one the fetch has failed.
pub proof fn law_peers_asked_for_blocks(
    f: PeerBlocksFetch,
    peer: usize,
    n: RustSyncNode,
    b: Option<Vec<BlockData>>,
    f2: PeerBlocksFetch,
    n2: RustSyncNode,
    a: PeerBlocksAction,
)
    requires
        f.phase == (PeerBlocksPhase::Peer { peer }),
        peer < f.peers,
        peer_blocks_step(f, n, PeerBlocksEvent::Blocks(b), f2, n2, a),
    ensures
        ({
            let empty = b is None || b->Some_0@.len() == 0;
            &&& empty && peer + 1 < f.peers ==> a == (PeerBlocksAction::AskPeer {
                peer: (peer + 1) as usize,
                from: f.from,
                to: f.to,
            })
            &&& empty && peer + 1 == f.peers ==> a == PeerBlocksAction::Fail(
                PeerBlocksError::AllFailed,
            )
            &&& !empty ==> f2.blocks == b->Some_0 && (a is AskBoundary || a is SyncBlocks)
            &&& !empty && (forall|i: int|
                0 <= i < b->Some_0@.len() ==> (#[trigger] b->Some_0@[i]).epoch <= n.current_epoch)
                ==> a == (PeerBlocksAction::SyncBlocks { announce: None })
            &&& n2 == n
        }),
{
    if b is Some && b->Some_0@.len() > 0 {
        law_first_later_epoch(b->Some_0@, 0, n.current_epoch);
    }
}

/// The first block of a later epoch is found: it is of a later epoch, and those
/// before it are not.
pub proof fn law_first_later_epoch(blocks: Seq<BlockData>, at: int, epoch: u64)
    requires
        0 <= at,
    ensures
        match later_epoch(blocks, at, epoch) {
            Some(i) => at <= i < blocks.len() && blocks[i].epoch > epoch && forall|j: int|
                at <= j < i ==> (#[trigger] blocks[j]).epoch <= epoch,
            None => forall|j: int|
                at <= j < blocks.len() ==> (#[trigger] blocks[j]).epoch <= epoch,
        },
    decreases blocks.len() - at,
{
    if at < blocks.len() && blocks[at].epoch <= epoch {
        law_first_later_epoch(blocks, at + 1, epoch);
    }
}

/// The node goes to the epoch of a block that is later than its own once the
/// executor knows the start of that epoch, and the change is announced with it.
/// An epoch that the executor does not know is passed over, and nothing is
/// announced.
pub proof fn law_block_epochs_are_announced(
    f: PeerBlocksFetch,
    at: usize,
    n: RustSyncNode,
    b: Option<(u64, u64)>,
    f2: PeerBlocksFetch,
    n2: RustSyncNode,
    a: PeerBlocksAction,
)
    requires
        f.phase == (PeerBlocksPhase::Epochs { at }),
        f.wf(),
        f.blocks@[at as int].epoch > n.current_epoch,
        peer_blocks_step(f, n, PeerBlocksEvent::Boundary(b), f2, n2, a),
    ensures
        ({
            let epoch = f.blocks@[at as int].epoch;
            let told = match b {
                Some(x) => Some(
                    PendingEpochTransition { epoch, timestamp_ms: x.0, boundary_block: x.1 },
                ),
                None => None,
            };
            &&& b is Some ==> n2.current_epoch == epoch
            &&& b is None ==> n2 == n
            &&& n2.epoch_base_index == n.epoch_base_index
            &&& f2.blocks == f.blocks
            &&& match a {
                PeerBlocksAction::AskBoundary { epoch: next, announce } => announce == told && next
                    > n2.current_epoch && exists|i: int|
                    at < i < f.blocks@.len() && (#[trigger] f.blocks@[i]).epoch == next,
                PeerBlocksAction::SyncBlocks { announce } => announce == told && forall|i: int|
                    at < i < f.blocks@.len() ==> (#[trigger] f.blocks@[i]).epoch
                        <= n2.current_epoch,
                _ => false,
            }
        }),
{
    law_first_later_epoch(f.blocks@, at + 1, n2.current_epoch);
}

/// The fetch ends with the number of blocks that the local executor took, or
/// fails if it took none of them.
pub proof fn law_executor_takes_blocks(
    f: PeerBlocksFetch,
    n: RustSyncNode,
    r: Option<u64>,
    f2: PeerBlocksFetch,
    n2: RustSyncNode,
    a: PeerBlocksAction,
)
    requires
        f.phase is Syncing,
        peer_blocks_step(f, n, PeerBlocksEvent::Synced(r), f2, n2, a),
    ensures
        r matches Some(synced) ==> a == (PeerBlocksAction::Done { synced }),
        r is None ==> a == PeerBlocksAction::Fail(PeerBlocksError::NotTaken),
        f2.phase is Ended,
        n2 == n,
{
}

/// An event that does not belong to where a fetch stands changes nothing.
pub proof fn law_stray_events_are_ignored(
    f: PeerBlocksFetch,
    n: RustSyncNode,
    e: PeerBlocksEvent,
    f2: PeerBlocksFetch,
    n2: RustSyncNode,
    a: PeerBlocksAction,
)
    requires
        peer_blocks_step(f, n, e, f2, n2, a),
        f.phase is Peer ==> !(e is Blocks),
        f.phase is Epochs ==> !(e is Boundary),
        f.phase is Syncing ==> !(e is Synced),
    ensures
        f2 == f,
        n2 == n,
        a is Ignore,
{
}

} // verus!
