//! Watching the executor of a node that does not vote, and starting its sync.
use crate::node::committee::{
    is_text_form, validators_from_peer, ValidatorInfo, ValidatorInfoSimple,
};
use crate::node::NodeMode;
use crate::text::{decimal, decimal_text, u64_value};
use vstd::prelude::*;
use vstd::string::*;

verus! {

/// Follows the executor: its last block and its epoch.
#[derive(Clone, Copy, Debug, PartialEq, Eq, Structural)]
pub struct SyncOnlyNode {
    pub shared_index: u64,
    pub current_epoch: u64,
}

impl SyncOnlyNode {
    /// A node at a given index and epoch.
    pub fn new(shared_index: u64, current_epoch: u64) -> (n: Self)
        ensures
            n == (SyncOnlyNode { shared_index, current_epoch }),
    {
        SyncOnlyNode { shared_index, current_epoch }
    }

    /// Notes the executor's last block; the index never goes back.
    pub fn note_last_block(&mut self, go_last: Option<u64>)
        ensures
            final(self).shared_index >= old(self).shared_index,
            *final(self) == (SyncOnlyNode {
                shared_index: match go_last {
                    Some(b) => if b > old(self).shared_index {
                        b
                    } else {
                        old(self).shared_index
                    },
                    None => old(self).shared_index,
                },
                ..*old(self)
            }),
    {
        match go_last {
            Some(b) => {
                if b > self.shared_index {
                    self.shared_index = b;
                }
            },
            None => {},
        }
    }

    /// The epoch whose boundary has to be asked for: the executor's, if it is
    /// later than the node's.
    pub fn epoch_to_fetch(&self, go_epoch: Option<u64>) -> (r: Option<u64>)
        ensures
            r == match go_epoch {
                Some(e) => if e > self.current_epoch {
                    Some(e)
                } else {
                    None
                },
                None => None,
            },
    {
        match go_epoch {
            Some(e) => {
                if e > self.current_epoch {
                    Some(e)
                } else {
                    None
                }
            },
            None => None,
        }
    }

    /// Notes whether the change to `go_epoch` was announced: only then the
    /// node is in that epoch, otherwise it is announced again.
    pub fn on_announced(&mut self, go_epoch: u64, ok: bool)
        ensures
            *final(self) == (SyncOnlyNode {
                current_epoch: if ok {
                    go_epoch
                } else {
                    old(self).current_epoch
                },
                ..*old(self)
            }),
    {
        if ok {
            self.current_epoch = go_epoch;
        }
    }
}

/// Whether the sync task has to be started: the node does not vote, and no
/// task is running.
pub fn should_start_sync(mode: NodeMode, task_running: bool) -> (b: bool)
    ensures
        b == (mode is SyncOnly && !task_running),
{
    mode == NodeMode::SyncOnly && !task_running
}

/// What a peer knows of the start of an epoch.
#[derive(Clone, Debug)]
pub struct PeerBoundary {
    pub epoch: u64,
    pub timestamp_ms: u64,
    pub boundary_block: u64,
    pub validators: Vec<ValidatorInfoSimple>,
    pub error: Option<String>,
}

/// The start of an epoch, with the validators in text form.
#[derive(Clone, Debug)]
pub struct BoundaryData {
    pub epoch: u64,
    pub timestamp_ms: u64,
    pub boundary_block: u64,
    pub validators: Vec<ValidatorInfo>,
}

/// `d` holds what the peer reported.
pub open spec fn same_boundary(d: BoundaryData, p: PeerBoundary) -> bool {
    &&& d.epoch == p.epoch
    &&& d.timestamp_ms == p.timestamp_ms
    &&& d.boundary_block == p.boundary_block
    &&& d.validators@.len() == p.validators@.len()
    &&& forall|i: int|
        0 <= i < d.validators@.len() ==> is_text_form(
            #[trigger] d.validators@[i],
            p.validators@[i],
        )
}

/// A peer's report in the form of the executor's.
pub fn boundary_from_peer(p: &PeerBoundary) -> (d: BoundaryData)
    ensures
        same_boundary(d, *p),
{
    BoundaryData {
        epoch: p.epoch,
        timestamp_ms: p.timestamp_ms,
        boundary_block: p.boundary_block,
        validators: validators_from_peer(&p.validators),
    }
}

/// A peer's report can be used to start the sync: it has no error and names
/// validators.
pub fn usable_boundary(p: &PeerBoundary) -> (r: Option<BoundaryData>)
    ensures
        match r {
            Some(d) => p.error is None && p.validators@.len() > 0 && same_boundary(d, *p),
            None => p.error is Some || p.validators@.len() == 0,
        },
{
    if p.error.is_none() && p.validators.len() > 0 {
        Some(boundary_from_peer(p))
    } else {
        None
    }
}

/// What to do next to start the sync.
pub enum StartStep {
    /// Start with this.
    Use(BoundaryData),
    /// Ask the peer at a place of the list.
    AskPeer { peer: usize },
    /// There is nobody else to ask.
    Fail(SyncStartError),
}

/// Why the sync could not be started.
#[derive(Clone, Copy, Debug, PartialEq, Eq, Structural)]
pub enum SyncStartError {
    /// The executor has no answer and there are no peers.
    NoPeers,
    /// Neither the executor nor a peer has an answer.
    NoBoundary { epoch: u64 },
}

impl SyncStartError {
    /// What to tell the user; `last_error` is the last error that a peer or
    /// the executor gave.
    pub fn message(&self, last_error: &str) -> (s: String)
        ensures
            s@ == match *self {
                SyncStartError::NoPeers =>
                    "No local epoch data and no peer addresses configured for fallback"@,
                SyncStartError::NoBoundary { epoch } => "Failed to get epoch "@ + decimal_text(
                    epoch as nat,
                ) + " boundary data from Go or any peer: "@ + last_error@,
            },
    {
        match self {
            SyncStartError::NoPeers => String::from_str(
                "No local epoch data and no peer addresses configured for fallback",
            ),
            SyncStartError::NoBoundary { epoch } => {
                let mut s = String::from_str("Failed to get epoch ");
                s.append(decimal(*epoch).as_str());
                s.append(" boundary data from Go or any peer: ");
                s.append(last_error);
                s
            },
        }
    }
}

/// How far starting the sync has come.
#[derive(Clone, Copy, Debug, PartialEq, Eq, Structural)]
pub enum StartPhase {
    /// The executor is asked for the start of the epoch.
    Local,
    /// A peer is asked for it.
    Peer { peer: usize },
    /// It is known, or cannot be had.
    Ended,
}

/// Finding the start of the epoch that the sync begins with: the executor is
/// asked first, then the peers one after the other.
#[derive(Clone, Copy, Debug, PartialEq, Eq, Structural)]
pub struct SyncStart {
    pub epoch: u64,
    pub peers: usize,
    pub phase: StartPhase,
}

/// The next peer is asked, or the search has failed.
pub open spec fn asks_next(
    s: StartStep,
    phase2: StartPhase,
    epoch: u64,
    peer: int,
    peers: nat,
) -> bool {
    if peer < peers {
        phase2 == (StartPhase::Peer { peer: peer as usize }) && s == (StartStep::AskPeer {
            peer: peer as usize,
        })
    } else {
        phase2 is Ended && s == StartStep::Fail(SyncStartError::NoBoundary { epoch })
    }
}

impl SyncStart {
    /// Begins the search.
    pub fn new(epoch: u64, peers: usize) -> (s: SyncStart)
        ensures
            s == (SyncStart { epoch, peers, phase: StartPhase::Local }),
    {
        SyncStart { epoch, peers, phase: StartPhase::Local }
    }

    /// The executor has answered, or not.
    pub fn on_local(&mut self, local: Option<BoundaryData>) -> (s: StartStep)
        requires
            old(self).phase is Local,
        ensures
            final(self).epoch == old(self).epoch,
            final(self).peers == old(self).peers,
            match local {
                Some(d) => s == StartStep::Use(d) && final(self).phase is Ended,
                None => if old(self).peers == 0 {
                    s == StartStep::Fail(SyncStartError::NoPeers) && final(self).phase is Ended
                } else {
                    asks_next(s, final(self).phase, old(self).epoch, 0, old(self).peers as nat)
                },
            },
    {
        match local {
            Some(d) => {
                self.phase = StartPhase::Ended;
                StartStep::Use(d)
            },
            None => {
                if self.peers == 0 {
                    self.phase = StartPhase::Ended;
                    StartStep::Fail(SyncStartError::NoPeers)
                } else {
                    self.phase = StartPhase::Peer { peer: 0 };
                    StartStep::AskPeer { peer: 0 }
                }
            },
        }
    }

    /// The peer whose turn it was has answered, or not. A report with an error
    /// or without validators does not help.
    pub fn on_peer(&mut self, reply: Option<PeerBoundary>) -> (s: StartStep)
        requires
            old(self).phase matches StartPhase::Peer { peer } && peer < old(self).peers,
        ensures
            final(self).epoch == old(self).epoch,
            final(self).peers == old(self).peers,
            if is_usable(reply) {
                final(self).phase is Ended && (s matches StartStep::Use(d) && same_boundary(
                    d,
                    reply->Some_0,
                ))
            } else {
                asks_next(
                    s,
                    final(self).phase,
                    old(self).epoch,
                    old(self).phase->peer + 1,
                    old(self).peers as nat,
                )
            },
    {
        let peer: usize = match self.phase {
            StartPhase::Peer { peer } => peer,
            _ => 0,
        };
        match reply {
            Some(p) => match usable_boundary(&p) {
                Some(d) => {
                    self.phase = StartPhase::Ended;
                    return StartStep::Use(d);
                },
                None => {},
            },
            None => {},
        }
        if peer + 1 < self.peers {
            self.phase = StartPhase::Peer { peer: peer + 1 };
            StartStep::AskPeer { peer: peer + 1 }
        } else {
            self.phase = StartPhase::Ended;
            StartStep::Fail(SyncStartError::NoBoundary { epoch: self.epoch })
        }
    }
}

/// The peer answered, without an error, and named validators.
pub open spec fn is_usable(p: Option<PeerBoundary>) -> bool {
    p matches Some(b) && b.error is None && b.validators@.len() > 0
}

/// What a peer reports of an epoch is taken over as it is: its epoch, its start
/// time, its boundary block, and each validator with its name, its address, its
/// stake and its keys.
pub proof fn law_peer_report_is_taken_over(d: BoundaryData, p: PeerBoundary, i: int)
    requires
        same_boundary(d, p),
        0 <= i < p.validators@.len(),
    ensures
        d.epoch == p.epoch,
        d.timestamp_ms == p.timestamp_ms,
        d.boundary_block == p.boundary_block,
        d.validators@.len() == p.validators@.len(),
        d.validators@[i].name@ == p.validators@[i].name@,
        d.validators@[i].address@ == p.validators@[i].address@,
        u64_value(d.validators@[i].stake@) == Some(p.validators@[i].stake),
        d.validators@[i].authority_key@ == p.validators@[i].authority_key@,
        d.validators@[i].protocol_key@ == p.validators@[i].protocol_key@,
        d.validators@[i].network_key@ == p.validators@[i].network_key@,
{
    assert(is_text_form(d.validators@[i], p.validators@[i]));
    crate::node::committee::law_peer_stake_roundtrip(p.validators@[i].stake);
}

/// The peers are asked for the start one after the other; the search fails only
/// after the last one, and says for which epoch. A report counts only if it has
/// no error and names validators.
pub proof fn law_start_is_searched_for(
    s: StartStep,
    phase2: StartPhase,
    epoch: u64,
    peer: int,
    peers: nat,
    b: PeerBoundary,
)
    requires
        asks_next(s, phase2, epoch, peer, peers),
        0 <= peer,
        peers <= usize::MAX,
    ensures
        peer < peers ==> s == (StartStep::AskPeer { peer: peer as usize }) && phase2 == (
        StartPhase::Peer { peer: peer as usize }),
        peer >= peers ==> s == StartStep::Fail(SyncStartError::NoBoundary { epoch }) && phase2
            is Ended,
        !is_usable(None),
        is_usable(Some(b)) <==> b.error is None && b.validators@.len() > 0,
{
}

} // verus!
