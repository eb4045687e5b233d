//! One monitor for all modes: it polls the executor and the peers, and starts
//! an epoch change when the network is ahead of the node.
use crate::crypto::{base64_bytes, base64_encode, base64_text, law_base64_roundtrip};
use crate::node::committee::{
    committee_order, has_member, hex_marked, lemma_order_permutes, Candidate, Committee,
    ValidatorInfo,
};
use crate::node::committee_source::is_committee_of_validators;
use crate::node::sync::{boundary_from_peer, same_boundary, BoundaryData, PeerBoundary};
use crate::node::NodeMode;
use crate::text::{decimal, decimal_text, same_text};
use vstd::prelude::*;
use vstd::string::*;
use vstd::utf8::encode_utf8;

verus! {

/// How often the monitor polls, in seconds, unless configured otherwise.
pub const DEFAULT_POLL_INTERVAL_SECS: u64 = 10;

/// What the monitor knows of its own node.
#[derive(Clone, Debug)]
pub struct EpochMonitor {
    /// The node's protocol key in base64; empty if it could not be loaded.
    pub own_key: String,
    /// The name that the node has among the validators.
    pub hostname: String,
    pub poll_interval_secs: u64,
}

/// The node is among the validators: by its protocol key or, without one, by
/// its name.
pub open spec fn is_validator(
    own_key: Seq<char>,
    hostname: Seq<char>,
    validators: Seq<ValidatorInfo>,
) -> bool {
    exists|i: int|
        0 <= i < validators.len() && if own_key.len() > 0 {
            (#[trigger] validators[i]).protocol_key@ == own_key
        } else {
            validators[i].name@ == hostname
        }
}

/// An epoch change that the monitor starts.
#[derive(Clone, Copy, Debug, PartialEq, Eq, Structural)]
pub struct TransitionRequest {
    pub new_epoch: u64,
    pub timestamp_ms: u64,
    /// Last block of the epoch before: all nodes take the same one.
    pub synced_global_exec_index: u64,
    pub target_mode: NodeMode,
}

impl EpochMonitor {
    /// The text of the node's key is read back as `key`.
    pub open spec fn holds_key(&self, key: Seq<u8>) -> bool {
        base64_bytes(encode_utf8(self.own_key@)) == Some(key)
    }

    /// A monitor for node `node_id` with the text of its key.
    pub fn with_key_text(node_id: u64, own_key: String, poll_interval_secs: Option<u64>) -> (m:
        Self)
        ensures
            m.own_key == own_key,
            m.hostname@ == "node-"@ + decimal_text(node_id as nat),
            m.poll_interval_secs == match poll_interval_secs {
                Some(s) => s,
                None => DEFAULT_POLL_INTERVAL_SECS,
            },
    {
        let mut hostname = String::from_str("node-");
        hostname.append(decimal(node_id).as_str());
        EpochMonitor {
            own_key,
            hostname,
            poll_interval_secs: match poll_interval_secs {
                Some(s) => s,
                None => DEFAULT_POLL_INTERVAL_SECS,
            },
        }
    }

    /// A monitor for node `node_id` with its public key, if that could be
    /// loaded.
    pub fn new(node_id: u64, public_key: Option<&[u8]>, poll_interval_secs: Option<u64>) -> (m:
        Self)
        ensures
            m.own_key@ == match public_key {
                Some(k) => base64_text(k@),
                None => ""@,
            },
            public_key matches Some(k) ==> m.holds_key(k@),
            m.hostname@ == "node-"@ + decimal_text(node_id as nat),
            m.poll_interval_secs == match poll_interval_secs {
                Some(s) => s,
                None => DEFAULT_POLL_INTERVAL_SECS,
            },
    {
        proof {
            if let Some(k) = public_key {
                law_base64_roundtrip(k@);
            }
        }
        let own_key = match public_key {
            Some(k) => base64_encode(k),
            None => String::from_str(""),
        };
        EpochMonitor::with_key_text(node_id, own_key, poll_interval_secs)
    }

    /// Whether the node is among the validators, see [`is_validator`].
    pub fn is_in_committee(&self, validators: &Vec<ValidatorInfo>) -> (b: bool)
        ensures
            b == is_validator(self.own_key@, self.hostname@, validators@),
    {
        let by_key: bool = !self.own_key.as_str().is_empty();
        let mut i: usize = 0;
        while i < validators.len()
            invariant
                i <= validators@.len(),
                by_key == (self.own_key@.len() > 0),
                forall|j: int|
                    0 <= j < i ==> !(if self.own_key@.len() > 0 {
                        (#[trigger] validators@[j]).protocol_key@ == self.own_key@
                    } else {
                        validators@[j].name@ == self.hostname@
                    }),
            decreases validators.len() - i,
        {
            let same: bool = if by_key {
                same_text(validators[i].protocol_key.as_str(), self.own_key.as_str())
            } else {
                same_text(validators[i].name.as_str(), self.hostname.as_str())
            };
            if same {
                assert(validators@[i as int].protocol_key@ == validators@[i as int].protocol_key@);
                return true;
            }
            i += 1;
        }
        false
    }

    /// The epoch change that follows from the start of an epoch: to that
    /// epoch, from its boundary block, as a validator if the node is one.
    pub fn plan_transition(&self, data: &BoundaryData) -> (t: TransitionRequest)
        ensures
            t.new_epoch == data.epoch,
            t.timestamp_ms == data.timestamp_ms,
            t.synced_global_exec_index == data.boundary_block,
            t.target_mode == if is_validator(self.own_key@, self.hostname@, data.validators@) {
                NodeMode::Validator
            } else {
                NodeMode::SyncOnly
            },
    {
        let target_mode = if self.is_in_committee(&data.validators) {
            NodeMode::Validator
        } else {
            NodeMode::SyncOnly
        };
        TransitionRequest {
            new_epoch: data.epoch,
            timestamp_ms: data.timestamp_ms,
            synced_global_exec_index: data.boundary_block,
            target_mode,
        }
    }
}

/// How far a poll has come.
#[derive(Clone, Copy, Debug, PartialEq, Eq, Structural)]
pub enum PollPhase {
    /// The executor is asked for its epoch.
    Local,
    /// The peers are asked for theirs.
    Peers { local: u64 },
    /// The node is asked for its epoch.
    Node { network: u64 },
    /// The executor is asked for the start of the network's epoch.
    Boundary { epoch: u64 },
    /// A peer is asked for it.
    Peer { epoch: u64, peer: usize },
    /// The poll has ended.
    Ended,
}

/// What has to be done next.
#[derive(Clone, Copy, Debug, PartialEq, Eq, Structural)]
pub enum PollAction {
    AskEpoch,
    AskPeerEpochs,
    AskNode,
    AskBoundary { epoch: u64 },
    AskPeerBoundary { epoch: u64, peer: usize },
    /// Start an epoch change.
    Transition(TransitionRequest),
    /// Wait for the next poll: the monitor itself never ends.
    Wait,
    /// The event does not belong to the phase: nothing was done.
    Ignore,
}

/// What came of an action.
pub enum PollEvent {
    Epoch(Option<u64>),
    PeerEpoch(Option<u64>),
    NodeEpoch(Option<u64>),
    Boundary(Option<BoundaryData>),
    PeerBoundary(Option<PeerBoundary>),
}

/// A poll of the monitor.
#[derive(Clone, Copy, Debug, PartialEq, Eq, Structural)]
pub struct EpochPoll {
    pub phase: PollPhase,
    /// How many peers can be asked.
    pub peers: usize,
}

/// The next peer is asked, or the poll ends.
pub open spec fn asks_peer(p2: PollPhase, a: PollAction, epoch: u64, peer: int, peers: nat) -> bool {
    if peer < peers {
        p2 == (PollPhase::Peer { epoch, peer: peer as usize }) && a == (
        PollAction::AskPeerBoundary { epoch, peer: peer as usize })
    } else {
        p2 is Ended && a is Wait
    }
}

/// The change that follows from the start of an epoch is begun.
pub open spec fn begins_transition(
    m: EpochMonitor,
    validators: Seq<ValidatorInfo>,
    epoch: u64,
    timestamp_ms: u64,
    boundary_block: u64,
    p2: PollPhase,
    a: PollAction,
) -> bool {
    p2 is Ended && a == PollAction::Transition(
        TransitionRequest {
            new_epoch: epoch,
            timestamp_ms,
            synced_global_exec_index: boundary_block,
            target_mode: if is_validator(m.own_key@, m.hostname@, validators) {
                NodeMode::Validator
            } else {
                NodeMode::SyncOnly
            },
        },
    )
}

/// A step of a poll: `p2` is the phase after the event, `a` is what to do.
pub open spec fn poll_step(
    m: EpochMonitor,
    peers: nat,
    p: PollPhase,
    e: PollEvent,
    p2: PollPhase,
    a: PollAction,
) -> bool {
    match (p, e) {
        (PollPhase::Local, PollEvent::Epoch(l)) => match l {
            Some(local) => if peers > 0 {
                p2 == (PollPhase::Peers { local }) && a is AskPeerEpochs
            } else {
                p2 == (PollPhase::Node { network: local }) && a is AskNode
            },
            None => p2 is Ended && a is Wait,
        },
        (PollPhase::Peers { local }, PollEvent::PeerEpoch(x)) => p2 == (PollPhase::Node {
            network: match x {
                Some(e) => e,
                None => local,
            },
        }) && a is AskNode,
        (PollPhase::Node { network }, PollEvent::NodeEpoch(x)) => if x is Some && network
            > x->Some_0 {
            p2 == (PollPhase::Boundary { epoch: network }) && a == (PollAction::AskBoundary {
                epoch: network,
            })
        } else {
            p2 is Ended && a is Wait
        },
        (PollPhase::Boundary { epoch }, PollEvent::Boundary(x)) => match x {
            Some(d) => begins_transition(
                m,
                d.validators@,
                d.epoch,
                d.timestamp_ms,
                d.boundary_block,
                p2,
                a,
            ),
            None => asks_peer(p2, a, epoch, 0, peers),
        },
        (PollPhase::Peer { epoch, peer }, PollEvent::PeerBoundary(x)) => match x {
            Some(b) => exists|d: BoundaryData|
                #![trigger same_boundary(d, b)]
                same_boundary(d, b) && begins_transition(
                    m,
                    d.validators@,
                    b.epoch,
                    b.timestamp_ms,
                    b.boundary_block,
                    p2,
                    a,
                ),
            None => asks_peer(p2, a, epoch, peer + 1, peers),
        },
        _ => p2 == p && a is Ignore,
    }
}

impl EpochPoll {
    /// A poll that has not begun.
    pub fn new(peers: usize) -> (p: EpochPoll)
        ensures
            p == (EpochPoll { phase: PollPhase::Local, peers }),
    {
        EpochPoll { phase: PollPhase::Local, peers }
    }

    /// What has to be done first.
    pub fn first_action(&self) -> (a: PollAction)
        ensures
            a is AskEpoch,
    {
        PollAction::AskEpoch
    }

    fn ask_peer(&mut self, epoch: u64, peer: usize) -> (a: PollAction)
        ensures
            final(self).peers == old(self).peers,
            asks_peer(final(self).phase, a, epoch, peer as int, old(self).peers as nat),
    {
        if peer < self.peers {
            self.phase = PollPhase::Peer { epoch, peer };
            PollAction::AskPeerBoundary { epoch, peer }
        } else {
            self.phase = PollPhase::Ended;
            PollAction::Wait
        }
    }

    /// Takes an event and gives what to do next, see [`poll_step`].
    pub fn on_event(&mut self, monitor: &EpochMonitor, event: PollEvent) -> (a: PollAction)
        ensures
            final(self).peers == old(self).peers,
            poll_step(
                *monitor,
                old(self).peers as nat,
                old(self).phase,
                event,
                final(self).phase,
                a,
            ),
    {
        match (self.phase, event) {
            (PollPhase::Local, PollEvent::Epoch(l)) => match l {
                Some(local) => {
                    if self.peers > 0 {
                        self.phase = PollPhase::Peers { local };
                        PollAction::AskPeerEpochs
                    } else {
                        self.phase = PollPhase::Node { network: local };
                        PollAction::AskNode
                    }
                },
                None => {
                    self.phase = PollPhase::Ended;
                    PollAction::Wait
                },
            },
            (PollPhase::Peers { local }, PollEvent::PeerEpoch(x)) => {
                let network: u64 = match x {
                    Some(e) => e,
                    None => local,
                };
                self.phase = PollPhase::Node { network };
                PollAction::AskNode
            },
            (PollPhase::Node { network }, PollEvent::NodeEpoch(x)) => {
                let behind: bool = match x {
                    Some(n) => network > n,
                    None => false,
                };
                if behind {
                    self.phase = PollPhase::Boundary { epoch: network };
                    PollAction::AskBoundary { epoch: network }
                } else {
                    self.phase = PollPhase::Ended;
                    PollAction::Wait
                }
            },
            (PollPhase::Boundary { epoch }, PollEvent::Boundary(x)) => match x {
                Some(d) => {
                    self.phase = PollPhase::Ended;
                    PollAction::Transition(monitor.plan_transition(&d))
                },
                None => self.ask_peer(epoch, 0),
            },
            (PollPhase::Peer { epoch, peer }, PollEvent::PeerBoundary(x)) => match x {
                Some(b) => {
                    let d = boundary_from_peer(&b);
                    self.phase = PollPhase::Ended;
                    assert(same_boundary(d, b));
                    PollAction::Transition(monitor.plan_transition(&d))
                },
                None => {
                    let next: usize = if peer < self.peers {
                        peer + 1
                    } else {
                        self.peers
                    };
                    self.ask_peer(epoch, next)
                },
            },
            _ => PollAction::Ignore,
        }
    }
}

/// The monitor asks for the start of an epoch only if it is later than the
/// node's.
pub proof fn law_monitor_moves_forward(
    m: EpochMonitor,
    peers: nat,
    p: PollPhase,
    node_epoch: Option<u64>,
    p2: PollPhase,
    a: PollAction,
)
    requires
        p is Node,
        poll_step(m, peers, p, PollEvent::NodeEpoch(node_epoch), p2, a),
    ensures
        a matches PollAction::AskBoundary { epoch } ==> node_epoch is Some && epoch
            > node_epoch->Some_0,
        a is AskBoundary || a is Wait,
{
}

/// How many steps a poll takes at most from a phase on.
pub open spec fn steps_left(peers: nat, p: PollPhase) -> nat {
    match p {
        PollPhase::Local => peers + 5,
        PollPhase::Peers { .. } => peers + 4,
        PollPhase::Node { .. } => peers + 3,
        PollPhase::Boundary { .. } => peers + 2,
        PollPhase::Peer { peer, .. } => if peer < peers {
            (1 + peers - peer) as nat
        } else {
            1
        },
        PollPhase::Ended => 0,
    }
}

/// A poll ends, whatever the executor and the peers answer: each step brings
/// it closer to its end.
pub proof fn law_poll_ends(
    m: EpochMonitor,
    peers: nat,
    p: PollPhase,
    e: PollEvent,
    p2: PollPhase,
    a: PollAction,
)
    requires
        poll_step(m, peers, p, e, p2, a),
        peers <= usize::MAX,
        !(a is Ignore),
    ensures
        steps_left(peers, p2) < steps_left(peers, p),
        p2 is Ended <==> a is Wait || a is Transition,
{
}

/// The monitor and the committee agree: a node that the monitor finds among
/// the validators by its key is a member of the committee that they form. A
/// key whose text happens to begin like hexadecimal is left out: it is not
/// read as base64.
pub proof fn law_found_by_key_is_member(
    m: EpochMonitor,
    key: Seq<u8>,
    validators: Seq<ValidatorInfo>,
    candidates: Seq<Candidate>,
    c: Committee,
)
    requires
        m.holds_key(key),
        m.own_key@.len() > 0,
        !hex_marked(encode_utf8(m.own_key@)),
        validators == candidates.map_values(|x: Candidate| x.info),
        is_committee_of_validators(c, candidates),
        is_validator(m.own_key@, m.hostname@, validators),
    ensures
        has_member(c, key),
{
    let i = choose|i: int|
        0 <= i < validators.len() && (#[trigger] validators[i]).protocol_key@ == m.own_key@;
    let x = candidates[i];
    assert(x.info == validators[i]);
    lemma_order_permutes(candidates, x);
    let j = committee_order(candidates).index_of(x);
    assert(committee_order(candidates)[j] == x);
    assert(c.authorities@[j].protocol_key@ == key);
}

/// The network's epoch counts, not the executor's: where the peers answer, the
/// start of their epoch is asked for whenever it is later than the node's, by
/// however many epochs, and the poll waits only if it is not. The executor's own
/// epoch takes the place of an answer that does not come.
pub proof fn law_network_epoch_decides(
    m: EpochMonitor,
    peers: nat,
    local: u64,
    answer: Option<u64>,
    own: u64,
    p1: PollPhase,
    a1: PollAction,
    p2: PollPhase,
    a2: PollAction,
    p3: PollPhase,
    a3: PollAction,
)
    requires
        peers > 0,
        poll_step(m, peers, PollPhase::Local, PollEvent::Epoch(Some(local)), p1, a1),
        poll_step(m, peers, p1, PollEvent::PeerEpoch(answer), p2, a2),
        poll_step(m, peers, p2, PollEvent::NodeEpoch(Some(own)), p3, a3),
    ensures
        a1 is AskPeerEpochs,
        a2 is AskNode,
        answer matches Some(e) ==> (e > own ==> a3 == (PollAction::AskBoundary { epoch: e })) && (
        e <= own ==> a3 is Wait && p3 is Ended),
        answer is None ==> (local > own ==> a3 == (PollAction::AskBoundary { epoch: local })) && (
        local <= own ==> a3 is Wait && p3 is Ended),
{
}

/// A node without peers goes by its executor. An executor or a node that does
/// not answer ends the poll.
pub proof fn law_executor_decides_alone(
    m: EpochMonitor,
    local: u64,
    own: u64,
    p1: PollPhase,
    a1: PollAction,
    p2: PollPhase,
    a2: PollAction,
)
    requires
        poll_step(m, 0, PollPhase::Local, PollEvent::Epoch(Some(local)), p1, a1),
        poll_step(m, 0, p1, PollEvent::NodeEpoch(Some(own)), p2, a2),
    ensures
        a1 is AskNode,
        local > own ==> a2 == (PollAction::AskBoundary { epoch: local }),
        local <= own ==> a2 is Wait && p2 is Ended,
        forall|peers: nat, q: PollPhase, b: PollAction|
            poll_step(m, peers, PollPhase::Local, PollEvent::Epoch(None), q, b) ==> q is Ended && b
                is Wait,
        forall|peers: nat, q: PollPhase, b: PollAction|
            #[trigger] poll_step(m, peers, p1, PollEvent::NodeEpoch(None), q, b) ==> q is Ended && b
                is Wait,
{
}

/// The start of an epoch that the executor knows leads to the change to that
/// epoch, from its boundary block and with its start time.
pub proof fn law_known_start_leads_to_change(
    m: EpochMonitor,
    peers: nat,
    asked: u64,
    d: BoundaryData,
    p2: PollPhase,
    a: PollAction,
)
    requires
        poll_step(
            m,
            peers,
            PollPhase::Boundary { epoch: asked },
            PollEvent::Boundary(Some(d)),
            p2,
            a,
        ),
    ensures
        p2 is Ended,
        a matches PollAction::Transition(t) && {
            &&& t.new_epoch == d.epoch
            &&& t.timestamp_ms == d.timestamp_ms
            &&& t.synced_global_exec_index == d.boundary_block
            &&& t.target_mode is Validator || t.target_mode is SyncOnly
            &&& m.own_key@.len() > 0 ==> (t.target_mode is Validator <==> exists|i: int|
                0 <= i < d.validators@.len() && (#[trigger] d.validators@[i]).protocol_key@
                    == m.own_key@)
            &&& m.own_key@.len() == 0 ==> (t.target_mode is Validator <==> exists|i: int|
                0 <= i < d.validators@.len() && (#[trigger] d.validators@[i]).name@ == m.hostname@)
        },
{
    if m.own_key@.len() == 0 && is_validator(m.own_key@, m.hostname@, d.validators@) {
        let i = choose|i: int|
            0 <= i < d.validators@.len() && if m.own_key@.len() > 0 {
                (#[trigger] d.validators@[i]).protocol_key@ == m.own_key@
            } else {
                d.validators@[i].name@ == m.hostname@
            };
        assert(d.validators@[i].name@ == m.hostname@);
    }
    if m.own_key@.len() == 0 && exists|i: int|
        0 <= i < d.validators@.len() && (#[trigger] d.validators@[i]).name@ == m.hostname@ {
        let i = choose|i: int|
            0 <= i < d.validators@.len() && (#[trigger] d.validators@[i]).name@ == m.hostname@;
        assert(d.validators@[i].protocol_key@ == d.validators@[i].protocol_key@);
        assert(is_validator(m.own_key@, m.hostname@, d.validators@));
    }
}

/// The start of an epoch that a peer knows leads to the same change as if the
/// executor knew it.
pub proof fn law_peer_start_leads_to_change(
    m: EpochMonitor,
    peers: nat,
    asked: u64,
    peer: usize,
    b: PeerBoundary,
    p2: PollPhase,
    a: PollAction,
)
    requires
        poll_step(
            m,
            peers,
            PollPhase::Peer { epoch: asked, peer },
            PollEvent::PeerBoundary(Some(b)),
            p2,
            a,
        ),
    ensures
        p2 is Ended,
        a matches PollAction::Transition(t) && {
            &&& t.new_epoch == b.epoch
            &&& t.timestamp_ms == b.timestamp_ms
            &&& t.synced_global_exec_index == b.boundary_block
            &&& m.own_key@.len() > 0 ==> (t.target_mode is Validator <==> exists|i: int|
                0 <= i < b.validators@.len() && (#[trigger] b.validators@[i]).protocol_key@
                    == m.own_key@)
        },
{
    let d = choose|d: BoundaryData|
        #![trigger same_boundary(d, b)]
        same_boundary(d, b) && begins_transition(
            m,
            d.validators@,
            b.epoch,
            b.timestamp_ms,
            b.boundary_block,
            p2,
            a,
        );
    assert(same_boundary(d, b));
    if m.own_key@.len() > 0 {
        if is_validator(m.own_key@, m.hostname@, d.validators@) {
            let i = choose|i: int|
                0 <= i < d.validators@.len() && (#[trigger] d.validators@[i]).protocol_key@
                    == m.own_key@;
            assert(b.validators@[i].protocol_key@ == m.own_key@);
        }
        if exists|i: int|
            0 <= i < b.validators@.len() && (#[trigger] b.validators@[i]).protocol_key@
                == m.own_key@ {
            let i = choose|i: int|
                0 <= i < b.validators@.len() && (#[trigger] b.validators@[i]).protocol_key@
                    == m.own_key@;
            assert(d.validators@[i].protocol_key@ == m.own_key@);
        }
    }
}

/// Where the executor does not know the start of an epoch, each peer is asked
/// for the start of that same epoch in turn, from the first on, until one knows
/// it; after the last one the poll waits.
pub proof fn law_peers_asked_in_turn(
    m: EpochMonitor,
    peers: nat,
    epoch: u64,
    peer: usize,
    p2: PollPhase,
    a: PollAction,
    q2: PollPhase,
    b: PollAction,
)
    requires
        peers <= usize::MAX,
        peer < peers,
        poll_step(m, peers, PollPhase::Boundary { epoch }, PollEvent::Boundary(None), p2, a),
        poll_step(m, peers, PollPhase::Peer { epoch, peer }, PollEvent::PeerBoundary(None), q2, b),
    ensures
        a == (PollAction::AskPeerBoundary { epoch, peer: 0 }),
        p2 == (PollPhase::Peer { epoch, peer: 0 }),
        peer + 1 < peers ==> b == (PollAction::AskPeerBoundary { epoch, peer: (peer + 1) as usize })
            && q2 == (PollPhase::Peer { epoch, peer: (peer + 1) as usize }),
        peer + 1 == peers ==> b is Wait && q2 is Ended,
{
}

/// An event that does not belong to where a poll stands changes nothing.
pub proof fn law_stray_events_are_ignored(
    m: EpochMonitor,
    peers: nat,
    p: PollPhase,
    e: PollEvent,
    p2: PollPhase,
    a: PollAction,
)
    requires
        poll_step(m, peers, p, e, p2, a),
        p is Local ==> !(e is Epoch),
        p is Peers ==> !(e is PeerEpoch),
        p is Node ==> !(e is NodeEpoch),
        p is Boundary ==> !(e is Boundary),
        p is Peer ==> !(e is PeerBoundary),
    ensures
        p2 == p,
        a is Ignore,
{
}

} // verus!
