//! The start of a node: what the executor, the peers and the disk are asked,
//! in which order, and what follows from the answers.
use crate::node::committee::{
    build_committee_from_validator_list, committee_order, has_member, validator_member,
    AuthorityValue, Candidate, Committee, ValidatorFault, ValidatorInfo,
};
use crate::node::committee_source::{forms_committee, is_committee_of_validators};
use crate::node::consensus_node::{
    cleanup_at_start, effective_tip, initial_next_expected, needs_recovery_check, peer_tip,
    single_node_validators, EpochCleanup, StartError, TIP_TOLERANCE,
};
use crate::node::sync::BoundaryData;
use crate::node::NodeMode;
use vstd::prelude::*;

verus! {

/// Settings that a start goes by.
#[derive(Clone, Copy, Debug, PartialEq, Eq, Structural)]
pub struct StartSettings {
    /// Data may be read from the executor.
    pub read_enabled: bool,
    /// There are peers to ask.
    pub has_peers: bool,
    /// How many epochs are kept on disk; 0 keeps all.
    pub epochs_to_keep: usize,
    /// Only the first node takes part.
    pub single_node: bool,
}

/// How far a start has come.
#[derive(Clone, Copy, Debug, PartialEq, Eq, Structural)]
pub enum NodeStartPhase {
    /// The executor is asked for its last block.
    LastBlock,
    /// What was kept of it on disk is read.
    KeptBlock,
    /// The peers are asked how far they are.
    Peers { latest: u64 },
    /// The executor is asked for its epoch.
    Epoch { latest: u64 },
    /// The epochs on disk are listed.
    Disk { epoch: u64 },
    /// Outdated epochs are cleared.
    Cleaning { epoch: u64 },
    /// The executor is asked for the start of the network's epoch.
    Boundary { epoch: u64 },
    /// The executor does not know it: it is asked for its own epoch.
    OwnEpoch,
    /// The executor is asked for the start of its own epoch.
    OwnBoundary,
    /// The executor is asked for the validators of the first block.
    Genesis,
    /// The validators' addresses are judged, and the committee is built.
    Committee { epoch: u64, timestamp_ms: u64, base: u64 },
    /// The executor is asked for its last block once more.
    Tip { epoch: u64, timestamp_ms: u64, base: u64 },
    Ended,
}

/// What has to be done next.
pub enum NodeStartAction {
    AskLastBlock,
    ReadKeptBlock,
    AskPeers,
    AskEpoch,
    /// Find the latest epoch on disk.
    ListEpochs,
    Clean(EpochCleanup),
    AskBoundary { epoch: u64 },
    /// Ask for the validators of the first block.
    AskGenesis,
    /// Say of each of the validators whether its address is a network address.
    CheckAddresses,
    /// The node can start like this.
    Start(StartPlan),
    Fail(NodeStartError),
    /// The event does not belong to the phase: nothing was done.
    Ignore,
}

/// Why a node cannot start.
#[derive(Clone, Copy, Debug, PartialEq, Eq, Structural)]
pub enum NodeStartError {
    /// Neither the peers nor the executor say which epoch it is.
    NoEpoch,
    /// There are no validators.
    Validators(StartError),
    /// The validators make no committee.
    Committee,
}

/// What a node starts with.
#[derive(Clone, Copy, Debug, PartialEq, Eq, Structural)]
pub struct StartPlan {
    pub epoch: u64,
    pub timestamp_ms: u64,
    /// Last block of the epoch before: commits are counted from it.
    pub epoch_base: u64,
    pub last_global_exec_index: u64,
    /// The index that the executor expects first.
    pub next_expected: u64,
    /// Missing blocks have to be looked for.
    pub recovery_check: bool,
    pub mode: NodeMode,
    /// Place of the node in the committee, or 0.
    pub own_index: usize,
}

/// How far the best peer is.
#[derive(Clone, Copy, Debug, PartialEq, Eq, Structural)]
pub struct PeerReport {
    pub epoch: u64,
    pub last_block: u64,
    /// Its blocks can be read from it, and not only through the node's own
    /// executor.
    pub readable: bool,
}

/// What came of an action.
pub enum NodeStartEvent {
    LastBlock(Option<u64>),
    /// The block that was kept on disk.
    KeptBlock(Option<u64>),
    /// The report of the best peer.
    Peers(Option<PeerReport>),
    Epoch(Option<u64>),
    /// The latest epoch on disk.
    DiskEpoch(u64),
    Cleaned,
    Boundary(Option<BoundaryData>),
    Genesis(Option<Vec<ValidatorInfo>>),
    /// The verdicts on the validators' addresses, in the order of the
    /// validators. An address without a verdict is none.
    Addresses(Vec<bool>),
}

/// A start that is under way.
pub struct NodeStart {
    pub settings: StartSettings,
    pub protocol_key: Vec<u8>,
    /// The last block of a peer that the node is held against, or 0.
    pub peer_block: u64,
    /// The validators of the committee that is to be built.
    pub validators: Vec<ValidatorInfo>,
    pub committee: Option<Committee>,
    /// Place in the committee, and whether the committee has the node.
    pub own_index: usize,
    pub in_committee: bool,
    pub phase: NodeStartPhase,
}

/// The validators that the committee is built of.
pub open spec fn used_validators(single_node: bool, v: Seq<ValidatorInfo>) -> Seq<ValidatorInfo> {
    if single_node {
        v.filter(|i: ValidatorInfo| i.name@ == "node-0"@)
    } else {
        v
    }
}

/// The validators with the verdicts on their addresses.
pub open spec fn with_verdicts(v: Seq<ValidatorInfo>, ok: Seq<bool>) -> Seq<Candidate> {
    Seq::new(
        v.len(),
        |i: int| Candidate { info: v[i], address_ok: i < ok.len() && ok[i] },
    )
}

/// The committee of a boundary is to be built, or there are no validators.
pub open spec fn builds(
    s: NodeStart,
    d: BoundaryData,
    s2: NodeStart,
    a: NodeStartAction,
) -> bool {
    if d.validators@.len() == 0 {
        s2 == (NodeStart { phase: NodeStartPhase::Ended, ..s }) && a == NodeStartAction::Fail(
            NodeStartError::Validators(StartError::EmptyValidators),
        )
    } else {
        &&& s2 == (NodeStart {
            phase: NodeStartPhase::Committee {
                epoch: d.epoch,
                timestamp_ms: d.timestamp_ms,
                base: d.boundary_block,
            },
            validators: s2.validators,
            ..s
        })
        &&& s2.validators@ == used_validators(s.settings.single_node, d.validators@)
        &&& a is CheckAddresses
    }
}

/// The committee is built of the validators and the verdicts on their
/// addresses, and the place of the node in it is known.
pub open spec fn joins(
    s: NodeStart,
    epoch: u64,
    verdicts: Seq<bool>,
    s2: NodeStart,
) -> bool {
    &&& s2 == (NodeStart {
        phase: s2.phase,
        validators: s2.validators,
        committee: s2.committee,
        own_index: s2.own_index,
        in_committee: s2.in_committee,
        ..s
    })
    &&& s2.validators@.len() == 0
    &&& s2.committee matches Some(c) && {
        &&& c.epoch == epoch
        &&& is_committee_of_validators(c, with_verdicts(s.validators@, verdicts))
        &&& s2.in_committee == has_member(c, s.protocol_key@)
        &&& s2.in_committee ==> s2.own_index < c.authorities@.len()
            && c.authorities@[s2.own_index as int].protocol_key@ == s.protocol_key@ && forall|
            j: int,
        |
            0 <= j < s2.own_index ==> (#[trigger] c.authorities@[j]).protocol_key@
                != s.protocol_key@
        &&& !s2.in_committee ==> s2.own_index == 0
    }
}

/// The network's epoch is known: the epochs on disk are listed. The node is
/// held against a last block that comes from another source than its own
/// executor.
pub open spec fn knows_network(
    s: NodeStart,
    network: Option<PeerReport>,
    s2: NodeStart,
    a: NodeStartAction,
) -> bool {
    match network {
        Some(n) => s2 == (NodeStart {
            phase: NodeStartPhase::Disk { epoch: n.epoch },
            peer_block: if s.settings.read_enabled && n.readable {
                n.last_block
            } else {
                0
            },
            ..s
        }) && a is ListEpochs,
        None => s2 == (NodeStart { phase: NodeStartPhase::Ended, ..s }) && a
            == NodeStartAction::Fail(NodeStartError::NoEpoch),
    }
}

/// The last block is known: the peers are asked, or the executor.
pub open spec fn knows_block(
    settings: StartSettings,
    latest: u64,
    phase2: NodeStartPhase,
    a: NodeStartAction,
) -> bool {
    if settings.has_peers {
        phase2 == (NodeStartPhase::Peers { latest }) && a is AskPeers
    } else {
        phase2 == (NodeStartPhase::Epoch { latest }) && a is AskEpoch
    }
}

/// What a node starts with, given the executor's last block.
pub open spec fn plan_of(
    s: NodeStart,
    epoch: u64,
    timestamp_ms: u64,
    base: u64,
    local_block: u64,
) -> StartPlan {
    let last = if !s.settings.read_enabled {
        0
    } else if s.peer_block > 0 && local_block > s.peer_block + TIP_TOLERANCE {
        s.peer_block
    } else {
        local_block
    };
    StartPlan {
        epoch,
        timestamp_ms,
        epoch_base: base,
        last_global_exec_index: last,
        next_expected: (last + 1) as u64,
        recovery_check: last > 0,
        mode: if s.in_committee {
            NodeMode::Validator
        } else {
            NodeMode::SyncOnly
        },
        own_index: s.own_index,
    }
}

/// A step of a start: `s2` is what comes of the event, `a` is what to do.
pub open spec fn start_step(
    s: NodeStart,
    e: NodeStartEvent,
    s2: NodeStart,
    a: NodeStartAction,
) -> bool {
    let same = s2 == (NodeStart { phase: s2.phase, ..s });
    match (s.phase, e) {
        (NodeStartPhase::LastBlock, NodeStartEvent::LastBlock(b)) => same && match b {
            Some(latest) => knows_block(s.settings, latest, s2.phase, a),
            None => s2.phase is KeptBlock && a is ReadKeptBlock,
        },
        (NodeStartPhase::KeptBlock, NodeStartEvent::KeptBlock(b)) => same && knows_block(
            s.settings,
            match b {
                Some(n) => n,
                None => 0,
            },
            s2.phase,
            a,
        ),
        (NodeStartPhase::Peers { latest }, NodeStartEvent::Peers(p)) => match p {
            Some(n) => knows_network(s, Some(n), s2, a),
            None => same && s2.phase == (NodeStartPhase::Epoch { latest }) && a is AskEpoch,
        },
        (NodeStartPhase::Epoch { latest }, NodeStartEvent::Epoch(x)) => knows_network(
            s,
            match x {
                Some(epoch) => Some(PeerReport { epoch, last_block: latest, readable: false }),
                None => None,
            },
            s2,
            a,
        ),
        (NodeStartPhase::Disk { epoch }, NodeStartEvent::DiskEpoch(local)) => same && s2.phase == (
        NodeStartPhase::Cleaning { epoch }) && a == NodeStartAction::Clean(
            if local < epoch && s.settings.epochs_to_keep > 0 {
                EpochCleanup::Range { from: local, to: epoch }
            } else if local > epoch {
                EpochCleanup::All
            } else {
                EpochCleanup::Nothing
            },
        ),
        (NodeStartPhase::Cleaning { epoch }, NodeStartEvent::Cleaned) => same && s2.phase == (
        NodeStartPhase::Boundary { epoch }) && a == (NodeStartAction::AskBoundary { epoch }),
        (NodeStartPhase::Boundary { .. }, NodeStartEvent::Boundary(b)) => match b {
            Some(d) => builds(s, d, s2, a),
            None => same && s2.phase is OwnEpoch && a is AskEpoch,
        },
        (NodeStartPhase::OwnEpoch, NodeStartEvent::Epoch(x)) => same && s2.phase is OwnBoundary
            && a == (NodeStartAction::AskBoundary {
            epoch: match x {
                Some(e) => e,
                None => 0,
            },
        }),
        (NodeStartPhase::OwnBoundary, NodeStartEvent::Boundary(b)) => match b {
            Some(d) => builds(s, d, s2, a),
            None => same && s2.phase is Genesis && a is AskGenesis,
        },
        (NodeStartPhase::Genesis, NodeStartEvent::Genesis(v)) => match v {
            Some(validators) => builds(
                s,
                BoundaryData { epoch: 0, timestamp_ms: 0, boundary_block: 0, validators },
                s2,
                a,
            ),
            None => same && s2.phase is Ended && a == NodeStartAction::Fail(
                NodeStartError::Validators(StartError::NoGenesisValidators),
            ),
        },
        (
            NodeStartPhase::Committee { epoch, timestamp_ms, base },
            NodeStartEvent::Addresses(verdicts),
        ) => if forms_committee(with_verdicts(s.validators@, verdicts@)) {
            &&& joins(s, epoch, verdicts@, s2)
            &&& if s.settings.read_enabled {
                s2.phase == (NodeStartPhase::Tip { epoch, timestamp_ms, base }) && a is AskLastBlock
            } else {
                s2.phase is Ended && a == NodeStartAction::Start(
                    plan_of(s2, epoch, timestamp_ms, base, 0),
                )
            }
        } else {
            &&& s2 == (NodeStart { phase: NodeStartPhase::Ended, validators: s2.validators, ..s })
            &&& s2.validators@.len() == 0
            &&& a == NodeStartAction::Fail(NodeStartError::Committee)
        },
        (NodeStartPhase::Tip { epoch, timestamp_ms, base }, NodeStartEvent::LastBlock(b)) => same
            && s2.phase is Ended && a == NodeStartAction::Start(
            plan_of(
                s,
                epoch,
                timestamp_ms,
                base,
                match b {
                    Some(n) => n,
                    None => 0,
                },
            ),
        ),
        _ => s2 == s && a is Ignore,
    }
}

/// Puts the verdicts on their addresses to the validators.
pub fn candidates_of(validators: Vec<ValidatorInfo>, verdicts: &Vec<bool>) -> (r: Vec<Candidate>)
    ensures
        r@ == with_verdicts(validators@, verdicts@),
{
    let ghost all = validators@;
    let mut r: Vec<Candidate> = Vec::new();
    for info in it: validators
        invariant
            it.seq() == all,
            r@ == with_verdicts(all, verdicts@).subrange(0, it.index() as int),
    {
        let i: usize = r.len();
        let address_ok: bool = i < verdicts.len() && verdicts[i];
        r.push(Candidate { info, address_ok });
        assert(r@ =~= with_verdicts(all, verdicts@).subrange(0, it.index() as int + 1));
    }
    assert(r@ =~= with_verdicts(all, verdicts@));
    r
}

impl NodeStart {
    /// The block of a peer that the node is held against leaves room for the
    /// tolerance.
    pub open spec fn wf(&self) -> bool {
        self.peer_block <= u64::MAX - TIP_TOLERANCE
    }

    /// A start that has not begun.
    pub fn new(settings: StartSettings, protocol_key: Vec<u8>) -> (s: NodeStart)
        ensures
            s.settings == settings,
            s.protocol_key == protocol_key,
            s.peer_block == 0,
            s.validators@.len() == 0,
            s.committee is None,
            s.own_index == 0,
            !s.in_committee,
            s.wf(),
            s.phase is LastBlock,
    {
        NodeStart {
            settings,
            protocol_key,
            peer_block: 0,
            validators: Vec::new(),
            committee: None,
            own_index: 0,
            in_committee: false,
            phase: NodeStartPhase::LastBlock,
        }
    }

    /// What has to be done first.
    pub fn first_action(&self) -> (a: NodeStartAction)
        ensures
            a is AskLastBlock,
    {
        NodeStartAction::AskLastBlock
    }

    fn fail(&mut self, e: NodeStartError) -> (a: NodeStartAction)
        ensures
            *final(self) == (NodeStart { phase: NodeStartPhase::Ended, ..*old(self) }),
            a == NodeStartAction::Fail(e),
    {
        self.phase = NodeStartPhase::Ended;
        NodeStartAction::Fail(e)
    }

    fn block_known(&mut self, latest: u64) -> (a: NodeStartAction)
        ensures
            *final(self) == (NodeStart { phase: final(self).phase, ..*old(self) }),
            knows_block(old(self).settings, latest, final(self).phase, a),
    {
        if self.settings.has_peers {
            self.phase = NodeStartPhase::Peers { latest };
            NodeStartAction::AskPeers
        } else {
            self.phase = NodeStartPhase::Epoch { latest };
            NodeStartAction::AskEpoch
        }
    }

    fn network_known(&mut self, network: Option<PeerReport>) -> (a: NodeStartAction)
        ensures
            knows_network(*old(self), network, *final(self), a),
    {
        match network {
            Some(n) => {
                self.peer_block = peer_tip(self.settings.read_enabled, n.readable, n.last_block);
                self.phase = NodeStartPhase::Disk { epoch: n.epoch };
                NodeStartAction::ListEpochs
            },
            None => self.fail(NodeStartError::NoEpoch),
        }
    }

    fn build(&mut self, d: BoundaryData) -> (a: NodeStartAction)
        ensures
            builds(*old(self), d, *final(self), a),
    {
        if d.validators.len() == 0 {
            return self.fail(NodeStartError::Validators(StartError::EmptyValidators));
        }
        self.phase = NodeStartPhase::Committee {
            epoch: d.epoch,
            timestamp_ms: d.timestamp_ms,
            base: d.boundary_block,
        };
        self.validators = if self.settings.single_node {
            single_node_validators(d.validators)
        } else {
            d.validators
        };
        NodeStartAction::CheckAddresses
    }

    fn plan(&self, epoch: u64, timestamp_ms: u64, base: u64, local_block: u64) -> (p: StartPlan)
        requires
            self.wf(),
            self.settings.read_enabled ==> local_block < u64::MAX,
        ensures
            p == plan_of(*self, epoch, timestamp_ms, base, local_block),
    {
        let read: bool = self.settings.read_enabled;
        let last: u64 = effective_tip(read, local_block, self.peer_block);
        StartPlan {
            epoch,
            timestamp_ms,
            epoch_base: base,
            last_global_exec_index: last,
            next_expected: initial_next_expected(read, last),
            recovery_check: needs_recovery_check(read, last),
            mode: if self.in_committee {
                NodeMode::Validator
            } else {
                NodeMode::SyncOnly
            },
            own_index: self.own_index,
        }
    }

    fn build_committee(
        &mut self,
        epoch: u64,
        timestamp_ms: u64,
        base: u64,
        verdicts: Vec<bool>,
    ) -> (a: NodeStartAction)
        requires
            old(self).wf(),
            old(self).phase == (NodeStartPhase::Committee { epoch, timestamp_ms, base }),
        ensures
            start_step(*old(self), NodeStartEvent::Addresses(verdicts), *final(self), a),
    {
        let mut validators: Vec<ValidatorInfo> = Vec::new();
        std::mem::swap(&mut validators, &mut self.validators);
        let ghost v = with_verdicts(validators@, verdicts@);
        let list = candidates_of(validators, &verdicts);
        match build_committee_from_validator_list(list, epoch) {
            Err(_) => self.fail(NodeStartError::Committee),
            Ok(committee) => {
                assert(is_committee_of_validators(committee, v));
                match committee.index_of_key(self.protocol_key.as_slice()) {
                    Some(i) => {
                        self.own_index = i;
                        self.in_committee = true;
                        assert(committee.authorities@[i as int].protocol_key@
                            == self.protocol_key@);
                    },
                    None => {
                        self.own_index = 0;
                        self.in_committee = false;
                    },
                }
                self.committee = Some(committee);
                if self.settings.read_enabled {
                    self.phase = NodeStartPhase::Tip { epoch, timestamp_ms, base };
                    NodeStartAction::AskLastBlock
                } else {
                    self.phase = NodeStartPhase::Ended;
                    NodeStartAction::Start(self.plan(epoch, timestamp_ms, base, 0))
                }
            },
        }
    }

    /// Takes an event and gives what to do next, see [`start_step`].
    pub fn on_event(&mut self, event: NodeStartEvent) -> (a: NodeStartAction)
        requires
            old(self).wf(),
            event matches NodeStartEvent::Peers(Some(p)) ==> old(self).settings.read_enabled
                && p.readable ==> p.last_block <= u64::MAX - TIP_TOLERANCE,
            old(self).phase is Tip && old(self).settings.read_enabled ==> (
            event matches NodeStartEvent::LastBlock(Some(b)) ==> b < u64::MAX),
        ensures
            start_step(*old(self), event, *final(self), a),
            final(self).wf(),
    {
        match self.phase {
            NodeStartPhase::LastBlock => match event {
                NodeStartEvent::LastBlock(b) => match b {
                    Some(latest) => self.block_known(latest),
                    None => {
                        self.phase = NodeStartPhase::KeptBlock;
                        NodeStartAction::ReadKeptBlock
                    },
                },
                _ => NodeStartAction::Ignore,
            },
            NodeStartPhase::KeptBlock => match event {
                NodeStartEvent::KeptBlock(b) => self.block_known(
                    match b {
                        Some(n) => n,
                        None => 0,
                    },
                ),
                _ => NodeStartAction::Ignore,
            },
            NodeStartPhase::Peers { latest } => match event {
                NodeStartEvent::Peers(p) => match p {
                    Some(n) => self.network_known(Some(n)),
                    None => {
                        self.phase = NodeStartPhase::Epoch { latest };
                        NodeStartAction::AskEpoch
                    },
                },
                _ => NodeStartAction::Ignore,
            },
            NodeStartPhase::Epoch { latest } => match event {
                NodeStartEvent::Epoch(x) => self.network_known(
                    match x {
                        Some(epoch) => Some(
                            PeerReport { epoch, last_block: latest, readable: false },
                        ),
                        None => None,
                    },
                ),
                _ => NodeStartAction::Ignore,
            },
            NodeStartPhase::Disk { epoch } => match event {
                NodeStartEvent::DiskEpoch(local) => {
                    let c = cleanup_at_start(local, epoch, self.settings.epochs_to_keep);
                    self.phase = NodeStartPhase::Cleaning { epoch };
                    NodeStartAction::Clean(c)
                },
                _ => NodeStartAction::Ignore,
            },
            NodeStartPhase::Cleaning { epoch } => match event {
                NodeStartEvent::Cleaned => {
                    self.phase = NodeStartPhase::Boundary { epoch };
                    NodeStartAction::AskBoundary { epoch }
                },
                _ => NodeStartAction::Ignore,
            },
            NodeStartPhase::Boundary { .. } => match event {
                NodeStartEvent::Boundary(b) => match b {
                    Some(d) => self.build(d),
                    None => {
                        self.phase = NodeStartPhase::OwnEpoch;
                        NodeStartAction::AskEpoch
                    },
                },
                _ => NodeStartAction::Ignore,
            },
            NodeStartPhase::OwnEpoch => match event {
                NodeStartEvent::Epoch(x) => {
                    self.phase = NodeStartPhase::OwnBoundary;
                    NodeStartAction::AskBoundary {
                        epoch: match x {
                            Some(e) => e,
                            None => 0,
                        },
                    }
                },
                _ => NodeStartAction::Ignore,
            },
            NodeStartPhase::OwnBoundary => match event {
                NodeStartEvent::Boundary(b) => match b {
                    Some(d) => self.build(d),
                    None => {
                        self.phase = NodeStartPhase::Genesis;
                        NodeStartAction::AskGenesis
                    },
                },
                _ => NodeStartAction::Ignore,
            },
            NodeStartPhase::Genesis => match event {
                NodeStartEvent::Genesis(v) => match v {
                    Some(validators) => self.build(
                        BoundaryData { epoch: 0, timestamp_ms: 0, boundary_block: 0, validators },
                    ),
                    None => self.fail(
                        NodeStartError::Validators(StartError::NoGenesisValidators),
                    ),
                },
                _ => NodeStartAction::Ignore,
            },
            NodeStartPhase::Committee { epoch, timestamp_ms, base } => match event {
                NodeStartEvent::Addresses(verdicts) => self.build_committee(
                    epoch,
                    timestamp_ms,
                    base,
                    verdicts,
                ),
                _ => NodeStartAction::Ignore,
            },
            NodeStartPhase::Tip { epoch, timestamp_ms, base } => match event {
                NodeStartEvent::LastBlock(b) => {
                    let local: u64 = match b {
                        Some(n) => n,
                        None => 0,
                    };
                    let plan = self.plan(epoch, timestamp_ms, base, local);
                    self.phase = NodeStartPhase::Ended;
                    NodeStartAction::Start(plan)
                },
                _ => NodeStartAction::Ignore,
            },
            NodeStartPhase::Ended => NodeStartAction::Ignore,
        }
    }
}

/// A node that starts expects the block right after the executor's last one,
/// unless that is more than the tolerance ahead of the peer that the node is
/// held against: such a node goes back to the peer's last block.
pub proof fn law_start_continues(s: NodeStart, epoch: u64, timestamp_ms: u64, base: u64, b: u64)
    requires
        s.wf(),
        s.settings.read_enabled,
        b < u64::MAX,
    ensures
        ({
            let p = plan_of(s, epoch, timestamp_ms, base, b);
            &&& p.next_expected == p.last_global_exec_index + 1
            &&& s.peer_block == 0 || b <= s.peer_block + TIP_TOLERANCE ==> p.last_global_exec_index
                == b
            &&& s.peer_block > 0 && b > s.peer_block + TIP_TOLERANCE ==> p.last_global_exec_index
                == s.peer_block
        }),
{
}

/// How many steps a start takes at most from a phase on.
pub open spec fn steps_left(p: NodeStartPhase) -> nat {
    match p {
        NodeStartPhase::LastBlock => 12,
        NodeStartPhase::KeptBlock => 11,
        NodeStartPhase::Peers { .. } => 10,
        NodeStartPhase::Epoch { .. } => 9,
        NodeStartPhase::Disk { .. } => 8,
        NodeStartPhase::Cleaning { .. } => 7,
        NodeStartPhase::Boundary { .. } => 6,
        NodeStartPhase::OwnEpoch => 5,
        NodeStartPhase::OwnBoundary => 4,
        NodeStartPhase::Genesis => 3,
        NodeStartPhase::Committee { .. } => 2,
        NodeStartPhase::Tip { .. } => 1,
        NodeStartPhase::Ended => 0,
    }
}

/// A start ends with a plan or with an error, whatever it is told: each step
/// brings it closer to its end.
pub proof fn law_start_ends(s: NodeStart, e: NodeStartEvent, s2: NodeStart, a: NodeStartAction)
    requires
        start_step(s, e, s2, a),
        !(a is Ignore),
    ensures
        steps_left(s2.phase) < steps_left(s.phase),
        s2.phase is Ended <==> a is Start || a is Fail,
{
}

/// A node starts as a validator exactly if one of the validators that the
/// committee is built of has its key.
pub proof fn law_mode_follows_committee(
    s: NodeStart,
    verdicts: Vec<bool>,
    s2: NodeStart,
    a: NodeStartAction,
    epoch: u64,
    timestamp_ms: u64,
    base: u64,
    local_block: u64,
)
    requires
        s.phase is Committee,
        forms_committee(with_verdicts(s.validators@, verdicts@)),
        start_step(s, NodeStartEvent::Addresses(verdicts), s2, a),
    ensures
        plan_of(s2, epoch, timestamp_ms, base, local_block).mode is Validator <==> exists|i: int|
            0 <= i < s.validators@.len() && (validator_member(
                #[trigger] committee_order(with_verdicts(s.validators@, verdicts@))[i],
                i as nat,
            ) matches Ok(m) && m.protocol_key == s.protocol_key@),
{
    let order = committee_order(with_verdicts(s.validators@, verdicts@));
    let c = s2.committee->Some_0;
    assert forall|i: int| 0 <= i < s.validators@.len() implies validator_member(
        #[trigger] order[i],
        i as nat,
    ) == Ok::<AuthorityValue, ValidatorFault>(c.authorities@[i]@) by {}
    if has_member(c, s.protocol_key@) {
        let i = choose|i: int|
            0 <= i < c.authorities@.len() && (#[trigger] c.authorities@[i]).protocol_key@
                == s.protocol_key@;
        assert(validator_member(order[i], i as nat) is Ok);
    }
}

/// A start asks the executor for its last block, and the disk if that does not
/// answer. Where there are peers they say which epoch the network is in; without
/// them, or without an answer, the executor does. A start that learns of no epoch
/// fails.
pub proof fn law_network_epoch_is_found(
    s: NodeStart,
    last: Option<u64>,
    s1: NodeStart,
    a1: NodeStartAction,
    t: NodeStart,
    latest: u64,
    report: Option<PeerReport>,
    t1: NodeStart,
    b1: NodeStartAction,
    u: NodeStart,
    epoch: Option<u64>,
    u1: NodeStart,
    c1: NodeStartAction,
)
    requires
        s.phase is LastBlock,
        start_step(s, NodeStartEvent::LastBlock(last), s1, a1),
        t.phase == (NodeStartPhase::Peers { latest }),
        start_step(t, NodeStartEvent::Peers(report), t1, b1),
        u.phase == (NodeStartPhase::Epoch { latest }),
        start_step(u, NodeStartEvent::Epoch(epoch), u1, c1),
    ensures
        last is None ==> a1 is ReadKeptBlock,
        last is Some && s.settings.has_peers ==> a1 is AskPeers,
        last is Some && !s.settings.has_peers ==> a1 is AskEpoch,
        report matches Some(p) ==> b1 is ListEpochs && t1.phase == (NodeStartPhase::Disk {
            epoch: p.epoch,
        }),
        report is None ==> b1 is AskEpoch,
        epoch matches Some(e) ==> c1 is ListEpochs && u1.phase == (NodeStartPhase::Disk {
            epoch: e,
        }) && u1.peer_block == 0,
        epoch is None ==> c1 == NodeStartAction::Fail(NodeStartError::NoEpoch) && u1.phase is Ended,
{
}

/// A node is held against a peer only where its blocks can be read and the node
/// reads data at all.
pub proof fn law_held_against_readable_peer(
    s: NodeStart,
    latest: u64,
    p: PeerReport,
    s2: NodeStart,
    a: NodeStartAction,
)
    requires
        s.phase == (NodeStartPhase::Peers { latest }),
        start_step(s, NodeStartEvent::Peers(Some(p)), s2, a),
    ensures
        s.settings.read_enabled && p.readable ==> s2.peer_block == p.last_block,
        !s.settings.read_enabled || !p.readable ==> s2.peer_block == 0,
{
}

/// Epochs on disk that lie before the network's are cleared, unless all are to
/// be kept; if the disk is ahead of the network everything is. Then the start of
/// the network's epoch is asked for.
pub proof fn law_outdated_epochs_are_cleared(
    s: NodeStart,
    epoch: u64,
    local: u64,
    s1: NodeStart,
    a1: NodeStartAction,
    s2: NodeStart,
    a2: NodeStartAction,
)
    requires
        s.phase == (NodeStartPhase::Disk { epoch }),
        start_step(s, NodeStartEvent::DiskEpoch(local), s1, a1),
        start_step(s1, NodeStartEvent::Cleaned, s2, a2),
    ensures
        local < epoch && s.settings.epochs_to_keep > 0 ==> a1 == NodeStartAction::Clean(
            EpochCleanup::Range { from: local, to: epoch },
        ),
        local < epoch && s.settings.epochs_to_keep == 0 ==> a1 == NodeStartAction::Clean(
            EpochCleanup::Nothing,
        ),
        local == epoch ==> a1 == NodeStartAction::Clean(EpochCleanup::Nothing),
        local > epoch ==> a1 == NodeStartAction::Clean(EpochCleanup::All),
        a2 == (NodeStartAction::AskBoundary { epoch }),
{
}

/// Where the executor does not know the start of the network's epoch, the start
/// of its own epoch is asked for, and then the validators of the first block.
/// Without those the node cannot start.
pub proof fn law_start_falls_back(
    s: NodeStart,
    epoch: u64,
    s1: NodeStart,
    a1: NodeStartAction,
    own: Option<u64>,
    s2: NodeStart,
    a2: NodeStartAction,
    s3: NodeStart,
    a3: NodeStartAction,
    s4: NodeStart,
    a4: NodeStartAction,
)
    requires
        s.phase == (NodeStartPhase::Boundary { epoch }),
        start_step(s, NodeStartEvent::Boundary(None), s1, a1),
        start_step(s1, NodeStartEvent::Epoch(own), s2, a2),
        start_step(s2, NodeStartEvent::Boundary(None), s3, a3),
        start_step(s3, NodeStartEvent::Genesis(None), s4, a4),
    ensures
        a1 is AskEpoch,
        own matches Some(e) ==> a2 == (NodeStartAction::AskBoundary { epoch: e }),
        own is None ==> a2 == (NodeStartAction::AskBoundary { epoch: 0 }),
        a3 is AskGenesis,
        a4 == NodeStartAction::Fail(NodeStartError::Validators(StartError::NoGenesisValidators)),
{
}

/// The node starts in the epoch whose start was found, from its boundary block
/// and with its time, with a committee of its validators: all of them, or those
/// named `node-0` where only one node takes part. The executor's last block is
/// asked for once more if data are read.
pub proof fn law_node_starts_at_boundary(
    s: NodeStart,
    d: BoundaryData,
    s1: NodeStart,
    a1: NodeStartAction,
    verdicts: Vec<bool>,
    s2: NodeStart,
    a2: NodeStartAction,
    last: Option<u64>,
    s3: NodeStart,
    a3: NodeStartAction,
)
    requires
        s.phase is Boundary || s.phase is OwnBoundary,
        d.validators@.len() > 0,
        start_step(s, NodeStartEvent::Boundary(Some(d)), s1, a1),
        forms_committee(with_verdicts(s1.validators@, verdicts@)),
        start_step(s1, NodeStartEvent::Addresses(verdicts), s2, a2),
        start_step(s2, NodeStartEvent::LastBlock(last), s3, a3),
        last matches Some(n) ==> n < u64::MAX,
    ensures
        a1 is CheckAddresses,
        !s.settings.single_node ==> s1.validators@ == d.validators@,
        s.settings.single_node ==> s1.validators@ == d.validators@.filter(
            |i: ValidatorInfo| i.name@ == "node-0"@,
        ),
        s2.committee is Some,
        s2.committee->Some_0.epoch == d.epoch,
        s2.committee->Some_0.authorities@.len() == s1.validators@.len(),
        s.settings.read_enabled ==> a2 is AskLastBlock,
        ({
            let a = if s.settings.read_enabled {
                a3
            } else {
                a2
            };
            a matches NodeStartAction::Start(plan) && {
                &&& plan.epoch == d.epoch
                &&& plan.timestamp_ms == d.timestamp_ms
                &&& plan.epoch_base == d.boundary_block
                &&& plan.next_expected == plan.last_global_exec_index + 1
                &&& plan.recovery_check == (plan.last_global_exec_index > 0)
                &&& !s.settings.read_enabled ==> plan.last_global_exec_index == 0
                &&& s.settings.read_enabled && s.peer_block == 0 ==> plan.last_global_exec_index
                    == match last {
                    Some(n) => n,
                    None => 0,
                }
                &&& plan.mode is Validator <==> has_member(
                    s2.committee->Some_0,
                    s.protocol_key@,
                )
                &&& plan.mode is Validator || plan.mode is SyncOnly
                &&& plan.mode is Validator ==> plan.own_index
                    < s2.committee->Some_0.authorities@.len()
                    && s2.committee->Some_0.authorities@[plan.own_index as int].protocol_key@
                    == s.protocol_key@
                &&& plan.mode is SyncOnly ==> plan.own_index == 0
            }
        }),
{
}

/// A start whose epoch has no validators, or whose validators make no committee,
/// fails.
pub proof fn law_start_needs_committee(
    s: NodeStart,
    d: BoundaryData,
    s1: NodeStart,
    a1: NodeStartAction,
    t: NodeStart,
    verdicts: Vec<bool>,
    t1: NodeStart,
    b1: NodeStartAction,
)
    requires
        s.phase is Boundary || s.phase is OwnBoundary,
        d.validators@.len() == 0,
        start_step(s, NodeStartEvent::Boundary(Some(d)), s1, a1),
        t.phase is Committee,
        !forms_committee(with_verdicts(t.validators@, verdicts@)),
        start_step(t, NodeStartEvent::Addresses(verdicts), t1, b1),
    ensures
        a1 == NodeStartAction::Fail(NodeStartError::Validators(StartError::EmptyValidators)),
        b1 == NodeStartAction::Fail(NodeStartError::Committee),
{
}

/// A verdict belongs to the validator at its place; a validator without one has
/// no usable address.
pub proof fn law_verdicts_by_place(v: Seq<ValidatorInfo>, ok: Seq<bool>, i: int)
    requires
        0 <= i < v.len(),
    ensures
        with_verdicts(v, ok).len() == v.len(),
        with_verdicts(v, ok)[i].info == v[i],
        i < ok.len() ==> with_verdicts(v, ok)[i].address_ok == ok[i],
        i >= ok.len() ==> !with_verdicts(v, ok)[i].address_ok,
{
}

/// An event that does not belong to where a start stands changes nothing.
pub proof fn law_stray_events_are_ignored(
    s: NodeStart,
    e: NodeStartEvent,
    s2: NodeStart,
    a: NodeStartAction,
)
    requires
        start_step(s, e, s2, a),
        s.phase is LastBlock || s.phase is Tip ==> !(e is LastBlock),
        s.phase is KeptBlock ==> !(e is KeptBlock),
        s.phase is Peers ==> !(e is Peers),
        s.phase is Epoch || s.phase is OwnEpoch ==> !(e is Epoch),
        s.phase is Disk ==> !(e is DiskEpoch),
        s.phase is Cleaning ==> !(e is Cleaned),
        s.phase is Boundary || s.phase is OwnBoundary ==> !(e is Boundary),
        s.phase is Genesis ==> !(e is Genesis),
        s.phase is Committee ==> !(e is Addresses),
    ensures
        s2 == s,
        a is Ignore,
{
}

} // verus!
