//! Changes of mode within an epoch: a node that joins the committee, and one
//! that leaves it.
use crate::node::consensus_node::ConsensusNode;
use crate::node::NodeMode;
use vstd::prelude::*;

verus! {

/// How often a node that waits to become a validator asks the executor: every
/// half second for five minutes.
pub const MAX_UPGRADE_POLLS: u64 = 600;

/// How often a node that leaves the committee asks the executor: every tenth
/// of a second for ten minutes.
pub const MAX_DEMOTION_POLLS: u64 = 6000;

/// A node that waits until its executor has caught up, to become a validator.
#[derive(Clone, Copy, Debug, PartialEq, Eq, Structural)]
pub struct UpgradeWait {
    pub epoch: u64,
    pub target_block: u64,
    pub attempt: u64,
}

/// What a poll leads to.
#[derive(Clone, Copy, Debug, PartialEq, Eq, Structural)]
pub enum UpgradeStep {
    /// The executor is in a later epoch: that epoch's change takes over.
    Abort,
    /// The executor has caught up: the node becomes a validator.
    Promote,
    /// It takes too long: the node tries again later.
    GiveUp,
    /// Ask again.
    Wait,
}

impl UpgradeWait {
    /// The polls stay within their limit.
    pub open spec fn wf(&self) -> bool {
        self.attempt < MAX_UPGRADE_POLLS
    }

    /// Starts to wait for a block.
    pub fn new(epoch: u64, target_block: u64) -> (w: Self)
        ensures
            w.wf(),
            w == (UpgradeWait { epoch, target_block, attempt: 0 }),
    {
        UpgradeWait { epoch, target_block, attempt: 0 }
    }

    /// Takes the executor's answers; no answer counts as 0.
    pub fn on_poll(&mut self, go_epoch: Option<u64>, go_block: Option<u64>) -> (s: UpgradeStep)
        requires
            old(self).wf(),
        ensures
            s == if go_epoch is Some && go_epoch->Some_0 > old(self).epoch {
                UpgradeStep::Abort
            } else if (match go_block {
                Some(b) => b,
                None => 0,
            }) >= old(self).target_block {
                UpgradeStep::Promote
            } else if old(self).attempt + 1 >= MAX_UPGRADE_POLLS {
                UpgradeStep::GiveUp
            } else {
                UpgradeStep::Wait
            },
            s is Wait ==> final(self).wf(),
            *final(self) == (UpgradeWait { attempt: (old(self).attempt + 1) as u64, ..*old(self) }),
    {
        self.attempt = self.attempt + 1;
        let epoch: u64 = match go_epoch {
            Some(e) => e,
            None => 0,
        };
        if epoch > self.epoch {
            return UpgradeStep::Abort;
        }
        let block: u64 = match go_block {
            Some(b) => b,
            None => 0,
        };
        if block >= self.target_block {
            UpgradeStep::Promote
        } else if self.attempt >= MAX_UPGRADE_POLLS {
            UpgradeStep::GiveUp
        } else {
            UpgradeStep::Wait
        }
    }
}

/// What has to be started once the node knows its place in the committee.
#[derive(Clone, Copy, Debug, PartialEq, Eq, Structural)]
pub enum ModeChangeStep {
    /// The node is not in the committee: its sync starts anew.
    RestartSync,
    /// The node is in the committee: the consensus starts, after a sync that
    /// still runs has stopped.
    StartAuthority { epoch: u64, base: u64, stop_sync: bool },
}

impl ConsensusNode {
    /// Marks the start of a change of mode. While another change is under way
    /// nothing is started, and the mark is cleared.
    pub fn begin_mode_change(&mut self) -> (begun: bool)
        ensures
            begun == !old(self).is_transitioning,
            *final(self) == (ConsensusNode { is_transitioning: begun, ..*old(self) }),
    {
        let begun: bool = !self.is_transitioning;
        self.is_transitioning = begun;
        begun
    }

    /// The node has taken its mode and its place: its epoch and last index are
    /// set, and what has to be started is returned. `in_committee` says
    /// whether the committee has the node.
    pub fn apply_mode_change(&mut self, epoch: u64, synced_index: u64, in_committee: bool) -> (s:
        ModeChangeStep)
        requires
            in_committee ==> old(self).boot_counter < u64::MAX,
        ensures
            if in_committee {
                &&& s == (ModeChangeStep::StartAuthority {
                    epoch,
                    base: synced_index,
                    stop_sync: old(self).has_sync_task,
                })
                &&& *final(self) == (ConsensusNode {
                    current_epoch: epoch,
                    last_global_exec_index: synced_index,
                    current_commit_index: 0,
                    has_sync_task: false,
                    boot_counter: (old(self).boot_counter + 1) as u64,
                    has_authority: true,
                    ..*old(self)
                })
            } else {
                &&& s is RestartSync
                &&& *final(self) == (ConsensusNode {
                    current_epoch: epoch,
                    last_global_exec_index: synced_index,
                    has_sync_task: false,
                    ..*old(self)
                })
            },
    {
        self.current_epoch = epoch;
        self.last_global_exec_index = synced_index;
        let stop_sync: bool = self.has_sync_task;
        self.has_sync_task = false;
        if in_committee {
            self.current_commit_index = 0;
            self.boot_counter = self.boot_counter + 1;
            self.has_authority = true;
            ModeChangeStep::StartAuthority { epoch, base: synced_index, stop_sync }
        } else {
            ModeChangeStep::RestartSync
        }
    }

    /// Marks the end of a change of mode.
    pub fn end_mode_change(&mut self)
        ensures
            *final(self) == (ConsensusNode { is_transitioning: false, ..*old(self) }),
    {
        self.is_transitioning = false;
    }

    /// A node that left the committee only syncs, from the target epoch and
    /// block on.
    pub fn apply_demotion(&mut self, target_epoch: u64, target_block: u64)
        ensures
            *final(self) == (ConsensusNode {
                node_mode: NodeMode::SyncOnly,
                current_epoch: target_epoch,
                last_global_exec_index: target_block,
                has_authority: false,
                ..*old(self)
            }),
    {
        self.has_authority = false;
        self.node_mode = NodeMode::SyncOnly;
        self.current_epoch = target_epoch;
        self.last_global_exec_index = target_block;
    }

    /// Whether a node that only syncs may become a validator: it is in the
    /// network's epoch, and the committee has it. Gives that epoch.
    pub fn check_promotion_eligibility(&self, network_epoch: u64, in_committee: bool) -> (r: Option<
        u64,
    >)
        ensures
            r == if self.node_mode is SyncOnly && self.current_epoch >= network_epoch
                && in_committee {
                Some(network_epoch)
            } else {
                None
            },
    {
        if self.node_mode != NodeMode::SyncOnly {
            return None;
        }
        if self.current_epoch < network_epoch {
            return None;
        }
        if in_committee {
            Some(network_epoch)
        } else {
            None
        }
    }

    /// Whether a node that still only syncs after a change is to become a
    /// validator at once.
    pub fn needs_upgrade(&self, in_committee: bool) -> (b: bool)
        ensures
            b == (self.node_mode is SyncOnly && in_committee),
    {
        self.node_mode == NodeMode::SyncOnly && in_committee
    }
}

/// A node that leaves the committee waits for its executor.
#[derive(Clone, Copy, Debug, PartialEq, Eq, Structural)]
pub struct DemotionWait {
    pub expected_block: u64,
    pub attempt: u64,
}

/// What a poll leads to.
#[derive(Clone, Copy, Debug, PartialEq, Eq, Structural)]
pub enum DemotionStep {
    /// The executor has the node's last block.
    Reached,
    /// It takes too long: the node goes on without it.
    GiveUp,
    /// Ask again.
    Wait,
}

impl DemotionWait {
    /// The polls stay within their limit.
    pub open spec fn wf(&self) -> bool {
        self.attempt < MAX_DEMOTION_POLLS
    }

    /// Starts to wait for a block.
    pub fn new(expected_block: u64) -> (w: Self)
        ensures
            w.wf(),
            w == (DemotionWait { expected_block, attempt: 0 }),
    {
        DemotionWait { expected_block, attempt: 0 }
    }

    /// Takes the executor's last block.
    pub fn on_poll(&mut self, go_block: Option<u64>) -> (s: DemotionStep)
        requires
            old(self).wf(),
        ensures
            s == if go_block is Some && go_block->Some_0 >= old(self).expected_block {
                DemotionStep::Reached
            } else if old(self).attempt + 1 >= MAX_DEMOTION_POLLS {
                DemotionStep::GiveUp
            } else {
                DemotionStep::Wait
            },
            s is Wait ==> final(self).wf(),
            *final(self) == (DemotionWait { attempt: (old(self).attempt + 1) as u64, ..*old(self) }),
    {
        self.attempt = self.attempt + 1;
        let reached: bool = match go_block {
            Some(b) => b >= self.expected_block,
            None => false,
        };
        if reached {
            DemotionStep::Reached
        } else if self.attempt >= MAX_DEMOTION_POLLS {
            DemotionStep::GiveUp
        } else {
            DemotionStep::Wait
        }
    }
}

/// How far a change of mode has come.
#[derive(Clone, Copy, Debug, PartialEq, Eq, Structural)]
pub enum ModePhase {
    /// It is found out where the committee comes from.
    Source,
    /// The committee and the start time are fetched.
    Committee,
    /// The node takes its mode and its place.
    Mode { timestamp: u64 },
    /// What the mode needs is started.
    Starting,
    Ended,
}

/// What has to be done next.
#[derive(Clone, Copy, Debug, PartialEq, Eq, Structural)]
pub enum ModeStep {
    DiscoverSource,
    /// Fetch the committee of an epoch and its start time.
    FetchCommittee { epoch: u64 },
    /// Let the node take its mode and its place in the committee.
    TakeMode,
    /// Stop the old sync and start a new one.
    RestartSync,
    /// Start the consensus; stop a sync that still runs before.
    StartAuthority { epoch: u64, base: u64, timestamp: u64, stop_sync: bool },
    Done,
    Fail,
    /// The event does not belong to the phase: nothing was done.
    Ignore,
}

/// What came of an action.
#[derive(Clone, Copy, Debug, PartialEq, Eq, Structural)]
pub enum ModeEvent {
    SourceFound(bool),
    /// The start time that came with the committee.
    CommitteeFetched(Option<u64>),
    /// The node has taken its mode; whether the committee has it. None if it
    /// could not.
    ModeTaken(Option<bool>),
    Started(bool),
}

/// A change from syncing to validating within an epoch.
#[derive(Clone, Copy, Debug, PartialEq, Eq, Structural)]
pub struct ModeTransition {
    pub epoch: u64,
    pub synced_index: u64,
    pub phase: ModePhase,
}

/// The node after it has taken its place.
pub open spec fn with_place(
    n: ConsensusNode,
    epoch: u64,
    synced_index: u64,
    in_committee: bool,
) -> ConsensusNode {
    if in_committee {
        ConsensusNode {
            current_epoch: epoch,
            last_global_exec_index: synced_index,
            current_commit_index: 0,
            has_sync_task: false,
            boot_counter: (n.boot_counter + 1) as u64,
            has_authority: true,
            ..n
        }
    } else {
        ConsensusNode {
            current_epoch: epoch,
            last_global_exec_index: synced_index,
            has_sync_task: false,
            ..n
        }
    }
}

/// A step of a change of mode: `t2` and `n2` are what comes of the event, `a`
/// is what to do. However the change ends, its mark is cleared.
pub open spec fn mode_step(
    t: ModeTransition,
    n: ConsensusNode,
    e: ModeEvent,
    t2: ModeTransition,
    n2: ConsensusNode,
    a: ModeStep,
) -> bool {
    let over = ConsensusNode { is_transitioning: false, ..n };
    t2 == (ModeTransition { phase: t2.phase, ..t }) && match (t.phase, e) {
        (ModePhase::Source, ModeEvent::SourceFound(ok)) => if ok {
            n2 == n && t2.phase is Committee && a == (ModeStep::FetchCommittee { epoch: t.epoch })
        } else {
            n2 == over && t2.phase is Ended && a is Fail
        },
        (ModePhase::Committee, ModeEvent::CommitteeFetched(c)) => match c {
            Some(timestamp) => n2 == n && t2.phase == (ModePhase::Mode { timestamp })
                && a is TakeMode,
            None => n2 == over && t2.phase is Ended && a is Fail,
        },
        (ModePhase::Mode { .. }, ModeEvent::ModeTaken(None)) => n2 == over && t2.phase is Ended
            && a is Fail,
        (ModePhase::Mode { timestamp }, ModeEvent::ModeTaken(Some(in_committee))) => {
            &&& n2 == with_place(n, t.epoch, t.synced_index, in_committee)
            &&& t2.phase is Starting
            &&& a == if in_committee {
                ModeStep::StartAuthority {
                    epoch: t.epoch,
                    base: t.synced_index,
                    timestamp,
                    stop_sync: n.has_sync_task,
                }
            } else {
                ModeStep::RestartSync
            }
        },
        (ModePhase::Starting, ModeEvent::Started(ok)) => n2 == over && t2.phase is Ended && a
            == if ok {
            ModeStep::Done
        } else {
            ModeStep::Fail
        },
        _ => t2 == t && n2 == n && a is Ignore,
    }
}

impl ModeTransition {
    /// Starts a change of mode, unless another change is under way; then the
    /// mark is cleared.
    pub fn start(node: &mut ConsensusNode, epoch: u64, synced_index: u64) -> (r: Option<
        ModeTransition,
    >)
        ensures
            r == if old(node).is_transitioning {
                None
            } else {
                Some(ModeTransition { epoch, synced_index, phase: ModePhase::Source })
            },
            *final(node) == (ConsensusNode {
                is_transitioning: !old(node).is_transitioning,
                ..*old(node)
            }),
    {
        if node.begin_mode_change() {
            Some(ModeTransition { epoch, synced_index, phase: ModePhase::Source })
        } else {
            None
        }
    }

    /// What has to be done first.
    pub fn first_step(&self) -> (s: ModeStep)
        ensures
            s is DiscoverSource,
    {
        ModeStep::DiscoverSource
    }

    fn end(&mut self, node: &mut ConsensusNode, a: ModeStep) -> (r: ModeStep)
        ensures
            r == a,
            *final(self) == (ModeTransition { phase: ModePhase::Ended, ..*old(self) }),
            *final(node) == (ConsensusNode { is_transitioning: false, ..*old(node) }),
    {
        self.phase = ModePhase::Ended;
        node.end_mode_change();
        a
    }

    /// Takes an event and gives what to do next, see [`mode_step`].
    pub fn on_event(&mut self, node: &mut ConsensusNode, event: ModeEvent) -> (a: ModeStep)
        requires
            old(self).phase is Mode && event == ModeEvent::ModeTaken(Some(true))
                ==> old(node).boot_counter < u64::MAX,
        ensures
            mode_step(*old(self), *old(node), event, *final(self), *final(node), a),
    {
        match self.phase {
            ModePhase::Source => match event {
                ModeEvent::SourceFound(ok) => {
                    if ok {
                        self.phase = ModePhase::Committee;
                        ModeStep::FetchCommittee { epoch: self.epoch }
                    } else {
                        self.end(node, ModeStep::Fail)
                    }
                },
                _ => ModeStep::Ignore,
            },
            ModePhase::Committee => match event {
                ModeEvent::CommitteeFetched(c) => match c {
                    Some(timestamp) => {
                        self.phase = ModePhase::Mode { timestamp };
                        ModeStep::TakeMode
                    },
                    None => self.end(node, ModeStep::Fail),
                },
                _ => ModeStep::Ignore,
            },
            ModePhase::Mode { timestamp } => match event {
                ModeEvent::ModeTaken(None) => self.end(node, ModeStep::Fail),
                ModeEvent::ModeTaken(Some(in_committee)) => {
                    self.phase = ModePhase::Starting;
                    match node.apply_mode_change(self.epoch, self.synced_index, in_committee) {
                        ModeChangeStep::RestartSync => ModeStep::RestartSync,
                        ModeChangeStep::StartAuthority { epoch, base, stop_sync } => {
                            ModeStep::StartAuthority { epoch, base, timestamp, stop_sync }
                        },
                    }
                },
                _ => ModeStep::Ignore,
            },
            ModePhase::Starting => match event {
                ModeEvent::Started(ok) => {
                    if ok {
                        self.end(node, ModeStep::Done)
                    } else {
                        self.end(node, ModeStep::Fail)
                    }
                },
                _ => ModeStep::Ignore,
            },
            ModePhase::Ended => ModeStep::Ignore,
        }
    }
}

/// How far a demotion has come.
#[derive(Clone, Copy, Debug, PartialEq, Eq, Structural)]
pub enum DemotionPhase {
    /// The consensus stops.
    Stopping,
    /// The executor has to reach the node's last block.
    Waiting { wait: DemotionWait },
    /// The executor is told, the sync and the monitor are started.
    Starting,
    Ended,
}

/// What has to be done next.
#[derive(Clone, Copy, Debug, PartialEq, Eq, Structural)]
pub enum DemotionAction {
    StopAuthority,
    /// Ask the executor for its last block.
    AskLastBlock,
    /// Ask again after a pause of 100 ms.
    AskLastBlockAgain,
    /// Tell the executor from which block on the node syncs, and start the
    /// sync and the monitor.
    StartSync { from: u64 },
    Done,
    /// The event does not belong to the phase: nothing was done.
    Ignore,
}

/// What came of an action.
#[derive(Clone, Copy, Debug, PartialEq, Eq, Structural)]
pub enum DemotionEvent {
    Stopped,
    LastBlock(Option<u64>),
    /// The sync and the monitor were started, with or without success.
    Started,
}

/// A change from validating to syncing, to catch up with a later epoch.
#[derive(Clone, Copy, Debug, PartialEq, Eq, Structural)]
pub struct Demotion {
    pub target_epoch: u64,
    pub target_block: u64,
    /// Whether there is an executor to wait for.
    pub has_executor: bool,
    pub phase: DemotionPhase,
}

/// The node after its demotion.
pub open spec fn demoted(n: ConsensusNode, epoch: u64, block: u64) -> ConsensusNode {
    ConsensusNode {
        node_mode: NodeMode::SyncOnly,
        current_epoch: epoch,
        last_global_exec_index: block,
        has_authority: false,
        ..n
    }
}

/// The consensus has stopped: the executor is waited for, or the node syncs.
pub open spec fn stopped(
    d: Demotion,
    n: ConsensusNode,
    phase2: DemotionPhase,
    n2: ConsensusNode,
    a: DemotionAction,
) -> bool {
    if d.has_executor {
        &&& n2 == n
        &&& phase2 == (DemotionPhase::Waiting {
            wait: DemotionWait { expected_block: n.last_global_exec_index, attempt: 0 },
        })
        &&& a is AskLastBlock
    } else {
        &&& n2 == demoted(n, d.target_epoch, d.target_block)
        &&& phase2 is Starting
        &&& a == (DemotionAction::StartSync { from: d.target_block })
    }
}

/// A step of a demotion: `d2` and `n2` are what comes of the event, `a` is what
/// to do.
pub open spec fn demotion_step(
    d: Demotion,
    n: ConsensusNode,
    e: DemotionEvent,
    d2: Demotion,
    n2: ConsensusNode,
    a: DemotionAction,
) -> bool {
    d2 == (Demotion { phase: d2.phase, ..d }) && match (d.phase, e) {
        (DemotionPhase::Stopping, DemotionEvent::Stopped) => stopped(d, n, d2.phase, n2, a),
        (DemotionPhase::Waiting { wait }, DemotionEvent::LastBlock(b)) => if (b is Some
            && b->Some_0 >= wait.expected_block) || wait.attempt + 1 >= MAX_DEMOTION_POLLS {
            &&& n2 == demoted(n, d.target_epoch, d.target_block)
            &&& d2.phase is Starting
            &&& a == (DemotionAction::StartSync { from: d.target_block })
        } else {
            &&& n2 == n
            &&& d2.phase == (DemotionPhase::Waiting {
                wait: DemotionWait { attempt: (wait.attempt + 1) as u64, ..wait },
            })
            &&& a is AskLastBlockAgain
        },
        (DemotionPhase::Starting, DemotionEvent::Started) => n2 == (ConsensusNode {
            is_transitioning: false,
            ..n
        }) && d2.phase is Ended && a is Done,
        _ => d2 == d && n2 == n && a is Ignore,
    }
}

impl Demotion {
    /// The polls stay within their limit.
    pub open spec fn wf(&self) -> bool {
        self.phase matches DemotionPhase::Waiting { wait } ==> wait.wf()
    }

    /// Starts a demotion, unless another change is under way; then the mark is
    /// cleared.
    pub fn start(
        node: &mut ConsensusNode,
        target_epoch: u64,
        target_block: u64,
        has_executor: bool,
    ) -> (r: Option<(Demotion, DemotionAction)>)
        ensures
            old(node).is_transitioning ==> r is None && *final(node) == (ConsensusNode {
                is_transitioning: false,
                ..*old(node)
            }),
            !old(node).is_transitioning ==> r is Some && r->Some_0.0.wf() && r->Some_0.0 == (
            Demotion { target_epoch, target_block, has_executor, phase: r->Some_0.0.phase }),
            !old(node).is_transitioning && old(node).has_authority ==> {
                &&& r->Some_0.0.phase is Stopping
                &&& r->Some_0.1 is StopAuthority
                &&& *final(node) == (ConsensusNode {
                    is_transitioning: true,
                    has_authority: false,
                    ..*old(node)
                })
            },
            !old(node).is_transitioning && !old(node).has_authority ==> stopped(
                r->Some_0.0,
                ConsensusNode { is_transitioning: true, ..*old(node) },
                r->Some_0.0.phase,
                *final(node),
                r->Some_0.1,
            ),
    {
        if !node.begin_mode_change() {
            return None;
        }
        let mut d = Demotion {
            target_epoch,
            target_block,
            has_executor,
            phase: DemotionPhase::Stopping,
        };
        if node.has_authority {
            node.has_authority = false;
            return Some((d, DemotionAction::StopAuthority));
        }
        let a = d.on_stopped(node);
        Some((d, a))
    }

    fn on_stopped(&mut self, node: &mut ConsensusNode) -> (a: DemotionAction)
        ensures
            final(self).wf(),
            *final(self) == (Demotion { phase: final(self).phase, ..*old(self) }),
            stopped(*old(self), *old(node), final(self).phase, *final(node), a),
    {
        if self.has_executor {
            self.phase = DemotionPhase::Waiting {
                wait: DemotionWait::new(node.last_global_exec_index),
            };
            DemotionAction::AskLastBlock
        } else {
            self.begin_sync(node)
        }
    }

    fn begin_sync(&mut self, node: &mut ConsensusNode) -> (a: DemotionAction)
        ensures
            *final(self) == (Demotion { phase: DemotionPhase::Starting, ..*old(self) }),
            *final(node) == demoted(*old(node), old(self).target_epoch, old(self).target_block),
            a == (DemotionAction::StartSync { from: old(self).target_block }),
    {
        node.apply_demotion(self.target_epoch, self.target_block);
        self.phase = DemotionPhase::Starting;
        DemotionAction::StartSync { from: self.target_block }
    }

    /// Takes an event and gives what to do next, see [`demotion_step`].
    pub fn on_event(&mut self, node: &mut ConsensusNode, event: DemotionEvent) -> (a:
        DemotionAction)
        requires
            old(self).wf(),
        ensures
            final(self).wf(),
            demotion_step(*old(self), *old(node), event, *final(self), *final(node), a),
    {
        match self.phase {
            DemotionPhase::Stopping => match event {
                DemotionEvent::Stopped => self.on_stopped(node),
                _ => DemotionAction::Ignore,
            },
            DemotionPhase::Waiting { wait } => match event {
                DemotionEvent::LastBlock(b) => {
                    let mut w = wait;
                    match w.on_poll(b) {
                        DemotionStep::Wait => {
                            self.phase = DemotionPhase::Waiting { wait: w };
                            DemotionAction::AskLastBlockAgain
                        },
                        _ => self.begin_sync(node),
                    }
                },
                _ => DemotionAction::Ignore,
            },
            DemotionPhase::Starting => match event {
                DemotionEvent::Started => {
                    node.end_mode_change();
                    self.phase = DemotionPhase::Ended;
                    DemotionAction::Done
                },
                _ => DemotionAction::Ignore,
            },
            DemotionPhase::Ended => DemotionAction::Ignore,
        }
    }
}

/// The mark of a change is cleared whenever a change of mode ends.
pub proof fn law_mark_is_cleared(
    t: ModeTransition,
    n: ConsensusNode,
    e: ModeEvent,
    t2: ModeTransition,
    n2: ConsensusNode,
    a: ModeStep,
)
    requires
        mode_step(t, n, e, t2, n2, a),
        !(t.phase is Ended),
        t2.phase is Ended,
    ensures
        !n2.is_transitioning,
{
}

/// The consensus and the sync of a node never run at the same time after it
/// has taken its place.
pub proof fn law_place_excludes_sync(n: ConsensusNode, epoch: u64, index: u64, in_committee: bool)
    requires
        !n.has_authority,
    ensures
        !(with_place(n, epoch, index, in_committee).has_authority && with_place(
            n,
            epoch,
            index,
            in_committee,
        ).has_sync_task),
        with_place(n, epoch, index, in_committee).has_authority == in_committee,
{
}

/// A change of mode finds the source and the committee of its epoch, and then
/// the node takes its place in the epoch at the index that it has synced to: in
/// the committee it starts the consensus with the time that came with the
/// committee, and otherwise its sync starts anew. The change ends well only if
/// what was started runs.
pub proof fn law_place_is_taken(
    t: ModeTransition,
    n: ConsensusNode,
    timestamp: u64,
    in_committee: bool,
    ok: bool,
    t1: ModeTransition,
    n1: ConsensusNode,
    a1: ModeStep,
    t2: ModeTransition,
    n2: ConsensusNode,
    a2: ModeStep,
    t3: ModeTransition,
    n3: ConsensusNode,
    a3: ModeStep,
    t4: ModeTransition,
    n4: ConsensusNode,
    a4: ModeStep,
)
    requires
        t.phase is Source,
        n.boot_counter < u64::MAX,
        mode_step(t, n, ModeEvent::SourceFound(true), t1, n1, a1),
        mode_step(t1, n1, ModeEvent::CommitteeFetched(Some(timestamp)), t2, n2, a2),
        mode_step(t2, n2, ModeEvent::ModeTaken(Some(in_committee)), t3, n3, a3),
        mode_step(t3, n3, ModeEvent::Started(ok), t4, n4, a4),
    ensures
        a1 == (ModeStep::FetchCommittee { epoch: t.epoch }),
        n1 == n,
        a2 is TakeMode,
        n2 == n,
        in_committee ==> a3 == (ModeStep::StartAuthority {
            epoch: t.epoch,
            base: t.synced_index,
            timestamp,
            stop_sync: n.has_sync_task,
        }),
        !in_committee ==> a3 is RestartSync,
        n3.current_epoch == t.epoch,
        n3.last_global_exec_index == t.synced_index,
        in_committee ==> n3.has_authority && !n3.has_sync_task && n3.current_commit_index == 0
            && n3.boot_counter == n.boot_counter + 1,
        !in_committee ==> n3.has_authority == n.has_authority && n3.boot_counter == n.boot_counter
            && n3.current_commit_index == n.current_commit_index,
        !n3.has_sync_task,
        n3.is_transitioning == n.is_transitioning,
        n3.node_mode == n.node_mode,
        n3.own_index == n.own_index,
        ok ==> a4 is Done,
        !ok ==> a4 is Fail,
        !n4.is_transitioning,
        n4 == (ConsensusNode { is_transitioning: false, ..n3 }),
{
}

/// A change of mode fails exactly where its source, its committee or its place
/// cannot be had, or what it needs does not start; nothing else of the node
/// changes then.
pub proof fn law_mode_change_fails(
    t: ModeTransition,
    n: ConsensusNode,
    e: ModeEvent,
    t2: ModeTransition,
    n2: ConsensusNode,
    a: ModeStep,
)
    requires
        mode_step(t, n, e, t2, n2, a),
    ensures
        a is Fail <==> {
            ||| t.phase is Source && e == ModeEvent::SourceFound(false)
            ||| t.phase is Committee && e == ModeEvent::CommitteeFetched(None)
            ||| t.phase is Mode && e == ModeEvent::ModeTaken(None)
            ||| t.phase is Starting && e == ModeEvent::Started(false)
        },
        a is Fail ==> t2.phase is Ended && n2 == (ConsensusNode { is_transitioning: false, ..n }),
        a is Ignore ==> t2 == t && n2 == n,
        t2.epoch == t.epoch,
        t2.synced_index == t.synced_index,
{
}

/// A node that leaves the committee waits until its executor has the node's last
/// block, for six thousand polls at most, and then only syncs: from the target
/// block on, in the target epoch. Without an executor it does so at once.
pub proof fn law_demotion_waits_for_executor(
    d: Demotion,
    n: ConsensusNode,
    d1: Demotion,
    n1: ConsensusNode,
    a1: DemotionAction,
    block: Option<u64>,
    d2: Demotion,
    n2: ConsensusNode,
    a2: DemotionAction,
)
    requires
        d.phase is Stopping,
        demotion_step(d, n, DemotionEvent::Stopped, d1, n1, a1),
        demotion_step(d1, n1, DemotionEvent::LastBlock(block), d2, n2, a2),
    ensures
        d.has_executor ==> a1 is AskLastBlock && n1 == n,
        !d.has_executor ==> a1 == (DemotionAction::StartSync { from: d.target_block })
            && n1.node_mode is SyncOnly && n1.current_epoch == d.target_epoch
            && n1.last_global_exec_index == d.target_block && !n1.has_authority,
        d.has_executor && (block matches Some(b) && b >= n.last_global_exec_index) ==> a2 == (
        DemotionAction::StartSync { from: d.target_block }) && n2.node_mode is SyncOnly
            && n2.current_epoch == d.target_epoch && n2.last_global_exec_index == d.target_block
            && !n2.has_authority && n2.is_transitioning == n.is_transitioning,
        d.has_executor && !(block matches Some(b) && b >= n.last_global_exec_index) ==> a2
            is AskLastBlockAgain && n2 == n,
{
}

/// A demotion goes on without its executor only after the last poll, and its end
/// clears the mark.
pub proof fn law_demotion_ends(
    d: Demotion,
    n: ConsensusNode,
    wait: DemotionWait,
    d2: Demotion,
    n2: ConsensusNode,
    a: DemotionAction,
    e: Demotion,
    e2: Demotion,
    m2: ConsensusNode,
    b: DemotionAction,
)
    requires
        d.phase == (DemotionPhase::Waiting { wait }),
        wait.wf(),
        demotion_step(d, n, DemotionEvent::LastBlock(None), d2, n2, a),
        e.phase is Starting,
        demotion_step(e, n, DemotionEvent::Started, e2, m2, b),
    ensures
        wait.attempt + 1 < 6000 ==> a is AskLastBlockAgain && d2.phase == (DemotionPhase::Waiting {
            wait: DemotionWait { attempt: (wait.attempt + 1) as u64, ..wait },
        }),
        wait.attempt + 1 == 6000 ==> a == (DemotionAction::StartSync { from: d.target_block }),
        b is Done,
        e2.phase is Ended,
        m2 == (ConsensusNode { is_transitioning: false, ..n }),
{
}

/// An event that does not belong to where a demotion or a change of mode stands
/// changes nothing.
pub proof fn law_stray_events_are_ignored(
    d: Demotion,
    n: ConsensusNode,
    e: DemotionEvent,
    d2: Demotion,
    n2: ConsensusNode,
    a: DemotionAction,
    t: ModeTransition,
    f: ModeEvent,
    t2: ModeTransition,
    m2: ConsensusNode,
    b: ModeStep,
)
    requires
        demotion_step(d, n, e, d2, n2, a),
        d.phase is Stopping ==> !(e is Stopped),
        d.phase is Waiting ==> !(e is LastBlock),
        d.phase is Starting ==> !(e is Started),
        mode_step(t, n, f, t2, m2, b),
        t.phase is Source ==> !(f is SourceFound),
        t.phase is Committee ==> !(f is CommitteeFetched),
        t.phase is Mode ==> !(f is ModeTaken),
        t.phase is Starting ==> !(f is Started),
    ensures
        d2 == d,
        n2 == n,
        a is Ignore,
        t2 == t,
        m2 == n,
        b is Ignore,
{
}

} // verus!
