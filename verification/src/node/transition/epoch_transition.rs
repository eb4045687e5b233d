//! The change to a new epoch.
//!
//! A change is a sequence of steps. Each step is an action of the outside
//! world; what came of it is the event that leads to the next step.
use crate::node::consensus_node::ConsensusNode;
use crate::node::{NodeMode, PendingEpochTransition};
use vstd::prelude::*;

verus! {

/// How long a validator waits for its commits in fast mode, in seconds.
pub const FAST_COMMIT_WAIT_SECS: u64 = 5;

/// How long a validator waits for its commits, in seconds.
pub const COMMIT_WAIT_SECS: u64 = 10;

/// What a request for an epoch change leads to.
#[derive(Clone, Copy, Debug, PartialEq, Eq, Structural)]
pub enum RequestKind {
    /// The node is in that epoch but does not vote: it may become a validator.
    Upgrade,
    /// There is nothing to change.
    Skip,
    /// The node changes to the epoch.
    Full,
}

/// What a request for `new_epoch` leads to.
pub open spec fn request_kind(mode: NodeMode, current_epoch: u64, new_epoch: u64) -> RequestKind {
    if new_epoch > current_epoch {
        RequestKind::Full
    } else if new_epoch == current_epoch && mode is SyncOnly {
        RequestKind::Upgrade
    } else {
        RequestKind::Skip
    }
}

/// See [`request_kind`].
pub fn classify_request(mode: NodeMode, current_epoch: u64, new_epoch: u64) -> (k: RequestKind)
    ensures
        k == request_kind(mode, current_epoch, new_epoch),
{
    let sync_only: bool = mode == NodeMode::SyncOnly;
    if current_epoch == new_epoch && sync_only {
        return RequestKind::Upgrade;
    }
    if current_epoch >= new_epoch && !sync_only {
        return RequestKind::Skip;
    }
    if current_epoch > new_epoch {
        return RequestKind::Skip;
    }
    RequestKind::Full
}

/// The commit of the epoch that belongs to a global index, in 32 bits. An
/// index that is not ahead of the last one is taken as it is.
pub open spec fn target_commit_of(synced: u64, last: u64) -> u32 {
    if synced > last {
        ((synced - last) % 0x1_0000_0000) as u32
    } else {
        (synced as int % 0x1_0000_0000) as u32
    }
}

/// See [`target_commit_of`].
pub fn target_commit_index(synced: u64, last: u64) -> (c: u32)
    ensures
        c == target_commit_of(synced, last),
{
    if synced > last {
        ((synced - last) % 0x1_0000_0000) as u32
    } else {
        (synced % 0x1_0000_0000) as u32
    }
}

/// How long to wait for the commits of the old epoch: a node that does not
/// vote has nothing to wait for.
pub open spec fn commit_wait_of(mode: NodeMode, fast: bool) -> u64 {
    if mode is SyncOnly {
        0
    } else if fast {
        FAST_COMMIT_WAIT_SECS
    } else {
        COMMIT_WAIT_SECS
    }
}

/// See [`commit_wait_of`].
pub fn commit_wait_secs(mode: NodeMode, fast: bool) -> (s: u64)
    ensures
        s == commit_wait_of(mode, fast),
{
    if mode == NodeMode::SyncOnly {
        0
    } else if fast {
        FAST_COMMIT_WAIT_SECS
    } else {
        COMMIT_WAIT_SECS
    }
}

/// What is asked for: the epoch, the boundary block that the transaction
/// names, and the global index of the last block of the old epoch.
#[derive(Clone, Copy, Debug, PartialEq, Eq, Structural)]
pub struct EpochRequest {
    pub new_epoch: u64,
    pub boundary_block_from_tx: u64,
    pub synced_global_exec_index: u64,
}

/// Settings that a change goes by.
#[derive(Clone, Copy, Debug, PartialEq, Eq, Structural)]
pub struct TransitionSettings {
    pub executor_read_enabled: bool,
    pub fast: bool,
}

/// How far a change has come.
#[derive(Clone, Copy, Debug, PartialEq, Eq, Structural)]
pub enum Phase {
    /// The executor is told of the epoch, so that it can name the committee.
    Announcing,
    /// The node's role in the new epoch is found out.
    Role,
    /// The commits of the old epoch are waited for.
    Commits,
    /// It is found out how far the network is.
    Source,
    /// The executor has to answer once before anything is stopped.
    Probe { source_block: u64 },
    /// The consensus of the old epoch stops.
    Stopping { source_block: u64, expected: u64 },
    /// The executor has to confirm the blocks of the old epoch.
    Confirming { source_block: u64, expected: u64 },
    /// The executor has confirmed them; its last block is read once more.
    Reading { source_block: u64 },
    /// The clock is set for the new epoch.
    Clock { synced_index: u64 },
    /// The executor has to have the blocks up to the boundary.
    Boundary { synced_index: u64, timestamp: u64 },
    /// The node is in the new epoch; the executor changes to it.
    Advancing { synced_index: u64, timestamp: u64 },
    /// The executor is asked for the start of the epoch.
    Start { synced_index: u64, timestamp: u64 },
    /// The committee is fetched and the node takes its mode.
    Mode { base: u64, timestamp: u64 },
    /// What the mode needs is started.
    SetUp { base: u64, timestamp: u64 },
    /// Transactions of the old epoch are submitted again.
    Recovering { base: u64, timestamp: u64 },
    /// Transactions that waited are submitted.
    Submitting { base: u64, timestamp: u64 },
    /// A node that only syncs, but is in the committee, becomes a validator.
    Upgrading { timestamp: u64 },
    /// The change has ended.
    Ended,
}

/// Why a change ended early.
#[derive(Clone, Copy, Debug, PartialEq, Eq, Structural)]
pub enum TransitionError {
    /// The node's role could not be found out.
    Role,
    /// Data must not be read from the executor.
    ExecutorReadDisabled,
    /// No source for the committee was found.
    Source,
    /// The executor did not say what its last block is.
    LastBlock,
    /// The committee could not be fetched.
    Committee,
    /// What the mode needs could not be started.
    SetUp,
}

/// What has to be done next.
#[derive(Clone, Copy, Debug, PartialEq, Eq, Structural)]
pub enum TransitionAction {
    /// Tell the executor of an epoch and its boundary, with the present time.
    Announce { epoch: u64, boundary: u64 },
    DetermineRole,
    /// Wait for a commit, for some seconds.
    WaitCommits { target: u32, secs: u64 },
    DiscoverSource,
    AskLastBlock,
    /// Ask again after a pause of 100 ms.
    AskLastBlockAgain,
    /// Stop the consensus and keep its store open under an epoch.
    StopAuthority { store_epoch: u64 },
    /// Set the clock of the epoch: to the present time, or to 0.
    SetClock { epoch: u64, present: bool },
    /// The change waits until the executor has the boundary.
    Defer(PendingEpochTransition),
    /// Let the executor change to the epoch.
    Advance { epoch: u64, timestamp: u64, boundary: u64 },
    AskBoundary { epoch: u64 },
    /// Fetch the committee, after setting the clock if it differs.
    FetchCommittee { epoch: u64, timestamp: u64, clock_changed: bool },
    StartValidator { epoch: u64, base: u64, timestamp: u64 },
    StartSync { epoch: u64, base: u64, timestamp: u64 },
    Recover,
    SubmitQueued,
    /// Let the node become a validator within the epoch.
    Upgrade { epoch: u64, base: u64 },
    /// Compare with the executor; the change is complete.
    Verify { epoch: u64, timestamp: u64 },
    Fail(TransitionError),
    /// The event does not belong to the phase: nothing was done.
    Ignore,
}

/// What came of an action.
#[derive(Clone, Copy, Debug, PartialEq, Eq, Structural)]
pub enum TransitionEvent {
    /// The executor was told, with or without success.
    Announced,
    /// The role was found out, or not.
    RoleKnown(bool),
    /// The wait is over, in time or not.
    Waited,
    /// The source was found, with its last block.
    SourceFound(Option<u64>),
    /// The executor's last block.
    LastBlock(Option<u64>),
    AuthorityStopped,
    /// The time that the clock was set to.
    ClockSet(u64),
    /// The executor was asked to change, with or without success.
    Advanced,
    /// The executor's record of the epoch's start.
    BoundaryKnown(Option<EpochStart>),
    /// The committee was fetched and the mode set, or not.
    ModeSet(bool),
    /// What the mode needs was started, or not.
    Started(bool),
    Recovered,
    /// The transactions were submitted; whether the committee has the node.
    Submitted { in_committee: bool },
    /// The change of mode is over, with or without success.
    Upgraded,
}

/// The executor's record of the start of an epoch.
#[derive(Clone, Copy, Debug, PartialEq, Eq, Structural)]
pub struct EpochStart {
    pub timestamp_ms: u64,
    pub boundary_block: u64,
}

/// The part of a node's state that a change touches.
pub struct Progress {
    pub node_mode: NodeMode,
    pub current_epoch: u64,
    pub last_global_exec_index: u64,
    pub shared_last_global_exec_index: u64,
    pub current_commit_index: u32,
    pub boot_counter: u64,
    pub is_transitioning: bool,
    pub has_authority: bool,
    pub has_client: bool,
    pub has_sync_task: bool,
    pub execution_lock_epoch: u64,
    pub user_certs_open: bool,
}

/// The part of a node's state that a change touches.
pub open spec fn progress(n: ConsensusNode) -> Progress {
    Progress {
        node_mode: n.node_mode,
        current_epoch: n.current_epoch,
        last_global_exec_index: n.last_global_exec_index,
        shared_last_global_exec_index: n.shared_last_global_exec_index,
        current_commit_index: n.current_commit_index,
        boot_counter: n.boot_counter,
        is_transitioning: n.is_transitioning,
        has_authority: n.has_authority,
        has_client: n.has_client,
        has_sync_task: n.has_sync_task,
        execution_lock_epoch: n.execution_lock_epoch,
        user_certs_open: n.user_certs_open,
    }
}

/// `b` is `a` but for the part that a change touches and the changes that
/// wait.
pub open spec fn same_but_progress(a: ConsensusNode, b: ConsensusNode) -> bool {
    b == (ConsensusNode {
        node_mode: b.node_mode,
        current_epoch: b.current_epoch,
        last_global_exec_index: b.last_global_exec_index,
        shared_last_global_exec_index: b.shared_last_global_exec_index,
        current_commit_index: b.current_commit_index,
        boot_counter: b.boot_counter,
        is_transitioning: b.is_transitioning,
        has_authority: b.has_authority,
        has_client: b.has_client,
        has_sync_task: b.has_sync_task,
        execution_lock_epoch: b.execution_lock_epoch,
        user_certs_open: b.user_certs_open,
        pending_epoch_transitions: b.pending_epoch_transitions,
        ..a
    })
}

/// A step of a change: the phase and state after it, and what to do.
pub struct Step {
    pub phase: Phase,
    pub progress: Progress,
    pub action: TransitionAction,
}

/// The change ends early.
pub open spec fn failed(p: Progress, e: TransitionError) -> Step {
    Step {
        phase: Phase::Ended,
        progress: Progress { is_transitioning: false, ..p },
        action: TransitionAction::Fail(e),
    }
}

/// The change is complete: the node takes transactions again.
pub open spec fn completed(r: EpochRequest, timestamp: u64, p: Progress) -> Step {
    Step {
        phase: Phase::Ended,
        progress: Progress { user_certs_open: true, ..p },
        action: TransitionAction::Verify { epoch: r.new_epoch, timestamp },
    }
}

/// The last block of the old epoch: the executor's; or the source's, or the
/// node's own.
pub open spec fn synced_index_of(reported: Option<u64>, source_block: u64, own: u64) -> u64 {
    match reported {
        Some(b) => b,
        None => if source_block > 0 {
            source_block
        } else {
            own
        },
    }
}

/// The steps of a change.
pub open spec fn next_step(
    r: EpochRequest,
    settings: TransitionSettings,
    phase: Phase,
    p: Progress,
    e: TransitionEvent,
) -> Step {
    match (phase, e) {
        (Phase::Announcing, TransitionEvent::Announced) => Step {
            phase: Phase::Role,
            progress: p,
            action: TransitionAction::DetermineRole,
        },
        (Phase::Role, TransitionEvent::RoleKnown(ok)) => if !ok {
            failed(p, TransitionError::Role)
        } else {
            Step {
                phase: Phase::Commits,
                progress: Progress { user_certs_open: false, ..p },
                action: TransitionAction::WaitCommits {
                    target: target_commit_of(
                        r.synced_global_exec_index,
                        p.last_global_exec_index,
                    ),
                    secs: commit_wait_of(p.node_mode, settings.fast),
                },
            }
        },
        (Phase::Commits, TransitionEvent::Waited) => if !settings.executor_read_enabled {
            failed(p, TransitionError::ExecutorReadDisabled)
        } else {
            Step {
                phase: Phase::Source,
                progress: p,
                action: TransitionAction::DiscoverSource,
            }
        },
        (Phase::Source, TransitionEvent::SourceFound(s)) => match s {
            None => failed(p, TransitionError::Source),
            Some(source_block) => Step {
                phase: Phase::Probe { source_block },
                progress: p,
                action: TransitionAction::AskLastBlock,
            },
        },
        (Phase::Probe { source_block }, TransitionEvent::LastBlock(b)) => match b {
            None => failed(p, TransitionError::LastBlock),
            Some(_) => {
                let expected = p.shared_last_global_exec_index;
                if p.has_authority {
                    Step {
                        phase: Phase::Stopping { source_block, expected },
                        progress: Progress { has_authority: false, ..p },
                        action: TransitionAction::StopAuthority {
                            store_epoch: if r.new_epoch == 0 {
                                0
                            } else {
                                (r.new_epoch - 1) as u64
                            },
                        },
                    }
                } else {
                    Step {
                        phase: Phase::Confirming { source_block, expected },
                        progress: p,
                        action: TransitionAction::AskLastBlock,
                    }
                }
            },
        },
        (Phase::Stopping { source_block, expected }, TransitionEvent::AuthorityStopped) => Step {
            phase: Phase::Confirming { source_block, expected },
            progress: p,
            action: TransitionAction::AskLastBlock,
        },
        (Phase::Confirming { source_block, expected }, TransitionEvent::LastBlock(b)) => if b
            matches Some(n) && n >= expected {
            Step {
                phase: Phase::Reading { source_block },
                progress: p,
                action: TransitionAction::AskLastBlock,
            }
        } else {
            Step { phase, progress: p, action: TransitionAction::AskLastBlockAgain }
        },
        (Phase::Reading { source_block }, TransitionEvent::LastBlock(b)) => {
            let synced_index = synced_index_of(b, source_block, p.last_global_exec_index);
            Step {
                phase: Phase::Clock { synced_index },
                progress: p,
                action: TransitionAction::SetClock {
                    epoch: r.new_epoch,
                    present: r.boundary_block_from_tx > 0,
                },
            }
        },
        (Phase::Clock { synced_index }, TransitionEvent::ClockSet(timestamp)) => Step {
            phase: Phase::Boundary { synced_index, timestamp },
            progress: p,
            action: TransitionAction::AskLastBlock,
        },
        (Phase::Boundary { synced_index, timestamp }, TransitionEvent::LastBlock(b)) => {
            let at = match b {
                Some(n) => n,
                None => 0,
            };
            if at < r.synced_global_exec_index {
                Step {
                    phase: Phase::Ended,
                    progress: Progress {
                        current_commit_index: 0,
                        shared_last_global_exec_index: r.synced_global_exec_index,
                        last_global_exec_index: r.synced_global_exec_index,
                        is_transitioning: false,
                        ..p
                    },
                    action: TransitionAction::Defer(
                        PendingEpochTransition {
                            epoch: r.new_epoch,
                            timestamp_ms: timestamp,
                            boundary_block: r.synced_global_exec_index,
                        },
                    ),
                }
            } else {
                Step {
                    phase: Phase::Advancing { synced_index, timestamp },
                    progress: Progress {
                        current_epoch: r.new_epoch,
                        current_commit_index: 0,
                        shared_last_global_exec_index: synced_index,
                        last_global_exec_index: synced_index,
                        execution_lock_epoch: r.new_epoch,
                        ..p
                    },
                    action: TransitionAction::Advance {
                        epoch: r.new_epoch,
                        timestamp,
                        boundary: r.synced_global_exec_index,
                    },
                }
            }
        },
        (Phase::Advancing { synced_index, timestamp }, TransitionEvent::Advanced) => Step {
            phase: Phase::Start { synced_index, timestamp },
            progress: p,
            action: TransitionAction::AskBoundary { epoch: r.new_epoch },
        },
        (Phase::Start { synced_index, timestamp }, TransitionEvent::BoundaryKnown(s)) => {
            let base = match s {
                Some(x) => x.boundary_block,
                None => synced_index,
            };
            let time = match s {
                Some(x) => if x.timestamp_ms > 0 {
                    x.timestamp_ms
                } else {
                    timestamp
                },
                None => timestamp,
            };
            Step {
                phase: Phase::Mode { base, timestamp: time },
                progress: p,
                action: TransitionAction::FetchCommittee {
                    epoch: r.new_epoch,
                    timestamp: time,
                    clock_changed: time != timestamp,
                },
            }
        },
        (Phase::Mode { base, timestamp }, TransitionEvent::ModeSet(ok)) => if !ok {
            failed(p, TransitionError::Committee)
        } else if p.node_mode is Validator {
            Step {
                phase: Phase::SetUp { base, timestamp },
                progress: Progress {
                    boot_counter: (p.boot_counter + 1) as u64,
                    has_authority: true,
                    has_client: true,
                    ..p
                },
                action: TransitionAction::StartValidator { epoch: r.new_epoch, base, timestamp },
            }
        } else {
            Step {
                phase: Phase::SetUp { base, timestamp },
                progress: Progress {
                    has_authority: false,
                    has_client: false,
                    has_sync_task: true,
                    ..p
                },
                action: TransitionAction::StartSync { epoch: r.new_epoch, base, timestamp },
            }
        },
        (Phase::SetUp { base, timestamp }, TransitionEvent::Started(ok)) => if !ok {
            failed(p, TransitionError::SetUp)
        } else {
            Step {
                phase: Phase::Recovering { base, timestamp },
                progress: p,
                action: TransitionAction::Recover,
            }
        },
        (Phase::Recovering { base, timestamp }, TransitionEvent::Recovered) => Step {
            phase: Phase::Submitting { base, timestamp },
            progress: Progress { is_transitioning: false, ..p },
            action: TransitionAction::SubmitQueued,
        },
        (Phase::Submitting { base, timestamp }, TransitionEvent::Submitted { in_committee }) =>
            if p.node_mode is SyncOnly && in_committee {
                Step {
                    phase: Phase::Upgrading { timestamp },
                    progress: p,
                    action: TransitionAction::Upgrade { epoch: r.new_epoch, base },
                }
            } else {
                completed(r, timestamp, p)
            },
        (Phase::Upgrading { timestamp }, TransitionEvent::Upgraded) => completed(r, timestamp, p),
        _ => Step { phase, progress: p, action: TransitionAction::Ignore },
    }
}

/// A change that is under way.
pub struct EpochTransition {
    pub request: EpochRequest,
    pub settings: TransitionSettings,
    pub phase: Phase,
}

/// A change `t` of node `n` takes event `e` as [`next_step`] says: `t2` and `n2`
/// are what comes of it, `a` is what to do.
pub open spec fn follows(
    t: EpochTransition,
    n: ConsensusNode,
    e: TransitionEvent,
    t2: EpochTransition,
    n2: ConsensusNode,
    a: TransitionAction,
) -> bool {
    let s = next_step(t.request, t.settings, t.phase, progress(n), e);
    &&& t2 == (EpochTransition { phase: s.phase, ..t })
    &&& progress(n2) == s.progress
    &&& a == s.action
    &&& same_but_progress(n, n2)
    &&& n2.pending_epoch_transitions@ == match a {
        TransitionAction::Defer(d) => n.pending_epoch_transitions@.push(d),
        _ => n.pending_epoch_transitions@,
    }
}

/// The event makes the node start the consensus of the new epoch.
pub open spec fn starts_validator(t: EpochTransition, n: ConsensusNode, e: TransitionEvent) -> bool {
    t.phase is Mode && e == TransitionEvent::ModeSet(true) && n.node_mode is Validator
}

/// What starting a change leads to.
pub enum StartOutcome {
    /// The node may become a validator in its epoch.
    Upgrade,
    /// There is nothing to change.
    Skip,
    /// Another change is under way.
    Busy,
    /// The change has begun.
    Begun(EpochTransition),
}

impl EpochTransition {
    /// Starts a change. A second change while one is under way is dropped,
    /// and clears the mark.
    pub fn start(node: &mut ConsensusNode, request: EpochRequest, settings: TransitionSettings)
        -> (r: StartOutcome)
        ensures
            match request_kind(old(node).node_mode, old(node).current_epoch, request.new_epoch) {
                RequestKind::Upgrade => r is Upgrade && *final(node) == *old(node),
                RequestKind::Skip => r is Skip && *final(node) == *old(node),
                RequestKind::Full => if old(node).is_transitioning {
                    r is Busy && *final(node) == (ConsensusNode {
                        is_transitioning: false,
                        ..*old(node)
                    })
                } else {
                    &&& r matches StartOutcome::Begun(t)
                    &&& r->Begun_0 == (EpochTransition {
                        request,
                        settings,
                        phase: Phase::Announcing,
                    })
                    &&& *final(node) == (ConsensusNode { is_transitioning: true, ..*old(node) })
                },
            },
    {
        match classify_request(node.node_mode, node.current_epoch, request.new_epoch) {
            RequestKind::Upgrade => StartOutcome::Upgrade,
            RequestKind::Skip => StartOutcome::Skip,
            RequestKind::Full => {
                if node.is_transitioning {
                    node.is_transitioning = false;
                    StartOutcome::Busy
                } else {
                    node.is_transitioning = true;
                    StartOutcome::Begun(
                        EpochTransition { request, settings, phase: Phase::Announcing },
                    )
                }
            },
        }
    }

    /// What has to be done first.
    pub fn first_action(&self) -> (a: TransitionAction)
        ensures
            a == (TransitionAction::Announce {
                epoch: self.request.new_epoch,
                boundary: self.request.synced_global_exec_index,
            }),
    {
        TransitionAction::Announce {
            epoch: self.request.new_epoch,
            boundary: self.request.synced_global_exec_index,
        }
    }

    fn fail(&mut self, node: &mut ConsensusNode, e: TransitionError) -> (a: TransitionAction)
        ensures
            *final(self) == (EpochTransition { phase: Phase::Ended, ..*old(self) }),
            *final(node) == (ConsensusNode { is_transitioning: false, ..*old(node) }),
            a == TransitionAction::Fail(e),
    {
        self.phase = Phase::Ended;
        node.is_transitioning = false;
        TransitionAction::Fail(e)
    }

    /// The step that follows once the role is known.
    fn on_role(&mut self, node: &mut ConsensusNode, ok: bool) -> (action: TransitionAction)
        requires
            old(self).phase is Role,
        ensures
            follows(
                *old(self),
                *old(node),
                TransitionEvent::RoleKnown(ok),
                *final(self),
                *final(node),
                action,
            ),
    {
        if !ok {
            return self.fail(node, TransitionError::Role);
        }
        let target: u32 = target_commit_index(
            self.request.synced_global_exec_index,
            node.last_global_exec_index,
        );
        let secs: u64 = commit_wait_secs(node.node_mode, self.settings.fast);
        node.close_user_certs();
        self.phase = Phase::Commits;
        TransitionAction::WaitCommits { target, secs }
    }

    /// Steps before anything is stopped.
    fn on_preparation(&mut self, node: &mut ConsensusNode, event: TransitionEvent) -> (action:
        TransitionAction)
        requires
            old(self).phase is Announcing || old(self).phase is Role || old(
                self,
            ).phase is Commits || old(self).phase is Source,
        ensures
            follows(*old(self), *old(node), event, *final(self), *final(node), action),
    {
        match (self.phase, event) {
            (Phase::Announcing, TransitionEvent::Announced) => {
                self.phase = Phase::Role;
                TransitionAction::DetermineRole
            },
            (Phase::Role, TransitionEvent::RoleKnown(ok)) => self.on_role(node, ok),
            (Phase::Commits, TransitionEvent::Waited) => {
                if !self.settings.executor_read_enabled {
                    return self.fail(node, TransitionError::ExecutorReadDisabled);
                }
                self.phase = Phase::Source;
                TransitionAction::DiscoverSource
            },
            (Phase::Source, TransitionEvent::SourceFound(s)) => match s {
                None => self.fail(node, TransitionError::Source),
                Some(source_block) => {
                    self.phase = Phase::Probe { source_block };
                    TransitionAction::AskLastBlock
                },
            },
            _ => TransitionAction::Ignore,
        }
    }

    /// Steps that end the old epoch.
    fn on_old_epoch(&mut self, node: &mut ConsensusNode, event: TransitionEvent) -> (action:
        TransitionAction)
        requires
            old(self).phase is Probe || old(self).phase is Stopping || old(
                self,
            ).phase is Confirming || old(self).phase is Reading,
        ensures
            follows(*old(self), *old(node), event, *final(self), *final(node), action),
    {
        let r = self.request;
        match (self.phase, event) {
            (Phase::Probe { source_block }, TransitionEvent::LastBlock(b)) => match b {
                None => self.fail(node, TransitionError::LastBlock),
                Some(_) => {
                    let expected: u64 = node.shared_last_global_exec_index;
                    if node.has_authority {
                        node.has_authority = false;
                        self.phase = Phase::Stopping { source_block, expected };
                        TransitionAction::StopAuthority {
                            store_epoch: if r.new_epoch == 0 {
                                0
                            } else {
                                r.new_epoch - 1
                            },
                        }
                    } else {
                        self.phase = Phase::Confirming { source_block, expected };
                        TransitionAction::AskLastBlock
                    }
                },
            },
            (
                Phase::Stopping { source_block, expected },
                TransitionEvent::AuthorityStopped,
            ) => {
                self.phase = Phase::Confirming { source_block, expected };
                TransitionAction::AskLastBlock
            },
            (Phase::Confirming { source_block, expected }, TransitionEvent::LastBlock(b)) => {
                let confirmed: bool = match b {
                    Some(n) => n >= expected,
                    None => false,
                };
                if confirmed {
                    self.phase = Phase::Reading { source_block };
                    TransitionAction::AskLastBlock
                } else {
                    TransitionAction::AskLastBlockAgain
                }
            },
            (Phase::Reading { source_block }, TransitionEvent::LastBlock(b)) => {
                let synced_index: u64 = match b {
                    Some(n) => n,
                    None => {
                        if source_block > 0 {
                            source_block
                        } else {
                            node.last_global_exec_index
                        }
                    },
                };
                self.phase = Phase::Clock { synced_index };
                TransitionAction::SetClock {
                    epoch: r.new_epoch,
                    present: r.boundary_block_from_tx > 0,
                }
            },
            _ => TransitionAction::Ignore,
        }
    }

    /// Steps that begin the new epoch.
    fn on_new_epoch(&mut self, node: &mut ConsensusNode, event: TransitionEvent) -> (action:
        TransitionAction)
        requires
            old(self).phase is Clock || old(self).phase is Boundary || old(
                self,
            ).phase is Advancing || old(self).phase is Start,
        ensures
            follows(*old(self), *old(node), event, *final(self), *final(node), action),
    {
        let r = self.request;
        match (self.phase, event) {
            (Phase::Clock { synced_index }, TransitionEvent::ClockSet(timestamp)) => {
                self.phase = Phase::Boundary { synced_index, timestamp };
                TransitionAction::AskLastBlock
            },
            (Phase::Boundary { synced_index, timestamp }, TransitionEvent::LastBlock(b)) => {
                let at: u64 = match b {
                    Some(n) => n,
                    None => 0,
                };
                if at < r.synced_global_exec_index {
                    let t = PendingEpochTransition {
                        epoch: r.new_epoch,
                        timestamp_ms: timestamp,
                        boundary_block: r.synced_global_exec_index,
                    };
                    self.phase = Phase::Ended;
                    handle_deferred_epoch_transition(node, t);
                    TransitionAction::Defer(t)
                } else {
                    node.current_epoch = r.new_epoch;
                    node.current_commit_index = 0;
                    node.shared_last_global_exec_index = synced_index;
                    node.last_global_exec_index = synced_index;
                    node.update_execution_lock_epoch(r.new_epoch);
                    self.phase = Phase::Advancing { synced_index, timestamp };
                    TransitionAction::Advance {
                        epoch: r.new_epoch,
                        timestamp,
                        boundary: r.synced_global_exec_index,
                    }
                }
            },
            (Phase::Advancing { synced_index, timestamp }, TransitionEvent::Advanced) => {
                self.phase = Phase::Start { synced_index, timestamp };
                TransitionAction::AskBoundary { epoch: r.new_epoch }
            },
            (Phase::Start { synced_index, timestamp }, TransitionEvent::BoundaryKnown(s)) => {
                let base: u64 = match s {
                    Some(x) => x.boundary_block,
                    None => synced_index,
                };
                let time: u64 = match s {
                    Some(x) => {
                        if x.timestamp_ms > 0 {
                            x.timestamp_ms
                        } else {
                            timestamp
                        }
                    },
                    None => timestamp,
                };
                self.phase = Phase::Mode { base, timestamp: time };
                TransitionAction::FetchCommittee {
                    epoch: r.new_epoch,
                    timestamp: time,
                    clock_changed: time != timestamp,
                }
            },
            _ => TransitionAction::Ignore,
        }
    }

    /// Steps that start what the new epoch needs.
    fn on_start(&mut self, node: &mut ConsensusNode, event: TransitionEvent) -> (action:
        TransitionAction)
        requires
            starts_validator(*old(self), *old(node), event) ==> old(node).boot_counter < u64::MAX,
            old(self).phase is Mode || old(self).phase is SetUp || old(
                self,
            ).phase is Recovering || old(self).phase is Submitting || old(
                self,
            ).phase is Upgrading,
        ensures
            follows(*old(self), *old(node), event, *final(self), *final(node), action),
    {
        let r = self.request;
        match (self.phase, event) {
            (Phase::Mode { base, timestamp }, TransitionEvent::ModeSet(ok)) => {
                if !ok {
                    return self.fail(node, TransitionError::Committee);
                }
                self.phase = Phase::SetUp { base, timestamp };
                if node.node_mode == NodeMode::Validator {
                    node.boot_counter = node.boot_counter + 1;
                    node.has_authority = true;
                    node.has_client = true;
                    TransitionAction::StartValidator { epoch: r.new_epoch, base, timestamp }
                } else {
                    node.has_authority = false;
                    node.has_client = false;
                    node.has_sync_task = true;
                    TransitionAction::StartSync { epoch: r.new_epoch, base, timestamp }
                }
            },
            (Phase::SetUp { base, timestamp }, TransitionEvent::Started(ok)) => {
                if !ok {
                    return self.fail(node, TransitionError::SetUp);
                }
                self.phase = Phase::Recovering { base, timestamp };
                TransitionAction::Recover
            },
            (Phase::Recovering { base, timestamp }, TransitionEvent::Recovered) => {
                node.is_transitioning = false;
                self.phase = Phase::Submitting { base, timestamp };
                TransitionAction::SubmitQueued
            },
            (Phase::Submitting { base, timestamp }, TransitionEvent::Submitted { in_committee }) => {
                if node.needs_upgrade(in_committee) {
                    self.phase = Phase::Upgrading { timestamp };
                    return TransitionAction::Upgrade { epoch: r.new_epoch, base };
                }
                node.reset_reconfig_state();
                self.phase = Phase::Ended;
                TransitionAction::Verify { epoch: r.new_epoch, timestamp }
            },
            (Phase::Upgrading { timestamp }, TransitionEvent::Upgraded) => {
                node.reset_reconfig_state();
                self.phase = Phase::Ended;
                TransitionAction::Verify { epoch: r.new_epoch, timestamp }
            },
            _ => TransitionAction::Ignore,
        }
    }

    /// Takes an event and gives what to do next, see [`next_step`].
    pub fn on_event(&mut self, node: &mut ConsensusNode, event: TransitionEvent) -> (action:
        TransitionAction)
        requires
            starts_validator(*old(self), *old(node), event) ==> old(node).boot_counter < u64::MAX,
        ensures
            follows(*old(self), *old(node), event, *final(self), *final(node), action),
    {
        match self.phase {
            Phase::Announcing | Phase::Role | Phase::Commits | Phase::Source =>
                self.on_preparation(node, event),
            Phase::Probe { .. } | Phase::Stopping { .. } | Phase::Confirming { .. }
            | Phase::Reading { .. } => self.on_old_epoch(node, event),
            Phase::Clock { .. } | Phase::Boundary { .. } | Phase::Advancing { .. }
            | Phase::Start { .. } => self.on_new_epoch(node, event),
            Phase::Mode { .. } | Phase::SetUp { .. } | Phase::Recovering { .. }
            | Phase::Submitting { .. } | Phase::Upgrading { .. } => self.on_start(node, event),
            Phase::Ended => TransitionAction::Ignore,
        }
    }
}

/// Lets a change wait until the executor has its boundary: the node syncs from
/// that boundary on, and the change is kept. The node's epoch stays as it is.
pub fn handle_deferred_epoch_transition(node: &mut ConsensusNode, t: PendingEpochTransition)
    ensures
        final(node).pending_epoch_transitions@ == old(node).pending_epoch_transitions@.push(t),
        final(node).current_epoch == old(node).current_epoch,
        *final(node) == (ConsensusNode {
            current_commit_index: 0,
            shared_last_global_exec_index: t.boundary_block,
            last_global_exec_index: t.boundary_block,
            is_transitioning: false,
            pending_epoch_transitions: final(node).pending_epoch_transitions,
            ..*old(node)
        }),
{
    node.pending_epoch_transitions.push(t);
    node.current_commit_index = 0;
    node.shared_last_global_exec_index = t.boundary_block;
    node.last_global_exec_index = t.boundary_block;
    node.is_transitioning = false;
}

/// What holds of a node in each phase of a change: the old epoch lasts until
/// the executor has the blocks up to the boundary; the consensus of the old
/// epoch has stopped before its last block is read; and the mark of a change is
/// cleared when it ends.
pub open spec fn phase_invariant(r: EpochRequest, phase: Phase, p: Progress) -> bool {
    match phase {
        Phase::Announcing | Phase::Role | Phase::Commits | Phase::Source | Phase::Probe { .. } =>
            p.is_transitioning && p.current_epoch < r.new_epoch,
        Phase::Stopping { .. } | Phase::Confirming { .. } | Phase::Reading { .. }
        | Phase::Clock { .. } | Phase::Boundary { .. } => p.is_transitioning && p.current_epoch
            < r.new_epoch && !p.has_authority,
        Phase::Advancing { synced_index, .. } | Phase::Start { synced_index, .. } => {
            &&& p.is_transitioning
            &&& p.current_epoch == r.new_epoch
            &&& p.execution_lock_epoch == r.new_epoch
            &&& p.current_commit_index == 0
            &&& p.last_global_exec_index == synced_index
            &&& p.shared_last_global_exec_index == synced_index
            &&& !p.has_authority
        },
        Phase::Mode { .. } | Phase::SetUp { .. } | Phase::Recovering { .. } => p.is_transitioning
            && p.current_epoch == r.new_epoch && p.execution_lock_epoch == r.new_epoch,
        Phase::Submitting { .. } | Phase::Upgrading { .. } => !p.is_transitioning && p.current_epoch
            == r.new_epoch,
        Phase::Ended => !p.is_transitioning,
    }
}

/// Every step keeps what [`phase_invariant`] says.
pub proof fn law_steps_keep_invariant(
    r: EpochRequest,
    settings: TransitionSettings,
    phase: Phase,
    p: Progress,
    e: TransitionEvent,
)
    requires
        phase_invariant(r, phase, p),
    ensures
        phase_invariant(
            r,
            next_step(r, settings, phase, p, e).phase,
            next_step(r, settings, phase, p, e).progress,
        ),
{
}

/// The node leaves the old epoch only once the executor has said that it has
/// all blocks up to the boundary, and it asks for that only after the executor
/// has confirmed the blocks of the old epoch.
pub proof fn law_epoch_changes_once(
    r: EpochRequest,
    settings: TransitionSettings,
    phase: Phase,
    p: Progress,
    e: TransitionEvent,
)
    ensures
        next_step(r, settings, phase, p, e).progress.current_epoch != p.current_epoch ==> phase
            is Boundary && e is LastBlock && (match e->LastBlock_0 {
            Some(b) => b >= r.synced_global_exec_index,
            None => r.synced_global_exec_index == 0,
        }) && next_step(r, settings, phase, p, e).progress.current_epoch == r.new_epoch,
        next_step(r, settings, phase, p, e).phase is Boundary && !(phase is Boundary) ==> phase
            is Clock,
        next_step(r, settings, phase, p, e).phase is Clock && !(phase is Clock) ==> phase
            is Reading,
        next_step(r, settings, phase, p, e).phase is Reading && !(phase is Reading) ==> (phase
            matches Phase::Confirming { expected, .. } && e matches TransitionEvent::LastBlock(
            Some(b),
        ) && b >= expected),
{
}

/// A change that waits for the executor leaves the node in its epoch, so that
/// the request for it leads to the change when it comes again.
pub proof fn law_deferred_change_comes_again(
    r: EpochRequest,
    settings: TransitionSettings,
    phase: Phase,
    p: Progress,
    e: TransitionEvent,
)
    requires
        phase_invariant(r, phase, p),
        next_step(r, settings, phase, p, e).action is Defer,
    ensures
        next_step(r, settings, phase, p, e).progress.current_epoch == p.current_epoch,
        !next_step(r, settings, phase, p, e).progress.is_transitioning,
        request_kind(
            next_step(r, settings, phase, p, e).progress.node_mode,
            next_step(r, settings, phase, p, e).progress.current_epoch,
            r.new_epoch,
        ) is Full,
        next_step(r, settings, phase, p, e).action->Defer_0.epoch == r.new_epoch,
        next_step(r, settings, phase, p, e).action->Defer_0.boundary_block
            == r.synced_global_exec_index,
{
}

/// What the new epoch needs is started only if the executor has said that it
/// has all blocks up to the boundary; otherwise the change is kept for later.
pub proof fn law_boundary_before_start(
    r: EpochRequest,
    settings: TransitionSettings,
    phase: Phase,
    p: Progress,
    e: TransitionEvent,
)
    requires
        phase is Boundary,
        e is LastBlock,
    ensures
        (next_step(r, settings, phase, p, e).phase is Advancing <==> (match e->LastBlock_0 {
            Some(b) => b >= r.synced_global_exec_index,
            None => r.synced_global_exec_index == 0,
        })),
        !(next_step(r, settings, phase, p, e).phase is Advancing) ==> next_step(
            r,
            settings,
            phase,
            p,
            e,
        ).action is Defer,
{
}

/// The change of a node that only syncs is complete only once the committee of
/// the new epoch was found not to have it, or the node was let become a
/// validator.
pub proof fn law_members_are_upgraded(
    r: EpochRequest,
    settings: TransitionSettings,
    phase: Phase,
    p: Progress,
    e: TransitionEvent,
)
    requires
        next_step(r, settings, phase, p, e).action is Verify,
    ensures
        phase is Upgrading || !(p.node_mode is SyncOnly) || e == (TransitionEvent::Submitted {
            in_committee: false,
        }),
{
}

/// A request for an epoch that the node has left, or that it takes part in
/// already, changes nothing.
pub proof fn law_no_second_change(mode: NodeMode, current_epoch: u64, new_epoch: u64)
    requires
        new_epoch <= current_epoch,
    ensures
        !(request_kind(mode, current_epoch, new_epoch) is Full),
        !(mode is SyncOnly) || new_epoch < current_epoch ==> request_kind(
            mode,
            current_epoch,
            new_epoch,
        ) is Skip,
{
}

/// A moment of a change: where it stands, and the event that it takes there.
pub struct Turn {
    pub phase: Phase,
    pub progress: Progress,
    pub event: TransitionEvent,
}

/// What may happen to a node between two events of a change: its mode and its
/// tasks change, the consensus stops, and commits are counted as long as it
/// runs.
pub open spec fn touched_outside(before: Progress, after: Progress) -> bool {
    &&& after == (Progress {
        node_mode: after.node_mode,
        has_authority: after.has_authority,
        has_client: after.has_client,
        has_sync_task: after.has_sync_task,
        current_commit_index: after.current_commit_index,
        shared_last_global_exec_index: after.shared_last_global_exec_index,
        ..before
    })
    &&& after.has_authority ==> before.has_authority
    &&& !before.has_authority ==> after.current_commit_index == before.current_commit_index
        && after.shared_last_global_exec_index == before.shared_last_global_exec_index
}

/// What a change of mode may do to a node once it is over: its epoch and its
/// mark are as before.
pub open spec fn touched_by_upgrade(before: Progress, after: Progress) -> bool {
    after.current_epoch == before.current_epoch && after.is_transitioning == before.is_transitioning
}

/// The moments of a change one after the other, from its beginning on.
pub open spec fn is_course(r: EpochRequest, settings: TransitionSettings, t: Seq<Turn>) -> bool {
    &&& t.len() > 0 ==> t[0].phase is Announcing && t[0].progress.is_transitioning
        && t[0].progress.current_epoch < r.new_epoch
    &&& forall|i: int|
        #![trigger t[i + 1]]
        0 <= i < t.len() - 1 ==> {
            let s = next_step(r, settings, t[i].phase, t[i].progress, t[i].event);
            &&& t[i + 1].phase == s.phase
            &&& touched_outside(s.progress, t[i + 1].progress) || (s.phase is Upgrading
                && touched_by_upgrade(s.progress, t[i + 1].progress))
        }
}

/// Whatever is reported during a change, and in whatever order,
/// [`phase_invariant`] holds at every moment.
pub proof fn law_course_keeps_invariant(
    r: EpochRequest,
    settings: TransitionSettings,
    t: Seq<Turn>,
    i: int,
)
    requires
        is_course(r, settings, t),
        0 <= i < t.len(),
    ensures
        phase_invariant(r, t[i].phase, t[i].progress),
    decreases i,
{
    if i > 0 {
        law_course_keeps_invariant(r, settings, t, i - 1);
        let before = t[i - 1];
        assert(t[i - 1 + 1] == t[i]);
        law_steps_keep_invariant(r, settings, before.phase, before.progress, before.event);
    }
}

/// The executor confirms the blocks of the old epoch: it has the last one that
/// was counted.
pub open spec fn confirms(turn: Turn) -> bool {
    match (turn.phase, turn.event) {
        (Phase::Confirming { expected, .. }, TransitionEvent::LastBlock(Some(b))) => b >= expected,
        _ => false,
    }
}

/// The executor has confirmed the blocks of the old epoch at a moment before
/// `i`.
pub open spec fn confirmed_before(t: Seq<Turn>, i: int) -> bool {
    exists|j: int| 0 <= j < i && confirms(#[trigger] t[j])
}

/// The change is past the end of the old epoch.
pub open spec fn past_old_epoch(phase: Phase) -> bool {
    match phase {
        Phase::Reading { .. } | Phase::Clock { .. } | Phase::Boundary { .. }
        | Phase::Advancing { .. } | Phase::Start { .. } | Phase::Mode { .. } | Phase::SetUp { .. }
        | Phase::Recovering { .. } | Phase::Submitting { .. } | Phase::Upgrading { .. } => true,
        _ => false,
    }
}

/// A node is in the new epoch only after the executor has confirmed all blocks
/// that the consensus of the old epoch had counted when it was stopped.
pub proof fn law_old_blocks_confirmed_first(
    r: EpochRequest,
    settings: TransitionSettings,
    t: Seq<Turn>,
    i: int,
)
    requires
        is_course(r, settings, t),
        0 <= i < t.len(),
    ensures
        past_old_epoch(t[i].phase) || t[i].progress.current_epoch == r.new_epoch
            ==> confirmed_before(t, i),
    decreases i,
{
    if i > 0 {
        law_old_blocks_confirmed_first(r, settings, t, i - 1);
        let before = t[i - 1];
        assert(t[i - 1 + 1] == t[i]);
        if past_old_epoch(t[i].phase) || t[i].progress.current_epoch == r.new_epoch {
            if confirmed_before(t, i - 1) {
                let j = choose|j: int| 0 <= j < i - 1 && confirms(#[trigger] t[j]);
                assert(confirms(t[j]));
            } else {
                law_course_keeps_invariant(r, settings, t, i - 1);
                assert(confirms(before));
            }
        }
    }
}

/// All nodes start an epoch with the executor's record of it: whatever time a
/// node had set its clock to and whatever block it had read, it goes on with the
/// time and the boundary block that the executor reports, so two nodes with the
/// same report go on alike.
pub proof fn law_executor_time_decides(
    r: EpochRequest,
    settings: TransitionSettings,
    synced_a: u64,
    time_a: u64,
    a: Progress,
    synced_b: u64,
    time_b: u64,
    b: Progress,
    x: EpochStart,
)
    requires
        x.timestamp_ms > 0,
    ensures
        ({
            let e = TransitionEvent::BoundaryKnown(Some(x));
            let phase_a = Phase::Start { synced_index: synced_a, timestamp: time_a };
            let phase_b = Phase::Start { synced_index: synced_b, timestamp: time_b };
            let s = next_step(r, settings, phase_a, a, e);
            let t = next_step(r, settings, phase_b, b, e);
            &&& s.action == (TransitionAction::FetchCommittee {
                epoch: r.new_epoch,
                timestamp: x.timestamp_ms,
                clock_changed: x.timestamp_ms != time_a,
            })
            &&& s.phase == (Phase::Mode { base: x.boundary_block, timestamp: x.timestamp_ms })
            &&& s.phase == t.phase
            &&& s.progress == a
        }),
{
}

/// Where the executor has no record of an epoch, or none of its time, the node
/// goes on with what it has: the block that it read, and the time that it set.
pub proof fn law_own_record_without_executors(
    r: EpochRequest,
    settings: TransitionSettings,
    synced_index: u64,
    timestamp: u64,
    p: Progress,
    boundary_block: u64,
)
    ensures
        ({
            let phase = Phase::Start { synced_index, timestamp };
            let none = next_step(r, settings, phase, p, TransitionEvent::BoundaryKnown(None));
            let timeless = next_step(
                r,
                settings,
                phase,
                p,
                TransitionEvent::BoundaryKnown(Some(EpochStart { timestamp_ms: 0, boundary_block })),
            );
            let fetch = TransitionAction::FetchCommittee {
                epoch: r.new_epoch,
                timestamp,
                clock_changed: false,
            };
            &&& none.action == fetch && none.phase == (Phase::Mode { base: synced_index, timestamp })
            &&& timeless.action == fetch && timeless.phase == (Phase::Mode {
                base: boundary_block,
                timestamp,
            })
        }),
{
}

/// What a node starts in the new epoch is counted from the boundary block and
/// has the time that were agreed on: a validator starts the consensus, with one
/// boot more, any other node a sync. The same time is compared with the
/// executor's at the end.
pub proof fn law_epoch_starts_as_agreed(
    r: EpochRequest,
    settings: TransitionSettings,
    base: u64,
    timestamp: u64,
    p: Progress,
    in_committee: bool,
)
    requires
        p.boot_counter < u64::MAX,
    ensures
        ({
            let mode = Phase::Mode { base, timestamp };
            let s = next_step(r, settings, mode, p, TransitionEvent::ModeSet(true));
            let t = next_step(r, settings, s.phase, s.progress, TransitionEvent::Started(true));
            let u = next_step(r, settings, t.phase, t.progress, TransitionEvent::Recovered);
            let v = next_step(
                r,
                settings,
                u.phase,
                u.progress,
                TransitionEvent::Submitted { in_committee },
            );
            let w = next_step(r, settings, v.phase, v.progress, TransitionEvent::Upgraded);
            let voting = p.node_mode is Validator;
            let upgrades = p.node_mode is SyncOnly && in_committee;
            let end = if upgrades {
                w
            } else {
                v
            };
            &&& voting ==> s.action == (TransitionAction::StartValidator {
                epoch: r.new_epoch,
                base,
                timestamp,
            }) && s.progress == (Progress {
                boot_counter: (p.boot_counter + 1) as u64,
                has_authority: true,
                has_client: true,
                ..p
            })
            &&& !voting ==> s.action == (TransitionAction::StartSync {
                epoch: r.new_epoch,
                base,
                timestamp,
            }) && s.progress == (Progress {
                has_authority: false,
                has_client: false,
                has_sync_task: true,
                ..p
            })
            &&& t.action is Recover && t.progress == s.progress
            &&& u.action is SubmitQueued && !u.progress.is_transitioning
            &&& upgrades ==> v.action == (TransitionAction::Upgrade { epoch: r.new_epoch, base })
                && v.progress.user_certs_open == p.user_certs_open
            &&& end.action == (TransitionAction::Verify { epoch: r.new_epoch, timestamp })
            &&& end.phase is Ended
            &&& end.progress == (Progress {
                is_transitioning: false,
                user_certs_open: true,
                ..s.progress
            })
        }),
{
}

/// A node that has announced the epoch finds out its role, closes itself for
/// transactions, waits for the commits of the old epoch, and then asks how far
/// the network and the executor are. Nothing else of it changes meanwhile.
pub proof fn law_change_is_prepared(
    r: EpochRequest,
    settings: TransitionSettings,
    p: Progress,
    source_block: u64,
    last: u64,
)
    requires
        settings.executor_read_enabled,
    ensures
        ({
            let a = next_step(r, settings, Phase::Announcing, p, TransitionEvent::Announced);
            let b = next_step(r, settings, a.phase, a.progress, TransitionEvent::RoleKnown(true));
            let c = next_step(r, settings, b.phase, b.progress, TransitionEvent::Waited);
            let d = next_step(
                r,
                settings,
                c.phase,
                c.progress,
                TransitionEvent::SourceFound(Some(source_block)),
            );
            let e = next_step(
                r,
                settings,
                d.phase,
                d.progress,
                TransitionEvent::LastBlock(Some(last)),
            );
            let closed = Progress { user_certs_open: false, ..p };
            &&& a.action is DetermineRole && a.progress == p
            &&& b.action matches TransitionAction::WaitCommits { target, secs }
            &&& p.node_mode is SyncOnly ==> b.action->secs == 0
            &&& !(p.node_mode is SyncOnly) && settings.fast ==> b.action->secs == 5
            &&& !(p.node_mode is SyncOnly) && !settings.fast ==> b.action->secs == 10
            &&& r.synced_global_exec_index > p.last_global_exec_index ==> b.action->target == (
            r.synced_global_exec_index - p.last_global_exec_index) % 0x1_0000_0000
            &&& r.synced_global_exec_index <= p.last_global_exec_index ==> b.action->target
                == r.synced_global_exec_index % 0x1_0000_0000
            &&& b.progress == closed
            &&& c.action is DiscoverSource && c.progress == closed
            &&& d.action is AskLastBlock && d.progress == closed
            &&& p.has_authority ==> e.action is StopAuthority && e.progress == (Progress {
                has_authority: false,
                ..closed
            })
            &&& p.has_authority && r.new_epoch > 0 ==> e.action == (
            TransitionAction::StopAuthority { store_epoch: (r.new_epoch - 1) as u64 })
            &&& !p.has_authority ==> e.action is AskLastBlock && e.progress == closed
        }),
{
}

/// The executor has to confirm the last block that was counted when the
/// consensus of the old epoch stopped: it is asked again until it has that
/// block, and asked once more when it has.
pub proof fn law_executor_confirms_counted_block(
    r: EpochRequest,
    settings: TransitionSettings,
    p: Progress,
    q: Progress,
    source_block: u64,
    first: u64,
    answer: Option<u64>,
)
    ensures
        ({
            let probe = next_step(
                r,
                settings,
                Phase::Probe { source_block },
                p,
                TransitionEvent::LastBlock(Some(first)),
            );
            let phase = if p.has_authority {
                next_step(r, settings, probe.phase, q, TransitionEvent::AuthorityStopped).phase
            } else {
                probe.phase
            };
            let s = next_step(r, settings, phase, q, TransitionEvent::LastBlock(answer));
            let has_it = answer matches Some(n) && n >= p.shared_last_global_exec_index;
            &&& has_it ==> s.action is AskLastBlock && s.phase == (Phase::Reading { source_block })
            &&& !has_it ==> s.action is AskLastBlockAgain && s.phase == phase
            &&& s.progress == q
        }),
{
}

/// The block that the executor reports after it has confirmed the old epoch is
/// the one that the node goes on from; without a report the source's, and
/// without that its own. The executor changes to the epoch at the boundary that
/// was asked for, with the time of the clock.
pub proof fn law_node_goes_on_from_report(
    r: EpochRequest,
    settings: TransitionSettings,
    p: Progress,
    source_block: u64,
    report: Option<u64>,
    time: u64,
    at: u64,
)
    requires
        at >= r.synced_global_exec_index,
    ensures
        ({
            let a = next_step(
                r,
                settings,
                Phase::Reading { source_block },
                p,
                TransitionEvent::LastBlock(report),
            );
            let b = next_step(r, settings, a.phase, a.progress, TransitionEvent::ClockSet(time));
            let c = next_step(
                r,
                settings,
                b.phase,
                b.progress,
                TransitionEvent::LastBlock(Some(at)),
            );
            let d = next_step(r, settings, c.phase, c.progress, TransitionEvent::Advanced);
            &&& a.action == (TransitionAction::SetClock {
                epoch: r.new_epoch,
                present: r.boundary_block_from_tx > 0,
            })
            &&& a.progress == p && b.progress == p
            &&& b.action is AskLastBlock
            &&& c.action == (TransitionAction::Advance {
                epoch: r.new_epoch,
                timestamp: time,
                boundary: r.synced_global_exec_index,
            })
            &&& report matches Some(n) ==> c.progress.last_global_exec_index == n
            &&& report is None && source_block > 0 ==> c.progress.last_global_exec_index
                == source_block
            &&& report is None && source_block == 0 ==> c.progress.last_global_exec_index
                == p.last_global_exec_index
            &&& c.progress == (Progress {
                current_epoch: r.new_epoch,
                execution_lock_epoch: r.new_epoch,
                current_commit_index: 0,
                shared_last_global_exec_index: c.progress.last_global_exec_index,
                last_global_exec_index: c.progress.last_global_exec_index,
                ..p
            })
            &&& d.action == (TransitionAction::AskBoundary { epoch: r.new_epoch })
            &&& d.phase == (Phase::Start {
                synced_index: c.progress.last_global_exec_index,
                timestamp: time,
            })
            &&& d.progress == c.progress
        }),
{
}

/// A change that the executor is not ready for is kept with the epoch, the
/// boundary that was asked for and the time of the clock, and the node syncs
/// from that boundary on, in its old epoch.
pub proof fn law_deferred_change_is_kept(
    r: EpochRequest,
    settings: TransitionSettings,
    p: Progress,
    synced_index: u64,
    timestamp: u64,
    answer: Option<u64>,
)
    requires
        answer matches Some(n) ==> n < r.synced_global_exec_index,
        r.synced_global_exec_index > 0,
    ensures
        ({
            let s = next_step(
                r,
                settings,
                Phase::Boundary { synced_index, timestamp },
                p,
                TransitionEvent::LastBlock(answer),
            );
            &&& s.action == TransitionAction::Defer(
                PendingEpochTransition {
                    epoch: r.new_epoch,
                    timestamp_ms: timestamp,
                    boundary_block: r.synced_global_exec_index,
                },
            )
            &&& s.phase is Ended
            &&& s.progress == (Progress {
                current_commit_index: 0,
                shared_last_global_exec_index: r.synced_global_exec_index,
                last_global_exec_index: r.synced_global_exec_index,
                is_transitioning: false,
                ..p
            })
        }),
{
}

/// A change ends early exactly where something that it needs cannot be had, and
/// says which: the role, the executor's data, the source, the executor's last
/// block, the committee, or what the mode needs. The mark is cleared, and the
/// node is otherwise as it was.
pub proof fn law_change_fails_for_a_reason(
    r: EpochRequest,
    settings: TransitionSettings,
    phase: Phase,
    p: Progress,
    e: TransitionEvent,
)
    ensures
        ({
            let s = next_step(r, settings, phase, p, e);
            &&& phase is Role && e == TransitionEvent::RoleKnown(false) ==> s.action
                == TransitionAction::Fail(TransitionError::Role)
            &&& phase is Commits && e is Waited && !settings.executor_read_enabled ==> s.action
                == TransitionAction::Fail(TransitionError::ExecutorReadDisabled)
            &&& phase is Source && e == TransitionEvent::SourceFound(None) ==> s.action
                == TransitionAction::Fail(TransitionError::Source)
            &&& phase is Probe && e == TransitionEvent::LastBlock(None) ==> s.action
                == TransitionAction::Fail(TransitionError::LastBlock)
            &&& phase is Mode && e == TransitionEvent::ModeSet(false) ==> s.action
                == TransitionAction::Fail(TransitionError::Committee)
            &&& phase is SetUp && e == TransitionEvent::Started(false) ==> s.action
                == TransitionAction::Fail(TransitionError::SetUp)
            &&& s.action is Fail ==> {
                ||| phase is Role && e == TransitionEvent::RoleKnown(false)
                ||| phase is Commits && e is Waited && !settings.executor_read_enabled
                ||| phase is Source && e == TransitionEvent::SourceFound(None)
                ||| phase is Probe && e == TransitionEvent::LastBlock(None)
                ||| phase is Mode && e == TransitionEvent::ModeSet(false)
                ||| phase is SetUp && e == TransitionEvent::Started(false)
            }
            &&& s.action is Fail ==> s.phase is Ended && s.progress == (Progress {
                is_transitioning: false,
                ..p
            })
            &&& s.action is Ignore ==> s.phase == phase && s.progress == p
            &&& phase is Ended ==> s.action is Ignore
        }),
{
}

/// A request for a later epoch changes to it; one for the epoch that a node is
/// in lets it become a validator if it only syncs; any other one changes
/// nothing.
pub proof fn law_requests_by_epoch(mode: NodeMode, current_epoch: u64, new_epoch: u64)
    ensures
        request_kind(mode, current_epoch, new_epoch) is Full <==> new_epoch > current_epoch,
        request_kind(mode, current_epoch, new_epoch) is Upgrade <==> new_epoch == current_epoch
            && mode is SyncOnly,
{
}

} // verus!
