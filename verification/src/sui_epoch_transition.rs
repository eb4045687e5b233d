//! Epoch changes by proposal and vote, with a lock that keeps execution out
//! while the node reconfigures.
use vstd::prelude::*;
use vstd::string::*;

verus! {

/// How far ahead of the present commit a proposal made on the executor's
/// request lies.
pub const PROPOSAL_LEAD: u32 = 100;

/// Why a reconfiguration could not begin.
#[derive(Clone, Copy, Debug, PartialEq, Eq, Structural)]
pub enum ReconfigError {
    /// One is under way.
    AlreadyReconfiguring,
    /// Execution holds the lock.
    LockHeld,
}

impl ReconfigError {
    /// What to tell the user.
    pub fn message(&self) -> (s: String)
        ensures
            s@ == match self {
                ReconfigError::AlreadyReconfiguring => "Already reconfiguring"@,
                ReconfigError::LockHeld => "Failed to acquire execution lock"@,
            },
    {
        match self {
            ReconfigError::AlreadyReconfiguring => String::from_str("Already reconfiguring"),
            ReconfigError::LockHeld => String::from_str("Failed to acquire execution lock"),
        }
    }
}

/// Keeps execution out while the node reconfigures.
#[derive(Clone, Copy, Debug, PartialEq, Eq, Structural)]
pub struct SuiReconfigurationManager {
    /// The lock is held, by execution or by a reconfiguration.
    pub locked: bool,
    pub reconfiguring: bool,
}

/// What taking the lock for a reconfiguration gives.
pub open spec fn acquire_result(m: SuiReconfigurationManager) -> Result<(), ReconfigError> {
    if m.reconfiguring {
        Err(ReconfigError::AlreadyReconfiguring)
    } else if m.locked {
        Err(ReconfigError::LockHeld)
    } else {
        Ok(())
    }
}

/// The manager after an attempt to take the lock.
pub open spec fn after_acquire(m: SuiReconfigurationManager) -> SuiReconfigurationManager {
    if acquire_result(m) is Ok {
        SuiReconfigurationManager { locked: true, reconfiguring: true }
    } else {
        m
    }
}

/// The manager after a reconfiguration.
pub open spec fn after_release() -> SuiReconfigurationManager {
    SuiReconfigurationManager { locked: false, reconfiguring: false }
}

impl SuiReconfigurationManager {
    /// A reconfiguration holds the lock.
    pub open spec fn wf(&self) -> bool {
        self.reconfiguring ==> self.locked
    }

    /// Nothing holds the lock.
    pub fn new() -> (m: Self)
        ensures
            m.wf(),
            m == (SuiReconfigurationManager { locked: false, reconfiguring: false }),
    {
        SuiReconfigurationManager { locked: false, reconfiguring: false }
    }

    /// Takes the lock for a reconfiguration.
    pub fn acquire_execution_lock_for_reconfiguration(&mut self) -> (r: Result<(), ReconfigError>)
        requires
            old(self).wf(),
        ensures
            final(self).wf(),
            r == acquire_result(*old(self)),
            *final(self) == after_acquire(*old(self)),
    {
        if self.reconfiguring {
            return Err(ReconfigError::AlreadyReconfiguring);
        }
        if self.locked {
            return Err(ReconfigError::LockHeld);
        }
        self.locked = true;
        self.reconfiguring = true;
        Ok(())
    }

    /// Gives the lock back after a reconfiguration.
    pub fn release(&mut self)
        requires
            old(self).reconfiguring,
        ensures
            final(self).wf(),
            *final(self) == after_release(),
    {
        self.locked = false;
        self.reconfiguring = false;
    }
}

/// A proposal to make: for which epoch, at which commit, by whom.
#[derive(Clone, Copy, Debug, PartialEq, Eq, Structural)]
pub struct ProposalPlan {
    pub new_epoch: u64,
    pub commit_index: u32,
    pub proposer: u32,
}

/// Proposes epoch changes.
#[derive(Clone, Copy, Debug, PartialEq, Eq, Structural)]
pub struct SuiEpochTransitionManager {
    pub current_epoch: u64,
    pub own_index: u32,
}

impl SuiEpochTransitionManager {
    /// A manager in an epoch, for the member at a place of the committee.
    pub fn new(current_epoch: u64, own_index: u32) -> (m: Self)
        ensures
            m == (SuiEpochTransitionManager { current_epoch, own_index }),
    {
        SuiEpochTransitionManager { current_epoch, own_index }
    }

    /// What a commit leads to: nothing, as epochs change at checkpoints only.
    pub fn check_and_trigger_epoch_transition(&self, commit_index: u32) -> (p: Option<ProposalPlan>)
        ensures
            p is None,
    {
        None
    }

    /// The proposal for an epoch at a commit, unless one for that epoch is
    /// pending.
    pub fn plan_integrated(&self, has_pending: bool, new_epoch: u64, commit_index: u32) -> (p:
        Option<ProposalPlan>)
        ensures
            p == if has_pending {
                None
            } else {
                Some(ProposalPlan { new_epoch, commit_index, proposer: self.own_index })
            },
    {
        if has_pending {
            None
        } else {
            Some(ProposalPlan { new_epoch, commit_index, proposer: self.own_index })
        }
    }

    /// The proposal for the next epoch once enough blocks were counted.
    pub fn trigger_block_based_epoch_transition(&self) -> (p: ProposalPlan)
        requires
            self.current_epoch < u64::MAX,
        ensures
            p == (ProposalPlan {
                new_epoch: (self.current_epoch + 1) as u64,
                commit_index: 0,
                proposer: self.own_index,
            }),
    {
        ProposalPlan {
            new_epoch: self.current_epoch + 1,
            commit_index: 0,
            proposer: self.own_index,
        }
    }

    /// The proposal for the executor's epoch.
    pub fn plan_for_executor(&self, go_epoch: u64) -> (p: ProposalPlan)
        ensures
            p == (ProposalPlan {
                new_epoch: go_epoch,
                commit_index: PROPOSAL_LEAD,
                proposer: self.own_index,
            }),
    {
        ProposalPlan {
            new_epoch: go_epoch,
            commit_index: PROPOSAL_LEAD,
            proposer: self.own_index,
        }
    }

    /// Whether the votes suffice: only a vote that was counted and came out in
    /// favour does.
    pub fn quorum_reached(counted: Option<bool>) -> (b: bool)
        ensures
            b == (counted == Some(true)),
    {
        match counted {
            Some(b) => b,
            None => false,
        }
    }

    /// The start time of a proposed epoch: the executor's, or the present
    /// time.
    pub fn proposal_timestamp(executor: Option<u64>, now_ms: u64) -> (t: u64)
        ensures
            t == match executor {
                Some(x) => x,
                None => now_ms,
            },
    {
        match executor {
            Some(x) => x,
            None => now_ms,
        }
    }

    /// Notes the epoch after a change.
    pub fn update_current_epoch(&mut self, new_epoch: u64)
        ensures
            *final(self) == (SuiEpochTransitionManager { current_epoch: new_epoch, ..*old(self) }),
    {
        self.current_epoch = new_epoch;
    }
}

/// How far a proposal has come.
#[derive(Clone, Copy, Debug, PartialEq, Eq, Structural)]
pub enum ProposalPhase {
    /// The proposal is made.
    Proposing,
    /// The proposer votes for it.
    Voting,
    /// The votes are counted.
    Counting,
    /// There is nothing left to do.
    Ended,
}

/// What has to be done next for a proposal.
#[derive(Clone, Copy, Debug, PartialEq, Eq, Structural)]
pub enum ProposalAction {
    Propose(ProposalPlan),
    Vote,
    CountVotes,
    /// The votes suffice: the node changes to the proposed epoch.
    Reconfigure { new_epoch: u64, commit_index: u32 },
    Done,
    Fail,
    /// The event does not belong to the phase: nothing was done.
    Ignore,
}

/// What came of an action.
#[derive(Clone, Copy, Debug, PartialEq, Eq, Structural)]
pub enum ProposalEvent {
    /// The proposal was made, or not.
    Proposed(bool),
    /// The vote was cast, or not.
    Voted(bool),
    /// Whether the votes suffice, if that is known.
    Counted(Option<bool>),
}

/// A proposal on its way.
#[derive(Clone, Copy, Debug, PartialEq, Eq, Structural)]
pub struct ProposalRun {
    pub plan: ProposalPlan,
    pub phase: ProposalPhase,
    /// The votes are counted at once, and a vote that cannot be cast is an
    /// error; otherwise the proposal is left to the others.
    pub integrated: bool,
}

/// A step of a proposal: the phase after an event, and what to do.
pub open spec fn proposal_step(r: ProposalRun, e: ProposalEvent) -> (ProposalPhase, ProposalAction) {
    match (r.phase, e) {
        (ProposalPhase::Proposing, ProposalEvent::Proposed(ok)) => if ok {
            (ProposalPhase::Voting, ProposalAction::Vote)
        } else {
            (ProposalPhase::Ended, ProposalAction::Fail)
        },
        (ProposalPhase::Voting, ProposalEvent::Voted(ok)) => if !r.integrated {
            (ProposalPhase::Ended, ProposalAction::Done)
        } else if ok {
            (ProposalPhase::Counting, ProposalAction::CountVotes)
        } else {
            (ProposalPhase::Ended, ProposalAction::Fail)
        },
        (ProposalPhase::Counting, ProposalEvent::Counted(c)) => if c == Some(true) {
            (
                ProposalPhase::Ended,
                ProposalAction::Reconfigure {
                    new_epoch: r.plan.new_epoch,
                    commit_index: r.plan.commit_index,
                },
            )
        } else {
            (ProposalPhase::Ended, ProposalAction::Done)
        },
        _ => (r.phase, ProposalAction::Ignore),
    }
}

impl ProposalRun {
    /// Starts with a plan; gives what to do first.
    pub fn start(plan: ProposalPlan, integrated: bool) -> (r: (ProposalRun, ProposalAction))
        ensures
            r.0 == (ProposalRun { plan, phase: ProposalPhase::Proposing, integrated }),
            r.1 == ProposalAction::Propose(plan),
    {
        (
            ProposalRun { plan, phase: ProposalPhase::Proposing, integrated },
            ProposalAction::Propose(plan),
        )
    }

    /// Takes an event and gives what to do next, see [`proposal_step`].
    pub fn on_event(&mut self, event: ProposalEvent) -> (a: ProposalAction)
        ensures
            final(self).plan == old(self).plan,
            final(self).integrated == old(self).integrated,
            (final(self).phase, a) == proposal_step(*old(self), event),
    {
        match (self.phase, event) {
            (ProposalPhase::Proposing, ProposalEvent::Proposed(ok)) => {
                if ok {
                    self.phase = ProposalPhase::Voting;
                    ProposalAction::Vote
                } else {
                    self.phase = ProposalPhase::Ended;
                    ProposalAction::Fail
                }
            },
            (ProposalPhase::Voting, ProposalEvent::Voted(ok)) => {
                if !self.integrated {
                    self.phase = ProposalPhase::Ended;
                    ProposalAction::Done
                } else if ok {
                    self.phase = ProposalPhase::Counting;
                    ProposalAction::CountVotes
                } else {
                    self.phase = ProposalPhase::Ended;
                    ProposalAction::Fail
                }
            },
            (ProposalPhase::Counting, ProposalEvent::Counted(c)) => {
                self.phase = ProposalPhase::Ended;
                if SuiEpochTransitionManager::quorum_reached(c) {
                    ProposalAction::Reconfigure {
                        new_epoch: self.plan.new_epoch,
                        commit_index: self.plan.commit_index,
                    }
                } else {
                    ProposalAction::Done
                }
            },
            _ => ProposalAction::Ignore,
        }
    }
}

/// Coordinates proposals and reconfigurations.
#[derive(Clone, Copy, Debug, PartialEq, Eq, Structural)]
pub struct SuiEpochTransitionOrchestrator {
    pub sui_manager: SuiEpochTransitionManager,
    pub reconfig_manager: SuiReconfigurationManager,
}

impl SuiEpochTransitionOrchestrator {
    /// See [`SuiReconfigurationManager::wf`].
    pub open spec fn wf(&self) -> bool {
        self.reconfig_manager.wf()
    }

    /// An orchestrator for the member at a place of the committee.
    pub fn new(current_epoch: u64, own_index: u32) -> (o: Self)
        ensures
            o.wf(),
            o.sui_manager == (SuiEpochTransitionManager { current_epoch, own_index }),
            o.reconfig_manager == (SuiReconfigurationManager {
                locked: false,
                reconfiguring: false,
            }),
    {
        SuiEpochTransitionOrchestrator {
            sui_manager: SuiEpochTransitionManager::new(current_epoch, own_index),
            reconfig_manager: SuiReconfigurationManager::new(),
        }
    }

    /// Begins a change: execution is kept out from here on.
    pub fn begin_epoch_transition(&mut self) -> (r: Result<(), ReconfigError>)
        requires
            old(self).wf(),
        ensures
            final(self).wf(),
            r == acquire_result(old(self).reconfig_manager),
            final(self).sui_manager == old(self).sui_manager,
            final(self).reconfig_manager == after_acquire(old(self).reconfig_manager),
    {
        self.reconfig_manager.acquire_execution_lock_for_reconfiguration()
    }

    /// Completes a change: the manager is in the new epoch, and execution goes
    /// on.
    pub fn complete_epoch_transition(&mut self, new_epoch: u64)
        requires
            old(self).reconfig_manager.reconfiguring,
        ensures
            final(self).wf(),
            final(self).sui_manager.current_epoch == new_epoch,
            final(self).sui_manager.own_index == old(self).sui_manager.own_index,
            final(self).reconfig_manager == after_release(),
    {
        self.sui_manager.update_current_epoch(new_epoch);
        self.reconfig_manager.release();
    }
}

/// A reconfiguration keeps every other one out until it is over, and then the
/// lock is free again.
pub proof fn law_one_reconfiguration_at_a_time(m: SuiReconfigurationManager)
    requires
        m.wf(),
        acquire_result(m) is Ok,
    ensures
        acquire_result(after_acquire(m)) == Err::<(), ReconfigError>(
            ReconfigError::AlreadyReconfiguring,
        ),
        after_acquire(after_acquire(m)) == after_acquire(m),
        acquire_result(after_release()) is Ok,
{
}

/// The node reconfigures for a proposal only after the votes were counted and
/// found to suffice, and only to the epoch that was proposed.
pub proof fn law_reconfigure_needs_quorum(r: ProposalRun, e: ProposalEvent)
    ensures
        proposal_step(r, e).1 is Reconfigure ==> r.phase is Counting && e
            == ProposalEvent::Counted(Some(true)) && proposal_step(r, e).1->new_epoch
            == r.plan.new_epoch,
{
}

/// The lock is taken exactly if nothing reconfigures and nobody else holds it,
/// and the error says which of the two stands in the way.
pub proof fn law_lock_is_taken_when_free(m: SuiReconfigurationManager)
    ensures
        acquire_result(m) is Ok <==> !m.reconfiguring && !m.locked,
        m.reconfiguring ==> acquire_result(m) == Err::<(), ReconfigError>(
            ReconfigError::AlreadyReconfiguring,
        ),
        !m.reconfiguring && m.locked ==> acquire_result(m) == Err::<(), ReconfigError>(
            ReconfigError::LockHeld,
        ),
        acquire_result(m) is Ok ==> after_acquire(m).locked && after_acquire(m).reconfiguring,
        acquire_result(m) is Err ==> after_acquire(m) == m,
        !after_release().locked && !after_release().reconfiguring,
{
}

/// A proposal that was made is voted on. Where votes are counted, enough of them
/// lead to the reconfiguration for the epoch and the commit that were proposed,
/// and too few to none. A step that fails ends the proposal.
pub proof fn law_proposal_takes_its_course(r: ProposalRun, ok: bool, count: Option<bool>)
    ensures
        ({
            let proposing = ProposalRun { phase: ProposalPhase::Proposing, ..r };
            let voting = ProposalRun { phase: ProposalPhase::Voting, ..r };
            let counting = ProposalRun { phase: ProposalPhase::Counting, ..r };
            let p = proposal_step(proposing, ProposalEvent::Proposed(ok));
            let v = proposal_step(voting, ProposalEvent::Voted(ok));
            let c = proposal_step(counting, ProposalEvent::Counted(count));
            &&& ok ==> p.1 is Vote && p.0 is Voting
            &&& !ok ==> p.1 is Fail && p.0 is Ended
            &&& r.integrated && ok ==> v.1 is CountVotes && v.0 is Counting
            &&& r.integrated && !ok ==> v.1 is Fail && v.0 is Ended
            &&& !r.integrated ==> v.1 is Done && v.0 is Ended
            &&& count == Some(true) ==> c.1 == (ProposalAction::Reconfigure {
                new_epoch: r.plan.new_epoch,
                commit_index: r.plan.commit_index,
            })
            &&& count != Some(true) ==> c.1 is Done
            &&& c.0 is Ended
        }),
{
}

} // verus!
