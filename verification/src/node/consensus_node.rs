//! The state of a node, and the decisions of its start.
use crate::node::committee::{has_member, Committee, ValidatorInfo};
use crate::node::queue::{queue_file, queue_transaction};
use crate::node::transition::tx_recovery::CommittedHashes;
use crate::node::{NodeMode, PendingEpochTransition};
use crate::text::{
    begins_with, decimal, decimal_text, has_prefix, parse_u64, same_text, skip_chars, u64_value,
};
use crate::wire::contents;
use vstd::prelude::*;
use vstd::string::*;

verus! {

/// How far the executor and a peer may be apart and still count as level.
pub const TIP_TOLERANCE: u64 = 5;

/// How long an epoch lasts unless configured otherwise, in seconds.
pub const DEFAULT_EPOCH_DURATION_SECS: u64 = 180;

/// How long a handoff waits for the executor, in seconds.
pub const HANDOFF_WAIT_SECS: u64 = 30;

/// The state of a node.
pub struct ConsensusNode {
    pub node_mode: NodeMode,
    pub current_epoch: u64,
    pub last_global_exec_index: u64,
    /// The same index as the commit processor counts it.
    pub shared_last_global_exec_index: u64,
    pub current_commit_index: u32,
    /// Place of the node in the committee.
    pub own_index: usize,
    pub boot_counter: u64,
    pub executor_commit_enabled: bool,
    pub is_transitioning: bool,
    pub last_transition_hash: Option<Vec<u8>>,
    /// Whether the consensus is running.
    pub has_authority: bool,
    /// Whether transactions can be submitted.
    pub has_client: bool,
    pub has_sync_task: bool,
    pub has_notification_server: bool,
    pub has_epoch_monitor: bool,
    /// The epoch that transactions are executed in.
    pub execution_lock_epoch: u64,
    /// Whether transactions of users are taken.
    pub user_certs_open: bool,
    pub protocol_key: Vec<u8>,
    pub pending_transactions_queue: Vec<Vec<u8>>,
    pub epoch_pending_transactions: Vec<Vec<u8>>,
    pub committed_transaction_hashes: CommittedHashes,
    pub pending_epoch_transitions: Vec<PendingEpochTransition>,
}

/// Whether a transaction is taken, kept for the next epoch, or turned away.
#[derive(Clone, Debug)]
pub struct Acceptance {
    pub accept: bool,
    pub queue: bool,
    pub reason: String,
}

/// Something that has to be done when the mode changes.
#[derive(Clone, Copy, Debug, PartialEq, Eq, Structural)]
pub enum ModeAction {
    StopSync,
    StopAuthority,
    /// From here on the node is in its new mode.
    ModeChanged,
    /// Tell the executor from which block on the consensus produces blocks.
    NotifyConsensusStart(u64),
    /// Tell the executor which block was the last of the consensus.
    NotifySyncStart(u64),
    StartSync,
    RestartMonitor,
    StartMonitor,
}

/// The mode of a node that is in the committee, or not.
pub open spec fn mode_for(in_committee: bool) -> NodeMode {
    if in_committee {
        NodeMode::Validator
    } else {
        NodeMode::SyncOnly
    }
}

/// What has to be done to change the mode, in order. What the old mode runs is
/// stopped before the mode changes, and what the new mode runs is started
/// after it.
pub open spec fn mode_actions(old_mode: NodeMode, new_mode: NodeMode, last_index: u64) -> Seq<
    ModeAction,
> {
    match (old_mode, new_mode) {
        (NodeMode::SyncOnly, NodeMode::Validator) => seq![
            ModeAction::StopSync,
            ModeAction::ModeChanged,
            ModeAction::NotifyConsensusStart((last_index + 1) as u64),
            ModeAction::RestartMonitor,
        ],
        (NodeMode::Validator, NodeMode::SyncOnly) => seq![
            ModeAction::StopAuthority,
            ModeAction::ModeChanged,
            ModeAction::NotifySyncStart(last_index),
            ModeAction::StartSync,
            ModeAction::StartMonitor,
        ],
        _ => if old_mode == new_mode {
            Seq::empty()
        } else {
            seq![ModeAction::ModeChanged]
        },
    }
}

impl ConsensusNode {
    /// Whether a transaction is taken. `accepts_tx` says whether the
    /// reconfiguration lets transactions through.
    pub fn check_transaction_acceptance(&self, accepts_tx: bool) -> (a: Acceptance)
        requires
            self.has_authority && self.last_transition_hash is Some ==> self.current_epoch
                < u64::MAX,
        ensures
            if !self.has_authority {
                !a.accept && !a.queue && a.reason@ == "Node is still initializing"@
            } else if self.last_transition_hash is Some {
                !a.accept && !a.queue && a.reason@ == "Epoch transition in progress: epoch "@
                    + decimal_text(self.current_epoch as nat) + " -> "@ + decimal_text(
                    (self.current_epoch + 1) as nat,
                )
            } else if self.is_transitioning {
                !a.accept && a.queue && a.reason@ == "Epoch transition in progress"@
            } else if !accepts_tx {
                !a.accept && a.queue && a.reason@ == "Reconfiguration in progress"@
            } else {
                a.accept && !a.queue && a.reason@ == "Node is ready"@
            },
    {
        if !self.has_authority {
            return Acceptance {
                accept: false,
                queue: false,
                reason: String::from_str("Node is still initializing"),
            };
        }
        if self.last_transition_hash.is_some() {
            let mut reason = String::from_str("Epoch transition in progress: epoch ");
            reason.append(decimal(self.current_epoch).as_str());
            reason.append(" -> ");
            reason.append(decimal(self.current_epoch + 1).as_str());
            return Acceptance { accept: false, queue: false, reason };
        }
        if self.is_transitioning {
            return Acceptance {
                accept: false,
                queue: true,
                reason: String::from_str("Epoch transition in progress"),
            };
        }
        if !accepts_tx {
            return Acceptance {
                accept: false,
                queue: true,
                reason: String::from_str("Reconfiguration in progress"),
            };
        }
        Acceptance { accept: true, queue: false, reason: String::from_str("Node is ready") }
    }

    /// Puts the node into the mode that the committee gives it: a validator
    /// if the committee has its protocol key, otherwise a node that only
    /// syncs. Gives what has to be done for it, in order.
    pub fn check_and_update_node_mode(&mut self, committee: &Committee) -> (actions: Vec<
        ModeAction,
    >)
        requires
            old(self).node_mode is SyncOnly && has_member(*committee, old(self).protocol_key@)
                ==> old(self).last_global_exec_index < u64::MAX,
        ensures
            actions@ == mode_actions(
                old(self).node_mode,
                mode_for(has_member(*committee, old(self).protocol_key@)),
                old(self).last_global_exec_index,
            ),
            ({
                let new_mode = mode_for(has_member(*committee, old(self).protocol_key@));
                let promoted = old(self).node_mode is SyncOnly && new_mode is Validator;
                let demoted = old(self).node_mode is Validator && new_mode is SyncOnly;
                *final(self) == (ConsensusNode {
                    node_mode: new_mode,
                    has_sync_task: if promoted {
                        false
                    } else {
                        old(self).has_sync_task
                    },
                    has_notification_server: if promoted {
                        false
                    } else {
                        old(self).has_notification_server
                    },
                    has_authority: if demoted {
                        false
                    } else {
                        old(self).has_authority
                    },
                    ..*old(self)
                })
            }),
    {
        let in_committee: bool = committee.has_key(self.protocol_key.as_slice());
        let new_mode = if in_committee {
            NodeMode::Validator
        } else {
            NodeMode::SyncOnly
        };
        let mut actions: Vec<ModeAction> = Vec::new();
        if self.node_mode == NodeMode::SyncOnly && new_mode == NodeMode::Validator {
            self.has_sync_task = false;
            self.has_notification_server = false;
            actions.push(ModeAction::StopSync);
            actions.push(ModeAction::ModeChanged);
            actions.push(ModeAction::NotifyConsensusStart(self.last_global_exec_index + 1));
            actions.push(ModeAction::RestartMonitor);
        } else if self.node_mode == NodeMode::Validator && new_mode == NodeMode::SyncOnly {
            self.has_authority = false;
            actions.push(ModeAction::StopAuthority);
            actions.push(ModeAction::ModeChanged);
            actions.push(ModeAction::NotifySyncStart(self.last_global_exec_index));
            actions.push(ModeAction::StartSync);
            actions.push(ModeAction::StartMonitor);
        } else if self.node_mode != new_mode {
            actions.push(ModeAction::ModeChanged);
        }
        self.node_mode = new_mode;
        assert(actions@ =~= mode_actions(
            old(self).node_mode,
            new_mode,
            old(self).last_global_exec_index,
        ));
        actions
    }

    /// Finds the node's place in the committee, or takes place 0.
    pub fn update_own_index(&mut self, committee: &Committee) -> (found: bool)
        ensures
            found == has_member(*committee, old(self).protocol_key@),
            found ==> final(self).own_index < committee.authorities@.len()
                && committee.authorities@[final(self).own_index as int].protocol_key@ == old(
                self,
            ).protocol_key@ && forall|j: int|
                0 <= j < final(self).own_index ==> (#[trigger] committee.authorities@[j])
                    .protocol_key@ != old(self).protocol_key@,
            !found ==> final(self).own_index == 0,
            *final(self) == (ConsensusNode { own_index: final(self).own_index, ..*old(self) }),
    {
        match committee.index_of_key(self.protocol_key.as_slice()) {
            Some(i) => {
                self.own_index = i;
                assert(committee.authorities@[i as int].protocol_key@ == self.protocol_key@);
                true
            },
            None => {
                self.own_index = 0;
                false
            },
        }
    }

    /// Keeps a transaction for the next epoch; gives the bytes to keep on
    /// disk.
    pub fn queue_transaction_for_next_epoch(&mut self, tx_data: Vec<u8>) -> (file: Option<Vec<u8>>)
        ensures
            contents(final(self).pending_transactions_queue@) == contents(
                old(self).pending_transactions_queue@,
            ).push(tx_data@),
            file matches Some(f) && f@ == queue_file(
                contents(final(self).pending_transactions_queue@),
            ),
            *final(self) == (ConsensusNode {
                pending_transactions_queue: final(self).pending_transactions_queue,
                ..*old(self)
            }),
    {
        queue_transaction(&mut self.pending_transactions_queue, tx_data)
    }

    /// Sets the epoch that transactions are executed in.
    pub fn update_execution_lock_epoch(&mut self, new_epoch: u64)
        ensures
            *final(self) == (ConsensusNode { execution_lock_epoch: new_epoch, ..*old(self) }),
    {
        self.execution_lock_epoch = new_epoch;
    }

    /// Lets transactions of users through again.
    pub fn reset_reconfig_state(&mut self)
        ensures
            *final(self) == (ConsensusNode { user_certs_open: true, ..*old(self) }),
    {
        self.user_certs_open = true;
    }

    /// Stops taking transactions of users.
    pub fn close_user_certs(&mut self)
        ensures
            *final(self) == (ConsensusNode { user_certs_open: false, ..*old(self) }),
    {
        self.user_certs_open = false;
    }
}

/// After the executor said that it is not ready for the consensus to start at
/// `start`: the block to wait for, and for how long.
pub fn handoff_wait(success: bool, start: u64) -> (r: Option<(u64, u64)>)
    requires
        start > 0,
    ensures
        r == if success {
            None
        } else {
            Some(((start - 1) as u64, HANDOFF_WAIT_SECS))
        },
{
    if success {
        None
    } else {
        Some((start - 1, HANDOFF_WAIT_SECS))
    }
}

/// No mode is entered while the other one is at work: a node stops syncing
/// before it becomes a validator, and stops the consensus before it only
/// syncs; it starts syncing after that.
pub proof fn law_old_mode_stops_first(last_index: u64)
    ensures
        mode_actions(NodeMode::SyncOnly, NodeMode::Validator, last_index).index_of(
            ModeAction::StopSync,
        ) < mode_actions(NodeMode::SyncOnly, NodeMode::Validator, last_index).index_of(
            ModeAction::ModeChanged,
        ),
        mode_actions(NodeMode::Validator, NodeMode::SyncOnly, last_index).index_of(
            ModeAction::StopAuthority,
        ) < mode_actions(NodeMode::Validator, NodeMode::SyncOnly, last_index).index_of(
            ModeAction::ModeChanged,
        ),
        mode_actions(NodeMode::Validator, NodeMode::SyncOnly, last_index).index_of(
            ModeAction::ModeChanged,
        ) < mode_actions(NodeMode::Validator, NodeMode::SyncOnly, last_index).index_of(
            ModeAction::StartSync,
        ),
{
    let p = mode_actions(NodeMode::SyncOnly, NodeMode::Validator, last_index);
    let d = mode_actions(NodeMode::Validator, NodeMode::SyncOnly, last_index);
    assert(p[0] == ModeAction::StopSync && p[1] == ModeAction::ModeChanged);
    assert(d[0] == ModeAction::StopAuthority && d[1] == ModeAction::ModeChanged && d[3]
        == ModeAction::StartSync);
    lemma_index_of(p, ModeAction::StopSync, 0);
    lemma_index_of(p, ModeAction::ModeChanged, 1);
    lemma_index_of(d, ModeAction::StopAuthority, 0);
    lemma_index_of(d, ModeAction::ModeChanged, 1);
    lemma_index_of(d, ModeAction::StartSync, 3);
}

proof fn lemma_index_of(s: Seq<ModeAction>, a: ModeAction, i: int)
    requires
        0 <= i < s.len(),
        s[i] == a,
        forall|j: int| 0 <= j < s.len() && j != i ==> #[trigger] s[j] != a,
    ensures
        s.index_of(a) == i,
{
    assert(s.contains(a));
    let k = s.index_of(a);
    assert(s[k] == a);
}

/// What to clear of the epochs on disk.
#[derive(Clone, Copy, Debug, PartialEq, Eq, Structural)]
pub enum EpochCleanup {
    /// Nothing.
    Nothing,
    /// The epochs from one to another (exclusive), which are outdated.
    Range { from: u64, to: u64 },
    /// All: the node is on a chain that the network has left.
    All,
}

/// What to clear at the start, given the latest epoch on disk and the
/// network's. An archive, which keeps all epochs, clears nothing on the way
/// up.
pub fn cleanup_at_start(local_epoch: u64, network_epoch: u64, epochs_to_keep: usize) -> (c:
    EpochCleanup)
    ensures
        c == if local_epoch < network_epoch {
            if epochs_to_keep > 0 {
                EpochCleanup::Range { from: local_epoch, to: network_epoch }
            } else {
                EpochCleanup::Nothing
            }
        } else if local_epoch > network_epoch {
            EpochCleanup::All
        } else {
            EpochCleanup::Nothing
        },
{
    if local_epoch < network_epoch {
        if epochs_to_keep > 0 {
            EpochCleanup::Range { from: local_epoch, to: network_epoch }
        } else {
            EpochCleanup::Nothing
        }
    } else if local_epoch > network_epoch {
        EpochCleanup::All
    } else {
        EpochCleanup::Nothing
    }
}

/// Why a node cannot start.
#[derive(Clone, Copy, Debug, PartialEq, Eq, Structural)]
pub enum StartError {
    /// The executor did not name the validators of the first block.
    NoGenesisValidators,
    /// The executor named no validators.
    EmptyValidators,
}

impl StartError {
    /// What to tell the user.
    pub fn message(&self) -> (s: String)
        ensures
            s@ == match self {
                StartError::NoGenesisValidators => "Failed to fetch genesis validators"@,
                StartError::EmptyValidators =>
                    "Go state returned empty validators list at epoch boundary"@,
            },
    {
        match self {
            StartError::NoGenesisValidators => String::from_str(
                "Failed to fetch genesis validators",
            ),
            StartError::EmptyValidators => String::from_str(
                "Go state returned empty validators list at epoch boundary",
            ),
        }
    }
}

/// The validators named `node-0`, for debugging with a single node.
pub fn single_node_validators(validators: Vec<ValidatorInfo>) -> (r: Vec<ValidatorInfo>)
    ensures
        r@ == validators@.filter(|v: ValidatorInfo| v.name@ == "node-0"@),
{
    let ghost all = validators@;
    let ghost keep = |v: ValidatorInfo| v.name@ == "node-0"@;
    let mut r: Vec<ValidatorInfo> = Vec::new();
    proof {
        reveal(Seq::filter);
        assert(all.subrange(0, 0) =~= Seq::<ValidatorInfo>::empty());
        assert(r@ =~= all.subrange(0, 0).filter(keep));
    }
    for v in it: validators
        invariant
            it.seq() == all,
            keep == (|v: ValidatorInfo| v.name@ == "node-0"@),
            r@ == all.subrange(0, it.index() as int).filter(keep),
    {
        proof {
            reveal(Seq::filter);
            let longer = all.subrange(0, it.index() as int + 1);
            assert(longer.drop_last() =~= all.subrange(0, it.index() as int));
            assert(longer.last() == v);
        }
        if same_text(v.name.as_str(), "node-0") {
            r.push(v);
        }
    }
    assert(all.subrange(0, all.len() as int) =~= all);
    r
}

/// The peer's last block as far as it counts: only where data are read from
/// the executor and the peer is another source than it.
pub fn peer_tip(read_enabled: bool, other_source: bool, peer_last_block: u64) -> (b: u64)
    ensures
        b == if read_enabled && other_source {
            peer_last_block
        } else {
            0
        },
{
    if read_enabled && other_source && peer_last_block > 0 {
        peer_last_block
    } else {
        0
    }
}

/// The index that the node starts from: the executor's last block, which is
/// the authority, also where it is behind the peers. Only a node that is more
/// than [`TIP_TOLERANCE`] ahead of a peer is on a chain that the network has
/// left: it starts from the peer's.
pub fn effective_tip(read_enabled: bool, local_go_block: u64, peer_last_block: u64) -> (t: u64)
    requires
        read_enabled && peer_last_block > 0 ==> peer_last_block <= u64::MAX - TIP_TOLERANCE,
    ensures
        t == if !read_enabled {
            0
        } else if peer_last_block > 0 && local_go_block > peer_last_block + TIP_TOLERANCE {
            peer_last_block
        } else {
            local_go_block
        },
        t <= local_go_block,
{
    if !read_enabled {
        return 0;
    }
    if peer_last_block > 0 {
        if local_go_block > peer_last_block + TIP_TOLERANCE {
            return peer_last_block;
        }
    }
    local_go_block
}

/// The index that the executor expects first.
pub fn initial_next_expected(read_enabled: bool, last_global_exec_index: u64) -> (n: u64)
    requires
        read_enabled ==> last_global_exec_index < u64::MAX,
    ensures
        n == if read_enabled {
            last_global_exec_index + 1
        } else {
            1
        },
{
    if read_enabled {
        last_global_exec_index + 1
    } else {
        1
    }
}

/// Whether missing blocks have to be looked for at the start.
pub fn needs_recovery_check(read_enabled: bool, last_global_exec_index: u64) -> (b: bool)
    ensures
        b == (read_enabled && last_global_exec_index > 0),
{
    read_enabled && last_global_exec_index > 0
}

/// How long an epoch lasts, in seconds.
pub fn epoch_duration_secs(configured: Option<u64>) -> (s: u64)
    ensures
        s == match configured {
            Some(n) => n,
            None => DEFAULT_EPOCH_DURATION_SECS,
        },
{
    match configured {
        Some(n) => n,
        None => DEFAULT_EPOCH_DURATION_SECS,
    }
}

/// Where the consensus of an epoch keeps its data, below the storage
/// directory.
pub fn consensus_db_path(epoch: u64) -> (s: String)
    ensures
        s@ == "epochs/epoch_"@ + decimal_text(epoch as nat) + "/consensus_db"@,
{
    let mut s = String::from_str("epochs/epoch_");
    s.append(decimal(epoch).as_str());
    s.append("/consensus_db");
    s
}

/// The epoch that a directory belongs to.
pub open spec fn epoch_of_dir(name: Seq<char>) -> Option<u64> {
    if begins_with(name, "epoch_"@) {
        u64_value(name.subrange(6, name.len() as int))
    } else {
        None
    }
}

/// The latest epoch on disk, from the names of the directories; 0 if there is
/// none.
pub fn detect_local_epoch(names: &Vec<String>) -> (m: u64)
    ensures
        forall|i: int|
            0 <= i < names@.len() ==> (epoch_of_dir((#[trigger] names@[i])@) matches Some(e) ==> e
                <= m),
        m == 0 || exists|i: int|
            0 <= i < names@.len() && epoch_of_dir((#[trigger] names@[i])@) == Some(m),
{
    let mut m: u64 = 0;
    let mut i: usize = 0;
    proof {
        reveal_strlit("epoch_");
    }
    while i < names.len()
        invariant
            i <= names@.len(),
            "epoch_"@.len() == 6,
            forall|j: int|
                0 <= j < i ==> (epoch_of_dir((#[trigger] names@[j])@) matches Some(e) ==> e <= m),
            m == 0 || exists|j: int|
                0 <= j < i && epoch_of_dir((#[trigger] names@[j])@) == Some(m),
        decreases names.len() - i,
    {
        let ghost before = m;
        if has_prefix(names[i].as_str(), "epoch_") {
            let rest = skip_chars(names[i].as_str(), 6);
            match parse_u64(rest.as_str()) {
                Some(e) => {
                    if e > m {
                        m = e;
                    }
                },
                None => {},
            }
        }
        proof {
            if m != before {
                assert(epoch_of_dir(names@[i as int]@) == Some(m));
            } else if m != 0 {
                let j = choose|j: int|
                    0 <= j < i && epoch_of_dir((#[trigger] names@[j])@) == Some(m);
                assert(epoch_of_dir(names@[j]@) == Some(m));
            }
        }
        i += 1;
    }
    m
}

/// The epoch before the current one whose store is kept open for peers that
/// lag: the latest of those on disk.
pub fn legacy_epoch_to_load(current_epoch: u64, on_disk: &Vec<u64>) -> (r: Option<u64>)
    ensures
        match r {
            Some(e) => on_disk@.contains(e) && e < current_epoch && forall|i: int|
                0 <= i < on_disk@.len() && on_disk@[i] < current_epoch ==> #[trigger] on_disk@[i]
                    <= e,
            None => forall|i: int|
                0 <= i < on_disk@.len() ==> #[trigger] on_disk@[i] >= current_epoch,
        },
{
    let mut r: Option<u64> = None;
    let mut i: usize = 0;
    while i < on_disk.len()
        invariant
            i <= on_disk@.len(),
            match r {
                Some(e) => on_disk@.contains(e) && e < current_epoch && forall|j: int|
                    0 <= j < i && on_disk@[j] < current_epoch ==> #[trigger] on_disk@[j] <= e,
                None => forall|j: int| 0 <= j < i ==> #[trigger] on_disk@[j] >= current_epoch,
            },
        decreases on_disk.len() - i,
    {
        let e: u64 = on_disk[i];
        if e < current_epoch {
            let later: bool = match r {
                Some(b) => e > b,
                None => true,
            };
            if later {
                assert(on_disk@[i as int] == e);
                r = Some(e);
            }
        }
        i += 1;
    }
    r
}

/// The directory of an epoch is recognised as that epoch's.
pub proof fn law_epoch_dir_roundtrip(epoch: u64)
    ensures
        epoch_of_dir("epoch_"@ + decimal_text(epoch as nat)) == Some(epoch),
{
    reveal_strlit("epoch_");
    let name = "epoch_"@ + decimal_text(epoch as nat);
    assert(name.subrange(0, 6) =~= "epoch_"@);
    assert(name.subrange(6, name.len() as int) =~= decimal_text(epoch as nat));
    crate::text::lemma_decimal_roundtrip(epoch);
}

/// A node that is in the committee votes, any other one only syncs. A node that
/// becomes a validator tells the executor the first block of the consensus, the
/// one after its last index; one that stops being a validator tells it the last
/// one, its last index. A node that keeps its mode does nothing.
pub proof fn law_executor_is_told(last_index: u64, mode: NodeMode)
    requires
        last_index < u64::MAX,
    ensures
        mode_for(true) is Validator,
        mode_for(false) is SyncOnly,
        mode_actions(mode, mode, last_index).len() == 0,
        ({
            let up = mode_actions(NodeMode::SyncOnly, NodeMode::Validator, last_index);
            &&& up.contains(ModeAction::NotifyConsensusStart((last_index + 1) as u64))
            &&& up.contains(ModeAction::StopSync)
            &&& up.contains(ModeAction::ModeChanged)
            &&& up.contains(ModeAction::RestartMonitor)
            &&& !up.contains(ModeAction::StartSync)
            &&& !up.contains(ModeAction::StopAuthority)
            &&& forall|b: u64| #[trigger]
                up.contains(ModeAction::NotifyConsensusStart(b)) ==> b == last_index + 1
        }),
        ({
            let down = mode_actions(NodeMode::Validator, NodeMode::SyncOnly, last_index);
            &&& down.contains(ModeAction::NotifySyncStart(last_index))
            &&& down.contains(ModeAction::StopAuthority)
            &&& down.contains(ModeAction::ModeChanged)
            &&& down.contains(ModeAction::StartSync)
            &&& down.contains(ModeAction::StartMonitor)
            &&& !down.contains(ModeAction::StopSync)
            &&& forall|b: u64| #[trigger]
                down.contains(ModeAction::NotifySyncStart(b)) ==> b == last_index
        }),
        mode_actions(NodeMode::SyncingUp, NodeMode::Validator, last_index) == seq![
            ModeAction::ModeChanged,
        ],
        mode_actions(NodeMode::SyncingUp, NodeMode::SyncOnly, last_index) == seq![
            ModeAction::ModeChanged,
        ],
{
    let up = mode_actions(NodeMode::SyncOnly, NodeMode::Validator, last_index);
    assert(up[0] == ModeAction::StopSync);
    assert(up[1] == ModeAction::ModeChanged);
    assert(up[2] == ModeAction::NotifyConsensusStart((last_index + 1) as u64));
    assert(up[3] == ModeAction::RestartMonitor);
    let down = mode_actions(NodeMode::Validator, NodeMode::SyncOnly, last_index);
    assert(down[0] == ModeAction::StopAuthority);
    assert(down[1] == ModeAction::ModeChanged);
    assert(down[2] == ModeAction::NotifySyncStart(last_index));
    assert(down[3] == ModeAction::StartSync);
    assert(down[4] == ModeAction::StartMonitor);
}

} // verus!
