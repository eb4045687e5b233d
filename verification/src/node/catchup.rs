//! Whether the node has caught up with the network.
use vstd::prelude::*;

verus! {

/// A node this many blocks behind the network counts as caught up.
pub const BLOCK_CATCHUP_THRESHOLD: u64 = 5;

/// How far catching up has come.
#[derive(Clone, Copy, Debug, PartialEq, Eq, Structural)]
pub enum CatchupState {
    /// The status was not checked yet.
    Initializing,
    /// The network is in another epoch.
    SyncingEpoch { target_epoch: u64, local_epoch: u64 },
    /// The node is in the network's epoch, but blocks are missing.
    SyncingCommits { target_commit: u64, current_commit: u64 },
    /// The node can take part in the consensus.
    Ready,
}

/// What a check of the status found.
#[derive(Clone, Copy, Debug, PartialEq, Eq, Structural)]
pub struct SyncStatus {
    /// The executor's epoch.
    pub go_epoch: u64,
    /// The executor's last block.
    pub go_last_block: u64,
    /// The node is in the network's epoch.
    pub epoch_match: bool,
    /// How many commits are missing.
    pub commit_gap: u64,
    /// How many blocks are missing.
    pub block_gap: u64,
    /// The network's last block.
    pub network_block_height: u64,
    /// The node can take part in the consensus.
    pub ready: bool,
}

/// What the executor did not answer.
#[derive(Clone, Copy, Debug, PartialEq, Eq, Structural)]
pub enum CatchupError {
    /// The question for its epoch.
    Epoch,
    /// The question for its last block.
    LastBlock,
}

/// Epoch and last block, as reported.
#[derive(Clone, Copy, Debug, PartialEq, Eq, Structural)]
pub struct Height {
    pub epoch: u64,
    pub block: u64,
}

/// The network's height: what peers say or, without them, the executor's own.
pub open spec fn network_height(local: Height, peers: Option<Height>) -> Height {
    match peers {
        Some(h) => h,
        None => local,
    }
}

/// The status of a node in `local_epoch` whose executor is at height `go`.
pub open spec fn status_of(local_epoch: u64, go: Height, network: Height) -> SyncStatus {
    let epoch_match = local_epoch == network.epoch;
    let block_gap = if !epoch_match {
        u64::MAX
    } else if network.block > go.block {
        (network.block - go.block) as u64
    } else {
        0
    };
    SyncStatus {
        go_epoch: go.epoch,
        go_last_block: go.block,
        epoch_match,
        commit_gap: if epoch_match {
            0
        } else {
            u64::MAX
        },
        block_gap,
        network_block_height: network.block,
        ready: epoch_match && block_gap <= BLOCK_CATCHUP_THRESHOLD,
    }
}

/// The state that goes with a status, where the network is in `network_epoch`.
pub open spec fn state_of(
    status: SyncStatus,
    network_epoch: u64,
    local_epoch: u64,
    local_commit: u64,
) -> CatchupState {
    if !status.epoch_match {
        CatchupState::SyncingEpoch { target_epoch: network_epoch, local_epoch }
    } else if !status.ready {
        CatchupState::SyncingCommits { target_commit: 0, current_commit: local_commit }
    } else {
        CatchupState::Ready
    }
}

/// Follows how the node catches up.
pub struct CatchupManager {
    pub own_socket: String,
    pub peer_rpc_addresses: Vec<String>,
    pub state: CatchupState,
}

impl CatchupManager {
    /// A manager that has not checked yet.
    pub fn new(own_socket: String, peer_rpc_addresses: Vec<String>) -> (m: Self)
        ensures
            m.own_socket == own_socket,
            m.peer_rpc_addresses == peer_rpc_addresses,
            m.state is Initializing,
    {
        CatchupManager { own_socket, peer_rpc_addresses, state: CatchupState::Initializing }
    }

    /// Checks the status. `go_epoch` and `go_block` are the executor's
    /// answers, `peers` the height of the best peer; without peers to ask it
    /// is not looked at.
    pub fn check_sync_status(
        &mut self,
        local_epoch: u64,
        local_last_commit: u64,
        go_epoch: Option<u64>,
        go_block: Option<u64>,
        peers: Option<Height>,
    ) -> (r: Result<SyncStatus, CatchupError>)
        ensures
            final(self).own_socket == old(self).own_socket,
            final(self).peer_rpc_addresses == old(self).peer_rpc_addresses,
            match (go_epoch, go_block) {
                (Some(epoch), Some(block)) => {
                    let go = Height { epoch, block };
                    let network = network_height(
                        go,
                        if old(self).peer_rpc_addresses@.len() > 0 {
                            peers
                        } else {
                            None
                        },
                    );
                    let status = status_of(local_epoch, go, network);
                    &&& r == Ok::<SyncStatus, CatchupError>(status)
                    &&& final(self).state == state_of(
                        status,
                        network.epoch,
                        local_epoch,
                        local_last_commit,
                    )
                },
                (None, _) => r == Err::<SyncStatus, CatchupError>(CatchupError::Epoch) && final(
                    self
                ).state == old(self).state,
                (Some(_), None) => r == Err::<SyncStatus, CatchupError>(CatchupError::LastBlock)
                    && final(self).state == old(self).state,
            },
    {
        let epoch: u64 = match go_epoch {
            Some(e) => e,
            None => {
                return Err(CatchupError::Epoch);
            },
        };
        let block: u64 = match go_block {
            Some(b) => b,
            None => {
                return Err(CatchupError::LastBlock);
            },
        };
        let local = Height { epoch, block };
        let network = if self.peer_rpc_addresses.len() > 0 {
            match peers {
                Some(h) => h,
                None => local,
            }
        } else {
            local
        };
        let epoch_match: bool = local_epoch == network.epoch;
        let block_gap: u64 = if !epoch_match {
            u64::MAX
        } else if network.block > block {
            network.block - block
        } else {
            0
        };
        let ready: bool = epoch_match && block_gap <= BLOCK_CATCHUP_THRESHOLD;
        let status = SyncStatus {
            go_epoch: epoch,
            go_last_block: block,
            epoch_match,
            commit_gap: if epoch_match {
                0
            } else {
                u64::MAX
            },
            block_gap,
            network_block_height: network.block,
            ready,
        };
        self.state = if !epoch_match {
            CatchupState::SyncingEpoch { target_epoch: network.epoch, local_epoch }
        } else if !ready {
            CatchupState::SyncingCommits { target_commit: 0, current_commit: local_last_commit }
        } else {
            CatchupState::Ready
        };
        Ok(status)
    }
}

/// A node is ready exactly when it is in the network's epoch and at most
/// [`BLOCK_CATCHUP_THRESHOLD`] blocks behind; the state says so too.
pub proof fn law_ready_when_close(local_epoch: u64, go: Height, network: Height, commit: u64)
    ensures
        status_of(local_epoch, go, network).ready <==> local_epoch == network.epoch
            && network.block <= go.block + BLOCK_CATCHUP_THRESHOLD,
        state_of(
            status_of(local_epoch, go, network),
            network.epoch,
            local_epoch,
            commit,
        ) is Ready <==> status_of(local_epoch, go, network).ready,
{
}

/// What a status says is so: it gives the executor's own height and the
/// network's last block, and counts the blocks that the executor lacks. In
/// another epoch than the network's nothing can be counted.
pub proof fn law_status_counts_missing(local_epoch: u64, go: Height, network: Height, commit: u64)
    ensures
        ({
            let s = status_of(local_epoch, go, network);
            let state = state_of(s, network.epoch, local_epoch, commit);
            &&& s.go_epoch == go.epoch && s.go_last_block == go.block
            &&& s.network_block_height == network.block
            &&& s.epoch_match <==> local_epoch == network.epoch
            &&& s.epoch_match && network.block >= go.block ==> go.block + s.block_gap
                == network.block && s.commit_gap == 0
            &&& s.epoch_match && network.block < go.block ==> s.block_gap == 0 && s.commit_gap == 0
            &&& !s.epoch_match ==> s.block_gap == u64::MAX && s.commit_gap == u64::MAX
            &&& s.ready <==> s.epoch_match && network.block <= go.block + 5
            &&& !s.epoch_match ==> state == (CatchupState::SyncingEpoch {
                target_epoch: network.epoch,
                local_epoch,
            })
            &&& s.epoch_match && network.block > go.block + 5 ==> state == (
            CatchupState::SyncingCommits { target_commit: 0, current_commit: commit })
            &&& s.ready ==> state is Ready
        }),
{
}

/// The peers say how far the network is; only without an answer the executor's
/// own height counts, and such a node is ready in its executor's epoch.
pub proof fn law_peers_tell_height(local: Height, peers: Height)
    ensures
        network_height(local, Some(peers)) == peers,
        network_height(local, None) == local,
        status_of(local.epoch, local, network_height(local, None)).ready,
{
}

} // verus!
