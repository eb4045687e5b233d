//! The node: its modes, and the parts that produce, sync and execute blocks.
use vstd::prelude::*;

pub mod block_coordinator;
pub mod catchup;
pub mod committee;
pub mod committee_source;
pub mod consensus_node;
pub mod epoch_monitor;
pub mod executor_client;
pub mod node_start;
pub mod notification_listener;
pub mod queue;
pub mod recovery;
pub mod rust_sync_node;
pub mod startup;
pub mod sync;
pub mod transition;

verus! {

/// What part a node takes in the network.
#[derive(Clone, Copy, Debug, PartialEq, Eq, Structural)]
pub enum NodeMode {
    /// The node only syncs data and does not vote.
    SyncOnly,
    /// The node takes part in consensus and votes.
    Validator,
    /// The node is catching up with the network.
    SyncingUp,
}

/// An epoch change that waits until all blocks up to its boundary are there.
#[derive(Clone, Copy, Debug, PartialEq, Eq, Structural)]
pub struct PendingEpochTransition {
    pub epoch: u64,
    pub timestamp_ms: u64,
    pub boundary_block: u64,
}

} // verus!
