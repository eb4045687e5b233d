//! Bringing a node up and down: it joins the consensus only once it has caught
//! up, and goes in an order that loses no block.
use crate::node::catchup::SyncStatus;
use crate::node::NodeMode;
use crate::text::{decimal, decimal_text};
use vstd::prelude::*;
use vstd::string::*;

verus! {

/// How long a node waits to catch up, in seconds.
pub const CATCHUP_TIMEOUT_SECS: u64 = 600;

/// How often the status is checked, in seconds.
pub const CATCHUP_CHECK_SECS: u64 = 2;

/// The port of the server for clients: the one for metrics plus 1000.
pub fn rpc_port(metrics_port: u16) -> (p: u16)
    requires
        metrics_port + 1000 <= u16::MAX,
    ensures
        p == metrics_port + 1000,
{
    metrics_port + 1000
}

/// The socket for transactions from the same machine.
pub fn tx_socket_path(node_id: u64) -> (s: String)
    ensures
        s@ == "/tmp/metanode-tx-"@ + decimal_text(node_id as nat) + ".sock"@,
{
    let mut s = String::from_str("/tmp/metanode-tx-");
    s.append(decimal(node_id).as_str());
    s.append(".sock");
    s
}

/// The name of the socket for notifications.
pub fn notification_socket_name(node_id: u64) -> (s: String)
    ensures
        s@ == "metanode-notification-"@ + decimal_text(node_id as nat) + ".sock"@,
{
    let mut s = String::from_str("metanode-notification-");
    s.append(decimal(node_id).as_str());
    s.append(".sock");
    s
}

/// The mode while the node catches up.
pub open spec fn mode_while_waiting(mode: NodeMode) -> NodeMode {
    if mode is Validator {
        NodeMode::SyncingUp
    } else {
        mode
    }
}

/// The mode once the node has caught up.
pub open spec fn mode_after_waiting(mode: NodeMode) -> NodeMode {
    if mode is SyncingUp {
        NodeMode::Validator
    } else {
        mode
    }
}

/// Puts a validator on hold while it catches up.
pub fn begin_catchup(mode: NodeMode) -> (m: NodeMode)
    ensures
        m == mode_while_waiting(mode),
{
    if mode == NodeMode::Validator {
        NodeMode::SyncingUp
    } else {
        mode
    }
}

/// Lets a node that was on hold take part.
pub fn end_catchup(mode: NodeMode) -> (m: NodeMode)
    ensures
        m == mode_after_waiting(mode),
{
    if mode == NodeMode::SyncingUp {
        NodeMode::Validator
    } else {
        mode
    }
}

/// How waiting goes on.
#[derive(Clone, Copy, Debug, PartialEq, Eq, Structural)]
pub enum CatchupStep {
    /// Check the status.
    Check,
    /// The node has caught up.
    Join,
    /// It takes too long: the node starts all the same.
    ForceStart,
    /// Check again after a pause.
    Pause,
}

/// Before a check: whether the time is up. `elapsed_ms` is the time waited so
/// far.
pub fn before_check(elapsed_ms: u64) -> (s: CatchupStep)
    ensures
        s == if elapsed_ms > CATCHUP_TIMEOUT_SECS * 1000 {
            CatchupStep::ForceStart
        } else {
            CatchupStep::Check
        },
{
    if elapsed_ms > CATCHUP_TIMEOUT_SECS * 1000 {
        CatchupStep::ForceStart
    } else {
        CatchupStep::Check
    }
}

/// After a check: the node joins if it is ready. A check that failed is
/// repeated.
pub fn after_check(status: Option<SyncStatus>) -> (s: CatchupStep)
    ensures
        s == if status is Some && status->Some_0.ready {
            CatchupStep::Join
        } else {
            CatchupStep::Pause
        },
{
    match status {
        Some(x) => {
            if x.ready {
                CatchupStep::Join
            } else {
                CatchupStep::Pause
            }
        },
        None => CatchupStep::Pause,
    }
}

/// Waiting to catch up leaves the mode as it was, and a node on hold is no
/// validator.
pub proof fn law_waiting_restores_mode(mode: NodeMode)
    requires
        !(mode is SyncingUp),
    ensures
        mode_after_waiting(mode_while_waiting(mode)) == mode,
        !(mode_while_waiting(mode) is Validator),
{
}

/// What is done when a node goes.
#[derive(Clone, Copy, Debug, PartialEq, Eq, Structural)]
pub enum ShutdownStep {
    /// Stop the consensus, so that no new blocks come.
    StopConsensus,
    /// Send the executor the blocks that still wait.
    FlushBlocks,
    /// Stop the servers, so that no new requests are taken.
    StopServers,
}

/// The steps in which a node goes.
pub open spec fn shutdown_order() -> Seq<ShutdownStep> {
    seq![ShutdownStep::StopConsensus, ShutdownStep::FlushBlocks, ShutdownStep::StopServers]
}

/// The steps in which a node goes. One that fails is followed by the next all
/// the same.
pub fn shutdown_steps() -> (v: Vec<ShutdownStep>)
    ensures
        v@ == shutdown_order(),
{
    let v = vec![
        ShutdownStep::StopConsensus,
        ShutdownStep::FlushBlocks,
        ShutdownStep::StopServers,
    ];
    assert(v@ =~= shutdown_order());
    v
}

/// A node that goes loses no block: each step is taken once, blocks are sent
/// after the last one has come, and the servers stop at the end.
pub proof fn law_shutdown_keeps_blocks(i: int, j: int)
    requires
        0 <= i < shutdown_order().len(),
        0 <= j < shutdown_order().len(),
    ensures
        shutdown_order()[i] == shutdown_order()[j] ==> i == j,
        shutdown_order()[i] is StopConsensus && shutdown_order()[j] is FlushBlocks ==> i < j,
        shutdown_order()[j] is StopServers ==> i <= j,
        forall|s: ShutdownStep| shutdown_order().contains(s),
{
    assert forall|s: ShutdownStep| shutdown_order().contains(s) by {
        let k: int = match s {
            ShutdownStep::StopConsensus => 0,
            ShutdownStep::FlushBlocks => 1,
            ShutdownStep::StopServers => 2,
        };
        assert(shutdown_order()[k] == s);
    }
}

} // verus!
