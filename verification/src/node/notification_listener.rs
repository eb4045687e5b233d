//! Notifications of the executor that the committee has changed.
use crate::wire::{get_le, le_value};
use vstd::prelude::*;
use vstd::string::*;

verus! {

/// The committee has changed.
#[derive(Clone, Debug)]
pub struct CommitteeChangeNotification {
    pub block_number: u64,
    /// `REGISTER`, `DEREGISTER` or `UNKNOWN`.
    pub change_type: String,
    pub validator_address: String,
    pub new_validator_count: u64,
}

/// Listens for notifications.
pub struct CommitteeNotificationListener {
    pub socket_path: String,
}

impl CommitteeNotificationListener {
    /// A listener on a socket.
    pub fn new(socket_path: &str) -> (l: Self)
        ensures
            l.socket_path@ == socket_path@,
    {
        CommitteeNotificationListener { socket_path: String::from_str(socket_path) }
    }
}

/// What reading the length of a message gave.
pub enum PrefixRead {
    /// Its four bytes.
    Bytes(Vec<u8>),
    /// The other side has closed the connection.
    Closed,
    /// Another error.
    Failed,
}

/// How a connection goes on.
#[derive(Clone, Copy, Debug, PartialEq, Eq, Structural)]
pub enum ListenStep {
    /// Read a message of this length.
    ReadMessage(usize),
    /// The connection has ended.
    Stop,
    /// The connection has failed.
    Fail,
}

/// After the length of a message was read; it is written least significant
/// byte first.
pub fn after_prefix(read: &PrefixRead) -> (s: ListenStep)
    requires
        read matches PrefixRead::Bytes(b) ==> b@.len() == 4,
    ensures
        s == match read {
            PrefixRead::Bytes(b) => ListenStep::ReadMessage(le_value(b@) as usize),
            PrefixRead::Closed => ListenStep::Stop,
            PrefixRead::Failed => ListenStep::Fail,
        },
{
    match read {
        PrefixRead::Bytes(b) => {
            let n: u64 = get_le(b.as_slice(), 0, 4);
            assert(b@.subrange(0, 4) =~= b@);
            proof {
                crate::wire::lemma_width_bounds(b@);
            }
            ListenStep::ReadMessage(n as usize)
        },
        PrefixRead::Closed => ListenStep::Stop,
        PrefixRead::Failed => ListenStep::Fail,
    }
}

/// The notification that a message stands for: that something has changed. The
/// message itself is not read.
pub fn notification_of(message: &[u8]) -> (n: CommitteeChangeNotification)
    ensures
        n.block_number == 0,
        n.change_type@ == "UNKNOWN"@,
        n.validator_address@ == ""@,
        n.new_validator_count == 0,
{
    CommitteeChangeNotification {
        block_number: 0,
        change_type: String::from_str("UNKNOWN"),
        validator_address: String::from_str(""),
        new_validator_count: 0,
    }
}

} // verus!
