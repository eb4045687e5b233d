//! Slots for connections, used in turn.
use crate::node::executor_client::socket::SocketAddress;
use vstd::prelude::*;

verus! {

/// How often a slot tries to connect.
pub const MAX_CONNECT_RETRIES: u32 = 3;

/// Slots for connections to one address, used round-robin. The connections
/// themselves are the caller's; the pool knows which slots have one.
pub struct ConnectionPool {
    connected: Vec<bool>,
    address: SocketAddress,
    next_index: usize,
    pool_size: usize,
    connect_timeout_secs: u64,
}

/// The state of a [`ConnectionPool`].
pub struct PoolState {
    pub connected: Seq<bool>,
    pub address: SocketAddress,
    pub next_index: usize,
    pub connect_timeout_secs: u64,
}

/// What to do after a failed attempt to connect a slot.
#[derive(Clone, Copy, Debug, PartialEq, Eq, Structural)]
pub enum ConnectStep {
    /// Try again after a pause of 100 ms.
    Retry,
    /// Report the error.
    GiveUp,
}

impl ConnectionPool {
    /// The state.
    pub closed spec fn view(&self) -> PoolState {
        PoolState {
            connected: self.connected@,
            address: self.address,
            next_index: self.next_index,
            connect_timeout_secs: self.connect_timeout_secs,
        }
    }

    /// There is an entry for each slot.
    pub closed spec fn wf(&self) -> bool {
        self.pool_size == self.connected@.len()
    }

    /// A pool without connections.
    pub fn new(address: SocketAddress, pool_size: usize, connect_timeout_secs: u64) -> (p: Self)
        ensures
            p.wf(),
            p@ == (PoolState {
                connected: Seq::new(pool_size as nat, |i: int| false),
                address,
                next_index: 0,
                connect_timeout_secs,
            }),
    {
        let mut connected: Vec<bool> = Vec::new();
        let mut i: usize = 0;
        while i < pool_size
            invariant
                i <= pool_size,
                connected@ == Seq::new(i as nat, |j: int| false),
            decreases pool_size - i,
        {
            connected.push(false);
            i += 1;
            assert(connected@ =~= Seq::new(i as nat, |j: int| false));
        }
        ConnectionPool { connected, address, next_index: 0, pool_size, connect_timeout_secs }
    }

    /// The slot whose turn it is; the next call gives the one after it.
    pub fn next_slot(&mut self) -> (slot: usize)
        requires
            old(self).wf(),
            old(self)@.connected.len() > 0,
        ensures
            final(self).wf(),
            slot == old(self)@.next_index as int % old(self)@.connected.len() as int,
            final(self)@ == (PoolState {
                next_index: if old(self)@.next_index == usize::MAX {
                    0
                } else {
                    (old(self)@.next_index + 1) as usize
                },
                ..old(self)@
            }),
    {
        let slot: usize = self.next_index % self.pool_size;
        self.next_index = if self.next_index == usize::MAX {
            0
        } else {
            self.next_index + 1
        };
        slot
    }

    /// Whether a slot has to be connected anew: it has no connection, or the
    /// one that it has cannot be written to. Such a slot is empty afterwards.
    pub fn check_slot(&mut self, slot: usize, writable: bool) -> (reconnect: bool)
        requires
            old(self).wf(),
            slot < old(self)@.connected.len(),
        ensures
            final(self).wf(),
            reconnect == !(old(self)@.connected[slot as int] && writable),
            final(self)@ == (PoolState {
                connected: if reconnect {
                    old(self)@.connected.update(slot as int, false)
                } else {
                    old(self)@.connected
                },
                ..old(self)@
            }),
    {
        let reconnect: bool = !(self.connected[slot] && writable);
        if reconnect {
            self.connected.set(slot, false);
        }
        reconnect
    }

    /// Notes that a slot has a connection.
    pub fn slot_connected(&mut self, slot: usize)
        requires
            old(self).wf(),
            slot < old(self)@.connected.len(),
        ensures
            final(self).wf(),
            final(self)@ == (PoolState {
                connected: old(self)@.connected.update(slot as int, true),
                ..old(self)@
            }),
    {
        self.connected.set(slot, true);
    }

    /// Empties all slots.
    pub fn reset_all(&mut self)
        requires
            old(self).wf(),
        ensures
            final(self).wf(),
            final(self)@ == (PoolState {
                connected: Seq::new(old(self)@.connected.len(), |i: int| false),
                ..old(self)@
            }),
    {
        let mut i: usize = 0;
        let ghost n = self.connected@.len();
        while i < self.connected.len()
            invariant
                i <= self.connected@.len(),
                self.connected@.len() == n,
                self.pool_size == n,
                self.address == old(self).address,
                self.next_index == old(self).next_index,
                self.connect_timeout_secs == old(self).connect_timeout_secs,
                forall|j: int| 0 <= j < i ==> !#[trigger] self.connected@[j],
            decreases self.connected.len() - i,
        {
            self.connected.set(i, false);
            i += 1;
        }
        assert(self.connected@ =~= Seq::new(n, |i: int| false));
    }

    /// Whether a slot has a connection.
    pub fn is_connected(&self, slot: usize) -> (b: bool)
        requires
            slot < self@.connected.len(),
        ensures
            b == self@.connected[slot as int],
    {
        self.connected[slot]
    }

    /// The number of slots.
    pub fn size(&self) -> (n: usize)
        requires
            self.wf(),
        ensures
            n == self@.connected.len(),
    {
        self.pool_size
    }

    /// What to do after attempt `attempt` to connect has failed.
    pub fn after_failed_connect(attempt: u32) -> (s: ConnectStep)
        ensures
            s is Retry <==> attempt < MAX_CONNECT_RETRIES,
    {
        if attempt < MAX_CONNECT_RETRIES {
            ConnectStep::Retry
        } else {
            ConnectStep::GiveUp
        }
    }
}

/// The slots take turns: the slot after `i` turns from the start is `i` modulo
/// the size of the pool.
pub open spec fn turn(i: nat, size: nat) -> int {
    i as int % size as int
}

/// In as many turns as there are slots, each slot comes once.
pub proof fn law_each_slot_once(start: nat, size: nat, i: nat, j: nat)
    requires
        size > 0,
        i < size,
        j < size,
        turn(start + i, size) == turn(start + j, size),
    ensures
        i == j,
{
    let a = (start + i) as int;
    let b = (start + j) as int;
    let n = size as int;
    vstd::arithmetic::div_mod::lemma_fundamental_div_mod(a, n);
    vstd::arithmetic::div_mod::lemma_fundamental_div_mod(b, n);
    let d = a / n - b / n;
    assert(a - b == n * d) by (nonlinear_arith)
        requires
            a == n * (a / n) + a % n,
            b == n * (b / n) + b % n,
            a % n == b % n,
            d == a / n - b / n,
    ;
    assert(d == 0) by (nonlinear_arith)
        requires
            a - b == n * d,
            -n < a - b < n,
            n > 0,
    ;
}

} // verus!
