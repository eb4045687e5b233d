//! The connection to the executor.
//!
//! Commits are buffered by global execution index and sent strictly in
//! sequence; the executor's own progress is the authority on what is next.
use crate::index_map::{
    entries_from, entry, entry_count, first_index, has_entry, is_first, no_entries, put_entry,
    retain_from, take_entry,
};
use crate::node::executor_client::socket::SocketAddress;
use crate::text::{decimal, decimal_text};
use crate::wire::{put_bytes, put_uvarint, uvarint};
use std::collections::BTreeMap;
use vstd::prelude::*;
use vstd::string::*;

pub mod commit_data;
pub mod call;
pub mod connection_pool;
pub mod flush;
pub mod persistence;
pub mod responses;
pub mod socket;

verus! {

/// How many commits the buffer holds.
pub const MAX_BUFFER_SIZE: usize = 10_000;

/// Every how many blocks the executor's progress is checked.
pub const GO_VERIFICATION_INTERVAL: u64 = 10;

/// A gap longer than this is settled with the executor.
pub const MAX_GAP: u64 = 100;

/// A lag longer than this is reported.
pub const MAX_LAG: u64 = 100;

/// How many sent indices are remembered.
pub const MAX_SENT_INDICES: usize = 10_000;

/// First pause between attempts to connect, in milliseconds.
pub const CONNECT_DELAY_MS: u64 = 500;

/// Longest pause between attempts to connect, in milliseconds.
pub const MAX_CONNECT_DELAY_MS: u64 = 5000;

/// A commit that waits to be sent.
#[derive(Clone, Debug)]
pub struct BufferedCommit {
    pub data: Vec<u8>,
    pub epoch: u64,
    pub commit_index: u32,
}

/// A commit that is on its way.
#[derive(Clone, Debug)]
pub struct Outgoing {
    pub index: u64,
    pub commit: BufferedCommit,
}

/// The state of an [`ExecutorClient`].
pub struct ClientState {
    pub enabled: bool,
    pub can_commit: bool,
    pub buffer: Map<u64, BufferedCommit>,
    pub next_expected_index: u64,
    pub last_verified_go_index: u64,
    /// Indices that were sent, with their commit index.
    pub sent: Map<u64, u32>,
}

/// Sends commits to the executor.
pub struct ExecutorClient {
    socket_address: SocketAddress,
    request_socket_address: SocketAddress,
    enabled: bool,
    can_commit: bool,
    send_buffer: BTreeMap<u64, BufferedCommit>,
    next_expected_index: u64,
    last_verified_go_index: u64,
    sent_indices: BTreeMap<u64, u32>,
}

/// The buffer is full.
#[derive(Clone, Copy, Debug, PartialEq, Eq, Structural)]
pub struct BufferFull {
    pub buffered: usize,
}

impl BufferFull {
    /// What to tell the user.
    pub fn message(&self) -> (s: String)
        ensures
            s@ == "Buffer full: "@ + decimal_text(self.buffered as nat) + " blocks (max "@
                + decimal_text(MAX_BUFFER_SIZE as nat) + ")"@,
    {
        let mut s = String::from_str("Buffer full: ");
        s.append(decimal(self.buffered as u64).as_str());
        s.append(" blocks (max ");
        s.append(decimal(MAX_BUFFER_SIZE as u64).as_str());
        s.append(")");
        s
    }
}

/// What became of a commit.
#[derive(Clone, Copy, Debug, PartialEq, Eq, Structural)]
pub enum Buffered {
    /// It waits in the buffer.
    Added,
    /// It waits in the buffer in place of another commit with its index.
    Replaced,
    /// It waits in the buffer already.
    Duplicate,
    /// It is not wanted.
    Unwanted,
}

/// The commit is wanted: the client is on and may commit, and the index was
/// neither executed nor sent.
pub open spec fn is_wanted(s: ClientState, index: u64) -> bool {
    s.enabled && s.can_commit && s.next_expected_index <= index && !s.sent.contains_key(index)
}

/// What becomes of a commit, if the buffer is not full.
pub open spec fn buffered_as(s: ClientState, index: u64, c: BufferedCommit) -> Buffered {
    if !is_wanted(s, index) {
        Buffered::Unwanted
    } else if !s.buffer.contains_key(index) {
        Buffered::Added
    } else if s.buffer[index].epoch == c.epoch && s.buffer[index].commit_index == c.commit_index {
        Buffered::Duplicate
    } else {
        Buffered::Replaced
    }
}

/// The state after a commit was offered to the buffer.
pub open spec fn after_buffer(s: ClientState, index: u64, c: BufferedCommit) -> ClientState {
    if !is_wanted(s, index) || s.buffer.len() >= MAX_BUFFER_SIZE || buffered_as(
        s,
        index,
        c,
    ) is Duplicate {
        s
    } else {
        ClientState { buffer: s.buffer.insert(index, c), ..s }
    }
}

/// The state after hearing that the executor's last block is `last`: the
/// client never goes back.
pub open spec fn after_resync(s: ClientState, last: u64) -> ClientState {
    if last + 1 > s.next_expected_index {
        ClientState {
            next_expected_index: (last + 1) as u64,
            buffer: entries_from(s.buffer, last + 1),
            ..s
        }
    } else {
        s
    }
}

/// The sent indices with one more; beyond the limit the smallest is forgotten.
pub open spec fn remembered(sent: Map<u64, u32>, index: u64, commit_index: u32) -> Map<u64, u32> {
    let all = sent.insert(index, commit_index);
    if all.len() > MAX_SENT_INDICES {
        all.remove(smallest(all))
    } else {
        all
    }
}

/// The smallest index of a map.
pub open spec fn smallest(m: Map<u64, u32>) -> u64 {
    choose|k: u64| is_first(m, k)
}

/// The state after the commit at the next index was sent.
pub open spec fn after_sent(s: ClientState, commit_index: u32) -> ClientState {
    ClientState {
        buffer: s.buffer.remove(s.next_expected_index),
        next_expected_index: (s.next_expected_index + 1) as u64,
        sent: remembered(s.sent, s.next_expected_index, commit_index),
        ..s
    }
}

/// The distance from the next index to the first one in the buffer is too
/// long to wait for.
pub open spec fn has_large_gap(s: ClientState) -> bool {
    exists|k: u64| is_first(s.buffer, k) && k - s.next_expected_index > MAX_GAP
}

/// Nothing in the buffer is behind the next index, nothing sent is ahead.
pub open spec fn in_sequence(s: ClientState) -> bool {
    &&& forall|k: u64| #[trigger] s.buffer.contains_key(k) ==> s.next_expected_index <= k
    &&& forall|k: u64| #[trigger] s.sent.contains_key(k) ==> k < s.next_expected_index
}

/// What follows a successful send.
#[derive(Clone, Copy, Debug, PartialEq, Eq, Structural)]
pub struct SentStep {
    /// What to keep on disk: the index that was sent.
    pub index: u64,
    /// What to keep on disk: the commit index.
    pub commit_index: u32,
    /// Whether to check the executor's progress.
    pub verify: bool,
}

/// What a check of the executor's progress found.
#[derive(Clone, Copy, Debug, PartialEq, Eq, Structural)]
pub struct GoCheck {
    /// The executor went back: a fork, or damaged state.
    pub fork: bool,
    /// How many blocks the executor is behind.
    pub lag: u64,
    /// The lag is too long.
    pub lagging: bool,
}

impl ExecutorClient {
    /// The state.
    pub closed spec fn view(&self) -> ClientState {
        ClientState {
            enabled: self.enabled,
            can_commit: self.can_commit,
            buffer: self.send_buffer@,
            next_expected_index: self.next_expected_index,
            last_verified_go_index: self.last_verified_go_index,
            sent: self.sent_indices@,
        }
    }

    /// The socket that commits are sent to.
    pub closed spec fn send_address(&self) -> SocketAddress {
        self.socket_address
    }

    /// The socket that questions are sent to.
    pub closed spec fn request_address(&self) -> SocketAddress {
        self.request_socket_address
    }

    /// See [`in_sequence`].
    pub open spec fn wf(&self) -> bool {
        in_sequence(self@)
    }

    /// A client that starts at index 1.
    pub fn new(
        enabled: bool,
        can_commit: bool,
        send_socket: SocketAddress,
        receive_socket: SocketAddress,
    ) -> (c: Self)
        ensures
            c.wf(),
            c.send_address() == send_socket,
            c.request_address() == receive_socket,
            c@ == (ClientState {
                enabled,
                can_commit,
                buffer: Map::empty(),
                next_expected_index: 1,
                last_verified_go_index: 0,
                sent: Map::empty(),
            }),
    {
        ExecutorClient::new_with_initial_index(enabled, can_commit, send_socket, receive_socket, 1)
    }

    /// A client that starts at a given index.
    pub fn new_with_initial_index(
        enabled: bool,
        can_commit: bool,
        send_socket: SocketAddress,
        receive_socket: SocketAddress,
        initial_next_expected: u64,
    ) -> (c: Self)
        ensures
            c.wf(),
            c.send_address() == send_socket,
            c.request_address() == receive_socket,
            c@ == (ClientState {
                enabled,
                can_commit,
                buffer: Map::empty(),
                next_expected_index: initial_next_expected,
                last_verified_go_index: 0,
                sent: Map::empty(),
            }),
    {
        ExecutorClient {
            socket_address: send_socket,
            request_socket_address: receive_socket,
            enabled,
            can_commit,
            send_buffer: no_entries(),
            next_expected_index: initial_next_expected,
            last_verified_go_index: 0,
            sent_indices: no_entries(),
        }
    }

    /// Whether the client is on.
    pub fn is_enabled(&self) -> (b: bool)
        ensures
            b == self@.enabled,
    {
        self.enabled
    }

    /// Whether the client may commit.
    pub fn can_commit(&self) -> (b: bool)
        ensures
            b == self@.can_commit,
    {
        self.can_commit
    }

    /// The index that is sent next.
    pub fn next_expected_index(&self) -> (n: u64)
        ensures
            n == self@.next_expected_index,
    {
        self.next_expected_index
    }

    /// How many commits wait.
    pub fn buffered_count(&self) -> (n: usize)
        ensures
            n == self@.buffer.len(),
    {
        entry_count(&self.send_buffer)
    }

    /// The socket that commits are sent to.
    pub fn socket_address(&self) -> (a: &SocketAddress)
        ensures
            *a == self.send_address(),
    {
        &self.socket_address
    }

    /// The socket that questions are sent to.
    pub fn request_socket_address(&self) -> (a: &SocketAddress)
        ensures
            *a == self.request_address(),
    {
        &self.request_socket_address
    }

    /// Starts from the executor's progress: the block that it reports or, if
    /// it does not answer, the one that was kept on disk. A client that is
    /// ahead stays where it is.
    pub fn initialize_from_go(&mut self, reported: Option<u64>, persisted: Option<u64>)
        requires
            old(self).wf(),
            reported matches Some(b) ==> b < u64::MAX,
            reported is None ==> (persisted matches Some(b) ==> b < u64::MAX),
        ensures
            final(self).wf(),
            final(self).send_address() == old(self).send_address(),
            final(self).request_address() == old(self).request_address(),
            final(self)@ == if !old(self)@.enabled {
                old(self)@
            } else {
                match (reported, persisted) {
                    (Some(b), _) => after_resync(old(self)@, b),
                    (None, Some(b)) => after_resync(old(self)@, b),
                    (None, None) => old(self)@,
                }
            },
    {
        if !self.enabled {
            return;
        }
        match reported {
            Some(b) => self.resync(b),
            None => match persisted {
                Some(b) => self.resync(b),
                None => {},
            },
        }
    }

    /// Follows the executor, see [`after_resync`].
    pub fn resync(&mut self, go_last_block: u64)
        requires
            old(self).wf(),
            go_last_block < u64::MAX,
        ensures
            final(self).wf(),
            final(self).send_address() == old(self).send_address(),
            final(self).request_address() == old(self).request_address(),
            final(self)@ == after_resync(old(self)@, go_last_block),
    {
        let go_next: u64 = go_last_block + 1;
        if go_next > self.next_expected_index {
            self.next_expected_index = go_next;
            retain_from(&mut self.send_buffer, go_next);
        }
        assert forall|k: u64| #[trigger] self@.sent.contains_key(k) implies k
            < self@.next_expected_index by {
            assert(old(self)@.sent.contains_key(k));
        }
        assert forall|k: u64| #[trigger] self@.buffer.contains_key(k) implies
            self@.next_expected_index <= k by {
            assert(old(self)@.buffer.contains_key(k));
        }
    }

    /// Whether a commit has to be converted and buffered, see [`is_wanted`].
    pub fn wants(&self, global_exec_index: u64) -> (b: bool)
        ensures
            b == is_wanted(self@, global_exec_index),
    {
        self.enabled && self.can_commit && global_exec_index >= self.next_expected_index
            && !has_entry(&self.sent_indices, global_exec_index)
    }

    /// Puts a commit into the buffer if it is wanted. The same commit again is
    /// left out; another commit with the same index takes the place of the one
    /// before it. A full buffer takes nothing.
    pub fn buffer_commit(&mut self, global_exec_index: u64, commit: BufferedCommit) -> (r: Result<
        Buffered,
        BufferFull,
    >)
        requires
            old(self).wf(),
        ensures
            final(self).wf(),
            final(self).send_address() == old(self).send_address(),
            final(self).request_address() == old(self).request_address(),
            final(self)@ == after_buffer(old(self)@, global_exec_index, commit),
            match r {
                Ok(b) => (!is_wanted(old(self)@, global_exec_index) || old(self)@.buffer.len()
                    < MAX_BUFFER_SIZE) && b == buffered_as(old(self)@, global_exec_index, commit),
                Err(e) => is_wanted(old(self)@, global_exec_index) && old(self)@.buffer.len()
                    >= MAX_BUFFER_SIZE && e.buffered == old(self)@.buffer.len(),
            },
    {
        if !self.wants(global_exec_index) {
            return Ok(Buffered::Unwanted);
        }
        let count: usize = entry_count(&self.send_buffer);
        if count >= MAX_BUFFER_SIZE {
            return Err(BufferFull { buffered: count });
        }
        let known: Option<(u64, u32)> = match entry(&self.send_buffer, global_exec_index) {
            Some(c) => Some((c.epoch, c.commit_index)),
            None => None,
        };
        match known {
            Some((epoch, commit_index)) => {
                if epoch == commit.epoch && commit_index == commit.commit_index {
                    Ok(Buffered::Duplicate)
                } else {
                    put_entry(&mut self.send_buffer, global_exec_index, commit);
                    Ok(Buffered::Replaced)
                }
            },
            None => {
                put_entry(&mut self.send_buffer, global_exec_index, commit);
                Ok(Buffered::Added)
            },
        }
    }

    /// Whether a gap has to be settled with the executor before sending.
    pub fn needs_resync(&self) -> (b: bool)
        ensures
            b == has_large_gap(self@),
    {
        match first_index(&self.send_buffer) {
            Some(first) => {
                let large: bool = first > self.next_expected_index && first
                    - self.next_expected_index > MAX_GAP;
                proof {
                    assert(is_first(self@.buffer, first));
                    if has_large_gap(self@) {
                        let k = choose|k: u64|
                            is_first(self@.buffer, k) && k - self@.next_expected_index > MAX_GAP;
                        assert(k == first);
                    }
                }
                large
            },
            None => false,
        }
    }

    /// Takes the commit at the next index out of the buffer.
    pub fn next_to_send(&mut self) -> (r: Option<Outgoing>)
        requires
            old(self).wf(),
        ensures
            final(self).wf(),
            final(self).send_address() == old(self).send_address(),
            final(self).request_address() == old(self).request_address(),
            match r {
                Some(o) => {
                    &&& old(self)@.buffer.contains_key(old(self)@.next_expected_index)
                    &&& o.index == old(self)@.next_expected_index
                    &&& o.commit == old(self)@.buffer[o.index]
                },
                None => !old(self)@.buffer.contains_key(old(self)@.next_expected_index),
            },
            final(self)@ == (ClientState {
                buffer: old(self)@.buffer.remove(old(self)@.next_expected_index),
                ..old(self)@
            }),
    {
        let index: u64 = self.next_expected_index;
        let taken = take_entry(&mut self.send_buffer, index);
        assert forall|k: u64| #[trigger] self@.buffer.contains_key(k) implies
            self@.next_expected_index <= k by {
            assert(old(self)@.buffer.contains_key(k));
        }
        assert(self@.sent == old(self)@.sent);
        match taken {
            Some(commit) => Some(Outgoing { index, commit }),
            None => None,
        }
    }

    /// The commit could not be sent: it waits in the buffer again.
    pub fn on_send_failed(&mut self, out: Outgoing)
        requires
            old(self).wf(),
            out.index == old(self)@.next_expected_index,
        ensures
            final(self).wf(),
            final(self).send_address() == old(self).send_address(),
            final(self).request_address() == old(self).request_address(),
            final(self)@ == (ClientState {
                buffer: old(self)@.buffer.insert(out.index, out.commit),
                ..old(self)@
            }),
    {
        put_entry(&mut self.send_buffer, out.index, out.commit);
    }

    /// The commit was sent: the next index is the one after it.
    pub fn on_sent(&mut self, commit_index: u32) -> (step: SentStep)
        requires
            old(self).wf(),
            old(self)@.next_expected_index < u64::MAX,
            !old(self)@.buffer.contains_key(old(self)@.next_expected_index),
        ensures
            final(self).wf(),
            final(self).send_address() == old(self).send_address(),
            final(self).request_address() == old(self).request_address(),
            final(self)@ == after_sent(old(self)@, commit_index),
            step.index == old(self)@.next_expected_index,
            step.commit_index == commit_index,
            step.verify == (old(self)@.next_expected_index % GO_VERIFICATION_INTERVAL == 0),
    {
        let index: u64 = self.next_expected_index;
        let ghost s = self@;
        assert(s.buffer.remove(index) =~= s.buffer);
        self.next_expected_index = index + 1;
        put_entry(&mut self.sent_indices, index, commit_index);
        let ghost all = self.sent_indices@;
        if entry_count(&self.sent_indices) > MAX_SENT_INDICES {
            match first_index(&self.sent_indices) {
                Some(k) => {
                    proof {
                        let c = smallest(all);
                        assert(is_first(all, k));
                        assert(is_first(all, c));
                        assert(c == k);
                    }
                    take_entry(&mut self.sent_indices, k);
                },
                None => {
                    assert(all.contains_key(index));
                },
            }
        }
        proof {
            assert forall|k: u64| #[trigger] self@.sent.contains_key(k) implies k
                < self@.next_expected_index by {
                assert(k == index || s.sent.contains_key(k));
            }
            assert forall|k: u64| #[trigger] self@.buffer.contains_key(k) implies
                self@.next_expected_index <= k by {
                assert(s.buffer.contains_key(k) && k != index);
            }
        }
        SentStep { index, commit_index, verify: index % GO_VERIFICATION_INTERVAL == 0 }
    }

    /// Notes the executor's progress after index `sent` was sent.
    pub fn on_verified(&mut self, sent: u64, go_last_block: u64) -> (c: GoCheck)
        requires
            old(self).wf(),
        ensures
            final(self).wf(),
            final(self).send_address() == old(self).send_address(),
            final(self).request_address() == old(self).request_address(),
            final(self)@ == (ClientState {
                last_verified_go_index: go_last_block,
                ..old(self)@
            }),
            c.fork == (go_last_block < old(self)@.last_verified_go_index),
            c.lag == if sent > go_last_block {
                sent - go_last_block
            } else {
                0
            },
            c.lagging == (c.lag > MAX_LAG),
    {
        let fork: bool = go_last_block < self.last_verified_go_index;
        self.last_verified_go_index = go_last_block;
        let lag: u64 = if sent > go_last_block {
            sent - go_last_block
        } else {
            0
        };
        GoCheck { fork, lag, lagging: lag > MAX_LAG }
    }
}

/// A commit as it goes over the wire: its length in groups of seven bits, and
/// its bytes.
pub fn block_frame(data: &[u8]) -> (r: Vec<u8>)
    ensures
        r@ == uvarint(data@.len()) + data@,
{
    let mut r: Vec<u8> = Vec::new();
    put_uvarint(&mut r, data.len() as u64);
    assert(r@ =~= uvarint(data@.len()));
    put_bytes(&mut r, data);
    r
}

/// How writing a commit to the socket went.
#[derive(Clone, Copy, Debug, PartialEq, Eq, Structural)]
pub enum WriteResult {
    /// All bytes were written.
    Written,
    /// The socket reported an error.
    Failed,
    /// Writing took too long.
    TimedOut,
    /// There is no connection.
    NotConnected,
}

/// Why a commit was not sent.
#[derive(Clone, Copy, Debug, PartialEq, Eq, Structural)]
pub enum SendError {
    Timeout,
    RetryFailed,
    RetryTimeout,
    LostAfterReconnect,
    ConnectionLost,
}

/// What to do after an attempt to write.
#[derive(Clone, Copy, Debug, PartialEq, Eq, Structural)]
pub struct WriteStep {
    /// Drop the connection.
    pub close: bool,
    pub next: WriteNext,
}

/// How a send goes on.
#[derive(Clone, Copy, Debug, PartialEq, Eq, Structural)]
pub enum WriteNext {
    /// The commit was sent.
    Done,
    /// Connect anew and write once more.
    Reconnect,
    /// The commit was not sent.
    Fail(SendError),
}

/// What to do after an attempt to write: an error of the socket is answered
/// with one more attempt on a new connection, a timeout is not.
pub open spec fn write_step(retried: bool, result: WriteResult) -> WriteStep {
    match (retried, result) {
        (_, WriteResult::Written) => WriteStep { close: false, next: WriteNext::Done },
        (false, WriteResult::Failed) => WriteStep { close: true, next: WriteNext::Reconnect },
        (true, WriteResult::Failed) => WriteStep {
            close: true,
            next: WriteNext::Fail(SendError::RetryFailed),
        },
        (false, WriteResult::TimedOut) => WriteStep {
            close: true,
            next: WriteNext::Fail(SendError::Timeout),
        },
        (true, WriteResult::TimedOut) => WriteStep {
            close: true,
            next: WriteNext::Fail(SendError::RetryTimeout),
        },
        (false, WriteResult::NotConnected) => WriteStep {
            close: false,
            next: WriteNext::Fail(SendError::ConnectionLost),
        },
        (true, WriteResult::NotConnected) => WriteStep {
            close: false,
            next: WriteNext::Fail(SendError::LostAfterReconnect),
        },
    }
}

/// See [`write_step`].
pub fn after_write(retried: bool, result: WriteResult) -> (s: WriteStep)
    ensures
        s == write_step(retried, result),
{
    match result {
        WriteResult::Written => WriteStep { close: false, next: WriteNext::Done },
        WriteResult::Failed => WriteStep {
            close: true,
            next: if retried {
                WriteNext::Fail(SendError::RetryFailed)
            } else {
                WriteNext::Reconnect
            },
        },
        WriteResult::TimedOut => WriteStep {
            close: true,
            next: WriteNext::Fail(
                if retried {
                    SendError::RetryTimeout
                } else {
                    SendError::Timeout
                },
            ),
        },
        WriteResult::NotConnected => WriteStep {
            close: false,
            next: WriteNext::Fail(
                if retried {
                    SendError::LostAfterReconnect
                } else {
                    SendError::ConnectionLost
                },
            ),
        },
    }
}

/// The pause after one of `delay` milliseconds between attempts to connect.
pub fn next_connect_delay(delay: u64) -> (d: u64)
    requires
        delay <= MAX_CONNECT_DELAY_MS,
    ensures
        d == if 2 * delay < MAX_CONNECT_DELAY_MS {
            2 * delay
        } else {
            MAX_CONNECT_DELAY_MS as int
        },
{
    if delay * 2 < MAX_CONNECT_DELAY_MS {
        delay * 2
    } else {
        MAX_CONNECT_DELAY_MS
    }
}

/// Something that happens to a client.
pub enum ClientEvent {
    /// A commit arrives.
    Commit { index: u64, commit: BufferedCommit },
    /// The executor reports its last block.
    Report { last: u64 },
    /// The commit at the next index is sent.
    Send,
}

/// The state after an event.
pub open spec fn after_event(s: ClientState, e: ClientEvent) -> ClientState {
    match e {
        ClientEvent::Commit { index, commit } => after_buffer(s, index, commit),
        ClientEvent::Report { last } => if last < u64::MAX {
            after_resync(s, last)
        } else {
            s
        },
        ClientEvent::Send => if sends(s) {
            after_sent(s, s.buffer[s.next_expected_index].commit_index)
        } else {
            s
        },
    }
}

/// The commit at the next index is there and can be sent.
pub open spec fn sends(s: ClientState) -> bool {
    s.buffer.contains_key(s.next_expected_index) && s.next_expected_index < u64::MAX
}

/// The state after events one after the other.
pub open spec fn after_events(s: ClientState, events: Seq<ClientEvent>) -> ClientState
    decreases events.len(),
{
    if events.len() == 0 {
        s
    } else {
        after_event(after_events(s, events.drop_last()), events.last())
    }
}

/// The indices that were sent during the events, in order.
pub open spec fn sent_indices(s: ClientState, events: Seq<ClientEvent>) -> Seq<u64>
    decreases events.len(),
{
    if events.len() == 0 {
        Seq::empty()
    } else {
        let before = after_events(s, events.drop_last());
        let sent = sent_indices(s, events.drop_last());
        if events.last() is Send && sends(before) {
            sent.push(before.next_expected_index)
        } else {
            sent
        }
    }
}

/// Whatever happens, commits are sent in the order of their indices and none
/// is sent twice; and the client stays in sequence.
pub proof fn law_sent_in_order(s: ClientState, events: Seq<ClientEvent>)
    requires
        in_sequence(s),
    ensures
        in_sequence(after_events(s, events)),
        s.next_expected_index <= after_events(s, events).next_expected_index,
        forall|i: int|
            0 <= i < sent_indices(s, events).len() ==> s.next_expected_index
                <= #[trigger] sent_indices(s, events)[i] < after_events(
                s,
                events,
            ).next_expected_index,
        forall|i: int, j: int|
            0 <= i < j < sent_indices(s, events).len() ==> #[trigger] sent_indices(s, events)[i]
                < #[trigger] sent_indices(s, events)[j],
    decreases events.len(),
{
    if events.len() > 0 {
        let front = events.drop_last();
        law_sent_in_order(s, front);
        let before = after_events(s, front);
        let after = after_events(s, events);
        lemma_event_keeps_sequence(before, events.last());
        let sent = sent_indices(s, front);
        let all = sent_indices(s, events);
        assert forall|i: int| 0 <= i < all.len() implies s.next_expected_index
            <= #[trigger] all[i] < after.next_expected_index by {
            if i < sent.len() {
                assert(all[i] == sent[i]);
            }
        }
        assert forall|i: int, j: int| 0 <= i < j < all.len() implies #[trigger] all[i]
            < #[trigger] all[j] by {
            assert(all[i] == sent[i]);
            if j < sent.len() {
                assert(all[j] == sent[j]);
            }
        }
    }
}

proof fn lemma_event_keeps_sequence(s: ClientState, e: ClientEvent)
    requires
        in_sequence(s),
    ensures
        in_sequence(after_event(s, e)),
        s.next_expected_index <= after_event(s, e).next_expected_index,
{
    let t = after_event(s, e);
    assert forall|k: u64| #[trigger] t.buffer.contains_key(k) implies t.next_expected_index
        <= k by {
        match e {
            ClientEvent::Commit { index, commit } => {
                assert(k == index || s.buffer.contains_key(k));
            },
            _ => {
                assert(s.buffer.contains_key(k));
            },
        }
    }
    assert forall|k: u64| #[trigger] t.sent.contains_key(k) implies k < t.next_expected_index by {
        assert(k == s.next_expected_index || s.sent.contains_key(k));
    }
}

/// Between two reports of the executor no index is skipped: each send takes
/// the index after the one before.
pub proof fn law_send_advances_by_one(s: ClientState)
    requires
        sends(s),
    ensures
        after_event(s, ClientEvent::Send).next_expected_index == s.next_expected_index + 1,
        !after_event(s, ClientEvent::Send).buffer.contains_key(s.next_expected_index),
{
}

/// A commit that was sent is not wanted again.
pub proof fn law_sent_not_wanted(s: ClientState, events: Seq<ClientEvent>, i: int)
    requires
        in_sequence(s),
        0 <= i < sent_indices(s, events).len(),
    ensures
        !is_wanted(after_events(s, events), sent_indices(s, events)[i]),
{
    law_sent_in_order(s, events);
}

/// The length in front of a commit can be read back, whatever the commit.
pub proof fn law_frame_roundtrip(data: Seq<u8>)
    ensures
        crate::wire::uvarint_value(uvarint(data.len()) + data) == Some(
            (data.len(), uvarint(data.len()).len()),
        ),
{
    crate::wire::lemma_uvarint_roundtrip(data.len(), data);
}

/// No commit that the executor does not have is lost when the client follows
/// it: what is buffered behind the executor's last block stays, with the same
/// commit; only what the executor has leaves, and nothing else changes. The next
/// index is the later one of the client's and the executor's.
pub proof fn law_report_keeps_unexecuted(s: ClientState, last: u64)
    requires
        last < u64::MAX,
    ensures
        forall|k: u64|
            k > last && s.buffer.contains_key(k) ==> #[trigger] after_resync(
                s,
                last,
            ).buffer.contains_key(k),
        forall|k: u64| #[trigger]
            after_resync(s, last).buffer.contains_key(k) ==> s.buffer.contains_key(k)
                && after_resync(s, last).buffer[k] == s.buffer[k],
        in_sequence(s) ==> forall|k: u64| #[trigger]
            after_resync(s, last).buffer.contains_key(k) ==> k > last,
        after_resync(s, last).next_expected_index >= s.next_expected_index,
        after_resync(s, last).next_expected_index > last,
        after_resync(s, last).next_expected_index == s.next_expected_index || after_resync(
            s,
            last,
        ).next_expected_index == last + 1,
        after_resync(s, last).sent == s.sent,
        after_resync(s, last).enabled == s.enabled,
        after_resync(s, last).can_commit == s.can_commit,
        after_resync(s, last).last_verified_go_index == s.last_verified_go_index,
{
}

/// A commit that is wanted waits in the buffer after it was offered: it itself,
/// or the same commit of the epoch that waits already. Nothing else in the
/// buffer changes. A full buffer takes nothing, and what was executed or sent,
/// or comes to a client that is off or must not commit, is not buffered.
pub proof fn law_offered_commit_waits(s: ClientState, index: u64, c: BufferedCommit)
    ensures
        ({
            let t = after_buffer(s, index, c);
            let wanted = s.enabled && s.can_commit && index >= s.next_expected_index
                && !s.sent.contains_key(index);
            &&& wanted && s.buffer.len() < 10_000 ==> t.buffer.contains_key(index)
                && t.buffer[index].epoch == c.epoch && t.buffer[index].commit_index
                == c.commit_index
            &&& wanted && s.buffer.len() < 10_000 && !s.buffer.contains_key(index)
                ==> t.buffer[index] == c
            &&& wanted && s.buffer.len() < 10_000 && s.buffer.contains_key(index) && (
            s.buffer[index].epoch != c.epoch || s.buffer[index].commit_index != c.commit_index)
                ==> t.buffer[index] == c
            &&& wanted && s.buffer.contains_key(index) && s.buffer[index].epoch == c.epoch
                && s.buffer[index].commit_index == c.commit_index ==> t == s
            &&& !wanted || s.buffer.len() >= 10_000 ==> t == s
            &&& forall|k: u64|
                k != index ==> (#[trigger] t.buffer.contains_key(k) <==> s.buffer.contains_key(k))
            &&& forall|k: u64|
                k != index && s.buffer.contains_key(k) ==> #[trigger] t.buffer[k] == s.buffer[k]
            &&& t.next_expected_index == s.next_expected_index && t.sent == s.sent
            &&& t.enabled == s.enabled && t.can_commit == s.can_commit
        }),
{
}

/// What a caller is told of a commit is what became of it: it was added where
/// none waited, replaced another one, or was left out.
pub proof fn law_told_what_became(s: ClientState, index: u64, c: BufferedCommit)
    ensures
        ({
            let wanted = s.enabled && s.can_commit && index >= s.next_expected_index
                && !s.sent.contains_key(index);
            let b = buffered_as(s, index, c);
            &&& b is Unwanted <==> !wanted
            &&& b is Added <==> wanted && !s.buffer.contains_key(index)
            &&& b is Duplicate <==> wanted && s.buffer.contains_key(index) && s.buffer[index].epoch
                == c.epoch && s.buffer[index].commit_index == c.commit_index
        }),
{
}

/// Sending takes exactly the commit at the next index out of the buffer, and
/// remembers it as sent.
pub proof fn law_send_takes_one(s: ClientState, commit_index: u32)
    requires
        in_sequence(s),
        s.sent.dom().finite(),
        s.next_expected_index < u64::MAX,
    ensures
        ({
            let t = after_sent(s, commit_index);
            &&& t.next_expected_index == s.next_expected_index + 1
            &&& forall|k: u64|
                k != s.next_expected_index ==> (#[trigger] t.buffer.contains_key(k)
                    <==> s.buffer.contains_key(k))
            &&& forall|k: u64|
                k != s.next_expected_index && s.buffer.contains_key(k) ==> #[trigger] t.buffer[k]
                    == s.buffer[k]
            &&& !t.buffer.contains_key(s.next_expected_index)
            &&& t.sent.contains_key(s.next_expected_index) && t.sent[s.next_expected_index]
                == commit_index
            &&& s.sent.len() < 10_000 ==> forall|k: u64|
                s.sent.contains_key(k) ==> #[trigger] t.sent.contains_key(k)
        }),
{
    let index = s.next_expected_index;
    let all = s.sent.insert(index, commit_index);
    assert(!s.sent.contains_key(index));
    if all.len() > MAX_SENT_INDICES {
        lemma_smallest(all, index);
        let k0 = smallest(all);
        if k0 == index {
            assert(forall|k: u64| #[trigger]
                s.sent.contains_key(k) ==> k < index && all.contains_key(k));
            assert(forall|k: u64| !s.sent.contains_key(k));
            assert(s.sent.dom() =~= Set::<u64>::empty());
            assert(false);
        }
    }
}

proof fn lemma_smallest(m: Map<u64, u32>, k: u64)
    requires
        m.contains_key(k),
    ensures
        is_first(m, smallest(m)),
    decreases k,
{
    if !is_first(m, k) {
        let j = choose|j: u64| #[trigger] m.contains_key(j) && j < k;
        lemma_smallest(m, j);
    }
}

/// A commit that waits in the buffer stays there, whatever happens, until it is
/// sent, another commit of its index takes its place, or the executor reports
/// that it has the block.
pub proof fn law_commit_waits_until_sent(s: ClientState, events: Seq<ClientEvent>, k: u64)
    requires
        in_sequence(s),
        s.buffer.contains_key(k),
    ensures
        ({
            let t = after_events(s, events);
            ||| t.buffer.contains_key(k) && (t.buffer[k] == s.buffer[k] || exists|i: int|
                0 <= i < events.len() && (#[trigger] events[i] matches ClientEvent::Commit {
                    index,
                    commit,
                } && index == k))
            ||| sent_indices(s, events).contains(k)
            ||| exists|i: int|
                0 <= i < events.len() && (#[trigger] events[i] matches ClientEvent::Report { last }
                    && last >= k)
        }),
    decreases events.len(),
{
    if events.len() > 0 {
        let front = events.drop_last();
        let e = events.last();
        let mid = after_events(s, front);
        law_commit_waits_until_sent(s, front, k);
        law_sent_in_order(s, front);
        assert(forall|i: int| 0 <= i < front.len() ==> front[i] == #[trigger] events[i]);
        assert(events[events.len() - 1] == e);
        if sent_indices(s, front).contains(k) {
            let j = sent_indices(s, front).index_of(k);
            assert(sent_indices(s, events)[j] == k);
        } else if exists|i: int|
            0 <= i < front.len() && (#[trigger] front[i] matches ClientEvent::Report { last }
                && last >= k) {
            let i = choose|i: int|
                0 <= i < front.len() && (#[trigger] front[i] matches ClientEvent::Report { last }
                    && last >= k);
            assert(events[i] matches ClientEvent::Report { last } && last >= k);
        } else {
            assert(mid.buffer.contains_key(k));
            let same = mid.buffer[k] == s.buffer[k];
            if !same {
                let i = choose|i: int|
                    0 <= i < front.len() && (#[trigger] front[i] matches ClientEvent::Commit {
                        index,
                        commit,
                    } && index == k);
                assert(events[i] matches ClientEvent::Commit { index, commit } && index == k);
            }
            match e {
                ClientEvent::Commit { index, commit } => {
                    law_offered_commit_waits(mid, index, commit);
                },
                ClientEvent::Report { last } => {
                    if last < u64::MAX {
                        law_report_keeps_unexecuted(mid, last);
                        assert(after_events(s, events) == after_resync(mid, last));
                    }
                },
                ClientEvent::Send => {
                    if sends(mid) && mid.next_expected_index == k {
                        let all = sent_indices(s, events);
                        assert(all[all.len() - 1] == k);
                    }
                },
            }
        }
    }
}

/// A gap is settled with the executor exactly if commits wait and the first of
/// them is more than a hundred indices away from the next one.
pub proof fn law_gap_is_distance(s: ClientState, k: u64)
    requires
        in_sequence(s),
        s.buffer.contains_key(k),
    ensures
        k <= s.next_expected_index + 100 ==> !has_large_gap(s),
        (forall|j: u64| #[trigger] s.buffer.contains_key(j) ==> j > s.next_expected_index + 100)
            ==> has_large_gap(s),
        has_large_gap(s) ==> forall|j: u64| #[trigger]
            s.buffer.contains_key(j) ==> j > s.next_expected_index + 100,
{
    lemma_first_buffered(s.buffer, k);
    let f = choose|f: u64| is_first(s.buffer, f);
    if has_large_gap(s) {
        let g = choose|g: u64| is_first(s.buffer, g) && g - s.next_expected_index > MAX_GAP;
        assert(g == f);
    }
}

proof fn lemma_first_buffered(m: Map<u64, BufferedCommit>, k: u64)
    requires
        m.contains_key(k),
    ensures
        exists|f: u64| is_first(m, f),
    decreases k,
{
    if !is_first(m, k) {
        let j = choose|j: u64| #[trigger] m.contains_key(j) && j < k;
        lemma_first_buffered(m, j);
    } else {
        assert(is_first(m, k));
    }
}

/// A send ends well only if all bytes were written. An error of the socket is
/// answered with one attempt on a new connection and no more; a timeout or a
/// lost connection with none. A connection that failed is closed, one that works
/// is kept.
pub proof fn law_one_more_attempt(retried: bool, result: WriteResult)
    ensures
        write_step(retried, result).next is Done <==> result is Written,
        write_step(retried, result).next is Reconnect <==> !retried && result is Failed,
        write_step(retried, result).close <==> result is Failed || result is TimedOut,
        write_step(true, WriteResult::Failed).next == WriteNext::Fail(SendError::RetryFailed),
        write_step(false, WriteResult::TimedOut).next == WriteNext::Fail(SendError::Timeout),
        write_step(true, WriteResult::TimedOut).next == WriteNext::Fail(SendError::RetryTimeout),
        write_step(false, WriteResult::NotConnected).next == WriteNext::Fail(
            SendError::ConnectionLost,
        ),
        write_step(true, WriteResult::NotConnected).next == WriteNext::Fail(
            SendError::LostAfterReconnect,
        ),
{
}

/// Of the indices that were sent at most one is forgotten with each send, and
/// only the smallest.
pub proof fn law_only_oldest_is_forgotten(
    sent: Map<u64, u32>,
    index: u64,
    commit_index: u32,
    k: u64,
    j: u64,
)
    requires
        sent.contains_key(k),
        sent.contains_key(j),
        j < k,
        k != index,
    ensures
        remembered(sent, index, commit_index).contains_key(k),
        remembered(sent, index, commit_index)[k] == sent[k],
        sent.insert(index, commit_index).len() <= 10_000 ==> remembered(
            sent,
            index,
            commit_index,
        ) == sent.insert(index, commit_index),
        sent.dom().finite() && sent.len() <= 10_000 ==> remembered(
            sent,
            index,
            commit_index,
        ).len() <= 10_000,
{
    let all = sent.insert(index, commit_index);
    assert(all.contains_key(j));
    lemma_smallest(all, j);
}

} // verus!
