//! Sending what is buffered.
use crate::node::executor_client::{
    after_resync, after_sent, has_large_gap, in_sequence, law_gap_is_distance,
    law_report_keeps_unexecuted, ClientState, ExecutorClient, GoCheck, Outgoing,
    GO_VERIFICATION_INTERVAL, MAX_LAG,
};
use vstd::prelude::*;

verus! {

/// How far a run of sends has come.
#[derive(Clone, Copy, Debug, PartialEq, Eq, Structural)]
pub enum FlushPhase {
    /// The connection is made.
    Connecting,
    /// The executor is asked about a large gap.
    Settling,
    /// A commit is on its way.
    Sending,
    /// A commit was sent; that is recorded.
    Recording { index: u64, verify: bool },
    /// The executor's progress is checked.
    Checking { index: u64 },
    /// The run has ended.
    Ended,
}

/// What has to be done next.
pub enum FlushAction {
    Connect,
    AskLastBlock,
    /// Send the commit that the run holds.
    Send,
    /// Keep on disk what was sent.
    Record { index: u64, commit_index: u32 },
    /// The run has ended.
    Done,
    /// The event does not belong to the phase: nothing was done.
    Ignore,
}

/// What came of an action.
pub enum FlushEvent {
    /// The connection is there, or not.
    Connected(bool),
    /// The executor's last block.
    LastBlock(Option<u64>),
    /// The commit was sent.
    Sent,
    /// The commit was not sent.
    NotSent,
    /// What was sent is kept on disk, or could not be.
    Recorded,
}

/// A run of sends.
pub struct FlushRun {
    pub phase: FlushPhase,
    /// The commit that is on its way.
    pub outgoing: Option<Outgoing>,
    /// What the last check of the executor's progress found.
    pub last_check: Option<GoCheck>,
}

/// A step of a run: the phase, the commit on its way and the client after it,
/// and what to do.
pub struct FlushStep {
    pub phase: FlushPhase,
    pub outgoing: Option<Outgoing>,
    pub client: ClientState,
    pub action: FlushAction,
}

/// The run ends.
pub open spec fn ended(s: ClientState) -> FlushStep {
    FlushStep {
        phase: FlushPhase::Ended,
        outgoing: None,
        client: s,
        action: FlushAction::Done,
    }
}

/// The executor is asked for its last block.
pub open spec fn asks(phase: FlushPhase, s: ClientState) -> FlushStep {
    FlushStep { phase, outgoing: None, client: s, action: FlushAction::AskLastBlock }
}

/// The commit at the next index is sent; without it the run ends.
pub open spec fn send_next(s: ClientState) -> FlushStep {
    let index = s.next_expected_index;
    if s.buffer.contains_key(index) {
        FlushStep {
            phase: FlushPhase::Sending,
            outgoing: Some(Outgoing { index, commit: s.buffer[index] }),
            client: ClientState { buffer: s.buffer.remove(index), ..s },
            action: FlushAction::Send,
        }
    } else {
        ended(s)
    }
}

/// The steps of a run, with the commit that is on its way.
pub open spec fn flush_step(
    phase: FlushPhase,
    outgoing: Option<Outgoing>,
    s: ClientState,
    e: FlushEvent,
) -> FlushStep {
    match (phase, e) {
        (FlushPhase::Connecting, FlushEvent::Connected(ok)) => if !ok {
            ended(s)
        } else if has_large_gap(s) {
            asks(FlushPhase::Settling, s)
        } else {
            send_next(s)
        },
        (FlushPhase::Settling, FlushEvent::LastBlock(b)) => match b {
            Some(n) => send_next(after_resync(s, n)),
            None => send_next(s),
        },
        (FlushPhase::Sending, FlushEvent::Sent) => {
            let out = outgoing->Some_0;
            FlushStep {
                phase: FlushPhase::Recording {
                    index: out.index,
                    verify: out.index % GO_VERIFICATION_INTERVAL == 0,
                },
                outgoing: None,
                client: after_sent(s, out.commit.commit_index),
                action: FlushAction::Record {
                    index: out.index,
                    commit_index: out.commit.commit_index,
                },
            }
        },
        (FlushPhase::Sending, FlushEvent::NotSent) => {
            let out = outgoing->Some_0;
            ended(ClientState { buffer: s.buffer.insert(out.index, out.commit), ..s })
        },
        (FlushPhase::Recording { index, verify }, FlushEvent::Recorded) => if verify {
            asks(FlushPhase::Checking { index }, s)
        } else {
            send_next(s)
        },
        (FlushPhase::Checking { index }, FlushEvent::LastBlock(b)) => match b {
            Some(n) => send_next(ClientState { last_verified_go_index: n, ..s }),
            None => send_next(s),
        },
        _ => FlushStep { phase, outgoing, client: s, action: FlushAction::Ignore },
    }
}

/// The run holds a commit exactly while one is on its way: the one at the
/// client's next index, which has left the buffer.
pub open spec fn holds_outgoing(
    phase: FlushPhase,
    outgoing: Option<Outgoing>,
    s: ClientState,
) -> bool {
    &&& phase is Sending <==> outgoing is Some
    &&& outgoing matches Some(out) ==> out.index == s.next_expected_index
        && !s.buffer.contains_key(out.index)
}

/// The event can happen in the phase: the numbers stay within 64 bits.
pub open spec fn event_fits(phase: FlushPhase, s: ClientState, e: FlushEvent) -> bool {
    match (phase, e) {
        (FlushPhase::Settling, FlushEvent::LastBlock(Some(n))) => n < u64::MAX,
        (FlushPhase::Sending, FlushEvent::Sent) => s.next_expected_index < u64::MAX,
        _ => true,
    }
}

impl FlushRun {
    /// The run holds the commit that is on its way, see [`holds_outgoing`].
    pub open spec fn wf(&self, s: ClientState) -> bool {
        holds_outgoing(self.phase, self.outgoing, s)
    }

    /// What an event leads to.
    pub open spec fn step(&self, s: ClientState, e: FlushEvent) -> FlushStep {
        flush_step(self.phase, self.outgoing, s, e)
    }

    /// A run that has not begun.
    pub fn new() -> (r: FlushRun)
        ensures
            r.phase is Connecting,
            r.outgoing is None,
            r.last_check is None,
            forall|s: ClientState| #[trigger] r.wf(s),
    {
        FlushRun { phase: FlushPhase::Connecting, outgoing: None, last_check: None }
    }

    /// What has to be done first.
    pub fn first_action(&self) -> (a: FlushAction)
        ensures
            a is Connect,
    {
        FlushAction::Connect
    }

    fn send(&mut self, client: &mut ExecutorClient) -> (a: FlushAction)
        requires
            old(client).wf(),
        ensures
            final(client).wf(),
            final(self).phase == send_next(old(client)@).phase,
            final(self).outgoing == send_next(old(client)@).outgoing,
            final(self).last_check == old(self).last_check,
            final(client)@ == send_next(old(client)@).client,
            a == send_next(old(client)@).action,
            final(client).send_address() == old(client).send_address(),
            final(client).request_address() == old(client).request_address(),
    {
        let ghost s = client@;
        match client.next_to_send() {
            Some(out) => {
                self.phase = FlushPhase::Sending;
                self.outgoing = Some(out);
                FlushAction::Send
            },
            None => {
                assert(s.buffer.remove(s.next_expected_index) =~= s.buffer);
                self.phase = FlushPhase::Ended;
                self.outgoing = None;
                FlushAction::Done
            },
        }
    }

    /// Gives back the commit that was on its way.
    fn take_outgoing(&mut self) -> (r: Outgoing)
        requires
            old(self).outgoing is Some,
        ensures
            r == old(self).outgoing->Some_0,
            *final(self) == (FlushRun { outgoing: None, ..*old(self) }),
    {
        let mut held: Option<Outgoing> = None;
        std::mem::swap(&mut held, &mut self.outgoing);
        held.unwrap()
    }

    /// Takes an event and gives what to do next, see [`flush_step`]. A check of
    /// the executor's progress is kept in `last_check`.
    pub fn on_event(&mut self, client: &mut ExecutorClient, event: FlushEvent) -> (a: FlushAction)
        requires
            old(client).wf(),
            old(self).wf(old(client)@),
            event_fits(old(self).phase, old(client)@, event),
        ensures
            final(client).wf(),
            final(self).wf(final(client)@),
            final(self).phase == old(self).step(old(client)@, event).phase,
            final(self).outgoing == old(self).step(old(client)@, event).outgoing,
            final(client)@ == old(self).step(old(client)@, event).client,
            a == old(self).step(old(client)@, event).action,
            final(client).send_address() == old(client).send_address(),
            final(client).request_address() == old(client).request_address(),
            match (old(self).phase, event) {
                (FlushPhase::Checking { index }, FlushEvent::LastBlock(Some(n))) => {
                    &&& final(self).last_check is Some
                    &&& final(self).last_check->Some_0.fork == (n
                        < old(client)@.last_verified_go_index)
                    &&& final(self).last_check->Some_0.lag == if index > n {
                        index - n
                    } else {
                        0
                    }
                    &&& final(self).last_check->Some_0.lagging == (index - n > MAX_LAG)
                },
                _ => final(self).last_check == old(self).last_check,
            },
    {
        match (self.phase, event) {
            (FlushPhase::Connecting, FlushEvent::Connected(ok)) => {
                if !ok {
                    self.phase = FlushPhase::Ended;
                    FlushAction::Done
                } else if client.needs_resync() {
                    self.phase = FlushPhase::Settling;
                    FlushAction::AskLastBlock
                } else {
                    self.send(client)
                }
            },
            (FlushPhase::Settling, FlushEvent::LastBlock(b)) => {
                match b {
                    Some(n) => {
                        client.resync(n);
                    },
                    None => {},
                }
                self.send(client)
            },
            (FlushPhase::Sending, FlushEvent::Sent) => {
                let out = self.take_outgoing();
                let step = client.on_sent(out.commit.commit_index);
                self.phase = FlushPhase::Recording { index: step.index, verify: step.verify };
                FlushAction::Record { index: step.index, commit_index: step.commit_index }
            },
            (FlushPhase::Sending, FlushEvent::NotSent) => {
                let out = self.take_outgoing();
                client.on_send_failed(out);
                self.phase = FlushPhase::Ended;
                FlushAction::Done
            },
            (FlushPhase::Recording { index, verify }, FlushEvent::Recorded) => {
                if verify {
                    self.phase = FlushPhase::Checking { index };
                    FlushAction::AskLastBlock
                } else {
                    self.send(client)
                }
            },
            (FlushPhase::Checking { index }, FlushEvent::LastBlock(b)) => {
                match b {
                    Some(n) => {
                        self.last_check = Some(client.on_verified(index, n));
                    },
                    None => {},
                }
                self.send(client)
            },
            _ => FlushAction::Ignore,
        }
    }
}

/// A commit that could not be sent is not lost: it waits in the buffer as
/// before it was taken out, and is the next to be sent.
pub proof fn law_failed_send_restores(s: ClientState)
    requires
        s.buffer.contains_key(s.next_expected_index),
    ensures
        send_next(s).action is Send,
        flush_step(
            FlushPhase::Sending,
            send_next(s).outgoing,
            send_next(s).client,
            FlushEvent::NotSent,
        ).client == s,
{
    let index = s.next_expected_index;
    assert(s.buffer.remove(index).insert(index, s.buffer[index]) =~= s.buffer);
}

/// A commit that was sent is recorded under its own index, with the commit
/// index that it was buffered with, and leaves the buffer.
pub proof fn law_sent_is_recorded(s: ClientState)
    requires
        s.buffer.contains_key(s.next_expected_index),
    ensures
        ({
            let index = s.next_expected_index;
            let t = flush_step(
                FlushPhase::Sending,
                send_next(s).outgoing,
                send_next(s).client,
                FlushEvent::Sent,
            );
            &&& t.action == (FlushAction::Record {
                index,
                commit_index: s.buffer[index].commit_index,
            })
            &&& t.client == after_sent(s, s.buffer[index].commit_index)
        }),
{
    let index = s.next_expected_index;
    assert(s.buffer.remove(index).remove(index) =~= s.buffer.remove(index));
}

/// What is sent is always the commit at the next index, and a run ends only
/// where that commit is missing, was not sent, or the connection failed.
pub proof fn law_run_sends_next(
    phase: FlushPhase,
    outgoing: Option<Outgoing>,
    s: ClientState,
    e: FlushEvent,
)
    requires
        holds_outgoing(phase, outgoing, s),
    ensures
        ({
            let t = flush_step(phase, outgoing, s, e);
            &&& holds_outgoing(t.phase, t.outgoing, t.client)
            &&& t.action is Send ==> t.outgoing is Some
            &&& t.phase is Ended && !(phase is Ended) ==> {
                ||| !t.client.buffer.contains_key(t.client.next_expected_index)
                ||| e is NotSent
                ||| e == FlushEvent::Connected(false)
            }
        }),
{
}

/// A run goes on after each commit: once what was sent is recorded, the commit
/// at the next index goes out if it waits. Every tenth index the executor is
/// asked for its last block before, and its answer is noted.
pub proof fn law_run_goes_on(s: ClientState, index: u64, verify: bool, answer: Option<u64>)
    ensures
        ({
            let t = flush_step(
                FlushPhase::Recording { index, verify },
                None,
                s,
                FlushEvent::Recorded,
            );
            let u = flush_step(
                FlushPhase::Checking { index },
                None,
                s,
                FlushEvent::LastBlock(answer),
            );
            let next = s.next_expected_index;
            &&& verify ==> t.action is AskLastBlock && t.client == s
            &&& !verify && s.buffer.contains_key(next) ==> t.action is Send && t.outgoing == Some(
                Outgoing { index: next, commit: s.buffer[next] },
            )
            &&& s.buffer.contains_key(next) ==> u.action is Send && u.outgoing == Some(
                Outgoing { index: next, commit: s.buffer[next] },
            )
            &&& !s.buffer.contains_key(next) ==> u.action is Done && u.outgoing is None
            &&& answer matches Some(n) ==> u.client.last_verified_go_index == n
            &&& answer is None ==> u.client.last_verified_go_index == s.last_verified_go_index
            &&& u.client.next_expected_index == next
        }),
        forall|out: Outgoing|
            #[trigger] flush_step(FlushPhase::Sending, Some(out), s, FlushEvent::Sent).phase == (
            FlushPhase::Recording { index: out.index, verify: out.index % 10 == 0 }),
{
}

/// A run begins to send once it is connected. Where commits wait and all of them
/// are more than a hundred indices away from the next one, the executor is asked
/// first, and the run goes on behind its last block: every commit behind that
/// block is still there or on its way.
pub proof fn law_gap_is_settled_first(s: ClientState, k: u64, last: u64)
    requires
        in_sequence(s),
        s.buffer.contains_key(k),
        last < u64::MAX,
    ensures
        ({
            let t = flush_step(FlushPhase::Connecting, None, s, FlushEvent::Connected(true));
            let u = flush_step(
                FlushPhase::Settling,
                None,
                s,
                FlushEvent::LastBlock(Some(last)),
            );
            &&& k <= s.next_expected_index + 100 ==> !(t.action is AskLastBlock)
            &&& k == s.next_expected_index ==> t.action is Send && t.outgoing == Some(
                Outgoing { index: k, commit: s.buffer[k] },
            )
            &&& (forall|j: u64| #[trigger]
                s.buffer.contains_key(j) ==> j > s.next_expected_index + 100)
                ==> t.action is AskLastBlock && t.client == s
            &&& u.client.next_expected_index >= s.next_expected_index
            &&& u.client.next_expected_index > last
            &&& k > last ==> (u.client.buffer.contains_key(k) && u.client.buffer[k] == s.buffer[k])
                || u.outgoing == Some(Outgoing { index: k, commit: s.buffer[k] })
        }),
{
    law_gap_is_distance(s, k);
    law_report_keeps_unexecuted(s, last);
    assert(after_resync(s, last).buffer.contains_key(k) || k <= last);
}

} // verus!
