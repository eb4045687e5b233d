//! One question to the executor: connect, send, read the answer.
use crate::node::executor_client::responses::{
    handoff_length, response_length, RpcError, MAX_RESPONSE_LEN,
};
use crate::wire::be_value;
use vstd::prelude::*;

verus! {

/// How often a connection is tried.
pub const MAX_CONNECT_ATTEMPTS: u32 = 3;

/// How far a question has come.
#[derive(Clone, Copy, Debug, PartialEq, Eq, Structural)]
pub enum CallPhase {
    /// The connection is made.
    Connecting,
    /// The question is sent.
    Sending,
    /// The length of the answer is read.
    Length,
    /// The answer is read.
    Data,
    Ended,
}

/// What has to be done next.
pub enum CallAction {
    /// Connect, or use the connection that is there.
    Connect,
    /// Connect after a pause of 100 ms.
    ConnectAgain,
    /// Send the question, with its length in front.
    Send,
    /// Read the four bytes of a length.
    ReadLength,
    /// Read an answer of this length.
    ReadData(usize),
    /// Read these bytes as an answer.
    Decode(Vec<u8>),
    Fail(RpcError),
    /// The event does not belong to the phase: nothing was done.
    Ignore,
}

/// What reading gave.
pub enum Arrival {
    Bytes(Vec<u8>),
    /// It took too long.
    TimedOut(String),
    /// Another error.
    Failed(String),
}

/// What came of an action.
pub enum CallEvent {
    /// The connection is there, or the error.
    Connected(Option<String>),
    /// The question was sent, or the error.
    Sent(Option<String>),
    Length(Arrival),
    Data(Arrival),
}

/// A question that is under way.
#[derive(Clone, Copy, Debug, PartialEq, Eq, Structural)]
pub struct ExecutorCall {
    /// Whether the question belongs to a handoff.
    pub handoff: bool,
    /// Number of the attempt to connect, from 1 on.
    pub attempt: u32,
    pub phase: CallPhase,
}

/// What the length of an answer leads to.
pub open spec fn length_step(handoff: bool, n: nat, phase2: CallPhase, a: CallAction) -> bool {
    if 0 < n <= MAX_RESPONSE_LEN {
        phase2 is Data && a == CallAction::ReadData(n as usize)
    } else {
        phase2 is Ended && (a matches CallAction::Fail(e) && if handoff {
            e matches RpcError::InvalidLength(m) && m == n
        } else if n == 0 {
            e is ZeroLength
        } else {
            e matches RpcError::TooLarge(m) && m == n
        })
    }
}

/// A step of a question: `c2` is what comes of the event, `a` is what to do.
pub open spec fn call_step(
    c: ExecutorCall,
    e: CallEvent,
    c2: ExecutorCall,
    a: CallAction,
) -> bool {
    c2.handoff == c.handoff && match (c.phase, e) {
        (CallPhase::Connecting, CallEvent::Connected(r)) => match r {
            None => c2.phase is Sending && c2.attempt == c.attempt && a is Send,
            Some(error) => if c.attempt < MAX_CONNECT_ATTEMPTS {
                c2.phase is Connecting && c2.attempt == c.attempt + 1 && a is ConnectAgain
            } else {
                c2.phase is Ended && c2.attempt == c.attempt && a == CallAction::Fail(
                    RpcError::Connect(error),
                )
            },
        },
        (CallPhase::Sending, CallEvent::Sent(r)) => c2.attempt == c.attempt && match r {
            None => c2.phase is Length && a is ReadLength,
            Some(error) => c2.phase is Ended && a == CallAction::Fail(RpcError::Io(error)),
        },
        (CallPhase::Length, CallEvent::Length(r)) => c2.attempt == c.attempt && match r {
            Arrival::Bytes(b) => length_step(c.handoff, be_value(b@), c2.phase, a),
            Arrival::TimedOut(error) => c2.phase is Ended && a == CallAction::Fail(
                RpcError::LengthTimeout(error),
            ),
            Arrival::Failed(error) => c2.phase is Ended && a == CallAction::Fail(
                RpcError::Io(error),
            ),
        },
        (CallPhase::Data, CallEvent::Data(r)) => c2.attempt == c.attempt && c2.phase is Ended
            && a == match r {
            Arrival::Bytes(b) => CallAction::Decode(b),
            Arrival::TimedOut(error) => CallAction::Fail(RpcError::DataTimeout(error)),
            Arrival::Failed(error) => CallAction::Fail(RpcError::Io(error)),
        },
        _ => c2 == c && a is Ignore,
    }
}

impl ExecutorCall {
    /// Starts a question; a client that is switched off asks nothing.
    pub fn start(enabled: bool, handoff: bool) -> (r: Result<ExecutorCall, RpcError>)
        ensures
            match r {
                Ok(c) => enabled && c == (ExecutorCall {
                    handoff,
                    attempt: 1,
                    phase: CallPhase::Connecting,
                }),
                Err(e) => !enabled && e is NotEnabled,
            },
    {
        if enabled {
            Ok(ExecutorCall { handoff, attempt: 1, phase: CallPhase::Connecting })
        } else {
            Err(RpcError::NotEnabled)
        }
    }

    /// What has to be done first.
    pub fn first_action(&self) -> (a: CallAction)
        ensures
            a is Connect,
    {
        CallAction::Connect
    }

    fn fail(&mut self, e: RpcError) -> (a: CallAction)
        ensures
            *final(self) == (ExecutorCall { phase: CallPhase::Ended, ..*old(self) }),
            a == CallAction::Fail(e),
    {
        self.phase = CallPhase::Ended;
        CallAction::Fail(e)
    }

    /// Takes an event and gives what to do next, see [`call_step`].
    pub fn on_event(&mut self, event: CallEvent) -> (a: CallAction)
        requires
            event matches CallEvent::Length(Arrival::Bytes(b)) ==> b@.len() == 4,
        ensures
            call_step(*old(self), event, *final(self), a),
    {
        match self.phase {
            CallPhase::Connecting => match event {
                CallEvent::Connected(r) => match r {
                    None => {
                        self.phase = CallPhase::Sending;
                        CallAction::Send
                    },
                    Some(error) => {
                        if self.attempt < MAX_CONNECT_ATTEMPTS {
                            self.attempt = self.attempt + 1;
                            CallAction::ConnectAgain
                        } else {
                            self.fail(RpcError::Connect(error))
                        }
                    },
                },
                _ => CallAction::Ignore,
            },
            CallPhase::Sending => match event {
                CallEvent::Sent(r) => match r {
                    None => {
                        self.phase = CallPhase::Length;
                        CallAction::ReadLength
                    },
                    Some(error) => self.fail(RpcError::Io(error)),
                },
                _ => CallAction::Ignore,
            },
            CallPhase::Length => match event {
                CallEvent::Length(r) => match r {
                    Arrival::Bytes(b) => {
                        let n = if self.handoff {
                            handoff_length(b.as_slice())
                        } else {
                            response_length(b.as_slice())
                        };
                        match n {
                            Ok(len) => {
                                self.phase = CallPhase::Data;
                                CallAction::ReadData(len)
                            },
                            Err(e) => self.fail(e),
                        }
                    },
                    Arrival::TimedOut(error) => self.fail(RpcError::LengthTimeout(error)),
                    Arrival::Failed(error) => self.fail(RpcError::Io(error)),
                },
                _ => CallAction::Ignore,
            },
            CallPhase::Data => match event {
                CallEvent::Data(r) => match r {
                    Arrival::Bytes(b) => {
                        self.phase = CallPhase::Ended;
                        CallAction::Decode(b)
                    },
                    Arrival::TimedOut(error) => self.fail(RpcError::DataTimeout(error)),
                    Arrival::Failed(error) => self.fail(RpcError::Io(error)),
                },
                _ => CallAction::Ignore,
            },
            CallPhase::Ended => CallAction::Ignore,
        }
    }
}

/// A question is connected, sent, and answered: the answer is read to the length
/// that comes before it and handed on as it is. A length of 0 or of more than
/// ten million bytes is refused.
pub proof fn law_answer_is_read_whole(
    c: ExecutorCall,
    length: Vec<u8>,
    data: Vec<u8>,
    c1: ExecutorCall,
    a1: CallAction,
    c2: ExecutorCall,
    a2: CallAction,
    c3: ExecutorCall,
    a3: CallAction,
    c4: ExecutorCall,
    a4: CallAction,
)
    requires
        c.phase is Connecting,
        call_step(c, CallEvent::Connected(None), c1, a1),
        call_step(c1, CallEvent::Sent(None), c2, a2),
        call_step(c2, CallEvent::Length(Arrival::Bytes(length)), c3, a3),
        call_step(c3, CallEvent::Data(Arrival::Bytes(data)), c4, a4),
    ensures
        a1 is Send,
        a2 is ReadLength,
        0 < be_value(length@) <= MAX_RESPONSE_LEN ==> a3 == CallAction::ReadData(
            be_value(length@) as usize,
        ) && a4 == CallAction::Decode(data) && c4.phase is Ended,
        be_value(length@) == 0 || be_value(length@) > MAX_RESPONSE_LEN ==> a3 is Fail && c3.phase
            is Ended && a4 is Ignore,
        c4.handoff == c.handoff,
{
}

/// A connection is tried three times in all; the error of the last attempt is
/// reported. Any other failure ends the question at once.
pub proof fn law_three_attempts(
    c: ExecutorCall,
    error: String,
    c2: ExecutorCall,
    a: CallAction,
    d: ExecutorCall,
    d2: ExecutorCall,
    b: CallAction,
)
    requires
        c.phase is Connecting,
        call_step(c, CallEvent::Connected(Some(error)), c2, a),
        d.phase is Sending,
        call_step(d, CallEvent::Sent(Some(error)), d2, b),
    ensures
        c.attempt < 3 ==> a is ConnectAgain && c2.phase is Connecting && c2.attempt == c.attempt
            + 1,
        c.attempt >= 3 ==> a == CallAction::Fail(RpcError::Connect(error)) && c2.phase is Ended,
        b == CallAction::Fail(RpcError::Io(error)),
        d2.phase is Ended,
{
}

/// A wait that takes too long is told apart by what was waited for, and other
/// errors are reported as they are.
pub proof fn law_timeouts_are_told_apart(
    c: ExecutorCall,
    error: String,
    c2: ExecutorCall,
    a: CallAction,
    c3: ExecutorCall,
    b: CallAction,
    d: ExecutorCall,
    d2: ExecutorCall,
    e: CallAction,
    d3: ExecutorCall,
    f: CallAction,
)
    requires
        c.phase is Length,
        call_step(c, CallEvent::Length(Arrival::TimedOut(error)), c2, a),
        call_step(c, CallEvent::Length(Arrival::Failed(error)), c3, b),
        d.phase is Data,
        call_step(d, CallEvent::Data(Arrival::TimedOut(error)), d2, e),
        call_step(d, CallEvent::Data(Arrival::Failed(error)), d3, f),
    ensures
        a == CallAction::Fail(RpcError::LengthTimeout(error)),
        b == CallAction::Fail(RpcError::Io(error)),
        e == CallAction::Fail(RpcError::DataTimeout(error)),
        f == CallAction::Fail(RpcError::Io(error)),
        c2.phase is Ended && c3.phase is Ended && d2.phase is Ended && d3.phase is Ended,
{
}

/// An event that does not belong to where a question stands changes nothing.
pub proof fn law_stray_events_are_ignored(
    c: ExecutorCall,
    e: CallEvent,
    c2: ExecutorCall,
    a: CallAction,
)
    requires
        call_step(c, e, c2, a),
        c.phase is Connecting ==> !(e is Connected),
        c.phase is Sending ==> !(e is Sent),
        c.phase is Length ==> !(e is Length),
        c.phase is Data ==> !(e is Data),
    ensures
        c2 == c,
        a is Ignore,
{
}

} // verus!
