//! Transactions over a local socket: frames with a length in front, answers in
//! JSON. One connection carries any number of requests.
use crate::crypto::hex_text;
use crate::node::consensus_node::Acceptance;
use crate::text::{begins_with, decimal, decimal_text, escape_quotes, join3, quotes_escaped};
use crate::tx_hash::{
    calculate_transaction_hash_hex, optional_bytes, payload_hash, payload_transaction,
    PayloadReading,
};
use crate::wire::{be_bytes, be_value, contents, frame_be, get_u32_be};
use vstd::prelude::*;
use vstd::string::*;
use vstd::utf8::encode_utf8;

verus! {

/// Longest request, in bytes.
pub const MAX_TX_SIZE: usize = 10_485_760;

/// An answer with an error in it.
pub open spec fn error_json(prefix: Seq<char>, reason: Seq<char>) -> Seq<char> {
    "{\"success\":false,\"error\":\""@ + prefix + reason + "\"}"@
}

/// An answer to transactions that are kept for the next epoch.
pub open spec fn queued_json(prefix: Seq<char>, reason: Seq<char>) -> Seq<char> {
    "{\"success\":true,\"queued\":true,\"message\":\""@ + prefix + reason + "\"}"@
}

/// How a request goes on.
pub enum RequestStep {
    /// Answer. With `queue` the transactions are kept for the next epoch.
    Reply { text: String, queue: bool },
    /// Go on with the request.
    Proceed,
}

/// What reading a request as transactions gave.
pub enum RequestReading {
    /// It is no list of transactions; the text says why.
    Invalid(String),
    /// The transactions, each in its own encoded form; `None` for one that
    /// could not be encoded.
    Transactions(Vec<Option<Vec<u8>>>),
}

/// The transactions that could be encoded.
pub open spec fn encoded(txs: Seq<Option<Vec<u8>>>) -> Seq<Seq<u8>>
    decreases txs.len(),
{
    if txs.len() == 0 {
        Seq::empty()
    } else {
        match txs.last() {
            Some(t) => encoded(txs.drop_last()).push(t@),
            None => encoded(txs.drop_last()),
        }
    }
}

fn error_text(prefix: &str, reason: &str) -> (s: String)
    ensures
        s@ == error_json(prefix@, reason@),
{
    let mut s = String::from_str("{\"success\":false,\"error\":\"");
    s.append(prefix);
    s.append(reason);
    s.append("\"}");
    s
}

fn queued_text(prefix: &str, reason: &str) -> (s: String)
    ensures
        s@ == queued_json(prefix@, reason@),
{
    let mut s = String::from_str("{\"success\":true,\"queued\":true,\"message\":\"");
    s.append(prefix);
    s.append(reason);
    s.append("\"}");
    s
}

/// The length of a request, from the four bytes in front of it; one that is
/// too long is answered.
pub fn request_length(prefix: &[u8]) -> (r: Result<usize, String>)
    requires
        prefix@.len() == 4,
    ensures
        match r {
            Ok(n) => n == be_value(prefix@) && n <= MAX_TX_SIZE,
            Err(text) => be_value(prefix@) > MAX_TX_SIZE && text@ == error_json(
                "Transaction too large: "@,
                decimal_text(be_value(prefix@)) + " bytes (max: "@ + decimal_text(
                    MAX_TX_SIZE as nat,
                ) + ")"@,
            ),
        },
{
    let n: usize = get_u32_be(prefix) as usize;
    if n > MAX_TX_SIZE {
        let mut reason = decimal(n as u64);
        reason.append(" bytes (max: ");
        reason.append(decimal(MAX_TX_SIZE as u64).as_str());
        reason.append(")");
        Err(error_text("Transaction too large: ", reason.as_str()))
    } else {
        Ok(n)
    }
}

/// The transactions of a request, one by one; a request without any is
/// answered.
pub fn split_request(reading: RequestReading) -> (r: Result<Vec<Vec<u8>>, String>)
    ensures
        match reading {
            RequestReading::Invalid(why) => r matches Err(text) && text@ == error_json(
                "Invalid Transactions protobuf: "@,
                quotes_escaped(why@),
            ),
            RequestReading::Transactions(txs) => if txs@.len() == 0 {
                r matches Err(text) && text@ == error_json("Empty Transactions message"@, ""@)
            } else if encoded(txs@).len() == 0 {
                r matches Err(text) && text@ == error_json(
                    "No valid transactions after encoding"@,
                    ""@,
                )
            } else {
                r matches Ok(v) && contents(v@) == encoded(txs@)
            },
        },
{
    match reading {
        RequestReading::Invalid(why) => {
            let reason = escape_quotes(why.as_str());
            Err(error_text("Invalid Transactions protobuf: ", reason.as_str()))
        },
        RequestReading::Transactions(txs) => {
            if txs.len() == 0 {
                return Err(error_text("Empty Transactions message", ""));
            }
            let ghost all = txs@;
            let mut v: Vec<Vec<u8>> = Vec::new();
            assert(all.subrange(0, 0) =~= Seq::<Option<Vec<u8>>>::empty());
            assert(contents(v@) =~= encoded(all.subrange(0, 0)));
            for t in it: txs
                invariant
                    it.seq() == all,
                    contents(v@) == encoded(all.subrange(0, it.index() as int)),
            {
                proof {
                    let longer = all.subrange(0, it.index() as int + 1);
                    assert(longer.drop_last() =~= all.subrange(0, it.index() as int));
                    assert(longer.last() == t);
                }
                let ghost before = contents(v@);
                match t {
                    Some(x) => {
                        v.push(x);
                        assert(contents(v@) =~= before.push(x@));
                    },
                    None => {},
                }
            }
            assert(all.subrange(0, all.len() as int) =~= all);
            assert(contents(v@).len() == v@.len());
            if v.len() == 0 {
                Err(error_text("No valid transactions after encoding", ""))
            } else {
                Ok(v)
            }
        },
    }
}

/// What the node says to transactions that have just come.
pub fn first_check(a: &Acceptance) -> (s: RequestStep)
    ensures
        if a.queue {
            s matches RequestStep::Reply { text, queue } && text@ == queued_json(
                "Transaction queued for next epoch: "@,
                quotes_escaped(a.reason@),
            ) && queue
        } else if !a.accept {
            s matches RequestStep::Reply { text, queue } && text@ == error_json(
                "Node not ready to accept transactions: "@,
                quotes_escaped(a.reason@),
            ) && !queue
        } else {
            s is Proceed
        },
{
    if a.queue {
        let reason = escape_quotes(a.reason.as_str());
        RequestStep::Reply {
            text: queued_text("Transaction queued for next epoch: ", reason.as_str()),
            queue: true,
        }
    } else if !a.accept {
        let reason = escape_quotes(a.reason.as_str());
        RequestStep::Reply {
            text: error_text("Node not ready to accept transactions: ", reason.as_str()),
            queue: false,
        }
    } else {
        RequestStep::Proceed
    }
}

/// What the node says right before the transactions are submitted: a change
/// since the first check is answered, and they are not submitted.
pub fn final_check(a: &Acceptance) -> (s: RequestStep)
    ensures
        if a.queue {
            s matches RequestStep::Reply { text, queue } && text@ == queued_json(
                "Transaction queued due to barrier race condition: "@,
                quotes_escaped(a.reason@),
            ) && queue
        } else if !a.accept {
            s matches RequestStep::Reply { text, queue } && text@ == error_json(
                "Node not ready: "@,
                quotes_escaped(a.reason@),
            ) && !queue
        } else {
            s is Proceed
        },
{
    if a.queue {
        let reason = escape_quotes(a.reason.as_str());
        RequestStep::Reply {
            text: queued_text(
                "Transaction queued due to barrier race condition: ",
                reason.as_str(),
            ),
            queue: true,
        }
    } else if !a.accept {
        let reason = escape_quotes(a.reason.as_str());
        RequestStep::Reply {
            text: error_text("Node not ready: ", reason.as_str()),
            queue: false,
        }
    } else {
        RequestStep::Proceed
    }
}

/// Numbers between brackets, with commas.
pub open spec fn list_items(v: Seq<u16>) -> Seq<char>
    decreases v.len(),
{
    if v.len() == 0 {
        Seq::empty()
    } else if v.len() == 1 {
        decimal_text(v[0] as nat)
    } else {
        list_items(v.drop_last()) + ", "@ + decimal_text(v.last() as nat)
    }
}

/// A list of numbers as text.
pub fn list_text(v: &Vec<u16>) -> (s: String)
    ensures
        s@ == "["@ + list_items(v@) + "]"@,
{
    let mut items = String::new();
    let mut i: usize = 0;
    assert(v@.subrange(0, 0) =~= Seq::<u16>::empty());
    assert(items@ =~= list_items(v@.subrange(0, 0)));
    while i < v.len()
        invariant
            i <= v@.len(),
            items@ == list_items(v@.subrange(0, i as int)),
        decreases v.len() - i,
    {
        proof {
            let longer = v@.subrange(0, i + 1);
            assert(longer.drop_last() =~= v@.subrange(0, i as int));
            assert(longer.last() == v@[i as int]);
            if i == 0 {
                assert(longer[0] == v@[0]);
                assert(items@ + decimal_text(v@[0] as nat) =~= decimal_text(v@[0] as nat));
            }
        }
        if i > 0 {
            items.append(", ");
        }
        items.append(decimal(v[i] as u64).as_str());
        i += 1;
    }
    assert(v@.subrange(0, v@.len() as int) =~= v@);
    join3("[", items.as_str(), "]")
}

/// An answer to transactions that the consensus took: the hash of the first,
/// the block, their places in it, and their number.
pub open spec fn success_json(
    tx_hash: Seq<char>,
    block_ref: Seq<char>,
    indices: Seq<u16>,
    count: nat,
) -> Seq<char> {
    "{\"success\":true,\"tx_hash\":\""@ + tx_hash + "\",\"block_ref\":\""@ + block_ref
        + "\",\"indices\":"@ + ("["@ + list_items(indices) + "]"@) + ",\"count\":"@ + decimal_text(
        count,
    ) + "}"@
}

/// See [`success_json`].
pub fn success_response(tx_hash: &str, block_ref: &str, indices: &Vec<u16>, count: usize) -> (s:
    String)
    ensures
        s@ == success_json(tx_hash@, block_ref@, indices@, count as nat),
{
    let mut s = String::from_str("{\"success\":true,\"tx_hash\":\"");
    s.append(tx_hash);
    s.append("\",\"block_ref\":\"");
    s.append(block_ref);
    s.append("\",\"indices\":");
    s.append(list_text(indices).as_str());
    s.append(",\"count\":");
    s.append(decimal(count as u64).as_str());
    s.append("}");
    s
}

/// The answer to transactions that the consensus did not take.
pub fn failure_response(error: &str) -> (s: String)
    ensures
        s@ == error_json("Transaction submission failed: "@, quotes_escaped(error@)),
{
    let reason = escape_quotes(error);
    error_text("Transaction submission failed: ", reason.as_str())
}

/// An answer as it goes over the wire: its length in four bytes, most
/// significant byte first, and its bytes.
pub fn response_frame(text: &str) -> (r: Vec<u8>)
    ensures
        r@ == be_bytes(encode_utf8(text@).len(), 4) + encode_utf8(text@),
{
    frame_be(text.as_bytes())
}

/// How far a request on a connection has come.
#[derive(Clone, Copy, Debug, PartialEq, Eq, Structural)]
pub enum ConnectionPhase {
    /// The length of a request is read.
    Prefix,
    /// A request is read.
    Body,
    /// A request is read as transactions.
    Decoding,
    /// The node is asked whether it takes the transactions.
    FirstCheck,
    /// The node is asked once more, right before they are submitted.
    FinalCheck,
    /// The transactions are submitted.
    Submitting,
    /// An answer is sent; then the next request is read.
    Replying,
    /// The connection has ended.
    Ended,
}

/// What has to be done next.
pub enum ConnectionAction {
    /// Read the four bytes of a length.
    ReadPrefix,
    /// Read a request of this length.
    ReadBody(usize),
    /// Read these bytes as transactions.
    Decode(Vec<u8>),
    AskNode,
    /// Submit the transactions of the connection.
    Submit,
    /// Send an answer; with `queue` keep the transactions for the next epoch
    /// before.
    Reply { text: String, queue: bool },
    /// The connection has ended.
    Close,
    /// The connection has failed.
    Fail,
    /// The event does not belong to the phase: nothing was done.
    Ignore,
}

/// What reading gave.
pub enum ReadResult {
    Bytes(Vec<u8>),
    /// The other side has closed the connection.
    Closed,
    /// Another error.
    Failed,
}

/// What submitting gave.
pub enum SubmitReport {
    /// The block, and the places of the transactions in it.
    Taken { block_ref: String, indices: Vec<u16> },
    /// The error.
    Refused(String),
}

/// What came of an action.
pub enum ConnectionEvent {
    Prefix(ReadResult),
    Body(ReadResult),
    Decoded(RequestReading),
    NodeSays(Acceptance),
    /// The report, how the first transaction is read, and the encoded form of
    /// the fields that its hash covers.
    Submitted { report: SubmitReport, first: PayloadReading, encoded: Option<Vec<u8>> },
    /// The answer was sent, or not.
    Replied(bool),
}

/// A connection that carries transactions.
pub struct SocketConnection {
    pub phase: ConnectionPhase,
    /// The transactions of the request that is dealt with.
    pub transactions: Vec<Vec<u8>>,
}

/// `a` sends an answer.
pub open spec fn replies(
    a: ConnectionAction,
    phase2: ConnectionPhase,
    text: Seq<char>,
    queue: bool,
) -> bool {
    phase2 is Replying && (a matches ConnectionAction::Reply {
        text: t,
        queue: q,
    } && t@ == text && q == queue)
}

/// The hash that an answer names: the short one of the first transaction.
pub open spec fn answered_hash(
    transactions: Seq<Vec<u8>>,
    first: PayloadReading,
    encoded: Option<Vec<u8>>,
) -> Seq<char> {
    if transactions.len() == 0 {
        "unknown"@
    } else {
        hex_text(
            payload_hash(
                transactions[0]@,
                payload_transaction(first),
                optional_bytes(encoded),
            ).subrange(0, 8),
        )
    }
}

/// A step of a connection: `c2` is what comes of the event, `a` is what to do.
pub open spec fn connection_step(
    c: SocketConnection,
    e: ConnectionEvent,
    c2: SocketConnection,
    a: ConnectionAction,
) -> bool {
    match (c.phase, e) {
        (ConnectionPhase::Prefix, ConnectionEvent::Prefix(r)) => c2.transactions
            == c.transactions && match r {
            ReadResult::Closed => c2.phase is Ended && a is Close,
            ReadResult::Failed => c2.phase is Ended && a is Fail,
            ReadResult::Bytes(b) => if be_value(b@) > MAX_TX_SIZE {
                replies(
                    a,
                    c2.phase,
                    error_json(
                        "Transaction too large: "@,
                        decimal_text(be_value(b@)) + " bytes (max: "@ + decimal_text(
                            MAX_TX_SIZE as nat,
                        ) + ")"@,
                    ),
                    false,
                )
            } else {
                c2.phase is Body && a == ConnectionAction::ReadBody(be_value(b@) as usize)
            },
        },
        (ConnectionPhase::Body, ConnectionEvent::Body(r)) => c2.transactions == c.transactions
            && match r {
            ReadResult::Closed => c2.phase is Ended && a is Close,
            ReadResult::Failed => c2.phase is Ended && a is Fail,
            ReadResult::Bytes(b) => c2.phase is Decoding && a == ConnectionAction::Decode(b),
        },
        (ConnectionPhase::Decoding, ConnectionEvent::Decoded(r)) => match r {
            RequestReading::Invalid(why) => c2.transactions == c.transactions && replies(
                a,
                c2.phase,
                error_json("Invalid Transactions protobuf: "@, quotes_escaped(why@)),
                false,
            ),
            RequestReading::Transactions(txs) => if txs@.len() == 0 {
                c2.transactions == c.transactions && replies(
                    a,
                    c2.phase,
                    error_json("Empty Transactions message"@, ""@),
                    false,
                )
            } else if encoded(txs@).len() == 0 {
                c2.transactions == c.transactions && replies(
                    a,
                    c2.phase,
                    error_json("No valid transactions after encoding"@, ""@),
                    false,
                )
            } else {
                c2.phase is FirstCheck && a is AskNode && contents(c2.transactions@) == encoded(
                    txs@,
                )
            },
        },
        (ConnectionPhase::FirstCheck, ConnectionEvent::NodeSays(n)) => c2.transactions
            == c.transactions && if n.queue {
            replies(
                a,
                c2.phase,
                queued_json("Transaction queued for next epoch: "@, quotes_escaped(n.reason@)),
                true,
            )
        } else if !n.accept {
            replies(
                a,
                c2.phase,
                error_json("Node not ready to accept transactions: "@, quotes_escaped(n.reason@)),
                false,
            )
        } else {
            c2.phase is FinalCheck && a is AskNode
        },
        (ConnectionPhase::FinalCheck, ConnectionEvent::NodeSays(n)) => c2.transactions
            == c.transactions && if n.queue {
            replies(
                a,
                c2.phase,
                queued_json(
                    "Transaction queued due to barrier race condition: "@,
                    quotes_escaped(n.reason@),
                ),
                true,
            )
        } else if !n.accept {
            replies(
                a,
                c2.phase,
                error_json("Node not ready: "@, quotes_escaped(n.reason@)),
                false,
            )
        } else {
            c2.phase is Submitting && a is Submit
        },
        (
            ConnectionPhase::Submitting,
            ConnectionEvent::Submitted { report, first, encoded },
        ) => c2.transactions == c.transactions && replies(
            a,
            c2.phase,
            match report {
                SubmitReport::Taken { block_ref, indices } => success_json(
                    answered_hash(c.transactions@, first, encoded),
                    block_ref@,
                    indices@,
                    c.transactions@.len(),
                ),
                SubmitReport::Refused(error) => error_json(
                    "Transaction submission failed: "@,
                    quotes_escaped(error@),
                ),
            },
            false,
        ),
        (ConnectionPhase::Replying, ConnectionEvent::Replied(ok)) => c2.transactions
            == c.transactions && if ok {
            c2.phase is Prefix && a is ReadPrefix
        } else {
            c2.phase is Ended && a is Fail
        },
        _ => c2 == c && a is Ignore,
    }
}

impl SocketConnection {
    /// A new connection.
    pub fn new() -> (c: SocketConnection)
        ensures
            c.phase is Prefix,
            c.transactions@.len() == 0,
    {
        SocketConnection { phase: ConnectionPhase::Prefix, transactions: Vec::new() }
    }

    /// What has to be done first.
    pub fn first_action(&self) -> (a: ConnectionAction)
        ensures
            a is ReadPrefix,
    {
        ConnectionAction::ReadPrefix
    }

    fn reply(&mut self, text: String, queue: bool) -> (a: ConnectionAction)
        ensures
            replies(a, final(self).phase, text@, queue),
            final(self).transactions == old(self).transactions,
    {
        self.phase = ConnectionPhase::Replying;
        ConnectionAction::Reply { text, queue }
    }

    fn end(&mut self, a: ConnectionAction) -> (r: ConnectionAction)
        ensures
            r == a,
            final(self).phase is Ended,
            final(self).transactions == old(self).transactions,
    {
        self.phase = ConnectionPhase::Ended;
        a
    }

    /// Takes an event and gives what to do next, see [`connection_step`].
    pub fn on_event(&mut self, event: ConnectionEvent) -> (a: ConnectionAction)
        requires
            event matches ConnectionEvent::Prefix(ReadResult::Bytes(b)) ==> b@.len() == 4,
        ensures
            connection_step(*old(self), event, *final(self), a),
    {
        match self.phase {
            ConnectionPhase::Prefix => match event {
                ConnectionEvent::Prefix(r) => match r {
                    ReadResult::Closed => self.end(ConnectionAction::Close),
                    ReadResult::Failed => self.end(ConnectionAction::Fail),
                    ReadResult::Bytes(b) => match request_length(b.as_slice()) {
                        Ok(n) => {
                            self.phase = ConnectionPhase::Body;
                            ConnectionAction::ReadBody(n)
                        },
                        Err(text) => self.reply(text, false),
                    },
                },
                _ => ConnectionAction::Ignore,
            },
            ConnectionPhase::Body => match event {
                ConnectionEvent::Body(r) => match r {
                    ReadResult::Closed => self.end(ConnectionAction::Close),
                    ReadResult::Failed => self.end(ConnectionAction::Fail),
                    ReadResult::Bytes(b) => {
                        self.phase = ConnectionPhase::Decoding;
                        ConnectionAction::Decode(b)
                    },
                },
                _ => ConnectionAction::Ignore,
            },
            ConnectionPhase::Decoding => match event {
                ConnectionEvent::Decoded(r) => match split_request(r) {
                    Ok(txs) => {
                        self.transactions = txs;
                        self.phase = ConnectionPhase::FirstCheck;
                        ConnectionAction::AskNode
                    },
                    Err(text) => self.reply(text, false),
                },
                _ => ConnectionAction::Ignore,
            },
            ConnectionPhase::FirstCheck => match event {
                ConnectionEvent::NodeSays(n) => match first_check(&n) {
                    RequestStep::Reply { text, queue } => self.reply(text, queue),
                    RequestStep::Proceed => {
                        self.phase = ConnectionPhase::FinalCheck;
                        ConnectionAction::AskNode
                    },
                },
                _ => ConnectionAction::Ignore,
            },
            ConnectionPhase::FinalCheck => match event {
                ConnectionEvent::NodeSays(n) => match final_check(&n) {
                    RequestStep::Reply { text, queue } => self.reply(text, queue),
                    RequestStep::Proceed => {
                        self.phase = ConnectionPhase::Submitting;
                        ConnectionAction::Submit
                    },
                },
                _ => ConnectionAction::Ignore,
            },
            ConnectionPhase::Submitting => match event {
                ConnectionEvent::Submitted { report, first, encoded } => {
                    let first_hash = if self.transactions.len() == 0 {
                        String::from_str("unknown")
                    } else {
                        calculate_transaction_hash_hex(
                            self.transactions[0].as_slice(),
                            &first,
                            encoded,
                        )
                    };
                    let text = match report {
                        SubmitReport::Taken { block_ref, indices } => success_response(
                            first_hash.as_str(),
                            block_ref.as_str(),
                            &indices,
                            self.transactions.len(),
                        ),
                        SubmitReport::Refused(error) => failure_response(error.as_str()),
                    };
                    self.reply(text, false)
                },
                _ => ConnectionAction::Ignore,
            },
            ConnectionPhase::Replying => match event {
                ConnectionEvent::Replied(ok) => {
                    if ok {
                        self.phase = ConnectionPhase::Prefix;
                        ConnectionAction::ReadPrefix
                    } else {
                        self.end(ConnectionAction::Fail)
                    }
                },
                _ => ConnectionAction::Ignore,
            },
            ConnectionPhase::Ended => ConnectionAction::Ignore,
        }
    }
}

/// Transactions are submitted only after the node has said twice that it takes
/// them; a node that keeps or turns them away at either time ends the request.
pub proof fn law_submit_needs_two_checks(
    c: SocketConnection,
    e: ConnectionEvent,
    c2: SocketConnection,
    a: ConnectionAction,
)
    requires
        connection_step(c, e, c2, a),
    ensures
        a is Submit ==> c.phase is FinalCheck && (e matches ConnectionEvent::NodeSays(n) && n.accept
            && !n.queue),
        c2.phase is FinalCheck && !(c.phase is FinalCheck) ==> c.phase is FirstCheck && (
        e matches ConnectionEvent::NodeSays(n) && n.accept && !n.queue),
{
}

/// A connection stays open until the client closes it or reading or writing
/// fails: every request is answered and followed by the next one.
pub proof fn law_connection_stays_open(
    c: SocketConnection,
    e: ConnectionEvent,
    c2: SocketConnection,
    a: ConnectionAction,
)
    requires
        connection_step(c, e, c2, a),
        !(c.phase is Ended),
        c2.phase is Ended,
    ensures
        (e matches ConnectionEvent::Prefix(r) && !(r is Bytes)) || (
        e matches ConnectionEvent::Body(r) && !(r is Bytes)) || e == ConnectionEvent::Replied(
            false,
        ),
{
}

/// All transactions of a request that could be encoded are dealt with, in their
/// order, and no others.
pub proof fn law_encoded_are_kept(
    a: Seq<Option<Vec<u8>>>,
    b: Seq<Option<Vec<u8>>>,
    x: Vec<u8>,
)
    ensures
        encoded(a + b) == encoded(a) + encoded(b),
        encoded(seq![Some(x)]) == seq![x@],
        encoded(seq![None::<Vec<u8>>]).len() == 0,
    decreases b.len(),
{
    if b.len() > 0 {
        law_encoded_are_kept(a, b.drop_last(), x);
        assert((a + b).drop_last() =~= a + b.drop_last());
        assert((a + b).last() == b.last());
    } else {
        assert(a + b =~= a);
    }
    assert(encoded(a + b) =~= encoded(a) + encoded(b));
    reveal_with_fuel(encoded, 2);
    let one = seq![Some(x)];
    assert(one.drop_last() =~= Seq::<Option<Vec<u8>>>::empty());
    assert(one.last() == Some(x));
    assert(encoded(one) =~= seq![x@]);
    let none = seq![None::<Vec<u8>>];
    assert(none.drop_last() =~= Seq::<Option<Vec<u8>>>::empty());
    assert(none.last() is None);
}

/// A request is read to the length that its four bytes give, the most
/// significant one first, unless that exceeds ten mebibytes; then it is refused
/// and nothing of it is read.
pub proof fn law_request_is_read_whole(
    c: SocketConnection,
    b: Vec<u8>,
    c2: SocketConnection,
    a: ConnectionAction,
)
    requires
        c.phase is Prefix,
        connection_step(c, ConnectionEvent::Prefix(ReadResult::Bytes(b)), c2, a),
    ensures
        be_value(b@) <= 10 * 1024 * 1024 ==> a == ConnectionAction::ReadBody(
            be_value(b@) as usize,
        ),
        be_value(b@) > 10 * 1024 * 1024 ==> (a matches ConnectionAction::Reply { text, queue }
            && !queue && begins_with(text@, "{\"success\":false"@)),
{
    if be_value(b@) > 10 * 1024 * 1024 {
        law_refusals_say_so(
            "Transaction too large: "@,
            decimal_text(be_value(b@)) + " bytes (max: "@ + decimal_text(MAX_TX_SIZE as nat)
                + ")"@,
        );
    }
}

/// An answer that refuses says that there was no success, one that keeps
/// transactions says that they wait, and both give their reason.
pub proof fn law_refusals_say_so(prefix: Seq<char>, reason: Seq<char>)
    ensures
        begins_with(error_json(prefix, reason), "{\"success\":false"@),
        begins_with(queued_json(prefix, reason), "{\"success\":true,\"queued\":true"@),
        exists|i: int| crate::rpc::stands_at(error_json(prefix, reason), prefix + reason, i),
        exists|i: int| crate::rpc::stands_at(queued_json(prefix, reason), prefix + reason, i),
{
    reveal_strlit("{\"success\":false,\"error\":\"");
    reveal_strlit("{\"success\":false");
    reveal_strlit("{\"success\":true,\"queued\":true,\"message\":\"");
    reveal_strlit("{\"success\":true,\"queued\":true");
    let e = error_json(prefix, reason);
    let q = queued_json(prefix, reason);
    let eh = "{\"success\":false,\"error\":\""@;
    let qh = "{\"success\":true,\"queued\":true,\"message\":\""@;
    assert(e.subrange(0, "{\"success\":false"@.len() as int) =~= "{\"success\":false"@);
    assert(q.subrange(0, "{\"success\":true,\"queued\":true"@.len() as int)
        =~= "{\"success\":true,\"queued\":true"@);
    let n = (prefix + reason).len() as int;
    assert(e.subrange(eh.len() as int, eh.len() + n) =~= prefix + reason);
    assert(crate::rpc::stands_at(e, prefix + reason, eh.len() as int));
    assert(q.subrange(qh.len() as int, qh.len() + n) =~= prefix + reason);
    assert(crate::rpc::stands_at(q, prefix + reason, qh.len() as int));
}

/// A node that keeps transactions has them queued and says so; one that turns
/// them away has them not queued and refuses; only one that takes them both
/// times has them submitted.
pub proof fn law_node_decides(
    c: SocketConnection,
    n: Acceptance,
    c2: SocketConnection,
    a: ConnectionAction,
)
    requires
        c.phase is FirstCheck || c.phase is FinalCheck,
        connection_step(c, ConnectionEvent::NodeSays(n), c2, a),
    ensures
        n.queue ==> (a matches ConnectionAction::Reply { text, queue } && queue && begins_with(
            text@,
            "{\"success\":true,\"queued\":true"@,
        )),
        !n.queue && !n.accept ==> (a matches ConnectionAction::Reply { text, queue } && !queue
            && begins_with(text@, "{\"success\":false"@)),
        !n.queue && n.accept && c.phase is FirstCheck ==> a is AskNode && c2.phase is FinalCheck,
        !n.queue && n.accept && c.phase is FinalCheck ==> a is Submit,
        c2.transactions == c.transactions,
{
    let r = quotes_escaped(n.reason@);
    law_refusals_say_so("Transaction queued for next epoch: "@, r);
    law_refusals_say_so("Node not ready to accept transactions: "@, r);
    law_refusals_say_so("Transaction queued due to barrier race condition: "@, r);
    law_refusals_say_so("Node not ready: "@, r);
}

/// Transactions that were submitted are answered: with success only if they were
/// taken, and then with the hash of the first one, the block and the number of
/// transactions. Nothing is queued.
pub proof fn law_submission_is_answered(
    c: SocketConnection,
    report: SubmitReport,
    first: PayloadReading,
    form: Option<Vec<u8>>,
    c2: SocketConnection,
    a: ConnectionAction,
)
    requires
        c.phase is Submitting,
        c.transactions@.len() > 0,
        connection_step(
            c,
            ConnectionEvent::Submitted { report, first, encoded: form },
            c2,
            a,
        ),
    ensures
        a matches ConnectionAction::Reply { text, queue } && !queue && match report {
            SubmitReport::Refused(_) => begins_with(text@, "{\"success\":false"@),
            SubmitReport::Taken { block_ref, indices } => begins_with(
                text@,
                "{\"success\":true,\"tx_hash\":\""@ + hex_text(
                    payload_hash(
                        c.transactions@[0]@,
                        payload_transaction(first),
                        match form {
                            Some(b) => Some(b@),
                            None => None,
                        },
                    ).subrange(0, 8),
                ) + "\",\"block_ref\":\""@ + block_ref@,
            ) && exists|i: int|
                crate::rpc::stands_at(
                    text@,
                    "\"count\":"@ + decimal_text(c.transactions@.len()) + "}"@,
                    i,
                ),
        },
{
    match report {
        SubmitReport::Refused(error) => {
            law_refusals_say_so("Transaction submission failed: "@, quotes_escaped(error@));
        },
        SubmitReport::Taken { block_ref, indices } => {
            let h = answered_hash(c.transactions@, first, form);
            let n = c.transactions@.len();
            let t = success_json(h, block_ref@, indices@, n);
            let front = "{\"success\":true,\"tx_hash\":\""@ + h + "\",\"block_ref\":\""@
                + block_ref@;
            assert(t.subrange(0, front.len() as int) =~= front);
            reveal_strlit(",\"count\":");
            reveal_strlit("\"count\":");
            assert(",\"count\":"@ =~= seq![','] + "\"count\":"@);
            let list = "["@ + list_items(indices@) + "]"@;
            let head = front + "\",\"indices\":"@ + list + seq![','];
            let tail = "\"count\":"@ + decimal_text(n) + "}"@;
            assert(t =~= head + tail);
            assert(t.subrange(head.len() as int, head.len() as int + tail.len()) =~= tail);
            assert(crate::rpc::stands_at(t, tail, head.len() as int));
        },
    }
}

/// A list of numbers is written with a comma and a blank between two of them.
pub proof fn law_list_is_written_out(v: Seq<u16>, x: u16)
    ensures
        list_items(seq![x]) == decimal_text(x as nat),
        v.len() > 0 ==> list_items(v.push(x)) == list_items(v) + ", "@ + decimal_text(x as nat),
        list_items(Seq::empty()).len() == 0,
{
    assert(v.push(x).drop_last() =~= v);
}

/// A request that holds no transaction is refused; nothing of it is queued, and
/// the transactions of the connection stay as they are. One that holds some is
/// brought before the node.
pub proof fn law_empty_requests_are_refused(
    c: SocketConnection,
    r: RequestReading,
    c2: SocketConnection,
    a: ConnectionAction,
)
    requires
        c.phase is Decoding,
        connection_step(c, ConnectionEvent::Decoded(r), c2, a),
    ensures
        match r {
            RequestReading::Transactions(txs) if encoded(txs@).len() > 0 => a is AskNode
                && c2.phase is FirstCheck && contents(c2.transactions@) == encoded(txs@),
            _ => (a matches ConnectionAction::Reply { text, queue } && !queue && begins_with(
                text@,
                "{\"success\":false"@,
            )) && c2.transactions == c.transactions && c2.phase is Replying,
        },
{
    match r {
        RequestReading::Invalid(why) => {
            law_refusals_say_so("Invalid Transactions protobuf: "@, quotes_escaped(why@));
        },
        RequestReading::Transactions(txs) => {
            law_refusals_say_so("Empty Transactions message"@, ""@);
            law_refusals_say_so("No valid transactions after encoding"@, ""@);
        },
    }
}

/// After an answer the next request is read; an event that does not belong to
/// where a connection stands changes nothing.
pub proof fn law_stray_events_are_ignored(
    c: SocketConnection,
    e: ConnectionEvent,
    c2: SocketConnection,
    a: ConnectionAction,
)
    requires
        connection_step(c, e, c2, a),
    ensures
        c.phase is Replying && e == ConnectionEvent::Replied(true) ==> a is ReadPrefix && c2.phase
            is Prefix,
        c.phase is Ended ==> a is Ignore && c2 == c,
        c.phase is Prefix && !(e is Prefix) ==> a is Ignore && c2 == c,
        c.phase is Body && !(e is Body) ==> a is Ignore && c2 == c,
        c.phase is Decoding && !(e is Decoded) ==> a is Ignore && c2 == c,
        (c.phase is FirstCheck || c.phase is FinalCheck) && !(e is NodeSays) ==> a is Ignore && c2
            == c,
        c.phase is Submitting && !(e is Submitted) ==> a is Ignore && c2 == c,
        c.phase is Body ==> (e matches ConnectionEvent::Body(ReadResult::Bytes(b)) ==> a
            == ConnectionAction::Decode(b)),
{
}

} // verus!
