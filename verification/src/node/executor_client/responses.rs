//! Questions to the executor, and what its answers mean.
use crate::crypto::{hex_encode, hex_text};
use crate::node::committee::ValidatorInfo;
use crate::text::{decimal, decimal_text};
use crate::wire::{be_bytes, be_value, frame_be, get_u32_be};
use vstd::prelude::*;
use vstd::string::*;

verus! {

/// Longest answer that is read.
pub const MAX_RESPONSE_LEN: usize = 10_000_000;

/// A block as the executor stores it.
#[derive(Clone, Debug)]
pub struct BlockData {
    pub block_number: u64,
    pub epoch: u64,
    pub data: Vec<u8>,
}

/// The answers that the executor gives.
pub enum ResponsePayload {
    NotifyEpochChangeResponse,
    ValidatorInfoList {
        validators: Vec<ValidatorInfo>,
        epoch_timestamp_ms: u64,
        last_global_exec_index: u64,
    },
    Error(String),
    ValidatorList,
    ServerStatus,
    LastBlockNumberResponse(u64),
    GetCurrentEpochResponse(u64),
    GetEpochStartTimestampResponse(u64),
    AdvanceEpochResponse,
    EpochBoundaryData {
        epoch: u64,
        epoch_start_timestamp_ms: u64,
        boundary_block: u64,
        validators: Vec<ValidatorInfo>,
    },
    SetConsensusStartBlockResponse { success: bool, last_sync_block: u64, message: String },
    SetSyncStartBlockResponse { success: bool, sync_start_block: u64, message: String },
    WaitForSyncToBlockResponse { reached: bool, current_block: u64, message: String },
    GetBlocksRangeResponse { error: String, blocks: Vec<BlockData> },
    SyncBlocksResponse { error: String, synced_count: u64, last_synced_block: u64 },
}

/// Why a question was not answered.
#[derive(Clone, Debug)]
pub enum RpcError {
    /// The client is switched off.
    NotEnabled,
    /// There is no connection.
    NotConnected,
    /// No connection could be made.
    Connect(String),
    /// Writing or reading failed.
    Io(String),
    /// The length of the answer did not come in time.
    LengthTimeout(String),
    /// The answer did not come in time.
    DataTimeout(String),
    /// The answer has no bytes.
    ZeroLength,
    /// The answer is longer than [`MAX_RESPONSE_LEN`].
    TooLarge(usize),
    /// The answer to a handoff question has no bytes or too many.
    InvalidLength(usize),
    /// The answer is a notification.
    UnexpectedNotification,
    /// The executor reports an error.
    Executor(String),
    /// The executor reports an error in an epoch change.
    ExecutorAdvance(String),
    /// The executor reports an error in a transfer of blocks.
    Master(String),
    /// The answer belongs to another question; the text says what was
    /// expected.
    Unexpected(String),
    /// The answer holds nothing; the text is its bytes in hexadecimal.
    NoPayload(String),
}

/// The message of an error.
pub open spec fn rpc_message(e: RpcError) -> Seq<char> {
    match e {
        RpcError::NotEnabled => "Executor client is not enabled"@,
        RpcError::NotConnected => "Request connection is not available"@,
        RpcError::Connect(m) => "Failed to connect to Go request socket: "@ + m@,
        RpcError::Io(m) => m@,
        RpcError::LengthTimeout(m) => "Timeout reading response length: "@ + m@,
        RpcError::DataTimeout(m) => "Timeout reading response data: "@ + m@,
        RpcError::ZeroLength => "Received zero-length response from Go"@,
        RpcError::TooLarge(n) => "Response too large: "@ + decimal_text(n as nat) + " bytes"@,
        RpcError::InvalidLength(n) => "Invalid response length: "@ + decimal_text(n as nat),
        RpcError::UnexpectedNotification => "Unexpected NotifyEpochChangeResponse"@,
        RpcError::Executor(m) => "Go returned error: "@ + m@,
        RpcError::ExecutorAdvance(m) => "Go returned error during epoch advance: "@ + m@,
        RpcError::Master(m) => "Go Master error: "@ + m@,
        RpcError::Unexpected(m) => m@,
        RpcError::NoPayload(h) =>
            "Unexpected response type from Go. Response payload: None. Response bytes (hex): "@
            + h@,
    }
}

impl RpcError {
    /// What to tell the user.
    pub fn message(&self) -> (s: String)
        ensures
            s@ == rpc_message(*self),
    {
        match self {
            RpcError::NotEnabled => String::from_str("Executor client is not enabled"),
            RpcError::NotConnected => String::from_str("Request connection is not available"),
            RpcError::Connect(m) => {
                let mut s = String::from_str("Failed to connect to Go request socket: ");
                s.append(m.as_str());
                s
            },
            RpcError::Io(m) => m.clone(),
            RpcError::LengthTimeout(m) => {
                let mut s = String::from_str("Timeout reading response length: ");
                s.append(m.as_str());
                s
            },
            RpcError::DataTimeout(m) => {
                let mut s = String::from_str("Timeout reading response data: ");
                s.append(m.as_str());
                s
            },
            RpcError::ZeroLength => String::from_str("Received zero-length response from Go"),
            RpcError::TooLarge(n) => {
                let mut s = String::from_str("Response too large: ");
                s.append(decimal(*n as u64).as_str());
                s.append(" bytes");
                s
            },
            RpcError::InvalidLength(n) => {
                let mut s = String::from_str("Invalid response length: ");
                s.append(decimal(*n as u64).as_str());
                s
            },
            RpcError::UnexpectedNotification => String::from_str(
                "Unexpected NotifyEpochChangeResponse",
            ),
            RpcError::Executor(m) => {
                let mut s = String::from_str("Go returned error: ");
                s.append(m.as_str());
                s
            },
            RpcError::ExecutorAdvance(m) => {
                let mut s = String::from_str("Go returned error during epoch advance: ");
                s.append(m.as_str());
                s
            },
            RpcError::Master(m) => {
                let mut s = String::from_str("Go Master error: ");
                s.append(m.as_str());
                s
            },
            RpcError::Unexpected(m) => m.clone(),
            RpcError::NoPayload(h) => {
                let mut s = String::from_str(
                    "Unexpected response type from Go. Response payload: None. Response bytes (hex): ",
                );
                s.append(h.as_str());
                s
            },
        }
    }
}

/// A question as it goes over the wire: its length in four bytes, most
/// significant byte first, and its bytes.
pub fn request_frame(request: &[u8]) -> (r: Vec<u8>)
    ensures
        r@ == be_bytes(request@.len(), 4) + request@,
{
    frame_be(request)
}

/// The length of an answer, from the four bytes in front of it.
pub fn response_length(prefix: &[u8]) -> (r: Result<usize, RpcError>)
    requires
        prefix@.len() == 4,
    ensures
        match r {
            Ok(n) => n == be_value(prefix@) && 0 < n <= MAX_RESPONSE_LEN,
            Err(e) => if be_value(prefix@) == 0 {
                e is ZeroLength
            } else {
                be_value(prefix@) > MAX_RESPONSE_LEN && (e matches RpcError::TooLarge(n) && n
                    == be_value(prefix@))
            },
        },
{
    let n: usize = get_u32_be(prefix) as usize;
    if n == 0 {
        Err(RpcError::ZeroLength)
    } else if n > MAX_RESPONSE_LEN {
        Err(RpcError::TooLarge(n))
    } else {
        Ok(n)
    }
}

/// The length of an answer to a handoff question.
pub fn handoff_length(prefix: &[u8]) -> (r: Result<usize, RpcError>)
    requires
        prefix@.len() == 4,
    ensures
        match r {
            Ok(n) => n == be_value(prefix@) && 0 < n <= MAX_RESPONSE_LEN,
            Err(e) => (be_value(prefix@) == 0 || be_value(prefix@) > MAX_RESPONSE_LEN)
                && (e matches RpcError::InvalidLength(n) && n == be_value(prefix@)),
        },
{
    let n: usize = get_u32_be(prefix) as usize;
    if n == 0 || n > MAX_RESPONSE_LEN {
        Err(RpcError::InvalidLength(n))
    } else {
        Ok(n)
    }
}

/// The length of an answer to a question for blocks, which has no limit.
pub fn block_sync_length(prefix: &[u8]) -> (n: usize)
    requires
        prefix@.len() == 4,
    ensures
        n == be_value(prefix@),
{
    get_u32_be(prefix) as usize
}

/// What an answer that belongs to another question is reported as, where
/// validators were expected.
pub open spec fn validators_complaint(p: ResponsePayload) -> Seq<char> {
    let name = match p {
        ResponsePayload::ValidatorList => "ValidatorList"@,
        ResponsePayload::ServerStatus => "ServerStatus"@,
        ResponsePayload::LastBlockNumberResponse(_) => "LastBlockNumberResponse"@,
        ResponsePayload::GetCurrentEpochResponse(_) => "GetCurrentEpochResponse"@,
        ResponsePayload::GetEpochStartTimestampResponse(_) => "GetEpochStartTimestampResponse"@,
        ResponsePayload::AdvanceEpochResponse => "AdvanceEpochResponse"@,
        ResponsePayload::EpochBoundaryData { .. } => "EpochBoundaryData"@,
        ResponsePayload::SetConsensusStartBlockResponse { .. }
        | ResponsePayload::SetSyncStartBlockResponse { .. }
        | ResponsePayload::WaitForSyncToBlockResponse { .. } => "Transition Handoff"@,
        _ => "Block Sync"@,
    };
    "Unexpected "@ + name + " response (expected ValidatorInfoList)"@
}

fn validators_complaint_text(p: &ResponsePayload) -> (s: String)
    ensures
        s@ == validators_complaint(*p),
{
    let name: &str = match p {
        ResponsePayload::ValidatorList => "ValidatorList",
        ResponsePayload::ServerStatus => "ServerStatus",
        ResponsePayload::LastBlockNumberResponse(_) => "LastBlockNumberResponse",
        ResponsePayload::GetCurrentEpochResponse(_) => "GetCurrentEpochResponse",
        ResponsePayload::GetEpochStartTimestampResponse(_) => "GetEpochStartTimestampResponse",
        ResponsePayload::AdvanceEpochResponse => "AdvanceEpochResponse",
        ResponsePayload::EpochBoundaryData { .. } => "EpochBoundaryData",
        ResponsePayload::SetConsensusStartBlockResponse { .. } => "Transition Handoff",
        ResponsePayload::SetSyncStartBlockResponse { .. } => "Transition Handoff",
        ResponsePayload::WaitForSyncToBlockResponse { .. } => "Transition Handoff",
        _ => "Block Sync",
    };
    let mut s = String::from_str("Unexpected ");
    s.append(name);
    s.append(" response (expected ValidatorInfoList)");
    s
}

/// The validators and the epoch's start time. `raw` are the bytes of the
/// answer.
pub fn read_validators(payload: Option<ResponsePayload>, raw: &[u8]) -> (r: Result<
    (Vec<ValidatorInfo>, u64),
    RpcError,
>)
    ensures
        match payload {
            Some(
                ResponsePayload::ValidatorInfoList { validators, epoch_timestamp_ms, .. },
            ) => r matches Ok(x) && x.0 == validators && x.1 == epoch_timestamp_ms,
            Some(ResponsePayload::NotifyEpochChangeResponse) => r matches Err(e)
                && e is UnexpectedNotification,
            Some(ResponsePayload::Error(m)) => r matches Err(RpcError::Executor(t)) && t == m,
            Some(p) => r matches Err(RpcError::Unexpected(t)) && t@ == validators_complaint(p),
            None => r matches Err(RpcError::NoPayload(t)) && t@ == hex_text(raw@),
        },
{
    match payload {
        Some(ResponsePayload::ValidatorInfoList { validators, epoch_timestamp_ms, .. }) => Ok(
            (validators, epoch_timestamp_ms),
        ),
        Some(ResponsePayload::NotifyEpochChangeResponse) => Err(RpcError::UnexpectedNotification),
        Some(ResponsePayload::Error(m)) => Err(RpcError::Executor(m)),
        Some(p) => Err(RpcError::Unexpected(validators_complaint_text(&p))),
        None => Err(RpcError::NoPayload(hex_encode(raw))),
    }
}

/// The epoch that the executor is in.
pub fn read_current_epoch(payload: Option<ResponsePayload>) -> (r: Result<u64, RpcError>)
    ensures
        match payload {
            Some(ResponsePayload::GetCurrentEpochResponse(n)) => r == Ok::<u64, RpcError>(n),
            Some(ResponsePayload::NotifyEpochChangeResponse) => r matches Err(e)
                && e is UnexpectedNotification,
            Some(ResponsePayload::Error(m)) => r matches Err(RpcError::Executor(t)) && t == m,
            _ => r matches Err(RpcError::Unexpected(t)) && t@
                == "Unexpected response payload type"@,
        },
{
    match payload {
        Some(ResponsePayload::GetCurrentEpochResponse(n)) => Ok(n),
        Some(ResponsePayload::NotifyEpochChangeResponse) => Err(RpcError::UnexpectedNotification),
        Some(ResponsePayload::Error(m)) => Err(RpcError::Executor(m)),
        _ => Err(RpcError::Unexpected(String::from_str("Unexpected response payload type"))),
    }
}

/// The start time of the executor's epoch. An answer without content counts
/// as a lost connection.
pub fn read_epoch_start_timestamp(payload: Option<ResponsePayload>) -> (r: Result<u64, RpcError>)
    ensures
        match payload {
            Some(ResponsePayload::GetEpochStartTimestampResponse(n)) => r == Ok::<u64, RpcError>(n),
            Some(ResponsePayload::Error(m)) => r matches Err(RpcError::Executor(t)) && t == m,
            Some(_) => r matches Err(RpcError::Unexpected(t)) && t@
                == "Unexpected response payload type"@,
            None => r matches Err(e) && e is NotConnected,
        },
{
    match payload {
        Some(ResponsePayload::GetEpochStartTimestampResponse(n)) => Ok(n),
        Some(ResponsePayload::Error(m)) => Err(RpcError::Executor(m)),
        Some(_) => Err(RpcError::Unexpected(String::from_str("Unexpected response payload type"))),
        None => Err(RpcError::NotConnected),
    }
}

/// Whether the executor took an epoch change.
pub fn read_advance_epoch(payload: Option<ResponsePayload>) -> (r: Result<(), RpcError>)
    ensures
        match payload {
            Some(ResponsePayload::AdvanceEpochResponse) => r is Ok,
            Some(ResponsePayload::NotifyEpochChangeResponse) => r matches Err(e)
                && e is UnexpectedNotification,
            Some(ResponsePayload::Error(m)) => r matches Err(RpcError::ExecutorAdvance(t)) && t
                == m,
            _ => r matches Err(RpcError::Unexpected(t)) && t@
                == "Unexpected response payload type for AdvanceEpoch"@,
        },
{
    match payload {
        Some(ResponsePayload::AdvanceEpochResponse) => Ok(()),
        Some(ResponsePayload::NotifyEpochChangeResponse) => Err(RpcError::UnexpectedNotification),
        Some(ResponsePayload::Error(m)) => Err(RpcError::ExecutorAdvance(m)),
        _ => Err(
            RpcError::Unexpected(
                String::from_str("Unexpected response payload type for AdvanceEpoch"),
            ),
        ),
    }
}

/// The start of an epoch: epoch, start time, boundary block and validators.
pub fn read_epoch_boundary_data(payload: Option<ResponsePayload>) -> (r: Result<
    (u64, u64, u64, Vec<ValidatorInfo>),
    RpcError,
>)
    ensures
        match payload {
            Some(
                ResponsePayload::EpochBoundaryData {
                    epoch,
                    epoch_start_timestamp_ms,
                    boundary_block,
                    validators,
                },
            ) => r matches Ok(x) && x.0 == epoch && x.1 == epoch_start_timestamp_ms && x.2
                == boundary_block && x.3 == validators,
            Some(ResponsePayload::NotifyEpochChangeResponse) => r matches Err(e)
                && e is UnexpectedNotification,
            Some(ResponsePayload::Error(m)) => r matches Err(RpcError::Executor(t)) && t == m,
            _ => r matches Err(RpcError::Unexpected(t)) && t@
                == "Unexpected response payload type for GetEpochBoundaryData"@,
        },
{
    match payload {
        Some(
            ResponsePayload::EpochBoundaryData {
                epoch,
                epoch_start_timestamp_ms,
                boundary_block,
                validators,
            },
        ) => Ok((epoch, epoch_start_timestamp_ms, boundary_block, validators)),
        Some(ResponsePayload::NotifyEpochChangeResponse) => Err(RpcError::UnexpectedNotification),
        Some(ResponsePayload::Error(m)) => Err(RpcError::Executor(m)),
        _ => Err(
            RpcError::Unexpected(
                String::from_str("Unexpected response payload type for GetEpochBoundaryData"),
            ),
        ),
    }
}

/// The number of the executor's last block.
pub fn read_last_block(payload: Option<ResponsePayload>) -> (r: Result<u64, RpcError>)
    ensures
        match payload {
            Some(ResponsePayload::LastBlockNumberResponse(n)) => r == Ok::<u64, RpcError>(n),
            Some(ResponsePayload::NotifyEpochChangeResponse) => r matches Err(e)
                && e is UnexpectedNotification,
            Some(ResponsePayload::Error(m)) => r matches Err(RpcError::Executor(t)) && t == m,
            _ => r matches Err(RpcError::Unexpected(t)) && t@
                == "Unexpected response type from Go (expected LastBlockNumberResponse)"@,
        },
{
    match payload {
        Some(ResponsePayload::LastBlockNumberResponse(n)) => Ok(n),
        Some(ResponsePayload::NotifyEpochChangeResponse) => Err(RpcError::UnexpectedNotification),
        Some(ResponsePayload::Error(m)) => Err(RpcError::Executor(m)),
        _ => Err(
            RpcError::Unexpected(
                String::from_str(
                    "Unexpected response type from Go (expected LastBlockNumberResponse)",
                ),
            ),
        ),
    }
}

/// What the executor says to a handoff: whether it is ready, a block, and a
/// message.
#[derive(Clone, Debug)]
pub struct Handoff {
    pub ok: bool,
    pub block: u64,
    pub message: String,
}

/// The handoff question that was asked.
#[derive(Clone, Copy, Debug, PartialEq, Eq, Structural)]
pub enum HandoffKind {
    ConsensusStart,
    SyncStart,
    WaitForSync,
}

/// The content of the answer to a handoff question.
pub open spec fn handoff_of(kind: HandoffKind, p: ResponsePayload) -> Option<Handoff> {
    match (kind, p) {
        (
            HandoffKind::ConsensusStart,
            ResponsePayload::SetConsensusStartBlockResponse { success, last_sync_block, message },
        ) => Some(Handoff { ok: success, block: last_sync_block, message }),
        (
            HandoffKind::SyncStart,
            ResponsePayload::SetSyncStartBlockResponse { success, sync_start_block, message },
        ) => Some(Handoff { ok: success, block: sync_start_block, message }),
        (
            HandoffKind::WaitForSync,
            ResponsePayload::WaitForSyncToBlockResponse { reached, current_block, message },
        ) => Some(Handoff { ok: reached, block: current_block, message }),
        _ => None,
    }
}

/// The answer to a handoff question.
pub fn read_handoff(kind: HandoffKind, payload: Option<ResponsePayload>) -> (r: Result<
    Handoff,
    RpcError,
>)
    ensures
        match payload {
            Some(ResponsePayload::NotifyEpochChangeResponse) => r matches Err(e)
                && e is UnexpectedNotification,
            Some(ResponsePayload::Error(m)) => r matches Err(RpcError::Executor(t)) && t == m,
            Some(p) if handoff_of(kind, p) is Some => r matches Ok(h) && Some(h) == handoff_of(
                kind,
                p,
            ),
            _ => r matches Err(RpcError::Unexpected(t)) && t@
                == "Unexpected response type from Go"@,
        },
{
    match payload {
        Some(ResponsePayload::NotifyEpochChangeResponse) => Err(RpcError::UnexpectedNotification),
        Some(ResponsePayload::Error(m)) => Err(RpcError::Executor(m)),
        Some(
            ResponsePayload::SetConsensusStartBlockResponse { success, last_sync_block, message },
        ) => {
            if kind == HandoffKind::ConsensusStart {
                Ok(Handoff { ok: success, block: last_sync_block, message })
            } else {
                Err(RpcError::Unexpected(String::from_str("Unexpected response type from Go")))
            }
        },
        Some(
            ResponsePayload::SetSyncStartBlockResponse { success, sync_start_block, message },
        ) => {
            if kind == HandoffKind::SyncStart {
                Ok(Handoff { ok: success, block: sync_start_block, message })
            } else {
                Err(RpcError::Unexpected(String::from_str("Unexpected response type from Go")))
            }
        },
        Some(
            ResponsePayload::WaitForSyncToBlockResponse { reached, current_block, message },
        ) => {
            if kind == HandoffKind::WaitForSync {
                Ok(Handoff { ok: reached, block: current_block, message })
            } else {
                Err(RpcError::Unexpected(String::from_str("Unexpected response type from Go")))
            }
        },
        _ => Err(RpcError::Unexpected(String::from_str("Unexpected response type from Go"))),
    }
}

/// How long to wait for an answer, in seconds.
pub fn read_timeout_secs(kind: HandoffKind, timeout_seconds: u64) -> (t: u64)
    requires
        kind is WaitForSync ==> timeout_seconds <= u64::MAX - 10,
    ensures
        t == match kind {
            HandoffKind::ConsensusStart => 35,
            HandoffKind::SyncStart => 5,
            HandoffKind::WaitForSync => timeout_seconds + 10,
        },
{
    match kind {
        HandoffKind::ConsensusStart => 35,
        HandoffKind::SyncStart => 5,
        HandoffKind::WaitForSync => timeout_seconds + 10,
    }
}

/// Blocks that the executor has stored.
pub fn read_blocks_range(payload: Option<ResponsePayload>) -> (r: Result<Vec<BlockData>, RpcError>)
    ensures
        match payload {
            Some(ResponsePayload::GetBlocksRangeResponse { error, blocks }) => if error@.len()
                > 0 {
                r matches Err(RpcError::Executor(t)) && t == error
            } else {
                r matches Ok(b) && b == blocks
            },
            Some(ResponsePayload::Error(m)) => r matches Err(RpcError::Master(t)) && t == m,
            _ => r matches Err(RpcError::Unexpected(t)) && t@
                == "Unexpected response type from Go Master"@,
        },
{
    match payload {
        Some(ResponsePayload::GetBlocksRangeResponse { error, blocks }) => {
            if !error.as_str().is_empty() {
                Err(RpcError::Executor(error))
            } else {
                Ok(blocks)
            }
        },
        Some(ResponsePayload::Error(m)) => Err(RpcError::Master(m)),
        _ => Err(
            RpcError::Unexpected(String::from_str("Unexpected response type from Go Master")),
        ),
    }
}

/// How many blocks the executor has taken, and the last of them.
pub fn read_sync_blocks(payload: Option<ResponsePayload>) -> (r: Result<(u64, u64), RpcError>)
    ensures
        match payload {
            Some(
                ResponsePayload::SyncBlocksResponse { error, synced_count, last_synced_block },
            ) => if error@.len() > 0 {
                r matches Err(RpcError::Executor(t)) && t == error
            } else {
                r == Ok::<(u64, u64), RpcError>((synced_count, last_synced_block))
            },
            Some(ResponsePayload::Error(m)) => r matches Err(RpcError::Master(t)) && t == m,
            _ => r matches Err(RpcError::Unexpected(t)) && t@
                == "Unexpected response type from Go Master"@,
        },
{
    match payload {
        Some(ResponsePayload::SyncBlocksResponse { error, synced_count, last_synced_block }) => {
            if !error.as_str().is_empty() {
                Err(RpcError::Executor(error))
            } else {
                Ok((synced_count, last_synced_block))
            }
        },
        Some(ResponsePayload::Error(m)) => Err(RpcError::Master(m)),
        _ => Err(
            RpcError::Unexpected(String::from_str("Unexpected response type from Go Master")),
        ),
    }
}

/// The answer to a transfer of no blocks, which the executor is not asked for.
pub fn sync_nothing(blocks: &Vec<BlockData>) -> (r: Option<(u64, u64)>)
    ensures
        r == if blocks@.len() == 0 {
            Some((0u64, 0u64))
        } else {
            None
        },
{
    if blocks.len() == 0 {
        Some((0, 0))
    } else {
        None
    }
}

/// A length that the executor writes in front of an answer is read back, and
/// accepted if it is within the limit.
pub proof fn law_length_roundtrip(n: u32)
    ensures
        be_value(be_bytes(n as nat, 4)) == n,
        be_bytes(n as nat, 4).len() == 4,
{
    crate::wire::lemma_u32_roundtrip(n);
    crate::wire::lemma_le_len(n as nat, 4);
}

/// An answer to a handoff counts only if it belongs to the question, and gives
/// the executor's verdict, its block and its message.
pub proof fn law_handoff_answers_belong(success: bool, block: u64, message: String)
    ensures
        ({
            let consensus = ResponsePayload::SetConsensusStartBlockResponse {
                success,
                last_sync_block: block,
                message,
            };
            let sync = ResponsePayload::SetSyncStartBlockResponse {
                success,
                sync_start_block: block,
                message,
            };
            let wait = ResponsePayload::WaitForSyncToBlockResponse {
                reached: success,
                current_block: block,
                message,
            };
            let answer = Some(Handoff { ok: success, block, message });
            &&& handoff_of(HandoffKind::ConsensusStart, consensus) == answer
            &&& handoff_of(HandoffKind::SyncStart, sync) == answer
            &&& handoff_of(HandoffKind::WaitForSync, wait) == answer
            &&& handoff_of(HandoffKind::ConsensusStart, sync) is None
            &&& handoff_of(HandoffKind::ConsensusStart, wait) is None
            &&& handoff_of(HandoffKind::SyncStart, consensus) is None
            &&& handoff_of(HandoffKind::SyncStart, wait) is None
            &&& handoff_of(HandoffKind::WaitForSync, consensus) is None
            &&& handoff_of(HandoffKind::WaitForSync, sync) is None
        }),
{
}

} // verus!
