//! Waiting for the old and the new epoch, and comparing with the executor.
use crate::text::{decimal, decimal_text};
use vstd::prelude::*;
use vstd::string::*;

verus! {

/// How often the consensus is probed until it counts as not ready.
pub const MAX_READY_PROBES: u32 = 20;

/// How often the executor is asked for the start time of an epoch.
pub const MAX_TIMESTAMP_RETRIES: u32 = 5;

/// A start time further off than this is taken for that of the old epoch, in
/// milliseconds.
pub const TIMESTAMP_TOLERANCE_MS: u64 = 10_000;

/// How waiting goes on.
#[derive(Clone, Copy, Debug, PartialEq, Eq, Structural)]
pub enum WaitStep {
    /// It is reached.
    Reached,
    /// It takes too long.
    TimedOut,
    /// Look again.
    Wait,
}

/// Waiting for the commits of the old epoch: until `target` is reached, or for
/// `max_wait` seconds.
pub fn commit_wait_step(current: u32, target: u32, elapsed_secs: u64, max_wait: u64) -> (s:
    WaitStep)
    ensures
        s == if current >= target {
            WaitStep::Reached
        } else if elapsed_secs >= max_wait {
            WaitStep::TimedOut
        } else {
            WaitStep::Wait
        },
{
    if current >= target {
        WaitStep::Reached
    } else if elapsed_secs >= max_wait {
        WaitStep::TimedOut
    } else {
        WaitStep::Wait
    }
}

/// Waiting for the consensus: probe number `attempt` was answered or not.
pub fn ready_step(attempt: u32, ready: bool) -> (s: WaitStep)
    ensures
        s == if ready {
            WaitStep::Reached
        } else if attempt < MAX_READY_PROBES {
            WaitStep::Wait
        } else {
            WaitStep::TimedOut
        },
{
    if ready {
        WaitStep::Reached
    } else if attempt < MAX_READY_PROBES {
        WaitStep::Wait
    } else {
        WaitStep::TimedOut
    }
}

/// The executor's start time of an epoch could not be had.
#[derive(Clone, Copy, Debug, PartialEq, Eq, Structural)]
pub enum TimestampError {
    /// The executor is in another epoch.
    OtherEpoch { found: u64, expected: u64 },
    /// The executor does not say which epoch it is in.
    EpochUnknown,
    /// The executor does not say when the epoch started.
    TimeUnknown,
}

impl TimestampError {
    /// What to tell the user; `cause` is the executor's error.
    pub fn message(&self, cause: &str) -> (s: String)
        ensures
            s@ == match *self {
                TimestampError::OtherEpoch { found, expected } => "Go still in epoch "@
                    + decimal_text(found as nat) + " after "@ + decimal_text(
                    MAX_TIMESTAMP_RETRIES as nat,
                ) + " attempts, expected epoch "@ + decimal_text(expected as nat),
                TimestampError::EpochUnknown => "Failed to verify Go epoch after transition: "@
                    + cause@,
                TimestampError::TimeUnknown => "Failed to get timestamp from Go after transition: "@
                    + cause@,
            },
    {
        match self {
            TimestampError::OtherEpoch { found, expected } => {
                let mut s = String::from_str("Go still in epoch ");
                s.append(decimal(*found).as_str());
                s.append(" after ");
                s.append(decimal(MAX_TIMESTAMP_RETRIES as u64).as_str());
                s.append(" attempts, expected epoch ");
                s.append(decimal(*expected).as_str());
                s
            },
            TimestampError::EpochUnknown => {
                let mut s = String::from_str("Failed to verify Go epoch after transition: ");
                s.append(cause);
                s
            },
            TimestampError::TimeUnknown => {
                let mut s = String::from_str("Failed to get timestamp from Go after transition: ");
                s.append(cause);
                s
            },
        }
    }
}

/// How asking for the start time goes on.
#[derive(Clone, Copy, Debug, PartialEq, Eq, Structural)]
pub enum TimestampStep {
    /// The executor is in the right epoch: ask for the time.
    AskTime,
    /// Take this time.
    Accept(u64),
    /// Try again after a pause of 200 ms.
    Retry,
    Fail(TimestampError),
}

/// Asking the executor when an epoch started.
#[derive(Clone, Copy, Debug, PartialEq, Eq, Structural)]
pub struct TimestampSync {
    pub expected_epoch: u64,
    pub expected_timestamp: u64,
    /// Number of the attempt, from 1 on.
    pub attempt: u32,
}

/// A time as a signed number of 64 bits.
pub open spec fn signed(t: u64) -> int {
    if t <= i64::MAX {
        t as int
    } else {
        t - 0x1_0000_0000_0000_0000
    }
}

/// The distance of two times, taken as signed numbers.
pub open spec fn distance(a: u64, b: u64) -> int {
    if signed(a) >= signed(b) {
        signed(a) - signed(b)
    } else {
        signed(b) - signed(a)
    }
}

/// See [`signed`].
fn signed_time(t: u64) -> (s: i128)
    ensures
        s == signed(t),
{
    if t <= 0x7fff_ffff_ffff_ffff {
        t as i128
    } else {
        t as i128 - 0x1_0000_0000_0000_0000
    }
}

impl TimestampSync {
    /// The attempts stay within their limit.
    pub open spec fn wf(&self) -> bool {
        1 <= self.attempt <= MAX_TIMESTAMP_RETRIES
    }

    /// The first attempt.
    pub fn new(expected_epoch: u64, expected_timestamp: u64) -> (t: Self)
        ensures
            t.wf(),
            t == (TimestampSync { expected_epoch, expected_timestamp, attempt: 1 }),
    {
        TimestampSync { expected_epoch, expected_timestamp, attempt: 1 }
    }

    /// Takes the executor's epoch. A retry begins the next attempt.
    pub fn on_epoch(&mut self, go_epoch: Option<u64>) -> (s: TimestampStep)
        requires
            old(self).wf(),
        ensures
            final(self).wf(),
            ({
                let last = old(self).attempt == MAX_TIMESTAMP_RETRIES;
                &&& s == match go_epoch {
                    Some(e) => if e == old(self).expected_epoch {
                        TimestampStep::AskTime
                    } else if last {
                        TimestampStep::Fail(
                            TimestampError::OtherEpoch {
                                found: e,
                                expected: old(self).expected_epoch,
                            },
                        )
                    } else {
                        TimestampStep::Retry
                    },
                    None => if last {
                        TimestampStep::Fail(TimestampError::EpochUnknown)
                    } else {
                        TimestampStep::Retry
                    },
                }
                &&& *final(self) == (TimestampSync {
                    attempt: if s is Retry {
                        (old(self).attempt + 1) as u32
                    } else {
                        old(self).attempt
                    },
                    ..*old(self)
                })
            }),
    {
        let last: bool = self.attempt == MAX_TIMESTAMP_RETRIES;
        match go_epoch {
            Some(e) => {
                if e == self.expected_epoch {
                    return TimestampStep::AskTime;
                }
                if last {
                    return TimestampStep::Fail(
                        TimestampError::OtherEpoch { found: e, expected: self.expected_epoch },
                    );
                }
            },
            None => {
                if last {
                    return TimestampStep::Fail(TimestampError::EpochUnknown);
                }
            },
        }
        self.attempt = self.attempt + 1;
        TimestampStep::Retry
    }

    /// Takes the executor's start time. One that is further off than the
    /// tolerance is asked for again; in the last attempt it is taken all the
    /// same.
    pub fn on_time(&mut self, go_timestamp: Option<u64>) -> (s: TimestampStep)
        requires
            old(self).wf(),
            go_timestamp matches Some(t) ==> distance(t, old(self).expected_timestamp) <= i64::MAX,
        ensures
            final(self).wf(),
            ({
                let last = old(self).attempt == MAX_TIMESTAMP_RETRIES;
                &&& s == match go_timestamp {
                    Some(t) => if last || distance(t, old(self).expected_timestamp)
                        <= TIMESTAMP_TOLERANCE_MS {
                        TimestampStep::Accept(t)
                    } else {
                        TimestampStep::Retry
                    },
                    None => if last {
                        TimestampStep::Fail(TimestampError::TimeUnknown)
                    } else {
                        TimestampStep::Retry
                    },
                }
                &&& *final(self) == (TimestampSync {
                    attempt: if s is Retry {
                        (old(self).attempt + 1) as u32
                    } else {
                        old(self).attempt
                    },
                    ..*old(self)
                })
            }),
    {
        let last: bool = self.attempt == MAX_TIMESTAMP_RETRIES;
        match go_timestamp {
            Some(t) => {
                let a: i128 = signed_time(t);
                let b: i128 = signed_time(self.expected_timestamp);
                let off: i128 = if a >= b {
                    a - b
                } else {
                    b - a
                };
                if last || off <= TIMESTAMP_TOLERANCE_MS as i128 {
                    return TimestampStep::Accept(t);
                }
            },
            None => {
                if last {
                    return TimestampStep::Fail(TimestampError::TimeUnknown);
                }
            },
        }
        self.attempt = self.attempt + 1;
        TimestampStep::Retry
    }
}

/// The start time that the node goes by: the executor's, or its own where the
/// executor has none.
pub fn agreed_timestamp(executor: Option<u64>, own: u64) -> (t: u64)
    ensures
        t == match executor {
            Some(x) => x,
            None => own,
        },
{
    match executor {
        Some(x) => x,
        None => own,
    }
}

/// A snapshot to take: of which epoch, and after how many seconds.
#[derive(Clone, Copy, Debug, PartialEq, Eq, Structural)]
pub struct SnapshotPlan {
    pub epoch: u64,
    pub delay_secs: u64,
}

/// The snapshot to take after a change to `new_epoch`: of the epoch before it,
/// if snapshots are on and the program for them is known.
pub fn snapshot_plan(enabled: bool, has_program: bool, new_epoch: u64, delay_secs: u64) -> (p:
    Option<SnapshotPlan>)
    ensures
        p == if enabled && has_program {
            Some(
                SnapshotPlan {
                    epoch: if new_epoch == 0 {
                        0
                    } else {
                        (new_epoch - 1) as u64
                    },
                    delay_secs,
                },
            )
        } else {
            None
        },
{
    if enabled && has_program {
        let epoch: u64 = if new_epoch == 0 {
            0
        } else {
            new_epoch - 1
        };
        Some(SnapshotPlan { epoch, delay_secs })
    } else {
        None
    }
}

/// The distance of two times is the same in both directions, 0 only for one
/// time, and the difference of times that fit into a signed number.
pub proof fn law_distance_of_times(a: u64, b: u64)
    ensures
        distance(a, b) == distance(b, a),
        distance(a, b) == 0 <==> a == b,
        a <= b <= i64::MAX ==> distance(a, b) == b - a,
        0 <= distance(a, b),
{
}

} // verus!
