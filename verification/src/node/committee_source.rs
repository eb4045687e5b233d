//! Where the committee comes from: the local executor, with peers as the
//! measure of how far the network is.
use crate::node::committee::{
    build_committee_from_validator_list, committee_order, law_committee_has_validators_addresses,
    validator_member, AuthorityValue,
    Candidate, Committee, ValidatorFault,
};
use crate::text::{decimal, decimal_text};
use vstd::prelude::*;
use vstd::string::*;

verus! {

/// First pause between two questions, in milliseconds.
pub const INITIAL_DELAY_MS: u64 = 500;

/// Longest pause between two questions, in milliseconds.
pub const MAX_DELAY_MS: u64 = 5000;

/// Every how many attempts progress is logged.
pub const LOG_INTERVAL: u32 = 10;

/// How often the committee and its timestamp are asked for.
pub const MAX_ATTEMPTS: u32 = 60;

/// How far a node is: its epoch and its last block.
#[derive(Clone, Copy, Debug, PartialEq, Eq, Structural)]
pub struct Progress {
    pub epoch: u64,
    pub last_block: u64,
}

/// `a` is ahead of `b`: in a later epoch, or in the same one with more blocks.
pub open spec fn ahead(a: Progress, b: Progress) -> bool {
    a.epoch > b.epoch || (a.epoch == b.epoch && a.last_block > b.last_block)
}

/// Who answers for the committee.
#[derive(Clone, Debug)]
pub struct CommitteeSource {
    pub socket_path: String,
    pub epoch: u64,
    pub last_block: u64,
    pub is_peer: bool,
    pub peer_rpc_addresses: Vec<String>,
}

/// The texts of a list.
pub open spec fn texts(v: Seq<String>) -> Seq<Seq<char>> {
    v.map_values(|s: String| s@)
}

/// What the local executor has reported; what it did not report counts as 0.
pub open spec fn local_progress(epoch: Option<u64>, block: Option<u64>) -> Progress {
    Progress {
        epoch: match epoch {
            Some(e) => e,
            None => 0,
        },
        last_block: match block {
            Some(b) => b,
            None => 0,
        },
    }
}

/// The progress of a source.
pub open spec fn source_progress(s: CommitteeSource) -> Progress {
    Progress { epoch: s.epoch, last_block: s.last_block }
}

impl CommitteeSource {
    /// Finds out how far the network is: the local executor's progress or,
    /// where peers answered that they are ahead of it, the progress of the one
    /// that is ahead of all others. Data are read from the local executor
    /// either way. `replies` holds an entry for each peer, `None` for one that
    /// did not answer.
    pub fn discover(
        local_epoch: Option<u64>,
        local_block: Option<u64>,
        receive_socket: String,
        peers: Vec<String>,
        replies: &Vec<Option<Progress>>,
    ) -> (s: CommitteeSource)
        requires
            replies@.len() == peers@.len(),
        ensures
            s.socket_path@ == receive_socket@,
            texts(s.peer_rpc_addresses@) == texts(peers@),
            s.is_peer == ahead(source_progress(s), local_progress(local_epoch, local_block)),
            !s.is_peer ==> source_progress(s) == local_progress(local_epoch, local_block),
            s.is_peer ==> replies@.contains(Some(source_progress(s))),
            forall|i: int|
                0 <= i < replies@.len() && #[trigger] replies@[i] is Some ==> !ahead(
                    replies@[i]->Some_0,
                    source_progress(s),
                ),
    {
        let epoch: u64 = match local_epoch {
            Some(e) => e,
            None => 0,
        };
        let block: u64 = match local_block {
            Some(b) => b,
            None => 0,
        };
        let ghost local = local_progress(local_epoch, local_block);
        let mut best = Progress { epoch, last_block: block };
        let mut is_peer: bool = false;
        let mut i: usize = 0;
        while i < replies.len()
            invariant
                i <= replies@.len(),
                is_peer == ahead(best, local),
                !is_peer ==> best == local,
                is_peer ==> replies@.contains(Some(best)),
                forall|j: int|
                    0 <= j < i && #[trigger] replies@[j] is Some ==> !ahead(
                        replies@[j]->Some_0,
                        best,
                    ),
            decreases replies.len() - i,
        {
            match replies[i] {
                Some(p) => {
                    if p.epoch > best.epoch || (p.epoch == best.epoch && p.last_block
                        > best.last_block) {
                        assert(replies@[i as int] == Some(p));
                        best = p;
                        is_peer = true;
                    }
                },
                None => {},
            }
            i += 1;
        }
        CommitteeSource {
            socket_path: receive_socket,
            epoch: best.epoch,
            last_block: best.last_block,
            is_peer,
            peer_rpc_addresses: peers,
        }
    }

    /// Whether the source is in the epoch that is expected.
    pub fn validate_epoch(&self, expected_epoch: u64) -> (b: bool)
        ensures
            b == (self.epoch == expected_epoch),
    {
        self.epoch == expected_epoch
    }

    /// Starts to fetch the committee of an epoch, for as long as it takes: the
    /// executor is sure to have it in the end.
    pub fn fetch_committee(&self, target_epoch: u64) -> (f: CommitteeFetch)
        ensures
            f.wf(),
            f == (CommitteeFetch {
                target_epoch,
                attempt: 0,
                delay_ms: INITIAL_DELAY_MS,
                limit: None,
            }),
    {
        CommitteeFetch { target_epoch, attempt: 0, delay_ms: INITIAL_DELAY_MS, limit: None }
    }

    /// Starts to fetch the committee of an epoch and its start time, with at
    /// most [`MAX_ATTEMPTS`] attempts.
    pub fn fetch_committee_with_timestamp(&self, target_epoch: u64) -> (f: CommitteeFetch)
        ensures
            f.wf(),
            f == (CommitteeFetch {
                target_epoch,
                attempt: 0,
                delay_ms: INITIAL_DELAY_MS,
                limit: Some(MAX_ATTEMPTS),
            }),
    {
        CommitteeFetch {
            target_epoch,
            attempt: 0,
            delay_ms: INITIAL_DELAY_MS,
            limit: Some(MAX_ATTEMPTS),
        }
    }

    /// The committee and the epoch's start time from an answer of the
    /// executor; none if the answer is for another epoch or its validators
    /// make no committee.
    pub fn committee_from_boundary(target_epoch: u64, answer: EpochBoundary) -> (r: Option<
        (Committee, u64),
    >)
        ensures
            r is Some <==> usable_answer(target_epoch, answer),
            r matches Some((c, t)) ==> is_committee_of(c, target_epoch, answer) && t
                == answer.timestamp_ms,
    {
        if answer.epoch != target_epoch {
            return None;
        }
        let timestamp: u64 = answer.timestamp_ms;
        match build_committee_from_validator_list(answer.validators, target_epoch) {
            Ok(c) => Some((c, timestamp)),
            Err(_) => None,
        }
    }
}

/// Each of the validators becomes a member.
pub open spec fn forms_committee(v: Seq<Candidate>) -> bool {
    forall|i: int|
        0 <= i < v.len() ==> validator_member(#[trigger] committee_order(v)[i], i as nat) is Ok
}

/// An answer for the epoch in question whose validators make a committee.
pub open spec fn usable_answer(target_epoch: u64, answer: EpochBoundary) -> bool {
    answer.epoch == target_epoch && forms_committee(answer.validators@)
}

/// The members of the committee are the validators in its order.
pub open spec fn is_committee_of_validators(c: Committee, v: Seq<Candidate>) -> bool {
    &&& c.authorities@.len() == v.len()
    &&& forall|i: int|
        0 <= i < c.authorities@.len() ==> validator_member(
            #[trigger] committee_order(v)[i],
            i as nat,
        ) == Ok::<AuthorityValue, ValidatorFault>(c.authorities@[i]@)
}

/// The committee of an answer.
pub open spec fn is_committee_of(c: Committee, target_epoch: u64, answer: EpochBoundary) -> bool {
    c.epoch == target_epoch && is_committee_of_validators(c, answer.validators@)
}

/// What an attempt to fetch a committee led to.
pub enum FetchStep {
    /// The committee, and when its epoch started.
    Found { committee: Committee, timestamp_ms: u64 },
    /// Wait for that many milliseconds, then try again.
    Wait(u64),
}

/// What the executor knows of the start of an epoch.
#[derive(Clone, Debug)]
pub struct EpochBoundary {
    pub epoch: u64,
    pub timestamp_ms: u64,
    pub boundary_block: u64,
    pub validators: Vec<Candidate>,
}

/// The source gave no committee.
#[derive(Clone, Copy, Debug, PartialEq, Eq, Structural)]
pub struct FetchTimeout {
    pub epoch: u64,
    pub attempts: u32,
}

impl FetchTimeout {
    /// What to tell the user.
    pub fn message(&self) -> (s: String)
        ensures
            s@ == "Timeout waiting for Go to have epoch "@ + decimal_text(self.epoch as nat)
                + " data after "@ + decimal_text(self.attempts as nat)
                + " attempts. Go may not have synced to this epoch yet."@,
    {
        let mut s = String::from_str("Timeout waiting for Go to have epoch ");
        s.append(decimal(self.epoch).as_str());
        s.append(" data after ");
        s.append(decimal(self.attempts as u64).as_str());
        s.append(" attempts. Go may not have synced to this epoch yet.");
        s
    }
}

/// The attempts to get a committee, and the pauses between them.
#[derive(Clone, Copy, Debug, PartialEq, Eq, Structural)]
pub struct CommitteeFetch {
    pub target_epoch: u64,
    pub attempt: u32,
    pub delay_ms: u64,
    pub limit: Option<u32>,
}

/// The pause after one of `delay` milliseconds.
pub open spec fn next_delay(delay: u64) -> u64 {
    if 2 * delay < MAX_DELAY_MS {
        (2 * delay) as u64
    } else {
        MAX_DELAY_MS
    }
}

impl CommitteeFetch {
    /// The pauses are within their bounds.
    pub open spec fn wf(&self) -> bool {
        INITIAL_DELAY_MS <= self.delay_ms <= MAX_DELAY_MS
    }

    /// Starts the next attempt; says whether to log it, or that the limit is
    /// reached.
    pub fn begin(&mut self) -> (r: Result<bool, FetchTimeout>)
        requires
            old(self).wf(),
            old(self).attempt < u32::MAX,
        ensures
            final(self).wf(),
            *final(self) == (CommitteeFetch {
                attempt: (old(self).attempt + 1) as u32,
                ..*old(self)
            }),
            match old(self).limit {
                Some(m) => r is Err <==> old(self).attempt >= m,
                None => r is Ok,
            },
            r matches Ok(log) ==> log == (final(self).attempt == 1 || final(self).attempt
                % LOG_INTERVAL == 0),
            r matches Err(e) ==> e.epoch == old(self).target_epoch && Some(e.attempts) == old(
                self,
            ).limit,
    {
        self.attempt = self.attempt + 1;
        match self.limit {
            Some(m) => {
                if self.attempt > m {
                    return Err(FetchTimeout { epoch: self.target_epoch, attempts: m });
                }
            },
            None => {},
        }
        Ok(self.attempt == 1 || self.attempt % LOG_INTERVAL == 0)
    }

    /// Takes the executor's answer to an attempt: `None` if there was none.
    pub fn on_answer(&mut self, answer: Option<EpochBoundary>) -> (r: FetchStep)
        requires
            old(self).wf(),
        ensures
            final(self).wf(),
            match r {
                FetchStep::Found { committee, timestamp_ms } => {
                    &&& answer is Some && usable_answer(old(self).target_epoch, answer->Some_0)
                    &&& is_committee_of(committee, old(self).target_epoch, answer->Some_0)
                    &&& timestamp_ms == answer->Some_0.timestamp_ms
                    &&& *final(self) == *old(self)
                },
                FetchStep::Wait(ms) => {
                    &&& answer is None || !usable_answer(old(self).target_epoch, answer->Some_0)
                    &&& ms == old(self).delay_ms
                    &&& *final(self) == (CommitteeFetch {
                        delay_ms: next_delay(old(self).delay_ms),
                        ..*old(self)
                    })
                },
            },
    {
        match answer {
            Some(a) => match CommitteeSource::committee_from_boundary(self.target_epoch, a) {
                Some((committee, timestamp_ms)) => FetchStep::Found { committee, timestamp_ms },
                None => FetchStep::Wait(self.pause()),
            },
            None => FetchStep::Wait(self.pause()),
        }
    }

    /// How long to wait before the next attempt, in milliseconds; twice as
    /// long each time, up to [`MAX_DELAY_MS`].
    pub fn pause(&mut self) -> (ms: u64)
        requires
            old(self).wf(),
        ensures
            final(self).wf(),
            ms == old(self).delay_ms,
            *final(self) == (CommitteeFetch {
                delay_ms: next_delay(old(self).delay_ms),
                ..*old(self)
            }),
    {
        let ms: u64 = self.delay_ms;
        self.delay_ms = if ms * 2 < MAX_DELAY_MS {
            ms * 2
        } else {
            MAX_DELAY_MS
        };
        ms
    }
}

/// A source is ahead of every peer that it was compared with and of the local
/// executor, or level with them; two discoveries from the same reports agree.
pub proof fn law_discovery_unique(
    a: Progress,
    b: Progress,
    local: Progress,
    replies: Seq<Option<Progress>>,
)
    requires
        a == local || replies.contains(Some(a)),
        b == local || replies.contains(Some(b)),
        !ahead(local, a),
        !ahead(local, b),
        forall|i: int|
            0 <= i < replies.len() && #[trigger] replies[i] is Some ==> !ahead(
                replies[i]->Some_0,
                a,
            ) && !ahead(replies[i]->Some_0, b),
    ensures
        a == b,
{
    if a != local {
        let i = replies.index_of(Some(a));
        assert(replies[i] == Some(a));
    }
    if b != local {
        let i = replies.index_of(Some(b));
        assert(replies[i] == Some(b));
    }
}

/// Who is ahead is decided by the epoch first and by the last block within one
/// epoch; nobody is ahead of itself, and of two that differ exactly one is
/// ahead.
pub proof fn law_epoch_before_block(a: Progress, b: Progress)
    ensures
        a.epoch > b.epoch ==> ahead(a, b),
        a.epoch == b.epoch ==> (ahead(a, b) <==> a.last_block > b.last_block),
        a != b ==> ahead(a, b) != ahead(b, a),
        !ahead(a, a),
{
}

/// An executor that does not answer counts as being at the very beginning.
pub proof fn law_silent_executor_is_behind(epoch: Option<u64>, block: Option<u64>)
    ensures
        epoch matches Some(e) ==> local_progress(epoch, block).epoch == e,
        epoch is None ==> local_progress(epoch, block).epoch == 0,
        block matches Some(b) ==> local_progress(epoch, block).last_block == b,
        block is None ==> local_progress(epoch, block).last_block == 0,
{
}

/// An answer is used only for the epoch that was asked for, and only if each of
/// its validators becomes a member. The committee has the validators' addresses,
/// in the order of their bytes, and is that of the epoch.
pub proof fn law_answer_gives_committee(c: Committee, target_epoch: u64, answer: EpochBoundary)
    ensures
        answer.epoch != target_epoch ==> !usable_answer(target_epoch, answer),
        usable_answer(target_epoch, answer) ==> forall|i: int|
            0 <= i < answer.validators@.len() ==> validator_member(
                #[trigger] committee_order(answer.validators@)[i],
                i as nat,
            ) is Ok,
        is_committee_of(c, target_epoch, answer) ==> c.epoch == target_epoch
            && c.authorities@.len() == answer.validators@.len() && forall|i: int|
            0 <= i < c.authorities@.len() ==> (#[trigger] c.authorities@[i]).address@
                == committee_order(answer.validators@)[i].info.address@,
        is_committee_of(c, target_epoch, answer) ==> forms_committee(answer.validators@),
{
    if is_committee_of(c, target_epoch, answer) {
        let v = answer.validators@;
        assert forall|i: int| 0 <= i < v.len() implies validator_member(
            #[trigger] committee_order(v)[i],
            i as nat,
        ) == Ok::<AuthorityValue, ValidatorFault>(c.authorities@[i]@) by {}
        law_committee_has_validators_addresses(c, v);
    }
}

/// The pauses between attempts double, and never exceed their limit.
pub proof fn law_pauses_double(delay: u64)
    requires
        INITIAL_DELAY_MS <= delay <= MAX_DELAY_MS,
    ensures
        delay <= next_delay(delay) <= MAX_DELAY_MS,
        2 * delay <= MAX_DELAY_MS ==> next_delay(delay) == 2 * delay,
        2 * delay > MAX_DELAY_MS ==> next_delay(delay) == MAX_DELAY_MS,
{
}

} // verus!
