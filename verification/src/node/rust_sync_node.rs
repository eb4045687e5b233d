//! Block sync for nodes that do not vote: commits are fetched from peers,
//! queued by global execution index and handed to the executor in sequence.
use crate::index_map::{entry, no_entries, put_entry};
use crate::node::committee::{
    address_bytes, build_committee_from_validator_list, by_authority_key, committee_order,
    eth_addresses, leader_address, leader_address_of, validator_member, AuthorityValue, Candidate,
    Committee, ValidatorFault, ValidatorInfo,
};
use crate::node::committee_source::{forms_committee, texts};
use crate::node::rust_sync_node::block_queue::{BlockQueue, QueueState};
use crate::node::rust_sync_node::fetch::fetch_from_index;
use crate::node::PendingEpochTransition;
use crate::text::{law_text_is_divided, nth_part, part};
use crate::wire::contents;
use std::collections::BTreeMap;
use vstd::prelude::*;
use vstd::string::*;

pub mod block_queue;
pub mod commit;
pub mod fetch;
pub mod fetch_run;
pub mod peer_blocks;
pub mod process;
pub mod sync_round;

verus! {

/// After so many errors in a row the connections are reset.
pub const MAX_CONSECUTIVE_ERRORS: u32 = 5;

/// Settings of a [`RustSyncNode`].
#[derive(Clone, Debug)]
pub struct RustSyncConfig {
    pub fetch_interval_secs: u64,
    /// Shorter interval, used while the node catches up.
    pub turbo_fetch_interval_ms: u64,
    pub fetch_batch_size: u32,
    /// Larger batch, used while the node catches up.
    pub turbo_batch_size: u32,
    pub fetch_timeout_secs: u64,
    /// Peers that are asked where the local executor has no answer.
    pub peer_rpc_addresses: Vec<String>,
}

impl Default for RustSyncConfig {
    fn default() -> (c: Self)
        ensures
            c.fetch_interval_secs == 2,
            c.turbo_fetch_interval_ms == 50,
            c.fetch_batch_size == 500,
            c.turbo_batch_size == 2000,
            c.fetch_timeout_secs == 30,
            c.peer_rpc_addresses@.len() == 0,
    {
        RustSyncConfig {
            fetch_interval_secs: 2,
            turbo_fetch_interval_ms: 50,
            fetch_batch_size: 500,
            turbo_batch_size: 2000,
            fetch_timeout_secs: 30,
            peer_rpc_addresses: Vec::new(),
        }
    }
}

/// Syncs blocks from peers.
pub struct RustSyncNode {
    pub current_epoch: u64,
    /// Global execution index of the last block of the epoch before: commit 1
    /// of the current epoch has the index after it.
    pub epoch_base_index: u64,
    pub last_synced_commit_index: u32,
    pub committee: Option<Committee>,
    /// Whether peers of the consensus can be reached.
    pub has_network: bool,
    pub config: RustSyncConfig,
    pub block_queue: BlockQueue,
    /// Account addresses of the validators, by epoch.
    pub epoch_eth_addresses: BTreeMap<u64, Vec<Vec<u8>>>,
}

/// The number of members; none without a committee.
pub open spec fn committee_size(c: Option<Committee>) -> nat {
    match c {
        Some(c) => c.authorities@.len(),
        None => 0,
    }
}

/// `c` is the committee that the validators make up.
pub open spec fn is_committee_of(c: Committee, epoch: u64, validators: Seq<Candidate>) -> bool {
    &&& c.epoch == epoch
    &&& c.authorities@.len() == validators.len()
    &&& forall|i: int|
        0 <= i < validators.len() ==> validator_member(
            #[trigger] committee_order(validators)[i],
            i as nat,
        ) == Ok::<AuthorityValue, ValidatorFault>(c.authorities@[i]@)
}

/// What a sync round does about epochs before it fetches.
#[derive(Clone, Copy, Debug, PartialEq, Eq, Structural)]
pub enum EpochCheck {
    /// The executor is in a later epoch: ask it for that epoch's boundary.
    Adopt,
    /// The executor is in the same epoch: ask it for the validators.
    Refresh,
    /// The executor is in an earlier epoch: nothing to ask.
    Keep,
}

/// Where a sync round gets blocks from.
#[allow(inconsistent_fields)]
#[derive(Clone, Copy, Debug, PartialEq, Eq, Structural)]
pub enum FetchSource {
    /// From peers of the consensus, commits after an index.
    Commits { from: u32 },
    /// The consensus can be reached, but the committee is not known.
    NoCommittee,
    /// From the executors of peers, blocks from an index on.
    PeerBlocks { from: u64, batch: u64 },
    /// No peer is known.
    NoPeers,
}

/// The address of a peer's executor: the host in the member's address, with
/// the port that executors listen on.
pub open spec fn peer_address(address: Seq<char>) -> Option<Seq<char>> {
    match part(address, '/', 2) {
        Some(host) => Some(host + ":8000"@),
        None => None,
    }
}

/// The addresses that the members have.
pub open spec fn peer_addresses(c: Seq<AuthorityValue>) -> Seq<Seq<char>>
    decreases c.len(),
{
    if c.len() == 0 {
        Seq::empty()
    } else {
        match peer_address(c.last().address) {
            Some(a) => peer_addresses(c.drop_last()).push(a),
            None => peer_addresses(c.drop_last()),
        }
    }
}

/// The addresses of the members of a committee, if there is one.
pub open spec fn committee_peers(c: Option<Committee>) -> Seq<Seq<char>> {
    match c {
        Some(c) => peer_addresses(crate::node::committee::authority_values(c.authorities@)),
        None => Seq::empty(),
    }
}

/// The addresses of the peers' executors: those of the members if there is a
/// committee, or else those of the configuration.
pub open spec fn go_addresses(n: RustSyncNode) -> Seq<Seq<char>> {
    match n.committee {
        Some(_) => committee_peers(n.committee),
        None => texts(n.config.peer_rpc_addresses@),
    }
}

/// Blocks were executed that are older than the start of the epoch: the
/// node's record of the epoch is wrong.
pub open spec fn epoch_record_broken(epoch: u64, base: u64, go_last_block: u64) -> bool {
    epoch > 0 && base > 0 && go_last_block < base
}

/// Where a node gets blocks from: from the consensus, after the index before
/// the next one; or, without a network, from the executors of the peers.
pub open spec fn source_of(n: RustSyncNode) -> FetchSource {
    if n.has_network {
        if n.committee is Some {
            FetchSource::Commits {
                from: ((n.block_queue@.next_expected - 1) % 0x1_0000_0000) as u32,
            }
        } else {
            FetchSource::NoCommittee
        }
    } else if go_addresses(n).len() > 0 {
        FetchSource::PeerBlocks {
            from: n.block_queue@.next_expected,
            batch: n.config.turbo_batch_size as u64,
        }
    } else {
        FetchSource::NoPeers
    }
}

/// The address of a leader as the cache has it.
pub enum LeaderLookup {
    /// The address.
    Found(Vec<u8>),
    /// The validators of the epoch are not in the cache.
    NotCached,
    /// The epoch has no valid address at that index.
    Invalid,
}

impl RustSyncNode {
    /// The queue is in order.
    pub open spec fn wf(&self) -> bool {
        self.block_queue.wf()
    }

    /// A node without network. `epoch_base_index` is the index of the last
    /// block of the epoch before.
    pub fn new(initial_epoch: u64, initial_global_exec_index: u32, epoch_base_index: u64) -> (n:
        RustSyncNode)
        ensures
            n.wf(),
            n.current_epoch == initial_epoch,
            n.epoch_base_index == epoch_base_index,
            n.last_synced_commit_index == initial_global_exec_index,
            n.committee is None,
            !n.has_network,
            n.config.fetch_interval_secs == 2,
            n.config.turbo_fetch_interval_ms == 50,
            n.config.fetch_batch_size == 500,
            n.config.turbo_batch_size == 2000,
            n.config.fetch_timeout_secs == 30,
            n.config.peer_rpc_addresses@.len() == 0,
            n.block_queue@ == (QueueState {
                pending: Map::empty(),
                next_expected: initial_global_exec_index as u64,
            }),
            n.epoch_eth_addresses@ == Map::<u64, Vec<Vec<u8>>>::empty(),
    {
        RustSyncNode {
            current_epoch: initial_epoch,
            epoch_base_index,
            last_synced_commit_index: initial_global_exec_index,
            committee: None,
            has_network: false,
            config: RustSyncConfig::default(),
            block_queue: BlockQueue::new(initial_global_exec_index as u64),
            epoch_eth_addresses: no_entries(),
        }
    }

    /// Lets the node reach the consensus peers of a committee.
    pub fn with_network(self, committee: Committee) -> (n: RustSyncNode)
        requires
            self.wf(),
        ensures
            n.wf(),
            n == (RustSyncNode { committee: Some(committee), has_network: true, ..self }),
    {
        let mut n = self;
        n.committee = Some(committee);
        n.has_network = true;
        n
    }

    /// Sets the peers that are asked where the local executor has no answer.
    pub fn with_peer_rpc_addresses(self, addresses: Vec<String>) -> (n: RustSyncNode)
        requires
            self.wf(),
        ensures
            n.wf(),
            n == (RustSyncNode {
                config: RustSyncConfig { peer_rpc_addresses: addresses, ..self.config },
                ..self
            }),
    {
        let mut n = self;
        n.config.peer_rpc_addresses = addresses;
        n
    }

    /// What to do about epochs, given the executor's epoch.
    pub fn check_epoch(&self, go_epoch: u64) -> (c: EpochCheck)
        ensures
            c is Adopt <==> go_epoch > self.current_epoch,
            c is Refresh <==> go_epoch == self.current_epoch,
            c is Keep <==> go_epoch < self.current_epoch,
    {
        if go_epoch > self.current_epoch {
            EpochCheck::Adopt
        } else if go_epoch == self.current_epoch {
            EpochCheck::Refresh
        } else {
            EpochCheck::Keep
        }
    }

    /// Takes over the executor's epoch with the index of its boundary, and its
    /// committee if the validators make one; otherwise the old committee
    /// stays. Says whether the committee was replaced.
    pub fn adopt_epoch(&mut self, go_epoch: u64, boundary_block: u64, validators: Vec<Candidate>)
        -> (replaced: bool)
        requires
            old(self).wf(),
        ensures
            final(self).wf(),
            replaced <==> validators@.len() > 0 && forms_committee(validators@),
            final(self).current_epoch == go_epoch,
            final(self).epoch_base_index == boundary_block,
            replaced ==> final(self).committee is Some && is_committee_of(
                final(self).committee->Some_0,
                go_epoch,
                validators@,
            ),
            !replaced ==> final(self).committee == old(self).committee,
            *final(self) == (RustSyncNode {
                current_epoch: go_epoch,
                epoch_base_index: boundary_block,
                committee: final(self).committee,
                ..*old(self)
            }),
    {
        let replaced: bool = self.rebuild_committee(go_epoch, validators);
        self.current_epoch = go_epoch;
        self.epoch_base_index = boundary_block;
        replaced
    }

    /// Replaces the committee if the validators make one.
    fn rebuild_committee(&mut self, epoch: u64, validators: Vec<Candidate>) -> (replaced: bool)
        requires
            old(self).wf(),
        ensures
            final(self).wf(),
            replaced <==> validators@.len() > 0 && forms_committee(validators@),
            replaced ==> final(self).committee is Some && is_committee_of(
                final(self).committee->Some_0,
                epoch,
                validators@,
            ),
            !replaced ==> final(self).committee == old(self).committee,
            *final(self) == (RustSyncNode { committee: final(self).committee, ..*old(self) }),
    {
        if validators.len() == 0 {
            return false;
        }
        match build_committee_from_validator_list(validators, epoch) {
            Ok(c) => {
                self.committee = Some(c);
                true
            },
            Err(_) => false,
        }
    }

    /// Replaces the committee of the current epoch if the executor reports
    /// another number of validators than it has.
    pub fn refresh_committee(&mut self, go_epoch: u64, validators: Vec<Candidate>) -> (replaced:
        bool)
        requires
            old(self).wf(),
        ensures
            final(self).wf(),
            replaced <==> validators@.len() > 0 && validators@.len() != committee_size(
                old(self).committee,
            ) && forms_committee(validators@),
            replaced ==> final(self).committee is Some && is_committee_of(
                final(self).committee->Some_0,
                go_epoch,
                validators@,
            ),
            !replaced ==> final(self).committee == old(self).committee,
            *final(self) == (RustSyncNode { committee: final(self).committee, ..*old(self) }),
    {
        let size: usize = match &self.committee {
            Some(c) => c.size(),
            None => 0,
        };
        if validators.len() == size {
            return false;
        }
        self.rebuild_committee(go_epoch, validators)
    }

    /// Whether the record of the epoch is wrong, see [`epoch_record_broken`].
    pub fn needs_repair(&self, go_last_block: u64) -> (b: bool)
        ensures
            b == epoch_record_broken(self.current_epoch, self.epoch_base_index, go_last_block),
    {
        self.current_epoch > 0 && self.epoch_base_index > 0 && go_last_block
            < self.epoch_base_index
    }

    /// Takes the boundary from the executor; says whether it was another one.
    /// If not, peers have to be asked.
    pub fn repair_from_executor(&mut self, boundary: u64) -> (changed: bool)
        requires
            old(self).wf(),
        ensures
            final(self).wf(),
            changed == (boundary != old(self).epoch_base_index),
            *final(self) == (RustSyncNode { epoch_base_index: boundary, ..*old(self) }),
    {
        let changed: bool = boundary != self.epoch_base_index;
        if changed {
            self.epoch_base_index = boundary;
        }
        changed
    }

    /// Takes the boundary from a peer in the same epoch if it is later than
    /// the one on record.
    pub fn repair_from_peer(&mut self, peer_epoch: u64, boundary: u64) -> (changed: bool)
        requires
            old(self).wf(),
        ensures
            final(self).wf(),
            changed == (peer_epoch == old(self).current_epoch && boundary
                > old(self).epoch_base_index),
            *final(self) == (RustSyncNode {
                epoch_base_index: if changed {
                    boundary
                } else {
                    old(self).epoch_base_index
                },
                ..*old(self)
            }),
    {
        let changed: bool = peer_epoch == self.current_epoch && boundary > self.epoch_base_index;
        if changed {
            self.epoch_base_index = boundary;
        }
        changed
    }

    /// Where to get blocks from.
    pub fn fetch_source(&self) -> (f: FetchSource)
        requires
            self.wf(),
            self.has_network && self.committee is Some ==> self.block_queue@.next_expected > 0,
        ensures
            f == source_of(*self),
    {
        if self.has_network {
            if self.committee.is_some() {
                FetchSource::Commits { from: fetch_from_index(self.block_queue.next_expected()) }
            } else {
                FetchSource::NoCommittee
            }
        } else {
            let peers = self.get_peer_go_addresses();
            assert(texts(peers@).len() == peers@.len());
            if peers.len() > 0 {
                FetchSource::PeerBlocks {
                    from: self.block_queue.next_expected(),
                    batch: self.config.turbo_batch_size as u64,
                }
            } else {
                FetchSource::NoPeers
            }
        }
    }

    /// The addresses of the peers' executors, from the committee if there is
    /// one, or else from the configuration.
    pub fn get_peer_go_addresses(&self) -> (r: Vec<String>)
        ensures
            texts(r@) == match self.committee {
                Some(c) => peer_addresses(
                    crate::node::committee::authority_values(c.authorities@),
                ),
                None => texts(self.config.peer_rpc_addresses@),
            },
            texts(r@) == go_addresses(*self),
    {
        if self.committee.is_some() {
            return self.member_addresses();
        }
        let configured = &self.config.peer_rpc_addresses;
        let ghost all = texts(configured@);
        let mut r: Vec<String> = Vec::new();
        let mut i: usize = 0;
        assert(texts(r@) =~= all.subrange(0, 0));
        while i < configured.len()
            invariant
                i <= configured@.len(),
                all == texts(configured@),
                texts(r@) == all.subrange(0, i as int),
            decreases configured.len() - i,
        {
            let ghost before = texts(r@);
            let a = configured[i].clone();
            r.push(a);
            i += 1;
            assert(texts(r@) =~= before.push(a@));
            assert(a@ == all[i - 1]);
            assert(texts(r@) =~= all.subrange(0, i as int));
        }
        assert(all.subrange(0, all.len() as int) =~= all);
        r
    }

    /// The addresses of the members' executors; none without a committee.
    pub fn member_addresses(&self) -> (r: Vec<String>)
        ensures
            texts(r@) == committee_peers(self.committee),
    {
        let mut r: Vec<String> = Vec::new();
        match &self.committee {
            Some(c) => {
                let ghost vs = crate::node::committee::authority_values(c.authorities@);
                let mut i: usize = 0;
                assert(vs.subrange(0, 0) =~= Seq::<AuthorityValue>::empty());
                assert(texts(r@) =~= peer_addresses(vs.subrange(0, 0)));
                while i < c.authorities.len()
                    invariant
                        i <= c.authorities@.len(),
                        vs == crate::node::committee::authority_values(c.authorities@),
                        texts(r@) == peer_addresses(vs.subrange(0, i as int)),
                    decreases c.authorities.len() - i,
                {
                    proof {
                        let longer = vs.subrange(0, i + 1);
                        assert(longer.drop_last() =~= vs.subrange(0, i as int));
                        assert(longer.last() == c.authorities@[i as int]@);
                    }
                    let ghost before = texts(r@);
                    match nth_part(c.authorities[i].address.as_str(), '/', 2) {
                        Some(host) => {
                            let mut a = host;
                            a.append(":8000");
                            r.push(a);
                            assert(texts(r@) =~= before.push(a@));
                        },
                        None => {},
                    }
                    i += 1;
                }
                assert(vs.subrange(0, vs.len() as int) =~= vs);
            },
            None => {
                assert(texts(r@) =~= Seq::<Seq<char>>::empty());
            },
        }
        r
    }

    /// Records the account addresses of an epoch's validators.
    pub fn cache_addresses(&mut self, epoch: u64, validators: Vec<ValidatorInfo>)
        requires
            old(self).wf(),
        ensures
            final(self).wf(),
            final(self).epoch_eth_addresses@.dom() == old(self).epoch_eth_addresses@.dom().insert(
                epoch,
            ),
            forall|e: u64|
                e != epoch && #[trigger] old(self).epoch_eth_addresses@.contains_key(e)
                    ==> final(self).epoch_eth_addresses@[e] == old(self).epoch_eth_addresses@[e],
            final(self).epoch_eth_addresses@[epoch]@.len() == validators@.len(),
            forall|i: int|
                0 <= i < validators@.len() ==> (#[trigger] final(
                    self
                ).epoch_eth_addresses@[epoch]@[i])@ == address_bytes(
                    by_authority_key(validators@)[i].address@,
                ),
            *final(self) == (RustSyncNode {
                epoch_eth_addresses: final(self).epoch_eth_addresses,
                ..*old(self)
            }),
    {
        let list = eth_addresses(validators);
        put_entry(&mut self.epoch_eth_addresses, epoch, list);
        assert(self.epoch_eth_addresses@.dom() =~= old(self).epoch_eth_addresses@.dom().insert(
            epoch,
        ));
    }

    /// The address of the leader at an index of an epoch. A block is never
    /// handed on without it.
    pub fn lookup_leader(&self, epoch: u64, leader_index: usize) -> (r: LeaderLookup)
        ensures
            match r {
                LeaderLookup::Found(a) => self.epoch_eth_addresses@.contains_key(epoch)
                    && leader_address_of(
                    contents(self.epoch_eth_addresses@[epoch]@),
                    leader_index as int,
                ) == Some(a@) && a@.len() == 20,
                LeaderLookup::NotCached => !self.epoch_eth_addresses@.contains_key(epoch),
                LeaderLookup::Invalid => self.epoch_eth_addresses@.contains_key(epoch)
                    && leader_address_of(
                    contents(self.epoch_eth_addresses@[epoch]@),
                    leader_index as int,
                ) is None,
            },
    {
        match entry(&self.epoch_eth_addresses, epoch) {
            Some(list) => match leader_address(list, leader_index) {
                Some(a) => LeaderLookup::Found(a),
                None => LeaderLookup::Invalid,
            },
            None => LeaderLookup::NotCached,
        }
    }

    /// Notes the epoch of a block that a peer's executor sent. Where it is a
    /// later one and the executor knows its boundary (start time and block),
    /// the node moves to it; the result is the transition to announce.
    pub fn note_block_epoch(&mut self, epoch: u64, boundary: Option<(u64, u64)>) -> (announce:
        Option<PendingEpochTransition>)
        requires
            old(self).wf(),
        ensures
            final(self).wf(),
            announce == if epoch > old(self).current_epoch {
                match boundary {
                    Some((timestamp_ms, boundary_block)) => Some(
                        PendingEpochTransition { epoch, timestamp_ms, boundary_block },
                    ),
                    None => None,
                }
            } else {
                None
            },
            *final(self) == (RustSyncNode {
                current_epoch: if announce is Some {
                    epoch
                } else {
                    old(self).current_epoch
                },
                ..*old(self)
            }),
    {
        if epoch > self.current_epoch {
            match boundary {
                Some((timestamp_ms, boundary_block)) => {
                    self.current_epoch = epoch;
                    return Some(PendingEpochTransition { epoch, timestamp_ms, boundary_block });
                },
                None => {},
            }
        }
        None
    }
}

/// The first index of a queue that starts after the executor's last block, in
/// 32 bits; an executor that does not answer counts as being at block 0.
pub fn initial_queue_index(go_last_block: Option<u64>) -> (i: u32)
    requires
        go_last_block matches Some(b) ==> b % 0x1_0000_0000 < 0xffff_ffff,
    ensures
        i == (match go_last_block {
            Some(b) => b % 0x1_0000_0000,
            None => 0,
        }) + 1,
{
    let last: u64 = match go_last_block {
        Some(b) => b,
        None => 0,
    };
    (last % 0x1_0000_0000) as u32 + 1
}

/// How often to sync, and when to reset connections.
#[derive(Clone, Copy, Debug, PartialEq, Eq, Structural)]
pub struct SyncPacer {
    pub is_turbo_mode: bool,
    pub consecutive_errors: u32,
}

impl SyncPacer {
    /// Fewer errors than lead to a reset.
    pub open spec fn wf(&self) -> bool {
        self.consecutive_errors < MAX_CONSECUTIVE_ERRORS
    }

    /// Normal speed, no errors.
    pub fn new() -> (p: SyncPacer)
        ensures
            p.wf(),
            p == (SyncPacer { is_turbo_mode: false, consecutive_errors: 0 }),
    {
        SyncPacer { is_turbo_mode: false, consecutive_errors: 0 }
    }

    /// Chooses the speed: fast while commits wait in the queue or the executor
    /// is in a later epoch. Gives the pause until the next round, in
    /// milliseconds.
    pub fn choose_pause(
        &mut self,
        pending_count: usize,
        rust_epoch: u64,
        go_epoch: u64,
        config: &RustSyncConfig,
    ) -> (ms: u64)
        requires
            old(self).wf(),
            config.fetch_interval_secs * 1000 <= u64::MAX,
        ensures
            final(self).wf(),
            *final(self) == (SyncPacer {
                is_turbo_mode: pending_count > 0 || rust_epoch < go_epoch,
                ..*old(self)
            }),
            ms == if final(self).is_turbo_mode {
                config.turbo_fetch_interval_ms as int
            } else {
                config.fetch_interval_secs * 1000
            },
    {
        self.is_turbo_mode = pending_count > 0 || rust_epoch < go_epoch;
        if self.is_turbo_mode {
            config.turbo_fetch_interval_ms
        } else {
            config.fetch_interval_secs * 1000
        }
    }

    /// Notes how a round went; says whether to reset the connections, which
    /// happens after [`MAX_CONSECUTIVE_ERRORS`] errors in a row.
    pub fn note_round(&mut self, ok: bool) -> (reset: bool)
        requires
            old(self).wf(),
        ensures
            final(self).wf(),
            reset == (!ok && old(self).consecutive_errors + 1 >= MAX_CONSECUTIVE_ERRORS),
            *final(self) == (SyncPacer {
                consecutive_errors: if ok || reset {
                    0
                } else {
                    (old(self).consecutive_errors + 1) as u32
                },
                ..*old(self)
            }),
    {
        if ok {
            self.consecutive_errors = 0;
            return false;
        }
        self.consecutive_errors = self.consecutive_errors + 1;
        if self.consecutive_errors >= MAX_CONSECUTIVE_ERRORS {
            self.consecutive_errors = 0;
            true
        } else {
            false
        }
    }
}

/// The executor of a member listens at the host in the member's address, on port
/// 8000.
pub proof fn law_peer_host(a: Seq<char>, b: Seq<char>, host: Seq<char>, rest: Seq<char>)
    requires
        forall|i: int| 0 <= i < a.len() ==> a[i] != '/',
        forall|i: int| 0 <= i < b.len() ==> b[i] != '/',
        forall|i: int| 0 <= i < host.len() ==> host[i] != '/',
    ensures
        peer_address(a + seq!['/'] + (b + seq!['/'] + (host + seq!['/'] + rest))) == Some(
            host + ":8000"@,
        ),
        peer_address(a + seq!['/'] + (b + seq!['/'] + host)) == Some(host + ":8000"@),
        peer_address(a + seq!['/'] + b) is None,
        peer_address(a) is None,
{
    let tail = host + seq!['/'] + rest;
    law_text_is_divided(a, '/', b + seq!['/'] + tail, 1);
    law_text_is_divided(b, '/', tail, 0);
    law_text_is_divided(host, '/', rest, 0);
    law_text_is_divided(a, '/', b + seq!['/'] + host, 1);
    law_text_is_divided(b, '/', host, 0);
    law_text_is_divided(a, '/', b, 1);
}

/// Every member that has a host is asked, in the order of the committee.
pub proof fn law_members_are_reached(
    a: Seq<AuthorityValue>,
    b: Seq<AuthorityValue>,
    x: AuthorityValue,
)
    ensures
        peer_addresses(a + b) == peer_addresses(a) + peer_addresses(b),
        peer_address(x.address) matches Some(p) ==> peer_addresses(seq![x]) == seq![p],
        peer_address(x.address) is None ==> peer_addresses(seq![x]).len() == 0,
    decreases b.len(),
{
    if b.len() > 0 {
        law_members_are_reached(a, b.drop_last(), x);
        assert((a + b).drop_last() =~= a + b.drop_last());
        assert((a + b).last() == b.last());
    } else {
        assert(a + b =~= a);
    }
    assert(peer_addresses(a + b) =~= peer_addresses(a) + peer_addresses(b));
    reveal_with_fuel(peer_addresses, 2);
    assert(seq![x].drop_last() =~= Seq::<AuthorityValue>::empty());
    assert(seq![x].last() == x);
    if let Some(p) = peer_address(x.address) {
        assert(peer_addresses(seq![x]) =~= seq![p]);
    }
}

/// A node that can reach the consensus fetches the commits after the one before
/// the next index; without a committee it does not fetch. One that cannot reach
/// it fetches blocks from the next index on, if it knows a peer: a member of its
/// committee or, without one, a configured peer.
pub proof fn law_source_of_blocks(n: RustSyncNode)
    requires
        0 < n.block_queue@.next_expected <= u32::MAX,
    ensures
        n.has_network && n.committee is Some ==> (source_of(n) matches FetchSource::Commits { from }
            && from + 1 == n.block_queue@.next_expected),
        n.has_network && n.committee is None ==> source_of(n) is NoCommittee,
        !n.has_network && n.committee is None && n.config.peer_rpc_addresses@.len() > 0
            ==> source_of(n) == (FetchSource::PeerBlocks {
            from: n.block_queue@.next_expected,
            batch: n.config.turbo_batch_size as u64,
        }),
        !n.has_network && n.committee is None && n.config.peer_rpc_addresses@.len() == 0
            ==> source_of(n) is NoPeers,
        !n.has_network && n.committee is Some && committee_peers(n.committee).len() > 0
            ==> source_of(n) == (FetchSource::PeerBlocks {
            from: n.block_queue@.next_expected,
            batch: n.config.turbo_batch_size as u64,
        }),
        n.committee is None ==> go_addresses(n) == texts(n.config.peer_rpc_addresses@),
        n.committee is Some ==> go_addresses(n) == committee_peers(n.committee),
{
}

/// The record of an epoch is wrong exactly where the executor's last block lies
/// before the start that the node has for the epoch.
pub proof fn law_record_broken_before_start(epoch: u64, base: u64, last: u64)
    ensures
        last >= base ==> !epoch_record_broken(epoch, base, last),
        epoch > 0 && last < base ==> epoch_record_broken(epoch, base, last),
        epoch == 0 ==> !epoch_record_broken(epoch, base, last),
{
}

} // verus!
