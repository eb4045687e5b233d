//! One queue for the blocks of both streams, consensus and sync.
//!
//! Blocks are kept by their global execution index, each index once; a block
//! from consensus replaces one from sync. They leave the queue in sequence,
//! without gaps.
use crate::index_map::{
    entries_from, entry, entry_count, first_index, no_entries, put_entry, retain_from, take_entry,
};
use crate::node::NodeMode;
use crate::text::{decimal, decimal_text};
use std::collections::BTreeMap;
use vstd::prelude::*;
use vstd::string::*;

verus! {

/// The stream that a block came from.
#[derive(Clone, Copy, Debug, PartialEq, Eq, Structural)]
pub enum BlockSource {
    /// A block of the consensus: it wins over one from sync.
    Consensus,
    /// A block that a peer sent.
    Sync,
}

/// The name of a stream.
pub open spec fn source_name(s: BlockSource) -> Seq<char> {
    match s {
        BlockSource::Consensus => "Consensus"@,
        BlockSource::Sync => "Sync"@,
    }
}

impl BlockSource {
    /// The name of the stream.
    pub fn to_text(&self) -> (s: String)
        ensures
            s@ == source_name(*self),
    {
        match self {
            BlockSource::Consensus => String::from_str("Consensus"),
            BlockSource::Sync => String::from_str("Sync"),
        }
    }
}

/// A block that waits in the queue.
#[derive(Clone, Debug)]
pub struct QueuedBlock {
    pub global_exec_index: u64,
    pub commit_index: u64,
    pub epoch: u64,
    pub data: Vec<u8>,
    pub source: BlockSource,
    /// When the block came, in milliseconds of the caller's clock.
    pub received_at: u64,
}

/// What [`QueuedBlock::summary`] writes.
pub open spec fn block_summary(b: QueuedBlock) -> Seq<char> {
    "QueuedBlock { global_exec_index: "@ + decimal_text(b.global_exec_index as nat)
        + ", commit_index: "@ + decimal_text(b.commit_index as nat) + ", epoch: "@ + decimal_text(
        b.epoch as nat,
    ) + ", source: "@ + source_name(b.source) + ", data_len: "@ + decimal_text(b.data@.len())
        + " }"@
}

impl QueuedBlock {
    /// Whether the block marks an index without carrying data.
    pub fn is_marker(&self) -> (b: bool)
        ensures
            b == (self.data@.len() == 0),
    {
        self.data.len() == 0
    }

    /// The block in one line, with the length of its data in place of the data.
    pub fn summary(&self) -> (s: String)
        ensures
            s@ == block_summary(*self),
    {
        let mut s = String::from_str("QueuedBlock { global_exec_index: ");
        s.append(decimal(self.global_exec_index).as_str());
        s.append(", commit_index: ");
        s.append(decimal(self.commit_index).as_str());
        s.append(", epoch: ");
        s.append(decimal(self.epoch).as_str());
        s.append(", source: ");
        s.append(self.source.to_text().as_str());
        s.append(", data_len: ");
        s.append(decimal(self.data.len() as u64).as_str());
        s.append(" }");
        s
    }
}

/// Settings of a [`BlockCoordinator`].
#[derive(Clone, Copy, Debug, PartialEq, Eq, Structural)]
pub struct CoordinatorConfig {
    /// A gap longer than this is reported to sync.
    pub gap_threshold: u64,
    /// How many blocks leave the queue at once.
    pub max_drain_batch: usize,
    /// How long sync may take to fill a gap, in seconds.
    pub gap_fill_timeout_secs: u64,
}

impl Default for CoordinatorConfig {
    fn default() -> (c: Self)
        ensures
            c.gap_threshold == 5,
            c.max_drain_batch == 100,
            c.gap_fill_timeout_secs == 10,
    {
        CoordinatorConfig { gap_threshold: 5, max_drain_batch: 100, gap_fill_timeout_secs: 10 }
    }
}

/// Counters of a [`BlockCoordinator`].
#[derive(Clone, Copy, Debug, PartialEq, Eq, Structural)]
pub struct CoordinatorStats {
    pub blocks_from_consensus: u64,
    pub blocks_from_sync: u64,
    pub blocks_deduplicated: u64,
    pub gaps_detected: u64,
    pub gaps_filled: u64,
}

impl Default for CoordinatorStats {
    fn default() -> (s: Self)
        ensures
            s == no_stats(),
    {
        CoordinatorStats {
            blocks_from_consensus: 0,
            blocks_from_sync: 0,
            blocks_deduplicated: 0,
            gaps_detected: 0,
            gaps_filled: 0,
        }
    }
}

/// Counters that have counted nothing.
pub open spec fn no_stats() -> CoordinatorStats {
    CoordinatorStats {
        blocks_from_consensus: 0,
        blocks_from_sync: 0,
        blocks_deduplicated: 0,
        gaps_detected: 0,
        gaps_filled: 0,
    }
}

/// The state of a [`BlockCoordinator`].
pub struct CoordinatorState {
    pub queue: Map<u64, QueuedBlock>,
    pub next_expected: u64,
    pub mode: NodeMode,
    pub sync_standby: bool,
    pub gap_fill: bool,
    pub config: CoordinatorConfig,
    pub stats: CoordinatorStats,
}

/// Central controller of the two streams of blocks.
pub struct BlockCoordinator {
    queue: BTreeMap<u64, QueuedBlock>,
    next_expected: u64,
    mode: NodeMode,
    sync_standby: bool,
    gap_fill: bool,
    config: CoordinatorConfig,
    stats: CoordinatorStats,
}

/// Each block waits under its own index.
pub open spec fn keyed(queue: Map<u64, QueuedBlock>) -> bool {
    forall|k: u64| #[trigger] queue.contains_key(k) ==> queue[k].global_exec_index == k
}

/// A block at `index` fills a gap: the queue is not empty and starts after
/// both `index` and the next block to leave it.
pub open spec fn fills_gap(s: CoordinatorState, index: u64) -> bool {
    &&& exists|k: u64| s.queue.contains_key(k)
    &&& forall|k: u64| #[trigger] s.queue.contains_key(k) ==> s.next_expected < k && index < k
}

/// The block is turned away before the queue is looked up: it was processed
/// already, or it comes from sync on standby and fills no gap.
pub open spec fn turned_away(s: CoordinatorState, b: QueuedBlock) -> bool {
    ||| b.global_exec_index < s.next_expected
    ||| {
        &&& b.source is Sync
        &&& s.sync_standby
        &&& !fills_gap(s, b.global_exec_index)
        &&& exists|k: u64| s.queue.contains_key(k)
    }
}

/// The block enters the queue.
pub open spec fn accepted(s: CoordinatorState, b: QueuedBlock) -> bool {
    &&& !turned_away(s, b)
    &&& s.queue.contains_key(b.global_exec_index) ==> b.source is Consensus
        && s.queue[b.global_exec_index].source is Sync
}

/// A counter one further; after its largest value it starts again at 0.
pub open spec fn counted(n: u64) -> u64 {
    if n == u64::MAX {
        0
    } else {
        (n + 1) as u64
    }
}

/// The counters after a push.
pub open spec fn stats_after_push(s: CoordinatorState, b: QueuedBlock) -> CoordinatorStats {
    if turned_away(s, b) {
        s.stats
    } else if s.queue.contains_key(b.global_exec_index) {
        CoordinatorStats {
            blocks_deduplicated: counted(s.stats.blocks_deduplicated),
            ..s.stats
        }
    } else if b.source is Consensus {
        CoordinatorStats {
            blocks_from_consensus: counted(s.stats.blocks_from_consensus),
            ..s.stats
        }
    } else {
        CoordinatorStats { blocks_from_sync: counted(s.stats.blocks_from_sync), ..s.stats }
    }
}

/// The state after a push.
pub open spec fn after_push(s: CoordinatorState, b: QueuedBlock) -> CoordinatorState {
    CoordinatorState {
        queue: if accepted(s, b) {
            s.queue.insert(b.global_exec_index, b)
        } else {
            s.queue
        },
        stats: stats_after_push(s, b),
        ..s
    }
}

/// How many indices from `next` on are in the queue one after the other, at
/// most `limit`.
pub open spec fn run_length(queue: Map<u64, QueuedBlock>, next: int, limit: nat) -> nat
    decreases limit,
{
    if limit == 0 || next > u64::MAX || !queue.contains_key(next as u64) {
        0
    } else {
        1 + run_length(queue, next + 1, (limit - 1) as nat)
    }
}

/// How many blocks one call takes at most.
pub open spec fn batch_limit(c: CoordinatorConfig) -> nat {
    if c.max_drain_batch == 0 {
        1
    } else {
        c.max_drain_batch as nat
    }
}

/// The queue holds no block that was processed already.
pub open spec fn no_stale_blocks(s: CoordinatorState) -> bool {
    forall|k: u64| #[trigger] s.queue.contains_key(k) ==> s.next_expected <= k
}

/// How many blocks are ready to leave the queue: those from the next index on,
/// one after the other.
pub open spec fn ready_count(s: CoordinatorState) -> nat {
    run_length(s.queue, s.next_expected as int, batch_limit(s.config))
}

/// The state after the ready blocks have left the queue. Blocks that were
/// processed already leave it too.
pub open spec fn after_drain(s: CoordinatorState) -> CoordinatorState {
    let n = ready_count(s);
    CoordinatorState {
        queue: entries_from(s.queue, s.next_expected + n),
        next_expected: (s.next_expected + n) as u64,
        ..s
    }
}

/// The gap to report: from the next block to the first one in the queue, if
/// it is longer than the threshold and there is someone to report it to.
pub open spec fn gap_to_report(s: CoordinatorState, gap: (u64, u64)) -> bool {
    &&& s.gap_fill
    &&& gap.0 == s.next_expected
    &&& crate::index_map::is_first(s.queue, gap.1)
    &&& gap.1 - gap.0 > s.config.gap_threshold
}

/// What a round of the drain loop found.
pub enum DrainStep {
    /// Blocks to send, in sequence.
    Send(Vec<QueuedBlock>),
    /// No block is ready; the gap that sync is asked to fill, if there is one.
    Idle(Option<(u64, u64)>),
}

proof fn lemma_run_bound(queue: Map<u64, QueuedBlock>, next: int, limit: nat)
    ensures
        run_length(queue, next, limit) <= limit,
        next <= u64::MAX + 1 ==> next + run_length(queue, next, limit) <= u64::MAX + 1,
        forall|i: int|
            #![trigger queue.contains_key((next + i) as u64)]
            0 <= next && 0 <= i < run_length(queue, next, limit) ==> next + i <= u64::MAX
                && queue.contains_key((next + i) as u64),
    decreases limit,
{
    if limit > 0 && next <= u64::MAX && queue.contains_key(next as u64) {
        lemma_run_bound(queue, next + 1, (limit - 1) as nat);
        assert forall|i: int|
            #![trigger queue.contains_key((next + i) as u64)]
            0 <= next && 0 <= i < run_length(queue, next, limit) implies next + i <= u64::MAX
            && queue.contains_key((next + i) as u64) by {
            if i > 0 {
                assert(queue.contains_key((next + 1 + (i - 1)) as u64));
            }
        }
    }
}

impl BlockCoordinator {
    /// The state.
    pub closed spec fn view(&self) -> CoordinatorState {
        CoordinatorState {
            queue: self.queue@,
            next_expected: self.next_expected,
            mode: self.mode,
            sync_standby: self.sync_standby,
            gap_fill: self.gap_fill,
            config: self.config,
            stats: self.stats,
        }
    }

    /// The queue is finite, and each block waits under its own index.
    pub open spec fn wf(&self) -> bool {
        keyed(self@.queue) && self@.queue.dom().finite()
    }

    /// A coordinator with an empty queue.
    pub fn new(initial_next_expected: u64, config: CoordinatorConfig) -> (c: Self)
        ensures
            c.wf(),
            c@ == (CoordinatorState {
                queue: Map::empty(),
                next_expected: initial_next_expected,
                mode: NodeMode::SyncOnly,
                sync_standby: false,
                gap_fill: false,
                config,
                stats: no_stats(),
            }),
    {
        BlockCoordinator {
            queue: no_entries(),
            next_expected: initial_next_expected,
            mode: NodeMode::SyncOnly,
            sync_standby: false,
            gap_fill: false,
            config,
            stats: CoordinatorStats::default(),
        }
    }

    /// Lets gaps be reported: [`BlockCoordinator::check_and_fill_gaps`] gives
    /// them from now on.
    pub fn with_gap_fill_channel(self) -> (c: Self)
        requires
            self.wf(),
        ensures
            c.wf(),
            c@ == (CoordinatorState { gap_fill: true, ..self@ }),
    {
        let mut c = self;
        c.gap_fill = true;
        c
    }

    /// Index of the next block to leave the queue.
    pub fn next_expected(&self) -> (n: u64)
        ensures
            n == self@.next_expected,
    {
        self.next_expected
    }

    /// Sets the index of the next block to leave the queue.
    pub fn set_next_expected(&mut self, value: u64)
        requires
            old(self).wf(),
        ensures
            final(self).wf(),
            final(self)@ == (CoordinatorState { next_expected: value, ..old(self)@ }),
    {
        self.next_expected = value;
    }

    /// Sets the node's mode.
    pub fn set_mode(&mut self, mode: NodeMode)
        requires
            old(self).wf(),
        ensures
            final(self).wf(),
            final(self)@ == (CoordinatorState { mode, ..old(self)@ }),
    {
        self.mode = mode;
    }

    /// Puts sync on standby: it then only fills gaps.
    pub fn set_sync_standby(&mut self, standby: bool)
        requires
            old(self).wf(),
        ensures
            final(self).wf(),
            final(self)@ == (CoordinatorState { sync_standby: standby, ..old(self)@ }),
    {
        self.sync_standby = standby;
    }

    /// Whether sync is on standby.
    pub fn is_sync_standby(&self) -> (b: bool)
        ensures
            b == self@.sync_standby,
    {
        self.sync_standby
    }

    /// Takes a block from either stream; says whether it entered the queue.
    pub fn push_block(&mut self, block: QueuedBlock) -> (r: bool)
        requires
            old(self).wf(),
        ensures
            final(self).wf(),
            r == accepted(old(self)@, block),
            final(self)@ == after_push(old(self)@, block),
    {
        let index: u64 = block.global_exec_index;
        let source = block.source;
        let ghost s = self@;
        if index < self.next_expected {
            return false;
        }
        if source == BlockSource::Sync && self.sync_standby {
            let standby_refuses: bool = match first_index(&self.queue) {
                Some(first) => {
                    assert(s.queue.contains_key(first));
                    !(first > self.next_expected && index < first)
                },
                None => false,
            };
            if standby_refuses {
                return false;
            }
        }
        let known: Option<BlockSource> = match entry(&self.queue, index) {
            Some(existing) => Some(existing.source),
            None => None,
        };
        match known {
            Some(existing) => {
                self.stats.blocks_deduplicated = self.stats.blocks_deduplicated.wrapping_add(1);
                if source == BlockSource::Consensus && existing == BlockSource::Sync {
                    put_entry(&mut self.queue, index, block);
                    true
                } else {
                    false
                }
            },
            None => {
                match source {
                    BlockSource::Consensus => {
                        self.stats.blocks_from_consensus = self.stats.blocks_from_consensus.wrapping_add(1);
                    },
                    BlockSource::Sync => {
                        self.stats.blocks_from_sync = self.stats.blocks_from_sync.wrapping_add(1);
                    },
                }
                put_entry(&mut self.queue, index, block);
                true
            },
        }
    }

    /// Takes the blocks that are ready out of the queue: those from the next
    /// index on, one after the other, up to the first gap.
    pub fn drain_ready(&mut self) -> (r: Vec<QueuedBlock>)
        requires
            old(self).wf(),
            old(self)@.next_expected + ready_count(old(self)@) <= u64::MAX,
        ensures
            final(self).wf(),
            final(self)@ == after_drain(old(self)@),
            r@.len() == ready_count(old(self)@),
            forall|i: int|
                0 <= i < r@.len() ==> #[trigger] r@[i] == old(self)@.queue[(old(
                    self,
                )@.next_expected + i) as u64] && r@[i].global_exec_index == old(self)@.next_expected
                    + i,
    {
        let ghost s = self@;
        let ghost q = s.queue;
        let ghost start = s.next_expected as int;
        let limit: usize = if self.config.max_drain_batch == 0 {
            1
        } else {
            self.config.max_drain_batch
        };
        let mut result: Vec<QueuedBlock> = Vec::new();
        let mut next: u64 = self.next_expected;
        let mut done: bool = false;
        retain_from(&mut self.queue, next);
        proof {
            lemma_run_bound(q, start, limit as nat);
        }
        while !done
            invariant
                self.next_expected == s.next_expected,
                self.mode == s.mode,
                self.sync_standby == s.sync_standby,
                self.gap_fill == s.gap_fill,
                self.config == s.config,
                self.stats == s.stats,
                start == s.next_expected,
                q == s.queue,
                limit == batch_limit(s.config),
                start + ready_count(s) <= u64::MAX,
                next == start + result@.len(),
                result@.len() <= ready_count(s),
                self.queue@ == entries_from(q, next as int),
                result@.len() <= limit,
                ready_count(s) - result@.len() == run_length(
                    q,
                    next as int,
                    (limit - result@.len()) as nat,
                ),
                result@.len() == limit ==> done,
                done ==> result@.len() == ready_count(s),
                forall|i: int|
                    0 <= i < result@.len() ==> #[trigger] result@[i] == q[(start + i) as u64],
            ensures
                done,
            decreases (if done { 0int } else { 1 + ready_count(s) - result@.len() }),
        {
            assert(entries_from(q, next as int).contains_key(next) == q.contains_key(next));
            match first_index(&self.queue) {
                None => {
                    done = true;
                },
                Some(idx) => {
                    if idx != next {
                        done = true;
                        assert(entries_from(q, next as int).contains_key(idx));
                    } else {
                        proof {
                            lemma_run_bound(q, next as int, (limit - result@.len()) as nat);
                        }
                        let ghost before = self.queue@;
                        match take_entry(&mut self.queue, idx) {
                            Some(block) => {
                                result.push(block);
                            },
                            None => {},
                        }
                        next = next + 1;
                        if result.len() >= limit {
                            done = true;
                        }
                        assert(before.remove(idx) =~= entries_from(q, next as int));
                    }
                },
            }
        }
        self.next_expected = next;
        proof {
            lemma_run_bound(q, start, limit as nat);
            assert forall|i: int| 0 <= i < result@.len() implies #[trigger] result@[i]
                == q[(start + i) as u64] && result@[i].global_exec_index == start + i by {
                assert(q.contains_key((start + i) as u64));
            }
        }
        result
    }

    /// The gap that sync is asked to fill, if there is one.
    pub fn check_and_fill_gaps(&mut self) -> (r: Option<(u64, u64)>)
        requires
            old(self).wf(),
        ensures
            final(self).wf(),
            match r {
                Some(gap) => gap_to_report(old(self)@, gap) && final(self)@ == (CoordinatorState {
                    stats: CoordinatorStats {
                        gaps_detected: counted(old(self)@.stats.gaps_detected),
                        ..old(self)@.stats
                    },
                    ..old(self)@
                }),
                None => (forall|gap: (u64, u64)| !gap_to_report(old(self)@, gap)) && final(self)@
                    == old(self)@,
            },
    {
        match first_index(&self.queue) {
            Some(first) => {
                if first > self.next_expected && first - self.next_expected
                    > self.config.gap_threshold && self.gap_fill {
                    self.stats.gaps_detected = self.stats.gaps_detected.wrapping_add(1);
                    return Some((self.next_expected, first));
                }
                assert forall|gap: (u64, u64)| !gap_to_report(old(self)@, gap) by {
                    if gap_to_report(old(self)@, gap) {
                        assert(gap.1 == first);
                    }
                }
                None
            },
            None => None,
        }
    }

    /// Follows the executor: the next block is the one after its last, and
    /// blocks before that are dropped.
    pub fn sync_with_go(&mut self, go_last_block: u64)
        requires
            old(self).wf(),
            go_last_block < u64::MAX,
        ensures
            final(self).wf(),
            final(self)@ == (if old(self)@.next_expected == go_last_block + 1 {
                old(self)@
            } else {
                CoordinatorState {
                    next_expected: (go_last_block + 1) as u64,
                    queue: entries_from(old(self)@.queue, go_last_block + 1),
                    ..old(self)@
                }
            }),
    {
        let expected: u64 = go_last_block + 1;
        if expected != self.next_expected {
            self.next_expected = expected;
            retain_from(&mut self.queue, expected);
        }
    }

    /// How many blocks wait in the queue.
    pub fn queue_size(&self) -> (n: usize)
        ensures
            n == self@.queue.len(),
    {
        entry_count(&self.queue)
    }

    /// The counters.
    pub fn get_stats(&self) -> (s: CoordinatorStats)
        ensures
            s == self@.stats,
    {
        self.stats
    }

    /// One round of the drain loop: the blocks that are ready or, if there are
    /// none, the gap to report.
    pub fn drain_step(&mut self) -> (r: DrainStep)
        requires
            old(self).wf(),
            old(self)@.next_expected + ready_count(old(self)@) <= u64::MAX,
        ensures
            final(self).wf(),
            match r {
                DrainStep::Send(blocks) => {
                    &&& ready_count(old(self)@) > 0
                    &&& final(self)@ == after_drain(old(self)@)
                    &&& blocks@.len() == ready_count(old(self)@)
                    &&& forall|i: int|
                        0 <= i < blocks@.len() ==> #[trigger] blocks@[i] == old(self)@.queue[(old(
                            self,
                        )@.next_expected + i) as u64]
                },
                DrainStep::Idle(Some(gap)) => {
                    &&& ready_count(old(self)@) == 0
                    &&& gap_to_report(after_drain(old(self)@), gap)
                    &&& final(self)@ == (CoordinatorState {
                        stats: CoordinatorStats {
                            gaps_detected: counted(old(self)@.stats.gaps_detected),
                            ..old(self)@.stats
                        },
                        ..after_drain(old(self)@)
                    })
                },
                DrainStep::Idle(None) => {
                    &&& ready_count(old(self)@) == 0
                    &&& forall|gap: (u64, u64)| !gap_to_report(after_drain(old(self)@), gap)
                    &&& final(self)@ == after_drain(old(self)@)
                },
            },
    {
        let blocks = self.drain_ready();
        if blocks.len() == 0 {
            DrainStep::Idle(self.check_and_fill_gaps())
        } else {
            DrainStep::Send(blocks)
        }
    }
}

/// A block from consensus wins: whichever of the two blocks of one index comes
/// first, the block from consensus is the one that waits in the queue, and the
/// queue has grown by this one block. The second push is taken exactly if it is
/// that of the block from consensus. Whatever happens from then on, the block
/// of this index that leaves the queue is the one from consensus.
pub proof fn law_consensus_wins(
    s: CoordinatorState,
    c: QueuedBlock,
    y: QueuedBlock,
    later: Seq<CoordinatorEvent>,
)
    requires
        keyed(s.queue),
        s.queue.dom().finite(),
        c.source is Consensus,
        y.source is Sync,
        c.global_exec_index == y.global_exec_index,
        s.next_expected <= c.global_exec_index,
        !s.queue.contains_key(c.global_exec_index),
    ensures
        after_push(after_push(s, y), c).queue == s.queue.insert(c.global_exec_index, c),
        after_push(after_push(s, c), y).queue == s.queue.insert(c.global_exec_index, c),
        after_push(after_push(s, y), c).queue.len() == s.queue.len() + 1,
        after_push(after_push(s, c), y).queue.len() == s.queue.len() + 1,
        accepted(after_push(s, y), c),
        !accepted(after_push(s, c), y),
        !s.sync_standby ==> accepted(s, y),
        accepted(s, c),
        forall|i: int|
            0 <= i < output(after_push(after_push(s, y), c), later).len() && (#[trigger] output(
                after_push(after_push(s, y), c),
                later,
            )[i]).global_exec_index == c.global_exec_index ==> output(
                after_push(after_push(s, y), c),
                later,
            )[i] == c,
        forall|i: int|
            0 <= i < output(after_push(after_push(s, c), y), later).len() && (#[trigger] output(
                after_push(after_push(s, c), y),
                later,
            )[i]).global_exec_index == c.global_exec_index ==> output(
                after_push(after_push(s, c), y),
                later,
            )[i] == c,
{
    assert(after_push(after_push(s, y), c).queue =~= s.queue.insert(c.global_exec_index, c));
    assert(after_push(after_push(s, c), y).queue =~= s.queue.insert(c.global_exec_index, c));
    law_consensus_block_leaves(after_push(after_push(s, y), c), later, c.global_exec_index);
    law_consensus_block_leaves(after_push(after_push(s, c), y), later, c.global_exec_index);
}

/// A block that has left the queue is not taken again.
pub proof fn law_no_block_twice(s: CoordinatorState, b: QueuedBlock)
    requires
        s.next_expected <= b.global_exec_index < s.next_expected + ready_count(s),
        s.next_expected + ready_count(s) <= u64::MAX,
    ensures
        !accepted(after_drain(s), b),
        after_push(after_drain(s), b) == after_drain(s),
{
}

/// Pushing, draining and following the executor leave no processed block in
/// the queue.
pub proof fn law_queue_stays_clean(s: CoordinatorState, b: QueuedBlock, go_last_block: u64)
    requires
        no_stale_blocks(s),
        s.next_expected + ready_count(s) <= u64::MAX,
        go_last_block < u64::MAX,
    ensures
        no_stale_blocks(after_push(s, b)),
        no_stale_blocks(after_drain(s)),
        no_stale_blocks(
            CoordinatorState {
                next_expected: (go_last_block + 1) as u64,
                queue: entries_from(s.queue, go_last_block + 1),
                ..s
            },
        ),
{
}

/// Draining stops only at a gap or at the batch limit: after it the next block
/// is not in the queue, unless a full batch was taken.
pub proof fn law_drain_stops_at_gap(s: CoordinatorState)
    requires
        s.next_expected + ready_count(s) <= u64::MAX,
    ensures
        ready_count(s) == batch_limit(s.config) || !after_drain(s).queue.contains_key(
            after_drain(s).next_expected,
        ),
{
    lemma_run_stops(s.queue, s.next_expected as int, batch_limit(s.config));
}

proof fn lemma_run_stops(queue: Map<u64, QueuedBlock>, next: int, limit: nat)
    requires
        0 <= next,
    ensures
        run_length(queue, next, limit) == limit || next + run_length(queue, next, limit) > u64::MAX
            || !queue.contains_key((next + run_length(queue, next, limit)) as u64),
    decreases limit,
{
    if limit > 0 && next <= u64::MAX && queue.contains_key(next as u64) {
        lemma_run_stops(queue, next + 1, (limit - 1) as nat);
    }
}

/// Something that happens to a coordinator.
pub enum CoordinatorEvent {
    /// A block comes from either stream.
    Push(QueuedBlock),
    /// The ready blocks leave the queue.
    Drain,
}

/// The indices do not run out.
pub open spec fn can_drain(s: CoordinatorState) -> bool {
    s.next_expected + ready_count(s) <= u64::MAX
}

/// The state after an event.
pub open spec fn after_event(s: CoordinatorState, e: CoordinatorEvent) -> CoordinatorState {
    match e {
        CoordinatorEvent::Push(b) => after_push(s, b),
        CoordinatorEvent::Drain => if can_drain(s) {
            after_drain(s)
        } else {
            s
        },
    }
}

/// The blocks that leave the queue at an event.
pub open spec fn output_of(s: CoordinatorState, e: CoordinatorEvent) -> Seq<QueuedBlock> {
    if e is Drain && can_drain(s) {
        Seq::new(ready_count(s), |i: int| s.queue[(s.next_expected + i) as u64])
    } else {
        Seq::empty()
    }
}

/// The state after events one after the other.
pub open spec fn after_events(s: CoordinatorState, events: Seq<CoordinatorEvent>) -> CoordinatorState
    decreases events.len(),
{
    if events.len() == 0 {
        s
    } else {
        after_event(after_events(s, events.drop_last()), events.last())
    }
}

/// All blocks that leave the queue during the events, in order.
pub open spec fn output(s: CoordinatorState, events: Seq<CoordinatorEvent>) -> Seq<QueuedBlock>
    decreases events.len(),
{
    if events.len() == 0 {
        Seq::empty()
    } else {
        output(s, events.drop_last()) + output_of(
            after_events(s, events.drop_last()),
            events.last(),
        )
    }
}

/// In whatever order blocks come, from whichever stream and however often, they
/// leave in sequence: each index once, and none left out.
pub proof fn law_output_in_sequence(s: CoordinatorState, events: Seq<CoordinatorEvent>)
    requires
        keyed(s.queue),
    ensures
        keyed(after_events(s, events).queue),
        after_events(s, events).next_expected == s.next_expected + output(s, events).len(),
        forall|i: int|
            0 <= i < output(s, events).len() ==> (#[trigger] output(s, events)[i]).global_exec_index
                == s.next_expected + i,
    decreases events.len(),
{
    if events.len() > 0 {
        let front = events.drop_last();
        law_output_in_sequence(s, front);
        let mid = after_events(s, front);
        let before = output(s, front);
        let now = output_of(mid, events.last());
        let all = output(s, events);
        lemma_run_bound(mid.queue, mid.next_expected as int, batch_limit(mid.config));
        assert forall|i: int| 0 <= i < all.len() implies (#[trigger] all[i]).global_exec_index
            == s.next_expected + i by {
            if i < before.len() {
                assert(all[i] == before[i]);
            } else {
                let j = i - before.len();
                assert(all[i] == now[j]);
                assert(mid.queue.contains_key((mid.next_expected + j) as u64));
            }
        }
    }
}

/// A block from consensus that waits for its turn is never replaced or dropped:
/// after any event it still waits, or it has just left the queue in its place.
pub proof fn law_consensus_block_stays(s: CoordinatorState, e: CoordinatorEvent, k: u64)
    requires
        s.queue.contains_key(k),
        s.next_expected <= k,
        s.queue[k].source is Consensus,
    ensures
        ({
            let t = after_event(s, e);
            ||| t.queue.contains_key(k) && t.queue[k] == s.queue[k]
            ||| s.next_expected <= k < t.next_expected && output_of(s, e)[k - s.next_expected]
                == s.queue[k]
        }),
{
}

/// Whatever happens to a coordinator, a block from consensus that waits for its
/// turn is the only one of its index that leaves the queue.
pub proof fn law_consensus_block_leaves(
    s: CoordinatorState,
    events: Seq<CoordinatorEvent>,
    k: u64,
)
    requires
        keyed(s.queue),
        s.queue.contains_key(k),
        s.next_expected <= k,
        s.queue[k].source is Consensus,
    ensures
        ({
            let t = after_events(s, events);
            ||| t.next_expected <= k && t.queue.contains_key(k) && t.queue[k] == s.queue[k]
            ||| k < t.next_expected && output(s, events)[k - s.next_expected] == s.queue[k]
        }),
        forall|i: int|
            0 <= i < output(s, events).len() && (#[trigger] output(s, events)[i]).global_exec_index
                == k ==> output(s, events)[i] == s.queue[k],
    decreases events.len(),
{
    law_output_in_sequence(s, events);
    if events.len() > 0 {
        let front = events.drop_last();
        law_consensus_block_leaves(s, front, k);
        law_output_in_sequence(s, front);
        let mid = after_events(s, front);
        let before = output(s, front);
        let now = output_of(mid, events.last());
        if mid.next_expected <= k {
            law_consensus_block_stays(mid, events.last(), k);
            let t = after_events(s, events);
            if k < t.next_expected {
                assert(now[k - mid.next_expected] == s.queue[k]);
                assert(output(s, events)[k - s.next_expected] == now[k - mid.next_expected]);
            }
        } else {
            assert(output(s, events)[k - s.next_expected] == before[k - s.next_expected]);
        }
    }
}

/// A block that was processed is not taken. Any other one from consensus is taken
/// unless one from consensus waits under its index. One from sync is taken if
/// none waits under its index and, on standby, only into an empty queue or before
/// everything that waits, where the queue does not begin with the next block.
pub proof fn law_who_is_taken(s: CoordinatorState, b: QueuedBlock)
    ensures
        ({
            let i = b.global_exec_index;
            let waits = s.queue.contains_key(i);
            let empty = forall|k: u64| !s.queue.contains_key(k);
            let before_all = forall|k: u64| #[trigger]
                s.queue.contains_key(k) ==> k > i && k > s.next_expected;
            &&& i < s.next_expected ==> !accepted(s, b)
            &&& i >= s.next_expected && b.source is Consensus ==> (accepted(s, b) <==> !waits
                || s.queue[i].source is Sync)
            &&& i >= s.next_expected && b.source is Sync && !s.sync_standby ==> (accepted(s, b)
                <==> !waits)
            &&& i >= s.next_expected && b.source is Sync && s.sync_standby ==> (accepted(s, b)
                <==> empty || before_all)
        }),
{
}

/// A block that is taken waits under its index; nothing else in the queue
/// changes, and one that is not taken changes nothing but a counter.
pub proof fn law_push_changes_one(s: CoordinatorState, b: QueuedBlock)
    ensures
        ({
            let t = after_push(s, b);
            let i = b.global_exec_index;
            &&& accepted(s, b) ==> t.queue.contains_key(i) && t.queue[i] == b
            &&& !accepted(s, b) ==> t.queue == s.queue
            &&& forall|k: u64|
                k != i ==> (#[trigger] t.queue.contains_key(k) <==> s.queue.contains_key(k))
            &&& forall|k: u64|
                k != i && s.queue.contains_key(k) ==> #[trigger] t.queue[k] == s.queue[k]
            &&& t.next_expected == s.next_expected && t.mode == s.mode && t.sync_standby
                == s.sync_standby && t.gap_fill == s.gap_fill && t.config == s.config
        }),
{
}

/// What comes is counted by where it comes from, and a second block of an index
/// as a repeated one; exactly one counter goes up, unless the block is turned
/// away before the queue is looked at.
pub proof fn law_push_is_counted(s: CoordinatorState, b: QueuedBlock)
    requires
        s.stats.blocks_from_consensus < u64::MAX,
        s.stats.blocks_from_sync < u64::MAX,
        s.stats.blocks_deduplicated < u64::MAX,
        !s.sync_standby,
    ensures
        ({
            let t = after_push(s, b).stats;
            let old_block = b.global_exec_index < s.next_expected;
            let known = s.queue.contains_key(b.global_exec_index);
            &&& old_block ==> t == s.stats
            &&& !old_block && known ==> t == (CoordinatorStats {
                blocks_deduplicated: (s.stats.blocks_deduplicated + 1) as u64,
                ..s.stats
            })
            &&& !old_block && !known && b.source is Consensus ==> t == (CoordinatorStats {
                blocks_from_consensus: (s.stats.blocks_from_consensus + 1) as u64,
                ..s.stats
            })
            &&& !old_block && !known && b.source is Sync ==> t == (CoordinatorStats {
                blocks_from_sync: (s.stats.blocks_from_sync + 1) as u64,
                ..s.stats
            })
        }),
{
}

/// Blocks that wait one after the other from the next index on are ready, up to
/// the batch limit; what waits behind them stays as it is.
pub proof fn law_whole_run_is_ready(s: CoordinatorState, n: nat)
    requires
        s.next_expected + n <= u64::MAX,
        n <= s.config.max_drain_batch,
        forall|i: int|
            0 <= i < n ==> #[trigger] s.queue.contains_key((s.next_expected + i) as u64),
    ensures
        n <= ready_count(s),
        s.config.max_drain_batch > 0 ==> ready_count(s) <= s.config.max_drain_batch,
        s.next_expected + ready_count(s) <= u64::MAX ==> {
            let t = after_drain(s);
            &&& t.next_expected == s.next_expected + ready_count(s)
            &&& forall|k: u64|
                k >= t.next_expected && s.queue.contains_key(k)
                    ==> #[trigger] t.queue.contains_key(k) && t.queue[k] == s.queue[k]
            &&& forall|k: u64| #[trigger]
                t.queue.contains_key(k) ==> k >= t.next_expected && s.queue.contains_key(k)
            &&& t.stats == s.stats && t.config == s.config && t.sync_standby == s.sync_standby
        },
{
    lemma_run_reaches(s.queue, s.next_expected as int, n, batch_limit(s.config));
    lemma_run_bound(s.queue, s.next_expected as int, batch_limit(s.config));
}

proof fn lemma_run_reaches(queue: Map<u64, QueuedBlock>, next: int, n: nat, limit: nat)
    requires
        0 <= next,
        next + n <= u64::MAX,
        n <= limit,
        forall|i: int| 0 <= i < n ==> #[trigger] queue.contains_key((next + i) as u64),
    ensures
        run_length(queue, next, limit) >= n,
    decreases n,
{
    if n > 0 {
        assert(queue.contains_key((next + 0) as u64));
        assert forall|i: int| 0 <= i < n - 1 implies #[trigger] queue.contains_key(
            (next + 1 + i) as u64,
        ) by {
            assert(queue.contains_key((next + (i + 1)) as u64));
        }
        lemma_run_reaches(queue, next + 1, (n - 1) as nat, (limit - 1) as nat);
    }
}

/// A gap is reported from the next index to the first block that waits, exactly
/// if it is longer than the threshold and there is someone to report it to.
pub proof fn law_gap_is_reported(s: CoordinatorState, first: u64)
    requires
        s.queue.contains_key(first),
        forall|k: u64| #[trigger] s.queue.contains_key(k) ==> first <= k,
    ensures
        s.gap_fill && first > s.next_expected + s.config.gap_threshold ==> gap_to_report(
            s,
            (s.next_expected, first),
        ),
        forall|gap: (u64, u64)| #[trigger]
            gap_to_report(s, gap) ==> s.gap_fill && gap.0 == s.next_expected && gap.1 == first
                && first > s.next_expected + s.config.gap_threshold,
{
    assert forall|gap: (u64, u64)| #[trigger] gap_to_report(s, gap) implies s.gap_fill && gap.0
        == s.next_expected && gap.1 == first && first > s.next_expected
        + s.config.gap_threshold by {
        assert(s.queue.contains_key(gap.1));
    }
}

} // verus!
