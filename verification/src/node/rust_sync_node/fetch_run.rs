//! One fetch: from asking peers for commits to commits in the queue.
use crate::node::committee::Committee;
use crate::node::rust_sync_node::block_queue::{
    after_pushes, law_pushed_commits_wait, BlockQueue, QueueState,
};
use crate::node::rust_sync_node::commit::{
    collect_block_refs, keep_readable, readable, ref_values, refs_to_fetch, BlockRef, Commit,
    CommitData, VerifiedBlock,
};
use crate::node::rust_sync_node::fetch::{
    all_asked, commit_items, is_item, is_peer_of, key_bytes, law_first_commit_decides, local_index,
    others, outcome_of, peers_of, plan_fetch, push_all, queue_commits, FetchPlan, HedgeState,
    HedgeStep, HedgedFetch,
    QueueOutcome,
};
use vstd::prelude::*;

verus! {

/// What has to be done next.
#[allow(inconsistent_fields)]
pub enum FetchAction {
    /// Ask these peers for commits of the epoch; the first answer counts.
    AskCommits { peers: Vec<u32>, start: u32, end: u32 },
    /// Wait for the peers that were asked.
    Wait,
    /// Ask a peer for blocks.
    AskBlocks { peer: u32, refs: Vec<BlockRef> },
    /// Ask a peer for commits by global index.
    AskGlobal { peer: u32, start: u64, end: u64 },
    /// So many commits were handed to the queue.
    Done { pushed: usize },
}

/// A commit as a peer sends it by global index: its epoch, and the commit if
/// it can be read.
pub struct GlobalCommit {
    pub epoch: u64,
    pub commit: Option<Commit>,
}

/// A range of global indices.
#[derive(Clone, Copy, Debug, PartialEq, Eq, Structural)]
pub struct GlobalRange {
    pub start: u64,
    pub end: u64,
}

/// A range of indices in the epoch.
#[derive(Clone, Copy, Debug, PartialEq, Eq, Structural)]
pub struct LocalRange {
    pub start: u32,
    pub end: u32,
}

/// A fetch that is under way.
pub struct FetchRun {
    pub current_epoch: u64,
    /// The number of members of the committee.
    pub members: u32,
    /// The range to ask for by global index if nobody has the commits.
    pub fallback: GlobalRange,
    /// The range that the peers race for.
    pub local: LocalRange,
    /// The race between the peers, while it lasts.
    pub race: Option<HedgedFetch>,
    /// The range that is asked for by global index, and the peer whose turn it
    /// is.
    pub global: Option<GlobalRange>,
    pub global_peer: u32,
    /// The commits that were received, and the epoch of each.
    pub commits: Vec<Commit>,
    pub epochs: Vec<u64>,
}

/// The members are asked one after the other; after the last one the fetch
/// ends.
pub open spec fn global_action(members: u32, peer: int, r: GlobalRange) -> FetchAction {
    if peer < members {
        FetchAction::AskGlobal { peer: peer as u32, start: r.start, end: r.end }
    } else {
        FetchAction::Done { pushed: 0 }
    }
}

/// The commits of an answer that can be read, with their epochs.
pub open spec fn global_readable(v: Seq<GlobalCommit>) -> Seq<(Commit, u64)>
    decreases v.len(),
{
    if v.len() == 0 {
        Seq::empty()
    } else {
        match v.last().commit {
            Some(c) => global_readable(v.drop_last()).push((c, v.last().epoch)),
            None => global_readable(v.drop_last()),
        }
    }
}

/// `items` are the commits with those of their blocks that were received.
pub open spec fn are_items(
    items: Seq<CommitData>,
    commits: Seq<Commit>,
    epochs: Seq<u64>,
    blocks: Seq<VerifiedBlock>,
) -> bool {
    items.len() == commits.len() && forall|i: int|
        0 <= i < items.len() ==> is_item(#[trigger] items[i], commits[i], blocks, epochs[i])
}

/// No commits are left in the run; all else is as it was.
pub open spec fn handed_over(run: FetchRun, run2: FetchRun) -> bool {
    &&& run2 == (FetchRun { commits: run2.commits, epochs: run2.epochs, ..run })
    &&& run2.commits@.len() == 0
    &&& run2.epochs@.len() == 0
}

/// What comes of the commits of an epoch once their blocks are there: they are
/// queued, or the range that is missing before them is asked for by global
/// index, from the first member on.
pub open spec fn local_end(
    run: FetchRun,
    q: QueueState,
    items: Seq<CommitData>,
    run2: FetchRun,
    q2: QueueState,
    a: FetchAction,
) -> bool {
    match outcome_of(q.next_expected, items) {
        QueueOutcome::Pushed(n) => {
            &&& handed_over(run, run2)
            &&& q2 == after_pushes(q, items)
            &&& a == (FetchAction::Done { pushed: n })
        },
        QueueOutcome::EpochMismatch => {
            &&& handed_over(run, run2)
            &&& q2 == q
            &&& a == (FetchAction::Done { pushed: 0 })
        },
        QueueOutcome::Gap { start, end } => {
            let missing = GlobalRange { start, end };
            &&& handed_over(
                FetchRun { race: None, global: Some(missing), global_peer: 0, ..run },
                run2,
            )
            &&& q2 == q
            &&& a == global_action(run.members, 0, missing)
        },
    }
}

/// What comes of commits by global index once their blocks are there.
pub open spec fn global_end(
    run: FetchRun,
    q: QueueState,
    items: Seq<CommitData>,
    run2: FetchRun,
    q2: QueueState,
    a: FetchAction,
) -> bool {
    &&& handed_over(run, run2)
    &&& q2 == after_pushes(q, items)
    &&& a == (FetchAction::Done { pushed: items.len() as usize })
}

/// Commits are queued with those of their blocks that are among `blocks`:
/// `run2` and `q2` are what comes of it, `a` is what to do.
pub open spec fn finishes(
    run: FetchRun,
    commits: Seq<Commit>,
    epochs: Seq<u64>,
    q: QueueState,
    blocks: Seq<VerifiedBlock>,
    run2: FetchRun,
    q2: QueueState,
    a: FetchAction,
) -> bool {
    exists|items: Seq<CommitData>|
        #![trigger are_items(items, commits, epochs, blocks)]
        are_items(items, commits, epochs, blocks) && if run.global is Some {
            global_end(run, q, items, run2, q2, a)
        } else {
            local_end(run, q, items, run2, q2, a)
        }
}

/// Commits have come from a peer: their blocks are asked for or, where they have
/// none, the commits are queued at once.
pub open spec fn took_commits(
    run: FetchRun,
    commits: Seq<Commit>,
    epochs: Seq<u64>,
    peer: u32,
    q: QueueState,
    run2: FetchRun,
    q2: QueueState,
    a: FetchAction,
) -> bool {
    if refs_to_fetch(commits).len() > 0 {
        &&& a matches FetchAction::AskBlocks { peer: p, refs } && p == peer && ref_values(refs@)
            == refs_to_fetch(commits)
        &&& run2 == (FetchRun { commits: run2.commits, epochs: run2.epochs, ..run })
        &&& run2.commits@ == commits
        &&& run2.epochs@ == epochs
        &&& q2 == q
    } else {
        finishes(run, commits, epochs, q, Seq::empty(), run2, q2, a)
    }
}

/// A peer failed in the race: the other peers are asked, unless they were; after
/// the last one the range is asked for by global index.
pub open spec fn peer_failed(run: FetchRun, run2: FetchRun, a: FetchAction) -> bool {
    let h = run.race->Some_0@;
    let s = HedgeState { in_flight: (h.in_flight - 1) as nat, failed: h.failed + 1, ..h };
    let joined = if h.hedged {
        s
    } else {
        all_asked(s)
    };
    if joined.in_flight == 0 {
        &&& joined.failed == 1 + others(h.peers, h.primary).len()
        &&& a == global_action(run.members, 0, run.fallback)
        &&& run2 == (FetchRun {
            race: None,
            global: Some(run.fallback),
            global_peer: 0,
            ..run
        })
    } else {
        &&& run2.race is Some
        &&& run2.race->Some_0@ == joined
        &&& run2 == (FetchRun { race: run2.race, ..run })
        &&& if h.hedged {
            a is Wait
        } else {
            a matches FetchAction::AskCommits { peers, start, end } && peers@ == others(
                h.peers,
                h.primary,
            ) && start == run.local.start && end == run.local.end
        }
    }
}

/// The commits of an answer by global index that can be read.
pub open spec fn global_commits(v: Seq<GlobalCommit>) -> Seq<Commit> {
    global_readable(v).map_values(|p: (Commit, u64)| p.0)
}

/// The epochs of those commits.
pub open spec fn global_epochs(v: Seq<GlobalCommit>) -> Seq<u64> {
    global_readable(v).map_values(|p: (Commit, u64)| p.1)
}

impl FetchRun {
    /// Each commit has an epoch; the race is in order.
    pub open spec fn wf(&self) -> bool {
        &&& self.commits@.len() == self.epochs@.len()
        &&& self.race matches Some(h) ==> h.wf()
    }

    /// Asks the first member for a range by global index.
    fn begin_global(&mut self, r: GlobalRange) -> (a: FetchAction)
        requires
            old(self).wf(),
        ensures
            final(self).wf(),
            a == global_action(old(self).members, 0, r),
            *final(self) == (FetchRun {
                race: None,
                global: Some(r),
                global_peer: 0,
                ..*old(self)
            }),
    {
        self.race = None;
        self.global = Some(r);
        self.global_peer = 0;
        if self.members > 0 {
            FetchAction::AskGlobal { peer: 0, start: r.start, end: r.end }
        } else {
            FetchAction::Done { pushed: 0 }
        }
    }

    /// Starts a fetch of the commits after `from_global`. Where they have an
    /// index in the epoch, the peers race for them; otherwise they are asked
    /// for by global index.
    pub fn start(
        committee: &Committee,
        own_network_key: Option<&[u8]>,
        from_global: u32,
        current_epoch: u64,
        epoch_base: u64,
        batch_size: u32,
    ) -> (r: (FetchRun, FetchAction))
        requires
            committee.authorities@.len() <= u32::MAX,
            from_global < u32::MAX,
            from_global + batch_size <= u32::MAX,
        ensures
            r.0.wf(),
            r.0.current_epoch == current_epoch,
            r.0.members == committee.authorities@.len(),
            r.0.fallback == (GlobalRange {
                start: from_global as u64,
                end: (from_global + batch_size) as u64,
            }),
            r.0.commits@.len() == 0,
            r.0.epochs@.len() == 0,
            r.0.global_peer == 0,
            match local_index(from_global, current_epoch, epoch_base) {
                None => {
                    &&& r.0.race is None
                    &&& r.0.local == (LocalRange { start: 0, end: 0 })
                    &&& r.0.global == Some(r.0.fallback)
                    &&& r.1 == global_action(r.0.members, 0, r.0.fallback)
                },
                Some(i) => {
                    &&& r.0.global is None
                    &&& match r.0.race {
                        Some(h) => {
                            &&& h@.primary == h@.peers[(i + 1) % h@.peers.len() as int]
                            &&& !h@.hedged
                            &&& h@.in_flight == 1 && h@.failed == 0
                            &&& forall|i: int, j: int|
                                0 <= i < j < h@.peers.len() ==> h@.peers[i] < h@.peers[j]
                            &&& forall|p: u32| #[trigger]
                                h@.peers.contains(p) <==> is_peer_of(
                                    *committee,
                                    key_bytes(own_network_key),
                                    p as int,
                                )
                            &&& r.1 matches FetchAction::AskCommits { peers, start, end }
                                && peers@ == seq![h@.primary] && start == i + 1 && end == i
                                + batch_size && r.0.local == (LocalRange { start, end })
                        },
                        None => {
                            &&& r.0.local == (LocalRange { start: 0, end: 0 })
                            &&& forall|p: int|
                                !#[trigger] is_peer_of(
                                    *committee,
                                    key_bytes(own_network_key),
                                    p,
                                )
                            &&& r.1 == (FetchAction::Done { pushed: 0 })
                        },
                    }
                },
            },
    {
        let fallback = GlobalRange {
            start: from_global as u64,
            end: (from_global + batch_size) as u64,
        };
        let mut run = FetchRun {
            current_epoch,
            members: committee.authorities.len() as u32,
            fallback,
            local: LocalRange { start: 0, end: 0 },
            race: None,
            global: None,
            global_peer: 0,
            commits: Vec::new(),
            epochs: Vec::new(),
        };
        match plan_fetch(from_global, current_epoch, epoch_base, batch_size) {
            FetchPlan::Global { .. } => {
                let a = run.begin_global(fallback);
                (run, a)
            },
            FetchPlan::Local { start, end } => {
                let peers = peers_of(committee, own_network_key);
                let ghost all = peers@;
                match HedgedFetch::new(peers, start) {
                    Some(h) => {
                        let primary: u32 = h.primary_peer();
                        let mut ask: Vec<u32> = Vec::new();
                        ask.push(primary);
                        assert(ask@ =~= seq![primary]);
                        run.race = Some(h);
                        run.local = LocalRange { start, end };
                        (run, FetchAction::AskCommits { peers: ask, start, end })
                    },
                    None => {
                        proof {
                            let own = key_bytes(own_network_key);
                            assert forall|p: int| !is_peer_of(*committee, own, p) by {
                                if is_peer_of(*committee, own, p) {
                                    assert(all.contains(p as u32));
                                }
                            }
                        }
                        (run, FetchAction::Done { pushed: 0 })
                    },
                }
            },
        }
    }

    /// The primary peer took too long: the peers to ask now.
    pub fn on_timer(&mut self) -> (ask: Vec<u32>)
        requires
            old(self).wf(),
        ensures
            final(self).wf(),
            *final(self) == (FetchRun { race: final(self).race, ..*old(self) }),
            match old(self).race {
                Some(h) => {
                    &&& final(self).race is Some
                    &&& final(self).race->Some_0@ == if h@.hedged {
                        h@
                    } else {
                        all_asked(h@)
                    }
                    &&& ask@ == if h@.hedged {
                        Seq::<u32>::empty()
                    } else {
                        others(h@.peers, h@.primary)
                    }
                },
                None => ask@.len() == 0 && final(self).race is None,
            },
    {
        let mut race: Option<HedgedFetch> = None;
        std::mem::swap(&mut race, &mut self.race);
        match race {
            Some(h) => {
                let mut h = h;
                let ask = h.on_timer();
                self.race = Some(h);
                ask
            },
            None => Vec::new(),
        }
    }

    /// A peer failed in the race, see [`peer_failed`].
    pub fn on_peer_failed(&mut self) -> (a: FetchAction)
        requires
            old(self).wf(),
            old(self).race matches Some(h) && h@.in_flight > 0,
        ensures
            final(self).wf(),
            peer_failed(*old(self), *final(self), a),
    {
        let mut race: Option<HedgedFetch> = None;
        std::mem::swap(&mut race, &mut self.race);
        match race {
            Some(h) => {
                let mut h = h;
                match h.on_failure() {
                    HedgeStep::Ask(peers) => {
                        self.race = Some(h);
                        FetchAction::AskCommits {
                            peers,
                            start: self.local.start,
                            end: self.local.end,
                        }
                    },
                    HedgeStep::Wait => {
                        self.race = Some(h);
                        FetchAction::Wait
                    },
                    HedgeStep::GiveUp => self.begin_global(self.fallback),
                }
            },
            None => FetchAction::Wait,
        }
    }

    /// Asks for the blocks of the commits, or goes on at once if they have
    /// none.
    fn ask_blocks(&mut self, queue: &mut BlockQueue, peer: u32) -> (a: FetchAction)
        requires
            old(self).wf(),
            old(queue).wf(),
        ensures
            final(self).wf(),
            final(queue).wf(),
            took_commits(
                *old(self),
                old(self).commits@,
                old(self).epochs@,
                peer,
                old(queue)@,
                *final(self),
                final(queue)@,
                a,
            ),
    {
        let refs = collect_block_refs(&self.commits);
        assert(ref_values(refs@).len() == refs@.len());
        if refs.len() > 0 {
            FetchAction::AskBlocks { peer, refs }
        } else {
            let none: Vec<VerifiedBlock> = Vec::new();
            assert(none@ =~= Seq::<VerifiedBlock>::empty());
            self.finish(queue, &none)
        }
    }

    /// Queues the commits with the blocks that were received.
    fn finish(&mut self, queue: &mut BlockQueue, blocks: &Vec<VerifiedBlock>) -> (a: FetchAction)
        requires
            old(self).wf(),
            old(queue).wf(),
        ensures
            final(self).wf(),
            final(queue).wf(),
            finishes(
                *old(self),
                old(self).commits@,
                old(self).epochs@,
                old(queue)@,
                blocks@,
                *final(self),
                final(queue)@,
                a,
            ),
    {
        let ghost before = *self;
        let ghost q = queue@;
        let mut commits: Vec<Commit> = Vec::new();
        let mut epochs: Vec<u64> = Vec::new();
        std::mem::swap(&mut commits, &mut self.commits);
        std::mem::swap(&mut epochs, &mut self.epochs);
        let items = commit_items(commits, &epochs, blocks);
        let ghost items_seq = items@;
        assert(are_items(items_seq, before.commits@, before.epochs@, blocks@));
        match self.global {
            Some(_) => {
                let pushed: usize = push_all(queue, items);
                let a = FetchAction::Done { pushed };
                assert(global_end(before, q, items_seq, *self, queue@, a));
                a
            },
            None => match queue_commits(queue, items) {
                QueueOutcome::Pushed(pushed) => {
                    let a = FetchAction::Done { pushed };
                    assert(local_end(before, q, items_seq, *self, queue@, a));
                    a
                },
                QueueOutcome::EpochMismatch => {
                    let a = FetchAction::Done { pushed: 0 };
                    assert(local_end(before, q, items_seq, *self, queue@, a));
                    a
                },
                QueueOutcome::Gap { start, end } => {
                    let a = self.begin_global(GlobalRange { start, end });
                    assert(local_end(before, q, items_seq, *self, queue@, a));
                    a
                },
            },
        }
    }

    /// A peer has sent commits of the epoch: the race is over. A peer that has
    /// none has failed.
    pub fn on_commits(&mut self, queue: &mut BlockQueue, peer: u32, answers: Vec<Option<Commit>>)
        -> (a: FetchAction)
        requires
            old(self).wf(),
            old(queue).wf(),
            old(self).global is None,
            answers@.len() == 0 ==> (old(self).race matches Some(h) && h@.in_flight > 0),
        ensures
            final(self).wf(),
            final(queue).wf(),
            if answers@.len() == 0 {
                peer_failed(*old(self), *final(self), a) && final(queue)@ == old(queue)@
            } else {
                took_commits(
                    FetchRun { race: None, ..*old(self) },
                    readable(answers@),
                    Seq::new(readable(answers@).len(), |i: int| old(self).current_epoch),
                    peer,
                    old(queue)@,
                    *final(self),
                    final(queue)@,
                    a,
                )
            },
    {
        if answers.len() == 0 {
            return self.on_peer_failed();
        }
        self.race = None;
        self.commits = keep_readable(answers);
        let n: usize = self.commits.len();
        let mut epochs: Vec<u64> = Vec::new();
        let mut i: usize = 0;
        while i < n
            invariant
                i <= n,
                epochs@ == Seq::new(i as nat, |j: int| self.current_epoch),
            decreases n - i,
        {
            epochs.push(self.current_epoch);
            i += 1;
            assert(epochs@ =~= Seq::new(i as nat, |j: int| self.current_epoch));
        }
        self.epochs = epochs;
        assert(self.epochs@ =~= Seq::new(
            readable(answers@).len(),
            |i: int| old(self).current_epoch,
        ));
        self.ask_blocks(queue, peer)
    }

    /// The blocks that were asked for have come, or not. Those that cannot be
    /// read are left out.
    pub fn on_blocks(&mut self, queue: &mut BlockQueue, blocks: Option<Vec<Option<VerifiedBlock>>>)
        -> (a: FetchAction)
        requires
            old(self).wf(),
            old(queue).wf(),
        ensures
            final(self).wf(),
            final(queue).wf(),
            finishes(
                *old(self),
                old(self).commits@,
                old(self).epochs@,
                old(queue)@,
                match blocks {
                    Some(b) => readable(b@),
                    None => Seq::empty(),
                },
                *final(self),
                final(queue)@,
                a,
            ),
    {
        match blocks {
            Some(b) => {
                let read = keep_readable(b);
                self.finish(queue, &read)
            },
            None => {
                let none: Vec<VerifiedBlock> = Vec::new();
                assert(none@ =~= Seq::<VerifiedBlock>::empty());
                self.finish(queue, &none)
            },
        }
    }

    /// The member whose turn it was has answered with commits by global
    /// index, or not. Without commits the next member is asked.
    pub fn on_global(&mut self, queue: &mut BlockQueue, answer: Option<Vec<GlobalCommit>>) -> (a:
        FetchAction)
        requires
            old(self).wf(),
            old(queue).wf(),
            old(self).global is Some,
            old(self).global_peer < old(self).members,
        ensures
            final(self).wf(),
            final(queue).wf(),
            if answer is None || answer->Some_0@.len() == 0 {
                &&& a == global_action(
                    old(self).members,
                    old(self).global_peer + 1,
                    old(self).global->Some_0,
                )
                &&& final(queue)@ == old(queue)@
                &&& *final(self) == (FetchRun {
                    global_peer: (old(self).global_peer + 1) as u32,
                    ..*old(self)
                })
            } else {
                took_commits(
                    *old(self),
                    global_commits(answer->Some_0@),
                    global_epochs(answer->Some_0@),
                    old(self).global_peer,
                    old(queue)@,
                    *final(self),
                    final(queue)@,
                    a,
                )
            },
    {
        let given: Vec<GlobalCommit> = match answer {
            Some(v) => v,
            None => Vec::new(),
        };
        if given.len() == 0 {
            self.global_peer = self.global_peer + 1;
            match self.global {
                Some(r) => {
                    if self.global_peer < self.members {
                        return FetchAction::AskGlobal {
                            peer: self.global_peer,
                            start: r.start,
                            end: r.end,
                        };
                    }
                },
                None => {},
            }
            return FetchAction::Done { pushed: 0 };
        }
        let peer: u32 = self.global_peer;
        let ghost all = given@;
        let mut commits: Vec<Commit> = Vec::new();
        let mut epochs: Vec<u64> = Vec::new();
        assert(all.subrange(0, 0) =~= Seq::<GlobalCommit>::empty());
        for g in it: given
            invariant
                it.seq() == all,
                commits@.len() == epochs@.len(),
                pairs_up(commits@, epochs@, global_readable(all.subrange(0, it.index() as int))),
        {
            proof {
                let longer = all.subrange(0, it.index() as int + 1);
                assert(longer.drop_last() =~= all.subrange(0, it.index() as int));
                assert(longer.last() == g);
            }
            match g.commit {
                Some(c) => {
                    commits.push(c);
                    epochs.push(g.epoch);
                },
                None => {},
            }
        }
        assert(all.subrange(0, all.len() as int) =~= all);
        self.commits = commits;
        self.epochs = epochs;
        assert(self.commits@ =~= global_commits(all));
        assert(self.epochs@ =~= global_epochs(all));
        self.ask_blocks(queue, peer)
    }
}

/// `commits` and `epochs` are the two sides of `pairs`.
pub open spec fn pairs_up(commits: Seq<Commit>, epochs: Seq<u64>, pairs: Seq<(Commit, u64)>) -> bool {
    &&& commits.len() == pairs.len()
    &&& epochs.len() == pairs.len()
    &&& forall|i: int|
        0 <= i < pairs.len() ==> commits[i] == (#[trigger] pairs[i]).0 && epochs[i] == pairs[i].1
}

/// Commits that came by global index are queued, all of them, and what waited
/// stays: after the fetch each commit that was not handed out yet is pending
/// under its index, with its epoch where none waited there before.
pub proof fn law_global_commits_are_queued(
    run: FetchRun,
    commits: Seq<Commit>,
    epochs: Seq<u64>,
    q: QueueState,
    blocks: Seq<VerifiedBlock>,
    run2: FetchRun,
    q2: QueueState,
    a: FetchAction,
    i: int,
)
    requires
        run.global is Some,
        finishes(run, commits, epochs, q, blocks, run2, q2, a),
        0 <= i < commits.len() <= usize::MAX,
    ensures
        a == (FetchAction::Done { pushed: commits.len() as usize }),
        commits[i].global_exec_index >= q.next_expected ==> q2.pending.contains_key(
            commits[i].global_exec_index,
        ),
        forall|k: u64|
            q.pending.contains_key(k) ==> #[trigger] q2.pending.contains_key(k) && q2.pending[k]
                == q.pending[k],
        forall|k: u64| #[trigger]
            q2.pending.contains_key(k) && !q.pending.contains_key(k) ==> exists|j: int|
                0 <= j < commits.len() && #[trigger] commits[j] == q2.pending[k].commit
                    && q2.pending[k].epoch == epochs[j],
        q2.next_expected == q.next_expected,
        run2.commits@.len() == 0,
{
    let items = choose|items: Seq<CommitData>|
        #![trigger are_items(items, commits, epochs, blocks)]
        are_items(items, commits, epochs, blocks) && global_end(run, q, items, run2, q2, a);
    law_pushed_commits_wait(q, items);
    assert(is_item(items[i], commits[i], blocks, epochs[i]));
    assert forall|k: u64|
        #[trigger] q2.pending.contains_key(k) && !q.pending.contains_key(k) implies exists|j: int|
        0 <= j < commits.len() && #[trigger] commits[j] == q2.pending[k].commit
            && q2.pending[k].epoch == epochs[j] by {
        let j = choose|j: int|
            0 <= j < items.len() && #[trigger] items[j] == q2.pending[k]
                && items[j].commit.global_exec_index == k;
        assert(is_item(items[j], commits[j], blocks, epochs[j]));
        assert(commits[j] == q2.pending[k].commit);
    }
}

/// Commits of the epoch are queued where they follow on from the queue. Where
/// the first one is more than ten indices ahead, the members are asked for the
/// missing ones by global index instead, from the first member on and with all
/// of the gap; where it is more than a thousand behind, nothing is queued.
pub proof fn law_epoch_commits_are_queued(
    run: FetchRun,
    commits: Seq<Commit>,
    epochs: Seq<u64>,
    q: QueueState,
    blocks: Seq<VerifiedBlock>,
    run2: FetchRun,
    q2: QueueState,
    a: FetchAction,
    i: int,
)
    requires
        run.global is None,
        finishes(run, commits, epochs, q, blocks, run2, q2, a),
        0 <= i < commits.len() <= usize::MAX,
    ensures
        ({
            let first = commits[0].global_exec_index;
            let next = q.next_expected;
            &&& first + 1000 < next ==> q2 == q && a == (FetchAction::Done { pushed: 0 })
            &&& first > next + 10 ==> q2 == q && run2.global == Some(
                GlobalRange { start: next, end: (first - 1) as u64 },
            ) && run2.global_peer == 0
            &&& first > next + 10 && run.members > 0 ==> a == (FetchAction::AskGlobal {
                peer: 0,
                start: next,
                end: (first - 1) as u64,
            })
            &&& next <= first + 1000 && first <= next + 10 ==> a == (FetchAction::Done {
                pushed: commits.len() as usize,
            }) && (commits[i].global_exec_index >= next ==> q2.pending.contains_key(
                commits[i].global_exec_index,
            ))
            &&& forall|k: u64|
                q.pending.contains_key(k) ==> #[trigger] q2.pending.contains_key(k)
                    && q2.pending[k] == q.pending[k]
        }),
{
    let items = choose|items: Seq<CommitData>|
        #![trigger are_items(items, commits, epochs, blocks)]
        are_items(items, commits, epochs, blocks) && local_end(run, q, items, run2, q2, a);
    law_pushed_commits_wait(q, items);
    assert(is_item(items[i], commits[i], blocks, epochs[i]));
    assert(is_item(items[0], commits[0], blocks, epochs[0]));
    law_first_commit_decides(q.next_expected, items);
}

/// Before commits are queued, each block that one of them refers to is asked
/// for, from the peer that sent the commits; nothing is queued meanwhile.
pub proof fn law_blocks_asked_of_same_peer(
    run: FetchRun,
    commits: Seq<Commit>,
    epochs: Seq<u64>,
    peer: u32,
    q: QueueState,
    run2: FetchRun,
    q2: QueueState,
    a: FetchAction,
    i: int,
    j: int,
)
    requires
        took_commits(run, commits, epochs, peer, q, run2, q2, a),
        0 <= i < commits.len(),
        0 <= j < commits[i].blocks@.len(),
    ensures
        a matches FetchAction::AskBlocks { peer: p, refs } && p == peer && exists|k: int|
            0 <= k < refs@.len() && (#[trigger] refs@[k])@ == commits[i].blocks@[j]@,
        q2 == q,
        run2.commits@ == commits,
        run2.epochs@ == epochs,
{
    crate::node::rust_sync_node::commit::law_refs_once_each(commits, i, j);
    let want = refs_to_fetch(commits);
    let k = want.index_of(commits[i].blocks@[j]@);
    match a {
        FetchAction::AskBlocks { peer: p, refs } => {
            assert(ref_values(refs@)[k] == refs@[k]@);
        },
        _ => {},
    }
}

/// The members are asked by global index one after the other, each for the whole
/// range; after the last one nothing was fetched.
pub proof fn law_members_asked_in_turn(members: u32, peer: int, r: GlobalRange)
    requires
        0 <= peer <= u32::MAX,
    ensures
        peer < members ==> global_action(members, peer, r) == (FetchAction::AskGlobal {
            peer: peer as u32,
            start: r.start,
            end: r.end,
        }),
        peer >= members ==> global_action(members, peer, r) == (FetchAction::Done { pushed: 0 }),
{
}

/// A race goes on while a peer that was asked may still answer, and every peer
/// is asked before the range is asked for by global index: after the first
/// failure all others join at once.
pub proof fn law_race_asks_all(run: FetchRun, run2: FetchRun, a: FetchAction)
    requires
        run.race is Some,
        run.race->Some_0.wf(),
        run.race->Some_0@.peers.no_duplicates(),
        run.race->Some_0@.in_flight > 0,
        peer_failed(run, run2, a),
    ensures
        ({
            let h = run.race->Some_0@;
            &&& !h.hedged && h.peers.len() > 1 ==> (a matches FetchAction::AskCommits {
                peers,
                start,
                end,
            } && peers@.len() == h.peers.len() - 1 && start == run.local.start && end
                == run.local.end && forall|p: u32|
                p != h.primary && h.peers.contains(p) ==> #[trigger] peers@.contains(p))
            &&& h.hedged && h.in_flight > 1 ==> a is Wait && run2.race is Some
            &&& run2.race matches Some(r) ==> r@.failed == h.failed + 1 && r@.peers == h.peers
                && r@.primary == h.primary && r@.hedged
            &&& run2.race matches Some(r) ==> r@.in_flight + r@.failed == h.peers.len()
            &&& h.hedged && h.in_flight == 1 || h.peers.len() == 1 ==> run2.race is None
                && run2.global == Some(run.fallback) && (run.members > 0 ==> a == (
            FetchAction::AskGlobal {
                peer: 0,
                start: run.fallback.start,
                end: run.fallback.end,
            }))
        }),
{
    let h = run.race->Some_0@;
    crate::node::rust_sync_node::fetch::law_all_others_join(h);
    crate::node::rust_sync_node::fetch::law_primary_asked_once(h.peers, h.primary);
}

/// Of the commits that a peer sends by global index, those that can be read are
/// kept with their own epochs and no others, in their order.
pub proof fn law_global_answers_are_kept(
    a: Seq<GlobalCommit>,
    b: Seq<GlobalCommit>,
    x: GlobalCommit,
)
    ensures
        global_readable(a + b) == global_readable(a) + global_readable(b),
        x.commit matches Some(c) ==> global_commits(seq![x]) == seq![c] && global_epochs(seq![x])
            == seq![x.epoch],
        x.commit is None ==> global_commits(seq![x]).len() == 0 && global_epochs(seq![x]).len()
            == 0,
    decreases b.len(),
{
    if b.len() > 0 {
        law_global_answers_are_kept(a, b.drop_last(), x);
        assert((a + b).drop_last() =~= a + b.drop_last());
        assert((a + b).last() == b.last());
    } else {
        assert(a + b =~= a);
    }
    assert(global_readable(a + b) =~= global_readable(a) + global_readable(b));
    reveal_with_fuel(global_readable, 2);
    assert(seq![x].drop_last() =~= Seq::<GlobalCommit>::empty());
    assert(seq![x].last() == x);
    match x.commit {
        Some(c) => {
            assert(global_readable(seq![x]) =~= seq![(c, x.epoch)]);
            assert(global_commits(seq![x]) =~= seq![c]);
            assert(global_epochs(seq![x]) =~= seq![x.epoch]);
        },
        None => {},
    }
}

} // verus!
