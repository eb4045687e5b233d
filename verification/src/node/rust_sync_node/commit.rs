//! Commits and the blocks that they refer to.
use crate::order::{
    byte_key, bytes_eq, bytes_le, dedup_adjacent, key_of, lemma_byte_key_injective, lex_le,
    stable_sort, stable_sort_vec, SortKey,
};
use crate::wire::{contents, copy_list, copy_range};
use vstd::prelude::*;

verus! {

/// Names one block: its round, its author and its digest.
#[derive(Clone, Debug)]
pub struct BlockRef {
    pub round: u32,
    pub author: u32,
    pub digest: Vec<u8>,
}

/// The value of a [`BlockRef`].
pub struct RefValue {
    pub round: u32,
    pub author: u32,
    pub digest: Seq<u8>,
}

/// Block references are ordered by round, author and digest.
pub open spec fn ref_key(r: RefValue) -> Seq<int> {
    seq![r.round as int, r.author as int] + byte_key(r.digest)
}

impl View for BlockRef {
    type V = RefValue;

    open spec fn view(&self) -> RefValue {
        RefValue { round: self.round, author: self.author, digest: self.digest@ }
    }
}

/// References with one key are the same.
pub proof fn lemma_ref_key_injective(a: RefValue, b: RefValue)
    ensures
        ref_key(a) == ref_key(b) <==> a == b,
{
    if ref_key(a) == ref_key(b) {
        assert(ref_key(a)[0] == ref_key(b)[0]);
        assert(ref_key(a)[1] == ref_key(b)[1]);
        assert(byte_key(a.digest) =~= ref_key(a).subrange(2, ref_key(a).len() as int));
        assert(byte_key(b.digest) =~= ref_key(b).subrange(2, ref_key(b).len() as int));
        lemma_byte_key_injective(a.digest, b.digest);
    }
}

impl SortKey for BlockRef {
    open spec fn sort_key(&self) -> Seq<int> {
        ref_key(self@)
    }

    fn key_le(&self, other: &Self) -> (b: bool) {
        proof {
            let a = ref_key(self@);
            let c = ref_key(other@);
            assert(a[0] == self.round && c[0] == other.round);
            assert(a.drop_first()[0] == self.author && c.drop_first()[0] == other.author);
            assert(a.drop_first().drop_first() =~= byte_key(self.digest@));
            assert(c.drop_first().drop_first() =~= byte_key(other.digest@));
            reveal_with_fuel(lex_le, 3);
        }
        if self.round != other.round {
            self.round < other.round
        } else if self.author != other.author {
            self.author < other.author
        } else {
            bytes_le(self.digest.as_slice(), other.digest.as_slice())
        }
    }
}

impl BlockRef {
    /// Whether two references name the same block.
    pub fn same(&self, other: &BlockRef) -> (b: bool)
        ensures
            b == (self@ == other@),
    {
        self.round == other.round && self.author == other.author && bytes_eq(
            self.digest.as_slice(),
            other.digest.as_slice(),
        )
    }

    /// A reference to the same block.
    pub fn copied(&self) -> (r: BlockRef)
        ensures
            r@ == self@,
    {
        let digest = copy_range(self.digest.as_slice(), 0, self.digest.len());
        assert(digest@ =~= self.digest@);
        BlockRef { round: self.round, author: self.author, digest }
    }
}

/// A block that was checked.
#[derive(Clone, Debug)]
pub struct VerifiedBlock {
    pub reference: BlockRef,
    pub transactions: Vec<Vec<u8>>,
}

/// The value of a [`VerifiedBlock`].
pub struct BlockValue {
    pub reference: RefValue,
    pub transactions: Seq<Seq<u8>>,
}

impl View for VerifiedBlock {
    type V = BlockValue;

    open spec fn view(&self) -> BlockValue {
        BlockValue { reference: self.reference@, transactions: contents(self.transactions@) }
    }
}

impl VerifiedBlock {
    /// A block with the same contents.
    pub fn copied(&self) -> (b: VerifiedBlock)
        ensures
            b@ == self@,
    {
        VerifiedBlock {
            reference: self.reference.copied(),
            transactions: copy_list(&self.transactions),
        }
    }
}

/// The values of a list of references.
pub open spec fn ref_values(v: Seq<BlockRef>) -> Seq<RefValue> {
    v.map_values(|r: BlockRef| r@)
}

/// The values of a list of blocks.
pub open spec fn block_values(v: Seq<VerifiedBlock>) -> Seq<BlockValue> {
    v.map_values(|b: VerifiedBlock| b@)
}

/// A commit of the consensus.
#[derive(Clone, Debug)]
pub struct Commit {
    /// Index of the commit within its epoch.
    pub index: u32,
    /// Index of the commit over all epochs.
    pub global_exec_index: u64,
    pub timestamp_ms: u64,
    pub leader: BlockRef,
    pub blocks: Vec<BlockRef>,
}

/// A commit with its blocks, as it waits in the queue.
#[derive(Clone, Debug)]
pub struct CommitData {
    pub commit: Commit,
    pub blocks: Vec<VerifiedBlock>,
    pub epoch: u64,
}

/// The block of `blocks` that `r` names; of several the last one.
pub open spec fn find_block(blocks: Seq<BlockValue>, r: RefValue) -> Option<BlockValue>
    decreases blocks.len(),
{
    if blocks.len() == 0 {
        None
    } else if blocks.last().reference == r {
        Some(blocks.last())
    } else {
        find_block(blocks.drop_last(), r)
    }
}

/// The blocks that `refs` name, in the order of `refs`, without those that are
/// not there.
pub open spec fn found_blocks(refs: Seq<RefValue>, blocks: Seq<BlockValue>) -> Seq<BlockValue>
    decreases refs.len(),
{
    if refs.len() == 0 {
        Seq::empty()
    } else {
        let front = found_blocks(refs.drop_last(), blocks);
        match find_block(blocks, refs.last()) {
            Some(b) => front.push(b),
            None => front,
        }
    }
}

/// The references of all commits, one commit after the other.
pub open spec fn all_refs(commits: Seq<Commit>) -> Seq<RefValue>
    decreases commits.len(),
{
    if commits.len() == 0 {
        Seq::empty()
    } else {
        all_refs(commits.drop_last()) + ref_values(commits.last().blocks@)
    }
}

/// The references to ask for: in order, and each once.
pub open spec fn refs_to_fetch(commits: Seq<Commit>) -> Seq<RefValue> {
    let key = |r: RefValue| ref_key(r);
    dedup_adjacent(stable_sort(all_refs(commits), key), key)
}

/// The commits or blocks among the answers of a peer: those that could be read.
pub open spec fn readable<T>(answers: Seq<Option<T>>) -> Seq<T>
    decreases answers.len(),
{
    if answers.len() == 0 {
        Seq::empty()
    } else {
        match answers.last() {
            Some(c) => readable(answers.drop_last()).push(c),
            None => readable(answers.drop_last()),
        }
    }
}

/// Leaves out the answers that could not be read.
pub fn keep_readable<T>(answers: Vec<Option<T>>) -> (r: Vec<T>)
    ensures
        r@ == readable(answers@),
{
    let mut r: Vec<T> = Vec::new();
    let ghost all = answers@;
    assert(all.subrange(0, 0) =~= Seq::<Option<T>>::empty());
    for a in it: answers
        invariant
            it.seq() == all,
            r@ == readable(all.subrange(0, it.index() as int)),
    {
        proof {
            let longer = all.subrange(0, it.index() as int + 1);
            assert(longer.drop_last() =~= all.subrange(0, it.index() as int));
            assert(longer.last() == a);
        }
        match a {
            Some(c) => {
                r.push(c);
            },
            None => {},
        }
    }
    assert(all.subrange(0, all.len() as int) =~= all);
    r
}

/// Removes references that repeat the one before them.
fn dedup_refs(v: Vec<BlockRef>) -> (out: Vec<BlockRef>)
    ensures
        out@ == dedup_adjacent(v@, key_of::<BlockRef>()),
{
    let mut out: Vec<BlockRef> = Vec::new();
    let ghost all = v@;
    let ghost key = key_of::<BlockRef>();
    assert(all.subrange(0, 0) =~= Seq::<BlockRef>::empty());
    for r in it: v
        invariant
            it.seq() == all,
            key == key_of::<BlockRef>(),
            out@ == dedup_adjacent(all.subrange(0, it.index() as int), key),
    {
        proof {
            let longer = all.subrange(0, it.index() as int + 1);
            assert(longer.drop_last() =~= all.subrange(0, it.index() as int));
            assert(longer.last() == r);
        }
        let repeats: bool = if out.len() == 0 {
            false
        } else {
            out[out.len() - 1].same(&r)
        };
        proof {
            if out@.len() > 0 {
                lemma_ref_key_injective(out@.last()@, r@);
            }
        }
        if !repeats {
            out.push(r);
        }
    }
    assert(all.subrange(0, all.len() as int) =~= all);
    out
}

/// The references that the commits hold, in order and each once.
pub fn collect_block_refs(commits: &Vec<Commit>) -> (out: Vec<BlockRef>)
    ensures
        ref_values(out@) == refs_to_fetch(commits@),
{
    let mut refs: Vec<BlockRef> = Vec::new();
    let mut i: usize = 0;
    assert(commits@.subrange(0, 0) =~= Seq::<Commit>::empty());
    assert(ref_values(refs@) =~= all_refs(commits@.subrange(0, 0)));
    while i < commits.len()
        invariant
            i <= commits@.len(),
            ref_values(refs@) == all_refs(commits@.subrange(0, i as int)),
        decreases commits.len() - i,
    {
        let ghost before = ref_values(refs@);
        let ghost cur = commits@[i as int].blocks@;
        let mut j: usize = 0;
        assert(before + ref_values(cur.subrange(0, 0)) =~= before);
        while j < commits[i].blocks.len()
            invariant
                i < commits@.len(),
                cur == commits@[i as int].blocks@,
                j <= cur.len(),
                ref_values(refs@) == before + ref_values(cur.subrange(0, j as int)),
            decreases cur.len() - j,
        {
            let ghost prev = ref_values(refs@);
            let r = commits[i].blocks[j].copied();
            refs.push(r);
            j += 1;
            assert(ref_values(refs@) =~= prev.push(cur[j - 1]@));
            assert(ref_values(cur.subrange(0, j as int)) =~= ref_values(
                cur.subrange(0, j - 1),
            ).push(cur[j - 1]@));
            assert(ref_values(refs@) =~= before + ref_values(cur.subrange(0, j as int)));
        }
        proof {
            assert(cur.subrange(0, cur.len() as int) =~= cur);
            let longer = commits@.subrange(0, i + 1);
            assert(longer.drop_last() =~= commits@.subrange(0, i as int));
            assert(longer.last() == commits@[i as int]);
        }
        i += 1;
    }
    assert(commits@.subrange(0, commits@.len() as int) =~= commits@);
    let ghost unsorted = refs@;
    let sorted = stable_sort_vec(refs);
    let ghost sorted_seq = sorted@;
    let out = dedup_refs(sorted);
    proof {
        let f = |r: BlockRef| r@;
        let key = |r: RefValue| ref_key(r);
        crate::order::lemma_sort_map(unsorted, key_of::<BlockRef>(), f, key);
        crate::order::lemma_dedup_map(sorted_seq, key_of::<BlockRef>(), f, key);
    }
    out
}

/// The blocks of a commit among those that were fetched, see [`found_blocks`].
pub fn attach_blocks(refs: &Vec<BlockRef>, blocks: &Vec<VerifiedBlock>) -> (out: Vec<VerifiedBlock>)
    ensures
        block_values(out@) == found_blocks(ref_values(refs@), block_values(blocks@)),
{
    let mut out: Vec<VerifiedBlock> = Vec::new();
    let ghost rs = ref_values(refs@);
    let ghost bs = block_values(blocks@);
    let mut i: usize = 0;
    assert(rs.subrange(0, 0) =~= Seq::<RefValue>::empty());
    assert(block_values(out@) =~= found_blocks(rs.subrange(0, 0), bs));
    while i < refs.len()
        invariant
            i <= refs@.len(),
            rs == ref_values(refs@),
            bs == block_values(blocks@),
            block_values(out@) == found_blocks(rs.subrange(0, i as int), bs),
        decreases refs.len() - i,
    {
        let ghost r = rs[i as int];
        let mut j: usize = blocks.len();
        let mut found: bool = false;
        assert(bs.subrange(0, j as int) =~= bs);
        while j > 0 && !found
            invariant
                i < refs@.len(),
                j <= blocks@.len(),
                rs == ref_values(refs@),
                bs == block_values(blocks@),
                r == rs[i as int],
                found ==> j < blocks@.len() && find_block(bs, r) == Some(bs[j as int]),
                !found ==> find_block(bs, r) == find_block(bs.subrange(0, j as int), r),
            decreases j, (if found { 0int } else { 1int }),
        {
            proof {
                let part = bs.subrange(0, j as int);
                assert(part.drop_last() =~= bs.subrange(0, j - 1));
                assert(part.last() == bs[j - 1]);
                assert(bs[j - 1] == blocks@[j - 1]@);
            }
            j -= 1;
            if blocks[j].reference.same(&refs[i]) {
                found = true;
            }
        }
        let ghost before = block_values(out@);
        if found {
            let b = blocks[j].copied();
            out.push(b);
            assert(block_values(out@) =~= before.push(bs[j as int]));
        }
        proof {
            let longer = rs.subrange(0, i + 1);
            assert(longer.drop_last() =~= rs.subrange(0, i as int));
            assert(longer.last() == r);
        }
        i += 1;
    }
    assert(rs.subrange(0, rs.len() as int) =~= rs);
    out
}

/// No block is asked for twice, and each block of each commit is asked for.
pub proof fn law_refs_once_each(commits: Seq<Commit>, i: int, j: int)
    requires
        0 <= i < commits.len(),
        0 <= j < commits[i].blocks@.len(),
    ensures
        refs_to_fetch(commits).no_duplicates(),
        refs_to_fetch(commits).contains(commits[i].blocks@[j]@),
{
    let key = |r: RefValue| ref_key(r);
    let all = all_refs(commits);
    let sorted = stable_sort(all, key);
    let out = refs_to_fetch(commits);
    crate::order::lemma_sort_sorted(all, key);
    crate::order::lemma_dedup_distinct(sorted, key);
    assert forall|m: int, n: int| 0 <= m < out.len() && 0 <= n < out.len() && m != n implies out[m]
        != out[n] by {
        assert(key(out[m]) != key(out[n]));
    }
    let r = commits[i].blocks@[j]@;
    lemma_all_refs_contains(commits, i, j);
    crate::order::lemma_sort_permutes(all, key);
    assert(sorted.contains(r)) by {
        broadcast use vstd::seq_lib::group_to_multiset_ensures;

        assert(all.to_multiset().count(r) > 0);
        assert(sorted.to_multiset().count(r) > 0);
    }
    let p = sorted.index_of(r);
    crate::order::lemma_dedup_keeps_keys(sorted, key, p);
    let q = choose|q: int| 0 <= q < out.len() && key(#[trigger] out[q]) == key(sorted[p]);
    lemma_ref_key_injective(out[q], r);
    assert(out[q] == r);
}

proof fn lemma_all_refs_contains(commits: Seq<Commit>, i: int, j: int)
    requires
        0 <= i < commits.len(),
        0 <= j < commits[i].blocks@.len(),
    ensures
        all_refs(commits).contains(commits[i].blocks@[j]@),
    decreases commits.len(),
{
    let front = all_refs(commits.drop_last());
    let back = ref_values(commits.last().blocks@);
    let all = all_refs(commits);
    if i == commits.len() - 1 {
        assert(back[j] == commits[i].blocks@[j]@);
        assert(all[front.len() + j] == back[j]);
    } else {
        lemma_all_refs_contains(commits.drop_last(), i, j);
        let p = front.index_of(commits[i].blocks@[j]@);
        assert(all[p] == front[p]);
    }
}

/// A block that was fetched for a reference is found: one of the blocks with
/// that reference, and of several the last one. Where none was fetched, none is
/// found.
pub proof fn law_named_block_is_found(blocks: Seq<BlockValue>, r: RefValue)
    ensures
        match find_block(blocks, r) {
            Some(b) => b.reference == r && exists|j: int|
                0 <= j < blocks.len() && #[trigger] blocks[j] == b && forall|k: int|
                    j < k < blocks.len() ==> (#[trigger] blocks[k]).reference != r,
            None => forall|k: int|
                0 <= k < blocks.len() ==> (#[trigger] blocks[k]).reference != r,
        },
    decreases blocks.len(),
{
    if blocks.len() > 0 {
        let front = blocks.drop_last();
        law_named_block_is_found(front, r);
        if blocks.last().reference == r {
            assert(blocks[blocks.len() - 1] == blocks.last());
        } else {
            match find_block(front, r) {
                Some(b) => {
                    let j = choose|j: int|
                        0 <= j < front.len() && #[trigger] front[j] == b && forall|k: int|
                            j < k < front.len() ==> (#[trigger] front[k]).reference != r;
                    assert(blocks[j] == b);
                    assert forall|k: int| j < k < blocks.len() implies (
                    #[trigger] blocks[k]).reference != r by {
                        if k < front.len() {
                            assert(front[k] == blocks[k]);
                        }
                    }
                },
                None => {
                    assert forall|k: int| 0 <= k < blocks.len() implies (
                    #[trigger] blocks[k]).reference != r by {
                        if k < front.len() {
                            assert(front[k] == blocks[k]);
                        }
                    }
                },
            }
        }
    }
}

/// A block with a reference is among the blocks.
pub open spec fn was_fetched(blocks: Seq<BlockValue>, r: RefValue) -> bool {
    exists|j: int| 0 <= j < blocks.len() && (#[trigger] blocks[j]).reference == r
}

/// A commit gets all of its blocks that were fetched, in the order of its
/// references: the references of the attached blocks are those of the commit
/// whose block was fetched, and each attached block is one that was fetched.
pub proof fn law_fetched_blocks_are_attached(refs: Seq<RefValue>, blocks: Seq<BlockValue>)
    ensures
        found_blocks(refs, blocks).map_values(|b: BlockValue| b.reference) == refs.filter(
            |r: RefValue| was_fetched(blocks, r),
        ),
        forall|i: int|
            0 <= i < found_blocks(refs, blocks).len() ==> blocks.contains(
                #[trigger] found_blocks(refs, blocks)[i],
            ),
    decreases refs.len(),
{
    reveal(Seq::filter);
    let reference = |b: BlockValue| b.reference;
    let there = |r: RefValue| was_fetched(blocks, r);
    let out = found_blocks(refs, blocks);
    if refs.len() > 0 {
        let r = refs.last();
        let front = found_blocks(refs.drop_last(), blocks);
        law_fetched_blocks_are_attached(refs.drop_last(), blocks);
        law_named_block_is_found(blocks, r);
        match find_block(blocks, r) {
            Some(b) => {
                let j = choose|j: int|
                    0 <= j < blocks.len() && #[trigger] blocks[j] == b && forall|k: int|
                        j < k < blocks.len() ==> (#[trigger] blocks[k]).reference != r;
                assert(blocks[j].reference == r);
                assert(was_fetched(blocks, r));
                assert(out.map_values(reference) =~= front.map_values(reference).push(r));
                assert forall|i: int| 0 <= i < out.len() implies blocks.contains(
                    #[trigger] out[i],
                ) by {
                    if i < front.len() {
                        assert(out[i] == front[i]);
                    } else {
                        assert(blocks[j] == out[i]);
                    }
                }
            },
            None => {
                assert(!was_fetched(blocks, r));
            },
        }
        assert(out.map_values(reference) =~= refs.filter(there));
    } else {
        assert(out.map_values(reference) =~= refs.filter(there));
    }
}

/// If the block of each reference of a commit was fetched, the commit has as
/// many blocks as references, and its blocks are those that the references name,
/// one by one.
pub proof fn law_all_blocks_attached(refs: Seq<RefValue>, blocks: Seq<BlockValue>)
    requires
        forall|i: int| 0 <= i < refs.len() ==> was_fetched(blocks, #[trigger] refs[i]),
    ensures
        found_blocks(refs, blocks).len() == refs.len(),
        forall|i: int|
            0 <= i < refs.len() ==> (#[trigger] found_blocks(refs, blocks)[i]).reference == refs[i]
                && blocks.contains(found_blocks(refs, blocks)[i]),
    decreases refs.len(),
{
    law_fetched_blocks_are_attached(refs, blocks);
    if refs.len() > 0 {
        let front = refs.drop_last();
        assert forall|i: int| 0 <= i < front.len() implies was_fetched(
            blocks,
            #[trigger] front[i],
        ) by {
            assert(front[i] == refs[i]);
        }
        law_all_blocks_attached(front, blocks);
        assert(was_fetched(blocks, refs[refs.len() - 1]));
        law_named_block_is_found(blocks, refs.last());
    }
}

/// Only blocks that a commit refers to are asked for, in the order of their
/// rounds.
pub proof fn law_only_own_refs(commits: Seq<Commit>, k: int)
    requires
        0 <= k < refs_to_fetch(commits).len(),
    ensures
        exists|i: int, j: int|
            0 <= i < commits.len() && 0 <= j < commits[i].blocks@.len()
                && #[trigger] commits[i].blocks@[j]@ == refs_to_fetch(commits)[k],
        forall|m: int| 0 <= m < k ==> (#[trigger] refs_to_fetch(commits)[m]).round <= refs_to_fetch(
            commits,
        )[k].round,
{
    broadcast use vstd::seq_lib::group_to_multiset_ensures;

    let key = |r: RefValue| ref_key(r);
    let all = all_refs(commits);
    let sorted = stable_sort(all, key);
    let out = refs_to_fetch(commits);
    crate::order::lemma_sort_permutes(all, key);
    crate::order::lemma_sort_sorted(all, key);
    crate::order::lemma_dedup_members(sorted, key);
    assert(sorted.contains(out[k]));
    assert(sorted.to_multiset().count(out[k]) > 0);
    assert(all.to_multiset().count(out[k]) > 0);
    assert(all.contains(out[k]));
    lemma_all_refs_only(commits, out[k]);
    assert forall|m: int| 0 <= m < k implies (#[trigger] out[m]).round <= out[k].round by {
        assert(lex_le(key(out[m]), key(out[k])));
        assert(ref_key(out[m])[0] == out[m].round && ref_key(out[k])[0] == out[k].round);
        reveal_with_fuel(lex_le, 2);
    }
}

proof fn lemma_all_refs_only(commits: Seq<Commit>, r: RefValue)
    requires
        all_refs(commits).contains(r),
    ensures
        exists|i: int, j: int|
            0 <= i < commits.len() && 0 <= j < commits[i].blocks@.len()
                && #[trigger] commits[i].blocks@[j]@ == r,
    decreases commits.len(),
{
    if commits.len() > 0 {
        let front = all_refs(commits.drop_last());
        let back = ref_values(commits.last().blocks@);
        let p = all_refs(commits).index_of(r);
        if p < front.len() {
            assert(front[p] == r);
            lemma_all_refs_only(commits.drop_last(), r);
            let (i, j) = choose|i: int, j: int|
                0 <= i < commits.drop_last().len() && 0 <= j < commits.drop_last()[i].blocks@.len()
                    && #[trigger] commits.drop_last()[i].blocks@[j]@ == r;
            assert(commits[i].blocks@[j]@ == r);
        } else {
            assert(back[p - front.len()] == r);
            assert(commits[commits.len() - 1].blocks@[p - front.len()]@ == r);
        }
    }
}

/// Of the answers of a peer, those that could be read are kept and no others,
/// in their order.
pub proof fn law_readable_are_kept<T>(a: Seq<Option<T>>, b: Seq<Option<T>>, x: T)
    ensures
        readable(a + b) == readable(a) + readable(b),
        readable(seq![Some(x)]) == seq![x],
        readable(seq![None::<T>]) == Seq::<T>::empty(),
    decreases b.len(),
{
    if b.len() > 0 {
        law_readable_are_kept(a, b.drop_last(), x);
        assert((a + b).drop_last() =~= a + b.drop_last());
        assert((a + b).last() == b.last());
    } else {
        assert(a + b =~= a);
        assert(readable(a) + readable(b) =~= readable(a));
    }
    assert(readable(a + b) =~= readable(a) + readable(b));
    reveal_with_fuel(readable, 2);
    let one = seq![Some(x)];
    assert(one.drop_last() =~= Seq::<Option<T>>::empty());
    assert(one.last() == Some(x));
    assert(readable(one) =~= seq![x]);
    let none = seq![None::<T>];
    assert(none.drop_last() =~= Seq::<Option<T>>::empty());
    assert(readable(none) =~= Seq::<T>::empty());
}

} // verus!
