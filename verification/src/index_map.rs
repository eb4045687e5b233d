//! Ordered maps keyed by a 64-bit index.
use std::collections::BTreeMap;
use vstd::laws_cmp::{group_laws_cmp, obeys_cmp};
use vstd::prelude::*;
use vstd::std_specs::btree::{group_btree_axioms, increasing_seq};
use vstd::std_specs::cmp::OrdSpec;
use vstd::std_specs::iter::IteratorSpec;

verus! {

broadcast use {group_btree_axioms, group_laws_cmp};

/// `k` is the smallest index of the map.
pub open spec fn is_first<V>(m: Map<u64, V>, k: u64) -> bool {
    m.contains_key(k) && forall|j: u64| #[trigger] m.contains_key(j) ==> k <= j
}

/// The smallest index of the map.
pub fn first_index<V>(m: &BTreeMap<u64, V>) -> (r: Option<u64>)
    ensures
        match r {
            Some(k) => is_first(m@, k),
            None => forall|j: u64| !m@.contains_key(j),
        },
{
    for k in it: m.keys()
        invariant
            it.index() == 0,
            it.seq().unref().to_set() == m@.dom(),
            increasing_seq(it.seq()),
    {
        proof {
            let all = it.seq();
            assert(all[0] == k);
            assert(all.unref()[0] == *k);
            assert(all.unref().to_set().contains(*k));
            assert forall|j: u64| #[trigger] m@.contains_key(j) implies *k <= j by {
                assert(all.unref().to_set().contains(j));
                let i = all.unref().index_of(j);
                assert(*all[i] == j);
                assert(obeys_cmp::<u64>());
                assert(obeys_cmp::<&u64>());
                assert(i == 0 || OrdSpec::cmp_spec(&all[0], &all[i]) is Less);
            }
        }
        return Some(*k);
    }
    None
}

/// An empty map.
pub fn no_entries<V>() -> (m: BTreeMap<u64, V>)
    ensures
        m@ == Map::<u64, V>::empty(),
{
    BTreeMap::new()
}

/// Puts a value under an index, in place of what was there.
pub fn put_entry<V>(m: &mut BTreeMap<u64, V>, k: u64, v: V)
    ensures
        final(m)@ == old(m)@.insert(k, v),
{
    m.insert(k, v);
}

/// Takes the value under an index out of the map.
pub fn take_entry<V>(m: &mut BTreeMap<u64, V>, k: u64) -> (r: Option<V>)
    ensures
        final(m)@ == old(m)@.remove(k),
        r == if old(m)@.contains_key(k) {
            Some(old(m)@[k])
        } else {
            None
        },
{
    m.remove(&k)
}

/// The value under an index.
pub fn entry<V>(m: &BTreeMap<u64, V>, k: u64) -> (r: Option<&V>)
    ensures
        match r {
            Some(v) => m@.contains_key(k) && m@[k] == *v,
            None => !m@.contains_key(k),
        },
{
    m.get(&k)
}

/// Whether there is a value under an index.
pub fn has_entry<V>(m: &BTreeMap<u64, V>, k: u64) -> (b: bool)
    ensures
        b == m@.contains_key(k),
{
    m.contains_key(&k)
}

/// The number of entries.
pub fn entry_count<V>(m: &BTreeMap<u64, V>) -> (n: usize)
    ensures
        n == m@.len(),
        m@.dom().finite(),
{
    m.len()
}

/// The entries whose index is at least `lo`.
pub open spec fn entries_from<V>(m: Map<u64, V>, lo: int) -> Map<u64, V> {
    m.restrict(Set::new(|k: u64| lo <= k))
}

/// The entries whose index is at least `lo` and below `hi`.
pub open spec fn entries_between<V>(m: Map<u64, V>, lo: int, hi: int) -> Map<u64, V> {
    m.restrict(Set::new(|k: u64| lo <= k < hi))
}

/// Removes the entries whose index is below `lo`.
pub fn retain_from<V>(m: &mut BTreeMap<u64, V>, lo: u64)
    ensures
        final(m)@ == entries_from(old(m)@, lo as int),
{
    let ghost start = m@;
    let mut done: bool = false;
    while !done
        invariant
            entries_from(m@, lo as int) == entries_from(start, lo as int),
            done ==> m@ == entries_from(start, lo as int),
        decreases (if done { 0nat } else { 1 + m@.len() }),
    {
        match first_index(m) {
            Some(k) => {
                if k < lo {
                    let ghost before = m@;
                    m.remove(&k);
                    assert(entries_from(m@, lo as int) =~= entries_from(before, lo as int));
                } else {
                    done = true;
                    assert(m@ =~= entries_from(m@, lo as int));
                }
            },
            None => {
                done = true;
                assert(m@ =~= entries_from(m@, lo as int));
            },
        }
    }
}

/// Removes the entries whose index is below `lo` or not below `hi`.
pub fn retain_between<V>(m: &mut BTreeMap<u64, V>, lo: u64, hi: u64)
    ensures
        final(m)@ == entries_between(old(m)@, lo as int, hi as int),
{
    let ghost start = m@;
    let mut gone: Vec<u64> = Vec::new();
    for k in it: m.keys()
        invariant
            it.seq() == m.keys().remaining(),
            m@ == start,
            forall|j: int|
                0 <= j < it.index() && !(lo <= *it.seq()[j] < hi) ==> gone@.contains(
                    *#[trigger] it.seq()[j],
                ),
            forall|j: int| 0 <= j < gone@.len() ==> !(lo <= #[trigger] gone@[j] < hi),
    {
        if *k < lo || *k >= hi {
            let ghost before = gone@;
            gone.push(*k);
            assert(gone@[gone@.len() - 1] == *k);
            assert forall|x: u64| before.contains(x) implies #[trigger] gone@.contains(x) by {
                let j = before.index_of(x);
                assert(gone@[j] == x);
            }
        }
    }
    assert forall|k: u64| #[trigger] start.contains_key(k) && !(lo <= k < hi) implies gone@.contains(
        k,
    ) by {
        let all = m.keys().remaining();
        assert(all.unref().to_set().contains(k));
        let i = all.unref().index_of(k);
        assert(*all[i] == k);
    }
    let mut i: usize = 0;
    while i < gone.len()
        invariant
            i <= gone@.len(),
            forall|j: int| 0 <= j < gone@.len() ==> !(lo <= #[trigger] gone@[j] < hi),
            forall|k: u64| #[trigger]
                m@.contains_key(k) <==> start.contains_key(k) && !gone@.subrange(
                    0,
                    i as int,
                ).contains(k),
            forall|k: u64| #[trigger] m@.contains_key(k) ==> m@[k] == start[k],
        decreases gone.len() - i,
    {
        m.remove(&gone[i]);
        proof {
            let a = gone@.subrange(0, i as int);
            let b = gone@.subrange(0, i + 1);
            assert forall|k: u64| #[trigger] b.contains(k) <==> a.contains(k) || k
                == gone@[i as int] by {
                if b.contains(k) {
                    let j = b.index_of(k);
                    if j < i {
                        assert(a[j] == k);
                    }
                }
                if a.contains(k) {
                    let j = a.index_of(k);
                    assert(b[j] == k);
                }
                assert(b[i as int] == gone@[i as int]);
            }
        }
        i += 1;
    }
    proof {
        assert(gone@.subrange(0, gone@.len() as int) =~= gone@);
        assert forall|k: u64| #[trigger] gone@.contains(k) implies !(lo <= k < hi) by {
            let j = gone@.index_of(k);
            assert(gone@[j] == k);
        }
        assert(m@ =~= entries_between(start, lo as int, hi as int));
    }
}

} // verus!
