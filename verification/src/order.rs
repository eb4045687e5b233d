//! Lexicographic order, the stable sort by it, and removal of repeated keys.
//!
//! Every place where nodes have to agree on an order (validators in a
//! committee, transactions in a block) goes through [`stable_sort_vec`].
use vstd::prelude::*;

verus! {

/// `a` equals `b` or comes before it in lexicographic order.
pub open spec fn lex_le(a: Seq<int>, b: Seq<int>) -> bool
    decreases a.len(),
{
    if a.len() == 0 {
        true
    } else if b.len() == 0 {
        false
    } else if a[0] != b[0] {
        a[0] < b[0]
    } else {
        lex_le(a.drop_first(), b.drop_first())
    }
}

/// The bytes of a string of bytes, as the integers that [`lex_le`] orders.
pub open spec fn byte_key(s: Seq<u8>) -> Seq<int> {
    Seq::new(s.len(), |i: int| s[i] as int)
}

/// Two byte strings with the same key are the same.
pub proof fn lemma_byte_key_injective(a: Seq<u8>, b: Seq<u8>)
    ensures
        byte_key(a) == byte_key(b) <==> a == b,
{
    if byte_key(a) == byte_key(b) {
        assert(byte_key(a).len() == a.len() && byte_key(b).len() == b.len());
        assert forall|i: int| 0 <= i < a.len() implies a[i] == b[i] by {
            assert(byte_key(a)[i] == byte_key(b)[i]);
        }
        assert(a =~= b);
    }
}

/// Lexicographic order is reflexive.
pub proof fn lemma_lex_reflexive(a: Seq<int>)
    ensures
        lex_le(a, a),
    decreases a.len(),
{
    if a.len() > 0 {
        lemma_lex_reflexive(a.drop_first());
    }
}

/// Of two sequences one comes before the other or they are equal.
pub proof fn lemma_lex_total(a: Seq<int>, b: Seq<int>)
    ensures
        lex_le(a, b) || lex_le(b, a),
    decreases a.len(),
{
    if a.len() > 0 && b.len() > 0 && a[0] == b[0] {
        lemma_lex_total(a.drop_first(), b.drop_first());
    }
}

/// Sequences that come before each other are equal.
pub proof fn lemma_lex_antisymmetric(a: Seq<int>, b: Seq<int>)
    requires
        lex_le(a, b),
        lex_le(b, a),
    ensures
        a == b,
    decreases a.len(),
{
    if a.len() > 0 && b.len() > 0 {
        lemma_lex_antisymmetric(a.drop_first(), b.drop_first());
        assert(a =~= seq![a[0]] + a.drop_first());
        assert(b =~= seq![b[0]] + b.drop_first());
    } else {
        assert(a =~= b);
    }
}

/// Lexicographic order is transitive.
pub proof fn lemma_lex_transitive(a: Seq<int>, b: Seq<int>, c: Seq<int>)
    requires
        lex_le(a, b),
        lex_le(b, c),
    ensures
        lex_le(a, c),
    decreases a.len(),
{
    if a.len() > 0 && b.len() > 0 && c.len() > 0 && a[0] == b[0] && b[0] == c[0] {
        lemma_lex_transitive(a.drop_first(), b.drop_first(), c.drop_first());
    }
}

/// Index of the first item of `s` whose key is `k` or comes after it.
pub open spec fn lower_bound<T>(s: Seq<T>, key: spec_fn(T) -> Seq<int>, k: Seq<int>) -> nat
    decreases s.len(),
{
    if s.len() == 0 {
        0
    } else if lex_le(k, key(s[0])) {
        0
    } else {
        1 + lower_bound(s.drop_first(), key, k)
    }
}

/// The items of `s` in the order of their keys; items with one key keep the
/// order that they have in `s`.
pub open spec fn stable_sort<T>(s: Seq<T>, key: spec_fn(T) -> Seq<int>) -> Seq<T>
    decreases s.len(),
{
    if s.len() == 0 {
        s
    } else {
        let rest = stable_sort(s.drop_first(), key);
        rest.insert(lower_bound(rest, key, key(s[0])) as int, s[0])
    }
}

/// Each item's key comes before the next one's, or equals it.
pub open spec fn sorted_by_key<T>(s: Seq<T>, key: spec_fn(T) -> Seq<int>) -> bool {
    forall|i: int, j: int|
        0 <= i <= j < s.len() ==> lex_le(#[trigger] key(s[i]), #[trigger] key(s[j]))
}

/// No two items have the same key.
pub open spec fn distinct_keys<T>(s: Seq<T>, key: spec_fn(T) -> Seq<int>) -> bool {
    forall|i: int, j: int|
        0 <= i < s.len() && 0 <= j < s.len() && i != j ==> #[trigger] key(s[i])
            != #[trigger] key(s[j])
}

/// Items with the same key are the same.
pub open spec fn key_decides<T>(s: Seq<T>, key: spec_fn(T) -> Seq<int>) -> bool {
    forall|i: int, j: int|
        0 <= i < s.len() && 0 <= j < s.len() && #[trigger] key(s[i]) == #[trigger] key(s[j])
            ==> s[i] == s[j]
}

/// `s` without the items whose key is that of the item kept before them.
pub open spec fn dedup_adjacent<T>(s: Seq<T>, key: spec_fn(T) -> Seq<int>) -> Seq<T>
    decreases s.len(),
{
    if s.len() == 0 {
        s
    } else {
        let kept = dedup_adjacent(s.drop_last(), key);
        if kept.len() > 0 && key(kept.last()) == key(s.last()) {
            kept
        } else {
            kept.push(s.last())
        }
    }
}

proof fn lemma_lower_bound<T>(s: Seq<T>, key: spec_fn(T) -> Seq<int>, k: Seq<int>)
    ensures
        lower_bound(s, key, k) <= s.len(),
        forall|j: int| 0 <= j < lower_bound(s, key, k) ==> !lex_le(k, key(#[trigger] s[j])),
        lower_bound(s, key, k) < s.len() ==> lex_le(k, key(s[lower_bound(s, key, k) as int])),
    decreases s.len(),
{
    if s.len() > 0 && !lex_le(k, key(s[0])) {
        let t = s.drop_first();
        lemma_lower_bound(t, key, k);
        let b = lower_bound(s, key, k);
        assert forall|j: int| 0 <= j < b implies !lex_le(k, key(#[trigger] s[j])) by {
            if j > 0 {
                assert(s[j] == t[j - 1]);
            }
        }
        if b < s.len() {
            assert(s[b as int] == t[b - 1]);
        }
    }
}

proof fn lemma_lower_bound_unique<T>(s: Seq<T>, key: spec_fn(T) -> Seq<int>, k: Seq<int>, b: nat)
    requires
        b <= s.len(),
        forall|j: int| 0 <= j < b ==> !lex_le(k, key(#[trigger] s[j])),
        b < s.len() ==> lex_le(k, key(s[b as int])),
    ensures
        b == lower_bound(s, key, k),
{
    lemma_lower_bound(s, key, k);
    let c = lower_bound(s, key, k);
    if b < c {
        assert(!lex_le(k, key(s[b as int])));
    }
    if c < b {
        assert(!lex_le(k, key(s[c as int])));
    }
}

/// The sort puts the items in the order of their keys.
pub proof fn lemma_sort_sorted<T>(s: Seq<T>, key: spec_fn(T) -> Seq<int>)
    ensures
        sorted_by_key(stable_sort(s, key), key),
        stable_sort(s, key).len() == s.len(),
    decreases s.len(),
{
    if s.len() > 0 {
        let rest = stable_sort(s.drop_first(), key);
        let x = s[0];
        lemma_sort_sorted(s.drop_first(), key);
        lemma_lower_bound(rest, key, key(x));
        let b = lower_bound(rest, key, key(x)) as int;
        let out = rest.insert(b, x);
        assert forall|i: int, j: int| 0 <= i <= j < out.len() implies lex_le(
            #[trigger] key(out[i]),
            #[trigger] key(out[j]),
        ) by {
            if i == j {
                lemma_lex_reflexive(key(out[i]));
            } else if j < b {
                assert(out[i] == rest[i] && out[j] == rest[j]);
            } else if i > b {
                assert(out[i] == rest[i - 1] && out[j] == rest[j - 1]);
            } else if i == b {
                assert(out[i] == x && out[j] == rest[j - 1]);
                assert(lex_le(key(rest[b]), key(rest[j - 1])));
                lemma_lex_transitive(key(x), key(rest[b]), key(rest[j - 1]));
            } else if j == b {
                assert(out[i] == rest[i] && out[j] == x);
                assert(!lex_le(key(x), key(rest[i])));
                lemma_lex_total(key(x), key(rest[i]));
            } else {
                assert(out[i] == rest[i] && out[j] == rest[j - 1]);
            }
        }
    }
}

/// The sort neither loses an item nor adds one.
pub proof fn lemma_sort_permutes<T>(s: Seq<T>, key: spec_fn(T) -> Seq<int>)
    ensures
        stable_sort(s, key).to_multiset() == s.to_multiset(),
    decreases s.len(),
{
    broadcast use vstd::seq_lib::group_to_multiset_ensures;

    if s.len() > 0 {
        let rest = stable_sort(s.drop_first(), key);
        lemma_sort_permutes(s.drop_first(), key);
        lemma_lower_bound(rest, key, key(s[0]));
        let b = lower_bound(rest, key, key(s[0])) as int;
        vstd::seq_lib::to_multiset_insert(rest, b, s[0]);
        assert(s =~= seq![s[0]] + s.drop_first());
        assert(s =~= s.drop_first().insert(0, s[0]));
        vstd::seq_lib::to_multiset_insert(s.drop_first(), 0, s[0]);
    } else {
        assert(stable_sort(s, key) =~= s);
    }
}

/// Where items that share a key are the same, the outcome of the sort does not
/// depend on the order in which the items came: nodes that hold the same items
/// in different orders agree after sorting.
pub proof fn lemma_sort_order_independent<T>(a: Seq<T>, b: Seq<T>, key: spec_fn(T) -> Seq<int>)
    requires
        a.to_multiset() == b.to_multiset(),
        key_decides(a, key),
    ensures
        stable_sort(a, key) == stable_sort(b, key),
{
    lemma_sort_sorted(a, key);
    lemma_sort_sorted(b, key);
    lemma_sort_permutes(a, key);
    lemma_sort_permutes(b, key);
    let x = stable_sort(a, key);
    let y = stable_sort(b, key);
    assert forall|p: T, q: T|
        x.contains(p) && x.contains(q) && #[trigger] key(p) == #[trigger] key(q) implies p
        == q by {
        lemma_contains_multiset(x, p);
        lemma_contains_multiset(x, q);
        lemma_contains_multiset(a, p);
        lemma_contains_multiset(a, q);
        let i = a.index_of(p);
        let j = a.index_of(q);
        assert(a[i] == p && a[j] == q);
    }
    lemma_sorted_unique(x, y, key);
}

pub proof fn lemma_contains_multiset<T>(s: Seq<T>, x: T)
    ensures
        s.contains(x) <==> s.to_multiset().count(x) > 0,
{
    broadcast use vstd::seq_lib::group_to_multiset_ensures;

}

proof fn lemma_sorted_unique<T>(x: Seq<T>, y: Seq<T>, key: spec_fn(T) -> Seq<int>)
    requires
        sorted_by_key(x, key),
        sorted_by_key(y, key),
        x.to_multiset() == y.to_multiset(),
        forall|p: T, q: T|
            x.contains(p) && x.contains(q) && #[trigger] key(p) == #[trigger] key(q) ==> p == q,
    ensures
        x == y,
    decreases x.len(),
{
    broadcast use vstd::seq_lib::group_to_multiset_ensures;

    vstd::seq_lib::to_multiset_len(x);
    vstd::seq_lib::to_multiset_len(y);
    assert(x.len() == y.len());
    if x.len() > 0 {
        let p = x[0];
        let q = y[0];
        lemma_contains_multiset(x, p);
        lemma_contains_multiset(y, p);
        lemma_contains_multiset(x, q);
        lemma_contains_multiset(y, q);
        assert(y.contains(p));
        assert(x.contains(q));
        let i = y.index_of(p);
        let j = x.index_of(q);
        assert(lex_le(key(y[0]), key(y[i])));
        assert(lex_le(key(x[0]), key(x[j])));
        lemma_lex_antisymmetric(key(p), key(q));
        assert(p == q);
        let x1 = x.drop_first();
        let y1 = y.drop_first();
        assert(x =~= x1.insert(0, p));
        assert(y =~= y1.insert(0, p));
        vstd::seq_lib::to_multiset_insert(x1, 0, p);
        vstd::seq_lib::to_multiset_insert(y1, 0, p);
        assert(x1.to_multiset() =~= x.to_multiset().remove(p));
        assert(y1.to_multiset() =~= y.to_multiset().remove(p));
        assert forall|i: int, j: int| 0 <= i <= j < x1.len() implies lex_le(
            #[trigger] key(x1[i]),
            #[trigger] key(x1[j]),
        ) by {
            assert(x1[i] == x[i + 1] && x1[j] == x[j + 1]);
        }
        assert forall|i: int, j: int| 0 <= i <= j < y1.len() implies lex_le(
            #[trigger] key(y1[i]),
            #[trigger] key(y1[j]),
        ) by {
            assert(y1[i] == y[i + 1] && y1[j] == y[j + 1]);
        }
        assert forall|r: T, t: T|
            x1.contains(r) && x1.contains(t) && #[trigger] key(r) == #[trigger] key(t) implies r
            == t by {
            assert(x.contains(r)) by {
                let m = x1.index_of(r);
                assert(x[m + 1] == r);
            }
            assert(x.contains(t)) by {
                let m = x1.index_of(t);
                assert(x[m + 1] == t);
            }
        }
        lemma_sorted_unique(x1, y1, key);
    } else {
        assert(x =~= y);
    }
}

/// Sorting commutes with a map that keeps the keys.
pub proof fn lemma_sort_map<T, U>(
    s: Seq<T>,
    key: spec_fn(T) -> Seq<int>,
    f: spec_fn(T) -> U,
    ukey: spec_fn(U) -> Seq<int>,
)
    requires
        forall|x: T| #[trigger] ukey(f(x)) == key(x),
    ensures
        stable_sort(s, key).map_values(f) == stable_sort(s.map_values(f), ukey),
    decreases s.len(),
{
    let m = s.map_values(f);
    if s.len() > 0 {
        lemma_sort_map(s.drop_first(), key, f, ukey);
        assert(m.drop_first() =~= s.drop_first().map_values(f));
        let rest = stable_sort(s.drop_first(), key);
        let urest = stable_sort(m.drop_first(), ukey);
        lemma_lower_bound(rest, key, key(s[0]));
        let b = lower_bound(rest, key, key(s[0]));
        assert forall|j: int| 0 <= j < b implies !lex_le(ukey(m[0]), ukey(#[trigger] urest[j])) by {
            assert(urest[j] == f(rest[j]));
        }
        if b < urest.len() {
            assert(urest[b as int] == f(rest[b as int]));
        }
        lemma_lower_bound_unique(urest, ukey, ukey(m[0]), b);
        assert(rest.insert(b as int, s[0]).map_values(f) =~= urest.insert(b as int, m[0]));
    } else {
        assert(stable_sort(s, key).map_values(f) =~= stable_sort(m, ukey));
    }
}

/// Removing adjacent repeats from a sorted sequence leaves each key once, and
/// in order.
pub proof fn lemma_dedup_distinct<T>(s: Seq<T>, key: spec_fn(T) -> Seq<int>)
    requires
        sorted_by_key(s, key),
    ensures
        sorted_by_key(dedup_adjacent(s, key), key),
        distinct_keys(dedup_adjacent(s, key), key),
        s.len() > 0 ==> dedup_adjacent(s, key).len() > 0 && key(dedup_adjacent(s, key).last())
            == key(s.last()),
        forall|i: int|
            0 <= i < dedup_adjacent(s, key).len() ==> s.contains(#[trigger] dedup_adjacent(s, key)[i]),
    decreases s.len(),
{
    if s.len() > 0 {
        let t = s.drop_last();
        assert forall|i: int, j: int| 0 <= i <= j < t.len() implies lex_le(
            #[trigger] key(t[i]),
            #[trigger] key(t[j]),
        ) by {
            assert(t[i] == s[i] && t[j] == s[j]);
        }
        lemma_dedup_distinct(t, key);
        let kept = dedup_adjacent(t, key);
        let out = dedup_adjacent(s, key);
        assert forall|i: int| 0 <= i < kept.len() implies s.contains(#[trigger] kept[i]) && lex_le(
            key(kept[i]),
            key(s.last()),
        ) by {
            assert(t.contains(kept[i]));
            let m = t.index_of(kept[i]);
            assert(s[m] == kept[i]);
            assert(lex_le(key(s[m]), key(s[s.len() - 1])));
        }
        if out.len() != kept.len() {
            assert forall|i: int, j: int| 0 <= i <= j < out.len() implies lex_le(
                #[trigger] key(out[i]),
                #[trigger] key(out[j]),
            ) by {
                if j < kept.len() {
                    assert(out[i] == kept[i] && out[j] == kept[j]);
                } else if i < kept.len() {
                    assert(out[i] == kept[i]);
                } else {
                    lemma_lex_reflexive(key(out[i]));
                }
            }
            assert forall|i: int| 0 <= i < kept.len() implies #[trigger] key(kept[i]) != key(
                s.last(),
            ) by {
                if key(kept[i]) == key(s.last()) {
                    assert(lex_le(key(kept[i]), key(kept[kept.len() - 1])));
                    lemma_lex_antisymmetric(key(kept[i]), key(kept.last()));
                }
            }
            assert forall|i: int, j: int|
                0 <= i < out.len() && 0 <= j < out.len() && i != j implies #[trigger] key(out[i])
                != #[trigger] key(out[j]) by {
                if i < kept.len() && j < kept.len() {
                    assert(out[i] == kept[i] && out[j] == kept[j]);
                } else if i < kept.len() {
                    assert(out[i] == kept[i]);
                } else {
                    assert(out[j] == kept[j]);
                }
            }
            assert forall|i: int| 0 <= i < out.len() implies s.contains(#[trigger] out[i]) by {
                if i < kept.len() {
                    assert(out[i] == kept[i]);
                } else {
                    assert(s[s.len() - 1] == out[i]);
                }
            }
        }
    }
}

/// Removing adjacent repeats loses no key.
pub proof fn lemma_dedup_keeps_keys<T>(s: Seq<T>, key: spec_fn(T) -> Seq<int>, i: int)
    requires
        0 <= i < s.len(),
    ensures
        exists|j: int|
            0 <= j < dedup_adjacent(s, key).len() && key(#[trigger] dedup_adjacent(s, key)[j])
                == key(s[i]),
    decreases s.len(),
{
    let kept = dedup_adjacent(s.drop_last(), key);
    let out = dedup_adjacent(s, key);
    if i < s.len() - 1 {
        lemma_dedup_keeps_keys(s.drop_last(), key, i);
        let j = choose|j: int|
            0 <= j < kept.len() && key(#[trigger] kept[j]) == key(s.drop_last()[i]);
        assert(out[j] == kept[j]);
    } else {
        assert(key(out[out.len() - 1]) == key(s[i]));
    }
}

/// Removing adjacent repeats commutes with a map that keeps the keys.
pub proof fn lemma_dedup_map<T, U>(
    s: Seq<T>,
    key: spec_fn(T) -> Seq<int>,
    f: spec_fn(T) -> U,
    ukey: spec_fn(U) -> Seq<int>,
)
    requires
        forall|x: T| #[trigger] ukey(f(x)) == key(x),
    ensures
        dedup_adjacent(s, key).map_values(f) == dedup_adjacent(s.map_values(f), ukey),
    decreases s.len(),
{
    let m = s.map_values(f);
    if s.len() > 0 {
        lemma_dedup_map(s.drop_last(), key, f, ukey);
        assert(m.drop_last() =~= s.drop_last().map_values(f));
        let kept = dedup_adjacent(s.drop_last(), key);
        if kept.len() > 0 {
            assert(kept.map_values(f).last() == f(kept.last()));
        }
        assert(dedup_adjacent(s, key).map_values(f) =~= dedup_adjacent(m, ukey));
    } else {
        assert(dedup_adjacent(s, key).map_values(f) =~= dedup_adjacent(m, ukey));
    }
}

/// Filtering commutes with a map that keeps what the filter looks at.
pub proof fn lemma_filter_map<T, U>(
    s: Seq<T>,
    keep: spec_fn(T) -> bool,
    f: spec_fn(T) -> U,
    ukeep: spec_fn(U) -> bool,
)
    requires
        forall|x: T| #[trigger] ukeep(f(x)) == keep(x),
    ensures
        s.filter(keep).map_values(f) == s.map_values(f).filter(ukeep),
    decreases s.len(),
{
    reveal(Seq::filter);
    let m = s.map_values(f);
    if s.len() > 0 {
        lemma_filter_map(s.drop_last(), keep, f, ukeep);
        assert(m.drop_last() =~= s.drop_last().map_values(f));
        assert(m.last() == f(s.last()));
        assert(ukeep(f(s.last())) == keep(s.last()));
        assert(s.filter(keep).map_values(f) =~= m.filter(ukeep));
    } else {
        assert(s.filter(keep).map_values(f) =~= m.filter(ukeep));
    }
}

/// A value that is ordered by a key.
pub trait SortKey: Sized {
    /// The key, a sequence that [`lex_le`] orders.
    spec fn sort_key(&self) -> Seq<int>;

    /// Whether this value's key equals the other's or comes before it.
    fn key_le(&self, other: &Self) -> (b: bool)
        ensures
            b == lex_le(self.sort_key(), other.sort_key()),
    ;
}

/// The key of a value of `T`, as a function.
pub open spec fn key_of<T: SortKey>() -> spec_fn(T) -> Seq<int> {
    |x: T| x.sort_key()
}

/// Whether byte string `a` equals `b` or comes before it.
pub fn bytes_le(a: &[u8], b: &[u8]) -> (r: bool)
    ensures
        r == lex_le(byte_key(a@), byte_key(b@)),
{
    let mut i: usize = 0;
    let ghost ka = byte_key(a@);
    let ghost kb = byte_key(b@);
    assert(ka.subrange(0, ka.len() as int) =~= ka);
    assert(kb.subrange(0, kb.len() as int) =~= kb);
    while i < a.len() && i < b.len() && a[i] == b[i]
        invariant
            i <= a.len(),
            i <= b.len(),
            ka == byte_key(a@),
            kb == byte_key(b@),
            lex_le(ka, kb) == lex_le(
                ka.subrange(i as int, ka.len() as int),
                kb.subrange(i as int, kb.len() as int),
            ),
        decreases a.len() - i,
    {
        proof {
            let ta = ka.subrange(i as int, ka.len() as int);
            let tb = kb.subrange(i as int, kb.len() as int);
            assert(ta[0] == tb[0]);
            assert(ta.drop_first() =~= ka.subrange(i + 1, ka.len() as int));
            assert(tb.drop_first() =~= kb.subrange(i + 1, kb.len() as int));
        }
        i += 1;
    }
    proof {
        let ta = ka.subrange(i as int, ka.len() as int);
        let tb = kb.subrange(i as int, kb.len() as int);
        if i < a.len() && i < b.len() {
            assert(ta[0] == a@[i as int] as int);
            assert(tb[0] == b@[i as int] as int);
        }
    }
    if i >= a.len() {
        true
    } else if i >= b.len() {
        false
    } else {
        a[i] < b[i]
    }
}

/// Whether two byte strings are the same.
pub fn bytes_eq(a: &[u8], b: &[u8]) -> (r: bool)
    ensures
        r == (a@ == b@),
{
    if a.len() != b.len() {
        return false;
    }
    let mut i: usize = 0;
    while i < a.len()
        invariant
            i <= a.len(),
            a.len() == b.len(),
            forall|j: int| 0 <= j < i ==> a@[j] == b@[j],
        decreases a.len() - i,
    {
        if a[i] != b[i] {
            assert(a@ != b@);
            return false;
        }
        i += 1;
    }
    assert(a@ =~= b@);
    true
}

/// The items of `v` in the order of their keys, see [`stable_sort`].
pub fn stable_sort_vec<T: SortKey>(v: Vec<T>) -> (out: Vec<T>)
    ensures
        out@ == stable_sort(v@, key_of::<T>()),
{
    let mut v = v;
    let mut out: Vec<T> = Vec::new();
    let ghost all = v@;
    let ghost key = key_of::<T>();
    assert(all.subrange(all.len() as int, all.len() as int) =~= Seq::<T>::empty());
    while v.len() > 0
        invariant
            v@ == all.subrange(0, v@.len() as int),
            v@.len() <= all.len(),
            key == key_of::<T>(),
            out@ == stable_sort(all.subrange(v@.len() as int, all.len() as int), key),
        decreases v.len(),
    {
        let ghost n = v@.len() as int;
        let ghost tail = all.subrange(n, all.len() as int);
        let ghost longer = all.subrange(n - 1, all.len() as int);
        let item = v.pop().unwrap();
        assert(v@ =~= all.subrange(0, n - 1));
        assert(item == all[n - 1]);
        assert(longer[0] == item);
        assert(longer.drop_first() =~= tail);
        proof {
            lemma_sort_sorted(tail, key);
        }
        // Binary search for the first item that does not come before `item`.
        let mut lo: usize = 0;
        let mut hi: usize = out.len();
        while lo < hi
            invariant
                lo <= hi <= out@.len(),
                key == key_of::<T>(),
                sorted_by_key(out@, key),
                forall|j: int| 0 <= j < lo ==> !lex_le(key(item), key(#[trigger] out@[j])),
                hi < out@.len() ==> lex_le(key(item), key(out@[hi as int])),
            decreases hi - lo,
        {
            let mid: usize = lo + (hi - lo) / 2;
            if item.key_le(&out[mid]) {
                hi = mid;
            } else {
                proof {
                    assert forall|j: int| 0 <= j < mid + 1 implies !lex_le(
                        key(item),
                        key(#[trigger] out@[j]),
                    ) by {
                        if lex_le(key(item), key(out@[j])) {
                            assert(lex_le(key(out@[j]), key(out@[mid as int])));
                            lemma_lex_transitive(key(item), key(out@[j]), key(out@[mid as int]));
                        }
                    }
                }
                lo = mid + 1;
            }
        }
        proof {
            lemma_lower_bound_unique(out@, key, key(item), lo as nat);
        }
        out.insert(lo, item);
    }
    assert(all.subrange(0, all.len() as int) =~= all);
    out
}

/// The first place where two sequences differ decides which of them comes
/// first; where one of them ends before such a place, the shorter one does.
pub proof fn law_first_difference_decides(a: Seq<int>, b: Seq<int>, n: nat)
    requires
        n <= a.len(),
        n <= b.len(),
        forall|i: int| 0 <= i < n ==> a[i] == b[i],
    ensures
        n < a.len() && n < b.len() && a[n as int] < b[n as int] ==> lex_le(a, b) && !lex_le(b, a),
        n == a.len() ==> lex_le(a, b),
        n == a.len() && n < b.len() ==> !lex_le(b, a),
    decreases n,
{
    if n > 0 {
        let x = a.drop_first();
        let y = b.drop_first();
        assert forall|i: int| 0 <= i < n - 1 implies x[i] == y[i] by {
            assert(x[i] == a[i + 1] && y[i] == b[i + 1]);
        }
        law_first_difference_decides(x, y, (n - 1) as nat);
    }
}

/// Items with one key keep the order that they came in.
pub proof fn law_equal_keys_keep_order<T>(s: Seq<T>, key: spec_fn(T) -> Seq<int>, k: Seq<int>)
    ensures
        stable_sort(s, key).filter(|t: T| key(t) == k) == s.filter(|t: T| key(t) == k),
    decreases s.len(),
{
    let p = |t: T| key(t) == k;
    if s.len() > 0 {
        let x = s[0];
        let tail = s.drop_first();
        let rest = stable_sort(tail, key);
        let b = lower_bound(rest, key, key(x)) as int;
        law_equal_keys_keep_order(tail, key, k);
        lemma_lower_bound(rest, key, key(x));
        let front = rest.subrange(0, b);
        let back = rest.subrange(b, rest.len() as int);
        assert(rest =~= front + back);
        assert(stable_sort(s, key) =~= (front + seq![x]) + back);
        assert(s =~= seq![x] + tail);
        Seq::filter_distributes_over_add(front, back, p);
        Seq::filter_distributes_over_add(front + seq![x], back, p);
        Seq::filter_distributes_over_add(front, seq![x], p);
        Seq::filter_distributes_over_add(seq![x], tail, p);
        if p(x) {
            assert forall|j: int| 0 <= j < front.len() implies !p(#[trigger] front[j]) by {
                assert(front[j] == rest[j]);
                if key(rest[j]) == key(x) {
                    lemma_lex_reflexive(key(x));
                }
            }
            lemma_filter_none(front, p);
            assert(front.filter(p) =~= Seq::<T>::empty());
            assert(front.filter(p) + seq![x].filter(p) + back.filter(p) =~= seq![x].filter(p) + (
            front.filter(p) + back.filter(p)));
        } else {
            lemma_filter_none(seq![x], p);
            assert(seq![x].filter(p) =~= Seq::<T>::empty());
            assert(front.filter(p) + seq![x].filter(p) + back.filter(p) =~= seq![x].filter(p) + (
            front.filter(p) + back.filter(p)));
        }
    }
}

proof fn lemma_filter_none<T>(s: Seq<T>, p: spec_fn(T) -> bool)
    requires
        forall|j: int| 0 <= j < s.len() ==> !p(#[trigger] s[j]),
    ensures
        s.filter(p).len() == 0,
    decreases s.len(),
{
    reveal(Seq::filter);
    if s.len() > 0 {
        let front = s.drop_last();
        assert forall|j: int| 0 <= j < front.len() implies !p(#[trigger] front[j]) by {
            assert(front[j] == s[j]);
        }
        assert(!p(s[s.len() - 1]));
        lemma_filter_none(front, p);
    }
}

/// What is left without repeated keys are items of a sorted sequence, in its
/// order.
pub proof fn lemma_dedup_members<T>(s: Seq<T>, key: spec_fn(T) -> Seq<int>)
    requires
        sorted_by_key(s, key),
    ensures
        forall|k: int|
            0 <= k < dedup_adjacent(s, key).len() ==> s.contains(
                #[trigger] dedup_adjacent(s, key)[k],
            ),
        forall|m: int, k: int|
            0 <= m <= k < dedup_adjacent(s, key).len() ==> lex_le(
                #[trigger] key(dedup_adjacent(s, key)[m]),
                #[trigger] key(dedup_adjacent(s, key)[k]),
            ),
    decreases s.len(),
{
    if s.len() > 0 {
        let front = s.drop_last();
        assert forall|i: int, j: int| 0 <= i <= j < front.len() implies lex_le(
            #[trigger] key(front[i]),
            #[trigger] key(front[j]),
        ) by {
            assert(front[i] == s[i] && front[j] == s[j]);
        }
        lemma_dedup_members(front, key);
        let out = dedup_adjacent(s, key);
        let before = dedup_adjacent(front, key);
        assert forall|k: int| 0 <= k < out.len() implies s.contains(#[trigger] out[k]) by {
            if k < before.len() {
                assert(out[k] == before[k]);
                let i = front.index_of(before[k]);
                assert(s[i] == out[k]);
            } else {
                assert(s[s.len() - 1] == out[k]);
            }
        }
        assert forall|m: int, k: int| 0 <= m <= k < out.len() implies lex_le(
            #[trigger] key(out[m]),
            #[trigger] key(out[k]),
        ) by {
            if k < before.len() {
                assert(out[k] == before[k] && out[m] == before[m]);
                assert(lex_le(key(before[m]), key(before[k])));
            } else {
                assert(s.contains(out[m]));
                let i = s.index_of(out[m]);
                assert(lex_le(key(s[i]), key(s[s.len() - 1])));
            }
        }
    }
}

/// Items that are picked from a sorted sequence are sorted.
pub proof fn lemma_filter_sorted<T>(
    s: Seq<T>,
    key: spec_fn(T) -> Seq<int>,
    keep: spec_fn(T) -> bool,
)
    requires
        sorted_by_key(s, key),
    ensures
        sorted_by_key(s.filter(keep), key),
        forall|k: int| 0 <= k < s.filter(keep).len() ==> s.contains(#[trigger] s.filter(keep)[k]),
    decreases s.len(),
{
    reveal(Seq::filter);
    if s.len() > 0 {
        let front = s.drop_last();
        assert forall|i: int, j: int| 0 <= i <= j < front.len() implies lex_le(
            #[trigger] key(front[i]),
            #[trigger] key(front[j]),
        ) by {
            assert(front[i] == s[i] && front[j] == s[j]);
        }
        lemma_filter_sorted(front, key, keep);
        let out = s.filter(keep);
        let before = front.filter(keep);
        assert forall|k: int| 0 <= k < out.len() implies s.contains(#[trigger] out[k]) by {
            if k < before.len() {
                assert(out[k] == before[k]);
                let i = front.index_of(before[k]);
                assert(s[i] == out[k]);
            } else {
                assert(s[s.len() - 1] == out[k]);
            }
        }
        assert forall|m: int, k: int| 0 <= m <= k < out.len() implies lex_le(
            #[trigger] key(out[m]),
            #[trigger] key(out[k]),
        ) by {
            if k < before.len() {
                assert(out[k] == before[k] && out[m] == before[m]);
                assert(lex_le(key(before[m]), key(before[k])));
            } else {
                assert(s.contains(out[m]));
                let i = s.index_of(out[m]);
                assert(lex_le(key(s[i]), key(s[s.len() - 1])));
            }
        }
    }
}

} // verus!
