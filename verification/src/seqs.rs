//! Facts on filtered sequences.
use vstd::prelude::*;

verus! {

/// What a filter keeps satisfies it and was there before.
pub proof fn lemma_filter_keeps<T>(s: Seq<T>, pred: spec_fn(T) -> bool, i: int)
    requires
        0 <= i < s.filter(pred).len(),
    ensures
        pred(s.filter(pred)[i]),
        s.contains(s.filter(pred)[i]),
    decreases s.len(),
{
    reveal(Seq::filter);
    if s.len() > 0 {
        let front = s.drop_last();
        let kept = front.filter(pred);
        if i < kept.len() {
            lemma_filter_keeps(front, pred, i);
            let m = front.index_of(kept[i]);
            assert(s[m] == kept[i]);
        } else {
            assert(s[s.len() - 1] == s.last());
        }
    }
}

/// A filter keeps what satisfies it.
pub proof fn lemma_filter_complete<T>(s: Seq<T>, pred: spec_fn(T) -> bool, x: T)
    requires
        s.contains(x),
        pred(x),
    ensures
        s.filter(pred).contains(x),
    decreases s.len(),
{
    reveal(Seq::filter);
    let front = s.drop_last();
    let kept = front.filter(pred);
    let i = s.index_of(x);
    if i < front.len() {
        assert(front[i] == x);
        lemma_filter_complete(front, pred, x);
        let m = kept.index_of(x);
        assert(s.filter(pred)[m] == x);
    } else {
        assert(s.filter(pred)[kept.len() as int] == x);
    }
}

} // verus!
