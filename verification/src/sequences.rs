//! Facts about filtering and mapping a sequence one element at a time.

use vstd::prelude::*;

verus! {

/// What one more element adds to a filtered sequence.
pub proof fn lemma_filter_step<A>(s: Seq<A>, keep: spec_fn(A) -> bool, i: int)
    requires
        0 <= i < s.len(),
    ensures
        s.take(i + 1).filter(keep) == if keep(s[i]) {
            s.take(i).filter(keep).push(s[i])
        } else {
            s.take(i).filter(keep)
        },
        s.take(0).filter(keep) == Seq::<A>::empty(),
        s.take(s.len() as int) == s,
{
    let head = s.take(i + 1);
    assert(head.drop_last() =~= s.take(i));
    assert(head.last() == s[i]);
    reveal(Seq::filter);
    assert(s.take(0).filter(keep) =~= Seq::<A>::empty());
    assert(s.take(s.len() as int) =~= s);
}

/// Filtering nothing gives nothing.
pub proof fn lemma_filter_start<A>(s: Seq<A>, keep: spec_fn(A) -> bool)
    ensures
        s.take(0).filter(keep) == Seq::<A>::empty(),
        s.take(s.len() as int) == s,
{
    reveal(Seq::filter);
    assert(s.take(0).filter(keep) =~= Seq::<A>::empty());
    assert(s.take(s.len() as int) =~= s);
}

/// What one more element adds to a filtered and then mapped sequence.
pub proof fn lemma_filter_map_step<A, B>(
    s: Seq<A>,
    keep: spec_fn(A) -> bool,
    to: spec_fn(A) -> B,
    i: int,
)
    requires
        0 <= i < s.len(),
    ensures
        s.take(i + 1).filter(keep).map_values(to) == if keep(s[i]) {
            s.take(i).filter(keep).map_values(to).push(to(s[i]))
        } else {
            s.take(i).filter(keep).map_values(to)
        },
{
    lemma_filter_step(s, keep, i);
    if keep(s[i]) {
        assert(s.take(i).filter(keep).push(s[i]).map_values(to) =~= s.take(i).filter(
            keep,
        ).map_values(to).push(to(s[i])));
    }
}

/// Filtering and mapping nothing gives nothing.
pub proof fn lemma_filter_map_start<A, B>(s: Seq<A>, keep: spec_fn(A) -> bool, to: spec_fn(A) -> B)
    ensures
        s.take(0).filter(keep).map_values(to) == Seq::<B>::empty(),
        s.take(s.len() as int) == s,
{
    lemma_filter_start(s, keep);
    assert(s.take(0).filter(keep).map_values(to) =~= Seq::<B>::empty());
}

/// Mapping after one more element was pushed.
pub proof fn lemma_map_push<A, B>(s: Seq<A>, x: A, to: spec_fn(A) -> B)
    ensures
        s.push(x).map_values(to) == s.map_values(to).push(to(x)),
{
    assert(s.push(x).map_values(to) =~= s.map_values(to).push(to(x)));
}

/// What an optional record holds, as plain values.
pub open spec fn opt_view<T: View>(o: Option<T>) -> Option<T::V> {
    match o {
        Some(t) => Some(t@),
        None => None,
    }
}

} // verus!
