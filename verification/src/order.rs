//! Total orders on the library's records and a sort that is proved against
//! them.

use vstd::prelude::*;
use vstd::seq_lib::*;
use crate::text::Rank;

verus! {

/// A type whose values stand in a total order, given as a rank.
pub trait Ranked: Sized {
    /// Where `self` stands relative to `other`.
    spec fn rank_to(&self, other: &Self) -> Rank;

    /// Computes `rank_to`.
    fn rank(&self, other: &Self) -> (r: Rank)
        ensures
            r == self.rank_to(other),
    ;

    /// Seen from the other side the rank is flipped.
    proof fn lemma_rank_flip(a: &Self, b: &Self)
        ensures
            b.rank_to(a) == a.rank_to(b).flip(),
    ;

    /// "Not after" is transitive.
    proof fn lemma_rank_trans(a: &Self, b: &Self, c: &Self)
        requires
            a.rank_to(b) != Rank::After,
            b.rank_to(c) != Rank::After,
        ensures
            a.rank_to(c) != Rank::After,
    ;
}

/// Whether no element of `s` ranks after a later one.
pub open spec fn ascending<T: Ranked>(s: Seq<T>) -> bool {
    forall|i: int, j: int| 0 <= i < j < s.len() ==> s[i].rank_to(&s[j]) != Rank::After
}

/// Whether no element of `s` ranks before a later one.
pub open spec fn descending<T: Ranked>(s: Seq<T>) -> bool {
    forall|i: int, j: int| 0 <= i < j < s.len() ==> s[i].rank_to(&s[j]) != Rank::Before
}

/// Reading an ascending sequence backwards gives a descending one.
pub proof fn lemma_reverse_ascending<T: Ranked>(s: Seq<T>)
    requires
        ascending(s),
    ensures
        descending(s.reverse()),
{
    let r = s.reverse();
    assert forall|i: int, j: int| 0 <= i < j < r.len() implies r[i].rank_to(&r[j])
        != Rank::Before by {
        let a = s.len() - 1 - j;
        let b = s.len() - 1 - i;
        assert(s[a].rank_to(&s[b]) != Rank::After);
        T::lemma_rank_flip(&s[a], &s[b]);
    }
}

/// Index at which `x` goes into the ascending `out`: behind every element
/// that does not rank after it.
fn insertion_point<T: Ranked>(out: &Vec<T>, x: &T) -> (p: usize)
    requires
        ascending(out@),
    ensures
        p <= out.len(),
        forall|i: int| 0 <= i < p ==> out@[i].rank_to(x) != Rank::After,
        forall|j: int| p <= j < out.len() ==> x.rank_to(&out@[j]) != Rank::After,
{
    let mut p: usize = 0;
    while p < out.len()
        invariant
            p <= out.len(),
            ascending(out@),
            forall|i: int| 0 <= i < p ==> out@[i].rank_to(x) != Rank::After,
        decreases out.len() - p,
    {
        match out[p].rank(x) {
            Rank::After => {
                proof {
                    T::lemma_rank_flip(&out@[p as int], x);
                    assert forall|j: int| p <= j < out.len() implies x.rank_to(&out@[j])
                        != Rank::After by {
                        if j > p {
                            assert(out@[p as int].rank_to(&out@[j]) != Rank::After);
                            T::lemma_rank_trans(x, &out@[p as int], &out@[j]);
                        }
                    }
                }
                return p;
            },
            _ => {},
        }
        p += 1;
    }
    p
}

/// Sorts `v` into ascending order. The result holds the elements of `v`,
/// each as often as `v` does.
pub fn sort_ascending<T: Ranked>(v: Vec<T>) -> (r: Vec<T>)
    ensures
        r@.to_multiset() == v@.to_multiset(),
        ascending(r@),
{
    let mut input = v;
    let mut out: Vec<T> = Vec::new();
    proof {
        assert(out@.to_multiset() =~= vstd::multiset::Multiset::<T>::empty()) by {
            out@.to_multiset_ensures();
        }
        assert(out@.to_multiset().add(input@.to_multiset()) =~= v@.to_multiset());
    }
    while input.len() > 0
        invariant
            out@.to_multiset().add(input@.to_multiset()) == v@.to_multiset(),
            ascending(out@),
        decreases input.len(),
    {
        let ghost before = input@;
        let ghost sorted = out@;
        let x = input.pop().unwrap();
        let p = insertion_point(&out, &x);
        out.insert(p, x);
        proof {
            assert(before =~= input@.push(x));
            to_multiset_build(input@, x);
            to_multiset_insert(sorted, p as int, x);
            assert(out@.to_multiset().add(input@.to_multiset()) =~= sorted.to_multiset().add(
                before.to_multiset(),
            ));
            sorted.insert_ensures(p as int, x);
            assert forall|i: int, j: int| 0 <= i < j < out@.len() implies out@[i].rank_to(
                &out@[j],
            ) != Rank::After by {
                if j < p {
                    assert(out@[i] == sorted[i] && out@[j] == sorted[j]);
                } else if j == p {
                    assert(out@[i] == sorted[i]);
                } else if i < p {
                    assert(out@[i] == sorted[i] && out@[j] == sorted[j - 1]);
                } else if i == p {
                    assert(out@[j] == sorted[j - 1]);
                } else {
                    assert(out@[i] == sorted[i - 1] && out@[j] == sorted[j - 1]);
                }
            }
        }
    }
    proof {
        assert(input@.to_multiset() =~= vstd::multiset::Multiset::<T>::empty()) by {
            input@.to_multiset_ensures();
        }
        assert(out@.to_multiset().add(input@.to_multiset()) =~= out@.to_multiset());
    }
    out
}

/// Turns `v` around.
pub fn reversed<T>(v: Vec<T>) -> (r: Vec<T>)
    ensures
        r@ == v@.reverse(),
{
    let mut input = v;
    let mut out: Vec<T> = Vec::new();
    while input.len() > 0
        invariant
            input.len() + out.len() == v.len(),
            input@ == v@.subrange(0, input.len() as int),
            forall|k: int| 0 <= k < out.len() ==> out@[k] == v@[v.len() - 1 - k],
        decreases input.len(),
    {
        let x = input.pop().unwrap();
        out.push(x);
    }
    assert(out@ =~= v@.reverse());
    out
}

/// Sorts `v` into descending order. The result holds the elements of `v`,
/// each as often as `v` does.
pub fn sort_descending<T: Ranked>(v: Vec<T>) -> (r: Vec<T>)
    ensures
        r@.to_multiset() == v@.to_multiset(),
        descending(r@),
{
    let sorted = sort_ascending(v);
    proof {
        lemma_reverse_ascending(sorted@);
        sorted@.lemma_reverse_to_multiset();
    }
    reversed(sorted)
}

/// Two sequences that hold the same elements equally often still do so
/// after each element was mapped.
pub proof fn lemma_map_keeps_multiset<A, B>(a: Seq<A>, b: Seq<A>, f: spec_fn(A) -> B)
    requires
        a.to_multiset() == b.to_multiset(),
    ensures
        a.map_values(f).to_multiset() == b.map_values(f).to_multiset(),
    decreases a.len(),
{
    a.to_multiset_ensures();
    b.to_multiset_ensures();
    if a.len() == 0 {
        assert(b.len() == 0);
        assert(a.map_values(f) =~= b.map_values(f));
    } else {
        let x = a.last();
        let head = a.drop_last();
        assert(a =~= head.push(x));
        assert(a.contains(x));
        assert(b.to_multiset().count(x) > 0);
        assert(b.contains(x));
        let j = choose|j: int| 0 <= j < b.len() && b[j] == x;
        let rest = b.remove(j);
        head.to_multiset_ensures();
        assert(head.to_multiset() =~= a.to_multiset().remove(x));
        assert(rest.to_multiset() =~= b.to_multiset().remove(x));
        lemma_map_keeps_multiset(head, rest, f);
        assert(a.map_values(f) =~= head.map_values(f).push(f(x)));
        assert(b.map_values(f) =~= rest.map_values(f).insert(j, f(x)));
        to_multiset_build(head.map_values(f), f(x));
        to_multiset_insert(rest.map_values(f), j, f(x));
    }
}

} // verus!
