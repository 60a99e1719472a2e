//! Stable insertion sort, generic over a total preorder.
//!
//! Every index list of the summary is produced by this sort: the result is
//! pinned exactly to `stable_sorted`, the mathematical insertion sort, so
//! equal elements keep their relative order and the output is a permutation
//! of the input.

use vstd::prelude::*;

verus! {

/// A total preorder an element sequence can be sorted by.
pub trait SortOrd: Sized {
    spec fn le_spec(&self, other: &Self) -> bool;

    proof fn lemma_le_total(a: &Self, b: &Self)
        ensures
            a.le_spec(b) || b.le_spec(a),
    ;

    proof fn lemma_le_trans(a: &Self, b: &Self, c: &Self)
        requires
            a.le_spec(b),
            b.le_spec(c),
        ensures
            a.le_spec(c),
    ;

    fn le(&self, other: &Self) -> (r: bool)
        ensures
            r == self.le_spec(other),
    ;
}

/// `x` placed after the longest prefix it is not below: the insertion step
/// of a stable insertion sort.
pub open spec fn insert_sorted<T: SortOrd>(s: Seq<T>, x: T) -> Seq<T>
    decreases s.len(),
{
    if s.len() == 0 {
        seq![x]
    } else if s.last().le_spec(&x) {
        s.push(x)
    } else {
        insert_sorted(s.drop_last(), x).push(s.last())
    }
}

/// The stable insertion sort of `s`.
pub open spec fn stable_sorted<T: SortOrd>(s: Seq<T>) -> Seq<T>
    decreases s.len(),
{
    if s.len() == 0 {
        Seq::empty()
    } else {
        insert_sorted(stable_sorted(s.drop_last()), s.last())
    }
}

/// Non-decreasing under the preorder.
pub open spec fn sorted<T: SortOrd>(s: Seq<T>) -> bool {
    forall|i: int, j: int| 0 <= i < j < s.len() ==> s[i].le_spec(&s[j])
}

/// Inserting at the position the scan-from-the-end finds is exactly
/// `insert_sorted`.
pub proof fn lemma_insert_sorted_at<T: SortOrd>(s: Seq<T>, x: T, j: int)
    requires
        0 <= j <= s.len(),
        forall|k: int| j <= k < s.len() ==> !(#[trigger] s[k].le_spec(&x)),
        j > 0 ==> s[j - 1].le_spec(&x),
    ensures
        insert_sorted(s, x) == s.subrange(0, j) + seq![x] + s.subrange(j, s.len() as int),
    decreases s.len(),
{
    if s.len() == 0 {
        assert(insert_sorted(s, x) =~= s.subrange(0, j) + seq![x] + s.subrange(
            j,
            s.len() as int,
        ));
    } else if j == s.len() {
        assert(s.last() == s[s.len() - 1]);
        assert(s.last().le_spec(&x));
        assert(s.push(x) =~= s.subrange(0, j) + seq![x] + s.subrange(j, s.len() as int));
    } else {
        assert(s.last() == s[s.len() - 1]);
        assert(!s.last().le_spec(&x));
        let sd = s.drop_last();
        assert(forall|k: int| 0 <= k < sd.len() ==> sd[k] == s[k]);
        lemma_insert_sorted_at(sd, x, j);
        assert(insert_sorted(s, x) == (sd.subrange(0, j) + seq![x] + sd.subrange(
            j,
            sd.len() as int,
        )).push(s.last()));
        assert((sd.subrange(0, j) + seq![x] + sd.subrange(j, sd.len() as int)).push(s.last())
            =~= s.subrange(0, j) + seq![x] + s.subrange(j, s.len() as int));
    }
}

/// The insertion step adds one element.
pub proof fn lemma_insert_sorted_len<T: SortOrd>(s: Seq<T>, x: T)
    ensures
        insert_sorted(s, x).len() == s.len() + 1,
    decreases s.len(),
{
    if s.len() > 0 && !s.last().le_spec(&x) {
        lemma_insert_sorted_len(s.drop_last(), x);
    }
}

/// The insertion step keeps the multiset of elements, adding `x`.
pub proof fn lemma_insert_sorted_multiset<T: SortOrd>(s: Seq<T>, x: T)
    ensures
        insert_sorted(s, x).to_multiset() == s.to_multiset().insert(x),
    decreases s.len(),
{
    broadcast use vstd::seq_lib::group_to_multiset_ensures;

    if s.len() == 0 {
        assert(seq![x] =~= Seq::<T>::empty().push(x));
        assert(insert_sorted(s, x).to_multiset() =~= s.to_multiset().insert(x));
    } else if s.last().le_spec(&x) {
        assert(s.push(x).to_multiset() =~= s.to_multiset().insert(x));
    } else {
        let sd = s.drop_last();
        lemma_insert_sorted_multiset(sd, x);
        assert(sd.push(s.last()) =~= s);
        assert(insert_sorted(s, x).to_multiset() =~= insert_sorted(sd, x).to_multiset().insert(
            s.last(),
        ));
        assert(sd.to_multiset().insert(x).insert(s.last()) =~= sd.to_multiset().insert(
            s.last(),
        ).insert(x));
        assert(sd.push(s.last()).to_multiset() =~= sd.to_multiset().insert(s.last()));
    }
}

/// The insertion step keeps sortedness.
pub proof fn lemma_insert_sorted_sorted<T: SortOrd>(s: Seq<T>, x: T)
    requires
        sorted(s),
    ensures
        sorted(insert_sorted(s, x)),
    decreases s.len(),
{
    if s.len() == 0 {
    } else if s.last().le_spec(&x) {
        let r = s.push(x);
        assert forall|i: int, j: int| 0 <= i < j < r.len() implies r[i].le_spec(&r[j]) by {
            if j == r.len() - 1 {
                if i == s.len() - 1 {
                } else {
                    assert(s[i].le_spec(&s[s.len() - 1]));
                    T::lemma_le_trans(&s[i], &s[s.len() - 1], &x);
                }
            }
        }
    } else {
        let sd = s.drop_last();
        assert(forall|k: int| 0 <= k < sd.len() ==> sd[k] == s[k]);
        lemma_insert_sorted_sorted(sd, x);
        let ri = insert_sorted(sd, x);
        let r = ri.push(s.last());
        lemma_insert_sorted_multiset(sd, x);
        lemma_insert_sorted_len(sd, x);
        broadcast use vstd::seq_lib::group_to_multiset_ensures;

        assert(ri.len() == sd.len() + 1);
        assert forall|i: int, j: int| 0 <= i < j < r.len() implies r[i].le_spec(&r[j]) by {
            if j == r.len() - 1 {
                // every element of `ri` is below `s.last()`: it is either `x`
                // (where the scan said `!s.last().le_spec(&x)`, so totality
                // gives the other direction) or an element of `sd`.
                assert(ri.to_multiset().count(r[i]) > 0);
                assert(ri.contains(r[i]));
                assert(sd.to_multiset().insert(x).count(r[i]) > 0);
                if r[i] == x {
                    T::lemma_le_total(&s[s.len() - 1], &x);
                    assert(x.le_spec(&s.last()));
                } else {
                    assert(sd.to_multiset().count(r[i]) > 0);
                    assert(sd.contains(r[i]));
                    let k = choose|k: int| 0 <= k < sd.len() && sd[k] == r[i];
                    assert(s[k].le_spec(&s[s.len() - 1]));
                }
            }
        }
    }
}

/// `stable_sorted` is sorted and a permutation of its input.
pub proof fn lemma_stable_sorted<T: SortOrd>(s: Seq<T>)
    ensures
        sorted(stable_sorted(s)),
        stable_sorted(s).to_multiset() == s.to_multiset(),
        stable_sorted(s).len() == s.len(),
    decreases s.len(),
{
    broadcast use vstd::seq_lib::group_to_multiset_ensures;

    if s.len() == 0 {
        assert(stable_sorted(s).to_multiset() =~= s.to_multiset());
    } else {
        let sd = s.drop_last();
        lemma_stable_sorted(sd);
        lemma_insert_sorted_sorted(stable_sorted(sd), s.last());
        lemma_insert_sorted_multiset(stable_sorted(sd), s.last());
        lemma_insert_sorted_len(stable_sorted(sd), s.last());
        assert(sd.push(s.last()) =~= s);
        assert(sd.push(s.last()).to_multiset() =~= sd.to_multiset().insert(s.last()));
        assert(stable_sorted(s).to_multiset() =~= s.to_multiset());
    }
}

/// Sorting an already sorted sequence changes nothing.
pub proof fn lemma_stable_sorted_id<T: SortOrd>(s: Seq<T>)
    requires
        sorted(s),
    ensures
        stable_sorted(s) == s,
    decreases s.len(),
{
    if s.len() > 0 {
        let sd = s.drop_last();
        assert(forall|k: int| 0 <= k < sd.len() ==> sd[k] == s[k]);
        lemma_stable_sorted_id(sd);
        if sd.len() > 0 {
            assert(sd.last() == s[s.len() - 2]);
            assert(s[s.len() - 2].le_spec(&s[s.len() - 1]));
            assert(insert_sorted(sd, s.last()) == sd.push(s.last()));
        }
        assert(sd.push(s.last()) =~= s);
    }
}

/// Sort `v` stably by the element order.
pub fn insertion_sort<T: SortOrd>(v: Vec<T>) -> (r: Vec<T>)
    ensures
        r@ == stable_sorted(v@),
{
    let ghost orig = v@;
    let mut src = v;
    let n = src.len();
    proof {
        assert(orig.len() == n);
    }
    let mut out: Vec<T> = Vec::new();
    let mut i: usize = 0;
    while src.len() > 0
        invariant
            i <= orig.len() <= usize::MAX,
            src@ == orig.skip(i as int),
            out@ == stable_sorted(orig.take(i as int)),
        decreases src@.len(),
    {
        proof {
            assert(i < orig.len());
        }
        let x = src.remove(0);
        proof {
            assert(src@ =~= orig.skip(i + 1));
            assert(x == orig[i as int]);
        }
        let ghost before = out@;
        let mut j = out.len();
        while j > 0 && !out[j - 1].le(&x)
            invariant
                j <= out@.len(),
                out@ == before,
                forall|k: int| j <= k < out@.len() ==> !(#[trigger] out@[k].le_spec(&x)),
            decreases j,
        {
            j = j - 1;
        }
        out.insert(j, x);
        proof {
            lemma_insert_sorted_at(before, x, j as int);
            assert(out@ =~= before.subrange(0, j as int) + seq![x] + before.subrange(
                j as int,
                before.len() as int,
            ));
            assert(orig.take(i + 1).drop_last() =~= orig.take(i as int));
            assert(orig.take(i + 1).last() == orig[i as int]);
            assert(out@ == stable_sorted(orig.take(i + 1)));
        }
        i = i + 1;
    }
    proof {
        assert(orig.take(orig.len() as int) =~= orig);
    }
    out
}

} // verus!
