//! Derivation of the index lists: for each aggregate table, one stably
//! sorted permutation of its key set per sort criterion.
//!
//! Every list starts from the keys in their natural (lexicographic) order
//! and is then stably sorted by the criterion, so ties keep the natural key
//! order. Every list is a permutation of its table's key set: no key is
//! added, dropped or duplicated.

use vstd::prelude::*;
use crate::linmap::LinMap;
use crate::sorting::{insertion_sort, sorted, stable_sorted, SortOrd};
use crate::strkit::{lemma_str_le_antisym, lemma_str_le_total, lemma_str_le_trans, str_le,
    string_le};
use crate::summary::{FrontendOperation, FrontendOperationKey};

verus! {

/// The views of the elements, in order.
pub open spec fn views_of<T: View>(s: Seq<T>) -> Seq<<T as View>::V> {
    s.map_values(|x: T| x@)
}

/// No two elements share a view.
pub open spec fn distinct_view_seq<T: View>(s: Seq<T>) -> bool {
    forall|i: int, j: int| 0 <= i < j < s.len() ==> s[i]@ != s[j]@
}

/// `l` lists each key of `m` exactly once.
pub open spec fn lists_keys_of<T: View, V>(l: Seq<T>, m: Map<<T as View>::V, V>) -> bool {
    &&& distinct_view_seq(l)
    &&& views_of(l).to_set() == m.dom()
}

/// A permutation of a sequence with pairwise distinct views again has
/// pairwise distinct views, and the same set of views.
pub proof fn lemma_perm_views<T: View>(a: Seq<T>, b: Seq<T>)
    requires
        a.to_multiset() == b.to_multiset(),
        distinct_view_seq(a),
    ensures
        distinct_view_seq(b),
        views_of(b).to_set() == views_of(a).to_set(),
{
    broadcast use vstd::seq_lib::group_to_multiset_ensures;

    assert forall|i: int, j: int| 0 <= i < j < b.len() implies b[i]@ != b[j]@ by {
        if b[i]@ == b[j]@ {
            if b[i] == b[j] {
                let x = b[i];
                assert(b.remove(i).to_multiset() =~= b.to_multiset().remove(x));
                assert(b.remove(i)[j - 1] == b[j]);
                assert(b.remove(i).contains(x));
                assert(b.remove(i).to_multiset().count(x) > 0);
                assert(b.to_multiset().count(x) >= 2);
                assert(a.to_multiset().count(x) >= 2);
                assert(a.to_multiset().count(x) > 0);
                assert(a.contains(x));
                let p = choose|p: int| 0 <= p < a.len() && a[p] == x;
                assert(a.remove(p).to_multiset() =~= a.to_multiset().remove(x));
                assert(a.remove(p).to_multiset().count(x) > 0);
                assert(a.remove(p).contains(x));
                let q0 = choose|q: int| 0 <= q < a.remove(p).len() && a.remove(p)[q] == x;
                let q = if q0 < p {
                    q0
                } else {
                    q0 + 1
                };
                assert(a[q] == x);
                assert(p != q);
                assert(a[p]@ == a[q]@);
                assert(false);
            } else {
                assert(b.to_multiset().count(b[i]) > 0);
                assert(a.to_multiset().count(b[i]) > 0);
                assert(a.contains(b[i]));
                assert(b.to_multiset().count(b[j]) > 0);
                assert(a.to_multiset().count(b[j]) > 0);
                assert(a.contains(b[j]));
                let p = choose|p: int| 0 <= p < a.len() && a[p] == b[i];
                let q = choose|q: int| 0 <= q < a.len() && a[q] == b[j];
                assert(p != q);
                assert(a[p]@ == a[q]@);
                assert(false);
            }
        }
    }
    assert forall|v: <T as View>::V|
        views_of(b).to_set().contains(v) <==> views_of(a).to_set().contains(v) by {
        if views_of(b).to_set().contains(v) {
            let i = choose|i: int| 0 <= i < views_of(b).len() && views_of(b)[i] == v;
            assert(b.contains(b[i]));
            assert(b.to_multiset().count(b[i]) > 0);
            assert(a.to_multiset().count(b[i]) > 0);
            assert(a.contains(b[i]));
            let p = choose|p: int| 0 <= p < a.len() && a[p] == b[i];
            assert(views_of(a)[p] == v);
            assert(views_of(a).contains(v));
        }
        if views_of(a).to_set().contains(v) {
            let i = choose|i: int| 0 <= i < views_of(a).len() && views_of(a)[i] == v;
            assert(a.contains(a[i]));
            assert(a.to_multiset().count(a[i]) > 0);
            assert(b.to_multiset().count(a[i]) > 0);
            assert(b.contains(a[i]));
            let p = choose|p: int| 0 <= p < b.len() && b[p] == a[i];
            assert(views_of(b)[p] == v);
            assert(views_of(b).contains(v));
        }
    }
    assert(views_of(b).to_set() =~= views_of(a).to_set());
}

/// Every element of a permutation occurs in the original.
pub proof fn lemma_perm_elements<T>(a: Seq<T>, b: Seq<T>)
    requires
        a.to_multiset() == b.to_multiset(),
    ensures
        forall|i: int| 0 <= i < b.len() ==> a.contains(#[trigger] b[i]),
{
    broadcast use vstd::seq_lib::group_to_multiset_ensures;

    assert forall|i: int| 0 <= i < b.len() implies a.contains(b[i]) by {
        assert(b.contains(b[i]));
        assert(b.to_multiset().count(b[i]) > 0);
        assert(a.to_multiset().count(b[i]) > 0);
    }
}

impl SortOrd for String {
    open spec fn le_spec(&self, other: &Self) -> bool {
        str_le(self@, other@)
    }

    proof fn lemma_le_total(a: &Self, b: &Self) {
        lemma_str_le_total(a@, b@);
    }

    proof fn lemma_le_trans(a: &Self, b: &Self, c: &Self) {
        lemma_str_le_trans(a@, b@, c@);
    }

    fn le(&self, other: &Self) -> (r: bool) {
        string_le(self.as_str(), other.as_str())
    }
}

/// The natural order of frontend-operation keys: by name, then by the
/// operation's declaration order.
pub open spec fn op_key_le(a: (Seq<char>, FrontendOperation), b: (Seq<char>, FrontendOperation)) -> bool {
    if a.0 != b.0 {
        str_le(a.0, b.0) && !str_le(b.0, a.0)
    } else {
        a.1.spec_rank() <= b.1.spec_rank()
    }
}

impl SortOrd for FrontendOperationKey {
    open spec fn le_spec(&self, other: &Self) -> bool {
        op_key_le(self@, other@)
    }

    proof fn lemma_le_total(a: &Self, b: &Self) {
        lemma_str_le_total(a.name@, b.name@);
        if str_le(a.name@, b.name@) && str_le(b.name@, a.name@) {
            lemma_str_le_antisym(a.name@, b.name@);
        }
    }

    proof fn lemma_le_trans(a: &Self, b: &Self, c: &Self) {
        lemma_str_le_trans(a.name@, b.name@, c.name@);
        lemma_str_le_trans(b.name@, c.name@, a.name@);
        lemma_str_le_trans(c.name@, a.name@, b.name@);
        if str_le(a.name@, b.name@) && str_le(b.name@, a.name@) {
            lemma_str_le_antisym(a.name@, b.name@);
        }
        if str_le(b.name@, c.name@) && str_le(c.name@, b.name@) {
            lemma_str_le_antisym(b.name@, c.name@);
        }
        if str_le(a.name@, c.name@) && str_le(c.name@, a.name@) {
            lemma_str_le_antisym(a.name@, c.name@);
        }
    }

    fn le(&self, other: &Self) -> (r: bool) {
        proof {
            lemma_str_le_total(self.name@, other.name@);
        }
        let ab = string_le(self.name.as_str(), other.name.as_str());
        let ba = string_le(other.name.as_str(), self.name.as_str());
        if ab && ba {
            proof {
                lemma_str_le_antisym(self.name@, other.name@);
            }
            self.op.rank() <= other.op.rank()
        } else {
            ab
        }
    }
}

/// A string key paired with the 64-bit criterion value it sorts by,
/// largest first.
pub struct KeyMetricDesc {
    pub key: String,
    pub metric: u64,
}

impl View for KeyMetricDesc {
    type V = Seq<char>;

    open spec fn view(&self) -> Seq<char> {
        self.key@
    }
}

impl SortOrd for KeyMetricDesc {
    open spec fn le_spec(&self, other: &Self) -> bool {
        self.metric >= other.metric
    }

    proof fn lemma_le_total(a: &Self, b: &Self) {
    }

    proof fn lemma_le_trans(a: &Self, b: &Self, c: &Self) {
    }

    fn le(&self, other: &Self) -> (r: bool) {
        self.metric >= other.metric
    }
}

/// A string key paired with the 128-bit time it sorts by, earliest first.
pub struct KeyTimeAsc {
    pub key: String,
    pub metric: u128,
}

impl View for KeyTimeAsc {
    type V = Seq<char>;

    open spec fn view(&self) -> Seq<char> {
        self.key@
    }
}

impl SortOrd for KeyTimeAsc {
    open spec fn le_spec(&self, other: &Self) -> bool {
        self.metric <= other.metric
    }

    proof fn lemma_le_total(a: &Self, b: &Self) {
    }

    proof fn lemma_le_trans(a: &Self, b: &Self, c: &Self) {
    }

    fn le(&self, other: &Self) -> (r: bool) {
        self.metric <= other.metric
    }
}

/// A frontend-operation key paired with the criterion value it sorts by,
/// largest first.
pub struct OpKeyMetricDesc {
    pub key: FrontendOperationKey,
    pub metric: u64,
}

impl View for OpKeyMetricDesc {
    type V = (Seq<char>, FrontendOperation);

    open spec fn view(&self) -> (Seq<char>, FrontendOperation) {
        self.key@
    }
}

impl SortOrd for OpKeyMetricDesc {
    open spec fn le_spec(&self, other: &Self) -> bool {
        self.metric >= other.metric
    }

    proof fn lemma_le_total(a: &Self, b: &Self) {
    }

    proof fn lemma_le_trans(a: &Self, b: &Self, c: &Self) {
    }

    fn le(&self, other: &Self) -> (r: bool) {
        self.metric >= other.metric
    }
}

/// The keys of a string-keyed table in lexicographic order.
pub fn sorted_string_keys<V>(m: &LinMap<String, V>) -> (r: Vec<String>)
    requires
        m.wf(),
    ensures
        lists_keys_of(r@, m@),
        forall|i: int, j: int| 0 <= i < j < r@.len() ==> str_le(r@[i]@, r@[j]@),
{
    let mut keys: Vec<String> = Vec::new();
    let n = m.len();
    let mut i: usize = 0;
    while i < n
        invariant
            m.wf(),
            n == m.key_seq().len(),
            i <= n,
            keys@.len() == i,
            forall|j: int| 0 <= j < i ==> keys@[j]@ == m.key_seq()[j],
        decreases n - i,
    {
        keys.push(m.key_at(i).clone());
        i = i + 1;
    }
    proof {
        m.lemma_dom();
        assert(views_of(keys@) =~= m.key_seq());
        assert forall|i: int, j: int| 0 <= i < j < keys@.len() implies keys@[i]@ != keys@[j]@ by {
            assert(keys@[i]@ == m.key_seq()[i]);
            assert(keys@[j]@ == m.key_seq()[j]);
        }
    }
    let ghost collected = keys@;
    let r = insertion_sort(keys);
    proof {
        crate::sorting::lemma_stable_sorted(collected);
        lemma_perm_views(collected, r@);
        assert(views_of(r@).to_set() == m@.dom());
        assert forall|i: int, j: int| 0 <= i < j < r@.len() implies str_le(r@[i]@, r@[j]@) by {
            assert(sorted(r@));
            assert(r@[i].le_spec(&r@[j]));
        }
    }
    r
}

/// The keys of the frontend-operation table in their natural order.
pub fn sorted_op_keys<V>(m: &LinMap<FrontendOperationKey, V>) -> (r: Vec<FrontendOperationKey>)
    requires
        m.wf(),
    ensures
        lists_keys_of(r@, m@),
        forall|i: int, j: int| 0 <= i < j < r@.len() ==> op_key_le(r@[i]@, r@[j]@),
{
    let mut keys: Vec<FrontendOperationKey> = Vec::new();
    let n = m.len();
    let mut i: usize = 0;
    while i < n
        invariant
            m.wf(),
            n == m.key_seq().len(),
            i <= n,
            keys@.len() == i,
            forall|j: int| 0 <= j < i ==> keys@[j]@ == m.key_seq()[j],
        decreases n - i,
    {
        let k = m.key_at(i);
        keys.push(FrontendOperationKey { name: k.name.clone(), op: k.op });
        i = i + 1;
    }
    proof {
        m.lemma_dom();
        assert(views_of(keys@) =~= m.key_seq());
        assert forall|i: int, j: int| 0 <= i < j < keys@.len() implies keys@[i]@ != keys@[j]@ by {
            assert(keys@[i]@ == m.key_seq()[i]);
            assert(keys@[j]@ == m.key_seq()[j]);
        }
    }
    let ghost collected = keys@;
    let r = insertion_sort(keys);
    proof {
        crate::sorting::lemma_stable_sorted(collected);
        lemma_perm_views(collected, r@);
        assert(views_of(r@).to_set() == m@.dom());
        assert forall|i: int, j: int| 0 <= i < j < r@.len() implies op_key_le(r@[i]@, r@[j]@) by {
            assert(sorted(r@));
            assert(r@[i].le_spec(&r@[j]));
        }
    }
    r
}

/// Sort key/metric pairs largest-metric-first and hand back the keys.
pub fn order_keys_desc(pairs: Vec<KeyMetricDesc>) -> (r: Vec<String>)
    requires
        distinct_view_seq(pairs@),
    ensures
        distinct_view_seq(r@),
        views_of(r@).to_set() == views_of(pairs@).to_set(),
        r@.len() == pairs@.len(),
        forall|i: int| 0 <= i < r@.len() ==> r@[i] == stable_sorted(pairs@)[i].key,
        forall|i: int| 0 <= i < r@.len() ==> pairs@.contains(#[trigger] stable_sorted(pairs@)[i]),
        forall|i: int, j: int|
            0 <= i < j < r@.len() ==> stable_sorted(pairs@)[i].metric >= stable_sorted(
                pairs@,
            )[j].metric,
{
    let ghost orig = pairs@;
    let sorted_pairs = insertion_sort(pairs);
    proof {
        crate::sorting::lemma_stable_sorted(orig);
        lemma_perm_views(orig, sorted_pairs@);
        lemma_perm_elements(orig, sorted_pairs@);
    }
    let mut r: Vec<String> = Vec::new();
    let mut i: usize = 0;
    while i < sorted_pairs.len()
        invariant
            i <= sorted_pairs@.len(),
            sorted_pairs@ == stable_sorted(orig),
            r@.len() == i,
            forall|j: int| 0 <= j < i ==> r@[j] == sorted_pairs@[j].key,
        decreases sorted_pairs@.len() - i,
    {
        r.push(sorted_pairs[i].key.clone());
        i = i + 1;
    }
    proof {
        crate::sorting::lemma_stable_sorted(orig);
        lemma_perm_views(orig, sorted_pairs@);
        lemma_perm_elements(orig, sorted_pairs@);
        assert(views_of(r@) =~= views_of(sorted_pairs@));
        assert forall|i: int, j: int| 0 <= i < j < r@.len() implies r@[i]@ != r@[j]@ by {
            assert(sorted_pairs@[i]@ != sorted_pairs@[j]@);
        }
        assert forall|i: int, j: int|
            0 <= i < j < sorted_pairs@.len() implies sorted_pairs@[i].metric
            >= sorted_pairs@[j].metric by {
            assert(crate::sorting::sorted(sorted_pairs@));
            assert(sorted_pairs@[i].le_spec(&sorted_pairs@[j]));
        }
    }
    r
}

/// Sort key/time pairs earliest-first and hand back the keys.
pub fn order_keys_by_time(pairs: Vec<KeyTimeAsc>) -> (r: Vec<String>)
    requires
        distinct_view_seq(pairs@),
    ensures
        distinct_view_seq(r@),
        views_of(r@).to_set() == views_of(pairs@).to_set(),
        r@.len() == pairs@.len(),
        forall|i: int| 0 <= i < r@.len() ==> r@[i] == stable_sorted(pairs@)[i].key,
        forall|i: int| 0 <= i < r@.len() ==> pairs@.contains(#[trigger] stable_sorted(pairs@)[i]),
        forall|i: int, j: int|
            0 <= i < j < r@.len() ==> stable_sorted(pairs@)[i].metric <= stable_sorted(
                pairs@,
            )[j].metric,
{
    let ghost orig = pairs@;
    let sorted_pairs = insertion_sort(pairs);
    proof {
        crate::sorting::lemma_stable_sorted(orig);
        lemma_perm_views(orig, sorted_pairs@);
        lemma_perm_elements(orig, sorted_pairs@);
    }
    let mut r: Vec<String> = Vec::new();
    let mut i: usize = 0;
    while i < sorted_pairs.len()
        invariant
            i <= sorted_pairs@.len(),
            sorted_pairs@ == stable_sorted(orig),
            r@.len() == i,
            forall|j: int| 0 <= j < i ==> r@[j] == sorted_pairs@[j].key,
        decreases sorted_pairs@.len() - i,
    {
        r.push(sorted_pairs[i].key.clone());
        i = i + 1;
    }
    proof {
        crate::sorting::lemma_stable_sorted(orig);
        lemma_perm_views(orig, sorted_pairs@);
        lemma_perm_elements(orig, sorted_pairs@);
        assert(views_of(r@) =~= views_of(sorted_pairs@));
        assert forall|i: int, j: int| 0 <= i < j < r@.len() implies r@[i]@ != r@[j]@ by {
            assert(sorted_pairs@[i]@ != sorted_pairs@[j]@);
        }
        assert forall|i: int, j: int|
            0 <= i < j < sorted_pairs@.len() implies sorted_pairs@[i].metric
            <= sorted_pairs@[j].metric by {
            assert(crate::sorting::sorted(sorted_pairs@));
            assert(sorted_pairs@[i].le_spec(&sorted_pairs@[j]));
        }
    }
    r
}

/// Sort operation-key/metric pairs largest-metric-first and hand back the
/// keys.
pub fn order_op_keys_desc(pairs: Vec<OpKeyMetricDesc>) -> (r: Vec<FrontendOperationKey>)
    requires
        distinct_view_seq(pairs@),
    ensures
        distinct_view_seq(r@),
        views_of(r@).to_set() == views_of(pairs@).to_set(),
        r@.len() == pairs@.len(),
        forall|i: int| 0 <= i < r@.len() ==> r@[i] == stable_sorted(pairs@)[i].key,
        forall|i: int| 0 <= i < r@.len() ==> pairs@.contains(#[trigger] stable_sorted(pairs@)[i]),
        forall|i: int, j: int|
            0 <= i < j < r@.len() ==> stable_sorted(pairs@)[i].metric >= stable_sorted(
                pairs@,
            )[j].metric,
{
    let ghost orig = pairs@;
    let sorted_pairs = insertion_sort(pairs);
    proof {
        crate::sorting::lemma_stable_sorted(orig);
        lemma_perm_views(orig, sorted_pairs@);
        lemma_perm_elements(orig, sorted_pairs@);
    }
    let mut r: Vec<FrontendOperationKey> = Vec::new();
    let mut i: usize = 0;
    while i < sorted_pairs.len()
        invariant
            i <= sorted_pairs@.len(),
            sorted_pairs@ == stable_sorted(orig),
            r@.len() == i,
            forall|j: int| 0 <= j < i ==> r@[j] == sorted_pairs@[j].key,
        decreases sorted_pairs@.len() - i,
    {
        let k = &sorted_pairs[i].key;
        r.push(FrontendOperationKey { name: k.name.clone(), op: k.op });
        i = i + 1;
    }
    proof {
        crate::sorting::lemma_stable_sorted(orig);
        lemma_perm_views(orig, sorted_pairs@);
        lemma_perm_elements(orig, sorted_pairs@);
        assert(views_of(r@) =~= views_of(sorted_pairs@));
        assert forall|i: int, j: int| 0 <= i < j < r@.len() implies r@[i]@ != r@[j]@ by {
            assert(sorted_pairs@[i]@ != sorted_pairs@[j]@);
        }
        assert forall|i: int, j: int|
            0 <= i < j < sorted_pairs@.len() implies sorted_pairs@[i].metric
            >= sorted_pairs@[j].metric by {
            assert(crate::sorting::sorted(sorted_pairs@));
            assert(sorted_pairs@[i].le_spec(&sorted_pairs@[j]));
        }
    }
    r
}

} // verus!
