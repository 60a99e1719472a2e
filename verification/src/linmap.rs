//! An association map backed by two parallel vectors, specified against
//! `vstd`'s mathematical `Map`.
//!
//! Every aggregate table of the summary is one of these: keys are looked up
//! linearly, insertion keeps the keys distinct, and the abstract view is the
//! map from key views to values.

use vstd::prelude::*;

verus! {

/// A key of a [`LinMap`]: a viewable value whose equality test decides
/// equality of views.
pub trait MapKey: View + Sized {
    fn key_eq(&self, other: &Self) -> (r: bool)
        ensures
            r == (self@ == other@),
    ;
}

impl MapKey for String {
    fn key_eq(&self, other: &Self) -> (r: bool)
        ensures
            r == (self@ == other@),
    {
        self.eq(other)
    }
}

/// The views of the keys, in storage order.
pub open spec fn key_views<K: View>(keys: Seq<K>) -> Seq<K::V> {
    keys.map_values(|k: K| k@)
}

/// No two keys share a view.
pub open spec fn distinct_views<K: View>(keys: Seq<K>) -> bool {
    forall|i: int, j: int| 0 <= i < j < keys.len() ==> keys[i]@ != keys[j]@
}

/// The mathematical map described by parallel key and value sequences, later
/// entries winning.
pub open spec fn kv_map<K: View, V>(keys: Seq<K>, vals: Seq<V>) -> Map<K::V, V>
    decreases keys.len(),
{
    if keys.len() == 0 || vals.len() == 0 {
        Map::empty()
    } else {
        kv_map(keys.drop_last(), vals.drop_last()).insert(keys.last()@, vals.last())
    }
}

pub proof fn lemma_kv_contains<K: View, V>(keys: Seq<K>, vals: Seq<V>, k: K::V)
    requires
        keys.len() == vals.len(),
    ensures
        kv_map(keys, vals).contains_key(k) <==> exists|i: int|
            0 <= i < keys.len() && keys[i]@ == k,
    decreases keys.len(),
{
    if keys.len() > 0 {
        let kd = keys.drop_last();
        let vd = vals.drop_last();
        lemma_kv_contains(kd, vd, k);
        assert(forall|i: int| 0 <= i < kd.len() ==> kd[i] == keys[i]);
        if keys.last()@ == k {
            assert(keys[keys.len() - 1]@ == k);
        } else {
            if kv_map(keys, vals).contains_key(k) {
                let i = choose|i: int| 0 <= i < kd.len() && kd[i]@ == k;
                assert(keys[i]@ == k);
            }
            if exists|i: int| 0 <= i < keys.len() && keys[i]@ == k {
                let i = choose|i: int| 0 <= i < keys.len() && keys[i]@ == k;
                assert(i < keys.len() - 1);
                assert(kd[i]@ == k);
            }
        }
    }
}

pub proof fn lemma_kv_get<K: View, V>(keys: Seq<K>, vals: Seq<V>, i: int)
    requires
        keys.len() == vals.len(),
        distinct_views(keys),
        0 <= i < keys.len(),
    ensures
        kv_map(keys, vals).contains_key(keys[i]@),
        kv_map(keys, vals)[keys[i]@] == vals[i],
    decreases keys.len(),
{
    let kd = keys.drop_last();
    let vd = vals.drop_last();
    assert(forall|x: int| 0 <= x < kd.len() ==> kd[x] == keys[x]);
    if i == keys.len() - 1 {
    } else {
        assert(keys.last() == keys[keys.len() - 1]);
        assert(keys[i]@ != keys.last()@);
        lemma_kv_get(kd, vd, i);
    }
}

pub proof fn lemma_kv_update<K: View, V>(keys: Seq<K>, vals: Seq<V>, i: int, v: V)
    requires
        keys.len() == vals.len(),
        distinct_views(keys),
        0 <= i < keys.len(),
    ensures
        kv_map(keys, vals.update(i, v)) == kv_map(keys, vals).insert(keys[i]@, v),
    decreases keys.len(),
{
    let kd = keys.drop_last();
    let vd = vals.drop_last();
    let vu = vals.update(i, v);
    assert(forall|x: int| 0 <= x < kd.len() ==> kd[x] == keys[x]);
    if i == keys.len() - 1 {
        assert(vu.drop_last() =~= vd);
        assert(vu.last() == v);
        assert(kv_map(keys, vu) == kv_map(kd, vd).insert(keys.last()@, v));
        assert(kv_map(kd, vd).insert(keys.last()@, v) =~= kv_map(kd, vd).insert(
            keys.last()@,
            vals.last(),
        ).insert(keys[i]@, v));
    } else {
        assert(vu.drop_last() =~= vd.update(i, v));
        assert(vu.last() == vals.last());
        lemma_kv_update(kd, vd, i, v);
        assert(kv_map(keys, vu) == kv_map(kd, vd).insert(kd[i]@, v).insert(
            keys.last()@,
            vals.last(),
        ));
        assert(keys.last() == keys[keys.len() - 1]);
        assert(keys[i]@ != keys.last()@);
        assert(kv_map(kd, vd).insert(kd[i]@, v).insert(keys.last()@, vals.last())
            =~= kv_map(kd, vd).insert(keys.last()@, vals.last()).insert(keys[i]@, v));
    }
}

pub proof fn lemma_kv_dom<K: View, V>(keys: Seq<K>, vals: Seq<V>)
    requires
        keys.len() == vals.len(),
    ensures
        kv_map(keys, vals).dom() =~= key_views(keys).to_set(),
{
    assert forall|a: <K as View>::V|
        kv_map(keys, vals).dom().contains(a) <==> key_views(keys).to_set().contains(a) by {
        lemma_kv_contains(keys, vals, a);
        if exists|i: int| 0 <= i < keys.len() && keys[i]@ == a {
            let i = choose|i: int| 0 <= i < keys.len() && keys[i]@ == a;
            assert(key_views(keys)[i] == a);
            assert(key_views(keys).contains(a));
        }
        if key_views(keys).contains(a) {
            let i = choose|i: int| 0 <= i < key_views(keys).len() && key_views(keys)[i] == a;
            assert(keys[i]@ == a);
        }
    }
}

/// An association map with distinct keys, viewed as a `Map<K::V, V>`.
pub struct LinMap<K: MapKey, V> {
    pub keys: Vec<K>,
    pub vals: Vec<V>,
}

impl<K: MapKey, V> View for LinMap<K, V> {
    type V = Map<K::V, V>;

    open spec fn view(&self) -> Map<K::V, V> {
        kv_map(self.keys@, self.vals@)
    }
}

impl<K: MapKey, V> LinMap<K, V> {
    /// One value per key, no two keys alike.
    pub open spec fn wf(&self) -> bool {
        &&& self.keys@.len() == self.vals@.len()
        &&& distinct_views(self.keys@)
    }

    /// The key views in storage order.
    pub open spec fn key_seq(&self) -> Seq<K::V> {
        key_views(self.keys@)
    }

    pub fn new() -> (r: Self)
        ensures
            r.wf(),
            r@ == Map::<K::V, V>::empty(),
            r.key_seq() =~= Seq::<K::V>::empty(),
    {
        let r = LinMap { keys: Vec::new(), vals: Vec::new() };
        proof {
            assert(r.key_seq() =~= Seq::<K::V>::empty());
        }
        r
    }

    pub fn len(&self) -> (r: usize)
        requires
            self.wf(),
        ensures
            r == self.key_seq().len(),
    {
        self.keys.len()
    }

    fn index_of(&self, k: &K) -> (r: Option<usize>)
        requires
            self.wf(),
        ensures
            match r {
                Some(i) => i < self.keys@.len() && self.keys@[i as int]@ == k@,
                None => forall|i: int| 0 <= i < self.keys@.len() ==> self.keys@[i]@ != k@,
            },
    {
        let mut i: usize = 0;
        while i < self.keys.len()
            invariant
                i <= self.keys@.len(),
                forall|j: int| 0 <= j < i ==> self.keys@[j]@ != k@,
            decreases self.keys@.len() - i,
        {
            if self.keys[i].key_eq(k) {
                return Some(i);
            }
            i = i + 1;
        }
        None
    }

    pub fn get(&self, k: &K) -> (r: Option<&V>)
        requires
            self.wf(),
        ensures
            match r {
                Some(v) => self@.contains_key(k@) && *v == self@[k@],
                None => !self@.contains_key(k@),
            },
    {
        match self.index_of(k) {
            Some(i) => {
                proof {
                    lemma_kv_get(self.keys@, self.vals@, i as int);
                }
                Some(&self.vals[i])
            },
            None => {
                proof {
                    lemma_kv_contains(self.keys@, self.vals@, k@);
                }
                None
            },
        }
    }

    /// Whether `k` has an entry.
    pub fn contains(&self, k: &K) -> (r: bool)
        requires
            self.wf(),
        ensures
            r == self@.contains_key(k@),
    {
        self.get(k).is_some()
    }

    /// Insert or overwrite the entry for `k`.
    pub fn set(&mut self, k: K, v: V)
        requires
            old(self).wf(),
        ensures
            final(self).wf(),
            final(self)@ == old(self)@.insert(k@, v),
            old(self)@.contains_key(k@) ==> final(self).key_seq() == old(self).key_seq(),
            !old(self)@.contains_key(k@) ==> final(self).key_seq() == old(self).key_seq().push(
                k@,
            ),
    {
        proof {
            lemma_kv_contains(self.keys@, self.vals@, k@);
        }
        match self.index_of(&k) {
            Some(i) => {
                proof {
                    lemma_kv_update(self.keys@, self.vals@, i as int, v);
                }
                self.vals[i] = v;
            },
            None => {
                let ghost k0 = k@;
                self.keys.push(k);
                self.vals.push(v);
                proof {
                    assert(self.keys@.drop_last() =~= old(self).keys@);
                    assert(self.vals@.drop_last() =~= old(self).vals@);
                    assert(self@ == old(self)@.insert(k0, v));
                    assert(self.key_seq() =~= old(self).key_seq().push(k0));
                    assert forall|i: int, j: int|
                        0 <= i < j < self.keys@.len() implies self.keys@[i]@ != self.keys@[j]@ by {
                        if j < self.keys@.len() - 1 {
                            assert(old(self).keys@[i]@ != old(self).keys@[j]@);
                        } else {
                            assert(old(self).keys@[i]@ != k0);
                        }
                    }
                }
            },
        }
    }

    /// The key at position `i` of the storage order.
    pub fn key_at(&self, i: usize) -> (r: &K)
        requires
            self.wf(),
            i < self.key_seq().len(),
        ensures
            r@ == self.key_seq()[i as int],
            self@.contains_key(r@),
    {
        proof {
            lemma_kv_get(self.keys@, self.vals@, i as int);
        }
        &self.keys[i]
    }

    /// The value at position `i` of the storage order.
    pub fn val_at(&self, i: usize) -> (r: &V)
        requires
            self.wf(),
            i < self.key_seq().len(),
        ensures
            *r == self@[self.key_seq()[i as int]],
    {
        proof {
            lemma_kv_get(self.keys@, self.vals@, i as int);
        }
        &self.vals[i]
    }

    /// The domain of the view is exactly the set of stored key views.
    pub proof fn lemma_dom(&self)
        requires
            self.wf(),
        ensures
            self@.dom() == self.key_seq().to_set(),
            forall|i: int, j: int|
                0 <= i < j < self.key_seq().len() ==> self.key_seq()[i] != self.key_seq()[j],
    {
        lemma_kv_dom(self.keys@, self.vals@);
    }
}

} // verus!
