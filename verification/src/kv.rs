//! A small string-keyed store backed by parallel vectors, with a `Map`
//! view. Keys are kept unique; lookups are linear scans. Both the route
//! registry and the metrics store are built on it.

use vstd::prelude::*;

verus! {

/// The finite map described by parallel key/value sequences; a later
/// entry would override an earlier one with the same key, but the store
/// keeps its keys unique.
pub(crate) open spec fn kv_map<V>(keys: Seq<Seq<char>>, vals: Seq<V>) -> Map<Seq<char>, V>
    decreases keys.len(),
{
    if keys.len() == 0 || keys.len() != vals.len() {
        Map::empty()
    } else {
        kv_map(keys.drop_last(), vals.drop_last()).insert(keys.last(), vals.last())
    }
}

pub(crate) open spec fn keys_distinct(keys: Seq<Seq<char>>) -> bool {
    forall|i: int, j: int| 0 <= i < j < keys.len() ==> keys[i] != keys[j]
}

/// A key is in the map's domain exactly when some entry holds it.
pub(crate) proof fn lemma_kv_map_domain<V>(keys: Seq<Seq<char>>, vals: Seq<V>, k: Seq<char>)
    requires
        keys.len() == vals.len(),
    ensures
        kv_map(keys, vals).contains_key(k) <==> exists|i: int|
            0 <= i < keys.len() && keys[i] == k,
    decreases keys.len(),
{
    if keys.len() == 0 {
    } else {
        lemma_kv_map_domain(keys.drop_last(), vals.drop_last(), k);
        if keys.last() == k {
            assert(keys[keys.len() - 1] == k);
        } else {
            if exists|i: int| 0 <= i < keys.len() && keys[i] == k {
                let i = choose|i: int| 0 <= i < keys.len() && keys[i] == k;
                assert(keys.drop_last()[i] == k);
            }
            if exists|i: int| 0 <= i < keys.drop_last().len() && keys.drop_last()[i] == k {
                let i = choose|i: int|
                    0 <= i < keys.drop_last().len() && keys.drop_last()[i] == k;
                assert(keys[i] == k);
            }
        }
    }
}

/// With distinct keys, the map sends the key of entry `i` to its value.
pub(crate) proof fn lemma_kv_map_index<V>(keys: Seq<Seq<char>>, vals: Seq<V>, i: int)
    requires
        keys.len() == vals.len(),
        keys_distinct(keys),
        0 <= i < keys.len(),
    ensures
        kv_map(keys, vals).contains_key(keys[i]),
        kv_map(keys, vals)[keys[i]] == vals[i],
    decreases keys.len(),
{
    if i == keys.len() - 1 {
    } else {
        assert(keys_distinct(keys.drop_last()));
        lemma_kv_map_index(keys.drop_last(), vals.drop_last(), i);
        assert(keys.drop_last()[i] == keys[i]);
        assert(keys.last() != keys[i]);
    }
}

/// Appending a fresh entry inserts its pair into the map.
pub(crate) proof fn lemma_kv_map_push<V>(keys: Seq<Seq<char>>, vals: Seq<V>, k: Seq<char>, v: V)
    requires
        keys.len() == vals.len(),
    ensures
        kv_map(keys.push(k), vals.push(v)) == kv_map(keys, vals).insert(k, v),
{
    assert(keys.push(k).drop_last() =~= keys);
    assert(vals.push(v).drop_last() =~= vals);
}

/// With distinct keys, replacing the value of entry `i` updates the map
/// at that entry's key alone.
pub(crate) proof fn lemma_kv_map_update<V>(keys: Seq<Seq<char>>, vals: Seq<V>, i: int, v: V)
    requires
        keys.len() == vals.len(),
        keys_distinct(keys),
        0 <= i < keys.len(),
    ensures
        kv_map(keys, vals.update(i, v)) == kv_map(keys, vals).insert(keys[i], v),
    decreases keys.len(),
{
    let n = keys.len() as int;
    if i == n - 1 {
        assert(vals.update(i, v).drop_last() =~= vals.drop_last());
        assert(kv_map(keys, vals.update(i, v)) =~= kv_map(keys, vals).insert(keys[i], v));
    } else {
        assert(keys_distinct(keys.drop_last()));
        lemma_kv_map_update(keys.drop_last(), vals.drop_last(), i, v);
        assert(vals.update(i, v).drop_last() =~= vals.drop_last().update(i, v));
        assert(keys.drop_last()[i] == keys[i]);
        assert(keys.last() != keys[i]);
        assert(kv_map(keys, vals.update(i, v)) =~= kv_map(keys, vals).insert(keys[i], v));
    }
}

pub(crate) struct KvStore<V> {
    pub(crate) keys: Vec<String>,
    pub(crate) vals: Vec<V>,
}

impl<V> KvStore<V> {
    pub(crate) open spec fn key_views(self) -> Seq<Seq<char>> {
        self.keys@.map_values(|s: String| s@)
    }

    pub(crate) open spec fn values(self) -> Seq<V> {
        self.vals@
    }

    pub(crate) open spec fn wf(self) -> bool {
        self.keys@.len() == self.vals@.len() && keys_distinct(self.key_views())
    }

    pub(crate) open spec fn map_of(self) -> Map<Seq<char>, V> {
        kv_map(self.key_views(), self.vals@)
    }

    pub(crate) proof fn lemma_domain(self, k: Seq<char>)
        requires
            self.wf(),
        ensures
            self.map_of().contains_key(k) <==> exists|i: int|
                0 <= i < self.key_views().len() && self.key_views()[i] == k,
    {
        lemma_kv_map_domain(self.key_views(), self.vals@, k);
    }

    pub(crate) proof fn lemma_at(self, i: int)
        requires
            self.wf(),
            0 <= i < self.key_views().len(),
        ensures
            self.map_of().contains_key(self.key_views()[i]),
            self.map_of()[self.key_views()[i]] == self.values()[i],
    {
        lemma_kv_map_index(self.key_views(), self.vals@, i);
    }

    pub(crate) fn empty() -> (r: Self)
        ensures
            r.wf(),
            r.map_of() == Map::<Seq<char>, V>::empty(),
            r.key_views() == Seq::<Seq<char>>::empty(),
            r.values() == Seq::<V>::empty(),
    {
        let r = KvStore { keys: Vec::new(), vals: Vec::new() };
        proof {
            assert(r.key_views() =~= Seq::<Seq<char>>::empty());
        }
        r
    }

    pub(crate) fn len(&self) -> (n: usize)
        ensures
            n == self.key_views().len(),
    {
        self.keys.len()
    }

    pub(crate) fn key_at(&self, i: usize) -> (r: &String)
        requires
            i < self.key_views().len(),
        ensures
            r@ == self.key_views()[i as int],
    {
        &self.keys[i]
    }

    pub(crate) fn value_at(&self, i: usize) -> (r: &V)
        requires
            self.wf(),
            i < self.key_views().len(),
        ensures
            *r == self.values()[i as int],
            self.map_of().contains_key(self.key_views()[i as int]),
            self.map_of()[self.key_views()[i as int]] == *r,
    {
        proof {
            self.lemma_at(i as int);
        }
        &self.vals[i]
    }

    /// Linear scan for `key`; the index of its entry, or `None` when the
    /// key is not in the store.
    pub(crate) fn find(&self, key: &String) -> (r: Option<usize>)
        requires
            self.wf(),
        ensures
            match r {
                Some(i) => {
                    &&& i < self.key_views().len()
                    &&& self.key_views()[i as int] == key@
                    &&& self.map_of().contains_key(key@)
                    &&& self.map_of()[key@] == self.values()[i as int]
                },
                None => !self.map_of().contains_key(key@),
            },
    {
        let mut i: usize = 0;
        while i < self.keys.len()
            invariant
                self.wf(),
                i <= self.keys@.len(),
                forall|j: int| 0 <= j < i ==> self.key_views()[j] != key@,
            decreases self.keys@.len() - i,
        {
            if self.keys[i] == *key {
                proof {
                    self.lemma_at(i as int);
                }
                return Some(i);
            }
            i += 1;
        }
        proof {
            self.lemma_domain(key@);
        }
        None
    }

    /// Appends an entry for a key not yet in the store.
    pub(crate) fn push_new(&mut self, key: String, v: V)
        requires
            old(self).wf(),
            !old(self).map_of().contains_key(key@),
        ensures
            final(self).wf(),
            final(self).key_views() == old(self).key_views().push(key@),
            final(self).values() == old(self).values().push(v),
            final(self).map_of() == old(self).map_of().insert(key@, v),
    {
        proof {
            old(self).lemma_domain(key@);
            lemma_kv_map_push(old(self).key_views(), old(self).vals@, key@, v);
        }
        self.keys.push(key);
        self.vals.push(v);
        proof {
            assert(self.key_views() =~= old(self).key_views().push(key@));
        }
    }

    /// Replaces the value of entry `i`, leaving every other entry as it is.
    pub(crate) fn set_at(&mut self, i: usize, v: V)
        requires
            old(self).wf(),
            i < old(self).key_views().len(),
        ensures
            final(self).wf(),
            final(self).key_views() == old(self).key_views(),
            final(self).values() == old(self).values().update(i as int, v),
            final(self).map_of() == old(self).map_of().insert(
                old(self).key_views()[i as int],
                v,
            ),
    {
        proof {
            lemma_kv_map_update(old(self).key_views(), old(self).vals@, i as int, v);
        }
        self.vals.set(i, v);
    }
}

} // verus!
