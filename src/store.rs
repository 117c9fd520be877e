use vstd::prelude::*;

use crate::key::AssetKey;

verus! {

/// The map formed by the first `n` key/value pairs; a later pair wins over an
/// earlier one with the same key.
pub open spec fn pairs_map<A>(keys: Seq<AssetKey>, values: Seq<A>, n: nat) -> Map<AssetKey, A>
    decreases n,
{
    if n == 0 {
        Map::empty()
    } else {
        pairs_map(keys, values, (n - 1) as nat).insert(keys[n - 1], values[n - 1])
    }
}

/// No key occurs twice among the first `n` keys.
pub open spec fn keys_distinct(keys: Seq<AssetKey>, n: nat) -> bool {
    forall|i: int, j: int| 0 <= i < j < n ==> keys[i] != keys[j]
}

/// The first `n` pairs give the same map when only later entries differ.
proof fn lemma_pairs_map_prefix<A>(
    keys: Seq<AssetKey>,
    values: Seq<A>,
    keys2: Seq<AssetKey>,
    values2: Seq<A>,
    n: nat,
)
    requires
        n <= keys.len(),
        n <= values.len(),
        n <= keys2.len(),
        n <= values2.len(),
        forall|i: int| 0 <= i < n ==> keys[i] == keys2[i] && values[i] == values2[i],
    ensures
        pairs_map(keys, values, n) == pairs_map(keys2, values2, n),
    decreases n,
{
    if n > 0 {
        lemma_pairs_map_prefix(keys, values, keys2, values2, (n - 1) as nat);
    }
}

/// A key is in the map exactly when it is among the first `n` keys.
proof fn lemma_pairs_map_domain<A>(keys: Seq<AssetKey>, values: Seq<A>, n: nat, k: AssetKey)
    requires
        n <= keys.len(),
        n <= values.len(),
    ensures
        pairs_map(keys, values, n).contains_key(k) <==> exists|i: int| 0 <= i < n && keys[i] == k,
    decreases n,
{
    if n > 0 {
        lemma_pairs_map_domain(keys, values, (n - 1) as nat, k);
        if pairs_map(keys, values, n).contains_key(k) && keys[n - 1] != k {
            let i = choose|i: int| 0 <= i < n - 1 && keys[i] == k;
            assert(0 <= i < n && keys[i] == k);
        }
        if keys[n - 1] == k {
            assert(0 <= n - 1 < n && keys[n - 1] == k);
        }
    }
}

/// With distinct keys, the key at position `i` maps to the value at position `i`.
proof fn lemma_pairs_map_index<A>(keys: Seq<AssetKey>, values: Seq<A>, n: nat, i: int)
    requires
        n <= keys.len(),
        n <= values.len(),
        keys_distinct(keys, n),
        0 <= i < n,
    ensures
        pairs_map(keys, values, n).contains_key(keys[i]),
        pairs_map(keys, values, n)[keys[i]] == values[i],
    decreases n,
{
    if i < n - 1 {
        lemma_pairs_map_index(keys, values, (n - 1) as nat, i);
    }
}

/// With distinct keys, replacing the value at position `i` replaces the value of its key.
proof fn lemma_pairs_map_update<A>(keys: Seq<AssetKey>, values: Seq<A>, n: nat, i: int, v: A)
    requires
        n <= keys.len(),
        n <= values.len(),
        keys_distinct(keys, n),
        0 <= i < n,
    ensures
        pairs_map(keys, values.update(i, v), n) == pairs_map(keys, values, n).insert(keys[i], v),
    decreases n,
{
    let m = pairs_map(keys, values, (n - 1) as nat);
    if i < n - 1 {
        lemma_pairs_map_update(keys, values, (n - 1) as nat, i, v);
        assert(keys[n - 1] != keys[i]);
        assert(m.insert(keys[i], v).insert(keys[n - 1], values[n - 1]) =~= m.insert(
            keys[n - 1],
            values[n - 1],
        ).insert(keys[i], v));
    } else {
        lemma_pairs_map_prefix(keys, values.update(i, v), keys, values, (n - 1) as nat);
        assert(m.insert(keys[i], v) =~= m.insert(keys[i], values[i]).insert(keys[i], v));
    }
}

/// What looking `key` up in `m` yields: its asset, or nothing.
pub open spec fn lookup<A>(m: Map<AssetKey, A>, key: AssetKey) -> Option<A> {
    if m.contains_key(key) {
        Some(m[key])
    } else {
        None
    }
}

/// The value that a looked-up reference points at.
pub open spec fn seen<A>(r: Option<&A>) -> Option<A> {
    match r {
        Some(v) => Some(*v),
        None => None,
    }
}

/// A table of assets of one type, keyed by [`AssetKey`].
///
/// Each key names at most one asset. Looking a key up either finds that asset
/// or reports that the store holds none under it (not loaded yet, or gone).
pub struct AssetStore<A> {
    keys: Vec<AssetKey>,
    values: Vec<A>,
}

impl<A> View for AssetStore<A> {
    type V = Map<AssetKey, A>;

    closed spec fn view(&self) -> Map<AssetKey, A> {
        pairs_map(self.keys@, self.values@, self.keys@.len())
    }
}

impl<A> AssetStore<A> {
    /// Keys and values pair up one for one, and no key occurs twice.
    pub closed spec fn wf(&self) -> bool {
        &&& self.keys@.len() == self.values@.len()
        &&& keys_distinct(self.keys@, self.keys@.len())
    }

    /// An empty store.
    pub fn new() -> (r: Self)
        ensures
            r.wf(),
            r@ == Map::<AssetKey, A>::empty(),
    {
        AssetStore { keys: Vec::new(), values: Vec::new() }
    }

    /// Position of `key` among the stored keys, if it is there.
    fn position(&self, key: AssetKey) -> (r: Option<usize>)
        requires
            self.wf(),
        ensures
            match r {
                Some(i) => i < self.keys@.len() && self.keys@[i as int] == key,
                None => !self@.contains_key(key),
            },
    {
        let n = self.keys.len();
        let mut i: usize = 0;
        while i < n
            invariant
                n == self.keys@.len(),
                i <= n,
                forall|j: int| 0 <= j < i ==> self.keys@[j] != key,
            decreases n - i,
        {
            if self.keys[i] == key {
                return Some(i);
            }
            i = i + 1;
        }
        proof {
            lemma_pairs_map_domain(self.keys@, self.values@, n as nat, key);
        }
        None
    }

    /// Stores `asset` under `key`, replacing the asset that was there.
    pub fn insert(&mut self, key: AssetKey, asset: A)
        requires
            old(self).wf(),
        ensures
            final(self).wf(),
            final(self)@ == old(self)@.insert(key, asset),
    {
        match self.position(key) {
            Some(i) => {
                proof {
                    lemma_pairs_map_update(self.keys@, self.values@, self.keys@.len(), i as int, asset);
                }
                self.values.set(i, asset);
            },
            None => {
                let ghost n = self.keys@.len();
                proof {
                    lemma_pairs_map_domain(self.keys@, self.values@, n, key);
                }
                self.keys.push(key);
                self.values.push(asset);
                proof {
                    lemma_pairs_map_prefix(self.keys@, self.values@, old(self).keys@, old(self).values@, n);
                }
            },
        }
    }
}


impl<A> AssetStore<A> {
    /// The asset stored under `key`, if any.
    pub fn get(&self, key: AssetKey) -> (r: Option<&A>)
        requires
            self.wf(),
        ensures
            seen(r) == lookup(self@, key),
    {
        match self.position(key) {
            Some(i) => {
                proof {
                    lemma_pairs_map_index(self.keys@, self.values@, self.keys@.len(), i as int);
                }
                Some(&self.values[i])
            },
            None => None,
        }
    }

    /// Exclusive access to the asset stored under `key`, if any. What the caller
    /// writes through the reference becomes the asset under `key`.
    pub fn get_mut(&mut self, key: AssetKey) -> (r: Option<&mut A>)
        requires
            old(self).wf(),
        ensures
            final(self).wf(),
            match r {
                Some(v) => lookup(old(self)@, key) == Some(*v) && final(self)@ == old(self)@.insert(
                    key,
                    *final(v),
                ),
                None => lookup(old(self)@, key) is None && final(self)@ == old(self)@,
            },
    {
        match self.position(key) {
            Some(i) => {
                let ghost n = self.keys@.len();
                proof {
                    lemma_pairs_map_index(self.keys@, self.values@, n, i as int);
                }
                let v = &mut self.values[i];
                proof {
                    lemma_pairs_map_update(old(self).keys@, old(self).values@, n, i as int, *final(v));
                }
                Some(v)
            },
            None => None,
        }
    }
}

} // verus!
