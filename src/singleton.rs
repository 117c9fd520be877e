use vstd::prelude::*;

use crate::key::AssetKey;
use crate::store::{lookup, seen, AssetStore};

verus! {

/// A resource that points at exactly one asset at a time.
pub trait SingletonHandle {
    /// The type of the asset it points at.
    type Asset;

    /// The key that the resource points at.
    spec fn spec_key(&self) -> AssetKey;

    /// Reads the key that the resource points at.
    fn key(&self) -> (r: AssetKey)
        ensures
            r == self.spec_key(),
    ;
}

/// A resource that holds the key of one asset of type `A`.
pub struct SingletonHolder<A> {
    key: AssetKey,
    asset: core::marker::PhantomData<A>,
}

impl<A> SingletonHolder<A> {
    /// A holder that points at `key`.
    pub fn new(key: AssetKey) -> (r: Self)
        ensures
            r.spec_key() == key,
    {
        SingletonHolder { key, asset: core::marker::PhantomData }
    }

    /// Points the holder at `key` instead.
    pub fn set(&mut self, key: AssetKey)
        ensures
            final(self).spec_key() == key,
    {
        self.key = key;
    }
}

impl<A> SingletonHandle for SingletonHolder<A> {
    type Asset = A;

    closed spec fn spec_key(&self) -> AssetKey {
        self.key
    }

    fn key(&self) -> (r: AssetKey) {
        self.key
    }
}

/// Shared access to the asset that a singleton resource points at.
///
/// Any number of these may be alive together over one store.
pub struct AssetSingleton<'w, T: SingletonHandle> {
    /// The store of the resource's asset type.
    pub assets: &'w AssetStore<T::Asset>,
    /// The resource that names the asset.
    pub handle: &'w T,
}

impl<'w, T: SingletonHandle> AssetSingleton<'w, T> {
    /// An accessor over `assets` that follows `handle`.
    pub fn new(assets: &'w AssetStore<T::Asset>, handle: &'w T) -> (r: Self)
        ensures
            r.assets == assets,
            r.handle == handle,
    {
        AssetSingleton { assets, handle }
    }

    /// The asset that the resource points at, or nothing when the store holds
    /// none under its key.
    pub fn get(&self) -> (r: Option<&T::Asset>)
        requires
            self.assets.wf(),
        ensures
            seen(r) == lookup(self.assets@, self.handle.spec_key()),
    {
        self.assets.get(self.handle.key())
    }

    /// The asset that the resource points at, which must be present.
    pub fn unwrap(&self) -> (r: &T::Asset)
        requires
            self.assets.wf(),
            self.assets@.contains_key(self.handle.spec_key()),
        ensures
            *r == self.assets@[self.handle.spec_key()],
    {
        self.get().unwrap()
    }
}

/// Exclusive access to the asset that a singleton resource points at.
///
/// It holds the store by a unique borrow, so while it is alive no other
/// accessor over that store can be.
pub struct AssetSingletonMut<'w, T: SingletonHandle> {
    /// The store of the resource's asset type.
    pub assets: &'w mut AssetStore<T::Asset>,
    /// The resource that names the asset.
    pub handle: &'w T,
}

impl<'w, T: SingletonHandle> AssetSingletonMut<'w, T> {
    /// The store as the accessor sees it now.
    pub open spec fn store(&self) -> AssetStore<T::Asset> {
        *self.assets
    }

    /// An accessor over `assets` that follows `handle`.
    pub fn new(assets: &'w mut AssetStore<T::Asset>, handle: &'w T) -> (r: Self)
        ensures
            r.store() == *old(assets),
            r.handle == handle,
            *final(r.assets) == *final(assets),
            
    {
        AssetSingletonMut { assets, handle }
    }

    /// The asset that the resource points at, or nothing when the store holds
    /// none under its key.
    pub fn get(&self) -> (r: Option<&T::Asset>)
        requires
            self.store().wf(),
        ensures
            seen(r) == lookup(self.store()@, self.handle.spec_key()),
    {
        self.assets.get(self.handle.key())
    }

    /// The asset that the resource points at, which must be present.
    pub fn unwrap(&self) -> (r: &T::Asset)
        requires
            self.store().wf(),
            self.store()@.contains_key(self.handle.spec_key()),
        ensures
            *r == self.store()@[self.handle.spec_key()],
    {
        self.get().unwrap()
    }

    /// The asset that the resource points at, for writing, or nothing when the
    /// store holds none under its key. What is written through the reference
    /// becomes the asset under that key.
    pub fn get_mut(&mut self) -> (r: Option<&mut T::Asset>)
        requires
            old(self).assets.wf(),
        ensures
            final(self).handle == old(self).handle,
            *final(final(self).assets) == *final(old(self).assets),
            final(self).assets.wf(),
            match r {
                Some(v) => lookup(old(self).assets@, old(self).handle.spec_key()) == Some(*v)
                    && final(self).assets@ == old(self).assets@.insert(
                    old(self).handle.spec_key(),
                    *final(v),
                ),
                None => lookup(old(self).assets@, old(self).handle.spec_key()) is None
                    && final(self).assets@ == old(self).assets@,
            },
    {
        let key = self.handle.key();
        self.assets.get_mut(key)
    }

    /// The asset that the resource points at, which must be present, for
    /// writing. What is written through the reference becomes the asset under
    /// the resource's key.
    pub fn unwrap_mut(&mut self) -> (r: &mut T::Asset)
        requires
            old(self).store().wf(),
            old(self).store()@.contains_key(old(self).handle.spec_key()),
        ensures
            final(self).handle == old(self).handle,
            *final(final(self).assets) == *final(old(self).assets),
            final(self).store().wf(),
            *r == old(self).store()@[old(self).handle.spec_key()],
            final(self).store()@ == old(self).store()@.insert(old(self).handle.spec_key(), *final(r)),
    {
        self.get_mut().unwrap()
    }
}

/// Two shared accessors over the same store that follow the same key find the
/// same asset: a read leaves the store as it was, so neither reader sees
/// anything of the other.
pub proof fn lemma_readers_agree<'w, T: SingletonHandle>(
    first: AssetSingleton<'w, T>,
    second: AssetSingleton<'w, T>,
)
    requires
        first.assets == second.assets,
        first.handle.spec_key() == second.handle.spec_key(),
    ensures
        lookup(first.assets@, first.handle.spec_key()) == lookup(
            second.assets@,
            second.handle.spec_key(),
        ),
{
}

/// A write through the reference that `get_mut` hands out is what any later
/// lookup of that key finds, through any accessor; lookups of other keys find
/// what they found before.
pub proof fn lemma_write_visible<A>(before: Map<AssetKey, A>, key: AssetKey, written: A)
    requires
        before.contains_key(key),
    ensures
        lookup(before.insert(key, written), key) == Some(written),
        forall|other: AssetKey|
            other != key ==> lookup(before.insert(key, written), other) == lookup(before, other),
{
}

} // verus!
