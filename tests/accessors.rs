use asset_singleton::{AssetKey, AssetSingleton, AssetSingletonMut, AssetStore, SingletonHandle, SingletonHolder};

fn k1() -> AssetKey {
    AssetKey::Index { bits: 1 }
}

fn k2() -> AssetKey {
    AssetKey::Index { bits: 2 }
}

fn store_with_alpha() -> AssetStore<String> {
    let mut store = AssetStore::new();
    store.insert(k1(), String::from("alpha"));
    store
}

#[test]
fn present_key_gives_stored_value() {
    let store = store_with_alpha();
    let holder = SingletonHolder::new(k1());
    let acc = AssetSingleton::new(&store, &holder);
    assert_eq!(acc.get().map(|s| s.as_str()), Some("alpha"));
    assert_eq!(acc.unwrap(), "alpha");
}

#[test]
fn get_returns_reference_into_store() {
    let store = store_with_alpha();
    let holder = SingletonHolder::new(k1());
    let acc = AssetSingleton::new(&store, &holder);
    let via_accessor = acc.get().unwrap();
    let via_store = store.get(k1()).unwrap();
    assert!(std::ptr::eq(via_accessor, via_store));
}

#[test]
fn absent_key_gives_nothing() {
    let store = store_with_alpha();
    let holder = SingletonHolder::new(k2());
    let acc = AssetSingleton::new(&store, &holder);
    assert!(acc.get().is_none());
}

#[test]
fn empty_store_gives_nothing() {
    let store: AssetStore<String> = AssetStore::new();
    let holder = SingletonHolder::new(k1());
    assert!(AssetSingleton::new(&store, &holder).get().is_none());
    let mut store2: AssetStore<String> = AssetStore::new();
    let mut acc = AssetSingletonMut::new(&mut store2, &holder);
    assert!(acc.get().is_none());
    assert!(acc.get_mut().is_none());
}

#[test]
fn holder_moved_to_absent_key() {
    let store = store_with_alpha();
    let mut holder = SingletonHolder::new(k1());
    {
        let acc = AssetSingleton::new(&store, &holder);
        assert_eq!(acc.get(), Some(&String::from("alpha")));
    }
    holder.set(k2());
    let acc = AssetSingleton::new(&store, &holder);
    assert_eq!(acc.get(), None);
}

#[test]
fn mutation_seen_by_later_reader() {
    let mut store = store_with_alpha();
    let holder = SingletonHolder::new(k1());
    {
        let mut acc = AssetSingletonMut::new(&mut store, &holder);
        let asset = acc.get_mut().unwrap();
        asset.clear();
        asset.push_str("beta");
        assert_eq!(acc.get(), Some(&String::from("beta")));
    }
    let reader = AssetSingleton::new(&store, &holder);
    assert_eq!(reader.get(), Some(&String::from("beta")));
}

#[test]
fn unwrap_mut_writes_into_store() {
    let mut store = store_with_alpha();
    store.insert(k2(), String::from("other"));
    let holder = SingletonHolder::new(k1());
    {
        let mut acc = AssetSingletonMut::new(&mut store, &holder);
        assert_eq!(acc.unwrap(), "alpha");
        *acc.unwrap_mut() = String::from("gamma");
    }
    assert_eq!(store.get(k1()), Some(&String::from("gamma")));
    assert_eq!(store.get(k2()), Some(&String::from("other")));
}

#[test]
fn two_readers_see_the_same_asset() {
    let store = store_with_alpha();
    let holder = SingletonHolder::new(k1());
    let first = AssetSingleton::new(&store, &holder);
    let second = AssetSingleton::new(&store, &holder);
    assert_eq!(first.get(), Some(&String::from("alpha")));
    assert_eq!(second.get(), Some(&String::from("alpha")));
    assert_eq!(first.get(), second.get());
}

#[test]
fn holder_reports_its_key() {
    let mut holder: SingletonHolder<u8> = SingletonHolder::new(k1());
    assert_eq!(holder.key(), k1());
    holder.set(AssetKey::Uuid { value: 7 });
    assert_eq!(holder.key(), AssetKey::Uuid { value: 7 });
}
