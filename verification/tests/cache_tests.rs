use keepkey_vault::cache::DerivationCache;

#[test]
fn second_lookup_returns_the_identical_value() {
    let mut cache = DerivationCache::new();
    let addr = String::from("bc1qexampleaddress");
    assert!(cache.lookup("dev-1", "m/84'/0'/0'/0/0", "Bitcoin", None).is_none());
    let stored = cache.store_derivation(
        "dev-1",
        "m/84'/0'/0'/0/0",
        "Bitcoin",
        None,
        None,
        Some(&addr),
        1000,
    );
    assert!(stored);
    let first = cache
        .lookup("dev-1", "m/84'/0'/0'/0/0", "Bitcoin", None)
        .expect("hit");
    let second = cache
        .lookup("dev-1", "m/84'/0'/0'/0/0", "Bitcoin", None)
        .expect("hit again");
    assert_eq!(first.address.as_deref(), Some("bc1qexampleaddress"));
    assert_eq!(first.address, second.address);
    assert_eq!(first.xpub, second.xpub);
    assert_eq!(first.cached_at, second.cached_at);
}

#[test]
fn empty_or_failed_resolutions_are_never_cached() {
    let mut cache = DerivationCache::new();
    let empty = String::new();
    assert!(!cache.store_derivation("dev-1", "m/0", "Bitcoin", None, None, Some(&empty), 1));
    assert!(!cache.store_derivation("dev-1", "m/0", "Bitcoin", None, None, None, 1));
    assert!(!cache.store_derivation("dev-1", "m/0", "Bitcoin", None, Some(&empty), None, 1));
    assert!(cache.lookup("dev-1", "m/0", "Bitcoin", None).is_none());
}

#[test]
fn script_type_is_part_of_the_key() {
    let mut cache = DerivationCache::new();
    let a1 = String::from("addr-p2pkh");
    let a2 = String::from("addr-p2wpkh");
    let st1 = String::from("p2pkh");
    let st2 = String::from("p2wpkh");
    cache.store_derivation("dev-1", "m/0", "Bitcoin", Some(&st1), None, Some(&a1), 1);
    cache.store_derivation("dev-1", "m/0", "Bitcoin", Some(&st2), None, Some(&a2), 2);
    let h1 = cache.lookup("dev-1", "m/0", "Bitcoin", Some(&st1)).expect("hit");
    let h2 = cache.lookup("dev-1", "m/0", "Bitcoin", Some(&st2)).expect("hit");
    assert_eq!(h1.address.as_deref(), Some("addr-p2pkh"));
    assert_eq!(h2.address.as_deref(), Some("addr-p2wpkh"));
    assert!(cache.lookup("dev-1", "m/0", "Bitcoin", None).is_none());
}

#[test]
fn rewriting_a_key_replaces_its_entry() {
    let mut cache = DerivationCache::new();
    let a1 = String::from("first");
    let a2 = String::from("second");
    cache.store_derivation("dev-1", "m/0", "Bitcoin", None, None, Some(&a1), 1);
    cache.store_derivation("dev-1", "m/0", "Bitcoin", None, None, Some(&a2), 2);
    let hit = cache.lookup("dev-1", "m/0", "Bitcoin", None).expect("hit");
    assert_eq!(hit.address.as_deref(), Some("second"));
    assert_eq!(hit.cached_at, 2);
    assert_eq!(cache.entries.len(), 1);
}

#[test]
fn clearing_a_device_leaves_other_devices_alone() {
    let mut cache = DerivationCache::new();
    let a = String::from("addr");
    let x = String::from("xpub6example");
    cache.store_derivation("dev-1", "m/0", "Bitcoin", None, None, Some(&a), 1);
    cache.store_derivation("dev-1", "m/1", "Bitcoin", None, Some(&x), None, 1);
    cache.store_derivation("dev-2", "m/0", "Bitcoin", None, None, Some(&a), 1);
    cache.clear_device("dev-1");
    assert!(cache.lookup("dev-1", "m/0", "Bitcoin", None).is_none());
    assert!(cache.lookup("dev-1", "m/1", "Bitcoin", None).is_none());
    assert!(cache.lookup("dev-2", "m/0", "Bitcoin", None).is_some());
}

#[test]
fn fresh_store_stamps_the_clock_and_keeps_the_rule() {
    let mut cache = DerivationCache::new();
    let a = String::from("addr");
    let empty = String::new();
    assert!(!cache.store_derivation_fresh("dev-1", "m/0", "Bitcoin", None, None, Some(&empty)));
    assert!(cache.store_derivation_fresh("dev-1", "m/0", "Bitcoin", None, None, Some(&a)));
    let hit = cache.lookup("dev-1", "m/0", "Bitcoin", None).expect("hit");
    assert_eq!(hit.address.as_deref(), Some("addr"));
    assert_eq!(hit.cached_at, hit.last_used);
}

#[test]
fn xpub_results_are_cached_like_addresses() {
    let mut cache = DerivationCache::new();
    let x = String::from("xpub6C");
    assert!(cache.store_derivation("dev-1", "m/44'/0'/0'", "Bitcoin", None, Some(&x), None, 9));
    let hit = cache.lookup("dev-1", "m/44'/0'/0'", "Bitcoin", None).expect("hit");
    assert_eq!(hit.xpub.as_deref(), Some("xpub6C"));
    assert_eq!(hit.address, None);
}
