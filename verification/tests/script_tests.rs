use mockbox::script::{change_invalidates, select_script, ChangeKind, ScriptCache, ScriptLocation};

#[test]
fn local_script_is_preferred() {
    assert_eq!(select_script(true, true), Some(ScriptLocation::Local));
    assert_eq!(select_script(true, false), Some(ScriptLocation::Local));
    assert_eq!(select_script(false, true), Some(ScriptLocation::Global));
    assert_eq!(select_script(false, false), None);
}

#[test]
fn cache_hits_after_store() {
    let mut cache: ScriptCache<&str> = ScriptCache::new();
    assert_eq!(cache.lookup(ScriptLocation::Local, 5), None);
    cache.store(ScriptLocation::Local, 5, "unit");
    assert_eq!(cache.lookup(ScriptLocation::Local, 5), Some(&"unit"));
}

#[test]
fn cache_misses_on_modified_file() {
    let mut cache: ScriptCache<&str> = ScriptCache::new();
    cache.store(ScriptLocation::Local, 5, "unit");
    assert_eq!(cache.lookup(ScriptLocation::Local, 6), None);
    assert_eq!(cache.lookup(ScriptLocation::Global, 5), None);
}

#[test]
fn cache_store_replaces() {
    let mut cache: ScriptCache<&str> = ScriptCache::new();
    cache.store(ScriptLocation::Local, 5, "old");
    cache.store(ScriptLocation::Global, -3, "new");
    assert_eq!(cache.lookup(ScriptLocation::Local, 5), None);
    assert_eq!(cache.lookup(ScriptLocation::Global, -3), Some(&"new"));
}

#[test]
fn cache_misses_after_invalidate() {
    let mut cache: ScriptCache<u8> = ScriptCache::new();
    cache.store(ScriptLocation::Global, 1, 9);
    cache.invalidate();
    assert_eq!(cache.lookup(ScriptLocation::Global, 1), None);
}

#[test]
fn only_changes_to_script_files_invalidate() {
    assert!(change_invalidates(ChangeKind::Modify, &[false, true]));
    assert!(change_invalidates(ChangeKind::Create, &[true]));
    assert!(change_invalidates(ChangeKind::Remove, &[true]));
    assert!(!change_invalidates(ChangeKind::Modify, &[false, false]));
    assert!(!change_invalidates(ChangeKind::Modify, &[]));
    assert!(!change_invalidates(ChangeKind::Other, &[true]));
}
