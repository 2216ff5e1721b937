use servers::server::registry::ClientRegistry;

#[test]
fn registry_starts_empty_at_zero() {
    let registry: ClientRegistry<&str> = ClientRegistry::new();
    assert_eq!(registry.len(), 0);
    assert_eq!(registry.next_id(), 0);
    assert!(registry.ids().is_empty());
    assert!(!registry.contains(0));
}

#[test]
fn registry_ids_are_unique_and_strictly_increasing() {
    let mut registry = ClientRegistry::new();
    let mut last: Option<usize> = None;
    for round in 0..50 {
        let id = registry.register(round).unwrap();
        if let Some(before) = last {
            assert!(id > before);
        }
        last = Some(id);
        if round % 3 == 0 {
            registry.remove(id);
        }
    }
    assert_eq!(registry.next_id(), 50);
}

#[test]
fn registry_first_ids_are_zero_one_two() {
    let mut registry = ClientRegistry::new();
    assert_eq!(registry.register("a"), Ok(0));
    assert_eq!(registry.register("b"), Ok(1));
    assert_eq!(registry.register("c"), Ok(2));
    assert_eq!(registry.get(1), Some(&"b"));
    assert_eq!(registry.len(), 3);
}

#[test]
fn registry_removed_id_is_not_reused() {
    let mut registry = ClientRegistry::new();
    let first = registry.register("a").unwrap();
    assert_eq!(registry.remove(first), Some("a"));
    assert!(!registry.contains(first));
    let second = registry.register("b").unwrap();
    assert_ne!(first, second);
    assert!(!registry.contains(first));
    assert_eq!(registry.get(first), None);
    assert_eq!(registry.get(second), Some(&"b"));
}

#[test]
fn registry_remove_of_absent_id_changes_nothing() {
    let mut registry = ClientRegistry::new();
    registry.register("a").unwrap();
    assert_eq!(registry.remove(9), None);
    assert_eq!(registry.len(), 1);
    assert_eq!(registry.next_id(), 1);
}

#[test]
fn registry_ids_snapshot_holds_every_client_once() {
    let mut registry = ClientRegistry::new();
    for name in ["a", "b", "c", "d"] {
        registry.register(name).unwrap();
    }
    registry.remove(2);
    let mut ids = registry.ids();
    ids.sort();
    assert_eq!(ids, vec![0, 1, 3]);
}
