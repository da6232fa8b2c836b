use std::collections::HashMap;

use wasserxr_core::utils::object_sync::sync_objects;

fn run_sync(map: &mut HashMap<u32, String>, items: &[u32]) -> Vec<String> {
    let mut log = Vec::new();
    sync_objects(
        &mut log,
        map,
        items,
        |item| *item,
        |log, item| {
            log.push(format!("create {item}"));
            format!("object-{item}")
        },
        |log, value| log.push(format!("remove {value}")),
        |log, item, value| log.push(format!("update {item} -> {value}")),
    );
    log
}

#[test]
fn creates_new_objects() {
    let mut map = HashMap::new();
    let log = run_sync(&mut map, &[1, 2]);

    assert_eq!(map.get(&1), Some(&"object-1".to_owned()));
    assert_eq!(map.get(&2), Some(&"object-2".to_owned()));
    assert!(log.contains(&"create 1".to_owned()));
    assert!(log.contains(&"create 2".to_owned()));
}

#[test]
fn removes_stale_objects() {
    let mut map = HashMap::new();
    map.insert(1, "object-1".to_owned());
    map.insert(2, "object-2".to_owned());

    let log = run_sync(&mut map, &[2]);

    assert!(!map.contains_key(&1));
    assert!(map.contains_key(&2));
    assert!(log.contains(&"remove object-1".to_owned()));
}

#[test]
fn updates_existing_and_new_objects() {
    let mut map = HashMap::new();
    map.insert(1, "object-1".to_owned());

    let log = run_sync(&mut map, &[1, 2]);

    assert!(log.contains(&"update 1 -> object-1".to_owned()));
    assert!(log.contains(&"update 2 -> object-2".to_owned()));
    // Existing objects are kept, not recreated.
    assert!(!log.contains(&"create 1".to_owned()));
}

#[test]
fn empty_items_clears_map() {
    let mut map = HashMap::new();
    map.insert(1, "object-1".to_owned());

    let log = run_sync(&mut map, &[]);

    assert!(map.is_empty());
    assert_eq!(log, vec!["remove object-1".to_owned()]);
}

#[test]
fn repeated_items_are_tracked_once() {
    let mut map = HashMap::new();
    let log = run_sync(&mut map, &[3, 3]);

    assert_eq!(map.len(), 1);
    assert_eq!(
        log,
        vec![
            "create 3".to_owned(),
            "update 3 -> object-3".to_owned(),
            "update 3 -> object-3".to_owned(),
        ]
    );
}

#[test]
fn sync_runs_stale_removal_before_creation() {
    let mut map = HashMap::new();
    map.insert(1, "object-1".to_owned());
    let log = run_sync(&mut map, &[2]);

    assert_eq!(
        log,
        vec![
            "remove object-1".to_owned(),
            "create 2".to_owned(),
            "update 2 -> object-2".to_owned(),
        ]
    );
    assert_eq!(map.keys().copied().collect::<Vec<u32>>(), vec![2]);
}

#[test]
fn a_second_sync_with_the_same_items_only_updates() {
    let mut map = HashMap::new();
    map.insert(1, "object-1".to_owned());
    map.insert(9, "object-9".to_owned());
    let _ = run_sync(&mut map, &[1, 2]);
    let log = run_sync(&mut map, &[1, 2]);

    assert_eq!(
        log,
        vec!["update 1 -> object-1".to_owned(), "update 2 -> object-2".to_owned()]
    );
    let mut keys: Vec<u32> = map.keys().copied().collect();
    keys.sort();
    assert_eq!(keys, vec![1, 2]);
}
