use warehouse::Error;
use warehouse::Storage;

#[test]
fn storage_test_render() {
    let mut storage = Storage::new();
    storage.add(1, 1).unwrap();
    assert_eq!(storage.render().unwrap(), "[{ \"item\": 1, \"count\": 1 }]");
}

#[test]
fn test_render_multiple() {
    let mut storage = Storage::new();
    storage.add(1, 1).unwrap();
    storage.add(2, 2).unwrap();
    assert_eq!(
        storage.render().unwrap(),
        "[{ \"item\": 1, \"count\": 1 }, { \"item\": 2, \"count\": 2 }]"
    );
}

#[test]
fn test_push_multiple() {
    let mut storage = Storage::new();
    storage.add(1, 1).unwrap();
    storage.add(1, 1).unwrap();
    assert_eq!(storage.render().unwrap(), "[{ \"item\": 1, \"count\": 2 }]");
}

#[test]
#[should_panic(expected = "3")]
fn test_take_multiple() {
    let mut storage = Storage::new();
    storage.add(1, 3).unwrap();
    storage.take(1, 4).unwrap();
}

#[test]
fn test_take_empty() {
    let mut storage = Storage::new();
    storage.add(1, 3).unwrap();
    storage.take(1, 3).unwrap();
    assert_eq!(storage.items.len(), 0);
}

#[test]
fn test_have() {
    let mut storage = Storage::new();
    storage.add(1, 2).unwrap();
    assert_eq!(storage.have(1), 2);
    assert_eq!(storage.have(2), 0);
}

#[test]
fn add_twice_accumulates() {
    // From a ledger holding none of the kind, two adds accumulate.
    let mut storage = Storage::new();
    storage.add(7, 2).unwrap();
    storage.add(7, 5).unwrap();
    assert_eq!(storage.have(7), 7);
}

#[test]
fn take_short_reports_held_quantity_and_mutates_nothing() {
    let mut storage = Storage::new();
    storage.add(9, 4).unwrap();
    assert!(matches!(storage.take(9, 6), Err(Error::InsufficientQuantity(4))));
    assert_eq!(storage.have(9), 4);
    assert!(matches!(storage.take(2, 1), Err(Error::InsufficientQuantity(0))));
}

#[test]
fn take_everything_removes_the_entry() {
    let mut storage = Storage::new();
    storage.add(5, 3).unwrap();
    storage.add(6, 1).unwrap();
    storage.take(5, 3).unwrap();
    assert_eq!(storage.have(5), 0);
    assert_eq!(storage.items.len(), 1);
    assert_eq!(storage.have(6), 1);
}

#[test]
fn empty_storage_renders_brackets() {
    let storage = Storage::new();
    assert_eq!(storage.render().unwrap(), "[]");
}
