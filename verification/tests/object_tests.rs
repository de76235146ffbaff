use warehouse::Bot;
use warehouse::Location;
use warehouse::Object;
use warehouse::Shelf;
use warehouse::Site;
use warehouse::TestObject;

#[test]
fn bot_test_id() {
    let obj = Bot::new();
    assert_eq!(&obj.id()[..4], "bot-");
    uuid::Uuid::parse_str(&obj.id()[4..]).unwrap();
}

#[test]
fn shelf_test_id() {
    let obj = Shelf::new();
    assert_eq!(&obj.id()[..4], "slf-");
    uuid::Uuid::parse_str(&obj.id()[4..]).unwrap();
}

#[test]
fn site_test_id() {
    let obj = Site::new();
    assert_eq!(&obj.id()[..4], "ste-");
    uuid::Uuid::parse_str(&obj.id()[4..]).unwrap();
}

#[test]
fn id_is_prefix_and_hyphenated_uuid() {
    // The identifier wrapper promises a 36-character rendering; with the
    // 4-character prefix every identifier is 40 characters long.
    assert_eq!(Bot::new().id().len(), 40);
    assert_eq!(Shelf::new().id().len(), 40);
    assert_eq!(Site::new().id().len(), 40);
}

#[test]
fn location_test_render() {
    let location = Location::new(1, 2, 3);
    assert_eq!(location.render(), "{ \"x\": 1, \"y\": 2, \"z\": 3 }");
}

#[test]
fn location_steps() {
    let l = Location::new(5, 6, 7);
    assert_eq!(l.left(), Location::new(4, 6, 7));
    assert_eq!(l.right(), Location::new(6, 6, 7));
    assert_eq!(l.front(), Location::new(5, 7, 7));
    assert_eq!(l.back(), Location::new(5, 5, 7));
    assert_eq!(l.up(), Location::new(5, 6, 8));
    assert_eq!(l.down(), Location::new(5, 6, 6));
}

#[test]
fn location_nearby_includes_same_cell() {
    let l = Location::new(2, 2, 2);
    assert!(l.nearby(l));
    assert!(l.nearby(l.up()));
    assert!(!l.nearby(Location::new(3, 3, 2)));
}

#[test]
fn site_test_render() {
    let obj = Site::new();
    assert_eq!(
        obj.render().unwrap(),
        format!(
            "{{ \"id\": \"{}\", \"storage\": [], \"pick_storage\": [], \"location\": {{ \"x\": 0, \"y\": 0, \"z\": 0 }} }}",
            obj.id()
        )
    );
}

#[test]
fn test_object_test_id() {
    let obj = TestObject::new();
    assert_eq!(obj.id(), "test-0");
}

#[test]
fn test_object_test_storage() {
    let mut obj = TestObject::new();
    let storage = obj.get_storage();
    storage.add(1, 1).unwrap();
}

#[test]
fn test_location() {
    let mut obj = TestObject::new();
    let location = obj.get_location();
    location.x = 233;
}

#[test]
#[should_panic(expected = "AlreadyLocked")]
fn test_object_test_lock() {
    let mut obj = TestObject::new();
    obj.lock().unwrap();
    obj.lock().unwrap();
}

#[test]
#[should_panic(expected = "AlreadyUnlocked")]
fn test_object_test_unlock() {
    let mut obj = TestObject::new();
    obj.unlock().unwrap();
}

#[test]
fn test_lock_and_unlock() {
    let mut obj = TestObject::new();
    obj.lock().unwrap();
    assert!(*obj.get_lock());
    obj.unlock().unwrap();
    assert!(!*obj.get_lock());
}

#[test]
fn test_object_test_render() {
    let mut obj = TestObject::new();
    {
        let storage = obj.get_storage();
        storage.add(233, 1).unwrap();
    }
    {
        let location = obj.get_location();
        location.x = 233;
        location.y = 234;
        location.z = 235;
    }
    assert_eq!(
        obj.render().unwrap(),
        "{ \"id\": \"test-0\", \"storage\": [{ \"item\": 233, \"count\": 1 }], \"location\": { \"x\": 233, \"y\": 234, \"z\": 235 } }"
    );
}
