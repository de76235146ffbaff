use warehouse::AnyObject;
use warehouse::Bot;
use warehouse::IntoAny;
use warehouse::Location;
use warehouse::World;

#[test]
fn test_location_available() {
    let world = World::new();
    assert_eq!(world.check_location(Location::new(1, 2, 3)), 0);
}

#[test]
fn test_multiple_location() {
    let mut world = World::new();
    let mut items: Vec<AnyObject> = Vec::new();
    for _ in 0..3 {
        let mut bot = Bot::new();
        bot.location = Location::new(1, 2, 3);
        items.push(bot.into_any());
    }
    world.add_items(items);
    assert_eq!(world.check_location(Location { x: 1, y: 2, z: 3 }), 3);
}

#[test]
#[should_panic]
fn test_notify_move_panic() {
    let mut world = World::new();
    // The robot stands in the world but was never registered, so the
    // occupancy ledger holds no unit for its cell.
    world.get_items().push(Bot::new().into_any());
    world.notify_will_move(0, Location::new(1, 1, 1)).unwrap();
}

#[test]
fn test_notify_move() {
    let mut world = World::new();
    world.add_items(vec![Bot::new().into_any()]);
    world.notify_will_move(0, Location::new(1, 1, 1)).unwrap();
    assert_eq!(world.check_location(Location::new(1, 1, 1)), 1);
}

#[test]
fn world_test_render() {
    let mut world = World::new();
    let bot = Bot::new();
    let id = bot.id.clone();
    world.add_items(vec![bot.into_any()]);
    assert_eq!(
        world.render().unwrap(),
        format!(
            "{{ \"objects\": [{{ \"id\": \"{}\", \"storage\": [], \"location\": {{ \"x\": 0, \"y\": 0, \"z\": 0 }} }}] }}",
            id
        )
    );
}

#[test]
fn occupancy_after_move_shifts_one_unit() {
    // Registering three entities on one cell counts 3 there; moving one
    // of them a step away lowers that count by one and raises the
    // destination's by one.
    let mut world = World::new();
    let origin = Location::new(4, 4, 0);
    let mut items: Vec<AnyObject> = Vec::new();
    for _ in 0..3 {
        let mut bot = Bot::new();
        bot.location = origin;
        items.push(bot.into_any());
    }
    world.add_items(items);
    assert_eq!(world.check_location(origin), 3);
    let target = origin.up();
    world.notify_will_move(0, target).unwrap();
    assert_eq!(world.check_location(origin), 2);
    assert_eq!(world.check_location(target), 1);
}
