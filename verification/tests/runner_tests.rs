use warehouse::map_as_object;
use warehouse::move_location;
use warehouse::one_bot;
use warehouse::Bot;
use warehouse::IntoAny;
use warehouse::Location;
use warehouse::Object;
use warehouse::OneRunner;
use warehouse::World;

#[test]
fn one_bot_builds_the_floor() {
    let (world, bots, shelves, sites) = one_bot();
    assert_eq!(bots.len(), 1);
    assert_eq!(shelves.len(), 600);
    assert_eq!(sites.len(), 6);
    // The robot stands alone in the aisle.
    assert_eq!(world.check_location(Location::new(1, 13, 0)), 1);
    // One shelf block corner and one site cell are each occupied once.
    assert_eq!(world.check_location(Location::new(1, 1, 0)), 1);
    assert_eq!(world.check_location(Location::new(2, 12, 0)), 1);
}

#[test]
fn runner_ticks_move_the_robot_up() {
    let mut runner = OneRunner::new();
    let first = runner.tick().unwrap();
    assert!(first.starts_with("{ \"type\": \"parallel_queue\", \"commands\": ["));
    assert!(first.contains("\"type\": \"move\""));
    runner.tick().unwrap();
    let bot = runner.bots[0];
    assert_eq!(*runner.world.get_items()[bot].location(), Location::new(1, 13, 2));
}

#[test]
fn move_location_places_an_entity() {
    let mut obj = Bot::new().into_any();
    move_location(&mut obj, Location::new(9, 9, 9));
    assert_eq!(*obj.location(), Location::new(9, 9, 9));
}

#[test]
fn map_as_object_keeps_order_and_state() {
    let mut a = Bot::new();
    a.location = Location::new(1, 0, 0);
    let mut b = Bot::new();
    b.location = Location::new(2, 0, 0);
    let objs = map_as_object(vec![a, b]);
    assert_eq!(objs.len(), 2);
    assert_eq!(*objs[0].location(), Location::new(1, 0, 0));
    assert_eq!(*objs[1].location(), Location::new(2, 0, 0));
    let mut world = World::new();
    world.add_items(objs);
    assert_eq!(world.check_location(Location::new(1, 0, 0)), 1);
}
