use warehouse::AnyObject;
use warehouse::Bot;
use warehouse::BotMoveCommand;
use warehouse::BotTransferToCommand;
use warehouse::Command;
use warehouse::ConsumePanicCommand;
use warehouse::Error;
use warehouse::IntoAny;
use warehouse::Location;
use warehouse::Object;
use warehouse::PanicCommand;
use warehouse::Site;
use warehouse::SitePickCommand;
use warehouse::SitePutCommand;
use warehouse::TestCommand;
use warehouse::TestNextCommand;
use warehouse::TestObject;
use warehouse::World;

#[test]
#[should_panic(expected = "TooFar")]
fn move_command_test_initialize() {
    let mut world = World::new();
    world.add_items(vec![Bot::new().into_any()]);
    let mut cmd = BotMoveCommand::new(0, Location::new(1, 1, 1));
    cmd.initialize(&mut world).unwrap();
}

#[test]
fn test_initialize_lock() {
    let mut world = World::new();
    world.add_items(vec![Bot::new().into_any()]);
    let mut cmd = BotMoveCommand::new(0, Location::new(0, 0, 1));
    cmd.initialize(&mut world).unwrap();
    assert!(*world.get_items()[0].get_lock());
}

#[test]
fn move_command_test_consume() {
    let mut world = World::new();
    world.add_items(vec![Bot::new().into_any()]);
    let mut cmd = BotMoveCommand::new(0, Location::new(0, 0, 1));
    cmd.initialize(&mut world).unwrap();
    assert!(!cmd.consume(&mut world).unwrap());
    assert_eq!(*world.get_items()[0].location(), Location::new(0, 0, 1));
    assert!(!*world.get_items()[0].get_lock());
}

#[test]
#[should_panic(expected = "TargetOccupied")]
fn test_consume_collision_1() {
    let mut world = World::new();
    let bot1 = Bot::new();
    let mut bot2 = Bot::new();
    bot2.location = bot2.location.front();
    let target_loc = *bot1.location();
    let target_loc = target_loc.front();
    world.add_items(vec![bot1.into_any(), bot2.into_any()]);
    let mut cmd = BotMoveCommand::new(0, target_loc);
    cmd.initialize(&mut world).unwrap();
    assert!(!cmd.consume(&mut world).unwrap());
}

#[test]
fn move_too_far_error_value() {
    let mut world = World::new();
    world.add_items(vec![Bot::new().into_any()]);
    let mut cmd = BotMoveCommand::new(0, Location::new(2, 2, 2));
    assert!(matches!(cmd.initialize(&mut world), Err(Error::TooFar)));
}

#[test]
fn move_render_shows_bot_and_target() {
    let mut world = World::new();
    let bot = Bot::new();
    let id = bot.id.clone();
    world.add_items(vec![bot.into_any()]);
    let cmd = BotMoveCommand::new(0, Location::new(0, 0, 1));
    assert_eq!(
        cmd.render(&world).unwrap(),
        format!(
            "{{ \"type\": \"move\", \"bot\": \"{}\", \"location\": {{ \"x\": 0, \"y\": 0, \"z\": 1 }} }}",
            id
        )
    );
}

#[test]
#[should_panic(expected = "Fault")]
fn panic_command_test_initialize() {
    let mut world = World::new();
    let mut cmd = PanicCommand::new();
    cmd.initialize(&mut world).unwrap();
}

#[test]
#[should_panic(expected = "Fault")]
fn panic_command_test_consume() {
    let mut world = World::new();
    let mut cmd = PanicCommand::new();
    cmd.consume(&mut world).unwrap();
}

#[test]
#[should_panic(expected = "Fault")]
fn test_consume_consume() {
    let mut world = World::new();
    let mut cmd = ConsumePanicCommand::new();
    cmd.consume(&mut world).unwrap();
}

#[test]
fn test_command_test_initialize() {
    let mut world = World::new();
    let mut cmd = TestCommand::new();
    match cmd.initialize(&mut world) {
        Ok(r) => {
            assert_eq!(r, ());
            assert!(cmd.data.initialized);
        },
        Err(_) => assert!(false),
    }
}

#[test]
fn test_command_test_consume() {
    let mut world = World::new();
    let mut cmd = TestCommand::new();
    cmd.initialize(&mut world).unwrap();
    match cmd.consume(&mut world) {
        Ok(r) => {
            assert_eq!(r, false);
            assert!(cmd.data.consumed);
        },
        Err(_) => assert!(false),
    }
}

#[test]
fn test_next_consume() {
    let mut world = World::new();
    let mut cmd = TestNextCommand::new();
    cmd.initialize(&mut world).unwrap();
    assert!(cmd.consume(&mut world).unwrap());
}

#[test]
fn transfer_command_test_lock() {
    let mut world = World::new();
    world.add_items(vec![Bot::new().into_any(), TestObject::new().into_any()]);
    let mut cmd = BotTransferToCommand::new(0, 1);
    cmd.initialize(&mut world).unwrap();
    assert!(*world.get_items()[0].get_lock());
    assert!(*world.get_items()[1].get_lock());
}

#[test]
fn transfer_command_test_unlock() {
    let mut world = World::new();
    world.add_items(vec![Bot::new().into_any(), TestObject::new().into_any()]);
    let mut cmd = BotTransferToCommand::new(0, 1);
    cmd.initialize(&mut world).unwrap();
    assert_eq!(cmd.consume(&mut world).unwrap(), false);
    assert!(!*world.get_items()[0].get_lock());
    assert!(!*world.get_items()[1].get_lock());
}

#[test]
#[should_panic(expected = "AlreadyLocked")]
fn test_race() {
    let mut world = World::new();
    world.add_items(vec![Bot::new().into_any(), TestObject::new().into_any()]);
    let mut cmd = BotTransferToCommand::new(0, 1);
    cmd.initialize(&mut world).unwrap();
    let mut cmd2 = BotTransferToCommand::new(0, 1);
    cmd2.initialize(&mut world).unwrap();
}

#[test]
fn transfer_command_test_storage() {
    let mut world = World::new();
    let mut bot = Bot::new();
    bot.storage.add(1, 1).unwrap();
    bot.storage.add(3, 3).unwrap();
    world.add_items(vec![bot.into_any(), TestObject::new().into_any()]);
    let mut cmd = BotTransferToCommand::new(0, 1);
    cmd.initialize(&mut world).unwrap();
    cmd.consume(&mut world).unwrap();
    match &world.get_items()[0] {
        AnyObject::Bot(b) => assert_eq!(b.storage.items, vec![]),
        _ => panic!("expected a robot"),
    }
    match &world.get_items()[1] {
        AnyObject::Test(o) => assert_eq!(o.storage.items, vec![(1, 1), (3, 3)]),
        _ => panic!("expected the plain entity"),
    }
}

#[test]
#[should_panic(expected = "TargetNotEmpty")]
fn test_storage_full() {
    let mut world = World::new();
    let mut bot = Bot::new();
    bot.storage.add(1, 1).unwrap();
    bot.storage.add(3, 1).unwrap();
    let mut obj = TestObject::new();
    obj.storage.add(2, 1).unwrap();
    world.add_items(vec![bot.into_any(), obj.into_any()]);
    let mut cmd = BotTransferToCommand::new(0, 1);
    cmd.initialize(&mut world).unwrap();
    cmd.consume(&mut world).unwrap();
}

#[test]
#[should_panic(expected = "TooFar")]
fn test_far_away() {
    let mut world = World::new();
    let mut bot = Bot::new();
    bot.location = Location::new(2, 2, 2);
    let mut obj = TestObject::new();
    obj.location = Location::new(1, 3, 2);
    world.add_items(vec![bot.into_any(), obj.into_any()]);
    let mut cmd = BotTransferToCommand::new(0, 1);
    cmd.initialize(&mut world).unwrap();
    cmd.consume(&mut world).unwrap();
}

#[test]
fn transfer_command_test_render() {
    let mut world = World::new();
    let bot = Bot::new();
    let id = bot.id.clone();
    world.add_items(vec![bot.into_any(), TestObject::new().into_any()]);
    let mut cmd = BotTransferToCommand::new(0, 1);
    cmd.initialize(&mut world).unwrap();
    assert_eq!(
        cmd.render(&world).unwrap(),
        format!("{{ type: \"transfer\", from: \"{}\", to: \"test-0\" }}", id)
    );
}

#[test]
#[should_panic(expected = "InsufficientQuantity")]
fn test_pick_initialize() {
    let mut world = World::new();
    let mut site = Site::new();
    site.storage.add(1, 3).unwrap();
    world.add_items(vec![site.into_any()]);
    let mut cmd = SitePickCommand::new(0, (1, 4));
    cmd.initialize(&mut world).unwrap();
}

#[test]
fn test_pick_initialize_lock() {
    let mut world = World::new();
    let mut site = Site::new();
    site.storage.add(1, 3).unwrap();
    world.add_items(vec![site.into_any()]);
    let mut cmd = SitePickCommand::new(0, (1, 1));
    cmd.initialize(&mut world).unwrap();
    assert!(*world.get_items()[0].get_lock());
}

#[test]
fn test_pick_consume() {
    let mut world = World::new();
    let mut site = Site::new();
    site.storage.add(1, 3).unwrap();
    world.add_items(vec![site.into_any()]);
    let mut cmd = SitePickCommand::new(0, (1, 2));
    cmd.initialize(&mut world).unwrap();
    cmd.consume(&mut world).unwrap();
    match &world.get_items()[0] {
        AnyObject::Site(s) => {
            assert_eq!(s.storage.have(1), 1);
            assert_eq!(s.pick_storage.have(1), 2);
            assert!(!s.locked);
        },
        _ => panic!("expected a site"),
    }
}

#[test]
fn test_pick_render() {
    let mut world = World::new();
    let site = Site::new();
    let id = site.id.clone();
    world.add_items(vec![site.into_any()]);
    let cmd = SitePickCommand::new(0, (2, 233));
    assert_eq!(
        cmd.render(&world).unwrap(),
        format!("{{ \"type\": \"pick\", \"site\": \"{}\", \"item\": 2, \"count\": 233 }}", id)
    );
}

#[test]
#[should_panic(expected = "InsufficientQuantity")]
fn test_put_initialize() {
    let mut world = World::new();
    let mut site = Site::new();
    site.pick_storage.add(1, 3).unwrap();
    world.add_items(vec![site.into_any()]);
    let mut cmd = SitePutCommand::new(0, (1, 4));
    cmd.initialize(&mut world).unwrap();
}

#[test]
fn test_put_initialize_lock() {
    let mut world = World::new();
    let mut site = Site::new();
    site.pick_storage.add(1, 3).unwrap();
    world.add_items(vec![site.into_any()]);
    let mut cmd = SitePutCommand::new(0, (1, 2));
    cmd.initialize(&mut world).unwrap();
    assert!(*world.get_items()[0].get_lock());
}

#[test]
fn test_put_consume() {
    let mut world = World::new();
    let mut site = Site::new();
    site.pick_storage.add(1, 3).unwrap();
    world.add_items(vec![site.into_any()]);
    let mut cmd = SitePutCommand::new(0, (1, 2));
    cmd.initialize(&mut world).unwrap();
    cmd.consume(&mut world).unwrap();
    match &world.get_items()[0] {
        AnyObject::Site(s) => {
            assert_eq!(s.pick_storage.have(1), 1);
            assert_eq!(s.storage.have(1), 2);
            assert!(!s.locked);
        },
        _ => panic!("expected a site"),
    }
}

#[test]
fn test_put_render() {
    let mut world = World::new();
    let site = Site::new();
    let id = site.id.clone();
    world.add_items(vec![site.into_any()]);
    let cmd = SitePutCommand::new(0, (2, 233));
    assert_eq!(
        cmd.render(&world).unwrap(),
        format!("{{ \"type\": \"put\", \"site\": \"{}\", \"item\": 2, \"count\": 233 }}", id)
    );
}

#[test]
fn pick_put_round_trip_restores_the_primary_ledger() {
    let mut world = World::new();
    let mut site = Site::new();
    site.storage.add(1, 5).unwrap();
    world.add_items(vec![site.into_any()]);
    let mut pick = SitePickCommand::new(0, (1, 2));
    pick.initialize(&mut world).unwrap();
    pick.consume(&mut world).unwrap();
    let mut put = SitePutCommand::new(0, (1, 2));
    put.initialize(&mut world).unwrap();
    put.consume(&mut world).unwrap();
    match &world.get_items()[0] {
        AnyObject::Site(s) => {
            assert_eq!(s.storage.have(1), 5);
            assert_eq!(s.pick_storage.have(1), 0);
            assert!(!s.locked);
        },
        _ => panic!("expected a site"),
    }
}

#[test]
fn transfer_empties_source_and_fills_destination_exactly() {
    let mut world = World::new();
    let mut bot = Bot::new();
    bot.storage.add(1, 1).unwrap();
    bot.storage.add(3, 3).unwrap();
    world.add_items(vec![bot.into_any(), TestObject::new().into_any()]);
    let mut cmd = BotTransferToCommand::new(0, 1);
    cmd.initialize(&mut world).unwrap();
    assert_eq!(cmd.consume(&mut world).unwrap(), false);
    match &world.get_items()[0] {
        AnyObject::Bot(b) => assert_eq!(b.storage.have(1) + b.storage.have(3), 0),
        _ => panic!("expected a robot"),
    }
    match &world.get_items()[1] {
        AnyObject::Test(o) => {
            assert_eq!(o.storage.have(1), 1);
            assert_eq!(o.storage.have(3), 3);
        },
        _ => panic!("expected the plain entity"),
    }
}
