use warehouse::AnyCommand;
use warehouse::Bot;
use warehouse::BotMoveCommand;
use warehouse::Command;
use warehouse::CommandQueue;
use warehouse::ConsumePanicCommand;
use warehouse::IntoAny;
use warehouse::Location;
use warehouse::Object;
use warehouse::PanicCommand;
use warehouse::ParallelCommandQueue;
use warehouse::TestCommand;
use warehouse::TestNextCommand;
use warehouse::World;

#[test]
fn test_new() {
    let mut world = World::new();
    let mut queue = ParallelCommandQueue::new();
    queue.initialize(&mut world).unwrap();
}

#[test]
fn test_schedule_command() {
    let mut world = World::new();
    let mut queue = ParallelCommandQueue::new();
    queue.initialize(&mut world).unwrap();
    queue.schedule(AnyCommand::Test(TestCommand::new()), &mut world).unwrap();
}

#[test]
fn test_schedule_command_initialize() {
    let mut world = World::new();
    let mut queue = ParallelCommandQueue::new();
    queue.initialize(&mut world).unwrap();
    queue.schedule(AnyCommand::Test(TestCommand::new()), &mut world).unwrap();
    match &queue.commands()[0] {
        AnyCommand::Test(tc) => assert!(tc.data.initialized),
        _ => panic!("expected the scheduled test double"),
    }
}

#[test]
#[should_panic(expected = "Fault")]
fn test_schedule_panic() {
    let mut world = World::new();
    let mut queue = ParallelCommandQueue::new();
    queue.initialize(&mut world).unwrap();
    queue.schedule(AnyCommand::Panic(PanicCommand::new()), &mut world).unwrap();
}

#[test]
fn test_consume_command() {
    let mut world = World::new();
    let mut queue = ParallelCommandQueue::new();
    queue.initialize(&mut world).unwrap();
    queue.schedule(AnyCommand::Test(TestCommand::new()), &mut world).unwrap();
    // A one-shot command that was applied is dropped from the queue.
    assert!(!queue.consume(&mut world).unwrap());
    assert_eq!(queue.commands().len(), 0);
}

#[test]
#[should_panic(expected = "Fault")]
fn test_consume_panic() {
    let mut world = World::new();
    let mut queue = ParallelCommandQueue::new();
    queue.initialize(&mut world).unwrap();
    queue.schedule(AnyCommand::ConsumePanic(ConsumePanicCommand::new()), &mut world).unwrap();
    queue.consume(&mut world).unwrap();
}

#[test]
fn test_consume_parallel_command() {
    let mut world = World::new();
    let mut queue = ParallelCommandQueue::new();
    queue.initialize(&mut world).unwrap();
    queue.schedule(AnyCommand::Test(TestCommand::new()), &mut world).unwrap();
    queue.schedule(AnyCommand::Test(TestCommand::new()), &mut world).unwrap();
    // Both one-shot commands were applied; nothing stays pending.
    assert!(!queue.consume(&mut world).unwrap());
    assert_eq!(queue.commands().len(), 0);
}

#[test]
fn test_remove_consumed() {
    let mut world = World::new();
    let mut queue = ParallelCommandQueue::new();
    queue.initialize(&mut world).unwrap();
    queue.schedule(AnyCommand::Test(TestCommand::new()), &mut world).unwrap();
    queue.consume(&mut world).unwrap();
    assert!(queue.commands().len() == 0);
}

#[test]
fn test_retain_next() {
    let mut world = World::new();
    let mut queue = ParallelCommandQueue::new();
    queue.initialize(&mut world).unwrap();
    queue.schedule(AnyCommand::TestNext(TestNextCommand::new()), &mut world).unwrap();
    assert!(queue.consume(&mut world).unwrap());
    assert!(queue.commands().len() == 1);
}

#[test]
fn parallel_queue_test_render() {
    let mut world = World::new();
    let mut queue = ParallelCommandQueue::new();
    queue.initialize(&mut world).unwrap();
    queue.schedule(AnyCommand::TestNext(TestNextCommand::new()), &mut world).unwrap();
    queue.schedule(AnyCommand::TestNext(TestNextCommand::new()), &mut world).unwrap();
    assert_eq!(
        queue.render(&world).unwrap(),
        "{ \"type\": \"parallel_queue\", \"commands\": [{ \"type\": \"testnext\" }, { \"type\": \"testnext\" }] }"
    );
}

#[test]
#[should_panic(expected = "TargetOccupied")]
fn test_consume_collision_2() {
    let mut world = World::new();
    let bot1 = Bot::new();
    let mut bot2 = Bot::new();
    bot2.location = bot2.location.front().front();
    let target_loc = bot1.location().front();
    world.add_items(vec![bot1.into_any(), bot2.into_any()]);
    let mut queue = ParallelCommandQueue::new();
    queue.initialize(&mut world).unwrap();
    queue.schedule(AnyCommand::Move(BotMoveCommand::new(0, target_loc)), &mut world).unwrap();
    queue.schedule(AnyCommand::Move(BotMoveCommand::new(1, target_loc)), &mut world).unwrap();
    queue.consume(&mut world).unwrap();
}

#[test]
#[should_panic(expected = "TargetOccupied")]
fn test_consume_collision_3() {
    let mut world = World::new();
    let bot1 = Bot::new();
    let mut bot2 = Bot::new();
    bot2.location = bot2.location.front();
    let target_loc_1 = *bot2.location();
    let target_loc_2 = *bot1.location();
    world.add_items(vec![bot1.into_any(), bot2.into_any()]);
    let mut queue = ParallelCommandQueue::new();
    queue.initialize(&mut world).unwrap();
    queue.schedule(AnyCommand::Move(BotMoveCommand::new(0, target_loc_1)), &mut world).unwrap();
    queue.schedule(AnyCommand::Move(BotMoveCommand::new(1, target_loc_2)), &mut world).unwrap();
    queue.consume(&mut world).unwrap();
}

#[test]
fn move_race_first_wins_second_stays_put() {
    // Two moves toward the same free cell from different adjacent cells:
    // the first-submitted wins, the second fails with the collision
    // error and its robot never moves.
    let mut world = World::new();
    let mut bot1 = Bot::new();
    bot1.location = Location::new(1, 0, 0);
    let mut bot2 = Bot::new();
    bot2.location = Location::new(1, 2, 0);
    let target = Location::new(1, 1, 0);
    world.add_items(vec![bot1.into_any(), bot2.into_any()]);
    let mut queue = ParallelCommandQueue::new();
    queue.initialize(&mut world).unwrap();
    queue.schedule(AnyCommand::Move(BotMoveCommand::new(0, target)), &mut world).unwrap();
    queue.schedule(AnyCommand::Move(BotMoveCommand::new(1, target)), &mut world).unwrap();
    let err = queue.consume(&mut world);
    assert!(matches!(err, Err(warehouse::Error::TargetOccupied)));
    assert_eq!(*world.get_items()[0].location(), target);
    assert_eq!(*world.get_items()[1].location(), Location::new(1, 2, 0));
}
