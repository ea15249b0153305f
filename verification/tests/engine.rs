use blizzard::engine::ecs::ec_example::{decimal_text, lol, SomeComponent};
use blizzard::engine::ecs::vecs::{Component, Entity, Query, Type, World};
use blizzard::engine::ecs::{ComponentRegistry, EntityManager, ENTITY_ID_ATTEMPTS, ENTITY_ID_DIGITS};
use blizzard::engine::entry_point::run;
use blizzard::engine::logger::{
    debug, error, fatal, info, initialize_logging, log, log_output, shutdown, trace, warn, LogLevel,
};
use blizzard::engine::network_application::{create_app, period_millis, Application};
use blizzard::engine::{start, start_networked, DEFAULT_UPDATE_RATE};
use blizzard::example::server::{new_game, CounterRegistry, Input, MyWorld};
use blizzard::example::{Message, SharedState};
use blizzard::server::connection::{send_period, snapshot_frame};

fn example_app(rate: i32) -> Application<blizzard::example::server::MyGame, SharedState, Input> {
    let world = <MyWorld as blizzard::engine::ecs::World<Input>>::new();
    create_app(new_game(world), SharedState::new(), Input::default(), rate)
}

#[test]
fn periods_are_whole_milliseconds() {
    assert_eq!(period_millis(1), 1000);
    assert_eq!(period_millis(2), 500);
    assert_eq!(period_millis(3), 333);
    assert_eq!(period_millis(60), 16);
    assert_eq!(period_millis(1000), 1);
    assert_eq!(period_millis(i32::MAX), 0);
}

#[test]
fn sleep_is_what_is_left_of_the_period() {
    let app = example_app(2);
    assert_eq!(app.tick_period(), 500);
    assert_eq!(app.sleep_time(0), 500);
    assert_eq!(app.sleep_time(120), 380);
    assert_eq!(app.sleep_time(499), 1);
    // a tick that overran is absorbed
    assert_eq!(app.sleep_time(500), 0);
    assert_eq!(app.sleep_time(750), 0);
    assert_eq!(app.sleep_time(u64::MAX), 0);
}

#[test]
fn an_application_starts_stopped() {
    let mut app = example_app(2);
    assert!(!app.is_running());
    assert!(!app.is_running);
    assert!(app.snapshot().counters.is_empty());
    assert!(app.snapshot().registry.is_empty());
    assert_eq!(*app.input(), Input(Message::Idle, 0));
    app.begin();
    assert!(app.is_running());
    // the world of the example game has one counter
    app.tick();
    assert_eq!(app.snapshot().counters, vec![1]);
}

#[test]
fn a_tick_commits_a_whole_state_and_resets_the_input() {
    let mut app = example_app(2);
    app.begin();
    app.accept_input(Input::from(Message::AddPlayer, 11));
    app.tick();
    assert_eq!(*app.input(), Input::default());
    assert_eq!(app.snapshot().counters, vec![1]);
    assert_eq!(app.snapshot().registry.len(), 1);
    assert_eq!((app.snapshot().registry[0].x(), app.snapshot().registry[0].y()), (0, 0));
    assert_eq!(app.shared_state.counters, vec![1]);

    // the later of two inputs in one tick wins
    app.accept_input(Input::from(Message::S, 11));
    app.accept_input(Input::from(Message::W, 11));
    app.tick();
    assert_eq!(app.snapshot().counters, vec![2]);
    assert_eq!((app.snapshot().registry[0].x(), app.snapshot().registry[0].y()), (0, 1));

    // a tick without input leaves the players where they are
    app.tick();
    assert_eq!(app.snapshot().counters, vec![3]);
    assert_eq!((app.snapshot().registry[0].x(), app.snapshot().registry[0].y()), (0, 1));
    assert!(app.is_running());
}

#[test]
fn commit_replaces_the_snapshot() {
    let mut app = example_app(1);
    let mut state = SharedState::new();
    state.counters = vec![4, 5];
    app.commit(state);
    assert_eq!(app.snapshot().counters, vec![4, 5]);
    app.commit(SharedState::new());
    assert!(app.snapshot().counters.is_empty());
}

#[test]
fn two_ticks_and_one_broadcast_in_a_second() {
    // the simulation ticks twice a second, the server broadcasts once
    let tick_period = period_millis(2);
    let send = send_period(1);
    let mut app = example_app(2);
    app.begin();

    let mut commits = 0;
    let mut frames: Vec<Vec<u8>> = Vec::new();
    let mut now = 0;
    let mut next_tick = tick_period;
    let mut next_send = send;
    while now < 1000 {
        now = next_tick.min(next_send);
        if now == next_tick {
            app.tick();
            commits += 1;
            next_tick += tick_period;
        }
        if now == next_send {
            let counters: Vec<String> =
                app.snapshot().counters.iter().map(|c| c.to_string()).collect();
            frames.push(snapshot_frame(counters.join(",").as_bytes()));
            next_send += send;
        }
    }
    assert_eq!(commits, 2);
    // the one frame shows the state of the second tick
    assert_eq!(frames, vec![b"2\n".to_vec()]);
}

#[test]
fn start_networked_ticks_once_a_second() {
    let world = <MyWorld as blizzard::engine::ecs::World<Input>>::new();
    let app = start_networked(new_game(world), SharedState::new(), Input::default());
    assert_eq!(DEFAULT_UPDATE_RATE, 1);
    assert!(app.is_running());
    assert_eq!(app.tick_period(), 1000);
    start();
}

#[test]
fn run_ticks_until_the_budget_is_spent() {
    let world = <MyWorld as blizzard::engine::ecs::World<Input>>::new();
    let (app, ticks) = run(new_game(world), SharedState::new(), Input::default(), 4, 7);
    // the example game never ends
    assert_eq!(ticks, 7);
    assert!(app.is_running());
    assert_eq!(app.tick_period(), 250);
    assert_eq!(app.snapshot().counters, vec![7]);

    let world = <MyWorld as blizzard::engine::ecs::World<Input>>::new();
    let (app, ticks) = run(new_game(world), SharedState::new(), Input::default(), 4, 0);
    assert_eq!(ticks, 0);
    assert!(app.snapshot().counters.is_empty());
}

#[test]
fn log_lines() {
    assert_eq!(
        log("\x1b[1;31m", "[FATAL]", "disk full".to_string()),
        "\x1b[1;31m[FATAL]: disk full\n\n\x1b[1;37m\n"
    );
    assert_eq!(fatal("a".to_string()), "\x1b[1;31m[FATAL]: a\n\n\x1b[1;37m\n");
    assert_eq!(error("b".to_string()), "\x1b[1;31m[ERROR]: b\n\n\x1b[1;37m\n");
    assert_eq!(warn("c".to_string()), "\x1b[1;33m[WARN]: c\n\n\x1b[1;37m\n");
    assert_eq!(info("d".to_string()), "\x1b[1;37m[INFO]: d\n\n\x1b[1;37m\n");
    assert_eq!(debug("e".to_string()), "\x1b[1;37m[DEBUG]: e\n\n\x1b[1;37m\n");
    assert_eq!(trace("".to_string()), "\x1b[1;37m[TRACE]: \n\n\x1b[1;37m\n");
    assert_eq!(log_output(LogLevel::Warn, "w".to_string()), warn("w".to_string()));
    assert_eq!(log_output(LogLevel::Trace, "t".to_string()), trace("t".to_string()));
}

#[test]
fn logging_starts_with_one_example_of_each_level() {
    let lines = initialize_logging();
    assert_eq!(
        lines,
        vec![
            "\x1b[1;31m[FATAL]: Fatal example\n\n\x1b[1;37m\n".to_string(),
            "\x1b[1;31m[ERROR]: Error example\n\n\x1b[1;37m\n".to_string(),
            "\x1b[1;33m[WARN]: Warning example\n\n\x1b[1;37m\n".to_string(),
            "\x1b[1;37m[INFO]: Info example\n\n\x1b[1;37m\n".to_string(),
            "\x1b[1;37m[DEBUG]: Debug example\n\n\x1b[1;37m\n".to_string(),
            "\x1b[1;37m[TRACE]: Trace example\n\n\x1b[1;37m\n".to_string(),
        ]
    );
    shutdown();
}

#[test]
fn entities_are_created_marked_and_removed() {
    let mut manager = EntityManager::new();
    assert!(manager.get_all().is_empty());
    assert!(manager.create_entity_as(5));
    assert!(!manager.create_entity_as(5));
    assert!(manager.create_entity_as(6));
    assert!(manager.create_entity_as(7));
    assert_eq!(manager.get_one(5), Some(5));
    assert_eq!(manager.get_one(8), None);
    assert_eq!(manager.get_all().get(&5), Some(&false));

    manager.mark_remove(5);
    manager.mark_remove(7);
    assert_eq!(manager.get_all().get(&5), Some(&true));
    let mut marked = manager.marked_entities();
    marked.sort();
    assert_eq!(marked, vec![5, 7]);

    manager.remove_entities();
    assert_eq!(manager.get_all().len(), 1);
    assert_eq!(manager.get_one(6), Some(6));
    assert_eq!(manager.get_one(5), None);

    manager.remove_entity(6);
    manager.remove_entity(6);
    assert!(manager.get_all().is_empty());
    manager.remove_entities();
    assert!(manager.get_all().is_empty());
}

#[test]
fn marking_an_unknown_entity_creates_it() {
    let mut manager = EntityManager::new();
    manager.mark_remove(42);
    assert_eq!(manager.get_one(42), Some(42));
    manager.remove_entities();
    assert_eq!(manager.get_one(42), None);
}

#[test]
fn random_entities_are_fresh() {
    assert!(ENTITY_ID_ATTEMPTS > 0);
    let mut manager = EntityManager::new();
    let first = manager.create_entity().unwrap();
    assert!(first < 10u32.pow(ENTITY_ID_DIGITS));
    let more = manager.create_n_entities(20);
    assert_eq!(more.len(), 20);
    assert!(!more.contains(&first));
    for (i, entity) in more.iter().enumerate() {
        assert!(!more[..i].contains(entity));
        assert_eq!(manager.get_all().get(entity), Some(&false));
    }
    assert_eq!(manager.get_all().len(), 21);
    assert!(manager.create_n_entities(0).is_empty());
    assert!(manager.create_n_entities(-4).is_empty());
    assert_eq!(manager.get_all().len(), 21);
}

#[test]
fn no_entity_is_created_when_every_identifier_exists() {
    let mut manager = EntityManager::new();
    for id in 0..10_000 {
        assert!(manager.create_entity_as(id));
    }
    assert_eq!(manager.create_entity(), None);
    assert!(manager.create_n_entities(3).is_empty());
    assert_eq!(manager.get_all().len(), 10_000);
}

#[test]
fn registries_map_entities_to_components() {
    let mut counters = CounterRegistry::new();
    assert_eq!(counters.get(1), None);
    counters.add(1, 10);
    counters.add(2, 20);
    counters.add(1, 11);
    assert_eq!(counters.get(1), Some(&11));
    counters.add_many(&vec![2, 3, 4], 0);
    assert_eq!(counters.get(1), Some(&11));
    assert_eq!(counters.get(2), Some(&0));
    assert_eq!(counters.get(4), Some(&0));
    counters.remove(2);
    counters.remove(9);
    assert_eq!(counters.get(2), None);
    assert_eq!(counters.components.len(), 3);
}

#[test]
fn a_world_numbers_its_entities() {
    let mut world: World<SomeComponent> = World::new();
    assert_eq!(world.add_entity(), 0);
    assert_eq!(world.add_entity(), 1);
    assert_eq!(world.add_entity(), 2);
    assert_eq!(world.entity_manager, vec![Entity(0), Entity(1), Entity(2)]);
    assert!(world.component_manager.is_empty());
}

#[test]
fn a_world_updates_every_component() {
    let mut world: World<SomeComponent> = World::new();
    let a = world.add_entity();
    let b = world.add_entity();
    world.add_component(a, SomeComponent { count: 0 });
    world.add_components(b, vec![SomeComponent { count: 5 }, SomeComponent { count: -1 }]);
    world.add_components(a, vec![SomeComponent { count: 10 }]);
    world.update(3);
    world.update(4);
    assert_eq!(world.component_manager[&a], vec![SomeComponent { count: 2 }, SomeComponent { count: 12 }]);
    assert_eq!(world.component_manager[&b], vec![SomeComponent { count: 7 }, SomeComponent { count: 1 }]);
    world.update_entity(b, 0);
    world.update_entity(99, 0);
    assert_eq!(world.component_manager[&b][0].count, 8);
    assert_eq!(world.component_manager[&a][0].count, 2);
    assert_eq!(world.component_manager.len(), 2);
}

#[test]
fn a_counter_stops_at_the_largest_count() {
    let mut component = SomeComponent { count: i32::MAX - 1 };
    component.update(0);
    assert_eq!(component.count, i32::MAX);
    component.update(0);
    assert_eq!(component.count, i32::MAX);
    assert_eq!(component.print(), "2147483647");
    assert_eq!(component.component_name(), "SomeComponent");
    assert_eq!(component.ctype(), Type::Default);
    assert_eq!(Type::default(), Type::Default);
    assert_eq!(decimal_text(-40), "-40");
    assert_eq!(decimal_text(0), "0");
}

#[test]
fn a_query_finds_the_entities_with_all_kinds() {
    let mut world: World<SomeComponent> = World::new();
    let a = world.add_entity();
    let b = world.add_entity();
    let _c = world.add_entity();
    world.add_component(a, SomeComponent { count: 0 });
    world.add_component(b, SomeComponent { count: 0 });
    world.add_components(9, vec![]);

    let mut all = world.query(Query::from(vec![Type::Default]));
    all.sort();
    assert_eq!(all, vec![a, b]);
    assert!(world.query(Query::from(vec![Type::Other])).is_empty());
    assert!(world.query(Query::from(vec![Type::Default, Type::Other])).is_empty());
    // the empty query asks for nothing: every entity with a list answers it
    let mut any = world.query(Query::new());
    any.sort();
    assert_eq!(any, vec![a, b, 9]);
}

#[test]
fn the_example_world_has_one_updated_counter() {
    let world = lol();
    assert_eq!(world.entity_manager, vec![Entity(0)]);
    assert_eq!(world.component_manager.len(), 1);
    assert_eq!(world.component_manager[&0], vec![SomeComponent { count: 1 }]);
}

#[test]
fn a_cloned_application_goes_its_own_way() {
    let mut app = example_app(2);
    app.begin();
    app.tick();
    let mut copy = app.clone();
    copy.tick();
    assert_eq!(app.snapshot().counters, vec![1]);
    assert_eq!(copy.snapshot().counters, vec![2]);
    assert_eq!(copy.tick_period(), app.tick_period());
}
