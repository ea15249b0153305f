use blizzard::engine::ecs::{ComponentRegistry, World};
use blizzard::engine::game::Game;
use blizzard::engine::network_application::create_app;
use blizzard::example::multiplayer::{
    handle_client_message, new_game, position_system, Input, MyWorld, PositionRegistry, SharedState,
};
use blizzard::example::Message;
use blizzard::game::position::Position;
use std::collections::HashMap;

#[test]
fn steps_add_up_in_the_input() {
    let mut input = Input::new();
    assert_eq!(input, Input { x: 0, y: 0 });
    let idle = handle_client_message(
        &vec![Message::W, Message::W, Message::D, Message::Idle, Message::S, Message::A, Message::A],
        &mut input,
    );
    assert_eq!(idle, Input::new());
    assert_eq!(input, Input { x: -1, y: 1 });
    handle_client_message(&vec![], &mut input);
    assert_eq!(input, Input { x: -1, y: 1 });
    handle_client_message(&vec![Message::AddPlayer, Message::RemovePlayer], &mut input);
    assert_eq!(input, Input { x: -1, y: 1 });
}

#[test]
fn an_input_stops_at_the_edge() {
    let mut input = Input { x: i32::MAX, y: i32::MIN };
    input.displace(1, -1);
    assert_eq!(input, Input { x: i32::MAX, y: i32::MIN });
    input.displace(-1, 1);
    assert_eq!(input, Input { x: i32::MAX - 1, y: i32::MIN + 1 });
}

#[test]
fn every_position_drifts() {
    let mut positions: HashMap<u32, Position> = HashMap::new();
    position_system(&mut positions, Input { x: 1, y: 1 });
    assert!(positions.is_empty());
    positions.insert(1, Position { x: 0, y: 0 });
    positions.insert(2, Position { x: 10, y: -10 });
    positions.insert(3, Position { x: i32::MAX, y: 0 });
    position_system(&mut positions, Input { x: 2, y: -3 });
    assert_eq!(positions.get(&1), Some(&Position { x: 2, y: -3 }));
    assert_eq!(positions.get(&2), Some(&Position { x: 12, y: -13 }));
    assert_eq!(positions.get(&3), Some(&Position { x: i32::MAX, y: -3 }));
    assert_eq!(positions.len(), 3);
}

#[test]
fn the_drifting_game_shares_the_input_and_the_positions() {
    let mut game = new_game(MyWorld::new());
    game.world_config();
    assert_eq!(game.world.position.components.len(), 2);
    assert_eq!(game.world.entity_manager.get_all().len(), 2);
    let state = game.update(Input { x: 3, y: -1 });
    assert_eq!(state.counter, 3);
    assert_eq!(state.registry, vec![Position { x: 3, y: -1 }, Position { x: 3, y: -1 }]);
    let state = game.update(Input { x: -1, y: 0 });
    assert_eq!(state.counter, -1);
    assert_eq!(state.registry, vec![Position { x: 2, y: -1 }, Position { x: 2, y: -1 }]);
    assert_eq!(game.counter, 2);
    assert_eq!(game.reset_input(), Input::new());
    assert!(!game.end_game());
    game.render();
}

#[test]
fn the_drifting_game_runs_in_an_application() {
    let mut app = create_app(new_game(MyWorld::new()), SharedState::new(0), Input::new(), 4);
    assert_eq!(app.snapshot().counter, 0);
    assert!(app.snapshot().registry.is_empty());
    assert_eq!(app.tick_period(), 250);
    app.begin();
    let mut input = *app.input();
    handle_client_message(&vec![Message::D, Message::D, Message::W], &mut input);
    app.accept_input(input);
    app.tick();
    assert_eq!(app.snapshot().counter, 2);
    assert_eq!(app.snapshot().registry, vec![Position { x: 2, y: 1 }, Position { x: 2, y: 1 }]);
    assert_eq!(*app.input(), Input::new());
    app.tick();
    assert_eq!(app.snapshot().counter, 0);
    assert_eq!(app.snapshot().registry, vec![Position { x: 2, y: 1 }, Position { x: 2, y: 1 }]);
}

#[test]
fn a_position_registry_keeps_positions() {
    let mut registry = PositionRegistry::new();
    registry.add(4, Position { x: 1, y: 2 });
    registry.add_many(&vec![5, 6], Position::new());
    assert_eq!(registry.get(4), Some(&Position { x: 1, y: 2 }));
    assert_eq!(registry.get(6), Some(&Position::new()));
    registry.remove(4);
    assert_eq!(registry.get(4), None);
    assert_eq!(SharedState::new(9).counter, 9);
}
