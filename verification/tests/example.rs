use blizzard::engine::ecs::{values, World};
use blizzard::engine::game::Game;
use blizzard::example::client::{closes_after, lobby_for, message_for, Lobby};
use blizzard::example::server::{
    add_player_system, counter_system, handle_client_message, new_game, remove_player_system,
    update_player_pos_system, Input, MyWorld, PlayerIdMap,
};
use blizzard::example::{Message, Position, SharedState};
use std::collections::HashMap;

fn place(world: &MyWorld, player: usize) -> Option<(i32, i32)> {
    let entity = world.player_id_map.players.get(&player)?;
    let position = world.positions.components.get(entity)?;
    Some((position.x(), position.y()))
}

#[test]
fn keys_become_messages() {
    assert_eq!(message_for("w"), Message::W);
    assert_eq!(message_for("a"), Message::A);
    assert_eq!(message_for("s"), Message::S);
    assert_eq!(message_for("d"), Message::D);
    assert_eq!(message_for("close"), Message::RemovePlayer);
    for other in ["", "W", "ww", "x", " w", "closed", "join"] {
        assert_eq!(message_for(other), Message::Idle);
    }
    assert!(closes_after(Message::RemovePlayer));
    assert!(!closes_after(Message::W));
    assert!(!closes_after(Message::Idle));
    assert!(!closes_after(Message::AddPlayer));
}

#[test]
fn the_lobby_answer_is_a_port_or_a_wait() {
    assert_eq!(lobby_for(b"7002\n"), Lobby::Session(7002));
    assert_eq!(lobby_for(b"0\n"), Lobby::TryLater);
    assert_eq!(lobby_for(b"Could not join"), Lobby::Malformed);
    assert_eq!(lobby_for(b""), Lobby::Malformed);
    assert_eq!(lobby_for(b"-1\n"), Lobby::Session(-1));
}

#[test]
fn positions_add_up() {
    let mut position = Position::new();
    assert_eq!((position.x(), position.y()), (0, 0));
    position.add_assign(Position::displacement(3, -4));
    position.add_assign(Position::displacement(-1, 1));
    assert_eq!(position, Position::displacement(2, -3));
    assert_eq!(position.checked_add(Position::displacement(1, 1)), Some(Position::displacement(3, -2)));
    assert_eq!(Position::displacement(i32::MAX, 0).checked_add(Position::displacement(1, 0)), None);
    assert_eq!(Position::displacement(0, i32::MIN).checked_add(Position::displacement(0, -1)), None);
}

#[test]
fn shared_state_starts_empty() {
    let state = SharedState::new();
    assert!(state.counters.is_empty());
    assert!(state.registry.is_empty());
    assert!(PlayerIdMap::new().players.is_empty());
}

#[test]
fn inputs() {
    assert_eq!(Input::default(), Input(Message::Idle, 0));
    assert_eq!(Input::from(Message::D, 8), Input(Message::D, 8));
}

#[test]
fn the_last_message_of_a_tick_stays() {
    let mut input = Input::from(Message::W, 1);
    assert_eq!(handle_client_message(&vec![], &mut input), Input::default());
    assert_eq!(input, Input(Message::W, 1));
    let messages = vec![(Message::A, 2), (Message::AddPlayer, 3), (Message::S, 2)];
    assert_eq!(handle_client_message(&messages, &mut input), Input(Message::Idle, 0));
    assert_eq!(input, Input(Message::S, 2));
}

#[test]
fn players_join_walk_and_leave() {
    let mut world = MyWorld::new();
    let entity = add_player_system(&mut world, 77).unwrap();
    assert_eq!(world.entity_manager.get_one(entity), Some(entity));
    assert_eq!(world.players.components.get(&entity), Some(&77));
    assert_eq!(place(&world, 77), Some((0, 0)));

    update_player_pos_system(&mut world, 77, Position::displacement(0, 1));
    update_player_pos_system(&mut world, 77, Position::displacement(0, 1));
    update_player_pos_system(&mut world, 77, Position::displacement(-1, 0));
    assert_eq!(place(&world, 77), Some((-1, 2)));
    // a stranger moves nobody
    update_player_pos_system(&mut world, 78, Position::displacement(5, 5));
    assert_eq!(place(&world, 77), Some((-1, 2)));
    assert_eq!(world.positions.components.len(), 1);

    remove_player_system(&mut world, 78);
    assert_eq!(place(&world, 77), Some((-1, 2)));
    remove_player_system(&mut world, 77);
    assert_eq!(place(&world, 77), None);
    assert!(world.players.components.is_empty());
    assert!(world.positions.components.is_empty());
    assert!(world.player_id_map.players.is_empty());
    assert_eq!(world.entity_manager.get_one(entity), None);
}

#[test]
fn a_player_without_position_starts_from_the_step() {
    let mut world = MyWorld::new();
    let entity = add_player_system(&mut world, 1).unwrap();
    world.positions.components.remove(&entity);
    update_player_pos_system(&mut world, 1, Position::displacement(2, 3));
    assert_eq!(place(&world, 1), Some((4, 6)));
}

#[test]
fn a_step_off_the_plane_is_not_taken() {
    let mut world = MyWorld::new();
    let entity = add_player_system(&mut world, 1).unwrap();
    world.positions.components.insert(entity, Position::displacement(i32::MAX, 5));
    update_player_pos_system(&mut world, 1, Position::displacement(1, 0));
    assert_eq!(place(&world, 1), Some((i32::MAX, 5)));
    update_player_pos_system(&mut world, 1, Position::displacement(0, 1));
    assert_eq!(place(&world, 1), Some((i32::MAX, 6)));
}

#[test]
fn counters_count_every_tick() {
    let mut counters: HashMap<u32, u32> = HashMap::new();
    counter_system(&mut counters);
    assert!(counters.is_empty());
    counters.insert(1, 0);
    counters.insert(2, 41);
    counters.insert(3, u32::MAX);
    counter_system(&mut counters);
    assert_eq!(counters.get(&1), Some(&1));
    assert_eq!(counters.get(&2), Some(&42));
    assert_eq!(counters.get(&3), Some(&u32::MAX));
    assert_eq!(counters.len(), 3);
    let mut listed = values(&counters);
    listed.sort();
    assert_eq!(listed, vec![1, 42, u32::MAX]);
}

#[test]
fn systems_run_on_the_message() {
    let mut world = MyWorld::new();
    world.counters.components.insert(500, 0);
    world.run_systems(Input::from(Message::AddPlayer, 4));
    assert_eq!(place(&world, 4), Some((0, 0)));
    world.run_systems(Input::from(Message::W, 4));
    assert_eq!(place(&world, 4), Some((0, 1)));
    world.run_systems(Input::from(Message::D, 4));
    assert_eq!(place(&world, 4), Some((1, 1)));
    world.run_systems(Input::from(Message::S, 4));
    world.run_systems(Input::from(Message::S, 4));
    assert_eq!(place(&world, 4), Some((1, -1)));
    world.run_systems(Input::from(Message::A, 4));
    world.run_systems(Input::from(Message::A, 4));
    assert_eq!(place(&world, 4), Some((-1, -1)));
    world.run_systems(Input::from(Message::Idle, 4));
    assert_eq!(place(&world, 4), Some((-1, -1)));
    world.run_systems(Input::from(Message::RemovePlayer, 4));
    assert_eq!(place(&world, 4), None);
    assert_eq!(world.counters.components.get(&500), Some(&9));
}

#[test]
fn the_game_shares_counters_and_positions() {
    let mut game = new_game(MyWorld::new());
    assert_eq!(game.counter, 0);
    game.world_config();
    assert_eq!(game.world.counters.components.len(), 1);
    assert_eq!(game.world.entity_manager.get_all().len(), 1);

    let state = game.update(Input::from(Message::AddPlayer, 1));
    assert_eq!(state.counters, vec![1]);
    assert_eq!(state.registry, vec![Position::new()]);
    let state = game.update(Input::from(Message::AddPlayer, 2));
    assert_eq!(state.registry, vec![Position::new(), Position::new()]);
    let state = game.update(Input::from(Message::D, 2));
    assert_eq!(state.counters, vec![3]);
    let mut places: Vec<(i32, i32)> = state.registry.iter().map(|p| (p.x(), p.y())).collect();
    places.sort();
    assert_eq!(places, vec![(0, 0), (1, 0)]);
    assert_eq!(game.counter, 3);
    assert!(!game.end_game());
    assert_eq!(game.reset_input(), Input::default());
    game.render();
}

#[test]
fn a_player_that_left_is_forgotten() {
    let mut input = Input::from(Message::W, 5);
    blizzard::example::server::forget_player(&mut input, 6);
    assert_eq!(input, Input(Message::W, 5));
    blizzard::example::server::forget_player(&mut input, 5);
    assert_eq!(input, Input::default());
    blizzard::example::server::forget_player(&mut input, 0);
    assert_eq!(input, Input::default());
}
