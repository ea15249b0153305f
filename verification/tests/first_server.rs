use blizzard::game::game_pool::{GamePool, FIRST_PORT};
use blizzard::game::game_wrapper::GameWrapper;
use blizzard::game::player::Player;
use blizzard::game::position::Position;
use blizzard::game::server::Server;
use blizzard::game::session::{Game, Handled};
use blizzard::game::signal::Signal;
use blizzard::server::connection_wrapper::ConnectionWrapper;
use blizzard::server::game_connection::{Connected, GameConnection, SEND_PERIOD_MILLIS};
use blizzard::server::game_pool::GamePool as ConnectionPool;

#[test]
fn directions() {
    assert_eq!(Position::new(), Position { x: 0, y: 0 });
    assert_eq!(Position::direction(3, -2), Position { x: 3, y: -2 });
    assert_eq!(Position::up(), Position { x: 0, y: 1 });
    assert_eq!(Position::down(), Position { x: 0, y: -1 });
    assert_eq!(Position::left(), Position { x: -1, y: 0 });
    assert_eq!(Position::right(), Position { x: 1, y: 0 });
}

#[test]
fn positions_are_displaced() {
    let mut position = Position::new();
    position.displace_unit();
    assert_eq!(position, Position { x: 1, y: 1 });
    position.displace(-5, 2);
    assert_eq!(position, Position { x: -4, y: 3 });
    position.add_assign(Position::right());
    assert_eq!(position, Position { x: -3, y: 3 });
    assert_eq!(position + Position::down(), Position { x: -3, y: 2 });
    assert_eq!(Position::up() + Position::left(), Position { x: -1, y: 1 });
}

#[test]
fn players_move() {
    let mut player = Player::new(12);
    assert_eq!(player, Player { id: 12, pos: Position::new() });
    player.move_player();
    player.move_player();
    assert_eq!(player.pos, Position { x: 2, y: 2 });
    player.move_by(-2, 5);
    assert_eq!(player, Player { id: 12, pos: Position { x: 0, y: 7 } });
    assert_eq!(Signal::default_move(), Signal::MovePlayer(Position { x: 0, y: 0 }));
}

#[test]
fn wrappers_count_players() {
    let mut wrapper = GameWrapper::new(3, 7003, 2);
    assert_eq!(wrapper.port, 7003);
    assert_eq!(wrapper.port(), 7003);
    assert!(wrapper.is_empty());
    wrapper.add_player();
    wrapper.add_player();
    assert!(!wrapper.is_empty());
    assert_eq!(wrapper.player_count(), 2);
    wrapper.remove_player();
    assert!(wrapper.is_empty());
    assert!(!GameWrapper::new(0, 7000, 0).is_empty());
    assert!(!GameWrapper::new(0, 7000, -2).is_empty());
}

#[test]
fn a_started_game_is_closed() {
    let mut wrapper = ConnectionWrapper::new(0, 7000, 2);
    assert!(wrapper.is_empty());
    wrapper.add_player();
    assert_eq!(wrapper.player_count(), 1);
    wrapper.start();
    assert!(!wrapper.is_empty());
    wrapper.remove_player();
    assert!(!wrapper.is_empty());
    assert_eq!(wrapper.port(), 7000);
    assert_eq!(wrapper.port, 7000);
}

#[test]
fn game_pools_offer_the_first_open_game() {
    let mut pool = GamePool::new(3, 1);
    assert_eq!(FIRST_PORT, 7000);
    assert_eq!(pool.game_wrappers.len(), 3);
    assert_eq!(pool.find_empty_game(), Some(7000));
    pool.game_wrappers[0].add_player();
    assert_eq!(pool.find_empty_game(), Some(7001));
    pool.game_wrappers[1].add_player();
    pool.game_wrappers[2].add_player();
    assert_eq!(pool.find_empty_game(), None);
    pool.game_wrappers[1].remove_player();
    assert_eq!(pool.find_empty_game(), Some(7001));
    assert_eq!(GamePool::new(0, 1).find_empty_game(), None);

    let mut pool = ConnectionPool::new(2, 1);
    assert_eq!(pool.find_empty_game(), Some(7000));
    pool.game_connections[0].start();
    assert_eq!(pool.find_empty_game(), Some(7001));
    pool.game_connections[1].add_player();
    assert_eq!(pool.find_empty_game(), None);
}

#[test]
fn the_first_server_answers_with_a_port_line() {
    let mut server = Server::new(2, 1);
    assert_eq!(server.handle_client_connection(), b"7000\n".to_vec());
    server.game_pool_mut().game_wrappers[0].add_player();
    assert_eq!(server.handle_client_connection(), b"7001\n".to_vec());
    server.game_pool_mut().game_wrappers[1].add_player();
    assert_eq!(server.handle_client_connection(), b"0\n".to_vec());
    assert_eq!(server.game_pool().game_wrappers.len(), 2);
}

#[test]
fn a_game_takes_players_up_to_its_limit() {
    let mut game = Game::new(7000, 2, GameWrapper::new(0, 7000, 2));
    let (joined, first) = game.add_player();
    assert!(joined);
    assert!(first < 10_000);
    assert!(game.add_player_as(5));
    assert_eq!(game.add_player(), (false, 0));
    assert!(!game.add_player_as(6));
    assert_eq!(game.players().len(), 2);
    assert_eq!(game.players()[1], Player::new(5));
    assert_eq!(game.game_wrapper().player_count(), 2);
    assert!(!game.game_wrapper().is_empty());
    assert!(game.remove_player(0));
    assert_eq!(game.players()[0].id, 5);
    assert!(game.remove_player(0));
    assert!(!game.remove_player(0));
    assert_eq!(game.game_wrapper().player_count(), 0);
}

#[test]
fn a_game_moves_the_player_that_sends() {
    let mut game = Game::new(7000, 3, GameWrapper::new(0, 7000, 3));
    game.add_player_as(1);
    game.add_player_as(2);
    assert_eq!(game.handle_player(2, 10), Some(Handled::Moved));
    assert_eq!(game.handle_player(2, 1), Some(Handled::Moved));
    assert_eq!(game.handle_player(1, 512), Some(Handled::Moved));
    assert_eq!(game.players()[0].pos, Position { x: 1, y: 1 });
    assert_eq!(game.players()[1].pos, Position { x: 2, y: 2 });
    assert_eq!(game.handle_player(3, 10), None);
    assert_eq!(game.handle_player(1, 0), Some(Handled::Left));
    assert_eq!(game.position(1), None);
    assert_eq!(game.position(2), Some(0));
    assert_eq!(game.game_wrapper().player_count(), 1);
    assert_eq!(game.handle_player(1, 0), None);
}

#[test]
fn a_game_connection_handles_signals() {
    let mut game = GameConnection::new(7000, 2, ConnectionWrapper::new(0, 7000, 2));
    assert_eq!(SEND_PERIOD_MILLIS, 30);
    assert!(game.add_player_as(8));
    let (joined, second) = game.add_player();
    assert!(joined);
    assert_eq!(game.add_player(), (false, 0));
    assert_eq!(game.connection_wrapper().player_count(), 2);

    game.handle_signal(Signal::MovePlayer(Position { x: 2, y: -3 }), 0);
    game.handle_signal(Signal::StartConnection, 0);
    game.handle_signal(Signal::EndConnection, 0);
    game.handle_signal(Signal::MovePlayer(Position { x: i32::MAX, y: 0 }), 0);
    assert_eq!(game.players()[0], Player { id: 8, pos: Position { x: 2, y: -3 } });

    assert_eq!(
        game.connect_player(8, Some(Signal::MovePlayer(Position::up()))),
        Connected::Signalled
    );
    assert_eq!(game.players()[0].pos, Position { x: 2, y: -2 });
    assert_eq!(game.connect_player(10_001, Some(Signal::default_move())), Connected::Unknown);
    assert_eq!(game.connect_player(10_001, None), Connected::Unknown);
    assert_eq!(game.connect_player(8, None), Connected::Left);
    assert_eq!(game.position(8), if second == 8 { Some(0) } else { None });
    assert_eq!(game.players().len(), 1);
    assert_eq!(game.connection_wrapper().player_count(), 1);
    assert!(game.remove_player(0));
    assert!(!game.remove_player(0));
}
