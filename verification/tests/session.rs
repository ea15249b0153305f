use blizzard::server::connection::{send_period, snapshot_frame, Connection, ReadOutcome, Received, SendAction};
use blizzard::server::connector::Connector;
use blizzard::server::controller::{Controller, Rejected, ID_ATTEMPTS, ID_DIGITS};
use blizzard::server::player::Player;
use blizzard::server::Server;

fn end_of_stream() -> ReadOutcome {
    ReadOutcome::Bytes(Vec::new())
}

#[test]
fn full_session_rejects_until_a_player_leaves() {
    // a session for two players
    let mut controller = Controller::new(7000, 2);
    assert!(controller.connector().is_empty());

    // two clients connect: both are admitted
    let mut first = Connection::open(&mut controller).unwrap();
    let second = Connection::open(&mut controller).unwrap();
    assert_ne!(first.id(), second.id());
    assert_eq!(controller.player_count(), 2);
    assert_eq!(controller.connector().player_count(), 2);
    assert!(!controller.connector().is_empty());

    // a third is told that the session is full
    let refused = Connection::open(&mut controller);
    assert_eq!(refused.unwrap_err(), b"Could not join\n".to_vec());
    assert_eq!(controller.player_count(), 2);

    // the first client disconnects
    let received = first.receive(&mut controller, &end_of_stream());
    assert!(matches!(received, Received::Disconnected));
    assert_eq!(controller.player_count(), 1);
    assert_eq!(controller.connector().player_count(), 1);
    assert!(controller.connector().is_empty());

    // the third client tries again and is admitted
    let third = Connection::open(&mut controller).unwrap();
    assert_ne!(third.id(), second.id());
    assert_eq!(controller.player_count(), 2);
    assert!(!controller.connector().is_empty());
}

#[test]
fn count_stays_between_zero_and_capacity() {
    let capacity = 3;
    let mut controller = Controller::new(7001, capacity);
    let mut state: u32 = 12345;
    for _ in 0..2000 {
        // a fixed pseudo-random walk over joins and releases
        state = state.wrapping_mul(1664525).wrapping_add(1013904223);
        let id = ((state >> 8) % 5) as usize;
        if (state >> 20) % 2 == 0 {
            let _ = controller.join_as(id);
        } else {
            let _ = controller.release(id);
        }
        assert!(controller.player_count() <= capacity as usize);
        assert_eq!(controller.player_count(), controller.connector().player_count());
        assert_eq!(controller.players().len(), controller.player_count());
    }
}

#[test]
fn releasing_twice_is_releasing_once() {
    let mut controller = Controller::new(7000, 4);
    controller.join_as(1).unwrap();
    controller.join_as(2).unwrap();
    controller.join_as(3).unwrap();
    assert!(controller.release(2));
    assert_eq!(controller.player_count(), 2);
    assert!(!controller.release(2));
    assert_eq!(controller.player_count(), 2);
    assert_eq!(controller.connector().player_count(), 2);
    let ids: Vec<usize> = controller.players().iter().map(|p| p.id).collect();
    assert_eq!(ids, vec![1, 3]);
}

#[test]
fn release_of_a_stranger_changes_nothing() {
    let mut controller = Controller::new(7000, 2);
    assert!(!controller.release(9));
    assert_eq!(controller.player_count(), 0);
    controller.join_as(4).unwrap();
    assert!(!controller.release(9));
    assert_eq!(controller.player_count(), 1);
}

#[test]
fn join_as_says_why_it_fails() {
    let mut controller = Controller::new(7000, 2);
    assert_eq!(controller.join_as(7), Ok(Player { id: 7 }));
    assert_eq!(controller.join_as(7), Err(Rejected::IdTaken));
    assert_eq!(controller.join_as(8), Ok(Player::new(8)));
    assert_eq!(controller.join_as(9), Err(Rejected::Full));
    // a full session is full, whatever the identifier
    assert_eq!(controller.join_as(7), Err(Rejected::Full));
    assert_eq!(controller.player_count(), 2);
}

#[test]
fn join_draws_a_free_identifier() {
    let mut controller = Controller::new(7000, 50);
    let mut seen = Vec::new();
    for _ in 0..50 {
        let player = controller.join().unwrap();
        assert!(0 < player.id && player.id < 10usize.pow(ID_DIGITS));
        assert!(!seen.contains(&player.id));
        seen.push(player.id);
    }
    assert_eq!(controller.join(), Err(Rejected::Full));
    assert_eq!(controller.player_count(), 50);
}

#[test]
fn join_gives_up_when_every_identifier_is_taken() {
    assert!(ID_ATTEMPTS > 0);
    let mut controller = Controller::new(7000, 10_001);
    for id in 0..10_000 {
        assert!(controller.join_as(id).is_ok());
    }
    assert_eq!(controller.join(), Err(Rejected::NoFreeId));
    assert_eq!(controller.add_player(), (false, 0));
    assert_eq!(controller.player_count(), 10_000);
    // an identifier beyond the random ones is still free
    assert!(controller.join_as(10_000).is_ok());
    assert_eq!(controller.join(), Err(Rejected::Full));
}

#[test]
fn add_player_reports_the_identifier() {
    let mut controller = Controller::new(7000, 1);
    let (could_join, id) = controller.add_player();
    assert!(could_join);
    assert_eq!(controller.position(id), Some(0));
    assert_eq!(controller.players()[0].id, id);
    assert_eq!(controller.add_player(), (false, 0));
}

#[test]
fn a_session_without_capacity_takes_nobody() {
    for max_players in [0, -1, i32::MIN] {
        let mut controller = Controller::new(7000, max_players);
        assert!(!controller.has_room());
        assert!(!controller.connector().is_empty());
        assert_eq!(controller.add_player(), (false, 0));
        assert_eq!(controller.join_as(1), Err(Rejected::Full));
        assert_eq!(controller.player_count(), 0);
    }
}

#[test]
fn remove_player_by_place() {
    let mut controller = Controller::new(7002, 3);
    assert_eq!(controller.port(), 7002);
    assert!(!controller.remove_player(0));
    controller.join_as(10).unwrap();
    controller.join_as(20).unwrap();
    controller.join_as(30).unwrap();
    assert_eq!(controller.position(20), Some(1));
    assert_eq!(controller.position(40), None);
    assert!(controller.remove_player(1));
    assert_eq!(controller.position(30), Some(1));
    assert_eq!(controller.position(20), None);
    assert_eq!(controller.connector().player_count(), 2);
    assert!(controller.remove_player(0));
    assert!(controller.remove_player(0));
    assert!(!controller.remove_player(0));
    assert_eq!(controller.connector().player_count(), 0);
}

#[test]
fn connector_counts() {
    let mut connector = Connector::new(7003, 2);
    assert_eq!(connector.port, 7003);
    assert_eq!(connector.port(), 7003);
    assert_eq!(connector.max_players(), 2);
    assert!(connector.is_empty());
    connector.add_player();
    assert!(connector.is_empty());
    connector.add_player();
    assert!(!connector.is_empty());
    assert_eq!(connector.player_count(), 2);
    connector.remove_player();
    assert!(connector.is_empty());
    assert_eq!(connector.player_count(), 1);
}

#[test]
fn receive_hands_frames_over_in_order() {
    let mut controller = Controller::new(7000, 1);
    let mut connection = Connection::open(&mut controller).unwrap();
    let frames: Vec<&[u8]> = vec![b"\"W\"\n", b"\"A\"\n", b"not json\n", b"\"D\""];
    let mut payloads = Vec::new();
    for frame in frames {
        match connection.receive(&mut controller, &ReadOutcome::Bytes(frame.to_vec())) {
            Received::Payload(payload) => payloads.push(payload),
            other => panic!("unexpected {:?}", other),
        }
        assert!(!connection.is_closing());
        assert_eq!(controller.player_count(), 1);
    }
    assert_eq!(
        payloads,
        vec![b"\"W\"".to_vec(), b"\"A\"".to_vec(), b"not json".to_vec(), b"\"D\"".to_vec()]
    );
}

#[test]
fn a_disconnect_releases_exactly_once() {
    let mut controller = Controller::new(7000, 3);
    controller.join_as(1).unwrap();
    let mut connection = Connection::new(2);
    controller.join_as(2).unwrap();
    controller.join_as(3).unwrap();
    assert_eq!(connection.id(), 2);

    let reads = vec![
        ReadOutcome::Bytes(b"x\n".to_vec()),
        end_of_stream(),
        ReadOutcome::Failed,
        ReadOutcome::Bytes(b"y\n".to_vec()),
        end_of_stream(),
    ];
    let mut releases = 0;
    let mut before = controller.player_count();
    for read in &reads {
        let received = connection.receive(&mut controller, read);
        if controller.player_count() != before {
            assert_eq!(controller.player_count(), before - 1);
            assert!(matches!(received, Received::Disconnected));
            releases += 1;
            before = controller.player_count();
        }
    }
    assert_eq!(releases, 1);
    assert_eq!(controller.player_count(), 2);
    assert_eq!(controller.position(2), None);
    assert!(connection.is_closing());
    assert!(matches!(connection.receive(&mut controller, &end_of_stream()), Received::Stopped));
}

#[test]
fn a_failed_read_ends_the_connection() {
    let mut controller = Controller::new(7000, 1);
    let mut connection = Connection::open(&mut controller).unwrap();
    assert!(matches!(
        connection.receive(&mut controller, &ReadOutcome::Failed),
        Received::Disconnected
    ));
    assert_eq!(controller.player_count(), 0);
    assert!(connection.is_closing());
}

#[test]
fn send_loop_stops_only_when_closing() {
    let mut controller = Controller::new(7000, 1);
    let mut connection = Connection::open(&mut controller).unwrap();
    assert_eq!(connection.after_send(true), SendAction::Continue);
    // a failed write alone does not end the loop
    assert_eq!(connection.after_send(false), SendAction::Continue);
    connection.receive(&mut controller, &end_of_stream());
    assert_eq!(connection.after_send(true), SendAction::Stop);
    assert_eq!(connection.after_send(false), SendAction::Stop);
}

#[test]
fn broadcast_period_and_frame() {
    assert_eq!(send_period(1), 1000);
    assert_eq!(send_period(30), 33);
    assert_eq!(send_period(1000), 1);
    assert_eq!(send_period(1001), 0);
    assert_eq!(snapshot_frame(b"{\"counters\":[1]}"), b"{\"counters\":[1]}\n".to_vec());
    assert_eq!(Connection::rejection(), b"Could not join\n".to_vec());
}

#[test]
fn a_session_is_started_once_its_listener_is_up() {
    let mut controller = Controller::new(7000, 2);
    assert!(!controller.connector().is_started());
    controller.join_as(3).unwrap();
    controller.start();
    assert!(controller.connector().is_started());
    assert_eq!(controller.player_count(), 1);
    assert!(controller.connector().is_empty());
    controller.join_as(4).unwrap();
    assert!(controller.connector().is_started());
    assert!(!controller.connector().is_empty());

    let mut connector = Connector::new(7001, 1);
    assert!(!connector.is_started());
    connector.start();
    assert!(connector.is_started());
    assert!(connector.is_empty());
}

#[test]
fn a_port_from_matchmaking_is_only_a_hint() {
    let mut server = Server::new(2, 1);
    let mut first = Controller::new(7000, 1);
    let mut second = Controller::new(7001, 1);

    // two clients are told the same port
    assert_eq!(server.handle_client_connection(), b"7000\n".to_vec());
    assert_eq!(server.handle_client_connection(), b"7000\n".to_vec());

    // the first to arrive gets the place
    assert!(Connection::open(&mut first).is_ok());
    assert!(Connection::open(&mut first).is_err());

    // the one that was refused asks again and is sent elsewhere
    server.report(0, first.connector());
    server.report(1, second.connector());
    assert_eq!(server.handle_client_connection(), b"7001\n".to_vec());
    assert!(Connection::open(&mut second).is_ok());
    server.report(1, second.connector());
    assert_eq!(server.handle_client_connection(), b"0\n".to_vec());
}
