use blizzard::server::connector::Connector;
use blizzard::decimal::{decimal, parse};
use blizzard::server::matchmaking::{parse_port_line, port_line, NO_PORT};
use blizzard::server::pool::{Pool, BASE_PORT};
use blizzard::server::Server;

#[test]
fn pool_has_consecutive_ports() {
    let pool = Pool::new(4, 2);
    assert_eq!(pool.len(), 4);
    for i in 0..4 {
        let connector = pool.connector(i);
        assert_eq!(connector.port, BASE_PORT + i as i32);
        assert_eq!(connector.port, 7000 + i as i32);
        assert_eq!(connector.max_players(), 2);
        assert_eq!(connector.player_count(), 0);
    }
    assert_eq!(Pool::new(0, 2).len(), 0);
    assert_eq!(Pool::new(-3, 2).len(), 0);
}

#[test]
fn find_empty_game_returns_the_first_open_session() {
    let mut pool = Pool::new(3, 1);
    assert_eq!(pool.find_empty_game(), Some(7000));

    let mut full = Connector::new(7000, 1);
    full.add_player();
    pool.report(0, full);
    assert_eq!(pool.find_empty_game(), Some(7001));

    let mut full = Connector::new(7002, 1);
    full.add_player();
    pool.report(2, full);
    assert_eq!(pool.find_empty_game(), Some(7001));

    let mut full = Connector::new(7001, 1);
    full.add_player();
    pool.report(1, full);
    assert_eq!(pool.find_empty_game(), None);

    // the first session empties again
    pool.report(0, Connector::new(7000, 1));
    assert_eq!(pool.find_empty_game(), Some(7000));
}

#[test]
fn find_empty_game_reserves_nothing() {
    let pool = Pool::new(2, 1);
    assert_eq!(pool.find_empty_game(), Some(7000));
    assert_eq!(pool.find_empty_game(), Some(7000));
    assert_eq!(pool.connector(0).player_count(), 0);
}

#[test]
fn an_empty_pool_or_one_without_capacity_offers_nothing() {
    assert_eq!(Pool::new(0, 5).find_empty_game(), None);
    assert_eq!(Pool::new(3, 0).find_empty_game(), None);
    assert_eq!(Pool::new(3, -1).find_empty_game(), None);
}

#[test]
fn server_answers_with_a_port_line() {
    let mut server = Server::new(2, 1);
    assert_eq!(server.handle_client_connection(), b"7000\n".to_vec());
    let mut full = Connector::new(7000, 1);
    full.add_player();
    server.report(0, full);
    assert_eq!(server.handle_client_connection(), b"7001\n".to_vec());
    let mut full = Connector::new(7001, 1);
    full.add_player();
    server.report(1, full);
    assert_eq!(server.handle_client_connection(), b"0\n".to_vec());
    assert_eq!(server.game_pool().len(), 2);
    assert_eq!(NO_PORT, 0);
}

#[test]
fn decimal_writes_numbers() {
    assert_eq!(decimal(0), b"0".to_vec());
    assert_eq!(decimal(7), b"7".to_vec());
    assert_eq!(decimal(10), b"10".to_vec());
    assert_eq!(decimal(7000), b"7000".to_vec());
    assert_eq!(decimal(-12), b"-12".to_vec());
    assert_eq!(decimal(i32::MAX), b"2147483647".to_vec());
    assert_eq!(decimal(i32::MIN), b"-2147483648".to_vec());
    assert_eq!(port_line(8888), b"8888\n".to_vec());
    assert_eq!(port_line(0), b"0\n".to_vec());
}

#[test]
fn decimal_agrees_with_the_standard_library() {
    for n in [0, 1, 9, 10, 99, 100, 101, 65535, 123456789, -1, -10, -99999, i32::MAX, i32::MIN] {
        assert_eq!(decimal(n), format!("{}", n).into_bytes());
        assert_eq!(parse(&decimal(n)), Some(n));
        assert_eq!(parse_port_line(&port_line(n)), Some(n));
    }
}

#[test]
fn parse_reads_numbers() {
    assert_eq!(parse(b"0"), Some(0));
    assert_eq!(parse(b"7001"), Some(7001));
    assert_eq!(parse(b"007"), Some(7));
    assert_eq!(parse(b"+5"), Some(5));
    assert_eq!(parse(b"-5"), Some(-5));
    assert_eq!(parse(b"-0"), Some(0));
    assert_eq!(parse(b"2147483647"), Some(i32::MAX));
    assert_eq!(parse(b"-2147483648"), Some(i32::MIN));
}

#[test]
fn parse_rejects_what_is_no_number() {
    let texts: Vec<&[u8]> = vec![
        b"",
        b"-",
        b"+",
        b"12a",
        b"a12",
        b" 12",
        b"12 ",
        b"1-2",
        b"--1",
        b"+-1",
        b"2147483648",
        b"+2147483648",
        b"-2147483649",
        b"99999999999999999999999999",
        b"12\n",
    ];
    for text in texts {
        assert_eq!(parse(text), None);
        assert!(std::str::from_utf8(text).unwrap().parse::<i32>().is_err());
    }
}

#[test]
fn parse_port_line_drops_the_newline() {
    assert_eq!(parse_port_line(b"7000\n"), Some(7000));
    assert_eq!(parse_port_line(b"7000"), Some(7000));
    assert_eq!(parse_port_line(b"0\n"), Some(0));
    assert_eq!(parse_port_line(b"\n"), None);
    assert_eq!(parse_port_line(b"7000\n\n"), None);
    assert_eq!(parse_port_line(b"port\n"), None);
}

#[test]
fn the_base_port_can_be_chosen() {
    let pool = Pool::with_base_port(9000, 3, 1);
    assert_eq!(pool.len(), 3);
    assert_eq!(pool.connector(2).port, 9002);
    assert_eq!(pool.find_empty_game(), Some(9000));
    assert_eq!(Pool::with_base_port(i32::MAX, 0, 1).len(), 0);
    let last = Pool::with_base_port(i32::MAX - 1, 1, 1);
    assert_eq!(last.find_empty_game(), Some(i32::MAX - 1));
    let server = Server::with_base_port(65000, 2, 0);
    assert_eq!(server.game_pool().connector(1).port, 65001);
    assert_eq!(server.handle_client_connection(), b"0\n".to_vec());
}
