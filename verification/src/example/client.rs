//! The client of the example game: what it makes of what the player types
//! and of what matchmaking answers.

use crate::example::Message;
use crate::server::framing::payload_of;
use crate::decimal::parse_decimal;
use crate::server::matchmaking::{parse_port_line, NO_PORT};
use vstd::prelude::*;

verus! {

/// What a client does after matchmaking has answered.
#[derive(Debug, Clone, Copy, PartialEq, Eq, Structural)]
pub enum Lobby {
    /// Connect to the session on this port.
    Session(i32),
    /// No session has room: try again later.
    TryLater,
    /// The answer is no port line.
    Malformed,
}

/// What a line typed by the player means.
pub open spec fn message_of(key: Seq<char>) -> Message {
    if key == seq!['w'] {
        Message::W
    } else if key == seq!['a'] {
        Message::A
    } else if key == seq!['s'] {
        Message::S
    } else if key == seq!['d'] {
        Message::D
    } else if key == seq!['c', 'l', 'o', 's', 'e'] {
        Message::RemovePlayer
    } else {
        Message::Idle
    }
}

/// The message for a line typed by the player, already trimmed: `w`, `a`,
/// `s` and `d` walk, `close` leaves the game, anything else says nothing.
pub fn message_for(key: &str) -> (message: Message)
    ensures
        message == message_of(key@),
{
    proof {
        reveal_strlit("w");
        reveal_strlit("a");
        reveal_strlit("s");
        reveal_strlit("d");
        reveal_strlit("close");
        assert(seq!['w'][0] == 'w');
        assert(seq!['a'][0] == 'a');
        assert(seq!['s'][0] == 's');
        assert(seq!['d'][0] == 'd');
    }
    let text = key.to_owned();
    if text == "w".to_owned() {
        assert(key@ =~= seq!['w']);
        Message::W
    } else if text == "a".to_owned() {
        assert(key@ =~= seq!['a']);
        Message::A
    } else if text == "s".to_owned() {
        assert(key@ =~= seq!['s']);
        Message::S
    } else if text == "d".to_owned() {
        assert(key@ =~= seq!['d']);
        Message::D
    } else if text == "close".to_owned() {
        assert(key@ =~= seq!['c', 'l', 'o', 's', 'e']);
        Message::RemovePlayer
    } else {
        assert("w"@ =~= seq!['w']);
        assert("a"@ =~= seq!['a']);
        assert("s"@ =~= seq!['s']);
        assert("d"@ =~= seq!['d']);
        assert("close"@ =~= seq!['c', 'l', 'o', 's', 'e']);
        Message::Idle
    }
}

/// Whether the client closes after sending `message`: it does once the
/// player has left the game.
pub fn closes_after(message: Message) -> (closes: bool)
    ensures
        closes == (message == Message::RemovePlayer),
{
    match message {
        Message::RemovePlayer => true,
        _ => false,
    }
}

/// What the client does with the line that matchmaking answered.
pub fn lobby_for(line: &[u8]) -> (lobby: Lobby)
    ensures
        lobby == (match parse_decimal(payload_of(line@)) {
            Some(port) => if port == NO_PORT {
                Lobby::TryLater
            } else {
                Lobby::Session(port)
            },
            None => Lobby::Malformed,
        }),
{
    match parse_port_line(line) {
        Some(port) => {
            if port == NO_PORT {
                Lobby::TryLater
            } else {
                Lobby::Session(port)
            }
        },
        None => Lobby::Malformed,
    }
}

} // verus!
