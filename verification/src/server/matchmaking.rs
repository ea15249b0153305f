//! The matchmaking protocol: one line that names a port.
//!
//! The public listener answers every client with the port of a session that
//! has room, written in decimal and ended by a newline, or with `0` if every
//! session is full. The client reads the line back into a number.

use crate::decimal::{decimal, decimal_of, lemma_decimal_round_trip, parse, parse_decimal};
use crate::server::framing::{decode_frame, encode_frame, framed, payload_of};
use vstd::prelude::*;

verus! {

/// The port that stands for "no session has room, try later".
pub const NO_PORT: i32 = 0;

/// The line that tells a client its port.
pub open spec fn port_line_of(port: i32) -> Seq<u8> {
    framed(decimal_of(port as int))
}

/// The client reads from a port line the port that the server wrote.
pub proof fn lemma_port_line_round_trip(port: i32)
    ensures
        parse_decimal(payload_of(port_line_of(port))) == Some(port),
{
    lemma_decimal_round_trip(port);
    assert(framed(decimal_of(port as int)).drop_last() =~= decimal_of(port as int));
}

/// The line that tells a client to connect to `port`.
pub fn port_line(port: i32) -> (line: Vec<u8>)
    ensures
        line@ == port_line_of(port),
{
    let text = decimal(port);
    encode_frame(text.as_slice())
}

/// The port that a line from the server names, if the line is well formed:
/// the line without its closing newline, read as a decimal number.
pub fn parse_port_line(line: &[u8]) -> (port: Option<i32>)
    ensures
        port == parse_decimal(payload_of(line@)),
{
    let text = decode_frame(line);
    parse(text.as_slice())
}

} // verus!
