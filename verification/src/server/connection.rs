//! One client connection of a session: what its receive loop and its send
//! loop decide.
//!
//! The caller reads from and writes to the socket and sleeps between
//! broadcasts. After every read it asks [`Connection::receive`] what to do
//! with what came in, and after every broadcast it asks
//! [`Connection::after_send`] whether to go on. Both loops share one closing
//! flag, which the receive loop sets when the client is gone.

use crate::engine::network_application::{period_millis, period_of};
use crate::server::controller::Controller;
use crate::server::framing::{decode_frame, encode_frame, framed, payload_of};
use vstd::prelude::*;

verus! {

/// What a blocking read on the socket gave.
#[derive(Debug)]
pub enum ReadOutcome {
    /// The bytes of one frame; none at all when the client closed the stream.
    Bytes(Vec<u8>),
    /// The read failed.
    Failed,
}

impl ReadOutcome {
    /// Whether the outcome ends the connection: a closed stream or a failed
    /// read.
    pub open spec fn ends_stream(&self) -> bool {
        match self {
            ReadOutcome::Bytes(bytes) => bytes@.len() == 0,
            ReadOutcome::Failed => true,
        }
    }
}

/// What the receive loop does next.
#[derive(Debug)]
pub enum Received {
    /// A frame came in. Its payload is to be parsed and, if it parses, the
    /// message is forwarded to the game with the player's identifier; if it
    /// does not, the frame is dropped. Either way the loop reads on.
    Payload(Vec<u8>),
    /// The client is gone. The player has been released; the loop ends.
    Disconnected,
    /// The connection was closed before; nothing was done and the loop ends.
    Stopped,
}

/// What the send loop does next.
#[derive(Debug, Clone, Copy, PartialEq, Eq, Structural)]
pub enum SendAction {
    /// Sleep for one period and broadcast again.
    Continue,
    /// The connection is closing: end the loop.
    Stop,
}

/// What the session answers to a connection that it does not take:
/// `Could not join`, in ASCII.
pub open spec fn rejection_text() -> Seq<u8> {
    seq![67u8, 111, 117, 108, 100, 32, 110, 111, 116, 32, 106, 111, 105, 110]
}

/// Whether a read releases the player: only the first read that ends the
/// stream does.
pub open spec fn releases(closing: bool, ends_stream: bool) -> bool {
    !closing && ends_stream
}

/// The number of releases that a run of reads causes on a connection whose
/// closing flag is `closing` at the start. Each read is given by whether it
/// ends the stream.
pub open spec fn releases_during(closing: bool, reads: Seq<bool>) -> nat
    decreases reads.len(),
{
    if reads.len() == 0 {
        0
    } else {
        let first: nat = if releases(closing, reads[0]) {
            1
        } else {
            0
        };
        first + releases_during(closing || reads[0], reads.drop_first())
    }
}

/// The connection of one player.
#[derive(Debug)]
pub struct Connection {
    id: usize,
    closing: bool,
}

impl Connection {
    /// The identifier of the player on this connection.
    pub closed spec fn player_id(&self) -> usize {
        self.id
    }

    /// Whether the connection is closing.
    pub closed spec fn closing(&self) -> bool {
        self.closing
    }

    /// The connection of the player `id`, open.
    pub fn new(id: usize) -> (connection: Connection)
        ensures
            connection.player_id() == id,
            !connection.closing(),
    {
        Connection { id, closing: false }
    }

    /// Answers a new connection on the session's port: the connection of a
    /// newly admitted player if the session takes it, or else the line to
    /// send before the socket is closed.
    pub fn open(controller: &mut Controller) -> (outcome: Result<Connection, Vec<u8>>)
        requires
            old(controller).wf(),
        ensures
            final(controller).wf(),
            final(controller).listening_port() == old(controller).listening_port(),
            final(controller).started() == old(controller).started(),
            !old(controller)@.open() ==> outcome is Err,
            old(controller)@.open() && old(controller)@.count() == 0 ==> outcome is Ok,
            match outcome {
                Ok(connection) => {
                    &&& !connection.closing()
                    &&& connection.player_id() > 0
                    &&& !old(controller)@.ids.contains(connection.player_id())
                    &&& final(controller)@ == old(controller)@.join(connection.player_id())
                    &&& final(controller)@.count() == old(controller)@.count() + 1
                },
                Err(line) => {
                    &&& line@ == framed(rejection_text())
                    &&& final(controller)@ == old(controller)@
                },
            },
    {
        let (could_join, player_id) = controller.add_player();
        if could_join {
            Ok(Connection::new(player_id))
        } else {
            Err(Connection::rejection())
        }
    }

    /// The line that a rejected client is sent.
    pub fn rejection() -> (line: Vec<u8>)
        ensures
            line@ == framed(rejection_text()),
    {
        let text: [u8; 14] = [67, 111, 117, 108, 100, 32, 110, 111, 116, 32, 106, 111, 105, 110];
        assert(text@ =~= rejection_text());
        encode_frame(text.as_slice())
    }

    /// The identifier of the player on this connection.
    pub fn id(&self) -> (id: usize)
        ensures
            id == self.player_id(),
    {
        self.id
    }

    /// Whether the connection is closing.
    pub fn is_closing(&self) -> (closing: bool)
        ensures
            closing == self.closing(),
    {
        self.closing
    }

    /// One step of the receive loop, on what the read gave.
    ///
    /// The first read that ends the stream sets the closing flag and
    /// releases the player from the session. Every read after that is
    /// ignored. A frame read before that is handed back without its
    /// delimiter.
    pub fn receive(&mut self, controller: &mut Controller, read: &ReadOutcome) -> (received:
        Received)
        requires
            old(controller).wf(),
        ensures
            final(controller).wf(),
            final(controller).listening_port() == old(controller).listening_port(),
            final(controller).started() == old(controller).started(),
            final(self).player_id() == old(self).player_id(),
            final(self).closing() == (old(self).closing() || read.ends_stream()),
            final(controller)@ == (if releases(old(self).closing(), read.ends_stream()) {
                old(controller)@.release(old(self).player_id())
            } else {
                old(controller)@
            }),
            final(controller)@.count() == (if releases(old(self).closing(), read.ends_stream())
                && old(controller)@.ids.contains(old(self).player_id()) {
                old(controller)@.count() - 1
            } else {
                old(controller)@.count() as int
            }),
            match received {
                Received::Payload(payload) => {
                    &&& !old(self).closing()
                    &&& read matches ReadOutcome::Bytes(bytes)
                    &&& bytes@.len() > 0
                    &&& payload@ == payload_of(bytes@)
                },
                Received::Disconnected => releases(old(self).closing(), read.ends_stream()),
                Received::Stopped => old(self).closing(),
            },
    {
        if self.closing {
            return Received::Stopped;
        }
        match read {
            ReadOutcome::Bytes(bytes) => {
                if bytes.len() > 0 {
                    return Received::Payload(decode_frame(bytes.as_slice()));
                }
            },
            ReadOutcome::Failed => {},
        }
        self.closing = true;
        controller.release(self.id);
        Received::Disconnected
    }

    /// What the send loop does after a broadcast, whether or not the write
    /// went through: it stops once the connection is closing and goes on
    /// otherwise. A failed write alone does not end the loop.
    pub fn after_send(&self, written: bool) -> (next: SendAction)
        ensures
            next == (if self.closing() {
                SendAction::Stop
            } else {
                SendAction::Continue
            }),
    {
        if self.closing {
            SendAction::Stop
        } else {
            SendAction::Continue
        }
    }
}

/// The frame that carries one serialised snapshot to a client.
pub fn snapshot_frame(serialized: &[u8]) -> (frame: Vec<u8>)
    ensures
        frame@ == framed(serialized@),
{
    encode_frame(serialized)
}

/// The time between two broadcasts, in whole milliseconds, when
/// `send_data_rate` of them are sent each second.
pub fn send_period(send_data_rate: i32) -> (millis: u64)
    requires
        send_data_rate > 0,
    ensures
        millis == period_of(send_data_rate as int),
{
    period_millis(send_data_rate)
}

/// A connection that is closing releases nobody, whatever is read.
pub proof fn lemma_closed_connection_releases_nothing(reads: Seq<bool>)
    ensures
        releases_during(true, reads) == 0,
    decreases reads.len(),
{
    if reads.len() > 0 {
        lemma_closed_connection_releases_nothing(reads.drop_first());
    }
}

/// A disconnect triggers exactly one release: over any run of reads on an
/// open connection the player is released once if some read ends the stream,
/// and not at all otherwise.
pub proof fn lemma_disconnect_releases_once(reads: Seq<bool>)
    ensures
        releases_during(false, reads) == (if reads.contains(true) {
            1nat
        } else {
            0nat
        }),
    decreases reads.len(),
{
    if reads.len() > 0 {
        let rest = reads.drop_first();
        if reads[0] {
            lemma_closed_connection_releases_nothing(rest);
            assert(reads.contains(true));
        } else {
            lemma_disconnect_releases_once(rest);
            if rest.contains(true) {
                let i = choose|i: int| 0 <= i < rest.len() && rest[i] == true;
                assert(reads[i + 1] == true);
            }
            if reads.contains(true) {
                let i = choose|i: int| 0 <= i < reads.len() && reads[i] == true;
                assert(rest[i - 1] == true);
            }
        }
    }
}

} // verus!
