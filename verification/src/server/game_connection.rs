//! A game connection: the players of one game, moved by the signals they
//! send.

use crate::game::player::Player;
use crate::game::session::{lemma_first_place, place_of};
use crate::game::position::{fits, Position};
use crate::game::signal::Signal;
use crate::server::connection_wrapper::ConnectionWrapper;
use crate::uid::{pow10, Uid};
use vstd::prelude::*;

verus! {

/// The time between two broadcasts of the players to a client, in
/// milliseconds.
pub const SEND_PERIOD_MILLIS: u64 = 30;

/// A player moved by a step, where the step stays on the plane of 32-bit
/// coordinates.
pub open spec fn moved(player: Player, step: Position) -> Player {
    Player {
        id: player.id,
        pos: Position { x: (player.pos.x + step.x) as i32, y: (player.pos.y + step.y) as i32 },
    }
}

/// Whether a step keeps a player on the plane of 32-bit coordinates.
pub open spec fn can_move(player: Player, step: Position) -> bool {
    fits(player.pos.x, step.x) && fits(player.pos.y, step.y)
}

/// The players after the player at place `index` has sent `signal`: a move
/// that stays on the plane is made, anything else changes nothing.
pub open spec fn signalled(players: Seq<Player>, signal: Signal, index: int) -> Seq<Player> {
    match signal {
        Signal::MovePlayer(step) => if can_move(players[index], step) {
            players.update(index, moved(players[index], step))
        } else {
            players
        },
        _ => players,
    }
}

/// What a step of a player's connection did.
#[derive(Debug, Clone, Copy, PartialEq, Eq, Structural)]
pub enum Connected {
    /// The player's signal was handled.
    Signalled,
    /// The stream has ended and the player was removed.
    Left,
    /// The game does not know the player; nothing was done.
    Unknown,
}

/// The players of one game, in the order in which they joined.
#[derive(Debug)]
pub struct GameConnection {
    players: Vec<Player>,
    max_players: i32,
    id: i32,
    wrapper_ref: ConnectionWrapper,
}

impl View for GameConnection {
    type V = Seq<Player>;

    closed spec fn view(&self) -> Seq<Player> {
        self.players@
    }
}

impl GameConnection {
    /// The number of players the game takes.
    pub closed spec fn capacity(&self) -> int {
        self.max_players as int
    }

    /// The number of the game: the port it listens on.
    pub closed spec fn number(&self) -> i32 {
        self.id
    }

    /// What the pool knows of the game.
    pub closed spec fn wrapper(&self) -> ConnectionWrapper {
        self.wrapper_ref
    }

    /// The wrapper counts the players of the game.
    pub open spec fn wf(&self) -> bool {
        self.wrapper().count() == self@.len()
    }

    /// Whether one more player may join.
    pub open spec fn open(&self) -> bool {
        self@.len() < self.capacity()
    }

    /// The game `id` without players, for at most `max_players`, known to
    /// the pool through `game_wrapper`.
    pub fn new(id: i32, max_players: i32, game_wrapper: ConnectionWrapper) -> (game: GameConnection)
        requires
            game_wrapper.count() == 0,
        ensures
            game@ == Seq::<Player>::empty(),
            game.capacity() == max_players,
            game.number() == id,
            game.wrapper() == game_wrapper,
            game.wf(),
    {
        GameConnection { players: Vec::new(), max_players, id, wrapper_ref: game_wrapper }
    }

    /// The number of the game: the port it listens on.
    pub fn id(&self) -> (id: i32)
        ensures
            id == self.number(),
    {
        self.id
    }

    /// The players, in the order in which they joined.
    pub fn players(&self) -> (players: &Vec<Player>)
        ensures
            players@ == self@,
    {
        &self.players
    }

    /// What the pool knows of the game.
    pub fn connection_wrapper(&self) -> (wrapper: ConnectionWrapper)
        ensures
            wrapper == self.wrapper(),
    {
        self.wrapper_ref
    }

    /// Lets a player join under the identifier `id` if the game has room,
    /// and says whether it did.
    pub fn add_player_as(&mut self, id: usize) -> (joined: bool)
        requires
            old(self).wf(),
        ensures
            final(self).wf(),
            final(self).capacity() == old(self).capacity(),
            final(self).number() == old(self).number(),
            joined == old(self).open(),
            joined ==> final(self)@ == old(self)@.push(Player { id, pos: Position { x: 0, y: 0 } }),
            !joined ==> final(self)@ == old(self)@ && final(self).wrapper() == old(self).wrapper(),
    {
        if self.max_players >= 0 && self.players.len() < self.max_players as usize {
            self.players.push(Player::new(id));
            self.wrapper_ref.add_player();
            true
        } else {
            false
        }
    }

    /// Lets a player join under a random identifier of four digits if the
    /// game has room: `(true, id)` if it joined, `(false, 0)` if not.
    pub fn add_player(&mut self) -> (outcome: (bool, usize))
        requires
            old(self).wf(),
        ensures
            final(self).wf(),
            final(self).capacity() == old(self).capacity(),
            final(self).number() == old(self).number(),
            outcome.0 == old(self).open(),
            outcome.0 ==> 0 < outcome.1 < 10000 && final(self)@ == old(self)@.push(
                Player { id: outcome.1, pos: Position { x: 0, y: 0 } },
            ),
            !outcome.0 ==> outcome.1 == 0 && final(self)@ == old(self)@,
    {
        if self.max_players >= 0 && self.players.len() < self.max_players as usize {
            let drawn = Uid::new_numerical(4);
            proof {
                reveal_with_fuel(pow10, 5);
            }
            let id = drawn as usize;
            self.add_player_as(id);
            return (true, id);
        }
        (false, 0)
    }

    /// Removes the player at place `index`. A game without players has
    /// nobody to remove and answers `false`.
    pub fn remove_player(&mut self, index: usize) -> (removed: bool)
        requires
            old(self).wf(),
            old(self)@.len() == 0 || index < old(self)@.len(),
        ensures
            final(self).wf(),
            final(self).capacity() == old(self).capacity(),
            final(self).number() == old(self).number(),
            removed == (old(self)@.len() > 0),
            removed ==> final(self)@ == old(self)@.remove(index as int),
            !removed ==> final(self)@ == old(self)@,
    {
        if self.players.len() == 0 {
            return false;
        }
        self.players.remove(index);
        self.wrapper_ref.remove_player();
        true
    }

    /// The place of the first player with identifier `id`.
    pub fn position(&self, id: usize) -> (place: Option<usize>)
        ensures
            match place {
                Some(index) => place_of(self@, id) == Some(index as int) && index < self@.len()
                    && self@[index as int].id == id,
                None => place_of(self@, id) is None,
            },
    {
        let mut i: usize = 0;
        while i < self.players.len()
            invariant
                i <= self@.len(),
                forall|j: int| 0 <= j < i ==> self@[j].id != id,
            decreases self@.len() - i,
        {
            if self.players[i].id == id {
                proof {
                    lemma_first_place(self@, id, 0, i as int);
                }
                return Some(i);
            }
            i += 1;
        }
        proof {
            crate::game::session::lemma_no_place(self@, id, 0);
        }
        None
    }

    /// Handles the signal of the player at place `player_index`: a move
    /// moves the player, as far as the plane goes; the other signals change
    /// nothing.
    pub fn handle_signal(&mut self, signal: Signal, player_index: usize)
        requires
            player_index < old(self)@.len(),
        ensures
            final(self)@ == signalled(old(self)@, signal, player_index as int),
            final(self).capacity() == old(self).capacity(),
            final(self).number() == old(self).number(),
            final(self).wrapper() == old(self).wrapper(),
    {
        match signal {
            Signal::MovePlayer(pos) => {
                let mut player = self.players[player_index];
                if pos.x.checked_add(player.pos.x).is_some() && pos.y.checked_add(
                    player.pos.y,
                ).is_some() {
                    player.move_by(pos.x, pos.y);
                    self.players.set(player_index, player);
                }
            },
            _ => {},
        }
    }

    /// One step of a player's connection. `signal` is what the player sent,
    /// or nothing where the stream has ended: then the player is removed.
    pub fn connect_player(&mut self, id: usize, signal: Option<Signal>) -> (connected: Connected)
        requires
            old(self).wf(),
        ensures
            final(self).wf(),
            final(self).capacity() == old(self).capacity(),
            final(self).number() == old(self).number(),
            match place_of(old(self)@, id) {
                None => connected == Connected::Unknown && final(self)@ == old(self)@,
                Some(index) => match signal {
                    None => connected == Connected::Left && final(self)@ == old(self)@.remove(
                        index,
                    ),
                    Some(sent) => connected == Connected::Signalled && final(self)@ == signalled(
                        old(self)@,
                        sent,
                        index,
                    ),
                },
            },
    {
        let index = match self.position(id) {
            Some(index) => index,
            None => {
                return Connected::Unknown;
            },
        };
        match signal {
            None => {
                self.remove_player(index);
                Connected::Left
            },
            Some(sent) => {
                self.handle_signal(sent, index);
                Connected::Signalled
            },
        }
    }
}

} // verus!
