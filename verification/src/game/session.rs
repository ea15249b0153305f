//! One running game: its players and what happens when one of them sends
//! something or leaves.

use crate::game::game_wrapper::GameWrapper;
use crate::game::player::Player;
use crate::game::position::fits;
use crate::uid::{pow10, Uid};
use vstd::prelude::*;

verus! {

/// What the game did on a read from a player's socket.
#[derive(Debug, Clone, Copy, PartialEq, Eq, Structural)]
pub enum Handled {
    /// The player sent something and was moved; the positions of all
    /// players are to be written back.
    Moved,
    /// The player sent something but stands at the edge of the plane and
    /// stays there; the positions of all players are to be written back.
    Stayed,
    /// The player closed the stream and was removed.
    Left,
}

/// A game and its players, in the order in which they joined.
#[derive(Debug)]
pub struct Game {
    players: Vec<Player>,
    max_players: i32,
    id: i32,
    wrapper_ref: GameWrapper,
}

impl View for Game {
    type V = Seq<Player>;

    closed spec fn view(&self) -> Seq<Player> {
        self.players@
    }
}

impl Game {
    /// The number of players the game takes.
    pub closed spec fn capacity(&self) -> int {
        self.max_players as int
    }

    /// The number of the game: the port it listens on.
    pub closed spec fn number(&self) -> i32 {
        self.id
    }

    /// What the pool knows of the game.
    pub closed spec fn wrapper(&self) -> GameWrapper {
        self.wrapper_ref
    }

    /// The wrapper counts the players of the game.
    pub open spec fn wf(&self) -> bool {
        &&& self.wrapper().count() == self@.len()
        &&& self.wrapper().capacity() == self.capacity()
        &&& !self.wrapper().started()
    }

    /// Whether one more player may join.
    pub open spec fn open(&self) -> bool {
        self@.len() < self.capacity()
    }

    /// The game `id` without players, for at most `max_players`, known to
    /// the pool through `game_wrapper`.
    pub fn new(id: i32, max_players: i32, game_wrapper: GameWrapper) -> (game: Game)
        requires
            game_wrapper.count() == 0,
            game_wrapper.capacity() == max_players,
            !game_wrapper.started(),
        ensures
            game@ == Seq::<Player>::empty(),
            game.capacity() == max_players,
            game.number() == id,
            game.wrapper() == game_wrapper,
            game.wf(),
    {
        Game { players: Vec::new(), max_players, id, wrapper_ref: game_wrapper }
    }

    /// The number of the game: the port it listens on.
    pub fn id(&self) -> (id: i32)
        ensures
            id == self.number(),
    {
        self.id
    }

    /// The players, in the order in which they joined.
    pub fn players(&self) -> (players: &Vec<Player>)
        ensures
            players@ == self@,
    {
        &self.players
    }

    /// What the pool knows of the game.
    pub fn game_wrapper(&self) -> (wrapper: GameWrapper)
        ensures
            wrapper == self.wrapper(),
    {
        self.wrapper_ref
    }

    /// Lets a player join under the identifier `id` if the game has room,
    /// and says whether it did.
    pub fn add_player_as(&mut self, id: usize) -> (joined: bool)
        requires
            old(self).wf(),
        ensures
            final(self).wf(),
            final(self).capacity() == old(self).capacity(),
            final(self).number() == old(self).number(),
            joined == old(self).open(),
            joined ==> final(self)@ == old(self)@.push(Player { id, pos: crate::game::position::Position { x: 0, y: 0 } }),
            !joined ==> final(self)@ == old(self)@ && final(self).wrapper() == old(self).wrapper(),
    {
        if self.max_players >= 0 && self.players.len() < self.max_players as usize {
            self.players.push(Player::new(id));
            self.wrapper_ref.add_player();
            true
        } else {
            false
        }
    }

    /// Lets a player join under a random identifier of four digits if the
    /// game has room: `(true, id)` if it joined, `(false, 0)` if not.
    pub fn add_player(&mut self) -> (outcome: (bool, usize))
        requires
            old(self).wf(),
        ensures
            final(self).wf(),
            final(self).capacity() == old(self).capacity(),
            final(self).number() == old(self).number(),
            outcome.0 == old(self).open(),
            outcome.0 ==> 0 < outcome.1 < 10000 && final(self)@ == old(self)@.push(
                Player { id: outcome.1, pos: crate::game::position::Position { x: 0, y: 0 } },
            ),
            !outcome.0 ==> outcome.1 == 0 && final(self)@ == old(self)@,
    {
        if self.max_players >= 0 && self.players.len() < self.max_players as usize {
            let drawn = Uid::new_numerical(4);
            proof {
                reveal_with_fuel(pow10, 5);
            }
            let id = drawn as usize;
            self.add_player_as(id);
            return (true, id);
        }
        (false, 0)
    }

    /// Removes the player at place `index`. A game without players has
    /// nobody to remove and answers `false`.
    pub fn remove_player(&mut self, index: usize) -> (removed: bool)
        requires
            old(self).wf(),
            old(self)@.len() == 0 || index < old(self)@.len(),
        ensures
            final(self).wf(),
            final(self).capacity() == old(self).capacity(),
            final(self).number() == old(self).number(),
            removed == (old(self)@.len() > 0),
            removed ==> final(self)@ == old(self)@.remove(index as int),
            !removed ==> final(self)@ == old(self)@,
    {
        if self.players.len() == 0 {
            return false;
        }
        self.players.remove(index);
        self.wrapper_ref.remove_player();
        true
    }

    /// The place of the first player with identifier `id`.
    pub fn position(&self, id: usize) -> (place: Option<usize>)
        ensures
            match place {
                Some(index) => place_of(self@, id) == Some(index as int) && index < self@.len()
                    && self@[index as int].id == id,
                None => place_of(self@, id) is None,
            },
    {
        let mut i: usize = 0;
        while i < self.players.len()
            invariant
                i <= self@.len(),
                forall|j: int| 0 <= j < i ==> self@[j].id != id,
            decreases self@.len() - i,
        {
            if self.players[i].id == id {
                proof {
                    lemma_first_place(self@, id, 0, i as int);
                }
                return Some(i);
            }
            i += 1;
        }
        proof {
            lemma_no_place(self@, id, 0);
        }
        None
    }

    /// One step of a player's connection, on a read that gave `bytes_read`
    /// bytes. No bytes mean that the player is gone: it is removed. Anything
    /// else moves the player one step to the right and one up, as far as the
    /// plane goes. A read for a player that the game does not know changes
    /// nothing and gives `None`.
    pub fn handle_player(&mut self, id: usize, bytes_read: usize) -> (handled: Option<Handled>)
        requires
            old(self).wf(),
        ensures
            final(self).wf(),
            final(self).capacity() == old(self).capacity(),
            final(self).number() == old(self).number(),
            match place_of(old(self)@, id) {
                None => handled is None && final(self)@ == old(self)@,
                Some(index) => {
                    let player = old(self)@[index];
                    if bytes_read == 0 {
                        handled == Some(Handled::Left) && final(self)@ == old(self)@.remove(index)
                    } else if fits(player.pos.x, 1) && fits(player.pos.y, 1) {
                        handled == Some(Handled::Moved) && final(self)@ == old(self)@.update(
                            index,
                            stepped(player),
                        )
                    } else {
                        handled == Some(Handled::Stayed) && final(self)@ == old(self)@
                    }
                },
            },
    {
        let index = match self.position(id) {
            Some(index) => index,
            None => {
                return None;
            },
        };
        // no bytes: the connection has ended
        if bytes_read == 0 {
            self.remove_player(index);
            return Some(Handled::Left);
        }
        let mut player = self.players[index];
        if player.pos.x < i32::MAX && player.pos.y < i32::MAX {
            player.move_player();
            self.players.set(index, player);
            Some(Handled::Moved)
        } else {
            Some(Handled::Stayed)
        }
    }
}

/// A player after one step to the right and one up.
pub open spec fn stepped(player: Player) -> Player {
    Player {
        id: player.id,
        pos: crate::game::position::Position {
            x: (player.pos.x + 1) as i32,
            y: (player.pos.y + 1) as i32,
        },
    }
}

/// The place of the first player with identifier `id`, if there is such a
/// player.
pub open spec fn place_of(players: Seq<Player>, id: usize) -> Option<int> {
    if first_place(players, id, 0) < players.len() {
        Some(first_place(players, id, 0))
    } else {
        None
    }
}

/// The place of the first player with identifier `id` at or after place
/// `from`; the number of players if there is none.
pub open spec fn first_place(players: Seq<Player>, id: usize, from: int) -> int
    decreases players.len() - from,
{
    if from < 0 || from >= players.len() {
        players.len() as int
    } else if players[from].id == id {
        from
    } else {
        first_place(players, id, from + 1)
    }
}

/// A player that no player with the same identifier precedes stands at the
/// first place of its identifier.
pub proof fn lemma_first_place(players: Seq<Player>, id: usize, from: int, at: int)
    requires
        0 <= from <= at < players.len(),
        players[at].id == id,
        forall|j: int| from <= j < at ==> players[j].id != id,
    ensures
        first_place(players, id, from) == at,
    decreases at - from,
{
    if from < at {
        lemma_first_place(players, id, from + 1, at);
    }
}

/// Where no player from place `from` on has the identifier, there is no
/// first place of it.
pub proof fn lemma_no_place(players: Seq<Player>, id: usize, from: int)
    requires
        0 <= from <= players.len(),
        forall|j: int| from <= j < players.len() ==> players[j].id != id,
    ensures
        first_place(players, id, from) == players.len(),
    decreases players.len() - from,
{
    if from < players.len() {
        lemma_no_place(players, id, from + 1);
    }
}

} // verus!
