//! The controller of one session: who is connected, and who may still join.
//!
//! The caller serialises the calls on one controller (a lock around it does),
//! so every concurrent history of admissions and releases is one of the
//! sequences that the laws at the end of this file speak of.

use crate::server::connector::Connector;
use crate::server::player::Player;
use crate::uid::{pow10, Uid};
use vstd::prelude::*;

verus! {

/// Number of decimal digits of a player's identifier.
pub const ID_DIGITS: u32 = 4;

/// How many identifiers are drawn for one admission before it is given up.
pub const ID_ATTEMPTS: u32 = 32;

/// What a session is, seen from outside: the number of players it takes and
/// the identifiers of those it has, in the order in which they joined.
pub struct Session {
    pub capacity: int,
    pub ids: Seq<usize>,
}

impl Session {
    /// The number of connected players.
    pub open spec fn count(self) -> nat {
        self.ids.len()
    }

    /// Whether one more player may join.
    pub open spec fn open(self) -> bool {
        self.count() < self.capacity
    }

    /// No identifier is held twice, and the session is not over capacity.
    pub open spec fn wf(self) -> bool {
        &&& self.ids.no_duplicates()
        &&& (self.count() == 0 || self.count() <= self.capacity)
    }

    /// The session after an attempt to take a player in under `id`: the player
    /// joins last if there is room and the identifier is free; otherwise
    /// nothing changes.
    pub open spec fn join(self, id: usize) -> Session {
        if self.open() && !self.ids.contains(id) {
            Session { capacity: self.capacity, ids: self.ids.push(id) }
        } else {
            self
        }
    }

    /// The session after the player `id` has left. Releasing a player who is
    /// not connected changes nothing.
    pub open spec fn release(self, id: usize) -> Session {
        if self.ids.contains(id) {
            Session { capacity: self.capacity, ids: self.ids.remove(self.ids.index_of(id)) }
        } else {
            self
        }
    }

    /// The session after one operation.
    pub open spec fn step(self, op: SessionOp) -> Session {
        match op {
            SessionOp::Join(id) => self.join(id),
            SessionOp::Release(id) => self.release(id),
        }
    }

    /// The session after a sequence of operations, applied in order.
    pub open spec fn run(self, ops: Seq<SessionOp>) -> Session
        decreases ops.len(),
    {
        if ops.len() == 0 {
            self
        } else {
            self.run(ops.drop_last()).step(ops.last())
        }
    }
}

/// One operation on a session.
pub enum SessionOp {
    /// An attempt to take a player in under the given identifier.
    Join(usize),
    /// The release of the player with the given identifier.
    Release(usize),
}

/// Why a connection was not admitted.
#[derive(Debug, Clone, Copy, PartialEq, Eq, Structural)]
pub enum Rejected {
    /// The session holds as many players as it takes.
    Full,
    /// Every identifier drawn was already held by a connected player.
    NoFreeId,
    /// The identifier asked for is held by a connected player.
    IdTaken,
}

/// The connection controller of one session.
#[derive(Debug)]
pub struct Controller {
    port: i32,
    connector: Connector,
    players: Vec<Player>,
    max_players: i32,
}

impl View for Controller {
    type V = Session;

    closed spec fn view(&self) -> Session {
        Session {
            capacity: self.max_players as int,
            ids: self.players@.map_values(|p: Player| p.id),
        }
    }
}

impl Controller {
    /// The port the session listens on.
    pub closed spec fn listening_port(&self) -> i32 {
        self.port
    }

    /// What the pool sees of the session.
    pub closed spec fn slot(&self) -> Connector {
        self.connector
    }

    /// Whether the session has been started.
    pub closed spec fn started(&self) -> bool {
        self.connector.started()
    }

    /// The connector counts exactly the players that are registered, and the
    /// session is well formed.
    pub closed spec fn wf(&self) -> bool {
        &&& self@.wf()
        &&& self.connector.count() == self@.count()
        &&& self.connector.capacity() == self@.capacity
        &&& self.connector.listening_port() == self.port
    }

    /// The controller of an empty session on `port` that takes `max_players`
    /// players.
    pub fn new(port: i32, max_players: i32) -> (controller: Controller)
        ensures
            controller.wf(),
            controller@.capacity == max_players,
            controller@.ids == Seq::<usize>::empty(),
            controller.listening_port() == port,
            !controller.started(),
    {
        let controller = Controller {
            port,
            connector: Connector::new(port, max_players),
            players: Vec::new(),
            max_players,
        };
        assert(controller@.ids =~= Seq::<usize>::empty());
        controller
    }

    /// Marks the session as started: its listener is bound and its game
    /// runs. Who is connected does not change.
    pub fn start(&mut self)
        requires
            old(self).wf(),
        ensures
            final(self).wf(),
            final(self).started(),
            final(self)@ == old(self)@,
            final(self).listening_port() == old(self).listening_port(),
    {
        self.connector.start();
    }

    /// The port the session listens on.
    pub fn port(&self) -> (port: i32)
        ensures
            port == self.listening_port(),
    {
        self.port
    }

    /// The fill state that the pool reads.
    pub fn connector(&self) -> (connector: Connector)
        requires
            self.wf(),
        ensures
            connector == self.slot(),
            connector.wf(),
            connector.count() == self@.count(),
            connector.capacity() == self@.capacity,
            connector.listening_port() == self.listening_port(),
            connector.started() == self.started(),
            connector.open() == self@.open(),
    {
        self.connector
    }

    /// The number of connected players.
    pub fn player_count(&self) -> (count: usize)
        ensures
            count == self@.count(),
    {
        self.players.len()
    }

    /// The connected players, in the order in which they joined.
    pub fn players(&self) -> (players: &Vec<Player>)
        ensures
            players@.map_values(|p: Player| p.id) == self@.ids,
    {
        &self.players
    }

    /// Whether one more player may join.
    pub fn has_room(&self) -> (open: bool)
        ensures
            open == self@.open(),
    {
        self.max_players >= 0 && self.players.len() < self.max_players as usize
    }

    /// The place of the player `id` among the connected players, if it is
    /// connected.
    pub fn position(&self, id: usize) -> (place: Option<usize>)
        ensures
            match place {
                Some(index) => index < self@.ids.len() && self@.ids[index as int] == id && forall|
                    j: int,
                | 0 <= j < index ==> self@.ids[j] != id,
                None => !self@.ids.contains(id),
            },
    {
        let mut i: usize = 0;
        while i < self.players.len()
            invariant
                i <= self.players@.len(),
                forall|j: int| 0 <= j < i ==> self@.ids[j] != id,
            decreases self.players@.len() - i,
        {
            if self.players[i].id == id {
                return Some(i);
            }
            i += 1;
        }
        None
    }

    /// Admits a player under the identifier `id`, which the caller has
    /// chosen: the player joins if the session has room and the identifier
    /// is free.
    pub fn join_as(&mut self, id: usize) -> (outcome: Result<Player, Rejected>)
        requires
            old(self).wf(),
        ensures
            final(self).wf(),
            final(self).listening_port() == old(self).listening_port(),
            final(self).started() == old(self).started(),
            final(self)@ == old(self)@.join(id),
            outcome == (if !old(self)@.open() {
                Err::<Player, Rejected>(Rejected::Full)
            } else if old(self)@.ids.contains(id) {
                Err::<Player, Rejected>(Rejected::IdTaken)
            } else {
                Ok::<Player, Rejected>(Player { id })
            }),
    {
        if !self.has_room() {
            return Err(Rejected::Full);
        }
        if self.position(id).is_some() {
            return Err(Rejected::IdTaken);
        }
        let player = Player::new(id);
        self.players.push(player);
        self.connector.add_player();
        proof {
            let before = old(self)@.ids;
            assert(self@.ids =~= before.push(id));
            assert(self@.ids.no_duplicates()) by {
                assert forall|i: int, j: int|
                    0 <= i < self@.ids.len() && 0 <= j < self@.ids.len() && i != j implies self@.ids[i]
                    != self@.ids[j] by {
                    if i < before.len() {
                        assert(before[i] == self@.ids[i]);
                        assert(before.contains(before[i]));
                    }
                    if j < before.len() {
                        assert(before[j] == self@.ids[j]);
                        assert(before.contains(before[j]));
                    }
                }
            }
        }
        Ok(player)
    }

    /// Admits a player under a fresh random identifier of [`ID_DIGITS`]
    /// digits. A full session rejects the connection. An identifier that is
    /// already held is drawn again, at most [`ID_ATTEMPTS`] times in all.
    ///
    /// Which identifier is drawn is left to chance; a session without
    /// players cannot run out of identifiers.
    pub fn join(&mut self) -> (outcome: Result<Player, Rejected>)
        requires
            old(self).wf(),
        ensures
            final(self).wf(),
            final(self).listening_port() == old(self).listening_port(),
            final(self).started() == old(self).started(),
            !old(self)@.open() <==> outcome == Err::<Player, Rejected>(Rejected::Full),
            match outcome {
                Ok(player) => {
                    &&& !old(self)@.ids.contains(player.id)
                    &&& 0 < player.id < 10000
                    &&& final(self)@ == old(self)@.join(player.id)
                    &&& final(self)@.count() == old(self)@.count() + 1
                },
                Err(reason) => {
                    &&& final(self)@ == old(self)@
                    &&& reason != Rejected::IdTaken
                    &&& reason == Rejected::NoFreeId ==> old(self)@.count() > 0
                },
            },
    {
        if !self.has_room() {
            return Err(Rejected::Full);
        }
        let mut attempt: u32 = 0;
        while attempt < ID_ATTEMPTS
            invariant
                self@ == old(self)@,
                self.listening_port() == old(self).listening_port(),
                self.started() == old(self).started(),
                self.wf(),
                self@.open(),
                attempt <= ID_ATTEMPTS,
                attempt > 0 ==> self@.count() > 0,
            decreases ID_ATTEMPTS - attempt,
        {
            let drawn = Uid::new_numerical(ID_DIGITS);
            proof {
                reveal_with_fuel(pow10, 5);
            }
            let id = drawn as usize;
            match self.join_as(id) {
                Ok(player) => {
                    return Ok(player);
                },
                Err(_) => {
                    assert(old(self)@.ids.contains(id));
                    assert(old(self)@.ids.len() > 0);
                },
            }
            attempt += 1;
        }
        Err(Rejected::NoFreeId)
    }

    /// Adds a player to the session: `(true, id)` with the new player's
    /// identifier, which is not zero, if it was admitted, `(false, 0)` if it
    /// was not.
    pub fn add_player(&mut self) -> (outcome: (bool, usize))
        requires
            old(self).wf(),
        ensures
            final(self).wf(),
            final(self).listening_port() == old(self).listening_port(),
            final(self).started() == old(self).started(),
            !old(self)@.open() ==> !outcome.0,
            old(self)@.open() && old(self)@.count() == 0 ==> outcome.0,
            outcome.0 ==> {
                &&& !old(self)@.ids.contains(outcome.1)
                &&& 0 < outcome.1 < 10000
                &&& final(self)@ == old(self)@.join(outcome.1)
                &&& final(self)@.count() == old(self)@.count() + 1
            },
            !outcome.0 ==> outcome.1 == 0 && final(self)@ == old(self)@,
    {
        match self.join() {
            Ok(player) => (true, player.id),
            Err(_) => (false, 0),
        }
    }

    /// Removes the player at place `index`. An empty session has nobody to
    /// remove and answers `false`.
    pub fn remove_player(&mut self, index: usize) -> (removed: bool)
        requires
            old(self).wf(),
            old(self)@.count() == 0 || index < old(self)@.count(),
        ensures
            final(self).wf(),
            final(self).listening_port() == old(self).listening_port(),
            final(self).started() == old(self).started(),
            removed == (old(self)@.count() > 0),
            final(self)@.capacity == old(self)@.capacity,
            removed ==> final(self)@.ids == old(self)@.ids.remove(index as int),
            !removed ==> final(self)@ == old(self)@,
    {
        if self.players.len() == 0 {
            return false;
        }
        self.players.remove(index);
        self.connector.remove_player();
        proof {
            let before = old(self)@.ids;
            assert(self@.ids =~= before.remove(index as int));
            assert(self@.ids.no_duplicates()) by {
                assert forall|i: int, j: int|
                    0 <= i < self@.ids.len() && 0 <= j < self@.ids.len() && i != j implies self@.ids[i]
                    != self@.ids[j] by {
                    let bi = if i < index { i } else { i + 1 };
                    let bj = if j < index { j } else { j + 1 };
                    assert(self@.ids[i] == before[bi]);
                    assert(self@.ids[j] == before[bj]);
                }
            }
        }
        true
    }

    /// Releases the player `id`: it leaves the session and the count drops by
    /// one. Releasing a player who is not connected, or who was released
    /// before, changes nothing and answers `false`.
    pub fn release(&mut self, id: usize) -> (released: bool)
        requires
            old(self).wf(),
        ensures
            final(self).wf(),
            final(self).listening_port() == old(self).listening_port(),
            final(self).started() == old(self).started(),
            released == old(self)@.ids.contains(id),
            final(self)@ == old(self)@.release(id),
            released ==> final(self)@.count() == old(self)@.count() - 1,
            !final(self)@.ids.contains(id),
    {
        match self.position(id) {
            Some(index) => {
                proof {
                    let ids = old(self)@.ids;
                    assert(ids.contains(id));
                    let k = ids.index_of(id);
                    assert(k == index as int) by {
                        if k != index as int {
                            assert(ids[k] == ids[index as int]);
                        }
                    }
                    lemma_release_forgets(old(self)@, id);
                }
                self.remove_player(index)
            },
            None => false,
        }
    }
}

/// A released player is no longer connected, and the session stays well
/// formed.
pub proof fn lemma_release_forgets(session: Session, id: usize)
    requires
        session.wf(),
    ensures
        session.release(id).wf(),
        !session.release(id).ids.contains(id),
        session.release(id).capacity == session.capacity,
        session.ids.contains(id) ==> session.release(id).count() == session.count() - 1,
        !session.ids.contains(id) ==> session.release(id) == session,
{
    if session.ids.contains(id) {
        let ids = session.ids;
        let k = ids.index_of(id);
        let after = ids.remove(k);
        assert forall|i: int, j: int| 0 <= i < after.len() && 0 <= j < after.len() && i != j implies after[i]
            != after[j] by {
            let bi = if i < k { i } else { i + 1 };
            let bj = if j < k { j } else { j + 1 };
            assert(after[i] == ids[bi]);
            assert(after[j] == ids[bj]);
        }
        assert(!after.contains(id)) by {
            if after.contains(id) {
                let i = choose|i: int| 0 <= i < after.len() && after[i] == id;
                let bi = if i < k { i } else { i + 1 };
                assert(after[i] == ids[bi]);
                assert(ids[bi] == ids[k]);
            }
        }
    }
}

/// An admission keeps the session well formed and within capacity.
pub proof fn lemma_join_keeps_wf(session: Session, id: usize)
    requires
        session.wf(),
    ensures
        session.join(id).wf(),
        session.join(id).capacity == session.capacity,
{
    if session.open() && !session.ids.contains(id) {
        let ids = session.ids;
        let after = ids.push(id);
        assert forall|i: int, j: int| 0 <= i < after.len() && 0 <= j < after.len() && i != j implies after[i]
            != after[j] by {
            if i < ids.len() {
                assert(ids.contains(ids[i]));
            }
            if j < ids.len() {
                assert(ids.contains(ids[j]));
            }
        }
    }
}

/// Whatever admissions and releases reach a session, in whatever order, the
/// number of connected players never exceeds the capacity and never drops
/// below zero.
pub proof fn lemma_count_stays_within_capacity(session: Session, ops: Seq<SessionOp>)
    requires
        session.wf(),
    ensures
        session.run(ops).wf(),
        session.run(ops).capacity == session.capacity,
        0 <= session.run(ops).count(),
        session.run(ops).count() == 0 || session.run(ops).count() <= session.capacity,
    decreases ops.len(),
{
    if ops.len() > 0 {
        lemma_count_stays_within_capacity(session, ops.drop_last());
        let before = session.run(ops.drop_last());
        match ops.last() {
            SessionOp::Join(id) => lemma_join_keeps_wf(before, id),
            SessionOp::Release(id) => lemma_release_forgets(before, id),
        }
    }
}

/// Releasing a player twice leaves the session as releasing it once does: the
/// second release removes nobody.
pub proof fn lemma_release_is_idempotent(session: Session, id: usize)
    requires
        session.wf(),
    ensures
        session.release(id).release(id) == session.release(id),
        session.release(id).release(id).count() == session.release(id).count(),
{
    lemma_release_forgets(session, id);
}

} // verus!
