//! The pool: the fixed row of sessions that matchmaking chooses from.

use crate::server::connector::Connector;
use vstd::prelude::*;

verus! {

/// The port of the first session of a pool; session `i` listens on
/// `BASE_PORT + i`.
pub const BASE_PORT: i32 = 7000;

/// The port of the first open slot at or after place `from`, if there is one.
pub open spec fn first_open_from(slots: Seq<Connector>, from: int) -> Option<i32>
    decreases slots.len() - from,
{
    if from < 0 || from >= slots.len() {
        None
    } else if slots[from].open() {
        Some(slots[from].listening_port())
    } else {
        first_open_from(slots, from + 1)
    }
}

/// The port of the first open slot, if there is one.
pub open spec fn first_open(slots: Seq<Connector>) -> Option<i32> {
    first_open_from(slots, 0)
}

/// A pool of game connectors, in the order of their ports. The pool is made
/// once and never resized.
#[derive(Debug)]
pub struct Pool {
    game_connectors: Vec<Connector>,
}

impl View for Pool {
    type V = Seq<Connector>;

    closed spec fn view(&self) -> Seq<Connector> {
        self.game_connectors@
    }
}

impl Pool {
    /// A pool of `max_games` empty sessions of `max_players` players each, on
    /// consecutive ports from [`BASE_PORT`] on. A count below one gives an
    /// empty pool.
    pub fn new(max_games: i32, max_players: i32) -> (pool: Pool)
        requires
            BASE_PORT + max_games <= i32::MAX,
        ensures
            pool@.len() == (if max_games > 0 {
                max_games as int
            } else {
                0
            }),
            forall|i: int|
                0 <= i < pool@.len() ==> {
                    &&& (#[trigger] pool@[i]).listening_port() == BASE_PORT + i
                    &&& pool@[i].capacity() == max_players
                    &&& pool@[i].count() == 0
                    &&& !pool@[i].started()
                    &&& pool@[i].wf()
                },
    {
        Pool::with_base_port(BASE_PORT, max_games, max_players)
    }

    /// A pool of `max_games` empty sessions of `max_players` players each, on
    /// consecutive ports from `base_port` on. A count below one gives an
    /// empty pool.
    pub fn with_base_port(base_port: i32, max_games: i32, max_players: i32) -> (pool: Pool)
        requires
            max_games > 0 ==> base_port + max_games <= i32::MAX,
        ensures
            pool@.len() == (if max_games > 0 {
                max_games as int
            } else {
                0
            }),
            forall|i: int|
                0 <= i < pool@.len() ==> {
                    &&& (#[trigger] pool@[i]).listening_port() == base_port + i
                    &&& pool@[i].capacity() == max_players
                    &&& pool@[i].count() == 0
                    &&& !pool@[i].started()
                    &&& pool@[i].wf()
                },
    {
        let mut game_connectors: Vec<Connector> = Vec::new();
        let mut i: i32 = 0;
        while i < max_games
            invariant
                0 <= i,
                i <= max_games || i == 0,
                max_games > 0 ==> base_port + max_games <= i32::MAX,
                game_connectors@.len() == i,
                forall|k: int|
                    0 <= k < i ==> {
                        &&& (#[trigger] game_connectors@[k]).listening_port() == base_port + k
                        &&& game_connectors@[k].capacity() == max_players
                        &&& game_connectors@[k].count() == 0
                        &&& !game_connectors@[k].started()
                        &&& game_connectors@[k].wf()
                    },
            decreases max_games - i,
        {
            let port = base_port + i;
            game_connectors.push(Connector::new(port, max_players));
            i += 1;
        }
        Pool { game_connectors }
    }

    /// The number of sessions.
    pub fn len(&self) -> (count: usize)
        ensures
            count == self@.len(),
    {
        self.game_connectors.len()
    }

    /// The slot of session `index`.
    pub fn connector(&self, index: usize) -> (connector: Connector)
        requires
            index < self@.len(),
        ensures
            connector == self@[index as int],
    {
        self.game_connectors[index]
    }

    /// Records what session `index` reports of itself. The other slots stay
    /// as they are.
    pub fn report(&mut self, index: usize, connector: Connector)
        requires
            index < old(self)@.len(),
        ensures
            final(self)@ == old(self)@.update(index as int, connector),
    {
        self.game_connectors.set(index, connector);
    }

    /// Finds a session with room and returns its port: the first one in the
    /// order of the pool, or nothing if every session is full. Nothing is
    /// reserved: the answer is a hint.
    pub fn find_empty_game(&self) -> (port: Option<i32>)
        ensures
            port == first_open(self@),
            match port {
                Some(found) => exists|i: int|
                    {
                        &&& 0 <= i < self@.len()
                        &&& (#[trigger] self@[i]).open()
                        &&& self@[i].listening_port() == found
                        &&& forall|j: int| 0 <= j < i ==> !(#[trigger] self@[j]).open()
                    },
                None => forall|i: int| 0 <= i < self@.len() ==> !(#[trigger] self@[i]).open(),
            },
    {
        let mut i: usize = 0;
        while i < self.game_connectors.len()
            invariant
                i <= self@.len(),
                first_open(self@) == first_open_from(self@, i as int),
            decreases self@.len() - i,
        {
            let game_connector = &self.game_connectors[i];
            if game_connector.is_empty() {
                proof {
                    lemma_first_open_is_first(self@, 0);
                }
                return Some(game_connector.port());
            }
            i += 1;
        }
        proof {
            lemma_first_open_is_first(self@, 0);
        }
        None
    }
}

/// The port that matchmaking returns belongs to an open session, and every
/// session before it in the pool is full.
pub proof fn lemma_first_open_is_first(slots: Seq<Connector>, from: int)
    requires
        0 <= from <= slots.len(),
    ensures
        match first_open_from(slots, from) {
            Some(port) => exists|i: int|
                {
                    &&& from <= i < slots.len()
                    &&& (#[trigger] slots[i]).open()
                    &&& slots[i].listening_port() == port
                    &&& forall|j: int| from <= j < i ==> !(#[trigger] slots[j]).open()
                },
            None => forall|i: int| from <= i < slots.len() ==> !(#[trigger] slots[i]).open(),
        },
    decreases slots.len() - from,
{
    if from < slots.len() {
        if slots[from].open() {
            assert(forall|j: int| from <= j < from ==> !(#[trigger] slots[j]).open());
        } else {
            lemma_first_open_is_first(slots, from + 1);
            match first_open_from(slots, from + 1) {
                Some(port) => {
                    let i = choose|i: int|
                        {
                            &&& from + 1 <= i < slots.len()
                            &&& (#[trigger] slots[i]).open()
                            &&& slots[i].listening_port() == port
                            &&& forall|j: int| from + 1 <= j < i ==> !(#[trigger] slots[j]).open()
                        };
                    assert(forall|j: int| from <= j < i ==> !(#[trigger] slots[j]).open());
                },
                None => {},
            }
        }
    }
}

} // verus!
