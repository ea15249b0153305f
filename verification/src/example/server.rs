//! The server side of the example game: its world, its systems, and the game
//! that the engine runs.

use crate::engine::ecs::{
    insert_for_all, lists_values, values, ComponentRegistry, EntityManager, World,
};
use crate::engine::game::Game;
use crate::example::{Message, Position, SharedState};
use std::collections::HashMap;
use vstd::prelude::*;
use vstd::std_specs::hash::spec_keys_iter;
use vstd::std_specs::iter::IteratorSpec;

verus! {

/// The input of one tick: a message and the player who sent it.
#[derive(Debug, Clone, Copy, PartialEq, Eq, Structural)]
pub struct Input(pub Message, pub usize);

impl Input {
    /// The input of a tick in which nobody said anything.
    pub fn default() -> (input: Self)
        ensures
            input == Input(Message::Idle, 0),
    {
        Self(Message::Idle, 0)
    }

    /// The input that player `id` gives by sending `m`.
    pub fn from(m: Message, id: usize) -> (input: Self)
        ensures
            input == Input(m, id),
    {
        Self(m, id)
    }
}

/// Forgets what player `id` has sent: a pending input of that player is
/// replaced by the idle input, any other stays.
pub fn forget_player(input: &mut Input, id: usize)
    ensures
        *final(input) == (if old(input).1 == id {
            Input(Message::Idle, 0)
        } else {
            *old(input)
        }),
{
    if input.1 == id {
        *input = Input::default();
    }
}

/// The value of every counter.
#[derive(Debug, Clone)]
pub struct CounterRegistry {
    pub components: HashMap<u32, u32>,
}

/// The position of every player.
#[derive(Debug, Clone)]
pub struct PositionRegistry {
    pub components: HashMap<u32, Position>,
}

/// The player behind every player entity.
#[derive(Debug, Clone)]
pub struct PlayerRegistry {
    pub components: HashMap<u32, usize>,
}

impl ComponentRegistry<u32> for CounterRegistry {
    open spec fn components(&self) -> Map<u32, u32> {
        self.components@
    }

    fn new() -> (registry: Self) {
        Self { components: HashMap::new() }
    }

    fn add(&mut self, entity: u32, component: u32) {
        broadcast use vstd::std_specs::hash::group_hash_axioms;

        self.components.insert(entity, component);
    }

    fn add_many(&mut self, entities: &Vec<u32>, component: u32) {
        insert_for_all(&mut self.components, entities, component);
    }

    fn remove(&mut self, entity: u32) {
        broadcast use vstd::std_specs::hash::group_hash_axioms;

        self.components.remove(&entity);
    }

    fn get(&self, entity: u32) -> (component: Option<&u32>) {
        broadcast use vstd::std_specs::hash::group_hash_axioms;

        self.components.get(&entity)
    }
}

impl ComponentRegistry<Position> for PositionRegistry {
    open spec fn components(&self) -> Map<u32, Position> {
        self.components@
    }

    fn new() -> (registry: Self) {
        Self { components: HashMap::new() }
    }

    fn add(&mut self, entity: u32, component: Position) {
        broadcast use vstd::std_specs::hash::group_hash_axioms;

        self.components.insert(entity, component);
    }

    fn add_many(&mut self, entities: &Vec<u32>, component: Position) {
        insert_for_all(&mut self.components, entities, component);
    }

    fn remove(&mut self, entity: u32) {
        broadcast use vstd::std_specs::hash::group_hash_axioms;

        self.components.remove(&entity);
    }

    fn get(&self, entity: u32) -> (component: Option<&Position>) {
        broadcast use vstd::std_specs::hash::group_hash_axioms;

        self.components.get(&entity)
    }
}

impl ComponentRegistry<usize> for PlayerRegistry {
    open spec fn components(&self) -> Map<u32, usize> {
        self.components@
    }

    fn new() -> (registry: Self) {
        Self { components: HashMap::new() }
    }

    fn add(&mut self, entity: u32, component: usize) {
        broadcast use vstd::std_specs::hash::group_hash_axioms;

        self.components.insert(entity, component);
    }

    fn add_many(&mut self, entities: &Vec<u32>, component: usize) {
        insert_for_all(&mut self.components, entities, component);
    }

    fn remove(&mut self, entity: u32) {
        broadcast use vstd::std_specs::hash::group_hash_axioms;

        self.components.remove(&entity);
    }

    fn get(&self, entity: u32) -> (component: Option<&usize>) {
        broadcast use vstd::std_specs::hash::group_hash_axioms;

        self.components.get(&entity)
    }
}

/// The entity of every player: the server knows players by other numbers
/// than the world knows entities.
#[derive(Debug, Clone)]
pub struct PlayerIdMap {
    pub players: HashMap<usize, u32>,
}

impl PlayerIdMap {
    /// A map without players.
    pub fn new() -> (map: Self)
        ensures
            map.players@ == Map::<usize, u32>::empty(),
    {
        Self { players: HashMap::new() }
    }
}

/// The world of the example game.
#[derive(Debug, Clone)]
pub struct MyWorld {
    pub entity_manager: EntityManager,
    pub positions: PositionRegistry,
    pub counters: CounterRegistry,
    pub players: PlayerRegistry,
    pub player_id_map: PlayerIdMap,
}

/// What a world holds, as maps.
pub struct WorldView {
    pub entities: Map<u32, bool>,
    pub positions: Map<u32, Position>,
    pub counters: Map<u32, u32>,
    pub players: Map<u32, usize>,
    pub player_ids: Map<usize, u32>,
}

impl View for MyWorld {
    type V = WorldView;

    open spec fn view(&self) -> WorldView {
        WorldView {
            entities: self.entity_manager@,
            positions: self.positions.components@,
            counters: self.counters.components@,
            players: self.players.components@,
            player_ids: self.player_id_map.players@,
        }
    }
}

/// Where a player stands after a step: a player without position starts
/// from the step itself, and a step that would leave the plane of 32-bit
/// coordinates is not taken.
pub open spec fn stepped(current: Option<Position>, step: Position) -> Position {
    let start = match current {
        Some(position) => position,
        None => step,
    };
    if start.can_add(step) {
        Position::spec_sum(start, step)
    } else {
        start
    }
}

/// A counter after one tick: one more, but never past the largest value.
pub open spec fn counted(counter: u32) -> u32 {
    if counter < u32::MAX {
        (counter + 1) as u32
    } else {
        counter
    }
}

/// The counters after each has counted one tick.
pub open spec fn all_counted(counters: Map<u32, u32>) -> Map<u32, u32> {
    counters.map_values(|counter: u32| counted(counter))
}

impl WorldView {
    /// The world after player `player_id` joined as the new entity
    /// `entity`, at the origin.
    pub open spec fn with_player(self, player_id: usize, entity: u32) -> WorldView {
        WorldView {
            entities: self.entities.insert(entity, false),
            positions: self.positions.insert(entity, Position::origin()),
            counters: self.counters,
            players: self.players.insert(entity, player_id),
            player_ids: self.player_ids.insert(player_id, entity),
        }
    }

    /// The world after player `player_id` took a step, if the world knows
    /// the player.
    pub open spec fn with_step(self, player_id: usize, step: Position) -> WorldView {
        if self.player_ids.contains_key(player_id) {
            let entity = self.player_ids[player_id];
            WorldView {
                positions: self.positions.insert(
                    entity,
                    stepped(
                        if self.positions.contains_key(entity) {
                            Some(self.positions[entity])
                        } else {
                            None
                        },
                        step,
                    ),
                ),
                ..self
            }
        } else {
            self
        }
    }

    /// The world after player `player_id` left, if the world knows the
    /// player.
    pub open spec fn without_player(self, player_id: usize) -> WorldView {
        if self.player_ids.contains_key(player_id) {
            let entity = self.player_ids[player_id];
            WorldView {
                entities: self.entities.remove(entity),
                positions: self.positions.remove(entity),
                counters: self.counters,
                players: self.players.remove(entity),
                player_ids: self.player_ids.remove(player_id),
            }
        } else {
            self
        }
    }

    /// The world after every counter has counted one tick.
    pub open spec fn with_tick_counted(self) -> WorldView {
        WorldView { counters: all_counted(self.counters), ..self }
    }

    /// Whether the systems of one tick on `input` may turn this world into
    /// `after`. A joining player gets a fresh entity, or is not taken in
    /// where no fresh identifier was drawn.
    pub open spec fn ran_systems(self, input: Input, after: WorldView) -> bool {
        match input.0 {
            Message::AddPlayer => {
                ||| after == self.with_tick_counted()
                ||| exists|entity: u32|
                    !self.entities.contains_key(entity) && after == #[trigger] self.with_player(
                        input.1,
                        entity,
                    ).with_tick_counted()
            },
            Message::W => after == self.with_step(input.1, Position::step(0, 1)).with_tick_counted(),
            Message::A => after == self.with_step(input.1, Position::step(-1i32, 0)).with_tick_counted(),
            Message::S => after == self.with_step(input.1, Position::step(0, -1i32)).with_tick_counted(),
            Message::D => after == self.with_step(input.1, Position::step(1, 0)).with_tick_counted(),
            Message::RemovePlayer => after == self.without_player(input.1).with_tick_counted(),
            Message::Idle => after == self.with_tick_counted(),
        }
    }
}

/// A player joins: it gets a new entity at the origin, which is returned.
/// The entity's identifier is drawn at random among those from 1 to 9999
/// that the world does not hold. Where no fresh identifier is drawn, which
/// cannot happen in a world without entities, the world stays as it is.
pub fn add_player_system(world: &mut MyWorld, player_id: usize) -> (entity: Option<u32>)
    ensures
        match entity {
            Some(id) => {
                &&& 0 < id < 10000
                &&& !old(world)@.entities.contains_key(id)
                &&& final(world)@ == old(world)@.with_player(player_id, id)
            },
            None => final(world)@ == old(world)@ && old(world)@.entities.dom().len() > 0,
        },
        old(world)@.entities.dom().len() == 0 ==> entity is Some,
{
    broadcast use vstd::std_specs::hash::group_hash_axioms;

    match world.entity_manager.create_entity() {
        Some(ent) => {
            world.players.add(ent, player_id);
            world.positions.add(ent, Position::new());
            world.player_id_map.players.insert(player_id, ent);
            Some(ent)
        },
        None => None,
    }
}

/// A player takes a step.
pub fn update_player_pos_system(world: &mut MyWorld, player_id: usize, displacement: Position)
    ensures
        final(world)@ == old(world)@.with_step(player_id, displacement),
{
    broadcast use vstd::std_specs::hash::group_hash_axioms;

    let entity = match world.player_id_map.players.get(&player_id) {
        Some(ent) => *ent,
        None => {
            return ;
        },
    };
    let start = match world.positions.components.get(&entity) {
        Some(position) => *position,
        None => displacement,
    };
    let end = match start.checked_add(displacement) {
        Some(position) => position,
        None => start,
    };
    world.positions.components.insert(entity, end);
}

/// A player leaves: its entity and all its components go.
pub fn remove_player_system(world: &mut MyWorld, player_id: usize)
    ensures
        final(world)@ == old(world)@.without_player(player_id),
{
    broadcast use vstd::std_specs::hash::group_hash_axioms;

    let entity = match world.player_id_map.players.get(&player_id) {
        Some(ent) => *ent,
        None => {
            return ;
        },
    };
    world.players.components.remove(&entity);
    world.positions.components.remove(&entity);
    world.entity_manager.remove_entity(entity);
    world.player_id_map.players.remove(&player_id);
}

/// Every counter counts one tick.
pub fn counter_system(counters: &mut HashMap<u32, u32>)
    ensures
        final(counters)@ == all_counted(old(counters)@),
{
    broadcast use vstd::std_specs::hash::group_hash_axioms;

    let mut entities: Vec<u32> = Vec::new();
    let ghost keys = spec_keys_iter(counters).remaining();
    for entity in it: counters.keys()
        invariant
            it.seq() == keys,
            entities@.len() == it.index(),
            forall|i: int| 0 <= i < entities@.len() ==> entities@[i] == *#[trigger] keys[i],
    {
        entities.push(*entity);
    }
    assert(entities@ =~= keys.unref());
    let ghost before = counters@;
    let mut i: usize = 0;
    while i < entities.len()
        invariant
            i <= entities@.len(),
            before == old(counters)@,
            entities@.no_duplicates(),
            entities@.to_set() == before.dom(),
            counters@.dom() == before.dom(),
            forall|k: int|
                0 <= k < entities@.len() ==> counters@[#[trigger] entities@[k]] == (if k < i {
                    counted(before[entities@[k]])
                } else {
                    before[entities@[k]]
                }),
        decreases entities@.len() - i,
    {
        let entity = entities[i];
        assert(entities@.to_set().contains(entity));
        let counter = match counters.get(&entity) {
            Some(counter) => *counter,
            None => 0,
        };
        let next = if counter < u32::MAX {
            counter + 1
        } else {
            counter
        };
        let ghost previous = counters@;
        counters.insert(entity, next);
        proof {
            assert(counters@.dom() =~= before.dom());
            assert forall|k: int| 0 <= k < entities@.len() implies counters@[#[trigger] entities@[k]]
                == (if k < i + 1 {
                counted(before[entities@[k]])
            } else {
                before[entities@[k]]
            }) by {
                if k != i {
                    assert(entities@[k] != entities@[i as int]);
                    assert(counters@[entities@[k]] == previous[entities@[k]]);
                }
            }
        }
        i += 1;
    }
    proof {
        let expected = all_counted(before);
        assert forall|entity: u32| counters@.contains_key(entity) implies counters@[entity]
            == expected[entity] by {
            assert(entities@.to_set().contains(entity));
            let k = choose|k: int| 0 <= k < entities@.len() && entities@[k] == entity;
            assert(counters@[entities@[k]] == counted(before[entities@[k]]));
        }
        assert(counters@ =~= expected);
    }
}

impl World<Input> for MyWorld {
    fn new() -> (world: Self)
        ensures
            world@.entities == Map::<u32, bool>::empty(),
            world@.positions == Map::<u32, Position>::empty(),
            world@.counters == Map::<u32, u32>::empty(),
            world@.players == Map::<u32, usize>::empty(),
            world@.player_ids == Map::<usize, u32>::empty(),
    {
        Self {
            entity_manager: EntityManager::new(),
            positions: PositionRegistry::new(),
            counters: CounterRegistry::new(),
            players: PlayerRegistry::new(),
            player_id_map: PlayerIdMap::new(),
        }
    }

    fn run_systems(&mut self, input: Input)
        ensures
            old(self)@.ran_systems(input, final(self)@),
    {
        // systems that run on a message
        match input.0 {
            Message::AddPlayer => {
                let entity = add_player_system(self, input.1);
                proof {
                    if let Some(id) = entity {
                        assert(self@ == old(self)@.with_player(input.1, id));
                    }
                }
            },
            Message::W => {
                update_player_pos_system(self, input.1, Position::displacement(0, 1));
            },
            Message::A => {
                update_player_pos_system(self, input.1, Position::displacement(-1, 0));
            },
            Message::S => {
                update_player_pos_system(self, input.1, Position::displacement(0, -1));
            },
            Message::D => {
                update_player_pos_system(self, input.1, Position::displacement(1, 0));
            },
            Message::RemovePlayer => {
                remove_player_system(self, input.1);
            },
            Message::Idle => {},
        }
        // systems that always run
        let ghost reacted = self@;
        counter_system(&mut self.counters.components);
        assert(self@ == reacted.with_tick_counted());
    }
}

/// The example game: a world and the number of ticks it has seen.
#[derive(Clone)]
pub struct MyGame {
    pub world: MyWorld,
    pub counter: i32,
}

/// The tick counter after one more tick; it stops at the largest value.
pub open spec fn next_tick(counter: i32) -> i32 {
    if counter < i32::MAX {
        (counter + 1) as i32
    } else {
        counter
    }
}

impl Game<SharedState, Input> for MyGame {
    open spec fn configured(&self, after: &Self) -> bool {
        &&& after.counter == self.counter
        &&& after.world@.positions == self.world@.positions
        &&& after.world@.players == self.world@.players
        &&& after.world@.player_ids == self.world@.player_ids
        &&& {
            ||| after.world@ == self.world@ && self.world@.entities.dom().len() > 0
            ||| exists|entity: u32|
                {
                    &&& 0 < entity < 10000
                    &&& !self.world@.entities.contains_key(entity)
                    &&& after.world@.entities == #[trigger] self.world@.entities.insert(entity, false)
                    &&& after.world@.counters == self.world@.counters.insert(entity, 0)
                }
        }
    }

    open spec fn updated(&self, input: Input, after: &Self, state: SharedState) -> bool {
        &&& self.world@.ran_systems(input, after.world@)
        &&& after.counter == next_tick(self.counter)
        &&& lists_values(state.counters@, after.world@.counters)
        &&& lists_values(state.registry@, after.world@.positions)
    }

    open spec fn idle_input(&self) -> Input {
        Input(Message::Idle, 0)
    }

    open spec fn over(&self) -> bool {
        false
    }

    /// Sets the world up: it gets one counter, at zero, on a new entity
    /// whose identifier is drawn at random among those from 1 to 9999 that
    /// the world does not hold. Only a world that has entities already can
    /// fail to draw one, and then stays as it is.
    fn world_config(&mut self) {
        // the one counter of the world
        let entities = self.world.entity_manager.create_n_entities(1);
        let ghost before = self.world.counters.components@;
        self.world.counters.add_many(&entities, 0);
        proof {
            let after = self.world.counters.components@;
            if entities@.len() == 0 {
                assert(entities@.to_set() =~= Set::<u32>::empty());
                assert(after =~= before);
                assert(self.world@.entities =~= old(self).world@.entities);
            } else {
                let entity = entities@[0];
                assert(entities@ =~= seq![entity]);
                assert(entities@.to_set() =~= set![entity]);
                assert(entities@.contains(entity));
                assert(after =~= before.insert(entity, 0));
                assert(self.world@.entities =~= old(self).world@.entities.insert(entity, false));
            }
        }
    }

    fn update(&mut self, input: Input) -> (state: SharedState) {
        // update the world
        self.world.run_systems(input);
        if self.counter < i32::MAX {
            self.counter += 1;
        }
        // the state for the clients
        SharedState {
            counters: values(&self.world.counters.components),
            registry: values(&self.world.positions.components),
        }
    }

    fn reset_input(&self) -> (input: Input) {
        Input::default()
    }

    fn render(&mut self) {
    }

    fn end_game(&self) -> (over: bool) {
        false
    }
}

/// A new game on `world`, before its first tick.
pub fn new_game(world: MyWorld) -> (game: MyGame)
    ensures
        game.world == world,
        game.counter == 0,
{
    MyGame { counter: 0, world }
}

/// Takes the messages that clients sent since the last tick, in the order in
/// which they arrived: each replaces the pending input, so that the last one
/// stays. Returns the input to fall back to when the channel closes.
pub fn handle_client_message(messages: &Vec<(Message, usize)>, input: &mut Input) -> (idle: Input)
    ensures
        idle == Input(Message::Idle, 0),
        *final(input) == (if messages@.len() == 0 {
            *old(input)
        } else {
            Input(messages@.last().0, messages@.last().1)
        }),
{
    let mut i: usize = 0;
    while i < messages.len()
        invariant
            i <= messages@.len(),
            *input == (if i == 0 {
                *old(input)
            } else {
                Input(messages@[i - 1].0, messages@[i - 1].1)
            }),
        decreases messages@.len() - i,
    {
        let (message, id) = messages[i];
        *input = Input::from(message, id);
        i += 1;
    }
    Input::default()
}

} // verus!
