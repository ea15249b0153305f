//! A second example game: every entity of the world drifts by what the
//! players typed since the last tick.
//!
//! Here the input accumulates: each message adds its step to the pending
//! input instead of replacing it.

use crate::engine::ecs::{
    insert_for_all, lists_values, values, ComponentRegistry, EntityManager, World,
};
use crate::engine::game::Game;
use crate::example::server::next_tick;
use crate::example::Message;
use crate::game::position::{fits, Position};
use std::collections::HashMap;
use vstd::prelude::*;
use vstd::std_specs::hash::spec_keys_iter;
use vstd::std_specs::iter::IteratorSpec;

verus! {

/// The input of one tick: the sum of the steps that were asked for.
#[derive(Debug, Clone, Copy, PartialEq, Eq, Structural)]
pub struct Input {
    pub x: i32,
    pub y: i32,
}

/// A coordinate moved by a step, as far as 32 bits go: a step that would
/// leave them is not taken.
pub open spec fn shifted(coordinate: i32, step: i32) -> i32 {
    if fits(coordinate, step) {
        (coordinate + step) as i32
    } else {
        coordinate
    }
}

/// The step that a message asks for.
pub open spec fn step_of(message: Message) -> (i32, i32) {
    match message {
        Message::W => (0i32, 1i32),
        Message::A => (-1i32, 0i32),
        Message::S => (0i32, -1i32),
        Message::D => (1i32, 0i32),
        _ => (0i32, 0i32),
    }
}

/// The input after the steps of the given messages have been added to it,
/// in their order.
pub open spec fn collected(input: Input, messages: Seq<Message>) -> Input
    decreases messages.len(),
{
    if messages.len() == 0 {
        input
    } else {
        let before = collected(input, messages.drop_last());
        let step = step_of(messages.last());
        Input { x: shifted(before.x, step.0), y: shifted(before.y, step.1) }
    }
}

/// A position drifted by an input.
pub open spec fn drifted(position: Position, input: Input) -> Position {
    Position { x: shifted(position.x, input.x), y: shifted(position.y, input.y) }
}

/// The positions after each has drifted by the input.
pub open spec fn all_drifted(positions: Map<u32, Position>, input: Input) -> Map<u32, Position> {
    positions.map_values(|position: Position| drifted(position, input))
}

impl Input {
    /// The input of a tick in which nobody asked for a step.
    pub fn new() -> (input: Self)
        ensures
            input == (Input { x: 0, y: 0 }),
    {
        Self { x: 0, y: 0 }
    }

    /// Adds a step to the input.
    pub fn displace(&mut self, x: i32, y: i32)
        ensures
            final(self).x == shifted(old(self).x, x),
            final(self).y == shifted(old(self).y, y),
    {
        if let Some(sum) = self.x.checked_add(x) {
            self.x = sum;
        }
        if let Some(sum) = self.y.checked_add(y) {
            self.y = sum;
        }
    }
}

/// The state shared with the clients: the first coordinate of the last
/// input, and the position of every entity, in no particular order.
#[derive(Debug, Clone)]
pub struct SharedState {
    pub counter: i32,
    pub registry: Vec<Position>,
}

impl SharedState {
    /// The state of a world without entities.
    pub fn new(counter: i32) -> (state: Self)
        ensures
            state.counter == counter,
            state.registry@ == Seq::<Position>::empty(),
    {
        Self { counter, registry: Vec::new() }
    }
}

/// The position of every entity.
#[derive(Debug, Clone)]
pub struct PositionRegistry {
    pub components: HashMap<u32, Position>,
}

impl ComponentRegistry<Position> for PositionRegistry {
    open spec fn components(&self) -> Map<u32, Position> {
        self.components@
    }

    fn new() -> (registry: Self) {
        Self { components: HashMap::new() }
    }

    fn add(&mut self, entity: u32, component: Position) {
        broadcast use vstd::std_specs::hash::group_hash_axioms;

        self.components.insert(entity, component);
    }

    fn add_many(&mut self, entities: &Vec<u32>, component: Position) {
        insert_for_all(&mut self.components, entities, component);
    }

    fn remove(&mut self, entity: u32) {
        broadcast use vstd::std_specs::hash::group_hash_axioms;

        self.components.remove(&entity);
    }

    fn get(&self, entity: u32) -> (component: Option<&Position>) {
        broadcast use vstd::std_specs::hash::group_hash_axioms;

        self.components.get(&entity)
    }
}

/// Every position drifts by the input.
pub fn position_system(positions: &mut HashMap<u32, Position>, input: Input)
    ensures
        final(positions)@ == all_drifted(old(positions)@, input),
{
    broadcast use vstd::std_specs::hash::group_hash_axioms;

    let mut entities: Vec<u32> = Vec::new();
    let ghost keys = spec_keys_iter(positions).remaining();
    for entity in it: positions.keys()
        invariant
            it.seq() == keys,
            entities@.len() == it.index(),
            forall|i: int| 0 <= i < entities@.len() ==> entities@[i] == *#[trigger] keys[i],
    {
        entities.push(*entity);
    }
    assert(entities@ =~= keys.unref());
    let ghost before = positions@;
    let mut i: usize = 0;
    while i < entities.len()
        invariant
            i <= entities@.len(),
            before == old(positions)@,
            entities@.no_duplicates(),
            entities@.to_set() == before.dom(),
            positions@.dom() == before.dom(),
            forall|k: int|
                0 <= k < entities@.len() ==> positions@[#[trigger] entities@[k]] == (if k < i {
                    drifted(before[entities@[k]], input)
                } else {
                    before[entities@[k]]
                }),
        decreases entities@.len() - i,
    {
        let entity = entities[i];
        assert(entities@.to_set().contains(entity));
        let mut position = match positions.get(&entity) {
            Some(position) => *position,
            None => Position::new(),
        };
        if let Some(x) = position.x.checked_add(input.x) {
            position.x = x;
        }
        if let Some(y) = position.y.checked_add(input.y) {
            position.y = y;
        }
        let ghost previous = positions@;
        positions.insert(entity, position);
        proof {
            assert(positions@.dom() =~= before.dom());
            assert forall|k: int| 0 <= k < entities@.len() implies positions@[#[trigger] entities@[k]]
                == (if k < i + 1 {
                drifted(before[entities@[k]], input)
            } else {
                before[entities@[k]]
            }) by {
                if k != i {
                    assert(entities@[k] != entities@[i as int]);
                    assert(positions@[entities@[k]] == previous[entities@[k]]);
                }
            }
        }
        i += 1;
    }
    proof {
        let expected = all_drifted(before, input);
        assert forall|entity: u32| positions@.contains_key(entity) implies positions@[entity]
            == expected[entity] by {
            assert(entities@.to_set().contains(entity));
            let k = choose|k: int| 0 <= k < entities@.len() && entities@[k] == entity;
            assert(positions@[entities@[k]] == drifted(before[entities@[k]], input));
        }
        assert(positions@ =~= expected);
    }
}

/// The world: its entities and their positions.
#[derive(Debug, Clone)]
pub struct MyWorld {
    pub entity_manager: EntityManager,
    pub position: PositionRegistry,
}

impl World<Input> for MyWorld {
    fn new() -> (world: Self)
        ensures
            world.entity_manager@ == Map::<u32, bool>::empty(),
            world.position.components@ == Map::<u32, Position>::empty(),
    {
        Self { entity_manager: EntityManager::new(), position: PositionRegistry::new() }
    }

    fn run_systems(&mut self, input: Input)
        ensures
            final(self).entity_manager@ == old(self).entity_manager@,
            final(self).position.components@ == all_drifted(old(self).position.components@, input),
    {
        position_system(&mut self.position.components, input);
    }
}

/// The game: a world and the number of ticks it has seen.
#[derive(Clone)]
pub struct MyGame {
    pub world: MyWorld,
    pub counter: i32,
}

impl Game<SharedState, Input> for MyGame {
    open spec fn configured(&self, after: &Self) -> bool {
        &&& after.counter == self.counter
        &&& exists|created: Seq<u32>|
            {
                &&& created.len() <= 2
                &&& created.no_duplicates()
                &&& forall|i: int|
                    0 <= i < created.len() ==> !self.world.entity_manager@.contains_key(
                        #[trigger] created[i],
                    )
                &&& after.world.entity_manager@.dom() == self.world.entity_manager@.dom().union(
                    created.to_set(),
                )
                &&& after.world.position.components@.dom()
                    == self.world.position.components@.dom().union(created.to_set())
                &&& forall|i: int|
                    0 <= i < created.len() ==> after.world.position.components@[#[trigger] created[i]]
                        == (Position { x: 0, y: 0 })
            }
    }

    open spec fn updated(&self, input: Input, after: &Self, state: SharedState) -> bool {
        &&& after.world.entity_manager@ == self.world.entity_manager@
        &&& after.world.position.components@ == all_drifted(self.world.position.components@, input)
        &&& after.counter == next_tick(self.counter)
        &&& state.counter == input.x
        &&& lists_values(state.registry@, after.world.position.components@)
    }

    open spec fn idle_input(&self) -> Input {
        Input { x: 0, y: 0 }
    }

    open spec fn over(&self) -> bool {
        false
    }

    fn world_config(&mut self) {
        // two entities, both at the origin
        let entities = self.world.entity_manager.create_n_entities(2);
        self.world.position.add_many(&entities, Position::new());
        proof {
            let created = entities@;
            assert forall|i: int| 0 <= i < created.len() implies self.world.position.components@[#[trigger] created[i]]
                == (Position { x: 0, y: 0 }) by {
                assert(created.to_set().contains(created[i]));
                assert(created.contains(created[i]));
                assert(self.world.position.components().dom().contains(created[i]));
                assert(self.world.position.components().contains_key(created[i]));
            }
        }
    }

    fn update(&mut self, input: Input) -> (state: SharedState) {
        self.world.run_systems(input);
        if self.counter < i32::MAX {
            self.counter += 1;
        }
        SharedState { counter: input.x, registry: values(&self.world.position.components) }
    }

    fn reset_input(&self) -> (input: Input) {
        Input::new()
    }

    fn render(&mut self) {
    }

    fn end_game(&self) -> (over: bool) {
        false
    }
}

/// A new game on `world`, before its first tick.
pub fn new_game(world: MyWorld) -> (game: MyGame)
    ensures
        game.world == world,
        game.counter == 0,
{
    MyGame { counter: 0, world }
}

/// Takes the messages that clients sent since the last tick, in the order in
/// which they arrived, and adds the step of each to the pending input.
/// Returns the input to fall back to when the channel closes.
pub fn handle_client_message(messages: &Vec<Message>, input: &mut Input) -> (idle: Input)
    ensures
        idle == (Input { x: 0, y: 0 }),
        *final(input) == collected(*old(input), messages@),
{
    let mut i: usize = 0;
    assert(messages@.take(0) =~= Seq::<Message>::empty());
    while i < messages.len()
        invariant
            i <= messages@.len(),
            *input == collected(*old(input), messages@.take(i as int)),
        decreases messages@.len() - i,
    {
        assert(messages@.take(i as int + 1).drop_last() =~= messages@.take(i as int));
        match messages[i] {
            Message::W => {
                input.displace(0, 1);
            },
            Message::A => {
                input.displace(-1, 0);
            },
            Message::S => {
                input.displace(0, -1);
            },
            Message::D => {
                input.displace(1, 0);
            },
            _ => {
                input.displace(0, 0);
            },
        }
        i += 1;
    }
    assert(messages@.take(messages@.len() as int) =~= messages@);
    Input::new()
}

} // verus!
