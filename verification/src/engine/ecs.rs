//! The entity-component store.
//!
//! An entity is a number. The entity manager knows which entities exist and
//! which of them are marked for removal; a component registry maps entities
//! to the components of one kind.

pub mod ec_example;
pub mod vecs;

use crate::uid::Uid;
use std::collections::HashMap;
use vstd::prelude::*;
use vstd::std_specs::hash::spec_keys_iter;
use vstd::std_specs::iter::IteratorSpec;

verus! {

/// Number of decimal digits of an entity's identifier.
pub const ENTITY_ID_DIGITS: u32 = 4;

/// How many identifiers are drawn for one new entity before it is given up.
pub const ENTITY_ID_ATTEMPTS: u32 = 32;

/// A world: the entities and components of a game, and the systems that run
/// on them once per tick on the input `I`.
pub trait World<I>: Sized {
    /// An empty world.
    fn new() -> Self;

    /// Runs the systems on one tick's input.
    fn run_systems(&mut self, input: I);
}

/// The entities that are marked for removal.
pub open spec fn marked(entities: Map<u32, bool>) -> Set<u32> {
    Set::new(|entity: u32| entities.contains_key(entity) && entities[entity])
}

/// Entity manager: the entities that exist, each with its removal mark.
#[derive(Debug, Clone)]
pub struct EntityManager {
    entities: HashMap<u32, bool>,
}

impl View for EntityManager {
    type V = Map<u32, bool>;

    closed spec fn view(&self) -> Map<u32, bool> {
        self.entities@
    }
}

impl EntityManager {
    /// Creates a new entity manager, without entities.
    pub fn new() -> (manager: Self)
        ensures
            manager@ == Map::<u32, bool>::empty(),
    {
        Self { entities: HashMap::new() }
    }

    /// Creates the entity `id` unless it exists, and says whether it did so.
    /// A new entity is not marked.
    pub fn create_entity_as(&mut self, id: u32) -> (created: bool)
        ensures
            created == !old(self)@.contains_key(id),
            created ==> final(self)@ == old(self)@.insert(id, false),
            !created ==> final(self)@ == old(self)@,
    {
        broadcast use vstd::std_specs::hash::group_hash_axioms;

        if self.entities.contains_key(&id) {
            false
        } else {
            self.entities.insert(id, false);
            true
        }
    }

    /// Creates an entity under a fresh random identifier of
    /// [`ENTITY_ID_DIGITS`] digits and returns the identifier. An identifier
    /// that exists is drawn again, at most [`ENTITY_ID_ATTEMPTS`] times in
    /// all; after that nothing is created.
    ///
    /// Which identifier is drawn is left to chance; the first entity of a
    /// manager is always created.
    pub fn create_entity(&mut self) -> (entity: Option<u32>)
        ensures
            match entity {
                Some(id) => {
                    &&& !old(self)@.contains_key(id)
                    &&& 0 < id < 10000
                    &&& final(self)@ == old(self)@.insert(id, false)
                },
                None => final(self)@ == old(self)@ && old(self)@.dom().len() > 0,
            },
    {
        broadcast use vstd::std_specs::hash::group_hash_axioms;

        let mut attempt: u32 = 0;
        while attempt < ENTITY_ID_ATTEMPTS
            invariant
                self@ == old(self)@,
                attempt <= ENTITY_ID_ATTEMPTS,
                attempt > 0 ==> old(self)@.dom().len() > 0,
                old(self)@.dom().finite(),
            decreases ENTITY_ID_ATTEMPTS - attempt,
        {
            let id = Uid::new_numerical(ENTITY_ID_DIGITS);
            proof {
                reveal_with_fuel(crate::uid::pow10, 5);
            }
            if self.create_entity_as(id) {
                return Some(id);
            }
            proof {
                assert(old(self)@.dom().contains(id));
                if old(self)@.dom().len() == 0 {
                    old(self)@.dom().lemma_len0_is_empty();
                }
            }
            attempt += 1;
        }
        None
    }

    /// Creates up to `n` entities and returns their identifiers in the order
    /// of creation. Creation stops early where no free identifier is drawn.
    pub fn create_n_entities(&mut self, n: i32) -> (created: Vec<u32>)
        ensures
            created@.len() <= n || created@.len() == 0,
            created@.no_duplicates(),
            forall|i: int|
                0 <= i < created@.len() ==> !old(self)@.contains_key(#[trigger] created@[i]) && 0
                    < created@[i] < 10000,
            final(self)@.dom() == old(self)@.dom().union(created@.to_set()),
            forall|entity: u32| #[trigger]
                final(self)@.contains_key(entity) ==> final(self)@[entity] == (if old(
                    self,
                )@.contains_key(entity) {
                    old(self)@[entity]
                } else {
                    false
                }),
            n > 0 && old(self)@.dom().len() == 0 ==> created@.len() >= 1,
    {
        broadcast use vstd::std_specs::hash::group_hash_axioms;

        let mut entities: Vec<u32> = Vec::new();
        let mut i: i32 = 0;
        assert(old(self)@.dom().union(entities@.to_set()) =~= old(self)@.dom());
        while i < n
            invariant
                0 <= i,
                entities@.len() == i,
                i <= n || i == 0,
                entities@.no_duplicates(),
                forall|k: int|
                    0 <= k < entities@.len() ==> !old(self)@.contains_key(#[trigger] entities@[k])
                        && 0 < entities@[k] < 10000,
                self@.dom() == old(self)@.dom().union(entities@.to_set()),
                forall|entity: u32| #[trigger]
                    self@.contains_key(entity) ==> self@[entity] == (if old(self)@.contains_key(
                        entity,
                    ) {
                        old(self)@[entity]
                    } else {
                        false
                    }),
            decreases n - i,
        {
            let ghost before = self@;
            let ghost listed = entities@;
            match self.create_entity() {
                Some(entity) => {
                    entities.push(entity);
                    proof {
                        assert(!listed.to_set().contains(entity));
                        assert(!listed.contains(entity));
                        assert(entities@.to_set() =~= listed.to_set().insert(entity)) by {
                            assert forall|e: u32|
                                entities@.to_set().contains(e) <==> listed.to_set().insert(
                                    entity,
                                ).contains(e) by {
                                if entities@.contains(e) {
                                    let k = choose|k: int| 0 <= k < entities@.len() && entities@[k] == e;
                                    if k < listed.len() {
                                        assert(listed[k] == e);
                                    }
                                }
                                if listed.contains(e) {
                                    let k = choose|k: int| 0 <= k < listed.len() && listed[k] == e;
                                    assert(entities@[k] == e);
                                }
                                if e == entity {
                                    assert(entities@[listed.len() as int] == e);
                                }
                            }
                        }
                        assert(self@.dom() =~= old(self)@.dom().union(entities@.to_set()));
                        assert forall|a: int, b: int|
                            0 <= a < entities@.len() && 0 <= b < entities@.len() && a
                                != b implies entities@[a] != entities@[b] by {
                            if a < listed.len() {
                                assert(listed.contains(listed[a]));
                            }
                            if b < listed.len() {
                                assert(listed.contains(listed[b]));
                            }
                        }
                    }
                },
                None => {
                    proof {
                        if i == 0 {
                            assert(entities@.to_set() =~= Set::<u32>::empty());
                            assert(self@.dom() =~= old(self)@.dom());
                        }
                    }
                    return entities;
                },
            }
            i += 1;
        }
        entities
    }

    /// Get an entity if it exists.
    pub fn get_one(&self, entity: u32) -> (found: Option<u32>)
        ensures
            found == (if self@.contains_key(entity) {
                Some(entity)
            } else {
                None
            }),
    {
        broadcast use vstd::std_specs::hash::group_hash_axioms;

        match self.entities.get(&entity) {
            Some(_) => Some(entity),
            None => None,
        }
    }

    /// Returns all the entities, each with its removal mark.
    pub fn get_all(&self) -> (entities: &HashMap<u32, bool>)
        ensures
            entities@ == self@,
    {
        &self.entities
    }

    /// Mark entity for removal. An entity that did not exist comes into
    /// being, marked.
    pub fn mark_remove(&mut self, entity: u32)
        ensures
            final(self)@ == old(self)@.insert(entity, true),
    {
        broadcast use vstd::std_specs::hash::group_hash_axioms;

        self.entities.insert(entity, true);
    }

    /// Remove entity.
    pub fn remove_entity(&mut self, entity: u32)
        ensures
            final(self)@ == old(self)@.remove(entity),
    {
        broadcast use vstd::std_specs::hash::group_hash_axioms;

        self.entities.remove(&entity);
    }

    /// The entities that are marked for removal, each once, in no
    /// particular order.
    pub fn marked_entities(&self) -> (entities: Vec<u32>)
        ensures
            entities@.to_set() == marked(self@),
            entities@.no_duplicates(),
    {
        broadcast use vstd::std_specs::hash::group_hash_axioms;

        let mut entities: Vec<u32> = Vec::new();
        let ghost keys = spec_keys_iter(&self.entities).remaining();
        for id in it: self.entities.keys()
            invariant
                it.seq() == keys,
                keys.unref().to_set() == self@.dom(),
                keys.no_duplicates(),
                entities@.no_duplicates(),
                forall|e: u32| #[trigger]
                    entities@.contains(e) <==> marked(self@).contains(e) && exists|k: int|
                        0 <= k < it.index() && *keys[k] == e,
        {
            let ghost listed = entities@;
            let ghost at = it.index();
            assert(keys.unref()[at] == *id);
            assert(keys.unref().to_set().contains(*id));
            let flagged = match self.entities.get(id) {
                Some(flag) => *flag,
                None => false,
            };
            if flagged {
                entities.push(*id);
                proof {
                    assert(!listed.contains(*id)) by {
                        if listed.contains(*id) {
                            let k = choose|k: int| 0 <= k < at && *keys[k] == *id;
                            assert(keys[k] == keys[at]);
                        }
                    }
                    assert forall|e: u32| #[trigger]
                        entities@.contains(e) <==> marked(self@).contains(e) && exists|k: int|
                            0 <= k < at + 1 && *keys[k] == e by {
                        if entities@.contains(e) {
                            let j = choose|j: int| 0 <= j < entities@.len() && entities@[j] == e;
                            if j < listed.len() {
                                assert(listed[j] == e);
                                assert(listed.contains(e));
                                let k = choose|k: int| 0 <= k < at && *keys[k] == e;
                                assert(0 <= k < at + 1 && *keys[k] == e);
                            } else {
                                assert(*keys[at] == e);
                            }
                        }
                        if marked(self@).contains(e) && exists|k: int|
                            0 <= k < at + 1 && *keys[k] == e {
                            let k = choose|k: int| 0 <= k < at + 1 && *keys[k] == e;
                            if k < at {
                                assert(listed.contains(e));
                                let j = choose|j: int| 0 <= j < listed.len() && listed[j] == e;
                                assert(entities@[j] == e);
                            } else {
                                assert(entities@[listed.len() as int] == e);
                            }
                        }
                    }
                    assert forall|a: int, b: int|
                        0 <= a < entities@.len() && 0 <= b < entities@.len() && a
                            != b implies entities@[a] != entities@[b] by {
                        if a < listed.len() {
                            assert(listed.contains(listed[a]));
                        }
                        if b < listed.len() {
                            assert(listed.contains(listed[b]));
                        }
                    }
                }
            } else {
                proof {
                    assert forall|e: u32| #[trigger]
                        entities@.contains(e) <==> marked(self@).contains(e) && exists|k: int|
                            0 <= k < at + 1 && *keys[k] == e by {
                        if entities@.contains(e) {
                            let k = choose|k: int| 0 <= k < at && *keys[k] == e;
                            assert(0 <= k < at + 1 && *keys[k] == e);
                        }
                        if marked(self@).contains(e) && exists|k: int|
                            0 <= k < at + 1 && *keys[k] == e {
                            let k = choose|k: int| 0 <= k < at + 1 && *keys[k] == e;
                            assert(k < at);
                        }
                    }
                }
            }
        }
        proof {
            assert forall|e: u32| entities@.to_set().contains(e) <==> marked(self@).contains(e) by {
                if marked(self@).contains(e) {
                    assert(keys.unref().to_set().contains(e));
                    let k = choose|k: int| 0 <= k < keys.unref().len() && keys.unref()[k] == e;
                    assert(*keys[k] == e);
                }
            }
            assert(entities@.to_set() =~= marked(self@));
        }
        entities
    }

    /// Remove all entities that are marked for removal. The others stay as
    /// they are.
    pub fn remove_entities(&mut self)
        ensures
            final(self)@ == old(self)@.remove_keys(marked(old(self)@)),
    {
        let entities = self.marked_entities();
        let mut i: usize = 0;
        assert(entities@.take(0).to_set() =~= Set::<u32>::empty());
        assert(self@ =~= old(self)@.remove_keys(Set::<u32>::empty()));
        while i < entities.len()
            invariant
                i <= entities@.len(),
                self@ == old(self)@.remove_keys(entities@.take(i as int).to_set()),
            decreases entities@.len() - i,
        {
            let ghost done = entities@.take(i as int);
            let ghost more = entities@.take(i as int + 1);
            self.remove_entity(entities[i]);
            proof {
                assert(more =~= done.push(entities@[i as int]));
                assert(more.to_set() =~= done.to_set().insert(entities@[i as int])) by {
                    assert forall|e: u32|
                        more.to_set().contains(e) <==> done.to_set().insert(
                            entities@[i as int],
                        ).contains(e) by {
                        if more.contains(e) {
                            let k = choose|k: int| 0 <= k < more.len() && more[k] == e;
                            if k < done.len() {
                                assert(done[k] == e);
                            }
                        }
                        if done.contains(e) {
                            let k = choose|k: int| 0 <= k < done.len() && done[k] == e;
                            assert(more[k] == e);
                        }
                        if e == entities@[i as int] {
                            assert(more[i as int] == e);
                        }
                    }
                }
                assert(self@ =~= old(self)@.remove_keys(more.to_set()));
            }
            i += 1;
        }
        assert(entities@.take(entities@.len() as int) =~= entities@);
    }
}

/// `list` holds the value of every key of `map` once, in some order of the
/// keys.
pub open spec fn lists_values<V>(list: Seq<V>, map: Map<u32, V>) -> bool {
    exists|keys: Seq<u32>|
        {
            &&& keys.no_duplicates()
            &&& keys.to_set() == map.dom()
            &&& list.len() == keys.len()
            &&& forall|i: int| 0 <= i < keys.len() ==> list[i] == map[#[trigger] keys[i]]
        }
}

/// The values of a registry's components, each entity's once, in no
/// particular order.
pub fn values<V: Copy>(components: &HashMap<u32, V>) -> (list: Vec<V>)
    ensures
        lists_values(list@, components@),
{
    broadcast use vstd::std_specs::hash::group_hash_axioms;

    let mut list: Vec<V> = Vec::new();
    let ghost keys = spec_keys_iter(components).remaining();
    for entity in it: components.keys()
        invariant
            it.seq() == keys,
            keys.unref().to_set() == components@.dom(),
            list@.len() == it.index(),
            forall|i: int| 0 <= i < list@.len() ==> list@[i] == components@[*#[trigger] keys[i]],
    {
        assert(keys.unref()[it.index()] == *entity);
        assert(keys.unref().to_set().contains(*entity));
        if let Some(value) = components.get(entity) {
            list.push(*value);
        }
    }
    proof {
        let listed = keys.unref();
        assert(listed.no_duplicates()) by {
            assert forall|a: int, b: int|
                0 <= a < listed.len() && 0 <= b < listed.len() && a != b implies listed[a]
                != listed[b] by {
                assert(listed[a] == *keys[a]);
                assert(listed[b] == *keys[b]);
                if listed[a] == listed[b] {
                    assert(keys[a] == keys[b]);
                }
            }
        }
        assert forall|i: int| 0 <= i < listed.len() implies list@[i] == components@[#[trigger] listed[i]] by {
            assert(listed[i] == *keys[i]);
        }
    }
    list
}

/// Gives each of `entities` the component `component`.
pub fn insert_for_all<T: Copy>(components: &mut HashMap<u32, T>, entities: &Vec<u32>, component: T)
    ensures
        final(components)@.dom() == old(components)@.dom().union(entities@.to_set()),
        forall|entity: u32| #[trigger]
            final(components)@.contains_key(entity) ==> final(components)@[entity] == (
            if entities@.contains(entity) {
                component
            } else {
                old(components)@[entity]
            }),
{
    broadcast use vstd::std_specs::hash::group_hash_axioms;

    let mut i: usize = 0;
    assert(entities@.take(0).to_set() =~= Set::<u32>::empty());
    assert(components@.dom() =~= old(components)@.dom().union(Set::<u32>::empty()));
    while i < entities.len()
        invariant
            i <= entities@.len(),
            components@.dom() == old(components)@.dom().union(entities@.take(i as int).to_set()),
            forall|entity: u32| #[trigger]
                components@.contains_key(entity) ==> components@[entity] == (if entities@.take(
                    i as int,
                ).contains(entity) {
                    component
                } else {
                    old(components)@[entity]
                }),
        decreases entities@.len() - i,
    {
        let ghost done = entities@.take(i as int);
        let ghost more = entities@.take(i as int + 1);
        let ghost before = components@;
        components.insert(entities[i], component);
        proof {
            assert(more =~= done.push(entities@[i as int]));
            assert forall|e: u32| more.contains(e) <==> done.contains(e) || e == entities@[i as int] by {
                if more.contains(e) {
                    let k = choose|k: int| 0 <= k < more.len() && more[k] == e;
                    if k < done.len() {
                        assert(done[k] == e);
                    }
                }
                if done.contains(e) {
                    let k = choose|k: int| 0 <= k < done.len() && done[k] == e;
                    assert(more[k] == e);
                }
                if e == entities@[i as int] {
                    assert(more[i as int] == e);
                }
            }
            assert(more.to_set() =~= done.to_set().insert(entities@[i as int]));
            assert(components@.dom() =~= old(components)@.dom().union(more.to_set()));
        }
        i += 1;
    }
    assert(entities@.take(entities@.len() as int) =~= entities@);
}

/// Component registry: the components of one kind, by entity.
pub trait ComponentRegistry<T: Copy>: Sized {
    /// The component of each entity that has one.
    spec fn components(&self) -> Map<u32, T>;

    /// An empty registry.
    fn new() -> (registry: Self)
        ensures
            registry.components() == Map::<u32, T>::empty(),
    ;

    /// Gives `entity` the component, in place of the one it had.
    fn add(&mut self, entity: u32, component: T)
        ensures
            final(self).components() == old(self).components().insert(entity, component),
    ;

    /// Gives each of the entities the component.
    fn add_many(&mut self, entities: &Vec<u32>, component: T)
        ensures
            final(self).components().dom() == old(self).components().dom().union(
                entities@.to_set(),
            ),
            forall|entity: u32| #[trigger]
                final(self).components().contains_key(entity) ==> final(self).components()[entity]
                    == (if entities@.contains(entity) {
                    component
                } else {
                    old(self).components()[entity]
                }),
    ;

    /// Takes the component of `entity` away.
    fn remove(&mut self, entity: u32)
        ensures
            final(self).components() == old(self).components().remove(entity),
    ;

    /// The component of `entity`, if it has one.
    fn get(&self, entity: u32) -> (component: Option<&T>)
        ensures
            match component {
                Some(found) => self.components().contains_key(entity) && *found
                    == self.components()[entity],
                None => !self.components().contains_key(entity),
            },
    ;
}

} // verus!
