//! A world of entities that own lists of components.

use std::collections::HashMap;
use vstd::prelude::*;
use vstd::std_specs::hash::spec_keys_iter;
use vstd::std_specs::iter::IteratorSpec;

verus! {

/// An entity: its number.
#[derive(Debug, Clone, Copy, PartialEq, Eq, Structural)]
pub struct Entity(pub u32);

/// The kind of a component.
#[derive(PartialEq, Eq, Debug, Clone, Copy, Structural)]
pub enum Type {
    Default,
    Other,
}

impl Type {
    /// The kind of a component that names none.
    pub fn default() -> (kind: Type)
        ensures
            kind == Type::Default,
    {
        Type::Default
    }
}

/// A component: a piece of data of an entity that changes with every
/// update.
pub trait Component {
    /// The data of the component, as it prints.
    spec fn data(&self) -> Seq<char>;

    /// The data after an update on `input`.
    spec fn data_after(&self, input: u32) -> Seq<char>;

    /// The name of the component.
    spec fn name(&self) -> Seq<char>;

    /// The kind of the component.
    spec fn kind(&self) -> Type;

    /// Updates the data on one tick's input. Name and kind stay.
    fn update(&mut self, input: u32)
        ensures
            final(self).data() == old(self).data_after(input),
            final(self).name() == old(self).name(),
            final(self).kind() == old(self).kind(),
    ;

    /// The data of the component.
    fn print(&self) -> (text: String)
        ensures
            text@ == self.data(),
    ;

    /// The name of the component.
    fn component_name(&self) -> (name: String)
        ensures
            name@ == self.name(),
    ;

    /// The kind of the component.
    fn ctype(&self) -> (kind: Type)
        ensures
            kind == self.kind(),
    ;
}

/// A query: the kinds of component that an entity must have.
pub struct Query(pub Vec<Type>);

impl Query {
    /// The query that every entity with components answers.
    pub fn new() -> (query: Self)
        ensures
            query.0@ == Seq::<Type>::empty(),
    {
        Self(Vec::new())
    }

    /// The query for entities that have a component of each of `types`.
    pub fn from(types: Vec<Type>) -> (query: Self)
        ensures
            query.0 == types,
    {
        Self(types)
    }
}

/// Whether a list of components holds one of kind `kind`.
pub open spec fn has_kind<C: Component>(components: Seq<C>, kind: Type) -> bool {
    exists|i: int| 0 <= i < components.len() && (#[trigger] components[i]).kind() == kind
}

/// Whether a list of components holds one of each of `kinds`.
pub open spec fn answers<C: Component>(components: Seq<C>, kinds: Seq<Type>) -> bool {
    forall|k: int| 0 <= k < kinds.len() ==> has_kind(components, #[trigger] kinds[k])
}

/// Whether `after` is the list `before` with every component updated on
/// `input`.
pub open spec fn all_updated<C: Component>(
    before: Seq<C>,
    input: u32,
    after: Seq<C>,
) -> bool {
    &&& after.len() == before.len()
    &&& forall|i: int|
        0 <= i < before.len() ==> {
            &&& (#[trigger] after[i]).data() == before[i].data_after(input)
            &&& after[i].name() == before[i].name()
            &&& after[i].kind() == before[i].kind()
        }
}

/// The world: its entities, numbered from zero in the order in which they
/// were added, and the components of those that have any. `C` is the type
/// of the components.
pub struct World<C: Component> {
    pub entity_manager: Vec<Entity>,
    pub component_manager: HashMap<u32, Vec<C>>,
}

impl<C: Component> World<C> {
    /// The components of `entity`; none if it has no list.
    pub open spec fn components_of(&self, entity: u32) -> Seq<C> {
        if self.component_manager@.contains_key(entity) {
            self.component_manager@[entity]@
        } else {
            Seq::empty()
        }
    }

    /// An empty world.
    pub fn new() -> (world: World<C>)
        ensures
            world.entity_manager@ == Seq::<Entity>::empty(),
            world.component_manager@ == Map::<u32, Vec<C>>::empty(),
    {
        World { entity_manager: Vec::new(), component_manager: HashMap::new() }
    }

    /// Updates the components of one entity on `input`.
    pub fn update_entity(&mut self, entity: u32, input: u32)
        ensures
            final(self).entity_manager == old(self).entity_manager,
            final(self).component_manager@.dom() == old(self).component_manager@.dom(),
            forall|other: u32|
                other != entity && old(self).component_manager@.contains_key(other) ==> (
                #[trigger] final(self).component_manager@[other]) == old(
                    self,
                ).component_manager@[other],
            old(self).component_manager@.contains_key(entity) ==> all_updated(
                old(self).component_manager@[entity]@,
                input,
                final(self).component_manager@[entity]@,
            ),
    {
        broadcast use vstd::std_specs::hash::group_hash_axioms;

        let mut components = match self.component_manager.remove(&entity) {
            Some(components) => components,
            None => {
                assert(self.component_manager@ =~= old(self).component_manager@);
                return ;
            },
        };
        let ghost before = components@;
        let mut i: usize = 0;
        while i < components.len()
            invariant
                i <= components@.len(),
                components@.len() == before.len(),
                forall|k: int|
                    0 <= k < i ==> {
                        &&& (#[trigger] components@[k]).data() == before[k].data_after(input)
                        &&& components@[k].name() == before[k].name()
                        &&& components@[k].kind() == before[k].kind()
                    },
                forall|k: int| i <= k < before.len() ==> components@[k] == before[k],
            decreases components@.len() - i,
        {
            let component = &mut components[i];
            component.update(input);
            i += 1;
        }
        self.component_manager.insert(entity, components);
        assert(self.component_manager@.dom() =~= old(self).component_manager@.dom());
    }

    /// Updates every component of every entity on `input`.
    pub fn update(&mut self, input: u32)
        ensures
            final(self).entity_manager == old(self).entity_manager,
            final(self).component_manager@.dom() == old(self).component_manager@.dom(),
            forall|entity: u32| #[trigger]
                old(self).component_manager@.contains_key(entity) ==> all_updated(
                    old(self).component_manager@[entity]@,
                    input,
                    final(self).component_manager@[entity]@,
                ),
    {
        broadcast use vstd::std_specs::hash::group_hash_axioms;

        let mut entities: Vec<u32> = Vec::new();
        let ghost keys = spec_keys_iter(&self.component_manager).remaining();
        for entity in it: self.component_manager.keys()
            invariant
                it.seq() == keys,
                entities@.len() == it.index(),
                forall|i: int| 0 <= i < entities@.len() ==> entities@[i] == *#[trigger] keys[i],
        {
            entities.push(*entity);
        }
        assert(entities@ =~= keys.unref());
        let mut i: usize = 0;
        while i < entities.len()
            invariant
                i <= entities@.len(),
                entities@.no_duplicates(),
                entities@.to_set() == old(self).component_manager@.dom(),
                self.entity_manager == old(self).entity_manager,
                self.component_manager@.dom() == old(self).component_manager@.dom(),
                forall|k: int|
                    0 <= k < i ==> all_updated(
                        old(self).component_manager@[#[trigger] entities@[k]]@,
                        input,
                        self.component_manager@[entities@[k]]@,
                    ),
                forall|k: int|
                    i <= k < entities@.len() ==> self.component_manager@[#[trigger] entities@[k]]
                        == old(self).component_manager@[entities@[k]],
            decreases entities@.len() - i,
        {
            assert(entities@.to_set().contains(entities@[i as int]));
            let ghost previous = self.component_manager@;
            self.update_entity(entities[i], input);
            proof {
                assert forall|k: int| 0 <= k < i implies all_updated(
                    old(self).component_manager@[#[trigger] entities@[k]]@,
                    input,
                    self.component_manager@[entities@[k]]@,
                ) by {
                    assert(entities@.to_set().contains(entities@[k]));
                    assert(self.component_manager@[entities@[k]] == previous[entities@[k]]);
                }
                assert forall|k: int| i + 1 <= k < entities@.len() implies self.component_manager@[#[trigger] entities@[k]]
                    == old(self).component_manager@[entities@[k]] by {
                    assert(entities@.to_set().contains(entities@[k]));
                    assert(self.component_manager@[entities@[k]] == previous[entities@[k]]);
                }
            }
            i += 1;
        }
        proof {
            assert forall|entity: u32| #[trigger]
                old(self).component_manager@.contains_key(entity) implies all_updated(
                old(self).component_manager@[entity]@,
                input,
                self.component_manager@[entity]@,
            ) by {
                assert(entities@.to_set().contains(entity));
                let k = choose|k: int| 0 <= k < entities@.len() && entities@[k] == entity;
                assert(all_updated(
                    old(self).component_manager@[entities@[k]]@,
                    input,
                    self.component_manager@[entities@[k]]@,
                ));
            }
        }
    }

    /// Adds an entity and returns its number: the number of entities added
    /// before it, in 32 bits.
    pub fn add_entity(&mut self) -> (id: u32)
        ensures
            id == old(self).entity_manager@.len() as u32,
            final(self).entity_manager@ == old(self).entity_manager@.push(Entity(id)),
            final(self).component_manager == old(self).component_manager,
    {
        let entity = Entity(#[verifier::truncate] (self.entity_manager.len() as u32));
        let id = entity.0;
        self.entity_manager.push(entity);
        id
    }

    /// Gives `entity` the components, after those it has, in their order.
    pub fn add_components(&mut self, entity: u32, components: Vec<C>)
        ensures
            final(self).entity_manager == old(self).entity_manager,
            final(self).component_manager@.dom() == old(self).component_manager@.dom().insert(
                entity,
            ),
            final(self).components_of(entity) == old(self).components_of(entity) + components@,
            forall|other: u32|
                other != entity && old(self).component_manager@.contains_key(other) ==> (
                #[trigger] final(self).component_manager@[other]) == old(
                    self,
                ).component_manager@[other],
    {
        broadcast use vstd::std_specs::hash::group_hash_axioms;

        let mut components = components;
        let mut entry = match self.component_manager.remove(&entity) {
            Some(entry) => entry,
            None => Vec::new(),
        };
        entry.append(&mut components);
        self.component_manager.insert(entity, entry);
        assert(self.component_manager@.dom() =~= old(self).component_manager@.dom().insert(entity));
    }

    /// Gives `entity` the component, after those it has.
    pub fn add_component(&mut self, entity: u32, component: C)
        ensures
            final(self).entity_manager == old(self).entity_manager,
            final(self).component_manager@.dom() == old(self).component_manager@.dom().insert(
                entity,
            ),
            final(self).components_of(entity) == old(self).components_of(entity).push(component),

            forall|other: u32|
                other != entity && old(self).component_manager@.contains_key(other) ==> (
                #[trigger] final(self).component_manager@[other]) == old(
                    self,
                ).component_manager@[other],
    {
        broadcast use vstd::std_specs::hash::group_hash_axioms;

        let mut entry = match self.component_manager.remove(&entity) {
            Some(entry) => entry,
            None => Vec::new(),
        };
        entry.push(component);
        self.component_manager.insert(entity, entry);
        assert(self.component_manager@.dom() =~= old(self).component_manager@.dom().insert(entity));
    }

    /// Whether the components hold one of kind `kind`.
    pub fn holds_kind(components: &Vec<C>, kind: Type) -> (found: bool)
        ensures
            found == has_kind(components@, kind),
    {
        let mut i: usize = 0;
        while i < components.len()
            invariant
                i <= components@.len(),
                forall|k: int| 0 <= k < i ==> (#[trigger] components@[k]).kind() != kind,
            decreases components@.len() - i,
        {
            if components[i].ctype() == kind {
                return true;
            }
            i += 1;
        }
        false
    }

    /// Whether the components hold one of each kind that the query names.
    pub fn answers_query(components: &Vec<C>, query: &Query) -> (found: bool)
        ensures
            found == answers(components@, query.0@),
    {
        let mut k: usize = 0;
        while k < query.0.len()
            invariant
                k <= query.0@.len(),
                forall|j: int| 0 <= j < k ==> has_kind(components@, #[trigger] query.0@[j]),
            decreases query.0@.len() - k,
        {
            if !Self::holds_kind(components, query.0[k]) {
                return false;
            }
            k += 1;
        }
        true
    }

    /// The entities that have a component of each kind that the query names,
    /// each once, in no particular order.
    pub fn query(&self, query: Query) -> (entities: Vec<u32>)
        ensures
            entities@.no_duplicates(),
            forall|entity: u32|
                entities@.contains(entity) <==> self.component_manager@.contains_key(entity)
                    && answers(self.component_manager@[entity]@, query.0@),
    {
        broadcast use vstd::std_specs::hash::group_hash_axioms;

        let mut entities: Vec<u32> = Vec::new();
        let ghost keys = spec_keys_iter(&self.component_manager).remaining();
        for id in it: self.component_manager.keys()
            invariant
                it.seq() == keys,
                keys.unref().to_set() == self.component_manager@.dom(),
                keys.no_duplicates(),
                entities@.no_duplicates(),
                forall|e: u32| #[trigger]
                    entities@.contains(e) <==> self.component_manager@.contains_key(e) && answers(
                        self.component_manager@[e]@,
                        query.0@,
                    ) && exists|k: int| 0 <= k < it.index() && *keys[k] == e,
        {
            let ghost listed = entities@;
            let ghost at = it.index();
            assert(keys.unref()[at] == *id);
            assert(keys.unref().to_set().contains(*id));
            let matches = match self.component_manager.get(id) {
                Some(components) => Self::answers_query(components, &query),
                None => false,
            };
            if matches {
                entities.push(*id);
                proof {
                    assert(!listed.contains(*id)) by {
                        if listed.contains(*id) {
                            let k = choose|k: int| 0 <= k < at && *keys[k] == *id;
                            assert(keys[k] == keys[at]);
                        }
                    }
                    assert forall|e: u32| #[trigger]
                        entities@.contains(e) <==> self.component_manager@.contains_key(e)
                            && answers(self.component_manager@[e]@, query.0@) && exists|k: int|
                            0 <= k < at + 1 && *keys[k] == e by {
                        if entities@.contains(e) {
                            let j = choose|j: int| 0 <= j < entities@.len() && entities@[j] == e;
                            if j < listed.len() {
                                assert(listed[j] == e);
                                assert(listed.contains(e));
                                let k = choose|k: int| 0 <= k < at && *keys[k] == e;
                                assert(0 <= k < at + 1 && *keys[k] == e);
                            } else {
                                assert(*keys[at] == e);
                            }
                        }
                        if self.component_manager@.contains_key(e) && answers(
                            self.component_manager@[e]@,
                            query.0@,
                        ) && exists|k: int| 0 <= k < at + 1 && *keys[k] == e {
                            let k = choose|k: int| 0 <= k < at + 1 && *keys[k] == e;
                            if k < at {
                                assert(listed.contains(e));
                                let j = choose|j: int| 0 <= j < listed.len() && listed[j] == e;
                                assert(entities@[j] == e);
                            } else {
                                assert(entities@[listed.len() as int] == e);
                            }
                        }
                    }
                    assert forall|a: int, b: int|
                        0 <= a < entities@.len() && 0 <= b < entities@.len() && a
                            != b implies entities@[a] != entities@[b] by {
                        if a < listed.len() {
                            assert(listed.contains(listed[a]));
                        }
                        if b < listed.len() {
                            assert(listed.contains(listed[b]));
                        }
                    }
                }
            } else {
                proof {
                    assert forall|e: u32| #[trigger]
                        entities@.contains(e) <==> self.component_manager@.contains_key(e)
                            && answers(self.component_manager@[e]@, query.0@) && exists|k: int|
                            0 <= k < at + 1 && *keys[k] == e by {
                        if entities@.contains(e) {
                            let k = choose|k: int| 0 <= k < at && *keys[k] == e;
                            assert(0 <= k < at + 1 && *keys[k] == e);
                        }
                        if self.component_manager@.contains_key(e) && answers(
                            self.component_manager@[e]@,
                            query.0@,
                        ) && exists|k: int| 0 <= k < at + 1 && *keys[k] == e {
                            let k = choose|k: int| 0 <= k < at + 1 && *keys[k] == e;
                            assert(k < at);
                        }
                    }
                }
            }
        }
        proof {
            assert forall|e: u32|
                entities@.contains(e) <==> self.component_manager@.contains_key(e) && answers(
                    self.component_manager@[e]@,
                    query.0@,
                ) by {
                if self.component_manager@.contains_key(e) {
                    assert(keys.unref().to_set().contains(e));
                    let k = choose|k: int| 0 <= k < keys.unref().len() && keys.unref()[k] == e;
                    assert(*keys[k] == e);
                }
            }
        }
        entities
    }
}

} // verus!

