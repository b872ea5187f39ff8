//! The host world, modeled as plain data.
//!
//! The entity/component storage this library drives is an external
//! collaborator; the library needs only a narrow interface from it:
//! create an entity, attach a child, insert a component value, read a
//! component, look an entity up by name, and hold per-entity auxiliary
//! state. This module provides exactly that interface over plain values,
//! together with the runtime type registry and an instrumentation counter
//! of registry resolutions (the static construction path performs none).

use vstd::prelude::*;
use vstd::pervasive::VecAdditionalExecFns;

use crate::keyed::KeyedTable;
use crate::props::{PropVal, Props, PropsModel, ValModel};
use crate::registry::{RegData, Registry, RegistryModel};

verus! {

/// The type identity under which an entity's name is stored.
pub const NAME_TYPE_KEY: u64 = 1;

/// The field of the name component holding the name text.
pub const NAME_FIELD: u64 = 0;

/// An entity: an index into the world's entity store.
#[derive(Clone, Copy, PartialEq, Eq, Structural, Debug, Hash)]
pub struct Entity {
    /// The index of the entity.
    pub index: usize,
}

impl DeepView for Entity {
    type V = int;

    open spec fn deep_view(&self) -> int {
        self.index as int
    }
}

/// One entity's state.
#[derive(Debug)]
pub struct EntityRec {
    /// The components on the entity, keyed by type identity.
    pub components: KeyedTable<Props>,
    /// The retained props overlay: per constructed type, the last props
    /// value a hot patch applied, kept as the base for the next one.
    pub retained: KeyedTable<Props>,
    /// Invocation identities of reloadable scenes constructed on this
    /// entity.
    pub hot_tags: Vec<u64>,
    /// The children attached beneath this entity.
    pub children: Vec<Entity>,
}

/// The mathematical image of one entity.
#[verifier::ext_equal]
pub struct EntityModel {
    /// The components, keyed by type identity.
    pub components: Map<u64, PropsModel>,
    /// The retained props overlay, keyed by type identity.
    pub retained: Map<u64, PropsModel>,
    /// Invocation identities tagged on the entity.
    pub hot_tags: Seq<u64>,
    /// The children, by entity index.
    pub children: Seq<int>,
}

impl DeepView for EntityRec {
    type V = EntityModel;

    open spec fn deep_view(&self) -> EntityModel {
        EntityModel {
            components: self.components.deep_view(),
            retained: self.retained.deep_view(),
            hot_tags: self.hot_tags@,
            children: self.children.deep_view(),
        }
    }
}

/// A table of props values is well-formed when the table itself and every
/// stored props value are.
pub open spec fn props_table_wf(t: KeyedTable<Props>) -> bool {
    t.wf() && forall|i: int| 0 <= i < t.recs@.len() ==> (#[trigger] t.recs@[i]).value.wf()
}

impl EntityRec {
    /// Well-formed: both tables and their stored props values are.
    pub open spec fn wf(self) -> bool {
        props_table_wf(self.components) && props_table_wf(self.retained)
    }

    /// Creates an entity record with nothing on it.
    pub fn empty() -> (r: EntityRec)
        ensures
            r.wf(),
            r.deep_view() == empty_entity(),
    {
        let r = EntityRec {
            components: KeyedTable::new(),
            retained: KeyedTable::new(),
            hot_tags: Vec::new(),
            children: Vec::new(),
        };
        proof {
            assert(r.deep_view() =~~= empty_entity());
        }
        r
    }
}

/// The image of a freshly created entity.
pub open spec fn empty_entity() -> EntityModel {
    EntityModel {
        components: Map::empty(),
        retained: Map::empty(),
        hot_tags: Seq::empty(),
        children: Seq::empty(),
    }
}

/// The host world.
#[derive(Debug)]
pub struct World {
    /// The entities; an [`Entity`] indexes this store.
    pub entities: Vec<EntityRec>,
    /// The host resources present, by identity.
    pub resources: Vec<u64>,
    /// The runtime type registry.
    pub registry: Registry,
    /// How many registry resolutions construction has performed; saturates.
    pub lookups: u64,
}

/// The mathematical image of the world.
#[verifier::ext_equal]
pub struct WorldModel {
    /// The entities, by index.
    pub entities: Seq<EntityModel>,
    /// The resources present.
    pub resources: Seq<u64>,
    /// The registry image.
    pub registry: RegistryModel,
    /// The registry-resolution count.
    pub lookups: u64,
}

impl View for World {
    type V = WorldModel;

    open spec fn view(&self) -> WorldModel {
        WorldModel {
            entities: self.entities.deep_view(),
            resources: self.resources@,
            registry: self.registry.deep_view(),
            lookups: self.lookups,
        }
    }
}

/// The name of an entity, read from its name component.
pub open spec fn entity_name(e: EntityModel) -> Option<Seq<char>> {
    if e.components.contains_key(NAME_TYPE_KEY)
        && e.components[NAME_TYPE_KEY].contains_key(NAME_FIELD) {
        match e.components[NAME_TYPE_KEY][NAME_FIELD] {
            ValModel::Text(s) => Some(s),
            _ => None,
        }
    } else {
        None
    }
}

/// The first entity at or after `i` whose name is `name`.
pub open spec fn first_named_from(es: Seq<EntityModel>, name: Seq<char>, i: int) -> Option<int>
    decreases es.len() - i,
{
    if i < 0 || i >= es.len() {
        None
    } else if entity_name(es[i]) == Some(name) {
        Some(i)
    } else {
        first_named_from(es, name, i + 1)
    }
}

/// The saturating bump of the lookup counter.
pub open spec fn bumped(l: u64) -> u64 {
    if l < u64::MAX { (l + 1) as u64 } else { l }
}

/// The world image after a new empty entity is created.
pub open spec fn spawned(w: WorldModel) -> WorldModel {
    WorldModel { entities: w.entities.push(empty_entity()), ..w }
}

/// The world image after `child` is attached beneath entity `i`.
pub open spec fn with_child(w: WorldModel, i: int, child: int) -> WorldModel {
    WorldModel {
        entities: w.entities.update(
            i,
            EntityModel { children: w.entities[i].children.push(child), ..w.entities[i] },
        ),
        ..w
    }
}

/// The world image after component `type_key` on entity `i` becomes `v`.
pub open spec fn with_component(w: WorldModel, i: int, type_key: u64, v: PropsModel) -> WorldModel {
    WorldModel {
        entities: w.entities.update(
            i,
            EntityModel {
                components: w.entities[i].components.insert(type_key, v),
                ..w.entities[i]
            },
        ),
        ..w
    }
}

/// The world image after the retained props for `type_key` on entity `i`
/// become `v`.
pub open spec fn with_retained(w: WorldModel, i: int, type_key: u64, v: PropsModel) -> WorldModel {
    WorldModel {
        entities: w.entities.update(
            i,
            EntityModel { retained: w.entities[i].retained.insert(type_key, v), ..w.entities[i] },
        ),
        ..w
    }
}

/// The world image after invocation identity `id` is tagged on entity `i`.
pub open spec fn with_tag(w: WorldModel, i: int, id: u64) -> WorldModel {
    if w.entities[i].hot_tags.contains(id) {
        w
    } else {
        WorldModel {
            entities: w.entities.update(
                i,
                EntityModel { hot_tags: w.entities[i].hot_tags.push(id), ..w.entities[i] },
            ),
            ..w
        }
    }
}

/// The world image after one registry resolution is counted.
pub open spec fn with_lookup(w: WorldModel) -> WorldModel {
    WorldModel { lookups: bumped(w.lookups), ..w }
}

impl World {
    /// Well-formed: the registry and every entity are.
    pub open spec fn wf(self) -> bool {
        &&& self.registry.wf()
        &&& self.registry.all_wf()
        &&& forall|i: int| 0 <= i < self.entities@.len() ==> (#[trigger] self.entities@[i]).wf()
    }

    /// Creates a world with no entities and an empty registry.
    pub fn new() -> (w: World)
        ensures
            w.wf(),
            w@.entities == Seq::<EntityModel>::empty(),
            w@.resources == Seq::<u64>::empty(),
            w@.registry == Map::<u64, crate::registry::RegDataModel>::empty(),
            w@.lookups == 0,
    {
        let w = World {
            entities: Vec::new(),
            resources: Vec::new(),
            registry: KeyedTable::new(),
            lookups: 0,
        };
        proof {
            assert(w@.entities =~= Seq::<EntityModel>::empty());
        }
        w
    }

    /// Creates a new empty entity and returns it.
    pub fn spawn_empty(&mut self) -> (e: Entity)
        requires
            old(self).wf(),
        ensures
            final(self).wf(),
            final(self).registry == old(self).registry,
            final(self)@ == spawned(old(self)@),
            e.index == old(self)@.entities.len(),
    {
        let e = Entity { index: self.entities.len() };
        self.entities.push(EntityRec::empty());
        proof {
            assert(self@ =~~= spawned(old(self)@));
        }
        e
    }

    /// Attaches `child` beneath `parent`.
    pub fn add_child(&mut self, parent: Entity, child: Entity)
        requires
            old(self).wf(),
            parent.index < old(self)@.entities.len(),
        ensures
            final(self).wf(),
            final(self).registry == old(self).registry,
            final(self)@ == with_child(old(self)@, parent.index as int, child.index as int),
    {
        let mut slot = EntityRec::empty();
        self.entities.set_and_swap(parent.index, &mut slot);
        slot.children.push(child);
        self.entities.set_and_swap(parent.index, &mut slot);
        proof {
            assert(self@ =~~= with_child(old(self)@, parent.index as int, child.index as int));
        }
    }

    /// Inserts (or overwrites) the component of type `type_key` on `e`.
    pub fn insert_component(&mut self, e: Entity, type_key: u64, value: Props)
        requires
            old(self).wf(),
            e.index < old(self)@.entities.len(),
            value.wf(),
        ensures
            final(self).wf(),
            final(self).registry == old(self).registry,
            final(self)@ == with_component(old(self)@, e.index as int, type_key, value.deep_view()),
    {
        let ghost v = value.deep_view();
        let mut slot = EntityRec::empty();
        self.entities.set_and_swap(e.index, &mut slot);
        slot.components.set(type_key, value);
        self.entities.set_and_swap(e.index, &mut slot);
        proof {
            assert(forall|i: int| 0 <= i < self.entities@.len()
                ==> (#[trigger] self.entities@[i]).wf());
            assert(self@ =~~= with_component(old(self)@, e.index as int, type_key, v));
        }
    }

    /// Returns the component of type `type_key` on `e`, if present.
    pub fn get_component(&self, e: Entity, type_key: u64) -> (r: Option<&Props>)
        requires
            self.wf(),
            e.index < self@.entities.len(),
        ensures
            match r {
                Some(p) => p.wf()
                    && self@.entities[e.index as int].components.contains_key(type_key)
                    && p.deep_view() == self@.entities[e.index as int].components[type_key],
                None => !self@.entities[e.index as int].components.contains_key(type_key),
            },
    {
        self.entities[e.index].components.get(type_key)
    }

    /// Returns the retained props for `type_key` on `e`, if present.
    pub fn get_retained(&self, e: Entity, type_key: u64) -> (r: Option<&Props>)
        requires
            self.wf(),
            e.index < self@.entities.len(),
        ensures
            match r {
                Some(p) => p.wf()
                    && self@.entities[e.index as int].retained.contains_key(type_key)
                    && p.deep_view() == self@.entities[e.index as int].retained[type_key],
                None => !self@.entities[e.index as int].retained.contains_key(type_key),
            },
    {
        self.entities[e.index].retained.get(type_key)
    }

    /// Stores the retained props for `type_key` on `e`.
    pub fn set_retained(&mut self, e: Entity, type_key: u64, value: Props)
        requires
            old(self).wf(),
            e.index < old(self)@.entities.len(),
            value.wf(),
        ensures
            final(self).wf(),
            final(self).registry == old(self).registry,
            final(self)@ == with_retained(old(self)@, e.index as int, type_key, value.deep_view()),
    {
        let ghost v = value.deep_view();
        let mut slot = EntityRec::empty();
        self.entities.set_and_swap(e.index, &mut slot);
        slot.retained.set(type_key, value);
        self.entities.set_and_swap(e.index, &mut slot);
        proof {
            assert(forall|i: int| 0 <= i < self.entities@.len()
                ==> (#[trigger] self.entities@[i]).wf());
            assert(self@ =~~= with_retained(old(self)@, e.index as int, type_key, v));
        }
    }

    /// Tags invocation identity `id` on `e`.
    pub fn tag_hot(&mut self, e: Entity, id: u64)
        requires
            old(self).wf(),
            e.index < old(self)@.entities.len(),
        ensures
            final(self).wf(),
            final(self).registry == old(self).registry,
            final(self)@ == with_tag(old(self)@, e.index as int, id),
    {
        let mut slot = EntityRec::empty();
        self.entities.set_and_swap(e.index, &mut slot);
        if !contains_u64(&slot.hot_tags, id) {
            slot.hot_tags.push(id);
        }
        self.entities.set_and_swap(e.index, &mut slot);
        proof {
            assert(self@ =~~= with_tag(old(self)@, e.index as int, id));
        }
    }

    /// Whether resource `key` is present.
    pub fn has_resource(&self, key: u64) -> (b: bool)
        ensures
            b == self@.resources.contains(key),
    {
        contains_u64(&self.resources, key)
    }

    /// Makes resource `key` present.
    pub fn add_resource(&mut self, key: u64)
        requires
            old(self).wf(),
        ensures
            final(self).wf(),
            final(self)@ == (WorldModel { resources: old(self)@.resources.push(key), ..old(self)@ }),
            final(self)@.resources.contains(key),
    {
        self.resources.push(key);
        proof {
            assert(self@ =~~= (WorldModel { resources: old(self)@.resources.push(key), ..old(self)@ }));
            assert(self@.resources.last() == key);
        }
    }

    /// Counts one registry resolution; the counter saturates.
    pub fn count_lookup(&mut self)
        requires
            old(self).wf(),
        ensures
            final(self).wf(),
            final(self).registry == old(self).registry,
            final(self)@ == with_lookup(old(self)@),
    {
        if self.lookups < u64::MAX {
            self.lookups = self.lookups + 1;
        }
        proof {
            assert(self@ =~~= with_lookup(old(self)@));
        }
    }

    /// The number of entities in the world.
    pub fn entity_count(&self) -> (n: usize)
        ensures
            n == self@.entities.len(),
    {
        self.entities.len()
    }

    /// Whether invocation identity `id` is tagged on `e`.
    pub fn has_tag(&self, e: Entity, id: u64) -> (b: bool)
        requires
            self.wf(),
            e.index < self@.entities.len(),
        ensures
            b == self@.entities[e.index as int].hot_tags.contains(id),
    {
        contains_u64(&self.entities[e.index].hot_tags, id)
    }

    /// Resolves a component type against the registry: the type must be
    /// registered, declare construction, and be insertable. Returns its
    /// construction capability, or nothing when resolution fails.
    pub fn resolve_type(&self, type_key: u64) -> (r: Option<crate::registry::ReflectConstruct>)
        requires
            self.wf(),
        ensures
            match r {
                Some(rc) => crate::registry::resolves(self@.registry, type_key) && rc.wf()
                    && Some(rc.deep_view()) == self@.registry[type_key].construct,
                None => !crate::registry::resolves(self@.registry, type_key),
            },
    {
        match self.registry.get(type_key) {
            Some(data) => {
                proof {
                    let i = choose|i: int| 0 <= i < self.registry.recs@.len()
                        && (#[trigger] self.registry.recs@[i]).key == type_key
                        && *data == self.registry.recs@[i].value;
                    assert(self.registry.recs@[i].value.wf());
                }
                if data.insertable {
                    match &data.construct {
                        Some(rc) => Some(rc.duplicate()),
                        None => None,
                    }
                } else {
                    None
                }
            },
            None => None,
        }
    }

    /// Returns the first entity whose name component holds `name`, or
    /// nothing when no entity carries that name.
    pub fn resolve_name(&self, name: &String) -> (r: Option<Entity>)
        requires
            self.wf(),
        ensures
            match r {
                Some(e) => e.index < self@.entities.len()
                    && Some(e.index as int) == first_named_from(self@.entities, name@, 0),
                None => first_named_from(self@.entities, name@, 0) is None,
            },
    {
        let n = self.entities.len();
        for i in 0..n
            invariant
                n == self@.entities.len(),
                self.wf(),
                first_named_from(self@.entities, name@, 0)
                    == first_named_from(self@.entities, name@, i as int),
        {
            let named = match self.entities[i].components.get(NAME_TYPE_KEY) {
                Some(p) => match p.get(NAME_FIELD) {
                    Some(PropVal::Text(s)) => s.eq(name),
                    _ => false,
                },
                None => false,
            };
            proof {
                assert(self.entities@[i as int].deep_view() == self@.entities[i as int]);
                assert(named == (entity_name(self@.entities[i as int]) == Some(name@)));
            }
            if named {
                return Some(Entity { index: i });
            }
        }
        None
    }
}

/// Whether a plain list contains `key`.
fn contains_u64(v: &Vec<u64>, key: u64) -> (b: bool)
    ensures
        b == v@.contains(key),
{
    let n = v.len();
    for i in 0..n
        invariant
            n == v@.len(),
            forall|j: int| 0 <= j < i ==> v@[j] != key,
    {
        if v[i] == key {
            return true;
        }
    }
    false
}

} // verus!
