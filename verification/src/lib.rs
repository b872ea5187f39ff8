//! A declarative scene-construction layer for an entity/component runtime.
//!
//! A scene is described as a tree of property patches
//! ([`entity_patch::EntityPatch`]). Materializing the tree either folds
//! each patch into a freshly defaulted props value and constructs once —
//! the static fast path, which never consults the runtime type registry —
//! or flattens the whole inherited tree into a
//! [`dynamic::DynamicScene`]: a registry-keyed accumulator of pending
//! patches, walked once to default, patch, construct and insert each
//! component. Hot patching ([`hot_patch`]) re-enters the same machinery
//! against live entities, basing each patch on the retained props of the
//! last one; hot reload ([`hot_reload`]) correlates re-parsed source
//! literals with the live entities they produced. The laws the pipeline
//! obeys — ordering, inheritance precedence, hot-patch memory, the
//! agreement of the two construction paths — are stated and proved in
//! [`laws`].

use vstd::prelude::*;

pub mod construct;
pub mod construct_impls;
pub mod dynamic;
pub mod entity_patch;
pub mod from_bsn;
pub mod hot_patch;
pub mod hot_reload;
pub mod keyed;
pub mod laws;
pub mod parse;
pub mod patch;
pub mod props;
pub mod registry;
pub mod world;

use crate::keyed::KeyedTable;
use crate::props::ValKind;
use crate::registry::{ConstructRule, RegData, RegDataModel, ReflectConstruct,
    ReflectConstructModel};
use crate::world::{World, NAME_FIELD, NAME_TYPE_KEY};
use vstd::string::StringExecFns;

verus! {

/// The registration of the entity-name component: self-describing (its
/// props are itself), insertable, with one text field holding the name.
pub open spec fn name_registration() -> RegDataModel {
    RegDataModel {
        path: "Name"@,
        construct: Some(
            ReflectConstructModel {
                props_key: NAME_TYPE_KEY,
                default_props: Map::empty(),
                rule: ConstructRule::Passthrough,
            },
        ),
        insertable: true,
        fields: Map::<u64, ValKind>::empty().insert(NAME_FIELD, ValKind::Text),
    }
}

/// Registers the component types the library itself relies on for
/// reflection-based dynamic scenes: the entity-name component.
pub fn register_reflect_construct(world: &mut World)
    requires
        old(world).wf(),
    ensures
        final(world).wf(),
        final(world)@ == (crate::world::WorldModel {
            registry: old(world)@.registry.insert(NAME_TYPE_KEY, name_registration()),
            ..old(world)@
        }),
{
    let mut fields: KeyedTable<ValKind> = KeyedTable::new();
    fields.set(NAME_FIELD, ValKind::Text);
    let data = RegData {
        path: String::from_str("Name"),
        construct: Some(
            ReflectConstruct {
                props_key: NAME_TYPE_KEY,
                default_props: KeyedTable::new(),
                rule: ConstructRule::Passthrough,
            },
        ),
        insertable: true,
        fields,
    };
    proof {
        assert(data.deep_view() =~~= name_registration());
    }
    world.registry.register(NAME_TYPE_KEY, data);
    proof {
        assert(world@ =~~= (crate::world::WorldModel {
            registry: old(world)@.registry.insert(NAME_TYPE_KEY, name_registration()),
            ..old(world)@
        }));
    }
}

/// Registers everything needed for reflection-based dynamic scenes.
pub struct CantWaitForBsnPlugin;

impl CantWaitForBsnPlugin {
    /// Performs the registrations on the given world.
    pub fn build(&self, world: &mut World)
        requires
            old(world).wf(),
        ensures
            final(world).wf(),
            final(world)@ == (crate::world::WorldModel {
                registry: old(world)@.registry.insert(NAME_TYPE_KEY, name_registration()),
                ..old(world)@
            }),
    {
        register_reflect_construct(world);
    }
}

} // verus!
