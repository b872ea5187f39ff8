//! Built-in construct-capable types.
//!
//! Two leaf capabilities the host supplies: resolving an entity
//! reference from a name or an entity value, and resolving an asset path
//! into a handle through the host's asset service.

use vstd::prelude::*;
use vstd::string::StringExecFns;

use crate::construct::{ConstructContext, ConstructError};
use crate::world::{first_named_from, Entity};

verus! {

/// The resource identity of the host's asset service.
pub const ASSET_SERVER_RESOURCE: u64 = 2;

/// The construct prop for an entity reference: nothing yet, a name to
/// resolve, or an entity directly.
#[derive(Clone, Debug)]
pub enum EntityPath {
    /// No entity supplied.
    Unset,
    /// An entity name, resolved against the world at construction time.
    Name(String),
    /// An entity, passed through.
    Target(Entity),
}

/// An entity reference constructed from an [`EntityPath`]: either entity
/// name or entity can be given as the prop.
#[derive(Clone, Copy, PartialEq, Eq, Structural, Debug)]
pub struct ConstructEntity(pub Entity);

impl ConstructEntity {
    /// Constructs an entity reference: a name resolves to the first
    /// entity carrying it, an entity passes through, and no entity at
    /// all is invalid props. Resolution fails exactly when no entity
    /// carries the name.
    pub fn construct(context: &ConstructContext, props: EntityPath) -> (r: Result<
        ConstructEntity,
        ConstructError,
    >)
        requires
            context.wf(),
        ensures
            match props {
                EntityPath::Name(name) => match first_named_from(
                    context.world@.entities,
                    name@,
                    0,
                ) {
                    Some(i) => r matches Ok(ce) && ce.0.index == i,
                    None => r matches Err(e) && e is InvalidProps,
                },
                EntityPath::Target(e) => r == Ok::<ConstructEntity, ConstructError>(
                    ConstructEntity(e),
                ),
                EntityPath::Unset => r matches Err(e) && e is InvalidProps,
            },
    {
        match props {
            EntityPath::Name(name) => match context.world.resolve_name(&name) {
                Some(e) => Ok(ConstructEntity(e)),
                None => Err(ConstructError::InvalidProps {
                    message: String::from_str("entity with that name does not exist"),
                }),
            },
            EntityPath::Target(e) => Ok(ConstructEntity(e)),
            EntityPath::Unset => Err(ConstructError::InvalidProps {
                message: String::from_str("no entity supplied"),
            }),
        }
    }
}

/// A constructable asset handle: constructed from an asset path through
/// the host's asset service.
#[derive(Clone, Debug)]
pub struct ConstructHandle {
    /// The asset path the handle was resolved from.
    pub path: String,
}

impl ConstructHandle {
    /// Constructs a handle for the given asset path. The host's asset
    /// service must be present as a resource; without it construction
    /// fails with a missing resource, and with it the handle for exactly
    /// the given path is returned.
    pub fn construct(context: &ConstructContext, path: &str) -> (r: Result<
        ConstructHandle,
        ConstructError,
    >)
        requires
            context.wf(),
        ensures
            if context.world@.resources.contains(ASSET_SERVER_RESOURCE) {
                r matches Ok(h) && h.path@ == path@
            } else {
                r matches Err(e) && e is MissingResource
            },
    {
        if context.world.has_resource(ASSET_SERVER_RESOURCE) {
            Ok(ConstructHandle { path: path.to_owned() })
        } else {
            Err(ConstructError::MissingResource {
                message: String::from_str("asset service is not available"),
            })
        }
    }
}

} // verus!
