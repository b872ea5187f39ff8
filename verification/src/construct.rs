//! The construct contract.
//!
//! Construction turns a props value into a component value, reading the
//! world through a build context, and fails with [`ConstructError`] when
//! the props are invalid or a needed host resource is absent. The host's
//! per-type construct operations are modeled by [`ConstructRule`]; running
//! a rule is a pure function of the rule, the props and the world state
//! read at call time.

use vstd::prelude::*;
use vstd::string::StringExecFns;

use crate::props::{PropVal, Props, PropsModel, ValModel};
use crate::registry::{ConstructRule, ReflectConstruct};
use crate::world::{first_named_from, Entity, World, WorldModel};

verus! {

/// The kind of a construction error.
#[derive(Clone, Copy, PartialEq, Eq, Structural, Debug)]
pub enum ConstructErrKind {
    /// The props failed a semantic check.
    InvalidProps,
    /// A required host resource is absent.
    MissingResource,
}

/// A construction error.
#[derive(Debug)]
pub enum ConstructError {
    /// The props failed a semantic check.
    InvalidProps {
        /// What was wrong with the props.
        message: String,
    },
    /// A required host resource is absent.
    MissingResource {
        /// Which resource was missing.
        message: String,
    },
}

impl ConstructError {
    /// The kind of this error.
    pub open spec fn kind_spec(self) -> ConstructErrKind {
        match self {
            ConstructError::InvalidProps { .. } => ConstructErrKind::InvalidProps,
            ConstructError::MissingResource { .. } => ConstructErrKind::MissingResource,
        }
    }

    /// Returns the kind of this error.
    pub fn kind(&self) -> (k: ConstructErrKind)
        ensures
            k == self.kind_spec(),
    {
        match self {
            ConstructError::InvalidProps { .. } => ConstructErrKind::InvalidProps,
            ConstructError::MissingResource { .. } => ConstructErrKind::MissingResource,
        }
    }

    /// Returns a description of this error.
    pub fn message(&self) -> &String {
        match self {
            ConstructError::InvalidProps { message } => message,
            ConstructError::MissingResource { message } => message,
        }
    }
}

/// What running a construction rule yields: the constructed component's
/// image on success, the error kind on failure.
pub open spec fn rule_result(w: WorldModel, rule: ConstructRule, props: PropsModel) -> Result<
    PropsModel,
    ConstructErrKind,
> {
    match rule {
        ConstructRule::Passthrough => Ok(props),
        ConstructRule::Assemble => Ok(props),
        ConstructRule::ResolveName { field } => {
            if !props.contains_key(field) {
                Err(ConstructErrKind::InvalidProps)
            } else {
                match props[field] {
                    ValModel::Text(name) => match first_named_from(w.entities, name, 0) {
                        Some(i) => Ok(props.insert(field, ValModel::Ent(i))),
                        None => Err(ConstructErrKind::InvalidProps),
                    },
                    ValModel::Ent(_) => Ok(props),
                    _ => Err(ConstructErrKind::InvalidProps),
                }
            }
        },
        ConstructRule::RequireResource { resource } => {
            if w.resources.contains(resource) {
                Ok(props)
            } else {
                Err(ConstructErrKind::MissingResource)
            }
        },
    }
}

/// Runs a construction rule on a props value against the world.
pub fn run_rule(world: &World, rule: &ConstructRule, props: Props) -> (r: Result<
    Props,
    ConstructError,
>)
    requires
        world.wf(),
        props.wf(),
    ensures
        match (r, rule_result(world@, *rule, props.deep_view())) {
            (Ok(p), Ok(m)) => p.wf() && p.deep_view() == m,
            (Err(e), Err(k)) => e.kind_spec() == k,
            _ => false,
        },
{
    match rule {
        ConstructRule::Passthrough => Ok(props),
        ConstructRule::Assemble => Ok(props),
        ConstructRule::ResolveName { field } => {
            let mut props = props;
            let resolved = match props.get(*field) {
                Some(PropVal::Text(name)) => match world.resolve_name(name) {
                    Some(e) => Ok(Some(e)),
                    None => Err(ConstructError::InvalidProps {
                        message: String::from_str("entity with that name does not exist"),
                    }),
                },
                Some(PropVal::Ent(_)) => Ok(None),
                Some(_) => Err(ConstructError::InvalidProps {
                    message: String::from_str("entity reference field holds no entity or name"),
                }),
                None => Err(ConstructError::InvalidProps {
                    message: String::from_str("no entity supplied"),
                }),
            };
            match resolved {
                Ok(Some(e)) => {
                    props.set(*field, PropVal::Ent(e.index));
                    Ok(props)
                },
                Ok(None) => Ok(props),
                Err(e) => Err(e),
            }
        },
        ConstructRule::RequireResource { resource } => {
            if world.has_resource(*resource) {
                Ok(props)
            } else {
                Err(ConstructError::MissingResource {
                    message: String::from_str("required resource is absent"),
                })
            }
        },
    }
}

impl ReflectConstruct {
    /// Constructs a component value by running this type's rule on the
    /// given props against the world.
    pub fn construct(&self, world: &World, props: Props) -> (r: Result<Props, ConstructError>)
        requires
            world.wf(),
            props.wf(),
        ensures
            match (r, rule_result(world@, self.rule, props.deep_view())) {
                (Ok(p), Ok(m)) => p.wf() && p.deep_view() == m,
                (Err(e), Err(k)) => e.kind_spec() == k,
                _ => false,
            },
    {
        run_rule(world, &self.rule, props)
    }
}

/// A build context: the entity being built and the world it lives in.
///
/// The context owns the world for the duration of one construction pass;
/// the caller moves the world in and takes it back afterwards.
#[derive(Debug)]
pub struct ConstructContext {
    /// The entity construction targets.
    pub id: Entity,
    /// The world.
    pub world: World,
}

impl ConstructContext {
    /// Well-formed: the world is, and the target entity exists in it.
    pub open spec fn wf(self) -> bool {
        self.world.wf() && self.id.index < self.world@.entities.len()
    }

    /// Creates a context for constructing on `id`.
    pub fn new(id: Entity, world: World) -> (c: ConstructContext)
        requires
            world.wf(),
            id.index < world@.entities.len(),
        ensures
            c.wf(),
            c.id == id,
            c.world@ == world@,
    {
        ConstructContext { id, world }
    }

    /// Constructs a value of the capability's type from the given props.
    pub fn construct(&self, rc: &ReflectConstruct, props: Props) -> (r: Result<
        Props,
        ConstructError,
    >)
        requires
            self.wf(),
            props.wf(),
        ensures
            match (r, rule_result(self.world@, rc.rule, props.deep_view())) {
                (Ok(p), Ok(m)) => p.wf() && p.deep_view() == m,
                (Err(e), Err(k)) => e.kind_spec() == k,
                _ => false,
            },
    {
        rc.construct(&self.world, props)
    }
}

/// A property that is either a finished value or props still to be
/// constructed.
#[derive(Debug)]
pub enum ConstructProp {
    /// A direct value; construction passes it through.
    Value(Props),
    /// Props; construction runs the type's rule on them.
    Prop(Props),
}

impl ConstructProp {
    /// Well-formed: the held props value is.
    pub open spec fn wf(self) -> bool {
        match self {
            ConstructProp::Value(p) => p.wf(),
            ConstructProp::Prop(p) => p.wf(),
        }
    }

    /// What consuming this property yields: a direct value as it is, props
    /// through the rule.
    pub open spec fn construct_spec(self, w: WorldModel, rule: ConstructRule) -> Result<
        PropsModel,
        ConstructErrKind,
    > {
        match self {
            ConstructProp::Value(v) => Ok(v.deep_view()),
            ConstructProp::Prop(p) => rule_result(w, rule, p.deep_view()),
        }
    }

    /// Consumes this property and returns the inner value, constructed by
    /// the given rule if necessary.
    pub fn construct(self, context: &ConstructContext, rule: &ConstructRule) -> (r: Result<
        Props,
        ConstructError,
    >)
        requires
            context.wf(),
            self.wf(),
        ensures
            match (r, self.construct_spec(context.world@, *rule)) {
                (Ok(p), Ok(m)) => p.wf() && p.deep_view() == m,
                (Err(e), Err(k)) => e.kind_spec() == k,
                _ => false,
            },
    {
        match self {
            ConstructProp::Prop(p) => run_rule(&context.world, rule, p),
            ConstructProp::Value(v) => Ok(v),
        }
    }
}

} // verus!
