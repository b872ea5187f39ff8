//! The parsed shape of a scene literal.
//!
//! The textual front end that reads scene literals out of source text is
//! an external collaborator; what it hands this library is the parsed
//! tree modeled here: a patch is a type path with ordered field-value
//! pairs, a tuple grouping, or a raw expression that cannot be reduced to
//! a literal; an entity pairs a patch with an inheritance list.

use vstd::prelude::*;

verus! {

/// A literal value as the front end delivers it.
#[derive(Debug)]
pub enum BsnLit {
    /// An integer literal.
    Num(i64),
    /// A string literal.
    Text(String),
    /// A boolean literal.
    Truth(bool),
    /// The unit literal.
    Unit,
    /// An expression the front end could not reduce to a literal.
    Unsupported,
}

/// The mathematical image of a literal.
pub enum LitModel {
    /// An integer literal.
    Num(int),
    /// A string literal.
    Text(Seq<char>),
    /// A boolean literal.
    Truth(bool),
    /// The unit literal.
    Unit,
    /// An irreducible expression.
    Unsupported,
}

impl DeepView for BsnLit {
    type V = LitModel;

    open spec fn deep_view(&self) -> LitModel {
        match self {
            BsnLit::Num(n) => LitModel::Num(*n as int),
            BsnLit::Text(s) => LitModel::Text(s@),
            BsnLit::Truth(b) => LitModel::Truth(*b),
            BsnLit::Unit => LitModel::Unit,
            BsnLit::Unsupported => LitModel::Unsupported,
        }
    }
}

/// A parsed property: a direct value, or props to be constructed.
#[derive(Debug)]
pub enum BsnProp {
    /// A direct value.
    Value(BsnLit),
    /// Props for a nested construction.
    Prop(BsnLit),
}

impl BsnProp {
    /// The literal inside, whichever form it takes.
    pub open spec fn lit_spec(self) -> LitModel {
        match self {
            BsnProp::Value(l) => l.deep_view(),
            BsnProp::Prop(l) => l.deep_view(),
        }
    }

    /// Returns the literal inside, whichever form it takes.
    pub fn lit(&self) -> (l: &BsnLit)
        ensures
            l.deep_view() == self.lit_spec(),
    {
        match self {
            BsnProp::Value(l) => l,
            BsnProp::Prop(l) => l,
        }
    }
}

/// One parsed field of a patch: the field key and its property.
#[derive(Debug)]
pub struct BsnField {
    /// The field key.
    pub member: u64,
    /// The parsed property.
    pub prop: BsnProp,
}

/// A parsed patch.
#[derive(Debug)]
pub enum BsnPatch {
    /// A type path with ordered field-value pairs.
    Patch(String, Vec<BsnField>),
    /// A tuple of patches, applied in order.
    Tuple(Vec<BsnPatch>),
    /// A raw expression; it cannot be applied dynamically.
    Expr,
}

/// A parsed child of a scene entity: a nested entity, or a spread of an
/// expression producing scenes, which the front end cannot reduce.
#[derive(Debug)]
pub enum BsnChildren {
    /// A nested scene entity.
    Entity(Box<BsnEntity>),
    /// A spread expression.
    Spread,
}

/// A parsed inheritance source: a path to another scene.
#[derive(Debug)]
pub struct BsnInherit {
    /// The path of the inherited scene.
    pub path: String,
}

/// A parsed scene entity: its inheritance list, its patch, and its
/// children.
#[derive(Debug)]
pub struct BsnEntity {
    /// The inherited scenes, by path.
    pub inherits: Vec<BsnInherit>,
    /// The patch of this entity.
    pub patch: BsnPatch,
    /// The children of this entity.
    pub children: Vec<BsnChildren>,
}

} // verus!
