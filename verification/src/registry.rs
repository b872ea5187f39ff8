//! The runtime type registry.
//!
//! The dynamic construction path resolves component types at run time: a
//! numeric type identity is looked up here, and the registration — if one
//! exists, and if it carries the construction capability — says how to
//! default, construct and insert values of that type. Lookup may fail;
//! callers degrade gracefully rather than abort.

use vstd::prelude::*;

use crate::keyed::KeyedTable;
use crate::props::{Props, PropsModel, ValKind};

verus! {

/// How a registered type turns its props into a component value.
///
/// The host's construct operations are modeled as a closed set of rules:
/// a rule is a pure function of the props and of the world state it reads.
#[derive(Clone, Copy, PartialEq, Eq, Structural, Debug)]
pub enum ConstructRule {
    /// The props value is the component value; no construction step runs.
    /// Declared by types whose props type is the type itself.
    Passthrough,
    /// The component value is assembled from the props as given; the type
    /// has a distinct props type, so construction runs from default props.
    Assemble,
    /// The named field holds an entity reference: a text value is resolved
    /// against entity names in the world, an entity value passes through,
    /// anything else is rejected as invalid props.
    ResolveName {
        /// The field holding the entity reference.
        field: u64,
    },
    /// Construction needs a host resource and fails when it is absent.
    RequireResource {
        /// The required resource.
        resource: u64,
    },
}

/// The reflected construction capability of a registered type: its props
/// type identity, its default props, and its construction rule.
#[derive(Clone, Debug)]
pub struct ReflectConstruct {
    /// The type identity of the props type.
    pub props_key: u64,
    /// The default props value construction starts from.
    pub default_props: Props,
    /// The construction rule.
    pub rule: ConstructRule,
}

/// The mathematical image of a [`ReflectConstruct`].
#[verifier::ext_equal]
pub struct ReflectConstructModel {
    /// The type identity of the props type.
    pub props_key: u64,
    /// The image of the default props.
    pub default_props: PropsModel,
    /// The construction rule.
    pub rule: ConstructRule,
}

impl DeepView for ReflectConstruct {
    type V = ReflectConstructModel;

    open spec fn deep_view(&self) -> ReflectConstructModel {
        ReflectConstructModel {
            props_key: self.props_key,
            default_props: self.default_props.deep_view(),
            rule: self.rule,
        }
    }
}

impl ReflectConstruct {
    /// Well-formed: the default props table holds no duplicate field.
    pub open spec fn wf(self) -> bool {
        self.default_props.wf()
    }

    /// Returns the default props for this type.
    pub fn default_props(&self) -> (r: Props)
        requires
            self.wf(),
        ensures
            r.wf(),
            r.deep_view() == self.deep_view().default_props,
    {
        self.default_props.duplicate()
    }

    /// Returns a capability equal to this one.
    pub fn duplicate(&self) -> (r: ReflectConstruct)
        requires
            self.wf(),
        ensures
            r.wf(),
            r.deep_view() == self.deep_view(),
    {
        ReflectConstruct {
            props_key: self.props_key,
            default_props: self.default_props.duplicate(),
            rule: self.rule,
        }
    }
}

/// One registration: the short path of the type, its construction
/// capability if declared, whether values of it can be inserted as
/// components, and the reflected fields of values of it.
#[derive(Clone, Debug)]
pub struct RegData {
    /// The short path the textual front end resolves against.
    pub path: String,
    /// The construction capability, absent unless declared.
    pub construct: Option<ReflectConstruct>,
    /// Whether the type can be inserted on an entity as a component.
    pub insertable: bool,
    /// The fields of values of this type, by field key, with the kind of
    /// value each holds.
    pub fields: KeyedTable<ValKind>,
}

/// The mathematical image of a [`RegData`].
#[verifier::ext_equal]
pub struct RegDataModel {
    /// The short path of the type.
    pub path: Seq<char>,
    /// The image of the construction capability.
    pub construct: Option<ReflectConstructModel>,
    /// Whether the type can be inserted as a component.
    pub insertable: bool,
    /// The fields of values of this type and their kinds.
    pub fields: Map<u64, ValKind>,
}

impl DeepView for RegData {
    type V = RegDataModel;

    open spec fn deep_view(&self) -> RegDataModel {
        RegDataModel {
            path: self.path@,
            construct: match &self.construct {
                Some(rc) => Some(rc.deep_view()),
                None => None,
            },
            insertable: self.insertable,
            fields: self.fields.deep_view(),
        }
    }
}

impl RegData {
    /// Well-formed: the declared capability, if any, and the field table
    /// are.
    pub open spec fn wf(self) -> bool {
        &&& match self.construct {
            Some(rc) => rc.wf(),
            None => true,
        }
        &&& self.fields.wf()
    }
}

/// The registry: a keyed table from type identity to registration.
pub type Registry = KeyedTable<RegData>;

/// The mathematical image of a registry.
pub type RegistryModel = Map<u64, RegDataModel>;

/// The type identity of the first registration whose short path is the
/// given path, in registration order.
pub open spec fn path_key(recs: Seq<crate::keyed::KeyRec<RegData>>, path: Seq<char>) -> Option<u64>
    decreases recs.len(),
{
    if recs.len() == 0 {
        None
    } else if recs.first().value.path@ == path {
        Some(recs.first().key)
    } else {
        path_key(recs.drop_first(), path)
    }
}

/// Whether a registry image fully resolves a type: it is registered, it
/// declares construction, and it can be inserted as a component.
pub open spec fn resolves(reg: RegistryModel, type_key: u64) -> bool {
    reg.contains_key(type_key) && reg[type_key].construct is Some && reg[type_key].insertable
}

impl KeyedTable<RegData> {
    /// Every registration is well-formed.
    pub open spec fn all_wf(self) -> bool {
        forall|i: int| 0 <= i < self.recs@.len() ==> (#[trigger] self.recs@[i]).value.wf()
    }

    /// Returns the first-registered type identity whose short path is
    /// `path`, with its registration, or nothing when no registration has
    /// that path. A short path shared by several registrations resolves
    /// to the earliest; the front end is expected to use unambiguous
    /// paths.
    pub fn resolve_path(&self, path: &String) -> (r: Option<(u64, &RegData)>)
        requires
            self.wf(),
        ensures
            match r {
                Some((k, d)) => path_key(self.recs@, path@) == Some(k)
                    && self.deep_view().contains_key(k)
                    && self.deep_view()[k] == d.deep_view()
                    && d.deep_view().path == path@
                    && (exists|i: int| 0 <= i < self.recs@.len()
                        && (#[trigger] self.recs@[i]).key == k && *d == self.recs@[i].value),
                None => path_key(self.recs@, path@) is None
                    && (forall|k: u64| #[trigger] self.deep_view().contains_key(k)
                    ==> self.deep_view()[k].path != path@),
            },
    {
        let n = self.recs.len();
        proof {
            assert(self.recs@.subrange(0, n as int) =~= self.recs@);
        }
        for i in 0..n
            invariant
                n == self.recs@.len(),
                self.wf(),
                forall|j: int| 0 <= j < i ==> (#[trigger] self.recs@[j]).value.path@ != path@,
                path_key(self.recs@, path@) == path_key(
                    self.recs@.subrange(i as int, n as int),
                    path@,
                ),
        {
            let ghost suffix = self.recs@.subrange(i as int, n as int);
            if self.recs[i].value.path.eq(path) {
                proof {
                    crate::keyed::lemma_rec_map_at(self.recs@, i as int);
                    assert(suffix.first() == self.recs@[i as int]);
                }
                return Some((self.recs[i].key, &self.recs[i].value));
            }
            proof {
                assert(suffix.first() == self.recs@[i as int]);
                assert(suffix.drop_first() =~= self.recs@.subrange(i + 1, n as int));
            }
        }
        proof {
            assert(self.recs@.subrange(n as int, n as int)
                =~= Seq::<crate::keyed::KeyRec<RegData>>::empty());
        }
        proof {
            assert forall|k: u64| #[trigger] self.deep_view().contains_key(k)
                implies self.deep_view()[k].path != path@ by {
                crate::keyed::lemma_rec_map_contains(self.recs@, k);
                let i = choose|i: int| 0 <= i < self.recs@.len() && self.recs@[i].key == k;
                crate::keyed::lemma_rec_map_at(self.recs@, i);
            }
        }
        None
    }

    /// Registers a type, replacing any previous registration of it. A
    /// well-formed registration keeps the registry's registrations
    /// well-formed.
    pub fn register(&mut self, type_key: u64, data: RegData)
        requires
            old(self).wf(),
            old(self).all_wf(),
            data.wf(),
        ensures
            final(self).wf(),
            final(self).all_wf(),
            final(self).deep_view() == old(self).deep_view().insert(type_key, data.deep_view()),
    {
        let ghost d = data;
        self.set(type_key, data);
        proof {
            assert forall|i: int| 0 <= i < self.recs@.len() implies (#[trigger] self.recs@[i]).value.wf() by {
                if self.recs@[i].value == d {
                } else {
                    let j = choose|j: int| 0 <= j < old(self).recs@.len()
                        && self.recs@[i].value == old(self).recs@[j].value;
                    assert(old(self).recs@[j].value.wf());
                }
            }
        }
    }
}

} // verus!
