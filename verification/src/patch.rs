//! Patches.
//!
//! A patch is bound to exactly one construct-capable type: it carries that
//! type's identity and construction capability, and an ordered list of
//! field writes to fold into a props value before construction. Patches
//! compose as ordered sequences applied member-wise, left to right; the
//! empty sequence is the identity.

use vstd::prelude::*;

use crate::construct::{rule_result, ConstructContext, ConstructError};
use crate::props::{apply_writes, last_write, lemma_apply_writes_concat, lemma_apply_writes_get,
    writes_model, FieldWrite, Props, PropsModel, ValModel};
use crate::registry::{ConstructRule, ReflectConstruct};

verus! {

/// A patch bound to one construct-capable type.
#[derive(Debug)]
pub struct ConstructPatch {
    /// The identity of the type the patch constructs.
    pub type_key: u64,
    /// The construction capability of that type, known statically.
    pub construct: ReflectConstruct,
    /// The ordered field writes this patch performs.
    pub writes: Vec<FieldWrite>,
}

impl ConstructPatch {
    /// Well-formed: the carried capability is.
    pub open spec fn wf(self) -> bool {
        self.construct.wf()
    }

    /// The image of this patch's write list.
    pub open spec fn writes_spec(self) -> Seq<(u64, ValModel)> {
        writes_model(self.writes@)
    }

    /// The image of this patch's default props after its writes.
    pub open spec fn patched_default(self) -> PropsModel {
        apply_writes(self.construct.deep_view().default_props, self.writes_spec())
    }

    /// Creates a patch for the type with the given capability, performing
    /// the given writes.
    pub fn new(type_key: u64, construct: ReflectConstruct, writes: Vec<FieldWrite>) -> (p:
        ConstructPatch)
        requires
            construct.wf(),
        ensures
            p.wf(),
            p.type_key == type_key,
            p.construct == construct,
            p.writes == writes,
    {
        ConstructPatch { type_key, construct, writes }
    }

    /// Creates a patch for a self-describing type: one whose props type is
    /// the type itself, so its capability can be inferred as passthrough
    /// construction from empty default props.
    pub fn new_inferred(type_key: u64, writes: Vec<FieldWrite>) -> (p: ConstructPatch)
        ensures
            p.wf(),
            p.type_key == type_key,
            p.construct.rule == ConstructRule::Passthrough,
            p.construct.deep_view().props_key == type_key,
            p.construct.deep_view().default_props == Map::<u64, ValModel>::empty(),
            p.writes == writes,
    {
        ConstructPatch {
            type_key,
            construct: ReflectConstruct {
                props_key: type_key,
                default_props: crate::keyed::KeyedTable::new(),
                rule: ConstructRule::Passthrough,
            },
            writes,
        }
    }

    /// Applies this patch's writes to a props value, earliest first.
    pub fn patch(&self, props: &mut Props)
        requires
            old(props).wf(),
        ensures
            final(props).wf(),
            final(props).deep_view() == apply_writes(old(props).deep_view(), self.writes_spec()),
    {
        props.apply(&self.writes);
    }
}

/// Applies a composite patch to a composite props value: each member
/// patch to its corresponding member props, in declared order.
pub fn patch_members(patches: &Vec<ConstructPatch>, props: &mut Vec<Props>)
    requires
        patches@.len() == old(props)@.len(),
        forall|i: int| 0 <= i < old(props)@.len() ==> (#[trigger] old(props)@[i]).wf(),
    ensures
        final(props)@.len() == old(props)@.len(),
        forall|i: int| 0 <= i < final(props)@.len() ==> (#[trigger] final(props)@[i]).wf()
            && final(props)@[i].deep_view() == apply_writes(
            old(props)@[i].deep_view(),
            patches@[i].writes_spec(),
        ),
{
    let n = patches.len();
    for i in 0..n
        invariant
            n == patches@.len(),
            props@.len() == old(props)@.len(),
            n == props@.len(),
            forall|j: int| i <= j < props@.len() ==> #[trigger] props@[j] == old(props)@[j],
            forall|j: int| 0 <= j < props@.len() ==> (#[trigger] props@[j]).wf(),
            forall|j: int| 0 <= j < i ==> (#[trigger] props@[j]).deep_view() == apply_writes(
                old(props)@[j].deep_view(),
                patches@[j].writes_spec(),
            ),
    {
        let mut slot: Props = crate::keyed::KeyedTable::new();
        props.set_and_swap(i, &mut slot);
        patches[i].patch(&mut slot);
        props.set_and_swap(i, &mut slot);
    }
}

/// Later writes win: when two patches write in sequence, a field the
/// second one writes holds the second one's value afterwards, whatever
/// the first wrote; a field it does not write keeps the first outcome.
pub proof fn lemma_later_patch_wins(
    base: PropsModel,
    first: Seq<(u64, ValModel)>,
    second: Seq<(u64, ValModel)>,
    k: u64,
)
    ensures
        match last_write(second, k) {
            Some(v) => apply_writes(base, first + second).contains_key(k) && apply_writes(
                base,
                first + second,
            )[k] == v,
            None => apply_writes(base, first + second).contains_key(k) == apply_writes(
                base,
                first,
            ).contains_key(k) && (apply_writes(base, first).contains_key(k) ==> apply_writes(
                base,
                first + second,
            )[k] == apply_writes(base, first)[k]),
        },
{
    lemma_apply_writes_concat(base, first, second);
    lemma_apply_writes_get(apply_writes(base, first), second, k);
}

impl ConstructContext {
    /// Default-constructs a props value for the patch's type, folds the
    /// patch into it, and constructs: the static fast path. The result is
    /// exactly the patch's type constructed from its patched default
    /// props; it fails exactly when that construction does.
    pub fn construct_from_patch(&self, patch: &ConstructPatch) -> (r: Result<
        Props,
        ConstructError,
    >)
        requires
            self.wf(),
            patch.wf(),
        ensures
            match (r, rule_result(self.world@, patch.construct.rule, patch.patched_default())) {
                (Ok(p), Ok(m)) => p.wf() && p.deep_view() == m,
                (Err(e), Err(k)) => e.kind_spec() == k,
                _ => false,
            },
    {
        let mut props = patch.construct.default_props();
        patch.patch(&mut props);
        self.construct(&patch.construct, props)
    }
}

} // verus!
