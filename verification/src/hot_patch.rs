//! Hot patching: incremental re-application against a live entity.
//!
//! A hot patch targets an entity that already exists. The base for the
//! patch is the retained props stored on the entity for the target type —
//! the last props a hot patch applied — or the type's default props the
//! first time. The patched props are retained again before construction,
//! so fields set by earlier hot patches survive later ones instead of
//! reverting to defaults.

use vstd::prelude::*;

use crate::construct::{rule_result, ConstructContext, ConstructErrKind, ConstructError};
use crate::props::apply_writes;
use crate::patch::ConstructPatch;
use crate::world::{with_component, with_retained, WorldModel};

verus! {

/// What one hot patch does to the world, and whether it fails: the
/// retained props (or defaults) are patched and stored back, then the
/// type's rule constructs from them; on success the result is inserted,
/// on failure only the retained update remains.
pub open spec fn hot_patch_one(w: WorldModel, id: int, p: ConstructPatch) -> (
    WorldModel,
    Option<ConstructErrKind>,
) {
    let base = if w.entities[id].retained.contains_key(p.type_key) {
        w.entities[id].retained[p.type_key]
    } else {
        p.construct.deep_view().default_props
    };
    let newp = apply_writes(base, p.writes_spec());
    let w1 = with_retained(w, id, p.type_key, newp);
    match rule_result(w1, p.construct.rule, newp) {
        Ok(c) => (with_component(w1, id, p.type_key, c), None),
        Err(k) => (w1, Some(k)),
    }
}

/// What hot patching a member list does: each member in order, stopping
/// at the first failure.
pub open spec fn hot_patch_list(w: WorldModel, id: int, ps: Seq<ConstructPatch>) -> (
    WorldModel,
    Option<ConstructErrKind>,
)
    decreases ps.len(),
{
    if ps.len() == 0 {
        (w, None)
    } else {
        let r0 = hot_patch_one(w, id, ps.first());
        if r0.1 is Some {
            r0
        } else {
            hot_patch_list(r0.0, id, ps.drop_first())
        }
    }
}

impl ConstructPatch {
    /// Hot patches the component on the context entity directly: patches
    /// the retained props (or defaults), stores them back, constructs
    /// from them and inserts the result.
    pub fn hot_patch(&self, context: &mut ConstructContext) -> (r: Result<(), ConstructError>)
        requires
            old(context).wf(),
            self.wf(),
        ensures
            final(context).wf(),
            final(context).id == old(context).id,
            ({
                let (wm, err) = hot_patch_one(
                    old(context).world@,
                    old(context).id.index as int,
                    *self,
                );
                &&& final(context).world@ == wm
                &&& match (r, err) {
                    (Ok(u), None) => u == (),
                    (Err(e), Some(k)) => e.kind_spec() == k,
                    _ => false,
                }
            }),
    {
        let mut props = match context.world.get_retained(context.id, self.type_key) {
            Some(p) => p.duplicate(),
            None => self.construct.default_props(),
        };
        self.patch(&mut props);
        context.world.set_retained(context.id, self.type_key, props.duplicate());
        match context.construct(&self.construct, props) {
            Ok(component) => {
                context.world.insert_component(context.id, self.type_key, component);
                Ok(())
            },
            Err(e) => Err(e),
        }
    }
}

/// Hot patches a composite patch member-wise, in declared order, stopping
/// at the first failure.
pub fn hot_patch_members(patches: &Vec<ConstructPatch>, context: &mut ConstructContext) -> (r:
    Result<(), ConstructError>)
    requires
        old(context).wf(),
        forall|i: int| 0 <= i < patches@.len() ==> (#[trigger] patches@[i]).wf(),
    ensures
        final(context).wf(),
        final(context).id == old(context).id,
        ({
            let (wm, err) = hot_patch_list(
                old(context).world@,
                old(context).id.index as int,
                patches@,
            );
            &&& final(context).world@ == wm
            &&& match (r, err) {
                (Ok(u), None) => u == (),
                (Err(e), Some(k)) => e.kind_spec() == k,
                _ => false,
            }
        }),
{
    let ghost w0 = context.world@;
    let ghost id0 = context.id;
    let ghost id = context.id.index as int;
    let n = patches.len();
    proof {
        assert(patches@.subrange(0, n as int) =~= patches@);
    }
    for i in 0..n
        invariant
            n == patches@.len(),
            w0 == old(context).world@,
            id0 == old(context).id,
            context.wf(),
            context.id == id0,
            id == context.id.index as int,
            forall|j: int| 0 <= j < patches@.len() ==> (#[trigger] patches@[j]).wf(),
            hot_patch_list(w0, id, patches@) == hot_patch_list(
                context.world@,
                id,
                patches@.subrange(i as int, n as int),
            ),
    {
        let ghost w_pre = context.world@;
        let ghost suffix = patches@.subrange(i as int, n as int);
        match patches[i].hot_patch(context) {
            Ok(_) => {},
            Err(e) => {
                proof {
                    assert(suffix.first() == patches@[i as int]);
                }
                return Err(e);
            },
        }
        proof {
            assert(suffix.first() == patches@[i as int]);
            assert(suffix.drop_first() =~= patches@.subrange(i + 1, n as int));
        }
    }
    proof {
        assert(patches@.subrange(n as int, n as int) =~= Seq::<ConstructPatch>::empty());
    }
    Ok(())
}

} // verus!
