//! The scene tree.
//!
//! An [`EntityPatch`] pairs one composite patch with child scenes and
//! optional inherited scenes: one entity-to-be plus its descendants.
//! Inherited scenes are not separate entities — they contribute patches
//! to the same entity, applied before the node's own patch, so the
//! node's own writes win. A node without inheritance is constructed on
//! the static fast path, which never consults the runtime type registry;
//! a node with inheritance is flattened into a [`DynamicScene`] and
//! constructed through the registry.

use vstd::prelude::*;

use crate::construct::{ConstructContext, ConstructErrKind, ConstructError};
use crate::dynamic::{accum, entries_model, scene_construct, scene_model, scenes_model,
    DynamicScene, EntryModel, SceneModel};
use crate::hot_patch::{hot_patch_list, hot_patch_members};
use crate::patch::ConstructPatch;
use crate::world::{spawned, with_child, WorldModel};

verus! {

/// A tree of entities and patches to be applied to them.
#[derive(Debug)]
pub struct EntityPatch {
    /// Inherited scenes: their patches apply to this entity first.
    pub inherit: Vec<EntityPatch>,
    /// The composite patch constructed and inserted on this entity,
    /// member-wise in declared order.
    pub patch: Vec<ConstructPatch>,
    /// Child scenes, spawned as new entities beneath this one.
    pub children: Vec<EntityPatch>,
}

impl EntityPatch {
    /// Well-formed: every member patch and every nested scene is.
    pub open spec fn wf(self) -> bool
        decreases self,
    {
        &&& (forall|i: int| 0 <= i < self.patch@.len() ==> (#[trigger] self.patch@[i]).wf())
        &&& (forall|i: int| 0 <= i < self.inherit@.len() ==> (#[trigger] self.inherit@[i]).wf())
        &&& (forall|i: int| 0 <= i < self.children@.len() ==> (#[trigger] self.children@[i]).wf())
    }

    /// A node whose whole tree has no inheritance: construction of every
    /// node in it takes the static path.
    pub open spec fn fully_static(self) -> bool
        decreases self,
    {
        &&& self.inherit@.len() == 0
        &&& (forall|i: int| 0 <= i < self.children@.len()
            ==> (#[trigger] self.children@[i]).fully_static())
    }
}

/// Accumulating a composite patch on a scene level: each member in
/// declared order.
pub open spec fn accum_patches(es: Seq<EntryModel>, ps: Seq<ConstructPatch>) -> Seq<EntryModel>
    decreases ps.len(),
{
    if ps.len() == 0 {
        es
    } else {
        accum(accum_patches(es, ps.drop_last()), ps.last().type_key, ps.last().writes_spec())
    }
}

/// Accumulating a scene node on a scene level: inherited scenes first
/// (oldest first), then the node's own patch.
pub open spec fn ep_entries(es: Seq<EntryModel>, e: EntityPatch) -> Seq<EntryModel>
    decreases e, 1int,
{
    accum_patches(eps_entries(es, e.inherit@), e.patch@)
}

/// Accumulating a list of scene nodes on a scene level, in order.
pub open spec fn eps_entries(es: Seq<EntryModel>, list: Seq<EntityPatch>) -> Seq<EntryModel>
    decreases list, 0int,
{
    if list.len() == 0 {
        es
    } else {
        eps_entries(ep_entries(es, list.first()), list.drop_first())
    }
}

/// The dynamic scene a node flattens into: its accumulated entries and
/// the child scenes it contributes.
pub open spec fn ep_scene_model(e: EntityPatch) -> SceneModel
    decreases e, 4int,
{
    SceneModel {
        entries: ep_entries(Seq::empty(), e),
        children: ep_child_scenes(e),
    }
}

/// The child scenes a node contributes when applied dynamically: the
/// children contributed by its inherited scenes, in order, then its own
/// children as nested scenes.
pub open spec fn ep_child_scenes(e: EntityPatch) -> Seq<SceneModel>
    decreases e, 3int,
{
    eps_child_scenes(e.inherit@) + ep_children_models(e.children@)
}

/// The child scenes a list of nodes contributes, concatenated in order.
pub open spec fn eps_child_scenes(list: Seq<EntityPatch>) -> Seq<SceneModel>
    decreases list, 2int,
{
    if list.len() == 0 {
        Seq::empty()
    } else {
        eps_child_scenes(list.drop_last()) + ep_child_scenes(list.last())
    }
}

/// The dynamic scenes a list of nodes flattens into, one each.
pub open spec fn ep_children_models(list: Seq<EntityPatch>) -> Seq<SceneModel>
    decreases list, 5int,
{
    if list.len() == 0 {
        Seq::empty()
    } else {
        seq![ep_scene_model(list.first())] + ep_children_models(list.drop_first())
    }
}

/// What constructing a scene node on entity `id` does to the world, and
/// whether it fails. Without inheritance: the static path — the composite
/// patch is hot patched member-wise, then children are spawned; the first
/// failure stops the pass. With inheritance: the node is flattened into a
/// dynamic scene and constructed through the registry, which never fails.
pub open spec fn ep_construct(w: WorldModel, id: int, e: EntityPatch) -> (
    WorldModel,
    Option<ConstructErrKind>,
)
    decreases e, 6int,
{
    if e.inherit@.len() == 0 {
        let r = hot_patch_list(w, id, e.patch@);
        if r.1 is Some {
            r
        } else {
            ep_spawn_list(r.0, id, e.children@)
        }
    } else {
        (scene_construct(w, id, ep_scene_model(e)), None)
    }
}

/// Spawns a list of scene nodes beneath entity `id`, in order: each gets
/// a fresh entity attached beneath `id` and is constructed on it; the
/// first failure stops the pass.
pub open spec fn ep_spawn_list(w: WorldModel, id: int, list: Seq<EntityPatch>) -> (
    WorldModel,
    Option<ConstructErrKind>,
)
    decreases list, 7int,
{
    if list.len() == 0 {
        (w, None)
    } else {
        let child = w.entities.len() as int;
        let w1 = with_child(spawned(w), id, child);
        let r = ep_construct(w1, child, list.first());
        if r.1 is Some {
            r
        } else {
            ep_spawn_list(r.0, id, list.drop_first())
        }
    }
}

impl EntityPatch {
    /// Applies this node to a dynamic scene: inherited scenes first, then
    /// the node's own patch, then the node's children pushed as nested
    /// child scenes.
    pub fn dynamic_patch(&self, scene: &mut DynamicScene)
        requires
            self.wf(),
            old(scene).wf(),
        ensures
            final(scene).wf(),
            entries_model(final(scene).component_props@) == ep_entries(
                entries_model(old(scene).component_props@),
                *self,
            ),
            scenes_model(final(scene).children@) == scenes_model(old(scene).children@)
                + ep_child_scenes(*self),
        decreases self, 0int,
    {
        let ghost es0 = entries_model(scene.component_props@);
        let ghost cs0 = scenes_model(scene.children@);
        proof {
            assert(self.inherit@.subrange(0, 0int) =~= Seq::<EntityPatch>::empty());
            assert(cs0 + eps_child_scenes(Seq::<EntityPatch>::empty()) =~= cs0);
        }

        let n = self.inherit.len();
        for i in 0..n
            invariant
                n == self.inherit@.len(),
                self.wf(),
                scene.wf(),
                entries_model(scene.component_props@) == eps_entries(
                    es0,
                    self.inherit@.subrange(0, i as int),
                ),
                scenes_model(scene.children@) == cs0 + eps_child_scenes(
                    self.inherit@.subrange(0, i as int),
                ),
        {
            proof {
                assert(decreases_to!(self => self.inherit));
                assert(decreases_to!(self.inherit => self.inherit@));
                assert(decreases_to!(self.inherit@ => self.inherit@[i as int]));
            }
            self.inherit[i].dynamic_patch(scene);
            proof {
                lemma_eps_entries_snoc(es0, self.inherit@.subrange(0, i + 1));
                assert(self.inherit@.subrange(0, i + 1).drop_last() =~= self.inherit@.subrange(
                    0,
                    i as int,
                ));
                assert(self.inherit@.subrange(0, i + 1).last() == self.inherit@[i as int]);
                assert(cs0 + eps_child_scenes(self.inherit@.subrange(0, i as int))
                    + ep_child_scenes(self.inherit@[i as int]) =~= cs0 + (eps_child_scenes(
                    self.inherit@.subrange(0, i as int),
                ) + ep_child_scenes(self.inherit@[i as int])));
            }
        }
        proof {
            assert(self.inherit@.subrange(0, 0int) =~= Seq::<EntityPatch>::empty());
            assert(self.inherit@.subrange(0, n as int) =~= self.inherit@);
        }

        let ghost es1 = entries_model(scene.component_props@);
        let m = self.patch.len();
        for j in 0..m
            invariant
                m == self.patch@.len(),
                self.wf(),
                scene.wf(),
                entries_model(scene.component_props@) == accum_patches(
                    es1,
                    self.patch@.subrange(0, j as int),
                ),
                scenes_model(scene.children@) == cs0 + eps_child_scenes(self.inherit@),
        {
            self.patch[j].dynamic_patch(scene);
            proof {
                assert(self.patch@.subrange(0, j + 1).drop_last() =~= self.patch@.subrange(
                    0,
                    j as int,
                ));
                assert(self.patch@.subrange(0, j + 1).last() == self.patch@[j as int]);
            }
        }
        proof {
            assert(self.patch@.subrange(0, m as int) =~= self.patch@);
        }

        let k = self.children.len();
        for c in 0..k
            invariant
                k == self.children@.len(),
                self.wf(),
                scene.wf(),
                entries_model(scene.component_props@) == accum_patches(es1, self.patch@),
                scenes_model(scene.children@) == cs0 + eps_child_scenes(self.inherit@)
                    + ep_children_models(self.children@.subrange(0, c as int)),
        {
            proof {
                assert(decreases_to!(self => self.children));
                assert(decreases_to!(self.children => self.children@));
                assert(decreases_to!(self.children@ => self.children@[c as int]));
            }
            self.children[c].dynamic_patch_as_child(scene);
            proof {
                lemma_ep_children_models_snoc(self.children@.subrange(0, c + 1));
                assert(self.children@.subrange(0, c + 1).drop_last() =~= self.children@.subrange(
                    0,
                    c as int,
                ));
                assert(self.children@.subrange(0, c + 1).last() == self.children@[c as int]);
                assert((cs0 + eps_child_scenes(self.inherit@) + ep_children_models(
                    self.children@.subrange(0, c as int),
                )).push(ep_scene_model(self.children@[c as int])) =~= cs0 + eps_child_scenes(
                    self.inherit@,
                ) + ep_children_models(self.children@.subrange(0, c + 1)));
            }
        }
        proof {
            assert(self.children@.subrange(0, 0int) =~= Seq::<EntityPatch>::empty());
            assert(self.children@.subrange(0, k as int) =~= self.children@);
            assert(cs0 + eps_child_scenes(self.inherit@) + ep_children_models(self.children@)
                =~= cs0 + ep_child_scenes(*self));
        }
    }

    /// Flattens this node into a fresh dynamic scene and pushes it as a
    /// child of the given scene.
    pub fn dynamic_patch_as_child(&self, parent_scene: &mut DynamicScene)
        requires
            self.wf(),
            old(parent_scene).wf(),
        ensures
            final(parent_scene).wf(),
            entries_model(final(parent_scene).component_props@) == entries_model(
                old(parent_scene).component_props@,
            ),
            scenes_model(final(parent_scene).children@) == scenes_model(
                old(parent_scene).children@,
            ).push(ep_scene_model(*self)),
        decreases self, 1int,
    {
        let mut child_scene = DynamicScene::new();
        self.dynamic_patch(&mut child_scene);
        proof {
            assert(scene_model(child_scene) =~~= ep_scene_model(*self));
        }
        let ghost pre = parent_scene.children@;
        parent_scene.push_child(child_scene);
        proof {
            lemma_scenes_model_snoc(pre, child_scene);
        }
    }

    /// Constructs this node on the context entity. Without inheritance
    /// the static path runs: the composite patch is hot patched into the
    /// entity with no registry resolution, and children are spawned
    /// recursively. With inheritance, the node is flattened into a
    /// dynamic scene which is constructed through the registry.
    pub fn construct(self, context: &mut ConstructContext) -> (r: Result<(), ConstructError>)
        requires
            old(context).wf(),
            self.wf(),
        ensures
            final(context).wf(),
            final(context).id == old(context).id,
            ({
                let (wm, err) = ep_construct(
                    old(context).world@,
                    old(context).id.index as int,
                    self,
                );
                &&& final(context).world@ == wm
                &&& match (r, err) {
                    (Ok(u), None) => u == (),
                    (Err(e), Some(k)) => e.kind_spec() == k,
                    _ => false,
                }
            }),
        decreases self, 1int,
    {
        if self.inherit.len() == 0 {
            match hot_patch_members(&self.patch, context) {
                Err(e) => return Err(e),
                Ok(_) => {},
            }
            let ghost whole = self;
            let ghost w1 = context.world@;
            let ghost id0 = context.id;
            let ghost id = context.id.index as int;
            let ghost children0 = self.children@;
            proof {
                assert(hot_patch_list(old(context).world@, id, whole.patch@) == (
                    w1,
                    None::<ConstructErrKind>,
                ));
            }
            let mut children = self.children;
            let ghost mut done: int = 0;
            while children.len() > 0
                invariant
                    context.wf(),
                    context.id == id0,
                    id == context.id.index as int,
                    id0 == old(context).id,
                    whole == self,
                    whole.wf(),
                    whole.inherit@.len() == 0,
                    hot_patch_list(old(context).world@, id, whole.patch@) == (
                        w1,
                        None::<ConstructErrKind>,
                    ),
                    0 <= done <= children0.len(),
                    children0 == whole.children@,
                    children@ =~= children0.subrange(done, children0.len() as int),
                    ep_spawn_list(w1, id, children0) == ep_spawn_list(context.world@, id, children@),
                decreases children@.len(),
            {
                let ghost before = children@;
                let ghost w_pre = context.world@;
                let child_patch = children.remove(0);
                let ghost rest = children@;
                proof {
                    assert(child_patch == children0[done]);
                    assert(decreases_to!(whole => whole.children));
                    assert(decreases_to!(whole.children => whole.children@));
                    assert(decreases_to!(whole.children@ => whole.children@[done]));
                    assert(decreases_to!(whole => child_patch));
                    assert(before.first() == child_patch);
                    assert(before.drop_first() =~= rest);
                }
                match child_patch.spawn(context) {
                    Err(e) => {
                        return Err(e);
                    },
                    Ok(_) => {},
                }
                proof {
                    done = done + 1;
                    assert(children@ =~= children0.subrange(done, children0.len() as int));
                }
            }
            Ok(())
        } else {
            let mut dynamic_scene = DynamicScene::new();
            self.dynamic_patch(&mut dynamic_scene);
            proof {
                assert(scene_model(dynamic_scene) =~~= ep_scene_model(self));
            }
            dynamic_scene.construct(context)
        }
    }

    /// Spawns this node as a new entity attached beneath the context
    /// entity, and constructs it there recursively.
    pub fn spawn(self, context: &mut ConstructContext) -> (r: Result<(), ConstructError>)
        requires
            old(context).wf(),
            self.wf(),
        ensures
            final(context).wf(),
            final(context).id == old(context).id,
            ({
                let w0 = old(context).world@;
                let id = old(context).id.index as int;
                let w1 = with_child(spawned(w0), id, w0.entities.len() as int);
                let (wm, err) = ep_construct(w1, w0.entities.len() as int, self);
                &&& final(context).world@ == wm
                &&& match (r, err) {
                    (Ok(u), None) => u == (),
                    (Err(e), Some(k)) => e.kind_spec() == k,
                    _ => false,
                }
            }),
        decreases self, 2int,
    {
        let child = context.world.spawn_empty();
        context.world.add_child(context.id, child);
        let saved = context.id;
        context.id = child;
        let r = self.construct(context);
        context.id = saved;
        r
    }
}

/// Constructing a list of scene nodes on one entity, in order, stopping
/// at the first failure.
pub open spec fn eps_construct(w: WorldModel, id: int, list: Seq<EntityPatch>) -> (
    WorldModel,
    Option<ConstructErrKind>,
)
    decreases list, 8int,
{
    if list.len() == 0 {
        (w, None)
    } else {
        let r = ep_construct(w, id, list.first());
        if r.1 is Some {
            r
        } else {
            eps_construct(r.0, id, list.drop_first())
        }
    }
}

/// A sequence of scenes to be applied or spawned together.
#[derive(Debug)]
pub struct SceneIter {
    /// The scenes, in order.
    pub scenes: Vec<EntityPatch>,
}

impl SceneIter {
    /// Well-formed: every held scene is.
    pub open spec fn wf(self) -> bool {
        forall|i: int| 0 <= i < self.scenes@.len() ==> (#[trigger] self.scenes@[i]).wf()
    }

    /// Creates a scene sequence from the given scenes.
    pub fn new(scenes: Vec<EntityPatch>) -> (s: SceneIter)
        ensures
            s.scenes == scenes,
    {
        SceneIter { scenes }
    }

    /// Constructs each scene on the context entity, in order, stopping at
    /// the first failure.
    pub fn construct(self, context: &mut ConstructContext) -> (r: Result<(), ConstructError>)
        requires
            old(context).wf(),
            self.wf(),
        ensures
            final(context).wf(),
            final(context).id == old(context).id,
            ({
                let (wm, err) = eps_construct(
                    old(context).world@,
                    old(context).id.index as int,
                    self.scenes@,
                );
                &&& final(context).world@ == wm
                &&& match (r, err) {
                    (Ok(u), None) => u == (),
                    (Err(e), Some(k)) => e.kind_spec() == k,
                    _ => false,
                }
            }),
    {
        let ghost whole = self;
        let ghost id0 = context.id;
        let ghost id = context.id.index as int;
        let ghost scenes0 = self.scenes@;
        let mut scenes = self.scenes;
        let ghost mut done: int = 0;
        while scenes.len() > 0
            invariant
                context.wf(),
                context.id == id0,
                id == context.id.index as int,
                id0 == old(context).id,
                whole == self,
                whole.wf(),
                scenes0 == whole.scenes@,
                0 <= done <= scenes0.len(),
                scenes@ =~= scenes0.subrange(done, scenes0.len() as int),
                eps_construct(old(context).world@, id, scenes0) == eps_construct(
                    context.world@,
                    id,
                    scenes@,
                ),
            decreases scenes@.len(),
        {
            let ghost before = scenes@;
            let ghost w_pre = context.world@;
            let scene = scenes.remove(0);
            proof {
                assert(before.first() == scene);
                assert(before.drop_first() =~= scenes@);
            }
            match scene.construct(context) {
                Err(e) => {
                    proof {
                        assert(eps_construct(w_pre, id, before) == ep_construct(
                            w_pre,
                            id,
                            scene,
                        ));
                    }
                    return Err(e);
                },
                Ok(_) => {},
            }
            proof {
                done = done + 1;
                assert(scenes@ =~= scenes0.subrange(done, scenes0.len() as int));
            }
        }
        Ok(())
    }

    /// Spawns each scene as a new entity beneath the context entity, in
    /// order, stopping at the first failure.
    pub fn spawn(self, context: &mut ConstructContext) -> (r: Result<(), ConstructError>)
        requires
            old(context).wf(),
            self.wf(),
        ensures
            final(context).wf(),
            final(context).id == old(context).id,
            ({
                let (wm, err) = ep_spawn_list(
                    old(context).world@,
                    old(context).id.index as int,
                    self.scenes@,
                );
                &&& final(context).world@ == wm
                &&& match (r, err) {
                    (Ok(u), None) => u == (),
                    (Err(e), Some(k)) => e.kind_spec() == k,
                    _ => false,
                }
            }),
    {
        let ghost whole = self;
        let ghost id0 = context.id;
        let ghost id = context.id.index as int;
        let ghost scenes0 = self.scenes@;
        let mut scenes = self.scenes;
        let ghost mut done: int = 0;
        while scenes.len() > 0
            invariant
                context.wf(),
                context.id == id0,
                id == context.id.index as int,
                id0 == old(context).id,
                whole == self,
                whole.wf(),
                scenes0 == whole.scenes@,
                0 <= done <= scenes0.len(),
                scenes@ =~= scenes0.subrange(done, scenes0.len() as int),
                ep_spawn_list(old(context).world@, id, scenes0) == ep_spawn_list(
                    context.world@,
                    id,
                    scenes@,
                ),
            decreases scenes@.len(),
        {
            let ghost before = scenes@;
            let ghost w_pre = context.world@;
            let scene = scenes.remove(0);
            proof {
                assert(before.first() == scene);
                assert(before.drop_first() =~= scenes@);
            }
            match scene.spawn(context) {
                Err(e) => {
                    proof {
                        let child = w_pre.entities.len() as int;
                        let w1 = with_child(spawned(w_pre), id, child);
                        assert(ep_spawn_list(w_pre, id, before) == ep_construct(
                            w1,
                            child,
                            scene,
                        ));
                    }
                    return Err(e);
                },
                Ok(_) => {},
            }
            proof {
                done = done + 1;
                assert(scenes@ =~= scenes0.subrange(done, scenes0.len() as int));
            }
        }
        Ok(())
    }

    /// Applies each scene to the dynamic scene, in order.
    pub fn dynamic_patch(&self, scene: &mut DynamicScene)
        requires
            self.wf(),
            old(scene).wf(),
        ensures
            final(scene).wf(),
            entries_model(final(scene).component_props@) == eps_entries(
                entries_model(old(scene).component_props@),
                self.scenes@,
            ),
            scenes_model(final(scene).children@) == scenes_model(old(scene).children@)
                + eps_child_scenes(self.scenes@),
    {
        let ghost es0 = entries_model(scene.component_props@);
        let ghost cs0 = scenes_model(scene.children@);
        proof {
            assert(self.scenes@.subrange(0, 0int) =~= Seq::<EntityPatch>::empty());
            assert(cs0 + eps_child_scenes(Seq::<EntityPatch>::empty()) =~= cs0);
        }
        let n = self.scenes.len();
        for i in 0..n
            invariant
                n == self.scenes@.len(),
                self.wf(),
                scene.wf(),
                entries_model(scene.component_props@) == eps_entries(
                    es0,
                    self.scenes@.subrange(0, i as int),
                ),
                scenes_model(scene.children@) == cs0 + eps_child_scenes(
                    self.scenes@.subrange(0, i as int),
                ),
        {
            self.scenes[i].dynamic_patch(scene);
            proof {
                lemma_eps_entries_snoc(es0, self.scenes@.subrange(0, i + 1));
                assert(self.scenes@.subrange(0, i + 1).drop_last() =~= self.scenes@.subrange(
                    0,
                    i as int,
                ));
                assert(self.scenes@.subrange(0, i + 1).last() == self.scenes@[i as int]);
                assert(cs0 + eps_child_scenes(self.scenes@.subrange(0, i as int))
                    + ep_child_scenes(self.scenes@[i as int]) =~= cs0 + (eps_child_scenes(
                    self.scenes@.subrange(0, i as int),
                ) + ep_child_scenes(self.scenes@[i as int])));
            }
        }
        proof {
            assert(self.scenes@.subrange(0, n as int) =~= self.scenes@);
        }
    }

    /// Flattens each scene into its own child of the dynamic scene, in
    /// order.
    pub fn dynamic_patch_as_child(&self, scene: &mut DynamicScene)
        requires
            self.wf(),
            old(scene).wf(),
        ensures
            final(scene).wf(),
            entries_model(final(scene).component_props@) == entries_model(
                old(scene).component_props@,
            ),
            scenes_model(final(scene).children@) == scenes_model(old(scene).children@)
                + ep_children_models(self.scenes@),
    {
        let ghost es0 = entries_model(scene.component_props@);
        let ghost cs0 = scenes_model(scene.children@);
        proof {
            assert(self.scenes@.subrange(0, 0int) =~= Seq::<EntityPatch>::empty());
            assert(cs0 + ep_children_models(Seq::<EntityPatch>::empty()) =~= cs0);
        }
        let n = self.scenes.len();
        for i in 0..n
            invariant
                n == self.scenes@.len(),
                self.wf(),
                scene.wf(),
                entries_model(scene.component_props@) == es0,
                scenes_model(scene.children@) == cs0 + ep_children_models(
                    self.scenes@.subrange(0, i as int),
                ),
        {
            self.scenes[i].dynamic_patch_as_child(scene);
            proof {
                lemma_ep_children_models_snoc(self.scenes@.subrange(0, i + 1));
                assert(self.scenes@.subrange(0, i + 1).drop_last() =~= self.scenes@.subrange(
                    0,
                    i as int,
                ));
                assert(self.scenes@.subrange(0, i + 1).last() == self.scenes@[i as int]);
                assert((cs0 + ep_children_models(self.scenes@.subrange(0, i as int))).push(
                    ep_scene_model(self.scenes@[i as int]),
                ) =~= cs0 + ep_children_models(self.scenes@.subrange(0, i + 1)));
            }
        }
        proof {
            assert(self.scenes@.subrange(0, n as int) =~= self.scenes@);
        }
    }
}

impl ConstructContext {
    /// Constructs a scene on the context entity, recursively spawning its
    /// descendants.
    pub fn construct_scene(&mut self, scene: EntityPatch) -> (r: Result<(), ConstructError>)
        requires
            old(self).wf(),
            scene.wf(),
        ensures
            final(self).wf(),
            final(self).id == old(self).id,
            ({
                let (wm, err) = ep_construct(old(self).world@, old(self).id.index as int, scene);
                &&& final(self).world@ == wm
                &&& match (r, err) {
                    (Ok(u), None) => u == (),
                    (Err(e), Some(k)) => e.kind_spec() == k,
                    _ => false,
                }
            }),
    {
        scene.construct(self)
    }

    /// Spawns a scene beneath the context entity recursively.
    pub fn spawn_scene(&mut self, scene: EntityPatch) -> (r: Result<(), ConstructError>)
        requires
            old(self).wf(),
            scene.wf(),
        ensures
            final(self).wf(),
            final(self).id == old(self).id,
            ({
                let w0 = old(self).world@;
                let id = old(self).id.index as int;
                let w1 = with_child(spawned(w0), id, w0.entities.len() as int);
                let (wm, err) = ep_construct(w1, w0.entities.len() as int, scene);
                &&& final(self).world@ == wm
                &&& match (r, err) {
                    (Ok(u), None) => u == (),
                    (Err(e), Some(k)) => e.kind_spec() == k,
                    _ => false,
                }
            }),
    {
        scene.spawn(self)
    }
}

/// Accumulating a node list ending in one more node accumulates the
/// prefix, then the last node.
pub proof fn lemma_eps_entries_snoc(es: Seq<EntryModel>, list: Seq<EntityPatch>)
    requires
        list.len() > 0,
    ensures
        eps_entries(es, list) == ep_entries(eps_entries(es, list.drop_last()), list.last()),
    decreases list.len(),
{
    reveal_with_fuel(eps_entries, 3);
    if list.len() == 1 {
        assert(list.drop_last() =~= Seq::<EntityPatch>::empty());
        assert(list.first() == list.last());
        assert(list.drop_first() =~= Seq::<EntityPatch>::empty());
    } else {
        lemma_eps_entries_snoc(ep_entries(es, list.first()), list.drop_first());
        assert(list.drop_first().drop_last() =~= list.drop_last().drop_first());
        assert(list.drop_first().last() == list.last());
        assert(list.drop_last().first() == list.first());
        assert(list.drop_last().len() > 0);
    }
}

/// The scene list of a node list ending in one more node is the prefix's
/// list with the last node's scene pushed.
pub proof fn lemma_ep_children_models_snoc(list: Seq<EntityPatch>)
    requires
        list.len() > 0,
    ensures
        ep_children_models(list) == ep_children_models(list.drop_last()).push(
            ep_scene_model(list.last()),
        ),
    decreases list.len(),
{
    reveal_with_fuel(ep_children_models, 3);
    if list.len() == 1 {
        assert(list.drop_last() =~= Seq::<EntityPatch>::empty());
        assert(ep_children_models(list) =~= ep_children_models(list.drop_last()).push(
            ep_scene_model(list.last()),
        ));
    } else {
        lemma_ep_children_models_snoc(list.drop_first());
        assert(list.drop_first().drop_last() =~= list.drop_last().drop_first());
        assert(list.drop_first().last() == list.last());
        assert(list.drop_last().first() == list.first());
        assert(list.drop_last().len() > 0);
        assert(ep_children_models(list) =~= ep_children_models(list.drop_last()).push(
            ep_scene_model(list.last()),
        ));
    }
}

/// The image list of a scene list with one scene pushed.
pub proof fn lemma_scenes_model_snoc(ds: Seq<DynamicScene>, d: DynamicScene)
    ensures
        scenes_model(ds.push(d)) == scenes_model(ds).push(scene_model(d)),
    decreases ds.len(),
{
    reveal_with_fuel(scenes_model, 3);
    if ds.len() == 0 {
        assert(ds.push(d).drop_first() =~= Seq::<DynamicScene>::empty());
        assert(scenes_model(ds.push(d)) =~= scenes_model(ds).push(scene_model(d)));
    } else {
        lemma_scenes_model_snoc(ds.drop_first(), d);
        assert(ds.push(d).drop_first() =~= ds.drop_first().push(d));
        assert(ds.push(d).first() == ds.first());
        assert(scenes_model(ds.push(d)) =~= scenes_model(ds).push(scene_model(d)));
    }
}

} // verus!
