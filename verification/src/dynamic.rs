//! The dynamic scene: a type-erased patch accumulator.
//!
//! Inheritance and hot reload need patches from several sources merged
//! before one construction per component type. A [`DynamicScene`] keys
//! pending patches by runtime type identity, preserving accumulation
//! order (base sources first, local overrides last), holds nested child
//! scenes, and is consumed exactly once by a construction pass that
//! resolves each type against the registry, folds the queued patches into
//! default props, constructs, inserts, and recurses into children.

use vstd::prelude::*;

use crate::construct::{rule_result, ConstructContext, ConstructError};
use crate::props::{apply_writes, writes_model, duplicate_writes, FieldWrite, ValModel};
use crate::patch::ConstructPatch;
use crate::registry::resolves;
use crate::world::{spawned, with_child, with_component, with_lookup, WorldModel};

verus! {

/// A type-erased patch: the ordered field writes of one accumulated
/// patch, replayable against a boxed props value of the target type.
#[derive(Debug)]
pub struct ErasedPatch {
    /// The ordered field writes.
    pub writes: Vec<FieldWrite>,
}

/// The pending patches of one component type.
#[derive(Debug)]
pub struct DynEntry {
    /// The component type identity.
    pub type_key: u64,
    /// The queued patches, oldest first.
    pub patches: Vec<ErasedPatch>,
}

/// The image of one entry: its type identity and its queued write lists.
pub type EntryModel = (u64, Seq<Seq<(u64, ValModel)>>);

/// The image of an entry.
pub open spec fn entry_model(e: DynEntry) -> EntryModel {
    (e.type_key, e.patches@.map_values(|p: ErasedPatch| writes_model(p.writes@)))
}

/// The image of an entry list.
pub open spec fn entries_model(es: Seq<DynEntry>) -> Seq<EntryModel> {
    es.map_values(|e: DynEntry| entry_model(e))
}

/// Flattens queued write lists into one ordered write list, oldest first.
pub open spec fn flat_lists(ls: Seq<Seq<(u64, ValModel)>>) -> Seq<(u64, ValModel)>
    decreases ls.len(),
{
    if ls.len() == 0 {
        Seq::empty()
    } else {
        flat_lists(ls.drop_last()) + ls.last()
    }
}

/// The index of the entry holding a type identity, or the list length
/// when no entry holds it.
pub open spec fn key_index(es: Seq<EntryModel>, k: u64) -> int
    decreases es.len(),
{
    if es.len() == 0 {
        0
    } else if es.first().0 == k {
        0
    } else {
        1 + key_index(es.drop_first(), k)
    }
}

/// Whether some entry holds a type identity.
pub open spec fn has_key(es: Seq<EntryModel>, k: u64) -> bool {
    exists|i: int| 0 <= i < es.len() && es[i].0 == k
}

/// Accumulating one patch on a scene level: the write list is appended to
/// the type's entry, which is created at the end when absent.
pub open spec fn accum(es: Seq<EntryModel>, k: u64, w: Seq<(u64, ValModel)>) -> Seq<EntryModel> {
    if has_key(es, k) {
        let i = key_index(es, k);
        es.update(i, (k, es[i].1.push(w)))
    } else {
        es.push((k, seq![w]))
    }
}

/// Replacing the queue of one type on a scene level: the type's entry is
/// overwritten with the given queue, or created at the end when absent.
pub open spec fn replace_entry(
    es: Seq<EntryModel>,
    k: u64,
    ls: Seq<Seq<(u64, ValModel)>>,
) -> Seq<EntryModel> {
    if has_key(es, k) {
        es.update(key_index(es, k), (k, ls))
    } else {
        es.push((k, ls))
    }
}

/// `key_index` finds the first entry with the key, and the length when
/// there is none.
pub proof fn lemma_key_index(es: Seq<EntryModel>, k: u64)
    ensures
        has_key(es, k) ==> 0 <= key_index(es, k) < es.len() && es[key_index(es, k)].0 == k
            && (forall|j: int| 0 <= j < key_index(es, k) ==> es[j].0 != k),
        !has_key(es, k) ==> key_index(es, k) == es.len(),
    decreases es.len(),
{
    if es.len() > 0 {
        lemma_key_index(es.drop_first(), k);
        if es.first().0 == k {
        } else {
            assert(forall|i: int| 0 < i < es.len() ==> es.drop_first()[i - 1] == es[i]);
            if has_key(es, k) {
                let i = choose|i: int| 0 <= i < es.len() && es[i].0 == k;
                assert(es.drop_first()[i - 1].0 == k);
                assert(has_key(es.drop_first(), k));
            }
            if has_key(es.drop_first(), k) {
                let i = choose|i: int| 0 <= i < es.drop_first().len() && es.drop_first()[i].0 == k;
                assert(es[i + 1].0 == k);
            }
        }
    }
}

/// All writes queued for one type on a scene level, oldest first.
pub open spec fn scene_writes(es: Seq<EntryModel>, k: u64) -> Seq<(u64, ValModel)> {
    if has_key(es, k) {
        flat_lists(es[key_index(es, k)].1)
    } else {
        Seq::empty()
    }
}

/// Accumulating a patch appends its writes to its own type's queue and
/// leaves every other type's queue unchanged.
pub proof fn lemma_accum_scene_writes(es: Seq<EntryModel>, k: u64, w: Seq<(u64, ValModel)>, q: u64)
    ensures
        q == k ==> scene_writes(accum(es, k, w), q) == scene_writes(es, k) + w,
        q != k ==> scene_writes(accum(es, k, w), q) == scene_writes(es, q),
{
    lemma_key_index(es, k);
    let es2 = accum(es, k, w);
    if has_key(es, k) {
        let i = key_index(es, k);
        assert(es2[i] == (k, es[i].1.push(w)));
        assert(forall|j: int| 0 <= j < es2.len() && j != i ==> es2[j] == es[j]);
        assert(forall|j: int| 0 <= j < es2.len() ==> es2[j].0 == es[j].0);
        assert(has_key(es2, k)) by {
            assert(es2[i].0 == k);
        }
        if q == k {
            lemma_key_index_frame(es, es2, q);
            assert(es[i].1.push(w).drop_last() =~= es[i].1);
            assert(flat_lists(es[i].1.push(w)) == flat_lists(es[i].1) + w);
        } else {
            if has_key(es, q) {
                let j = choose|j: int| 0 <= j < es.len() && es[j].0 == q;
                assert(es2[j].0 == q);
                assert(has_key(es2, q));
                lemma_key_index_frame(es, es2, q);
                lemma_key_index(es2, q);
                assert(key_index(es2, q) != i);
                assert(es2[key_index(es2, q)] == es[key_index(es, q)]);
            } else {
                assert(!has_key(es2, q)) by {
                    if has_key(es2, q) {
                        let j = choose|j: int| 0 <= j < es2.len() && es2[j].0 == q;
                        assert(es[j].0 == q);
                    }
                }
            }
        }
    } else {
        assert(es2 == es.push((k, seq![w])));
        assert(forall|j: int| 0 <= j < es.len() ==> es2[j] == es[j]);
        if q == k {
            assert(es2[es.len() as int].0 == k);
            assert(has_key(es2, k));
            assert(key_index(es2, k) == es.len()) by {
                assert(forall|j: int| 0 <= j < es.len() ==> es2[j].0 != k);
                lemma_key_index_frame_prefix(es2, es.len() as int, k);
            }
            assert(seq![w].drop_last() =~= Seq::<Seq<(u64, ValModel)>>::empty());
            assert(seq![w].last() == w);
            assert(flat_lists(seq![w]) == flat_lists(Seq::<Seq<(u64, ValModel)>>::empty()) + w);
            assert(scene_writes(es2, k) =~= w);
            assert(scene_writes(es, k) + w =~= w);
        } else {
            if has_key(es, q) {
                let j = choose|j: int| 0 <= j < es.len() && es[j].0 == q;
                assert(es2[j].0 == q);
                assert(has_key(es2, q));
                lemma_key_index_frame(es, es2, q);
                lemma_key_index(es, q);
                lemma_key_index(es2, q);
                assert(es2[key_index(es2, q)] == es[key_index(es, q)]);
            } else {
                assert(!has_key(es2, q)) by {
                    if has_key(es2, q) {
                        let j = choose|j: int| 0 <= j < es2.len() && es2[j].0 == q;
                        if j < es.len() {
                            assert(es[j].0 == q);
                        }
                    }
                }
            }
        }
    }
}

/// Two entry lists that agree below the first occurrence of a key, agree
/// on where that key first occurs.
proof fn lemma_key_index_frame(es: Seq<EntryModel>, es2: Seq<EntryModel>, q: u64)
    requires
        has_key(es, q),
        has_key(es2, q),
        es.len() <= es2.len(),
        forall|j: int| 0 <= j <= key_index(es, q) && j < es.len() ==> es2[j].0 == es[j].0,
    ensures
        key_index(es2, q) == key_index(es, q),
{
    lemma_key_index(es, q);
    lemma_key_index(es2, q);
    let i = key_index(es, q);
    let i2 = key_index(es2, q);
    assert(es2[i].0 == q);
    if i2 < i {
        assert(es[i2].0 == q);
    }
}

/// A dynamic scene: pending patches keyed by component type identity,
/// plus nested child scenes.
#[derive(Debug)]
pub struct DynamicScene {
    /// Per component type, the queued patches, in first-touch order.
    pub component_props: Vec<DynEntry>,
    /// The child scenes.
    pub children: Vec<DynamicScene>,
}

impl DynamicScene {
    /// Well-formed: at most one entry per component type, recursively.
    pub open spec fn wf(self) -> bool
        decreases self,
    {
        &&& (forall|i: int, j: int|
            0 <= i < j < self.component_props@.len()
                ==> (#[trigger] self.component_props@[i]).type_key
                != (#[trigger] self.component_props@[j]).type_key)
        &&& (forall|i: int|
            0 <= i < self.children@.len() ==> (#[trigger] self.children@[i]).wf())
    }

    /// Creates an empty dynamic scene.
    pub fn new() -> (d: DynamicScene)
        ensures
            d.wf(),
            entries_model(d.component_props@) == Seq::<EntryModel>::empty(),
            d.children@.len() == 0,
    {
        let d = DynamicScene { component_props: Vec::new(), children: Vec::new() };
        proof {
            assert(entries_model(d.component_props@) =~= Seq::<EntryModel>::empty());
        }
        d
    }

    /// Adds a child scene beneath this one.
    pub fn push_child(&mut self, child: DynamicScene)
        requires
            old(self).wf(),
            child.wf(),
        ensures
            final(self).wf(),
            final(self).component_props == old(self).component_props,
            final(self).children@ == old(self).children@.push(child),
    {
        self.children.push(child);
    }

    /// Queues one write list for a component type: appended to the type's
    /// existing entry, or opening a new entry at the end.
    pub fn queue_writes(&mut self, type_key: u64, writes: Vec<FieldWrite>)
        requires
            old(self).wf(),
        ensures
            final(self).wf(),
            entries_model(final(self).component_props@) == accum(
                entries_model(old(self).component_props@),
                type_key,
                writes_model(writes@),
            ),
            final(self).children@ == old(self).children@,
    {
        let ghost es = entries_model(self.component_props@);
        proof {
            lemma_key_index(es, type_key);
        }
        let n = self.component_props.len();
        for i in 0..n
            invariant
                n == self.component_props@.len(),
                old(self).wf(),
                self == old(self),
                es == entries_model(self.component_props@),
                forall|j: int| 0 <= j < i ==> (#[trigger] self.component_props@[j]).type_key
                    != type_key,
        {
            if self.component_props[i].type_key == type_key {
                let mut slot = DynEntry { type_key, patches: Vec::new() };
                self.component_props.set_and_swap(i, &mut slot);
                slot.patches.push(ErasedPatch { writes });
                self.component_props.set_and_swap(i, &mut slot);
                proof {
                    assert(es[i as int].0 == type_key);
                    assert(has_key(es, type_key));
                    lemma_key_index_frame_prefix(es, i as int, type_key);
                    assert(entries_model(self.component_props@) =~~= accum(
                        es,
                        type_key,
                        writes_model(writes@),
                    ));
                }
                return ;
            }
        }
        proof {
            assert(!has_key(es, type_key)) by {
                if has_key(es, type_key) {
                    let j = choose|j: int| 0 <= j < es.len() && es[j].0 == type_key;
                    assert(self.component_props@[j].type_key == type_key);
                }
            }
        }
        let mut patches: Vec<ErasedPatch> = Vec::new();
        patches.push(ErasedPatch { writes });
        self.component_props.push(DynEntry { type_key, patches });
        proof {
            assert(entries_model(self.component_props@) =~~= accum(
                es,
                type_key,
                writes_model(writes@),
            ));
        }
    }

    /// Overwrites the queue of a component type with the given patches:
    /// any patches queued for it before are discarded.
    pub fn set_entry(&mut self, type_key: u64, patches: Vec<ErasedPatch>)
        requires
            old(self).wf(),
        ensures
            final(self).wf(),
            entries_model(final(self).component_props@) == replace_entry(
                entries_model(old(self).component_props@),
                type_key,
                patches@.map_values(|p: ErasedPatch| writes_model(p.writes@)),
            ),
            final(self).children@ == old(self).children@,
    {
        let ghost es = entries_model(self.component_props@);
        let ghost ls = patches@.map_values(|p: ErasedPatch| writes_model(p.writes@));
        proof {
            lemma_key_index(es, type_key);
        }
        let n = self.component_props.len();
        for i in 0..n
            invariant
                n == self.component_props@.len(),
                old(self).wf(),
                self == old(self),
                es == entries_model(self.component_props@),
                ls == patches@.map_values(|p: ErasedPatch| writes_model(p.writes@)),
                forall|j: int| 0 <= j < i ==> (#[trigger] self.component_props@[j]).type_key
                    != type_key,
        {
            if self.component_props[i].type_key == type_key {
                let mut slot = DynEntry { type_key, patches };
                self.component_props.set_and_swap(i, &mut slot);
                proof {
                    assert(es[i as int].0 == type_key);
                    assert(has_key(es, type_key));
                    lemma_key_index_frame_prefix(es, i as int, type_key);
                    assert(entries_model(self.component_props@) =~~= replace_entry(
                        es,
                        type_key,
                        ls,
                    ));
                }
                return ;
            }
        }
        proof {
            assert(!has_key(es, type_key)) by {
                if has_key(es, type_key) {
                    let j = choose|j: int| 0 <= j < es.len() && es[j].0 == type_key;
                    assert(self.component_props@[j].type_key == type_key);
                }
            }
        }
        self.component_props.push(DynEntry { type_key, patches });
        proof {
            assert(entries_model(self.component_props@) =~~= replace_entry(es, type_key, ls));
        }
    }
}

/// When an entry list's keys are distinct and position `i` holds the key,
/// `key_index` is `i`.
proof fn lemma_key_index_frame_prefix(es: Seq<EntryModel>, i: int, k: u64)
    requires
        0 <= i < es.len(),
        es[i].0 == k,
        forall|j: int| 0 <= j < i ==> es[j].0 != k,
    ensures
        key_index(es, k) == i,
{
    lemma_key_index(es, k);
    assert(has_key(es, k));
}

/// The mathematical image of a dynamic scene: its entry images and the
/// images of its child scenes.
#[verifier::ext_equal]
pub struct SceneModel {
    /// The entry images, in first-touch order.
    pub entries: Seq<EntryModel>,
    /// The child scene images, in order.
    pub children: Seq<SceneModel>,
}

/// The image of a dynamic scene.
pub open spec fn scene_model(d: DynamicScene) -> SceneModel
    decreases d, 1int,
{
    SceneModel {
        entries: entries_model(d.component_props@),
        children: scenes_model(d.children@),
    }
}

/// The images of a list of dynamic scenes.
pub open spec fn scenes_model(ds: Seq<DynamicScene>) -> Seq<SceneModel>
    decreases ds, 0int,
{
    if ds.len() == 0 {
        Seq::empty()
    } else {
        seq![scene_model(ds.first())] + scenes_model(ds.drop_first())
    }
}

/// The images of a scene list are its members' images, positionally.
pub proof fn lemma_scenes_model(ds: Seq<DynamicScene>)
    ensures
        scenes_model(ds).len() == ds.len(),
        forall|i: int| 0 <= i < ds.len() ==> scenes_model(ds)[i] == scene_model(ds[i]),
    decreases ds.len(),
{
    if ds.len() > 0 {
        lemma_scenes_model(ds.drop_first());
    }
}

/// What constructing one entry does to the world. The type is resolved
/// against the registry (counted by the instrumentation counter); when
/// resolution fails the entry is skipped. A self-describing type (its
/// props type is itself) is patched in place on the existing component,
/// or on its default props when absent, with no construction call. Any
/// other type has its queued patches folded into default props, its rule
/// run, and the result inserted; a failing construction is skipped.
pub open spec fn entry_construct(w: WorldModel, id: int, em: EntryModel) -> WorldModel {
    let w1 = with_lookup(w);
    if !resolves(w.registry, em.0) {
        w1
    } else {
        match w.registry[em.0].construct {
            Some(rc) => {
                let flat = flat_lists(em.1);
                if rc.props_key == em.0 {
                    let base = if w.entities[id].components.contains_key(em.0) {
                        w.entities[id].components[em.0]
                    } else {
                        rc.default_props
                    };
                    with_component(w1, id, em.0, apply_writes(base, flat))
                } else {
                    match rule_result(w, rc.rule, apply_writes(rc.default_props, flat)) {
                        Ok(c) => with_component(w1, id, em.0, c),
                        Err(_) => w1,
                    }
                }
            },
            None => w1,
        }
    }
}

/// Constructing a list of entries constructs each in order.
pub open spec fn entries_construct(w: WorldModel, id: int, es: Seq<EntryModel>) -> WorldModel
    decreases es.len(),
{
    if es.len() == 0 {
        w
    } else {
        entry_construct(entries_construct(w, id, es.drop_last()), id, es.last())
    }
}

/// What constructing a dynamic scene on entity `id` does to the world:
/// all entries in order, then each child scene on a fresh entity attached
/// beneath `id`, depth first.
pub open spec fn scene_construct(w: WorldModel, id: int, m: SceneModel) -> WorldModel
    decreases m, 1int,
{
    children_construct(entries_construct(w, id, m.entries), id, m.children)
}

/// Constructs each child scene in order: a new entity is created,
/// attached beneath `id`, and the child scene is constructed on it in
/// full before the next sibling.
pub open spec fn children_construct(w: WorldModel, id: int, cs: Seq<SceneModel>) -> WorldModel
    decreases cs, 0int,
{
    if cs.len() == 0 {
        w
    } else {
        let child = w.entities.len() as int;
        let w1 = with_child(spawned(w), id, child);
        let w2 = scene_construct(w1, child, cs.first());
        children_construct(w2, id, cs.drop_first())
    }
}

/// Constructing entries adds no entities.
pub proof fn lemma_entries_construct_len(w: WorldModel, id: int, es: Seq<EntryModel>)
    requires
        0 <= id < w.entities.len(),
    ensures
        entries_construct(w, id, es).entities.len() == w.entities.len(),
    decreases es.len(),
{
    if es.len() > 0 {
        lemma_entries_construct_len(w, id, es.drop_last());
        let w1 = entries_construct(w, id, es.drop_last());
        assert(entry_construct(w1, id, es.last()).entities.len() == w1.entities.len());
    }
}

impl DynamicScene {
    /// Constructs the scene's pending patches on the context entity,
    /// inserts the resulting components, and spawns children recursively.
    ///
    /// The scene is consumed: constructing it again would spawn its
    /// children again. Entries whose type the registry does not resolve,
    /// and entries whose construction fails, are skipped; the rest of the
    /// scene still completes, so the call never fails.
    pub fn construct(self, context: &mut ConstructContext) -> (r: Result<(), ConstructError>)
        requires
            old(context).wf(),
        ensures
            final(context).wf(),
            final(context).id == old(context).id,
            final(context).world.registry == old(context).world.registry,
            final(context).world@ == scene_construct(
                old(context).world@,
                old(context).id.index as int,
                scene_model(self),
            ),
            r is Ok,
        decreases self,
    {
        let ghost whole = self;
        let ghost w0 = context.world@;
        let ghost id0 = context.id;
        let ghost id = context.id.index as int;
        let DynamicScene { component_props, children } = self;
        let ghost es = entries_model(component_props@);

        let n = component_props.len();
        for i in 0..n
            invariant
                n == component_props@.len(),
                es == entries_model(component_props@),
                context.wf(),
                context.id == id0,
                id == context.id.index as int,
                context.world.registry == old(context).world.registry,
                context.world@ == entries_construct(w0, id, es.subrange(0, i as int)),
        {
            let ghost w_pre = context.world@;
            let entry = &component_props[i];
            let resolved = context.world.resolve_type(entry.type_key);
            context.world.count_lookup();
            match resolved {
                None => {},
                Some(rc) => {
                    let is_self_describing = rc.props_key == entry.type_key;
                    let mut props = if is_self_describing {
                        match context.world.get_component(context.id, entry.type_key) {
                            Some(existing) => existing.duplicate(),
                            None => rc.default_props(),
                        }
                    } else {
                        rc.default_props()
                    };
                    let ghost base = props.deep_view();
                    let m = entry.patches.len();
                    for j in 0..m
                        invariant
                            m == entry.patches@.len(),
                            props.wf(),
                            props.deep_view() == apply_writes(
                                base,
                                flat_lists(entry_model(*entry).1.subrange(0, j as int)),
                            ),
                        decreases m - j,
                    {
                        props.apply(&entry.patches[j].writes);
                        proof {
                            let ls = entry_model(*entry).1;
                            assert(ls.subrange(0, j + 1).drop_last() =~= ls.subrange(0, j as int));
                            assert(ls.subrange(0, j + 1).last() == ls[j as int]);
                            crate::props::lemma_apply_writes_concat(
                                base,
                                flat_lists(ls.subrange(0, j as int)),
                                ls[j as int],
                            );
                        }
                    }
                    proof {
                        let ls = entry_model(*entry).1;
                        assert(ls.subrange(0, m as int) =~= ls);
                    }
                    if is_self_describing {
                        context.world.insert_component(context.id, entry.type_key, props);
                    } else {
                        match context.construct(&rc, props) {
                            Ok(component) => {
                                context.world.insert_component(
                                    context.id,
                                    entry.type_key,
                                    component,
                                );
                            },
                            Err(_) => {},
                        }
                    }
                },
            }
            proof {
                assert(es.subrange(0, i + 1).drop_last() =~= es.subrange(0, i as int));
                assert(es.subrange(0, i + 1).last() == es[i as int]);
                assert(es[i as int] == entry_model(component_props@[i as int]));
                assert(context.world@ =~~= entry_construct(w_pre, id, es[i as int]));
            }
        }
        proof {
            assert(es.subrange(0, n as int) =~= es);
        }

        let ghost w1 = context.world@;
        let ghost children0 = scenes_model(children@);
        proof {
            lemma_scenes_model(children@);
        }
        let mut children = children;
        let ghost mut done: int = 0;
        while children.len() > 0
            invariant
                context.wf(),
                context.id == id0,
                id == context.id.index as int,
                context.world.registry == old(context).world.registry,
                0 <= done <= children0.len(),
                whole == self,
                children0 == scenes_model(whole.children@),
                children0.len() == whole.children@.len(),
                scenes_model(children@) =~= children0.subrange(done, children0.len() as int),
                done + children@.len() == children0.len(),
                forall|j: int| 0 <= j < children@.len()
                    ==> #[trigger] children@[j] == whole.children@[done + j],
                children_construct(w1, id, children0) == children_construct(
                    context.world@,
                    id,
                    scenes_model(children@),
                ),
            decreases children@.len(),
        {
            let ghost before = children@;
            let ghost w_pre = context.world@;
            let child_scene = children.remove(0);
            let ghost rest = children@;
            proof {
                assert(child_scene == whole.children@[done]);
                assert(decreases_to!(whole => whole.children));
                assert(decreases_to!(whole.children => whole.children@));
                assert(decreases_to!(whole.children@ => whole.children@[done]));
                assert(decreases_to!(whole => whole.children@[done]));
                assert(decreases_to!(whole => child_scene));
                lemma_scenes_model(before);
                assert(scenes_model(before)[0] == scene_model(child_scene));
            }
            let child = context.world.spawn_empty();
            context.world.add_child(context.id, child);
            let saved = context.id;
            context.id = child;
            let _ = child_scene.construct(context);
            context.id = saved;
            proof {
                done = done + 1;
                assert(before.first() == child_scene);
                assert(before.drop_first() =~= rest);
                let bm = scenes_model(before);
                assert(bm == seq![scene_model(child_scene)] + scenes_model(rest));
                assert(bm.first() == scene_model(child_scene));
                assert(bm.drop_first() =~= scenes_model(rest));
                assert(scenes_model(children@) =~= children0.subrange(done, children0.len() as int));
                assert(children_construct(w_pre, id, bm) == children_construct(
                    context.world@,
                    id,
                    scenes_model(rest),
                ));
            }
        }
        proof {
            assert(children@.len() == 0);
            assert(scenes_model(children@) =~= Seq::<SceneModel>::empty());
            assert(children_construct(context.world@, id, scenes_model(children@))
                == context.world@);
            assert(scene_model(whole).entries == es);
            assert(scene_model(whole).children == children0);
        }
        Ok(())
    }
}

impl ConstructPatch {
    /// Adds this patch on top of the dynamic scene: its writes are queued
    /// on its bound type's entry, after everything queued before.
    pub fn dynamic_patch(&self, scene: &mut DynamicScene)
        requires
            old(scene).wf(),
        ensures
            final(scene).wf(),
            entries_model(final(scene).component_props@) == accum(
                entries_model(old(scene).component_props@),
                self.type_key,
                self.writes_spec(),
            ),
            final(scene).children@ == old(scene).children@,
    {
        let writes = duplicate_writes(&self.writes);
        scene.queue_writes(self.type_key, writes);
    }
}

} // verus!
