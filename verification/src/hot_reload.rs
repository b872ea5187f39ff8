//! Hot reload: correlating live entities with source-text scene literals.
//!
//! Each scene-literal occurrence in source text is identified by a stable
//! invocation identity derived from its source path, line and column.
//! Entities constructed from a reloadable literal are tagged with that
//! identity. When the text front end re-parses a changed file, each
//! occurrence's parsed patch is flattened into a dynamic scene and hot
//! patched onto every live entity tagged with its identity — unless the
//! occurrence count changed, in which case correlation by index is
//! unreliable and the file's hot reload is disabled until a full rebuild.

use vstd::prelude::*;
use vstd::string::StringSliceAdditionalSpecFns;

use crate::construct::{ConstructContext, ConstructError};
use crate::dynamic::{entries_construct, entries_model, replace_entry, scene_construct,
    scene_model, scenes_model, DynamicScene, EntryModel, ErasedPatch};
use crate::entity_patch::{ep_construct, EntityPatch};
use crate::keyed::{KeyRec, KeyedTable};
use crate::parse::{BsnEntity, BsnField, BsnPatch};
use crate::props::{writes_model, FieldWrite, ValKind, ValModel};
use crate::registry::{path_key, Registry};
use crate::world::{with_child, with_tag, spawned, Entity, WorldModel};
use crate::from_bsn::{from_bsn_kind, from_bsn_kind_spec};

verus! {

/// The offset basis of the 64-bit FNV-1a hash.
pub const FNV_OFFSET: u64 = 0xcbf2_9ce4_8422_2325;

/// The prime of the 64-bit FNV-1a hash.
pub const FNV_PRIME: u64 = 0x100_0000_01b3;

/// One FNV-1a step: fold one byte into the hash state.
pub open spec fn fnv_step(h: u64, b: u8) -> u64 {
    (h ^ (b as u64)).wrapping_mul(FNV_PRIME)
}

/// FNV-1a over a byte sequence, first byte first.
pub open spec fn fnv_bytes(h: u64, bs: Seq<u8>) -> u64
    decreases bs.len(),
{
    if bs.len() == 0 {
        h
    } else {
        fnv_step(fnv_bytes(h, bs.drop_last()), bs.last())
    }
}

/// The four bytes of a 32-bit value, least significant first.
pub open spec fn le_bytes(x: u32) -> Seq<u8> {
    seq![
        (x % 256) as u8,
        ((x / 256) % 256) as u8,
        ((x / 65536) % 256) as u8,
        ((x / 16777216) % 256) as u8,
    ]
}

/// The invocation identity of a scene literal at (path, line, column):
/// FNV-1a over the path bytes, then the line, then the column. Stable
/// across re-parses of unchanged text, since it depends on the triple
/// alone; distinct sites are kept apart by the spread of the hash.
pub open spec fn invocation_hash(path: Seq<u8>, line: u32, column: u32) -> u64 {
    fnv_bytes(fnv_bytes(fnv_bytes(FNV_OFFSET, path), le_bytes(line)), le_bytes(column))
}

/// One FNV-1a step.
fn fnv_u8(h: u64, b: u8) -> (r: u64)
    ensures
        r == fnv_step(h, b),
{
    (h ^ (b as u64)).wrapping_mul(FNV_PRIME)
}

/// Folds the four bytes of a 32-bit value into the hash state.
fn fnv_u32(h: u64, x: u32) -> (r: u64)
    ensures
        r == fnv_bytes(h, le_bytes(x)),
{
    let h0 = fnv_u8(h, (x % 256) as u8);
    let h1 = fnv_u8(h0, ((x / 256) % 256) as u8);
    let h2 = fnv_u8(h1, ((x / 65536) % 256) as u8);
    let h3 = fnv_u8(h2, ((x / 16777216) % 256) as u8);
    proof {
        reveal_with_fuel(fnv_bytes, 5);
        let bs = le_bytes(x);
        assert(bs.drop_last() =~= seq![
            (x % 256) as u8,
            ((x / 256) % 256) as u8,
            ((x / 65536) % 256) as u8,
        ]);
        assert(bs.drop_last().drop_last() =~= seq![(x % 256) as u8, ((x / 256) % 256) as u8]);
        assert(bs.drop_last().drop_last().drop_last() =~= seq![(x % 256) as u8]);
        assert(bs.drop_last().drop_last().drop_last().drop_last() =~= Seq::<u8>::empty());
    }
    h3
}

/// Identifies a specific scene-literal invocation in original source.
#[derive(Clone, Copy, PartialEq, Eq, Structural, Debug, Hash)]
pub struct BsnInvocationId(pub u64);

impl BsnInvocationId {
    /// Creates an invocation identity by hashing the given source path,
    /// line and column.
    pub fn new(path: &str, line: u32, column: u32) -> (r: BsnInvocationId)
        ensures
            r.0 == invocation_hash(path.spec_bytes(), line, column),
    {
        let bytes = path.as_bytes();
        let mut h: u64 = FNV_OFFSET;
        let n = bytes.len();
        for i in 0..n
            invariant
                n == bytes@.len(),
                bytes@ == path.spec_bytes(),
                h == fnv_bytes(FNV_OFFSET, bytes@.subrange(0, i as int)),
        {
            h = fnv_u8(h, bytes[i]);
            proof {
                assert(bytes@.subrange(0, i + 1).drop_last() =~= bytes@.subrange(0, i as int));
                assert(bytes@.subrange(0, i + 1).last() == bytes@[i as int]);
            }
        }
        proof {
            assert(bytes@.subrange(0, n as int) =~= bytes@);
        }
        let h = fnv_u32(h, line);
        let h = fnv_u32(h, column);
        BsnInvocationId(h)
    }
}

/// A reloadable scene originating from one scene-literal invocation: the
/// scene together with its source location and invocation identity.
#[derive(Debug)]
pub struct HotReloadableBsnMacro {
    /// The source file path of the invocation.
    pub file: String,
    /// The line (1-based) of the invocation.
    pub line: u32,
    /// The column (1-based) of the invocation.
    pub column: u32,
    /// The identity of the invocation.
    pub id: BsnInvocationId,
    /// The scene the invocation produced.
    pub scene: EntityPatch,
}

impl HotReloadableBsnMacro {
    /// Well-formed: the held scene is.
    pub open spec fn wf(self) -> bool {
        self.scene.wf()
    }

    /// Constructs the scene on the context entity, first tagging the
    /// entity with the invocation identity so later reloads find it.
    pub fn construct(self, context: &mut ConstructContext) -> (r: Result<(), ConstructError>)
        requires
            old(context).wf(),
            self.wf(),
        ensures
            final(context).wf(),
            final(context).id == old(context).id,
            ({
                let w1 = with_tag(old(context).world@, old(context).id.index as int, self.id.0);
                let (wm, err) = ep_construct(w1, old(context).id.index as int, self.scene);
                &&& final(context).world@ == wm
                &&& match (r, err) {
                    (Ok(u), None) => u == (),
                    (Err(e), Some(k)) => e.kind_spec() == k,
                    _ => false,
                }
            }),
    {
        context.world.tag_hot(context.id, self.id.0);
        self.scene.construct(context)
    }

    /// Spawns the scene beneath the context entity. Reload correlation is
    /// not carried through spawning: the new entity is not tagged.
    pub fn spawn(self, context: &mut ConstructContext) -> (r: Result<(), ConstructError>)
        requires
            old(context).wf(),
            self.wf(),
        ensures
            final(context).wf(),
            final(context).id == old(context).id,
            ({
                let w0 = old(context).world@;
                let id = old(context).id.index as int;
                let w1 = with_child(spawned(w0), id, w0.entities.len() as int);
                let (wm, err) = ep_construct(w1, w0.entities.len() as int, self.scene);
                &&& final(context).world@ == wm
                &&& match (r, err) {
                    (Ok(u), None) => u == (),
                    (Err(e), Some(k)) => e.kind_spec() == k,
                    _ => false,
                }
            }),
    {
        self.scene.spawn(context)
    }

    /// Applies the held scene to a dynamic scene. Reload correlation is
    /// not carried through dynamic application.
    pub fn dynamic_patch(&self, scene: &mut DynamicScene)
        requires
            self.wf(),
            old(scene).wf(),
        ensures
            final(scene).wf(),
            entries_model(final(scene).component_props@) == crate::entity_patch::ep_entries(
                entries_model(old(scene).component_props@),
                self.scene,
            ),
            scenes_model(final(scene).children@) == scenes_model(old(scene).children@)
                + crate::entity_patch::ep_child_scenes(self.scene),
    {
        self.scene.dynamic_patch(scene)
    }

    /// Flattens the held scene into a child of the dynamic scene.
    pub fn dynamic_patch_as_child(&self, scene: &mut DynamicScene)
        requires
            self.wf(),
            old(scene).wf(),
        ensures
            final(scene).wf(),
            entries_model(final(scene).component_props@) == entries_model(
                old(scene).component_props@,
            ),
            scenes_model(final(scene).children@) == scenes_model(old(scene).children@).push(
                crate::entity_patch::ep_scene_model(self.scene),
            ),
    {
        self.scene.dynamic_patch_as_child(scene)
    }
}

/// The write list a parsed field list yields against a field table: each
/// parsed field whose key the type has, and whose literal fits the
/// field's kind, becomes one write; the rest are skipped.
pub open spec fn parsed_field_writes(fields: Map<u64, ValKind>, fs: Seq<BsnField>) -> Seq<
    (u64, ValModel),
>
    decreases fs.len(),
{
    if fs.len() == 0 {
        Seq::empty()
    } else {
        let rest = parsed_field_writes(fields, fs.drop_last());
        let f = fs.last();
        if fields.contains_key(f.member) {
            match from_bsn_kind_spec(fields[f.member], f.prop.lit_spec()) {
                Some(v) => rest.push((f.member, v)),
                None => rest,
            }
        } else {
            rest
        }
    }
}

/// What adding a parsed patch does to a dynamic scene's entries. A tuple
/// adds its members in order. A path patch resolves its path against the
/// registry; when resolution fails, or the type lacks the construction
/// capability, or its props type is unregistered, the patch is skipped.
/// Otherwise the type's queue is overwritten: with no patches for an
/// empty field list, else with one patch holding the converted writes.
/// A raw expression cannot be applied and is skipped.
pub open spec fn parsed_patch_entries(reg: Registry, p: BsnPatch, es: Seq<EntryModel>) -> Seq<
    EntryModel,
>
    decreases p, 1int,
{
    match p {
        BsnPatch::Expr => es,
        BsnPatch::Tuple(ts) => parsed_tuple_entries(reg, ts@, es),
        BsnPatch::Patch(path, fs) => {
            match path_key(reg.recs@, path@) {
                None => es,
                Some(k) => {
                    let rm = reg.deep_view();
                    if fs@.len() == 0 {
                        replace_entry(es, k, Seq::empty())
                    } else {
                        match rm[k].construct {
                            None => es,
                            Some(rc) => {
                                if rc.props_key == k {
                                    replace_entry(
                                        es,
                                        k,
                                        seq![parsed_field_writes(rm[k].fields, fs@)],
                                    )
                                } else if rm.contains_key(rc.props_key) {
                                    replace_entry(
                                        es,
                                        k,
                                        seq![parsed_field_writes(rm[rc.props_key].fields, fs@)],
                                    )
                                } else {
                                    es
                                }
                            },
                        }
                    }
                },
            }
        },
    }
}

/// What adding a parsed tuple's members does, first member first.
pub open spec fn parsed_tuple_entries(reg: Registry, ts: Seq<BsnPatch>, es: Seq<EntryModel>) -> Seq<
    EntryModel,
>
    decreases ts, 0int,
{
    if ts.len() == 0 {
        es
    } else {
        parsed_tuple_entries(reg, ts.drop_first(), parsed_patch_entries(reg, ts.first(), es))
    }
}

/// Per-file reload state: the invocation identities recorded when the
/// file was first seen, and whether the file is still hot reloadable.
#[derive(Debug)]
pub struct FileState {
    /// The invocation identities, in source order.
    pub ids: Vec<u64>,
    /// Whether the file is still hot reloadable; cleared when the
    /// occurrence count changes, until the next full rebuild.
    pub active: bool,
}

/// The mathematical image of a file's reload state.
#[verifier::ext_equal]
pub struct FileStateModel {
    /// The invocation identities.
    pub ids: Seq<u64>,
    /// Whether the file is still hot reloadable.
    pub active: bool,
}

impl DeepView for FileState {
    type V = FileStateModel;

    open spec fn deep_view(&self) -> FileStateModel {
        FileStateModel { ids: self.ids@, active: self.active }
    }
}

/// Reload state across files, keyed by file identity.
#[derive(Debug)]
pub struct HotReloadState {
    /// The tracked files.
    pub files: KeyedTable<FileState>,
}

impl HotReloadState {
    /// Well-formed: the file table is.
    pub open spec fn wf(self) -> bool {
        self.files.wf()
    }

    /// Creates an empty reload state.
    pub fn new() -> (s: HotReloadState)
        ensures
            s.wf(),
            s.files.deep_view() == Map::<u64, FileStateModel>::empty(),
    {
        HotReloadState { files: KeyedTable::new() }
    }
}

/// The invocation identities of a file's literal sites, in order.
pub open spec fn site_ids(path: Seq<u8>, sites: Seq<(u32, u32)>) -> Seq<u64> {
    sites.map_values(|s: (u32, u32)| invocation_hash(path, s.0, s.1))
}

/// Records the scene-literal sites of a freshly seen source file: their
/// invocation identities are stored for index-based correlation on later
/// reloads. A file without literal sites is recorded as not reloadable.
pub fn record_invocations(
    state: &mut HotReloadState,
    file_id: u64,
    path: &str,
    sites: &Vec<(u32, u32)>,
)
    requires
        old(state).wf(),
    ensures
        final(state).wf(),
        final(state).files.deep_view() == old(state).files.deep_view().insert(
            file_id,
            (FileStateModel {
                ids: site_ids(path.spec_bytes(), sites@),
                active: sites@.len() > 0,
            }),
        ),
{
    let mut ids: Vec<u64> = Vec::new();
    let n = sites.len();
    for i in 0..n
        invariant
            n == sites@.len(),
            ids@.len() == i,
            forall|j: int| 0 <= j < i ==> ids@[j] == site_ids(path.spec_bytes(), sites@)[j],
    {
        let id = BsnInvocationId::new(path, sites[i].0, sites[i].1);
        ids.push(id.0);
    }
    proof {
        assert(ids@ =~= site_ids(path.spec_bytes(), sites@));
    }
    let active = sites.len() > 0;
    state.files.set(file_id, FileState { ids, active });
}

/// Re-applies one invocation's entries to every entity at or after index
/// `i` that is tagged with the invocation identity. `n` is the entity
/// count when the pass started; construction here adds no entities.
pub open spec fn apply_tagged(
    w: WorldModel,
    tag: u64,
    entries: Seq<EntryModel>,
    i: int,
    n: int,
) -> WorldModel
    decreases n - i,
{
    if i < 0 || i >= n {
        w
    } else {
        let w1 = if 0 <= i < w.entities.len() && w.entities[i].hot_tags.contains(tag) {
            entries_construct(w, i, entries)
        } else {
            w
        };
        apply_tagged(w1, tag, entries, i + 1, n)
    }
}

/// Re-applies re-parsed invocations in order: each invocation's parsed
/// patch is flattened against the registry and hot patched onto every
/// entity tagged with the matching recorded identity.
pub open spec fn hot_apply_all(
    w: WorldModel,
    reg: Registry,
    ids: Seq<u64>,
    parsed: Seq<BsnEntity>,
) -> WorldModel
    decreases parsed.len(),
{
    if parsed.len() == 0 || ids.len() == 0 {
        w
    } else {
        let entries = parsed_patch_entries(reg, parsed.first().patch, Seq::empty());
        let w1 = apply_tagged(w, ids.first(), entries, 0, w.entities.len() as int);
        hot_apply_all(w1, reg, ids.drop_first(), parsed.drop_first())
    }
}

/// Reacts to a modified source file: the re-parsed scene literals are
/// re-applied to the live entities their invocation identities tag.
///
/// An unknown or deactivated file is left alone. When the literal count
/// differs from the recorded count, index-based correlation is
/// unreliable: the file is deactivated until the next full rebuild and
/// no patch derived from the mismatched indices is applied. Otherwise
/// each literal's patch is applied to every entity tagged with the
/// matching recorded identity, in order.
pub fn hot_reload_bsn(
    state: &mut HotReloadState,
    context: &mut ConstructContext,
    file_id: u64,
    parsed: &Vec<BsnEntity>,
)
    requires
        old(state).wf(),
        old(context).wf(),
    ensures
        final(state).wf(),
        final(context).wf(),
        final(context).id == old(context).id,
        ({
            let fm = old(state).files.deep_view();
            if !fm.contains_key(file_id) || !fm[file_id].active {
                *final(state) == *old(state) && *final(context) == *old(context)
            } else if fm[file_id].ids.len() != parsed@.len() {
                final(state).files.deep_view() == fm.insert(
                    file_id,
                    (FileStateModel { ids: fm[file_id].ids, active: false }),
                ) && *final(context) == *old(context)
            } else {
                *final(state) == *old(state) && final(context).world@ == hot_apply_all(
                    old(context).world@,
                    old(context).world.registry,
                    fm[file_id].ids,
                    parsed@,
                )
            }
        }),
{
    let ghost fm = state.files.deep_view();
    let (ids, active) = match state.files.get(file_id) {
        None => {
            return ;
        },
        Some(fs) => {
            if !fs.active {
                return ;
            }
            (duplicate_u64s(&fs.ids), fs.active)
        },
    };
    if ids.len() != parsed.len() {
        state.files.set(file_id, FileState { ids, active: false });
        proof {
            assert(state.files.deep_view() =~~= fm.insert(
                file_id,
                (FileStateModel { ids: fm[file_id].ids, active: false }),
            ));
        }
        return ;
    }

    let ghost w0 = context.world@;
    let ghost reg0 = context.world.registry;
    let ghost id0 = context.id;
    let n = parsed.len();
    proof {
        assert(ids@.subrange(0, n as int) =~= ids@);
        assert(parsed@.subrange(0, n as int) =~= parsed@);
    }
    for j in 0..n
        invariant
            n == parsed@.len(),
            n == ids@.len(),
            ids@ == fm[file_id].ids,
            fm == old(state).files.deep_view(),
            fm.contains_key(file_id),
            state == old(state),
            context.wf(),
            context.id == id0,
            id0 == old(context).id,
            context.world.registry == reg0,
            reg0 == old(context).world.registry,
            w0 == old(context).world@,
            hot_apply_all(w0, reg0, ids@, parsed@) == hot_apply_all(
                context.world@,
                reg0,
                ids@.subrange(j as int, n as int),
                parsed@.subrange(j as int, n as int),
            ),
    {
        let ghost w_pre = context.world@;
        let ghost ids_suffix = ids@.subrange(j as int, n as int);
        let ghost parsed_suffix = parsed@.subrange(j as int, n as int);
        let ghost entries = parsed_patch_entries(reg0, parsed@[j as int].patch, Seq::empty());
        proof {
            assert(ids_suffix.first() == ids@[j as int]);
            assert(parsed_suffix.first() == parsed@[j as int]);
            assert(ids_suffix.drop_first() =~= ids@.subrange(j + 1, n as int));
            assert(parsed_suffix.drop_first() =~= parsed@.subrange(j + 1, n as int));
        }
        let tag = ids[j];
        let m = context.world.entity_count();
        for i in 0..m
            invariant
                context.wf(),
                context.id == id0,
                id0.index < context.world@.entities.len(),
                context.world.registry == reg0,
                state == old(state),
                j < parsed@.len(),
                entries == parsed_patch_entries(reg0, parsed@[j as int].patch, Seq::empty()),
                apply_tagged(w_pre, tag, entries, 0, m as int) == apply_tagged(
                    context.world@,
                    tag,
                    entries,
                    i as int,
                    m as int,
                ),
        {
            let ghost w_ent = context.world@;
            if i < context.world.entity_count() {
                let e = Entity { index: i };
                if context.world.has_tag(e, tag) {
                    let mut scene = DynamicScene::new();
                    add_parsed_patch_to_dynamic_scene(
                        &mut scene,
                        &parsed[j].patch,
                        &context.world.registry,
                    );
                    let saved = context.id;
                    context.id = e;
                    let ghost sm = scene_model(scene);
                    proof {
                        assert(scenes_model(scene.children@)
                            =~= Seq::<crate::dynamic::SceneModel>::empty());
                        assert(sm.entries == entries);
                    }
                    let _ = scene.construct(context);
                    context.id = saved;
                    proof {
                        assert(context.world@ == scene_construct(w_ent, i as int, sm));
                        assert(scene_construct(w_ent, i as int, sm) == entries_construct(
                            w_ent,
                            i as int,
                            entries,
                        ));
                        crate::dynamic::lemma_entries_construct_len(w_ent, i as int, entries);
                    }
                }
            }
        }
        proof {
            assert(apply_tagged(context.world@, tag, entries, m as int, m as int)
                == context.world@);
        }
    }
    proof {
        assert(ids@.subrange(n as int, n as int) =~= Seq::<u64>::empty());
        assert(parsed@.subrange(n as int, n as int) =~= Seq::<BsnEntity>::empty());
    }
}

/// Duplicates a plain list of identities.
fn duplicate_u64s(v: &Vec<u64>) -> (r: Vec<u64>)
    ensures
        r@ == v@,
{
    let mut r: Vec<u64> = Vec::new();
    let n = v.len();
    for i in 0..n
        invariant
            n == v@.len(),
            r@.len() == i,
            forall|j: int| 0 <= j < i ==> r@[j] == v@[j],
    {
        r.push(v[i]);
    }
    proof {
        assert(r@ =~= v@);
    }
    r
}

/// Adds a parsed patch to a dynamic scene, resolving component paths and
/// field kinds against the registry; whatever does not resolve is
/// skipped, and the rest of the patch still applies.
pub fn add_parsed_patch_to_dynamic_scene(
    dynamic_scene: &mut DynamicScene,
    patch: &BsnPatch,
    registry: &Registry,
)
    requires
        old(dynamic_scene).wf(),
        registry.wf(),
        registry.all_wf(),
    ensures
        final(dynamic_scene).wf(),
        entries_model(final(dynamic_scene).component_props@) == parsed_patch_entries(
            *registry,
            *patch,
            entries_model(old(dynamic_scene).component_props@),
        ),
        final(dynamic_scene).children@ == old(dynamic_scene).children@,
    decreases patch,
{
    match patch {
        BsnPatch::Expr => {},
        BsnPatch::Tuple(ts) => {
            let ghost es0 = entries_model(dynamic_scene.component_props@);
            let n = ts.len();
            proof {
                assert(ts@.subrange(0, n as int) =~= ts@);
            }
            for i in 0..n
                invariant
                    n == ts@.len(),
                    patch == &BsnPatch::Tuple(*ts),
                    dynamic_scene.wf(),
                    registry.wf(),
                    registry.all_wf(),
                    dynamic_scene.children@ == old(dynamic_scene).children@,
                    parsed_tuple_entries(*registry, ts@, es0) == parsed_tuple_entries(
                        *registry,
                        ts@.subrange(i as int, n as int),
                        entries_model(dynamic_scene.component_props@),
                    ),
            {
                let ghost suffix = ts@.subrange(i as int, n as int);
                proof {
                    assert(decreases_to!(*patch => patch->Tuple_0));
                    assert(decreases_to!(patch->Tuple_0 => patch->Tuple_0@));
                    assert(decreases_to!(patch->Tuple_0@ => patch->Tuple_0@[i as int]));
                    assert(suffix.first() == ts@[i as int]);
                    assert(suffix.drop_first() =~= ts@.subrange(i + 1, n as int));
                }
                add_parsed_patch_to_dynamic_scene(dynamic_scene, &ts[i], registry);
            }
            proof {
                assert(ts@.subrange(n as int, n as int) =~= Seq::<BsnPatch>::empty());
            }
        },
        BsnPatch::Patch(path, fs) => {
            let resolved = registry.resolve_path(path);
            match resolved {
                None => {},
                Some((k, data)) => {
                    proof {
                        let i = choose|i: int| 0 <= i < registry.recs@.len()
                            && (#[trigger] registry.recs@[i]).key == k
                            && *data == registry.recs@[i].value;
                        assert(registry.recs@[i].value.wf());
                    }
                    if fs.len() == 0 {
                        let patches: Vec<ErasedPatch> = Vec::new();
                        proof {
                            assert(patches@.map_values(|p: ErasedPatch| writes_model(p.writes@))
                                =~= Seq::<Seq<(u64, ValModel)>>::empty());
                        }
                        dynamic_scene.set_entry(k, patches);
                    } else {
                        match &data.construct {
                            None => {},
                            Some(rc) => {
                                let fields_found: Option<&KeyedTable<ValKind>> = if rc.props_key
                                    == k {
                                    Some(&data.fields)
                                } else {
                                    match registry.get(rc.props_key) {
                                        Some(pd) => {
                                            proof {
                                                let i = choose|i: int|
                                                    0 <= i < registry.recs@.len()
                                                    && (#[trigger] registry.recs@[i]).key
                                                        == rc.props_key
                                                    && *pd == registry.recs@[i].value;
                                                assert(registry.recs@[i].value.wf());
                                            }
                                            Some(&pd.fields)
                                        },
                                        None => None,
                                    }
                                };
                                match fields_found {
                                    None => {},
                                    Some(fields) => {
                                        let mut writes: Vec<FieldWrite> = Vec::new();
                                        let m = fs.len();
                                        for j in 0..m
                                            invariant
                                                m == fs@.len(),
                                                fields.wf(),
                                                writes_model(writes@) == parsed_field_writes(
                                                    fields.deep_view(),
                                                    fs@.subrange(0, j as int),
                                                ),
                                        {
                                            match fields.get(fs[j].member) {
                                                Some(kind) => {
                                                    match from_bsn_kind(*kind, fs[j].prop.lit()) {
                                                        Ok(v) => {
                                                            writes.push(
                                                                KeyRec {
                                                                    key: fs[j].member,
                                                                    value: v,
                                                                },
                                                            );
                                                        },
                                                        Err(_) => {},
                                                    }
                                                },
                                                None => {},
                                            }
                                            proof {
                                                assert(fs@.subrange(0, j + 1).drop_last()
                                                    =~= fs@.subrange(0, j as int));
                                                assert(fs@.subrange(0, j + 1).last()
                                                    == fs@[j as int]);
                                                assert(writes_model(writes@)
                                                    =~= parsed_field_writes(
                                                    fields.deep_view(),
                                                    fs@.subrange(0, j + 1),
                                                ));
                                            }
                                        }
                                        proof {
                                            assert(fs@.subrange(0, m as int) =~= fs@);
                                        }
                                        let ghost w_model = writes_model(writes@);
                                        let mut patches: Vec<ErasedPatch> = Vec::new();
                                        patches.push(ErasedPatch { writes });
                                        proof {
                                            assert(patches@.map_values(
                                                |p: ErasedPatch| writes_model(p.writes@),
                                            ) =~= seq![w_model]);
                                        }
                                        dynamic_scene.set_entry(k, patches);
                                    },
                                }
                            },
                        }
                    }
                },
            }
        },
    }
}

} // verus!
