//! General laws of the construction pipeline, stated and proved once for
//! all inputs.

use vstd::prelude::*;

use crate::construct::ConstructErrKind;
use crate::dynamic::{lemma_accum_scene_writes, scene_writes, EntryModel};
use crate::entity_patch::{accum_patches, ep_construct, ep_entries, ep_spawn_list, eps_entries,
    EntityPatch};
use crate::hot_patch::{hot_patch_list, hot_patch_one};
use crate::patch::ConstructPatch;
use crate::props::{apply_writes, last_write, lemma_apply_writes_get, PropsModel, ValModel};
use crate::registry::ConstructRule;
use crate::world::WorldModel;

verus! {

/// Hot patching a member list never consults the runtime type registry.
pub proof fn lemma_hot_patch_list_lookups(w: WorldModel, id: int, ps: Seq<ConstructPatch>)
    ensures
        hot_patch_list(w, id, ps).0.lookups == w.lookups,
    decreases ps.len(),
{
    if ps.len() > 0 {
        let r0 = hot_patch_one(w, id, ps.first());
        if !(r0.1 is Some) {
            lemma_hot_patch_list_lookups(r0.0, id, ps.drop_first());
        }
    }
}

/// A scene tree without inheritance is constructed entirely on the
/// static path: no runtime type registry resolution is performed
/// anywhere in the pass, so the instrumentation counter of registry
/// lookups is unchanged.
pub proof fn lemma_static_path_no_lookups(w: WorldModel, id: int, e: EntityPatch)
    requires
        e.fully_static(),
    ensures
        ep_construct(w, id, e).0.lookups == w.lookups,
    decreases e, 1int,
{
    let r = hot_patch_list(w, id, e.patch@);
    lemma_hot_patch_list_lookups(w, id, e.patch@);
    if !(r.1 is Some) {
        lemma_spawn_list_no_lookups(r.0, id, e.children@);
    }
}

/// Spawning a list of scene trees without inheritance performs no
/// registry resolution.
pub proof fn lemma_spawn_list_no_lookups(w: WorldModel, id: int, list: Seq<EntityPatch>)
    requires
        forall|i: int| 0 <= i < list.len() ==> (#[trigger] list[i]).fully_static(),
    ensures
        ep_spawn_list(w, id, list).0.lookups == w.lookups,
    decreases list, 0int,
{
    if list.len() > 0 {
        let child = w.entities.len() as int;
        let w1 = crate::world::with_child(crate::world::spawned(w), id, child);
        assert(list[0].fully_static());
        lemma_static_path_no_lookups(w1, child, list.first());
        let r = ep_construct(w1, child, list.first());
        if !(r.1 is Some) {
            assert(forall|i: int| 0 <= i < list.drop_first().len()
                ==> (#[trigger] list.drop_first()[i]).fully_static());
            lemma_spawn_list_no_lookups(r.0, id, list.drop_first());
        }
    }
}

/// The writes a composite patch queues for one type: the writes of its
/// members bound to that type, concatenated in declared order.
pub open spec fn patches_writes_for(ps: Seq<ConstructPatch>, t: u64) -> Seq<(u64, ValModel)>
    decreases ps.len(),
{
    if ps.len() == 0 {
        Seq::empty()
    } else if ps.last().type_key == t {
        patches_writes_for(ps.drop_last(), t) + ps.last().writes_spec()
    } else {
        patches_writes_for(ps.drop_last(), t)
    }
}

/// Accumulating a composite patch appends, per type, exactly the writes
/// of the members bound to that type, after whatever was queued before.
pub proof fn lemma_accum_patches_writes(es: Seq<EntryModel>, ps: Seq<ConstructPatch>, t: u64)
    ensures
        scene_writes(accum_patches(es, ps), t) == scene_writes(es, t) + patches_writes_for(ps, t),
    decreases ps.len(),
{
    if ps.len() == 0 {
        assert(scene_writes(es, t) + patches_writes_for(ps, t) =~= scene_writes(es, t));
    } else {
        lemma_accum_patches_writes(es, ps.drop_last(), t);
        let mid = accum_patches(es, ps.drop_last());
        lemma_accum_scene_writes(mid, ps.last().type_key, ps.last().writes_spec(), t);
        if ps.last().type_key == t {
            assert(scene_writes(es, t) + (patches_writes_for(ps.drop_last(), t)
                + ps.last().writes_spec()) =~= (scene_writes(es, t) + patches_writes_for(
                ps.drop_last(),
                t,
            )) + ps.last().writes_spec());
        }
    }
}

/// Inheritance ordering: when a scene node is applied dynamically, the
/// writes queued for any type are exactly the writes its inherited
/// scenes queued, followed by the writes of the node's own patch members
/// bound to that type. Consequently, for a field the node's own patch
/// writes, the final props value constructed for that type holds the
/// node's own (last) written value, overriding anything inherited; a
/// field the node does not write keeps the inherited outcome.
pub proof fn lemma_inheritance_order(
    es: Seq<EntryModel>,
    e: EntityPatch,
    t: u64,
    base: PropsModel,
    f: u64,
)
    ensures
        scene_writes(ep_entries(es, e), t) == scene_writes(eps_entries(es, e.inherit@), t)
            + patches_writes_for(e.patch@, t),
        ({
            let inherited = apply_writes(base, scene_writes(eps_entries(es, e.inherit@), t));
            let whole = apply_writes(base, scene_writes(ep_entries(es, e), t));
            match last_write(patches_writes_for(e.patch@, t), f) {
                Some(v) => whole.contains_key(f) && whole[f] == v,
                None => whole.contains_key(f) == inherited.contains_key(f)
                    && (inherited.contains_key(f) ==> whole[f] == inherited[f]),
            }
        }),
{
    lemma_accum_patches_writes(eps_entries(es, e.inherit@), e.patch@, t);
    let iw = scene_writes(eps_entries(es, e.inherit@), t);
    let ow = patches_writes_for(e.patch@, t);
    crate::props::lemma_apply_writes_concat(base, iw, ow);
    lemma_apply_writes_get(apply_writes(base, iw), ow, f);
}

/// Hot-patch memory: hot patching retains the patched props, so a later
/// hot patch to the same entity and type starts from them rather than
/// from defaults. After hot patch `a` and then hot patch `b`, the
/// retained props are the defaults patched by `a` then `b`; a field `b`
/// does not write keeps the value `a` left, and a field `b` writes holds
/// `b`'s value. When the type constructs by passthrough, the component
/// on the entity holds exactly those accumulated props: both patches'
/// fields are present together.
pub proof fn lemma_hot_patch_memory(
    w: WorldModel,
    id: int,
    a: ConstructPatch,
    b: ConstructPatch,
    f: u64,
)
    requires
        0 <= id < w.entities.len(),
        b.type_key == a.type_key,
        !w.entities[id].retained.contains_key(a.type_key),
    ensures
        ({
            let base_a = a.construct.deep_view().default_props;
            let after_a = apply_writes(base_a, a.writes_spec());
            let after_b = apply_writes(after_a, b.writes_spec());
            let (w1, e1) = hot_patch_one(w, id, a);
            let (w2, e2) = hot_patch_one(w1, id, b);
            &&& w1.entities[id].retained[a.type_key] == after_a
            &&& w2.entities[id].retained[a.type_key] == after_b
            &&& (match last_write(b.writes_spec(), f) {
                Some(v) => after_b.contains_key(f) && after_b[f] == v,
                None => after_b.contains_key(f) == after_a.contains_key(f) && (
                after_a.contains_key(f) ==> after_b[f] == after_a[f]),
            })
            &&& (b.construct.rule == ConstructRule::Passthrough ==> e2 is None
                && w2.entities[id].components[a.type_key] == after_b)
        }),
{
    let base_a = a.construct.deep_view().default_props;
    let after_a = apply_writes(base_a, a.writes_spec());
    let (w1, e1) = hot_patch_one(w, id, a);
    assert(w1.entities[id].retained[a.type_key] == after_a);
    assert(w1.entities[id].retained.contains_key(a.type_key));
    let after_b = apply_writes(after_a, b.writes_spec());
    let (w2, e2) = hot_patch_one(w1, id, b);
    assert(w2.entities[id].retained[a.type_key] == after_b);
    lemma_apply_writes_get(after_a, b.writes_spec(), f);
}

/// Two worlds that agree on everything construction reads and writes,
/// except possibly the instrumentation counter of registry lookups.
pub open spec fn eq_except_lookups(w1: WorldModel, w2: WorldModel) -> bool {
    w1.entities == w2.entities && w1.resources == w2.resources && w1.registry == w2.registry
}

/// Constructing one entry reads nothing but the entities, resources and
/// registry, so it acts alike on worlds that agree on them.
pub proof fn lemma_entry_construct_congruence(
    w1: WorldModel,
    w2: WorldModel,
    id: int,
    em: EntryModel,
)
    requires
        eq_except_lookups(w1, w2),
    ensures
        eq_except_lookups(
            crate::dynamic::entry_construct(w1, id, em),
            crate::dynamic::entry_construct(w2, id, em),
        ),
{
}

/// Constructing an entry list preserves the registry image.
pub proof fn lemma_entries_construct_registry(w: WorldModel, id: int, es: Seq<EntryModel>)
    ensures
        crate::dynamic::entries_construct(w, id, es).registry == w.registry,
    decreases es.len(),
{
    if es.len() > 0 {
        lemma_entries_construct_registry(w, id, es.drop_last());
    }
}

/// Constructing an entry list acts alike on worlds that agree on
/// everything but the lookup counter.
pub proof fn lemma_entries_construct_congruence(
    w1: WorldModel,
    w2: WorldModel,
    id: int,
    es: Seq<EntryModel>,
)
    requires
        eq_except_lookups(w1, w2),
    ensures
        eq_except_lookups(
            crate::dynamic::entries_construct(w1, id, es),
            crate::dynamic::entries_construct(w2, id, es),
        ),
    decreases es.len(),
{
    if es.len() > 0 {
        lemma_entries_construct_congruence(w1, w2, id, es.drop_last());
        lemma_entry_construct_congruence(
            crate::dynamic::entries_construct(w1, id, es.drop_last()),
            crate::dynamic::entries_construct(w2, id, es.drop_last()),
            id,
            es.last(),
        );
    }
}

/// Registry-miss safety: an entry whose component type the registry does
/// not resolve contributes nothing but a counted lookup. Constructing a
/// scene level with such an entry leaves the world — its entities, their
/// components, and everything else construction touches — exactly as
/// constructing the same level without that entry: the remaining entries
/// all still take effect, and no entity is left in a different state on
/// their account.
pub proof fn lemma_registry_miss_skip(w: WorldModel, id: int, es: Seq<EntryModel>, i: int)
    requires
        0 <= i < es.len(),
        !crate::registry::resolves(w.registry, es[i].0),
    ensures
        eq_except_lookups(
            crate::dynamic::entries_construct(w, id, es),
            crate::dynamic::entries_construct(w, id, es.remove(i)),
        ),
    decreases es.len(),
{
    if i == es.len() - 1 {
        assert(es.remove(i) =~= es.drop_last());
        let w1 = crate::dynamic::entries_construct(w, id, es.drop_last());
        lemma_entries_construct_registry(w, id, es.drop_last());
        assert(crate::dynamic::entry_construct(w1, id, es.last())
            == crate::world::with_lookup(w1));
    } else {
        assert(es.remove(i).drop_last() =~= es.drop_last().remove(i));
        assert(es.remove(i).last() == es.last());
        assert(es.drop_last()[i] == es[i]);
        lemma_registry_miss_skip(w, id, es.drop_last(), i);
        lemma_entry_construct_congruence(
            crate::dynamic::entries_construct(w, id, es.drop_last()),
            crate::dynamic::entries_construct(w, id, es.drop_last().remove(i)),
            id,
            es.last(),
        );
    }
}

/// Two worlds that agree on everything the registry-driven and static
/// construction paths both observe: the entity structure, components,
/// child links, tags, resources and registry. The retained-props overlay
/// and the lookup counter — which only the static path writes, and only
/// the dynamic path counts — may differ.
pub open spec fn comp_equiv(w1: WorldModel, w2: WorldModel) -> bool {
    &&& w1.entities.len() == w2.entities.len()
    &&& (forall|i: int| 0 <= i < w1.entities.len()
        ==> (#[trigger] w1.entities[i]).components == w2.entities[i].components
            && w1.entities[i].children == w2.entities[i].children
            && w1.entities[i].hot_tags == w2.entities[i].hot_tags)
    &&& w1.resources == w2.resources
    &&& w1.registry == w2.registry
}

/// Name resolution reads only components, so it agrees on entity lists
/// whose components agree.
proof fn lemma_first_named_congruence(
    es1: Seq<crate::world::EntityModel>,
    es2: Seq<crate::world::EntityModel>,
    name: Seq<char>,
    i: int,
)
    requires
        es1.len() == es2.len(),
        forall|j: int| 0 <= j < es1.len() ==> (#[trigger] es1[j]).components == es2[j].components,
    ensures
        crate::world::first_named_from(es1, name, i) == crate::world::first_named_from(
            es2,
            name,
            i,
        ),
    decreases es1.len() - i,
{
    if 0 <= i < es1.len() {
        assert(crate::world::entity_name(es1[i]) == crate::world::entity_name(es2[i]));
        lemma_first_named_congruence(es1, es2, name, i + 1);
    }
}

/// A construction rule reads only components and resources, so it yields
/// the same result on equivalent worlds.
pub proof fn lemma_rule_result_congruence(
    w1: WorldModel,
    w2: WorldModel,
    rule: ConstructRule,
    p: PropsModel,
)
    requires
        comp_equiv(w1, w2),
    ensures
        crate::construct::rule_result(w1, rule, p) == crate::construct::rule_result(w2, rule, p),
{
    match rule {
        ConstructRule::ResolveName { field } => {
            if p.contains_key(field) {
                match p[field] {
                    ValModel::Text(name) => {
                        lemma_first_named_congruence(w1.entities, w2.entities, name, 0);
                    },
                    _ => {},
                }
            }
        },
        _ => {},
    }
}

/// Constructing an entry list unfolds from the front as well.
proof fn lemma_entries_construct_front(w: WorldModel, id: int, es: Seq<EntryModel>)
    requires
        es.len() > 0,
    ensures
        crate::dynamic::entries_construct(w, id, es) == crate::dynamic::entries_construct(
            crate::dynamic::entry_construct(w, id, es.first()),
            id,
            es.drop_first(),
        ),
    decreases es.len(),
{
    reveal_with_fuel(crate::dynamic::entries_construct, 3);
    if es.len() == 1 {
        assert(es.drop_last() =~= Seq::<EntryModel>::empty());
        assert(es.drop_first() =~= Seq::<EntryModel>::empty());
        assert(es.last() == es.first());
    } else {
        lemma_entries_construct_front(w, id, es.drop_last());
        assert(es.drop_last().first() == es.first());
        assert(es.drop_first().drop_last() =~= es.drop_last().drop_first());
        assert(es.drop_first().last() == es.last());
    }
}

/// A composite-patch member whose registration matches what the patch
/// itself carries: the registry resolves its type to exactly the
/// capability the member was built with, and a self-describing
/// registration constructs by passthrough.
pub open spec fn member_registered(reg: crate::registry::RegistryModel, p: ConstructPatch) -> bool {
    &&& crate::registry::resolves(reg, p.type_key)
    &&& reg[p.type_key].construct == Some(p.construct.deep_view())
    &&& (p.construct.deep_view().props_key == p.type_key ==> p.construct.rule
        == ConstructRule::Passthrough)
}

/// The entry list a composite patch with distinct member types flattens
/// into: one entry per member, in order, each holding that member's
/// writes as its single queued patch.
pub open spec fn member_entries(ps: Seq<ConstructPatch>) -> Seq<EntryModel> {
    Seq::new(ps.len(), |i: int| (ps[i].type_key, seq![ps[i].writes_spec()]))
}

/// With distinct member types, accumulation produces exactly one entry
/// per member.
proof fn lemma_accum_distinct(ps: Seq<ConstructPatch>)
    requires
        forall|i: int, j: int| 0 <= i < j < ps.len()
            ==> (#[trigger] ps[i]).type_key != (#[trigger] ps[j]).type_key,
    ensures
        accum_patches(Seq::empty(), ps) =~= member_entries(ps),
    decreases ps.len(),
{
    if ps.len() > 0 {
        lemma_accum_distinct(ps.drop_last());
        let prev = accum_patches(Seq::empty(), ps.drop_last());
        let t = ps.last().type_key;
        assert(!crate::dynamic::has_key(prev, t)) by {
            if crate::dynamic::has_key(prev, t) {
                let i = choose|i: int| 0 <= i < prev.len() && prev[i].0 == t;
                assert(member_entries(ps.drop_last())[i].0 == ps[i].type_key);
            }
        }
        assert(accum_patches(Seq::empty(), ps) == prev.push((t, seq![ps.last().writes_spec()])));
        assert(prev.push((t, seq![ps.last().writes_spec()])) =~= member_entries(ps));
    }
}

/// One member, both ways: hot patching the member statically and
/// constructing its flattened entry dynamically insert the same
/// component, on equivalent worlds with a fresh target.
proof fn lemma_member_step(w_s: WorldModel, w_d: WorldModel, id: int, p: ConstructPatch)
    requires
        comp_equiv(w_s, w_d),
        0 <= id < w_s.entities.len(),
        member_registered(w_d.registry, p),
        !w_s.entities[id].retained.contains_key(p.type_key),
        !w_s.entities[id].components.contains_key(p.type_key),
        hot_patch_one(w_s, id, p).1 is None,
    ensures
        comp_equiv(
            hot_patch_one(w_s, id, p).0,
            crate::dynamic::entry_construct(w_d, id, (p.type_key, seq![p.writes_spec()])),
        ),
        crate::dynamic::entry_construct(w_d, id, (p.type_key, seq![p.writes_spec()])).registry
            == w_d.registry,
        hot_patch_one(w_s, id, p).0.entities.len() == w_s.entities.len(),
{
    let t = p.type_key;
    reveal_with_fuel(crate::dynamic::flat_lists, 3);
    assert(seq![p.writes_spec()].drop_last() =~= Seq::<Seq<(u64, ValModel)>>::empty());
    assert(seq![p.writes_spec()].last() == p.writes_spec());
    assert(crate::dynamic::flat_lists(seq![p.writes_spec()])
        == crate::dynamic::flat_lists(Seq::<Seq<(u64, ValModel)>>::empty()) + p.writes_spec());
    assert(crate::dynamic::flat_lists(seq![p.writes_spec()]) =~= p.writes_spec());
    let base = p.construct.deep_view().default_props;
    let newp = apply_writes(base, p.writes_spec());
    let ws1 = crate::world::with_retained(w_s, id, t, newp);
    assert(comp_equiv(ws1, w_d)) by {
        assert(forall|i: int| 0 <= i < ws1.entities.len()
            ==> (#[trigger] ws1.entities[i]).components == w_s.entities[i].components
                && ws1.entities[i].children == w_s.entities[i].children
                && ws1.entities[i].hot_tags == w_s.entities[i].hot_tags);
    }
    lemma_rule_result_congruence(ws1, w_d, p.construct.rule, newp);
    let rr = crate::construct::rule_result(ws1, p.construct.rule, newp);
    if p.construct.deep_view().props_key == t {
        assert(p.construct.rule == ConstructRule::Passthrough);
        assert(rr == Ok::<PropsModel, ConstructErrKind>(newp));
        let wsf = crate::world::with_component(ws1, id, t, newp);
        let wdf = crate::world::with_component(crate::world::with_lookup(w_d), id, t, newp);
        assert(hot_patch_one(w_s, id, p).0 == wsf);
        assert(crate::dynamic::entry_construct(w_d, id, (t, seq![p.writes_spec()])) == wdf);
        assert(comp_equiv(wsf, wdf)) by {
            assert(forall|i: int| 0 <= i < wsf.entities.len() && i != id
                ==> (#[trigger] wsf.entities[i]).components == wdf.entities[i].components
                    && wsf.entities[i].children == wdf.entities[i].children
                    && wsf.entities[i].hot_tags == wdf.entities[i].hot_tags);
            assert(wsf.entities[id].components == wdf.entities[id].components);
        }
    } else {
        match rr {
            Ok(c) => {
                let wsf = crate::world::with_component(ws1, id, t, c);
                let wdf = crate::world::with_component(crate::world::with_lookup(w_d), id, t, c);
                assert(hot_patch_one(w_s, id, p).0 == wsf);
                assert(crate::dynamic::entry_construct(w_d, id, (t, seq![p.writes_spec()]))
                    == wdf);
                assert(comp_equiv(wsf, wdf)) by {
                    assert(forall|i: int| 0 <= i < wsf.entities.len() && i != id
                        ==> (#[trigger] wsf.entities[i]).components == wdf.entities[i].components
                            && wsf.entities[i].children == wdf.entities[i].children
                            && wsf.entities[i].hot_tags == wdf.entities[i].hot_tags);
                    assert(wsf.entities[id].components == wdf.entities[id].components);
                }
            },
            Err(_) => {
                assert(false);
            },
        }
    }
}

/// Both folds, member by member.
proof fn lemma_fold_agree(w_s: WorldModel, w_d: WorldModel, id: int, ps: Seq<ConstructPatch>)
    requires
        comp_equiv(w_s, w_d),
        0 <= id < w_s.entities.len(),
        forall|i: int| 0 <= i < ps.len() ==> member_registered(w_d.registry, #[trigger] ps[i]),
        forall|i: int, j: int| 0 <= i < j < ps.len()
            ==> (#[trigger] ps[i]).type_key != (#[trigger] ps[j]).type_key,
        forall|i: int| 0 <= i < ps.len()
            ==> !w_s.entities[id].retained.contains_key((#[trigger] ps[i]).type_key)
                && !w_s.entities[id].components.contains_key(ps[i].type_key),
        hot_patch_list(w_s, id, ps).1 is None,
    ensures
        comp_equiv(
            hot_patch_list(w_s, id, ps).0,
            crate::dynamic::entries_construct(w_d, id, member_entries(ps)),
        ),
    decreases ps.len(),
{
    if ps.len() == 0 {
        assert(member_entries(ps) =~= Seq::<EntryModel>::empty());
    } else {
        let p = ps.first();
        let r0 = hot_patch_one(w_s, id, p);
        assert(r0.1 is None);
        lemma_member_step(w_s, w_d, id, p);
        let em0 = (p.type_key, seq![p.writes_spec()]);
        assert(member_entries(ps).first() == em0);
        let w_s1 = r0.0;
        let w_d1 = crate::dynamic::entry_construct(w_d, id, em0);
        lemma_entries_construct_front(w_d, id, member_entries(ps));
        assert(member_entries(ps).drop_first() =~= member_entries(ps.drop_first()));
        let rest = ps.drop_first();
        assert(forall|i: int| 0 <= i < rest.len()
            ==> member_registered(w_d1.registry, #[trigger] rest[i]));
        assert(forall|i: int, j: int| 0 <= i < j < rest.len()
            ==> (#[trigger] rest[i]).type_key != (#[trigger] rest[j]).type_key) by {
            assert(forall|i: int| 0 <= i < rest.len() ==> #[trigger] rest[i] == ps[i + 1]);
        }
        assert(forall|i: int| 0 <= i < rest.len()
            ==> !w_s1.entities[id].retained.contains_key((#[trigger] rest[i]).type_key)
                && !w_s1.entities[id].components.contains_key(rest[i].type_key)) by {
            assert(forall|i: int| 0 <= i < rest.len() ==> #[trigger] rest[i] == ps[i + 1]);
            assert(forall|i: int| 0 <= i < rest.len()
                ==> (#[trigger] rest[i]).type_key != p.type_key);
        }
        lemma_fold_agree(w_s1, w_d1, id, rest);
    }
}

/// A scene tree both construction paths accept for comparison: no node
/// inherits, every node's member types are distinct, and every member's
/// type is registered exactly as the member itself carries.
pub open spec fn round_trip_ready(reg: crate::registry::RegistryModel, e: EntityPatch) -> bool
    decreases e,
{
    &&& e.inherit@.len() == 0
    &&& (forall|i: int| 0 <= i < e.patch@.len()
        ==> member_registered(reg, #[trigger] e.patch@[i]))
    &&& (forall|i: int, j: int| 0 <= i < j < e.patch@.len()
        ==> (#[trigger] e.patch@[i]).type_key != (#[trigger] e.patch@[j]).type_key)
    &&& (forall|i: int| 0 <= i < e.children@.len()
        ==> round_trip_ready(reg, #[trigger] e.children@[i]))
}

/// The target entity is fresh for a composite patch: it holds no
/// component and no retained props of any member's type yet.
pub open spec fn fresh_for(w: WorldModel, id: int, ps: Seq<ConstructPatch>) -> bool {
    forall|i: int| 0 <= i < ps.len()
        ==> !w.entities[id].retained.contains_key((#[trigger] ps[i]).type_key)
            && !w.entities[id].components.contains_key(ps[i].type_key)
}

/// Hot patching a member list keeps the entity count.
proof fn lemma_hot_patch_list_len(w: WorldModel, id: int, ps: Seq<ConstructPatch>)
    requires
        0 <= id < w.entities.len(),
    ensures
        hot_patch_list(w, id, ps).0.entities.len() == w.entities.len(),
    decreases ps.len(),
{
    if ps.len() > 0 {
        let r0 = hot_patch_one(w, id, ps.first());
        assert(r0.0.entities.len() == w.entities.len());
        if !(r0.1 is Some) {
            lemma_hot_patch_list_len(r0.0, id, ps.drop_first());
        }
    }
}

/// Static construction never removes entities.
proof fn lemma_ep_construct_len(w: WorldModel, id: int, e: EntityPatch)
    requires
        0 <= id < w.entities.len(),
        e.fully_static(),
    ensures
        ep_construct(w, id, e).0.entities.len() >= w.entities.len(),
    decreases e, 1int,
{
    let r = hot_patch_list(w, id, e.patch@);
    lemma_hot_patch_list_len(w, id, e.patch@);
    if !(r.1 is Some) {
        lemma_ep_spawn_list_len(r.0, id, e.children@);
    }
}

/// Spawning a list of static scene trees never removes entities.
proof fn lemma_ep_spawn_list_len(w: WorldModel, id: int, list: Seq<EntityPatch>)
    requires
        0 <= id < w.entities.len(),
        forall|i: int| 0 <= i < list.len() ==> (#[trigger] list[i]).fully_static(),
    ensures
        ep_spawn_list(w, id, list).0.entities.len() >= w.entities.len(),
    decreases list, 0int,
{
    if list.len() > 0 {
        let child = w.entities.len() as int;
        let w1 = crate::world::with_child(crate::world::spawned(w), id, child);
        assert(list[0].fully_static());
        lemma_ep_construct_len(w1, child, list.first());
        let r = ep_construct(w1, child, list.first());
        if !(r.1 is Some) {
            assert(forall|i: int| 0 <= i < list.drop_first().len()
                ==> (#[trigger] list.drop_first()[i]).fully_static());
            lemma_ep_spawn_list_len(r.0, id, list.drop_first());
        }
    }
}

/// Constructing a dynamic scene preserves the registry image.
pub proof fn lemma_scene_construct_registry(
    w: WorldModel,
    id: int,
    m: crate::dynamic::SceneModel,
)
    ensures
        crate::dynamic::scene_construct(w, id, m).registry == w.registry,
    decreases m, 1int,
{
    lemma_entries_construct_registry(w, id, m.entries);
    lemma_children_construct_registry(
        crate::dynamic::entries_construct(w, id, m.entries),
        id,
        m.children,
    );
}

/// Constructing child scenes preserves the registry image.
pub proof fn lemma_children_construct_registry(
    w: WorldModel,
    id: int,
    cs: Seq<crate::dynamic::SceneModel>,
)
    ensures
        crate::dynamic::children_construct(w, id, cs).registry == w.registry,
    decreases cs, 0int,
{
    if cs.len() > 0 {
        let child = w.entities.len() as int;
        let w1 = crate::world::with_child(crate::world::spawned(w), id, child);
        lemma_scene_construct_registry(w1, child, cs.first());
        lemma_children_construct_registry(
            crate::dynamic::scene_construct(w1, child, cs.first()),
            id,
            cs.drop_first(),
        );
    }
}

/// A tree both paths accept has no inheritance anywhere.
proof fn lemma_ready_is_static(reg: crate::registry::RegistryModel, e: EntityPatch)
    requires
        round_trip_ready(reg, e),
    ensures
        e.fully_static(),
    decreases e,
{
    assert forall|i: int| 0 <= i < e.children@.len()
        implies (#[trigger] e.children@[i]).fully_static() by {
        lemma_ready_is_static(reg, e.children@[i]);
    }
}

/// The round trip over one tree, threaded through a pair of worlds.
proof fn lemma_tree_round_trip(w_s: WorldModel, w_d: WorldModel, id: int, e: EntityPatch)
    requires
        comp_equiv(w_s, w_d),
        0 <= id < w_s.entities.len(),
        round_trip_ready(w_d.registry, e),
        fresh_for(w_s, id, e.patch@),
        ep_construct(w_s, id, e).1 is None,
    ensures
        comp_equiv(
            ep_construct(w_s, id, e).0,
            crate::dynamic::scene_construct(w_d, id, crate::entity_patch::ep_scene_model(e)),
        ),
    decreases e, 1int,
{
    let r = hot_patch_list(w_s, id, e.patch@);
    assert(r.1 is None);
    let m = crate::entity_patch::ep_scene_model(e);
    assert(crate::entity_patch::eps_entries(Seq::empty(), e.inherit@) =~= Seq::<
        EntryModel,
    >::empty());
    lemma_accum_distinct(e.patch@);
    assert(m.entries == member_entries(e.patch@));
    assert(crate::entity_patch::eps_child_scenes(e.inherit@) =~= Seq::<
        crate::dynamic::SceneModel,
    >::empty());
    assert(m.children =~= crate::entity_patch::ep_children_models(e.children@));
    lemma_fold_agree(w_s, w_d, id, e.patch@);
    let w_s1 = r.0;
    let w_d1 = crate::dynamic::entries_construct(w_d, id, m.entries);
    lemma_hot_patch_list_len(w_s, id, e.patch@);
    lemma_entries_construct_registry(w_d, id, m.entries);
    lemma_children_round_trip(w_s1, w_d1, id, e.children@);
}

/// The round trip over a list of child trees, spawned in order.
proof fn lemma_children_round_trip(
    w_s: WorldModel,
    w_d: WorldModel,
    id: int,
    list: Seq<EntityPatch>,
)
    requires
        comp_equiv(w_s, w_d),
        0 <= id < w_s.entities.len(),
        forall|i: int| 0 <= i < list.len()
            ==> round_trip_ready(w_d.registry, #[trigger] list[i]),
        ep_spawn_list(w_s, id, list).1 is None,
    ensures
        comp_equiv(
            ep_spawn_list(w_s, id, list).0,
            crate::dynamic::children_construct(
                w_d,
                id,
                crate::entity_patch::ep_children_models(list),
            ),
        ),
    decreases list, 0int,
{
    let ms = crate::entity_patch::ep_children_models(list);
    if list.len() == 0 {
        assert(ms =~= Seq::<crate::dynamic::SceneModel>::empty());
    } else {
        let child = w_s.entities.len() as int;
        assert(child == w_d.entities.len() as int);
        let w_s1 = crate::world::with_child(crate::world::spawned(w_s), id, child);
        let w_d1 = crate::world::with_child(crate::world::spawned(w_d), id, child);
        assert(comp_equiv(w_s1, w_d1)) by {
            assert(forall|i: int| 0 <= i < w_s1.entities.len() && i != id
                ==> (#[trigger] w_s1.entities[i]).components == w_d1.entities[i].components
                    && w_s1.entities[i].children == w_d1.entities[i].children
                    && w_s1.entities[i].hot_tags == w_d1.entities[i].hot_tags);
            assert(w_s1.entities[id].components == w_d1.entities[id].components);
            assert(w_s1.entities[id].children == w_d1.entities[id].children);
            assert(w_s1.entities[id].hot_tags == w_d1.entities[id].hot_tags);
        }
        let head = list.first();
        let r = ep_construct(w_s1, child, head);
        assert(r.1 is None);
        assert(fresh_for(w_s1, child, head.patch@)) by {
            assert(w_s1.entities[child] == crate::world::empty_entity());
        }
        lemma_tree_round_trip(w_s1, w_d1, child, head);
        assert(ms.first() == crate::entity_patch::ep_scene_model(head));
        assert(ms.drop_first() =~= crate::entity_patch::ep_children_models(list.drop_first()));
        let w_s2 = r.0;
        let w_d2 = crate::dynamic::scene_construct(
            w_d1,
            child,
            crate::entity_patch::ep_scene_model(head),
        );
        lemma_ready_is_static(w_d.registry, head);
        lemma_ep_construct_len(w_s1, child, head);
        assert(id < w_s2.entities.len());
        assert(forall|i: int| 0 <= i < list.drop_first().len()
            ==> round_trip_ready(w_d.registry, #[trigger] list.drop_first()[i]));
        assert(w_d2.registry == w_d.registry) by {
            lemma_scene_construct_registry(
                w_d1,
                child,
                crate::entity_patch::ep_scene_model(head),
            );
        }
        lemma_children_round_trip(w_s2, w_d2, id, list.drop_first());
    }
}

/// Round trip: a scene tree without inheritance can be constructed on
/// the static path, or flattened into a dynamic scene and constructed
/// through the registry. When every node's member types are distinct and
/// registered exactly as the members themselves carry, the target entity
/// is fresh for the root's member types, and the static construction
/// succeeds, the two paths produce the same final component set: the
/// same entities, components, child links and tags everywhere — they
/// differ only in the retained-props overlay and the lookup counter,
/// which belong to one path each.
pub proof fn lemma_static_dynamic_round_trip(w: WorldModel, id: int, e: EntityPatch)
    requires
        round_trip_ready(w.registry, e),
        0 <= id < w.entities.len(),
        fresh_for(w, id, e.patch@),
        ep_construct(w, id, e).1 is None,
    ensures
        comp_equiv(
            ep_construct(w, id, e).0,
            crate::dynamic::scene_construct(w, id, crate::entity_patch::ep_scene_model(e)),
        ),
{
    lemma_tree_round_trip(w, w, id, e);
}

} // verus!
