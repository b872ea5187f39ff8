use cant_wait_for_bsn::construct::{ConstructContext, ConstructError, ConstructProp};
use cant_wait_for_bsn::construct_impls::{ConstructEntity, ConstructHandle, EntityPath,
    ASSET_SERVER_RESOURCE};
use cant_wait_for_bsn::dynamic::{DynamicScene, ErasedPatch};
use cant_wait_for_bsn::entity_patch::{EntityPatch, SceneIter};
use cant_wait_for_bsn::keyed::{KeyRec, KeyedTable};
use cant_wait_for_bsn::patch::{patch_members, ConstructPatch};
use cant_wait_for_bsn::props::{FieldWrite, PropVal, Props, ValKind};
use cant_wait_for_bsn::registry::{ConstructRule, RegData, ReflectConstruct};
use cant_wait_for_bsn::world::{Entity, World, NAME_FIELD, NAME_TYPE_KEY};

const RECT: u64 = 10;
const WIDTH: u64 = 1;
const HEIGHT: u64 = 2;

const STYLE: u64 = 11;
const COLOR: u64 = 1;
const SIZE: u64 = 2;

const REF_TYPE: u64 = 12;
const REF_PROPS: u64 = 13;
const TARGET: u64 = 3;

fn nw(key: u64, v: i64) -> FieldWrite {
    KeyRec { key, value: PropVal::Num(v) }
}

fn tw(key: u64, v: &str) -> FieldWrite {
    KeyRec { key, value: PropVal::Text(String::from(v)) }
}

fn get_num(props: &Props, key: u64) -> Option<i64> {
    match props.get(key) {
        Some(PropVal::Num(n)) => Some(*n),
        _ => None,
    }
}

fn get_text(props: &Props, key: u64) -> Option<String> {
    match props.get(key) {
        Some(PropVal::Text(s)) => Some(s.clone()),
        _ => None,
    }
}

fn register_passthrough(world: &mut World, type_key: u64, path: &str, field_kinds: &[(u64, ValKind)]) {
    let mut fields: KeyedTable<ValKind> = KeyedTable::new();
    for (k, kind) in field_kinds {
        fields.set(*k, *kind);
    }
    world.registry.register(
        type_key,
        RegData {
            path: String::from(path),
            construct: Some(ReflectConstruct {
                props_key: type_key,
                default_props: KeyedTable::new(),
                rule: ConstructRule::Passthrough,
            }),
            insertable: true,
            fields,
        },
    );
}

fn world_with_entity() -> (World, Entity) {
    let mut world = World::new();
    let e = world.spawn_empty();
    (world, e)
}

#[test]
fn test_patch_name() {
    let mut player: Props = KeyedTable::new();
    player.set(NAME_FIELD, PropVal::Text(String::from("shane")));
    assert_eq!(get_text(&player, NAME_FIELD).as_deref(), Some("shane"));

    let patch = ConstructPatch::new_inferred(NAME_TYPE_KEY, vec![tw(NAME_FIELD, "fred")]);
    patch.patch(&mut player);
    assert_eq!(get_text(&player, NAME_FIELD).as_deref(), Some("fred"));
}

#[test]
fn construct_from_patch_equals_default_then_patch_then_construct() {
    let (world, e) = world_with_entity();
    let context = ConstructContext::new(e, world);

    let patch = ConstructPatch::new_inferred(RECT, vec![nw(WIDTH, 100), nw(HEIGHT, 50)]);
    let built = context.construct_from_patch(&patch).unwrap();

    // The same outcome, spelled out: default props, then the patch, then
    // passthrough construction.
    let mut by_hand = patch.construct.default_props();
    patch.patch(&mut by_hand);
    let constructed = context.construct(&patch.construct, by_hand).unwrap();

    assert_eq!(get_num(&built, WIDTH), Some(100));
    assert_eq!(get_num(&built, HEIGHT), Some(50));
    assert_eq!(get_num(&constructed, WIDTH), Some(100));
    assert_eq!(get_num(&constructed, HEIGHT), Some(50));
}

#[test]
fn composite_patch_applies_member_wise_in_order() {
    let patches = vec![
        ConstructPatch::new_inferred(RECT, vec![nw(WIDTH, 1)]),
        ConstructPatch::new_inferred(STYLE, vec![nw(SIZE, 2)]),
    ];
    let mut props: Vec<Props> = vec![KeyedTable::new(), KeyedTable::new()];
    patch_members(&patches, &mut props);
    assert_eq!(get_num(&props[0], WIDTH), Some(1));
    assert_eq!(get_num(&props[1], SIZE), Some(2));
}

#[test]
fn later_patch_on_same_field_wins() {
    // Two writes to the same field of the same type, applied in order to
    // one props value: the later write is what remains.
    let mut props: Props = KeyedTable::new();
    let first = ConstructPatch::new_inferred(RECT, vec![nw(WIDTH, 100)]);
    let second = ConstructPatch::new_inferred(RECT, vec![nw(WIDTH, 200)]);
    first.patch(&mut props);
    second.patch(&mut props);
    assert_eq!(get_num(&props, WIDTH), Some(200));
}

#[test]
fn static_path_performs_no_registry_lookups() {
    let (world, e) = world_with_entity();
    let mut context = ConstructContext::new(e, world);

    // No inheritance anywhere: the registry is never consulted, and the
    // component comes out exactly as the patch folded into defaults.
    let scene = EntityPatch {
        inherit: vec![],
        patch: vec![ConstructPatch::new_inferred(RECT, vec![nw(WIDTH, 7)])],
        children: vec![],
    };
    scene.construct(&mut context).unwrap();

    assert_eq!(context.world.lookups, 0);
    let rect = context.world.get_component(e, RECT).unwrap();
    assert_eq!(get_num(rect, WIDTH), Some(7));
}

#[test]
fn inherited_patches_apply_before_own_patch() {
    let (mut world, e) = world_with_entity();
    register_passthrough(
        &mut world,
        RECT,
        "Rect",
        &[(WIDTH, ValKind::Num), (HEIGHT, ValKind::Num)],
    );
    let mut context = ConstructContext::new(e, world);

    let base = EntityPatch {
        inherit: vec![],
        patch: vec![ConstructPatch::new_inferred(RECT, vec![nw(WIDTH, 100), nw(HEIGHT, 50)])],
        children: vec![],
    };
    let local = EntityPatch {
        inherit: vec![base],
        patch: vec![ConstructPatch::new_inferred(RECT, vec![nw(WIDTH, 200)])],
        children: vec![],
    };
    local.construct(&mut context).unwrap();

    let rect = context.world.get_component(e, RECT).unwrap();
    assert_eq!(get_num(rect, WIDTH), Some(200));
    assert_eq!(get_num(rect, HEIGHT), Some(50));
    // The dynamic path resolved the one component type against the registry.
    assert_eq!(context.world.lookups, 1);
}

#[test]
fn hot_patches_accumulate_instead_of_resetting() {
    let (world, e) = world_with_entity();
    let mut context = ConstructContext::new(e, world);

    let set_color = ConstructPatch::new_inferred(STYLE, vec![tw(COLOR, "red")]);
    let set_size = ConstructPatch::new_inferred(STYLE, vec![nw(SIZE, 10)]);
    set_color.hot_patch(&mut context).unwrap();
    set_size.hot_patch(&mut context).unwrap();

    let style = context.world.get_component(e, STYLE).unwrap();
    assert_eq!(get_text(style, COLOR).as_deref(), Some("red"));
    assert_eq!(get_num(style, SIZE), Some(10));
}

#[test]
fn static_and_dynamic_paths_agree_without_inheritance() {
    let mut world = World::new();
    register_passthrough(&mut world, RECT, "Rect", &[(WIDTH, ValKind::Num)]);
    register_passthrough(&mut world, STYLE, "Style", &[(SIZE, ValKind::Num)]);
    let statically = world.spawn_empty();
    let dynamically = world.spawn_empty();
    let mut context = ConstructContext::new(statically, world);

    let make_scene = || EntityPatch {
        inherit: vec![],
        patch: vec![
            ConstructPatch::new_inferred(RECT, vec![nw(WIDTH, 4)]),
            ConstructPatch::new_inferred(STYLE, vec![nw(SIZE, 9)]),
        ],
        children: vec![],
    };

    make_scene().construct(&mut context).unwrap();

    context.id = dynamically;
    let mut scene = DynamicScene::new();
    make_scene().dynamic_patch(&mut scene);
    scene.construct(&mut context).unwrap();

    let s_rect = context.world.get_component(statically, RECT).unwrap();
    let d_rect = context.world.get_component(dynamically, RECT).unwrap();
    assert_eq!(get_num(s_rect, WIDTH), get_num(d_rect, WIDTH));
    let s_style = context.world.get_component(statically, STYLE).unwrap();
    let d_style = context.world.get_component(dynamically, STYLE).unwrap();
    assert_eq!(get_num(s_style, SIZE), get_num(d_style, SIZE));
}

#[test]
fn unresolved_type_is_skipped_but_siblings_complete() {
    let (mut world, e) = world_with_entity();
    register_passthrough(&mut world, RECT, "Rect", &[(WIDTH, ValKind::Num)]);
    // STYLE is never registered.
    let mut context = ConstructContext::new(e, world);

    let mut scene = DynamicScene::new();
    ConstructPatch::new_inferred(STYLE, vec![nw(SIZE, 3)]).dynamic_patch(&mut scene);
    ConstructPatch::new_inferred(RECT, vec![nw(WIDTH, 8)]).dynamic_patch(&mut scene);
    scene.construct(&mut context).unwrap();

    assert!(context.world.get_component(e, STYLE).is_none());
    let rect = context.world.get_component(e, RECT).unwrap();
    assert_eq!(get_num(rect, WIDTH), Some(8));
    // Both entries were looked up, even the one that did not resolve.
    assert_eq!(context.world.lookups, 2);
}

#[test]
fn accumulated_patch_list_applies_oldest_first() {
    // The patch sequence [set X to 1, set X to 2, set Y to 3] accumulated
    // onto one type's dynamic patch list yields X = 2 and Y = 3.
    const X: u64 = 1;
    const Y: u64 = 2;
    let (mut world, e) = world_with_entity();
    register_passthrough(&mut world, RECT, "Rect", &[(X, ValKind::Num), (Y, ValKind::Num)]);
    let mut context = ConstructContext::new(e, world);

    let mut scene = DynamicScene::new();
    ConstructPatch::new_inferred(RECT, vec![nw(X, 1)]).dynamic_patch(&mut scene);
    ConstructPatch::new_inferred(RECT, vec![nw(X, 2)]).dynamic_patch(&mut scene);
    ConstructPatch::new_inferred(RECT, vec![nw(Y, 3)]).dynamic_patch(&mut scene);
    scene.construct(&mut context).unwrap();

    let rect = context.world.get_component(e, RECT).unwrap();
    assert_eq!(get_num(rect, X), Some(2));
    assert_eq!(get_num(rect, Y), Some(3));
}

#[test]
fn children_are_spawned_beneath_the_entity() {
    let (world, e) = world_with_entity();
    let mut context = ConstructContext::new(e, world);

    let scene = EntityPatch {
        inherit: vec![],
        patch: vec![],
        children: vec![EntityPatch {
            inherit: vec![],
            patch: vec![ConstructPatch::new_inferred(RECT, vec![nw(WIDTH, 5)])],
            children: vec![],
        }],
    };
    scene.construct(&mut context).unwrap();

    assert_eq!(context.world.entity_count(), 2);
    let child = Entity { index: 1 };
    assert_eq!(context.world.entities[e.index].children, vec![child]);
    let rect = context.world.get_component(child, RECT).unwrap();
    assert_eq!(get_num(rect, WIDTH), Some(5));
}

#[test]
fn empty_composite_patch_is_identity() {
    let (world, e) = world_with_entity();
    let mut context = ConstructContext::new(e, world);
    let scene = EntityPatch { inherit: vec![], patch: vec![], children: vec![] };
    scene.construct(&mut context).unwrap();
    assert_eq!(context.world.lookups, 0);
    assert_eq!(context.world.entity_count(), 1);
    assert!(context.world.get_component(e, RECT).is_none());
}

#[test]
fn scene_iter_spawns_each_scene_as_child() {
    let (world, e) = world_with_entity();
    let mut context = ConstructContext::new(e, world);
    let scenes = SceneIter::new(vec![
        EntityPatch {
            inherit: vec![],
            patch: vec![ConstructPatch::new_inferred(RECT, vec![nw(WIDTH, 1)])],
            children: vec![],
        },
        EntityPatch {
            inherit: vec![],
            patch: vec![ConstructPatch::new_inferred(RECT, vec![nw(WIDTH, 2)])],
            children: vec![],
        },
    ]);
    scenes.spawn(&mut context).unwrap();
    assert_eq!(context.world.entity_count(), 3);
    let first = context.world.get_component(Entity { index: 1 }, RECT).unwrap();
    let second = context.world.get_component(Entity { index: 2 }, RECT).unwrap();
    assert_eq!(get_num(first, WIDTH), Some(1));
    assert_eq!(get_num(second, WIDTH), Some(2));
}

fn name_component(name: &str) -> Props {
    let mut props: Props = KeyedTable::new();
    props.set(NAME_FIELD, PropVal::Text(String::from(name)));
    props
}

#[test]
fn entity_reference_resolves_name_to_first_match() {
    let mut world = World::new();
    let a = world.spawn_empty();
    let b = world.spawn_empty();
    world.insert_component(a, NAME_TYPE_KEY, name_component("Player1"));
    world.insert_component(b, NAME_TYPE_KEY, name_component("Player1"));
    let target = world.spawn_empty();
    let context = ConstructContext::new(target, world);

    let found =
        ConstructEntity::construct(&context, EntityPath::Name(String::from("Player1"))).unwrap();
    assert_eq!(found.0, a);

    let direct = ConstructEntity::construct(&context, EntityPath::Target(b)).unwrap();
    assert_eq!(direct.0, b);
}

#[test]
fn entity_reference_errors_are_invalid_props() {
    let (world, e) = world_with_entity();
    let context = ConstructContext::new(e, world);

    let missing =
        ConstructEntity::construct(&context, EntityPath::Name(String::from("nobody")));
    assert!(matches!(missing, Err(ConstructError::InvalidProps { .. })));

    let unset = ConstructEntity::construct(&context, EntityPath::Unset);
    assert!(matches!(unset, Err(ConstructError::InvalidProps { .. })));
}

#[test]
fn resolve_name_rule_rewrites_the_reference_field() {
    let mut world = World::new();
    let named = world.spawn_empty();
    world.insert_component(named, NAME_TYPE_KEY, name_component("Hero"));
    let e = world.spawn_empty();
    let context = ConstructContext::new(e, world);

    let rc = ReflectConstruct {
        props_key: REF_PROPS,
        default_props: KeyedTable::new(),
        rule: ConstructRule::ResolveName { field: TARGET },
    };
    let patch = ConstructPatch::new(REF_TYPE, rc, vec![tw(TARGET, "Hero")]);
    let built = context.construct_from_patch(&patch).unwrap();
    assert!(matches!(built.get(TARGET), Some(PropVal::Ent(0))));

    // Without the reference field, construction rejects the props.
    let empty_patch = ConstructPatch::new(
        REF_TYPE,
        ReflectConstruct {
            props_key: REF_PROPS,
            default_props: KeyedTable::new(),
            rule: ConstructRule::ResolveName { field: TARGET },
        },
        vec![],
    );
    let rejected = context.construct_from_patch(&empty_patch);
    assert!(matches!(rejected, Err(ConstructError::InvalidProps { .. })));
}

#[test]
fn missing_resource_fails_construction() {
    let (world, e) = world_with_entity();
    let context = ConstructContext::new(e, world);
    let rc = ReflectConstruct {
        props_key: REF_PROPS,
        default_props: KeyedTable::new(),
        rule: ConstructRule::RequireResource { resource: ASSET_SERVER_RESOURCE },
    };
    let patch = ConstructPatch::new(REF_TYPE, rc, vec![]);
    let denied = context.construct_from_patch(&patch);
    assert!(matches!(denied, Err(ConstructError::MissingResource { .. })));

    let mut world = context.world;
    world.add_resource(ASSET_SERVER_RESOURCE);
    let context = ConstructContext::new(e, world);
    assert!(context.construct_from_patch(&patch).is_ok());
}

#[test]
fn asset_handle_needs_the_asset_service() {
    let (world, e) = world_with_entity();
    let context = ConstructContext::new(e, world);
    let denied = ConstructHandle::construct(&context, "fonts/plain.ttf");
    assert!(matches!(denied, Err(ConstructError::MissingResource { .. })));

    let mut world = context.world;
    world.add_resource(ASSET_SERVER_RESOURCE);
    let context = ConstructContext::new(e, world);
    let handle = ConstructHandle::construct(&context, "fonts/plain.ttf").unwrap();
    assert_eq!(handle.path, "fonts/plain.ttf");
}

#[test]
fn construct_prop_passes_values_through_and_constructs_props() {
    let (world, e) = world_with_entity();
    let context = ConstructContext::new(e, world);

    let mut direct: Props = KeyedTable::new();
    direct.set(WIDTH, PropVal::Num(6));
    let out = ConstructProp::Value(direct)
        .construct(&context, &ConstructRule::RequireResource { resource: 99 })
        .unwrap();
    assert_eq!(get_num(&out, WIDTH), Some(6));

    let mut raw: Props = KeyedTable::new();
    raw.set(WIDTH, PropVal::Num(6));
    let denied = ConstructProp::Prop(raw)
        .construct(&context, &ConstructRule::RequireResource { resource: 99 });
    assert!(matches!(denied, Err(ConstructError::MissingResource { .. })));
}

#[test]
fn queued_patches_replayed_in_accumulation_order() {
    // The erased queue of one type holds whole patches; replacing the
    // queue discards what was queued before.
    let mut scene = DynamicScene::new();
    scene.queue_writes(RECT, vec![nw(WIDTH, 1)]);
    scene.queue_writes(RECT, vec![nw(WIDTH, 2)]);
    scene.set_entry(RECT, vec![ErasedPatch { writes: vec![nw(WIDTH, 9)] }]);

    let (mut world, e) = world_with_entity();
    register_passthrough(&mut world, RECT, "Rect", &[(WIDTH, ValKind::Num)]);
    let mut context = ConstructContext::new(e, world);
    scene.construct(&mut context).unwrap();
    let rect = context.world.get_component(e, RECT).unwrap();
    assert_eq!(get_num(rect, WIDTH), Some(9));
}

fn register_with_rule(world: &mut World, type_key: u64, props_key: u64, path: &str, rule: ConstructRule) {
    world.registry.register(
        type_key,
        RegData {
            path: String::from(path),
            construct: Some(ReflectConstruct {
                props_key,
                default_props: KeyedTable::new(),
                rule,
            }),
            insertable: true,
            fields: KeyedTable::new(),
        },
    );
}

#[test]
fn dynamic_path_runs_construction_for_non_self_describing_types() {
    let mut world = World::new();
    // A type whose props type differs from itself: queued patches fold
    // into default props and the construction rule runs.
    register_with_rule(
        &mut world,
        REF_TYPE,
        REF_PROPS,
        "Ref",
        ConstructRule::ResolveName { field: TARGET },
    );
    register_with_rule(&mut world, STYLE, REF_PROPS + 1, "Style", ConstructRule::Assemble);
    let named = world.spawn_empty();
    world.insert_component(named, NAME_TYPE_KEY, name_component("Hero"));
    let e = world.spawn_empty();
    let mut context = ConstructContext::new(e, world);

    let mut scene = DynamicScene::new();
    scene.queue_writes(REF_TYPE, vec![tw(TARGET, "Hero")]);
    scene.queue_writes(STYLE, vec![nw(SIZE, 4)]);
    scene.construct(&mut context).unwrap();

    let reference = context.world.get_component(e, REF_TYPE).unwrap();
    assert!(matches!(reference.get(TARGET), Some(PropVal::Ent(0))));
    let style = context.world.get_component(e, STYLE).unwrap();
    assert_eq!(get_num(style, SIZE), Some(4));
}

#[test]
fn failed_construction_is_skipped_but_siblings_complete() {
    let mut world = World::new();
    register_with_rule(
        &mut world,
        REF_TYPE,
        REF_PROPS,
        "Ref",
        ConstructRule::ResolveName { field: TARGET },
    );
    register_passthrough(&mut world, STYLE, "Style", &[(SIZE, ValKind::Num)]);
    let e = world.spawn_empty();
    let mut context = ConstructContext::new(e, world);

    let mut scene = DynamicScene::new();
    // Nobody is named Hero: this entry's construction fails and is skipped.
    scene.queue_writes(REF_TYPE, vec![tw(TARGET, "Hero")]);
    scene.queue_writes(STYLE, vec![nw(SIZE, 4)]);
    scene.construct(&mut context).unwrap();

    assert!(context.world.get_component(e, REF_TYPE).is_none());
    let style = context.world.get_component(e, STYLE).unwrap();
    assert_eq!(get_num(style, SIZE), Some(4));
}

#[test]
fn composite_hot_patch_stops_at_the_first_failure() {
    let (world, e) = world_with_entity();
    let mut context = ConstructContext::new(e, world);

    let failing = ConstructPatch::new(
        REF_TYPE,
        ReflectConstruct {
            props_key: REF_PROPS,
            default_props: KeyedTable::new(),
            rule: ConstructRule::ResolveName { field: TARGET },
        },
        vec![tw(TARGET, "nobody")],
    );
    let trailing = ConstructPatch::new_inferred(STYLE, vec![nw(SIZE, 4)]);
    let r = cant_wait_for_bsn::hot_patch::hot_patch_members(
        &vec![failing, trailing],
        &mut context,
    );
    assert!(matches!(r, Err(ConstructError::InvalidProps { .. })));
    // The member after the failure never ran.
    assert!(context.world.get_component(e, STYLE).is_none());
    // The failing member still retained its patched props.
    assert!(context.world.get_retained(e, REF_TYPE).is_some());
}
