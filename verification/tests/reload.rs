use cant_wait_for_bsn::construct::ConstructContext;
use cant_wait_for_bsn::from_bsn::{bool_from_bsn, from_bsn_kind, i32_from_bsn, i64_from_bsn,
    string_from_bsn, u32_from_bsn, u8_from_bsn, unit_from_bsn, FromBsnError};
use cant_wait_for_bsn::hot_reload::{add_parsed_patch_to_dynamic_scene, hot_reload_bsn,
    record_invocations, BsnInvocationId, HotReloadState, HotReloadableBsnMacro};
use cant_wait_for_bsn::dynamic::DynamicScene;
use cant_wait_for_bsn::entity_patch::EntityPatch;
use cant_wait_for_bsn::keyed::{KeyRec, KeyedTable};
use cant_wait_for_bsn::parse::{BsnEntity, BsnField, BsnLit, BsnPatch, BsnProp};
use cant_wait_for_bsn::patch::ConstructPatch;
use cant_wait_for_bsn::props::{PropVal, Props, ValKind};
use cant_wait_for_bsn::registry::{ConstructRule, RegData, ReflectConstruct};
use cant_wait_for_bsn::world::World;
use cant_wait_for_bsn::CantWaitForBsnPlugin;

const STYLE: u64 = 11;
const COLOR: u64 = 1;
const SIZE: u64 = 2;

fn style_registered_world() -> World {
    let mut world = World::new();
    CantWaitForBsnPlugin.build(&mut world);
    let mut fields: KeyedTable<ValKind> = KeyedTable::new();
    fields.set(COLOR, ValKind::Text);
    fields.set(SIZE, ValKind::Num);
    world.registry.register(
        STYLE,
        RegData {
            path: String::from("Style"),
            construct: Some(ReflectConstruct {
                props_key: STYLE,
                default_props: KeyedTable::new(),
                rule: ConstructRule::Passthrough,
            }),
            insertable: true,
            fields,
        },
    );
    world
}

fn style_text(world: &World, e: cant_wait_for_bsn::world::Entity, field: u64) -> Option<String> {
    match world.get_component(e, STYLE)?.get(field) {
        Some(PropVal::Text(s)) => Some(s.clone()),
        _ => None,
    }
}

fn style_num(world: &World, e: cant_wait_for_bsn::world::Entity, field: u64) -> Option<i64> {
    match world.get_component(e, STYLE)?.get(field) {
        Some(PropVal::Num(n)) => Some(*n),
        _ => None,
    }
}

fn reloadable_style_scene(id: BsnInvocationId) -> HotReloadableBsnMacro {
    HotReloadableBsnMacro {
        file: String::from("scenes.rs"),
        line: 3,
        column: 5,
        id,
        scene: EntityPatch {
            inherit: vec![],
            patch: vec![ConstructPatch::new_inferred(
                STYLE,
                vec![KeyRec { key: COLOR, value: PropVal::Text(String::from("red")) },
                    KeyRec { key: SIZE, value: PropVal::Num(10) }],
            )],
            children: vec![],
        },
    }
}

fn parsed_style_patch(color: &str) -> BsnEntity {
    BsnEntity {
        inherits: vec![],
        patch: BsnPatch::Patch(
            String::from("Style"),
            vec![BsnField {
                member: COLOR,
                prop: BsnProp::Value(BsnLit::Text(String::from(color))),
            }],
        ),
        children: vec![],
    }
}

#[test]
fn invocation_id_is_stable_and_site_dependent() {
    let a = BsnInvocationId::new("scenes.rs", 3, 5);
    let b = BsnInvocationId::new("scenes.rs", 3, 5);
    let c = BsnInvocationId::new("scenes.rs", 4, 5);
    let d = BsnInvocationId::new("other.rs", 3, 5);
    assert_eq!(a, b);
    assert_ne!(a, c);
    assert_ne!(a, d);
    assert_ne!(c, d);
}

#[test]
fn hot_reload_patches_tagged_entities() {
    let world = style_registered_world();
    let mut world = world;
    let e = world.spawn_empty();
    let mut context = ConstructContext::new(e, world);

    let id = BsnInvocationId::new("scenes.rs", 3, 5);
    reloadable_style_scene(id).construct(&mut context).unwrap();
    assert_eq!(style_text(&context.world, e, COLOR).as_deref(), Some("red"));

    let mut state = HotReloadState::new();
    record_invocations(&mut state, 1, "scenes.rs", &vec![(3, 5)]);

    let parsed = vec![parsed_style_patch("blue")];
    hot_reload_bsn(&mut state, &mut context, 1, &parsed);

    // The color came from the re-parsed literal; the size survives,
    // because the reload patches the live component in place.
    assert_eq!(style_text(&context.world, e, COLOR).as_deref(), Some("blue"));
    assert_eq!(style_num(&context.world, e, SIZE), Some(10));
}

#[test]
fn invocation_count_mismatch_disables_the_file() {
    let mut world = style_registered_world();
    let e = world.spawn_empty();
    let mut context = ConstructContext::new(e, world);

    let id = BsnInvocationId::new("scenes.rs", 3, 5);
    reloadable_style_scene(id).construct(&mut context).unwrap();

    let mut state = HotReloadState::new();
    record_invocations(&mut state, 1, "scenes.rs", &vec![(3, 5)]);

    // The re-parsed file holds two literals where one was recorded:
    // nothing is applied.
    let parsed = vec![parsed_style_patch("blue"), parsed_style_patch("green")];
    hot_reload_bsn(&mut state, &mut context, 1, &parsed);
    assert_eq!(style_text(&context.world, e, COLOR).as_deref(), Some("red"));

    // The file stays disabled even for a later well-formed reload.
    let parsed = vec![parsed_style_patch("blue")];
    hot_reload_bsn(&mut state, &mut context, 1, &parsed);
    assert_eq!(style_text(&context.world, e, COLOR).as_deref(), Some("red"));
}

#[test]
fn unknown_file_reload_does_nothing() {
    let mut world = style_registered_world();
    let e = world.spawn_empty();
    let mut context = ConstructContext::new(e, world);
    let id = BsnInvocationId::new("scenes.rs", 3, 5);
    reloadable_style_scene(id).construct(&mut context).unwrap();

    let mut state = HotReloadState::new();
    let parsed = vec![parsed_style_patch("blue")];
    hot_reload_bsn(&mut state, &mut context, 7, &parsed);
    assert_eq!(style_text(&context.world, e, COLOR).as_deref(), Some("red"));
}

#[test]
fn parsed_patch_with_unknown_path_is_skipped() {
    let world = style_registered_world();
    let mut scene = DynamicScene::new();
    let patch = BsnPatch::Patch(String::from("Nowhere"), vec![]);
    add_parsed_patch_to_dynamic_scene(&mut scene, &patch, &world.registry);
    assert!(scene.component_props.is_empty());
}

#[test]
fn parsed_patch_skips_unknown_fields_and_mismatched_literals() {
    let world = style_registered_world();
    let mut scene = DynamicScene::new();
    let patch = BsnPatch::Patch(
        String::from("Style"),
        vec![
            BsnField { member: COLOR, prop: BsnProp::Value(BsnLit::Text(String::from("blue"))) },
            BsnField { member: 99, prop: BsnProp::Value(BsnLit::Num(1)) },
            BsnField { member: SIZE, prop: BsnProp::Value(BsnLit::Text(String::from("big"))) },
        ],
    );
    add_parsed_patch_to_dynamic_scene(&mut scene, &patch, &world.registry);
    assert_eq!(scene.component_props.len(), 1);
    assert_eq!(scene.component_props[0].type_key, STYLE);
    let writes = &scene.component_props[0].patches[0].writes;
    assert_eq!(writes.len(), 1);
    assert_eq!(writes[0].key, COLOR);
}

#[test]
fn parsed_tuple_adds_members_in_order() {
    let world = style_registered_world();
    let mut scene = DynamicScene::new();
    let patch = BsnPatch::Tuple(vec![
        BsnPatch::Patch(String::from("Style"), vec![]),
        BsnPatch::Expr,
    ]);
    add_parsed_patch_to_dynamic_scene(&mut scene, &patch, &world.registry);
    assert_eq!(scene.component_props.len(), 1);
    assert_eq!(scene.component_props[0].type_key, STYLE);
    assert!(scene.component_props[0].patches.is_empty());
}

#[test]
fn literal_conversions_check_shape_and_range() {
    assert!(matches!(u8_from_bsn(&BsnLit::Num(7)), Ok(7)));
    assert!(matches!(u8_from_bsn(&BsnLit::Num(300)), Err(FromBsnError::Custom(_))));
    assert!(matches!(u8_from_bsn(&BsnLit::Truth(true)), Err(FromBsnError::MismatchedType)));

    assert!(matches!(u32_from_bsn(&BsnLit::Num(70000)), Ok(70000)));
    assert!(matches!(u32_from_bsn(&BsnLit::Num(-1)), Err(FromBsnError::Custom(_))));

    assert!(matches!(i32_from_bsn(&BsnLit::Num(-5)), Ok(-5)));
    assert!(matches!(i32_from_bsn(&BsnLit::Num(1 << 40)), Err(FromBsnError::Custom(_))));

    assert!(matches!(i64_from_bsn(&BsnLit::Num(-9)), Ok(-9)));
    assert!(matches!(bool_from_bsn(&BsnLit::Truth(true)), Ok(true)));
    assert!(matches!(bool_from_bsn(&BsnLit::Num(1)), Err(FromBsnError::MismatchedType)));
    assert!(matches!(unit_from_bsn(&BsnLit::Unit), Ok(())));
    assert!(matches!(unit_from_bsn(&BsnLit::Num(0)), Err(FromBsnError::MismatchedType)));

    let s = string_from_bsn(&BsnLit::Text(String::from("hi"))).unwrap();
    assert_eq!(s, "hi");

    // A text literal fits an entity-reference field: it names the entity.
    assert!(matches!(
        from_bsn_kind(ValKind::Ent, &BsnLit::Text(String::from("Hero"))),
        Ok(PropVal::Text(_))
    ));
    assert!(matches!(
        from_bsn_kind(ValKind::Num, &BsnLit::Text(String::from("Hero"))),
        Err(FromBsnError::MismatchedType)
    ));
}

#[test]
fn plugin_registers_the_name_component() {
    let mut world = World::new();
    CantWaitForBsnPlugin.build(&mut world);
    let name = String::from("Name");
    let resolved = world.registry.resolve_path(&name);
    assert!(matches!(resolved, Some((k, _)) if k == cant_wait_for_bsn::world::NAME_TYPE_KEY));
}

#[test]
fn fresh_props_hold_nothing() {
    let props: Props = KeyedTable::new();
    assert!(props.get(COLOR).is_none());
    assert!(!props.contains_key(COLOR));
}
