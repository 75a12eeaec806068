use spree::components::{
    ActiveCamera, Camera, Color, Name, Parent, Player, Transform, ACTIVE_CAMERA, CAMERA, COLOR,
    GLOBAL_TRANSFORM, LOCAL_TRANSFORM, NAME, PARENT, PLAYER,
};
use spree::entity::EntityId;
use spree::linear::{Mat4, Quat, Vec3, Vec4};
use spree::row::{Component, ComponentRef};
use spree::world::{
    add_components, can_spawn, component_mask, despawn, despawn_entities, get_component,
    query_first_entity, remove_components, set_component, spawn_entities, World,
};

fn bits(value: f32) -> u32 {
    value.to_bits()
}

#[test]
fn spawn_gives_defaults_for_kinds_in_the_mask() {
    let mut world = World::new();
    let ids = spawn_entities(&mut world, LOCAL_TRANSFORM | CAMERA, 3);
    assert_eq!(ids.len(), 3);
    for id in ids.iter() {
        match get_component(&world, *id, LOCAL_TRANSFORM) {
            Some(ComponentRef::LocalTransform(t)) => {
                assert_eq!(*t, Transform::default());
                assert_eq!(f32::from_bits(t.scale.x), 1.0);
                assert_eq!(f32::from_bits(t.rotation.w), 1.0);
                assert_eq!(f32::from_bits(t.translation.y), 0.0);
            }
            other => panic!("unexpected {:?}", other),
        }
        match get_component(&world, *id, CAMERA) {
            Some(ComponentRef::Camera(c)) => assert_eq!(*c, Camera::default()),
            other => panic!("unexpected {:?}", other),
        }
        assert!(get_component(&world, *id, NAME).is_none());
        assert!(get_component(&world, *id, PLAYER).is_none());
        assert!(get_component(&world, *id, GLOBAL_TRANSFORM).is_none());
    }
}

#[test]
fn spawn_returns_identifiers_in_creation_order() {
    let mut world = World::new();
    let ids = spawn_entities(&mut world, NAME, 4);
    assert_eq!(
        ids,
        vec![
            EntityId { id: 0, generation: 0 },
            EntityId { id: 1, generation: 0 },
            EntityId { id: 2, generation: 0 },
            EntityId { id: 3, generation: 0 },
        ]
    );
    let more = spawn_entities(&mut world, COLOR, 1);
    assert_eq!(more, vec![EntityId { id: 4, generation: 0 }]);
}

#[test]
fn every_kind_has_its_documented_default() {
    let mut world = World::new();
    let all = LOCAL_TRANSFORM
        | GLOBAL_TRANSFORM
        | PARENT
        | NAME
        | COLOR
        | CAMERA
        | ACTIVE_CAMERA
        | PLAYER;
    let entity = spawn_entities(&mut world, all, 1)[0];
    let zero = Vec4 { x: 0, y: 0, z: 0, w: 0 };
    assert_eq!(
        get_component(&world, entity, LOCAL_TRANSFORM).map(|c| c.clone()),
        Some(ComponentRef::LocalTransform(&Transform {
            translation: Vec3 { x: bits(0.0), y: bits(0.0), z: bits(0.0) },
            rotation: Quat { i: bits(0.0), j: bits(0.0), k: bits(0.0), w: bits(1.0) },
            scale: Vec3 { x: bits(1.0), y: bits(1.0), z: bits(1.0) },
        }))
    );
    assert_eq!(
        get_component(&world, entity, GLOBAL_TRANSFORM),
        Some(ComponentRef::GlobalTransform(&Mat4 { c0: zero, c1: zero, c2: zero, c3: zero }))
    );
    assert_eq!(
        get_component(&world, entity, PARENT),
        Some(ComponentRef::Parent(&Parent(EntityId { id: 0, generation: 0 })))
    );
    assert_eq!(
        get_component(&world, entity, NAME),
        Some(ComponentRef::Name(&Name(String::new())))
    );
    assert_eq!(get_component(&world, entity, COLOR), Some(ComponentRef::Color(&Color(zero))));
    assert_eq!(
        get_component(&world, entity, ACTIVE_CAMERA),
        Some(ComponentRef::ActiveCamera(&ActiveCamera))
    );
    assert_eq!(get_component(&world, entity, PLAYER), Some(ComponentRef::Player(&Player(0))));
    match get_component(&world, entity, CAMERA) {
        Some(ComponentRef::Camera(camera)) => {
            assert_eq!(f32::from_bits(camera.sensitivity.x), 1.0);
            assert_eq!(f32::from_bits(camera.sensitivity.y), 1.0);
        }
        other => panic!("unexpected {:?}", other),
    }
}

#[test]
fn spawn_with_an_empty_mask_is_legal() {
    let mut world = World::new();
    let ids = spawn_entities(&mut world, 0, 2);
    assert_eq!(ids.len(), 2);
    assert_eq!(component_mask(&world, ids[0]), Some(0));
    assert!(get_component(&world, ids[0], LOCAL_TRANSFORM).is_none());
    assert_eq!(query_first_entity(&world, 0), Some(ids[0]));
    assert_eq!(query_first_entity(&world, NAME), None);
}

#[test]
fn spawn_of_no_entity_changes_nothing_but_the_tables() {
    let mut world = World::new();
    let ids = spawn_entities(&mut world, NAME, 0);
    assert!(ids.is_empty());
    assert_eq!(query_first_entity(&world, 0), None);
}

#[test]
fn get_component_takes_one_kind_bit_only() {
    let mut world = World::new();
    let entity = spawn_entities(&mut world, NAME | COLOR, 1)[0];
    assert!(get_component(&world, entity, NAME | COLOR).is_none());
    assert!(get_component(&world, entity, 256).is_none());
    assert!(get_component(&world, entity, 0).is_none());
    assert!(get_component(&world, entity, NAME).is_some());
}

#[test]
fn get_component_of_an_unknown_identifier_is_none() {
    let mut world = World::new();
    spawn_entities(&mut world, NAME, 1);
    assert!(get_component(&world, EntityId { id: 7, generation: 0 }, NAME).is_none());
    assert!(get_component(&world, EntityId { id: 0, generation: 3 }, NAME).is_none());
    assert_eq!(component_mask(&world, EntityId { id: 7, generation: 0 }), None);
}

#[test]
fn despawned_identifier_stays_dead_when_the_slot_is_reused() {
    let mut world = World::new();
    let first = spawn_entities(&mut world, NAME, 1)[0];
    assert!(despawn(&mut world, first));
    assert!(get_component(&world, first, NAME).is_none());
    let second = spawn_entities(&mut world, NAME, 1)[0];
    assert_eq!(second, EntityId { id: first.id, generation: first.generation + 1 });
    assert!(get_component(&world, first, NAME).is_none());
    assert!(get_component(&world, second, NAME).is_some());
    assert!(!despawn(&mut world, first));
    assert!(get_component(&world, second, NAME).is_some());
}

#[test]
fn despawning_a_dead_entity_is_a_no_op() {
    let mut world = World::new();
    let ids = spawn_entities(&mut world, NAME, 2);
    assert!(despawn(&mut world, ids[0]));
    assert!(!despawn(&mut world, ids[0]));
    assert!(!despawn(&mut world, EntityId { id: 99, generation: 0 }));
    assert_eq!(component_mask(&world, ids[1]), Some(NAME));
    assert!(!add_components(&mut world, ids[0], COLOR));
    assert!(!remove_components(&mut world, ids[0], NAME));
    assert!(!set_component(&mut world, ids[0], Component::Player(Player(1))));
}

#[test]
fn despawn_keeps_the_other_rows_of_the_table() {
    let mut world = World::new();
    let ids = spawn_entities(&mut world, PLAYER, 3);
    for (n, id) in ids.iter().enumerate() {
        assert!(set_component(&mut world, *id, Component::Player(Player(n as u8 + 10))));
    }
    assert!(despawn(&mut world, ids[0]));
    assert_eq!(get_component(&world, ids[1], PLAYER), Some(ComponentRef::Player(&Player(11))));
    assert_eq!(get_component(&world, ids[2], PLAYER), Some(ComponentRef::Player(&Player(12))));
    assert!(despawn(&mut world, ids[2]));
    assert_eq!(get_component(&world, ids[1], PLAYER), Some(ComponentRef::Player(&Player(11))));
    assert_eq!(query_first_entity(&world, PLAYER), Some(ids[1]));
}

#[test]
fn despawn_entities_skips_the_dead_and_the_repeated() {
    let mut world = World::new();
    let ids = spawn_entities(&mut world, NAME, 3);
    assert!(despawn(&mut world, ids[1]));
    let gone = despawn_entities(&mut world, &[ids[2], ids[1], ids[2], ids[0]]);
    assert_eq!(gone, vec![ids[2], ids[0]]);
    assert_eq!(query_first_entity(&world, 0), None);
    assert!(despawn_entities(&mut world, &[]).is_empty());
}

#[test]
fn freed_slots_are_reused_last_freed_first() {
    let mut world = World::new();
    let ids = spawn_entities(&mut world, NAME, 3);
    assert!(despawn(&mut world, ids[0]));
    assert!(despawn(&mut world, ids[2]));
    let again = spawn_entities(&mut world, COLOR, 3);
    assert_eq!(
        again,
        vec![
            EntityId { id: 2, generation: 1 },
            EntityId { id: 0, generation: 1 },
            EntityId { id: 3, generation: 0 },
        ]
    );
    assert_eq!(component_mask(&world, ids[1]), Some(NAME));
    assert_eq!(component_mask(&world, ids[0]), None);
}

#[test]
fn add_then_remove_restores_the_entity() {
    let mut world = World::new();
    let ids = spawn_entities(&mut world, LOCAL_TRANSFORM | NAME, 2);
    let entity = ids[0];
    let moved = Transform {
        translation: Vec3 { x: bits(1.5), y: bits(-2.0), z: bits(0.25) },
        rotation: Quat { i: bits(0.5), j: bits(0.5), k: bits(0.5), w: bits(0.5) },
        scale: Vec3 { x: bits(2.0), y: bits(2.0), z: bits(2.0) },
    };
    assert!(set_component(&mut world, entity, Component::Name(Name("hero".to_string()))));
    assert!(set_component(&mut world, entity, Component::LocalTransform(moved)));
    assert!(add_components(&mut world, entity, PLAYER | ACTIVE_CAMERA));
    assert_eq!(
        component_mask(&world, entity),
        Some(LOCAL_TRANSFORM | NAME | PLAYER | ACTIVE_CAMERA)
    );
    assert_eq!(get_component(&world, entity, PLAYER), Some(ComponentRef::Player(&Player(0))));
    assert_eq!(query_first_entity(&world, PLAYER), Some(entity));
    assert!(remove_components(&mut world, entity, PLAYER | ACTIVE_CAMERA));
    assert_eq!(component_mask(&world, entity), Some(LOCAL_TRANSFORM | NAME));
    assert_eq!(query_first_entity(&world, PLAYER), None);
    assert!(get_component(&world, entity, PLAYER).is_none());
    assert_eq!(
        get_component(&world, entity, NAME),
        Some(ComponentRef::Name(&Name("hero".to_string())))
    );
    assert_eq!(
        get_component(&world, entity, LOCAL_TRANSFORM),
        Some(ComponentRef::LocalTransform(&moved))
    );
    assert_eq!(component_mask(&world, ids[1]), Some(LOCAL_TRANSFORM | NAME));
    assert_eq!(query_first_entity(&world, NAME), Some(ids[1]));
}

#[test]
fn adding_a_kind_the_entity_has_keeps_its_value() {
    let mut world = World::new();
    let entity = spawn_entities(&mut world, PLAYER, 1)[0];
    assert!(set_component(&mut world, entity, Component::Player(Player(7))));
    assert!(add_components(&mut world, entity, PLAYER));
    assert_eq!(get_component(&world, entity, PLAYER), Some(ComponentRef::Player(&Player(7))));
    assert!(add_components(&mut world, entity, PLAYER | COLOR));
    assert_eq!(get_component(&world, entity, PLAYER), Some(ComponentRef::Player(&Player(7))));
    assert_eq!(component_mask(&world, entity), Some(PLAYER | COLOR));
}

#[test]
fn removing_a_kind_the_entity_lacks_is_a_no_op() {
    let mut world = World::new();
    let entity = spawn_entities(&mut world, PLAYER, 1)[0];
    assert!(set_component(&mut world, entity, Component::Player(Player(7))));
    assert!(remove_components(&mut world, entity, NAME | COLOR));
    assert_eq!(component_mask(&world, entity), Some(PLAYER));
    assert_eq!(get_component(&world, entity, PLAYER), Some(ComponentRef::Player(&Player(7))));
}

#[test]
fn removing_every_kind_leaves_an_entity_without_components() {
    let mut world = World::new();
    let entity = spawn_entities(&mut world, PLAYER | NAME, 1)[0];
    assert!(remove_components(&mut world, entity, PLAYER | NAME | COLOR));
    assert_eq!(component_mask(&world, entity), Some(0));
    assert!(add_components(&mut world, entity, NAME));
    assert_eq!(
        get_component(&world, entity, NAME),
        Some(ComponentRef::Name(&Name(String::new())))
    );
}

#[test]
fn set_component_adds_the_kind_when_it_is_missing() {
    let mut world = World::new();
    let entity = spawn_entities(&mut world, NAME, 1)[0];
    assert!(set_component(&mut world, entity, Component::Name(Name("lamp".to_string()))));
    let red = Color(Vec4 { x: bits(1.0), y: bits(0.0), z: bits(0.0), w: bits(1.0) });
    assert!(set_component(&mut world, entity, Component::Color(red)));
    assert_eq!(component_mask(&world, entity), Some(NAME | COLOR));
    assert_eq!(get_component(&world, entity, COLOR), Some(ComponentRef::Color(&red)));
    assert_eq!(
        get_component(&world, entity, NAME),
        Some(ComponentRef::Name(&Name("lamp".to_string())))
    );
}

#[test]
fn an_entity_is_in_one_table_at_a_time() {
    let mut world = World::new();
    let entity = spawn_entities(&mut world, NAME, 1)[0];
    assert!(add_components(&mut world, entity, COLOR));
    let others = spawn_entities(&mut world, NAME, 1);
    assert_eq!(query_first_entity(&world, NAME), Some(others[0]));
    assert!(despawn(&mut world, others[0]));
    assert_eq!(query_first_entity(&world, NAME), Some(entity));
    assert!(despawn(&mut world, entity));
    assert_eq!(query_first_entity(&world, NAME), None);
    assert_eq!(query_first_entity(&world, 0), None);
}

#[test]
fn query_first_entity_wants_every_kind_of_the_mask() {
    let mut world = World::new();
    let plain = spawn_entities(&mut world, NAME, 1)[0];
    let colored = spawn_entities(&mut world, NAME | COLOR, 1)[0];
    assert_eq!(query_first_entity(&world, NAME), Some(plain));
    assert_eq!(query_first_entity(&world, NAME | COLOR), Some(colored));
    assert_eq!(query_first_entity(&world, COLOR), Some(colored));
    assert_eq!(query_first_entity(&world, NAME | PLAYER), None);
}

#[test]
fn can_spawn_knows_the_limit_of_slot_numbers() {
    let mut world = World::new();
    assert!(can_spawn(&world, 0));
    assert!(can_spawn(&world, u32::MAX as usize));
    assert!(!can_spawn(&world, u32::MAX as usize + 1));
    spawn_entities(&mut world, 0, 2);
    assert!(can_spawn(&world, u32::MAX as usize - 2));
    assert!(!can_spawn(&world, u32::MAX as usize - 1));
}

#[test]
fn component_knows_its_kind() {
    assert_eq!(Component::LocalTransform(Transform::default()).kind(), LOCAL_TRANSFORM);
    assert_eq!(Component::GlobalTransform(Mat4::default()).kind(), GLOBAL_TRANSFORM);
    assert_eq!(Component::Parent(Parent::default()).kind(), PARENT);
    assert_eq!(Component::Name(Name::default()).kind(), NAME);
    assert_eq!(Component::Color(Color::default()).kind(), COLOR);
    assert_eq!(Component::Camera(Camera::default()).kind(), CAMERA);
    assert_eq!(Component::ActiveCamera(ActiveCamera).kind(), ACTIVE_CAMERA);
    assert_eq!(Component::Player(Player::default()).kind(), PLAYER);
}
