use spree::resources::{
    is_key_pressed, ElementState, ImageFormat, Image, Keyboard, MagFilter, MinFilter, Mouse,
    MouseButtons, Resources, Sampler, Texture, WrappingMode, ALL_MOUSE_FLAGS, ESCAPE,
    LEFT_CLICKED, MIDDLE_CLICKED, MOVED, RIGHT_CLICKED, SCROLLED,
};
use spree::systems::{run_systems, table_has_components, update_table};
use spree::components::{Name, Player, COLOR, NAME, PLAYER};
use spree::row::{Component, ComponentRef, Row};
use spree::table::Table;
use spree::entity::EntityId;
use spree::world::{component_mask, get_component, set_component, spawn_entities, World};

#[test]
fn a_key_is_pressed_only_while_it_is_known_and_down() {
    let mut keyboard = Keyboard::default();
    assert!(!is_key_pressed(&keyboard, ESCAPE));
    keyboard.keystates.insert(ESCAPE, ElementState::Pressed);
    keyboard.keystates.insert(65, ElementState::Released);
    assert!(is_key_pressed(&keyboard, ESCAPE));
    assert!(!is_key_pressed(&keyboard, 65));
    assert!(!is_key_pressed(&keyboard, 66));
    keyboard.keystates.insert(ESCAPE, ElementState::Released);
    assert!(!is_key_pressed(&keyboard, ESCAPE));
}

#[test]
fn mouse_flags_are_five_bits() {
    assert_eq!(
        [LEFT_CLICKED, MIDDLE_CLICKED, RIGHT_CLICKED, MOVED, SCROLLED],
        [0b0000_0001, 0b0000_0010, 0b0000_0100, 0b0000_1000, 0b0001_0000]
    );
    assert_eq!(ALL_MOUSE_FLAGS, 0b0001_1111);
    assert_eq!(MouseButtons::from_bits_truncate(0xFF).bits(), 0b0001_1111);
    assert_eq!(MouseButtons::from_bits_truncate(0b1010_0101).bits(), 0b0000_0101);
    assert!(MouseButtons::empty().is_empty());
    assert_eq!(MouseButtons::default(), MouseButtons::empty());
}

#[test]
fn mouse_flags_can_be_put_in_and_taken_out() {
    let mut buttons = MouseButtons::empty();
    let left = MouseButtons::from_bits_truncate(LEFT_CLICKED);
    let moved = MouseButtons::from_bits_truncate(MOVED);
    buttons.insert(left);
    buttons.insert(moved);
    assert_eq!(buttons.bits(), LEFT_CLICKED | MOVED);
    assert!(buttons.contains(left));
    assert!(buttons.contains(MouseButtons::from_bits_truncate(LEFT_CLICKED | MOVED)));
    assert!(!buttons.contains(MouseButtons::from_bits_truncate(LEFT_CLICKED | SCROLLED)));
    assert!(buttons.contains(MouseButtons::empty()));
    buttons.remove(left);
    assert_eq!(buttons.bits(), MOVED);
    buttons.remove(left);
    assert_eq!(buttons.bits(), MOVED);
    assert!(!buttons.is_empty());
}

#[test]
fn resources_start_empty() {
    let resources = Resources::default();
    assert_eq!(f32::from_bits(resources.delta_time), 0.0);
    assert!(resources.keyboard.keystates.is_empty());
    assert_eq!(resources.mouse, Mouse::default());
    assert!(resources.mouse.buttons.is_empty());
    assert_eq!(f32::from_bits(resources.mouse.position.x), 0.0);
    assert_eq!((resources.viewport_width, resources.viewport_height), (0, 0));
    let world = World::new();
    assert_eq!(world.resources().viewport_width, 0);
    assert_eq!(world.resources.mouse, Mouse::default());
}

#[test]
fn sampling_defaults_are_linear_and_repeating() {
    assert_eq!(MagFilter::default(), MagFilter::Linear);
    assert_eq!(MinFilter::default(), MinFilter::Linear);
    assert_eq!(WrappingMode::default(), WrappingMode::Repeat);
    assert_eq!(
        Sampler::default(),
        Sampler {
            min_filter: MinFilter::Linear,
            mag_filter: MagFilter::Linear,
            wrap_s: WrappingMode::Repeat,
            wrap_t: WrappingMode::Repeat,
        }
    );
    let image = Image { pixels: vec![0, 1, 2, 3], format: ImageFormat::R8G8B8A8, width: 1, height: 1 };
    assert_eq!(image.pixels.len(), 4);
    let texture = Texture { image_index: 0, sampler_index: None };
    assert_eq!(texture.sampler_index, None);
}

#[test]
fn a_tick_without_systems_keeps_every_component() {
    let mut world = World::new();
    world.resources.delta_time = 0.016_f32.to_bits();
    let ids = spawn_entities(&mut world, NAME | PLAYER, 64);
    let others = spawn_entities(&mut world, COLOR, 3);
    for (n, id) in ids.iter().enumerate() {
        assert!(set_component(&mut world, *id, Component::Player(Player(n as u8))));
        assert!(set_component(&mut world, *id, Component::Name(Name(format!("entity {}", n)))));
    }
    run_systems(&mut world);
    run_systems(&mut world);
    for (n, id) in ids.iter().enumerate() {
        assert_eq!(get_component(&world, *id, PLAYER), Some(ComponentRef::Player(&Player(n as u8))));
        assert_eq!(
            get_component(&world, *id, NAME),
            Some(ComponentRef::Name(&Name(format!("entity {}", n))))
        );
    }
    assert_eq!(component_mask(&world, others[2]), Some(COLOR));
    assert_eq!(world.resources.delta_time, 0.016_f32.to_bits());
}

#[test]
fn a_table_is_capable_when_it_has_every_kind_asked_for() {
    let mut table = Table::new(NAME | PLAYER);
    assert!(table_has_components(&table, NAME));
    assert!(table_has_components(&table, NAME | PLAYER));
    assert!(table_has_components(&table, 0));
    assert!(!table_has_components(&table, NAME | COLOR));
    table.push_row(EntityId { id: 0, generation: 0 }, Row::empty(0));
    update_table(&mut table, 0.5_f32.to_bits());
    assert_eq!(table.len(), 1);
    assert_eq!(table.mask(), NAME | PLAYER);
    assert_eq!(table.get(0, PLAYER), Some(ComponentRef::Player(&Player(0))));
}
