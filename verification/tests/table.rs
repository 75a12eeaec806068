use spree::components::{Name, Player, COLOR, NAME, PLAYER};
use spree::entity::EntityId;
use spree::row::{Component, ComponentRef, Row};
use spree::table::Table;

fn entity(id: u32) -> EntityId {
    EntityId { id, generation: 0 }
}

#[test]
fn a_row_is_stored_column_by_column() {
    let mut table = Table::new(NAME | PLAYER);
    assert_eq!(table.len(), 0);
    let mut row = Row::empty(PLAYER | COLOR);
    row.player = Some(Player(4));
    table.push_row(entity(3), row);
    assert_eq!(table.len(), 1);
    assert_eq!(table.entity_at(0), entity(3));
    assert_eq!(table.get(0, PLAYER), Some(ComponentRef::Player(&Player(4))));
    assert_eq!(table.get(0, NAME), Some(ComponentRef::Name(&Name(String::new()))));
    assert_eq!(table.get(0, COLOR), None);
}

#[test]
fn taking_a_row_moves_the_last_row_into_its_place() {
    let mut table = Table::new(PLAYER);
    for n in 0..4u32 {
        let mut row = Row::empty(PLAYER);
        row.player = Some(Player(n as u8));
        table.push_row(entity(n), row);
    }
    let taken = table.swap_remove_row(1);
    assert_eq!(taken.mask, PLAYER);
    assert_eq!(taken.player, Some(Player(1)));
    assert_eq!(taken.name, None);
    assert_eq!(table.len(), 3);
    assert_eq!(table.entity_at(1), entity(3));
    assert_eq!(table.get(1, PLAYER), Some(ComponentRef::Player(&Player(3))));
    assert_eq!(table.entity_at(0), entity(0));
    assert_eq!(table.entity_at(2), entity(2));
    let last = table.swap_remove_row(2);
    assert_eq!(last.player, Some(Player(2)));
    assert_eq!(table.len(), 2);
}

#[test]
fn a_value_is_set_in_place() {
    let mut table = Table::new(NAME);
    table.push_row(entity(0), Row::empty(NAME));
    table.push_row(entity(1), Row::empty(NAME));
    table.set(1, Component::Name(Name("second".to_string())));
    assert_eq!(table.get(0, NAME), Some(ComponentRef::Name(&Name(String::new()))));
    assert_eq!(table.get(1, NAME), Some(ComponentRef::Name(&Name("second".to_string()))));
    assert_eq!(Component::Name(Name("x".to_string())).clone(), Component::Name(Name("x".to_string())));
}
