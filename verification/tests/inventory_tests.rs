use alchimera::{
    ids::ItemId,
    inventory::{Inventory, InventoryError},
};

fn item_id(value: &str) -> ItemId {
    ItemId::new(value).expect("valid item id")
}

#[test]
fn inventory_adding_same_item_merges_until_stack_limit() {
    let item = item_id("item.log");
    let mut inventory = Inventory::with_slot_count(2);

    assert_eq!(inventory.add_items(item.clone(), 20, 64).unwrap(), 0);
    assert_eq!(inventory.add_items(item.clone(), 40, 64).unwrap(), 0);

    assert_eq!(inventory.slots()[0].as_ref().unwrap().quantity(), 60);
    assert_eq!(inventory.occupied_slot_count(), 1);
}

#[test]
fn inventory_adding_overflow_creates_new_stack() {
    let item = item_id("item.log");
    let mut inventory = Inventory::with_slot_count(2);

    assert_eq!(inventory.add_items(item, 70, 64).unwrap(), 0);

    assert_eq!(inventory.slots()[0].as_ref().unwrap().quantity(), 64);
    assert_eq!(inventory.slots()[1].as_ref().unwrap().quantity(), 6);
}

#[test]
fn inventory_removing_items_decrements_stack() {
    let item = item_id("item.log");
    let mut inventory = Inventory::with_slot_count(2);
    inventory.add_items(item.clone(), 70, 64).unwrap();

    inventory.remove_items(&item, 12).unwrap();

    assert_eq!(inventory.total_quantity(&item), 58);
}

#[test]
fn inventory_removing_too_many_returns_error() {
    let item = item_id("item.log");
    let mut inventory = Inventory::with_slot_count(1);
    inventory.add_items(item.clone(), 5, 64).unwrap();

    assert_eq!(
        inventory.remove_items(&item, 6),
        Err(InventoryError::InsufficientQuantity { available: 5, requested: 6 })
    );
}

#[test]
fn inventory_zero_stack_limit_is_rejected_without_change() {
    let mut inventory = Inventory::with_slot_count(1);

    assert_eq!(inventory.add_items(item_id("item.log"), 5, 0), Err(InventoryError::InvalidStackLimit));
    assert_eq!(inventory.occupied_slot_count(), 0);
}

#[test]
fn inventory_full_returns_leftover() {
    let log = item_id("item.log");
    let stone = item_id("item.stone");
    let mut inventory = Inventory::with_slot_count(2);
    inventory.add_items(stone.clone(), 1, 64).unwrap();

    assert_eq!(inventory.add_items(log.clone(), 100, 64).unwrap(), 36);
    assert_eq!(inventory.total_quantity(&log), 64);
    assert_eq!(inventory.total_quantity(&stone), 1);
}

#[test]
fn inventory_removal_frees_emptied_slots_in_order() {
    let log = item_id("item.log");
    let mut inventory = Inventory::with_slot_count(3);
    inventory.add_items(log.clone(), 10, 4).unwrap();

    inventory.remove_items(&log, 5).unwrap();

    assert!(inventory.slots()[0].is_none());
    assert_eq!(inventory.slots()[1].as_ref().unwrap().quantity(), 3);
    assert_eq!(inventory.slots()[2].as_ref().unwrap().quantity(), 2);
    assert_eq!(inventory.total_quantity(&log), 5);
}

#[test]
fn inventory_adding_then_removing_restores_totals() {
    let log = item_id("item.log");
    let mut inventory = Inventory::with_slot_count(3);
    inventory.add_items(log.clone(), 7, 64).unwrap();

    assert_eq!(inventory.add_items(log.clone(), 30, 16).unwrap(), 0);
    inventory.remove_items(&log, 30).unwrap();

    assert_eq!(inventory.total_quantity(&log), 7);
}
