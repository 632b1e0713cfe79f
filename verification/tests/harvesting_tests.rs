use alchimera::{game::harvesting::PlayerInventory, ids::ItemId};

#[test]
fn harvest_event_adds_yield_to_inventory() {
    let mut inventory = PlayerInventory::default();
    let item = ItemId::new("material.wood").unwrap();

    inventory.harvest(item.clone(), 3, 64, false);

    assert_eq!(inventory.total_quantity(&item), 3);
}

#[test]
fn harvest_event_marks_object_harvested() {
    let mut inventory = PlayerInventory::default();
    let item = ItemId::new("material.stone").unwrap();

    assert!(inventory.harvest(item, 3, 64, false));
}

#[test]
fn harvested_object_yields_nothing_again() {
    let mut inventory = PlayerInventory::default();
    let item = ItemId::new("material.herb").unwrap();

    assert!(!inventory.harvest(item.clone(), 3, 64, true));
    assert_eq!(inventory.total_quantity(&item), 0);
}

#[test]
fn harvest_into_full_inventory_is_not_recorded() {
    let mut inventory = PlayerInventory::with_slot_count(1);
    let herb = ItemId::new("material.herb").unwrap();
    inventory.add_items(ItemId::new("material.stone").unwrap(), 1, 64);

    assert!(!inventory.harvest(herb.clone(), 3, 64, false));
    assert_eq!(inventory.total_quantity(&herb), 0);
}

#[test]
fn item_stacks_lists_held_stacks_in_slot_order() {
    let mut inventory = PlayerInventory::with_slot_count(3);
    let wood = ItemId::new("material.wood").unwrap();
    inventory.add_items(wood.clone(), 5, 3);

    let stacks = inventory.item_stacks();
    assert_eq!(stacks.len(), 2);
    assert_eq!(stacks[0].quantity(), 3);
    assert_eq!(stacks[1].quantity(), 2);
    assert_eq!(inventory.slot_count(), 3);
}
