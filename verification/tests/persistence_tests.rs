use alchimera::game::harvesting::PlayerInventory;
use alchimera::game::persistence::{persisted_stacks, restore_inventory, PersistentWorldSeed};
use alchimera::ids::ItemId;
use alchimera::seed::WorldSeed;

#[test]
fn saving_and_loading_preserves_inventory() {
    let wood = ItemId::new("material.wood").unwrap();
    let mut inventory = PlayerInventory::default();
    inventory.add_items(wood.clone(), 7, 64);
    let seed = PersistentWorldSeed::new(WorldSeed::new(0x51A7E));

    let stacks = persisted_stacks(&inventory);
    let loaded = restore_inventory(inventory.slot_count(), &stacks);
    let loaded_seed = PersistentWorldSeed::new(seed.seed());

    assert_eq!(loaded.total_quantity(&wood), 7);
    assert_eq!(loaded_seed.seed(), WorldSeed::new(0x51A7E));
}

#[test]
fn loading_keeps_split_stacks_and_slot_count() {
    let wood = ItemId::new("material.wood").unwrap();
    let stone = ItemId::new("material.stone").unwrap();
    let mut inventory = PlayerInventory::with_slot_count(4);
    inventory.add_items(wood.clone(), 10, 4);
    inventory.add_items(stone.clone(), 3, 64);

    let stacks = persisted_stacks(&inventory);
    assert_eq!(stacks.len(), 4);
    let loaded = restore_inventory(inventory.slot_count(), &stacks);

    assert_eq!(loaded.slot_count(), 4);
    assert_eq!(loaded.total_quantity(&wood), 10);
    assert_eq!(loaded.total_quantity(&stone), 3);
    let held: Vec<u16> = loaded.item_stacks().iter().map(|stack| stack.quantity()).collect();
    assert_eq!(held, vec![4, 4, 2, 3]);
}
