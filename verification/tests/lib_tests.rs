#[allow(unused_imports)]
use alchimera::game::{crafting as _, diagnostics as _, harvesting as _, input as _, inventory_ui as _, player as _, runtime_metrics as _, states as _};
#[allow(unused_imports)]
use alchimera::{alchemy as _, crafting as _, error as _, ids as _, inventory as _, item as _, material as _, save as _, seed as _};
use alchimera::CRATE_NAME;

#[test]
fn crate_is_addressable() {
    assert_eq!(CRATE_NAME, "alchimera_core");
}

#[test]
fn lib_crate_is_addressable() {
    assert_eq!(alchimera::game::CRATE_NAME, "alchimera_game");
}

#[test]
fn module_smoke_core_modules_are_addressable() {
    let _ = alchimera::seed::WorldSeed::new(0);
    let _ = alchimera::inventory::Inventory::with_slot_count(0);
}

#[test]
fn module_smoke_game_modules_are_addressable() {
    let _ = alchimera::game::input::default_input_map();
    let _ = alchimera::game::harvesting::PlayerInventory::default();
}
