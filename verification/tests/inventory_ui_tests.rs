use alchimera::game::inventory_ui::{HotbarSelection, HotbarSelectionMode, InventoryUiState};

#[test]
fn hotbar_selection_wraps_or_clamps_as_configured() {
    let mut wrapping = HotbarSelection::new(0, 5, HotbarSelectionMode::Wrap);
    wrapping.select_previous();
    assert_eq!(wrapping.selected_slot(), 4);
    wrapping.select_next();
    assert_eq!(wrapping.selected_slot(), 0);

    let mut clamping = HotbarSelection::new(0, 5, HotbarSelectionMode::Clamp);
    clamping.select_previous();
    assert_eq!(clamping.selected_slot(), 0);
    clamping.select_slot(99);
    assert_eq!(clamping.selected_slot(), 4);
}

#[test]
fn inventory_resource_initializes_with_fixed_slot_count() {
    let inventory = InventoryUiState::default();

    assert_eq!(inventory.inventory().slots().len(), 24);
    assert_eq!(inventory.hotbar().slot_count(), 8);
    assert_eq!(inventory.hotbar().selected_slot(), 0);
}

#[test]
fn hotbar_with_zero_slots_has_one_slot() {
    let selection = HotbarSelection::new(7, 0, HotbarSelectionMode::Clamp);

    assert_eq!(selection.slot_count(), 1);
    assert_eq!(selection.selected_slot(), 0);
}

#[test]
fn hotbar_wraps_initial_selection() {
    let mut selection = HotbarSelection::new(12, 5, HotbarSelectionMode::Wrap);
    assert_eq!(selection.selected_slot(), 2);
    selection.select_slot(4);
    selection.select_next();
    assert_eq!(selection.selected_slot(), 0);
}

#[test]
fn hotbar_mut_changes_the_ui_selection() {
    let mut state = InventoryUiState::with_slot_counts(4, 3);
    state.hotbar_mut().select_previous();

    assert_eq!(state.hotbar().selected_slot(), 2);
    assert_eq!(state.inventory().slots().len(), 4);
}
