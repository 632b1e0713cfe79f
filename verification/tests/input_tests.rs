use alchimera::game::input::{default_input_map, InputAction, InputBinding, InputMap};

#[test]
fn default_input_map_contains_move_jump_interact_hotbar() {
    let input_map = default_input_map();

    assert!(input_map.contains_action(InputAction::MoveForward));
    assert!(input_map.contains_action(InputAction::MoveBackward));
    assert!(input_map.contains_action(InputAction::MoveLeft));
    assert!(input_map.contains_action(InputAction::MoveRight));
    assert!(input_map.contains_action(InputAction::Jump));
    assert!(input_map.contains_action(InputAction::Interact));
    for slot in 0..9 {
        assert!(input_map.contains_action(InputAction::HotbarSlot(slot)));
    }
}

#[test]
fn default_input_map_keys() {
    let input_map = default_input_map();

    assert_eq!(input_map.bindings().len(), 15);
    assert_eq!(input_map.bindings()[0].key, "W");
    assert_eq!(input_map.bindings()[4].key, "Space");
    assert_eq!(input_map.bindings()[14], InputBinding { action: InputAction::HotbarSlot(8), key: "9" });
    assert!(!input_map.contains_action(InputAction::HotbarSlot(9)));
}

#[test]
fn custom_input_map_reports_only_its_actions() {
    let input_map = InputMap::new(vec![InputBinding { action: InputAction::Jump, key: "Space" }]);

    assert!(input_map.contains_action(InputAction::Jump));
    assert!(!input_map.contains_action(InputAction::Interact));
}
