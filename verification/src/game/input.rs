//! Input action definitions for the runtime shell.

use vstd::prelude::*;

verus! {

/// High-level player/gameplay actions used by the input layer.
#[derive(Debug, Clone, Copy, PartialEq, Eq, Hash, Structural)]
pub enum InputAction {
    MoveForward,
    MoveBackward,
    MoveLeft,
    MoveRight,
    Jump,
    Interact,
    HotbarSlot(u8),
}

/// Prototype binding names for high-level actions.
#[derive(Debug, Clone, Copy, PartialEq, Eq)]
pub struct InputBinding {
    pub action: InputAction,
    pub key: &'static str,
}

/// Static input map used until the final input backend is wired.
#[derive(Debug, Clone, PartialEq, Eq)]
pub struct InputMap {
    bindings: Vec<InputBinding>,
}

/// Some binding is for the action.
pub open spec fn binds(bindings: Seq<InputBinding>, action: InputAction) -> bool {
    exists|i: int| 0 <= i < bindings.len() && #[trigger] bindings[i].action == action
}

/// The actions of the default map, in order.
pub open spec fn default_actions() -> Seq<InputAction> {
    seq![
        InputAction::MoveForward,
        InputAction::MoveBackward,
        InputAction::MoveLeft,
        InputAction::MoveRight,
        InputAction::Jump,
        InputAction::Interact,
        InputAction::HotbarSlot(0),
        InputAction::HotbarSlot(1),
        InputAction::HotbarSlot(2),
        InputAction::HotbarSlot(3),
        InputAction::HotbarSlot(4),
        InputAction::HotbarSlot(5),
        InputAction::HotbarSlot(6),
        InputAction::HotbarSlot(7),
        InputAction::HotbarSlot(8),
    ]
}

/// The keys of the default map, in order.
pub open spec fn default_keys() -> Seq<Seq<char>> {
    seq![
        "W"@, "S"@, "A"@, "D"@, "Space"@, "E"@, "1"@, "2"@, "3"@, "4"@, "5"@, "6"@, "7"@, "8"@, "9"@,
    ]
}

impl View for InputMap {
    type V = Seq<InputBinding>;

    closed spec fn view(&self) -> Seq<InputBinding> {
        self.bindings@
    }
}

impl InputMap {
    pub fn new(bindings: Vec<InputBinding>) -> (r: Self)
        ensures
            r@ == bindings@,
    {
        InputMap { bindings }
    }

    pub fn bindings(&self) -> (r: &[InputBinding])
        ensures
            r@ == self@,
    {
        self.bindings.as_slice()
    }

    /// Whether some binding is for the action.
    pub fn contains_action(&self, action: InputAction) -> (r: bool)
        ensures
            r == binds(self@, action),
    {
        let n = self.bindings.len();
        let mut i: usize = 0;
        while i < n
            invariant
                n == self@.len(),
                i <= n,
                forall|j: int| 0 <= j < i ==> #[trigger] self@[j].action != action,
            decreases n - i,
        {
            if self.bindings[i].action == action {
                return true;
            }
            i = i + 1;
        }
        false
    }
}

/// The prototype bindings: movement on WASD, jump on Space, interact on E and the
/// nine hotbar slots on the digit keys.
pub fn default_input_map() -> (r: InputMap)
    ensures
        r@.len() == 15,
        forall|i: int| 0 <= i < 15 ==> #[trigger] r@[i].action == default_actions()[i],
        forall|i: int| 0 <= i < 15 ==> #[trigger] r@[i].key@ == default_keys()[i],
{
    let mut bindings: Vec<InputBinding> = Vec::new();
    bindings.push(InputBinding { action: InputAction::MoveForward, key: "W" });
    bindings.push(InputBinding { action: InputAction::MoveBackward, key: "S" });
    bindings.push(InputBinding { action: InputAction::MoveLeft, key: "A" });
    bindings.push(InputBinding { action: InputAction::MoveRight, key: "D" });
    bindings.push(InputBinding { action: InputAction::Jump, key: "Space" });
    bindings.push(InputBinding { action: InputAction::Interact, key: "E" });
    bindings.push(InputBinding { action: InputAction::HotbarSlot(0), key: "1" });
    bindings.push(InputBinding { action: InputAction::HotbarSlot(1), key: "2" });
    bindings.push(InputBinding { action: InputAction::HotbarSlot(2), key: "3" });
    bindings.push(InputBinding { action: InputAction::HotbarSlot(3), key: "4" });
    bindings.push(InputBinding { action: InputAction::HotbarSlot(4), key: "5" });
    bindings.push(InputBinding { action: InputAction::HotbarSlot(5), key: "6" });
    bindings.push(InputBinding { action: InputAction::HotbarSlot(6), key: "7" });
    bindings.push(InputBinding { action: InputAction::HotbarSlot(7), key: "8" });
    bindings.push(InputBinding { action: InputAction::HotbarSlot(8), key: "9" });
    InputMap::new(bindings)
}

/// The default map binds every movement action, jump, interact and each of the
/// nine hotbar slots.
pub proof fn law_default_map_covers_actions(bindings: Seq<InputBinding>, slot: u8)
    requires
        bindings.len() == 15,
        forall|i: int| 0 <= i < 15 ==> #[trigger] bindings[i].action == default_actions()[i],
        slot < 9,
    ensures
        binds(bindings, InputAction::MoveForward),
        binds(bindings, InputAction::MoveBackward),
        binds(bindings, InputAction::MoveLeft),
        binds(bindings, InputAction::MoveRight),
        binds(bindings, InputAction::Jump),
        binds(bindings, InputAction::Interact),
        binds(bindings, InputAction::HotbarSlot(slot)),
{
    assert(bindings[0].action == default_actions()[0]);
    assert(bindings[1].action == default_actions()[1]);
    assert(bindings[2].action == default_actions()[2]);
    assert(bindings[3].action == default_actions()[3]);
    assert(bindings[4].action == default_actions()[4]);
    assert(bindings[5].action == default_actions()[5]);
    let k = 6 + slot as int;
    assert(bindings[k].action == default_actions()[k]);
}

} // verus!
