//! Inventory and hotbar UI state.

use vstd::prelude::*;

use crate::inventory::{Inventory, StackView};

verus! {

/// Selection behavior at the ends of the hotbar.
#[derive(Debug, Clone, Copy, PartialEq, Eq, Structural)]
pub enum HotbarSelectionMode {
    Wrap,
    Clamp,
}

/// The slot that selecting `slot` lands on: wrapped around, or clamped to the last slot.
pub open spec fn landing_slot(slot: int, slot_count: int, mode: HotbarSelectionMode) -> int {
    match mode {
        HotbarSelectionMode::Wrap => slot % slot_count,
        HotbarSelectionMode::Clamp => if slot < slot_count - 1 { slot } else { slot_count - 1 },
    }
}

/// The slot after moving one step back from `selected`.
pub open spec fn previous_slot(selected: int, slot_count: int, mode: HotbarSelectionMode) -> int {
    if selected == 0 {
        match mode {
            HotbarSelectionMode::Wrap => slot_count - 1,
            HotbarSelectionMode::Clamp => 0,
        }
    } else {
        selected - 1
    }
}

/// Current hotbar selection state.
#[derive(Debug, Clone, Copy, PartialEq, Eq)]
pub struct HotbarSelection {
    selected_slot: usize,
    slot_count: usize,
    mode: HotbarSelectionMode,
}

/// What a hotbar selection states.
pub struct HotbarView {
    pub selected_slot: int,
    pub slot_count: int,
    pub mode: HotbarSelectionMode,
}

impl View for HotbarSelection {
    type V = HotbarView;

    closed spec fn view(&self) -> HotbarView {
        HotbarView { selected_slot: self.selected_slot as int, slot_count: self.slot_count as int, mode: self.mode }
    }
}

impl HotbarSelection {
    /// There is at least one slot and the selection is one of them.
    #[verifier::type_invariant]
    spec fn well_formed(self) -> bool {
        1 <= self.slot_count && self.selected_slot < self.slot_count
    }

    /// A selection over at least one slot (zero counts as one), landing on `selected_slot`.
    pub fn new(selected_slot: usize, slot_count: usize, mode: HotbarSelectionMode) -> (r: Self)
        ensures
            r@.slot_count == if slot_count == 0 { 1 } else { slot_count as int },
            r@.mode == mode,
            r@.selected_slot == landing_slot(selected_slot as int, r@.slot_count, mode),
    {
        let count = if slot_count == 0 { 1 } else { slot_count };
        let mut selection = HotbarSelection { selected_slot: 0, slot_count: count, mode };
        selection.select_slot(selected_slot);
        selection
    }

    pub fn selected_slot(&self) -> (r: usize)
        ensures
            r == self@.selected_slot,
            r < self@.slot_count,
    {
        proof {
            use_type_invariant(self);
        }
        self.selected_slot
    }

    pub fn slot_count(&self) -> (r: usize)
        ensures
            r == self@.slot_count,
            r >= 1,
    {
        proof {
            use_type_invariant(self);
        }
        self.slot_count
    }

    /// Selects the following slot.
    pub fn select_next(&mut self)
        ensures
            final(self)@.slot_count == old(self)@.slot_count,
            final(self)@.mode == old(self)@.mode,
            final(self)@.selected_slot == landing_slot(old(self)@.selected_slot + 1, old(self)@.slot_count, old(self)@.mode),
    {
        proof {
            use_type_invariant(&*self);
        }
        let next = self.selected_slot + 1;
        self.select_slot(next);
    }

    /// Selects the preceding slot, wrapping to the last one or staying at the first.
    pub fn select_previous(&mut self)
        ensures
            final(self)@.slot_count == old(self)@.slot_count,
            final(self)@.mode == old(self)@.mode,
            final(self)@.selected_slot == previous_slot(old(self)@.selected_slot, old(self)@.slot_count, old(self)@.mode),
    {
        proof {
            use_type_invariant(&*self);
        }
        if self.selected_slot == 0 {
            match self.mode {
                HotbarSelectionMode::Wrap => self.selected_slot = self.slot_count - 1,
                HotbarSelectionMode::Clamp => self.selected_slot = 0,
            }
        } else {
            self.selected_slot = self.selected_slot - 1;
        }
    }

    /// Selects `slot`, wrapped around or clamped to the last slot.
    pub fn select_slot(&mut self, slot: usize)
        ensures
            final(self)@.slot_count == old(self)@.slot_count,
            final(self)@.mode == old(self)@.mode,
            final(self)@.selected_slot == landing_slot(slot as int, old(self)@.slot_count, old(self)@.mode),
    {
        proof {
            use_type_invariant(&*self);
        }
        let landed = match self.mode {
            HotbarSelectionMode::Wrap => slot % self.slot_count,
            HotbarSelectionMode::Clamp => if slot < self.slot_count - 1 { slot } else { self.slot_count - 1 },
        };
        self.selected_slot = landed;
    }
}

impl Default for HotbarSelection {
    fn default() -> (r: Self)
        ensures
            r@ == (HotbarView { selected_slot: 0, slot_count: 8, mode: HotbarSelectionMode::Wrap }),
    {
        HotbarSelection::new(0, 8, HotbarSelectionMode::Wrap)
    }
}

/// In wrapping mode, stepping forward then back (or back then forward) returns to the
/// same slot; in clamping mode, stepping back from the first slot and forward from the
/// last slot stay put; selecting any slot lands inside the hotbar.
pub proof fn law_hotbar_steps(selected: int, slot_count: int, slot: int)
    requires
        1 <= slot_count,
        0 <= selected < slot_count,
        0 <= slot,
    ensures
        previous_slot(landing_slot(selected + 1, slot_count, HotbarSelectionMode::Wrap), slot_count, HotbarSelectionMode::Wrap) == selected,
        landing_slot(previous_slot(selected, slot_count, HotbarSelectionMode::Wrap) + 1, slot_count, HotbarSelectionMode::Wrap) == selected,
        previous_slot(0, slot_count, HotbarSelectionMode::Clamp) == 0,
        landing_slot(slot_count, slot_count, HotbarSelectionMode::Clamp) == slot_count - 1,
        0 <= landing_slot(slot, slot_count, HotbarSelectionMode::Wrap) < slot_count,
        0 <= landing_slot(slot, slot_count, HotbarSelectionMode::Clamp) < slot_count,
{
    if selected + 1 == slot_count {
        assert((selected + 1) % slot_count == 0) by (nonlinear_arith)
            requires selected + 1 == slot_count, slot_count >= 1;
    } else {
        assert((selected + 1) % slot_count == selected + 1) by (nonlinear_arith)
            requires 0 <= selected + 1 < slot_count;
    }
    if selected == 0 {
        assert(slot_count % slot_count == 0) by (nonlinear_arith)
            requires slot_count >= 1;
    } else {
        assert(selected % slot_count == selected) by (nonlinear_arith)
            requires 0 <= selected < slot_count;
    }
    assert(0 <= slot % slot_count < slot_count) by (nonlinear_arith)
        requires slot_count >= 1;
}

/// Inside the hotbar, stepping moves by exactly one slot in either mode: back from
/// any slot but the first selects the slot before it, forward from any slot but
/// the last selects the slot after it, and selecting a slot of the hotbar selects it.
pub proof fn law_hotbar_steps_by_one(selected: int, slot_count: int, mode: HotbarSelectionMode)
    requires
        1 <= slot_count,
        0 <= selected < slot_count,
    ensures
        selected > 0 ==> previous_slot(selected, slot_count, mode) == selected - 1,
        selected + 1 < slot_count ==> landing_slot(selected + 1, slot_count, mode) == selected + 1,
        landing_slot(selected, slot_count, mode) == selected,
{
    assert(selected % slot_count == selected) by (nonlinear_arith)
        requires 0 <= selected < slot_count;
    if selected + 1 < slot_count {
        assert((selected + 1) % slot_count == selected + 1) by (nonlinear_arith)
            requires 0 <= selected + 1 < slot_count;
    }
}

/// Inventory state shown by the UI together with the hotbar selection.
#[derive(Debug, PartialEq, Eq)]
pub struct InventoryUiState {
    inventory: Inventory,
    hotbar: HotbarSelection,
}

impl InventoryUiState {
    /// An empty inventory of `inventory_slots` slots and a wrapping hotbar of
    /// `hotbar_slots` slots (at least one) with the first slot selected.
    pub fn with_slot_counts(inventory_slots: usize, hotbar_slots: usize) -> (r: Self)
        ensures
            r.inventory_view() == Seq::new(inventory_slots as nat, |i: int| None::<StackView>),
            r.hotbar_view() == (HotbarView {
                selected_slot: 0,
                slot_count: if hotbar_slots == 0 { 1 } else { hotbar_slots as int },
                mode: HotbarSelectionMode::Wrap,
            }),
    {
        let hotbar = HotbarSelection::new(0, hotbar_slots, HotbarSelectionMode::Wrap);
        proof {
            let c = if hotbar_slots == 0 { 1 } else { hotbar_slots as int };
            assert(0int % c == 0) by (nonlinear_arith)
                requires c >= 1;
        }
        InventoryUiState { inventory: Inventory::with_slot_count(inventory_slots), hotbar }
    }

    /// The inventory's slots.
    pub closed spec fn inventory_view(&self) -> Seq<Option<StackView>> {
        self.inventory@
    }

    /// The hotbar's selection.
    pub closed spec fn hotbar_view(&self) -> HotbarView {
        self.hotbar@
    }

    pub fn inventory(&self) -> (r: &Inventory)
        ensures
            r@ == self.inventory_view(),
    {
        &self.inventory
    }

    pub fn hotbar(&self) -> (r: &HotbarSelection)
        ensures
            r@ == self.hotbar_view(),
    {
        &self.hotbar
    }

    pub fn hotbar_mut(&mut self) -> (r: &mut HotbarSelection)
        ensures
            r@ == old(self).hotbar_view(),
            final(self).hotbar_view() == final(r)@,
            final(self).inventory_view() == old(self).inventory_view(),
    {
        &mut self.hotbar
    }
}

impl Default for InventoryUiState {
    fn default() -> (r: Self)
        ensures
            r.inventory_view() == Seq::new(24, |i: int| None::<StackView>),
            r.hotbar_view() == (HotbarView { selected_slot: 0, slot_count: 8, mode: HotbarSelectionMode::Wrap }),
    {
        InventoryUiState::with_slot_counts(24, 8)
    }
}

} // verus!
