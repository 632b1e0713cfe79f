//! The player inventory and the harvesting rule.

use vstd::prelude::*;

use crate::ids::ItemId;
use crate::inventory::{added, removed, slot_view, total_of, Inventory, InventoryError, ItemStack, StackView};

verus! {

/// The stacks held by the slots, in slot order, skipping empty slots.
pub open spec fn present_stacks(slots: Seq<Option<StackView>>) -> Seq<StackView>
    decreases slots.len(),
{
    if slots.len() == 0 {
        Seq::empty()
    } else {
        let rest = present_stacks(slots.drop_last());
        match slots.last() {
            Some(stack) => rest.push(stack),
            None => rest,
        }
    }
}

/// Player inventory used by gameplay systems.
#[derive(Debug, PartialEq, Eq)]
pub struct PlayerInventory {
    inventory: Inventory,
}

impl View for PlayerInventory {
    type V = Seq<Option<StackView>>;

    closed spec fn view(&self) -> Seq<Option<StackView>> {
        self.inventory@
    }
}

impl PlayerInventory {
    /// An inventory of `slot_count` empty slots.
    pub fn with_slot_count(slot_count: usize) -> (r: Self)
        ensures
            r@ == Seq::new(slot_count as nat, |i: int| None::<StackView>),
    {
        PlayerInventory { inventory: Inventory::with_slot_count(slot_count) }
    }

    /// How much of the item the player holds (summed in `u16`).
    pub fn total_quantity(&self, item_id: &ItemId) -> (r: u16)
        requires
            total_of(self@, item_id@) <= u16::MAX,
        ensures
            r == total_of(self@, item_id@),
    {
        self.inventory.total_quantity(item_id)
    }

    /// Whether the player's total of the item fits in `u16`.
    pub fn total_fits(&self, item_id: &ItemId) -> (r: bool)
        ensures
            r == (total_of(self@, item_id@) <= u16::MAX),
    {
        self.inventory.total_fits(item_id)
    }

    /// Adds items like `Inventory::add_items`; the stack limit must be positive.
    /// Returns the quantity that did not fit.
    pub fn add_items(&mut self, item_id: ItemId, quantity: u16, stack_limit: u16) -> (r: u16)
        requires
            stack_limit > 0,
        ensures
            r == added(old(self)@, item_id@, quantity, stack_limit).remaining,
            final(self)@ == added(old(self)@, item_id@, quantity, stack_limit).slots,
    {
        let ghost item = item_id@;
        proof {
            assert(item.push('#').len() != item.len());
            crate::inventory::law_add_conserves(old(self)@, item, quantity, stack_limit, item.push('#'));
        }
        match self.inventory.add_items(item_id, quantity, stack_limit) {
            Ok(left) => left,
            Err(_) => 0,
        }
    }

    /// Removes items like `Inventory::remove_items`.
    pub fn remove_items(&mut self, item_id: &ItemId, quantity: u16) -> (r: Result<(), InventoryError>)
        requires
            total_of(old(self)@, item_id@) <= u16::MAX,
        ensures
            total_of(old(self)@, item_id@) < quantity ==> r == Err::<(), InventoryError>(
                InventoryError::InsufficientQuantity { available: total_of(old(self)@, item_id@) as u16, requested: quantity },
            ) && final(self)@ == old(self)@,
            total_of(old(self)@, item_id@) >= quantity ==> r is Ok && final(self)@ == removed(old(self)@, item_id@, quantity),
    {
        self.inventory.remove_items(item_id, quantity)
    }

    /// The number of slots.
    pub fn slot_count(&self) -> (r: usize)
        ensures
            r == self@.len(),
    {
        self.inventory.slots().len()
    }

    /// Copies of the held stacks, in slot order.
    pub fn item_stacks(&self) -> (r: Vec<ItemStack>)
        ensures
            r@.map_values(|s: ItemStack| s@) == present_stacks(self@),
    {
        let slots = self.inventory.slots();
        let ghost view = slots@.map_values(|s: Option<ItemStack>| slot_view(s));
        let mut out: Vec<ItemStack> = Vec::new();
        let mut i: usize = 0;
        while i < slots.len()
            invariant
                i <= slots@.len(),
                view == slots@.map_values(|s: Option<ItemStack>| slot_view(s)),
                view == self@,
                out@.map_values(|s: ItemStack| s@) == present_stacks(view.take(i as int)),
            decreases slots@.len() - i,
        {
            assert(view.take(i + 1).drop_last() =~= view.take(i as int));
            assert(view[i as int] == slot_view(slots@[i as int]));
            match &slots[i] {
                Some(stack) => {
                    let ghost before = out@;
                    out.push(stack.clone());
                    assert(out@.map_values(|s: ItemStack| s@) =~= before.map_values(|s: ItemStack| s@).push(stack@));
                },
                None => {},
            }
            i = i + 1;
        }
        assert(view.take(slots@.len() as int) =~= view);
        out
    }

    /// Applies one harvest of a world object yielding `quantity` of an item. An object
    /// already harvested yields nothing. Otherwise the yield is added; the object
    /// counts as harvested (and is recorded as removed from its chunk) unless nothing
    /// at all fit. Returns whether it counts as harvested.
    pub fn harvest(&mut self, yield_item: ItemId, quantity: u16, stack_limit: u16, already_harvested: bool) -> (r: bool)
        requires
            !already_harvested ==> stack_limit > 0,
        ensures
            already_harvested ==> !r && final(self)@ == old(self)@,
            !already_harvested ==> final(self)@ == added(old(self)@, yield_item@, quantity, stack_limit).slots
                && r == (added(old(self)@, yield_item@, quantity, stack_limit).remaining != quantity),
    {
        if already_harvested {
            return false;
        }
        let overflow = self.add_items(yield_item, quantity, stack_limit);
        overflow != quantity
    }
}

impl Default for PlayerInventory {
    fn default() -> (r: Self)
        ensures
            r@ == Seq::new(24, |i: int| None::<StackView>),
    {
        PlayerInventory::with_slot_count(24)
    }
}

} // verus!
