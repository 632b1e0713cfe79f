//! What a save keeps of the gameplay state, and how the inventory is rebuilt on load.

use vstd::prelude::*;

use crate::crafting::item_claims;
use crate::game::harvesting::{present_stacks, PlayerInventory};
use crate::ids::ItemId;
use crate::inventory::{added, lemma_occupied_bound, occupied_upto, total_of, total_upto, ItemStack, StackView};
use crate::seed::WorldSeed;

verus! {

/// The deterministic world seed that persists across save and load.
#[derive(Debug, Clone, Copy, PartialEq, Eq)]
pub struct PersistentWorldSeed {
    seed: WorldSeed,
}

impl PersistentWorldSeed {
    pub fn new(seed: WorldSeed) -> (r: Self)
        ensures
            r.seed_view() == seed,
    {
        PersistentWorldSeed { seed }
    }

    /// The persisted seed.
    pub closed spec fn seed_view(self) -> WorldSeed {
        self.seed
    }

    pub fn seed(self) -> (r: WorldSeed)
        ensures
            r == self.seed_view(),
    {
        self.seed
    }
}

/// Persisted item stack entry.
#[derive(Debug, PartialEq, Eq)]
pub struct PersistedItemStack {
    item_id: ItemId,
    quantity: u16,
}

impl View for PersistedItemStack {
    type V = StackView;

    closed spec fn view(&self) -> StackView {
        StackView { item: self.item_id@, quantity: self.quantity }
    }
}

impl Clone for PersistedItemStack {
    fn clone(&self) -> (r: Self)
        ensures
            r@ == self@,
    {
        PersistedItemStack { item_id: self.item_id.clone(), quantity: self.quantity }
    }
}

/// The stack limit used when a persisted stack is put back: its own size, at least one.
pub open spec fn restore_limit(quantity: u16) -> u16 {
    if quantity == 0 { 1 } else { quantity }
}

/// The slots after putting back the first `k` persisted stacks, in order, each under
/// its own size as stack limit.
pub open spec fn restore_upto(slots: Seq<Option<StackView>>, stacks: Seq<StackView>, k: int) -> Seq<Option<StackView>>
    decreases k,
{
    if k <= 0 {
        slots
    } else {
        let s = restore_upto(slots, stacks, k - 1);
        added(s, stacks[k - 1].item, stacks[k - 1].quantity, restore_limit(stacks[k - 1].quantity)).slots
    }
}

/// The inventory rebuilt on load: `slot_count` empty slots receiving the stacks.
pub open spec fn restored(slot_count: nat, stacks: Seq<StackView>) -> Seq<Option<StackView>> {
    restore_upto(Seq::new(slot_count, |i: int| None::<StackView>), stacks, stacks.len() as int)
}

/// The stacks a save keeps of the inventory: the held stacks, in slot order.
pub fn persisted_stacks(inventory: &PlayerInventory) -> (r: Vec<PersistedItemStack>)
    ensures
        r@.map_values(|s: PersistedItemStack| s@) == present_stacks(inventory@),
{
    let stacks = inventory.item_stacks();
    let ghost sv = stacks@.map_values(|s: ItemStack| s@);
    let mut out: Vec<PersistedItemStack> = Vec::new();
    let mut i: usize = 0;
    while i < stacks.len()
        invariant
            i <= stacks@.len(),
            sv == stacks@.map_values(|s: ItemStack| s@),
            sv == present_stacks(inventory@),
            out@.map_values(|s: PersistedItemStack| s@) == sv.take(i as int),
        decreases stacks@.len() - i,
    {
        assert(sv[i as int] == stacks@[i as int]@);
        let entry = PersistedItemStack { item_id: stacks[i].item_id().clone(), quantity: stacks[i].quantity() };
        assert(entry@ == sv[i as int]);
        let ghost before = out@;
        out.push(entry);
        assert(out@.map_values(|s: PersistedItemStack| s@) =~= before.map_values(|s: PersistedItemStack| s@).push(sv[i as int]));
        assert(out@.map_values(|s: PersistedItemStack| s@) =~= sv.take(i + 1));
        i = i + 1;
    }
    assert(sv.take(stacks@.len() as int) =~= sv);
    out
}

/// Rebuilds the inventory on load: `slot_count` empty slots, then each persisted
/// stack added in order under its own size as stack limit.
pub fn restore_inventory(slot_count: usize, stacks: &[PersistedItemStack]) -> (r: PlayerInventory)
    ensures
        r@ == restored(slot_count as nat, stacks@.map_values(|s: PersistedItemStack| s@)),
{
    let ghost sv = stacks@.map_values(|s: PersistedItemStack| s@);
    let ghost empty = Seq::new(slot_count as nat, |i: int| None::<StackView>);
    let mut inventory = PlayerInventory::with_slot_count(slot_count);
    let mut i: usize = 0;
    while i < stacks.len()
        invariant
            i <= stacks@.len(),
            sv == stacks@.map_values(|s: PersistedItemStack| s@),
            empty == Seq::new(slot_count as nat, |i: int| None::<StackView>),
            inventory@ == restore_upto(empty, sv, i as int),
        decreases stacks@.len() - i,
    {
        let stack = &stacks[i];
        assert(sv[i as int] == stack@);
        let limit = if stack.quantity == 0 { 1 } else { stack.quantity };
        inventory.add_items(stack.item_id.clone(), stack.quantity, limit);
        i = i + 1;
    }
    inventory
}

/// Putting stacks back keeps the number of slots, opens at most one slot per stack,
/// and, while empty slots remain, everything fits, so each item's total grows by
/// exactly what the stacks hold of it.
proof fn lemma_restore_accounts(slot_count: nat, stacks: Seq<StackView>, k: int, item: Seq<char>)
    requires
        0 <= k <= stacks.len(),
        stacks.len() <= slot_count,
    ensures
        ({
            let s = restore_upto(Seq::new(slot_count, |i: int| None::<StackView>), stacks, k);
            &&& s.len() == slot_count
            &&& occupied_upto(s, slot_count as int) <= k
            &&& total_of(s, item) == item_claims(stacks.take(k), item)
        }),
    decreases k,
{
    let empty = Seq::new(slot_count, |i: int| None::<StackView>);
    if k > 0 {
        lemma_restore_accounts(slot_count, stacks, k - 1, item);
        let s = restore_upto(empty, stacks, k - 1);
        let c = stacks[k - 1];
        let limit = restore_limit(c.quantity);
        lemma_occupied_bound(s, slot_count as int);
        if occupied_upto(s, slot_count as int) == slot_count as int {
            assert(false);
        }
        assert(exists|j: int| 0 <= j < s.len() && #[trigger] s[j] is None) by {
            lemma_occupied_bound(s, slot_count as int);
            if forall|j: int| 0 <= j < s.len() ==> #[trigger] s[j] is Some {
                lemma_all_occupied(s, slot_count as int);
            }
        }
        crate::inventory::law_add_small_batch(s, c.item, c.quantity, limit);
        assert(stacks.take(k).drop_last() =~= stacks.take(k - 1));
        if item == c.item {
            assert(c.item.push('#').len() != c.item.len());
            crate::inventory::law_add_conserves(s, c.item, c.quantity, limit, c.item.push('#'));
        } else {
            crate::inventory::law_add_conserves(s, c.item, c.quantity, limit, item);
        }
    } else {
        lemma_empty_slots(slot_count, item);
        assert(stacks.take(0).len() == 0);
    }
}

/// With every slot holding a stack, occupancy counts every slot.
proof fn lemma_all_occupied(slots: Seq<Option<StackView>>, n: int)
    requires
        0 <= n <= slots.len(),
        forall|j: int| 0 <= j < slots.len() ==> #[trigger] slots[j] is Some,
    ensures
        occupied_upto(slots, n) == n,
    decreases n,
{
    if n > 0 {
        lemma_all_occupied(slots, n - 1);
    }
}

/// Empty slots hold nothing and occupy nothing.
proof fn lemma_empty_slots(slot_count: nat, item: Seq<char>)
    ensures
        total_of(Seq::new(slot_count, |i: int| None::<StackView>), item) == 0,
        occupied_upto(Seq::new(slot_count, |i: int| None::<StackView>), slot_count as int) == 0,
{
    lemma_empty_prefix(slot_count, item, slot_count as int);
}

proof fn lemma_empty_prefix(slot_count: nat, item: Seq<char>, n: int)
    requires
        0 <= n <= slot_count,
    ensures
        total_upto(Seq::new(slot_count, |i: int| None::<StackView>), item, n) == 0,
        occupied_upto(Seq::new(slot_count, |i: int| None::<StackView>), n) == 0,
    decreases n,
{
    if n > 0 {
        lemma_empty_prefix(slot_count, item, n - 1);
    }
}

/// The held stacks number as many as the occupied slots.
proof fn lemma_present_count(slots: Seq<Option<StackView>>)
    ensures
        present_stacks(slots).len() == occupied_upto(slots, slots.len() as int),
    decreases slots.len(),
{
    if slots.len() > 0 {
        lemma_present_count(slots.drop_last());
        lemma_occupied_prefix(slots, slots.len() - 1);
    }
}

proof fn lemma_occupied_prefix(slots: Seq<Option<StackView>>, n: int)
    requires
        0 <= n < slots.len(),
    ensures
        occupied_upto(slots, n) == occupied_upto(slots.drop_last(), n),
    decreases n,
{
    if n > 0 {
        lemma_occupied_prefix(slots, n - 1);
    }
}

/// Saving the inventory and loading it back keeps its number of slots and every
/// item's total.
pub proof fn law_save_load_keeps_inventory(slots: Seq<Option<StackView>>, item: Seq<char>)
    ensures
        restored(slots.len(), present_stacks(slots)).len() == slots.len(),
        total_of(restored(slots.len(), present_stacks(slots)), item) == total_of(slots, item),
{
    let stacks = present_stacks(slots);
    lemma_present_count(slots);
    lemma_occupied_bound(slots, slots.len() as int);
    lemma_restore_accounts(slots.len(), stacks, stacks.len() as int, item);
    assert(stacks.take(stacks.len() as int) =~= stacks);
    crate::game::crafting::lemma_stacks_total(slots, item);
}

} // verus!
