//! Pure inventory slot and stack behavior.

use vstd::prelude::*;

use crate::ids::ItemId;
use crate::text::{decimal, owned, push_decimal, push_str};

verus! {

/// What a stack holds: which item, and how many of it.
pub struct StackView {
    pub item: Seq<char>,
    pub quantity: u16,
}

/// The state of an insertion or removal pass after some slots were visited:
/// the slots so far, the quantity still to place (or take), and whether the pass
/// has finished.
pub struct PassState {
    pub slots: Seq<Option<StackView>>,
    pub remaining: int,
    pub done: bool,
}

/// How much of `item` the slot holds.
pub open spec fn slot_amount(slot: Option<StackView>, item: Seq<char>) -> nat {
    match slot {
        Some(stack) => if stack.item == item { stack.quantity as nat } else { 0 },
        None => 0,
    }
}

/// How much of `item` the first `n` slots hold together.
pub open spec fn total_upto(slots: Seq<Option<StackView>>, item: Seq<char>, n: int) -> nat
    decreases n,
{
    if n <= 0 {
        0
    } else {
        total_upto(slots, item, n - 1) + slot_amount(slots[n - 1], item)
    }
}

/// How much of `item` all slots hold together.
pub open spec fn total_of(slots: Seq<Option<StackView>>, item: Seq<char>) -> nat {
    total_upto(slots, item, slots.len() as int)
}

/// How many of the first `n` slots hold a stack.
pub open spec fn occupied_upto(slots: Seq<Option<StackView>>, n: int) -> nat
    decreases n,
{
    if n <= 0 {
        0
    } else {
        occupied_upto(slots, n - 1) + if slots[n - 1] is Some { 1nat } else { 0nat }
    }
}

pub open spec fn min_int(a: int, b: int) -> int {
    if a <= b { a } else { b }
}

/// Merging pass, slot `j`: a stack of the same item takes as much as fits under
/// the stack limit; the pass ends once nothing is left to place.
pub open spec fn merge_step(s: PassState, item: Seq<char>, limit: u16, j: int) -> PassState {
    if !s.done && s.slots[j] is Some && s.slots[j]->0.item == item {
        let stack = s.slots[j]->0;
        let space = if limit > stack.quantity { limit - stack.quantity } else { 0 };
        let added = min_int(s.remaining, space);
        PassState {
            slots: s.slots.update(j, Some(StackView { item: stack.item, quantity: (stack.quantity + added) as u16 })),
            remaining: s.remaining - added,
            done: s.remaining - added == 0,
        }
    } else {
        s
    }
}

/// The merging pass after the first `i` slots.
pub open spec fn merge_upto(slots: Seq<Option<StackView>>, item: Seq<char>, quantity: u16, limit: u16, i: int) -> PassState
    decreases i,
{
    if i <= 0 {
        PassState { slots, remaining: quantity as int, done: false }
    } else {
        merge_step(merge_upto(slots, item, quantity, limit, i - 1), item, limit, i - 1)
    }
}

/// Filling pass, slot `j`: an empty slot receives a new stack of at most the
/// stack limit; the pass ends once nothing is left to place.
pub open spec fn fill_step(s: PassState, item: Seq<char>, limit: u16, j: int) -> PassState {
    if !s.done && s.slots[j] is None {
        let inserted = min_int(s.remaining, limit as int);
        PassState {
            slots: s.slots.update(j, Some(StackView { item, quantity: inserted as u16 })),
            remaining: s.remaining - inserted,
            done: s.remaining - inserted == 0,
        }
    } else {
        s
    }
}

/// The filling pass after the first `i` slots; it starts where the merging pass ended.
pub open spec fn fill_upto(slots: Seq<Option<StackView>>, item: Seq<char>, quantity: u16, limit: u16, i: int) -> PassState
    decreases i,
{
    if i <= 0 {
        merge_upto(slots, item, quantity, limit, slots.len() as int)
    } else {
        fill_step(fill_upto(slots, item, quantity, limit, i - 1), item, limit, i - 1)
    }
}

/// The outcome of adding `quantity` of `item` with a positive stack limit: first
/// every stack of the same item is topped up in slot order, then empty slots
/// receive new stacks in slot order, until nothing is left.
pub open spec fn added(slots: Seq<Option<StackView>>, item: Seq<char>, quantity: u16, limit: u16) -> PassState {
    fill_upto(slots, item, quantity, limit, slots.len() as int)
}

/// Removal pass, slot `j`: a stack of the item gives up as much as is still
/// requested; a stack left empty frees its slot.
pub open spec fn remove_step(s: PassState, item: Seq<char>, j: int) -> PassState {
    if !s.done && s.slots[j] is Some && s.slots[j]->0.item == item {
        let stack = s.slots[j]->0;
        let removed = min_int(s.remaining, stack.quantity as int);
        let left = stack.quantity - removed;
        PassState {
            slots: s.slots.update(j, if left == 0 { None } else { Some(StackView { item: stack.item, quantity: left as u16 }) }),
            remaining: s.remaining - removed,
            done: s.remaining - removed == 0,
        }
    } else {
        s
    }
}

/// The removal pass after the first `i` slots.
pub open spec fn remove_upto(slots: Seq<Option<StackView>>, item: Seq<char>, quantity: u16, i: int) -> PassState
    decreases i,
{
    if i <= 0 {
        PassState { slots, remaining: quantity as int, done: false }
    } else {
        remove_step(remove_upto(slots, item, quantity, i - 1), item, i - 1)
    }
}

/// The slots after removing `quantity` of `item`, taking from stacks in slot order.
pub open spec fn removed(slots: Seq<Option<StackView>>, item: Seq<char>, quantity: u16) -> Seq<Option<StackView>> {
    remove_upto(slots, item, quantity, slots.len() as int).slots
}

/// A stack of identical items in one inventory slot.
#[derive(Debug, PartialEq, Eq)]
pub struct ItemStack {
    item_id: ItemId,
    quantity: u16,
}

impl View for ItemStack {
    type V = StackView;

    closed spec fn view(&self) -> StackView {
        StackView { item: self.item_id@, quantity: self.quantity }
    }
}

impl Clone for ItemStack {
    fn clone(&self) -> (r: Self)
        ensures
            r@ == self@,
    {
        ItemStack { item_id: self.item_id.clone(), quantity: self.quantity }
    }
}

impl ItemStack {
    pub fn new(item_id: ItemId, quantity: u16) -> (r: Self)
        ensures
            r@ == (StackView { item: item_id@, quantity }),
    {
        ItemStack { item_id, quantity }
    }

    pub fn item_id(&self) -> (r: &ItemId)
        ensures
            r@ == self@.item,
    {
        &self.item_id
    }

    pub fn quantity(&self) -> (r: u16)
        ensures
            r == self@.quantity,
    {
        self.quantity
    }

    /// Adds as much of `incoming` as fits under `stack_limit`; returns what did not fit.
    fn add_up_to_limit(&mut self, incoming: u16, stack_limit: u16) -> (r: u16)
        ensures
            final(self)@.item == old(self)@.item,
            ({
                let space = if stack_limit > old(self)@.quantity { stack_limit - old(self)@.quantity } else { 0 };
                let added = min_int(incoming as int, space);
                &&& final(self)@.quantity == old(self)@.quantity + added
                &&& r == incoming - added
            }),
    {
        let space = stack_limit.saturating_sub(self.quantity);
        let added = if incoming < space { incoming } else { space };
        self.quantity = self.quantity + added;
        incoming - added
    }

    /// Removes up to `requested` items; returns how many were removed.
    fn remove_up_to(&mut self, requested: u16) -> (r: u16)
        ensures
            final(self)@.item == old(self)@.item,
            r == min_int(requested as int, old(self)@.quantity as int),
            final(self)@.quantity == old(self)@.quantity - r,
    {
        let removed = if requested < self.quantity { requested } else { self.quantity };
        self.quantity = self.quantity - removed;
        removed
    }
}

/// What an optional stack holds.
pub open spec fn slot_view(slot: Option<ItemStack>) -> Option<StackView> {
    match slot {
        Some(stack) => Some(stack@),
        None => None,
    }
}

/// Inventory operation failure.
#[derive(Debug, Clone, PartialEq, Eq)]
pub enum InventoryError {
    InvalidStackLimit,
    InsufficientQuantity { available: u16, requested: u16 },
}

impl InventoryError {
    /// The error as a message.
    pub fn to_string(&self) -> (r: String)
        ensures
            r@ == match *self {
                InventoryError::InvalidStackLimit => "stack_limit must be greater than zero"@,
                InventoryError::InsufficientQuantity { available, requested } => "insufficient quantity: available "@
                    + decimal(available as u64) + ", requested "@ + decimal(requested as u64),
            },
    {
        match self {
            InventoryError::InvalidStackLimit => owned("stack_limit must be greater than zero"),
            InventoryError::InsufficientQuantity { available, requested } => {
                let mut out = owned("insufficient quantity: available ");
                push_decimal(&mut out, *available as u64);
                push_str(&mut out, ", requested ");
                push_decimal(&mut out, *requested as u64);
                out
            },
        }
    }
}

/// Fixed-size inventory made of optional item stacks.
#[derive(Debug, PartialEq, Eq)]
pub struct Inventory {
    slots: Vec<Option<ItemStack>>,
}

impl View for Inventory {
    type V = Seq<Option<StackView>>;

    closed spec fn view(&self) -> Seq<Option<StackView>> {
        self.slots@.map_values(|slot: Option<ItemStack>| slot_view(slot))
    }
}


/// Every pass keeps the number of slots.
proof fn lemma_pass_lengths(slots: Seq<Option<StackView>>, item: Seq<char>, quantity: u16, limit: u16, i: int)
    requires
        0 <= i <= slots.len(),
    ensures
        merge_upto(slots, item, quantity, limit, i).slots.len() == slots.len(),
        fill_upto(slots, item, quantity, limit, i).slots.len() == slots.len(),
        remove_upto(slots, item, quantity, i).slots.len() == slots.len(),
    decreases i,
{
    if i > 0 {
        lemma_pass_lengths(slots, item, quantity, limit, i - 1);
    } else {
        lemma_merge_length(slots, item, quantity, limit, slots.len() as int);
    }
}

proof fn lemma_merge_length(slots: Seq<Option<StackView>>, item: Seq<char>, quantity: u16, limit: u16, i: int)
    requires
        0 <= i <= slots.len(),
    ensures
        merge_upto(slots, item, quantity, limit, i).slots.len() == slots.len(),
    decreases i,
{
    if i > 0 {
        lemma_merge_length(slots, item, quantity, limit, i - 1);
    }
}

/// Once the merging pass is done, later slots change nothing.
proof fn lemma_merge_done_stable(slots: Seq<Option<StackView>>, item: Seq<char>, quantity: u16, limit: u16, k: int, m: int)
    requires
        0 <= k <= m,
        merge_upto(slots, item, quantity, limit, k).done,
    ensures
        merge_upto(slots, item, quantity, limit, m) == merge_upto(slots, item, quantity, limit, k),
    decreases m - k,
{
    if m > k {
        lemma_merge_done_stable(slots, item, quantity, limit, k, m - 1);
    }
}

/// Once the filling pass is done, later slots change nothing.
proof fn lemma_fill_done_stable(slots: Seq<Option<StackView>>, item: Seq<char>, quantity: u16, limit: u16, k: int, m: int)
    requires
        0 <= k <= m,
        fill_upto(slots, item, quantity, limit, k).done,
    ensures
        fill_upto(slots, item, quantity, limit, m) == fill_upto(slots, item, quantity, limit, k),
    decreases m - k,
{
    if m > k {
        lemma_fill_done_stable(slots, item, quantity, limit, k, m - 1);
    }
}

/// Once the removal pass is done, later slots change nothing.
proof fn lemma_remove_done_stable(slots: Seq<Option<StackView>>, item: Seq<char>, quantity: u16, k: int, m: int)
    requires
        0 <= k <= m,
        remove_upto(slots, item, quantity, k).done,
    ensures
        remove_upto(slots, item, quantity, m) == remove_upto(slots, item, quantity, k),
    decreases m - k,
{
    if m > k {
        lemma_remove_done_stable(slots, item, quantity, k, m - 1);
    }
}

/// Totals over a longer prefix are at least those over a shorter one.
proof fn lemma_total_upto_monotone(slots: Seq<Option<StackView>>, item: Seq<char>, i: int, j: int)
    requires
        i <= j,
    ensures
        total_upto(slots, item, i) <= total_upto(slots, item, j),
    decreases j - i,
{
    if j > i {
        lemma_total_upto_monotone(slots, item, i, j - 1);
    }
}

impl Inventory {
    /// The inventory's view after replacing slot `i`.
    proof fn lemma_view_set(slots: Seq<Option<ItemStack>>, i: int, slot: Option<ItemStack>)
        requires
            0 <= i < slots.len(),
        ensures
            slots.update(i, slot).map_values(|s: Option<ItemStack>| slot_view(s))
                == slots.map_values(|s: Option<ItemStack>| slot_view(s)).update(i, slot_view(slot)),
    {
        assert(slots.update(i, slot).map_values(|s: Option<ItemStack>| slot_view(s))
            =~= slots.map_values(|s: Option<ItemStack>| slot_view(s)).update(i, slot_view(slot)));
    }

    /// An inventory of `slot_count` empty slots.
    pub fn with_slot_count(slot_count: usize) -> (r: Self)
        ensures
            r@ == Seq::new(slot_count as nat, |i: int| None::<StackView>),
    {
        let mut slots: Vec<Option<ItemStack>> = Vec::new();
        let mut i: usize = 0;
        while i < slot_count
            invariant
                i <= slot_count,
                slots@.len() == i,
                forall|j: int| 0 <= j < i ==> slots@[j] is None,
            decreases slot_count - i,
        {
            slots.push(None);
            i = i + 1;
        }
        let r = Inventory { slots };
        assert(r@ =~= Seq::new(slot_count as nat, |i: int| None::<StackView>));
        r
    }

    /// How much of `item_id` the inventory holds.
    ///
    /// The sum is taken in `u16`, so the total must fit in it.
    pub fn total_quantity(&self, item_id: &ItemId) -> (r: u16)
        requires
            total_of(self@, item_id@) <= u16::MAX,
        ensures
            r == total_of(self@, item_id@),
    {
        let n = self.slots.len();
        let mut sum: u16 = 0;
        let mut i: usize = 0;
        while i < n
            invariant
                n == self.slots@.len(),
                n == self@.len(),
                i <= n,
                total_of(self@, item_id@) <= u16::MAX,
                sum == total_upto(self@, item_id@, i as int),
            decreases n - i,
        {
            proof {
                lemma_total_upto_monotone(self@, item_id@, i + 1, n as int);
            }
            assert(self@[i as int] == slot_view(self.slots@[i as int]));
            match &self.slots[i] {
                Some(stack) => {
                    if stack.item_id == *item_id {
                        sum = sum + stack.quantity;
                    }
                },
                None => {},
            }
            i = i + 1;
        }
        sum
    }

    /// Whether the inventory's total of the item fits in `u16`.
    pub fn total_fits(&self, item_id: &ItemId) -> (r: bool)
        ensures
            r == (total_of(self@, item_id@) <= u16::MAX),
    {
        let n = self.slots.len();
        let mut sum: u16 = 0;
        let mut i: usize = 0;
        while i < n
            invariant
                n == self.slots@.len(),
                n == self@.len(),
                i <= n,
                sum == total_upto(self@, item_id@, i as int),
            decreases n - i,
        {
            assert(self@[i as int] == slot_view(self.slots@[i as int]));
            match &self.slots[i] {
                Some(stack) => {
                    if stack.item_id == *item_id {
                        match sum.checked_add(stack.quantity) {
                            Some(next) => {
                                sum = next;
                            },
                            None => {
                                proof {
                                    lemma_total_upto_monotone(self@, item_id@, i + 1, n as int);
                                }
                                return false;
                            },
                        }
                    }
                },
                None => {},
            }
            i = i + 1;
        }
        true
    }

    /// How many slots hold a stack.
    pub fn occupied_slot_count(&self) -> (r: usize)
        ensures
            r == occupied_upto(self@, self@.len() as int),
    {
        let n = self.slots.len();
        let mut count: usize = 0;
        let mut i: usize = 0;
        while i < n
            invariant
                n == self.slots@.len(),
                n == self@.len(),
                i <= n,
                count <= i,
                count == occupied_upto(self@, i as int),
            decreases n - i,
        {
            assert(self@[i as int] == slot_view(self.slots@[i as int]));
            if self.slots[i].is_some() {
                count = count + 1;
            }
            i = i + 1;
        }
        count
    }

    /// The slots in order.
    pub fn slots(&self) -> (r: &[Option<ItemStack>])
        ensures
            r@.map_values(|s: Option<ItemStack>| slot_view(s)) == self@,
    {
        self.slots.as_slice()
    }

    /// Adds items, merging compatible stacks before opening new stacks.
    ///
    /// Returns the quantity that could not be inserted because the inventory filled.
    pub fn add_items(&mut self, item_id: ItemId, quantity: u16, stack_limit: u16) -> (r: Result<u16, InventoryError>)
        ensures
            stack_limit == 0 ==> r == Err::<u16, InventoryError>(InventoryError::InvalidStackLimit)
                && final(self)@ == old(self)@,
            stack_limit > 0 ==> r == Ok::<u16, InventoryError>(added(old(self)@, item_id@, quantity, stack_limit).remaining as u16)
                && final(self)@ == added(old(self)@, item_id@, quantity, stack_limit).slots,
    {
        if stack_limit == 0 {
            return Err(InventoryError::InvalidStackLimit);
        }
        let ghost orig = self@;
        let ghost item = item_id@;
        let mut remaining = quantity;
        let n = self.slots.len();
        let mut i: usize = 0;
        while i < n
            invariant
                n == self.slots@.len(),
                n == orig.len(),
                orig == old(self)@,
                i <= n,
                stack_limit > 0,
                item == item_id@,
                self@ == merge_upto(orig, item, quantity, stack_limit, i as int).slots,
                remaining == merge_upto(orig, item, quantity, stack_limit, i as int).remaining,
                !merge_upto(orig, item, quantity, stack_limit, i as int).done,
            decreases n - i,
        {
            proof {
                lemma_merge_length(orig, item, quantity, stack_limit, i as int);
            }
            assert(self@[i as int] == slot_view(self.slots@[i as int]));
            let current: Option<ItemStack> = match &self.slots[i] {
                Some(stack) => if stack.item_id == item_id { Some(stack.clone()) } else { None },
                None => None,
            };
            if let Some(mut stack) = current {
                let ghost before = self.slots@;
                remaining = stack.add_up_to_limit(remaining, stack_limit);
                self.slots.set(i, Some(stack));
                proof {
                    Self::lemma_view_set(before, i as int, Some(stack));
                }
                assert(self@ == merge_upto(orig, item, quantity, stack_limit, i + 1).slots);
                if remaining == 0 {
                    assert(merge_upto(orig, item, quantity, stack_limit, i + 1).done);
                    proof {
                        lemma_merge_done_stable(orig, item, quantity, stack_limit, i + 1, n as int);
                        lemma_fill_done_stable(orig, item, quantity, stack_limit, 0, n as int);
                    }
                    return Ok(0);
                }
            }
            i = i + 1;
        }
        let mut i: usize = 0;
        while i < n
            invariant
                n == self.slots@.len(),
                n == orig.len(),
                orig == old(self)@,
                i <= n,
                stack_limit > 0,
                item == item_id@,
                self@ == fill_upto(orig, item, quantity, stack_limit, i as int).slots,
                remaining == fill_upto(orig, item, quantity, stack_limit, i as int).remaining,
                !fill_upto(orig, item, quantity, stack_limit, i as int).done,
            decreases n - i,
        {
            proof {
                lemma_pass_lengths(orig, item, quantity, stack_limit, i as int);
            }
            assert(self@[i as int] == slot_view(self.slots@[i as int]));
            if self.slots[i].is_none() {
                let inserted = if remaining < stack_limit { remaining } else { stack_limit };
                let ghost before = self.slots@;
                let stack = ItemStack::new(item_id.clone(), inserted);
                self.slots.set(i, Some(stack));
                proof {
                    Self::lemma_view_set(before, i as int, Some(stack));
                }
                remaining = remaining - inserted;
                assert(self@ == fill_upto(orig, item, quantity, stack_limit, i + 1).slots);
                if remaining == 0 {
                    assert(fill_upto(orig, item, quantity, stack_limit, i + 1).done);
                    proof {
                        lemma_fill_done_stable(orig, item, quantity, stack_limit, i + 1, n as int);
                    }
                    return Ok(0);
                }
            }
            i = i + 1;
        }
        Ok(remaining)
    }

    /// Removes `quantity` of the item, taking from stacks in slot order and freeing
    /// the slots they empty; fails, changing nothing, when the inventory holds less.
    ///
    /// The inventory's total of the item is summed in `u16`, so it must fit in it.
    pub fn remove_items(&mut self, item_id: &ItemId, quantity: u16) -> (r: Result<(), InventoryError>)
        requires
            total_of(old(self)@, item_id@) <= u16::MAX,
        ensures
            total_of(old(self)@, item_id@) < quantity ==> r == Err::<(), InventoryError>(
                InventoryError::InsufficientQuantity { available: total_of(old(self)@, item_id@) as u16, requested: quantity },
            ) && final(self)@ == old(self)@,
            total_of(old(self)@, item_id@) >= quantity ==> r is Ok && final(self)@ == removed(old(self)@, item_id@, quantity),
    {
        let available = self.total_quantity(item_id);
        if available < quantity {
            return Err(InventoryError::InsufficientQuantity { available, requested: quantity });
        }
        let ghost orig = self@;
        let ghost item = item_id@;
        let mut remaining = quantity;
        let n = self.slots.len();
        let mut i: usize = 0;
        while i < n
            invariant
                n == self.slots@.len(),
                n == orig.len(),
                orig == old(self)@,
                total_of(orig, item) >= quantity,
                i <= n,
                item == item_id@,
                self@ == remove_upto(orig, item, quantity, i as int).slots,
                remaining == remove_upto(orig, item, quantity, i as int).remaining,
                !remove_upto(orig, item, quantity, i as int).done,
            decreases n - i,
        {
            proof {
                lemma_pass_lengths(orig, item, quantity, 1, i as int);
            }
            assert(self@[i as int] == slot_view(self.slots@[i as int]));
            let current: Option<ItemStack> = match &self.slots[i] {
                Some(stack) => if stack.item_id == *item_id { Some(stack.clone()) } else { None },
                None => None,
            };
            if let Some(mut stack) = current {
                let ghost before = self.slots@;
                let taken = stack.remove_up_to(remaining);
                remaining = remaining - taken;
                if stack.quantity == 0 {
                    self.slots.set(i, None);
                    proof {
                        Self::lemma_view_set(before, i as int, None);
                    }
                } else {
                    self.slots.set(i, Some(stack));
                    proof {
                        Self::lemma_view_set(before, i as int, Some(stack));
                    }
                }
                assert(self@ == remove_upto(orig, item, quantity, i + 1).slots);
                if remaining == 0 {
                    assert(remove_upto(orig, item, quantity, i + 1).done);
                    proof {
                        lemma_remove_done_stable(orig, item, quantity, i + 1, n as int);
                    }
                    return Ok(());
                }
            }
            i = i + 1;
        }
        Ok(())
    }
}


/// Replacing one slot changes a prefix total by the difference of the two slots.
pub proof fn lemma_total_update(slots: Seq<Option<StackView>>, item: Seq<char>, j: int, slot: Option<StackView>, n: int)
    requires
        0 <= j < slots.len(),
        n <= slots.len(),
    ensures
        total_upto(slots.update(j, slot), item, n) + (if j < n { slot_amount(slots[j], item) } else { 0 })
            == total_upto(slots, item, n) + (if j < n { slot_amount(slot, item) } else { 0 }),
    decreases n,
{
    if n > 0 {
        lemma_total_update(slots, item, j, slot, n - 1);
    }
}

/// Invariant of the merging pass: what is placed plus what is left is what was
/// asked for, other items keep their totals, and nothing negative appears.
proof fn lemma_merge_conserves(slots: Seq<Option<StackView>>, item: Seq<char>, quantity: u16, limit: u16, i: int, other: Seq<char>)
    requires
        0 <= i <= slots.len(),
        other != item,
    ensures
        ({
            let s = merge_upto(slots, item, quantity, limit, i);
            &&& s.slots.len() == slots.len()
            &&& 0 <= s.remaining <= quantity
            &&& s.done ==> s.remaining == 0
            &&& total_of(s.slots, item) + s.remaining == total_of(slots, item) + quantity
            &&& total_of(s.slots, other) == total_of(slots, other)
        }),
    decreases i,
{
    if i > 0 {
        lemma_merge_conserves(slots, item, quantity, limit, i - 1, other);
        let p = merge_upto(slots, item, quantity, limit, i - 1);
        let j = i - 1;
        if !p.done && p.slots[j] is Some && p.slots[j]->0.item == item {
            let stack = p.slots[j]->0;
            let space = if limit > stack.quantity { limit - stack.quantity } else { 0 };
            let added = min_int(p.remaining, space);
            let new_slot = Some(StackView { item: stack.item, quantity: (stack.quantity + added) as u16 });
            lemma_total_update(p.slots, item, j, new_slot, p.slots.len() as int);
            lemma_total_update(p.slots, other, j, new_slot, p.slots.len() as int);
        }
    }
}

/// Invariant of the filling pass, continuing that of the merging pass.
proof fn lemma_fill_conserves(slots: Seq<Option<StackView>>, item: Seq<char>, quantity: u16, limit: u16, i: int, other: Seq<char>)
    requires
        0 <= i <= slots.len(),
        other != item,
    ensures
        ({
            let s = fill_upto(slots, item, quantity, limit, i);
            &&& s.slots.len() == slots.len()
            &&& 0 <= s.remaining <= quantity
            &&& s.done ==> s.remaining == 0
            &&& total_of(s.slots, item) + s.remaining == total_of(slots, item) + quantity
            &&& total_of(s.slots, other) == total_of(slots, other)
        }),
    decreases i,
{
    if i > 0 {
        lemma_fill_conserves(slots, item, quantity, limit, i - 1, other);
        let p = fill_upto(slots, item, quantity, limit, i - 1);
        let j = i - 1;
        if !p.done && p.slots[j] is None {
            let inserted = min_int(p.remaining, limit as int);
            let new_slot = Some(StackView { item, quantity: inserted as u16 });
            lemma_total_update(p.slots, item, j, new_slot, p.slots.len() as int);
            lemma_total_update(p.slots, other, j, new_slot, p.slots.len() as int);
        }
    } else {
        lemma_merge_conserves(slots, item, quantity, limit, slots.len() as int, other);
    }
}

/// Adding items conserves quantities: what the inventory gains of the item plus
/// what is handed back is exactly what was offered, at most what was offered is
/// handed back, and every other item keeps its total.
pub proof fn law_add_conserves(slots: Seq<Option<StackView>>, item: Seq<char>, quantity: u16, limit: u16, other: Seq<char>)
    requires
        other != item,
    ensures
        ({
            let a = added(slots, item, quantity, limit);
            &&& a.slots.len() == slots.len()
            &&& 0 <= a.remaining <= quantity
            &&& total_of(a.slots, item) == total_of(slots, item) + quantity - a.remaining
            &&& total_of(a.slots, other) == total_of(slots, other)
        }),
{
    lemma_fill_conserves(slots, item, quantity, limit, slots.len() as int, other);
}

/// Invariant of the removal pass: until it is done, what is still requested is what
/// was requested minus what the visited slots held; what was taken left the slots.
proof fn lemma_remove_conserves(slots: Seq<Option<StackView>>, item: Seq<char>, quantity: u16, i: int, other: Seq<char>)
    requires
        0 <= i <= slots.len(),
        other != item,
    ensures
        ({
            let s = remove_upto(slots, item, quantity, i);
            &&& s.slots.len() == slots.len()
            &&& 0 <= s.remaining <= quantity
            &&& s.done ==> s.remaining == 0
            &&& !s.done ==> s.remaining + total_upto(slots, item, i) == quantity
            &&& total_of(s.slots, item) + quantity == total_of(slots, item) + s.remaining
            &&& total_of(s.slots, other) == total_of(slots, other)
        }),
    decreases i,
{
    if i > 0 {
        lemma_remove_conserves(slots, item, quantity, i - 1, other);
        let p = remove_upto(slots, item, quantity, i - 1);
        let j = i - 1;
        lemma_pass_lengths(slots, item, quantity, 1, i - 1);
        if !p.done {
            assert(p.slots[j] == slots[j]) by {
                lemma_remove_untouched(slots, item, quantity, i - 1, j);
            }
        }
        if !p.done && p.slots[j] is Some && p.slots[j]->0.item == item {
            let stack = p.slots[j]->0;
            let removed = min_int(p.remaining, stack.quantity as int);
            let left = stack.quantity - removed;
            let new_slot = if left == 0 { None } else { Some(StackView { item: stack.item, quantity: left as u16 }) };
            lemma_total_update(p.slots, item, j, new_slot, p.slots.len() as int);
            lemma_total_update(p.slots, other, j, new_slot, p.slots.len() as int);
        }
    }
}

/// Slots the removal pass has not reached are unchanged.
proof fn lemma_remove_untouched(slots: Seq<Option<StackView>>, item: Seq<char>, quantity: u16, i: int, j: int)
    requires
        0 <= i <= j < slots.len(),
    ensures
        remove_upto(slots, item, quantity, i).slots[j] == slots[j],
    decreases i,
{
    if i > 0 {
        lemma_remove_untouched(slots, item, quantity, i - 1, j);
        lemma_pass_lengths(slots, item, quantity, 1, i - 1);
    }
}

proof fn lemma_merge_shape(slots: Seq<Option<StackView>>, item: Seq<char>, quantity: u16, limit: u16, i: int)
    requires
        0 <= i <= slots.len(),
    ensures
        ({
            let m = merge_upto(slots, item, quantity, limit, i);
            &&& m.slots.len() == slots.len()
            &&& m.remaining >= 0
            &&& forall|j: int| i <= j < slots.len() ==> #[trigger] m.slots[j] == slots[j]
            &&& forall|j: int| 0 <= j < slots.len() ==> (#[trigger] m.slots[j] is None <==> slots[j] is None)
            &&& forall|j: int| 0 <= j < slots.len() && slots[j] is Some ==> (#[trigger] m.slots[j])->0.item == slots[j]->0.item
            &&& !m.done ==> forall|j: int| 0 <= j < i && slots[j] is Some && slots[j]->0.item == item
                ==> (#[trigger] m.slots[j])->0.quantity >= limit
        }),
    decreases i,
{
    if i > 0 {
        lemma_merge_shape(slots, item, quantity, limit, i - 1);
        let s = merge_upto(slots, item, quantity, limit, i - 1);
        let r = merge_step(s, item, limit, i - 1);
        assert forall|j: int| 0 <= j < slots.len() && j != i - 1 implies #[trigger] r.slots[j] == s.slots[j] by {}
    }
}

proof fn lemma_fill_shape(slots: Seq<Option<StackView>>, item: Seq<char>, quantity: u16, limit: u16, i: int)
    requires
        0 <= i <= slots.len(),
    ensures
        ({
            let m = merge_upto(slots, item, quantity, limit, slots.len() as int);
            let f = fill_upto(slots, item, quantity, limit, i);
            &&& f.slots.len() == slots.len()
            &&& m.done ==> f == m
            &&& forall|j: int| 0 <= j < slots.len() && m.slots[j] is Some ==> #[trigger] f.slots[j] == m.slots[j]
            &&& forall|j: int| 0 <= j < slots.len() && (#[trigger] f.slots[j]) is Some && m.slots[j] is None ==> !m.done
        }),
    decreases i,
{
    lemma_merge_shape(slots, item, quantity, limit, slots.len() as int);
    if i > 0 {
        lemma_fill_shape(slots, item, quantity, limit, i - 1);
        let s = fill_upto(slots, item, quantity, limit, i - 1);
        let r = fill_step(s, item, limit, i - 1);
        assert forall|j: int| 0 <= j < slots.len() && j != i - 1 implies #[trigger] r.slots[j] == s.slots[j] by {}
    }
}

/// Adding merges before it opens: a new stack goes into an empty slot only once every
/// stack of the same item already held has been topped up to the stack limit (or
/// held that much already); stacks of other items and their slots are not touched.
pub proof fn law_add_merges_before_opening(slots: Seq<Option<StackView>>, item: Seq<char>, quantity: u16, limit: u16)
    ensures
        added(slots, item, quantity, limit).slots.len() == slots.len(),
        forall|k: int| 0 <= k < slots.len() && slots[k] is Some && slots[k]->0.item != item
            ==> #[trigger] added(slots, item, quantity, limit).slots[k] == slots[k],
        forall|j: int, k: int| 0 <= j < slots.len() && 0 <= k < slots.len()
            && slots[j] is None && (#[trigger] added(slots, item, quantity, limit).slots[j]) is Some
            && slots[k] is Some && slots[k]->0.item == item
            ==> (#[trigger] added(slots, item, quantity, limit).slots[k])->0.quantity >= limit,
{
    let n = slots.len() as int;
    lemma_merge_shape(slots, item, quantity, limit, n);
    lemma_fill_shape(slots, item, quantity, limit, n);
    let m = merge_upto(slots, item, quantity, limit, n);
    assert forall|k: int| 0 <= k < slots.len() && slots[k] is Some && slots[k]->0.item != item
        implies #[trigger] added(slots, item, quantity, limit).slots[k] == slots[k] by {
        lemma_merge_untouched(slots, item, quantity, limit, n, k);
    }
}

/// The merging pass leaves stacks of other items as they were.
proof fn lemma_merge_untouched(slots: Seq<Option<StackView>>, item: Seq<char>, quantity: u16, limit: u16, i: int, k: int)
    requires
        0 <= i <= slots.len(),
        0 <= k < slots.len(),
        slots[k] is None || slots[k]->0.item != item,
    ensures
        merge_upto(slots, item, quantity, limit, i).slots[k] == slots[k],
    decreases i,
{
    lemma_merge_shape(slots, item, quantity, limit, i);
    if i > 0 {
        lemma_merge_untouched(slots, item, quantity, limit, i - 1, k);
        lemma_merge_shape(slots, item, quantity, limit, i - 1);
    }
}

/// Every held stack holds at least one item.
pub open spec fn no_empty_stacks(slots: Seq<Option<StackView>>) -> bool {
    forall|j: int| 0 <= j < slots.len() && (#[trigger] slots[j]) is Some ==> slots[j]->0.quantity > 0
}

proof fn lemma_remove_keeps_stacks_nonempty(slots: Seq<Option<StackView>>, item: Seq<char>, quantity: u16, i: int)
    requires
        0 <= i <= slots.len(),
        no_empty_stacks(slots),
    ensures
        no_empty_stacks(remove_upto(slots, item, quantity, i).slots),
        remove_upto(slots, item, quantity, i).slots.len() == slots.len(),
        remove_upto(slots, item, quantity, i).remaining >= 0,
    decreases i,
{
    if i > 0 {
        lemma_remove_keeps_stacks_nonempty(slots, item, quantity, i - 1);
        let s = remove_upto(slots, item, quantity, i - 1);
        let r = remove_step(s, item, i - 1);
        assert forall|j: int| 0 <= j < r.slots.len() && (#[trigger] r.slots[j]) is Some implies r.slots[j]->0.quantity > 0 by {
            if j != i - 1 {
                assert(r.slots[j] == s.slots[j] || r == s);
            }
        }
    }
}

/// A removal never leaves an empty stack behind: a stack that the removal empties,
/// by any of its steps including the last, frees its slot.
pub proof fn law_remove_frees_emptied_slots(slots: Seq<Option<StackView>>, item: Seq<char>, quantity: u16)
    requires
        no_empty_stacks(slots),
    ensures
        no_empty_stacks(removed(slots, item, quantity)),
        forall|j: int| 0 <= j < slots.len() && (#[trigger] removed(slots, item, quantity)[j]) is Some
            ==> removed(slots, item, quantity)[j]->0.quantity > 0,
{
    lemma_remove_keeps_stacks_nonempty(slots, item, quantity, slots.len() as int);
}

/// The removal pass after `i` slots has not touched the slots from `i` on, and, while
/// it still has items to take, holds none of the item in the slots before `i`.
proof fn lemma_remove_pass_shape(slots: Seq<Option<StackView>>, item: Seq<char>, quantity: u16, i: int)
    requires
        0 <= i <= slots.len(),
        no_empty_stacks(slots),
    ensures
        ({
            let s = remove_upto(slots, item, quantity, i);
            &&& s.slots.len() == slots.len()
            &&& forall|j: int| i <= j < slots.len() ==> #[trigger] s.slots[j] == slots[j]
            &&& !s.done ==> forall|j: int| 0 <= j < i ==> slot_amount(#[trigger] s.slots[j], item) == 0
            &&& forall|j: int| 0 <= j < slots.len() && slot_amount(slots[j], item) == 0 ==> #[trigger] s.slots[j] == slots[j]
        }),
    decreases i,
{
    lemma_remove_keeps_stacks_nonempty(slots, item, quantity, i);
    if i > 0 {
        lemma_remove_pass_shape(slots, item, quantity, i - 1);
        let s = remove_upto(slots, item, quantity, i - 1);
        let r = remove_step(s, item, i - 1);
        assert forall|j: int| 0 <= j < slots.len() && j != i - 1 implies #[trigger] r.slots[j] == s.slots[j] by {}
    }
}

/// Once the removal pass has passed slot `i`, that slot no longer changes.
proof fn lemma_remove_settled(slots: Seq<Option<StackView>>, item: Seq<char>, quantity: u16, i: int, m: int)
    requires
        0 <= i < m <= slots.len(),
    ensures
        remove_upto(slots, item, quantity, m).slots[i] == remove_upto(slots, item, quantity, i + 1).slots[i],
    decreases m,
{
    if m > i + 1 {
        lemma_remove_settled(slots, item, quantity, i, m - 1);
        lemma_pass_lengths(slots, item, quantity, 1, m - 1);
    }
}

/// Removal takes from stacks in slot order and touches nothing else: slots holding
/// none of the item are left as they were, and a slot whose stack the removal
/// changed comes only after every earlier stack of the item was taken whole.
pub proof fn law_remove_takes_in_slot_order(slots: Seq<Option<StackView>>, item: Seq<char>, quantity: u16)
    requires
        no_empty_stacks(slots),
    ensures
        removed(slots, item, quantity).len() == slots.len(),
        forall|j: int| 0 <= j < slots.len() && slot_amount(slots[j], item) == 0
            ==> #[trigger] removed(slots, item, quantity)[j] == slots[j],
        forall|i: int, j: int| 0 <= i < j < slots.len() && #[trigger] removed(slots, item, quantity)[j] != slots[j]
            ==> #[trigger] removed(slots, item, quantity)[i] is None || removed(slots, item, quantity)[i]->0.item != item,
{
    let n = slots.len() as int;
    lemma_remove_pass_shape(slots, item, quantity, n);
    assert forall|i: int, j: int| 0 <= i < j < slots.len() && #[trigger] removed(slots, item, quantity)[j] != slots[j]
        implies #[trigger] removed(slots, item, quantity)[i] is None || removed(slots, item, quantity)[i]->0.item != item by {
        lemma_remove_pass_shape(slots, item, quantity, j);
        lemma_remove_pass_shape(slots, item, quantity, j + 1);
        lemma_remove_settled(slots, item, quantity, j, n);
        lemma_remove_settled(slots, item, quantity, i, n);
        lemma_remove_settled(slots, item, quantity, i, j);
        let s = remove_upto(slots, item, quantity, j);
        // slot j changed, so the pass was still taking items when it reached it
        assert(!s.done);
        assert(slot_amount(s.slots[i], item) == 0);
        lemma_remove_pass_shape(slots, item, quantity, i + 1);
        lemma_remove_keeps_stacks_nonempty(slots, item, quantity, j);
    }
}

/// Removing items takes exactly the requested quantity of the item when the
/// inventory holds enough, and leaves every other item's total unchanged.
pub proof fn law_remove_takes_exactly(slots: Seq<Option<StackView>>, item: Seq<char>, quantity: u16, other: Seq<char>)
    requires
        total_of(slots, item) >= quantity,
        other != item,
    ensures
        removed(slots, item, quantity).len() == slots.len(),
        total_of(removed(slots, item, quantity), item) == total_of(slots, item) - quantity,
        total_of(removed(slots, item, quantity), other) == total_of(slots, other),
{
    lemma_remove_conserves(slots, item, quantity, slots.len() as int, other);
}


/// While the merging pass still has something to place, every stack of the item it
/// visited is full, later slots are untouched, and no slot was emptied or filled.
proof fn lemma_merge_leaves_full(slots: Seq<Option<StackView>>, item: Seq<char>, quantity: u16, limit: u16, i: int)
    requires
        0 <= i <= slots.len(),
    ensures
        ({
            let s = merge_upto(slots, item, quantity, limit, i);
            &&& s.slots.len() == slots.len()
            &&& s.remaining <= quantity
            &&& s.done ==> s.remaining == 0
            &&& forall|j: int| 0 <= j < slots.len() ==> (#[trigger] s.slots[j] is None <==> slots[j] is None)
            &&& forall|j: int| i <= j < slots.len() ==> #[trigger] s.slots[j] == slots[j]
            &&& s.remaining > 0 ==> forall|j: int| 0 <= j < i && #[trigger] s.slots[j] is Some && s.slots[j]->0.item == item
                ==> s.slots[j]->0.quantity >= limit
        }),
    decreases i,
{
    if i > 0 {
        lemma_merge_leaves_full(slots, item, quantity, limit, i - 1);
    }
}

/// While the filling pass still has something to place, every stack of the item is
/// full and every slot it visited holds a stack.
proof fn lemma_fill_leaves_full(slots: Seq<Option<StackView>>, item: Seq<char>, quantity: u16, limit: u16, i: int)
    requires
        0 <= i <= slots.len(),
    ensures
        ({
            let s = fill_upto(slots, item, quantity, limit, i);
            &&& s.slots.len() == slots.len()
            &&& s.done ==> s.remaining == 0
            &&& s.remaining > 0 ==> forall|j: int| 0 <= j < slots.len() && #[trigger] s.slots[j] is Some && s.slots[j]->0.item == item
                ==> s.slots[j]->0.quantity >= limit
            &&& s.remaining > 0 ==> forall|j: int| 0 <= j < i ==> #[trigger] s.slots[j] is Some
        }),
    decreases i,
{
    if i > 0 {
        lemma_fill_leaves_full(slots, item, quantity, limit, i - 1);
    } else {
        lemma_merge_leaves_full(slots, item, quantity, limit, slots.len() as int);
    }
}

/// Items are handed back only when the inventory is full for them: no slot is
/// empty and every stack of the item has reached the stack limit.
pub proof fn law_add_leftover_means_full(slots: Seq<Option<StackView>>, item: Seq<char>, quantity: u16, limit: u16)
    requires
        added(slots, item, quantity, limit).remaining > 0,
    ensures
        forall|j: int| 0 <= j < slots.len() ==> #[trigger] added(slots, item, quantity, limit).slots[j] is Some,
        forall|j: int| 0 <= j < slots.len() && #[trigger] added(slots, item, quantity, limit).slots[j] is Some
            && added(slots, item, quantity, limit).slots[j]->0.item == item
            ==> added(slots, item, quantity, limit).slots[j]->0.quantity >= limit,
{
    lemma_fill_leaves_full(slots, item, quantity, limit, slots.len() as int);
}


/// Occupancy only depends on which slots hold a stack.
proof fn lemma_occupied_same_shape(a: Seq<Option<StackView>>, b: Seq<Option<StackView>>, n: int)
    requires
        n <= a.len(),
        n <= b.len(),
        forall|j: int| 0 <= j < n ==> (#[trigger] a[j] is None <==> b[j] is None),
    ensures
        occupied_upto(a, n) == occupied_upto(b, n),
    decreases n,
{
    if n > 0 {
        lemma_occupied_same_shape(a, b, n - 1);
    }
}

/// Filling one slot raises occupancy by one when that slot was empty.
proof fn lemma_occupied_update(slots: Seq<Option<StackView>>, j: int, slot: Option<StackView>, n: int)
    requires
        0 <= j < slots.len(),
        n <= slots.len(),
        slot is Some,
    ensures
        occupied_upto(slots.update(j, slot), n) == occupied_upto(slots, n) + if j < n && slots[j] is None { 1int } else { 0int },
    decreases n,
{
    if n > 0 {
        lemma_occupied_update(slots, j, slot, n - 1);
    }
}

/// Occupancy counts at most every slot, and counts every slot only when none is empty.
pub proof fn lemma_occupied_bound(slots: Seq<Option<StackView>>, n: int)
    requires
        0 <= n <= slots.len(),
    ensures
        occupied_upto(slots, n) <= n,
        occupied_upto(slots, n) == n ==> forall|j: int| 0 <= j < n ==> #[trigger] slots[j] is Some,
    decreases n,
{
    if n > 0 {
        lemma_occupied_bound(slots, n - 1);
    }
}

/// While adding no more than one stack's worth, the filling pass fills at most the
/// first empty slot, and it finishes there.
proof fn lemma_fill_small_batch(slots: Seq<Option<StackView>>, item: Seq<char>, quantity: u16, limit: u16, i: int)
    requires
        0 <= i <= slots.len(),
        quantity <= limit,
    ensures
        ({
            let m = merge_upto(slots, item, quantity, limit, slots.len() as int);
            let s = fill_upto(slots, item, quantity, limit, i);
            &&& s.slots.len() == slots.len()
            &&& 0 <= s.remaining <= quantity
            &&& s.done ==> s.remaining == 0
            &&& occupied_upto(s.slots, slots.len() as int) <= occupied_upto(slots, slots.len() as int) + 1
            &&& !s.done ==> s.slots == m.slots
            &&& (exists|j: int| 0 <= j < i && #[trigger] m.slots[j] is None) ==> s.done
        }),
    decreases i,
{
    let n = slots.len() as int;
    let m = merge_upto(slots, item, quantity, limit, n);
    lemma_merge_leaves_full(slots, item, quantity, limit, n);
    lemma_occupied_same_shape(m.slots, slots, n);
    assert(item.push('#').len() != item.len());
    lemma_merge_conserves(slots, item, quantity, limit, n, item.push('#'));
    if i > 0 {
        lemma_fill_small_batch(slots, item, quantity, limit, i - 1);
        let p = fill_upto(slots, item, quantity, limit, i - 1);
        let j = i - 1;
        if !p.done && p.slots[j] is None {
            let inserted = min_int(p.remaining, limit as int);
            lemma_occupied_update(p.slots, j, Some(StackView { item, quantity: inserted as u16 }), n);
        }
        if exists|t: int| 0 <= t < i && #[trigger] m.slots[t] is None {
            let t = choose|t: int| 0 <= t < i && #[trigger] m.slots[t] is None;
            if t < i - 1 {
                assert(p.done);
            }
        }
    }
}

/// Adding at most one stack's worth of an item opens at most one new stack, and when
/// some slot is empty everything fits.
pub proof fn law_add_small_batch(slots: Seq<Option<StackView>>, item: Seq<char>, quantity: u16, limit: u16)
    requires
        quantity <= limit,
    ensures
        occupied_upto(added(slots, item, quantity, limit).slots, slots.len() as int) <= occupied_upto(slots, slots.len() as int) + 1,
        (exists|j: int| 0 <= j < slots.len() && #[trigger] slots[j] is None) ==> added(slots, item, quantity, limit).remaining == 0,
{
    let n = slots.len() as int;
    lemma_fill_small_batch(slots, item, quantity, limit, n);
    lemma_merge_leaves_full(slots, item, quantity, limit, n);
    let m = merge_upto(slots, item, quantity, limit, n);
    if exists|j: int| 0 <= j < slots.len() && #[trigger] slots[j] is None {
        let j = choose|j: int| 0 <= j < slots.len() && #[trigger] slots[j] is None;
        assert(m.slots[j] is None);
    }
}

} // verus!
