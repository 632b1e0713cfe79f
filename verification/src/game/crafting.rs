//! Hand crafting: item metadata, recorded failures, and the rule that applies a
//! recipe to the player inventory.

use vstd::prelude::*;

use crate::crafting::{
    ingredient_views, item_amount, item_claims, item_offer, offered, plan, AvailableIngredient, CraftingError,
    IngredientView, Recipe, RecipeView,
};
use crate::game::harvesting::{present_stacks, PlayerInventory};
use crate::ids::ItemId;
use crate::inventory::{added, removed, total_of, total_upto, InventoryError, ItemStack, StackView};
use crate::item::MaterialClass;

verus! {

/// Item metadata needed by hand crafting.
#[derive(Debug, PartialEq, Eq)]
pub struct ItemCraftingDefinition {
    item_id: ItemId,
    material_class: MaterialClass,
    stack_limit: u16,
}

/// What an item's crafting metadata states.
pub struct CraftingDefView {
    pub item: Seq<char>,
    pub material_class: MaterialClass,
    pub stack_limit: u16,
}

impl View for ItemCraftingDefinition {
    type V = CraftingDefView;

    closed spec fn view(&self) -> CraftingDefView {
        CraftingDefView { item: self.item_id@, material_class: self.material_class, stack_limit: self.stack_limit }
    }
}

impl Clone for ItemCraftingDefinition {
    fn clone(&self) -> (r: Self)
        ensures
            r@ == self@,
    {
        ItemCraftingDefinition { item_id: self.item_id.clone(), material_class: self.material_class, stack_limit: self.stack_limit }
    }
}

impl ItemCraftingDefinition {
    pub fn new(item_id: ItemId, material_class: MaterialClass, stack_limit: u16) -> (r: Self)
        ensures
            r@ == (CraftingDefView { item: item_id@, material_class, stack_limit }),
    {
        ItemCraftingDefinition { item_id, material_class, stack_limit }
    }

    pub fn item_id(&self) -> (r: &ItemId)
        ensures
            r@ == self@.item,
    {
        &self.item_id
    }

    pub fn material_class(&self) -> (r: MaterialClass)
        ensures
            r == self@.material_class,
    {
        self.material_class
    }

    pub fn stack_limit(&self) -> (r: u16)
        ensures
            r == self@.stack_limit,
    {
        self.stack_limit
    }
}

/// The definition found for an item: the first one recorded for it.
pub open spec fn lookup(definitions: Seq<CraftingDefView>, item: Seq<char>) -> Option<CraftingDefView>
    decreases definitions.len(),
{
    if definitions.len() == 0 {
        None
    } else {
        match lookup(definitions.drop_last(), item) {
            Some(found) => Some(found),
            None => if definitions.last().item == item { Some(definitions.last()) } else { None },
        }
    }
}

/// The first definition for the item is what `lookup` finds.
pub proof fn lemma_lookup_first(definitions: Seq<CraftingDefView>, item: Seq<char>, i: int)
    requires
        0 <= i < definitions.len(),
        definitions[i].item == item,
        forall|j: int| 0 <= j < i ==> #[trigger] definitions[j].item != item,
    ensures
        lookup(definitions, item) == Some(definitions[i]),
    decreases definitions.len(),
{
    if i < definitions.len() - 1 {
        lemma_lookup_first(definitions.drop_last(), item, i);
    } else {
        lemma_lookup_absent(definitions.drop_last(), item);
    }
}

/// Without a definition for the item, `lookup` finds nothing.
pub proof fn lemma_lookup_absent(definitions: Seq<CraftingDefView>, item: Seq<char>)
    requires
        forall|j: int| 0 <= j < definitions.len() ==> #[trigger] definitions[j].item != item,
    ensures
        lookup(definitions, item) is None,
    decreases definitions.len(),
{
    if definitions.len() > 0 {
        lemma_lookup_absent(definitions.drop_last(), item);
    }
}

/// Replacing the first definition of an item changes what is found for that item
/// only.
proof fn lemma_lookup_replace(definitions: Seq<CraftingDefView>, i: int, d: CraftingDefView, other: Seq<char>)
    requires
        0 <= i < definitions.len(),
        definitions[i].item == d.item,
        forall|j: int| 0 <= j < i ==> #[trigger] definitions[j].item != d.item,
    ensures
        lookup(definitions.update(i, d), d.item) == Some(d),
        other != d.item ==> lookup(definitions.update(i, d), other) == lookup(definitions, other),
    decreases definitions.len(),
{
    let u = definitions.update(i, d);
    if i < definitions.len() - 1 {
        assert(u.drop_last() =~= definitions.drop_last().update(i, d));
        lemma_lookup_replace(definitions.drop_last(), i, d, other);
    } else {
        assert(u.drop_last() =~= definitions.drop_last());
        lemma_lookup_absent(definitions.drop_last(), d.item);
    }
}

/// Appending a definition for an item that had none changes what is found for that
/// item only.
proof fn lemma_lookup_append(definitions: Seq<CraftingDefView>, d: CraftingDefView, other: Seq<char>)
    requires
        forall|j: int| 0 <= j < definitions.len() ==> #[trigger] definitions[j].item != d.item,
    ensures
        lookup(definitions.push(d), d.item) == Some(d),
        other != d.item ==> lookup(definitions.push(d), other) == lookup(definitions, other),
{
    assert(definitions.push(d).drop_last() =~= definitions);
    lemma_lookup_absent(definitions, d.item);
}

/// Registry of item metadata, keyed by item id (the first entry for an id counts).
#[derive(Debug, PartialEq, Eq)]
pub struct ItemCraftingDefinitions {
    definitions: Vec<ItemCraftingDefinition>,
}

impl View for ItemCraftingDefinitions {
    type V = Seq<CraftingDefView>;

    closed spec fn view(&self) -> Seq<CraftingDefView> {
        self.definitions@.map_values(|d: ItemCraftingDefinition| d@)
    }
}

impl Default for ItemCraftingDefinitions {
    fn default() -> (r: Self)
        ensures
            r@ == Seq::<CraftingDefView>::empty(),
    {
        let r = ItemCraftingDefinitions { definitions: Vec::new() };
        assert(r@ =~= Seq::<CraftingDefView>::empty());
        r
    }
}

impl ItemCraftingDefinitions {
    /// Records the definition: it replaces the item's definition, or is added when the
    /// item had none. Afterwards the item maps to it and every other item keeps its
    /// definition.
    pub fn insert(&mut self, definition: ItemCraftingDefinition)
        ensures
            lookup(final(self)@, definition@.item) == Some(definition@),
            forall|other: Seq<char>| other != definition@.item ==> #[trigger] lookup(final(self)@, other) == lookup(old(self)@, other),
    {
        let ghost d = definition@;
        let n = self.definitions.len();
        let mut i: usize = 0;
        while i < n
            invariant
                n == self.definitions@.len(),
                n == self@.len(),
                self@ == old(self)@,
                d == definition@,
                i <= n,
                forall|j: int| 0 <= j < i ==> #[trigger] self@[j].item != d.item,
            decreases n - i,
        {
            assert(self@[i as int] == self.definitions@[i as int]@);
            if self.definitions[i].item_id == definition.item_id {
                self.definitions.set(i, definition);
                assert(self@ =~= old(self)@.update(i as int, d));
                proof {
                    lemma_lookup_replace(old(self)@, i as int, d, d.item);
                    assert forall|other: Seq<char>| other != d.item implies #[trigger] lookup(self@, other) == lookup(old(self)@, other) by {
                        lemma_lookup_replace(old(self)@, i as int, d, other);
                    }
                }
                return;
            }
            i = i + 1;
        }
        self.definitions.push(definition);
        assert(self@ =~= old(self)@.push(d));
        proof {
            lemma_lookup_append(old(self)@, d, d.item);
            assert forall|other: Seq<char>| other != d.item implies #[trigger] lookup(self@, other) == lookup(old(self)@, other) by {
                lemma_lookup_append(old(self)@, d, other);
            }
        }
    }

    /// The definition recorded for the item, if any.
    pub fn get(&self, item_id: &ItemId) -> (r: Option<&ItemCraftingDefinition>)
        ensures
            r is None <==> lookup(self@, item_id@) is None,
            r matches Some(d) ==> lookup(self@, item_id@) == Some(d@),
    {
        let n = self.definitions.len();
        let mut i: usize = 0;
        while i < n
            invariant
                n == self.definitions@.len(),
                n == self@.len(),
                i <= n,
                forall|j: int| 0 <= j < i ==> #[trigger] self@[j].item != item_id@,
            decreases n - i,
        {
            assert(self@[i as int] == self.definitions@[i as int]@);
            if self.definitions[i].item_id == *item_id {
                proof {
                    lemma_lookup_first(self@, item_id@, i as int);
                }
                return Some(&self.definitions[i]);
            }
            i = i + 1;
        }
        proof {
            lemma_lookup_absent(self@, item_id@);
        }
        None
    }
}


/// Event requesting that a hand recipe be applied to the player's inventory.
#[derive(Debug, Clone, PartialEq, Eq)]
pub struct CraftRecipe {
    recipe: Recipe,
}

impl CraftRecipe {
    pub fn new(recipe: Recipe) -> (r: Self)
        ensures
            r.recipe_view() == recipe@,
    {
        CraftRecipe { recipe }
    }

    /// The requested recipe.
    pub closed spec fn recipe_view(&self) -> RecipeView {
        self.recipe@
    }

    pub fn recipe(&self) -> (r: &Recipe)
        ensures
            r@ == self.recipe_view(),
    {
        &self.recipe
    }
}

/// Crafting failures recorded for UI/diagnostics feedback.
#[derive(Debug, Clone, PartialEq, Eq)]
pub enum HandCraftingFailure {
    MissingItemDefinition(ItemId),
    Crafting(CraftingError),
    Inventory(InventoryError),
    InventoryFull { item_id: ItemId, overflow: u16 },
}

/// What a recorded failure states.
pub enum FailureView {
    MissingItemDefinition(Seq<char>),
    Crafting(CraftingError),
    Inventory(InventoryError),
    InventoryFull { item: Seq<char>, overflow: u16 },
}

impl View for HandCraftingFailure {
    type V = FailureView;

    open spec fn view(&self) -> FailureView {
        match self {
            HandCraftingFailure::MissingItemDefinition(id) => FailureView::MissingItemDefinition(id@),
            HandCraftingFailure::Crafting(e) => FailureView::Crafting(*e),
            HandCraftingFailure::Inventory(e) => FailureView::Inventory(*e),
            HandCraftingFailure::InventoryFull { item_id, overflow } => FailureView::InventoryFull { item: item_id@, overflow: *overflow },
        }
    }
}

/// Recent hand crafting failures.
#[derive(Debug, PartialEq, Eq)]
pub struct HandCraftingFailures {
    failures: Vec<HandCraftingFailure>,
}

impl View for HandCraftingFailures {
    type V = Seq<FailureView>;

    closed spec fn view(&self) -> Seq<FailureView> {
        self.failures@.map_values(|f: HandCraftingFailure| f@)
    }
}

impl Default for HandCraftingFailures {
    fn default() -> (r: Self)
        ensures
            r@ == Seq::<FailureView>::empty(),
    {
        let r = HandCraftingFailures { failures: Vec::new() };
        assert(r@ =~= Seq::<FailureView>::empty());
        r
    }
}

impl HandCraftingFailures {
    pub fn push(&mut self, failure: HandCraftingFailure)
        ensures
            final(self)@ == old(self)@.push(failure@),
    {
        self.failures.push(failure);
        assert(self@ =~= old(self)@.push(failure@));
    }

    pub fn len(&self) -> (r: usize)
        ensures
            r == self@.len(),
    {
        self.failures.len()
    }

    pub fn is_empty(&self) -> (r: bool)
        ensures
            r == (self@.len() == 0),
    {
        self.failures.len() == 0
    }

    pub fn failures(&self) -> (r: &[HandCraftingFailure])
        ensures
            r@.map_values(|f: HandCraftingFailure| f@) == self@,
    {
        self.failures.as_slice()
    }
}

/// The ingredients offered by the first `n` stacks, each with its item's material
/// class, or the first stack's item that has no definition.
pub open spec fn ingredients_upto(stacks: Seq<StackView>, definitions: Seq<CraftingDefView>, n: int) -> Result<Seq<IngredientView>, Seq<char>>
    decreases n,
{
    if n <= 0 {
        Ok(Seq::empty())
    } else {
        match ingredients_upto(stacks, definitions, n - 1) {
            Err(item) => Err(item),
            Ok(found) => match lookup(definitions, stacks[n - 1].item) {
                None => Err(stacks[n - 1].item),
                Some(d) => Ok(found.push(IngredientView {
                    item: stacks[n - 1].item,
                    material_class: d.material_class,
                    quantity: stacks[n - 1].quantity,
                })),
            },
        }
    }
}

/// The ingredients offered by all held stacks, or the first item without a definition.
pub open spec fn ingredients_of(slots: Seq<Option<StackView>>, definitions: Seq<CraftingDefView>) -> Result<Seq<IngredientView>, Seq<char>> {
    ingredients_upto(present_stacks(slots), definitions, present_stacks(slots).len() as int)
}

/// Lists the held stacks as crafting ingredients, in slot order, or names the first
/// stack's item that has no definition.
pub fn list_ingredients(inventory: &PlayerInventory, definitions: &ItemCraftingDefinitions) -> (r: Result<Vec<AvailableIngredient>, ItemId>)
    ensures
        ingredients_of(inventory@, definitions@) matches Err(item) ==> (r matches Err(id) && id@ == item),
        ingredients_of(inventory@, definitions@) matches Ok(found) ==> (r matches Ok(list) && ingredient_views(list@) == found),
{
    let stacks = inventory.item_stacks();
    let ghost sv = stacks@.map_values(|s: ItemStack| s@);
    let n = stacks.len();
    let mut available: Vec<AvailableIngredient> = Vec::new();
    assert(ingredient_views(available@) =~= Seq::<IngredientView>::empty());
    let mut i: usize = 0;
    while i < n
        invariant
            n == stacks@.len(),
            sv == stacks@.map_values(|s: ItemStack| s@),
            sv == present_stacks(inventory@),
            i <= n,
            ingredients_upto(sv, definitions@, i as int) == Ok::<Seq<IngredientView>, Seq<char>>(ingredient_views(available@)),
        decreases n - i,
    {
        let stack = &stacks[i];
        assert(sv[i as int] == stack@);
        match definitions.get(stack.item_id()) {
            None => {
                proof {
                    lemma_ingredients_error_stable(sv, definitions@, i + 1, n as int);
                }
                return Err(stack.item_id().clone());
            },
            Some(definition) => {
                let ghost before = available@;
                available.push(AvailableIngredient::new(stack.item_id().clone(), definition.material_class(), stack.quantity()));
                assert(ingredient_views(available@) =~= ingredient_views(before).push(available@[before.len() as int]@));
            },
        }
        i = i + 1;
    }
    Ok(available)
}

/// Lists the held stacks as crafting ingredients, in slot order. A stack whose item
/// has no definition records a failure and yields nothing.
pub fn available_ingredients(
    inventory: &PlayerInventory,
    definitions: &ItemCraftingDefinitions,
    failures: &mut HandCraftingFailures,
) -> (r: Option<Vec<AvailableIngredient>>)
    ensures
        ingredients_of(inventory@, definitions@) matches Err(item) ==> r is None
            && final(failures)@ == old(failures)@.push(FailureView::MissingItemDefinition(item)),
        ingredients_of(inventory@, definitions@) matches Ok(found) ==> (r matches Some(list)
            && ingredient_views(list@) == found && final(failures)@ == old(failures)@),
{
    match list_ingredients(inventory, definitions) {
        Ok(list) => Some(list),
        Err(item_id) => {
            failures.push(HandCraftingFailure::MissingItemDefinition(item_id));
            None
        },
    }
}

/// Once an item without a definition was met, later stacks change nothing.
proof fn lemma_ingredients_error_stable(stacks: Seq<StackView>, definitions: Seq<CraftingDefView>, k: int, m: int)
    requires
        0 <= k <= m,
        ingredients_upto(stacks, definitions, k) is Err,
    ensures
        ingredients_upto(stacks, definitions, m) == ingredients_upto(stacks, definitions, k),
    decreases m - k,
{
    if m > k {
        lemma_ingredients_error_stable(stacks, definitions, k, m - 1);
    }
}


/// The inventory and the failures recorded while a craft is carried out.
pub struct CraftState {
    pub slots: Seq<Option<StackView>>,
    pub failures: Seq<FailureView>,
}

/// Removing the first `k` claimed stacks from the inventory, in order; a removal the
/// inventory cannot cover records a failure and changes nothing.
pub open spec fn consume_upto(slots: Seq<Option<StackView>>, consumed: Seq<StackView>, k: int) -> CraftState
    decreases k,
{
    if k <= 0 {
        CraftState { slots, failures: Seq::empty() }
    } else {
        let s = consume_upto(slots, consumed, k - 1);
        let c = consumed[k - 1];
        let total = total_of(s.slots, c.item);
        if total < c.quantity {
            CraftState {
                slots: s.slots,
                failures: s.failures.push(FailureView::Inventory(InventoryError::InsufficientQuantity {
                    available: total as u16,
                    requested: c.quantity,
                })),
            }
        } else {
            CraftState { slots: removed(s.slots, c.item, c.quantity), failures: s.failures }
        }
    }
}

/// The outcome of one hand craft: list the held stacks as ingredients, plan the
/// recipe, find the output's definition, remove the claimed stacks, then add the
/// output under its stack limit. Each step that fails records its failure and ends
/// the craft; the output that does not fit is recorded as overflow.
pub open spec fn craft_outcome(slots: Seq<Option<StackView>>, definitions: Seq<CraftingDefView>, recipe: RecipeView) -> CraftState {
    match ingredients_of(slots, definitions) {
        Err(item) => CraftState { slots, failures: seq![FailureView::MissingItemDefinition(item)] },
        Ok(ingredients) => {
            let p = plan(recipe.inputs, ingredients);
            match p.failure {
                Some(f) => CraftState {
                    slots,
                    failures: seq![FailureView::Crafting(CraftingError::MissingInput {
                        input_index: f.0 as usize,
                        required: f.1,
                        available: f.2 as u16,
                    })],
                },
                None => match lookup(definitions, recipe.output.item) {
                    None => CraftState { slots, failures: seq![FailureView::MissingItemDefinition(recipe.output.item)] },
                    Some(d) => {
                        let c = consume_upto(slots, p.consumed, p.consumed.len() as int);
                        let a = added(c.slots, recipe.output.item, recipe.output.quantity, d.stack_limit);
                        CraftState {
                            slots: a.slots,
                            failures: if a.remaining > 0 {
                                c.failures.push(FailureView::InventoryFull { item: recipe.output.item, overflow: a.remaining as u16 })
                            } else {
                                c.failures
                            },
                        }
                    },
                },
            }
        },
    }
}

/// The inputs on which a craft runs to its end: the availability sums of the plan fit
/// in `u16`, and, when the plan succeeds, the totals of the claimed items fit in `u16`
/// and the output's definition has a positive stack limit.
pub open spec fn craft_runs(slots: Seq<Option<StackView>>, definitions: Seq<CraftingDefView>, recipe: RecipeView) -> bool {
    match ingredients_of(slots, definitions) {
        Err(_) => true,
        Ok(ingredients) => {
            let p = plan(recipe.inputs, ingredients);
            &&& !p.overflow
            &&& p.failure is None ==> {
                &&& forall|k: int| 0 <= k < p.consumed.len() ==> total_of(slots, #[trigger] p.consumed[k].item) <= u16::MAX
                &&& lookup(definitions, recipe.output.item) matches Some(d) ==> d.stack_limit > 0
            }
        },
    }
}

/// Removals never raise a total.
proof fn lemma_consume_lowers_totals(slots: Seq<Option<StackView>>, consumed: Seq<StackView>, k: int, item: Seq<char>)
    requires
        0 <= k <= consumed.len(),
    ensures
        total_of(consume_upto(slots, consumed, k).slots, item) <= total_of(slots, item),
    decreases k,
{
    if k > 0 {
        lemma_consume_lowers_totals(slots, consumed, k - 1, item);
        let s = consume_upto(slots, consumed, k - 1);
        let c = consumed[k - 1];
        if total_of(s.slots, c.item) >= c.quantity {
            if item == c.item {
                assert(c.item.push('#').len() != c.item.len());
                crate::inventory::law_remove_takes_exactly(s.slots, c.item, c.quantity, c.item.push('#'));
            } else {
                crate::inventory::law_remove_takes_exactly(s.slots, c.item, c.quantity, item);
            }
        }
    }
}

/// Applies a hand recipe to the player inventory, recording failures.
pub fn apply_craft_recipe(
    recipe: &Recipe,
    definitions: &ItemCraftingDefinitions,
    inventory: &mut PlayerInventory,
    failures: &mut HandCraftingFailures,
)
    requires
        craft_runs(old(inventory)@, definitions@, recipe@),
    ensures
        final(inventory)@ == craft_outcome(old(inventory)@, definitions@, recipe@).slots,
        final(failures)@ == old(failures)@ + craft_outcome(old(inventory)@, definitions@, recipe@).failures,
{
    let ghost slots0 = inventory@;
    let ghost failures0 = failures@;
    let available = match available_ingredients(inventory, definitions, failures) {
        Some(list) => list,
        None => {
            assert(failures@ =~= failures0 + craft_outcome(slots0, definitions@, recipe@).failures);
            return;
        },
    };
    let plan = match recipe.match_inputs(available.as_slice()) {
        Ok(plan) => plan,
        Err(error) => {
            failures.push(HandCraftingFailure::Crafting(error));
            assert(failures@ =~= failures0 + craft_outcome(slots0, definitions@, recipe@).failures);
            return;
        },
    };
    let output_definition = match definitions.get(plan.output().item_id()) {
        Some(definition) => definition,
        None => {
            failures.push(HandCraftingFailure::MissingItemDefinition(plan.output().item_id().clone()));
            assert(failures@ =~= failures0 + craft_outcome(slots0, definitions@, recipe@).failures);
            return;
        },
    };
    let output_stack_limit = output_definition.stack_limit();
    let ghost consumed_view = plan@.consumed;
    let consumed = plan.consumed();
    let n = consumed.len();
    let mut k: usize = 0;
    while k < n
        invariant
            n == consumed@.len(),
            consumed@.map_values(|c: crate::crafting::CraftInputConsumption| c@) == consumed_view,
            forall|t: int| 0 <= t < consumed_view.len() ==> total_of(slots0, #[trigger] consumed_view[t].item) <= u16::MAX,
            k <= n,
            inventory@ == consume_upto(slots0, consumed_view, k as int).slots,
            failures@ == failures0 + consume_upto(slots0, consumed_view, k as int).failures,
        decreases n - k,
    {
        let c = &consumed[k];
        assert(consumed_view[k as int] == c@);
        proof {
            lemma_consume_lowers_totals(slots0, consumed_view, k as int, c@.item);
        }
        match inventory.remove_items(c.item_id(), c.quantity()) {
            Ok(()) => {},
            Err(error) => {
                failures.push(HandCraftingFailure::Inventory(error));
            },
        }
        assert(failures@ =~= failures0 + consume_upto(slots0, consumed_view, k + 1).failures);
        k = k + 1;
    }
    let overflow = inventory.add_items(plan.output().item_id().clone(), plan.output().quantity(), output_stack_limit);
    if overflow > 0 {
        failures.push(HandCraftingFailure::InventoryFull { item_id: plan.output().item_id().clone(), overflow });
    }
    assert(failures@ =~= failures0 + craft_outcome(slots0, definitions@, recipe@).failures);
}


/// The ingredients listed from the held stacks are those stacks, in order.
proof fn lemma_ingredients_follow_stacks(stacks: Seq<StackView>, definitions: Seq<CraftingDefView>, n: int)
    requires
        0 <= n <= stacks.len(),
        ingredients_upto(stacks, definitions, n) is Ok,
    ensures
        ({
            let found = ingredients_upto(stacks, definitions, n)->Ok_0;
            &&& found.len() == n
            &&& forall|j: int| 0 <= j < n ==> (#[trigger] found[j]).item == stacks[j].item && found[j].quantity == stacks[j].quantity
        }),
    decreases n,
{
    if n > 0 {
        lemma_ingredients_follow_stacks(stacks, definitions, n - 1);
    }
}

/// What the listed ingredients offer of an item is what the first `n` stacks hold of it.
proof fn lemma_offer_is_stack_total(stacks: Seq<StackView>, ingredients: Seq<IngredientView>, item: Seq<char>, n: int)
    requires
        0 <= n <= stacks.len(),
        ingredients.len() == stacks.len(),
        forall|j: int| 0 <= j < stacks.len() ==> (#[trigger] ingredients[j]).item == stacks[j].item && ingredients[j].quantity == stacks[j].quantity,
    ensures
        item_amount(ingredients, offered(ingredients), item, n) == item_claims(stacks.take(n), item),
    decreases n,
{
    if n > 0 {
        lemma_offer_is_stack_total(stacks, ingredients, item, n - 1);
        assert(stacks.take(n).drop_last() =~= stacks.take(n - 1));
    } else {
        assert(stacks.take(0).len() == 0);
    }
}

/// A prefix total does not depend on the slots after the prefix.
proof fn lemma_total_upto_prefix(slots: Seq<Option<StackView>>, item: Seq<char>, n: int)
    requires
        0 <= n < slots.len(),
    ensures
        total_upto(slots, item, n) == total_upto(slots.drop_last(), item, n),
    decreases n,
{
    if n > 0 {
        lemma_total_upto_prefix(slots, item, n - 1);
    }
}

/// The held stacks add up to the inventory's totals.
pub proof fn lemma_stacks_total(slots: Seq<Option<StackView>>, item: Seq<char>)
    ensures
        item_claims(present_stacks(slots), item) == total_of(slots, item),
    decreases slots.len(),
{
    if slots.len() > 0 {
        let rest = slots.drop_last();
        lemma_stacks_total(rest, item);
        lemma_total_upto_prefix(slots, item, slots.len() - 1);
        match slots.last() {
            Some(stack) => {
                assert(present_stacks(slots) == present_stacks(rest).push(stack));
                assert(present_stacks(rest).push(stack).drop_last() =~= present_stacks(rest));
            },
            None => {},
        }
    }
}

/// Claims over a prefix are at most the claims over the whole.
proof fn lemma_item_claims_prefix(stacks: Seq<StackView>, item: Seq<char>, k: int)
    requires
        0 <= k <= stacks.len(),
    ensures
        item_claims(stacks.take(k), item) <= item_claims(stacks, item),
    decreases stacks.len() - k,
{
    if k < stacks.len() {
        lemma_item_claims_prefix(stacks, item, k + 1);
        assert(stacks.take(k + 1).drop_last() =~= stacks.take(k));
    } else {
        assert(stacks.take(k) =~= stacks);
    }
}

/// Removing claims that the inventory covers item by item never fails, and lowers
/// each item's total by exactly what was claimed of it.
proof fn lemma_consume_covered(slots: Seq<Option<StackView>>, consumed: Seq<StackView>, k: int)
    requires
        0 <= k <= consumed.len(),
        forall|item: Seq<char>| #[trigger] item_claims(consumed, item) <= total_of(slots, item),
    ensures
        consume_upto(slots, consumed, k).failures.len() == 0,
        forall|item: Seq<char>| #[trigger] total_of(consume_upto(slots, consumed, k).slots, item)
            == total_of(slots, item) - item_claims(consumed.take(k), item),
    decreases k,
{
    if k > 0 {
        lemma_consume_covered(slots, consumed, k - 1);
        let s = consume_upto(slots, consumed, k - 1);
        let c = consumed[k - 1];
        assert(consumed.take(k).drop_last() =~= consumed.take(k - 1));
        lemma_item_claims_prefix(consumed, c.item, k);
        assert(total_of(s.slots, c.item) >= c.quantity);
        assert forall|item: Seq<char>| #[trigger] total_of(consume_upto(slots, consumed, k).slots, item)
            == total_of(slots, item) - item_claims(consumed.take(k), item) by {
            if item == c.item {
                assert(c.item.push('#').len() != c.item.len());
                crate::inventory::law_remove_takes_exactly(s.slots, c.item, c.quantity, c.item.push('#'));
            } else {
                crate::inventory::law_remove_takes_exactly(s.slots, c.item, c.quantity, item);
            }
        }
    } else {
        assert forall|item: Seq<char>| #[trigger] total_of(consume_upto(slots, consumed, k).slots, item)
            == total_of(slots, item) - item_claims(consumed.take(k), item) by {
            assert(consumed.take(0).len() == 0);
        }
    }
}

/// A craft planned from the player's own stacks can always be carried out: removing
/// the claimed stacks never fails and lowers each item's total by exactly what the
/// plan claims of it; so, once the output has a definition, the only failure a
/// successful plan can record is output that does not fit.
pub proof fn law_craft_removes_what_plan_claims(slots: Seq<Option<StackView>>, definitions: Seq<CraftingDefView>, recipe: RecipeView)
    requires
        ingredients_of(slots, definitions) is Ok,
        plan(recipe.inputs, ingredients_of(slots, definitions)->Ok_0).failure is None,
    ensures
        ({
            let p = plan(recipe.inputs, ingredients_of(slots, definitions)->Ok_0);
            let c = consume_upto(slots, p.consumed, p.consumed.len() as int);
            &&& c.failures.len() == 0
            &&& forall|item: Seq<char>| #[trigger] total_of(c.slots, item) == total_of(slots, item) - item_claims(p.consumed, item)
            &&& lookup(definitions, recipe.output.item) is Some ==> {
                let d = lookup(definitions, recipe.output.item)->0;
                let a = added(c.slots, recipe.output.item, recipe.output.quantity, d.stack_limit);
                &&& craft_outcome(slots, definitions, recipe).slots == a.slots
                &&& a.remaining == 0 ==> craft_outcome(slots, definitions, recipe).failures.len() == 0
                &&& a.remaining > 0 ==> craft_outcome(slots, definitions, recipe).failures == seq![
                    FailureView::InventoryFull { item: recipe.output.item, overflow: a.remaining as u16 },
                ]
            }
        }),
{
    let stacks = present_stacks(slots);
    let ingredients = ingredients_of(slots, definitions)->Ok_0;
    let p = plan(recipe.inputs, ingredients);
    lemma_ingredients_follow_stacks(stacks, definitions, stacks.len() as int);
    assert forall|item: Seq<char>| #[trigger] item_claims(p.consumed, item) <= total_of(slots, item) by {
        crate::crafting::law_plan_claims_within_offer(recipe.inputs, ingredients, item);
        lemma_offer_is_stack_total(stacks, ingredients, item, stacks.len() as int);
        assert(stacks.take(stacks.len() as int) =~= stacks);
        lemma_stacks_total(slots, item);
    }
    lemma_consume_covered(slots, p.consumed, p.consumed.len() as int);
    assert(p.consumed.take(p.consumed.len() as int) =~= p.consumed);
    let c = consume_upto(slots, p.consumed, p.consumed.len() as int);
    assert(c.failures =~= Seq::<FailureView>::empty());
}


/// A craft that stops before removing anything leaves the inventory as it was and
/// records exactly one failure: when a held item has no definition, when the plan
/// is short of an input, or when the output item has no definition.
pub proof fn law_abandoned_craft_keeps_inventory(slots: Seq<Option<StackView>>, definitions: Seq<CraftingDefView>, recipe: RecipeView)
    requires
        ingredients_of(slots, definitions) is Err
            || plan(recipe.inputs, ingredients_of(slots, definitions)->Ok_0).failure is Some
            || lookup(definitions, recipe.output.item) is None,
    ensures
        craft_outcome(slots, definitions, recipe).slots == slots,
        craft_outcome(slots, definitions, recipe).failures.len() == 1,
        ingredients_of(slots, definitions) is Ok
            && plan(recipe.inputs, ingredients_of(slots, definitions)->Ok_0).failure is None
            && lookup(definitions, recipe.output.item) is None
            ==> craft_outcome(slots, definitions, recipe).failures == seq![FailureView::MissingItemDefinition(recipe.output.item)],
{
}

/// Whether a hand craft runs to its end on these inputs (see `craft_runs`); the
/// runtime shell checks this before applying a craft.
pub fn craft_runs_check(recipe: &Recipe, definitions: &ItemCraftingDefinitions, inventory: &PlayerInventory) -> (r: bool)
    ensures
        r == craft_runs(inventory@, definitions@, recipe@),
{
    let available = match list_ingredients(inventory, definitions) {
        Ok(list) => list,
        Err(_) => return true,
    };
    match recipe.plan_checked(available.as_slice()) {
        None => false,
        Some(Err(_)) => true,
        Some(Ok(plan)) => {
            let ghost consumed_view = plan@.consumed;
            let ghost p = crate::crafting::plan(recipe@.inputs, ingredient_views(available@));
            let consumed = plan.consumed();
            let n = consumed.len();
            let mut k: usize = 0;
            while k < n
                invariant
                    n == consumed@.len(),
                    consumed@.map_values(|c: crate::crafting::CraftInputConsumption| c@) == consumed_view,
                    ingredients_of(inventory@, definitions@) == Ok::<Seq<IngredientView>, Seq<char>>(ingredient_views(available@)),
                    p == crate::crafting::plan(recipe@.inputs, ingredient_views(available@)),
                    !p.overflow,
                    p.failure is None,
                    p.consumed == consumed_view,
                    k <= n,
                    forall|t: int| 0 <= t < k ==> total_of(inventory@, #[trigger] consumed_view[t].item) <= u16::MAX,
                decreases n - k,
            {
                assert(consumed_view[k as int] == consumed@[k as int]@);
                if !inventory.total_fits(consumed[k].item_id()) {
                    return false;
                }
                k = k + 1;
            }
            match definitions.get(plan.output().item_id()) {
                Some(definition) => definition.stack_limit() > 0,
                None => true,
            }
        },
    }
}

} // verus!
