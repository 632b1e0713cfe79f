//! Pure recipe matching and craft result planning.

use vstd::prelude::*;

use crate::ids::{IdError, ItemId, RecipeId};
use crate::inventory::{min_int, ItemStack, StackView};
use crate::item::MaterialClass;
use crate::text::{decimal, owned, push_decimal, push_str};

verus! {

/// Selector for a required recipe input.
#[derive(Debug, Clone, PartialEq, Eq)]
pub enum RecipeInputKind {
    ExactItem(ItemId),
    MaterialClass(MaterialClass),
}

/// What an input selector accepts.
pub enum InputKindView {
    ExactItem(Seq<char>),
    MaterialClass(MaterialClass),
}

impl View for RecipeInputKind {
    type V = InputKindView;

    open spec fn view(&self) -> InputKindView {
        match self {
            RecipeInputKind::ExactItem(id) => InputKindView::ExactItem(id@),
            RecipeInputKind::MaterialClass(class) => InputKindView::MaterialClass(*class),
        }
    }
}

/// One required recipe input, either exact item ID or material class.
#[derive(Debug, Clone, PartialEq, Eq)]
pub struct RecipeInput {
    kind: RecipeInputKind,
    quantity: u16,
}

/// What a recipe input requires.
pub struct InputView {
    pub kind: InputKindView,
    pub quantity: u16,
}

impl View for RecipeInput {
    type V = InputView;

    closed spec fn view(&self) -> InputView {
        InputView { kind: self.kind@, quantity: self.quantity }
    }
}

/// Available item quantity with its material class for matching flexible recipes.
#[derive(Debug, Clone, PartialEq, Eq)]
pub struct AvailableIngredient {
    item_id: ItemId,
    material_class: MaterialClass,
    quantity: u16,
}

/// What an available ingredient offers.
pub struct IngredientView {
    pub item: Seq<char>,
    pub material_class: MaterialClass,
    pub quantity: u16,
}

impl View for AvailableIngredient {
    type V = IngredientView;

    closed spec fn view(&self) -> IngredientView {
        IngredientView { item: self.item_id@, material_class: self.material_class, quantity: self.quantity }
    }
}

/// Whether an ingredient satisfies an input's selector.
pub open spec fn input_accepts(input: InputView, ingredient: IngredientView) -> bool {
    match input.kind {
        InputKindView::ExactItem(item) => item == ingredient.item,
        InputKindView::MaterialClass(class) => class == ingredient.material_class,
    }
}

/// The state of matching one input after visiting some ingredients: the quantities
/// still unclaimed, how many the input still needs, the sum of the unclaimed
/// quantities of the matching ingredients visited, what was claimed, whether the
/// input was satisfied, and whether that sum ever exceeded `u16::MAX`.
pub struct ScanState {
    pub remaining: Seq<int>,
    pub needed: int,
    pub available: int,
    pub consumed: Seq<StackView>,
    pub satisfied: bool,
    pub overflow: bool,
}

/// Matching one input against ingredient `j`: a matching ingredient adds what it
/// still has to the reported availability and gives up as much as is still needed.
pub open spec fn scan_step(s: ScanState, input: InputView, ingredients: Seq<IngredientView>, j: int) -> ScanState {
    if s.satisfied || !input_accepts(input, ingredients[j]) {
        s
    } else {
        let available = s.available + s.remaining[j];
        let taken = min_int(s.needed, s.remaining[j]);
        if taken == 0 {
            ScanState {
                remaining: s.remaining,
                needed: s.needed,
                available,
                consumed: s.consumed,
                satisfied: s.satisfied,
                overflow: s.overflow || available > u16::MAX,
            }
        } else {
            ScanState {
                remaining: s.remaining.update(j, s.remaining[j] - taken),
                needed: s.needed - taken,
                available,
                consumed: s.consumed.push(StackView { item: ingredients[j].item, quantity: taken as u16 }),
                satisfied: s.needed - taken == 0,
                overflow: s.overflow || available > u16::MAX,
            }
        }
    }
}

/// Matching one input against the first `j` ingredients, starting from `remaining`.
pub open spec fn scan_upto(input: InputView, ingredients: Seq<IngredientView>, remaining: Seq<int>, j: int) -> ScanState
    decreases j,
{
    if j <= 0 {
        ScanState {
            remaining,
            needed: input.quantity as int,
            available: 0,
            consumed: Seq::empty(),
            satisfied: false,
            overflow: false,
        }
    } else {
        scan_step(scan_upto(input, ingredients, remaining, j - 1), input, ingredients, j - 1)
    }
}

/// Matching one input against all ingredients.
pub open spec fn scan(input: InputView, ingredients: Seq<IngredientView>, remaining: Seq<int>) -> ScanState {
    scan_upto(input, ingredients, remaining, ingredients.len() as int)
}

/// The state of planning a craft after the first inputs: unclaimed quantities,
/// claimed stacks, the first input that could not be met (its index, required and
/// available quantities), and whether a `u16` availability sum overflowed.
pub struct PlanState {
    pub remaining: Seq<int>,
    pub consumed: Seq<StackView>,
    pub failure: Option<(int, u16, int)>,
    pub overflow: bool,
}

/// The quantities that the ingredients offer.
pub open spec fn offered(ingredients: Seq<IngredientView>) -> Seq<int> {
    Seq::new(ingredients.len(), |j: int| ingredients[j].quantity as int)
}

/// Planning after the first `k` inputs, each input claiming from what earlier ones left.
pub open spec fn plan_upto(inputs: Seq<InputView>, ingredients: Seq<IngredientView>, k: int) -> PlanState
    decreases k,
{
    if k <= 0 {
        PlanState { remaining: offered(ingredients), consumed: Seq::empty(), failure: None, overflow: false }
    } else {
        let p = plan_upto(inputs, ingredients, k - 1);
        if p.failure is Some {
            p
        } else {
            let s = scan(inputs[k - 1], ingredients, p.remaining);
            PlanState {
                remaining: s.remaining,
                consumed: p.consumed + s.consumed,
                failure: if s.needed != 0 { Some((k - 1, inputs[k - 1].quantity, s.available)) } else { None },
                overflow: p.overflow || s.overflow,
            }
        }
    }
}

/// Planning over all inputs of a recipe.
pub open spec fn plan(inputs: Seq<InputView>, ingredients: Seq<IngredientView>) -> PlanState {
    plan_upto(inputs, ingredients, inputs.len() as int)
}

/// Quantity to remove from a specific item stack as part of a craft.
#[derive(Debug, Clone, PartialEq, Eq)]
pub struct CraftInputConsumption {
    item_id: ItemId,
    quantity: u16,
}

impl View for CraftInputConsumption {
    type V = StackView;

    closed spec fn view(&self) -> StackView {
        StackView { item: self.item_id@, quantity: self.quantity }
    }
}

/// Pure craft result plan: consume these inputs, then grant this output.
#[derive(Debug, Clone, PartialEq, Eq)]
pub struct CraftPlan {
    consumed: Vec<CraftInputConsumption>,
    output: ItemStack,
}

/// What a craft plan states.
pub struct CraftPlanView {
    pub consumed: Seq<StackView>,
    pub output: StackView,
}

impl View for CraftPlan {
    type V = CraftPlanView;

    closed spec fn view(&self) -> CraftPlanView {
        CraftPlanView { consumed: self.consumed@.map_values(|c: CraftInputConsumption| c@), output: self.output@ }
    }
}

/// Crafting operation failure.
#[derive(Debug, Clone, PartialEq, Eq)]
pub enum CraftingError {
    InvalidRecipeId(IdError),
    InvalidQuantity,
    MissingInput { input_index: usize, required: u16, available: u16 },
}

impl CraftingError {
    /// The error as a message.
    pub fn to_string(&self) -> (r: String)
        ensures
            r@ == match *self {
                CraftingError::InvalidRecipeId(IdError::Empty { kind }) => "invalid recipe id: "@ + kind@ + " cannot be empty"@,
                CraftingError::InvalidQuantity => "recipe quantities must be greater than zero"@,
                CraftingError::MissingInput { input_index, required, available } => "missing recipe input "@
                    + decimal(input_index as u64) + ": required "@ + decimal(required as u64) + ", available "@
                    + decimal(available as u64),
            },
    {
        match self {
            CraftingError::InvalidRecipeId(error) => {
                let mut out = owned("invalid recipe id: ");
                let inner = error.to_string();
                push_str(&mut out, inner.as_str());
                out
            },
            CraftingError::InvalidQuantity => owned("recipe quantities must be greater than zero"),
            CraftingError::MissingInput { input_index, required, available } => {
                let mut out = owned("missing recipe input ");
                push_decimal(&mut out, *input_index as u64);
                push_str(&mut out, ": required ");
                push_decimal(&mut out, *required as u64);
                push_str(&mut out, ", available ");
                push_decimal(&mut out, *available as u64);
                out
            },
        }
    }
}

/// A pure crafting recipe with inputs and one item output.
#[derive(Debug, Clone, PartialEq, Eq)]
pub struct Recipe {
    id: RecipeId,
    inputs: Vec<RecipeInput>,
    output: ItemStack,
}

/// What a recipe states.
pub struct RecipeView {
    pub id: Seq<char>,
    pub inputs: Seq<InputView>,
    pub output: StackView,
}

impl View for Recipe {
    type V = RecipeView;

    closed spec fn view(&self) -> RecipeView {
        RecipeView { id: self.id@, inputs: self.inputs@.map_values(|i: RecipeInput| i@), output: self.output@ }
    }
}


/// Every scan keeps the number of ingredients.
proof fn lemma_scan_length(input: InputView, ingredients: Seq<IngredientView>, remaining: Seq<int>, j: int)
    requires
        0 <= j <= ingredients.len(),
        remaining.len() == ingredients.len(),
    ensures
        scan_upto(input, ingredients, remaining, j).remaining.len() == remaining.len(),
    decreases j,
{
    if j > 0 {
        lemma_scan_length(input, ingredients, remaining, j - 1);
    }
}

/// An overflow, once it happened, stays recorded.
proof fn lemma_scan_overflow_monotone(input: InputView, ingredients: Seq<IngredientView>, remaining: Seq<int>, j: int, m: int)
    requires
        0 <= j <= m,
    ensures
        scan_upto(input, ingredients, remaining, j).overflow ==> scan_upto(input, ingredients, remaining, m).overflow,
    decreases m - j,
{
    if m > j {
        lemma_scan_overflow_monotone(input, ingredients, remaining, j, m - 1);
    }
}

/// Once the input is satisfied, later ingredients change nothing.
proof fn lemma_scan_satisfied_stable(input: InputView, ingredients: Seq<IngredientView>, remaining: Seq<int>, j: int, m: int)
    requires
        0 <= j <= m,
        scan_upto(input, ingredients, remaining, j).satisfied,
    ensures
        scan_upto(input, ingredients, remaining, m) == scan_upto(input, ingredients, remaining, j),
    decreases m - j,
{
    if m > j {
        lemma_scan_satisfied_stable(input, ingredients, remaining, j, m - 1);
    }
}

/// Planning keeps the number of ingredients.
proof fn lemma_plan_length(inputs: Seq<InputView>, ingredients: Seq<IngredientView>, k: int)
    requires
        0 <= k <= inputs.len(),
    ensures
        plan_upto(inputs, ingredients, k).remaining.len() == ingredients.len(),
    decreases k,
{
    if k > 0 {
        lemma_plan_length(inputs, ingredients, k - 1);
        let p = plan_upto(inputs, ingredients, k - 1);
        if p.failure is None {
            lemma_scan_length(inputs[k - 1], ingredients, p.remaining, ingredients.len() as int);
        }
    }
}

/// An overflow in planning, once it happened, stays recorded.
proof fn lemma_plan_overflow_monotone(inputs: Seq<InputView>, ingredients: Seq<IngredientView>, k: int, m: int)
    requires
        0 <= k <= m,
    ensures
        plan_upto(inputs, ingredients, k).overflow ==> plan_upto(inputs, ingredients, m).overflow,
    decreases m - k,
{
    if m > k {
        lemma_plan_overflow_monotone(inputs, ingredients, k, m - 1);
    }
}

/// Once an input could not be met, later inputs change nothing.
proof fn lemma_plan_failure_stable(inputs: Seq<InputView>, ingredients: Seq<IngredientView>, k: int, m: int)
    requires
        0 <= k <= m,
        plan_upto(inputs, ingredients, k).failure is Some,
    ensures
        plan_upto(inputs, ingredients, m) == plan_upto(inputs, ingredients, k),
    decreases m - k,
{
    if m > k {
        lemma_plan_failure_stable(inputs, ingredients, k, m - 1);
    }
}

impl RecipeInput {
    /// An input satisfied only by the given item.
    pub fn exact_item(item_id: ItemId, quantity: u16) -> (r: Self)
        ensures
            r@ == (InputView { kind: InputKindView::ExactItem(item_id@), quantity }),
    {
        RecipeInput { kind: RecipeInputKind::ExactItem(item_id), quantity }
    }

    /// An input satisfied by any item of the material class.
    pub fn material_class(material_class: MaterialClass, quantity: u16) -> (r: Self)
        ensures
            r@ == (InputView { kind: InputKindView::MaterialClass(material_class), quantity }),
    {
        RecipeInput { kind: RecipeInputKind::MaterialClass(material_class), quantity }
    }

    pub fn kind(&self) -> (r: &RecipeInputKind)
        ensures
            r@ == self@.kind,
    {
        &self.kind
    }

    pub fn quantity(&self) -> (r: u16)
        ensures
            r == self@.quantity,
    {
        self.quantity
    }

    fn matches(&self, ingredient: &AvailableIngredient) -> (r: bool)
        ensures
            r == input_accepts(self@, ingredient@),
    {
        match &self.kind {
            RecipeInputKind::ExactItem(item_id) => *item_id == ingredient.item_id,
            RecipeInputKind::MaterialClass(material_class) => *material_class == ingredient.material_class,
        }
    }
}

impl AvailableIngredient {
    pub fn new(item_id: ItemId, material_class: MaterialClass, quantity: u16) -> (r: Self)
        ensures
            r@ == (IngredientView { item: item_id@, material_class, quantity }),
    {
        AvailableIngredient { item_id, material_class, quantity }
    }

    pub fn item_id(&self) -> (r: &ItemId)
        ensures
            r@ == self@.item,
    {
        &self.item_id
    }

    pub fn material_class(&self) -> (r: MaterialClass)
        ensures
            r == self@.material_class,
    {
        self.material_class
    }

    pub fn quantity(&self) -> (r: u16)
        ensures
            r == self@.quantity,
    {
        self.quantity
    }
}

impl CraftInputConsumption {
    pub fn new(item_id: ItemId, quantity: u16) -> (r: Self)
        ensures
            r@ == (StackView { item: item_id@, quantity }),
    {
        CraftInputConsumption { item_id, quantity }
    }

    pub fn item_id(&self) -> (r: &ItemId)
        ensures
            r@ == self@.item,
    {
        &self.item_id
    }

    pub fn quantity(&self) -> (r: u16)
        ensures
            r == self@.quantity,
    {
        self.quantity
    }
}

impl CraftPlan {
    pub fn consumed(&self) -> (r: &[CraftInputConsumption])
        ensures
            r@.map_values(|c: CraftInputConsumption| c@) == self@.consumed,
    {
        self.consumed.as_slice()
    }

    pub fn output(&self) -> (r: &ItemStack)
        ensures
            r@ == self@.output,
    {
        &self.output
    }
}

/// The views of the ingredients.
pub open spec fn ingredient_views(available: Seq<AvailableIngredient>) -> Seq<IngredientView> {
    available.map_values(|a: AvailableIngredient| a@)
}

impl Recipe {
    /// Creates a recipe. A zero output quantity is rejected first, then an id that
    /// trims to the empty string.
    pub fn new(id: &str, inputs: Vec<RecipeInput>, output_item: ItemId, output_quantity: u16) -> (r: Result<Self, CraftingError>)
        ensures
            output_quantity == 0 ==> r == Err::<Self, CraftingError>(CraftingError::InvalidQuantity),
            output_quantity > 0 && crate::text::is_blank(id@) ==> (r matches Err(CraftingError::InvalidRecipeId(IdError::Empty { kind }))
                && kind@ == "RecipeId"@),
            output_quantity > 0 && !crate::text::is_blank(id@) ==> (r matches Ok(recipe) && recipe@ == (RecipeView {
                id: id@,
                inputs: inputs@.map_values(|i: RecipeInput| i@),
                output: StackView { item: output_item@, quantity: output_quantity },
            })),
    {
        if output_quantity == 0 {
            return Err(CraftingError::InvalidQuantity);
        }
        match RecipeId::new(id) {
            Ok(recipe_id) => Ok(Recipe { id: recipe_id, inputs, output: ItemStack::new(output_item, output_quantity) }),
            Err(e) => Err(CraftingError::InvalidRecipeId(e)),
        }
    }

    pub fn id(&self) -> (r: &RecipeId)
        ensures
            r@ == self@.id,
    {
        &self.id
    }

    pub fn inputs(&self) -> (r: &[RecipeInput])
        ensures
            r@.map_values(|i: RecipeInput| i@) == self@.inputs,
    {
        self.inputs.as_slice()
    }

    pub fn output(&self) -> (r: &ItemStack)
        ensures
            r@ == self@.output,
    {
        &self.output
    }

    /// Plans a craft: each input, in order, claims matching ingredients in order
    /// from what earlier inputs left; the first input that cannot be met fails the
    /// whole plan with its index, required quantity and the unclaimed quantity of
    /// the matching ingredients.
    ///
    /// That unclaimed quantity is summed in `u16`, so the sums must fit in it.
    pub fn match_inputs(&self, available: &[AvailableIngredient]) -> (r: Result<CraftPlan, CraftingError>)
        requires
            !plan(self@.inputs, ingredient_views(available@)).overflow,
        ensures
            ({
                let p = plan(self@.inputs, ingredient_views(available@));
                &&& p.failure matches Some(f) ==> r == Err::<CraftPlan, CraftingError>(CraftingError::MissingInput {
                    input_index: f.0 as usize,
                    required: f.1,
                    available: f.2 as u16,
                })
                &&& p.failure is None ==> (r matches Ok(craft) && craft@ == (CraftPlanView {
                    consumed: p.consumed,
                    output: self@.output,
                }))
            }),
    {
        match self.plan_checked(available) {
            Some(result) => result,
            None => Err(CraftingError::InvalidQuantity),
        }
    }

    /// Plans a craft like `match_inputs`, returning `None` exactly when one of the
    /// availability sums does not fit in `u16`.
    pub fn plan_checked(&self, available: &[AvailableIngredient]) -> (r: Option<Result<CraftPlan, CraftingError>>)
        ensures
            r is None <==> plan(self@.inputs, ingredient_views(available@)).overflow,
            ({
                let p = plan(self@.inputs, ingredient_views(available@));
                &&& !p.overflow ==> (p.failure matches Some(f) ==> r == Some(Err::<CraftPlan, CraftingError>(CraftingError::MissingInput {
                    input_index: f.0 as usize,
                    required: f.1,
                    available: f.2 as u16,
                })))
                &&& !p.overflow && p.failure is None ==> (r matches Some(Ok(craft)) && craft@ == (CraftPlanView {
                    consumed: p.consumed,
                    output: self@.output,
                }))
            }),
    {
        let ghost inputs = self@.inputs;
        let ghost ings = ingredient_views(available@);
        let n = available.len();
        let mut remaining: Vec<u16> = Vec::new();
        let mut j: usize = 0;
        while j < n
            invariant
                n == available@.len(),
                ings == ingredient_views(available@),
                j <= n,
                remaining@.len() == j,
                forall|t: int| 0 <= t < j ==> remaining@[t] as int == offered(ings)[t],
            decreases n - j,
        {
            assert(ings[j as int] == available@[j as int]@);
            remaining.push(available[j].quantity);
            j = j + 1;
        }
        let mut consumed: Vec<CraftInputConsumption> = Vec::new();
        let m = self.inputs.len();
        let mut k: usize = 0;
        while k < m
            invariant
                n == available@.len(),
                n == ings.len(),
                m == inputs.len(),
                m == self.inputs@.len(),
                inputs == self@.inputs,
                ings == ingredient_views(available@),
                k <= m,
                !plan_upto(inputs, ings, k as int).overflow,
                plan_upto(inputs, ings, k as int).failure is None,
                remaining@.len() == n,
                plan_upto(inputs, ings, k as int).remaining.len() == n,
                forall|t: int| 0 <= t < n ==> remaining@[t] as int == #[trigger] plan_upto(inputs, ings, k as int).remaining[t],
                consumed@.map_values(|c: CraftInputConsumption| c@) == plan_upto(inputs, ings, k as int).consumed,
            decreases m - k,
        {
            let ghost p = plan_upto(inputs, ings, k as int);
            let input = &self.inputs[k];
            let ghost iv = inputs[k as int];
            assert(iv == input@);
            let mut needed = input.quantity;
            let mut available_for_input: u16 = 0;
            let mut satisfied = false;
            let mut j: usize = 0;
            while j < n && !satisfied
                invariant
                    n == available@.len(),
                    n == ings.len(),
                    ings == ingredient_views(available@),
                    iv == input@,
                    j <= n,
                    p.remaining.len() == n,
                    p == plan_upto(inputs, ings, k as int),
                    p.failure is None,
                    !p.overflow,
                    k < m,
                    m == inputs.len(),
                    inputs == self@.inputs,
                    iv == inputs[k as int],
                    !scan_upto(iv, ings, p.remaining, j as int).overflow,
                    scan_upto(iv, ings, p.remaining, j as int).remaining.len() == n,
                    remaining@.len() == n,
                    forall|t: int| 0 <= t < n ==> remaining@[t] as int == #[trigger] scan_upto(iv, ings, p.remaining, j as int).remaining[t],
                    needed == scan_upto(iv, ings, p.remaining, j as int).needed,
                    available_for_input == scan_upto(iv, ings, p.remaining, j as int).available,
                    satisfied == scan_upto(iv, ings, p.remaining, j as int).satisfied,
                    consumed@.map_values(|c: CraftInputConsumption| c@) == p.consumed + scan_upto(iv, ings, p.remaining, j as int).consumed,
                decreases n - j,
            {
                let ghost s = scan_upto(iv, ings, p.remaining, j as int);
                assert(ings[j as int] == available@[j as int]@);
                if input.matches(&available[j]) {
                    match available_for_input.checked_add(remaining[j]) {
                        Some(sum) => {
                            available_for_input = sum;
                        },
                        None => {
                            assert(scan_upto(iv, ings, p.remaining, j + 1).overflow);
                            proof {
                                lemma_scan_overflow_monotone(iv, ings, p.remaining, j + 1, n as int);
                                assert(scan(iv, ings, p.remaining).overflow);
                                assert(plan_upto(inputs, ings, k + 1).overflow);
                                lemma_plan_overflow_monotone(inputs, ings, k + 1, m as int);
                            }
                            return None;
                        },
                    }
                    let taken = if needed < remaining[j] { needed } else { remaining[j] };
                    if taken != 0 {
                        let left = remaining[j] - taken;
                        remaining.set(j, left);
                        needed = needed - taken;
                        let ghost before = consumed@;
                        consumed.push(CraftInputConsumption::new(available[j].item_id.clone(), taken));
                        assert(consumed@.map_values(|c: CraftInputConsumption| c@)
                            =~= before.map_values(|c: CraftInputConsumption| c@).push(consumed@[before.len() as int]@));
                        satisfied = needed == 0;
                    }
                }
                proof {
                    lemma_scan_length(iv, ings, p.remaining, j + 1);
                }
                assert(p.consumed + scan_upto(iv, ings, p.remaining, j + 1).consumed
                    =~= consumed@.map_values(|c: CraftInputConsumption| c@));
                j = j + 1;
            }
            proof {
                if satisfied {
                    lemma_scan_satisfied_stable(iv, ings, p.remaining, j as int, n as int);
                }
                lemma_plan_length(inputs, ings, k + 1);
            }
            if needed != 0 {
                proof {
                    lemma_plan_failure_stable(inputs, ings, k + 1, m as int);
                }
                return Some(Err(CraftingError::MissingInput {
                    input_index: k,
                    required: input.quantity,
                    available: available_for_input,
                }));
            }
            k = k + 1;
        }
        Some(Ok(CraftPlan { consumed, output: self.output.clone() }))
    }
}


/// The unclaimed quantity of the first `j` ingredients that the input accepts.
pub open spec fn supply_upto(input: InputView, ingredients: Seq<IngredientView>, remaining: Seq<int>, j: int) -> int
    decreases j,
{
    if j <= 0 {
        0
    } else {
        supply_upto(input, ingredients, remaining, j - 1)
            + if input_accepts(input, ingredients[j - 1]) { remaining[j - 1] } else { 0 }
    }
}

/// The unclaimed quantity of all ingredients that the input accepts.
pub open spec fn supply(input: InputView, ingredients: Seq<IngredientView>, remaining: Seq<int>) -> int {
    supply_upto(input, ingredients, remaining, ingredients.len() as int)
}

/// The sum of the quantities of some stacks.
pub open spec fn sum_stacks(stacks: Seq<StackView>) -> int
    decreases stacks.len(),
{
    if stacks.len() == 0 {
        0
    } else {
        sum_stacks(stacks.drop_last()) + stacks.last().quantity
    }
}

/// The sum of some integers.
pub open spec fn sum_ints(values: Seq<int>) -> int
    decreases values.len(),
{
    if values.len() == 0 {
        0
    } else {
        sum_ints(values.drop_last()) + values.last()
    }
}

/// The sum of the quantities that the first `k` inputs require.
pub open spec fn required_upto(inputs: Seq<InputView>, k: int) -> int
    decreases k,
{
    if k <= 0 {
        0
    } else {
        required_upto(inputs, k - 1) + inputs[k - 1].quantity
    }
}

proof fn lemma_sum_stacks_concat(a: Seq<StackView>, b: Seq<StackView>)
    ensures
        sum_stacks(a + b) == sum_stacks(a) + sum_stacks(b),
    decreases b.len(),
{
    if b.len() > 0 {
        lemma_sum_stacks_concat(a, b.drop_last());
        assert((a + b).drop_last() =~= a + b.drop_last());
    } else {
        assert(a + b =~= a);
    }
}

proof fn lemma_sum_ints_update(values: Seq<int>, j: int, v: int)
    requires
        0 <= j < values.len(),
    ensures
        sum_ints(values.update(j, v)) == sum_ints(values) - values[j] + v,
    decreases values.len(),
{
    if j < values.len() - 1 {
        lemma_sum_ints_update(values.drop_last(), j, v);
        assert(values.update(j, v).drop_last() =~= values.drop_last().update(j, v));
    } else {
        assert(values.update(j, v).drop_last() =~= values.drop_last());
    }
}

/// Invariant of matching one input: claimed plus still needed is what the input
/// requires; what was claimed left the unclaimed quantities, which stay between
/// zero and what they were; before the input is satisfied, the reported
/// availability is the supply seen so far and the need is what that supply lacks.
proof fn lemma_scan_accounts(input: InputView, ingredients: Seq<IngredientView>, remaining: Seq<int>, j: int)
    requires
        0 <= j <= ingredients.len(),
        remaining.len() == ingredients.len(),
        forall|t: int| 0 <= t < remaining.len() ==> remaining[t] >= 0,
    ensures
        ({
            let s = scan_upto(input, ingredients, remaining, j);
            let q = input.quantity as int;
            let sup = supply_upto(input, ingredients, remaining, j);
            &&& s.remaining.len() == remaining.len()
            &&& forall|t: int| 0 <= t < remaining.len() ==> 0 <= #[trigger] s.remaining[t] <= remaining[t]
            &&& forall|t: int| j <= t < remaining.len() ==> #[trigger] s.remaining[t] == remaining[t]
            &&& sum_stacks(s.consumed) + s.needed == q
            &&& sum_stacks(s.consumed) + sum_ints(s.remaining) == sum_ints(remaining)
            &&& s.needed >= 0
            &&& sup >= 0
            &&& s.satisfied ==> s.needed == 0 && sup >= q
            &&& !s.satisfied ==> s.available == sup
            &&& !s.satisfied && q > 0 ==> s.needed == q - sup && s.needed > 0
            &&& q == 0 ==> s.needed == 0
        }),
    decreases j,
{
    if j > 0 {
        lemma_scan_accounts(input, ingredients, remaining, j - 1);
        let p = scan_upto(input, ingredients, remaining, j - 1);
        let t = j - 1;
        if !p.satisfied && input_accepts(input, ingredients[t]) {
            let taken = min_int(p.needed, p.remaining[t]);
            if taken != 0 {
                lemma_sum_ints_update(p.remaining, t, p.remaining[t] - taken);
                assert(p.consumed.push(StackView { item: ingredients[t].item, quantity: taken as u16 }).drop_last()
                    =~= p.consumed);
            }
        }
    }
}

/// An input fails exactly when the unclaimed quantities of the ingredients it
/// accepts add up to less than it requires; the failure then reports that sum.
pub proof fn law_input_fails_iff_short(input: InputView, ingredients: Seq<IngredientView>, remaining: Seq<int>)
    requires
        remaining.len() == ingredients.len(),
        forall|t: int| 0 <= t < remaining.len() ==> remaining[t] >= 0,
    ensures
        (scan(input, ingredients, remaining).needed != 0) <==> supply(input, ingredients, remaining) < input.quantity,
        scan(input, ingredients, remaining).needed != 0 ==> scan(input, ingredients, remaining).available
            == supply(input, ingredients, remaining),
{
    lemma_scan_accounts(input, ingredients, remaining, ingredients.len() as int);
}

/// Invariant of planning: claimed plus unclaimed is what was offered; unclaimed
/// quantities stay between zero and what was offered; while no input failed, the
/// claims add up to what the inputs so far require.
proof fn lemma_plan_accounts(inputs: Seq<InputView>, ingredients: Seq<IngredientView>, k: int)
    requires
        0 <= k <= inputs.len(),
    ensures
        ({
            let p = plan_upto(inputs, ingredients, k);
            &&& p.remaining.len() == ingredients.len()
            &&& forall|t: int| 0 <= t < ingredients.len() ==> 0 <= #[trigger] p.remaining[t] <= offered(ingredients)[t]
            &&& sum_stacks(p.consumed) + sum_ints(p.remaining) == sum_ints(offered(ingredients))
            &&& p.failure is None ==> sum_stacks(p.consumed) == required_upto(inputs, k)
        }),
    decreases k,
{
    if k > 0 {
        lemma_plan_accounts(inputs, ingredients, k - 1);
        let p = plan_upto(inputs, ingredients, k - 1);
        if p.failure is None {
            lemma_scan_accounts(inputs[k - 1], ingredients, p.remaining, ingredients.len() as int);
            let sc = scan(inputs[k - 1], ingredients, p.remaining);
            lemma_sum_stacks_concat(p.consumed, sc.consumed);
        } else {
            lemma_plan_failure_stable(inputs, ingredients, k - 1, k);
        }
    }
}

/// A successful plan claims, in total, exactly what the recipe's inputs require,
/// and never more of an ingredient than it offers.
pub proof fn law_plan_claims_what_inputs_require(inputs: Seq<InputView>, ingredients: Seq<IngredientView>)
    requires
        plan(inputs, ingredients).failure is None,
    ensures
        sum_stacks(plan(inputs, ingredients).consumed) == required_upto(inputs, inputs.len() as int),
        forall|t: int| 0 <= t < ingredients.len() ==> 0 <= #[trigger] plan(inputs, ingredients).remaining[t]
            <= ingredients[t].quantity,
        sum_stacks(plan(inputs, ingredients).consumed) + sum_ints(plan(inputs, ingredients).remaining)
            == sum_ints(offered(ingredients)),
{
    lemma_plan_accounts(inputs, ingredients, inputs.len() as int);
}

/// A plan fails at the first input that the ingredients left by earlier inputs
/// cannot meet, and reports that input's requirement and the supply it found.
pub proof fn law_plan_fails_at_first_short_input(inputs: Seq<InputView>, ingredients: Seq<IngredientView>, k: int)
    requires
        0 <= k < inputs.len(),
        plan_upto(inputs, ingredients, k).failure is None,
    ensures
        ({
            let rem = plan_upto(inputs, ingredients, k).remaining;
            let sup = supply(inputs[k], ingredients, rem);
            &&& sup < inputs[k].quantity ==> plan(inputs, ingredients).failure == Some((k, inputs[k].quantity, sup))
            &&& sup >= inputs[k].quantity ==> plan_upto(inputs, ingredients, k + 1).failure is None
        }),
{
    lemma_plan_accounts(inputs, ingredients, k);
    let rem = plan_upto(inputs, ingredients, k).remaining;
    law_input_fails_iff_short(inputs[k], ingredients, rem);
    if plan_upto(inputs, ingredients, k + 1).failure is Some {
        lemma_plan_failure_stable(inputs, ingredients, k + 1, inputs.len() as int);
    }
}


/// The total quantity of the stacks that hold `item`.
pub open spec fn item_claims(stacks: Seq<StackView>, item: Seq<char>) -> int
    decreases stacks.len(),
{
    if stacks.len() == 0 {
        0
    } else {
        item_claims(stacks.drop_last(), item) + if stacks.last().item == item { stacks.last().quantity as int } else { 0 }
    }
}

/// The quantities in `amounts` of the first `n` ingredients that are `item`.
pub open spec fn item_amount(ingredients: Seq<IngredientView>, amounts: Seq<int>, item: Seq<char>, n: int) -> int
    decreases n,
{
    if n <= 0 {
        0
    } else {
        item_amount(ingredients, amounts, item, n - 1) + if ingredients[n - 1].item == item { amounts[n - 1] } else { 0 }
    }
}

/// What the ingredients offer of `item`.
pub open spec fn item_offer(ingredients: Seq<IngredientView>, item: Seq<char>) -> int {
    item_amount(ingredients, offered(ingredients), item, ingredients.len() as int)
}

proof fn lemma_item_amount_update(ingredients: Seq<IngredientView>, amounts: Seq<int>, item: Seq<char>, j: int, v: int, n: int)
    requires
        0 <= j < amounts.len(),
        n <= amounts.len(),
    ensures
        item_amount(ingredients, amounts.update(j, v), item, n) == item_amount(ingredients, amounts, item, n)
            + if j < n && ingredients[j].item == item { v - amounts[j] } else { 0 },
    decreases n,
{
    if n > 0 {
        lemma_item_amount_update(ingredients, amounts, item, j, v, n - 1);
    }
}

proof fn lemma_item_amount_nonnegative(ingredients: Seq<IngredientView>, amounts: Seq<int>, item: Seq<char>, n: int)
    requires
        n <= amounts.len(),
        forall|t: int| 0 <= t < amounts.len() ==> amounts[t] >= 0,
    ensures
        item_amount(ingredients, amounts, item, n) >= 0,
    decreases n,
{
    if n > 0 {
        lemma_item_amount_nonnegative(ingredients, amounts, item, n - 1);
    }
}

proof fn lemma_item_claims_concat(a: Seq<StackView>, b: Seq<StackView>, item: Seq<char>)
    ensures
        item_claims(a + b, item) == item_claims(a, item) + item_claims(b, item),
    decreases b.len(),
{
    if b.len() > 0 {
        lemma_item_claims_concat(a, b.drop_last(), item);
        assert((a + b).drop_last() =~= a + b.drop_last());
    } else {
        assert(a + b =~= a);
    }
}

/// Matching one input moves quantities of each item from the unclaimed amounts to
/// the claims, and never more than there was.
proof fn lemma_scan_item_accounts(input: InputView, ingredients: Seq<IngredientView>, remaining: Seq<int>, j: int, item: Seq<char>)
    requires
        0 <= j <= ingredients.len(),
        remaining.len() == ingredients.len(),
        forall|t: int| 0 <= t < remaining.len() ==> remaining[t] >= 0,
    ensures
        ({
            let s = scan_upto(input, ingredients, remaining, j);
            let n = ingredients.len() as int;
            item_claims(s.consumed, item) + item_amount(ingredients, s.remaining, item, n)
                == item_amount(ingredients, remaining, item, n)
        }),
    decreases j,
{
    if j > 0 {
        lemma_scan_item_accounts(input, ingredients, remaining, j - 1, item);
        lemma_scan_accounts(input, ingredients, remaining, j - 1);
        let p = scan_upto(input, ingredients, remaining, j - 1);
        let t = j - 1;
        if !p.satisfied && input_accepts(input, ingredients[t]) {
            let taken = min_int(p.needed, p.remaining[t]);
            if taken != 0 {
                lemma_item_amount_update(ingredients, p.remaining, item, t, p.remaining[t] - taken, ingredients.len() as int);
                assert(p.consumed.push(StackView { item: ingredients[t].item, quantity: taken as u16 }).drop_last()
                    =~= p.consumed);
            }
        }
    }
}

/// Planning moves quantities of each item from what the ingredients offer to the
/// claims, and never more than was offered.
proof fn lemma_plan_item_accounts(inputs: Seq<InputView>, ingredients: Seq<IngredientView>, k: int, item: Seq<char>)
    requires
        0 <= k <= inputs.len(),
    ensures
        item_claims(plan_upto(inputs, ingredients, k).consumed, item)
            + item_amount(ingredients, plan_upto(inputs, ingredients, k).remaining, item, ingredients.len() as int)
            == item_offer(ingredients, item),
    decreases k,
{
    if k > 0 {
        lemma_plan_item_accounts(inputs, ingredients, k - 1, item);
        lemma_plan_accounts(inputs, ingredients, k - 1);
        let p = plan_upto(inputs, ingredients, k - 1);
        if p.failure is None {
            lemma_scan_item_accounts(inputs[k - 1], ingredients, p.remaining, ingredients.len() as int, item);
            lemma_item_claims_concat(p.consumed, scan(inputs[k - 1], ingredients, p.remaining).consumed, item);
        }
    } else {
        assert(item_claims(Seq::<StackView>::empty(), item) == 0);
    }
}

/// A plan never claims more of an item than the ingredients offer of it.
pub proof fn law_plan_claims_within_offer(inputs: Seq<InputView>, ingredients: Seq<IngredientView>, item: Seq<char>)
    ensures
        0 <= item_claims(plan(inputs, ingredients).consumed, item) <= item_offer(ingredients, item),
{
    let n = inputs.len() as int;
    lemma_plan_item_accounts(inputs, ingredients, n, item);
    lemma_plan_accounts(inputs, ingredients, n);
    lemma_item_amount_nonnegative(ingredients, plan(inputs, ingredients).remaining, item, ingredients.len() as int);
    lemma_item_claims_nonnegative(plan(inputs, ingredients).consumed, item);
}

proof fn lemma_item_claims_nonnegative(stacks: Seq<StackView>, item: Seq<char>)
    ensures
        item_claims(stacks, item) >= 0,
    decreases stacks.len(),
{
    if stacks.len() > 0 {
        lemma_item_claims_nonnegative(stacks.drop_last(), item);
    }
}

} // verus!
