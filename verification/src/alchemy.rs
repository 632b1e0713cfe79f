//! Pure alchemy trait discovery and two-ingredient experiment rules.

use vstd::prelude::*;

use crate::ids::MaterialId;
use crate::inventory::{ItemStack, StackView};
use crate::material::{copy_traits, AlchemyTrait, MaterialDefinition};

verus! {

/// Traits found on a single inspected material.
#[derive(Debug, PartialEq, Eq)]
pub struct TraitDiscovery {
    material_id: MaterialId,
    discovered_traits: Vec<AlchemyTrait>,
}

/// What a discovery records.
pub struct DiscoveryView {
    pub material: Seq<char>,
    pub traits: Seq<AlchemyTrait>,
}

impl View for TraitDiscovery {
    type V = DiscoveryView;

    closed spec fn view(&self) -> DiscoveryView {
        DiscoveryView { material: self.material_id@, traits: self.discovered_traits@ }
    }
}

impl Clone for TraitDiscovery {
    fn clone(&self) -> (r: Self)
        ensures
            r@ == self@,
    {
        TraitDiscovery {
            material_id: self.material_id.clone(),
            discovered_traits: copy_traits(self.discovered_traits.as_slice()),
        }
    }
}

impl TraitDiscovery {
    pub fn new(material_id: MaterialId, discovered_traits: Vec<AlchemyTrait>) -> (r: Self)
        ensures
            r@ == (DiscoveryView { material: material_id@, traits: discovered_traits@ }),
    {
        TraitDiscovery { material_id, discovered_traits }
    }

    pub fn material_id(&self) -> (r: &MaterialId)
        ensures
            r@ == self@.material,
    {
        &self.material_id
    }

    pub fn discovered_traits(&self) -> (r: &[AlchemyTrait])
        ensures
            r@ == self@.traits,
    {
        self.discovered_traits.as_slice()
    }
}

/// `i` is the first discovery recorded for the material.
pub open spec fn is_first_entry(discoveries: Seq<DiscoveryView>, material: Seq<char>, i: int) -> bool {
    &&& 0 <= i < discoveries.len()
    &&& discoveries[i].material == material
    &&& forall|j: int| 0 <= j < i ==> #[trigger] discoveries[j].material != material
}

/// No discovery is recorded for the material.
pub open spec fn has_no_entry(discoveries: Seq<DiscoveryView>, material: Seq<char>) -> bool {
    forall|j: int| 0 <= j < discoveries.len() ==> #[trigger] discoveries[j].material != material
}

/// The trait is recorded for the material in its first discovery.
pub open spec fn knows_trait(discoveries: Seq<DiscoveryView>, material: Seq<char>, alchemy_trait: AlchemyTrait) -> bool {
    exists|i: int| is_first_entry(discoveries, material, i) && #[trigger] discoveries[i].traits.contains(alchemy_trait)
}

/// No material is recorded twice.
pub open spec fn entries_unique(discoveries: Seq<DiscoveryView>) -> bool {
    forall|i: int, j: int| 0 <= i < j < discoveries.len() ==> #[trigger] discoveries[i].material != #[trigger] discoveries[j].material
}

/// The record after a discovery: it replaces the material's first discovery, or is
/// appended when the material had none.
pub open spec fn recorded(discoveries: Seq<DiscoveryView>, discovery: DiscoveryView, result: Seq<DiscoveryView>) -> bool {
    &&& forall|i: int| is_first_entry(discoveries, discovery.material, i) ==> result == discoveries.update(i, discovery)
    &&& has_no_entry(discoveries, discovery.material) ==> result == discoveries.push(discovery)
}

/// Player-facing knowledge discovered by inspecting materials.
#[derive(Debug, Clone, PartialEq, Eq)]
pub struct AlchemyKnowledge {
    discoveries: Vec<TraitDiscovery>,
}

impl View for AlchemyKnowledge {
    type V = Seq<DiscoveryView>;

    closed spec fn view(&self) -> Seq<DiscoveryView> {
        self.discoveries@.map_values(|d: TraitDiscovery| d@)
    }
}

impl Default for AlchemyKnowledge {
    fn default() -> (r: Self)
        ensures
            r@ == Seq::<DiscoveryView>::empty(),
    {
        let r = AlchemyKnowledge { discoveries: Vec::new() };
        assert(r@ =~= Seq::<DiscoveryView>::empty());
        r
    }
}

impl AlchemyKnowledge {
    /// Records all traits currently exposed by a material and returns the discovery.
    pub fn inspect_material(&mut self, material: &MaterialDefinition) -> (r: TraitDiscovery)
        ensures
            r@ == (DiscoveryView { material: material@.id, traits: material@.traits }),
            recorded(old(self)@, r@, final(self)@),
    {
        let discovery = TraitDiscovery::new(material.id().clone(), copy_traits(material.traits()));
        let n = self.discoveries.len();
        let mut i: usize = 0;
        while i < n
            invariant
                n == self.discoveries@.len(),
                self@ == old(self)@,
                discovery@ == (DiscoveryView { material: material@.id, traits: material@.traits }),
                i <= n,
                forall|j: int| 0 <= j < i ==> #[trigger] self@[j].material != discovery@.material,
            decreases n - i,
        {
            assert(self@[i as int] == self.discoveries@[i as int]@);
            if self.discoveries[i].material_id == discovery.material_id {
                assert(old(self)@[i as int].material == discovery@.material);
                assert(!has_no_entry(old(self)@, discovery@.material));
                self.discoveries.set(i, discovery.clone());
                assert(self@ =~= old(self)@.update(i as int, discovery@));
                proof {
                    assert forall|k: int| is_first_entry(old(self)@, discovery@.material, k) implies k == i by {
                        if k < i {
                            assert(old(self)@[k].material != discovery@.material);
                        }
                        if k > i {
                            assert(old(self)@[i as int].material != discovery@.material);
                        }
                    }
                }
                return discovery;
            }
            i = i + 1;
        }
        self.discoveries.push(discovery.clone());
        assert(self@ =~= old(self)@.push(discovery@));
        discovery
    }

    /// Returns true when a trait has been discovered for the material.
    pub fn has_discovered_trait(&self, material_id: &MaterialId, alchemy_trait: AlchemyTrait) -> (r: bool)
        ensures
            r == knows_trait(self@, material_id@, alchemy_trait),
    {
        let n = self.discoveries.len();
        let mut i: usize = 0;
        while i < n
            invariant
                n == self.discoveries@.len(),
                n == self@.len(),
                i <= n,
                forall|j: int| 0 <= j < i ==> #[trigger] self@[j].material != material_id@,
            decreases n - i,
        {
            assert(self@[i as int] == self.discoveries@[i as int]@);
            if self.discoveries[i].material_id == *material_id {
                assert(is_first_entry(self@, material_id@, i as int));
                let traits = self.discoveries[i].discovered_traits.as_slice();
                let mut k: usize = 0;
                while k < traits.len()
                    invariant
                        k <= traits@.len(),
                        i < n,
                        n == self@.len(),
                        is_first_entry(self@, material_id@, i as int),
                        traits@ == self@[i as int].traits,
                        forall|t: int| 0 <= t < k ==> traits@[t] != alchemy_trait,
                    decreases traits@.len() - k,
                {
                    if traits[k] == alchemy_trait {
                        assert(self@[i as int].traits.contains(alchemy_trait));
                        return true;
                    }
                    k = k + 1;
                }
                assert forall|m: int| is_first_entry(self@, material_id@, m) implies !(#[trigger] self@[m].traits.contains(alchemy_trait)) by {
                    if m < i {
                        assert(self@[m].material != material_id@);
                    }
                    if m > i {
                        assert(self@[i as int].material == material_id@);
                    }
                }
                return false;
            }
            i = i + 1;
        }
        false
    }

    pub fn discoveries(&self) -> (r: &[TraitDiscovery])
        ensures
            r@.map_values(|d: TraitDiscovery| d@) == self@,
    {
        self.discoveries.as_slice()
    }
}

/// Inspecting a material makes exactly its traits known for it, leaves what is known
/// of every other material unchanged, and keeps every material recorded at most once.
pub proof fn law_inspect_records_traits(
    before: Seq<DiscoveryView>,
    discovery: DiscoveryView,
    after: Seq<DiscoveryView>,
    other: Seq<char>,
    alchemy_trait: AlchemyTrait,
)
    requires
        recorded(before, discovery, after),
        other != discovery.material,
    ensures
        knows_trait(after, discovery.material, alchemy_trait) == discovery.traits.contains(alchemy_trait),
        knows_trait(after, other, alchemy_trait) == knows_trait(before, other, alchemy_trait),
        entries_unique(before) ==> entries_unique(after),
{
    let m = discovery.material;
    if has_no_entry(before, m) {
        assert(after == before.push(discovery));
        assert(is_first_entry(after, m, before.len() as int));
        assert forall|i: int| is_first_entry(after, m, i) implies i == before.len() by {
            if i < before.len() {
                assert(before[i].material != m);
            }
        }
        assert forall|i: int| is_first_entry(after, other, i) <==> is_first_entry(before, other, i) by {
            if is_first_entry(after, other, i) {
                assert(i < before.len());
                assert forall|j: int| 0 <= j < i implies #[trigger] before[j].material != other by {
                    assert(after[j] == before[j]);
                }
            }
            if is_first_entry(before, other, i) {
                assert forall|j: int| 0 <= j < i implies #[trigger] after[j].material != other by {
                    assert(after[j] == before[j]);
                }
            }
        }
        assert(knows_trait(after, other, alchemy_trait) == knows_trait(before, other, alchemy_trait)) by {
            if knows_trait(before, other, alchemy_trait) {
                let i = choose|i: int| is_first_entry(before, other, i) && #[trigger] before[i].traits.contains(alchemy_trait);
                assert(after[i] == before[i]);
            }
            if knows_trait(after, other, alchemy_trait) {
                let i = choose|i: int| is_first_entry(after, other, i) && #[trigger] after[i].traits.contains(alchemy_trait);
                assert(after[i] == before[i]);
            }
        }
        if discovery.traits.contains(alchemy_trait) {
            assert(after[before.len() as int].traits.contains(alchemy_trait));
        }
    } else {
        let k = choose|k: int| 0 <= k < before.len() && #[trigger] before[k].material == m;
        let f = first_entry_witness(before, m, k);
        assert(after == before.update(f, discovery));
        assert(is_first_entry(after, m, f)) by {
            assert forall|j: int| 0 <= j < f implies #[trigger] after[j].material != m by {
                assert(after[j] == before[j]);
            }
        }
        assert forall|i: int| is_first_entry(after, m, i) implies i == f by {
            if i < f {
                assert(after[i] == before[i]);
            }
        }
        assert forall|i: int| is_first_entry(after, other, i) <==> is_first_entry(before, other, i) by {
            if is_first_entry(after, other, i) {
                assert(i != f);
                assert forall|j: int| 0 <= j < i implies #[trigger] before[j].material != other by {
                    if j != f {
                        assert(after[j] == before[j]);
                    }
                }
            }
            if is_first_entry(before, other, i) {
                assert(i != f);
                assert forall|j: int| 0 <= j < i implies #[trigger] after[j].material != other by {
                    if j != f {
                        assert(after[j] == before[j]);
                    }
                }
            }
        }
        assert(knows_trait(after, other, alchemy_trait) == knows_trait(before, other, alchemy_trait)) by {
            if knows_trait(before, other, alchemy_trait) {
                let i = choose|i: int| is_first_entry(before, other, i) && #[trigger] before[i].traits.contains(alchemy_trait);
                assert(i != f);
                assert(after[i] == before[i]);
            }
            if knows_trait(after, other, alchemy_trait) {
                let i = choose|i: int| is_first_entry(after, other, i) && #[trigger] after[i].traits.contains(alchemy_trait);
                assert(i != f);
                assert(after[i] == before[i]);
            }
        }
        if discovery.traits.contains(alchemy_trait) {
            assert(after[f].traits.contains(alchemy_trait));
        }
        assert(entries_unique(before) ==> entries_unique(after)) by {
            if entries_unique(before) {
                assert forall|i: int, j: int| 0 <= i < j < after.len() implies #[trigger] after[i].material != #[trigger] after[j].material by {
                    if i == f {
                        assert(before[j].material != before[f].material);
                    } else if j == f {
                        assert(before[i].material != before[f].material);
                    } else {
                        assert(before[i].material != before[j].material);
                    }
                }
            }
        }
    }
}

/// When some discovery records the material, there is a first one, at or before it.
proof fn first_entry_witness(discoveries: Seq<DiscoveryView>, material: Seq<char>, k: int) -> (f: int)
    requires
        0 <= k < discoveries.len(),
        discoveries[k].material == material,
    ensures
        is_first_entry(discoveries, material, f),
        f <= k,
    decreases k,
{
    if exists|j: int| 0 <= j < k && #[trigger] discoveries[j].material == material {
        let j = choose|j: int| 0 <= j < k && #[trigger] discoveries[j].material == material;
        first_entry_witness(discoveries, material, j)
    } else {
        k
    }
}


/// A compatible trait pair and the reagent it produces.
#[derive(Debug, PartialEq, Eq)]
pub struct AlchemyExperimentRule {
    first_trait: AlchemyTrait,
    second_trait: AlchemyTrait,
    output: ItemStack,
}

/// What a rule states.
pub struct RuleView {
    pub first: AlchemyTrait,
    pub second: AlchemyTrait,
    pub output: StackView,
}

impl View for AlchemyExperimentRule {
    type V = RuleView;

    closed spec fn view(&self) -> RuleView {
        RuleView { first: self.first_trait, second: self.second_trait, output: self.output@ }
    }
}

impl Clone for AlchemyExperimentRule {
    fn clone(&self) -> (r: Self)
        ensures
            r@ == self@,
    {
        AlchemyExperimentRule { first_trait: self.first_trait, second_trait: self.second_trait, output: self.output.clone() }
    }
}

/// A rule applies to a trait pair in either order.
pub open spec fn rule_applies(rule: RuleView, a: AlchemyTrait, b: AlchemyTrait) -> bool {
    (rule.first == a && rule.second == b) || (rule.first == b && rule.second == a)
}

/// Some rule applies to the pair.
pub open spec fn has_rule(rules: Seq<RuleView>, a: AlchemyTrait, b: AlchemyTrait) -> bool {
    exists|k: int| 0 <= k < rules.len() && rule_applies(#[trigger] rules[k], a, b)
}

/// `k` is the first rule that applies to the pair.
pub open spec fn is_first_rule(rules: Seq<RuleView>, a: AlchemyTrait, b: AlchemyTrait, k: int) -> bool {
    &&& 0 <= k < rules.len()
    &&& rule_applies(rules[k], a, b)
    &&& forall|t: int| 0 <= t < k ==> !rule_applies(#[trigger] rules[t], a, b)
}

/// `(i, j)` is the first pair of traits, the first material's traits taken in order
/// and for each the second material's traits in order, to which a rule applies.
pub open spec fn is_first_pair(rules: Seq<RuleView>, first: Seq<AlchemyTrait>, second: Seq<AlchemyTrait>, i: int, j: int) -> bool {
    &&& 0 <= i < first.len()
    &&& 0 <= j < second.len()
    &&& has_rule(rules, first[i], second[j])
    &&& forall|a: int, b: int| 0 <= a < i && 0 <= b < second.len() ==> !has_rule(rules, #[trigger] first[a], #[trigger] second[b])
    &&& forall|b: int| 0 <= b < j ==> !has_rule(rules, first[i], #[trigger] second[b])
}

/// Some pair of the two materials' traits has a rule.
pub open spec fn experiment_succeeds(rules: Seq<RuleView>, first: Seq<AlchemyTrait>, second: Seq<AlchemyTrait>) -> bool {
    exists|i: int, j: int| 0 <= i < first.len() && 0 <= j < second.len() && has_rule(rules, #[trigger] first[i], #[trigger] second[j])
}

impl AlchemyExperimentRule {
    pub fn new(first_trait: AlchemyTrait, second_trait: AlchemyTrait, output: ItemStack) -> (r: Self)
        ensures
            r@ == (RuleView { first: first_trait, second: second_trait, output: output@ }),
    {
        AlchemyExperimentRule { first_trait, second_trait, output }
    }

    pub fn first_trait(&self) -> (r: AlchemyTrait)
        ensures
            r == self@.first,
    {
        self.first_trait
    }

    pub fn second_trait(&self) -> (r: AlchemyTrait)
        ensures
            r == self@.second,
    {
        self.second_trait
    }

    pub fn output(&self) -> (r: &ItemStack)
        ensures
            r@ == self@.output,
    {
        &self.output
    }

    fn matches(&self, first_trait: AlchemyTrait, second_trait: AlchemyTrait) -> (r: bool)
        ensures
            r == rule_applies(self@, first_trait, second_trait),
    {
        (self.first_trait == first_trait && self.second_trait == second_trait)
            || (self.first_trait == second_trait && self.second_trait == first_trait)
    }
}

/// Outcome state for an alchemy experiment.
#[derive(Debug, Clone, Copy, PartialEq, Eq, Structural)]
pub enum AlchemyExperimentStatus {
    Success,
    Failed,
}

/// Result of combining two ingredients.
#[derive(Debug, PartialEq, Eq)]
pub struct AlchemyExperimentResult {
    status: AlchemyExperimentStatus,
    output: Option<ItemStack>,
    matched_traits: Option<(AlchemyTrait, AlchemyTrait)>,
}

/// What an experiment result states.
pub struct ExperimentView {
    pub status: AlchemyExperimentStatus,
    pub output: Option<StackView>,
    pub matched_traits: Option<(AlchemyTrait, AlchemyTrait)>,
}

impl View for AlchemyExperimentResult {
    type V = ExperimentView;

    closed spec fn view(&self) -> ExperimentView {
        ExperimentView {
            status: self.status,
            output: match self.output {
                Some(stack) => Some(stack@),
                None => None,
            },
            matched_traits: self.matched_traits,
        }
    }
}

impl AlchemyExperimentResult {
    pub fn success(output: ItemStack, matched_traits: (AlchemyTrait, AlchemyTrait)) -> (r: Self)
        ensures
            r@ == (ExperimentView {
                status: AlchemyExperimentStatus::Success,
                output: Some(output@),
                matched_traits: Some(matched_traits),
            }),
    {
        AlchemyExperimentResult {
            status: AlchemyExperimentStatus::Success,
            output: Some(output),
            matched_traits: Some(matched_traits),
        }
    }

    pub fn failed() -> (r: Self)
        ensures
            r@ == (ExperimentView { status: AlchemyExperimentStatus::Failed, output: None, matched_traits: None }),
    {
        AlchemyExperimentResult { status: AlchemyExperimentStatus::Failed, output: None, matched_traits: None }
    }

    pub fn status(&self) -> (r: AlchemyExperimentStatus)
        ensures
            r == self@.status,
    {
        self.status
    }

    pub fn output(&self) -> (r: Option<&ItemStack>)
        ensures
            r is None <==> self@.output is None,
            r matches Some(stack) ==> self@.output == Some(stack@),
    {
        match &self.output {
            Some(stack) => Some(stack),
            None => None,
        }
    }

    pub fn matched_traits(&self) -> (r: Option<(AlchemyTrait, AlchemyTrait)>)
        ensures
            r == self@.matched_traits,
    {
        self.matched_traits
    }
}

/// Pure two-ingredient experiment rule table.
#[derive(Debug, Clone, PartialEq, Eq)]
pub struct AlchemyExperiment {
    rules: Vec<AlchemyExperimentRule>,
}

impl View for AlchemyExperiment {
    type V = Seq<RuleView>;

    closed spec fn view(&self) -> Seq<RuleView> {
        self.rules@.map_values(|r: AlchemyExperimentRule| r@)
    }
}

impl AlchemyExperiment {
    pub fn new(rules: Vec<AlchemyExperimentRule>) -> (r: Self)
        ensures
            r@ == rules@.map_values(|r: AlchemyExperimentRule| r@),
    {
        AlchemyExperiment { rules }
    }

    /// The first rule that applies to the pair, if any.
    fn rule_for(&self, first_trait: AlchemyTrait, second_trait: AlchemyTrait) -> (r: Option<&AlchemyExperimentRule>)
        ensures
            r is None <==> !has_rule(self@, first_trait, second_trait),
            r matches Some(rule) ==> exists|k: int| is_first_rule(self@, first_trait, second_trait, k) && self@[k] == rule@,
    {
        let n = self.rules.len();
        let mut k: usize = 0;
        while k < n
            invariant
                n == self.rules@.len(),
                n == self@.len(),
                k <= n,
                forall|t: int| 0 <= t < k ==> !rule_applies(#[trigger] self@[t], first_trait, second_trait),
            decreases n - k,
        {
            assert(self@[k as int] == self.rules@[k as int]@);
            if self.rules[k].matches(first_trait, second_trait) {
                assert(is_first_rule(self@, first_trait, second_trait, k as int));
                return Some(&self.rules[k]);
            }
            k = k + 1;
        }
        None
    }

    /// Combines two materials by matching their trait pairs, in order, against the
    /// rule table; the first pair with a rule yields that rule's reagent.
    pub fn combine(&self, first: &MaterialDefinition, second: &MaterialDefinition) -> (r: AlchemyExperimentResult)
        ensures
            !experiment_succeeds(self@, first@.traits, second@.traits) ==> r@ == (ExperimentView {
                status: AlchemyExperimentStatus::Failed,
                output: None,
                matched_traits: None,
            }),
            experiment_succeeds(self@, first@.traits, second@.traits) ==> exists|i: int, j: int, k: int|
                #![trigger is_first_pair(self@, first@.traits, second@.traits, i, j), self@[k]]
                is_first_pair(self@, first@.traits, second@.traits, i, j)
                && is_first_rule(self@, first@.traits[i], second@.traits[j], k)
                && r@ == (ExperimentView {
                    status: AlchemyExperimentStatus::Success,
                    output: Some(self@[k].output),
                    matched_traits: Some((first@.traits[i], second@.traits[j])),
                }),
    {
        let first_traits = first.traits();
        let second_traits = second.traits();
        let ghost rules = self@;
        let ghost fs = first_traits@;
        let ghost ss = second_traits@;
        let mut i: usize = 0;
        while i < first_traits.len()
            invariant
                rules == self@,
                fs == first_traits@,
                ss == second_traits@,
                fs == first@.traits,
                ss == second@.traits,
                i <= fs.len(),
                forall|a: int, b: int| 0 <= a < i && 0 <= b < ss.len() ==> !has_rule(rules, #[trigger] fs[a], #[trigger] ss[b]),
            decreases fs.len() - i,
        {
            let mut j: usize = 0;
            while j < second_traits.len()
                invariant
                    rules == self@,
                    fs == first_traits@,
                    ss == second_traits@,
                    fs == first@.traits,
                    ss == second@.traits,
                    i < fs.len(),
                    j <= ss.len(),
                    forall|a: int, b: int| 0 <= a < i && 0 <= b < ss.len() ==> !has_rule(rules, #[trigger] fs[a], #[trigger] ss[b]),
                    forall|b: int| 0 <= b < j ==> !has_rule(rules, fs[i as int], #[trigger] ss[b]),
                decreases ss.len() - j,
            {
                let a = first_traits[i];
                let b = second_traits[j];
                match self.rule_for(a, b) {
                    Some(rule) => {
                        assert(is_first_pair(rules, fs, ss, i as int, j as int));
                        let r = AlchemyExperimentResult::success(rule.output.clone(), (a, b));
                        assert(experiment_succeeds(rules, fs, ss)) by {
                            assert(has_rule(rules, fs[i as int], ss[j as int]));
                        }
                        return r;
                    },
                    None => {},
                }
                j = j + 1;
            }
            i = i + 1;
        }
        AlchemyExperimentResult::failed()
    }
}

/// A rule applies to exactly two ordered pairs of traits: its own two traits, in
/// either order. So a rule for one trait twice applies only to that trait twice,
/// and a rule applies to no pair holding a trait it does not name.
pub proof fn law_rule_applies_to_its_own_pair(rule: RuleView, a: AlchemyTrait, b: AlchemyTrait)
    ensures
        rule_applies(rule, rule.first, rule.second),
        rule_applies(rule, rule.second, rule.first),
        rule_applies(rule, a, b) ==> (a == rule.first && b == rule.second) || (a == rule.second && b == rule.first),
        rule.first == rule.second && (a != rule.first || b != rule.first) ==> !rule_applies(rule, a, b),
        a != rule.first && a != rule.second ==> !rule_applies(rule, a, b),
{
}

/// An experiment on two single-trait materials succeeds exactly when some rule names
/// those two traits, in either order.
pub proof fn law_single_traits_need_a_rule_for_the_pair(rules: Seq<RuleView>, a: AlchemyTrait, b: AlchemyTrait)
    ensures
        experiment_succeeds(rules, seq![a], seq![b]) <==> exists|k: int| 0 <= k < rules.len()
            && ((#[trigger] rules[k]).first == a && rules[k].second == b || rules[k].first == b && rules[k].second == a),
{
    if experiment_succeeds(rules, seq![a], seq![b]) {
        let (i, j) = choose|i: int, j: int| 0 <= i < 1 && 0 <= j < 1 && has_rule(rules, #[trigger] seq![a][i], #[trigger] seq![b][j]);
        assert(i == 0 && j == 0);
        let k = choose|k: int| 0 <= k < rules.len() && rule_applies(#[trigger] rules[k], a, b);
        assert(rules[k].first == a && rules[k].second == b || rules[k].first == b && rules[k].second == a);
    }
    if exists|k: int| 0 <= k < rules.len()
        && ((#[trigger] rules[k]).first == a && rules[k].second == b || rules[k].first == b && rules[k].second == a) {
        let k = choose|k: int| 0 <= k < rules.len()
            && ((#[trigger] rules[k]).first == a && rules[k].second == b || rules[k].first == b && rules[k].second == a);
        assert(rule_applies(rules[k], a, b));
        assert(has_rule(rules, a, b));
        assert(has_rule(rules, seq![a][0], seq![b][0]));
    }
}

/// Whether two materials react does not depend on which is named first.
pub proof fn law_experiment_success_symmetric(rules: Seq<RuleView>, first: Seq<AlchemyTrait>, second: Seq<AlchemyTrait>)
    ensures
        experiment_succeeds(rules, first, second) == experiment_succeeds(rules, second, first),
{
    if experiment_succeeds(rules, first, second) {
        let (i, j) = choose|i: int, j: int| 0 <= i < first.len() && 0 <= j < second.len() && has_rule(rules, #[trigger] first[i], #[trigger] second[j]);
        let k = choose|k: int| 0 <= k < rules.len() && rule_applies(#[trigger] rules[k], first[i], second[j]);
        assert(rule_applies(rules[k], second[j], first[i]));
        assert(has_rule(rules, second[j], first[i]));
    }
    if experiment_succeeds(rules, second, first) {
        let (j, i) = choose|j: int, i: int| 0 <= j < second.len() && 0 <= i < first.len() && has_rule(rules, #[trigger] second[j], #[trigger] first[i]);
        let k = choose|k: int| 0 <= k < rules.len() && rule_applies(#[trigger] rules[k], second[j], first[i]);
        assert(rule_applies(rules[k], first[i], second[j]));
        assert(has_rule(rules, first[i], second[j]));
    }
}

} // verus!
