//! Recipes, and how a stock of ingredients stands against one.

use vstd::prelude::*;

use crate::constants::N_ASTEROIDS;

verus! {

/// A count for each asteroid kind, indexed by kind.
pub type Ingredients = [usize; N_ASTEROIDS];

/// A rung of the ladder: what the planet must swallow, from which biomass on,
/// and what it yields.
#[derive(Clone, Copy, Debug)]
pub struct Recipe {
    pub name: &'static str,
    /// Biomass from which this recipe is the one to complete.
    pub requirement: u32,
    /// Biomass gained by completing it.
    pub reward: u32,
    /// How many asteroids of each kind it takes.
    pub ingredients: Ingredients,
}

/// How a stock of ingredients stands against a recipe.
#[derive(Clone, Copy, PartialEq, Eq, Structural, Debug)]
pub enum IngredientsComparison {
    /// Nothing in excess, something still missing.
    TooFew,
    /// At least one kind in excess.
    TooMany,
    /// Every kind exactly as asked.
    JustRight,
}

/// The counts of `ingredients` as a sequence of naturals, one per kind.
pub open spec fn counts(ingredients: Ingredients) -> Seq<nat> {
    Seq::new(N_ASTEROIDS as nat, |kind: int| ingredients[kind] as nat)
}

/// The empty stock: zero of every kind.
pub open spec fn no_ingredients() -> Seq<nat> {
    Seq::new(N_ASTEROIDS as nat, |kind: int| 0nat)
}

/// `have` with one more of `kind`.
pub open spec fn with_one_more(have: Seq<nat>, kind: int) -> Seq<nat> {
    have.update(kind, have[kind] + 1)
}

/// Some kind is held in excess of `need`.
pub open spec fn has_excess(have: Seq<nat>, need: Seq<nat>) -> bool {
    exists|kind: int| 0 <= kind < need.len() && #[trigger] have[kind] > need[kind]
}

/// Some kind is held short of `need`.
pub open spec fn has_shortage(have: Seq<nat>, need: Seq<nat>) -> bool {
    exists|kind: int| 0 <= kind < need.len() && #[trigger] have[kind] < need[kind]
}

/// The verdict on holding `have` where `need` is asked. An excess decides,
/// whatever else is missing.
pub open spec fn compare_counts(have: Seq<nat>, need: Seq<nat>) -> IngredientsComparison {
    if has_excess(have, need) {
        IngredientsComparison::TooMany
    } else if has_shortage(have, need) {
        IngredientsComparison::TooFew
    } else {
        IngredientsComparison::JustRight
    }
}

impl Recipe {
    /// A recipe of these parts.
    pub fn new(name: &'static str, requirement: u32, reward: u32, ingredients: Ingredients) -> (recipe: Self)
        ensures
            recipe.name == name,
            recipe.requirement == requirement,
            recipe.reward == reward,
            recipe.ingredients == ingredients,
    {
        Self { name, requirement, reward, ingredients }
    }

    /// Weighs `ingredients` against what this recipe asks.
    pub fn check_ingredients(&self, ingredients: &Ingredients) -> (result: IngredientsComparison)
        ensures
            result == compare_counts(counts(*ingredients), counts(self.ingredients)),
    {
        let ghost have = counts(*ingredients);
        let ghost need = counts(self.ingredients);
        let mut short = false;
        let mut kind: usize = 0;
        while kind < N_ASTEROIDS
            invariant
                kind <= N_ASTEROIDS,
                have == counts(*ingredients),
                need == counts(self.ingredients),
                forall|k: int| 0 <= k < kind ==> #[trigger] have[k] <= need[k],
                short <==> exists|k: int| 0 <= k < kind && #[trigger] have[k] < need[k],
            decreases N_ASTEROIDS - kind,
        {
            if ingredients[kind] < self.ingredients[kind] {
                assert(have[kind as int] < need[kind as int]);
                short = true;
            } else if ingredients[kind] > self.ingredients[kind] {
                assert(have[kind as int] > need[kind as int]);
                return IngredientsComparison::TooMany;
            }
            kind += 1;
        }
        if short {
            IngredientsComparison::TooFew
        } else {
            IngredientsComparison::JustRight
        }
    }
}

/// A copy of `ingredients` with one more of kind `index`.
pub fn add_ingredient(ingredients: &Ingredients, index: usize) -> (sum: Ingredients)
    requires
        index < N_ASTEROIDS,
        ingredients[index as int] < usize::MAX,
    ensures
        counts(sum) == with_one_more(counts(*ingredients), index as int),
{
    let mut sum = *ingredients;
    sum[index] = sum[index] + 1;
    assert(counts(sum) =~= with_one_more(counts(*ingredients), index as int));
    sum
}

/// Holding exactly what is asked is a match, and one more asteroid of any
/// kind then turns the match into an excess.
pub proof fn lemma_one_past_match_is_excess(need: Seq<nat>, kind: int)
    requires
        0 <= kind < need.len(),
    ensures
        compare_counts(need, need) == IngredientsComparison::JustRight,
        compare_counts(with_one_more(need, kind), need) == IngredientsComparison::TooMany,
{
    assert(with_one_more(need, kind)[kind] > need[kind]);
}

} // verus!
