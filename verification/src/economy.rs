//! The economy: the biomass and the stock of ingredients, and what becomes
//! of them when the planet swallows an asteroid.

use vstd::prelude::*;

use crate::constants::{
    recipes, standard_recipes, EXTINCTION_RATE_DENOMINATOR, EXTINCTION_RATE_NUMERATOR,
    INITIAL_BIOMASS, N_ASTEROIDS,
};
use crate::ladder::{
    check_recipes, config_fault, current_index, lemma_standard_recipes_valid, recipe_in_force,
    valid_recipes, ConfigError,
};
use crate::recipe::{
    add_ingredient, compare_counts, counts, has_excess, no_ingredients, with_one_more, Ingredients,
    IngredientsComparison, Recipe,
};

verus! {

/// The progression score.
#[derive(Clone, Copy, PartialEq, Eq, Structural, Debug)]
pub struct Biomass(pub u32);

/// The ingredients swallowed so far towards the current recipe.
#[derive(Clone, Copy, Debug)]
pub struct CurrentIngredients(pub Ingredients);

impl CurrentIngredients {
    /// Nothing swallowed yet.
    pub fn new() -> (empty: Self)
        ensures
            counts(empty.0) == no_ingredients(),
    {
        let empty = Self([0; N_ASTEROIDS]);
        assert(counts(empty.0) =~= no_ingredients());
        empty
    }
}

/// What the recipe in force at `biomass` asks.
pub open spec fn current_need(table: Seq<Recipe>, biomass: nat) -> Seq<nat> {
    counts(table[current_index(table, biomass)].ingredients)
}

/// The biomass left of `biomass` by an extinction: divided by the extinction
/// rate, rounded down, and never less than 1.
pub open spec fn after_extinction(biomass: nat) -> nat {
    let left = biomass * EXTINCTION_RATE_DENOMINATOR as nat / EXTINCTION_RATE_NUMERATOR as nat;
    if left < 1 {
        1
    } else {
        left
    }
}

/// The biomass left after `times` extinctions in a row.
pub open spec fn after_extinctions(biomass: nat, times: nat) -> nat
    decreases times,
{
    if times == 0 {
        biomass
    } else {
        after_extinction(after_extinctions(biomass, (times - 1) as nat))
    }
}

/// The economy as mathematics: the score and the stock of ingredients.
pub struct EconomyState {
    pub biomass: nat,
    pub ingredients: Seq<nat>,
}

/// The verdict on `state` once it has swallowed one asteroid of `kind`.
pub open spec fn verdict(table: Seq<Recipe>, state: EconomyState, kind: int) -> IngredientsComparison {
    compare_counts(with_one_more(state.ingredients, kind), current_need(table, state.biomass))
}

/// `state` after swallowing one asteroid of `kind`. Short of the recipe, the
/// asteroid joins the stock. On a match the reward is earned, on an excess an
/// extinction strikes, and either way the stock is emptied.
pub open spec fn absorb(table: Seq<Recipe>, state: EconomyState, kind: int) -> EconomyState {
    match verdict(table, state, kind) {
        IngredientsComparison::TooFew => EconomyState {
            biomass: state.biomass,
            ingredients: with_one_more(state.ingredients, kind),
        },
        IngredientsComparison::TooMany => EconomyState {
            biomass: after_extinction(state.biomass),
            ingredients: no_ingredients(),
        },
        IngredientsComparison::JustRight => EconomyState {
            biomass: state.biomass + table[current_index(table, state.biomass)].reward as nat,
            ingredients: no_ingredients(),
        },
    }
}

/// `state` after swallowing asteroids of `kinds`, first to last.
pub open spec fn absorb_all(table: Seq<Recipe>, state: EconomyState, kinds: Seq<usize>) -> EconomyState
    decreases kinds.len(),
{
    if kinds.len() == 0 {
        state
    } else {
        absorb(table, absorb_all(table, state, kinds.drop_last()), kinds.last() as int)
    }
}

/// Swallowing `kinds` from `state`, first to last, never takes the biomass
/// past what a `u32` holds.
pub open spec fn biomass_fits(table: Seq<Recipe>, state: EconomyState, kinds: Seq<usize>) -> bool
    decreases kinds.len(),
{
    kinds.len() > 0 ==> {
        &&& biomass_fits(table, state, kinds.drop_last())
        &&& absorb_all(table, state, kinds).biomass <= u32::MAX
    }
}

/// Every kind in `kinds` is an asteroid kind.
pub open spec fn all_kinds(kinds: Seq<usize>) -> bool {
    forall|i: int| 0 <= i < kinds.len() ==> #[trigger] kinds[i] < N_ASTEROIDS
}

/// An extinction never takes the biomass below 1, nor above what it was
/// unless to lift it to 1.
pub proof fn lemma_extinction_floor(biomass: nat)
    ensures
        after_extinction(biomass) >= 1,
        after_extinction(biomass) <= biomass || after_extinction(biomass) == 1,
{
}

/// However many extinctions strike in a row, a biomass of at least 1 stays
/// at least 1, and a biomass of exactly 1 stays 1.
pub proof fn lemma_extinctions_floor(biomass: nat, times: nat)
    ensures
        biomass >= 1 ==> after_extinctions(biomass, times) >= 1,
        after_extinctions(1, times) == 1,
    decreases times,
{
    if times > 0 {
        lemma_extinctions_floor(biomass, (times - 1) as nat);
    }
}

/// Whatever is swallowed, a verdict other than "too few" leaves the stock
/// exactly empty.
pub proof fn lemma_verdict_empties_stock(table: Seq<Recipe>, state: EconomyState, kind: int)
    ensures
        verdict(table, state, kind) != IngredientsComparison::TooFew ==> absorb(
            table,
            state,
            kind,
        ).ingredients == no_ingredients(),
        forall|k: int| 0 <= k < N_ASTEROIDS ==> no_ingredients()[k] == 0,
        no_ingredients().len() == N_ASTEROIDS,
{
}

/// A stock that holds exactly what the current recipe asks turns any further
/// asteroid into an excess.
pub proof fn lemma_capture_past_match_is_excess(table: Seq<Recipe>, state: EconomyState, kind: int)
    requires
        0 <= kind < N_ASTEROIDS,
        state.ingredients == current_need(table, state.biomass),
    ensures
        verdict(table, state, kind) == IngredientsComparison::TooMany,
        absorb(table, state, kind).biomass == after_extinction(state.biomass),
{
    crate::recipe::lemma_one_past_match_is_excess(state.ingredients, kind);
}

/// A biomass of at least 1 stays at least 1 whatever is swallowed.
pub proof fn lemma_biomass_stays_positive(table: Seq<Recipe>, state: EconomyState, kinds: Seq<usize>)
    requires
        state.biomass >= 1,
    ensures
        absorb_all(table, state, kinds).biomass >= 1,
    decreases kinds.len(),
{
    if kinds.len() > 0 {
        lemma_biomass_stays_positive(table, state, kinds.drop_last());
    }
}

/// The biomass that an extinction leaves of `biomass`.
pub fn extinction(biomass: u32) -> (left: u32)
    ensures
        left == after_extinction(biomass as nat),
{
    let left: u64 = biomass as u64 * EXTINCTION_RATE_DENOMINATOR as u64
        / EXTINCTION_RATE_NUMERATOR as u64;
    if left < 1 {
        1
    } else {
        left as u32
    }
}

/// The state that holds `biomass` and `held`.
pub open spec fn state_of(biomass: u32, held: Ingredients) -> EconomyState {
    EconomyState { biomass: biomass as nat, ingredients: counts(held) }
}

/// Whatever is swallowed, nothing is then in stock beyond what the recipe
/// then in force asks.
pub proof fn lemma_absorb_keeps_stock_within(table: Seq<Recipe>, state: EconomyState, kind: int)
    requires
        state.ingredients.len() == N_ASTEROIDS,
        0 <= kind < N_ASTEROIDS,
    ensures
        absorb(table, state, kind).ingredients.len() == N_ASTEROIDS,
        !has_excess(
            absorb(table, state, kind).ingredients,
            current_need(table, absorb(table, state, kind).biomass),
        ),
{
    let next = absorb(table, state, kind);
    let need = current_need(table, next.biomass);
    if verdict(table, state, kind) != IngredientsComparison::TooFew {
        assert forall|k: int| 0 <= k < need.len() implies !(#[trigger] next.ingredients[k]
            > need[k]) by {}
    }
}

/// A prefix of captures that fit in the score fits too.
pub proof fn lemma_biomass_fits_prefix(
    table: Seq<Recipe>,
    state: EconomyState,
    kinds: Seq<usize>,
    len: int,
)
    requires
        0 <= len <= kinds.len(),
        biomass_fits(table, state, kinds),
    ensures
        biomass_fits(table, state, kinds.take(len)),
    decreases kinds.len(),
{
    if len == kinds.len() {
        assert(kinds.take(len) =~= kinds);
    } else {
        lemma_biomass_fits_prefix(table, state, kinds.drop_last(), len);
        assert(kinds.drop_last().take(len) =~= kinds.take(len));
    }
}

/// One capture on plain values: the verdict, and the biomass and stock that
/// follow, or `None` for these if the biomass would not fit a `u32`.
fn weigh(recipes: &Vec<Recipe>, biomass: u32, held: &Ingredients, kind: usize) -> (outcome: (
    IngredientsComparison,
    Option<(u32, Ingredients)>,
))
    requires
        valid_recipes(recipes@),
        kind < N_ASTEROIDS,
    ensures
        outcome.0 == verdict(recipes@, state_of(biomass, *held), kind as int),
        match outcome.1 {
            Some((left, stock)) => state_of(left, stock) == absorb(
                recipes@,
                state_of(biomass, *held),
                kind as int,
            ),
            None => absorb(recipes@, state_of(biomass, *held), kind as int).biomass > u32::MAX,
        },
{
    let recipe = recipes[recipe_in_force(recipes, biomass)];
    let ghost need = counts(recipe.ingredients);
    let ghost more = with_one_more(counts(*held), kind as int);
    // One more of a kind already met or exceeded is an excess, whatever the
    // count would come to.
    let (result, stock) = if held[kind] < recipe.ingredients[kind] {
        let stock = add_ingredient(held, kind);
        (recipe.check_ingredients(&stock), stock)
    } else {
        assert(more[kind as int] > need[kind as int]);
        (IngredientsComparison::TooMany, *held)
    };
    let empty = CurrentIngredients::new();
    match result {
        IngredientsComparison::TooFew => (result, Some((biomass, stock))),
        IngredientsComparison::TooMany => (result, Some((extinction(biomass), empty.0))),
        IngredientsComparison::JustRight => {
            if recipe.reward <= u32::MAX - biomass {
                (result, Some((biomass + recipe.reward, empty.0)))
            } else {
                (result, None)
            }
        },
    }
}

/// The biomass, the stock of ingredients, and the ladder they are weighed
/// against.
pub struct Economy {
    recipes: Vec<Recipe>,
    biomass: Biomass,
    current_ingredients: CurrentIngredients,
}

impl View for Economy {
    type V = EconomyState;

    closed spec fn view(&self) -> EconomyState {
        state_of(self.biomass.0, self.current_ingredients.0)
    }
}

impl Economy {
    /// The ladder.
    pub closed spec fn table(&self) -> Seq<Recipe> {
        self.recipes@
    }

    /// The ladder is valid, the score and the stock are what a machine can
    /// hold, and nothing is in stock beyond what the recipe in force asks.
    pub open spec fn wf(&self) -> bool {
        &&& valid_recipes(self.table())
        &&& self@.biomass <= u32::MAX
        &&& self@.ingredients.len() == N_ASTEROIDS
        &&& !has_excess(self@.ingredients, current_need(self.table(), self@.biomass))
    }

    /// An economy on the ladder `recipes`, with `biomass` to start with and
    /// nothing in stock. Fails if `recipes` cannot serve as a ladder.
    pub fn new(recipes: Vec<Recipe>, biomass: u32) -> (result: Result<Self, ConfigError>)
        ensures
            result is Ok <==> valid_recipes(recipes@),
            match result {
                Ok(economy) => {
                    &&& economy.wf()
                    &&& economy.table() == recipes@
                    &&& economy@ == (EconomyState {
                        biomass: biomass as nat,
                        ingredients: no_ingredients(),
                    })
                },
                Err(fault) => config_fault(recipes@) == Some(fault),
            },
    {
        match check_recipes(&recipes) {
            Ok(_) => {
                let economy = Economy {
                    recipes,
                    biomass: Biomass(biomass),
                    current_ingredients: CurrentIngredients::new(),
                };
                assert(!has_excess(
                    no_ingredients(),
                    current_need(economy.table(), biomass as nat),
                ));
                Ok(economy)
            },
            Err(fault) => Err(fault),
        }
    }

    /// The economy of the standard game: the standard ladder, the initial
    /// biomass, nothing in stock.
    pub fn standard() -> (economy: Self)
        ensures
            economy.wf(),
            economy.table() == standard_recipes(),
            economy@ == (EconomyState {
                biomass: INITIAL_BIOMASS as nat,
                ingredients: no_ingredients(),
            }),
    {
        let economy = Economy {
            recipes: recipes(),
            biomass: Biomass(INITIAL_BIOMASS),
            current_ingredients: CurrentIngredients::new(),
        };
        proof {
            lemma_standard_recipes_valid();
            assert(!has_excess(
                no_ingredients(),
                current_need(economy.table(), INITIAL_BIOMASS as nat),
            ));
        }
        economy
    }

    /// The biomass.
    pub fn biomass(&self) -> (biomass: u32)
        ensures
            biomass == self@.biomass,
    {
        self.biomass.0
    }

    /// The stock of ingredients.
    pub fn current_ingredients(&self) -> (held: Ingredients)
        ensures
            counts(held) == self@.ingredients,
    {
        self.current_ingredients.0
    }

    /// The ladder.
    pub fn recipes(&self) -> (recipes: &Vec<Recipe>)
        ensures
            recipes@ == self.table(),
    {
        &self.recipes
    }

    /// The index of the recipe in force.
    pub fn current_recipe(&self) -> (index: usize)
        requires
            self.wf(),
        ensures
            index == current_index(self.table(), self@.biomass),
            index < self.table().len(),
    {
        recipe_in_force(&self.recipes, self.biomass.0)
    }

    /// The index of the recipe after the one in force, if there is one.
    pub fn next_recipe(&self) -> (next: Option<usize>)
        requires
            self.wf(),
        ensures
            match next {
                Some(after) => after == current_index(self.table(), self@.biomass) + 1 && after
                    < self.table().len(),
                None => current_index(self.table(), self@.biomass) + 1 == self.table().len(),
            },
    {
        let index = self.current_recipe();
        let len = self.recipes.len();
        if index + 1 < len {
            Some(index + 1)
        } else {
            None
        }
    }

    /// Swallows one asteroid of `kind` and says how the stock then stood
    /// against the recipe in force.
    pub fn capture(&mut self, kind: usize) -> (result: IngredientsComparison)
        requires
            old(self).wf(),
            kind < N_ASTEROIDS,
            absorb(old(self).table(), old(self)@, kind as int).biomass <= u32::MAX,
        ensures
            final(self).wf(),
            final(self).table() == old(self).table(),
            result == verdict(old(self).table(), old(self)@, kind as int),
            final(self)@ == absorb(old(self).table(), old(self)@, kind as int),
            result != IngredientsComparison::TooFew ==> final(self)@.ingredients == no_ingredients(),
            old(self)@.biomass >= 1 ==> final(self)@.biomass >= 1,
    {
        proof {
            lemma_absorb_keeps_stock_within(self.recipes@, self@, kind as int);
        }
        let (result, next) = weigh(&self.recipes, self.biomass.0, &self.current_ingredients.0, kind);
        match next {
            Some((left, stock)) => {
                self.biomass = Biomass(left);
                self.current_ingredients = CurrentIngredients(stock);
            },
            None => {},
        }
        result
    }

    /// Whether `kinds` are asteroid kinds that can be swallowed, first to
    /// last, without the biomass passing what a `u32` holds.
    pub fn can_absorb(&self, kinds: &Vec<usize>) -> (ok: bool)
        requires
            self.wf(),
        ensures
            ok == (all_kinds(kinds@) && biomass_fits(self.table(), self@, kinds@)),
    {
        let mut biomass = self.biomass.0;
        let mut held = self.current_ingredients.0;
        let mut i: usize = 0;
        assert(kinds@.take(0) =~= Seq::<usize>::empty());
        while i < kinds.len()
            invariant
                i <= kinds@.len(),
                valid_recipes(self.recipes@),
                all_kinds(kinds@.take(i as int)),
                biomass_fits(self.table(), self@, kinds@.take(i as int)),
                state_of(biomass, held) == absorb_all(self.table(), self@, kinds@.take(i as int)),
            decreases kinds@.len() - i,
        {
            if kinds[i] >= N_ASTEROIDS {
                return false;
            }
            let ghost before = kinds@.take(i as int);
            let ghost upto = kinds@.take(i + 1);
            assert(upto.drop_last() =~= before);
            assert(upto.last() == kinds@[i as int]);
            match weigh(&self.recipes, biomass, &held, kinds[i]).1 {
                Some((left, stock)) => {
                    biomass = left;
                    held = stock;
                },
                None => {
                    proof {
                        if biomass_fits(self.table(), self@, kinds@) {
                            lemma_biomass_fits_prefix(self.table(), self@, kinds@, i + 1);
                        }
                    }
                    return false;
                },
            }
            assert forall|j: int| 0 <= j < upto.len() implies #[trigger] upto[j] < N_ASTEROIDS by {
                if j < i {
                    assert(before[j] == upto[j]);
                }
            }
            i += 1;
        }
        assert(kinds@.take(i as int) =~= kinds@);
        true
    }

    /// Swallows asteroids of `kinds`, first to last, and gives the verdict
    /// on each.
    pub fn capture_all(&mut self, kinds: &Vec<usize>) -> (verdicts: Vec<IngredientsComparison>)
        requires
            old(self).wf(),
            all_kinds(kinds@),
            biomass_fits(old(self).table(), old(self)@, kinds@),
        ensures
            final(self).wf(),
            final(self).table() == old(self).table(),
            final(self)@ == absorb_all(old(self).table(), old(self)@, kinds@),
            verdicts@.len() == kinds@.len(),
            forall|i: int|
                0 <= i < kinds@.len() ==> #[trigger] verdicts@[i] == verdict(
                    old(self).table(),
                    absorb_all(old(self).table(), old(self)@, kinds@.take(i)),
                    kinds@[i] as int,
                ),
    {
        let mut verdicts: Vec<IngredientsComparison> = Vec::new();
        let mut i: usize = 0;
        assert(kinds@.take(0) =~= Seq::<usize>::empty());
        while i < kinds.len()
            invariant
                i <= kinds@.len(),
                self.wf(),
                self.table() == old(self).table(),
                all_kinds(kinds@),
                biomass_fits(old(self).table(), old(self)@, kinds@),
                self@ == absorb_all(old(self).table(), old(self)@, kinds@.take(i as int)),
                verdicts@.len() == i,
                forall|j: int|
                    0 <= j < i ==> #[trigger] verdicts@[j] == verdict(
                        old(self).table(),
                        absorb_all(old(self).table(), old(self)@, kinds@.take(j)),
                        kinds@[j] as int,
                    ),
            decreases kinds@.len() - i,
        {
            proof {
                let upto = kinds@.take(i + 1);
                assert(upto.drop_last() =~= kinds@.take(i as int));
                assert(upto.last() == kinds@[i as int]);
                lemma_biomass_fits_prefix(old(self).table(), old(self)@, kinds@, i + 1);
            }
            let result = self.capture(kinds[i]);
            verdicts.push(result);
            i += 1;
        }
        assert(kinds@.take(i as int) =~= kinds@);
        verdicts
    }
}

} // verus!
