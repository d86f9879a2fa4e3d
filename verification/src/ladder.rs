//! The ladder of recipes: what makes a list of recipes a ladder, and which
//! recipe is in force at a given biomass.

use vstd::prelude::*;

use crate::constants::{recipes, standard_recipes};
use crate::recipe::Recipe;

verus! {

/// Why a list of recipes cannot serve as a ladder.
#[derive(Clone, Copy, PartialEq, Eq, Structural, Debug)]
pub enum ConfigError {
    /// The list is empty.
    NoRecipes,
    /// The first recipe asks for biomass, so a score below it has no recipe.
    FirstRecipeLocked,
    /// Some recipe does not ask for more biomass than the one before it.
    RequirementsNotAscending,
}

/// Recipe `i + 1` asks for more biomass than recipe `i`.
pub open spec fn rises_at(table: Seq<Recipe>, i: int) -> bool {
    table[i].requirement < table[i + 1].requirement
}

/// Each recipe asks for more biomass than the one before it.
pub open spec fn ascending(table: Seq<Recipe>) -> bool {
    forall|i: int| 0 <= i < table.len() - 1 ==> #[trigger] rises_at(table, i)
}

/// `table` can serve as a ladder: it is not empty, its first recipe is open
/// to every score, and its requirements rise.
pub open spec fn valid_recipes(table: Seq<Recipe>) -> bool {
    &&& table.len() > 0
    &&& table[0].requirement == 0
    &&& ascending(table)
}

/// What is wrong with `table` as a ladder, the first fault in the order of
/// the variants of [`ConfigError`], or `None` for a valid table.
pub open spec fn config_fault(table: Seq<Recipe>) -> Option<ConfigError> {
    if table.len() == 0 {
        Some(ConfigError::NoRecipes)
    } else if table[0].requirement != 0 {
        Some(ConfigError::FirstRecipeLocked)
    } else if !ascending(table) {
        Some(ConfigError::RequirementsNotAscending)
    } else {
        None
    }
}

/// The index of the last recipe of `table` whose requirement `biomass`
/// meets, or -1 if it meets none.
pub open spec fn current_index(table: Seq<Recipe>, biomass: nat) -> int
    decreases table.len(),
{
    if table.len() == 0 {
        -1
    } else if table.last().requirement <= biomass {
        table.len() - 1
    } else {
        current_index(table.drop_last(), biomass)
    }
}

/// Where `current_index` points: at the last recipe within reach of
/// `biomass`, and at a recipe whenever the first one is open to every score.
pub proof fn lemma_current_index(table: Seq<Recipe>, biomass: nat)
    ensures
        -1 <= current_index(table, biomass) < table.len(),
        current_index(table, biomass) >= 0 ==> table[current_index(table, biomass)].requirement
            <= biomass,
        forall|j: int|
            current_index(table, biomass) < j < table.len() ==> biomass < (#[trigger] table[j]).requirement,
        table.len() > 0 && table[0].requirement == 0 ==> current_index(table, biomass) >= 0,
    decreases table.len(),
{
    if table.len() > 0 && table.last().requirement > biomass {
        let shorter = table.drop_last();
        lemma_current_index(shorter, biomass);
        assert forall|j: int| current_index(table, biomass) < j < table.len() implies biomass < (
        #[trigger] table[j]).requirement by {
            if j < shorter.len() {
                assert(shorter[j] == table[j]);
            }
        }
        if table[0].requirement == 0 {
            assert(shorter[0] == table[0]);
        }
    }
}

/// An index that meets the description of the current recipe is the current
/// index.
pub proof fn lemma_current_index_unique(table: Seq<Recipe>, biomass: nat, i: int)
    requires
        0 <= i < table.len(),
        table[i].requirement <= biomass,
        forall|j: int| i < j < table.len() ==> biomass < (#[trigger] table[j]).requirement,
    ensures
        current_index(table, biomass) == i,
{
    lemma_current_index(table, biomass);
}

/// The standard ladder is valid.
pub proof fn lemma_standard_recipes_valid()
    ensures
        valid_recipes(standard_recipes()),
{
    let table = standard_recipes();
    assert(rises_at(table, 0));
    assert(rises_at(table, 1));
    assert(rises_at(table, 2));
    assert(rises_at(table, 3));
    assert(rises_at(table, 4));
    assert(rises_at(table, 5));
    assert(rises_at(table, 6));
    assert(rises_at(table, 7));
}

/// Says whether `recipes` can serve as a ladder, and if not, what is wrong
/// with it first.
pub fn check_recipes(recipes: &Vec<Recipe>) -> (result: Result<(), ConfigError>)
    ensures
        result is Ok <==> valid_recipes(recipes@),
        match result {
            Ok(_) => config_fault(recipes@) is None,
            Err(fault) => config_fault(recipes@) == Some(fault),
        },
{
    if recipes.len() == 0 {
        return Err(ConfigError::NoRecipes);
    }
    if recipes[0].requirement != 0 {
        return Err(ConfigError::FirstRecipeLocked);
    }
    let mut i: usize = 1;
    while i < recipes.len()
        invariant
            1 <= i <= recipes@.len(),
            recipes@[0].requirement == 0,
            forall|j: int| 0 <= j < i - 1 ==> #[trigger] rises_at(recipes@, j),
        decreases recipes@.len() - i,
    {
        if recipes[i - 1].requirement >= recipes[i].requirement {
            assert(!rises_at(recipes@, i - 1));
            return Err(ConfigError::RequirementsNotAscending);
        }
        i += 1;
    }
    Ok(())
}

/// The index of the recipe in force at `biomass`: the last one whose
/// requirement `biomass` meets. `None` if it meets none.
pub fn recipe_for(recipes: &Vec<Recipe>, biomass: u32) -> (found: Option<usize>)
    ensures
        match found {
            Some(index) => index == current_index(recipes@, biomass as nat),
            None => current_index(recipes@, biomass as nat) == -1,
        },
{
    let mut i: usize = recipes.len();
    assert(recipes@.take(i as int) =~= recipes@);
    while i > 0
        invariant
            i <= recipes@.len(),
            current_index(recipes@, biomass as nat) == current_index(
                recipes@.take(i as int),
                biomass as nat,
            ),
        decreases i,
    {
        i -= 1;
        assert(recipes@.take(i + 1).last() == recipes@[i as int]);
        assert(recipes@.take(i + 1).drop_last() =~= recipes@.take(i as int));
        if biomass >= recipes[i].requirement {
            return Some(i);
        }
    }
    None
}

/// The index of the recipe in force at `biomass` on a valid ladder, where
/// there always is one.
pub fn recipe_in_force(recipes: &Vec<Recipe>, biomass: u32) -> (index: usize)
    requires
        valid_recipes(recipes@),
    ensures
        index == current_index(recipes@, biomass as nat),
        index < recipes@.len(),
{
    proof {
        lemma_current_index(recipes@, biomass as nat);
    }
    match recipe_for(recipes, biomass) {
        Some(index) => index,
        None => 0,
    }
}

/// The index, in the standard ladder, of the recipe in force at `biomass`.
pub fn current_recipe(biomass: u32) -> (index: usize)
    ensures
        index == current_index(standard_recipes(), biomass as nat),
        index < standard_recipes().len(),
{
    proof {
        lemma_standard_recipes_valid();
    }
    recipe_in_force(&recipes(), biomass)
}

} // verus!
