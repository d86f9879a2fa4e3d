//! What the side panel shows: the biomass, the recipe in force with what is
//! in stock for it, and the recipe that comes next.

use vstd::prelude::*;

use crate::constants::{ASTEROID_SPRITES, DNA_SPRITE, N_ASTEROIDS};
use crate::economy::Economy;
use crate::ladder::current_index;
use crate::recipe::{counts, no_ingredients, Ingredients, Recipe};

verus! {

/// What the side panel knows of the sprite sheet.
#[derive(Clone, Copy, Debug)]
pub struct GuiPlugin {
    /// The sprite of each asteroid kind.
    pub asteroid_sprites: [u32; N_ASTEROIDS],
    /// The sprite drawn before a biomass figure.
    pub dna_sprite: u32,
}

/// One asteroid of a recipe as the panel draws it.
#[derive(Clone, Copy, PartialEq, Eq, Structural, Debug)]
pub struct Icon {
    pub sprite: u32,
    /// Drawn faded: not swallowed yet.
    pub dimmed: bool,
}

/// The figure under a recipe.
#[derive(Clone, Copy, PartialEq, Eq, Structural, Debug)]
pub enum Caption {
    /// What completing the recipe yields.
    Reward(u32),
    /// The biomass from which the recipe comes into force.
    Requirement(u32),
}

/// A recipe as the panel draws it.
#[derive(Debug)]
pub struct RecipeCard {
    pub name: &'static str,
    /// One icon for each asteroid that the recipe asks, kind by kind.
    pub icons: Vec<Icon>,
    pub caption: Caption,
}

/// What the side panel shows.
#[derive(Debug)]
pub struct SidePanel {
    pub biomass: u32,
    /// The recipe in force.
    pub current: RecipeCard,
    /// The recipe after it, if there is one.
    pub next: Option<RecipeCard>,
}

/// The icons of one kind: `need` of them, the first `lit` at full strength.
pub open spec fn icon_row(sprite: u32, need: nat, lit: nat) -> Seq<Icon> {
    Seq::new(need, |i: int| Icon { sprite, dimmed: i >= lit })
}

/// The icons of the first `kinds` kinds, kind by kind.
pub open spec fn icon_rows(sprites: Seq<u32>, need: Seq<nat>, lit: Seq<nat>, kinds: nat) -> Seq<Icon>
    decreases kinds,
{
    if kinds == 0 {
        Seq::empty()
    } else {
        icon_rows(sprites, need, lit, (kinds - 1) as nat) + icon_row(
            sprites[kinds - 1],
            need[kinds - 1],
            lit[kinds - 1],
        )
    }
}

/// What is lit on the card of a recipe: on the recipe in force, what is in
/// stock; on another, nothing.
pub open spec fn lit_on(current: bool, held: Ingredients) -> Seq<nat> {
    if current {
        counts(held)
    } else {
        no_ingredients()
    }
}

/// `card` is the card of `recipe`: its name, its icons with `lit` of each
/// kind at full strength, and under them its reward if it is in force, its
/// requirement if not.
pub open spec fn is_card_of(
    card: RecipeCard,
    sprites: Seq<u32>,
    recipe: Recipe,
    current: bool,
    lit: Seq<nat>,
) -> bool {
    &&& card.name == recipe.name
    &&& card.icons@ == icon_rows(sprites, counts(recipe.ingredients), lit, N_ASTEROIDS as nat)
    &&& card.caption == if current {
        Caption::Reward(recipe.reward)
    } else {
        Caption::Requirement(recipe.requirement)
    }
}

impl GuiPlugin {
    /// The panel on the standard sprite sheet.
    pub fn new() -> (gui: Self)
        ensures
            gui.asteroid_sprites == ASTEROID_SPRITES,
            gui.dna_sprite == DNA_SPRITE,
    {
        GuiPlugin { asteroid_sprites: ASTEROID_SPRITES, dna_sprite: DNA_SPRITE }
    }

    /// The card of `recipe`. On the recipe in force, `current_ingredients`
    /// says how many icons of each kind are lit.
    pub fn recipe_card(&self, recipe: &Recipe, current: bool, current_ingredients: &Ingredients) -> (card:
        RecipeCard)
        ensures
            is_card_of(
                card,
                self.asteroid_sprites@,
                *recipe,
                current,
                lit_on(current, *current_ingredients),
            ),
    {
        let ghost sprites = self.asteroid_sprites@;
        let ghost need = counts(recipe.ingredients);
        let ghost lit = lit_on(current, *current_ingredients);
        let mut icons: Vec<Icon> = Vec::new();
        let mut kind: usize = 0;
        while kind < N_ASTEROIDS
            invariant
                kind <= N_ASTEROIDS,
                sprites == self.asteroid_sprites@,
                need == counts(recipe.ingredients),
                lit == lit_on(current, *current_ingredients),
                icons@ == icon_rows(sprites, need, lit, kind as nat),
            decreases N_ASTEROIDS - kind,
        {
            let sprite = self.asteroid_sprites[kind];
            let ghost before = icons@;
            let ghost row = icon_row(sprite, need[kind as int], lit[kind as int]);
            let mut i: usize = 0;
            while i < recipe.ingredients[kind]
                invariant
                    kind < N_ASTEROIDS,
                    i <= recipe.ingredients[kind as int],
                    need == counts(recipe.ingredients),
                    lit == lit_on(current, *current_ingredients),
                    row == icon_row(sprite, need[kind as int], lit[kind as int]),
                    icons@ == before + row.take(i as int),
                decreases recipe.ingredients[kind as int] - i,
            {
                let dimmed = !current || i >= current_ingredients[kind];
                icons.push(Icon { sprite, dimmed });
                assert(icons@ =~= before + row.take(i + 1));
                i += 1;
            }
            assert(row.take(i as int) =~= row);
            kind += 1;
        }
        let caption = if current {
            Caption::Reward(recipe.reward)
        } else {
            Caption::Requirement(recipe.requirement)
        };
        RecipeCard { name: recipe.name, icons, caption }
    }
}

/// What the side panel shows of `economy`: the biomass, the recipe in force
/// with what is in stock for it, and the recipe after it, if there is one.
pub fn side_panel(gui: &GuiPlugin, economy: &Economy) -> (panel: SidePanel)
    requires
        economy.wf(),
    ensures
        panel.biomass == economy@.biomass,
        is_card_of(
            panel.current,
            gui.asteroid_sprites@,
            economy.table()[current_index(economy.table(), economy@.biomass)],
            true,
            economy@.ingredients,
        ),
        panel.next is Some <==> current_index(economy.table(), economy@.biomass) + 1
            < economy.table().len(),
        panel.next matches Some(card) ==> is_card_of(
            card,
            gui.asteroid_sprites@,
            economy.table()[current_index(economy.table(), economy@.biomass) + 1],
            false,
            no_ingredients(),
        ),
{
    let held = economy.current_ingredients();
    let index = economy.current_recipe();
    let recipes = economy.recipes();
    let current = gui.recipe_card(&recipes[index], true, &held);
    let next = match economy.next_recipe() {
        Some(after) => Some(gui.recipe_card(&recipes[after], false, &held)),
        None => None,
    };
    SidePanel { biomass: economy.biomass(), current, next }
}

} // verus!
