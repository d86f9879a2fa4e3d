//! The figures of the standard game.

use vstd::prelude::*;

use crate::recipe::Recipe;

verus! {

/// Physics ticks per second.
pub const FPS: u64 = 60;

/// Nanoseconds in one second.
pub const NANOS_PER_SECOND: u64 = 1_000_000_000;

/// Number of asteroid kinds, and so of ingredient kinds.
pub const N_ASTEROIDS: usize = 9;

/// The sprite of each asteroid kind, by its place in the sprite sheet.
pub const ASTEROID_SPRITES: [u32; N_ASTEROIDS] = [1, 2, 3, 4, 5, 6, 7, 8, 9];

/// The sprites that an explosion goes through, first to last.
pub const EXPLOSION_FRAMES: [u32; 3] = [10, 11, 12];

/// The sprite that stands for biomass.
pub const DNA_SPRITE: u32 = 13;

/// The most ticks that the physics runs in one frame, however long the frame
/// took.
pub const MAX_TICKS_PER_FRAME: u32 = 5;

/// Biomass at the start of a game.
pub const INITIAL_BIOMASS: u32 = 10;

/// An extinction divides the biomass by
/// `EXTINCTION_RATE_NUMERATOR / EXTINCTION_RATE_DENOMINATOR`.
pub const EXTINCTION_RATE_NUMERATOR: u32 = 5;

/// See [`EXTINCTION_RATE_NUMERATOR`].
pub const EXTINCTION_RATE_DENOMINATOR: u32 = 4;

/// The ladder of the standard game, lowest rung first.
pub open spec fn standard_recipes() -> Seq<Recipe> {
    seq![
        Recipe { name: "Protocells", requirement: 0, reward: 10, ingredients: [1, 0, 0, 0, 0, 0, 0, 0, 0] },
        Recipe { name: "Procaryotes", requirement: 40, reward: 20, ingredients: [1, 1, 0, 0, 0, 0, 0, 0, 0] },
        Recipe { name: "Bacteria", requirement: 100, reward: 50, ingredients: [1, 1, 1, 0, 0, 0, 0, 0, 0] },
        Recipe { name: "Archea", requirement: 250, reward: 50, ingredients: [1, 2, 0, 1, 1, 0, 0, 0, 0] },
        Recipe { name: "Eucaryotes", requirement: 400, reward: 200, ingredients: [2, 2, 1, 1, 1, 0, 0, 0, 0] },
        Recipe { name: "Multicellulars", requirement: 1000, reward: 1000, ingredients: [2, 3, 2, 2, 2, 1, 0, 0, 0] },
        Recipe { name: "Plants", requirement: 4000, reward: 5000, ingredients: [4, 3, 2, 3, 1, 1, 1, 0, 0] },
        Recipe { name: "Animals", requirement: 15_000, reward: 10_000, ingredients: [3, 4, 2, 4, 3, 1, 0, 1, 0] },
        Recipe { name: "Sentients", requirement: 40_000, reward: 20_000, ingredients: [3, 3, 3, 3, 4, 2, 1, 1, 2] },
    ]
}

/// The ladder of the standard game.
pub fn recipes() -> (table: Vec<Recipe>)
    ensures
        table@ == standard_recipes(),
{
    let table = vec![
        Recipe::new("Protocells", 0, 10, [1, 0, 0, 0, 0, 0, 0, 0, 0]),
        Recipe::new("Procaryotes", 40, 20, [1, 1, 0, 0, 0, 0, 0, 0, 0]),
        Recipe::new("Bacteria", 100, 50, [1, 1, 1, 0, 0, 0, 0, 0, 0]),
        Recipe::new("Archea", 250, 50, [1, 2, 0, 1, 1, 0, 0, 0, 0]),
        Recipe::new("Eucaryotes", 400, 200, [2, 2, 1, 1, 1, 0, 0, 0, 0]),
        Recipe::new("Multicellulars", 1000, 1000, [2, 3, 2, 2, 2, 1, 0, 0, 0]),
        Recipe::new("Plants", 4000, 5000, [4, 3, 2, 3, 1, 1, 1, 0, 0]),
        Recipe::new("Animals", 15_000, 10_000, [3, 4, 2, 4, 3, 1, 0, 1, 0]),
        Recipe::new("Sentients", 40_000, 20_000, [3, 3, 3, 3, 4, 2, 1, 1, 2]),
    ];
    assert(table@ =~= standard_recipes());
    table
}

} // verus!
