//! The rules of a small gravitational arena.
//!
//! Asteroids orbit a planet, can be flung with a slingshot gesture, and feed
//! the planet one ingredient each when they crash into it. Ingredients are
//! weighed against a ladder of recipes: an exact match raises the biomass, an
//! excess sets it back.
//!
//! This crate holds the discrete part of the game: the recipe ladder and the
//! biomass economy, the registry of live asteroids, the slingshot gesture, and
//! the fixed-step clock. Geometry and rendering are left to the caller, which
//! tells the functions here which asteroids touch the planet, lie under the
//! cursor, or have drifted away.

pub mod bodies;
pub mod constants;
pub mod economy;
pub mod gui;
pub mod ladder;
pub mod physics;
pub mod recipe;
pub mod slingshot;

pub use bodies::{
    animate_explosion, asteroid_despawner, asteroid_spawner, collision, try_collision, Asteroid,
    Bodies, Body, Explosion,
};
pub use economy::{Biomass, CurrentIngredients, Economy};
pub use ladder::{current_recipe, ConfigError};
pub use gui::{side_panel, GuiPlugin};
pub use physics::Timestep;
pub use recipe::{add_ingredient, Ingredients, IngredientsComparison, Recipe};
pub use slingshot::{load_slingshot, release_slingshot, update_slingshot, Slingshot};
