//! A falling-sand cellular automaton: a grid of materials that settle under
//! simple density and gravity rules, one scan of the grid per tick.

pub mod material;
pub mod grid;
pub mod rules;
pub mod engine;

pub use material::{Material, Rgb};
pub use grid::{Grid, GridView, new_grid, place};
pub use rules::Side;
pub use engine::{tick, tick_with};

