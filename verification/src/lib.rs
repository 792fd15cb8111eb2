//! Conway's Game of Life on a toroidal (wrap-around) grid.
//!
//! The mathematical model of a generation lives in [`rules`]; the executable
//! grid with its neighbor counting, generational advance and rendering lives
//! in [`world`].

pub mod rules;
pub mod world;
