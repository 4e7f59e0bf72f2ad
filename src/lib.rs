//! Grid-based snake simulation: a growing chain of segments on a toroidal
//! arena, food kinds with growth and speed effects, a fixed-step clock and
//! the game's phase machine.
pub mod chain;
pub mod clock;
pub mod feeding;
pub mod food;
pub mod grid;
pub mod input;
pub mod session;
pub mod spawner;
pub mod state;
