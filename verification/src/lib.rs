//! A verified engine for a terminal snake game.
//!
//! The engine models a toroidal grid: the snake's head wraps around the edges
//! of the board. Each call to [`game::Game::tick`] advances the simulation by
//! one cell, handling collision, growth, scoring and food placement. The
//! contracts on the engine's methods state the full per-tick transition.

pub mod direction;
pub mod game;
pub mod grid;
pub mod point;
