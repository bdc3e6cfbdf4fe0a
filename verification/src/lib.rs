//! A verified core for a grid snake game: a snake moves on a fixed grid,
//! eats food to grow and score, and the game ends on collision with a wall
//! or with the snake's own body. Rendering, input polling and frame pacing
//! live outside; this crate holds the state and its update rules, each
//! proved against an explicit relation between the states before and after.

pub mod game;
pub mod grid;
pub mod lemmas;
mod rng;
