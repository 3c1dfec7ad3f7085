//! A snake game on a fixed grid: the rules of movement, growth, collision
//! and food placement, and the state machine of the loop that drives them.
//!
//! Nothing here draws or reads input. A front end feeds [`driver::Event`]s
//! to a [`driver::Driver`] and carries out the [`driver::Action`]s it gets
//! back.

pub mod direction;
pub mod driver;
pub mod food;
pub mod game;
pub mod grid;
