pub mod game;
pub mod policies;
mod rng;
pub mod runner;
pub mod utils;
