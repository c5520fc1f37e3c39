//! A small reinforcement-learning toolkit: discrete spaces, an experience
//! replay buffer, a grid-world environment and the bookkeeping of tabular
//! agents, each with a machine-checked contract.

pub mod agents;
pub mod buffer;
pub mod envs;
pub mod rng;
pub mod spaces;
pub mod utils;

pub use spaces::Discrete;
