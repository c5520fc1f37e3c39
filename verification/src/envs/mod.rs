//! Environments.

pub mod gridworld;
