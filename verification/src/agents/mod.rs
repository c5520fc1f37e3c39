//! The bookkeeping of the learning agents: which table entry an update
//! goes to, and when a network is trained or synchronised.

pub mod dqn;
pub mod sarsa;
