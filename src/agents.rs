//! Learning agents and the data structures they are built from.

pub mod dqn_agent;
pub mod network;
pub mod q_agent;
