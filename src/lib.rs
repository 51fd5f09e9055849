//! A small reinforcement-learning framework: discrete space encodings, a tabular
//! Q-learning agent, a replay buffer, two environments and the bookkeeping of a
//! turn-based training loop.

pub mod agents;
pub mod space;
pub mod environment;
pub mod train;

use vstd::prelude::*;

verus! {

/// A state space that also knows how many players take turns in it.
pub trait StateSpace {
    fn player_count(&self) -> usize;
}

} // verus!
