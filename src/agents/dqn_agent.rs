//! The shape of the value-approximating agent's networks.

use crate::space::{dims_product, space_size, SpaceDims};
use vstd::prelude::*;

verus! {

/// The width of the hidden layer of both networks.
pub const HIDDEN_UNITS: usize = 64;

/// The layer widths of the policy and target networks for the given spaces:
/// one input per state dimension, discrete or continuous, a hidden layer, and
/// one output per action. `None` when the action space has a continuous
/// dimension (the agent picks among discrete actions only), or when a count
/// does not fit in a `usize`.
pub fn layer_sizes(state_space: &SpaceDims, action_space: &SpaceDims) -> (r: Option<Vec<usize>>)
    ensures
        r is Some <==> (action_space.continuous == 0 && state_space.discrete.len()
            + state_space.continuous <= usize::MAX && dims_product(action_space.discrete@)
            <= usize::MAX),
        r matches Some(sizes) ==> sizes@ == seq![
            (state_space.discrete.len() + state_space.continuous) as usize,
            HIDDEN_UNITS,
            dims_product(action_space.discrete@) as usize,
        ],
{
    if action_space.continuous != 0 {
        return None;
    }
    let inputs = match state_space.discrete.len().checked_add(state_space.continuous) {
        Some(n) => n,
        None => {
            return None;
        },
    };
    let outputs = match space_size(action_space.discrete.as_slice()) {
        Some(n) => n,
        None => {
            return None;
        },
    };
    let sizes = vec![inputs, HIDDEN_UNITS, outputs];
    assert(sizes@ =~= seq![inputs, HIDDEN_UNITS, outputs]);
    Some(sizes)
}

} // verus!
