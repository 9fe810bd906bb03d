//! What the synchronisation layer sees of the simulation.
//!
//! The simulation is looked at through a map from the ids of body handles to
//! the state of each body. A handle whose id is not in the map refers to a
//! body that is gone.

use vstd::prelude::*;
use crate::binding::BodyHandle;
use crate::impulse::ActivationState;
use crate::transform::BodyPose;

verus! {

/// The state of one body.
#[derive(Clone, Copy, Debug, PartialEq, Eq)]
pub struct BodyState {
    pub pose: BodyPose,
    pub activation: ActivationState,
}

/// The body that a handle refers to, if it is still there.
pub open spec fn body_of(world: Map<u64, BodyState>, handle: BodyHandle) -> Option<BodyState> {
    if world.contains_key(handle.id) {
        Some(world[handle.id])
    } else {
        None
    }
}

/// Whether the body that a handle refers to is awake, if it is still there.
pub open spec fn activation_of(world: Map<u64, BodyState>, handle: BodyHandle) -> Option<
    ActivationState,
> {
    match body_of(world, handle) {
        Some(body) => Some(body.activation),
        None => None,
    }
}

} // verus!
