//! What the synchronisation layer reports to its caller.

use vstd::prelude::*;

verus! {

/// A contract that the caller broke. Nothing is clamped or repaired: the call
/// that reports one of these has changed nothing.
#[derive(Clone, Copy, Debug, PartialEq, Eq)]
pub enum SyncError {
    /// A body descriptor holds a field that is not a number, or a negative
    /// extent, mass, friction or restitution.
    MalformedDescriptor,
    /// The frame's elapsed time is negative or not a number.
    NegativeDelta,
    /// A frame was begun while another one had not ended.
    FrameInProgress,
    /// A step of the frame was asked for out of its turn.
    OutOfTurn,
}

} // verus!
