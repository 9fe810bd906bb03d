//! The processor: one frame at a time, every step in its turn.
//!
//! A frame begins with the elapsed time, goes through the three passes over
//! the entities, and ends by handing out the time by which the simulation is
//! to advance. The processor refuses a step that is asked for out of its
//! turn, so the simulation advances once per frame, after every binding and
//! every impulse of that frame, or not at all.

use vstd::prelude::*;
use std::collections::HashMap;
use crate::entity::Entity;
use crate::entity::TargetedCommand;
use crate::error::SyncError;
use crate::frame::InsertAnswer;
use crate::frame::InsertRequest;
use crate::frame::bind_entities;
use crate::frame::bound_all;
use crate::frame::drain_impulses;
use crate::frame::drained_all;
use crate::frame::frame_commands;
use crate::frame::insert_requests;
use crate::frame::sync_entities;
use crate::frame::synced_all;
use crate::scalar::Scalar;
use crate::world::BodyState;

verus! {

/// The word of the downward pull that a new processor asks for, 9.81.
pub const GRAVITY_BITS: u32 = 0x411C_F5C3;

/// Where a processor stands in its frame. The name of a phase is the step
/// that is due next.
#[derive(Clone, Copy, Debug, PartialEq, Eq)]
pub enum Phase {
    /// No frame is under way.
    Idle,
    /// Poses are to be read back and the bodies to create collected.
    Sync,
    /// The handles of the created bodies are to be recorded.
    Bind,
    /// The impulse requests are to be consumed.
    Impulse,
    /// The frame is to end and the simulation to advance.
    Step,
}

/// What a processor holds.
pub struct ProcessorView {
    pub gravity: (Scalar, Scalar),
    pub phase: Phase,
    pub delta: Scalar,
}

/// The processor of the physics frame. While a frame is under way, the
/// elapsed time that it holds is at least zero.
#[derive(Clone, Copy, Debug, PartialEq, Eq)]
pub struct PhysicsProcessor {
    gravity: (Scalar, Scalar),
    phase: Phase,
    delta: Scalar,
}

impl PhysicsProcessor {
    #[verifier::type_invariant]
    spec fn delta_is_valid(self) -> bool {
        !(self.phase is Idle) ==> self.delta.is_non_negative_spec()
    }

    pub closed spec fn view(&self) -> ProcessorView {
        ProcessorView { gravity: self.gravity, phase: self.phase, delta: self.delta }
    }

    /// A processor between frames, for a simulation whose gravity pulls along
    /// the second axis with 9.81.
    pub fn new() -> (p: PhysicsProcessor)
        ensures
            p@ == (ProcessorView {
                gravity: (Scalar { bits: 0 }, Scalar { bits: GRAVITY_BITS }),
                phase: Phase::Idle,
                delta: Scalar { bits: 0 },
            }),
    {
        PhysicsProcessor {
            gravity: (Scalar::zero(), Scalar::from_bits(GRAVITY_BITS)),
            phase: Phase::Idle,
            delta: Scalar::zero(),
        }
    }

    /// The gravity that the simulation is to be set up with.
    pub fn gravity(&self) -> (g: (Scalar, Scalar))
        ensures
            g == self@.gravity,
    {
        self.gravity
    }

    pub fn phase(&self) -> (p: Phase)
        ensures
            p == self@.phase,
    {
        self.phase
    }

    /// Begins a frame that has taken `dt` seconds. A frame cannot begin while
    /// another is under way, and not with an elapsed time that is negative or
    /// not a number; zero is in order.
    pub fn begin_frame(&mut self, dt: Scalar) -> (r: Result<(), SyncError>)
        ensures
            !(old(self)@.phase is Idle) ==> r == Err::<(), SyncError>(SyncError::FrameInProgress)
                && *final(self) == *old(self),
            old(self)@.phase is Idle && !dt.is_non_negative_spec() ==> r == Err::<(), SyncError>(
                SyncError::NegativeDelta,
            ) && *final(self) == *old(self),
            old(self)@.phase is Idle && dt.is_non_negative_spec() ==> r == Ok::<(), SyncError>(())
                && final(self)@ == (ProcessorView { phase: Phase::Sync, delta: dt, ..old(self)@ }),
    {
        match self.phase {
            Phase::Idle => {},
            _ => {
                return Err(SyncError::FrameInProgress);
            },
        }
        if !dt.is_non_negative() {
            return Err(SyncError::NegativeDelta);
        }
        self.delta = dt;
        self.phase = Phase::Sync;
        Ok(())
    }

    /// The first step of a frame: reads the pose of every bound entity back
    /// into its transform and returns the bodies to create for the pending
    /// ones.
    pub fn sync(&mut self, entities: &mut Vec<Entity>, world: &HashMap<u64, BodyState>) -> (r:
        Result<Vec<InsertRequest>, SyncError>)
        ensures
            !(old(self)@.phase is Sync) ==> {
                &&& r matches Err(e)
                &&& e == SyncError::OutOfTurn
                &&& *final(self) == *old(self)
                &&& final(entities)@ == old(entities)@
            },
            old(self)@.phase is Sync ==> {
                &&& r matches Ok(requests)
                &&& requests@ == insert_requests(old(entities)@)
                &&& forall|k: int|
                    0 <= k < requests@.len() ==> (#[trigger] requests@[k]).placement.descriptor
                        .is_well_formed_spec()
                &&& final(entities)@ == synced_all(old(entities)@, world@)
                &&& final(self)@ == (ProcessorView { phase: Phase::Bind, ..old(self)@ })
            },
    {
        proof {
            use_type_invariant(&*self);
        }
        match self.phase {
            Phase::Sync => {},
            _ => {
                return Err(SyncError::OutOfTurn);
            },
        }
        let requests = sync_entities(entities, world);
        self.phase = Phase::Bind;
        Ok(requests)
    }

    /// The second step of a frame: records the handles of the bodies that
    /// were created for the requests of the first step.
    pub fn complete_bindings(&mut self, entities: &mut Vec<Entity>, answers: &Vec<InsertAnswer>) -> (r:
        Result<(), SyncError>)
        ensures
            !(old(self)@.phase is Bind) ==> {
                &&& r == Err::<(), SyncError>(SyncError::OutOfTurn)
                &&& *final(self) == *old(self)
                &&& final(entities)@ == old(entities)@
            },
            old(self)@.phase is Bind ==> {
                &&& r == Ok::<(), SyncError>(())
                &&& final(entities)@ == bound_all(old(entities)@, answers@)
                &&& final(self)@ == (ProcessorView { phase: Phase::Impulse, ..old(self)@ })
            },
    {
        proof {
            use_type_invariant(&*self);
        }
        match self.phase {
            Phase::Bind => {},
            _ => {
                return Err(SyncError::OutOfTurn);
            },
        }
        bind_entities(entities, answers);
        self.phase = Phase::Impulse;
        Ok(())
    }

    /// The third step of a frame: consumes the impulse request of every bound
    /// entity and returns the commands for the bodies.
    pub fn apply_impulses(
        &mut self,
        entities: &mut Vec<Entity>,
        world: &HashMap<u64, BodyState>,
    ) -> (r: Result<Vec<TargetedCommand>, SyncError>)
        ensures
            !(old(self)@.phase is Impulse) ==> {
                &&& r matches Err(e)
                &&& e == SyncError::OutOfTurn
                &&& *final(self) == *old(self)
                &&& final(entities)@ == old(entities)@
            },
            old(self)@.phase is Impulse ==> {
                &&& r matches Ok(commands)
                &&& commands@ == frame_commands(old(entities)@, world@)
                &&& final(entities)@ == drained_all(old(entities)@)
                &&& final(self)@ == (ProcessorView { phase: Phase::Step, ..old(self)@ })
            },
    {
        proof {
            use_type_invariant(&*self);
        }
        match self.phase {
            Phase::Impulse => {},
            _ => {
                return Err(SyncError::OutOfTurn);
            },
        }
        let commands = drain_impulses(entities, world);
        self.phase = Phase::Step;
        Ok(commands)
    }

    /// The last step of a frame: ends it and returns the time, at least zero,
    /// by which the simulation is to advance.
    pub fn end_frame(&mut self) -> (r: Result<Scalar, SyncError>)
        ensures
            !(old(self)@.phase is Step) ==> r == Err::<Scalar, SyncError>(SyncError::OutOfTurn)
                && *final(self) == *old(self),
            old(self)@.phase is Step ==> {
                &&& r == Ok::<Scalar, SyncError>(old(self)@.delta)
                &&& old(self)@.delta.is_non_negative_spec()
                &&& final(self)@ == (ProcessorView { phase: Phase::Idle, ..old(self)@ })
            },
    {
        proof {
            use_type_invariant(&*self);
        }
        match self.phase {
            Phase::Step => {},
            _ => {
                return Err(SyncError::OutOfTurn);
            },
        }
        self.phase = Phase::Idle;
        Ok(self.delta)
    }
}

} // verus!
