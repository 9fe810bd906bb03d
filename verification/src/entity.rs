//! One entity's components, and the rules of a frame for one entity.

use vstd::prelude::*;
use std::collections::HashMap;
use crate::binding::Binding;
use crate::binding::BodyDescriptor;
use crate::binding::BodyHandle;
use crate::binding::PhysicsComponent;
use crate::impulse::BodyCommand;
use crate::impulse::ImpulseComponent;
use crate::scalar::Scalar;
use crate::transform::LocalTransform;
use crate::world::BodyState;
use crate::world::activation_of;
use crate::world::body_of;

verus! {

broadcast use vstd::std_specs::hash::group_hash_axioms;

/// A body to create: the descriptor as the entity holds it, and the entity's
/// placement in the plane, which the simulation adds to the descriptor's
/// position once, when it creates the body.
#[derive(Clone, Copy, Debug, PartialEq, Eq)]
pub struct BodyPlacement {
    pub descriptor: BodyDescriptor,
    pub offset: (Scalar, Scalar),
}

/// A command together with the body that it is for.
#[derive(Clone, Copy, Debug, PartialEq, Eq)]
pub struct TargetedCommand {
    pub handle: BodyHandle,
    pub command: BodyCommand,
}

/// The commands of one body, each with the body's handle.
pub open spec fn addressed(handle: BodyHandle, commands: Seq<BodyCommand>) -> Seq<TargetedCommand> {
    Seq::new(commands.len(), |i: int| TargetedCommand { handle: handle, command: commands[i] })
}

/// The components of one entity that the synchronisation layer reads or
/// writes. An entity may lack any of them.
#[derive(Clone, Copy, Debug, PartialEq, Eq)]
pub struct Entity {
    pub binding: Option<PhysicsComponent>,
    pub transform: Option<LocalTransform>,
    pub impulse: Option<ImpulseComponent>,
}

impl Entity {
    /// The handle of the entity's body, if the entity has a binding and the
    /// binding is bound.
    pub open spec fn bound_handle_spec(self) -> Option<BodyHandle> {
        match self.binding {
            Some(c) => match c@ {
                Binding::Bound(h) => Some(h),
                Binding::Pending(_) => None,
            },
            None => None,
        }
    }

    /// The entity after its body's pose was read back: an entity that has a
    /// transform and is bound to a body that is still there gets the body's
    /// pose; every other entity is left as it is.
    pub open spec fn synced(self, world: Map<u64, BodyState>) -> Entity {
        match (self.bound_handle_spec(), self.transform) {
            (Some(h), Some(t)) => match body_of(world, h) {
                Some(body) => Entity { transform: Some(t.with_pose(body.pose)), ..self },
                None => self,
            },
            _ => self,
        }
    }

    /// The body that is to be created for the entity: one for an entity that
    /// has a transform and a pending binding, placed where the transform is.
    pub open spec fn placement_spec(self) -> Option<BodyPlacement> {
        match (self.binding, self.transform) {
            (Some(c), Some(t)) => match c@ {
                Binding::Pending(d) => Some(
                    BodyPlacement { descriptor: d, offset: t.planar_spec() },
                ),
                Binding::Bound(_) => None,
            },
            _ => None,
        }
    }

    /// The entity after the handle of a created body was offered to it. Only
    /// an entity that is due a body takes the handle: one with a transform
    /// and a pending binding. Every other entity is left as it is.
    pub open spec fn bound_to(self, handle: BodyHandle) -> Entity {
        match (self.placement_spec(), self.binding) {
            (Some(_), Some(c)) => Entity { binding: Some(c.bound_to(handle)), ..self },
            _ => self,
        }
    }

    /// The body whose state decides what the entity's impulse request amounts
    /// to: that of an entity that is bound and has a request that is not
    /// empty.
    pub open spec fn impulse_target_spec(self) -> Option<BodyHandle> {
        match (self.bound_handle_spec(), self.impulse) {
            (Some(h), Some(r)) => if r.is_empty_spec() {
                None
            } else {
                Some(h)
            },
            _ => None,
        }
    }

    /// The commands that the entity's impulse request amounts to.
    pub open spec fn impulse_commands(self, world: Map<u64, BodyState>) -> Seq<TargetedCommand> {
        match (self.bound_handle_spec(), self.impulse) {
            (Some(h), Some(r)) => addressed(h, r.commands_for(activation_of(world, h))),
            _ => Seq::<TargetedCommand>::empty(),
        }
    }

    /// The entity after its impulse request was consumed: the request of a
    /// bound entity is empty afterwards, whether its body was found or not.
    pub open spec fn drained(self) -> Entity {
        match (self.bound_handle_spec(), self.impulse) {
            (Some(_), Some(_)) => Entity {
                impulse: Some(ImpulseComponent::empty_spec()),
                ..self
            },
            _ => self,
        }
    }

    #[verifier::when_used_as_spec(bound_handle_spec)]
    pub fn bound_handle(self) -> (r: Option<BodyHandle>)
        ensures
            r == self.bound_handle_spec(),
    {
        match self.binding {
            Some(c) => c.handle(),
            None => None,
        }
    }

    /// Reads the pose of the entity's body back into its transform.
    pub fn read_pose(&mut self, world: &HashMap<u64, BodyState>)
        ensures
            *final(self) == old(self).synced(world@),
    {
        let handle = match self.bound_handle() {
            Some(h) => h,
            None => {
                return ;
            },
        };
        let mut transform = match self.transform {
            Some(t) => t,
            None => {
                return ;
            },
        };
        match world.get(&handle.id) {
            Some(body) => {
                transform.set_pose(&body.pose);
                self.transform = Some(transform);
            },
            None => {},
        }
    }

    /// The body to create for this entity, if one is due. The descriptor that
    /// is handed out is well formed.
    #[verifier::when_used_as_spec(placement_spec)]
    pub fn placement(self) -> (r: Option<BodyPlacement>)
        ensures
            r == self.placement_spec(),
            r matches Some(p) ==> p.descriptor.is_well_formed_spec(),
    {
        let component = match self.binding {
            Some(c) => c,
            None => {
                return None;
            },
        };
        let transform = match self.transform {
            Some(t) => t,
            None => {
                return None;
            },
        };
        match component.descriptor() {
            Some(d) => Some(BodyPlacement { descriptor: d, offset: transform.planar() }),
            None => None,
        }
    }

    /// Records the handle of the body that was created for this entity.
    /// Returns whether the entity took it: it does if it was due a body.
    pub fn bind(&mut self, handle: BodyHandle) -> (taken: bool)
        ensures
            *final(self) == old(self).bound_to(handle),
            taken == (old(self).placement_spec() is Some),
    {
        if self.placement().is_none() {
            return false;
        }
        match self.binding {
            Some(c) => {
                let mut component = c;
                let taken = component.bind(handle);
                self.binding = Some(component);
                taken
            },
            None => false,
        }
    }

    #[verifier::when_used_as_spec(impulse_target_spec)]
    pub fn impulse_target(self) -> (r: Option<BodyHandle>)
        ensures
            r == self.impulse_target_spec(),
    {
        match (self.bound_handle(), self.impulse) {
            (Some(h), Some(r)) => if r.is_empty() {
                None
            } else {
                Some(h)
            },
            _ => None,
        }
    }

    /// Consumes the entity's impulse request against the state of its body.
    pub fn take_impulses(&mut self, world: &HashMap<u64, BodyState>) -> (commands: Vec<
        TargetedCommand,
    >)
        ensures
            *final(self) == old(self).drained(),
            commands@ == old(self).impulse_commands(world@),
    {
        let mut out: Vec<TargetedCommand> = Vec::new();
        let handle = match self.bound_handle() {
            Some(h) => h,
            None => {
                return out;
            },
        };
        let mut request = match self.impulse {
            Some(r) => r,
            None => {
                return out;
            },
        };
        let found = match world.get(&handle.id) {
            Some(body) => Some(body.activation),
            None => None,
        };
        let ghost asked = request;
        let commands = request.consume(found);
        self.impulse = Some(request);
        let n = commands.len();
        let mut i: usize = 0;
        while i < n
            invariant
                i <= n,
                n == commands@.len(),
                out@ == addressed(handle, commands@.take(i as int)),
            decreases n - i,
        {
            out.push(TargetedCommand { handle: handle, command: commands[i] });
            assert(out@ =~= addressed(handle, commands@.take(i + 1)));
            i += 1;
        }
        assert(commands@.take(n as int) =~= commands@);
        out
    }
}

} // verus!
