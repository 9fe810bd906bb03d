//! The record of whether an entity's body exists yet.
//!
//! A binding starts out `Pending`, holding the descriptor from which the body
//! will be made, and becomes `Bound` once the simulation has handed out a
//! handle for the body. It never goes back.

use vstd::prelude::*;
use crate::error::SyncError;
use crate::scalar::Scalar;

verus! {

/// A stable reference to a body in the simulation.
#[derive(Clone, Copy, Debug, PartialEq, Eq, Hash)]
pub struct BodyHandle {
    pub id: u64,
}

/// The outline of a body.
#[derive(Clone, Copy, Debug, PartialEq, Eq)]
pub enum Shape {
    /// A box, given by half its width and half its height.
    Cuboid { half_extents: (Scalar, Scalar) },
    /// A disc.
    Ball { radius: Scalar },
}

impl Shape {
    /// Every extent is a number and at least zero.
    pub open spec fn is_well_formed_spec(self) -> bool {
        match self {
            Shape::Cuboid { half_extents } => {
                half_extents.0.is_non_negative_spec() && half_extents.1.is_non_negative_spec()
            },
            Shape::Ball { radius } => radius.is_non_negative_spec(),
        }
    }

    #[verifier::when_used_as_spec(is_well_formed_spec)]
    pub fn is_well_formed(self) -> (r: bool)
        ensures
            r == self.is_well_formed_spec(),
    {
        match self {
            Shape::Cuboid { half_extents } => {
                half_extents.0.is_non_negative() && half_extents.1.is_non_negative()
            },
            Shape::Ball { radius } => radius.is_non_negative(),
        }
    }
}

/// A body that has not been created yet. A body without a mass is fixed in
/// place. The position is where the body sits before the entity's own
/// placement is added to it.
#[derive(Clone, Copy, Debug, PartialEq, Eq)]
pub struct BodyDescriptor {
    pub shape: Shape,
    pub mass: Option<Scalar>,
    pub friction: Scalar,
    pub restitution: Scalar,
    pub position: (Scalar, Scalar),
}

impl BodyDescriptor {
    /// The shape is well formed; mass, friction and restitution are numbers
    /// and at least zero; both coordinates of the position are numbers.
    pub open spec fn is_well_formed_spec(self) -> bool {
        &&& self.shape.is_well_formed_spec()
        &&& (self.mass matches Some(m) ==> m.is_non_negative_spec())
        &&& self.friction.is_non_negative_spec()
        &&& self.restitution.is_non_negative_spec()
        &&& !self.position.0.is_nan_spec()
        &&& !self.position.1.is_nan_spec()
    }

    #[verifier::when_used_as_spec(is_well_formed_spec)]
    pub fn is_well_formed(self) -> (r: bool)
        ensures
            r == self.is_well_formed_spec(),
    {
        let mass_ok = match self.mass {
            Some(m) => m.is_non_negative(),
            None => true,
        };
        self.shape.is_well_formed() && mass_ok && self.friction.is_non_negative()
            && self.restitution.is_non_negative() && !self.position.0.is_nan()
            && !self.position.1.is_nan()
    }
}

/// The two states of a binding.
#[derive(Clone, Copy, Debug, PartialEq, Eq)]
pub enum Binding {
    /// No body yet: the descriptor it will be made from.
    Pending(BodyDescriptor),
    /// The body exists under this handle.
    Bound(BodyHandle),
}

impl Binding {
    /// The binding after a handle was offered to it: a pending binding takes
    /// the handle, a bound one keeps its own.
    pub open spec fn bound_to(self, handle: BodyHandle) -> Binding {
        match self {
            Binding::Pending(_) => Binding::Bound(handle),
            Binding::Bound(_) => self,
        }
    }
}

/// The binding component of an entity. Its descriptor, while it holds one, is
/// well formed.
#[derive(Clone, Copy, Debug, PartialEq, Eq)]
pub struct PhysicsComponent {
    state: Binding,
}

impl PhysicsComponent {
    #[verifier::type_invariant]
    spec fn descriptor_is_well_formed(self) -> bool {
        self.state matches Binding::Pending(d) ==> d.is_well_formed_spec()
    }

    /// The state of the binding.
    pub closed spec fn view(&self) -> Binding {
        self.state
    }

    /// A pending binding for a body that is still to be created. A malformed
    /// descriptor is refused here, before it can reach the simulation.
    pub fn new(descriptor: BodyDescriptor) -> (r: Result<PhysicsComponent, SyncError>)
        ensures
            r is Ok <==> descriptor.is_well_formed_spec(),
            r matches Ok(c) ==> c@ == Binding::Pending(descriptor),
            r matches Err(e) ==> e == SyncError::MalformedDescriptor,
    {
        if descriptor.is_well_formed() {
            Ok(PhysicsComponent { state: Binding::Pending(descriptor) })
        } else {
            Err(SyncError::MalformedDescriptor)
        }
    }

    /// A pending binding for a body that is to sit at `position` before its
    /// entity's placement is added: the descriptor with its position
    /// replaced.
    pub fn with_position(descriptor: BodyDescriptor, position: (Scalar, Scalar)) -> (r: Result<
        PhysicsComponent,
        SyncError,
    >)
        ensures
            r is Ok <==> (BodyDescriptor { position: position, ..descriptor }).is_well_formed_spec(),
            r matches Ok(c) ==> c@ == Binding::Pending(
                BodyDescriptor { position: position, ..descriptor },
            ),
            r matches Err(e) ==> e == SyncError::MalformedDescriptor,
    {
        let mut placed = descriptor;
        placed.position = position;
        PhysicsComponent::new(placed)
    }

    /// A binding to a body that exists already.
    pub fn bound(handle: BodyHandle) -> (c: PhysicsComponent)
        ensures
            c@ == Binding::Bound(handle),
    {
        PhysicsComponent { state: Binding::Bound(handle) }
    }

    pub fn binding(&self) -> (b: Binding)
        ensures
            b == self@,
            b matches Binding::Pending(d) ==> d.is_well_formed_spec(),
    {
        proof {
            use_type_invariant(self);
        }
        self.state
    }

    pub fn is_bound(&self) -> (r: bool)
        ensures
            r == (self@ is Bound),
    {
        match self.state {
            Binding::Bound(_) => true,
            Binding::Pending(_) => false,
        }
    }

    /// The body's handle, once there is one.
    pub fn handle(&self) -> (r: Option<BodyHandle>)
        ensures
            r == (match self@ {
                Binding::Bound(h) => Some(h),
                Binding::Pending(_) => None::<BodyHandle>,
            }),
    {
        match self.state {
            Binding::Bound(h) => Some(h),
            Binding::Pending(_) => None,
        }
    }

    /// The descriptor of the body that is still to be created.
    pub fn descriptor(&self) -> (r: Option<BodyDescriptor>)
        ensures
            r == (match self@ {
                Binding::Pending(d) => Some(d),
                Binding::Bound(_) => None::<BodyDescriptor>,
            }),
            r matches Some(d) ==> d.is_well_formed_spec(),
    {
        proof {
            use_type_invariant(self);
        }
        match self.state {
            Binding::Pending(d) => Some(d),
            Binding::Bound(_) => None,
        }
    }

    /// The component after a handle was offered to it.
    pub closed spec fn bound_to(self, handle: BodyHandle) -> PhysicsComponent {
        PhysicsComponent { state: self.state.bound_to(handle) }
    }

    /// Records the handle of the body that was created for this binding.
    /// Returns whether the binding took it: a binding that is bound already
    /// keeps the handle it has.
    pub fn bind(&mut self, handle: BodyHandle) -> (taken: bool)
        ensures
            *final(self) == old(self).bound_to(handle),
            final(self)@ == old(self)@.bound_to(handle),
            taken == (old(self)@ is Pending),
    {
        match self.state {
            Binding::Pending(_) => {
                self.state = Binding::Bound(handle);
                true
            },
            Binding::Bound(_) => false,
        }
    }
}

/// A component is what its state is, and offering it a handle is offering
/// the handle to its state.
pub proof fn lemma_component_by_state(a: PhysicsComponent, b: PhysicsComponent, handle: BodyHandle)
    ensures
        a@ == b@ ==> a == b,
        a.bound_to(handle)@ == a@.bound_to(handle),
        a@ is Bound ==> a.bound_to(handle) == a,
{
}

/// Once bound, a binding stays bound to the same body, whatever handles are
/// offered to it afterwards.
pub proof fn lemma_bound_is_final(b: Binding, first: BodyHandle, second: BodyHandle)
    ensures
        b.bound_to(first) is Bound,
        b.bound_to(first).bound_to(second) == b.bound_to(first),
        b is Bound ==> b.bound_to(first) == b,
{
}

} // verus!
