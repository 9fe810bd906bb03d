//! Local transforms and the poses that are copied into them.

use vstd::prelude::*;
use crate::scalar::Scalar;
use crate::scalar::ONE_BITS;

verus! {

/// Where a body is and how it is turned, as the simulation reports it.
/// The rotation is already a quaternion, scalar part first.
#[derive(Clone, Copy, Debug, PartialEq, Eq)]
pub struct BodyPose {
    pub position: (Scalar, Scalar),
    pub rotation: (Scalar, Scalar, Scalar, Scalar),
}

/// An entity's placement relative to its parent: a translation in space and
/// a rotation quaternion, scalar part first.
#[derive(Clone, Copy, Debug, PartialEq, Eq)]
pub struct LocalTransform {
    pub translation: (Scalar, Scalar, Scalar),
    pub rotation: (Scalar, Scalar, Scalar, Scalar),
}

impl LocalTransform {
    /// The transform that places nothing: no translation, no rotation.
    pub open spec fn identity_spec() -> LocalTransform {
        LocalTransform {
            translation: (Scalar { bits: 0 }, Scalar { bits: 0 }, Scalar { bits: 0 }),
            rotation: (
                Scalar { bits: ONE_BITS },
                Scalar { bits: 0 },
                Scalar { bits: 0 },
                Scalar { bits: 0 },
            ),
        }
    }

    /// This transform after a pose was copied into it: the pose's position in
    /// the plane, depth zero, and the pose's rotation.
    pub open spec fn with_pose(self, pose: BodyPose) -> LocalTransform {
        LocalTransform {
            translation: (pose.position.0, pose.position.1, Scalar { bits: 0 }),
            rotation: pose.rotation,
        }
    }

    /// The part of the translation that lies in the simulation's plane.
    pub open spec fn planar_spec(self) -> (Scalar, Scalar) {
        (self.translation.0, self.translation.1)
    }

    pub fn identity() -> (t: LocalTransform)
        ensures
            t == Self::identity_spec(),
    {
        LocalTransform {
            translation: (Scalar::zero(), Scalar::zero(), Scalar::zero()),
            rotation: (Scalar::one(), Scalar::zero(), Scalar::zero(), Scalar::zero()),
        }
    }

    #[verifier::when_used_as_spec(planar_spec)]
    pub fn planar(self) -> (p: (Scalar, Scalar))
        ensures
            p == self.planar_spec(),
    {
        (self.translation.0, self.translation.1)
    }

    /// Copies a pose into the transform, replacing what it held.
    pub fn set_pose(&mut self, pose: &BodyPose)
        ensures
            *final(self) == old(self).with_pose(*pose),
    {
        self.translation = (pose.position.0, pose.position.1, Scalar::zero());
        self.rotation = pose.rotation;
    }
}

impl Default for LocalTransform {
    fn default() -> (t: LocalTransform)
        ensures
            t == LocalTransform::identity_spec(),
    {
        LocalTransform::identity()
    }
}

/// Copying the same pose a second time changes nothing.
pub proof fn lemma_with_pose_idempotent(t: LocalTransform, pose: BodyPose)
    ensures
        t.with_pose(pose).with_pose(pose) == t.with_pose(pose),
{
}

} // verus!
