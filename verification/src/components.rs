//! The spatial components and the entity identifier: pure data, no behavior.

use vstd::prelude::*;

use crate::math::{Mat4, Vec3i};

verus! {

/// Names a row across the component columns of a [`crate::store::World`].
///
/// An identifier is unique for the lifetime of its entity: the slot index may
/// be reused after deletion, but only under a higher generation, so a stale
/// identifier never names the new occupant.
#[derive(Clone, Copy, PartialEq, Eq, Structural, Debug)]
pub struct EntityId {
    pub index: usize,
    pub gen: u64,
}

/// A 3D position, in subunits.
#[derive(Clone, Copy, PartialEq, Eq, Structural, Debug)]
pub struct Position(pub Vec3i);

impl Position {
    pub fn new(x: i64, y: i64, z: i64) -> (r: Position)
        ensures
            r == Position(Vec3i { x, y, z }),
    {
        Position(Vec3i { x, y, z })
    }
}

/// A 3D velocity, in subunits per time unit; applied only to entities that
/// also carry a [`Position`].
#[derive(Clone, Copy, PartialEq, Eq, Structural, Debug)]
pub struct Velocity(pub Vec3i);

impl Velocity {
    pub fn new(x: i64, y: i64, z: i64) -> (r: Velocity)
        ensures
            r == Velocity(Vec3i { x, y, z }),
    {
        Velocity(Vec3i { x, y, z })
    }
}

/// A scalar angle about the fixed axis, in angle subunits.
#[derive(Clone, Copy, PartialEq, Eq, Structural, Debug)]
pub struct Rotation(pub i64);

/// A 3D scale: integer factors per axis.
#[derive(Clone, Copy, PartialEq, Eq, Structural, Debug)]
pub struct Scale(pub Vec3i);

impl Scale {
    pub fn new(x: i64, y: i64, z: i64) -> (r: Scale)
        ensures
            r == Scale(Vec3i { x, y, z }),
    {
        Scale(Vec3i { x, y, z })
    }
}

/// A local transform matrix. Writes to this component are change-tracked by
/// the store so that the propagation pass recomputes only what changed.
#[derive(Clone, Copy, PartialEq, Eq, Structural, Debug)]
pub struct Transform(pub Mat4);

impl Transform {
    pub fn pos(position: Vec3i) -> (r: Transform)
        ensures
            r == Transform(Mat4::spec_translation(position)),
    {
        Transform(Mat4::translation(position))
    }

    pub fn pos_scale(position: Vec3i, scale: Vec3i) -> (r: Transform)
        ensures
            r == Transform(crate::math::spec_mul(
                Mat4::spec_translation(position),
                Mat4::spec_scaling(scale),
            )),
    {
        Transform(Mat4::translation(position).mul(&Mat4::scaling(scale)))
    }

    /// Pairs the transform with a default global transform, the usual bundle
    /// when an entity enters the hierarchy.
    pub fn with_global(self) -> (r: (Transform, GlobalTransform))
        ensures
            r.0 == self,
            r.1 == GlobalTransform::spec_default(),
    {
        (self, GlobalTransform::identity())
    }
}

/// The resolved transform of an entity: the parent's global matrix recorded
/// when the entity was last propagated, and the entity's own global matrix.
///
/// After a propagation pass, `global == parent * local` holds for every
/// entity the pass wrote.
#[derive(Clone, Copy, PartialEq, Eq, Structural, Debug)]
pub struct GlobalTransform {
    pub parent: Mat4,
    pub global: Mat4,
}

impl GlobalTransform {
    /// The state of a root entity that has not moved: both matrices identity.
    pub open spec fn spec_default() -> GlobalTransform {
        GlobalTransform { parent: Mat4::spec_identity(), global: Mat4::spec_identity() }
    }

    pub fn identity() -> (r: GlobalTransform)
        ensures
            r == GlobalTransform::spec_default(),
    {
        GlobalTransform { parent: Mat4::identity(), global: Mat4::identity() }
    }
}

impl Default for GlobalTransform {
    fn default() -> (r: GlobalTransform)
        ensures
            r == GlobalTransform::spec_default(),
    {
        GlobalTransform::identity()
    }
}

/// The ordered children of an entity, as flat identifiers.
///
/// The sequence may reference entities that do not exist yet or that have
/// been deleted; the traversals treat such references as absent.
#[derive(Clone, PartialEq, Eq, Debug)]
pub struct Children(pub Vec<EntityId>);

impl Children {
    pub fn new(children: Vec<EntityId>) -> (r: Children)
        ensures
            r.0@ == children@,
    {
        Children(children)
    }
}

/// Tag component: marks an entity, and by propagation all its reachable
/// descendants, for removal at the end of the frame.
#[derive(Clone, Copy, PartialEq, Eq, Structural, Debug)]
pub struct Delete;

/// A streamed pose: 17 keypoints, stored as interleaved `x, y` wire values.
#[derive(Clone, PartialEq, Eq, Debug)]
pub struct Pose(pub Vec<i16>);

/// Number of keypoints in a pose.
pub const POSE_KEYPOINTS: usize = 17;

/// Number of stored values in a pose: an `x` and a `y` per keypoint.
pub const POSE_VALUES: usize = 34;

/// Handle of a renderer-side object; entities carrying one have their global
/// matrix pushed to the renderer whenever it changes.
#[derive(Clone, Copy, PartialEq, Eq, Structural, Debug)]
pub struct Rendered(pub u32);

/// Handle of a renderer-side material.
#[derive(Clone, Copy, PartialEq, Eq, Structural, Debug)]
pub struct Material(pub u32);

} // verus!
