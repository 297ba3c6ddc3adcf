//! Plain geometric values shared by the scene, the camera and the renderer.
//!
//! In executable code `==` compares their coordinates as numbers.

use crate::scalar::Scalar;
use vstd::prelude::*;
use vstd::std_specs::cmp::{PartialEqSpec, PartialEqSpecImpl};

verus! {

/// A point in world space.
#[derive(Debug, Clone, Copy)]
pub struct Point3 {
    pub x: Scalar,
    pub y: Scalar,
    pub z: Scalar,
}

/// A displacement or a scale in world space.
#[derive(Debug, Clone, Copy)]
pub struct Vector3 {
    pub x: Scalar,
    pub y: Scalar,
    pub z: Scalar,
}

/// A rotation: scalar part `s` and vector part `v`.
#[derive(Debug, Clone, Copy)]
pub struct Quaternion {
    pub s: Scalar,
    pub v: Vector3,
}

impl Point3 {
    /// Each coordinate is the same number.
    pub open spec fn same(self, other: Point3) -> bool {
        self.x.same(other.x) && self.y.same(other.y) && self.z.same(other.z)
    }
}

impl PartialEq for Point3 {
    fn eq(&self, other: &Point3) -> (r: bool) {
        self.x == other.x && self.y == other.y && self.z == other.z
    }
}

impl PartialEqSpecImpl for Point3 {
    open spec fn obeys_eq_spec() -> bool {
        true
    }

    open spec fn eq_spec(&self, other: &Point3) -> bool {
        self.same(*other)
    }
}

impl Vector3 {
    /// Each coordinate is the same number.
    pub open spec fn same(self, other: Vector3) -> bool {
        self.x.same(other.x) && self.y.same(other.y) && self.z.same(other.z)
    }
}

impl PartialEq for Vector3 {
    fn eq(&self, other: &Vector3) -> (r: bool) {
        self.x == other.x && self.y == other.y && self.z == other.z
    }
}

impl PartialEqSpecImpl for Vector3 {
    open spec fn obeys_eq_spec() -> bool {
        true
    }

    open spec fn eq_spec(&self, other: &Vector3) -> bool {
        self.same(*other)
    }
}

impl Quaternion {
    /// Each coordinate is the same number.
    pub open spec fn same(self, other: Quaternion) -> bool {
        self.s.same(other.s) && self.v.same(other.v)
    }
}

impl PartialEq for Quaternion {
    fn eq(&self, other: &Quaternion) -> (r: bool) {
        self.s == other.s && self.v == other.v
    }
}

impl PartialEqSpecImpl for Quaternion {
    open spec fn obeys_eq_spec() -> bool {
        true
    }

    open spec fn eq_spec(&self, other: &Quaternion) -> bool {
        self.same(*other)
    }
}

/// An axis-aligned rectangle in whole pixels.
#[derive(Debug, Clone, Copy, PartialEq, Eq, Structural)]
pub struct Rect {
    pub x: i32,
    pub y: i32,
    pub w: i32,
    pub h: i32,
}

/// Points, displacements and rotations are the same exactly when every one of
/// their coordinates is the same number.
pub proof fn law_equality_by_coordinates(
    points: (Point3, Point3),
    vectors: (Vector3, Vector3),
    rotations: (Quaternion, Quaternion),
)
    ensures
        points.0.same(points.1) <==> points.0.x.same(points.1.x) && points.0.y.same(points.1.y)
            && points.0.z.same(points.1.z),
        vectors.0.same(vectors.1) <==> vectors.0.x.same(vectors.1.x) && vectors.0.y.same(
            vectors.1.y,
        ) && vectors.0.z.same(vectors.1.z),
        rotations.0.same(rotations.1) <==> rotations.0.s.same(rotations.1.s)
            && rotations.0.v.x.same(rotations.1.v.x) && rotations.0.v.y.same(rotations.1.v.y)
            && rotations.0.v.z.same(rotations.1.v.z),
{
}

/// `==` on points, vectors and rotations compares every coordinate.
pub proof fn law_equals_by_coordinates(
    points: (Point3, Point3),
    vectors: (Vector3, Vector3),
    rotations: (Quaternion, Quaternion),
)
    ensures
        PartialEqSpec::eq_spec(&points.0, &points.1) <==> points.0.x.same(points.1.x)
            && points.0.y.same(points.1.y) && points.0.z.same(points.1.z),
        PartialEqSpec::eq_spec(&vectors.0, &vectors.1) <==> vectors.0.x.same(vectors.1.x)
            && vectors.0.y.same(vectors.1.y) && vectors.0.z.same(vectors.1.z),
        PartialEqSpec::eq_spec(&rotations.0, &rotations.1) <==> rotations.0.s.same(rotations.1.s)
            && rotations.0.v.x.same(rotations.1.v.x) && rotations.0.v.y.same(rotations.1.v.y)
            && rotations.0.v.z.same(rotations.1.v.z),
{
}

} // verus!
