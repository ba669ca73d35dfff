//! A transform kept as its three parts (translation, rotation, scale), so
//! that transforms can be composed down a hierarchy and blended between clips
//! without building a matrix until one is needed.
use crate::math::{
    add_vec3, lerp_vec3, mat4_from_parts, mat4_of_parts, mat4_parts, mat4_to_parts, mul_quat,
    mul_vec3, quat_from_ints, quat_of_ints, quat_product, quat_rotated, quat_slerp, rotate_vec3,
    slerp_quat, vec3_from_ints, vec3_lerp, vec3_of_ints, vec3_product, vec3_sum, Ratio,
};
use vstd::prelude::*;

verus! {

/// Scale, then rotate, then translate.
#[derive(Debug, Clone, Copy, PartialEq)]
pub struct Transform {
    pub translation: glam::Vec3,
    pub rotation: glam::Quat,
    pub scale: glam::Vec3,
}

impl Transform {
    /// The transform that changes nothing: no translation, no rotation, scale
    /// one.
    pub open spec fn spec_identity() -> Transform {
        Transform {
            translation: vec3_of_ints(0, 0, 0),
            rotation: quat_of_ints(0, 0, 0, 1),
            scale: vec3_of_ints(1, 1, 1),
        }
    }

    /// `child` carried into the space of `self`: the transform that applies
    /// `child` first and `self` after it.
    pub open spec fn compose(self, child: Transform) -> Transform {
        Transform {
            translation: vec3_sum(
                quat_rotated(self.rotation, vec3_product(child.translation, self.scale)),
                self.translation,
            ),
            rotation: quat_product(self.rotation, child.rotation),
            scale: vec3_product(self.scale, child.scale),
        }
    }

    /// `self` moved towards `other` by the fraction `weight`: translation and
    /// scale along a straight line, rotation along the arc.
    pub open spec fn blend(self, other: Transform, weight: Ratio) -> Transform {
        Transform {
            translation: vec3_lerp(
                self.translation,
                other.translation,
                weight.num as int,
                weight.den as int,
            ),
            rotation: quat_slerp(self.rotation, other.rotation, weight.num as int, weight.den as int),
            scale: vec3_lerp(self.scale, other.scale, weight.num as int, weight.den as int),
        }
    }

    /// The matrix of this transform.
    pub open spec fn matrix(self) -> glam::Mat4 {
        mat4_of_parts(self.scale, self.rotation, self.translation)
    }

    /// The transform that a matrix decomposes into.
    pub open spec fn of_matrix(m: glam::Mat4) -> Transform {
        Transform { translation: mat4_parts(m).2, rotation: mat4_parts(m).1, scale: mat4_parts(m).0 }
    }

    /// The identity transform.
    pub fn identity() -> (t: Transform)
        ensures
            t == Transform::spec_identity(),
    {
        Transform {
            translation: vec3_from_ints(0, 0, 0),
            rotation: quat_from_ints(0, 0, 0, 1),
            scale: vec3_from_ints(1, 1, 1),
        }
    }

    /// Splits a matrix into translation, rotation and scale.
    pub fn from_matrix(matrix: glam::Mat4) -> (t: Transform)
        ensures
            t == Transform::of_matrix(matrix),
    {
        let (scale, rotation, translation) = mat4_to_parts(&matrix);
        Transform { translation, rotation, scale }
    }

    /// Builds the matrix `T * R * S` of this transform.
    pub fn compute_matrix(&self) -> (m: glam::Mat4)
        ensures
            m == self.matrix(),
    {
        mat4_from_parts(self.scale, self.rotation, self.translation)
    }

    /// Composes `self`, as the parent, with `transform`, as the child: the
    /// child's translation is scaled and rotated by the parent and moved by
    /// the parent's translation; rotations and scales multiply.
    pub fn mul_transform(&self, transform: Transform) -> (r: Transform)
        ensures
            r == self.compose(transform),
    {
        let scaled = mul_vec3(transform.translation, self.scale);
        let rotated = rotate_vec3(self.rotation, scaled);
        Transform {
            translation: add_vec3(rotated, self.translation),
            rotation: mul_quat(self.rotation, transform.rotation),
            scale: mul_vec3(self.scale, transform.scale),
        }
    }

    /// Blends `transform` into `self` at the given weight.
    pub fn mul_transform_weighted(&self, transform: Transform, weight: Ratio) -> (r: Transform)
        ensures
            r == self.blend(transform, weight),
    {
        Transform {
            translation: lerp_vec3(self.translation, transform.translation, weight),
            rotation: slerp_quat(self.rotation, transform.rotation, weight),
            scale: lerp_vec3(self.scale, transform.scale, weight),
        }
    }
}

} // verus!
