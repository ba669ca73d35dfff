//! The vector, quaternion and matrix arithmetic that the animation code
//! relies on. All of it is done by `glam`; this module declares the `glam`
//! types that run through the library, gives a name to the result of each
//! `glam` operation used, and wraps each operation in a function whose
//! contract equates its result with that name.
//!
//! Nothing is proved of `glam` here. The names say only that an operation's
//! result is determined by its operands; what the numbers are is `glam`'s
//! business.
//!
//! Interpolation factors and blend weights are handed over as a fraction of
//! two whole numbers, which is how the rest of the library keeps time.
use vstd::prelude::*;

verus! {

/// `glam::Vec3`, a vector of three single-precision components.
#[verifier::external_type_specification]
#[verifier::external_body]
pub struct ExVec3(glam::Vec3);

/// `glam::Vec2`, a vector of two single-precision components.
#[verifier::external_type_specification]
#[verifier::external_body]
pub struct ExVec2(glam::Vec2);

/// `glam::Quat`, a quaternion that stands for a rotation.
#[verifier::external_type_specification]
#[verifier::external_body]
pub struct ExQuat(glam::Quat);

/// `glam::Mat4`, a 4x4 matrix in column-major order.
#[verifier::external_type_specification]
#[verifier::external_body]
pub struct ExMat4(glam::Mat4);

/// A fraction of two whole numbers: an interpolation factor or a blend
/// weight. A fraction with `den == 0` has no value; the library never makes
/// one where it interpolates.
#[derive(Debug, Clone, Copy, PartialEq, Eq, Structural)]
pub struct Ratio {
    pub num: u64,
    pub den: u64,
}

impl Ratio {
    /// The fraction `num / den`.
    pub fn new(num: u64, den: u64) -> (r: Ratio)
        ensures
            r == (Ratio { num, den }),
    {
        Ratio { num, den }
    }

    /// The weight 1: all of what is blended in.
    pub open spec fn one() -> Ratio {
        Ratio { num: 1, den: 1 }
    }

    /// The weight 1.
    pub fn full() -> (r: Ratio)
        ensures
            r == Ratio::one(),
    {
        Ratio { num: 1, den: 1 }
    }

    /// Whether `self` and `other` are the same number, compared by cross
    /// multiplication.
    pub open spec fn same_value(self, other: Ratio) -> bool {
        self.num * other.den == other.num * self.den
    }
}

/// The vector that `glam` makes of the whole numbers `x`, `y`.
pub uninterp spec fn vec2_of_ints(x: int, y: int) -> glam::Vec2;

/// The vector that `glam` makes of the whole numbers `x`, `y`, `z`.
pub uninterp spec fn vec3_of_ints(x: int, y: int, z: int) -> glam::Vec3;

/// The quaternion that `glam` makes of the whole numbers `x`, `y`, `z`, `w`.
pub uninterp spec fn quat_of_ints(x: int, y: int, z: int, w: int) -> glam::Quat;

/// The component-wise sum `a + b`.
pub uninterp spec fn vec3_sum(a: glam::Vec3, b: glam::Vec3) -> glam::Vec3;

/// The component-wise product `a * b`.
pub uninterp spec fn vec3_product(a: glam::Vec3, b: glam::Vec3) -> glam::Vec3;

/// The vector `v` turned by the rotation `q`.
pub uninterp spec fn quat_rotated(q: glam::Quat, v: glam::Vec3) -> glam::Vec3;

/// The quaternion product `a * b`: the rotation `b` followed by `a`.
pub uninterp spec fn quat_product(a: glam::Quat, b: glam::Quat) -> glam::Quat;

/// The point the fraction `num / den` of the way from `a` to `b` on the
/// straight line between them.
pub uninterp spec fn vec3_lerp(a: glam::Vec3, b: glam::Vec3, num: int, den: int) -> glam::Vec3;

/// The rotation the fraction `num / den` of the way from `a` to `b` along the
/// shorter arc between them.
pub uninterp spec fn quat_slerp(a: glam::Quat, b: glam::Quat, num: int, den: int) -> glam::Quat;

/// The matrix that scales by `scale`, then turns by `rotation`, then moves by
/// `translation`.
pub uninterp spec fn mat4_of_parts(
    scale: glam::Vec3,
    rotation: glam::Quat,
    translation: glam::Vec3,
) -> glam::Mat4;

/// The scale, rotation and translation that `glam` reads out of the matrix
/// `m`, in that order.
pub uninterp spec fn mat4_parts(m: glam::Mat4) -> (glam::Vec3, glam::Quat, glam::Vec3);

/// What `glam` computes as the inverse of the matrix `m`.
pub uninterp spec fn mat4_inverse(m: glam::Mat4) -> glam::Mat4;

/// `glam::IVec2::as_vec2` on `glam::IVec2::new(x, y)`: the result is
/// determined by the two numbers.
#[verifier::external_body]
pub(crate) fn vec2_from_ints(x: i32, y: i32) -> (r: glam::Vec2)
    ensures
        r == vec2_of_ints(x as int, y as int),
{
    glam::IVec2::new(x, y).as_vec2()
}

/// `glam::IVec3::as_vec3` on `glam::IVec3::new(x, y, z)`: the result is
/// determined by the three numbers.
#[verifier::external_body]
pub(crate) fn vec3_from_ints(x: i32, y: i32, z: i32) -> (r: glam::Vec3)
    ensures
        r == vec3_of_ints(x as int, y as int, z as int),
{
    glam::IVec3::new(x, y, z).as_vec3()
}

/// `glam::Quat::from_vec4` on the four numbers converted by
/// `glam::IVec4::as_vec4`: the result is determined by the four numbers.
#[verifier::external_body]
pub(crate) fn quat_from_ints(x: i32, y: i32, z: i32, w: i32) -> (r: glam::Quat)
    ensures
        r == quat_of_ints(x as int, y as int, z as int, w as int),
{
    glam::Quat::from_vec4(glam::IVec4::new(x, y, z, w).as_vec4())
}

/// `glam::Vec3 + glam::Vec3`: the result is determined by the operands.
#[verifier::external_body]
pub(crate) fn add_vec3(a: glam::Vec3, b: glam::Vec3) -> (r: glam::Vec3)
    ensures
        r == vec3_sum(a, b),
{
    a + b
}

/// `glam::Vec3 * glam::Vec3`: the result is determined by the operands.
#[verifier::external_body]
pub(crate) fn mul_vec3(a: glam::Vec3, b: glam::Vec3) -> (r: glam::Vec3)
    ensures
        r == vec3_product(a, b),
{
    a * b
}

/// `glam::Quat * glam::Vec3` (`Quat::mul_vec3`): the result is determined by
/// the operands.
#[verifier::external_body]
pub(crate) fn rotate_vec3(q: glam::Quat, v: glam::Vec3) -> (r: glam::Vec3)
    ensures
        r == quat_rotated(q, v),
{
    q * v
}

/// `glam::Quat * glam::Quat` (`Quat::mul_quat`): the result is determined by
/// the operands.
#[verifier::external_body]
pub(crate) fn mul_quat(a: glam::Quat, b: glam::Quat) -> (r: glam::Quat)
    ensures
        r == quat_product(a, b),
{
    a * b
}

/// `glam::Vec3::lerp`, with the factor `num / den` that `glam` computes in
/// double precision and narrows to single: the result is determined by the
/// two vectors and the two numbers.
#[verifier::external_body]
pub(crate) fn lerp_vec3(a: glam::Vec3, b: glam::Vec3, s: Ratio) -> (r: glam::Vec3)
    ensures
        r == vec3_lerp(a, b, s.num as int, s.den as int),
{
    let fraction = glam::U64Vec2::new(s.num, s.den).as_dvec2();
    a.lerp(b, (fraction / fraction.y).as_vec2().x)
}

/// `glam::Quat::slerp`, with the factor `num / den` that `glam` computes in
/// double precision and narrows to single: the result is determined by the
/// two quaternions and the two numbers.
#[verifier::external_body]
pub(crate) fn slerp_quat(a: glam::Quat, b: glam::Quat, s: Ratio) -> (r: glam::Quat)
    ensures
        r == quat_slerp(a, b, s.num as int, s.den as int),
{
    let fraction = glam::U64Vec2::new(s.num, s.den).as_dvec2();
    a.slerp(b, (fraction / fraction.y).as_vec2().x)
}

/// `glam::Mat4::from_scale_rotation_translation`: the result is determined by
/// the three parts.
#[verifier::external_body]
pub(crate) fn mat4_from_parts(scale: glam::Vec3, rotation: glam::Quat, translation: glam::Vec3) -> (r:
    glam::Mat4)
    ensures
        r == mat4_of_parts(scale, rotation, translation),
{
    glam::Mat4::from_scale_rotation_translation(scale, rotation, translation)
}

/// `glam::Mat4::to_scale_rotation_translation`: the three parts are
/// determined by the matrix.
#[verifier::external_body]
pub(crate) fn mat4_to_parts(m: &glam::Mat4) -> (r: (glam::Vec3, glam::Quat, glam::Vec3))
    ensures
        r == mat4_parts(*m),
{
    m.to_scale_rotation_translation()
}

/// `glam::Mat4::inverse`: the result is determined by the matrix. For a
/// matrix without an inverse `glam` still returns a matrix, of no use.
#[verifier::external_body]
pub(crate) fn invert_mat4(m: &glam::Mat4) -> (r: glam::Mat4)
    ensures
        r == mat4_inverse(*m),
{
    m.inverse()
}

} // verus!
