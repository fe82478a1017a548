//! The scattering rules of the three materials. Each rule reads a few
//! scalars of the hit, which the caller has worked out, and says whether
//! the ray is scattered and along which direction.

use vstd::prelude::*;
use crate::interval::Interval;
use crate::ordinal::{is_above, is_below, ONE};
use crate::vec3::Vec3;

verus! {

/// The direction that a scattered ray takes.
#[derive(Clone, Copy, Debug, PartialEq, Eq, Structural)]
pub enum Direction {
    /// The surface normal plus a random unit vector.
    Diffuse,
    /// The surface normal itself.
    Normal,
    /// The incoming direction mirrored at the surface.
    Reflected,
    /// The incoming direction bent into the surface.
    Refracted,
}

/// The ratio of refractive indices that applies at a hit.
#[derive(Clone, Copy, Debug, PartialEq, Eq, Structural)]
pub enum Ratio {
    /// One over the material's index: the ray enters the material.
    Reciprocal,
    /// The material's index: the ray leaves the material.
    Index,
}

/// A material at a hit: the model, and the scalars of the hit that the
/// model's rule reads.
#[derive(Clone, Copy, Debug, PartialEq, Eq, Structural)]
pub enum Material {
    /// A matte surface. `diffuse` is the diffuse direction: the normal plus
    /// the random unit vector drawn for this hit.
    Lambertian { diffuse: Vec3 },
    /// A mirror with some roughness. `outward` is the dot product of the
    /// reflected direction, roughness added, and the normal.
    Metal { outward: Option<i64> },
    /// A clear material such as glass. `sine` is the ratio of refractive
    /// indices times the sine of the angle of incidence, `reflectance` the
    /// reflectance at that angle, and `draw` the uniform number drawn for
    /// this hit.
    Dielectric { sine: Option<i64>, reflectance: Option<i64>, draw: Option<i64> },
}

impl Material {
    /// Whether a clear material must reflect: refraction is impossible
    /// where `sine` is above one, and it loses the draw where `reflectance`
    /// is above `draw`.
    pub open spec fn reflects(sine: Option<i64>, reflectance: Option<i64>, draw: Option<i64>) -> bool {
        is_above(sine, ONE) || (reflectance matches Some(r) && is_below(draw, r))
    }

    /// What the material does with the ray: `None` where the ray is absorbed.
    pub open spec fn spec_scatter(&self) -> Option<Direction> {
        match *self {
            Material::Lambertian { diffuse } => Some(
                if diffuse.near_zero() {
                    Direction::Normal
                } else {
                    Direction::Diffuse
                },
            ),
            Material::Metal { outward } => if is_above(outward, 0) {
                Some(Direction::Reflected)
            } else {
                None
            },
            Material::Dielectric { sine, reflectance, draw } => Some(
                if Self::reflects(sine, reflectance, draw) {
                    Direction::Reflected
                } else {
                    Direction::Refracted
                },
            ),
        }
    }

    /// The direction along which a matte surface with the normal `normal`
    /// scatters a ray whose diffuse direction is `diffuse`.
    pub open spec fn lambertian_direction(diffuse: Vec3, normal: Vec3) -> Vec3 {
        if (Material::Lambertian { diffuse }).spec_scatter() == Some(Direction::Normal) {
            normal
        } else {
            diffuse
        }
    }

    /// A matte surface never scatters along a direction that is near zero,
    /// as long as its normal is not near zero: a normal of length one is not.
    pub proof fn lemma_lambertian_direction_is_sound(diffuse: Vec3, normal: Vec3)
        requires
            !normal.near_zero(),
        ensures
            !Self::lambertian_direction(diffuse, normal).near_zero(),
    {
    }

    /// Scatters the ray, or absorbs it.
    ///
    /// A matte surface always scatters, along the diffuse direction unless
    /// that is near zero: then along the normal, so that no ray leaves
    /// without a direction. A metal scatters only a reflection that points
    /// away from the surface: one whose dot product with the normal is
    /// above zero. A clear material always scatters: it reflects where
    /// refraction is impossible or the reflectance is above the draw, and
    /// refracts otherwise.
    #[verifier::when_used_as_spec(spec_scatter)]
    pub fn scatter(&self) -> (r: Option<Direction>)
        ensures
            r == self.spec_scatter(),
            *self is Lambertian ==> r is Some,
            *self is Dielectric ==> r is Some,
            *self matches Material::Lambertian { diffuse } ==> (r == Some(Direction::Diffuse)
                <==> !diffuse.near_zero()),
            *self matches Material::Dielectric { sine, .. } ==> is_above(sine, ONE) ==> r == Some(
                Direction::Reflected,
            ),
    {
        match *self {
            Material::Lambertian { diffuse } => {
                if diffuse.near_zero() {
                    Some(Direction::Normal)
                } else {
                    Some(Direction::Diffuse)
                }
            },
            Material::Metal { outward } => {
                if is_above(outward, 0) {
                    Some(Direction::Reflected)
                } else {
                    None
                }
            },
            Material::Dielectric { sine, reflectance, draw } => {
                let cannot_refract = is_above(sine, ONE);
                let loses_draw = match reflectance {
                    Some(r) => is_below(draw, r),
                    None => false,
                };
                if cannot_refract || loses_draw {
                    Some(Direction::Reflected)
                } else {
                    Some(Direction::Refracted)
                }
            },
        }
    }
}

/// The cosine of the angle of incidence, from the dot product `dot` of the
/// reversed unit direction of the ray and the normal: the dot product, but
/// no more than one, which rounding may take it above; one where it is NaN.
pub fn cos_theta(dot: Option<i64>) -> (r: i64)
    ensures
        r == if is_below(dot, ONE) {
            dot.unwrap()
        } else {
            ONE
        },
        r <= ONE,
{
    match dot {
        Some(t) => if t < ONE {
            t
        } else {
            ONE
        },
        None => ONE,
    }
}

/// The roughness that a metal is made with: the roughness given, kept
/// between zero and one; one where it is NaN.
pub fn metal_fuzz(given: Option<i64>) -> (r: i64)
    ensures
        r == match given {
            Some(t) => (Interval { min: 0, max: ONE }).nearest(t as int),
            None => ONE as int,
        },
        0 <= r <= ONE,
{
    match given {
        Some(t) => Interval::new(0, ONE).clamp(t),
        None => ONE,
    }
}

/// The ratio of indices at a hit on a clear material: the reciprocal of the
/// material's index on a front face, where the ray enters, and the index
/// itself on a back face, where it leaves.
pub fn refraction_ratio(front_face: bool) -> (r: Ratio)
    ensures
        r == if front_face {
            Ratio::Reciprocal
        } else {
            Ratio::Index
        },
{
    if front_face {
        Ratio::Reciprocal
    } else {
        Ratio::Index
    }
}

/// The material of a hit record that no surface has filled in yet. It
/// scatters nothing.
#[derive(Clone, Copy, Debug, PartialEq, Eq, Structural)]
pub struct Placeholder;

impl Placeholder {
    /// Absorbs the ray.
    pub fn scatter(&self) -> (r: Option<Direction>)
        ensures
            r is None,
    {
        None
    }
}

impl Default for Placeholder {
    fn default() -> (r: Self)
        ensures
            r == Placeholder,
    {
        Placeholder
    }
}

} // verus!
