//! The decision core of a path tracer.
//!
//! A path tracer does two kinds of work. One is arithmetic: dot products,
//! square roots, random draws. The other is decision: whether a quadratic
//! has roots and which of them counts as the hit, which surface of a scene
//! is nearest, whether a ray is absorbed, reflected or refracted, when a
//! light path ends, in which order pixels are produced and how they are
//! written. This crate holds the second kind, with every rule stated as a
//! contract and proved. The arithmetic stays with the caller, who hands over
//! the scalars that the rules read.
//!
//! The crate sees a scalar through its *ordinal*, an `i64`: a scalar is
//! less than another exactly when its ordinal is. `i64::MAX` stands for
//! positive infinity and `i64::MIN` for negative infinity. A scalar that
//! may be NaN is an `Option<i64>`, `None` standing for NaN. The module
//! [`ordinal`] gives the ordinal of a binary64 number from its bit pattern,
//! and the bit pattern back.

pub mod camera;
pub mod color;
pub mod hittable;
pub mod hittable_list;
pub mod interval;
pub mod material;
pub mod ordinal;
pub mod sphere;
pub mod thresholds;
pub mod vec3;

pub use camera::{hit_window, Bounce, Camera, Path, Pixel};
pub use color::{channel_byte, intensity, linear_to_gamma, to_decimal, write_color};
pub use hittable::HitRecord;
pub use hittable_list::HittableList;
pub use interval::Interval;
pub use material::{
    cos_theta, metal_fuzz, refraction_ratio, Direction, Material, Placeholder, Ratio,
};
pub use sphere::{sphere_radius, Crossing};
pub use vec3::{components, in_unit_ball, in_unit_disk, on_hemisphere, Vec3};
