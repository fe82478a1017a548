//! The record of a hit.

use vstd::prelude::*;
use crate::ordinal::{is_below, negated};

verus! {

/// The record of a hit. `t` is the ray parameter of the hit as an ordinal,
/// `index` the place of the surface that was hit in its list, and
/// `front_face` says whether the ray came from outside the surface.
#[derive(Clone, Copy, Debug, PartialEq, Eq, Structural)]
pub struct HitRecord {
    pub t: i64,
    pub index: usize,
    pub front_face: bool,
}

impl HitRecord {
    /// The dot product of the ray's direction and the recorded normal,
    /// where `dot` is the one with the outward normal: the same on a front
    /// face, and negated on a back face, where the normal is turned round.
    pub open spec fn dot_with_normal(self, dot: i64) -> i64 {
        if self.front_face {
            dot
        } else {
            negated(dot)
        }
    }

    /// Records from which side the ray came. `dot` is the dot product of
    /// the ray's direction and the surface's outward normal. The face is a
    /// front face exactly when that is below zero: the ray runs against the
    /// normal. On a back face the caller turns the normal round, so that
    /// the recorded normal always points against the ray.
    pub fn set_face_normal(&mut self, dot: Option<i64>)
        ensures
            final(self).front_face == is_below(dot, 0),
            final(self).t == old(self).t,
            final(self).index == old(self).index,
            dot matches Some(d) ==> final(self).dot_with_normal(d) <= 0,
    {
        self.front_face = is_below(dot, 0);
    }

    /// Whether the outward normal has to be turned round to point against
    /// the ray: on a back face, and only there.
    pub fn flips_normal(&self) -> (r: bool)
        ensures
            r == !self.front_face,
    {
        !self.front_face
    }
}

} // verus!
