//! A sphere along a ray: the two parameters at which the ray's line
//! crosses it, and the rule that picks one of them as the hit.

use vstd::prelude::*;
use crate::interval::Interval;
use crate::ordinal::{is_above, is_below};

verus! {

/// The two parameters at which a ray's line crosses a closed surface such as
/// a sphere, as ordinals, the smaller one first. A line that only touches
/// the surface crosses it twice at one parameter.
#[derive(Clone, Copy, Debug, PartialEq, Eq, Structural)]
pub struct Crossing {
    near: i64,
    far: i64,
}

impl Crossing {
    #[verifier::type_invariant]
    spec fn in_order(self) -> bool {
        self.near <= self.far
    }

    pub closed spec fn spec_near(&self) -> i64 {
        self.near
    }

    pub closed spec fn spec_far(&self) -> i64 {
        self.far
    }

    /// Whether the smaller parameter is not above the larger. Every value
    /// that `new` made is ordered.
    pub open spec fn ordered(self) -> bool {
        self.near() <= self.far()
    }

    /// Whether `t` is one of the two parameters and lies strictly inside `ray_t`.
    pub open spec fn admits(self, ray_t: Interval, t: int) -> bool {
        (t == self.near() || t == self.far()) && ray_t.holds_strictly(t)
    }

    /// The root that counts as the hit: the smaller one if it lies strictly
    /// inside `ray_t`, else the larger one if that does, else none.
    pub open spec fn first_admitted(self, ray_t: Interval) -> Option<i64> {
        if ray_t.holds_strictly(self.near() as int) {
            Some(self.near())
        } else if ray_t.holds_strictly(self.far() as int) {
            Some(self.far())
        } else {
            None
        }
    }

    /// The crossing that a sphere's quadratic gives. A discriminant below
    /// zero has no root. Else the two roots, in either order; a root that is
    /// NaN is left out, and the other one stands for both.
    pub open spec fn spec_of_roots(
        discriminant: Option<i64>,
        a: Option<i64>,
        b: Option<i64>,
    ) -> Option<(i64, i64)> {
        if is_below(discriminant, 0) {
            None
        } else {
            match (a, b) {
                (Some(x), Some(y)) => Some(
                    if x <= y {
                        (x, y)
                    } else {
                        (y, x)
                    },
                ),
                (Some(x), None) => Some((x, x)),
                (None, Some(y)) => Some((y, y)),
                (None, None) => None,
            }
        }
    }

    /// Makes the crossing of a ray's line with a sphere from the
    /// discriminant and the two roots of the sphere's quadratic, or `None`
    /// where the line misses the sphere.
    pub fn of_roots(discriminant: Option<i64>, a: Option<i64>, b: Option<i64>) -> (r: Option<
        Self,
    >)
        ensures
            r is Some <==> Self::spec_of_roots(discriminant, a, b) is Some,
            r matches Some(crossing) ==> Self::spec_of_roots(discriminant, a, b) == Some(
                (crossing.near(), crossing.far()),
            ),
    {
        if is_below(discriminant, 0) {
            return None;
        }
        match (a, b) {
            (Some(x), Some(y)) => Some(Crossing::new(x, y)),
            (Some(x), None) => Some(Crossing::new(x, x)),
            (None, Some(y)) => Some(Crossing::new(y, y)),
            (None, None) => None,
        }
    }

    /// Makes a crossing of the two roots, given in either order.
    pub fn new(a: i64, b: i64) -> (r: Self)
        ensures
            r.ordered(),
            r.near() == if a <= b { a } else { b },
            r.far() == if a <= b { b } else { a },
    {
        if a <= b {
            Crossing { near: a, far: b }
        } else {
            Crossing { near: b, far: a }
        }
    }

    #[verifier::when_used_as_spec(spec_near)]
    pub fn near(&self) -> (r: i64)
        ensures
            r == self.near(),
            r <= self.far(),
    {
        proof {
            use_type_invariant(self);
        }
        self.near
    }

    #[verifier::when_used_as_spec(spec_far)]
    pub fn far(&self) -> (r: i64)
        ensures
            r == self.far(),
            self.near() <= r,
    {
        proof {
            use_type_invariant(self);
        }
        self.far
    }

    /// The nearest of the two roots that lies strictly inside `ray_t`, if
    /// one does. The smaller root is tried first and the larger one only
    /// when the smaller is outside: so a ray that starts inside the surface,
    /// with the smaller root behind it, still hits the surface on its way out.
    pub fn hit(&self, ray_t: Interval) -> (r: Option<i64>)
        ensures
            r == self.first_admitted(ray_t),
            match r {
                Some(t) => self.admits(ray_t, t as int) && forall|u: int|
                    self.admits(ray_t, u) ==> t <= u,
                None => forall|u: int| !self.admits(ray_t, u),
            },
    {
        proof {
            use_type_invariant(self);
        }
        if ray_t.surrounds(self.near) {
            Some(self.near)
        } else if ray_t.surrounds(self.far) {
            Some(self.far)
        } else {
            None
        }
    }
}

/// The radius that a sphere is made with: the radius given, but zero
/// where that is below zero or NaN.
pub fn sphere_radius(given: Option<i64>) -> (r: i64)
    ensures
        r == if is_above(given, 0) {
            given.unwrap()
        } else {
            0
        },
        r >= 0,
{
    match given {
        Some(t) => if t > 0 {
            t
        } else {
            0
        },
        None => 0,
    }
}

} // verus!
