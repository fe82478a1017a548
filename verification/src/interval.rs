//! Ranges of ordinals: the window in which a hit counts, and the range a
//! colour channel is clamped to.

use vstd::prelude::*;

verus! {

/// A range of ordinals from `min` to `max`. Nothing is asked of the two
/// bounds: with `min` above `max` the range holds nothing.
#[derive(Clone, Copy, Debug, PartialEq, Eq, Structural)]
pub struct Interval {
    pub min: i64,
    pub max: i64,
}

impl Interval {
    /// The range that holds nothing: from the greatest ordinal down to the least.
    pub open spec fn spec_empty() -> Interval {
        Interval { min: i64::MAX, max: i64::MIN }
    }

    /// The range that holds every ordinal.
    pub open spec fn spec_universe() -> Interval {
        Interval { min: i64::MIN, max: i64::MAX }
    }

    /// Whether `x` lies in the closed range.
    pub open spec fn holds(self, x: int) -> bool {
        self.min <= x <= self.max
    }

    /// Whether `x` lies strictly between the bounds.
    pub open spec fn holds_strictly(self, x: int) -> bool {
        self.min < x < self.max
    }

    /// The member of the range nearest to `x`, for a range with `min <= max`;
    /// `min` wins where the bounds are crossed and `x` is below it.
    pub open spec fn nearest(self, x: int) -> int {
        if x < self.min {
            self.min as int
        } else if x > self.max {
            self.max as int
        } else {
            x
        }
    }

    #[verifier::when_used_as_spec(spec_empty)]
    pub fn empty() -> (r: Self)
        ensures
            r == Self::spec_empty(),
            forall|x: int| !r.holds(x),
    {
        Interval { min: i64::MAX, max: i64::MIN }
    }

    #[verifier::when_used_as_spec(spec_universe)]
    pub fn universe() -> (r: Self)
        ensures
            r == Self::spec_universe(),
            forall|x: i64| r.holds(x as int),
    {
        Interval { min: i64::MIN, max: i64::MAX }
    }

    pub fn new(min: i64, max: i64) -> (r: Self)
        ensures
            r.min == min,
            r.max == max,
    {
        Interval { min, max }
    }

    /// Closed containment: both bounds belong to the range.
    pub fn contains(&self, x: i64) -> (r: bool)
        ensures
            r == self.holds(x as int),
    {
        self.min <= x && x <= self.max
    }

    /// Open containment: a value on a bound is outside. Hits are accepted by
    /// this test, so that a ray leaving a surface does not hit it again at
    /// the point it left from.
    pub fn surrounds(&self, x: i64) -> (r: bool)
        ensures
            r == self.holds_strictly(x as int),
            r ==> self.holds(x as int),
    {
        self.min < x && x < self.max
    }

    /// Saturates `x` to the range.
    pub fn clamp(&self, x: i64) -> (r: i64)
        ensures
            r == self.nearest(x as int),
            self.holds(x as int) ==> r == x,
            self.min <= self.max ==> self.holds(r as int),
    {
        if x < self.min {
            return self.min;
        }
        if x > self.max {
            return self.max;
        }
        x
    }
}

impl Default for Interval {
    fn default() -> (r: Self)
        ensures
            r == Interval::empty(),
    {
        Interval::empty()
    }
}

} // verus!
