//! A scene as one ray sees it: for each surface, in order, where the ray's
//! line crosses it, if it does. The nearest hit among all of them wins.

use vstd::prelude::*;
use crate::hittable::HitRecord;
use crate::sphere::Crossing;
use crate::interval::Interval;

verus! {

/// The surfaces of a scene along one ray. An entry is the crossing of the
/// ray's line with one surface, or `None` where the line misses it.
pub struct HittableList {
    objects: Vec<Option<Crossing>>,
}

impl View for HittableList {
    type V = Seq<Option<Crossing>>;

    closed spec fn view(&self) -> Seq<Option<Crossing>> {
        self.objects@
    }
}

/// Whether entry `k` of `objects` is crossed at `t`, strictly inside `ray_t`.
pub open spec fn is_candidate(
    objects: Seq<Option<Crossing>>,
    ray_t: Interval,
    k: int,
    t: int,
) -> bool {
    &&& 0 <= k < objects.len()
    &&& objects[k] matches Some(crossing) && crossing.admits(ray_t, t)
}

/// Whether `found` is the answer to the query for the nearest hit: no hit
/// where nothing is crossed inside `ray_t`, else the hit with the least
/// parameter and, among surfaces crossed at that parameter, the first.
pub open spec fn is_nearest_hit(
    objects: Seq<Option<Crossing>>,
    ray_t: Interval,
    found: Option<HitRecord>,
) -> bool {
    match found {
        Some(record) => {
            &&& is_candidate(objects, ray_t, record.index as int, record.t as int)
            &&& !record.front_face
            &&& forall|k: int, t: int| #[trigger]
                is_candidate(objects, ray_t, k, t) ==> record.t < t || (record.t == t
                    && record.index <= k)
        },
        None => forall|k: int, t: int| !#[trigger] is_candidate(objects, ray_t, k, t),
    }
}

/// The query for the nearest hit has one answer.
pub proof fn lemma_nearest_hit_is_unique(
    objects: Seq<Option<Crossing>>,
    ray_t: Interval,
    a: Option<HitRecord>,
    b: Option<HitRecord>,
)
    requires
        is_nearest_hit(objects, ray_t, a),
        is_nearest_hit(objects, ray_t, b),
    ensures
        a == b,
{
    if let Some(x) = a {
        assert(is_candidate(objects, ray_t, x.index as int, x.t as int));
    }
    if let Some(y) = b {
        assert(is_candidate(objects, ray_t, y.index as int, y.t as int));
    }
}

/// Where the nearest hit lies does not depend on the order of the
/// surfaces: two lists that hold the same entries, in whatever order, are
/// hit at the same parameter or not at all. (Which surface is hit may
/// differ, where two of them are crossed at that parameter.)
pub proof fn lemma_order_is_irrelevant(
    first: Seq<Option<Crossing>>,
    second: Seq<Option<Crossing>>,
    ray_t: Interval,
    a: Option<HitRecord>,
    b: Option<HitRecord>,
)
    requires
        forall|k: int| 0 <= k < first.len() ==> second.contains(#[trigger] first[k]),
        forall|k: int| 0 <= k < second.len() ==> first.contains(#[trigger] second[k]),
        is_nearest_hit(first, ray_t, a),
        is_nearest_hit(second, ray_t, b),
    ensures
        a is Some <==> b is Some,
        a matches Some(x) ==> b matches Some(y) && x.t == y.t,
{
    if let Some(x) = a {
        assert(is_candidate(first, ray_t, x.index as int, x.t as int));
        assert(second.contains(first[x.index as int]));
        let k = choose|k: int| 0 <= k < second.len() && second[k] == first[x.index as int];
        assert(is_candidate(second, ray_t, k, x.t as int));
    }
    if let Some(y) = b {
        assert(is_candidate(second, ray_t, y.index as int, y.t as int));
        assert(first.contains(second[y.index as int]));
        let k = choose|k: int| 0 <= k < first.len() && first[k] == second[y.index as int];
        assert(is_candidate(first, ray_t, k, y.t as int));
    }
}

impl HittableList {
    /// A scene without surfaces.
    pub fn new() -> (r: Self)
        ensures
            r@ == Seq::<Option<Crossing>>::empty(),
    {
        HittableList { objects: Vec::new() }
    }

    /// Appends a surface: its crossing with the ray's line, or `None`.
    pub fn add(&mut self, hittable: Option<Crossing>)
        ensures
            final(self)@ == old(self)@.push(hittable),
    {
        self.objects.push(hittable);
    }

    /// Removes every surface.
    pub fn clear(&mut self)
        ensures
            final(self)@ == Seq::<Option<Crossing>>::empty(),
    {
        self.objects.clear();
    }

    pub fn len(&self) -> (r: usize)
        ensures
            r == self@.len(),
    {
        self.objects.len()
    }

    /// The nearest hit strictly inside `ray_t`. Each surface is asked for a
    /// hit below the nearest one found so far, so a later surface replaces
    /// an earlier one only with a strictly nearer hit. The record's face is
    /// not set yet.
    pub fn hit(&self, ray_t: Interval) -> (r: Option<HitRecord>)
        ensures
            is_nearest_hit(self@, ray_t, r),
    {
        let mut found: Option<HitRecord> = None;
        let mut closest_so_far: i64 = ray_t.max;
        let mut i: usize = 0;
        while i < self.objects.len()
            invariant
                i <= self.objects.len(),
                closest_so_far == match found {
                    Some(record) => record.t,
                    None => ray_t.max,
                },
                found matches Some(record) ==> record.index < i,
                is_nearest_hit(self@.take(i as int), ray_t, found),
            decreases self.objects.len() - i,
        {
            let ghost before = self@.take(i as int);
            let ghost after = self@.take(i + 1);
            let ghost previous = found;
            let ghost limit = closest_so_far;
            let window = Interval::new(ray_t.min, closest_so_far);
            let mut nearer: Option<i64> = None;
            if let Some(crossing) = &self.objects[i] {
                nearer = crossing.hit(window);
            }
            if let Some(t) = nearer {
                found = Some(HitRecord { t, index: i, front_face: false });
                closest_so_far = t;
            }
            proof {
                assert forall|k: int, t: int| #[trigger]
                    is_candidate(after, ray_t, k, t) implies (k < i && is_candidate(
                    before,
                    ray_t,
                    k,
                    t,
                )) || (k == i && self@[k] is Some && self@[k].unwrap().admits(ray_t, t)) by {
                    if k < i {
                        assert(before[k] == after[k]);
                    }
                }
                if let Some(record) = previous {
                    assert(is_candidate(before, ray_t, record.index as int, record.t as int));
                    assert(after[record.index as int] == before[record.index as int]);
                }
                if let Some(crossing) = self@[i as int] {
                    assert forall|t: int| crossing.admits(ray_t, t) && t < limit implies
                        crossing.admits(window, t) by {}
                }
            }
            i += 1;
        }
        assert(self@.take(i as int) == self@);
        found
    }
}

impl Default for HittableList {
    fn default() -> (r: Self)
        ensures
            r@ == Seq::<Option<Crossing>>::empty(),
    {
        HittableList::new()
    }
}

} // verus!
