//! Rules on vectors: when a vector counts as zero, which random draws are
//! kept, and the written form of a vector, three components separated by
//! commas as in `-2,2,1`.

use vstd::prelude::*;
use vstd::string::*;
use crate::interval::Interval;
use crate::ordinal::{is_above, is_below, ONE};
use crate::thresholds::{NEAR_ZERO, SHORTEST};

verus! {

/// Whether a component counts as zero: a number strictly between -1e-8 and 1e-8.
pub open spec fn is_tiny(component: Option<i64>) -> bool {
    component matches Some(t) && -NEAR_ZERO < t < NEAR_ZERO
}

/// A vector as the rules see it: its three components as scalars.
#[derive(Clone, Copy, Debug, PartialEq, Eq, Structural)]
pub struct Vec3 {
    pub e0: Option<i64>,
    pub e1: Option<i64>,
    pub e2: Option<i64>,
}

impl Vec3 {
    /// Whether the vector counts as zero: each component does.
    pub open spec fn spec_near_zero(&self) -> bool {
        is_tiny(self.e0) && is_tiny(self.e1) && is_tiny(self.e2)
    }

    pub fn new(e0: Option<i64>, e1: Option<i64>, e2: Option<i64>) -> (r: Self)
        ensures
            r == (Vec3 { e0, e1, e2 }),
    {
        Vec3 { e0, e1, e2 }
    }

    pub fn x(&self) -> (r: Option<i64>)
        ensures
            r == self.e0,
    {
        self.e0
    }

    pub fn y(&self) -> (r: Option<i64>)
        ensures
            r == self.e1,
    {
        self.e1
    }

    pub fn z(&self) -> (r: Option<i64>)
        ensures
            r == self.e2,
    {
        self.e2
    }

    /// Whether the vector is near zero in every component: below 1e-8 in
    /// absolute value. A direction that is near zero cannot be scaled to
    /// length one.
    #[verifier::when_used_as_spec(spec_near_zero)]
    pub fn near_zero(&self) -> (r: bool)
        ensures
            r == self.spec_near_zero(),
    {
        let tiny = Interval::new(-NEAR_ZERO, NEAR_ZERO);
        match (self.e0, self.e1, self.e2) {
            (Some(a), Some(b), Some(c)) => tiny.surrounds(a) && tiny.surrounds(b) && tiny.surrounds(
                c,
            ),
            _ => false,
        }
    }
}

/// Whether a draw from the cube is kept as a random direction: its squared
/// length is at least 1e-160 and at most one, so that it lies in the unit
/// ball and is long enough to be scaled to length one.
pub fn in_unit_ball(length_squared: Option<i64>) -> (r: bool)
    ensures
        r == (length_squared matches Some(t) && SHORTEST <= t <= ONE),
{
    match length_squared {
        Some(t) => Interval::new(SHORTEST, ONE).contains(t),
        None => false,
    }
}

/// Whether a draw from the square is kept as a random point of the unit
/// disk: its squared length is below one.
pub fn in_unit_disk(length_squared: Option<i64>) -> (r: bool)
    ensures
        r == is_below(length_squared, ONE),
{
    is_below(length_squared, ONE)
}

/// Whether a random direction lies on the hemisphere around a normal:
/// their dot product `dot` is above zero. One that does not is turned round.
pub fn on_hemisphere(dot: Option<i64>) -> (r: bool)
    ensures
        r == is_above(dot, 0),
{
    is_above(dot, 0)
}

/// How many commas `s` holds.
pub open spec fn comma_count(s: Seq<char>) -> nat
    decreases s.len(),
{
    if s.len() == 0 {
        0
    } else {
        comma_count(s.drop_last()) + if s.last() == ',' {
            1nat
        } else {
            0nat
        }
    }
}

/// Whether `x`, `y` and `z` are the three components of the literal `s`:
/// none of them holds a comma, and joined by commas they give `s`.
pub open spec fn is_split(s: Seq<char>, x: Seq<char>, y: Seq<char>, z: Seq<char>) -> bool {
    &&& s == x + seq![','] + y + seq![','] + z
    &&& comma_count(x) == 0
    &&& comma_count(y) == 0
    &&& comma_count(z) == 0
}

/// The message of the error for a literal that has not three components.
pub open spec fn shape_error() -> Seq<char> {
    "Un vector tiene que estar en el formato 'x,y,z'"@
}

/// One more character adds one to the count if it is a comma.
proof fn lemma_count_step(s: Seq<char>, from: int, to: int)
    requires
        0 <= from <= to < s.len(),
    ensures
        comma_count(s.subrange(from, to + 1)) == comma_count(s.subrange(from, to)) + if s[to]
            == ',' {
            1nat
        } else {
            0nat
        },
{
    assert(s.subrange(from, to + 1).drop_last() == s.subrange(from, to));
}

/// A text counts no comma exactly when none of its characters is one.
pub proof fn lemma_no_comma(s: Seq<char>)
    ensures
        comma_count(s) == 0 <==> forall|i: int| 0 <= i < s.len() ==> s[i] != ',',
    decreases s.len(),
{
    if s.len() > 0 {
        lemma_no_comma(s.drop_last());
        if comma_count(s) == 0 {
            assert forall|i: int| 0 <= i < s.len() implies s[i] != ',' by {
                if i < s.len() - 1 {
                    assert(s.drop_last()[i] == s[i]);
                }
            }
        } else if s.last() != ',' {
            let i = choose|i: int| 0 <= i < s.len() - 1 && s.drop_last()[i] == ',';
            assert(s[i] == ',');
        }
    }
}

/// The commas of two texts joined are those of the one and those of the other.
pub proof fn lemma_count_joined(a: Seq<char>, b: Seq<char>)
    ensures
        comma_count(a + b) == comma_count(a) + comma_count(b),
    decreases b.len(),
{
    if b.len() == 0 {
        assert(a + b == a);
    } else {
        assert((a + b).drop_last() == a + b.drop_last());
        lemma_count_joined(a, b.drop_last());
    }
}

/// A literal that splits into three components holds exactly two commas.
pub proof fn lemma_split_has_two_commas(s: Seq<char>, x: Seq<char>, y: Seq<char>, z: Seq<char>)
    requires
        is_split(s, x, y, z),
    ensures
        comma_count(s) == 2,
{
    let comma = seq![','];
    assert(comma_count(comma) == 1) by {
        reveal_with_fuel(comma_count, 2);
        assert(comma.drop_last().len() == 0);
    }
    lemma_count_joined(x, comma);
    lemma_count_joined(x + comma, y);
    lemma_count_joined(x + comma + y, comma);
    lemma_count_joined(x + comma + y + comma, z);
}

/// A literal splits in one way only.
pub proof fn lemma_split_is_unique(
    s: Seq<char>,
    x: Seq<char>,
    y: Seq<char>,
    z: Seq<char>,
    u: Seq<char>,
    v: Seq<char>,
    w: Seq<char>,
)
    requires
        is_split(s, x, y, z),
        is_split(s, u, v, w),
    ensures
        x == u,
        y == v,
        z == w,
{
    lemma_no_comma(x);
    lemma_no_comma(y);
    lemma_no_comma(u);
    lemma_no_comma(v);
    let a = x.len() as int;
    let b = u.len() as int;
    assert(s[a] == ',' && s[b] == ',');
    if a < b {
        assert(u[a] == s[a]);
    }
    if b < a {
        assert(x[b] == s[b]);
    }
    assert(x =~= u) by {
        assert forall|i: int| 0 <= i < a implies x[i] == u[i] by {
            assert(x[i] == s[i] && u[i] == s[i]);
        }
    }
    let c = a + 1 + y.len();
    let d = b + 1 + v.len();
    assert(s[c] == ',' && s[d] == ',');
    if c < d {
        assert(v[c - a - 1] == s[c]);
    }
    if d < c {
        assert(y[d - a - 1] == s[d]);
    }
    assert(y =~= v) by {
        assert forall|i: int| 0 <= i < y.len() implies y[i] == v[i] by {
            assert(y[i] == s[a + 1 + i] && v[i] == s[a + 1 + i]);
        }
    }
    assert(z =~= w) by {
        assert(c == d);
        assert(s.len() == c + 1 + z.len());
        assert(s.len() == d + 1 + w.len());
        assert forall|i: int| 0 <= i < z.len() implies z[i] == w[i] by {
            assert(z[i] == s[c + 1 + i] && w[i] == s[c + 1 + i]);
        }
    }
}

/// Takes the literal `s` apart at its commas. A literal with exactly two
/// commas has three components, which may be empty; any other is refused
/// with the message that names the expected shape.
pub fn components(s: &str) -> (r: Result<(&str, &str, &str), String>)
    ensures
        r is Ok <==> comma_count(s@) == 2,
        r matches Ok(parts) ==> is_split(s@, parts.0@, parts.1@, parts.2@),
        r matches Err(message) ==> message@ == shape_error(),
{
    let n: usize = s.unicode_len();
    let mut first: usize = 0;
    let mut second: usize = 0;
    let mut count: usize = 0;
    let mut i: usize = 0;
    while i < n
        invariant
            n == s@.len(),
            i <= n,
            count <= i,
            count == comma_count(s@.subrange(0, i as int)),
            count == 0 ==> first == 0 && second == 0,
            count >= 1 ==> first < i && s@[first as int] == ',' && comma_count(
                s@.subrange(0, first as int),
            ) == 0,
            count == 1 ==> second == 0 && comma_count(s@.subrange(first + 1, i as int)) == 0,
            count >= 2 ==> first < second < i && s@[second as int] == ',' && comma_count(
                s@.subrange(first + 1, second as int),
            ) == 0,
            count == 2 ==> comma_count(s@.subrange(second + 1, i as int)) == 0,
        decreases n - i,
    {
        let c = s.get_char(i);
        proof {
            lemma_count_step(s@, 0, i as int);
            if count == 1 {
                lemma_count_step(s@, first + 1, i as int);
            }
            if count == 2 {
                lemma_count_step(s@, second + 1, i as int);
            }
            assert(comma_count(s@.subrange(i + 1, i + 1)) == 0);
        }
        if c == ',' {
            if count == 0 {
                first = i;
            } else if count == 1 {
                second = i;
            }
            count += 1;
        }
        i += 1;
    }
    assert(s@.subrange(0, n as int) == s@);
    if count != 2 {
        return Err("Un vector tiene que estar en el formato 'x,y,z'".to_owned());
    }
    let x = s.substring_char(0, first);
    let y = s.substring_char(first + 1, second);
    let z = s.substring_char(second + 1, n);
    assert(s@ == x@ + seq![','] + y@ + seq![','] + z@);
    Ok((x, y, z))
}

} // verus!
