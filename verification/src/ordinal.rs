//! Ordinals of binary64 numbers.
//!
//! A binary64 number is held here by its bit pattern, a `u64`. The top bit
//! is the sign and the other 63 bits are the magnitude: eleven bits of
//! exponent, then 52 bits of fraction. A magnitude above that of infinity
//! is no number (NaN). The ordinal of a number is its magnitude, negated
//! for a negative number; the two infinities get the two ends of `i64`.
//! Both zeros get ordinal 0.
//!
//! A scalar that may be NaN is an `Option<i64>`: its ordinal, or `None`.
//! NaN is neither below nor above anything.

use vstd::prelude::*;
use vstd::arithmetic::div_mod::{
    lemma_basic_div, lemma_div_is_ordered, lemma_div_multiples_vanish,
    lemma_div_multiples_vanish_quotient, lemma_fundamental_div_mod_converse,
    lemma_multiply_divide_lt,
};
use vstd::arithmetic::power2::{
    lemma2_to64, lemma2_to64_rest, lemma_pow2_adds, lemma_pow2_pos, lemma_pow2_strictly_increases,
    lemma_pow2_unfold, pow2,
};
use vstd::bits::lemma_u64_shr_is_div;

verus! {

/// Two to the power 52: the weight of the lowest exponent bit in a
/// magnitude, and of the leading bit that a normal number's fraction
/// leaves unwritten.
pub const HIDDEN: u64 = 0x0010_0000_0000_0000;

/// The ordinal of the number one.
pub const ONE: i64 = 0x3FF0_0000_0000_0000;

/// The sign bit of a bit pattern.
pub const SIGN: u64 = 0x8000_0000_0000_0000;

/// The magnitude of the two infinities.
pub const INFINITE: u64 = 0x7FF0_0000_0000_0000;

/// Whether the sign bit of `bits` is set.
pub open spec fn is_negative(bits: u64) -> bool {
    bits >= SIGN
}

/// The bit pattern without its sign bit.
pub open spec fn magnitude(bits: u64) -> int {
    if bits >= SIGN {
        bits - SIGN
    } else {
        bits as int
    }
}

/// Whether `bits` is the bit pattern of a number, finite or infinite.
pub open spec fn is_number(bits: u64) -> bool {
    magnitude(bits) <= INFINITE
}

/// Whether `bits` is the bit pattern of a finite number.
pub open spec fn is_finite(bits: u64) -> bool {
    magnitude(bits) < INFINITE
}

/// The absolute value of the finite number with the magnitude `m`, in
/// units of the least positive number, two to the power -1074. With the
/// exponent `e` and the fraction `f`, it is `f` for `e = 0` and
/// `(2^52 + f) * 2^(e - 1)` above.
pub open spec fn absolute(m: int) -> int {
    let e = m / (HIDDEN as int);
    let f = m % (HIDDEN as int);
    if e <= 0 {
        f
    } else {
        (HIDDEN + f) * pow2((e - 1) as nat)
    }
}

/// The finite number with the bit pattern `bits`, in units of the least
/// positive number.
pub open spec fn value(bits: u64) -> int {
    if is_negative(bits) {
        -absolute(magnitude(bits))
    } else {
        absolute(magnitude(bits))
    }
}

/// The whole part of the finite number with the magnitude `m`, taken
/// without its sign and scaled by two to the power `scale`.
pub open spec fn whole(m: int, scale: nat) -> int {
    absolute(m) * pow2(scale) / (pow2(1074) as int)
}

/// The scalar `x` cut to a whole number of 32 bits: the whole part of a
/// number from zero up, as far as it fits and `u32::MAX` beyond; zero for
/// a number below zero and for NaN.
pub open spec fn spec_to_u32(x: Option<i64>) -> u32 {
    match x {
        None => 0,
        Some(t) => if t <= 0 {
            0
        } else if t >= INFINITE || whole(t as int, 0) > u32::MAX {
            u32::MAX
        } else {
            whole(t as int, 0) as u32
        },
    }
}

/// Whether the number with the ordinal `c`, a finite number above zero, is
/// the nearest there is to the fraction `n / d`: the fraction lies within
/// the two midpoints between the number and its neighbours.
pub open spec fn is_nearest(c: int, n: int, d: int) -> bool {
    (absolute(c - 1) + absolute(c)) * d <= 2 * n * pow2(1074) <= (absolute(c) + absolute(c + 1)) * d
}

/// The ordinal of the number with the bit pattern `bits`; `None` for NaN.
pub open spec fn spec_from_bits(bits: u64) -> Option<i64> {
    if !is_number(bits) {
        None
    } else if magnitude(bits) == INFINITE {
        Some(
            if is_negative(bits) {
                i64::MIN
            } else {
                i64::MAX
            },
        )
    } else if is_negative(bits) {
        Some((-magnitude(bits)) as i64)
    } else {
        Some(magnitude(bits) as i64)
    }
}

/// The bit pattern of the number that has the ordinal `t`, zero taken as
/// positive; `None` where no number has that ordinal.
pub open spec fn spec_to_bits(t: i64) -> Option<u64> {
    if t == i64::MAX {
        Some(INFINITE)
    } else if t == i64::MIN {
        Some((SIGN + INFINITE) as u64)
    } else if 0 <= t < INFINITE {
        Some(t as u64)
    } else if -INFINITE < t < 0 {
        Some((SIGN - t) as u64)
    } else {
        None
    }
}

/// The bit pattern of the number with the bit pattern `bits`, negated: the
/// same magnitude with the other sign.
pub open spec fn sign_flipped(bits: u64) -> u64 {
    if bits >= SIGN {
        (bits - SIGN) as u64
    } else {
        (bits + SIGN) as u64
    }
}

/// The ordinal of the number that has the ordinal `t`, negated.
pub open spec fn negated(t: i64) -> i64 {
    if t == i64::MIN {
        i64::MAX
    } else if t == i64::MAX {
        i64::MIN
    } else {
        (-t) as i64
    }
}

/// Whether the scalar `x` is a number below `bound`.
pub open spec fn spec_is_below(x: Option<i64>, bound: i64) -> bool {
    x matches Some(t) && t < bound
}

/// Whether the scalar `x` is a number above `bound`.
pub open spec fn spec_is_above(x: Option<i64>, bound: i64) -> bool {
    x matches Some(t) && t > bound
}

/// Whether the scalar `x` is a number below `bound`. NaN is not.
#[verifier::when_used_as_spec(spec_is_below)]
pub fn is_below(x: Option<i64>, bound: i64) -> (r: bool)
    ensures
        r == spec_is_below(x, bound),
{
    match x {
        Some(t) => t < bound,
        None => false,
    }
}

/// Whether the scalar `x` is a number above `bound`. NaN is not.
#[verifier::when_used_as_spec(spec_is_above)]
pub fn is_above(x: Option<i64>, bound: i64) -> (r: bool)
    ensures
        r == spec_is_above(x, bound),
{
    match x {
        Some(t) => t > bound,
        None => false,
    }
}

/// The ordinal of the number with the bit pattern `bits`, or `None` for NaN.
#[verifier::when_used_as_spec(spec_from_bits)]
pub fn from_bits(bits: u64) -> (r: Option<i64>)
    ensures
        r == spec_from_bits(bits),
        r is Some <==> is_number(bits),
{
    let negative = bits >= SIGN;
    let magnitude: u64 = if negative {
        bits - SIGN
    } else {
        bits
    };
    if magnitude > INFINITE {
        None
    } else if magnitude == INFINITE {
        if negative {
            Some(i64::MIN)
        } else {
            Some(i64::MAX)
        }
    } else if negative {
        Some(-(magnitude as i64))
    } else {
        Some(magnitude as i64)
    }
}

/// The bit pattern of the number that has the ordinal `t`, or `None` where
/// no number has it.
#[verifier::when_used_as_spec(spec_to_bits)]
pub fn to_bits(t: i64) -> (r: Option<u64>)
    ensures
        r == spec_to_bits(t),
        r matches Some(bits) ==> from_bits(bits) == Some(t),
{
    if t == i64::MAX {
        Some(INFINITE)
    } else if t == i64::MIN {
        Some(SIGN + INFINITE)
    } else if 0 <= t && t < INFINITE as i64 {
        Some(t as u64)
    } else if -(INFINITE as i64) < t && t < 0 {
        Some(SIGN + ((-t) as u64))
    } else {
        None
    }
}

/// The whole part of a finite number scaled by a power of two, worked out
/// from the exponent and the fraction: the leading bits of the fraction,
/// the unwritten one included, as far as they stand before the point.
pub(crate) fn whole_of(m: u64, scale: u64) -> (r: u64)
    requires
        m < INFINITE,
        scale <= 8,
        m / HIDDEN + scale <= 1075,
    ensures
        r == whole(m as int, scale as nat),
        m / HIDDEN + scale <= 1022 ==> r == 0,
        m / HIDDEN + scale > 1022 ==> r < pow2((m / HIDDEN + scale - 1022) as nat),
{
    let e: u64 = m / HIDDEN;
    let f: u64 = m % HIDDEN;
    let shift: u64 = 1075 - e - scale;
    proof {
        let h = HIDDEN as int;
        let top = pow2(1074) as int;
        let up = pow2(scale as nat) as int;
        lemma2_to64();
        lemma2_to64_rest();
        lemma_pow2_pos(scale as nat);
        lemma_pow2_pos(1074);
        assert(0 <= f < h && m == e * h + f);
        if e == 0 {
            lemma_pow2_adds(52, scale as nat);
            lemma_pow2_strictly_increases((52 + scale) as nat, 1074);
            assert(0 <= f * up < pow2(52) * up) by (nonlinear_arith)
                requires
                    0 <= f < pow2(52),
                    up > 0,
            ;
            lemma_basic_div(f * up, top);
        } else {
            let p = pow2((e - 1) as nat) as int;
            let x = p * up;
            let d = pow2(shift as nat) as int;
            lemma_pow2_pos((e - 1) as nat);
            lemma_pow2_pos(shift as nat);
            lemma_pow2_adds((e - 1) as nat, scale as nat);
            lemma_pow2_adds((e - 1 + scale) as nat, shift as nat);
            assert(top == x * d);
            assert(x > 0) by (nonlinear_arith)
                requires
                    p > 0,
                    up > 0,
                    x == p * up,
            ;
            lemma_div_multiples_vanish_quotient(x, h + f, d);
            assert((h + f) * p * up == x * (h + f)) by (nonlinear_arith)
                requires
                    x == p * up,
            ;
            assert(whole(m as int, scale as nat) == (h + f) / d);
            if shift >= 53 {
                if shift > 53 {
                    lemma_pow2_strictly_increases(53, shift as nat);
                }
                lemma_basic_div(h + f, d);
            } else {
                lemma_u64_shr_is_div((HIDDEN + f) as u64, shift);
                lemma_pow2_adds(shift as nat, (53 - shift) as nat);
                assert(h + f < d * pow2((53 - shift) as nat)) by (nonlinear_arith)
                    requires
                        h + f < pow2(53),
                        pow2(53) == d * pow2((53 - shift) as nat),
                ;
                lemma_multiply_divide_lt(h + f, d, pow2((53 - shift) as nat) as int);
            }
        }
    }
    if e == 0 || shift >= 53 {
        0
    } else {
        (HIDDEN + f) >> shift
    }
}

/// Cuts a scalar to a whole number of 32 bits, as a cast does: the whole
/// part of a number from zero up, `u32::MAX` where that does not fit, and
/// zero for a number below zero and for NaN.
#[verifier::when_used_as_spec(spec_to_u32)]
pub fn to_u32(x: Option<i64>) -> (r: u32)
    ensures
        r == spec_to_u32(x),
{
    let t = match x {
        Some(t) => t,
        None => {
            return 0;
        },
    };
    if t <= 0 {
        return 0;
    }
    let m: u64 = t as u64;
    if m / HIDDEN >= 1055 {
        proof {
            if m < INFINITE {
                lemma_large_whole(m as int);
            }
        }
        return u32::MAX;
    }
    proof {
        lemma2_to64();
    }
    let r = whole_of(m, 0);
    r as u32
}

/// A finite number with an exponent of 1055 or more is at least two to the
/// power 32.
proof fn lemma_large_whole(m: int)
    requires
        0 <= m < INFINITE,
        m / (HIDDEN as int) >= 1055,
    ensures
        whole(m, 0) > u32::MAX,
{
    let h = HIDDEN as int;
    let e = m / h;
    let f = m % h;
    let p = pow2((e - 1) as nat) as int;
    let top = pow2(1074) as int;
    lemma2_to64();
    lemma2_to64_rest();
    lemma_pow2_pos(1074);
    assert(0 <= f) by (nonlinear_arith)
        requires
            h > 0,
            f == m % h,
    ;
    if e > 1055 {
        lemma_pow2_strictly_increases(1054, (e - 1) as nat);
    }
    lemma_pow2_adds(32, 1074);
    lemma_pow2_adds(52, 1054);
    assert(pow2(32) * top <= (h + f) * p) by (nonlinear_arith)
        requires
            pow2(32) * top == h * pow2(1054),
            pow2(1054) <= p,
            f >= 0,
            h > 0,
    ;
    lemma_div_is_ordered(pow2(32) * top, (h + f) * p, top);
    lemma_div_multiples_vanish(pow2(32) as int, top);
    assert(pow2(32) * top == top * pow2(32)) by (nonlinear_arith);
    assert((h + f) * p * pow2(0) == (h + f) * p) by (nonlinear_arith)
        requires
            pow2(0) == 1,
    ;
}

/// How `is_nearest` is settled for a normal number with the exponent `e`
/// and a fraction `f` that is neither the least nor the greatest: in units
/// of the number's last place.
pub proof fn lemma_nearest(c: int, n: int, d: int, e: int, f: int)
    requires
        c == e * HIDDEN + f,
        1 <= e <= 1075,
        1 <= f < HIDDEN - 1,
        d > 0,
        (2 * (HIDDEN + f) - 1) * d <= 2 * n * pow2((1075 - e) as nat) <= (2 * (HIDDEN + f) + 1)
            * d,
    ensures
        is_nearest(c, n, d),
{
    let h = HIDDEN as int;
    let p = pow2((e - 1) as nat) as int;
    let q = pow2((1075 - e) as nat) as int;
    lemma_pow2_pos((e - 1) as nat);
    lemma_pow2_adds((e - 1) as nat, (1075 - e) as nat);
    assert(pow2(1074) == p * q);
    lemma_fundamental_div_mod_converse(c, h, e, f);
    lemma_fundamental_div_mod_converse(c - 1, h, e, f - 1);
    lemma_fundamental_div_mod_converse(c + 1, h, e, f + 1);
    assert(absolute(c) == (h + f) * p);
    assert(absolute(c - 1) == (h + f - 1) * p);
    assert(absolute(c + 1) == (h + f + 1) * p);
    assert((absolute(c - 1) + absolute(c)) * d == ((2 * (h + f) - 1) * d) * p) by (nonlinear_arith)
        requires
            absolute(c) == (h + f) * p,
            absolute(c - 1) == (h + f - 1) * p,
    ;
    assert((absolute(c) + absolute(c + 1)) * d == ((2 * (h + f) + 1) * d) * p) by (nonlinear_arith)
        requires
            absolute(c) == (h + f) * p,
            absolute(c + 1) == (h + f + 1) * p,
    ;
    assert(2 * n * pow2(1074) == (2 * n * q) * p) by (nonlinear_arith)
        requires
            pow2(1074) == p * q,
    ;
    assert(((2 * (h + f) - 1) * d) * p <= (2 * n * q) * p <= ((2 * (h + f) + 1) * d) * p)
        by (nonlinear_arith)
        requires
            (2 * (h + f) - 1) * d <= 2 * n * q <= (2 * (h + f) + 1) * d,
            p > 0,
    ;
}

/// The number with the ordinal `ONE` is one.
pub proof fn lemma_one_is_one()
    ensures
        absolute(ONE as int) == pow2(1074),
{
    lemma2_to64_rest();
    lemma_pow2_adds(52, 1022);
}

/// Among magnitudes of finite numbers, the greater magnitude has the
/// greater absolute value; zero has the magnitude zero.
pub proof fn lemma_absolute_grows(m: int, n: int)
    requires
        0 <= m < n < INFINITE,
    ensures
        0 <= absolute(m) < absolute(n),
        absolute(0) == 0,
{
    let h = HIDDEN as int;
    let (e, f) = (m / h, m % h);
    let (g, k) = (n / h, n % h);
    assert(0 <= f < h && m == e * h + f && 0 <= e) by (nonlinear_arith)
        requires
            h > 0,
            m >= 0,
            e == m / h,
            f == m % h,
    ;
    assert(0 <= k < h && n == g * h + k && 0 <= g) by (nonlinear_arith)
        requires
            h > 0,
            n >= 0,
            g == n / h,
            k == n % h,
    ;
    assert(e <= g) by (nonlinear_arith)
        requires
            h > 0,
            m < n,
            m == e * h + f,
            n == g * h + k,
            0 <= f < h,
            0 <= k < h,
    ;
    if e == g {
        if e > 0 {
            let p = pow2((e - 1) as nat) as int;
            lemma_pow2_pos((e - 1) as nat);
            assert(0 <= (h + f) * p < (h + k) * p) by (nonlinear_arith)
                requires
                    p > 0,
                    0 <= f < k,
                    h > 0,
            ;
        }
    } else {
        let q = pow2((g - 1) as nat) as int;
        lemma_pow2_pos((g - 1) as nat);
        assert(h * q <= (h + k) * q) by (nonlinear_arith)
            requires
                q > 0,
                k >= 0,
        ;
        if e > 0 {
            let p = pow2((e - 1) as nat) as int;
            lemma_pow2_pos((e - 1) as nat);
            lemma_pow2_unfold(e as nat);
            if e < g - 1 {
                lemma_pow2_strictly_increases(e as nat, (g - 1) as nat);
            }
            assert(0 <= (h + f) * p < h * (2 * p)) by (nonlinear_arith)
                requires
                    p > 0,
                    0 <= f < h,
            ;
            assert(h * (2 * p) <= h * q) by (nonlinear_arith)
                requires
                    2 * p <= q,
                    h > 0,
            ;
        } else {
            assert(h * 1 <= h * q) by (nonlinear_arith)
                requires
                    q >= 1,
                    h > 0,
            ;
        }
    }
    assert(absolute(0) == 0);
}

/// Ordinals keep the order of numbers: of two finite numbers, one is less
/// than the other exactly when its ordinal is, and they are equal exactly
/// when their ordinals are.
pub proof fn lemma_ordinals_keep_order(a: u64, b: u64)
    requires
        is_finite(a),
        is_finite(b),
    ensures
        value(a) < value(b) <==> from_bits(a).unwrap() < from_bits(b).unwrap(),
        value(a) == value(b) <==> from_bits(a) == from_bits(b),
{
    let m = magnitude(a);
    let n = magnitude(b);
    if m < n {
        lemma_absolute_grows(m, n);
    }
    if n < m {
        lemma_absolute_grows(n, m);
    }
    if 0 < m {
        lemma_absolute_grows(0, m);
    }
    if 0 < n {
        lemma_absolute_grows(0, n);
    }
    assert(absolute(0) == 0);
}

/// Negating a number negates its ordinal, the two ends of `i64` standing
/// for each other.
pub proof fn lemma_sign_flip_negates(bits: u64)
    requires
        is_number(bits),
    ensures
        is_number(sign_flipped(bits)),
        from_bits(sign_flipped(bits)) == Some(negated(from_bits(bits).unwrap())),
        negated(negated(from_bits(bits).unwrap())) == from_bits(bits).unwrap(),
{
}

/// The two infinities sit at the two ends: the ordinal of every finite
/// number lies strictly between theirs.
pub proof fn lemma_infinities_are_the_ends(bits: u64)
    requires
        is_finite(bits),
    ensures
        from_bits(INFINITE) == Some(i64::MAX),
        from_bits((SIGN + INFINITE) as u64) == Some(i64::MIN),
        i64::MIN < from_bits(bits).unwrap() < i64::MAX,
{
}

/// A number goes to its ordinal and comes back as itself, but for the
/// negative zero, which comes back positive.
pub proof fn lemma_bits_come_back(bits: u64)
    requires
        is_number(bits),
    ensures
        to_bits(from_bits(bits).unwrap()) == Some(
            if bits == SIGN {
                0u64
            } else {
                bits
            },
        ),
{
}

} // verus!
