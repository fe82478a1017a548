//! The constants of the rules. Each is the ordinal of the binary64 number
//! nearest to a decimal fraction, and is proved to be.

use vstd::prelude::*;
use vstd::arithmetic::power2::{lemma2_to64, lemma2_to64_rest, lemma_pow2_adds, pow2};
use crate::ordinal::{is_nearest, lemma_nearest};

verus! {

/// The ordinal of 0.001: a hit counts only at a ray parameter above it.
/// A ray that leaves a surface starts on it, and rounding may put the
/// surface a little ahead of the ray's origin; a hit that near is the
/// surface the ray left, not one it reaches.
pub const SHADOW_ACNE: i64 = 0x3F50_624D_D2F1_A9FC;

/// The ordinal of 0.999: the brightest level of a channel. Scaled by 256
/// and cut to a whole number it gives 255.
pub const BRIGHTEST: i64 = 0x3FEF_F7CE_D916_872B;

/// The ordinal of 1e-8: a component below it in absolute value counts as zero.
pub const NEAR_ZERO: i64 = 0x3E45_798E_E230_8C3A;

/// The ordinal of 1e-160: a squared length below it is too short to be
/// scaled to length one.
pub const SHORTEST: i64 = 0x1EB6_7E9C_127B_6E74;

/// `SHADOW_ACNE` is the ordinal of the number nearest to one thousandth.
pub proof fn lemma_shadow_acne_is_a_thousandth()
    ensures
        is_nearest(SHADOW_ACNE as int, 1, 1000),
{
    lemma2_to64_rest();
    lemma_nearest(SHADOW_ACNE as int, 1, 1000, 1013, 0x624D_D2F1_A9FC);
}

/// `BRIGHTEST` is the ordinal of the number nearest to 999 thousandths.
pub proof fn lemma_brightest_is_just_under_one()
    ensures
        is_nearest(BRIGHTEST as int, 999, 1000),
{
    lemma2_to64_rest();
    lemma_nearest(BRIGHTEST as int, 999, 1000, 1022, 0xF_F7CE_D916_872B);
}

/// `NEAR_ZERO` is the ordinal of the number nearest to ten to the power -8.
pub proof fn lemma_near_zero_is_a_hundred_millionth()
    ensures
        is_nearest(NEAR_ZERO as int, 1, 100_000_000),
{
    lemma2_to64();
    lemma2_to64_rest();
    lemma_pow2_adds(64, 15);
    lemma_nearest(NEAR_ZERO as int, 1, 100_000_000, 996, 0x5_798E_E230_8C3A);
}

/// Ten to the power 160: a one and 160 zeros.
pub open spec fn ten_to_the_160() -> int {
    10000000000000000000000000000000000000000000000000000000000000000000000000000000000000000000000000000000000000000000000000000000000000000000000000000000000000000int
}

/// `SHORTEST` is the ordinal of the number nearest to ten to the power -160.
pub proof fn lemma_shortest_is_ten_to_the_minus_160()
    ensures
        is_nearest(SHORTEST as int, 1, ten_to_the_160()),
{
    lemma2_to64();
    lemma2_to64_rest();
    lemma_pow2_adds(64, 64);
    assert(pow2(128) == 0x100000000000000000000000000000000int);
    lemma_pow2_adds(128, 128);
    assert(pow2(256) == 0x10000000000000000000000000000000000000000000000000000000000000000int);
    lemma_pow2_adds(256, 256);
    assert(pow2(512) == 0x100000000000000000000000000000000000000000000000000000000000000000000000000000000000000000000000000000000000000000000000000000000int);
    lemma_pow2_adds(512, 64);
    assert(pow2(576) == 0x1000000000000000000000000000000000000000000000000000000000000000000000000000000000000000000000000000000000000000000000000000000000000000000000000int);
    lemma_pow2_adds(576, 8);
    assert(pow2(584) == 0x100000000000000000000000000000000000000000000000000000000000000000000000000000000000000000000000000000000000000000000000000000000000000000000000000int);
    lemma_nearest(SHORTEST as int, 1, ten_to_the_160(), 491, 0x6_7E9C_127B_6E74);
}

} // verus!
