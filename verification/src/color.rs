//! Colour on its way out: the gamma rule, the range that a channel is
//! clamped to, and the text of an image, which is plain PPM with every
//! number written in decimal.

use vstd::prelude::*;
use vstd::string::*;
use vstd::arithmetic::power2::lemma2_to64;
use crate::interval::Interval;
use crate::ordinal::{is_above, whole, whole_of};
use crate::thresholds::BRIGHTEST;

verus! {

/// The range that a channel is clamped to before it is scaled: from zero
/// to 0.999.
pub open spec fn spec_intensity() -> Interval {
    Interval { min: 0, max: BRIGHTEST }
}

/// The gamma-corrected level of a linear channel, for gamma 2: `root`, the
/// square root of the channel, where the channel is above zero, and zero
/// otherwise.
pub open spec fn spec_linear_to_gamma(linear: Option<i64>, root: Option<i64>) -> Option<i64> {
    if is_above(linear, 0) {
        root
    } else {
        Some(0i64)
    }
}

/// The byte of a channel: the channel's level clamped to the range from
/// zero to 0.999, scaled by 256 and cut to a whole number. NaN gives 0.
pub open spec fn spec_channel_byte(level: Option<i64>) -> int {
    match level {
        Some(t) => whole(spec_intensity().nearest(t as int), 8),
        None => 0,
    }
}

/// The byte of a channel from its gamma-corrected level: the level is
/// clamped to the range from zero to 0.999, scaled by 256 and cut to a
/// whole number. A level that is NaN gives 0.
pub fn channel_byte(level: Option<i64>) -> (r: u8)
    ensures
        r == spec_channel_byte(level),
{
    let t = match level {
        Some(t) => t,
        None => {
            return 0;
        },
    };
    let clamped: i64 = intensity().clamp(t);
    proof {
        lemma2_to64();
    }
    let byte: u64 = whole_of(clamped as u64, 8);
    byte as u8
}

/// The range that a channel is clamped to before it is scaled.
#[verifier::when_used_as_spec(spec_intensity)]
pub fn intensity() -> (r: Interval)
    ensures
        r == spec_intensity(),
{
    Interval::new(0, BRIGHTEST)
}

/// Gamma-corrects a linear channel. `root` is the channel's square root,
/// which the caller has taken; it is used only for a channel above zero.
/// A channel that is zero, below zero or NaN gives zero.
#[verifier::when_used_as_spec(spec_linear_to_gamma)]
pub fn linear_to_gamma(linear: Option<i64>, root: Option<i64>) -> (r: Option<i64>)
    ensures
        r == spec_linear_to_gamma(linear, root),
{
    if is_above(linear, 0) {
        root
    } else {
        Some(0)
    }
}

/// The character of the decimal digit `d`.
pub open spec fn digit(d: nat) -> char {
    if d == 0 {
        '0'
    } else if d == 1 {
        '1'
    } else if d == 2 {
        '2'
    } else if d == 3 {
        '3'
    } else if d == 4 {
        '4'
    } else if d == 5 {
        '5'
    } else if d == 6 {
        '6'
    } else if d == 7 {
        '7'
    } else if d == 8 {
        '8'
    } else {
        '9'
    }
}

/// `n` written in decimal: no sign, and no leading zero but for zero itself.
pub open spec fn decimal(n: nat) -> Seq<char>
    decreases n,
{
    if n < 10 {
        seq![digit(n)]
    } else {
        decimal(n / 10).push(digit(n % 10))
    }
}

/// The digit that the character `c` stands for; zero for any other character.
pub open spec fn digit_value(c: char) -> nat {
    if c == '1' {
        1
    } else if c == '2' {
        2
    } else if c == '3' {
        3
    } else if c == '4' {
        4
    } else if c == '5' {
        5
    } else if c == '6' {
        6
    } else if c == '7' {
        7
    } else if c == '8' {
        8
    } else if c == '9' {
        9
    } else {
        0
    }
}

/// The number that the decimal text `s` stands for.
pub open spec fn decimal_value(s: Seq<char>) -> nat
    decreases s.len(),
{
    if s.len() == 0 {
        0
    } else {
        decimal_value(s.drop_last()) * 10 + digit_value(s.last())
    }
}

/// A number's decimal text reads back as the number.
pub proof fn lemma_decimal_reads_back(n: nat)
    ensures
        decimal_value(decimal(n)) == n,
    decreases n,
{
    if n < 10 {
        assert(decimal(n).drop_last().len() == 0);
        assert(decimal_value(decimal(n)) == digit_value(digit(n))) by {
            reveal_with_fuel(decimal_value, 2);
        }
    } else {
        lemma_decimal_reads_back(n / 10);
        assert(decimal(n).drop_last() == decimal(n / 10));
        assert(decimal(n).last() == digit(n % 10));
    }
}

/// A number's decimal text is made of digits, at least one, and begins
/// with a zero only where the number is zero.
pub proof fn lemma_decimal_is_plain(n: nat)
    ensures
        decimal(n).len() >= 1,
        forall|i: int| 0 <= i < decimal(n).len() ==> digit(digit_value(decimal(n)[i])) == decimal(n)[i],
        n > 0 ==> decimal(n)[0] != '0',
    decreases n,
{
    if n >= 10 {
        lemma_decimal_is_plain(n / 10);
        assert forall|i: int| 0 <= i < decimal(n).len() implies digit(
            digit_value(decimal(n)[i]),
        ) == decimal(n)[i] by {
            if i < decimal(n).len() - 1 {
                assert(decimal(n)[i] == decimal(n / 10)[i]);
            }
        }
        assert(decimal(n)[0] == decimal(n / 10)[0]);
    }
}

/// The line of one pixel: its three channels in decimal, red first, with a
/// space between them and a line feed at the end.
pub open spec fn pixel_line(red: u8, green: u8, blue: u8) -> Seq<char> {
    decimal(red as nat) + seq![' '] + decimal(green as nat) + seq![' '] + decimal(blue as nat)
        + seq!['\n']
}

fn digit_text(d: u64) -> (r: &'static str)
    requires
        d < 10,
    ensures
        r@ == seq![digit(d as nat)],
{
    if d == 0 {
        proof {
            reveal_strlit("0");
        }
        assert("0"@ =~= seq!['0']);
        "0"
    } else if d == 1 {
        proof {
            reveal_strlit("1");
        }
        assert("1"@ =~= seq!['1']);
        "1"
    } else if d == 2 {
        proof {
            reveal_strlit("2");
        }
        assert("2"@ =~= seq!['2']);
        "2"
    } else if d == 3 {
        proof {
            reveal_strlit("3");
        }
        assert("3"@ =~= seq!['3']);
        "3"
    } else if d == 4 {
        proof {
            reveal_strlit("4");
        }
        assert("4"@ =~= seq!['4']);
        "4"
    } else if d == 5 {
        proof {
            reveal_strlit("5");
        }
        assert("5"@ =~= seq!['5']);
        "5"
    } else if d == 6 {
        proof {
            reveal_strlit("6");
        }
        assert("6"@ =~= seq!['6']);
        "6"
    } else if d == 7 {
        proof {
            reveal_strlit("7");
        }
        assert("7"@ =~= seq!['7']);
        "7"
    } else if d == 8 {
        proof {
            reveal_strlit("8");
        }
        assert("8"@ =~= seq!['8']);
        "8"
    } else {
        proof {
            reveal_strlit("9");
        }
        assert("9"@ =~= seq!['9']);
        "9"
    }
}

/// Writes `n` in decimal.
pub fn to_decimal(n: u64) -> (r: String)
    ensures
        r@ == decimal(n as nat),
    decreases n,
{
    if n < 10 {
        digit_text(n).to_owned()
    } else {
        let mut text = to_decimal(n / 10);
        text.append(digit_text(n % 10));
        text
    }
}

/// Writes the line of one pixel, as it stands in the image.
pub fn write_color(red: u8, green: u8, blue: u8) -> (line: String)
    ensures
        line@ == pixel_line(red, green, blue),
{
    proof {
        reveal_strlit(" ");
        reveal_strlit("\n");
        assert(" "@ =~= seq![' ']);
        assert("\n"@ =~= seq!['\n']);
    }
    let mut line = to_decimal(red as u64);
    line.append(" ");
    line.append(to_decimal(green as u64).as_str());
    line.append(" ");
    line.append(to_decimal(blue as u64).as_str());
    line.append("\n");
    line
}

} // verus!
