//! How far the parser can count the digits of a number.
//!
//! The parser reads a number into a mantissa of 64 bits and a decimal
//! exponent of 16 bits. Before the point it counts with care. Behind the point
//! it takes the exponent one down for each digit that still goes into the
//! mantissa, and does not look whether the exponent can go further down. A
//! number such as a zero, a point and tens of thousands of zeros takes it
//! past its least value.
//!
//! This module follows that count through a text, character by character,
//! outside quoted strings, so that such a text is known before it is parsed.

use vstd::prelude::*;

verus! {

/// The mantissa from which on the parser checks each further digit.
pub const CAREFUL_FROM: u64 = 576460752303423500;

/// Where the reading of a text stands.
#[derive(Clone, Copy, Debug, PartialEq, Eq, Structural)]
pub enum Reading {
    /// Outside quoted strings and numbers.
    Outside,
    /// In a quoted string.
    Quoted,
    /// In a quoted string, right behind a backslash.
    Escaped,
    /// In the digits of a number before its point.
    Whole { mantissa: u64, exponent: i16 },
    /// In the digits of a number behind its point.
    Fraction { mantissa: u64, exponent: i16 },
    /// A digit behind a point was to take the exponent below its least
    /// value.
    Lost,
}

/// The value of a digit; `None` for any other character.
pub open spec fn digit_value(c: char) -> Option<u64> {
    if c == '0' {
        Some(0)
    } else if c == '1' {
        Some(1)
    } else if c == '2' {
        Some(2)
    } else if c == '3' {
        Some(3)
    } else if c == '4' {
        Some(4)
    } else if c == '5' {
        Some(5)
    } else if c == '6' {
        Some(6)
    } else if c == '7' {
        Some(7)
    } else if c == '8' {
        Some(8)
    } else if c == '9' {
        Some(9)
    } else {
        None
    }
}

/// Whether the digit `d` still goes into the mantissa: below `CAREFUL_FROM`
/// every digit does, from there on a digit with which the mantissa stays
/// within 64 bits.
pub open spec fn takes(mantissa: u64, d: u64) -> bool {
    mantissa < CAREFUL_FROM || mantissa * 10 + d <= u64::MAX
}

/// Where the reading stands behind a character that belongs to no number
/// which is being read: a digit starts a number, a quote starts a string.
pub open spec fn fresh(c: char) -> Reading {
    match digit_value(c) {
        Some(d) => Reading::Whole { mantissa: d, exponent: 0 },
        None => if c == '"' {
            Reading::Quoted
        } else {
            Reading::Outside
        },
    }
}

/// Where the reading stands behind one more character.
///
/// Before the point a digit that goes into the mantissa is taken in, and one
/// that does not takes the exponent one up (at its greatest value the parser
/// gives up; here it stays). Behind the point a digit that goes into the
/// mantissa takes the exponent one down, and is lost where the exponent is
/// at its least value; a digit that does not go in changes nothing.
pub open spec fn next_reading(r: Reading, c: char) -> Reading {
    match r {
        Reading::Lost => Reading::Lost,
        Reading::Outside => fresh(c),
        Reading::Quoted => if c == '"' {
            Reading::Outside
        } else if c == '\\' {
            Reading::Escaped
        } else {
            Reading::Quoted
        },
        Reading::Escaped => Reading::Quoted,
        Reading::Whole { mantissa, exponent } => match digit_value(c) {
            Some(d) => if takes(mantissa, d) {
                Reading::Whole { mantissa: (mantissa * 10 + d) as u64, exponent }
            } else if exponent < i16::MAX {
                Reading::Whole { mantissa, exponent: (exponent + 1) as i16 }
            } else {
                r
            },
            None => if c == '.' {
                Reading::Fraction { mantissa, exponent }
            } else {
                fresh(c)
            },
        },
        Reading::Fraction { mantissa, exponent } => match digit_value(c) {
            Some(d) => if !takes(mantissa, d) {
                r
            } else if exponent > i16::MIN {
                Reading::Fraction {
                    mantissa: (mantissa * 10 + d) as u64,
                    exponent: (exponent - 1) as i16,
                }
            } else {
                Reading::Lost
            },
            None => fresh(c),
        },
    }
}

/// Where the reading stands at the end of a text.
pub open spec fn reading_of(text: Seq<char>) -> Reading
    decreases text.len(),
{
    if text.len() == 0 {
        Reading::Outside
    } else {
        next_reading(reading_of(text.drop_last()), text.last())
    }
}

/// Whether the parser can count every fraction in `text`: no digit behind a
/// point, outside quoted strings, is to take the exponent below its least
/// value.
pub open spec fn fractions_fit(text: Seq<char>) -> bool {
    !(reading_of(text) is Lost)
}

/// The value of a digit.
pub fn value_of_digit(c: char) -> (r: Option<u64>)
    ensures
        r == digit_value(c),
{
    if c == '0' {
        Some(0)
    } else if c == '1' {
        Some(1)
    } else if c == '2' {
        Some(2)
    } else if c == '3' {
        Some(3)
    } else if c == '4' {
        Some(4)
    } else if c == '5' {
        Some(5)
    } else if c == '6' {
        Some(6)
    } else if c == '7' {
        Some(7)
    } else if c == '8' {
        Some(8)
    } else if c == '9' {
        Some(9)
    } else {
        None
    }
}

/// The mantissa with one more digit, where the digit still goes in.
pub fn taken(mantissa: u64, d: u64) -> (r: Option<u64>)
    requires
        d <= 9,
    ensures
        match r {
            Some(m) => takes(mantissa, d) && m == mantissa * 10 + d,
            None => !takes(mantissa, d),
        },
{
    if mantissa < CAREFUL_FROM {
        Some(mantissa * 10 + d)
    } else if mantissa <= (u64::MAX - d) / 10 {
        Some(mantissa * 10 + d)
    } else {
        None
    }
}

/// Where the reading stands behind a character that belongs to no number
/// which is being read.
pub fn start_with(c: char) -> (r: Reading)
    ensures
        r == fresh(c),
{
    match value_of_digit(c) {
        Some(d) => Reading::Whole { mantissa: d, exponent: 0 },
        None => if c == '"' {
            Reading::Quoted
        } else {
            Reading::Outside
        },
    }
}

/// Reads one more character.
pub fn read_on(r: Reading, c: char) -> (n: Reading)
    ensures
        n == next_reading(r, c),
{
    match r {
        Reading::Lost => Reading::Lost,
        Reading::Outside => start_with(c),
        Reading::Quoted => if c == '"' {
            Reading::Outside
        } else if c == '\\' {
            Reading::Escaped
        } else {
            Reading::Quoted
        },
        Reading::Escaped => Reading::Quoted,
        Reading::Whole { mantissa, exponent } => match value_of_digit(c) {
            Some(d) => match taken(mantissa, d) {
                Some(m) => Reading::Whole { mantissa: m, exponent },
                None => if exponent < i16::MAX {
                    Reading::Whole { mantissa, exponent: exponent + 1 }
                } else {
                    r
                },
            },
            None => if c == '.' {
                Reading::Fraction { mantissa, exponent }
            } else {
                start_with(c)
            },
        },
        Reading::Fraction { mantissa, exponent } => match value_of_digit(c) {
            Some(d) => match taken(mantissa, d) {
                None => r,
                Some(m) => if exponent > i16::MIN {
                    Reading::Fraction { mantissa: m, exponent: exponent - 1 }
                } else {
                    Reading::Lost
                },
            },
            None => start_with(c),
        },
    }
}

/// Tells whether the parser can count every fraction in `text`.
pub fn has_fitting_fractions(text: &[char]) -> (b: bool)
    ensures
        b == fractions_fit(text@),
{
    let mut r = Reading::Outside;
    let mut i: usize = 0;
    assert(text@.take(0) =~= Seq::<char>::empty());
    while i < text.len()
        invariant
            i <= text.len(),
            r == reading_of(text@.take(i as int)),
        decreases text.len() - i,
    {
        assert(text@.take(i + 1).drop_last() =~= text@.take(i as int));
        r = read_on(r, text[i]);
        i += 1;
    }
    assert(text@.take(text.len() as int) =~= text@);
    match r {
        Reading::Lost => false,
        _ => true,
    }
}

} // verus!
