//! Resize values: how they are written, and the size they ask for.

use vstd::prelude::*;

use crate::rounding::{nearest, round_nearest, to_integer, whole, Rounded, SINGLE};
use crate::text::{
    chars_of, decimal_text, find_char, first_index, has_char, lemma_first_index, parse_number,
    read_digits, to_lowercase, trim, NumberError,
};

verus! {

/// Half of one more than the largest mantissa of single precision.
pub const HALF: u64 = 0x80_0000;

/// A single-precision number, held by its bit pattern.
#[derive(Debug, Clone, Copy, PartialEq, Eq, Structural)]
pub struct Single {
    /// The sign, the exponent and the fraction, as they are stored.
    pub bits: u32,
}

/// What a bit pattern, or an arithmetic step, stands for.
pub enum Scalar {
    /// Not a number.
    Nan,
    /// Below zero, or negative zero.
    Negative,
    /// Positive infinity.
    Infinite,
    /// `mantissa * 2^exponent`.
    Finite(nat, int),
}

impl Single {
    /// The number that the bits stand for.
    pub open spec fn scalar(self) -> Scalar {
        let exponent = (self.bits / 0x80_0000) % 256;
        let fraction = self.bits % 0x80_0000;
        if exponent == 255 && fraction != 0 {
            Scalar::Nan
        } else if self.bits >= 0x8000_0000 {
            Scalar::Negative
        } else if exponent == 255 {
            Scalar::Infinite
        } else if exponent == 0 {
            Scalar::Finite(fraction as nat, -149)
        } else {
            Scalar::Finite((fraction + 0x80_0000) as nat, exponent - 150)
        }
    }

    /// The number with these bits.
    pub fn from_bits(bits: u32) -> (single: Single)
        ensures
            single.bits == bits,
    {
        Single { bits }
    }
}

/// A resize value.
#[derive(Debug, Clone, Copy, PartialEq, Eq, Structural)]
pub enum ResizeValue {
    /// Both sides times this number.
    Multiplier(Single),
    /// Both sides times this number of hundredths.
    Percentage(Single),
    /// A width, a height, or both; a missing one follows the aspect ratio.
    Dimensions(Option<usize>, Option<usize>),
    /// Resize so that the longer of the two sides becomes this length.
    LongestSide(usize),
    /// Resize so that the shorter of the two sides becomes this length.
    ShortestSide(usize),
}

/// Why a text is no resize value.
#[derive(Debug, Clone, Copy, PartialEq, Eq, Structural)]
pub enum ResizeError {
    /// It has none of the accepted shapes.
    Invalid,
    /// The anchored length is zero.
    ZeroLength,
    /// It names more than one anchor.
    ManyAnchors,
    /// It has more than two dimensions.
    ManyDimensions,
    /// A dimension is no number.
    Dimension(NumberError),
    /// A multiplier or a percentage without a number.
    EmptyNumber,
    /// A multiplier or a percentage that is no number.
    InvalidNumber,
}

impl ResizeError {
    /// What the user is told.
    pub open spec fn text(self) -> Seq<char> {
        match self {
            ResizeError::Invalid => "Invalid resize value"@,
            ResizeError::ZeroLength => "Length should be greater than 0"@,
            ResizeError::ManyAnchors =>
                "Resize value can be anchored to only one of width, height, longest or shortest side"@,
            ResizeError::ManyDimensions => "There is more that 2 dimensions"@,
            ResizeError::Dimension(NumberError::Empty) => "cannot parse integer from empty string"@,
            ResizeError::Dimension(NumberError::InvalidDigit) => "invalid digit found in string"@,
            ResizeError::Dimension(NumberError::TooLarge) =>
                "number too large to fit in target type"@,
            ResizeError::EmptyNumber => "cannot parse float from empty string"@,
            ResizeError::InvalidNumber => "invalid float literal"@,
        }
    }

    /// What the user is told.
    pub fn message(self) -> (message: &'static str)
        ensures
            message@ == self.text(),
    {
        match self {
            ResizeError::Invalid => "Invalid resize value",
            ResizeError::ZeroLength => "Length should be greater than 0",
            ResizeError::ManyAnchors =>
                "Resize value can be anchored to only one of width, height, longest or shortest side",
            ResizeError::ManyDimensions => "There is more that 2 dimensions",
            ResizeError::Dimension(NumberError::Empty) => "cannot parse integer from empty string",
            ResizeError::Dimension(NumberError::InvalidDigit) => "invalid digit found in string",
            ResizeError::Dimension(NumberError::TooLarge) =>
                "number too large to fit in target type",
            ResizeError::EmptyNumber => "cannot parse float from empty string",
            ResizeError::InvalidNumber => "invalid float literal",
        }
    }
}

// --- Sizes -------------------------------------------------------------------
/// A length in single precision.
pub open spec fn single_of(length: nat) -> (nat, int) {
    nearest(length, 1, 0, SINGLE as nat)
}

/// The rounded product of two rounded numbers.
pub open spec fn times(a: (nat, int), b: (nat, int)) -> (nat, int) {
    nearest(a.0 * b.0, 1, a.1 + b.1, SINGLE as nat)
}

/// The rounded quotient of two rounded numbers.
pub open spec fn over(a: (nat, int), b: (nat, int)) -> (nat, int) {
    nearest(a.0, b.0, a.1 - b.1, SINGLE as nat)
}

/// The integer part of a number, as far as a length can hold it.
pub open spec fn length_of(value: (nat, int)) -> nat {
    crate::rounding::at_most(whole(value), usize::MAX as nat)
}

/// A length times a number, cut to an integer. What is below zero or no number
/// counts as zero, and infinity as the largest length.
pub open spec fn scaled(length: nat, factor: Scalar) -> nat {
    match factor {
        Scalar::Nan | Scalar::Negative => 0,
        Scalar::Infinite => if length == 0 {
            0
        } else {
            usize::MAX as nat
        },
        Scalar::Finite(mantissa, exponent) => length_of(
            times(single_of(length), (mantissa, exponent)),
        ),
    }
}

/// A number over one hundred.
pub open spec fn hundredth(number: Scalar) -> Scalar {
    match number {
        Scalar::Finite(mantissa, exponent) => {
            let value = nearest(mantissa, 100, exponent, SINGLE as nat);
            Scalar::Finite(value.0, value.1)
        },
        other => other,
    }
}

/// The aspect ratio of a size.
pub open spec fn aspect(width: nat, height: nat) -> Scalar {
    if height == 0 {
        if width == 0 {
            Scalar::Nan
        } else {
            Scalar::Infinite
        }
    } else {
        let value = over(single_of(width), single_of(height));
        Scalar::Finite(value.0, value.1)
    }
}

/// A length over a ratio, cut to an integer.
pub open spec fn unscaled(length: nat, ratio: Scalar) -> nat {
    match ratio {
        Scalar::Nan | Scalar::Negative | Scalar::Infinite => 0,
        Scalar::Finite(mantissa, exponent) => if mantissa == 0 {
            if length == 0 {
                0
            } else {
                usize::MAX as nat
            }
        } else {
            length_of(over(single_of(length), (mantissa, exponent)))
        },
    }
}

/// The side that follows when another one is set to `side`: it keeps the ratio
/// of `other` to `anchor`, and is at least one pixel.
pub open spec fn derived_side(side: nat, anchor: nat, other: nat) -> nat {
    let length = length_of(over(times(single_of(side), single_of(other)), single_of(anchor)));
    if length == 0 {
        1
    } else {
        length
    }
}

/// An image with one side set to `side`. A degenerate image has no aspect
/// ratio to keep, and stays as it is.
pub open spec fn side_scaled(
    width: nat,
    height: nat,
    side: nat,
    anchor_is_width: bool,
) -> (nat, nat) {
    if width == 0 || height == 0 {
        (width, height)
    } else if anchor_is_width {
        (side, derived_side(side, width, height))
    } else {
        (derived_side(side, height, width), side)
    }
}

impl ResizeValue {
    /// The size that this value asks for.
    #[verifier::opaque]
    pub open spec fn size(self, width: nat, height: nat) -> (nat, nat) {
        match self {
            ResizeValue::Multiplier(factor) => (
                scaled(width, factor.scalar()),
                scaled(height, factor.scalar()),
            ),
            ResizeValue::Percentage(percentage) => (
                scaled(width, hundredth(percentage.scalar())),
                scaled(height, hundredth(percentage.scalar())),
            ),
            ResizeValue::Dimensions(Some(w), Some(h)) => (w as nat, h as nat),
            ResizeValue::Dimensions(Some(w), None) => (
                w as nat,
                unscaled(w as nat, aspect(width, height)),
            ),
            ResizeValue::Dimensions(None, Some(h)) => (
                scaled(h as nat, aspect(width, height)),
                h as nat,
            ),
            ResizeValue::Dimensions(None, None) => (width, height),
            ResizeValue::LongestSide(side) => side_scaled(
                width,
                height,
                side as nat,
                width >= height,
            ),
            ResizeValue::ShortestSide(side) => side_scaled(
                width,
                height,
                side as nat,
                width <= height,
            ),
        }
    }
}

/// An executable [`Scalar`].
#[derive(Clone, Copy)]
enum Reading {
    Nan,
    Negative,
    Infinite,
    Finite(Rounded),
}

impl Reading {
    spec fn scalar(self) -> Scalar {
        match self {
            Reading::Nan => Scalar::Nan,
            Reading::Negative => Scalar::Negative,
            Reading::Infinite => Scalar::Infinite,
            Reading::Finite(value) => Scalar::Finite(value.mantissa as nat, value.exponent as int),
        }
    }

    spec fn fits(self) -> bool {
        self matches Reading::Finite(value) ==> value.fits(SINGLE as nat, 1000)
    }
}

fn read_single(single: Single) -> (reading: Reading)
    ensures
        reading.scalar() == single.scalar(),
        reading matches Reading::Finite(value) ==> value.fits(SINGLE as nat, 400),
{
    let exponent: u32 = (single.bits / 0x80_0000) % 256;
    let fraction: u32 = single.bits % 0x80_0000;
    if exponent == 255 && fraction != 0 {
        Reading::Nan
    } else if single.bits >= 0x8000_0000 {
        Reading::Negative
    } else if exponent == 255 {
        Reading::Infinite
    } else if exponent == 0 {
        Reading::Finite(Rounded { mantissa: fraction as u64, exponent: -149 })
    } else {
        Reading::Finite(
            Rounded { mantissa: (fraction + 0x80_0000) as u64, exponent: exponent as i64 - 150 },
        )
    }
}

fn to_single(length: usize) -> (value: Rounded)
    ensures
        value.parts() == single_of(length as nat),
        value.fits(SINGLE as nat, 200),
        length > 0 ==> value.mantissa > 0,
{
    let value = round_nearest(length as u128, 1, 0, SINGLE);
    proof {
        if length > 0 {
            crate::precision::lemma_nearest_is_positive(length as nat, 1, 0, HALF as nat);
        }
    }
    value
}

fn multiply(a: Rounded, b: Rounded) -> (value: Rounded)
    requires
        a.fits(SINGLE as nat, 1000),
        b.fits(SINGLE as nat, 1000),
    ensures
        value.parts() == times(a.parts(), b.parts()),
        value.fits(SINGLE as nat, 3000),
{
    proof {
        assert(a.mantissa * b.mantissa <= 0x100_0000 * 0x100_0000) by (nonlinear_arith)
            requires
                a.mantissa <= 0x100_0000,
                b.mantissa <= 0x100_0000,
        ;
    }
    round_nearest(a.mantissa as u128 * b.mantissa as u128, 1, a.exponent + b.exponent, SINGLE)
}

fn divide(a: Rounded, b: Rounded) -> (value: Rounded)
    requires
        a.fits(SINGLE as nat, 3000),
        b.fits(SINGLE as nat, 1000),
        b.mantissa > 0,
    ensures
        value.parts() == over(a.parts(), b.parts()),
        value.fits(SINGLE as nat, 5000),
        a.fits(SINGLE as nat, 200) && b.fits(SINGLE as nat, 200) ==> value.fits(SINGLE as nat, 1000),
{
    round_nearest(a.mantissa as u128, b.mantissa as u128, a.exponent - b.exponent, SINGLE)
}

fn cut(value: Rounded) -> (length: usize)
    requires
        value.fits(SINGLE as nat, 10000),
    ensures
        length == length_of(value.parts()),
{
    to_integer(value, usize::MAX as u64) as usize
}

fn scale(length: usize, factor: Reading) -> (result: usize)
    requires
        factor.fits(),
    ensures
        result == scaled(length as nat, factor.scalar()),
{
    match factor {
        Reading::Nan => 0,
        Reading::Negative => 0,
        Reading::Infinite => {
            if length == 0 {
                0
            } else {
                usize::MAX
            }
        },
        Reading::Finite(value) => cut(multiply(to_single(length), value)),
    }
}

fn unscale(length: usize, ratio: Reading) -> (result: usize)
    requires
        ratio.fits(),
    ensures
        result == unscaled(length as nat, ratio.scalar()),
{
    match ratio {
        Reading::Nan => 0,
        Reading::Negative => 0,
        Reading::Infinite => 0,
        Reading::Finite(value) => {
            if value.mantissa == 0 {
                if length == 0 {
                    0
                } else {
                    usize::MAX
                }
            } else {
                cut(divide(to_single(length), value))
            }
        },
    }
}

fn percent(number: Reading) -> (result: Reading)
    requires
        number matches Reading::Finite(value) ==> value.fits(SINGLE as nat, 400),
    ensures
        result.scalar() == hundredth(number.scalar()),
        result.fits(),
{
    match number {
        Reading::Finite(value) => Reading::Finite(
            round_nearest(value.mantissa as u128, 100, value.exponent, SINGLE),
        ),
        other => other,
    }
}

fn ratio_of(width: usize, height: usize) -> (ratio: Reading)
    ensures
        ratio.scalar() == aspect(width as nat, height as nat),
        ratio.fits(),
{
    if height == 0 {
        if width == 0 {
            Reading::Nan
        } else {
            Reading::Infinite
        }
    } else {
        Reading::Finite(divide(to_single(width), to_single(height)))
    }
}

/// Scales an image so that one of its sides becomes `side`, keeping the aspect
/// ratio. The other side never drops below a single pixel.
pub fn scale_side(width: usize, height: usize, side: usize, anchor_is_width: bool) -> (size: (
    usize,
    usize,
))
    ensures
        (size.0 as nat, size.1 as nat) == side_scaled(
            width as nat,
            height as nat,
            side as nat,
            anchor_is_width,
        ),
{
    if width == 0 || height == 0 {
        return (width, height);
    }
    if anchor_is_width {
        let length = cut(divide(multiply(to_single(side), to_single(height)), to_single(width)));
        (side, if length == 0 {
            1
        } else {
            length
        })
    } else {
        let length = cut(divide(multiply(to_single(side), to_single(width)), to_single(height)));
        (if length == 0 {
            1
        } else {
            length
        }, side)
    }
}

impl ResizeValue {
    /// The size that this value asks for, of an image of the given size.
    pub fn map_dimensions(&self, width: usize, height: usize) -> (size: (usize, usize))
        ensures
            (size.0 as nat, size.1 as nat) == self.size(width as nat, height as nat),
    {
        proof {
            reveal(ResizeValue::size);
        }
        match *self {
            ResizeValue::Multiplier(multiplier) => {
                let factor = read_single(multiplier);
                (scale(width, factor), scale(height, factor))
            },
            ResizeValue::Percentage(percentage) => {
                let factor = percent(read_single(percentage));
                (scale(width, factor), scale(height, factor))
            },
            ResizeValue::Dimensions(Some(w), Some(h)) => (w, h),
            ResizeValue::Dimensions(Some(w), None) => (w, unscale(w, ratio_of(width, height))),
            ResizeValue::Dimensions(None, Some(h)) => (scale(h, ratio_of(width, height)), h),
            ResizeValue::Dimensions(None, None) => (width, height),
            ResizeValue::LongestSide(side) => scale_side(width, height, side, width >= height),
            ResizeValue::ShortestSide(side) => scale_side(width, height, side, width <= height),
        }
    }
}

// --- Text --------------------------------------------------------------------
/// The text with the marker taken off either end.
pub open spec fn without_marker(text: Seq<char>, marker: char) -> Option<Seq<char>> {
    if text.len() > 0 && text.first() == marker {
        Some(text.drop_first())
    } else if text.len() > 0 && text.last() == marker {
        Some(text.drop_last())
    } else {
        None
    }
}

/// The length of a value that is anchored to a marker: the marker on either
/// end, the digits of a number above zero, and nothing else but white space
/// between them.
pub open spec fn anchored_length(text: Seq<char>, marker: char) -> Result<nat, ResizeError> {
    match without_marker(text, marker) {
        None => Err(ResizeError::Invalid),
        Some(rest) => {
            let digits = crate::text::trimmed(rest);
            if digits.len() == 0 {
                Err(ResizeError::Invalid)
            } else {
                match read_digits(0, digits, usize::MAX as nat) {
                    Err(_) => Err(ResizeError::Invalid),
                    Ok(length) => if length == 0 {
                        Err(ResizeError::ZeroLength)
                    } else {
                        Ok(length)
                    },
                }
            }
        },
    }
}

/// How many of the anchor markers a text holds.
pub open spec fn anchors(text: Seq<char>) -> nat {
    (if text.contains('w') {
        1nat
    } else {
        0
    }) + (if text.contains('h') {
        1nat
    } else {
        0
    }) + (if text.contains('l') {
        1nat
    } else {
        0
    }) + (if text.contains('s') {
        1nat
    } else {
        0
    })
}

/// Two numbers with an `x` between them.
pub open spec fn both_dimensions(text: Seq<char>) -> Result<ResizeValue, ResizeError> {
    let at = first_index(text, 'x');
    let left = text.take(at);
    let right = text.skip(at + 1);
    if right.contains('x') {
        Err(ResizeError::ManyDimensions)
    } else {
        match crate::text::read_number(left, usize::MAX as nat) {
            Err(error) => Err(ResizeError::Dimension(error)),
            Ok(width) => match crate::text::read_number(right, usize::MAX as nat) {
                Err(error) => Err(ResizeError::Dimension(error)),
                Ok(height) => Ok(
                    ResizeValue::Dimensions(Some(width as usize), Some(height as usize)),
                ),
            },
        }
    }
}

/// The part of a value that is a number with a fraction: what follows `@`, or
/// what precedes `%`.
pub open spec fn number_part(text: Seq<char>) -> Option<Seq<char>> {
    if text.len() > 0 && text.first() == '@' {
        Some(text.drop_first())
    } else if text.len() > 0 && text.last() == '%' {
        Some(text.drop_last())
    } else {
        None
    }
}

/// A resize value in small letters and without white space around it, where
/// `number` is what its number part stands for, if it is a number.
pub open spec fn parsed(text: Seq<char>, number: Option<Single>) -> Result<
    ResizeValue,
    ResizeError,
> {
    match number_part(text) {
        Some(part) => match number {
            None => Err(
                if part.len() == 0 {
                    ResizeError::EmptyNumber
                } else {
                    ResizeError::InvalidNumber
                },
            ),
            Some(single) => Ok(
                if text.first() == '@' {
                    ResizeValue::Multiplier(single)
                } else {
                    ResizeValue::Percentage(single)
                },
            ),
        },
        None => if anchors(text) > 1 {
            Err(ResizeError::ManyAnchors)
        } else if text.contains('w') {
            match anchored_length(text, 'w') {
                Ok(length) => Ok(ResizeValue::Dimensions(Some(length as usize), None)),
                Err(error) => Err(error),
            }
        } else if text.contains('h') {
            match anchored_length(text, 'h') {
                Ok(length) => Ok(ResizeValue::Dimensions(None, Some(length as usize))),
                Err(error) => Err(error),
            }
        } else if text.contains('l') {
            match anchored_length(text, 'l') {
                Ok(length) => Ok(ResizeValue::LongestSide(length as usize)),
                Err(error) => Err(error),
            }
        } else if text.contains('s') {
            match anchored_length(text, 's') {
                Ok(length) => Ok(ResizeValue::ShortestSide(length as usize)),
                Err(error) => Err(error),
            }
        } else if text.contains('x') {
            both_dimensions(text)
        } else {
            Err(ResizeError::Invalid)
        },
    }
}

/// A length as the number it stands for.
pub open spec fn length_number(result: Result<usize, ResizeError>) -> Result<nat, ResizeError> {
    match result {
        Ok(length) => Ok(length as nat),
        Err(error) => Err(error),
    }
}

/// Extracts the target length from a value anchored to one of the markers.
///
/// The marker may sit on either end of the digits, but nothing else may appear
/// in the value: pulling the first run of digits out of anything else would
/// accept typos like `1.5w`.
pub fn parse_length(text: &str, marker: char) -> (result: Result<usize, ResizeError>)
    ensures
        length_number(result) == anchored_length(text@, marker),
{
    let count: usize = text.unicode_len();
    if count == 0 {
        return Err(ResizeError::Invalid);
    }
    let digits = if text.get_char(0) == marker {
        assert(text@.subrange(1, count as int) =~= text@.drop_first());
        text.substring_char(1, count)
    } else if text.get_char(count - 1) == marker {
        assert(text@.subrange(0, count - 1) =~= text@.drop_last());
        text.substring_char(0, count - 1)
    } else {
        return Err(ResizeError::Invalid);
    };
    let digits = trim(digits);
    if digits.unicode_len() == 0 || digits.get_char(0) == '+' {
        return Err(ResizeError::Invalid);
    }
    match parse_number(digits, usize::MAX as u64) {
        Err(_) => Err(ResizeError::Invalid),
        Ok(length) => {
            if length == 0 {
                Err(ResizeError::ZeroLength)
            } else {
                Ok(length as usize)
            }
        },
    }
}

fn parse_dimensions(text: &str) -> (result: Result<ResizeValue, ResizeError>)
    requires
        text@.contains('x'),
    ensures
        result == both_dimensions(text@),
{
    let chars = chars_of(text);
    let count: usize = chars.len();
    let at: usize = find_char(&chars, 'x');
    proof {
        lemma_first_index(text@, 'x');
        assert(text@.subrange(0, at as int) =~= text@.take(at as int));
        assert(text@.subrange(at + 1, count as int) =~= text@.skip(at + 1));
    }
    assert(count == text@.len());
    let left = text.substring_char(0, at);
    let right = text.substring_char(at + 1, count);
    if has_char(right, 'x') {
        return Err(ResizeError::ManyDimensions);
    }
    let width: usize = match parse_number(left, usize::MAX as u64) {
        Ok(width) => width as usize,
        Err(error) => return Err(ResizeError::Dimension(error)),
    };
    let height: usize = match parse_number(right, usize::MAX as u64) {
        Ok(height) => height as usize,
        Err(error) => return Err(ResizeError::Dimension(error)),
    };
    Ok(ResizeValue::Dimensions(Some(width), Some(height)))
}

fn count_anchors(text: &str) -> (count: u8)
    ensures
        count == anchors(text@),
{
    let mut count: u8 = 0;
    if has_char(text, 'w') {
        count = count + 1;
    }
    if has_char(text, 'h') {
        count = count + 1;
    }
    if has_char(text, 'l') {
        count = count + 1;
    }
    if has_char(text, 's') {
        count = count + 1;
    }
    count
}

/// The part of a prepared value that is a number with a fraction.
fn split_number(text: &str) -> (part: Option<String>)
    ensures
        part is Some == number_part(text@) is Some,
        part matches Some(part) ==> number_part(text@) == Some(part@),
{
    let count: usize = text.unicode_len();
    if count == 0 {
        return None;
    }
    if text.get_char(0) == '@' {
        assert(text@.subrange(1, count as int) =~= text@.drop_first());
        Some(text.substring_char(1, count).to_owned())
    } else if text.get_char(count - 1) == '%' {
        assert(text@.subrange(0, count - 1) =~= text@.drop_last());
        Some(text.substring_char(0, count - 1).to_owned())
    } else {
        None
    }
}

/// Reads a resize value that is in small letters and has no white space around
/// it. `number` is what the part after `@` or before `%` stands for, or `None`
/// where that is no number.
pub fn parse_prepared(text: &str, number: Option<Single>) -> (result: Result<
    ResizeValue,
    ResizeError,
>)
    ensures
        result == parsed(text@, number),
{
    match split_number(text) {
        Some(part) => match number {
            None => {
                if part.as_str().unicode_len() == 0 {
                    Err(ResizeError::EmptyNumber)
                } else {
                    Err(ResizeError::InvalidNumber)
                }
            },
            Some(single) => {
                if text.get_char(0) == '@' {
                    Ok(ResizeValue::Multiplier(single))
                } else {
                    Ok(ResizeValue::Percentage(single))
                }
            },
        },
        None => {
            if count_anchors(text) > 1 {
                Err(ResizeError::ManyAnchors)
            } else if has_char(text, 'w') {
                match parse_length(text, 'w') {
                    Ok(length) => Ok(ResizeValue::Dimensions(Some(length), None)),
                    Err(error) => Err(error),
                }
            } else if has_char(text, 'h') {
                match parse_length(text, 'h') {
                    Ok(length) => Ok(ResizeValue::Dimensions(None, Some(length))),
                    Err(error) => Err(error),
                }
            } else if has_char(text, 'l') {
                match parse_length(text, 'l') {
                    Ok(length) => Ok(ResizeValue::LongestSide(length)),
                    Err(error) => Err(error),
                }
            } else if has_char(text, 's') {
                match parse_length(text, 's') {
                    Ok(length) => Ok(ResizeValue::ShortestSide(length)),
                    Err(error) => Err(error),
                }
            } else if has_char(text, 'x') {
                parse_dimensions(text)
            } else {
                Err(ResizeError::Invalid)
            }
        },
    }
}

impl ResizeValue {
    /// The part of a value that has to be read as a number with a fraction, if
    /// the value is a multiplier or a percentage.
    pub fn number_text(text: &str) -> (part: Option<String>)
        ensures
            part is Some == number_part(
                crate::text::unicode_lowercase(crate::text::trimmed(text@)),
            ) is Some,
            part matches Some(part) ==> number_part(
                crate::text::unicode_lowercase(crate::text::trimmed(text@)),
            ) == Some(part@),
    {
        split_number(to_lowercase(trim(text)).as_str())
    }

    /// Reads a resize value. `number` is what [`ResizeValue::number_text`]
    /// stands for, or `None` where that is no number.
    pub fn from_str(text: &str, number: Option<Single>) -> (result: Result<
        ResizeValue,
        ResizeError,
    >)
        ensures
            result == parsed(
                crate::text::unicode_lowercase(crate::text::trimmed(text@)),
                number,
            ),
            vstd::utf8::is_ascii_chars(crate::text::trimmed(text@)) ==> result == parsed(
                crate::text::ascii_lowered(crate::text::trimmed(text@)),
                number,
            ),
    {
        parse_prepared(to_lowercase(trim(text)).as_str(), number)
    }

    /// How a value is written, where `number` is the text of its number.
    pub open spec fn written(self, number: Seq<char>) -> Seq<char> {
        match self {
            ResizeValue::Multiplier(_) => "@"@ + number,
            ResizeValue::Percentage(_) => number + "%"@,
            ResizeValue::Dimensions(Some(width), Some(height)) => crate::text::decimal(
                width as nat,
            ) + "x"@ + crate::text::decimal(height as nat),
            ResizeValue::Dimensions(Some(width), None) => crate::text::decimal(width as nat)
                + "w"@,
            ResizeValue::Dimensions(None, Some(height)) => crate::text::decimal(height as nat)
                + "h"@,
            ResizeValue::Dimensions(None, None) => "base"@,
            ResizeValue::LongestSide(side) => crate::text::decimal(side as nat) + "l"@,
            ResizeValue::ShortestSide(side) => crate::text::decimal(side as nat) + "s"@,
        }
    }

    /// Writes a value. `number` is the text of its multiplier or percentage;
    /// the other values have none.
    pub fn display(&self, number: &str) -> (text: String)
        ensures
            text@ == self.written(number@),
    {
        match *self {
            ResizeValue::Multiplier(_) => {
                let mut text = "@".to_owned();
                text.append(number);
                text
            },
            ResizeValue::Percentage(_) => {
                let mut text = number.to_owned();
                text.append("%");
                text
            },
            ResizeValue::Dimensions(Some(width), Some(height)) => {
                let mut text = decimal_text(width as u128);
                text.append("x");
                text.append(decimal_text(height as u128).as_str());
                text
            },
            ResizeValue::Dimensions(Some(width), None) => {
                let mut text = decimal_text(width as u128);
                text.append("w");
                text
            },
            ResizeValue::Dimensions(None, Some(height)) => {
                let mut text = decimal_text(height as u128);
                text.append("h");
                text
            },
            ResizeValue::Dimensions(None, None) => "base".to_owned(),
            ResizeValue::LongestSide(side) => {
                let mut text = decimal_text(side as u128);
                text.append("l");
                text
            },
            ResizeValue::ShortestSide(side) => {
                let mut text = decimal_text(side as u128);
                text.append("s");
                text
            },
        }
    }
}

// --- Laws --------------------------------------------------------------------
/// Whether a value has a text that reads back: `base` names no size, and an
/// anchored length of zero is refused.
pub open spec fn is_writable(value: ResizeValue) -> bool {
    match value {
        ResizeValue::Dimensions(None, None) => false,
        ResizeValue::Dimensions(Some(width), None) => width > 0,
        ResizeValue::Dimensions(None, Some(height)) => height > 0,
        ResizeValue::LongestSide(side) => side > 0,
        ResizeValue::ShortestSide(side) => side > 0,
        _ => true,
    }
}

/// Whether the text of a number is written plainly: in ASCII, without capitals
/// and without anything that belongs to another value on its ends.
pub open spec fn is_plain(number: Seq<char>) -> bool {
    &&& number.len() > 0
    &&& vstd::utf8::is_ascii_chars(number)
    &&& crate::text::ascii_lowered(number) == number
    &&& !crate::text::is_space(number.first())
    &&& !crate::text::is_space(number.last())
    &&& number.first() != '@'
}

/// A text that ASCII lowering and trimming leave alone.
spec fn is_settled(text: Seq<char>) -> bool {
    &&& vstd::utf8::is_ascii_chars(text)
    &&& crate::text::ascii_lowered(text) == text
    &&& crate::text::trimmed(text) == text
}

/// A decimal number followed by a small ASCII letter.
proof fn lemma_decimal_and_letter(number: nat, letter: char)
    requires
        97 <= letter as u32 <= 122,
    ensures
        is_settled(crate::text::decimal(number).push(letter)),
        forall|c: char|
            crate::text::decimal(number).push(letter).contains(c) ==> c == letter
                || crate::text::is_digit(c),
        crate::text::decimal(number).push(letter).contains(letter),
{
    crate::text::lemma_decimal_is_digits(number);
    let digits = crate::text::decimal(number);
    let text = digits.push(letter);
    assert(text[text.len() - 1] == letter);
    assert forall|i: int| 0 <= i < text.len() implies text[i] == letter || crate::text::is_digit(
        #[trigger] text[i],
    ) by {
        if i < digits.len() {
            assert(crate::text::is_digit(digits[i]));
        }
    }
    assert(crate::text::ascii_lowered(text) =~= text);
    crate::text::lemma_trimmed_already(text);
}

/// An anchored value reads back as its length.
proof fn lemma_anchored(number: nat, marker: char)
    requires
        0 < number <= usize::MAX,
        marker == 'w' || marker == 'h' || marker == 'l' || marker == 's',
    ensures
        ({
            let text = crate::text::decimal(number).push(marker);
            &&& is_settled(text)
            &&& number_part(text) is None
            &&& anchors(text) == 1
            &&& forall|c: char| text.contains(c) && !crate::text::is_digit(c) ==> c == marker
            &&& text.contains(marker)
            &&& anchored_length(text, marker) == Ok::<nat, ResizeError>(number)
        }),
{
    let digits = crate::text::decimal(number);
    let text = digits.push(marker);
    lemma_decimal_and_letter(number, marker);
    crate::text::lemma_decimal_is_digits(number);
    assert(crate::text::is_digit(digits[0]));
    assert(crate::text::is_digit(digits[digits.len() - 1]));
    assert(text.drop_last() =~= digits);
    crate::text::lemma_trimmed_already(digits);
    crate::text::law_decimal_reads_back(number, usize::MAX as nat);
}

/// Two numbers with an `x` between them read back.
proof fn lemma_both(width: nat, height: nat)
    requires
        width <= usize::MAX,
        height <= usize::MAX,
    ensures
        ({
            let text = crate::text::decimal(width).push('x') + crate::text::decimal(height);
            &&& is_settled(text)
            &&& number_part(text) is None
            &&& anchors(text) == 0
            &&& text.contains('x')
            &&& both_dimensions(text) == Ok::<ResizeValue, ResizeError>(
                ResizeValue::Dimensions(Some(width as usize), Some(height as usize)),
            )
        }),
{
    let left = crate::text::decimal(width);
    let right = crate::text::decimal(height);
    let text = left.push('x') + right;
    crate::text::lemma_decimal_is_digits(width);
    crate::text::lemma_decimal_is_digits(height);
    assert forall|i: int| 0 <= i < text.len() implies (if i == left.len() {
        text[i] == 'x'
    } else {
        crate::text::is_digit(#[trigger] text[i])
    }) by {
        if i < left.len() {
            assert(crate::text::is_digit(left[i]));
        } else if i > left.len() {
            assert(crate::text::is_digit(right[i - left.len() - 1]));
        }
    }
    assert(text[left.len() as int] == 'x');
    assert(crate::text::is_digit(text[0]));
    assert(crate::text::is_digit(text[text.len() - 1]));
    assert(crate::text::ascii_lowered(text) =~= text);
    crate::text::lemma_trimmed_already(text);
    lemma_first_index(text, 'x');
    let at = first_index(text, 'x');
    if at < left.len() {
        assert(crate::text::is_digit(text[at]));
    }
    assert(text.take(at) =~= left);
    assert(text.skip(at + 1) =~= right);
    crate::text::law_decimal_reads_back(width, usize::MAX as nat);
    crate::text::law_decimal_reads_back(height, usize::MAX as nat);
}

/// The text of a value is settled, and reads as the value.
proof fn lemma_written_reads_back(
    value: ResizeValue,
    number: Seq<char>,
    reading: Option<Single>,
)
    requires
        is_writable(value),
        value is Multiplier || value is Percentage ==> is_plain(number),
        value matches ResizeValue::Multiplier(single) ==> reading == Some(single),
        value matches ResizeValue::Percentage(single) ==> reading == Some(single),
    ensures
        is_settled(value.written(number)),
        parsed(value.written(number), reading) == Ok::<ResizeValue, ResizeError>(value),
        value is Multiplier || value is Percentage ==> number_part(value.written(number)) == Some(
            number,
        ),
{
    reveal_strlit("@");
    reveal_strlit("%");
    reveal_strlit("x");
    reveal_strlit("w");
    reveal_strlit("h");
    reveal_strlit("l");
    reveal_strlit("s");
    let text = value.written(number);
    match value {
        ResizeValue::Multiplier(single) => {
            assert(text =~= seq!['@'] + number);
            assert(text.drop_first() =~= number);
            assert(text.last() == number.last());
            lemma_surrounded(text, number, '@', true);
        },
        ResizeValue::Percentage(single) => {
            assert(text =~= number.push('%'));
            assert(text.drop_last() =~= number);
            assert(text.first() == number.first());
            lemma_surrounded(text, number, '%', false);
        },
        ResizeValue::Dimensions(Some(width), Some(height)) => {
            assert(text =~= crate::text::decimal(width as nat).push('x') + crate::text::decimal(
                height as nat,
            ));
            lemma_both(width as nat, height as nat);
        },
        ResizeValue::Dimensions(Some(width), None) => {
            assert(text =~= crate::text::decimal(width as nat).push('w'));
            lemma_anchored(width as nat, 'w');
        },
        ResizeValue::Dimensions(None, Some(height)) => {
            assert(text =~= crate::text::decimal(height as nat).push('h'));
            lemma_anchored(height as nat, 'h');
        },
        ResizeValue::Dimensions(None, None) => {},
        ResizeValue::LongestSide(side) => {
            assert(text =~= crate::text::decimal(side as nat).push('l'));
            lemma_anchored(side as nat, 'l');
        },
        ResizeValue::ShortestSide(side) => {
            assert(text =~= crate::text::decimal(side as nat).push('s'));
            lemma_anchored(side as nat, 's');
        },
    }
}

/// Writing a value and reading it back gives the value: its text is plain
/// ASCII, so [`ResizeValue::from_str`] reads it as stated here. `number` is
/// the text of a multiplier or a percentage, which comes back as it was.
pub proof fn law_display_round_trips_through_from_str(
    value: ResizeValue,
    number: Seq<char>,
    reading: Option<Single>,
)
    requires
        is_writable(value),
        value is Multiplier || value is Percentage ==> is_plain(number),
        value matches ResizeValue::Multiplier(single) ==> reading == Some(single),
        value matches ResizeValue::Percentage(single) ==> reading == Some(single),
    ensures
        ({
            let text = crate::text::trimmed(value.written(number));
            &&& vstd::utf8::is_ascii_chars(text)
            &&& parsed(crate::text::ascii_lowered(text), reading) == Ok::<ResizeValue, ResizeError>(
                value,
            )
            &&& value is Multiplier || value is Percentage ==> number_part(
                crate::text::ascii_lowered(text),
            ) == Some(number)
        }),
{
    lemma_written_reads_back(value, number, reading);
}

/// A character that is ASCII once it is made small is ASCII.
proof fn lemma_ascii_once_small(c: char)
    requires
        '\0' <= crate::text::ascii_lower(c) <= '\u{7f}',
    ensures
        '\0' <= c <= '\u{7f}',
{
}

/// A value is read whatever capitals its text has and whatever white space
/// stands around it.
pub proof fn law_a_value_is_read_in_any_case_and_spacing(
    value: ResizeValue,
    number: Seq<char>,
    reading: Option<Single>,
    before: Seq<char>,
    typed: Seq<char>,
    after: Seq<char>,
)
    requires
        is_writable(value),
        value is Multiplier || value is Percentage ==> is_plain(number),
        value matches ResizeValue::Multiplier(single) ==> reading == Some(single),
        value matches ResizeValue::Percentage(single) ==> reading == Some(single),
        crate::text::ascii_lowered(typed) == value.written(number),
        forall|i: int| 0 <= i < before.len() ==> crate::text::is_space(#[trigger] before[i]),
        forall|i: int| 0 <= i < after.len() ==> crate::text::is_space(#[trigger] after[i]),
    ensures
        ({
            let text = crate::text::trimmed(before + typed + after);
            &&& vstd::utf8::is_ascii_chars(text)
            &&& parsed(crate::text::ascii_lowered(text), reading) == Ok::<ResizeValue, ResizeError>(
                value,
            )
            &&& value is Multiplier || value is Percentage ==> number_part(
                crate::text::ascii_lowered(text),
            ) == Some(number)
        }),
{
    let written = value.written(number);
    lemma_written_reads_back(value, number, reading);
    assert(typed.len() == written.len());
    assert forall|i: int| 0 <= i < typed.len() implies '\0' <= #[trigger] typed[i] <= '\u{7f}' by {
        assert(written[i] == crate::text::ascii_lower(typed[i]));
        assert('\0' <= written[i] <= '\u{7f}');
        lemma_ascii_once_small(typed[i]);
    }
    crate::text::lemma_trimmed_ends(written);
    if typed.len() > 0 {
        assert(written[0] == crate::text::ascii_lower(typed[0]));
        assert(written[written.len() - 1] == crate::text::ascii_lower(typed[typed.len() - 1]));
    }
    crate::text::law_trimming_takes_off_outer_white_space(before, typed, after);
}

/// A plain number with one ASCII sign before or after it is settled.
proof fn lemma_surrounded(text: Seq<char>, number: Seq<char>, sign: char, before: bool)
    requires
        is_plain(number),
        sign == '@' || sign == '%',
        text == (if before {
            seq![sign] + number
        } else {
            number.push(sign)
        }),
    ensures
        is_settled(text),
{
    assert forall|i: int| 0 <= i < text.len() implies crate::text::ascii_lower(text[i])
        == #[trigger] text[i] && (text[i] as u32) < 128 by {
        if before && i > 0 {
            assert(crate::text::ascii_lowered(number)[i - 1] == number[i - 1]);
            assert(text[i] == number[i - 1]);
        }
        if !before && i < number.len() {
            assert(crate::text::ascii_lowered(number)[i] == number[i]);
            assert(text[i] == number[i]);
        }
    }
    assert(crate::text::ascii_lowered(text) =~= text);
    crate::text::lemma_trimmed_already(text);
}

/// A side value sets the anchored side to exactly the length asked for, and
/// never makes the other one vanish.
pub proof fn law_a_side_value_anchors_its_side(side: usize, width: nat, height: nat)
    requires
        width > 0,
        height > 0,
    ensures
        ({
            let longest = ResizeValue::LongestSide(side).size(width, height);
            let shortest = ResizeValue::ShortestSide(side).size(width, height);
            &&& width >= height ==> longest.0 == side && longest.1 >= 1
            &&& width < height ==> longest.1 == side && longest.0 >= 1
            &&& width <= height ==> shortest.0 == side && shortest.1 >= 1
            &&& width > height ==> shortest.1 == side && shortest.0 >= 1
        }),
{
    reveal(ResizeValue::size);
}

/// A side value leaves an image without area alone.
pub proof fn law_a_side_value_leaves_degenerate_images_alone(
    side: usize,
    width: nat,
    height: nat,
)
    requires
        width == 0 || height == 0,
    ensures
        ResizeValue::LongestSide(side).size(width, height) == (width, height),
        ResizeValue::ShortestSide(side).size(width, height) == (width, height),
{
    reveal(ResizeValue::size);
}

/// A side value treats portrait and landscape alike: turning the image turns
/// the result.
pub proof fn law_a_side_value_turns_with_the_image(side: usize, width: nat, height: nat)
    ensures
        ({
            let there = ResizeValue::LongestSide(side).size(width, height);
            let turned = ResizeValue::LongestSide(side).size(height, width);
            turned == (there.1, there.0) || (width == height)
        }),
        ({
            let there = ResizeValue::ShortestSide(side).size(width, height);
            let turned = ResizeValue::ShortestSide(side).size(height, width);
            turned == (there.1, there.0) || (width == height)
        }),
{
    reveal(ResizeValue::size);
}

} // verus!
