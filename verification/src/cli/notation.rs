//! How resize values are written down.

use vstd::prelude::*;
use crate::cli::resize::{parsed, ResizeError, ResizeValue, Single};
use crate::digits::{all_digits, amount, law_digits_are_read_as_their_amount};
use crate::text::{decimal, first_index, is_space, NumberError};

verus! {

/// Whether a text is white space.
pub open spec fn all_space(text: Seq<char>) -> bool {
    forall|i: int| 0 <= i < text.len() ==> is_space(#[trigger] text[i])
}

/// The value of a length that a letter anchors: `w` a width, `h` a height, `l` the
/// longer side and `s` the shorter one.
pub open spec fn anchored_value(letter: char, length: nat) -> ResizeValue {
    if letter == 'w' {
        ResizeValue::Dimensions(Some(length as usize), None)
    } else if letter == 'h' {
        ResizeValue::Dimensions(None, Some(length as usize))
    } else if letter == 'l' {
        ResizeValue::LongestSide(length as usize)
    } else {
        ResizeValue::ShortestSide(length as usize)
    }
}

/// Digits and white space hold no letter.
proof fn lemma_plain_characters(text: Seq<char>, c: char)
    requires
        forall|i: int|
            0 <= i < text.len() ==> is_space(#[trigger] text[i]) || ('0' <= text[i] && text[i]
                <= '9'),
        c == 'w' || c == 'h' || c == 'l' || c == 's' || c == 'x' || c == '@' || c == '%',
    ensures
        !text.contains(c),
{
    if text.contains(c) {
        let i = choose|i: int| 0 <= i < text.len() && text[i] == c;
        lemma_letter_is_no_space(text[i]);
    }
}

proof fn lemma_letter_is_no_space(c: char)
    ensures
        c == 'w' || c == 'h' || c == 'l' || c == 's' || c == 'x' || c == '@' || c == '%'
            ==> !is_space(c) && !('0' <= c && c <= '9'),
        '0' <= c && c <= '9' ==> !is_space(c),
{
}

/// A length with an anchor letter on either end, and white space between them or
/// not, is read as the value that the letter stands for. A length of zero is
/// refused as such, and one that is too large as no value.
pub proof fn law_a_letter_anchors_a_length(
    digits: Seq<char>,
    space: Seq<char>,
    letter: char,
    number: Option<Single>,
)
    requires
        digits.len() > 0,
        all_digits(digits),
        all_space(space),
        letter == 'w' || letter == 'h' || letter == 'l' || letter == 's',
    ensures
        ({
            let behind = parsed(digits + space + seq![letter], number);
            let before = parsed(seq![letter] + space + digits, number);
            let length = amount(digits);
            &&& 0 < length <= usize::MAX ==> behind == Ok::<ResizeValue, ResizeError>(
                anchored_value(letter, length),
            ) && before == Ok::<ResizeValue, ResizeError>(anchored_value(letter, length))
            &&& length == 0 ==> behind == Err::<ResizeValue, ResizeError>(ResizeError::ZeroLength)
                && before == Err::<ResizeValue, ResizeError>(ResizeError::ZeroLength)
            &&& length > usize::MAX ==> behind == Err::<ResizeValue, ResizeError>(
                ResizeError::Invalid,
            ) && before == Err::<ResizeValue, ResizeError>(ResizeError::Invalid)
        }),
{
    let behind = digits + space + seq![letter];
    let before = seq![letter] + space + digits;
    lemma_letter_is_no_space(letter);
    assert(digits[0] == digits.first() && digits[digits.len() - 1] == digits.last());
    lemma_letter_is_no_space(digits.first());
    lemma_letter_is_no_space(digits.last());
    crate::text::law_trimming_takes_off_outer_white_space(Seq::empty(), digits, space);
    crate::text::law_trimming_takes_off_outer_white_space(space, digits, Seq::empty());
    assert(Seq::<char>::empty() + digits + space =~= digits + space);
    assert(space + digits + Seq::<char>::empty() =~= space + digits);
    assert(behind.drop_last() =~= digits + space);
    assert(before.drop_first() =~= space + digits);
    assert(behind.first() == digits.first());
    assert(behind.last() == letter);
    assert(before.first() == letter);
    assert(before.last() == digits.last());
    law_digits_are_read_as_their_amount(digits, usize::MAX as nat);
    lemma_only_letter(behind, letter);
    lemma_only_letter(before, letter);
    assert(digits.first() != '+') by {
        lemma_no_plus(digits.first());
    }
}

proof fn lemma_no_plus(c: char)
    requires
        '0' <= c && c <= '9',
    ensures
        c != '+',
        c != '@',
        c != '%',
{
}

/// A text of digits, white space and one letter holds no other letter.
proof fn lemma_only_letter(text: Seq<char>, letter: char)
    requires
        text.len() > 0,
        text.first() == letter || text.last() == letter,
        letter == 'w' || letter == 'h' || letter == 'l' || letter == 's',
        forall|i: int|
            0 <= i < text.len() ==> is_space(#[trigger] text[i]) || ('0' <= text[i] && text[i]
                <= '9') || text[i] == letter,
    ensures
        text.contains(letter),
        forall|c: char|
            (c == 'w' || c == 'h' || c == 'l' || c == 's' || c == 'x' || c == '@' || c == '%')
                && #[trigger] text.contains(c) ==> c == letter,
        text.first() != '@',
        text.last() != '%',
{
    assert(text[0] == text.first() && text[text.len() - 1] == text.last());
    assert(text.contains(letter));
    assert forall|c: char|
        (c == 'w' || c == 'h' || c == 'l' || c == 's' || c == 'x' || c == '@' || c == '%')
            && #[trigger] text.contains(c) implies c == letter by {
        let i = choose|i: int| 0 <= i < text.len() && text[i] == c;
        lemma_letter_is_no_space(text[i]);
    }
    lemma_letter_is_no_space(text.first());
    lemma_letter_is_no_space(text.last());
}

/// A width, `x` and a height are read as both sides, in that order. A side that is
/// too large, or missing, is reported as such.
pub proof fn law_two_lengths_are_width_and_height(
    left: Seq<char>,
    right: Seq<char>,
    number: Option<Single>,
)
    requires
        all_digits(left),
        all_digits(right),
        left.len() + right.len() > 0,
    ensures
        ({
            let read = parsed(left + seq!['x'] + right, number);
            let max = usize::MAX as nat;
            &&& left.len() > 0 && right.len() > 0 && amount(left) <= max && amount(right) <= max
                ==> read == Ok::<ResizeValue, ResizeError>(
                ResizeValue::Dimensions(
                    Some(amount(left) as usize),
                    Some(amount(right) as usize),
                ),
            )
            &&& left.len() == 0 ==> read == Err::<ResizeValue, ResizeError>(
                ResizeError::Dimension(NumberError::Empty),
            )
            &&& left.len() > 0 && amount(left) > max ==> read == Err::<ResizeValue, ResizeError>(
                ResizeError::Dimension(NumberError::TooLarge),
            )
            &&& left.len() > 0 && amount(left) <= max && right.len() == 0 ==> read == Err::<
                ResizeValue,
                ResizeError,
            >(ResizeError::Dimension(NumberError::Empty))
            &&& left.len() > 0 && amount(left) <= max && right.len() > 0 && amount(right) > max
                ==> read == Err::<ResizeValue, ResizeError>(
                ResizeError::Dimension(NumberError::TooLarge),
            )
        }),
{
    let text = left + seq!['x'] + right;
    let at = left.len() as int;
    assert(text[at] == 'x');
    assert forall|i: int| 0 <= i < text.len() implies (#[trigger] text[i]) == 'x' || ('0' <= text[i]
        && text[i] <= '9') by {
        if i < at {
            assert(text[i] == left[i]);
        } else if i > at {
            assert(text[i] == right[i - at - 1]);
        }
    }
    assert forall|c: char|
        (c == 'w' || c == 'h' || c == 'l' || c == 's' || c == '@' || c == '%') implies !(
    #[trigger] text.contains(c)) by {
        if text.contains(c) {
            let i = choose|i: int| 0 <= i < text.len() && text[i] == c;
            lemma_letter_is_no_space(text[i]);
        }
    }
    assert(text[0] == text.first() && text[text.len() - 1] == text.last());
    assert(text.first() != '@') by {
        assert(!text.contains('@'));
    }
    assert(text.last() != '%') by {
        assert(!text.contains('%'));
    }
    crate::text::lemma_first_index(text, 'x');
    let found = first_index(text, 'x');
    if found < at {
        assert(text[found] == left[found]);
        lemma_letter_is_no_space(left[found]);
    }
    assert(found == at);
    assert(text.take(at) =~= left);
    assert(text.skip(at + 1) =~= right);
    lemma_plain_characters(right, 'x');
    if left.len() > 0 {
        law_digits_are_read_as_their_amount(left, usize::MAX as nat);
    }
    if right.len() > 0 {
        law_digits_are_read_as_their_amount(right, usize::MAX as nat);
    }
}

/// `@` in front of a number makes a multiplier and `%` behind it a percentage;
/// what is no number there is reported, and whether there was anything.
pub proof fn law_a_sign_makes_a_factor(text: Seq<char>, single: Single)
    requires
        text.len() > 0 ==> text.first() != '@',
    ensures
        parsed(seq!['@'] + text, Some(single)) == Ok::<ResizeValue, ResizeError>(
            ResizeValue::Multiplier(single),
        ),
        parsed(text + seq!['%'], Some(single)) == Ok::<ResizeValue, ResizeError>(
            ResizeValue::Percentage(single),
        ),
        crate::cli::resize::number_part(seq!['@'] + text) == Some(text),
        crate::cli::resize::number_part(text + seq!['%']) == Some(text),
        text.len() > 0 ==> parsed(seq!['@'] + text, None) == Err::<ResizeValue, ResizeError>(
            ResizeError::InvalidNumber,
        ) && parsed(text + seq!['%'], None) == Err::<ResizeValue, ResizeError>(
            ResizeError::InvalidNumber,
        ),
        parsed(seq!['@'], None) == Err::<ResizeValue, ResizeError>(ResizeError::EmptyNumber),
        parsed(seq!['%'], None) == Err::<ResizeValue, ResizeError>(ResizeError::EmptyNumber),
{
    let multiplier = seq!['@'] + text;
    let percentage = text + seq!['%'];
    assert(multiplier.first() == '@');
    assert(multiplier.drop_first() =~= text);
    assert(percentage.last() == '%');
    assert(percentage.drop_last() =~= text);
    if text.len() > 0 {
        assert(percentage.first() == text.first());
    } else {
        assert(percentage.first() == '%');
    }
    assert(seq!['@'].drop_first() =~= Seq::empty());
    assert(seq!['%'].drop_last() =~= Seq::empty());
}

/// A text that is no factor holds at most one of the anchor letters, or it is
/// refused as anchored twice; with an `x` in it, two of them are refused as too
/// many sides; and with neither letters nor `x` it is no value at all.
pub proof fn law_texts_without_a_shape_are_refused(
    text: Seq<char>,
    number: Option<Single>,
    a: char,
    b: char,
)
    requires
        text.len() > 0 ==> text.first() != '@' && text.last() != '%',
        a == 'w' || a == 'h' || a == 'l' || a == 's',
        b == 'w' || b == 'h' || b == 'l' || b == 's',
    ensures
        a != b && text.contains(a) && text.contains(b) ==> parsed(text, number) == Err::<
            ResizeValue,
            ResizeError,
        >(ResizeError::ManyAnchors),
        text.contains(a) && text.first() != a && text.last() != a && parsed(text, number) != Err::<
            ResizeValue,
            ResizeError,
        >(ResizeError::ManyAnchors) ==> parsed(text, number) == Err::<ResizeValue, ResizeError>(
            ResizeError::Invalid,
        ),
        !text.contains('w') && !text.contains('h') && !text.contains('l') && !text.contains('s')
            && !text.contains('x') ==> parsed(text, number) == Err::<ResizeValue, ResizeError>(
            ResizeError::Invalid,
        ),
{
}

/// A second `x` is refused as one side too many.
pub proof fn law_three_sides_are_too_many(
    left: Seq<char>,
    middle: Seq<char>,
    right: Seq<char>,
    number: Option<Single>,
)
    requires
        ({
            let text = left + seq!['x'] + middle + seq!['x'] + right;
            &&& text.first() != '@' && text.last() != '%'
            &&& !text.contains('w') && !text.contains('h') && !text.contains('l') && !text.contains(
                's',
            )
        }),
    ensures
        parsed(left + seq!['x'] + middle + seq!['x'] + right, number) == Err::<
            ResizeValue,
            ResizeError,
        >(ResizeError::ManyDimensions),
{
    let text = left + seq!['x'] + middle + seq!['x'] + right;
    let first = left.len() as int;
    let second = first + 1 + middle.len();
    assert(text[first] == 'x' && text[second] == 'x');
    crate::text::lemma_first_index(text, 'x');
    let at = first_index(text, 'x');
    assert(text.contains('x'));
    assert(at <= first) by {
        if at > first {
            assert(text[first] != 'x');
        }
    }
    assert(text.skip(at + 1)[second - at - 1] == 'x');
}

/// How a value is written: lengths as decimal numbers with the letter of their
/// anchor, and `base` for one that asks for nothing.
pub proof fn law_a_value_is_written_with_its_letter(length: usize, other: usize)
    ensures
        ResizeValue::Dimensions(Some(length), Some(other)).written(""@) == decimal(length as nat)
            + seq!['x'] + decimal(other as nat),
        ResizeValue::Dimensions(Some(length), None).written(""@) == decimal(length as nat).push('w'),
        ResizeValue::Dimensions(None, Some(length)).written(""@) == decimal(length as nat).push('h'),
        ResizeValue::LongestSide(length).written(""@) == decimal(length as nat).push('l'),
        ResizeValue::ShortestSide(length).written(""@) == decimal(length as nat).push('s'),
        ResizeValue::Dimensions(None, None).written(""@) == "base"@,
{
    reveal_strlit("x");
    reveal_strlit("w");
    reveal_strlit("h");
    reveal_strlit("l");
    reveal_strlit("s");
    assert("x"@ =~= seq!['x']);
    assert(decimal(length as nat) + "w"@ =~= decimal(length as nat).push('w'));
    assert(decimal(length as nat) + "h"@ =~= decimal(length as nat).push('h'));
    assert(decimal(length as nat) + "l"@ =~= decimal(length as nat).push('l'));
    assert(decimal(length as nat) + "s"@ =~= decimal(length as nat).push('s'));
}

} // verus!
