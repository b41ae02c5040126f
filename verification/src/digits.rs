//! What a row of decimal digits amounts to.

use vstd::prelude::*;
use crate::text::{
    ascii_lowered, decimal, lemma_read_digits_append, read_digits, read_number, NumberError,
};

verus! {

/// Whether a text is made of the digits from `0` to `9`.
pub open spec fn all_digits(text: Seq<char>) -> bool {
    forall|i: int| 0 <= i < text.len() ==> '0' <= (#[trigger] text[i]) && text[i] <= '9'
}

/// What digits amount to: each counts ten times as much as the one behind it.
pub open spec fn amount(digits: Seq<char>) -> nat
    decreases digits.len(),
{
    if digits.len() == 0 {
        0
    } else {
        10 * amount(digits.drop_last()) + (digits.last() as u32 - '0' as u32) as nat
    }
}

proof fn lemma_digit(c: char)
    ensures
        '0' <= c && c <= '9' <==> crate::text::is_digit(c),
        '0' as u32 == 48,
        '0' <= c && c <= '9' ==> c != '+',
{
}

proof fn lemma_error_stays(so_far: nat, head: Seq<char>, tail: Seq<char>, cap: nat)
    requires
        read_digits(so_far, head, cap) is Err,
    ensures
        read_digits(so_far, head + tail, cap) == read_digits(so_far, head, cap),
    decreases head.len(),
{
    assert((head + tail).first() == head.first());
    assert((head + tail).drop_first() =~= head.drop_first() + tail);
    if crate::text::is_digit(head.first()) {
        let next = so_far * 10 + (head.first() as u32 - 48) as nat;
        if next <= cap {
            lemma_error_stays(next, head.drop_first(), tail, cap);
        }
    }
}

proof fn lemma_digits_amount(digits: Seq<char>, cap: nat)
    requires
        all_digits(digits),
    ensures
        amount(digits) <= cap ==> read_digits(0, digits, cap) == Ok::<nat, NumberError>(
            amount(digits),
        ),
        amount(digits) > cap ==> read_digits(0, digits, cap) == Err::<nat, NumberError>(
            NumberError::TooLarge,
        ),
    decreases digits.len(),
{
    if digits.len() > 0 {
        let head = digits.drop_last();
        let tail = seq![digits.last()];
        assert(digits[digits.len() - 1] == digits.last());
        lemma_digit(digits.last());
        assert forall|i: int| 0 <= i < head.len() implies '0' <= (#[trigger] head[i]) && head[i]
            <= '9' by {
            assert(head[i] == digits[i]);
        }
        lemma_digits_amount(head, cap);
        assert(digits =~= head + tail);
        if amount(head) <= cap {
            lemma_read_digits_append(0, head, tail, cap);
            assert(tail.drop_first() =~= Seq::empty());
            assert(tail.first() == digits.last());
            let next = amount(head) * 10 + (digits.last() as u32 - 48) as nat;
            assert(next == amount(digits));
            assert(read_digits(next, tail.drop_first(), cap) == Ok::<nat, NumberError>(next));
        } else {
            lemma_error_stays(0, head, tail, cap);
        }
    }
}

/// A row of digits, with a plus sign in front of it or without, is read as what it
/// amounts to; it is refused as too large exactly where that exceeds the cap.
pub proof fn law_digits_are_read_as_their_amount(digits: Seq<char>, cap: nat)
    requires
        digits.len() > 0,
        all_digits(digits),
    ensures
        amount(digits) <= cap ==> read_number(digits, cap) == Ok::<nat, NumberError>(amount(digits))
            && read_number(seq!['+'] + digits, cap) == Ok::<nat, NumberError>(amount(digits)),
        amount(digits) > cap ==> read_number(digits, cap) == Err::<nat, NumberError>(
            NumberError::TooLarge,
        ) && read_number(seq!['+'] + digits, cap) == Err::<nat, NumberError>(NumberError::TooLarge),
{
    lemma_digits_amount(digits, cap);
    assert(digits[0] == digits.first());
    lemma_digit(digits.first());
    assert((seq!['+'] + digits).drop_first() =~= digits);
}

/// A text that holds anything but digits, behind an optional plus sign and digits
/// that do not exceed the cap, is no number; neither is a lone plus sign. An empty
/// text is reported as such.
pub proof fn law_other_characters_make_no_number(
    digits: Seq<char>,
    c: char,
    rest: Seq<char>,
    cap: nat,
)
    requires
        all_digits(digits),
        amount(digits) <= cap,
        !('0' <= c && c <= '9'),
    ensures
        digits.len() > 0 || c != '+' ==> read_number(digits + seq![c] + rest, cap) == Err::<
            nat,
            NumberError,
        >(NumberError::InvalidDigit),
        read_number(seq!['+'] + (digits + seq![c] + rest), cap) == Err::<nat, NumberError>(
            NumberError::InvalidDigit,
        ),
        read_number(seq!['+'], cap) == Err::<nat, NumberError>(NumberError::InvalidDigit),
        read_number(Seq::empty(), cap) == Err::<nat, NumberError>(NumberError::Empty),
{
    let text = digits + seq![c] + rest;
    let tail = seq![c] + rest;
    lemma_digits_amount(digits, cap);
    lemma_digit(c);
    assert(text =~= digits + tail);
    lemma_read_digits_append(0, digits, tail, cap);
    assert(tail.first() == c);
    if digits.len() > 0 {
        assert(digits[0] == digits.first());
        lemma_digit(digits.first());
        assert(text.first() == digits.first());
    } else {
        assert(text.first() == c);
    }
    assert((seq!['+'] + text).drop_first() =~= text);
}

/// A number is written with the digits that amount to it, and with no zero in
/// front of others.
pub proof fn law_a_number_is_written_in_base_ten(number: nat)
    ensures
        decimal(number).len() > 0,
        all_digits(decimal(number)),
        amount(decimal(number)) == number,
        decimal(number).len() > 1 ==> decimal(number)[0] != '0',
    decreases number,
{
    let last = crate::text::digit_char(number % 10);
    lemma_digit_char(number % 10);
    if number < 10 {
        assert(decimal(number).drop_last() =~= Seq::empty());
        assert(decimal(number).last() == last);
        assert(amount(Seq::empty()) == 0);
    } else {
        law_a_number_is_written_in_base_ten(number / 10);
        let head = decimal(number / 10);
        assert(decimal(number).drop_last() =~= head);
        assert(decimal(number)[0] == head[0]);
        if head.len() == 1 {
            assert(number / 10 < 10) by {
                if number / 10 >= 10 {
                    law_a_number_is_written_in_base_ten(number / 10 / 10);
                    assert(head.len() > 1);
                }
            }
            lemma_digit_char(number / 10);
            assert(head[0] == crate::text::digit_char(number / 10));
        }
    }
}

proof fn lemma_digit_char(digit: nat)
    requires
        digit < 10,
    ensures
        ({
            let c = crate::text::digit_char(digit);
            &&& '0' <= c && c <= '9'
            &&& c as u32 - '0' as u32 == digit
        }),
{
}

/// A text in small letters has a small letter for every ASCII capital, and
/// everything else as it was.
pub proof fn law_small_letters_stand_for_capitals(text: Seq<char>, index: int)
    requires
        0 <= index < text.len(),
    ensures
        ascii_lowered(text).len() == text.len(),
        'A' <= text[index] && text[index] <= 'Z' ==> ascii_lowered(text)[index] as u32
            == text[index] as u32 + 32,
        !('A' <= text[index] && text[index] <= 'Z') ==> ascii_lowered(text)[index] == text[index],
{
    lemma_small(text[index]);
}

proof fn lemma_small(c: char)
    ensures
        'A' <= c && c <= 'Z' ==> crate::text::ascii_lower(c) as u32 == c as u32 + 32,
        !('A' <= c && c <= 'Z') ==> crate::text::ascii_lower(c) == c,
{
    if 65 <= c as u32 <= 90 {
        let code = (c as u32 + 32) as u32;
        assert((code as char) as u32 == code);
    }
}

/// The characters that Unicode counts as white space.
pub open spec fn white_space() -> Seq<char> {
    seq![
        '\u{9}',
        '\u{a}',
        '\u{b}',
        '\u{c}',
        '\u{d}',
        '\u{20}',
        '\u{85}',
        '\u{a0}',
        '\u{1680}',
        '\u{2000}',
        '\u{2001}',
        '\u{2002}',
        '\u{2003}',
        '\u{2004}',
        '\u{2005}',
        '\u{2006}',
        '\u{2007}',
        '\u{2008}',
        '\u{2009}',
        '\u{200a}',
        '\u{2028}',
        '\u{2029}',
        '\u{202f}',
        '\u{205f}',
        '\u{3000}',
    ]
}

/// White space is each of these characters, and nothing else.
pub proof fn law_white_space_is_these_characters(c: char, index: int)
    ensures
        0 <= index < white_space().len() ==> crate::text::is_space(white_space()[index]),
        crate::text::is_space(c) ==> white_space().contains(c),
{
    let list = white_space();
    assert(list[0] == '\u{9}' && list[1] == '\u{a}' && list[2] == '\u{b}' && list[3] == '\u{c}');
    assert(list[4] == '\u{d}' && list[5] == '\u{20}' && list[6] == '\u{85}');
    assert(list[7] == '\u{a0}' && list[8] == '\u{1680}' && list[9] == '\u{2000}');
    assert(list[10] == '\u{2001}' && list[11] == '\u{2002}' && list[12] == '\u{2003}');
    assert(list[13] == '\u{2004}' && list[14] == '\u{2005}' && list[15] == '\u{2006}');
    assert(list[16] == '\u{2007}' && list[17] == '\u{2008}' && list[18] == '\u{2009}');
    assert(list[19] == '\u{200a}' && list[20] == '\u{2028}' && list[21] == '\u{2029}');
    assert(list[22] == '\u{202f}' && list[23] == '\u{205f}' && list[24] == '\u{3000}');
}

} // verus!
