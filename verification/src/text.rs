//! Text helpers: decimal numbers, white space, and comparison of texts.

use vstd::prelude::*;

verus! {

/// The character of a decimal digit.
pub open spec fn digit_char(digit: nat) -> char {
    (48 + digit) as char
}

/// A number in decimal, without leading zeros.
pub open spec fn decimal(number: nat) -> Seq<char>
    decreases number,
{
    if number < 10 {
        seq![digit_char(number)]
    } else {
        decimal(number / 10).push(digit_char(number % 10))
    }
}

/// The text of one decimal digit.
fn digit_text(digit: u8) -> (text: &'static str)
    requires
        digit < 10,
    ensures
        text@ == seq![digit_char(digit as nat)],
{
    proof {
        reveal_strlit("0");
        reveal_strlit("1");
        reveal_strlit("2");
        reveal_strlit("3");
        reveal_strlit("4");
        reveal_strlit("5");
        reveal_strlit("6");
        reveal_strlit("7");
        reveal_strlit("8");
        reveal_strlit("9");
    }
    match digit {
        0 => "0",
        1 => "1",
        2 => "2",
        3 => "3",
        4 => "4",
        5 => "5",
        6 => "6",
        7 => "7",
        8 => "8",
        _ => "9",
    }
}

/// Appends a number in decimal.
pub fn push_decimal(text: &mut String, number: u128)
    ensures
        final(text)@ == old(text)@ + decimal(number as nat),
    decreases number,
{
    if number < 10 {
        text.append(digit_text(number as u8));
    } else {
        push_decimal(text, number / 10);
        let ghost head = text@;
        text.append(digit_text((number % 10) as u8));
        assert(text@ =~= old(text)@ + decimal(number as nat));
    }
}

/// A number in decimal.
pub fn decimal_text(number: u128) -> (text: String)
    ensures
        text@ == decimal(number as nat),
{
    let mut text = String::new();
    push_decimal(&mut text, number);
    assert(text@ =~= decimal(number as nat));
    text
}

/// The characters of a text.
pub fn chars_of(text: &str) -> (chars: Vec<char>)
    ensures
        chars@ == text@,
{
    let mut chars: Vec<char> = Vec::new();
    for c in it: text.chars()
        invariant
            it.seq() == text@,
            chars@ == text@.take(it.index()),
    {
        chars.push(c);
        assert(text@.take(it.index() + 1) =~= text@.take(it.index()).push(c));
    }
    assert(text@.take(text@.len() as int) =~= text@);
    chars
}

/// Whether two texts are the same.
pub fn same_text(a: &str, b: &str) -> (same: bool)
    ensures
        same == (a@ == b@),
{
    a.to_owned() == b.to_owned()
}

/// A character with ASCII capitals made small.
pub open spec fn ascii_lower(c: char) -> char {
    if 65 <= c as u32 <= 90 {
        ((c as u32 + 32) as u32) as char
    } else {
        c
    }
}

/// A text with ASCII capitals made small.
pub open spec fn ascii_lowered(text: Seq<char>) -> Seq<char> {
    text.map_values(|c: char| ascii_lower(c))
}

/// Whether two characters are the same but for ASCII case.
fn same_char_ignoring_case(a: char, b: char) -> (same: bool)
    ensures
        same == (ascii_lower(a) == ascii_lower(b)),
{
    let x: u32 = a as u32;
    let y: u32 = b as u32;
    let small_x: u32 = if 65 <= x && x <= 90 {
        x + 32
    } else {
        x
    };
    let small_y: u32 = if 65 <= y && y <= 90 {
        y + 32
    } else {
        y
    };
    small_x == small_y
}

/// Whether two texts are the same but for ASCII case.
pub fn same_ignoring_case(a: &str, b: &str) -> (same: bool)
    ensures
        same == (ascii_lowered(a@) == ascii_lowered(b@)),
{
    let left = chars_of(a);
    let right = chars_of(b);
    if left.len() != right.len() {
        assert(ascii_lowered(a@).len() != ascii_lowered(b@).len());
        return false;
    }
    let mut i: usize = 0;
    while i < left.len()
        invariant
            i <= left@.len() == right@.len(),
            left@ == a@,
            right@ == b@,
            forall|j: int| 0 <= j < i ==> ascii_lower(#[trigger] left@[j]) == ascii_lower(right@[j]),
        decreases left@.len() - i,
    {
        if !same_char_ignoring_case(left[i], right[i]) {
            assert(ascii_lowered(a@)[i as int] != ascii_lowered(b@)[i as int]);
            return false;
        }
        i = i + 1;
    }
    assert(ascii_lowered(a@) =~= ascii_lowered(b@));
    true
}

/// The small letters of a text, by the rules of Unicode.
pub uninterp spec fn unicode_lowercase(text: Seq<char>) -> Seq<char>;

/// Calls `str::to_lowercase`. Trusted: the result depends on the text alone,
/// and of an ASCII text it is the text with the letters `A` to `Z` made small.
#[verifier::external_body]
pub(crate) fn to_lowercase(text: &str) -> (small: String)
    ensures
        small@ == unicode_lowercase(text@),
        vstd::utf8::is_ascii_chars(text@) ==> small@ == ascii_lowered(text@),
{
    text.to_lowercase()
}

/// Calls `core::str::from_utf8`. Trusted: bytes are a text exactly when they
/// are valid UTF-8, and the text is then the one that they encode.
#[verifier::external_body]
pub(crate) fn from_utf8(bytes: &[u8]) -> (text: Option<&str>)
    ensures
        text is Some == vstd::utf8::valid_utf8(bytes@),
        text matches Some(text) ==> text@ == vstd::utf8::decode_utf8(bytes@),
{
    core::str::from_utf8(bytes).ok()
}

/// A text as its `Debug` form shows it: in quotes, with escapes.
pub uninterp spec fn quoted(text: Seq<char>) -> Seq<char>;

/// Formats a text with `{:?}`. Trusted: the form depends on the text alone.
#[verifier::external_body]
pub(crate) fn debug_text(text: &str) -> (shown: String)
    ensures
        shown@ == quoted(text@),
{
    format!("{text:?}")
}

/// Where a character first occurs, or the length of the text.
pub open spec fn first_index(text: Seq<char>, wanted: char) -> int
    decreases text.len(),
{
    if text.len() == 0 || text.first() == wanted {
        0
    } else {
        1 + first_index(text.drop_first(), wanted)
    }
}

/// Where a character first occurs.
pub fn find_char(chars: &Vec<char>, wanted: char) -> (at: usize)
    ensures
        at <= chars@.len(),
        at == first_index(chars@, wanted),
{
    let mut at: usize = 0;
    assert(chars@.skip(0) =~= chars@);
    while at < chars.len() && chars[at] != wanted
        invariant
            at <= chars@.len(),
            first_index(chars@, wanted) == at + first_index(chars@.skip(at as int), wanted),
        decreases chars@.len() - at,
    {
        assert(chars@.skip(at as int).drop_first() =~= chars@.skip(at + 1));
        at = at + 1;
    }
    at
}

/// What stands before the place where a character first occurs, and there.
pub proof fn lemma_first_index(text: Seq<char>, wanted: char)
    ensures
        0 <= first_index(text, wanted) <= text.len(),
        text.contains(wanted) ==> first_index(text, wanted) < text.len()
            && text[first_index(text, wanted)] == wanted,
        forall|i: int| 0 <= i < first_index(text, wanted) ==> text[i] != wanted,
    decreases text.len(),
{
    if text.len() > 0 && text.first() != wanted {
        let rest = text.drop_first();
        lemma_first_index(rest, wanted);
        if text.contains(wanted) {
            let i = choose|i: int| 0 <= i < text.len() && text[i] == wanted;
            assert(rest[i - 1] == wanted);
        }
        assert forall|i: int| 0 <= i < first_index(text, wanted) implies text[i] != wanted by {
            if i > 0 {
                assert(rest[i - 1] == text[i]);
            }
        }
    }
}

/// Whether a text holds a character.
pub fn has_char(text: &str, wanted: char) -> (found: bool)
    ensures
        found == text@.contains(wanted),
{
    let chars = chars_of(text);
    let mut i: usize = 0;
    while i < chars.len()
        invariant
            i <= chars@.len(),
            chars@ == text@,
            forall|j: int| 0 <= j < i ==> chars@[j] != wanted,
        decreases chars@.len() - i,
    {
        if chars[i] == wanted {
            assert(chars@[i as int] == wanted);
            return true;
        }
        i = i + 1;
    }
    false
}

/// Whether a character is white space in the sense of the Unicode property
/// `White_Space`.
pub open spec fn is_space(c: char) -> bool {
    let code = c as u32;
    ||| 0x9 <= code <= 0xd
    ||| code == 0x20
    ||| code == 0x85
    ||| code == 0xa0
    ||| code == 0x1680
    ||| 0x2000 <= code <= 0x200a
    ||| code == 0x2028
    ||| code == 0x2029
    ||| code == 0x202f
    ||| code == 0x205f
    ||| code == 0x3000
}

/// Whether a character is white space.
pub fn is_whitespace(c: char) -> (space: bool)
    ensures
        space == is_space(c),
{
    let code: u32 = c as u32;
    (0x9 <= code && code <= 0xd) || code == 0x20 || code == 0x85 || code == 0xa0 || code == 0x1680
        || (0x2000 <= code && code <= 0x200a) || code == 0x2028 || code == 0x2029 || code == 0x202f
        || code == 0x205f || code == 0x3000
}

/// The text without its trailing white space.
pub open spec fn trimmed_end(text: Seq<char>) -> Seq<char>
    decreases text.len(),
{
    if text.len() > 0 && is_space(text.last()) {
        trimmed_end(text.drop_last())
    } else {
        text
    }
}

/// The text without its leading white space.
pub open spec fn trimmed_start(text: Seq<char>) -> Seq<char>
    decreases text.len(),
{
    if text.len() > 0 && is_space(text.first()) {
        trimmed_start(text.drop_first())
    } else {
        text
    }
}

/// The text without leading and trailing white space.
pub open spec fn trimmed(text: Seq<char>) -> Seq<char> {
    trimmed_end(trimmed_start(text))
}

/// Where the text without trailing white space ends.
fn end_of_trimmed(chars: &Vec<char>, from: usize, to: usize) -> (end: usize)
    requires
        from <= to <= chars@.len(),
    ensures
        from <= end <= to,
        chars@.subrange(from as int, end as int) == trimmed_end(
            chars@.subrange(from as int, to as int),
        ),
{
    let mut end: usize = to;
    while end > from && is_whitespace(chars[end - 1])
        invariant
            from <= end <= to <= chars@.len(),
            trimmed_end(chars@.subrange(from as int, end as int)) == trimmed_end(
                chars@.subrange(from as int, to as int),
            ),
        decreases end,
    {
        assert(chars@.subrange(from as int, end as int).drop_last() =~= chars@.subrange(
            from as int,
            end - 1,
        ));
        end = end - 1;
    }
    end
}

/// Removes trailing white space.
pub fn trim_end(text: &str) -> (rest: &str)
    ensures
        rest@ == trimmed_end(text@),
{
    let chars = chars_of(text);
    assert(chars@.subrange(0, chars@.len() as int) =~= text@);
    let end = end_of_trimmed(&chars, 0, chars.len());
    text.substring_char(0, end)
}

/// Removes leading and trailing white space.
pub fn trim(text: &str) -> (rest: &str)
    ensures
        rest@ == trimmed(text@),
{
    let chars = chars_of(text);
    let mut start: usize = 0;
    assert(chars@.subrange(0, chars@.len() as int) =~= text@);
    while start < chars.len() && is_whitespace(chars[start])
        invariant
            start <= chars@.len(),
            trimmed_start(chars@.subrange(start as int, chars@.len() as int)) == trimmed_start(
                chars@,
            ),
        decreases chars@.len() - start,
    {
        assert(chars@.subrange(start as int, chars@.len() as int).drop_first()
            =~= chars@.subrange(start + 1, chars@.len() as int));
        start = start + 1;
    }
    let end = end_of_trimmed(&chars, start, chars.len());
    text.substring_char(start, end)
}

/// Trimming leaves no white space at the end.
pub proof fn lemma_trimmed_end(text: Seq<char>)
    ensures
        trimmed_end(text).len() <= text.len(),
        trimmed_end(text) == text.take(trimmed_end(text).len() as int),
        trimmed_end(text).len() > 0 ==> !is_space(trimmed_end(text).last()),
    decreases text.len(),
{
    if text.len() > 0 && is_space(text.last()) {
        lemma_trimmed_end(text.drop_last());
        let kept = trimmed_end(text).len() as int;
        assert(text.drop_last().take(kept) =~= text.take(kept));
    } else {
        assert(text.take(text.len() as int) =~= text);
    }
}

/// A text without white space on its ends is its own trimmed form.
pub proof fn lemma_trimmed_already(text: Seq<char>)
    requires
        text.len() > 0 ==> !is_space(text.first()) && !is_space(text.last()),
    ensures
        trimmed(text) == text,
{
}

/// A text that is its own trimmed form has no white space on its ends.
pub proof fn lemma_trimmed_ends(text: Seq<char>)
    requires
        trimmed(text) == text,
    ensures
        text.len() > 0 ==> !is_space(text.first()) && !is_space(text.last()),
{
    lemma_trimmed_start_shorter(text);
    lemma_trimmed_end_shorter(trimmed_start(text));
    if text.len() > 0 && is_space(text.first()) {
        lemma_trimmed_start_shorter(text.drop_first());
    } else if text.len() > 0 && is_space(text.last()) {
        lemma_trimmed_end_shorter(text.drop_last());
    }
}

proof fn lemma_trimmed_start_shorter(text: Seq<char>)
    ensures
        trimmed_start(text).len() <= text.len(),
    decreases text.len(),
{
    if text.len() > 0 && is_space(text.first()) {
        lemma_trimmed_start_shorter(text.drop_first());
    }
}

proof fn lemma_trimmed_end_shorter(text: Seq<char>)
    ensures
        trimmed_end(text).len() <= text.len(),
    decreases text.len(),
{
    if text.len() > 0 && is_space(text.last()) {
        lemma_trimmed_end_shorter(text.drop_last());
    }
}

/// Trimming takes off the white space around a text, and no more.
pub proof fn law_trimming_takes_off_outer_white_space(
    before: Seq<char>,
    text: Seq<char>,
    after: Seq<char>,
)
    requires
        forall|i: int| 0 <= i < before.len() ==> is_space(#[trigger] before[i]),
        forall|i: int| 0 <= i < after.len() ==> is_space(#[trigger] after[i]),
        text.len() > 0 ==> !is_space(text.first()) && !is_space(text.last()),
    ensures
        trimmed(before + text + after) == text,
    decreases before.len() + after.len(),
{
    let whole = before + text + after;
    if before.len() > 0 {
        assert(whole.first() == before[0]);
        assert(whole.drop_first() =~= before.drop_first() + text + after);
        law_trimming_takes_off_outer_white_space(before.drop_first(), text, after);
    } else if text.len() == 0 {
        if after.len() > 0 {
            assert(whole.first() == after[0]);
            assert(whole.drop_first() =~= before + text + after.drop_first());
            law_trimming_takes_off_outer_white_space(before, text, after.drop_first());
        } else {
            assert(whole =~= text);
        }
    } else {
        assert(whole.first() == text.first());
        if after.len() > 0 {
            assert(whole.last() == after[after.len() - 1]);
            assert(whole.drop_last() =~= before + text + after.drop_last());
            assert((before + text + after.drop_last()).first() == text.first());
            law_trimming_takes_off_outer_white_space(before, text, after.drop_last());
        } else {
            assert(whole =~= text);
        }
    }
}

/// Why a text is not a number.
#[derive(Debug, Clone, Copy, PartialEq, Eq, Structural)]
pub enum NumberError {
    /// There is nothing to read.
    Empty,
    /// A character is not a decimal digit.
    InvalidDigit,
    /// The number is larger than the caller can hold.
    TooLarge,
}

/// Whether a character is an ASCII decimal digit.
pub open spec fn is_digit(c: char) -> bool {
    48 <= c as u32 <= 57
}

/// What the digits read so far and the ones that follow amount to. The first
/// character that is no digit, or that takes the number over `cap`, decides
/// the error.
pub open spec fn read_digits(so_far: nat, digits: Seq<char>, cap: nat) -> Result<nat, NumberError>
    decreases digits.len(),
{
    if digits.len() == 0 {
        Ok(so_far)
    } else if !is_digit(digits.first()) {
        Err(NumberError::InvalidDigit)
    } else {
        let next = so_far * 10 + (digits.first() as u32 - 48) as nat;
        if next > cap {
            Err(NumberError::TooLarge)
        } else {
            read_digits(next, digits.drop_first(), cap)
        }
    }
}

/// A text read as a decimal number that is at most `cap`: one optional plus
/// sign, then at least one digit.
pub open spec fn read_number(text: Seq<char>, cap: nat) -> Result<nat, NumberError> {
    if text.len() == 0 {
        Err(NumberError::Empty)
    } else if text.first() == '+' {
        if text.len() == 1 {
            Err(NumberError::InvalidDigit)
        } else {
            read_digits(0, text.drop_first(), cap)
        }
    } else {
        read_digits(0, text, cap)
    }
}

/// A machine number as the number it stands for.
pub open spec fn number_of(result: Result<u64, NumberError>) -> Result<nat, NumberError> {
    match result {
        Ok(number) => Ok(number as nat),
        Err(error) => Err(error),
    }
}

/// Reads a text as a decimal number that is at most `cap`.
pub fn parse_number(text: &str, cap: u64) -> (result: Result<u64, NumberError>)
    ensures
        number_of(result) == read_number(text@, cap as nat),
        result matches Ok(number) ==> number <= cap,
{
    let chars = chars_of(text);
    if chars.len() == 0 {
        return Err(NumberError::Empty);
    }
    let mut i: usize = 0;
    if chars[0] == '+' {
        if chars.len() == 1 {
            return Err(NumberError::InvalidDigit);
        }
        i = 1;
        assert(chars@.subrange(1, chars@.len() as int) =~= chars@.drop_first());
    } else {
        assert(chars@.subrange(0, chars@.len() as int) =~= chars@);
    }
    let mut number: u64 = 0;
    while i < chars.len()
        invariant
            i <= chars@.len(),
            number <= cap,
            read_number(text@, cap as nat) == read_digits(
                number as nat,
                chars@.subrange(i as int, chars@.len() as int),
                cap as nat,
            ),
        decreases chars@.len() - i,
    {
        let c: char = chars[i];
        assert(chars@.subrange(i as int, chars@.len() as int).drop_first() =~= chars@.subrange(
            i + 1,
            chars@.len() as int,
        ));
        let code: u32 = c as u32;
        if code < 48 || code > 57 {
            return Err(NumberError::InvalidDigit);
        }
        let next: u128 = number as u128 * 10 + (code - 48) as u128;
        if next > cap as u128 {
            return Err(NumberError::TooLarge);
        }
        number = next as u64;
        i = i + 1;
    }
    Ok(number)
}

/// A number in decimal is made of digits, and does not start with a zero
/// unless it is zero.
pub proof fn lemma_decimal_is_digits(number: nat)
    ensures
        decimal(number).len() > 0,
        forall|i: int| 0 <= i < decimal(number).len() ==> is_digit(#[trigger] decimal(number)[i]),
    decreases number,
{
    if number >= 10 {
        lemma_decimal_is_digits(number / 10);
    }
}

/// Reading digits one after the other: a prefix that reads as a number leaves
/// the rest to be read from there.
pub proof fn lemma_read_digits_append(so_far: nat, head: Seq<char>, tail: Seq<char>, cap: nat)
    requires
        read_digits(so_far, head, cap) is Ok,
    ensures
        read_digits(so_far, head + tail, cap) == read_digits(
            read_digits(so_far, head, cap)->Ok_0,
            tail,
            cap,
        ),
    decreases head.len(),
{
    if head.len() == 0 {
        assert(head + tail =~= tail);
    } else {
        let next = so_far * 10 + (head.first() as u32 - 48) as nat;
        assert((head + tail).drop_first() =~= head.drop_first() + tail);
        lemma_read_digits_append(next, head.drop_first(), tail, cap);
    }
}

/// A number that fits reads back from its decimal text.
pub proof fn law_decimal_reads_back(number: nat, cap: nat)
    requires
        number <= cap,
    ensures
        read_number(decimal(number), cap) == Ok::<nat, NumberError>(number),
{
    lemma_decimal_is_digits(number);
    assert(is_digit(decimal(number)[0]));
    lemma_read_decimal(number, cap);
}

proof fn lemma_read_decimal(number: nat, cap: nat)
    requires
        number <= cap,
    ensures
        read_digits(0, decimal(number), cap) == Ok::<nat, NumberError>(number),
    decreases number,
{
    reveal_with_fuel(read_digits, 3);
    if number < 10 {
        assert(decimal(number).drop_first() =~= Seq::<char>::empty());
    } else {
        lemma_read_decimal(number / 10, cap);
        let last = seq![digit_char(number % 10)];
        assert(decimal(number) =~= decimal(number / 10) + last);
        lemma_read_digits_append(0, decimal(number / 10), last, cap);
        assert(last.drop_first() =~= Seq::<char>::empty());
    }
}

} // verus!
