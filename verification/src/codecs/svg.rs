//! SVG render targets: the size an SVG is rasterised at, and the text that
//! carries a refusal from the decoder to the error classifier.

use vstd::prelude::*;

use crate::codecs::failures::refused_decode;
use crate::color::ColorSpace;
use crate::error::ImageFailure;
use crate::raster::{still, Raster, Samples, SamplesView};
use crate::text::{chars_of, decimal, is_space, parse_number, push_decimal, read_number, is_whitespace};

verus! {

/// Maximum number of pixels a render target may cover by default: a budget of
/// 512 MiB over three live buffers of four bytes per pixel.
pub const MAX_TARGET_PIXELS: u64 = 44739242;

/// Upper bound on a document read into memory before parsing.
pub const MAX_SVG_BYTES: u64 = 268435456;

/// The marker that starts a render-target refusal.
pub const SIZE_LIMIT_MARKER: &'static str = "rimage-svg-size-limit:";

/// Options controlling how an SVG image is rendered into pixels.
#[derive(Debug, Clone, Copy, PartialEq, Eq)]
pub struct SvgOptions {
    /// Explicit render target in pixels; the intrinsic size when `None`.
    pub target_size: Option<(u32, u32)>,
    /// Maximum pixels the render target may cover; [`MAX_TARGET_PIXELS`] when
    /// `None`.
    pub pixel_budget: Option<u64>,
}

impl Default for SvgOptions {
    fn default() -> (options: Self)
        ensures
            options.target_size is None,
            options.pixel_budget is None,
    {
        SvgOptions { target_size: None, pixel_budget: None }
    }
}

/// The pixel budget that options stand for.
pub open spec fn budget_of(options: SvgOptions) -> u64 {
    match options.pixel_budget {
        Some(budget) => budget,
        None => MAX_TARGET_PIXELS,
    }
}

/// The size asked for, at least one pixel wide and high.
pub open spec fn wanted_size(options: SvgOptions, intrinsic: (u32, u32)) -> (nat, nat) {
    let size = match options.target_size {
        Some(size) => size,
        None => intrinsic,
    };
    (
        if size.0 == 0 {
            1
        } else {
            size.0 as nat
        },
        if size.1 == 0 {
            1
        } else {
            size.1 as nat
        },
    )
}

/// Why a render target is refused, if it is.
pub open spec fn target_refusal(options: SvgOptions, intrinsic: (u32, u32)) -> Option<Seq<char>> {
    let (width, height) = wanted_size(options, intrinsic);
    match options.target_size {
        Some(size) if size.0 == 0 || size.1 == 0 => Some(
            "Invalid SVG target size "@ + decimal(size.0 as nat) + "x"@ + decimal(size.1 as nat),
        ),
        _ => if width * height > budget_of(options) {
            Some(size_limit_text(width, height, width * height, budget_of(options) as nat))
        } else {
            None
        },
    }
}

/// The text of a refusal: the marker, the numbers, and prose for a reader.
pub open spec fn size_limit_text(width: nat, height: nat, area: nat, budget: nat) -> Seq<char> {
    SIZE_LIMIT_MARKER@ + decimal(width) + "x"@ + decimal(height) + ":"@ + decimal(area) + ":"@
        + decimal(budget) + ": SVG target size "@ + decimal(width) + "x"@ + decimal(height) + " ("@
        + decimal(area) + " pixels) exceeds the limit of "@ + decimal(budget)
        + " pixels, reduce the --resize target or the intrinsic size"@
}

/// Resolves the pixel size the SVG should be rendered at from the options and
/// the intrinsic size of the document.
pub fn resolve_target_size(options: &SvgOptions, intrinsic: (u32, u32)) -> (result: Result<
    (usize, usize),
    ImageFailure,
>)
    ensures
        result is Ok == target_refusal(*options, intrinsic) is None,
        result matches Ok(size) ==> (size.0 as nat, size.1 as nat) == wanted_size(
            *options,
            intrinsic,
        ),
        result matches Err(error) ==> error.is_decode() && Some(error.text@) == target_refusal(
            *options,
            intrinsic,
        ),
{
    let target = match options.target_size {
        Some((width, height)) => {
            if width == 0 || height == 0 {
                let mut message = "Invalid SVG target size ".to_owned();
                push_decimal(&mut message, width as u128);
                message.append("x");
                push_decimal(&mut message, height as u128);
                return Err(ImageFailure::decode(message));
            }
            (width, height)
        },
        None => intrinsic,
    };
    let width: usize = if target.0 == 0 {
        1
    } else {
        target.0 as usize
    };
    let height: usize = if target.1 == 0 {
        1
    } else {
        target.1 as usize
    };
    proof {
        assert(width * height <= 0xffff_ffff * 0xffff_ffff) by (nonlinear_arith)
            requires
                0 <= width <= 0xffff_ffff,
                0 <= height <= 0xffff_ffff,
        ;
    }
    let area: u64 = width as u64 * height as u64;
    let budget: u64 = match options.pixel_budget {
        Some(budget) => budget,
        None => MAX_TARGET_PIXELS,
    };
    if area > budget {
        return Err(size_limit_error(width, height, area, budget));
    }
    Ok((width, height))
}

/// Build the refusal for a render target that exceeds the pixel budget.
pub fn size_limit_error(width: usize, height: usize, area: u64, budget: u64) -> (error: ImageFailure)
    ensures
        error.is_decode(),
        error.text@ == size_limit_text(
            width as nat,
            height as nat,
            area as nat,
            budget as nat,
        ),
{
    let mut message = SIZE_LIMIT_MARKER.to_owned();
    push_decimal(&mut message, width as u128);
    message.append("x");
    push_decimal(&mut message, height as u128);
    message.append(":");
    push_decimal(&mut message, area as u128);
    message.append(":");
    push_decimal(&mut message, budget as u128);
    message.append(": SVG target size ");
    push_decimal(&mut message, width as u128);
    message.append("x");
    push_decimal(&mut message, height as u128);
    message.append(" (");
    push_decimal(&mut message, area as u128);
    message.append(" pixels) exceeds the limit of ");
    push_decimal(&mut message, budget as u128);
    message.append(" pixels, reduce the --resize target or the intrinsic size");
    ImageFailure::decode(message)
}

/// Where the white space from `at` on ends.
pub open spec fn word_start(text: Seq<char>, at: int) -> int
    decreases text.len() - at,
{
    if 0 <= at < text.len() && is_space(text[at]) {
        word_start(text, at + 1)
    } else {
        at
    }
}

/// Where the characters from `at` on that are no white space end.
pub open spec fn word_end(text: Seq<char>, at: int) -> int
    decreases text.len() - at,
{
    if 0 <= at < text.len() && !is_space(text[at]) {
        word_end(text, at + 1)
    } else {
        at
    }
}

/// The first word of a text, if it has one.
pub open spec fn first_word(text: Seq<char>) -> Option<Seq<char>> {
    let start = word_start(text, 0);
    if start >= text.len() {
        None
    } else {
        Some(text.subrange(start, word_end(text, start)))
    }
}

/// Where a character first occurs from `at` on, or the end of the text.
pub open spec fn index_from(text: Seq<char>, at: int, wanted: char) -> int
    decreases text.len() - at,
{
    if 0 <= at < text.len() && text[at] != wanted {
        index_from(text, at + 1, wanted)
    } else {
        at
    }
}

/// The numbers of a refusal's first word: `WxH:actual:allowed`, and whatever
/// follows after another colon.
pub open spec fn limit_numbers(word: Seq<char>) -> Option<(u64, u64, u64, u64)> {
    let first = index_from(word, 0, ':');
    let second = index_from(word, first + 1, ':');
    let third = index_from(word, second + 1, ':');
    let cross = index_from(word, 0, 'x');
    if second >= word.len() || cross >= first {
        None
    } else {
        match (
            read_number(word.subrange(0, cross), u64::MAX as nat),
            read_number(word.subrange(cross + 1, first), u64::MAX as nat),
            read_number(word.subrange(first + 1, second), u64::MAX as nat),
            read_number(word.subrange(second + 1, third), u64::MAX as nat),
        ) {
            (Ok(width), Ok(height), Ok(actual), Ok(allowed)) => Some(
                (width as u64, height as u64, actual as u64, allowed as u64),
            ),
            _ => None,
        }
    }
}

/// The numbers of a refusal, if the text is one: width, height, actual pixels,
/// allowed pixels.
pub open spec fn read_size_limit(message: Seq<char>) -> Option<(u64, u64, u64, u64)> {
    if !SIZE_LIMIT_MARKER@.is_prefix_of(message) {
        None
    } else {
        match first_word(message.skip(SIZE_LIMIT_MARKER@.len() as int)) {
            None => None,
            Some(word) => limit_numbers(word),
        }
    }
}

fn find_from(chars: &Vec<char>, at: usize, wanted: char) -> (index: usize)
    requires
        at <= chars@.len(),
    ensures
        at <= index <= chars@.len(),
        index == index_from(chars@, at as int, wanted),
{
    let mut index: usize = at;
    while index < chars.len() && chars[index] != wanted
        invariant
            at <= index <= chars@.len(),
            index_from(chars@, at as int, wanted) == index_from(chars@, index as int, wanted),
        decreases chars@.len() - index,
    {
        index = index + 1;
    }
    index
}

fn starts_with(chars: &Vec<char>, prefix: &Vec<char>) -> (result: bool)
    ensures
        result == prefix@.is_prefix_of(chars@),
{
    if prefix.len() > chars.len() {
        return false;
    }
    let mut i: usize = 0;
    while i < prefix.len()
        invariant
            i <= prefix@.len() <= chars@.len(),
            forall|j: int| 0 <= j < i ==> prefix@[j] == chars@[j],
        decreases prefix@.len() - i,
    {
        if prefix[i] != chars[i] {
            assert(chars@.subrange(0, prefix@.len() as int)[i as int] != prefix@[i as int]);
            return false;
        }
        i = i + 1;
    }
    assert(prefix@ =~= chars@.subrange(0, prefix@.len() as int));
    true
}

/// Reads the numbers from the first word of a refusal.
fn parse_limit_word(word: &str) -> (numbers: Option<(u64, u64, u64, u64)>)
    ensures
        numbers == limit_numbers(word@),
{
    let chars = chars_of(word);
    let first: usize = find_from(&chars, 0, ':');
    if first >= chars.len() {
        return None;
    }
    let second: usize = find_from(&chars, first + 1, ':');
    if second >= chars.len() {
        return None;
    }
    let third: usize = find_from(&chars, second + 1, ':');
    let cross: usize = find_from(&chars, 0, 'x');
    if cross >= first {
        return None;
    }
    let width = parse_number(word.substring_char(0, cross), u64::MAX);
    let height = parse_number(word.substring_char(cross + 1, first), u64::MAX);
    let actual = parse_number(word.substring_char(first + 1, second), u64::MAX);
    let allowed = parse_number(word.substring_char(second + 1, third), u64::MAX);
    match (width, height, actual, allowed) {
        (Ok(width), Ok(height), Ok(actual), Ok(allowed)) => Some((width, height, actual, allowed)),
        _ => None,
    }
}

/// Parse a [`SIZE_LIMIT_MARKER`] message back into its numbers: the width, the
/// height, the actual pixels and the allowed pixels.
pub fn parse_size_limit(message: &str) -> (numbers: Option<(u64, u64, u64, u64)>)
    ensures
        numbers == read_size_limit(message@),
{
    let chars = chars_of(message);
    let marker = chars_of(SIZE_LIMIT_MARKER);
    if !starts_with(&chars, &marker) {
        return None;
    }
    let offset: usize = marker.len();
    let ghost rest = chars@.skip(offset as int);
    let mut start: usize = offset;
    while start < chars.len() && is_whitespace(chars[start])
        invariant
            offset <= start <= chars@.len(),
            rest == chars@.skip(offset as int),
            word_start(rest, 0) == word_start(rest, start - offset),
        decreases chars@.len() - start,
    {
        assert(rest[start - offset] == chars@[start as int]);
        start = start + 1;
    }
    if start == chars.len() {
        return None;
    }
    let mut end: usize = start;
    while end < chars.len() && !is_whitespace(chars[end])
        invariant
            offset <= start <= end <= chars@.len(),
            rest == chars@.skip(offset as int),
            word_end(rest, start - offset) == word_end(rest, end - offset),
        decreases chars@.len() - end,
    {
        assert(rest[end - offset] == chars@[end as int]);
        end = end + 1;
    }
    assert(start < chars@.len() ==> rest[start - offset] == chars@[start as int]);
    assert(end < chars@.len() ==> rest[end - offset] == chars@[end as int]);
    assert(rest.subrange(start - offset, end - offset) =~= chars@.subrange(
        start as int,
        end as int,
    ));
    parse_limit_word(message.substring_char(start, end))
}

// --- Laws --------------------------------------------------------------------
proof fn lemma_index_from(text: Seq<char>, at: int, wanted: char, index: int)
    requires
        0 <= at <= index < text.len(),
        text[index] == wanted,
        forall|i: int| at <= i < index ==> text[i] != wanted,
    ensures
        index_from(text, at, wanted) == index,
    decreases index - at,
{
    if at < index {
        lemma_index_from(text, at + 1, wanted, index);
    }
}

proof fn lemma_word_end(text: Seq<char>, at: int, end: int)
    requires
        0 <= at <= end < text.len(),
        is_space(text[end]),
        forall|i: int| at <= i < end ==> !is_space(text[i]),
    ensures
        word_end(text, at) == end,
    decreases end - at,
{
    if at < end {
        lemma_word_end(text, at + 1, end);
    }
}

/// The word in front of the prose: the numbers, with their separators.
spec fn limit_word(width: nat, height: nat, area: nat, budget: nat) -> Seq<char> {
    decimal(width) + seq!['x'] + decimal(height) + seq![':'] + decimal(area) + seq![':'] + decimal(
        budget,
    ) + seq![':']
}

proof fn lemma_limit_word(width: nat, height: nat, area: nat, budget: nat)
    requires
        width <= u64::MAX,
        height <= u64::MAX,
        area <= u64::MAX,
        budget <= u64::MAX,
    ensures
        limit_numbers(limit_word(width, height, area, budget)) == Some(
            (width as u64, height as u64, area as u64, budget as u64),
        ),
        forall|i: int|
            0 <= i < limit_word(width, height, area, budget).len() ==> !is_space(
                #[trigger] limit_word(width, height, area, budget)[i],
            ),
        limit_word(width, height, area, budget).len() > 0,
{
    let w = decimal(width);
    let h = decimal(height);
    let a = decimal(area);
    let b = decimal(budget);
    let word = limit_word(width, height, area, budget);
    crate::text::lemma_decimal_is_digits(width);
    crate::text::lemma_decimal_is_digits(height);
    crate::text::lemma_decimal_is_digits(area);
    crate::text::lemma_decimal_is_digits(budget);
    let cross = w.len() as int;
    let first = cross + 1 + h.len();
    let second = first + 1 + a.len();
    let third = second + 1 + b.len();
    assert forall|i: int| 0 <= i < word.len() implies (if i == cross {
        word[i] == 'x'
    } else if i == first || i == second || i == third {
        word[i] == ':'
    } else {
        crate::text::is_digit(#[trigger] word[i])
    }) by {
        if i < cross {
            assert(word[i] == w[i]);
            assert(crate::text::is_digit(w[i]));
        } else if cross < i < first {
            assert(word[i] == h[i - cross - 1]);
            assert(crate::text::is_digit(h[i - cross - 1]));
        } else if first < i < second {
            assert(word[i] == a[i - first - 1]);
            assert(crate::text::is_digit(a[i - first - 1]));
        } else if second < i < third {
            assert(word[i] == b[i - second - 1]);
            assert(crate::text::is_digit(b[i - second - 1]));
        }
    }
    assert(word[cross] == 'x');
    assert(word[first] == ':');
    assert(word[second] == ':');
    assert(word[third] == ':');
    lemma_index_from(word, 0, ':', first);
    lemma_index_from(word, first + 1, ':', second);
    lemma_index_from(word, second + 1, ':', third);
    lemma_index_from(word, 0, 'x', cross);
    assert(word.subrange(0, cross) =~= w);
    assert(word.subrange(cross + 1, first) =~= h);
    assert(word.subrange(first + 1, second) =~= a);
    assert(word.subrange(second + 1, third) =~= b);
    crate::text::law_decimal_reads_back(width, u64::MAX as nat);
    crate::text::law_decimal_reads_back(height, u64::MAX as nat);
    crate::text::law_decimal_reads_back(area, u64::MAX as nat);
    crate::text::law_decimal_reads_back(budget, u64::MAX as nat);
}

/// Joining texts can be grouped either way.
proof fn lemma_join(a: Seq<char>, b: Seq<char>, c: Seq<char>)
    ensures
        a + (b + c) == a + b + c,
{
    assert(a + (b + c) =~= a + b + c);
}

/// The prose that follows the first word.
spec fn limit_prose(width: nat, height: nat, area: nat, budget: nat) -> Seq<char> {
    " SVG target size "@ + decimal(width) + "x"@ + decimal(height) + " ("@ + decimal(area)
        + " pixels) exceeds the limit of "@ + decimal(budget)
        + " pixels, reduce the --resize target or the intrinsic size"@
}

/// A refusal is the marker, one word of numbers, and the prose.
proof fn lemma_size_limit_text(width: nat, height: nat, area: nat, budget: nat)
    ensures
        size_limit_text(width, height, area, budget) == SIZE_LIMIT_MARKER@ + limit_word(
            width,
            height,
            area,
            budget,
        ) + limit_prose(width, height, area, budget),
{
    let m = SIZE_LIMIT_MARKER@;
    let (w, h, a, b) = (decimal(width), decimal(height), decimal(area), decimal(budget));
    let x = seq!['x'];
    let c = seq![':'];
    reveal_strlit("x");
    reveal_strlit(":");
    reveal_strlit(": SVG target size ");
    reveal_strlit(" SVG target size ");
    assert("x"@ =~= x);
    assert(":"@ =~= c);
    assert(": SVG target size "@ =~= c + " SVG target size "@);
    lemma_join(m, w, x);
    lemma_join(m, w + x, h);
    lemma_join(m, w + x + h, c);
    lemma_join(m, w + x + h + c, a);
    lemma_join(m, w + x + h + c + a, c);
    lemma_join(m, w + x + h + c + a + c, b);
    lemma_join(m, w + x + h + c + a + c + b, c);
    let head = m + w + x + h + c + a + c + b;
    let s = " SVG target size "@;
    let p = " ("@;
    let q = " pixels) exceeds the limit of "@;
    let r = " pixels, reduce the --resize target or the intrinsic size"@;
    let front = head + c;
    lemma_join(head, c, s);
    lemma_join(front, s, w);
    lemma_join(front, s + w, x);
    lemma_join(front, s + w + x, h);
    lemma_join(front, s + w + x + h, p);
    lemma_join(front, s + w + x + h + p, a);
    lemma_join(front, s + w + x + h + p + a, q);
    lemma_join(front, s + w + x + h + p + a + q, b);
    lemma_join(front, s + w + x + h + p + a + q + b, r);
}

/// What a refusal says is read back exactly: the classifier recovers the very
/// numbers that the decoder put into the text.
pub proof fn law_a_size_limit_reads_back(width: u64, height: u64, area: u64, budget: u64)
    ensures
        read_size_limit(
            size_limit_text(width as nat, height as nat, area as nat, budget as nat),
        ) == Some((width, height, area, budget)),
{
    let text = size_limit_text(width as nat, height as nat, area as nat, budget as nat);
    let word = limit_word(width as nat, height as nat, area as nat, budget as nat);
    let tail = limit_prose(width as nat, height as nat, area as nat, budget as nat);
    lemma_size_limit_text(width as nat, height as nat, area as nat, budget as nat);
    lemma_limit_word(width as nat, height as nat, area as nat, budget as nat);
    assert(tail.len() > 0 && tail[0] == ' ') by {
        reveal_strlit(" SVG target size ");
    }
    lemma_first_word(SIZE_LIMIT_MARKER@, word, tail);
}

/// The word after a prefix ends where the white space starts.
proof fn lemma_first_word(prefix: Seq<char>, word: Seq<char>, tail: Seq<char>)
    requires
        word.len() > 0,
        forall|i: int| 0 <= i < word.len() ==> !is_space(#[trigger] word[i]),
        tail.len() > 0,
        tail[0] == ' ',
    ensures
        prefix.is_prefix_of(prefix + word + tail),
        first_word((prefix + word + tail).skip(prefix.len() as int)) == Some(word),
{
    let text = prefix + word + tail;
    let rest = word + tail;
    assert(text.skip(prefix.len() as int) =~= rest);
    assert(text.subrange(0, prefix.len() as int) =~= prefix);
    assert(rest[0] == word[0]);
    assert(rest[word.len() as int] == ' ');
    assert forall|i: int| 0 <= i < word.len() implies !is_space(rest[i]) by {
        assert(rest[i] == word[i]);
    }
    lemma_word_end(rest, 0, word.len() as int);
    assert(rest.subrange(0, word.len() as int) =~= word);
}

/// A render target is refused exactly when a side was asked to be zero, or
/// when it covers more pixels than the budget; otherwise it is what was asked
/// for, and lies within the budget.
pub proof fn law_a_target_lies_within_its_budget(options: SvgOptions, intrinsic: (u32, u32))
    ensures
        target_refusal(options, intrinsic) is None <==> (options.target_size matches Some(size)
            ==> size.0 > 0 && size.1 > 0) && wanted_size(options, intrinsic).0 * wanted_size(
            options,
            intrinsic,
        ).1 <= budget_of(options),
{
}

// --- Decoding ----------------------------------------------------------------
/// Judges the length of a document before it is parsed.
pub fn check_document(length: u64) -> (result: Result<(), ImageFailure>)
    ensures
        length <= MAX_SVG_BYTES ==> result is Ok,
        length > MAX_SVG_BYTES ==> (result matches Err(failure) && failure@ == refused_decode(
            "SVG input exceeds the 256 MiB read limit"@,
        )),
{
    if length > MAX_SVG_BYTES {
        return Err(ImageFailure::decode("SVG input exceeds the 256 MiB read limit".to_owned()));
    }
    Ok(())
}

/// The document could not be read or parsed, and why.
pub fn document_failure(parsing: bool, message: &str) -> (failure: ImageFailure)
    ensures
        failure@ == refused_decode(
            if parsing {
                "Unable to parse SVG - "@ + message@
            } else {
                "Unable to read SVG data - "@ + message@
            },
        ),
{
    let mut text = if parsing {
        "Unable to parse SVG - ".to_owned()
    } else {
        "Unable to read SVG data - ".to_owned()
    };
    text.append(message);
    ImageFailure::decode(text)
}

/// What `resvg::tiny_skia::PremultipliedColorU8::demultiply` gives for a colour:
/// red, green, blue, alpha.
pub uninterp spec fn demultiplied(red: u8, green: u8, blue: u8, alpha: u8) -> (u8, u8, u8, u8);

/// Whether no colour sample exceeds alpha.
pub open spec fn premultiplied(red: u8, green: u8, blue: u8, alpha: u8) -> bool {
    red <= alpha && green <= alpha && blue <= alpha
}

/// Calls `resvg::tiny_skia::PremultipliedColorU8::from_rgba`, which takes a colour
/// none of whose samples exceeds alpha, and `demultiply`, whose result depends
/// on the samples alone: alpha stays, and an opaque colour stays whole.
#[verifier::external_body]
fn demultiply(red: u8, green: u8, blue: u8, alpha: u8) -> (color: Option<(u8, u8, u8, u8)>)
    ensures
        color is Some <==> premultiplied(red, green, blue, alpha),
        color matches Some(color) ==> {
            &&& color == demultiplied(red, green, blue, alpha)
            &&& color.3 == alpha
            &&& alpha == 255 ==> color == (red, green, blue, alpha)
        },
{
    let color = resvg::tiny_skia::PremultipliedColorU8::from_rgba(red, green, blue, alpha)?;
    let color = color.demultiply();
    Some((color.red(), color.green(), color.blue(), color.alpha()))
}

/// Whether the pixels are whole, and no colour sample exceeds its alpha.
pub open spec fn rendered_pixels(pixels: Seq<u8>) -> bool {
    &&& pixels.len() % 4 == 0
    &&& forall|i: int|
        #![trigger pixels[4 * i]]
        0 <= i < pixels.len() / 4 ==> premultiplied(
            pixels[4 * i],
            pixels[4 * i + 1],
            pixels[4 * i + 2],
            pixels[4 * i + 3],
        )
}

/// The samples of a pixel with straight alpha.
pub open spec fn straight_pixel(pixels: Seq<u8>, i: int) -> Seq<u8> {
    let color = demultiplied(
        pixels[4 * i],
        pixels[4 * i + 1],
        pixels[4 * i + 2],
        pixels[4 * i + 3],
    );
    seq![color.0, color.1, color.2, color.3]
}

/// The samples of the first pixels with straight alpha.
pub open spec fn straight(pixels: Seq<u8>, count: int) -> Seq<u8>
    decreases count,
{
    if count <= 0 {
        seq![]
    } else {
        straight(pixels, count - 1) + straight_pixel(pixels, count - 1)
    }
}

/// Rendered pixels with straight alpha; the renderer multiplies colours by
/// alpha.
pub fn straight_alpha(pixels: &Vec<u8>) -> (result: Vec<u8>)
    requires
        rendered_pixels(pixels@),
    ensures
        result@ == straight(pixels@, pixels@.len() as int / 4),
        result@.len() == pixels@.len(),
{
    let length: usize = pixels.len();
    let count: usize = length / 4;
    let mut result: Vec<u8> = Vec::new();
    let mut at: usize = 0;
    while at < count
        invariant
            at <= count,
            length == pixels@.len(),
            count == length / 4,
            rendered_pixels(pixels@),
            result@ == straight(pixels@, at as int),
            result@.len() == 4 * at,
        decreases count - at,
    {
        let (red, green, blue, alpha): (u8, u8, u8, u8) = (
            pixels[4 * at],
            pixels[4 * at + 1],
            pixels[4 * at + 2],
            pixels[4 * at + 3],
        );
        proof {
            assert(pixels@[4 * (at as int)] == red);
        }
        let color: (u8, u8, u8, u8) = match demultiply(red, green, blue, alpha) {
            Some(color) => color,
            None => {
                assert(false);
                (0, 0, 0, 0)
            },
        };
        result.push(color.0);
        result.push(color.1);
        result.push(color.2);
        result.push(color.3);
        proof {
            assert(result@ =~= straight(pixels@, at as int) + straight_pixel(pixels@, at as int));
        }
        at = at + 1;
    }
    result
}

/// Where an SVG is rendered to.
#[derive(Debug, Clone, Copy, PartialEq, Eq)]
pub struct SvgDecoder {
    /// Width and height of the render target in pixels.
    pub target: (usize, usize),
}

impl SvgDecoder {
    /// A decoder that renders a document at its intrinsic size, within the
    /// standing budget.
    pub fn try_new(intrinsic: (u32, u32)) -> (result: Result<SvgDecoder, ImageFailure>)
        ensures
            ({
                let options = SvgOptions { target_size: None, pixel_budget: None };
                match target_refusal(options, intrinsic) {
                    None => result matches Ok(decoder) && (
                        decoder.target.0 as nat,
                        decoder.target.1 as nat,
                    ) == wanted_size(options, intrinsic),
                    Some(text) => result matches Err(failure) && failure@ == refused_decode(text),
                }
            }),
    {
        SvgDecoder::try_new_with_options(&SvgOptions::default(), intrinsic)
    }

    /// A decoder that renders a document to the size that the caller asked for,
    /// within the standing budget.
    pub fn try_new_with_resize(
        target_size: Result<Option<(u32, u32)>, ImageFailure>,
        intrinsic: (u32, u32),
    ) -> (result: Result<SvgDecoder, ImageFailure>)
        ensures
            match target_size {
                Err(failure) => result == Err::<SvgDecoder, ImageFailure>(failure),
                Ok(target_size) => {
                    let options = SvgOptions { target_size, pixel_budget: None };
                    match target_refusal(options, intrinsic) {
                        None => result matches Ok(decoder) && (
                            decoder.target.0 as nat,
                            decoder.target.1 as nat,
                        ) == wanted_size(options, intrinsic),
                        Some(text) => result matches Err(failure) && failure@ == refused_decode(
                            text,
                        ),
                    }
                },
            },
    {
        SvgDecoder::try_new_with_resize_and_budget(target_size, intrinsic, None)
    }

    /// A decoder for a document of this intrinsic size.
    pub fn try_new_with_options(options: &SvgOptions, intrinsic: (u32, u32)) -> (result: Result<
        SvgDecoder,
        ImageFailure,
    >)
        ensures
            match target_refusal(*options, intrinsic) {
                None => result matches Ok(decoder) && (
                    decoder.target.0 as nat,
                    decoder.target.1 as nat,
                ) == wanted_size(*options, intrinsic),
                Some(text) => result matches Err(failure) && failure@ == refused_decode(text),
            },
    {
        match resolve_target_size(options, intrinsic) {
            Ok(target) => Ok(SvgDecoder { target }),
            Err(failure) => Err(failure),
        }
    }

    /// A decoder for a document of this intrinsic size, rendered to the size
    /// that the caller asked for: `Ok(None)` renders at the intrinsic size, and
    /// a failure stands.
    pub fn try_new_with_resize_and_budget(
        target_size: Result<Option<(u32, u32)>, ImageFailure>,
        intrinsic: (u32, u32),
        pixel_budget: Option<u64>,
    ) -> (result: Result<SvgDecoder, ImageFailure>)
        ensures
            match target_size {
                Err(failure) => result == Err::<SvgDecoder, ImageFailure>(failure),
                Ok(target_size) => {
                    let options = SvgOptions { target_size, pixel_budget };
                    match target_refusal(options, intrinsic) {
                        None => result matches Ok(decoder) && (
                            decoder.target.0 as nat,
                            decoder.target.1 as nat,
                        ) == wanted_size(options, intrinsic),
                        Some(text) => result matches Err(failure) && failure@ == refused_decode(
                            text,
                        ),
                    }
                },
            },
    {
        match target_size {
            Ok(target_size) => SvgDecoder::try_new_with_options(
                &SvgOptions { target_size, pixel_budget },
                intrinsic,
            ),
            Err(failure) => Err(failure),
        }
    }

    /// The image of the rendered pixels, whose colours are multiplied by alpha;
    /// `None` where no memory could be had for them.
    pub fn decode(&self, rendered: Option<&Vec<u8>>) -> (result: Result<Raster, ImageFailure>)
        requires
            rendered matches Some(pixels) ==> rendered_pixels(pixels@) && pixels@.len()
                == self.target.0 * self.target.1 * 4,
        ensures
            match rendered {
                Some(pixels) => result matches Ok(image) && image@.wf() && image@ == still(
                    self.target.0,
                    self.target.1,
                    ColorSpace::RGBA,
                    SamplesView::Eight(straight(pixels@, self.target.0 * self.target.1)),
                ),
                None => result matches Err(failure) && failure@ == refused_decode(
                    "Unable to allocate a "@ + decimal(self.target.0 as nat) + "x"@ + decimal(
                        self.target.1 as nat,
                    ) + " pixmap for SVG rendering"@,
                ),
            },
    {
        match rendered {
            Some(pixels) => {
                let samples = straight_alpha(pixels);
                Ok(
                    Raster::new_still(
                        self.target.0,
                        self.target.1,
                        ColorSpace::RGBA,
                        Samples::Eight(samples),
                    ),
                )
            },
            None => {
                let mut text = "Unable to allocate a ".to_owned();
                push_decimal(&mut text, self.target.0 as u128);
                text.append("x");
                push_decimal(&mut text, self.target.1 as u128);
                text.append(" pixmap for SVG rendering");
                Err(ImageFailure::decode(text))
            },
        }
    }

    /// Width and height of the image.
    pub fn dimensions(&self) -> (size: Option<(usize, usize)>)
        ensures
            size == Some(self.target),
    {
        Some(self.target)
    }

    /// The colour space of the image.
    pub fn out_colorspace(&self) -> (colorspace: ColorSpace)
        ensures
            colorspace == ColorSpace::RGBA,
    {
        ColorSpace::RGBA
    }

    /// The decoder's name.
    pub fn name(&self) -> (name: &'static str)
        ensures
            name@ == "svg-decoder"@,
    {
        "svg-decoder"
    }
}

} // verus!
