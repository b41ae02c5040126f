//! What the codecs make of pictures: their sizes, samples and refusals.

use vstd::prelude::*;
use crate::codecs::failures::{failed_encode, plain_failure, refused_colorspace, refused_decode};
use crate::codecs::oxipng::{png_layout, png_refusal, png_result};
use crate::codecs::svg::{
    budget_of, demultiplied, straight, target_refusal, wanted_size, SvgOptions, MAX_SVG_BYTES,
};
use crate::codecs::tiff::{header_result, picture_result, samples_fit, TiffColorView};
use crate::codecs::tiff_chunks::pieces;
use crate::codecs::webp::{
    default_webp_options, webp_refusal, webp_result, WebPDecoder, WebPOptions, WebPPicture,
    MAX_WEBP_BYTES,
};
use crate::color::{BitDepth, ColorSpace};
use crate::error::{FailureView, KindView};
use crate::raster::{eight_bit, narrowed, network_bytes, still, stored, RasterView, SamplesView};
use crate::text::decimal;

verus! {

// --- Samples -----------------------------------------------------------------------
/// A sample of 16 bits is narrowed by what makes full scale of one full scale of
/// the other: every sample that widens a byte narrows to it, those between two
/// such narrow to the lower byte, and order is kept.
pub proof fn law_narrowing_keeps_the_scale(byte: u8, sample: u16, other: u16)
    ensures
        narrowed((257 * byte) as u16) == byte,
        257 * byte <= sample < 257 * byte + 257 ==> narrowed(sample) == byte,
        sample <= other ==> narrowed(sample) <= narrowed(other),
        narrowed(0) == 0,
        narrowed(u16::MAX) == 255,
{
}

/// Samples of eight bits stay as they are, and those of sixteen are narrowed each
/// in its place.
pub proof fn law_every_sample_is_narrowed(bytes: Seq<u8>, words: Seq<u16>, index: int)
    ensures
        eight_bit(SamplesView::Eight(bytes)) == bytes,
        eight_bit(SamplesView::Sixteen(words)).len() == words.len(),
        0 <= index < words.len() ==> 257 * eight_bit(SamplesView::Sixteen(words))[index]
            <= words[index] < 257 * eight_bit(SamplesView::Sixteen(words))[index] + 257,
{
}

/// A PNG stores a sample of 16 bits as two bytes, the high one first; bytes are
/// stored as they are.
pub proof fn law_a_png_stores_the_high_byte_first(bytes: Seq<u8>, words: Seq<u16>, index: int)
    ensures
        network_bytes(SamplesView::Eight(bytes)) == bytes,
        network_bytes(SamplesView::Sixteen(words)).len() == 2 * words.len(),
        0 <= index < words.len() ==> network_bytes(SamplesView::Sixteen(words))[2 * index] * 256
            + network_bytes(SamplesView::Sixteen(words))[2 * index + 1] == words[index],
{
    if 0 <= index < words.len() {
        assert((2 * index) % 2 == 0 && (2 * index) / 2 == index);
        assert((2 * index + 1) % 2 == 1 && (2 * index + 1) / 2 == index);
    }
}

/// Words are stored in two bytes each, and the two orders differ in nothing but
/// which of them comes first.
pub proof fn law_words_are_stored_in_either_order(words: Seq<u16>, index: int)
    requires
        0 <= index < words.len(),
    ensures
        stored(words, true).len() == 2 * words.len(),
        stored(words, true)[2 * index] + 256 * stored(words, true)[2 * index + 1] == words[index],
        stored(words, false)[2 * index] == stored(words, true)[2 * index + 1],
        stored(words, false)[2 * index + 1] == stored(words, true)[2 * index],
{
    assert((2 * index) % 2 == 0 && (2 * index) / 2 == index);
    assert((2 * index + 1) % 2 == 1 && (2 * index + 1) / 2 == index);
}

/// A still image is one picture that shows its samples as they are, without a
/// profile.
pub proof fn law_a_still_is_one_picture(
    width: usize,
    height: usize,
    colorspace: ColorSpace,
    samples: SamplesView,
)
    ensures
        ({
            let image = still(width, height, colorspace, samples);
            &&& image.width == width
            &&& image.height == height
            &&& image.colorspace == colorspace
            &&& image.frames.len() == 1
            &&& image.frames[0].samples == samples
            &&& image.icc is None
            &&& samples is Eight ==> image.depth is Eight
            &&& samples is Sixteen ==> image.depth is Sixteen
            &&& samples is Float32 ==> image.depth is Float32
            &&& image.wf() <==> samples.count() == width * height * colorspace.components()
        }),
{
    let image = still(width, height, colorspace, samples);
    assert(image.frames[0].samples == samples);
}

// --- TIFF ----------------------------------------------------------------------------
/// The pictures of a TIFF that are taken: up to a hundred million pixels, in any
/// of six kinds of colours. The size is judged first.
pub proof fn law_a_tiff_is_taken_in_known_colours(size: (u32, u32), color: TiffColorView)
    ensures
        ({
            let header = header_result(Ok(size), Ok(color));
            let fits = size.0 * size.1 <= 100_000_000;
            &&& !fits ==> (header matches Err(failure) && failure.kind is Decode)
            &&& fits && color is RGB ==> header == Ok::<((u32, u32), ColorSpace), FailureView>(
                (size, ColorSpace::RGB),
            )
            &&& fits && color is RGBA ==> header == Ok::<((u32, u32), ColorSpace), FailureView>(
                (size, ColorSpace::RGBA),
            )
            &&& fits && color is CMYK ==> header == Ok::<((u32, u32), ColorSpace), FailureView>(
                (size, ColorSpace::CMYK),
            )
            &&& fits && color is Gray ==> header == Ok::<((u32, u32), ColorSpace), FailureView>(
                (size, ColorSpace::Luma),
            )
            &&& fits && color is GrayA ==> header == Ok::<((u32, u32), ColorSpace), FailureView>(
                (size, ColorSpace::LumaA),
            )
            &&& fits && color is YCbCr ==> header == Ok::<((u32, u32), ColorSpace), FailureView>(
                (size, ColorSpace::YCbCr),
            )
            &&& fits && (color matches TiffColorView::Other(name)) ==> header == Err::<
                ((u32, u32), ColorSpace),
                FailureView,
            >(refused_decode("Unsupported TIFF color type: "@ + color->Other_0))
        }),
{
}

/// A header that cannot be read is reported with the message of what could not.
pub proof fn law_a_tiff_header_names_what_is_missing(
    size: (u32, u32),
    message: Seq<char>,
    color: Result<TiffColorView, Seq<char>>,
)
    ensures
        header_result(Err(message), color) == Err::<((u32, u32), ColorSpace), FailureView>(
            refused_decode("Unable to read dimensions - "@ + message),
        ),
        size.0 * size.1 <= 100_000_000 ==> header_result(Ok(size), Err(message)) == Err::<
            ((u32, u32), ColorSpace),
            FailureView,
        >(refused_decode("Unable to read colorspace - "@ + message)),
{
}

/// What is read of a TIFF is shown as it is, at the size and in the colours of the
/// header.
pub proof fn law_a_tiff_shows_what_was_read(
    size: (u32, u32),
    colorspace: ColorSpace,
    samples: SamplesView,
    message: Seq<char>,
)
    ensures
        picture_result(size, colorspace, Ok(Some(samples))) matches Ok(image) && image.width
            == size.0 && image.height == size.1 && image.colorspace == colorspace
            && image.frames.len() == 1 && image.frames[0].samples == samples && image.icc is None,
        picture_result(size, colorspace, Ok(None)) == Err::<RasterView, FailureView>(
            refused_decode("Tiff Data format not supported"@),
        ),
        picture_result(size, colorspace, Err(message)) == Err::<RasterView, FailureView>(
            refused_decode("Unable to decode TIFF file - "@ + message),
        ),
        samples_fit(size, colorspace, Ok(Some(samples))) <==> samples.count() == size.0 * size.1
            * colorspace.components(),
{
}

/// So many pieces cover a whole, and one less does not.
pub proof fn law_pieces_just_cover_a_whole(whole: nat, piece: nat)
    requires
        piece > 0,
    ensures
        pieces(whole, piece) * piece >= whole,
        whole > 0 ==> (pieces(whole, piece) - 1) * piece < whole,
        whole == 0 ==> pieces(whole, piece) == 0,
{
    let top = whole + piece - 1;
    let count = top / piece as int;
    vstd::arithmetic::div_mod::lemma_fundamental_div_mod(top, piece as int);
    assert(count >= 0) by (nonlinear_arith)
        requires
            top == piece * count + top % piece as int,
            top >= 0,
            top % (piece as int) < piece,
            piece > 0,
    ;
    assert(piece * count == count * piece) by (nonlinear_arith);
    assert((count - 1) * piece == count * piece - piece) by (nonlinear_arith);
    if whole == 0 {
        assert(count == 0) by (nonlinear_arith)
            requires
                top == piece - 1,
                top == count * piece + top % piece as int,
                top % (piece as int) >= 0,
                count >= 0,
                piece > 0,
        ;
    }
}

// --- WebP ----------------------------------------------------------------------------
/// A WebP shows its still picture; an animated one its first, at the size and in
/// the colours of the picture: red, green and blue, with alpha where it has it.
pub proof fn law_a_webp_shows_its_still_picture(decoder: WebPDecoder, picture: WebPPicture)
    ensures
        decoder.still is Some ==> decoder.picture() == decoder.still,
        decoder.still is None && decoder.animated is Some ==> decoder.picture()
            == decoder.animated->0,
        decoder.still is None && decoder.animated is None ==> decoder.picture() is None,
        picture.image().width == picture.width,
        picture.image().height == picture.height,
        picture.alpha ==> picture.image().colorspace is RGBA,
        !picture.alpha ==> picture.image().colorspace is RGB,
        picture.image().frames.len() == 1,
        picture.image().frames[0].samples == SamplesView::Eight(picture.pixels@),
        MAX_WEBP_BYTES == 256 * 1024 * 1024,
{
}

/// What a WebP encoder refuses: an image without a picture, then one in other
/// colours than red, green and blue with or without alpha, then everything where
/// it could not be configured. Anything else reaches it.
pub proof fn law_a_webp_encoder_refuses_for_a_reason(
    options: Option<WebPOptions>,
    image: RasterView,
)
    ensures
        ({
            let refusal = webp_refusal(options, image);
            let colored = image.colorspace is RGB || image.colorspace is RGBA;
            &&& image.frames.len() == 0 ==> refusal == Some(
                plain_failure("Cannot encode an image with no frames"@),
            )
            &&& image.frames.len() > 0 && !colored ==> refusal == Some(
                refused_colorspace(image.colorspace, "[RGB, RGBA]"@),
            )
            &&& image.frames.len() > 0 && colored && options is None ==> refusal == Some(
                failed_encode("libwebp encoder configuration failed to initialize"@),
            )
            &&& image.frames.len() > 0 && colored && options is Some ==> refusal is None
        }),
{
}

/// What a WebP encoder writes is handed on as it is, and what it says where it
/// fails is named.
pub proof fn law_a_webp_answer_is_handed_on(file: Seq<u8>, error: Seq<char>)
    ensures
        webp_result(Some(Ok(file))) == Ok::<Seq<u8>, FailureView>(file),
        webp_result(Some(Err(error))) matches Err(failure) && failure.kind is Other && failure.text
            == "Image could not be encoded, reason: "@ + ("webp encoding failed: "@ + error),
        webp_result(None) is Err,
        default_webp_options().quality == 75,
        !default_webp_options().lossless,
        !default_webp_options().exact,
        default_webp_options().near_lossless == 100,
{
}

// --- PNG ------------------------------------------------------------------------------
/// A PNG takes grey and red, green and blue, each with or without alpha, in a
/// layout with as many channels as the colours have samples.
pub proof fn law_a_png_layout_has_the_samples_of_its_colours(colorspace: ColorSpace)
    ensures
        png_layout(colorspace) is Some <==> colorspace is Luma || colorspace is LumaA || colorspace
            is RGB || colorspace is RGBA,
        png_layout(colorspace) matches Some(layout) ==> layout.channels()
            == colorspace.components() && (layout is Grayscale <==> colorspace is Luma) && (layout
            is GrayscaleAlpha <==> colorspace is LumaA) && (layout is RGB <==> colorspace is RGB)
            && (layout is RGBA <==> colorspace is RGBA),
{
}

/// What a PNG encoder refuses: sides beyond 32 bits, then samples of other sizes
/// than 8 and 16 bits, then an image without a picture, then colours without a
/// layout. Anything else reaches it.
pub proof fn law_a_png_encoder_refuses_for_a_reason(image: RasterView)
    ensures
        ({
            let refusal = png_refusal(image);
            let small = image.width <= 0xffff_ffff && image.height <= 0xffff_ffff;
            let whole = image.depth is Eight || image.depth is Sixteen;
            let shown = image.frames.len() > 0;
            let colored = image.colorspace is Luma || image.colorspace is LumaA || image.colorspace
                is RGB || image.colorspace is RGBA;
            &&& refusal is None <==> small && whole && shown && colored
            &&& !small ==> (refusal matches Some(failure) && failure.kind is Other && failure.text
                == "Image could not be encoded, reason: "@ + ("image dimensions "@ + decimal(
                image.width as nat,
            ) + "x"@ + decimal(image.height as nat) + " exceed the PNG u32 limit"@))
            &&& small && !whole ==> refusal == Some(
                plain_failure(image.depth.named() + " is not supported for oxipng encoding"@),
            )
            &&& small && whole && !shown ==> refusal == Some(
                plain_failure("Cannot encode an image with no frames"@),
            )
            &&& small && whole && shown && !colored ==> (refusal matches Some(failure)
                && failure.kind is UnsupportedColorspace && failure.text == "Found colorspace "@
                + image.colorspace.named() + " but the encoder supports "@
                + "[Luma, LumaA, RGB, RGBA]"@)
        }),
{
}

/// What the optimiser writes is handed on as it is, and so is what it says where
/// it fails.
pub proof fn law_a_png_answer_is_handed_on(file: Seq<u8>, message: Seq<char>)
    ensures
        png_result(Ok(file)) == Ok::<Seq<u8>, FailureView>(file),
        png_result(Err(message)) matches Err(failure) && failure.kind is Other && failure.text
            == "Image could not be encoded, reason: "@ + message,
{
}

// --- SVG ------------------------------------------------------------------------------
/// An SVG is rendered at the size asked for, and at its own without one; a side of
/// its own that is zero counts as one.
pub proof fn law_an_svg_is_rendered_at_the_size_asked_for(
    target: Option<(u32, u32)>,
    budget: Option<u64>,
    intrinsic: (u32, u32),
    options: SvgOptions,
)
    requires
        options.target_size == target,
        options.pixel_budget == budget,
    ensures
        target matches Some((width, height)) ==> (width > 0 && height > 0 ==> wanted_size(
            options,
            intrinsic,
        ) == (width as nat, height as nat)),
        target is None && intrinsic.0 > 0 && intrinsic.1 > 0 ==> wanted_size(options, intrinsic)
            == (intrinsic.0 as nat, intrinsic.1 as nat),
        target is None && intrinsic.0 == 0 ==> wanted_size(options, intrinsic).0 == 1,
        target is None && intrinsic.1 == 0 ==> wanted_size(options, intrinsic).1 == 1,
        budget matches Some(pixels) ==> budget_of(options) == pixels,
        budget is None ==> budget_of(options) == 44_739_242,
        MAX_SVG_BYTES == 256 * 1024 * 1024,
{
}

/// A render target is refused where a side asked for is zero, and where it has
/// more pixels than the budget, and nowhere else.
pub proof fn law_a_render_target_is_refused_for_a_reason(
    options: SvgOptions,
    intrinsic: (u32, u32),
)
    ensures
        options.target_size matches Some((width, height)) ==> {
            let refusal = target_refusal(options, intrinsic);
            &&& width == 0 || height == 0 ==> refusal == Some(
                "Invalid SVG target size "@ + decimal(width as nat) + "x"@ + decimal(height as nat),
            )
            &&& width > 0 && height > 0 ==> (refusal is Some <==> width * height > budget_of(
                options,
            ))
        },
        options.target_size is None ==> {
            let width = if intrinsic.0 == 0 {
                1
            } else {
                intrinsic.0 as int
            };
            let height = if intrinsic.1 == 0 {
                1
            } else {
                intrinsic.1 as int
            };
            target_refusal(options, intrinsic) is Some <==> width * height > budget_of(options)
        },
{
}

/// Straight alpha is made pixel by pixel: the four samples at each place are those
/// that the colour there has without its alpha, in the same order.
pub proof fn law_every_pixel_gets_straight_alpha(pixels: Seq<u8>, count: int, index: int)
    requires
        0 <= index < count,
        4 * count <= pixels.len(),
    ensures
        straight(pixels, count).len() == 4 * count,
        ({
            let at = 4 * index;
            let after = straight(pixels, count);
            demultiplied(pixels[at], pixels[at + 1], pixels[at + 2], pixels[at + 3]) == (
                after[at],
                after[at + 1],
                after[at + 2],
                after[at + 3],
            )
        }),
    decreases count,
{
    lemma_straight_length(pixels, count - 1);
    if index < count - 1 {
        law_every_pixel_gets_straight_alpha(pixels, count - 1, index);
    }
}

proof fn lemma_straight_length(pixels: Seq<u8>, count: int)
    requires
        0 <= count,
    ensures
        straight(pixels, count).len() == 4 * count,
    decreases count,
{
    if count > 0 {
        lemma_straight_length(pixels, count - 1);
    }
}

// --- Names ----------------------------------------------------------------------------
/// A depth in bytes, and by its name.
pub proof fn law_every_depth_has_its_bytes(depth: BitDepth)
    ensures
        depth is Eight ==> depth.sample_bytes() == 1 && depth.named() == "Eight"@,
        depth is Sixteen ==> depth.sample_bytes() == 2 && depth.named() == "Sixteen"@,
        depth is Float32 ==> depth.sample_bytes() == 4 && depth.named() == "Float32"@,
        depth is Unknown ==> depth.sample_bytes() == 1 && depth.named() == "Unknown"@,
{
}

/// The failures that codecs report, by kind and text.
pub proof fn law_codecs_report_in_their_own_words(text: Seq<char>)
    ensures
        plain_failure(text).kind == KindView::Other,
        plain_failure(text).text == text,
        refused_decode(text).kind == KindView::Decode,
        refused_decode(text).text == text,
{
}

} // verus!
