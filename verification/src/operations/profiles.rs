//! Which conversions between colour profiles exist, and what is asked of the
//! colour engine for them.

use vstd::prelude::*;
use crate::color::{BitDepth, ColorSpace};
use crate::error::{FailureView, KindView};
use crate::operations::icc::{
    alpha_of, answered, applied, engine_bytes, format_of, icc_decision, icc_open_error, icc_space,
    image_space, request_for, signature_of, size_refusal, space_of, SpaceView,
};
use crate::raster::{RasterView, SamplesView};

verus! {

/// The profile colours of each colour space: red, green and blue in any order and
/// with alpha or without, grey with alpha or without, and three others. The other
/// colour spaces have none.
pub proof fn law_every_colour_space_has_its_profile_colours(colorspace: ColorSpace)
    ensures
        space_of(colorspace) == Some(SpaceView::Rgb) <==> colorspace is RGB || colorspace is RGBA
            || colorspace is BGR || colorspace is BGRA || colorspace is ARGB,
        space_of(colorspace) == Some(SpaceView::Gray) <==> colorspace is Luma || colorspace is LumaA,
        space_of(colorspace) == Some(SpaceView::Cmyk) <==> colorspace is CMYK,
        space_of(colorspace) == Some(SpaceView::YCbCr) <==> colorspace is YCbCr,
        space_of(colorspace) == Some(SpaceView::Hsv) <==> colorspace is HSV,
        space_of(colorspace) matches Some(space) ==> !(space is Other),
{
}

/// A conversion exists exactly where the profile of the image opens and describes
/// its pixels, the target is of a known kind, alpha has a place in it where the
/// image has alpha, and the samples have 8 or 16 bits.
pub proof fn law_a_conversion_exists_where_both_profiles_fit(
    source: Result<SpaceView, Seq<char>>,
    colorspace: ColorSpace,
    depth: BitDepth,
    target: SpaceView,
)
    ensures
        ({
            let alpha = colorspace is RGBA || colorspace is BGRA || colorspace is ARGB || colorspace
                is LumaA;
            let decision = icc_decision(source, colorspace, depth, target);
            &&& decision is Ok <==> {
                &&& source matches Ok(described) && space_of(colorspace) == Some(described)
                &&& !(target is Other)
                &&& alpha ==> target is Rgb || target is Gray
                &&& depth is Eight || depth is Sixteen || depth is Unknown
            }
            &&& decision matches Ok(to) ==> {
                &&& target is Rgb ==> to == if alpha {
                    ColorSpace::RGBA
                } else {
                    ColorSpace::RGB
                }
                &&& target is Gray ==> to == if alpha {
                    ColorSpace::LumaA
                } else {
                    ColorSpace::Luma
                }
                &&& target is Cmyk ==> to is CMYK
                &&& target is YCbCr ==> to is YCbCr
                &&& target is Hsv ==> to is HSV
            }
            &&& decision matches Err(failure) ==> failure.kind == KindView::Other
        }),
{
}

/// A conversion that does not exist is refused with its first reason: what the
/// profile says of itself, pixels that no profile describes, a profile that does
/// not describe them, a target of an unknown kind, one without a place for alpha,
/// and the size of the samples.
pub proof fn law_a_refused_conversion_names_the_first_reason(
    message: Seq<char>,
    described: SpaceView,
    colorspace: ColorSpace,
    depth: BitDepth,
    target: SpaceView,
)
    ensures
        icc_decision(Err(message), colorspace, depth, target) matches Err(failure) && failure.text
            == message,
        ({
            let decision = icc_decision(Ok(described), colorspace, depth, target);
            let matching = space_of(colorspace) == Some(described);
            &&& space_of(colorspace) is None ==> (decision matches Err(failure) && failure.text
                == "ICC profile application does not support "@ + colorspace.named() + " pixels"@)
            &&& space_of(colorspace) is Some && !matching ==> (decision matches Err(failure)
                && failure.text == "ICC profile color space "@ + described.named()
                + " does not match "@ + colorspace.named() + " pixels"@)
            &&& matching && target is Other ==> (decision matches Err(failure) && failure.text
                == "Destination ICC color space "@ + target.named() + " is not supported"@)
            &&& matching && colorspace.alpha() && (target is Cmyk || target is YCbCr || target
                is Hsv) ==> (decision matches Err(failure) && failure.text
                == "Destination ICC color space cannot preserve the image alpha channel"@)
        }),
{
}

/// What the number of a pixel layout says, field by field: the bytes of a sample
/// in its lowest three bits, the colour samples in the next four, the others in
/// three, then whether the order is reversed, whether the first sample is moved to
/// the end, and the kind of the colours.
pub proof fn law_a_layout_number_says_what_the_pixels_are(colorspace: ColorSpace, bytes: nat)
    requires
        bytes == 1 || bytes == 2,
    ensures
        format_of(colorspace, (8 * bytes) as usize) is Some <==> space_of(colorspace) is Some,
        format_of(colorspace, (8 * bytes) as usize) matches Some(number) ==> {
            &&& number as int % 8 == bytes
            &&& number as int / 8 % 16 + number as int / 128 % 8 == colorspace.components()
            &&& number as int / 128 % 8 == if colorspace.alpha() {
                1int
            } else {
                0
            }
            &&& number as int / 1024 % 2 == 1 <==> colorspace is BGR || colorspace is BGRA
            &&& number as int / 16384 % 2 == 1 <==> colorspace is ARGB || colorspace is BGRA
            &&& number as int / 2048 % 8 == 0
            &&& number as int / 32768 % 2 == 0
            &&& number as int / 65536 == match space_of(colorspace)->0 {
                SpaceView::Gray => 3int,
                SpaceView::Rgb => 4,
                SpaceView::Cmyk => 6,
                SpaceView::YCbCr => 7,
                _ => 12,
            }
        },
        forall|bits: usize| bits != 8 && bits != 16 ==> format_of(colorspace, bits) is None,
{
}

/// What is asked of the engine for an image: from its own profile, or the built-in
/// sRGB without one, to the target, from the layout of its pixels to that of the
/// new ones, with the perceptual intent, without a cache, and copying alpha where
/// the image has it.
pub proof fn law_the_engine_is_asked_for_the_image(
    target: Option<Seq<u8>>,
    to: ColorSpace,
    image: RasterView,
)
    requires
        space_of(image.colorspace) is Some,
        space_of(to) is Some,
        image.depth is Eight || image.depth is Sixteen,
    ensures
        ({
            let request = request_for(target, to, image);
            let bits: usize = if image.depth is Eight {
                8
            } else {
                16
            };
            &&& request.source == image.icc
            &&& request.target == target
            &&& request.from == image.colorspace
            &&& request.to == to
            &&& format_of(image.colorspace, bits) == Some(request.from_format)
            &&& format_of(to, bits) == Some(request.to_format)
            &&& request.intent == 0
            &&& request.copy_alpha == image.colorspace.alpha()
            &&& request.copy_alpha ==> request.flags == 0x0400_0040
            &&& !request.copy_alpha ==> request.flags == 0x40
        }),
{
}

/// The alpha of a pixel is its first sample where alpha comes first, and else its
/// last.
pub proof fn law_alpha_is_first_or_last(
    colorspace: ColorSpace,
    samples: Seq<u8>,
    words: Seq<u16>,
    pixel: int,
)
    ensures
        colorspace is ARGB ==> alpha_of(SamplesView::Eight(samples), colorspace, pixel)
            == samples[4 * pixel] && alpha_of(SamplesView::Sixteen(words), colorspace, pixel)
            == words[4 * pixel],
        colorspace is RGBA || colorspace is BGRA ==> alpha_of(
            SamplesView::Eight(samples),
            colorspace,
            pixel,
        ) == samples[4 * pixel + 3] && alpha_of(SamplesView::Sixteen(words), colorspace, pixel)
            == words[4 * pixel + 3],
        colorspace is LumaA ==> alpha_of(SamplesView::Eight(samples), colorspace, pixel)
            == samples[2 * pixel + 1] && alpha_of(SamplesView::Sixteen(words), colorspace, pixel)
            == words[2 * pixel + 1],
{
    assert(pixel * 4 == 4 * pixel && pixel * 2 == 2 * pixel) by (nonlinear_arith);
}

/// What the engine reads: bytes as they are, and words in two bytes each, in the
/// order of the machine.
pub proof fn law_the_engine_reads_the_samples(
    samples: Seq<u8>,
    words: Seq<u16>,
    index: int,
)
    requires
        0 <= index < words.len(),
    ensures
        engine_bytes(SamplesView::Eight(samples), true) == samples,
        engine_bytes(SamplesView::Eight(samples), false) == samples,
        ({
            let low = engine_bytes(SamplesView::Sixteen(words), true);
            let high = engine_bytes(SamplesView::Sixteen(words), false);
            &&& low.len() == 2 * words.len()
            &&& high.len() == 2 * words.len()
            &&& low[2 * index] + 256 * low[2 * index + 1] == words[index]
            &&& high[2 * index] * 256 + high[2 * index + 1] == words[index]
        }),
{
    assert((2 * index) % 2 == 0 && (2 * index) / 2 == index);
    assert((2 * index + 1) % 2 == 1 && (2 * index + 1) / 2 == index);
}

/// The colours that the header of a profile names in its bytes 16 to 19: `RGB `,
/// `GRAY`, `CMYK`, `YCbr` and `HSV ` are known kinds, every other one is not. A
/// profile that does not open is refused with the engine's message.
pub proof fn law_a_profile_names_its_colours(icc: Seq<u8>, kind: Seq<u8>)
    requires
        icc.len() >= 20,
        kind == icc.subrange(16, 20),
    ensures
        icc_open_error(icc) matches Some(message) ==> icc_space(icc) == Err::<
            SpaceView,
            Seq<char>,
        >(message),
        icc_open_error(icc) is None ==> (icc_space(icc) matches Ok(space) && {
            &&& space is Rgb <==> kind == seq![0x52u8, 0x47u8, 0x42u8, 0x20u8]
            &&& space is Gray <==> kind == seq![0x47u8, 0x52u8, 0x41u8, 0x59u8]
            &&& space is Cmyk <==> kind == seq![0x43u8, 0x4du8, 0x59u8, 0x4bu8]
            &&& space is YCbCr <==> kind == seq![0x59u8, 0x43u8, 0x62u8, 0x72u8]
            &&& space is Hsv <==> kind == seq![0x48u8, 0x53u8, 0x56u8, 0x20u8]
        }),
{
    assert(kind[0] == icc[16] && kind[1] == icc[17] && kind[2] == icc[18] && kind[3] == icc[19]);
    let rgb = seq![0x52u8, 0x47u8, 0x42u8, 0x20u8];
    let gray = seq![0x47u8, 0x52u8, 0x41u8, 0x59u8];
    let cmyk = seq![0x43u8, 0x4du8, 0x59u8, 0x4bu8];
    let ycbcr = seq![0x59u8, 0x43u8, 0x62u8, 0x72u8];
    let hsv = seq![0x48u8, 0x53u8, 0x56u8, 0x20u8];
    lemma_signature(icc, kind, rgb);
    lemma_signature(icc, kind, gray);
    lemma_signature(icc, kind, cmyk);
    lemma_signature(icc, kind, ycbcr);
    lemma_signature(icc, kind, hsv);
}

/// Four bytes are told apart by the number they make.
proof fn lemma_four_bytes_apart(a: u8, b: u8, c: u8, d: u8, w: u8, x: u8, y: u8, z: u8)
    requires
        a * 0x100_0000 + b * 0x1_0000 + c * 0x100 + d == w * 0x100_0000 + x * 0x1_0000 + y * 0x100
            + z,
    ensures
        a == w && b == x && c == y && d == z,
{
    assert(a == w);
    assert(b == x);
    assert(c == y);
}

proof fn lemma_signature(icc: Seq<u8>, kind: Seq<u8>, name: Seq<u8>)
    requires
        icc.len() >= 20,
        kind == icc.subrange(16, 20),
        name.len() == 4,
    ensures
        kind == name <==> signature_of(icc) == name[0] * 0x100_0000 + name[1] * 0x1_0000 + name[2]
            * 0x100 + name[3],
{
    let (a, b, c, d) = (icc[16], icc[17], icc[18], icc[19]);
    let (w, x, y, z) = (name[0], name[1], name[2], name[3]);
    assert(kind[0] == a && kind[1] == b && kind[2] == c && kind[3] == d);
    let number = a * 0x100_0000 + b * 0x1_0000 + c * 0x100 + d;
    assert(0 <= number <= 0xffff_ffff);
    assert(signature_of(icc) == number);
    if number == w * 0x100_0000 + x * 0x1_0000 + y * 0x100 + z {
        lemma_four_bytes_apart(a, b, c, d, w, x, y, z);
        assert(kind =~= name);
    }
}

/// An image without a profile is taken to be in sRGB, and one with a profile in
/// the colours of that.
pub proof fn law_an_image_without_a_profile_is_in_srgb(image: RasterView)
    ensures
        image.icc is None ==> image_space(image) == Ok::<SpaceView, Seq<char>>(SpaceView::Rgb),
        image.icc matches Some(icc) ==> image_space(image) == icc_space(icc),
{
}

/// Pixels are converted at once where their number fits in 32 bits and the bytes
/// of the result in the machine's own numbers.
pub proof fn law_a_conversion_has_to_be_countable(
    width: usize,
    height: usize,
    to: ColorSpace,
    depth: BitDepth,
)
    ensures
        size_refusal(width, height, to, depth) is None <==> width * height <= 0xffff_ffff && width
            * height <= usize::MAX && width * height * to.components() * depth.sample_bytes()
            <= usize::MAX,
{
}

/// A finished conversion leaves an image in the colour space that was decided on,
/// with the profile that the engine gave, converted picture by picture; one that
/// the engine refuses is reported in its words.
pub proof fn law_a_finished_conversion_shows_the_decision(
    target: Option<Seq<u8>>,
    target_space: SpaceView,
    before: RasterView,
    after: RasterView,
)
    requires
        applied(target, target_space, before, after, None),
    ensures
        icc_decision(image_space(before), before.colorspace, before.depth, target_space) == Ok::<
            ColorSpace,
            FailureView,
        >(after.colorspace),
        ({
            let request = request_for(target, after.colorspace, before);
            &&& after.icc matches Some(icc) && request.may_answer(Ok(icc))
            &&& forall|i: int|
                0 <= i < after.frames.len() ==> request.may_give(
                    before.frames[i].samples,
                    Ok((#[trigger] after.frames[i]).samples),
                )
        }),
{
    let to = icc_decision(
        image_space(before),
        before.colorspace,
        before.depth,
        target_space,
    )->Ok_0;
    let request = request_for(target, to, before);
    let prepared = choose|prepared: Result<Seq<u8>, Seq<char>>|
        #[trigger] request.may_answer(prepared) && answered(request, prepared, before, after, None);
}

} // verus!
