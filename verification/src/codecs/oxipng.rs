//! PNG, optimised.

use oxipng::{ColorType, Options, RawImage};
use vstd::prelude::*;

use crate::cli::headers::png_extent;
use crate::codecs::failures::{
    colorspace_failure, encode_failure, failed_encode, plain_failure, refused_colorspace,
};
use crate::codecs::webp::file_view;
use crate::color::{BitDepth, ColorSpace};
use crate::error::{FailureView, ImageFailure};
use crate::raster::{network_bytes, to_network_bytes, Raster, RasterView};
use crate::text::{decimal, push_decimal};

verus! {

/// The pixel layouts that a PNG is written from.
#[derive(Debug, Clone, Copy, PartialEq, Eq, Structural)]
pub enum PngLayout {
    /// One grey sample.
    Grayscale,
    /// One grey sample and alpha.
    GrayscaleAlpha,
    /// Red, green, blue.
    RGB,
    /// Red, green, blue, alpha.
    RGBA,
}

/// The sample depths that a PNG is written from.
#[derive(Debug, Clone, Copy, PartialEq, Eq, Structural)]
pub enum PngDepth {
    /// One byte.
    Eight,
    /// Two bytes, the high one first.
    Sixteen,
}

impl PngLayout {
    /// How many samples a pixel has.
    pub open spec fn channels(self) -> nat {
        match self {
            PngLayout::Grayscale => 1,
            PngLayout::GrayscaleAlpha => 2,
            PngLayout::RGB => 3,
            PngLayout::RGBA => 4,
        }
    }
}

impl PngDepth {
    /// How many bytes a sample has.
    pub open spec fn bytes(self) -> nat {
        match self {
            PngDepth::Eight => 1,
            PngDepth::Sixteen => 2,
        }
    }
}

/// How hard a PNG is optimised.
#[derive(Debug, Clone, Copy, PartialEq, Eq)]
pub struct OxiPngOptions {
    /// The level, from 0 to 6; higher ones stand for 6.
    pub preset: u8,
    /// Whether the file is interlaced; `None` leaves it as it is.
    pub interlace: Option<bool>,
}

impl OxiPngOptions {
    /// The options of a level, without interlacing.
    pub fn from_preset(preset: u8) -> (options: Self)
        ensures
            options.preset == preset,
            options.interlace == Some(false),
    {
        OxiPngOptions { preset, interlace: Some(false) }
    }
}

impl Default for OxiPngOptions {
    fn default() -> (options: Self)
        ensures
            options.preset == 2,
            options.interlace == Some(false),
    {
        OxiPngOptions::from_preset(2)
    }
}

/// Whether `oxipng::RawImage::create_optimized_png` may answer with `outcome`
/// for these bytes of this size, with `channels` samples of `sample_bytes`
/// bytes a pixel, this profile and these options.
pub uninterp spec fn png_written(
    bytes: Seq<u8>,
    width: u32,
    height: u32,
    channels: nat,
    sample_bytes: nat,
    icc: Option<Seq<u8>>,
    preset: u8,
    interlace: Option<bool>,
    outcome: Result<Seq<u8>, Seq<char>>,
) -> bool;

/// A file or a message by its contents.
pub open spec fn png_outcome(outcome: Result<Vec<u8>, String>) -> Result<Seq<u8>, Seq<char>> {
    match outcome {
        Ok(file) => Ok(file@),
        Err(message) => Err(message@),
    }
}

/// The most bytes a row may have: the optimiser weighs the bytes of a row, and
/// pairs of them, in 32 bits.
pub const MAX_PNG_ROW: u64 = 67108864;

/// The most pixels an image may have: the optimiser counts each of them four
/// times in 32 bits.
pub const MAX_PNG_PIXELS: u64 = 1073741824;

/// The most bytes that go into one chunk of a file, before they are compressed:
/// the length of a chunk is written in 32 bits.
pub const MAX_PNG_CHUNK: u64 = 4000000000;

/// Whether the optimiser can count what it is given: the bytes of a row, the
/// pixels, the bytes of the image with a filter byte for every row of every pass,
/// and those of the profile. Twice the room of the image is set aside, and up to
/// ten times that of the profile.
pub open spec fn png_room(width: nat, height: nat, pixel_bytes: nat, profile: nat) -> bool {
    let length = width * height * pixel_bytes + 2 * height + 16;
    &&& width * pixel_bytes <= MAX_PNG_ROW
    &&& width * height <= MAX_PNG_PIXELS
    &&& length <= MAX_PNG_CHUNK
    &&& 2 * length <= isize::MAX
    &&& profile <= MAX_PNG_CHUNK
    &&& 10 * profile <= isize::MAX
}

/// How many bytes a profile has.
pub open spec fn profile_length(icc: Option<Seq<u8>>) -> nat {
    match icc {
        Some(icc) => icc.len(),
        None => 0,
    }
}

/// Calls `oxipng::RawImage::new`, `add_icc_profile` where there is a profile, and
/// `create_optimized_png` with the options of a preset changed in their
/// interlacing. A file that comes out for an image that is not empty is a PNG
/// whose header declares the given size; it is not described further. What the
/// optimiser cannot count is left out.
#[verifier::external_body]
fn write_png(
    bytes: Vec<u8>,
    width: u32,
    height: u32,
    layout: PngLayout,
    depth: PngDepth,
    icc: Option<&Vec<u8>>,
    options: OxiPngOptions,
) -> (outcome: Result<Vec<u8>, String>)
    requires
        png_room(
            width as nat,
            height as nat,
            layout.channels() * depth.bytes(),
            profile_length(profile_bytes(icc)),
        ),
        bytes@.len() == width * height * layout.channels() * depth.bytes(),
    ensures
        png_written(
            bytes@,
            width,
            height,
            layout.channels(),
            depth.bytes(),
            profile_bytes(icc),
            options.preset,
            options.interlace,
            png_outcome(outcome),
        ),
        outcome matches Ok(file) ==> width > 0 && height > 0 ==> png_extent(file@) == Some(
            (width as u64, height as u64),
        ),
{
    let color = match layout {
        PngLayout::Grayscale => ColorType::Grayscale { transparent_shade: None },
        PngLayout::GrayscaleAlpha => ColorType::GrayscaleAlpha,
        PngLayout::RGB => ColorType::RGB { transparent_color: None },
        PngLayout::RGBA => ColorType::RGBA,
    };
    let bits = match depth {
        PngDepth::Eight => oxipng::BitDepth::Eight,
        PngDepth::Sixteen => oxipng::BitDepth::Sixteen,
    };
    let raw = RawImage::new(width, height, color, bits, bytes);
    let settings = Options { interlace: options.interlace, ..Options::from_preset(options.preset) };
    let mut raw = raw.map_err(|error| error.to_string())?;
    icc.map(|profile| raw.add_icc_profile(profile));
    raw.create_optimized_png(&settings).map_err(|error| error.to_string())
}

/// The bytes of a borrowed profile.
pub open spec fn profile_bytes(icc: Option<&Vec<u8>>) -> Option<Seq<u8>> {
    match icc {
        Some(icc) => Some(icc@),
        None => None,
    }
}

/// The layout that a PNG uses for a colour space, if it has one.
pub open spec fn png_layout(colorspace: ColorSpace) -> Option<PngLayout> {
    match colorspace {
        ColorSpace::Luma => Some(PngLayout::Grayscale),
        ColorSpace::LumaA => Some(PngLayout::GrayscaleAlpha),
        ColorSpace::RGB => Some(PngLayout::RGB),
        ColorSpace::RGBA => Some(PngLayout::RGBA),
        _ => None,
    }
}

/// Why an image is refused before the optimiser sees it, if it is.
pub open spec fn png_refusal(image: RasterView) -> Option<FailureView> {
    if image.width > u32::MAX || image.height > u32::MAX {
        Some(
            failed_encode(
                "image dimensions "@ + decimal(image.width as nat) + "x"@ + decimal(
                    image.height as nat,
                ) + " exceed the PNG u32 limit"@,
            ),
        )
    } else if !(image.depth is Eight || image.depth is Sixteen) {
        Some(plain_failure(image.depth.named() + " is not supported for oxipng encoding"@))
    } else if image.frames.len() == 0 {
        Some(plain_failure("Cannot encode an image with no frames"@))
    } else if png_layout(image.colorspace) is None {
        Some(refused_colorspace(image.colorspace, "[Luma, LumaA, RGB, RGBA]"@))
    } else {
        None
    }
}

/// What is returned for an answer of the optimiser.
pub open spec fn png_result(outcome: Result<Seq<u8>, Seq<char>>) -> Result<Seq<u8>, FailureView> {
    match outcome {
        Ok(file) => Ok(file),
        Err(message) => Err(failed_encode(message)),
    }
}

/// Turns an answer of the optimiser into a file or a failure.
pub fn finish_optimizing(outcome: Result<Vec<u8>, String>) -> (result: Result<
    Vec<u8>,
    ImageFailure,
>)
    ensures
        file_view(result) == png_result(png_outcome(outcome)),
{
    match outcome {
        Ok(file) => Ok(file),
        Err(message) => Err(encode_failure(message.as_str())),
    }
}

/// The failure for a size that a PNG cannot declare.
pub fn dimension_overflow(width: usize, height: usize) -> (failure: ImageFailure)
    ensures
        failure@ == failed_encode(
            "image dimensions "@ + decimal(width as nat) + "x"@ + decimal(height as nat)
                + " exceed the PNG u32 limit"@,
        ),
{
    let mut reason = "image dimensions ".to_owned();
    push_decimal(&mut reason, width as u128);
    reason.append("x");
    push_decimal(&mut reason, height as u128);
    reason.append(" exceed the PNG u32 limit");
    encode_failure(reason.as_str())
}

/// An optimising PNG encoder.
#[derive(Debug, Clone, Copy, PartialEq, Eq)]
pub struct OxiPngEncoder {
    /// How hard the files are optimised.
    pub options: OxiPngOptions,
}

impl Default for OxiPngEncoder {
    fn default() -> (encoder: Self)
        ensures
            encoder.options.preset == 2,
            encoder.options.interlace == Some(false),
    {
        OxiPngEncoder { options: OxiPngOptions::default() }
    }
}

impl OxiPngEncoder {
    /// An encoder with the default options.
    pub fn new() -> (encoder: OxiPngEncoder)
        ensures
            encoder.options.preset == 2,
            encoder.options.interlace == Some(false),
    {
        OxiPngEncoder::default()
    }

    /// An encoder with these options.
    pub fn new_with_options(options: OxiPngOptions) -> (encoder: OxiPngEncoder)
        ensures
            encoder.options == options,
    {
        OxiPngEncoder { options }
    }

    /// Whether an image that is not refused leaves the optimiser room to count,
    /// as [`OxiPngEncoder::encode`] asks.
    pub fn has_room(&self, image: &Raster) -> (room: bool)
        ensures
            room == (png_refusal(image@) is None ==> png_room(
                image.width as nat,
                image.height as nat,
                image.colorspace.components() * image.depth.sample_bytes(),
                profile_length(image@.icc),
            )),
    {
        if image.width > 4294967295 || image.height > 4294967295 || image.frames.len() == 0 {
            return true;
        }
        let sample_bytes: u128 = match image.depth {
            BitDepth::Eight => 1,
            BitDepth::Sixteen => 2,
            _ => return true,
        };
        let channels: u128 = match image.colorspace {
            ColorSpace::Luma => 1,
            ColorSpace::LumaA => 2,
            ColorSpace::RGB => 3,
            ColorSpace::RGBA => 4,
            _ => return true,
        };
        let profile: u128 = match &image.icc {
            Some(icc) => icc.len() as u128,
            None => 0,
        };
        let pixel_bytes: u128 = channels * sample_bytes;
        proof {
            let pixels = image.width * image.height;
            assert(0 <= pixels <= 4294967295 * 4294967295) by (nonlinear_arith)
                requires
                    pixels == image.width * image.height,
                    0 <= image.width <= 4294967295,
                    0 <= image.height <= 4294967295,
            ;
            assert(0 <= pixels * pixel_bytes <= 4294967295 * 4294967295 * 8) by (nonlinear_arith)
                requires
                    0 <= pixels <= 4294967295 * 4294967295,
                    0 <= pixel_bytes <= 8,
            ;
            assert(0 <= image.width * pixel_bytes <= 4294967295 * 8) by (nonlinear_arith)
                requires
                    0 <= image.width <= 4294967295,
                    0 <= pixel_bytes <= 8,
            ;
        }
        let length: u128 = image.width as u128 * image.height as u128 * pixel_bytes + 2
            * image.height as u128 + 16;
        image.width as u128 * pixel_bytes <= MAX_PNG_ROW as u128 && image.width as u128
            * image.height as u128 <= MAX_PNG_PIXELS as u128 && length <= MAX_PNG_CHUNK as u128 && 2
            * length <= isize::MAX as u128 && profile <= MAX_PNG_CHUNK as u128 && 10 * profile
            <= isize::MAX as u128
    }

    /// The file for the first picture of an image, with the image's profile.
    pub fn encode(&self, image: &Raster) -> (result: Result<Vec<u8>, ImageFailure>)
        requires
            image@.wf(),
            png_refusal(image@) is None ==> png_room(
                image.width as nat,
                image.height as nat,
                image.colorspace.components() * image.depth.sample_bytes(),
                profile_length(image@.icc),
            ),
        ensures
            match png_refusal(image@) {
                Some(failure) => file_view(result) == Err::<Seq<u8>, FailureView>(failure),
                None => exists|outcome: Result<Seq<u8>, Seq<char>>|
                    {
                        &&& #[trigger] png_written(
                            network_bytes(image@.frames[0].samples),
                            image.width as u32,
                            image.height as u32,
                            image.colorspace.components(),
                            image.depth.sample_bytes(),
                            image@.icc,
                            self.options.preset,
                            self.options.interlace,
                            outcome,
                        )
                        &&& file_view(result) == png_result(outcome)
                    },
            },
            result matches Ok(file) ==> image.width > 0 && image.height > 0 ==> png_extent(file@)
                == Some((image.width as u64, image.height as u64)),
    {
        if image.width > 4294967295 || image.height > 4294967295 {
            return Err(dimension_overflow(image.width, image.height));
        }
        let depth = match image.depth {
            BitDepth::Eight => PngDepth::Eight,
            BitDepth::Sixteen => PngDepth::Sixteen,
            depth => {
                let mut text = depth.label().to_owned();
                text.append(" is not supported for oxipng encoding");
                return Err(ImageFailure::other(text));
            },
        };
        if image.frames.len() == 0 {
            return Err(ImageFailure::other("Cannot encode an image with no frames".to_owned()));
        }
        let layout = match image.colorspace {
            ColorSpace::Luma => PngLayout::Grayscale,
            ColorSpace::LumaA => PngLayout::GrayscaleAlpha,
            ColorSpace::RGB => PngLayout::RGB,
            ColorSpace::RGBA => PngLayout::RGBA,
            found => {
                return Err(colorspace_failure(found, "[Luma, LumaA, RGB, RGBA]"));
            },
        };
        proof {
            assert(image@.frames[0] == image.frames@[0]@);
        }
        let bytes = to_network_bytes(&image.frames[0].samples);
        let icc = match &image.icc {
            Some(icc) => Some(icc),
            None => None,
        };
        proof {
            let samples = image@.frame_samples();
            assert(samples == image.width * image.height * layout.channels());
            assert(bytes@.len() == samples * depth.bytes());
        }
        let outcome = write_png(
            bytes,
            image.width as u32,
            image.height as u32,
            layout,
            depth,
            icc,
            self.options,
        );
        let ghost answer = png_outcome(outcome);
        let result = finish_optimizing(outcome);
        proof {
            assert(png_written(
                network_bytes(image@.frames[0].samples),
                image.width as u32,
                image.height as u32,
                image.colorspace.components(),
                image.depth.sample_bytes(),
                image@.icc,
                self.options.preset,
                self.options.interlace,
                answer,
            ));
        }
        result
    }

    /// The colour spaces that the encoder takes.
    pub fn supported_colorspaces(&self) -> (supported: Vec<ColorSpace>)
        ensures
            supported@ == seq![
                ColorSpace::Luma,
                ColorSpace::LumaA,
                ColorSpace::RGB,
                ColorSpace::RGBA,
            ],
    {
        vec![ColorSpace::Luma, ColorSpace::LumaA, ColorSpace::RGB, ColorSpace::RGBA]
    }

    /// The depths that the encoder takes.
    pub fn supported_bit_depth(&self) -> (supported: Vec<BitDepth>)
        ensures
            supported@ == seq![BitDepth::Eight, BitDepth::Sixteen],
    {
        vec![BitDepth::Eight, BitDepth::Sixteen]
    }

    /// The depth that an image is brought to before it is encoded.
    pub fn default_depth(&self, depth: BitDepth) -> (brought: BitDepth)
        ensures
            brought == match depth {
                BitDepth::Sixteen | BitDepth::Float32 => BitDepth::Sixteen,
                _ => BitDepth::Eight,
            },
    {
        match depth {
            BitDepth::Sixteen => BitDepth::Sixteen,
            BitDepth::Float32 => BitDepth::Sixteen,
            _ => BitDepth::Eight,
        }
    }

    /// The encoder's name.
    pub fn name(&self) -> (name: &'static str)
        ensures
            name@ == "oxipng"@,
    {
        "oxipng"
    }
}

/// An image that was brought to the encoder's depth is never refused for its
/// depth.
pub proof fn law_the_default_depth_is_supported(depth: BitDepth, image: RasterView)
    requires
        image.depth == match depth {
            BitDepth::Sixteen | BitDepth::Float32 => BitDepth::Sixteen,
            _ => BitDepth::Eight,
        },
        image.width <= u32::MAX,
        image.height <= u32::MAX,
        image.frames.len() > 0,
    ensures
        png_refusal(image) is Some <==> png_layout(image.colorspace) is None,
{
}

} // verus!
