//! From a command line to an encoder, and from a file to a decoder.

use vstd::prelude::*;

use crate::cli::headers::{
    avif_dimensions, avif_extent, jpeg_dimensions, jpeg_extent, png_dimensions, png_extent,
    tiff_dimensions, tiff_extent, CONTAINER_HEADER_PROBE_BYTES, JPEG_HEADER_PROBE_BYTES,
    PNG_HEADER_PROBE_BYTES, WEBP_HEADER_PROBE_BYTES,
};
use crate::cli::jpeg::JfifDensity;
use crate::cli::threads::{requested, requested_threads};
use crate::cli::preprocess::{leading_size, side_refusal, svg_target_size, PreprocessArgs};
use crate::codecs::failures::{plain_failure, refused_decode};
use crate::codecs::oxipng::OxiPngOptions;
use crate::codecs::svg::{target_refusal, wanted_size, SvgDecoder, SvgOptions};
use crate::codecs::webp::{read_features, webp_configured, webp_features, WebPOptions};
use crate::color::{BitDepth, ColorSpace};
use crate::error::{
    classify_input, format_of_path, input_failure, input_operation_error, input_size_limit,
    path_format,
    ErrorView, FailureKind, FailureView, ImageFailure, InputView, RimageError,
};
use crate::limits::{
    at_least_one, budget_of, encoder_cost, format_of_encoder, format_of_extension, input_limits,
    lemma_extensions_are_small, size_verdict, ImageFormatId, LimitSet, MemoryReading,
    PipelineCost, SystemBudget,
};
use crate::path::{extension_of, path_extension};
use crate::text::{ascii_lowered, same_ignoring_case, same_text};

verus! {

// --- Sizing an input before it is decoded ------------------------------------
/// How much of the front of a file has to be read to learn the size of its
/// image; nothing for a format that is not sized up front.
pub open spec fn probe_length(format: ImageFormatId) -> Option<usize> {
    match format {
        ImageFormatId::Jpeg => Some(JPEG_HEADER_PROBE_BYTES),
        ImageFormatId::WebP => Some(WEBP_HEADER_PROBE_BYTES),
        ImageFormatId::Png => Some(PNG_HEADER_PROBE_BYTES),
        ImageFormatId::Avif => Some(CONTAINER_HEADER_PROBE_BYTES),
        ImageFormatId::Tiff => Some(CONTAINER_HEADER_PROBE_BYTES),
        _ => None,
    }
}

/// How much of the front of a file has to be read to learn the size of its
/// image.
pub fn probe_bytes(format: ImageFormatId) -> (length: Option<usize>)
    ensures
        length == probe_length(format),
{
    match format {
        ImageFormatId::Jpeg => Some(JPEG_HEADER_PROBE_BYTES),
        ImageFormatId::WebP => Some(WEBP_HEADER_PROBE_BYTES),
        ImageFormatId::Png => Some(PNG_HEADER_PROBE_BYTES),
        ImageFormatId::Avif => Some(CONTAINER_HEADER_PROBE_BYTES),
        ImageFormatId::Tiff => Some(CONTAINER_HEADER_PROBE_BYTES),
        _ => None,
    }
}

/// A size in wider numbers.
pub open spec fn widened(size: Option<(u32, u32)>) -> Option<(u64, u64)> {
    match size {
        Some((width, height)) => Some((width as u64, height as u64)),
        None => None,
    }
}

/// The size that the front of a file declares. `features` is what the WebP
/// header declares.
pub open spec fn declared_by(
    prefix: Seq<u8>,
    format: ImageFormatId,
    features: Option<(u32, u32)>,
) -> Option<(u64, u64)> {
    if prefix.len() == 0 {
        None
    } else {
        match format {
            ImageFormatId::Jpeg => jpeg_extent(prefix),
            ImageFormatId::WebP => widened(features),
            ImageFormatId::Png => png_extent(prefix),
            ImageFormatId::Avif => avif_extent(prefix),
            ImageFormatId::Tiff => tiff_extent(prefix),
            _ => None,
        }
    }
}

/// Reads the dimensions of an image from the front of its file. Nothing is
/// known where nothing was read.
pub fn probe_dimensions(prefix: &[u8], format: ImageFormatId) -> (size: Option<(u64, u64)>)
    ensures
        size == declared_by(prefix@, format, webp_features(prefix@)),
{
    if prefix.len() == 0 {
        return None;
    }
    match format {
        ImageFormatId::Jpeg => jpeg_dimensions(prefix),
        ImageFormatId::WebP => match read_features(prefix) {
            Some((width, height)) => Some((width as u64, height as u64)),
            None => None,
        },
        ImageFormatId::Png => png_dimensions(prefix),
        ImageFormatId::Avif => avif_dimensions(prefix),
        ImageFormatId::Tiff => tiff_dimensions(prefix),
        _ => None,
    }
}

/// The number of images that will be in flight for a `--threads` argument.
pub fn concurrency_from_env(threads: Option<u16>) -> (count: usize)
    ensures
        count == requested_threads(threads),
{
    requested(threads)
}

/// The limits for an input of a format.
pub open spec fn limits_for(
    format: ImageFormatId,
    colorspace: ColorSpace,
    threads: Option<u16>,
    reading: MemoryReading,
) -> LimitSet {
    input_limits(
        format,
        BitDepth::Eight,
        colorspace,
        budget_of(requested_threads(threads), reading),
        encoder_cost(format),
    )
}

fn limits_of(format: ImageFormatId, colorspace: ColorSpace, threads: Option<u16>, reading: MemoryReading) -> (limits:
    LimitSet)
    requires
        colorspace is RGB || colorspace is RGBA,
    ensures
        limits == limits_for(format, colorspace, threads, reading),
{
    let budget = SystemBudget::probe(concurrency_from_env(threads), reading);
    let cost = PipelineCost::for_encoder(format);
    proof {
        assert(cost.sum() <= 19);
        assert(crate::limits::pixel_bytes(BitDepth::Eight, colorspace) <= 4);
        assert(crate::limits::pixel_bytes(BitDepth::Eight, colorspace) * cost.factor() <= 76)
            by (nonlinear_arith)
            requires
                crate::limits::pixel_bytes(BitDepth::Eight, colorspace) <= 4,
                cost.factor() <= 19,
        ;
    }
    LimitSet::for_input(format, BitDepth::Eight, colorspace, &budget, cost)
}

/// The refusal of an image of a known size, if it is refused.
pub open spec fn size_refused(
    path: Seq<char>,
    size: (u64, u64),
    threads: Option<u16>,
    reading: MemoryReading,
    windows: bool,
) -> Option<ErrorView> {
    let format = path_format(path, windows);
    match size_verdict(limits_for(format, ColorSpace::RGB, threads, reading), size.0, size.1) {
        Ok(()) => None,
        Err(violation) => Some(
            ErrorView::Input(
                InputView::SizeLimit { path, format, dimensions: Some(size), violation },
            ),
        ),
    }
}

/// What a result says of an input.
pub open spec fn refusal_of(result: Result<(), RimageError>) -> Option<ErrorView> {
    match result {
        Ok(()) => None,
        Err(error) => Some(error@),
    }
}

/// Rejects an image of a known size that the machine cannot hold.
pub fn check_input_size(
    path: &str,
    size: (u64, u64),
    threads: Option<u16>,
    reading: MemoryReading,
    windows: bool,
) -> (result: Result<(), RimageError>)
    ensures
        refusal_of(result) == size_refused(path@, size, threads, reading, windows),
{
    let format = format_of_path(path, windows);
    let limits = limits_of(format, ColorSpace::RGB, threads, reading);
    match limits.check(size.0, size.1) {
        Ok(()) => Ok(()),
        Err(violation) => Err(input_size_limit(path, format, Some(size), violation)),
    }
}

/// Rejects an image whose header declares dimensions that the machine cannot
/// hold. `prefix` is the front of the file, see [`probe_bytes`]; `None` where it
/// could not be read, which decoding reports.
pub fn check_input_limits(
    path: &str,
    prefix: Option<&Vec<u8>>,
    threads: Option<u16>,
    reading: MemoryReading,
    windows: bool,
) -> (result: Result<(), RimageError>)
    ensures
        refusal_of(result) == match prefix {
            None => None,
            Some(prefix) => match declared_by(
                prefix@,
                path_format(path@, windows),
                webp_features(prefix@),
            ) {
                None => None,
                Some(size) => size_refused(path@, size, threads, reading, windows),
            },
        },
{
    let prefix = match prefix {
        Some(prefix) => prefix,
        None => {
            return Ok(());
        },
    };
    match probe_dimensions(prefix.as_slice(), format_of_path(path, windows)) {
        Some(size) => check_input_size(path, size, threads, reading, windows),
        None => Ok(()),
    }
}

/// The pixels that an SVG may be rendered to on this machine.
pub fn svg_pixel_budget(threads: Option<u16>, reading: MemoryReading) -> (budget: Option<u64>)
    ensures
        budget == Some(
            limits_for(ImageFormatId::Svg, ColorSpace::RGBA, threads, reading).max_pixels,
        ),
{
    Some(limits_of(ImageFormatId::Svg, ColorSpace::RGBA, threads, reading).max_pixels)
}

/// The render target of an SVG: what the resize values before every other
/// operation lead to, within the pixels that this machine can hold. `rounded` is
/// the intrinsic size rounded to the nearest pixel, and `intrinsic` the size
/// that the renderer uses without resizing.
pub fn svg_decoder(
    args: &PreprocessArgs,
    rounded: (usize, usize),
    intrinsic: (u32, u32),
    threads: Option<u16>,
    reading: MemoryReading,
) -> (result: Result<SvgDecoder, ImageFailure>)
    ensures
        match leading_size(*args, (at_least_one(rounded.0 as nat), at_least_one(rounded.1 as nat))) {
            Some((width, height)) if width > u32::MAX => result matches Err(failure) && failure@
                == refused_decode(side_refusal("width"@, width)),
            Some((width, height)) if height > u32::MAX => result matches Err(failure) && failure@
                == refused_decode(side_refusal("height"@, height)),
            target => {
                let options = SvgOptions {
                    target_size: match target {
                        Some((width, height)) => Some((width as u32, height as u32)),
                        None => None,
                    },
                    pixel_budget: Some(
                        limits_for(
                            ImageFormatId::Svg,
                            ColorSpace::RGBA,
                            threads,
                            reading,
                        ).max_pixels,
                    ),
                };
                match target_refusal(options, intrinsic) {
                    None => result matches Ok(decoder) && (
                        decoder.target.0 as nat,
                        decoder.target.1 as nat,
                    ) == wanted_size(options, intrinsic),
                    Some(text) => result matches Err(failure) && failure@ == refused_decode(text),
                }
            },
        },
{
    let width: usize = if rounded.0 == 0 {
        1
    } else {
        rounded.0
    };
    let height: usize = if rounded.1 == 0 {
        1
    } else {
        rounded.1
    };
    let target = svg_target_size(args, (width, height));
    SvgDecoder::try_new_with_resize_and_budget(target, intrinsic, svg_pixel_budget(threads, reading))
}

// --- Choosing a decoder ------------------------------------------------------
/// The decoders for what the main one does not know.
#[derive(Debug, Clone, Copy, PartialEq, Eq, Structural)]
pub enum Fallback {
    /// The SVG renderer.
    Svg,
    /// The AVIF decoder.
    Avif,
    /// The WebP decoder.
    WebP,
    /// The TIFF decoder.
    Tiff,
}

/// Whether a path has this extension in any case.
pub open spec fn has_extension(path: Seq<char>, extension: Seq<char>, windows: bool) -> bool {
    path_extension(path, windows) matches Some(found) && ascii_lowered(found) == ascii_lowered(
        extension,
    )
}

fn path_has_extension(path: &str, extension: &str, windows: bool) -> (has: bool)
    ensures
        has == has_extension(path@, extension@, windows),
{
    match extension_of(path, windows) {
        Some(found) => same_ignoring_case(found, extension),
        None => false,
    }
}

/// The decoder that a file goes to when the main one does not know it: an SVG by
/// its extension, an AVIF by its contents, WebP and TIFF by their extensions.
pub open spec fn fallback_of(path: Seq<char>, content_is_avif: bool, windows: bool) -> Option<
    Fallback,
> {
    if has_extension(path, "svg"@, windows) || has_extension(path, "svgz"@, windows) {
        Some(Fallback::Svg)
    } else if content_is_avif {
        Some(Fallback::Avif)
    } else if has_extension(path, "webp"@, windows) {
        Some(Fallback::WebP)
    } else if has_extension(path, "tiff"@, windows) || has_extension(path, "tif"@, windows) {
        Some(Fallback::Tiff)
    } else {
        None
    }
}

/// What to do after the main decoder failed.
#[derive(Debug)]
pub enum Retry {
    /// Hand the file to another decoder.
    With(Fallback),
    /// Report this failure.
    Fail(ImageFailure),
}

/// Decides what to do after the main decoder failed: only a file that it does
/// not know is handed to another decoder, any other failure stands.
pub fn decode_with_fallback(
    path: &str,
    error: ImageFailure,
    content_is_avif: bool,
    windows: bool,
) -> (retry: Retry)
    ensures
        match retry {
            Retry::With(fallback) => error.kind is DecoderNotImplemented && fallback_of(
                path@,
                content_is_avif,
                windows,
            ) == Some(fallback),
            Retry::Fail(failure) => if error.kind is DecoderNotImplemented {
                fallback_of(path@, content_is_avif, windows) is None && failure.kind
                    is DecoderNotImplemented && failure.text@ == "The decoder to parse Unknown has not been implemented"@
            } else {
                failure == error
            },
        },
{
    if !matches!(error.kind, FailureKind::DecoderNotImplemented) {
        return Retry::Fail(error);
    }
    if path_has_extension(path, "svg", windows) || path_has_extension(path, "svgz", windows) {
        Retry::With(Fallback::Svg)
    } else if content_is_avif {
        Retry::With(Fallback::Avif)
    } else if path_has_extension(path, "webp", windows) {
        Retry::With(Fallback::WebP)
    } else if path_has_extension(path, "tiff", windows) || path_has_extension(path, "tif", windows) {
        Retry::With(Fallback::Tiff)
    } else {
        Retry::Fail(
            ImageFailure {
                kind: FailureKind::DecoderNotImplemented,
                text: "The decoder to parse Unknown has not been implemented".to_owned(),
            },
        )
    }
}

/// Turns a decode failure into the form that is reported.
pub fn classify_decode_failure(path: &str, error: &ImageFailure, windows: bool) -> (classified:
    RimageError)
    ensures
        classified@ == input_failure(path@, error@, None, windows),
{
    match classify_input(path, error, None, windows) {
        Some(classified) => classified,
        None => {
            assert(false);
            input_operation_error(path, error, windows)
        },
    }
}

// --- Choosing an encoder -----------------------------------------------------
/// The arguments of the encoders, as the command line has them. `None` stands
/// for an argument that was not given.
#[derive(Debug)]
pub struct EncoderArgs {
    /// `--quality`.
    pub quality: Option<u8>,
    /// `--chroma_quality`.
    pub chroma_quality: Option<u8>,
    /// `--baseline`.
    pub baseline: bool,
    /// `--no_optimize_coding`.
    pub no_optimize_coding: bool,
    /// `--smoothing`.
    pub smoothing: Option<u8>,
    /// `--colorspace`.
    pub colorspace: Option<String>,
    /// `--multipass`.
    pub multipass: bool,
    /// `--subsample`.
    pub subsample: Option<u8>,
    /// `--qtable`.
    pub qtable: Option<String>,
    /// `--effort`.
    pub effort: Option<u8>,
    /// `--interlace`.
    pub interlace: bool,
    /// `--alpha_quality`.
    pub alpha_quality: Option<u8>,
    /// `--speed`.
    pub speed: Option<u8>,
    /// `--alpha_mode`.
    pub alpha_mode: Option<String>,
    /// `--lossless`.
    pub lossless: bool,
    /// `--slight_loss`.
    pub slight_loss: Option<u8>,
    /// `--exact`.
    pub exact: bool,
}

impl Default for EncoderArgs {
    fn default() -> (args: Self)
        ensures
            args == no_arguments(),
    {
        EncoderArgs {
            quality: None,
            chroma_quality: None,
            baseline: false,
            no_optimize_coding: false,
            smoothing: None,
            colorspace: None,
            multipass: false,
            subsample: None,
            qtable: None,
            effort: None,
            interlace: false,
            alpha_quality: None,
            speed: None,
            alpha_mode: None,
            lossless: false,
            slight_loss: None,
            exact: false,
        }
    }
}

/// A command line without arguments for the encoder.
pub open spec fn no_arguments() -> EncoderArgs {
    EncoderArgs {
        quality: None,
        chroma_quality: None,
        baseline: false,
        no_optimize_coding: false,
        smoothing: None,
        colorspace: None,
        multipass: false,
        subsample: None,
        qtable: None,
        effort: None,
        interlace: false,
        alpha_quality: None,
        speed: None,
        alpha_mode: None,
        lossless: false,
        slight_loss: None,
        exact: false,
    }
}

/// The colours that a JPEG stores.
#[derive(Debug, Clone, Copy, PartialEq, Eq, Structural)]
pub enum JpegColors {
    /// Luma and chroma.
    YCbCr,
    /// Red, green, blue.
    RGB,
    /// Grey.
    Grayscale,
}

/// The quantization tables that MozJPEG has.
#[derive(Debug, Clone, Copy, PartialEq, Eq, Structural)]
pub enum QuantTable {
    /// The table of that name.
    AhumadaWatsonPeterson,
    /// The table of that name for luma.
    AnnexKLuma,
    /// The table of that name for chroma.
    AnnexKChroma,
    /// The table of that name.
    Flat,
    /// The table of that name.
    KleinSilversteinCarney,
    /// The table of that name for luma.
    MSSSIMLuma,
    /// The table of that name for chroma.
    MSSSIMChroma,
    /// The table of that name.
    NRobidoux,
    /// The table of that name for luma.
    PSNRHVSLuma,
    /// The table of that name for chroma.
    PSNRHVSChroma,
    /// The table of that name.
    PetersonAhumadaWatson,
    /// The table of that name.
    WatsonTaylorBorthwick,
}

/// A quantization table at a quality.
#[derive(Debug, Clone, Copy, PartialEq, Eq, Structural)]
pub struct ScaledTable {
    /// The table.
    pub table: QuantTable,
    /// The quality it is scaled to, for both ends of the scale.
    pub quality: u8,
}

/// What pixel densities count.
#[derive(Debug, Clone, Copy, PartialEq, Eq, Structural)]
pub enum DensityUnit {
    /// Only the ratio matters.
    PixelAspectRatio,
    /// Pixels per inch.
    Inches,
    /// Pixels per centimetre.
    Centimeters,
}

/// The density that a JPEG declares.
#[derive(Debug, Clone, Copy, PartialEq, Eq, Structural)]
pub struct PixelDensity {
    /// What the densities count.
    pub unit: DensityUnit,
    /// Horizontal density.
    pub x: u16,
    /// Vertical density.
    pub y: u16,
}

/// How MozJPEG encodes.
#[derive(Debug, Clone, Copy, PartialEq, Eq)]
pub struct MozJpegOptions {
    /// From 1 to 100.
    pub quality: u8,
    /// Whether the scans refine each other.
    pub progressive: bool,
    /// Whether the entropy coding is optimised.
    pub optimize_coding: bool,
    /// How strongly the input is smoothed.
    pub smoothing: u8,
    /// The colours that are stored.
    pub color_space: JpegColors,
    /// Whether trellis quantization considers several scans.
    pub trellis_multipass: bool,
    /// The chroma sampling factor; `None` leaves the choice to the encoder.
    pub chroma_subsample: Option<u8>,
    /// The table for luma; `None` leaves the choice to the encoder.
    pub luma_qtable: Option<ScaledTable>,
    /// The table for chroma; `None` leaves the choice to the encoder.
    pub chroma_qtable: Option<ScaledTable>,
    /// The density that the file declares.
    pub pixel_density: Option<PixelDensity>,
}

/// The colours that an AVIF stores.
#[derive(Debug, Clone, Copy, PartialEq, Eq, Structural)]
pub enum AvifColors {
    /// Luma and chroma.
    YCbCr,
    /// Red, green, blue.
    RGB,
}

/// What becomes of the colours of transparent pixels.
#[derive(Debug, Clone, Copy, PartialEq, Eq, Structural)]
pub enum AvifAlpha {
    /// They are kept.
    UnassociatedDirty,
    /// They are cleared.
    UnassociatedClean,
    /// They are multiplied by alpha.
    Premultiplied,
}

/// How an AVIF is encoded.
#[derive(Debug, Clone, Copy, PartialEq, Eq)]
pub struct AvifOptions {
    /// From 1 to 100.
    pub quality: u8,
    /// The quality of alpha; `None` leaves the choice to the encoder.
    pub alpha_quality: Option<u8>,
    /// From 1, the slowest, to 10.
    pub speed: u8,
    /// The colours that are stored.
    pub color_space: AvifColors,
    /// What becomes of the colours of transparent pixels.
    pub alpha_color_mode: AvifAlpha,
}

/// An encoder and how it is set up.
#[derive(Debug, Clone, Copy, PartialEq, Eq)]
pub enum AvailableEncoders {
    /// Farbfeld.
    FarbFeld,
    /// JPEG, at the encoder's defaults: its options are values that a setter
    /// returns changed, and the quality and scan arguments do not reach it.
    Jpeg,
    /// JPEG XL.
    JpegXl,
    /// JPEG by MozJPEG.
    MozJpeg(MozJpegOptions),
    /// Optimised PNG.
    OxiPng(OxiPngOptions),
    /// AVIF.
    Avif(AvifOptions),
    /// WebP.
    Webp(WebPOptions),
    /// PNG.
    Png,
    /// PPM.
    Ppm,
    /// QOI.
    Qoi,
}

impl AvailableEncoders {
    /// The extension of the files it writes.
    pub open spec fn extension(self) -> Seq<char> {
        match self {
            AvailableEncoders::FarbFeld => "ff"@,
            AvailableEncoders::Jpeg => "jpg"@,
            AvailableEncoders::JpegXl => "jxl"@,
            AvailableEncoders::MozJpeg(_) => "jpg"@,
            AvailableEncoders::OxiPng(_) => "png"@,
            AvailableEncoders::Avif(_) => "avif"@,
            AvailableEncoders::Webp(_) => "webp"@,
            AvailableEncoders::Png => "png"@,
            AvailableEncoders::Ppm => "ppm"@,
            AvailableEncoders::Qoi => "qoi"@,
        }
    }

    /// The extension of the files it writes.
    pub fn to_extension(&self) -> (extension: &'static str)
        ensures
            extension@ == self.extension(),
    {
        match self {
            AvailableEncoders::FarbFeld => "ff",
            AvailableEncoders::Jpeg => "jpg",
            AvailableEncoders::JpegXl => "jxl",
            AvailableEncoders::MozJpeg(_) => "jpg",
            AvailableEncoders::OxiPng(_) => "png",
            AvailableEncoders::Avif(_) => "avif",
            AvailableEncoders::Webp(_) => "webp",
            AvailableEncoders::Png => "png",
            AvailableEncoders::Ppm => "ppm",
            AvailableEncoders::Qoi => "qoi",
        }
    }

    /// Carries the density of a source file over, where the encoder can declare
    /// one and its unit is known.
    pub fn set_jfif_density(&mut self, density: Option<JfifDensity>)
        ensures
            *final(self) == with_density(*old(self), density),
    {
        let density = match density {
            Some(density) => density,
            None => {
                return;
            },
        };
        if let AvailableEncoders::MozJpeg(options) = *self {
            let unit = if density.unit == 0 {
                DensityUnit::PixelAspectRatio
            } else if density.unit == 1 {
                DensityUnit::Inches
            } else if density.unit == 2 {
                DensityUnit::Centimeters
            } else {
                return;
            };
            let mut changed = options;
            changed.pixel_density = Some(
                PixelDensity { unit, x: density.x_density, y: density.y_density },
            );
            *self = AvailableEncoders::MozJpeg(changed);
        }
    }
}

/// The unit that a JFIF segment's number stands for, if it is known.
pub open spec fn density_unit(unit: u8) -> Option<DensityUnit> {
    if unit == 0 {
        Some(DensityUnit::PixelAspectRatio)
    } else if unit == 1 {
        Some(DensityUnit::Inches)
    } else if unit == 2 {
        Some(DensityUnit::Centimeters)
    } else {
        None
    }
}

/// The encoder with the density of a source file.
pub open spec fn with_density(encoder: AvailableEncoders, density: Option<JfifDensity>) -> AvailableEncoders {
    match (encoder, density) {
        (AvailableEncoders::MozJpeg(options), Some(density)) => match density_unit(density.unit) {
            Some(unit) => AvailableEncoders::MozJpeg(
                MozJpegOptions {
                    pixel_density: Some(
                        PixelDensity { unit, x: density.x_density, y: density.y_density },
                    ),
                    ..options
                },
            ),
            None => encoder,
        },
        _ => encoder,
    }
}

/// A number that was given, or else a default.
pub open spec fn given_or(given: Option<u8>, default: u8) -> u8 {
    match given {
        Some(given) => given,
        None => default,
    }
}

/// A text that was given, or else a default.
pub open spec fn text_or(given: Option<String>, default: Seq<char>) -> Seq<char> {
    match given {
        Some(given) => given@,
        None => default,
    }
}

/// The luma and the chroma table of a name, if there are any.
pub open spec fn tables_named(name: Seq<char>) -> Option<(QuantTable, QuantTable)> {
    if name == "AhumadaWatsonPeterson"@ {
        Some((QuantTable::AhumadaWatsonPeterson, QuantTable::AhumadaWatsonPeterson))
    } else if name == "AnnexK"@ {
        Some((QuantTable::AnnexKLuma, QuantTable::AnnexKChroma))
    } else if name == "Flat"@ {
        Some((QuantTable::Flat, QuantTable::Flat))
    } else if name == "KleinSilversteinCarney"@ {
        Some((QuantTable::KleinSilversteinCarney, QuantTable::KleinSilversteinCarney))
    } else if name == "MSSSIM"@ {
        Some((QuantTable::MSSSIMLuma, QuantTable::MSSSIMChroma))
    } else if name == "NRobidoux"@ {
        Some((QuantTable::NRobidoux, QuantTable::NRobidoux))
    } else if name == "PSNRHVS"@ {
        Some((QuantTable::PSNRHVSLuma, QuantTable::PSNRHVSChroma))
    } else if name == "PetersonAhumadaWatson"@ {
        Some((QuantTable::PetersonAhumadaWatson, QuantTable::PetersonAhumadaWatson))
    } else if name == "WatsonTaylorBorthwick"@ {
        Some((QuantTable::WatsonTaylorBorthwick, QuantTable::WatsonTaylorBorthwick))
    } else {
        None
    }
}

/// The luma and the chroma table of a name.
pub fn quant_tables(name: &str) -> (tables: Option<(QuantTable, QuantTable)>)
    ensures
        tables == tables_named(name@),
{
    if same_text(name, "AhumadaWatsonPeterson") {
        Some((QuantTable::AhumadaWatsonPeterson, QuantTable::AhumadaWatsonPeterson))
    } else if same_text(name, "AnnexK") {
        Some((QuantTable::AnnexKLuma, QuantTable::AnnexKChroma))
    } else if same_text(name, "Flat") {
        Some((QuantTable::Flat, QuantTable::Flat))
    } else if same_text(name, "KleinSilversteinCarney") {
        Some((QuantTable::KleinSilversteinCarney, QuantTable::KleinSilversteinCarney))
    } else if same_text(name, "MSSSIM") {
        Some((QuantTable::MSSSIMLuma, QuantTable::MSSSIMChroma))
    } else if same_text(name, "NRobidoux") {
        Some((QuantTable::NRobidoux, QuantTable::NRobidoux))
    } else if same_text(name, "PSNRHVS") {
        Some((QuantTable::PSNRHVSLuma, QuantTable::PSNRHVSChroma))
    } else if same_text(name, "PetersonAhumadaWatson") {
        Some((QuantTable::PetersonAhumadaWatson, QuantTable::PetersonAhumadaWatson))
    } else if same_text(name, "WatsonTaylorBorthwick") {
        Some((QuantTable::WatsonTaylorBorthwick, QuantTable::WatsonTaylorBorthwick))
    } else {
        None
    }
}

/// The colours of a name, if a JPEG can store them.
pub open spec fn jpeg_colors_named(name: Seq<char>) -> Option<JpegColors> {
    if name == "ycbcr"@ {
        Some(JpegColors::YCbCr)
    } else if name == "rgb"@ {
        Some(JpegColors::RGB)
    } else if name == "grayscale"@ {
        Some(JpegColors::Grayscale)
    } else {
        None
    }
}

/// The MozJPEG options of a command line, or what is wrong with it. The colours
/// are judged before the table.
pub open spec fn mozjpeg_plan(args: EncoderArgs) -> Result<MozJpegOptions, Seq<char>> {
    let quality = given_or(args.quality, 75);
    let chroma_quality = given_or(args.chroma_quality, quality);
    let colors = text_or(args.colorspace, "ycbcr"@);
    match jpeg_colors_named(colors) {
        None => Err("Unsupported mozjpeg colorspace: "@ + colors),
        Some(color_space) => {
            let options = MozJpegOptions {
                quality,
                progressive: !args.baseline,
                optimize_coding: !args.no_optimize_coding,
                smoothing: given_or(args.smoothing, 0),
                color_space,
                trellis_multipass: args.multipass,
                chroma_subsample: args.subsample,
                luma_qtable: None,
                chroma_qtable: None,
                pixel_density: None,
            };
            match args.qtable {
                None => Ok(options),
                Some(name) => match tables_named(name@) {
                    None => Err("Unknown qtable: "@ + name@),
                    Some((luma, chroma)) => Ok(
                        MozJpegOptions {
                            luma_qtable: Some(ScaledTable { table: luma, quality }),
                            chroma_qtable: Some(
                                ScaledTable { table: chroma, quality: chroma_quality },
                            ),
                            ..options
                        },
                    ),
                },
            }
        },
    }
}

/// The AVIF options of a command line, or what is wrong with it. The colours are
/// judged before the alpha mode.
pub open spec fn avif_plan(args: EncoderArgs) -> Result<AvifOptions, Seq<char>> {
    let colors = text_or(args.colorspace, "ycbcr"@);
    let mode = text_or(args.alpha_mode, "UnassociatedClean"@);
    if colors != "ycbcr"@ && colors != "rgb"@ {
        Err("Unsupported avif colorspace: "@ + colors)
    } else if mode != "UnassociatedDirty"@ && mode != "UnassociatedClean"@ && mode
        != "Premultiplied"@ {
        Err("Unsupported avif alpha mode: "@ + mode)
    } else {
        Ok(
            AvifOptions {
                quality: given_or(args.quality, 50),
                alpha_quality: args.alpha_quality,
                speed: given_or(args.speed, 6),
                color_space: if colors == "ycbcr"@ {
                    AvifColors::YCbCr
                } else {
                    AvifColors::RGB
                },
                alpha_color_mode: if mode == "UnassociatedDirty"@ {
                    AvifAlpha::UnassociatedDirty
                } else if mode == "UnassociatedClean"@ {
                    AvifAlpha::UnassociatedClean
                } else {
                    AvifAlpha::Premultiplied
                },
            },
        )
    }
}

/// The WebP options of a command line.
pub open spec fn webp_plan(args: EncoderArgs) -> WebPOptions {
    WebPOptions {
        quality: given_or(args.quality, 75),
        lossless: args.lossless,
        near_lossless: (100 - given_or(args.slight_loss, 0)) as i32,
        exact: args.exact,
    }
}

/// The encoder of a command line, or what is wrong with it. `webp_ready` says
/// whether the WebP encoder's configuration can be initialised.
pub open spec fn encoder_plan(name: Seq<char>, args: EncoderArgs, webp_ready: bool) -> Result<
    AvailableEncoders,
    Seq<char>,
> {
    if name == "farbfeld"@ {
        Ok(AvailableEncoders::FarbFeld)
    } else if name == "jpeg"@ {
        Ok(AvailableEncoders::Jpeg)
    } else if name == "jpeg_xl"@ {
        Ok(AvailableEncoders::JpegXl)
    } else if name == "mozjpeg"@ {
        match mozjpeg_plan(args) {
            Ok(options) => Ok(AvailableEncoders::MozJpeg(options)),
            Err(problem) => Err(problem),
        }
    } else if name == "oxipng"@ {
        Ok(
            AvailableEncoders::OxiPng(
                OxiPngOptions {
                    preset: given_or(args.effort, 2),
                    interlace: if args.interlace {
                        Some(true)
                    } else {
                        None
                    },
                },
            ),
        )
    } else if name == "avif"@ {
        match avif_plan(args) {
            Ok(options) => Ok(AvailableEncoders::Avif(options)),
            Err(problem) => Err(problem),
        }
    } else if name == "webp"@ {
        if webp_ready {
            Ok(AvailableEncoders::Webp(webp_plan(args)))
        } else {
            Err("libwebp encoder configuration failed to initialize"@)
        }
    } else if name == "png"@ {
        Ok(AvailableEncoders::Png)
    } else if name == "ppm"@ {
        Ok(AvailableEncoders::Ppm)
    } else if name == "qoi"@ {
        Ok(AvailableEncoders::Qoi)
    } else {
        Err("Encoder \""@ + name + "\" not found"@)
    }
}

/// An encoder or a failure by its contents.
pub open spec fn plan_view<T>(result: Result<T, ImageFailure>) -> Result<T, FailureView> {
    match result {
        Ok(value) => Ok(value),
        Err(failure) => Err(failure@),
    }
}

/// A plan whose problem is reported as a failure of no particular kind.
pub open spec fn reported<T>(plan: Result<T, Seq<char>>) -> Result<T, FailureView> {
    match plan {
        Ok(value) => Ok(value),
        Err(problem) => Err(plain_failure(problem)),
    }
}

fn number_or(given: Option<u8>, default: u8) -> (number: u8)
    ensures
        number == given_or(given, default),
{
    match given {
        Some(given) => given,
        None => default,
    }
}

fn str_or<'a>(given: &'a Option<String>, default: &'a str) -> (text: &'a str)
    ensures
        text@ == text_or(*given, default@),
{
    match given {
        Some(given) => given.as_str(),
        None => default,
    }
}

fn problem(start: &str, subject: &str) -> (failure: ImageFailure)
    ensures
        failure@ == plain_failure(start@ + subject@),
{
    let mut text = start.to_owned();
    text.append(subject);
    ImageFailure::other(text)
}

/// The MozJPEG options of a command line.
pub fn mozjpeg_options(args: &EncoderArgs) -> (result: Result<MozJpegOptions, ImageFailure>)
    ensures
        plan_view(result) == reported(mozjpeg_plan(*args)),
{
    let quality: u8 = number_or(args.quality, 75);
    let chroma_quality: u8 = number_or(args.chroma_quality, quality);
    let colors = str_or(&args.colorspace, "ycbcr");
    let color_space = if same_text(colors, "ycbcr") {
        JpegColors::YCbCr
    } else if same_text(colors, "rgb") {
        JpegColors::RGB
    } else if same_text(colors, "grayscale") {
        JpegColors::Grayscale
    } else {
        return Err(problem("Unsupported mozjpeg colorspace: ", colors));
    };
    let (luma_qtable, chroma_qtable) = match &args.qtable {
        None => (None, None),
        Some(name) => match quant_tables(name.as_str()) {
            Some((luma, chroma)) => (
                Some(ScaledTable { table: luma, quality }),
                Some(ScaledTable { table: chroma, quality: chroma_quality }),
            ),
            None => {
                return Err(problem("Unknown qtable: ", name.as_str()));
            },
        },
    };
    Ok(
        MozJpegOptions {
            quality,
            progressive: !args.baseline,
            optimize_coding: !args.no_optimize_coding,
            smoothing: number_or(args.smoothing, 0),
            color_space,
            trellis_multipass: args.multipass,
            chroma_subsample: args.subsample,
            luma_qtable,
            chroma_qtable,
            pixel_density: None,
        },
    )
}

/// The AVIF options of a command line.
pub fn avif_options(args: &EncoderArgs) -> (result: Result<AvifOptions, ImageFailure>)
    ensures
        plan_view(result) == reported(avif_plan(*args)),
{
    let colors = str_or(&args.colorspace, "ycbcr");
    let mode = str_or(&args.alpha_mode, "UnassociatedClean");
    let color_space = if same_text(colors, "ycbcr") {
        AvifColors::YCbCr
    } else if same_text(colors, "rgb") {
        AvifColors::RGB
    } else {
        return Err(problem("Unsupported avif colorspace: ", colors));
    };
    let alpha_color_mode = if same_text(mode, "UnassociatedDirty") {
        AvifAlpha::UnassociatedDirty
    } else if same_text(mode, "UnassociatedClean") {
        AvifAlpha::UnassociatedClean
    } else if same_text(mode, "Premultiplied") {
        AvifAlpha::Premultiplied
    } else {
        return Err(problem("Unsupported avif alpha mode: ", mode));
    };
    Ok(
        AvifOptions {
            quality: number_or(args.quality, 50),
            alpha_quality: args.alpha_quality,
            speed: number_or(args.speed, 6),
            color_space,
            alpha_color_mode,
        },
    )
}

/// The encoder of a name and its arguments, given whether the WebP encoder's
/// configuration can be initialised.
pub fn encoder_with(name: &str, args: &EncoderArgs, webp_ready: bool) -> (result: Result<
    AvailableEncoders,
    ImageFailure,
>)
    ensures
        plan_view(result) == reported(encoder_plan(name@, *args, webp_ready)),
{
    if same_text(name, "farbfeld") {
        Ok(AvailableEncoders::FarbFeld)
    } else if same_text(name, "jpeg") {
        Ok(AvailableEncoders::Jpeg)
    } else if same_text(name, "jpeg_xl") {
        Ok(AvailableEncoders::JpegXl)
    } else if same_text(name, "mozjpeg") {
        match mozjpeg_options(args) {
            Ok(options) => Ok(AvailableEncoders::MozJpeg(options)),
            Err(failure) => Err(failure),
        }
    } else if same_text(name, "oxipng") {
        let mut options = OxiPngOptions::from_preset(number_or(args.effort, 2));
        options.interlace = if args.interlace {
            Some(true)
        } else {
            None
        };
        Ok(AvailableEncoders::OxiPng(options))
    } else if same_text(name, "avif") {
        match avif_options(args) {
            Ok(options) => Ok(AvailableEncoders::Avif(options)),
            Err(failure) => Err(failure),
        }
    } else if same_text(name, "webp") {
        if !webp_ready {
            return Err(
                ImageFailure::other(
                    "libwebp encoder configuration failed to initialize".to_owned(),
                ),
            );
        }
        let slight_loss: u8 = number_or(args.slight_loss, 0);
        Ok(
            AvailableEncoders::Webp(
                WebPOptions {
                    quality: number_or(args.quality, 75),
                    lossless: args.lossless,
                    near_lossless: 100 - slight_loss as i32,
                    exact: args.exact,
                },
            ),
        )
    } else if same_text(name, "png") {
        Ok(AvailableEncoders::Png)
    } else if same_text(name, "ppm") {
        Ok(AvailableEncoders::Ppm)
    } else if same_text(name, "qoi") {
        Ok(AvailableEncoders::Qoi)
    } else {
        let mut text = "Encoder \"".to_owned();
        text.append(name);
        text.append("\" not found");
        Err(ImageFailure::other(text))
    }
}

/// The encoder of a name and its arguments. Only the WebP encoder depends on
/// anything else: whether its configuration can be initialised.
pub fn encoder(name: &str, args: &EncoderArgs) -> (result: Result<AvailableEncoders, ImageFailure>)
    ensures
        exists|webp_ready: bool|
            {
                &&& name@ == "webp"@ ==> webp_configured(webp_ready)
                &&& plan_view(result) == reported(#[trigger] encoder_plan(name@, *args, webp_ready))
            },
        name@ != "webp"@ ==> plan_view(result) == reported(encoder_plan(name@, *args, true)),
{
    let webp_ready = if same_text(name, "webp") {
        WebPOptions::new().is_ok()
    } else {
        true
    };
    encoder_with(name, args, webp_ready)
}

// --- Laws --------------------------------------------------------------------
/// A density changes nothing but the density, and that only of an encoder that
/// can declare one; the same density twice is the same density.
pub proof fn law_a_density_changes_only_the_density(encoder: AvailableEncoders, density: Option<JfifDensity>)
    ensures
        with_density(encoder, density).extension() == encoder.extension(),
        !(encoder is MozJpeg) ==> with_density(encoder, density) == encoder,
        encoder matches AvailableEncoders::MozJpeg(options) ==> (with_density(encoder, density)
            matches AvailableEncoders::MozJpeg(changed) && (MozJpegOptions {
            pixel_density: options.pixel_density,
            ..changed
        }) == options),
        with_density(with_density(encoder, density), density) == with_density(encoder, density),
{
}

/// A density without a known unit is ignored, as is one that is not there.
pub proof fn law_an_unknown_unit_is_ignored(encoder: AvailableEncoders, density: JfifDensity)
    requires
        density.unit > 2,
    ensures
        with_density(encoder, Some(density)) == encoder,
        with_density(encoder, None) == encoder,
{
}

/// A file goes to another decoder by its extension in any case; the contents
/// decide only for AVIF, and only where the extension does not say SVG.
pub proof fn law_the_fallback_ignores_case(
    a: Seq<char>,
    b: Seq<char>,
    content_is_avif: bool,
    windows: bool,
)
    requires
        path_extension(a, windows) is Some <==> path_extension(b, windows) is Some,
        path_extension(a, windows) is Some ==> ascii_lowered(path_extension(a, windows)->0)
            == ascii_lowered(path_extension(b, windows)->0),
    ensures
        fallback_of(a, content_is_avif, windows) == fallback_of(b, content_is_avif, windows),
{
}

proof fn lemma_other_extension(extension: Seq<char>)
    requires
        extension == "ff"@ || extension == "jxl"@ || extension == "ppm"@ || extension == "qoi"@,
    ensures
        format_of_extension(extension) is Other,
{
    reveal_strlit("ff");
    reveal_strlit("jxl");
    reveal_strlit("ppm");
    reveal_strlit("qoi");
    reveal_strlit("jpg");
    reveal_strlit("jpeg");
    reveal_strlit("png");
    reveal_strlit("webp");
    reveal_strlit("avif");
    reveal_strlit("tif");
    reveal_strlit("tiff");
    reveal_strlit("svg");
    reveal_strlit("svgz");
    let small = ascii_lowered(extension);
    assert(small =~= extension);
    assert("jpg"@[1] == 'p' && "png"@[1] == 'n' && "tif"@[1] == 'i' && "svg"@[1] == 'v');
    assert("jxl"@[1] == 'x' && "ppm"@[1] == 'p' && "qoi"@[1] == 'o');
    assert("ppm"@[0] == 'p' && "jpg"@[0] == 'j');
}

/// An encoder writes files whose extension names the format that the encoder's
/// own name stands for, so both lead to the same limits.
pub proof fn law_the_extension_names_the_encoder_format(name: Seq<char>, args: EncoderArgs, webp_ready: bool)
    ensures
        encoder_plan(name, args, webp_ready) matches Ok(encoder) ==> format_of_extension(
            encoder.extension(),
        ) == format_of_encoder(name),
{
    lemma_extensions_are_small();
    lemma_other_extension("ff"@);
    lemma_other_extension("jxl"@);
    lemma_other_extension("ppm"@);
    lemma_other_extension("qoi"@);
    reveal_strlit("jpg");
    reveal_strlit("jpeg");
    reveal_strlit("png");
    reveal_strlit("webp");
    reveal_strlit("avif");
    reveal_strlit("mozjpeg");
    reveal_strlit("oxipng");
    reveal_strlit("farbfeld");
    reveal_strlit("jpeg_xl");
    reveal_strlit("ppm");
    reveal_strlit("qoi");
    reveal_strlit("tiff");
    assert("jpg"@.len() == 3 && "png"@.len() == 3 && "ppm"@.len() == 3 && "qoi"@.len() == 3);
    assert("jpeg"@.len() == 4 && "webp"@.len() == 4 && "avif"@.len() == 4 && "tiff"@.len() == 4);
    assert("mozjpeg"@.len() == 7 && "jpeg_xl"@.len() == 7 && "oxipng"@.len() == 6
        && "farbfeld"@.len() == 8);
    assert("avif"@[0] == 'a' && "webp"@[0] == 'w' && "jpeg"@[0] == 'j' && "tiff"@[0] == 't');
    assert("mozjpeg"@[0] == 'm' && "jpeg_xl"@[0] == 'j');
    assert("jpg"@[0] == 'j' && "png"@[0] == 'p' && "png"@[1] == 'n' && "ppm"@[1] == 'p'
        && "qoi"@[0] == 'q');
    assert(format_of_extension("jpg"@) is Jpeg && format_of_extension("png"@) is Png);
    assert(format_of_extension("webp"@) is WebP && format_of_extension("avif"@) is Avif);
}

/// A format that is not sized up front, and a file of which nothing was read,
/// declare no size, so they are never refused for it.
pub proof fn law_an_unsized_input_is_never_refused(prefix: Seq<u8>, format: ImageFormatId, features: Option<
    (u32, u32),
>)
    requires
        probe_length(format) is None || prefix.len() == 0,
    ensures
        declared_by(prefix, format, features) is None,
{
}

} // verus!
