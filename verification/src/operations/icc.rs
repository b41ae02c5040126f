//! Colour profiles: which conversions exist, and what they do to an image.

use lcms2::{ColorSpaceSignature, Flags, Intent, PixelFormat, Profile, Transform};
use vstd::prelude::*;

use crate::codecs::failures::plain_failure;
use crate::color::{BitDepth, ColorSpace};
use crate::error::{FailureView, ImageFailure};
use crate::raster::{
    bytes_of, frames_of, from_bytes, stored, to_bytes, Frame, FrameView, Raster, RasterView,
    Samples, SamplesView,
};
use crate::text::{decimal, push_decimal};

verus! {

/// The colours that a profile describes.
#[derive(Debug, PartialEq, Eq)]
pub enum ProfileSpace {
    /// Red, green, blue.
    Rgb,
    /// Grey.
    Gray,
    /// Cyan, magenta, yellow, key.
    Cmyk,
    /// Luma and chroma.
    YCbCr,
    /// Hue, saturation, value.
    Hsv,
    /// Anything else, by its name.
    Other(String),
}

/// A [`ProfileSpace`] by its contents.
pub enum SpaceView {
    /// See [`ProfileSpace::Rgb`].
    Rgb,
    /// See [`ProfileSpace::Gray`].
    Gray,
    /// See [`ProfileSpace::Cmyk`].
    Cmyk,
    /// See [`ProfileSpace::YCbCr`].
    YCbCr,
    /// See [`ProfileSpace::Hsv`].
    Hsv,
    /// See [`ProfileSpace::Other`].
    Other(Seq<char>),
}

impl View for ProfileSpace {
    type V = SpaceView;

    open spec fn view(&self) -> SpaceView {
        match self {
            ProfileSpace::Rgb => SpaceView::Rgb,
            ProfileSpace::Gray => SpaceView::Gray,
            ProfileSpace::Cmyk => SpaceView::Cmyk,
            ProfileSpace::YCbCr => SpaceView::YCbCr,
            ProfileSpace::Hsv => SpaceView::Hsv,
            ProfileSpace::Other(name) => SpaceView::Other(name@),
        }
    }
}

impl SpaceView {
    /// The name that messages use.
    pub open spec fn named(self) -> Seq<char> {
        match self {
            SpaceView::Rgb => "RgbData"@,
            SpaceView::Gray => "GrayData"@,
            SpaceView::Cmyk => "CmykData"@,
            SpaceView::YCbCr => "YCbCrData"@,
            SpaceView::Hsv => "HsvData"@,
            SpaceView::Other(name) => name,
        }
    }
}

impl ProfileSpace {
    /// The name that messages use.
    pub fn label(&self) -> (name: &str)
        ensures
            name@ == self@.named(),
    {
        match self {
            ProfileSpace::Rgb => "RgbData",
            ProfileSpace::Gray => "GrayData",
            ProfileSpace::Cmyk => "CmykData",
            ProfileSpace::YCbCr => "YCbCrData",
            ProfileSpace::Hsv => "HsvData",
            ProfileSpace::Other(name) => name.as_str(),
        }
    }
}

/// The profile colours that pixels of a colour space are described by, if a
/// profile can describe them.
pub open spec fn space_of(colorspace: ColorSpace) -> Option<SpaceView> {
    match colorspace {
        ColorSpace::RGB
        | ColorSpace::RGBA
        | ColorSpace::BGR
        | ColorSpace::BGRA
        | ColorSpace::ARGB => Some(SpaceView::Rgb),
        ColorSpace::Luma | ColorSpace::LumaA => Some(SpaceView::Gray),
        ColorSpace::CMYK => Some(SpaceView::Cmyk),
        ColorSpace::YCbCr => Some(SpaceView::YCbCr),
        ColorSpace::HSV => Some(SpaceView::Hsv),
        _ => None,
    }
}

/// A profile's colours by their contents.
pub open spec fn optional_space(space: Option<ProfileSpace>) -> Option<SpaceView> {
    match space {
        Some(space) => Some(space@),
        None => None,
    }
}

/// The profile colours that pixels of a colour space are described by.
pub fn profile_signature_for_colorspace(colorspace: ColorSpace) -> (space: Option<ProfileSpace>)
    ensures
        optional_space(space) == space_of(colorspace),
{
    match colorspace {
        ColorSpace::RGB => Some(ProfileSpace::Rgb),
        ColorSpace::RGBA => Some(ProfileSpace::Rgb),
        ColorSpace::BGR => Some(ProfileSpace::Rgb),
        ColorSpace::BGRA => Some(ProfileSpace::Rgb),
        ColorSpace::ARGB => Some(ProfileSpace::Rgb),
        ColorSpace::Luma => Some(ProfileSpace::Gray),
        ColorSpace::LumaA => Some(ProfileSpace::Gray),
        ColorSpace::CMYK => Some(ProfileSpace::Cmyk),
        ColorSpace::YCbCr => Some(ProfileSpace::YCbCr),
        ColorSpace::HSV => Some(ProfileSpace::Hsv),
        _ => None,
    }
}

/// The colour space of the pixels that a conversion to a profile gives, if
/// there is one; with alpha where it is to be kept and the space has a form
/// with alpha.
pub open spec fn destination_of(space: SpaceView, preserve_alpha: bool) -> Option<ColorSpace> {
    match space {
        SpaceView::Rgb => Some(
            if preserve_alpha {
                ColorSpace::RGBA
            } else {
                ColorSpace::RGB
            },
        ),
        SpaceView::Gray => Some(
            if preserve_alpha {
                ColorSpace::LumaA
            } else {
                ColorSpace::Luma
            },
        ),
        SpaceView::Cmyk => Some(ColorSpace::CMYK),
        SpaceView::YCbCr => Some(ColorSpace::YCbCr),
        SpaceView::Hsv => Some(ColorSpace::HSV),
        SpaceView::Other(_) => None,
    }
}

/// The colour space of the pixels that a conversion to a profile gives.
pub fn destination_colorspace(space: &ProfileSpace, preserve_alpha: bool) -> (colorspace: Option<
    ColorSpace,
>)
    ensures
        colorspace == destination_of(space@, preserve_alpha),
{
    match space {
        ProfileSpace::Rgb => Some(
            if preserve_alpha {
                ColorSpace::RGBA
            } else {
                ColorSpace::RGB
            },
        ),
        ProfileSpace::Gray => Some(
            if preserve_alpha {
                ColorSpace::LumaA
            } else {
                ColorSpace::Luma
            },
        ),
        ProfileSpace::Cmyk => Some(ColorSpace::CMYK),
        ProfileSpace::YCbCr => Some(ColorSpace::YCbCr),
        ProfileSpace::Hsv => Some(ColorSpace::HSV),
        ProfileSpace::Other(_) => None,
    }
}

/// The number by which the colour engine knows a pixel layout: its colours,
/// whether the first sample is moved to the end, whether the order is reversed,
/// the samples that are no colour, those that are, and the bytes of each.
pub open spec fn layout_code(
    colors: u32,
    first: u32,
    reversed: u32,
    extra: u32,
    channels: u32,
    bytes: u32,
) -> u32 {
    (colors * 65536 + first * 16384 + reversed * 1024 + extra * 128 + channels * 8 + bytes) as u32
}

/// The number of the layout of a colour space with samples of so many bytes, if
/// the engine has one.
pub open spec fn engine_format(colorspace: ColorSpace, bytes: u32) -> Option<u32> {
    match colorspace {
        ColorSpace::RGB => Some(layout_code(4, 0, 0, 0, 3, bytes)),
        ColorSpace::RGBA => Some(layout_code(4, 0, 0, 1, 3, bytes)),
        ColorSpace::BGR => Some(layout_code(4, 0, 1, 0, 3, bytes)),
        ColorSpace::BGRA => Some(layout_code(4, 1, 1, 1, 3, bytes)),
        ColorSpace::ARGB => Some(layout_code(4, 1, 0, 1, 3, bytes)),
        ColorSpace::Luma => Some(layout_code(3, 0, 0, 0, 1, bytes)),
        ColorSpace::LumaA => Some(layout_code(3, 0, 0, 1, 1, bytes)),
        ColorSpace::CMYK => Some(layout_code(6, 0, 0, 0, 4, bytes)),
        ColorSpace::YCbCr => Some(layout_code(7, 0, 0, 0, 3, bytes)),
        ColorSpace::HSV => Some(layout_code(12, 0, 0, 0, 3, bytes)),
        _ => None,
    }
}

/// The number of the layout of a colour space at a sample size of 8 or 16 bits.
pub open spec fn format_of(colorspace: ColorSpace, bit_size: usize) -> Option<u32> {
    if bit_size == 8 {
        engine_format(colorspace, 1)
    } else if bit_size == 16 {
        engine_format(colorspace, 2)
    } else {
        None
    }
}

/// The number of the layout of a colour space at a sample size in bits.
pub fn pixel_format(colorspace: ColorSpace, bit_size: usize) -> (format: Option<u32>)
    ensures
        format == format_of(colorspace, bit_size),
{
    let bytes: u32 = if bit_size == 8 {
        1
    } else if bit_size == 16 {
        2
    } else {
        return None;
    };
    match colorspace {
        ColorSpace::RGB => Some(262168 + bytes),
        ColorSpace::RGBA => Some(262296 + bytes),
        ColorSpace::BGR => Some(263192 + bytes),
        ColorSpace::BGRA => Some(279704 + bytes),
        ColorSpace::ARGB => Some(278680 + bytes),
        ColorSpace::Luma => Some(196616 + bytes),
        ColorSpace::LumaA => Some(196744 + bytes),
        ColorSpace::CMYK => Some(393248 + bytes),
        ColorSpace::YCbCr => Some(458776 + bytes),
        ColorSpace::HSV => Some(786456 + bytes),
        _ => None,
    }
}

/// The bits of a sample.
pub open spec fn bit_size(depth: BitDepth) -> nat {
    8 * depth.sample_bytes()
}

/// The message of `lcms2::Profile::new_icc` where it refuses a file.
pub uninterp spec fn icc_open_error(icc: Seq<u8>) -> Option<Seq<char>>;

/// The `Debug` text of the `lcms2::ColorSpaceSignature` that
/// `lcms2::Profile::color_space` gives for a signature.
pub uninterp spec fn signature_text(signature: u32) -> Seq<char>;

/// The colour space signature in the header of an ICC file; zero where the file
/// is too short to have one.
pub open spec fn signature_of(icc: Seq<u8>) -> u32 {
    if icc.len() < 20 {
        0
    } else {
        (icc[16] * 0x100_0000 + icc[17] * 0x1_0000 + icc[18] * 0x100 + icc[19]) as u32
    }
}

/// Whether a byte is a digit above zero or a letter from `A` to `F`, as they
/// count the channels in some signatures.
pub open spec fn counts_channels(byte: int) -> bool {
    0x31 <= byte <= 0x39 || 0x41 <= byte <= 0x46
}

/// Whether a signature is one that the ICC registers: `XYZ `, `Lab `, `Luv `,
/// `YCbr`, `Yxy `, `RGB `, `GRAY`, `HSV `, `HLS `, `CMYK`, `CMY `, `nmcl`, `LuvK`,
/// `MCH` and a number of channels, or a number of channels and `CLR`.
pub open spec fn registered(signature: u32) -> bool {
    ||| signature == 0x58595a20
    ||| signature == 0x4c616220
    ||| signature == 0x4c757620
    ||| signature == 0x59436272
    ||| signature == 0x59787920
    ||| signature == 0x52474220
    ||| signature == 0x47524159
    ||| signature == 0x48535620
    ||| signature == 0x484c5320
    ||| signature == 0x434d594b
    ||| signature == 0x434d5920
    ||| signature == 0x6e6d636c
    ||| signature == 0x4c75764b
    ||| signature / 0x100 == 0x4d4348 && counts_channels(signature as int % 0x100)
    ||| signature % 0x100_0000 == 0x434c52 && counts_channels(signature as int / 0x100_0000)
}

/// The colours that a registered signature stands for; `text` names those
/// without a variant of their own.
pub open spec fn signature_space(signature: u32, text: Seq<char>) -> SpaceView {
    if signature == 0x52474220 {
        SpaceView::Rgb
    } else if signature == 0x47524159 {
        SpaceView::Gray
    } else if signature == 0x434d594b {
        SpaceView::Cmyk
    } else if signature == 0x59436272 {
        SpaceView::YCbCr
    } else if signature == 0x48535620 {
        SpaceView::Hsv
    } else {
        SpaceView::Other(text)
    }
}

/// The profile colours of an ICC file, or the message with which it is refused.
/// A signature that is not registered is no colour space that can be named.
pub open spec fn icc_space(icc: Seq<u8>) -> Result<SpaceView, Seq<char>> {
    match icc_open_error(icc) {
        Some(message) => Err(message),
        None => Ok(
            if registered(signature_of(icc)) {
                signature_space(signature_of(icc), signature_text(signature_of(icc)))
            } else {
                SpaceView::Other("Unknown"@)
            },
        ),
    }
}

/// The rendering intent of a conversion, by its number in an ICC file: colours
/// keep their appearance.
pub const PERCEPTUAL: u32 = 0;

/// The flags of a conversion that keeps no cache, by their number in the engine.
pub const FLAGS_NO_CACHE: u32 = 0x40;

/// The flags of a conversion that keeps no cache and copies alpha.
pub const FLAGS_NO_CACHE_COPY_ALPHA: u32 = 0x4000040;

/// The flags that a conversion is made with.
pub open spec fn flags_for(copy_alpha: bool) -> u32 {
    if copy_alpha {
        FLAGS_NO_CACHE_COPY_ALPHA
    } else {
        FLAGS_NO_CACHE
    }
}

/// Whether the colour engine may answer a request for a conversion between two
/// profiles (`None` is its built-in sRGB) and layouts, with this rendering intent
/// and these flags, with `outcome`: the target profile as a file, or a message.
pub uninterp spec fn icc_prepared(
    source: Option<Seq<u8>>,
    target: Option<Seq<u8>>,
    from: u32,
    to: u32,
    intent: u32,
    flags: u32,
    outcome: Result<Seq<u8>, Seq<char>>,
) -> bool;

/// Whether `lcms2::Transform::transform_pixels` may turn the bytes `samples` into
/// `outcome` between two profiles (`None` is the built-in sRGB) and layouts, with
/// this rendering intent and these flags; a message where the conversion does not
/// exist.
pub uninterp spec fn icc_converted(
    source: Option<Seq<u8>>,
    target: Option<Seq<u8>>,
    from: u32,
    to: u32,
    intent: u32,
    flags: u32,
    samples: Seq<u8>,
    outcome: Result<Seq<u8>, Seq<char>>,
) -> bool;

/// The colours of a profile or a message, by their contents.
pub open spec fn space_result(space: Result<ProfileSpace, String>) -> Result<SpaceView, Seq<char>> {
    match space {
        Ok(space) => Ok(space@),
        Err(message) => Err(message@),
    }
}

/// Calls `lcms2::Profile::new_icc` on an ICC file: nothing where it succeeds,
/// else its message, which depends on the bytes alone.
#[verifier::external_body]
fn open_error(icc: &[u8]) -> (error: Option<String>)
    ensures
        crate::error::text_of(error) == icc_open_error(icc@),
{
    Profile::new_icc(icc).err().map(|error| error.to_string())
}

/// Calls `lcms2::Profile::color_space` on the profile of an ICC file: the colours
/// that the signature in the header stands for, those without a variant here by
/// their `Debug` text; nothing where the file is refused. The signature is handed
/// out as a variant of an enumeration unseen, so one that is not registered is
/// left out.
#[verifier::external_body]
fn read_space(icc: &[u8]) -> (space: Option<ProfileSpace>)
    requires
        registered(signature_of(icc@)),
    ensures
        space is None <==> icc_open_error(icc@) is Some,
        space matches Some(space) ==> space@ == signature_space(
            signature_of(icc@),
            signature_text(signature_of(icc@)),
        ),
{
    let profile = Profile::new_icc(icc).ok()?;
    Some(match profile.color_space() {
        ColorSpaceSignature::RgbData => ProfileSpace::Rgb,
        ColorSpaceSignature::GrayData => ProfileSpace::Gray,
        ColorSpaceSignature::CmykData => ProfileSpace::Cmyk,
        ColorSpaceSignature::YCbCrData => ProfileSpace::YCbCr,
        ColorSpaceSignature::HsvData => ProfileSpace::Hsv,
        other => ProfileSpace::Other(format!("{other:?}")),
    })
}

/// The colour space signature in the header of an ICC file.
fn header_signature(icc: &[u8]) -> (signature: u32)
    ensures
        signature == signature_of(icc@),
{
    if icc.len() < 20 {
        0
    } else {
        icc[16] as u32 * 0x100_0000 + icc[17] as u32 * 0x1_0000 + icc[18] as u32 * 0x100
            + icc[19] as u32
    }
}

/// Whether a signature is one that the ICC registers.
fn is_registered(signature: u32) -> (known: bool)
    ensures
        known == registered(signature),
{
    let (low, high): (u32, u32) = (signature % 0x100, signature / 0x100_0000);
    signature == 0x58595a20 || signature == 0x4c616220 || signature == 0x4c757620 || signature
        == 0x59436272 || signature == 0x59787920 || signature == 0x52474220 || signature
        == 0x47524159 || signature == 0x48535620 || signature == 0x484c5320 || signature
        == 0x434d594b || signature == 0x434d5920 || signature == 0x6e6d636c || signature
        == 0x4c75764b || (signature / 0x100 == 0x4d4348 && (0x31 <= low && low <= 0x39 || 0x41
        <= low && low <= 0x46)) || (signature % 0x100_0000 == 0x434c52 && (0x31 <= high && high
        <= 0x39 || 0x41 <= high && high <= 0x46))
}

/// The profile colours of an ICC file, or the message with which it is refused.
pub fn profile_space(icc: &[u8]) -> (space: Result<ProfileSpace, String>)
    ensures
        space_result(space) == icc_space(icc@),
{
    if is_registered(header_signature(icc)) {
        if let Some(space) = read_space(icc) {
            return Ok(space);
        }
    }
    match open_error(icc) {
        Some(message) => Err(message),
        None => Ok(ProfileSpace::Other("Unknown".to_owned())),
    }
}

/// The bytes of a borrowed profile.
pub open spec fn profile_view(icc: Option<&Vec<u8>>) -> Option<Seq<u8>> {
    match icc {
        Some(icc) => Some(icc@),
        None => None,
    }
}

/// A file or a message by its contents.
pub open spec fn prepared_view(outcome: Result<Vec<u8>, String>) -> Result<Seq<u8>, Seq<char>> {
    match outcome {
        Ok(icc) => Ok(icc@),
        Err(message) => Err(message@),
    }
}

/// Calls `lcms2::Transform::new_flags` for two profiles (`None` is
/// `lcms2::Profile::new_srgb`), two layouts, an intent of the ICC and flags, and
/// `lcms2::Profile::icc` on the target: the target as a file, or the message of
/// whichever failed. The
/// built-in profile carries the time at which it was made, so the file is not
/// described further.
#[verifier::external_body]
fn prepare(
    source: Option<&Vec<u8>>,
    target: Option<&Vec<u8>>,
    from: u32,
    to: u32,
    intent: u32,
    flags: u32,
) -> (outcome: Result<Vec<u8>, String>)
    requires
        exists|space: ColorSpace, bits: usize| #[trigger] format_of(space, bits) == Some(from),
        exists|space: ColorSpace, bits: usize| #[trigger] format_of(space, bits) == Some(to),
        intent < 4,
        flags == flags_for(true) || flags == flags_for(false),
    ensures
        icc_prepared(
            profile_view(source),
            profile_view(target),
            from,
            to,
            intent,
            flags,
            prepared_view(outcome),
        ),
{
    let open = |icc: Option<&Vec<u8>>| icc.map_or(Ok(Profile::new_srgb()), |icc| Profile::new_icc(icc));
    let intents =
        [Intent::Perceptual, Intent::RelativeColorimetric, Intent::Saturation, Intent::AbsoluteColorimetric];
    let mut settings = Flags::NO_CACHE;
    settings.0 = flags;
    let answer = || {
        let (source, target) = (open(source)?, open(target)?);
        let (from, to) = (PixelFormat(from), PixelFormat(to));
        let intent = intents[intent as usize];
        Transform::<u8, u8>::new_flags(&source, from, &target, to, intent, settings)?;
        target.icc()
    };
    answer().map_err(|error| error.to_string())
}

/// Where the alpha sample of a pixel stands among its samples.
pub open spec fn alpha_at(colorspace: ColorSpace) -> int {
    if colorspace is ARGB {
        0
    } else {
        colorspace.components() - 1
    }
}

/// The alpha of a pixel.
pub open spec fn alpha_of(samples: SamplesView, colorspace: ColorSpace, pixel: int) -> int {
    let at = pixel * colorspace.components() + alpha_at(colorspace);
    match samples {
        SamplesView::Eight(samples) => samples[at] as int,
        SamplesView::Sixteen(samples) => samples[at] as int,
        SamplesView::Float32(samples) => samples[at] as int,
    }
}

/// Samples as the bytes that the engine reads; those of 16 bits in the order of
/// the machine, which may have the low byte first.
pub open spec fn engine_bytes(samples: SamplesView, low_first: bool) -> Seq<u8> {
    match samples {
        SamplesView::Eight(samples) => samples,
        SamplesView::Sixteen(samples) => stored(samples, low_first),
        SamplesView::Float32(_) => seq![],
    }
}

/// Converted samples or a message, as the engine gives them.
pub open spec fn engine_outcome(outcome: Result<SamplesView, Seq<char>>, low_first: bool) -> Result<
    Seq<u8>,
    Seq<char>,
> {
    match outcome {
        Ok(samples) => Ok(engine_bytes(samples, low_first)),
        Err(message) => Err(message),
    }
}

/// Calls `u16::from_ne_bytes` on a one and a zero, which reads as one where the
/// machine has the low byte first, and as 256 where it has the high byte first.
#[verifier::external_body]
fn one_in_machine_order() -> (number: u16)
    ensures
        number == 1 || number == 256,
{
    u16::from_ne_bytes([1, 0])
}

/// How a conversion is asked for: the profiles, of which `None` is the built-in
/// sRGB, the colour spaces and the numbers of their layouts, the rendering intent
/// and the flags.
#[derive(Clone, Copy)]
pub struct Conversion<'a> {
    /// The profile that describes the pixels.
    pub source: Option<&'a Vec<u8>>,
    /// The profile that is to describe them.
    pub target: Option<&'a Vec<u8>>,
    /// The colour space of the pixels.
    pub from: ColorSpace,
    /// The colour space they get.
    pub to: ColorSpace,
    /// The layout of the pixels.
    pub from_format: u32,
    /// The layout they get.
    pub to_format: u32,
    /// The rendering intent.
    pub intent: u32,
    /// The flags of the engine.
    pub flags: u32,
    /// Whether alpha is copied.
    pub copy_alpha: bool,
    /// The bytes of a sample.
    pub sample_bytes: usize,
    /// The pixels of a picture.
    pub pixels: u32,
}

impl<'a> Conversion<'a> {
    /// The layouts are those of the colour spaces at a sample size of one or
    /// two bytes, the intent is one of the ICC, and alpha is copied only where
    /// both have it.
    pub open spec fn wf(self) -> bool {
        &&& self.sample_bytes == 1 || self.sample_bytes == 2
        &&& format_of(self.from, (8 * self.sample_bytes) as usize) == Some(self.from_format)
        &&& format_of(self.to, (8 * self.sample_bytes) as usize) == Some(self.to_format)
        &&& self.intent < 4
        &&& self.flags == flags_for(self.copy_alpha)
        &&& self.copy_alpha ==> self.from.alpha() && self.to.alpha()
    }

    /// So many bytes are those of the pixels in a colour space.
    pub open spec fn fills(self, bytes: int, colorspace: ColorSpace) -> bool {
        bytes == self.pixels * colorspace.components() * self.sample_bytes
    }

    /// What is asked of the engine.
    pub open spec fn request(self) -> Request {
        Request {
            source: profile_view(self.source),
            target: profile_view(self.target),
            from: self.from,
            to: self.to,
            from_format: self.from_format,
            to_format: self.to_format,
            intent: self.intent,
            flags: self.flags,
            copy_alpha: self.copy_alpha,
        }
    }
}

impl Request {
    /// What the engine may answer: the target profile as a file, or a message.
    pub open spec fn may_answer(self, prepared: Result<Seq<u8>, Seq<char>>) -> bool {
        icc_prepared(
            self.source,
            self.target,
            self.from_format,
            self.to_format,
            self.intent,
            self.flags,
            prepared,
        )
    }

    /// What the engine may make of some samples on a machine with the low byte
    /// first, or with the high byte first.
    pub open spec fn gives(
        self,
        samples: SamplesView,
        outcome: Result<SamplesView, Seq<char>>,
        low_first: bool,
    ) -> bool {
        icc_converted(
            self.source,
            self.target,
            self.from_format,
            self.to_format,
            self.intent,
            self.flags,
            engine_bytes(samples, low_first),
            engine_outcome(outcome, low_first),
        )
    }

    /// What the engine may make of some samples.
    pub open spec fn may_give(self, samples: SamplesView, outcome: Result<SamplesView, Seq<char>>) -> bool {
        exists|low_first: bool| #[trigger] self.gives(samples, outcome, low_first)
    }

    /// Every pixel of `pixels` keeps its alpha, where alpha is copied.
    pub open spec fn keeps_alpha(self, before: SamplesView, after: SamplesView, pixels: int) -> bool {
        self.copy_alpha ==> forall|pixel: int|
            0 <= pixel < pixels ==> #[trigger] alpha_of(after, self.to, pixel) == alpha_of(
                before,
                self.from,
                pixel,
            )
    }
}

/// Where a byte of a pixel's alpha stands.
pub open spec fn alpha_byte(colorspace: ColorSpace, sample_bytes: int, pixel: int, byte: int) -> int {
    (pixel * colorspace.components() + alpha_at(colorspace)) * sample_bytes + byte
}

/// Every pixel keeps the bytes of its alpha, where alpha is copied.
pub open spec fn copies_alpha(conversion: Conversion, before: Seq<u8>, after: Seq<u8>) -> bool {
    let bytes = conversion.sample_bytes as int;
    conversion.copy_alpha ==> forall|pixel: int, byte: int|
        0 <= pixel < conversion.pixels && 0 <= byte < bytes ==> after[#[trigger] alpha_byte(
            conversion.to,
            bytes,
            pixel,
            byte,
        )] == before[alpha_byte(conversion.from, bytes, pixel, byte)]
}

/// Calls `lcms2::Transform::transform_pixels` on the bytes of some pixels, between
/// the profiles and layouts of `conversion`, with its intent and flags: the bytes that the target layout
/// has for as many pixels, each pixel with its alpha where alpha is copied, or
/// the message with which the conversion could not be made. The colours are not
/// described further.
#[verifier::external_body]
fn convert_bytes(conversion: Conversion<'_>, samples: &[u8], length: usize) -> (outcome: Result<
    Vec<u8>,
    String,
>)
    requires
        conversion.wf(),
        conversion.fills(samples@.len() as int, conversion.from),
        conversion.fills(length as int, conversion.to),
    ensures
        icc_converted(
            profile_view(conversion.source),
            profile_view(conversion.target),
            conversion.from_format,
            conversion.to_format,
            conversion.intent,
            conversion.flags,
            samples@,
            prepared_view(outcome),
        ),
        outcome matches Ok(converted) ==> converted@.len() == length && copies_alpha(
            conversion,
            samples@,
            converted@,
        ),
{
    let open = |icc: Option<&Vec<u8>>| icc.map_or(Ok(Profile::new_srgb()), |icc| Profile::new_icc(icc));
    let intents =
        [Intent::Perceptual, Intent::RelativeColorimetric, Intent::Saturation, Intent::AbsoluteColorimetric];
    let mut flags = Flags::NO_CACHE;
    flags.0 = conversion.flags;
    let from = PixelFormat(conversion.from_format);
    let to = PixelFormat(conversion.to_format);
    let intent = intents[conversion.intent as usize];
    let answer = || {
        let (source, target) = (open(conversion.source)?, open(conversion.target)?);
        Transform::new_flags(&source, from, &target, to, intent, flags)
    };
    let mut converted = vec![0u8; length];
    answer().map_err(|error| error.to_string())?.transform_pixels(samples, &mut converted);
    Ok(converted)
}

/// Which colour space a conversion gives, or why there is no conversion.
pub open spec fn icc_decision(
    source: Result<SpaceView, Seq<char>>,
    colorspace: ColorSpace,
    depth: BitDepth,
    target: SpaceView,
) -> Result<ColorSpace, FailureView> {
    let bits = bit_size(depth);
    match source {
        Err(message) => Err(plain_failure(message)),
        Ok(described) => match space_of(colorspace) {
            None => Err(
                plain_failure(
                    "ICC profile application does not support "@ + colorspace.named() + " pixels"@,
                ),
            ),
            Some(wanted) => if described != wanted {
                Err(
                    plain_failure(
                        "ICC profile color space "@ + described.named() + " does not match "@
                            + colorspace.named() + " pixels"@,
                    ),
                )
            } else {
                match destination_of(target, colorspace.alpha()) {
                    None => Err(
                        plain_failure(
                            "Destination ICC color space "@ + target.named()
                                + " is not supported"@,
                        ),
                    ),
                    Some(to) => if colorspace.alpha() && !to.alpha() {
                        Err(
                            plain_failure(
                                "Destination ICC color space cannot preserve the image alpha channel"@,
                            ),
                        )
                    } else if bits != 8 && bits != 16 {
                        Err(
                            plain_failure(
                                "ICC profile application does not support "@ + colorspace.named()
                                    + " at "@ + decimal(bits) + "-bit"@,
                            ),
                        )
                    } else {
                        Ok(to)
                    },
                }
            },
        },
    }
}

/// Whether nothing but the sample size is left to be judged.
pub open spec fn reaches_depth(
    source: Result<SpaceView, Seq<char>>,
    colorspace: ColorSpace,
    target: SpaceView,
) -> bool {
    &&& source matches Ok(described) && space_of(colorspace) == Some(described)
    &&& destination_of(target, colorspace.alpha()) matches Some(to) && (colorspace.alpha()
        ==> to.alpha())
}

/// A colour space or a failure by its contents.
pub open spec fn decision_view(decision: Result<ColorSpace, ImageFailure>) -> Result<
    ColorSpace,
    FailureView,
> {
    match decision {
        Ok(colorspace) => Ok(colorspace),
        Err(failure) => Err(failure@),
    }
}

fn same_space(a: &ProfileSpace, b: &ProfileSpace) -> (same: bool)
    requires
        !(b is Other),
    ensures
        same == (a@ == b@),
{
    match (a, b) {
        (ProfileSpace::Rgb, ProfileSpace::Rgb) => true,
        (ProfileSpace::Gray, ProfileSpace::Gray) => true,
        (ProfileSpace::Cmyk, ProfileSpace::Cmyk) => true,
        (ProfileSpace::YCbCr, ProfileSpace::YCbCr) => true,
        (ProfileSpace::Hsv, ProfileSpace::Hsv) => true,
        _ => false,
    }
}

/// Whether nothing but the sample size is left to be judged.
fn depth_matters(
    source: &Result<ProfileSpace, String>,
    colorspace: ColorSpace,
    target: &ProfileSpace,
) -> (matters: bool)
    ensures
        matters == reaches_depth(space_result(*source), colorspace, target@),
{
    let described = match source {
        Ok(space) => space,
        Err(_) => {
            return false;
        },
    };
    let matching = match profile_signature_for_colorspace(colorspace) {
        Some(wanted) => same_space(described, &wanted),
        None => false,
    };
    match destination_colorspace(target, colorspace.has_alpha()) {
        Some(to) => matching && (!colorspace.has_alpha() || to.has_alpha()),
        None => false,
    }
}

/// Decides which colour space pixels get when they are converted from the
/// profile that describes them to a target. The source is judged before the
/// target, and the sample size last.
pub fn decide_conversion(
    source: Result<ProfileSpace, String>,
    colorspace: ColorSpace,
    depth: BitDepth,
    target: &ProfileSpace,
) -> (decision: Result<ColorSpace, ImageFailure>)
    requires
        depth is Unknown ==> !reaches_depth(space_result(source), colorspace, target@),
    ensures
        decision_view(decision) == icc_decision(space_result(source), colorspace, depth, target@),
{
    let described = match source {
        Ok(space) => space,
        Err(message) => {
            return Err(ImageFailure::other(message));
        },
    };
    let wanted = match profile_signature_for_colorspace(colorspace) {
        Some(space) => space,
        None => {
            let mut text = "ICC profile application does not support ".to_owned();
            text.append(colorspace.label().as_str());
            text.append(" pixels");
            return Err(ImageFailure::other(text));
        },
    };
    if !same_space(&described, &wanted) {
        let mut text = "ICC profile color space ".to_owned();
        text.append(described.label());
        text.append(" does not match ");
        text.append(colorspace.label().as_str());
        text.append(" pixels");
        return Err(ImageFailure::other(text));
    }
    let preserve_alpha = colorspace.has_alpha();
    let to = match destination_colorspace(target, preserve_alpha) {
        Some(to) => to,
        None => {
            let mut text = "Destination ICC color space ".to_owned();
            text.append(target.label());
            text.append(" is not supported");
            return Err(ImageFailure::other(text));
        },
    };
    if preserve_alpha && !to.has_alpha() {
        return Err(
            ImageFailure::other(
                "Destination ICC color space cannot preserve the image alpha channel".to_owned(),
            ),
        );
    }
    let bits: u64 = 8 * depth.bytes_per_sample();
    if bits != 8 && bits != 16 {
        let mut text = "ICC profile application does not support ".to_owned();
        text.append(colorspace.label().as_str());
        text.append(" at ");
        push_decimal(&mut text, bits as u128);
        text.append("-bit");
        return Err(ImageFailure::other(text));
    }
    Ok(to)
}

/// Why pixels of this size cannot be converted at once, if they cannot.
pub open spec fn size_refusal(width: usize, height: usize, to: ColorSpace, depth: BitDepth) -> Option<
    FailureView,
> {
    let pixels = width * height;
    if pixels > usize::MAX {
        Some(plain_failure("ICC pixel count overflow"@))
    } else if pixels > u32::MAX {
        Some(
            plain_failure("ICC transformation exceeds the LCMS single-operation pixel limit"@),
        )
    } else if pixels * to.components() * depth.sample_bytes() > usize::MAX {
        Some(plain_failure("ICC destination buffer size overflow"@))
    } else {
        None
    }
}

/// A size or a failure by its contents.
pub open spec fn length_failure(length: Result<usize, ImageFailure>) -> Option<FailureView> {
    match length {
        Ok(_) => None,
        Err(failure) => Some(failure@),
    }
}

/// The bytes that pixels of this size take when they are converted.
pub fn destination_length(width: usize, height: usize, to: ColorSpace, depth: BitDepth) -> (length:
    Result<usize, ImageFailure>)
    requires
        0 < to.components() <= 4,
    ensures
        length_failure(length) == size_refusal(width, height, to, depth),
        length matches Ok(length) ==> length == width * height * to.components()
            * depth.sample_bytes(),
{
    assert(width * height <= u64::MAX * u64::MAX) by (nonlinear_arith)
        requires
            width <= u64::MAX,
            height <= u64::MAX,
    ;
    let pixels: u128 = width as u128 * height as u128;
    if pixels > usize::MAX as u128 {
        return Err(ImageFailure::other("ICC pixel count overflow".to_owned()));
    }
    if pixels > 4294967295 {
        return Err(
            ImageFailure::other(
                "ICC transformation exceeds the LCMS single-operation pixel limit".to_owned(),
            ),
        );
    }
    proof {
        let components = to.components();
        let sample = depth.sample_bytes();
        assert(pixels * components <= u32::MAX * 4) by (nonlinear_arith)
            requires
                pixels <= u32::MAX,
                components <= 4,
        ;
        assert(pixels * components * sample <= u32::MAX * 16) by (nonlinear_arith)
            requires
                0 <= pixels * components <= u32::MAX * 4,
                sample <= 4,
        ;
    }
    let bytes: u128 = pixels * to.num_components() as u128 * depth.bytes_per_sample() as u128;
    if bytes > usize::MAX as u128 {
        return Err(ImageFailure::other("ICC destination buffer size overflow".to_owned()));
    }
    Ok(bytes as usize)
}

/// What a finished conversion makes of a picture.
pub open spec fn frame_converted(request: Request, before: FrameView, after: FrameView) -> bool {
    let pixels = after.samples.count() as int / request.to.components() as int;
    &&& request.may_give(before.samples, Ok(after.samples))
    &&& after.samples.depth() == before.samples.depth()
    &&& after.numerator == before.numerator
    &&& after.denominator == before.denominator
    &&& request.keeps_alpha(before.samples, after.samples, pixels)
}

/// What a finished conversion makes of an image: each picture converted, in
/// the colour space it leads to, with the target as the new profile.
pub open spec fn image_converted(request: Request, before: RasterView, after: RasterView, icc: Seq<
    u8,
>) -> bool {
    &&& after.width == before.width
    &&& after.height == before.height
    &&& after.depth == before.depth
    &&& after.colorspace == request.to
    &&& after.icc == Some(icc)
    &&& after.frames.len() == before.frames.len()
    &&& forall|i: int|
        #![trigger after.frames[i]]
        0 <= i < after.frames.len() ==> frame_converted(
            request,
            before.frames[i],
            after.frames[i],
        )
}

proof fn lemma_same_word(a: Seq<u16>, i: int, b: Seq<u16>, j: int, low_first: bool)
    requires
        0 <= i < a.len(),
        0 <= j < b.len(),
        stored(a, low_first)[2 * i] == stored(b, low_first)[2 * j],
        stored(a, low_first)[2 * i + 1] == stored(b, low_first)[2 * j + 1],
    ensures
        a[i] == b[j],
{
    assert((2 * i) / 2 == i && (2 * j) / 2 == j && (2 * i + 1) / 2 == i && (2 * j + 1) / 2 == j);
    assert((2 * i) % 2 == 0 && (2 * j) % 2 == 0 && (2 * i + 1) % 2 == 1 && (2 * j + 1) % 2 == 1);
}

proof fn lemma_pixel_in_range(pixel: int, pixels: int, colorspace: ColorSpace)
    requires
        0 <= pixel < pixels,
        colorspace.components() > 0,
    ensures
        0 <= pixel * colorspace.components() + alpha_at(colorspace) < pixels
            * colorspace.components(),
{
    let components = colorspace.components() as int;
    assert(0 <= pixel * components && pixel * components + components <= pixels * components)
        by (nonlinear_arith)
        requires
            0 <= pixel < pixels,
            components > 0,
    ;
}

/// Bytes that keep their alpha are samples that keep their alpha.
proof fn lemma_alpha_is_kept(
    conversion: Conversion,
    before: SamplesView,
    after: SamplesView,
    low_first: bool,
)
    requires
        conversion.wf(),
        before.depth() == after.depth(),
        conversion.sample_bytes == before.depth().sample_bytes(),
        before.depth() is Eight || before.depth() is Sixteen,
        before.count() == conversion.pixels * conversion.from.components(),
        after.count() == conversion.pixels * conversion.to.components(),
        copies_alpha(
            conversion,
            engine_bytes(before, low_first),
            engine_bytes(after, low_first),
        ),
    ensures
        conversion.request().keeps_alpha(before, after, conversion.pixels as int),
{
    let bytes = conversion.sample_bytes as int;
    let old_bytes = engine_bytes(before, low_first);
    let new_bytes = engine_bytes(after, low_first);
    if conversion.copy_alpha {
        assert forall|pixel: int| 0 <= pixel < conversion.pixels implies #[trigger] alpha_of(
            after,
            conversion.to,
            pixel,
        ) == alpha_of(before, conversion.from, pixel) by {
            lemma_pixel_in_range(pixel, conversion.pixels as int, conversion.from);
            lemma_pixel_in_range(pixel, conversion.pixels as int, conversion.to);
            let i = pixel * conversion.to.components() + alpha_at(conversion.to);
            let j = pixel * conversion.from.components() + alpha_at(conversion.from);
            assert(new_bytes[alpha_byte(conversion.to, bytes, pixel, 0)] == old_bytes[alpha_byte(
                conversion.from,
                bytes,
                pixel,
                0,
            )]);
            match (before, after) {
                (SamplesView::Eight(_), SamplesView::Eight(_)) => {
                    assert(i * 1 + 0 == i && j * 1 + 0 == j);
                },
                (SamplesView::Sixteen(old_words), SamplesView::Sixteen(new_words)) => {
                    assert(new_bytes[alpha_byte(conversion.to, bytes, pixel, 1)]
                        == old_bytes[alpha_byte(conversion.from, bytes, pixel, 1)]);
                    assert(i * 2 + 0 == 2 * i && j * 2 + 0 == 2 * j);
                    lemma_same_word(new_words, i, old_words, j, low_first);
                },
                _ => {},
            }
        }
    }
}

/// Converts one picture.
fn convert_frame(conversion: Conversion<'_>, frame: &Frame, length: usize) -> (result: Result<
    Frame,
    String,
>)
    requires
        conversion.wf(),
        conversion.sample_bytes == frame@.samples.depth().sample_bytes(),
        !(frame@.samples is Float32),
        frame@.samples.count() == conversion.pixels * conversion.from.components(),
        conversion.fills(length as int, conversion.to),
    ensures
        result matches Ok(converted) ==> frame_converted(conversion.request(), frame@, converted@)
            && converted@.samples.count() == conversion.pixels * conversion.to.components(),
        result matches Err(message) ==> conversion.request().may_give(frame@.samples, Err(message@)),
{
    let low_first = one_in_machine_order() == 1;
    let ghost shown = frame@.samples;
    let ghost request = conversion.request();
    let ghost wanted = conversion.pixels * conversion.to.components();
    let samples = match &frame.samples {
        Samples::Eight(samples) => {
            proof {
                assert(samples@.len() * 1 == samples@.len() && wanted * 1 == wanted);
            }
            match convert_bytes(conversion, samples.as_slice(), length) {
                Ok(converted) => Samples::Eight(converted),
                Err(message) => {
                    proof {
                        assert(request.gives(shown, Err(message@), low_first));
                    }
                    return Err(message);
                },
            }
        },
        Samples::Sixteen(samples) => {
            let bytes = to_bytes(samples, low_first);
            proof {
                assert(samples@.len() * 2 == 2 * samples@.len() && wanted * 2 == 2 * wanted);
            }
            match convert_bytes(conversion, bytes.as_slice(), length) {
                Ok(converted) => Samples::Sixteen(from_bytes(&converted, low_first)),
                Err(message) => {
                    proof {
                        assert(request.gives(shown, Err(message@), low_first));
                    }
                    return Err(message);
                },
            }
        },
        Samples::Float32(_) => {
            assert(false);
            return Err(String::new());
        },
    };
    proof {
        assert(request.gives(shown, Ok(samples@), low_first));
        lemma_alpha_is_kept(conversion, shown, samples@, low_first);
        let pixels = conversion.pixels as int;
        let components = conversion.to.components() as int;
        assert(pixels * components / components == pixels) by (nonlinear_arith)
            requires
                components > 0,
        ;
    }
    Ok(Frame { samples, numerator: frame.numerator, denominator: frame.denominator })
}

/// The profile colours of an image: those of its profile, sRGB's without one.
pub open spec fn image_space(image: RasterView) -> Result<SpaceView, Seq<char>> {
    match image.icc {
        Some(icc) => icc_space(icc),
        None => Ok(SpaceView::Rgb),
    }
}

/// What is asked of the colour engine for an image: the profiles, of which
/// `None` is the built-in sRGB, the layouts, the rendering intent and the flags,
/// and whether alpha is copied.
pub struct Request {
    /// The profile that describes the pixels.
    pub source: Option<Seq<u8>>,
    /// The profile that is to describe them.
    pub target: Option<Seq<u8>>,
    /// The colour space of the pixels.
    pub from: ColorSpace,
    /// The colour space they get.
    pub to: ColorSpace,
    /// The layout of the pixels.
    pub from_format: u32,
    /// The layout they get.
    pub to_format: u32,
    /// The rendering intent.
    pub intent: u32,
    /// The flags of the engine.
    pub flags: u32,
    /// Whether alpha is copied.
    pub copy_alpha: bool,
}

/// The request for an image that is to get a colour space.
pub open spec fn request_for(target: Option<Seq<u8>>, to: ColorSpace, image: RasterView) -> Request {
    let bits = bit_size(image.depth) as usize;
    Request {
        source: image.icc,
        target,
        from: image.colorspace,
        to,
        from_format: format_of(image.colorspace, bits)->0,
        to_format: format_of(to, bits)->0,
        intent: PERCEPTUAL,
        flags: flags_for(image.colorspace.alpha()),
        copy_alpha: image.colorspace.alpha(),
    }
}

/// What may come of a conversion that exists and whose size is accepted: each
/// picture converted, or a message and the image as it was.
pub open spec fn ran(
    request: Request,
    icc: Seq<u8>,
    before: RasterView,
    after: RasterView,
    failure: Option<FailureView>,
) -> bool {
    match failure {
        None => image_converted(request, before, after, icc),
        Some(failure) => after == before && exists|i: int, message: Seq<char>|
            0 <= i < before.frames.len() && #[trigger] request.may_give(
                before.frames[i].samples,
                Err(message),
            ) && failure == plain_failure(message),
    }
}

/// What may come of a request that the engine answered with `prepared`.
pub open spec fn answered(
    request: Request,
    prepared: Result<Seq<u8>, Seq<char>>,
    before: RasterView,
    after: RasterView,
    failure: Option<FailureView>,
) -> bool {
    match prepared {
        Err(message) => failure == Some(plain_failure(message)) && after == before,
        Ok(icc) => match size_refusal(before.width, before.height, request.to, before.depth) {
            Some(refusal) => failure == Some(refusal) && after == before,
            None => ran(request, icc, before, after, failure),
        },
    }
}

/// What may come of a conversion to a target, of which `None` is the built-in
/// sRGB. A conversion that does not succeed leaves the image as it was.
pub open spec fn applied(
    target: Option<Seq<u8>>,
    target_space: SpaceView,
    before: RasterView,
    after: RasterView,
    failure: Option<FailureView>,
) -> bool {
    match icc_decision(image_space(before), before.colorspace, before.depth, target_space) {
        Err(refusal) => failure == Some(refusal) && after == before,
        Ok(to) => exists|prepared: Result<Seq<u8>, Seq<char>>|
            #[trigger] request_for(target, to, before).may_answer(prepared) && answered(
                request_for(target, to, before),
                prepared,
                before,
                after,
                failure,
            ),
    }
}

/// What a result says.
pub open spec fn failure_of(result: Result<(), ImageFailure>) -> Option<FailureView> {
    match result {
        Ok(()) => None,
        Err(failure) => Some(failure@),
    }
}

/// The colour spaces that can be converted.
pub open spec fn convertible() -> Seq<ColorSpace> {
    seq![
        ColorSpace::RGB,
        ColorSpace::RGBA,
        ColorSpace::YCbCr,
        ColorSpace::Luma,
        ColorSpace::LumaA,
        ColorSpace::CMYK,
        ColorSpace::BGR,
        ColorSpace::BGRA,
        ColorSpace::ARGB,
        ColorSpace::HSV,
    ]
}

fn convertible_spaces() -> (supported: Vec<ColorSpace>)
    ensures
        supported@ == convertible(),
{
    vec![
        ColorSpace::RGB,
        ColorSpace::RGBA,
        ColorSpace::YCbCr,
        ColorSpace::Luma,
        ColorSpace::LumaA,
        ColorSpace::CMYK,
        ColorSpace::BGR,
        ColorSpace::BGRA,
        ColorSpace::ARGB,
        ColorSpace::HSV,
    ]
}

/// Converts an image to a colour profile.
#[derive(Debug)]
pub struct ApplyICC {
    target: Option<Vec<u8>>,
    space: ProfileSpace,
}

impl ApplyICC {
    /// The profile that images are converted to; `None` is the built-in sRGB.
    pub closed spec fn profile(self) -> Option<Seq<u8>> {
        bytes_of(self.target)
    }

    /// The colours of that profile.
    pub closed spec fn colors(self) -> SpaceView {
        self.space@
    }

    /// An operation that converts to the profile of an ICC file.
    pub fn new(profile: Vec<u8>) -> (result: Result<ApplyICC, ImageFailure>)
        ensures
            match icc_space(profile@) {
                Ok(space) => result matches Ok(operation) && operation.profile() == Some(profile@)
                    && operation.colors() == space,
                Err(message) => result matches Err(failure) && failure@ == plain_failure(message),
            },
    {
        match profile_space(profile.as_slice()) {
            Ok(space) => Ok(ApplyICC { target: Some(profile), space }),
            Err(message) => Err(ImageFailure::other(message)),
        }
    }

    /// An operation that converts to the built-in sRGB profile.
    pub fn srgb() -> (operation: ApplyICC)
        ensures
            operation.profile() is None,
            operation.colors() == SpaceView::Rgb,
    {
        ApplyICC { target: None, space: ProfileSpace::Rgb }
    }

    /// The operation's name.
    pub fn name(&self) -> (name: &'static str)
        ensures
            name@ == "apply icc profile"@,
    {
        "apply icc profile"
    }

    /// The colour spaces that can be converted.
    pub fn supported_colorspaces(&self) -> (supported: Vec<ColorSpace>)
        ensures
            supported@ == convertible(),
    {
        convertible_spaces()
    }

    /// The depths that can be converted.
    pub fn supported_types(&self) -> (supported: Vec<BitDepth>)
        ensures
            supported@ == seq![BitDepth::Eight, BitDepth::Sixteen],
    {
        vec![BitDepth::Eight, BitDepth::Sixteen]
    }

    /// Whether a conversion of the image depends on its depth.
    pub open spec fn judges_depth(self, image: RasterView) -> bool {
        reaches_depth(image_space(image), image.colorspace, self.colors())
    }

    /// Converts an image whose depth is known wherever that matters; `None`, and
    /// the image as it was, for any other.
    pub fn execute_checked(&self, image: &mut Raster) -> (result: Option<Result<(), ImageFailure>>)
        requires
            old(image)@.wf(),
        ensures
            final(image)@.wf(),
            match result {
                None => old(image).depth is Unknown && self.judges_depth(old(image)@)
                    && *final(image) == *old(image),
                Some(result) => {
                    &&& old(image).depth is Unknown ==> !self.judges_depth(old(image)@)
                    &&& applied(
                        self.profile(),
                        self.colors(),
                        old(image)@,
                        final(image)@,
                        failure_of(result),
                    )
                },
            },
    {
        if let BitDepth::Unknown = image.depth {
            let source = match &image.icc {
                Some(icc) => profile_space(icc.as_slice()),
                None => Ok(ProfileSpace::Rgb),
            };
            if depth_matters(&source, image.colorspace, &self.space) {
                return None;
            }
        }
        Some(self.execute_impl(image))
    }

    /// Converts an image, from the profile it carries or else from sRGB.
    pub fn execute_impl(&self, image: &mut Raster) -> (result: Result<(), ImageFailure>)
        requires
            old(image)@.wf(),
            old(image).depth is Unknown ==> !self.judges_depth(old(image)@),
        ensures
            applied(
                self.profile(),
                self.colors(),
                old(image)@,
                final(image)@,
                failure_of(result),
            ),
            final(image)@.wf(),
    {
        let ghost before = image@;
        let source = match &image.icc {
            Some(icc) => profile_space(icc.as_slice()),
            None => Ok(ProfileSpace::Rgb),
        };
        let from = image.colorspace;
        let to = match decide_conversion(source, from, image.depth, &self.space) {
            Ok(to) => to,
            Err(failure) => {
                return Err(failure);
            },
        };
        let bits: usize = 8 * image.depth.bytes_per_sample() as usize;
        let formats = (pixel_format(from, bits), pixel_format(to, bits));
        let (from_format, to_format): (u32, u32) = match formats {
            (Some(from_format), Some(to_format)) => (from_format, to_format),
            _ => {
                assert(false);
                (0, 0)
            },
        };
        let target = match &self.target {
            Some(target) => Some(target),
            None => None,
        };
        let copy_alpha = from.has_alpha();
        let flags: u32 = if copy_alpha {
            FLAGS_NO_CACHE_COPY_ALPHA
        } else {
            FLAGS_NO_CACHE
        };
        let length: usize;
        let mut frames: Vec<Frame> = Vec::new();
        let icc: Vec<u8>;
        {
            let source = match &image.icc {
                Some(icc) => Some(icc),
                None => None,
            };
            proof {
                assert(format_of(from, bits) == Some(from_format));
                assert(format_of(to, bits) == Some(to_format));
            }
            let prepared = prepare(source, target, from_format, to_format, PERCEPTUAL, flags);
            let ghost answer = prepared_view(prepared);
            let ghost request = request_for(self.profile(), to, before);
            proof {
                assert(request.may_answer(answer));
            }
            icc = match prepared {
                Ok(icc) => icc,
                Err(message) => {
                    return Err(ImageFailure::other(message));
                },
            };
            length = match destination_length(image.width, image.height, to, image.depth) {
                Ok(length) => length,
                Err(failure) => {
                    return Err(failure);
                },
            };
            let conversion = Conversion {
                source,
                target,
                from,
                to,
                from_format,
                to_format,
                intent: PERCEPTUAL,
                flags,
                copy_alpha,
                sample_bytes: bits / 8,
                pixels: (image.width * image.height) as u32,
            };
            let mut at: usize = 0;
            while at < image.frames.len()
                invariant
                    at <= image.frames.len(),
                    frames.len() == at,
                    image@ == before,
                    before.wf(),
                    before.depth is Eight || before.depth is Sixteen,
                    conversion.wf(),
                    conversion.from == before.colorspace,
                    conversion.sample_bytes == before.depth.sample_bytes(),
                    conversion.pixels == before.width * before.height,
                    conversion.fills(length as int, conversion.to),
                    forall|i: int|
                        #![trigger frames@[i]]
                        0 <= i < at ==> {
                            &&& frame_converted(request, before.frames[i], frames@[i]@)
                            &&& frames@[i]@.samples.count() == before.width * before.height
                                * conversion.to.components()
                        },
                    request == conversion.request(),
                    request == request_for(self.profile(), to, before),
                    answer == Ok::<Seq<u8>, Seq<char>>(icc@),
                    request.may_answer(answer),
                    size_refusal(before.width, before.height, to, before.depth) is None,
                    icc_decision(
                        image_space(before),
                        before.colorspace,
                        before.depth,
                        self.colors(),
                    ) == Ok::<ColorSpace, FailureView>(to),
                    *image == *old(image),
                decreases image.frames.len() - at,
            {
                proof {
                    assert(before.frames[at as int] == image.frames@[at as int]@);
                }
                let frame = &image.frames[at];
                match convert_frame(conversion, frame, length) {
                    Ok(converted) => {
                        frames.push(converted);
                    },
                    Err(message) => {
                        proof {
                            assert(request.may_give(
                                before.frames[at as int].samples,
                                Err(message@),
                            ));
                            assert(ran(
                                request,
                                icc@,
                                before,
                                before,
                                Some(plain_failure(message@)),
                            ));
                        }
                        return Err(ImageFailure::other(message));
                    },
                }
                at = at + 1;
            }
            proof {
                let after = RasterView {
                    width: before.width,
                    height: before.height,
                    colorspace: to,
                    depth: before.depth,
                    frames: frames_of(frames@),
                    icc: Some(icc@),
                };
                assert(image_converted(request, before, after, icc@));
                assert(answered(request, answer, before, after, None));
            }
        }
        image.frames = frames;
        image.colorspace = to;
        image.icc = Some(icc);
        Ok(())
    }
}

/// Converts an image to sRGB from the profile it carries.
#[derive(Debug)]
pub struct ApplySRGB;

impl ApplySRGB {
    /// The operation's name.
    pub fn name(&self) -> (name: &'static str)
        ensures
            name@ == "apply srgb profile"@,
    {
        "apply srgb profile"
    }

    /// The colour spaces that can be converted.
    pub fn supported_colorspaces(&self) -> (supported: Vec<ColorSpace>)
        ensures
            supported@ == convertible(),
    {
        convertible_spaces()
    }

    /// The depths that can be converted.
    pub fn supported_types(&self) -> (supported: Vec<BitDepth>)
        ensures
            supported@ == seq![BitDepth::Eight, BitDepth::Sixteen],
    {
        vec![BitDepth::Eight, BitDepth::Sixteen]
    }

    /// Whether a conversion of the image depends on its depth.
    pub open spec fn judges_depth(self, image: RasterView) -> bool {
        image.icc is Some && reaches_depth(image_space(image), image.colorspace, SpaceView::Rgb)
    }

    /// Converts an image whose depth is known wherever that matters; `None`, and
    /// the image as it was, for any other.
    pub fn execute_checked(&self, image: &mut Raster) -> (result: Option<Result<(), ImageFailure>>)
        requires
            old(image)@.wf(),
        ensures
            final(image)@.wf(),
            match result {
                None => old(image).depth is Unknown && self.judges_depth(old(image)@)
                    && *final(image) == *old(image),
                Some(result) => {
                    &&& old(image).depth is Unknown ==> !self.judges_depth(old(image)@)
                    &&& old(image).icc is None ==> result is Ok && *final(image) == *old(image)
                    &&& old(image).icc is Some ==> applied(
                        None,
                        SpaceView::Rgb,
                        old(image)@,
                        final(image)@,
                        failure_of(result),
                    )
                },
            },
    {
        if let BitDepth::Unknown = image.depth {
            if let Some(icc) = &image.icc {
                let source = profile_space(icc.as_slice());
                if depth_matters(&source, image.colorspace, &ProfileSpace::Rgb) {
                    return None;
                }
            }
        }
        Some(self.execute_impl(image))
    }

    /// Converts an image to sRGB; one without a profile stays as it is.
    pub fn execute_impl(&self, image: &mut Raster) -> (result: Result<(), ImageFailure>)
        requires
            old(image)@.wf(),
            old(image).depth is Unknown ==> !self.judges_depth(old(image)@),
        ensures
            final(image)@.wf(),
            old(image).icc is None ==> result is Ok && *final(image) == *old(image),
            old(image).icc is Some ==> applied(
                None,
                SpaceView::Rgb,
                old(image)@,
                final(image)@,
                failure_of(result),
            ),
    {
        if image.icc.is_none() {
            return Ok(());
        }
        ApplyICC::srgb().execute_impl(image)
    }
}

/// A conversion that fails leaves the image as it was.
pub proof fn law_a_failed_conversion_changes_nothing(
    target: Option<Seq<u8>>,
    target_space: SpaceView,
    before: RasterView,
    after: RasterView,
    failure: FailureView,
)
    requires
        applied(target, target_space, before, after, Some(failure)),
    ensures
        after == before,
{
}

/// A conversion that succeeds keeps the size, the depth, the pictures and their
/// durations, and gives the image a profile.
pub proof fn law_a_conversion_keeps_the_shape(
    target: Option<Seq<u8>>,
    target_space: SpaceView,
    before: RasterView,
    after: RasterView,
)
    requires
        applied(target, target_space, before, after, None),
    ensures
        after.width == before.width,
        after.height == before.height,
        after.depth == before.depth,
        after.icc is Some,
        after.frames.len() == before.frames.len(),
        forall|i: int|
            #![trigger after.frames[i]]
            0 <= i < after.frames.len() ==> after.frames[i].numerator == before.frames[i].numerator
                && after.frames[i].denominator == before.frames[i].denominator,
        space_of(after.colorspace) == Some(target_space),
{
}

/// A conversion that succeeds keeps alpha: an image has alpha afterwards
/// exactly where it had it before, and every pixel keeps its own.
pub proof fn law_a_conversion_keeps_alpha(
    target: Option<Seq<u8>>,
    target_space: SpaceView,
    before: RasterView,
    after: RasterView,
    frame: int,
    pixel: int,
)
    requires
        applied(target, target_space, before, after, None),
        after.wf(),
        0 <= frame < after.frames.len(),
        0 <= pixel < before.width * before.height,
    ensures
        after.colorspace.alpha() == before.colorspace.alpha(),
        before.colorspace.alpha() ==> alpha_of(
            after.frames[frame].samples,
            after.colorspace,
            pixel,
        ) == alpha_of(before.frames[frame].samples, before.colorspace, pixel),
{
    let components = after.colorspace.components() as int;
    let pixels = before.width * before.height;
    let samples = after.frames[frame].samples;
    if before.colorspace.alpha() {
        assert(samples.count() == pixels * components);
        assert(pixels * components / components == pixels) by (nonlinear_arith)
            requires
                components > 0,
        ;
        assert(alpha_of(samples, after.colorspace, pixel) == alpha_of(
            before.frames[frame].samples,
            before.colorspace,
            pixel,
        ));
    }
}

/// The colour spaces that can be converted are those that a profile describes,
/// and the colour engine has a layout for each of them at every depth that can
/// be converted.
pub proof fn law_every_convertible_space_has_a_layout(colorspace: ColorSpace)
    ensures
        convertible().contains(colorspace) <==> space_of(colorspace) is Some,
        space_of(colorspace) is Some <==> format_of(colorspace, 8) is Some,
        space_of(colorspace) is Some <==> format_of(colorspace, 16) is Some,
{
    let all = convertible();
    assert(all[0] is RGB && all[1] is RGBA && all[2] is YCbCr && all[3] is Luma && all[4] is LumaA);
    assert(all[5] is CMYK && all[6] is BGR && all[7] is BGRA && all[8] is ARGB && all[9] is HSV);
}

/// Only pixels with alpha need a target with alpha: a target that cannot keep
/// alpha is refused for them, and accepted for the others.
pub proof fn law_alpha_is_never_dropped(colorspace: ColorSpace, depth: BitDepth, target: SpaceView)
    requires
        space_of(colorspace) is Some,
        depth is Eight || depth is Sixteen,
        destination_of(target, false) is Some,
    ensures
        icc_decision(Ok(space_of(colorspace)->0), colorspace, depth, target) is Ok <==> (
        colorspace.alpha() ==> target is Rgb || target is Gray),
{
}

} // verus!
