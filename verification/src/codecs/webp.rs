//! WebP: still pictures in, the first picture of an animation, and pictures
//! out.

use vstd::prelude::*;

use crate::codecs::failures::{
    colorspace_failure, encode_failure, failed_encode, plain_failure, refused_colorspace,
    refused_decode,
};
use crate::color::{BitDepth, ColorSpace};
use crate::error::{FailureView, ImageFailure};
use crate::raster::{eight_bit, still, to_eight_bit, Raster, RasterView, Samples, SamplesView};

verus! {

/// Upper bound on a file read into memory before decoding.
pub const MAX_WEBP_BYTES: u64 = 268435456;

/// A decoded picture: its bytes, row by row.
#[derive(Debug, PartialEq, Eq)]
pub struct WebPPicture {
    /// Three bytes a pixel, four with alpha.
    pub pixels: Vec<u8>,
    /// Pixels in a row.
    pub width: u32,
    /// Rows.
    pub height: u32,
    /// Whether the pixels have alpha.
    pub alpha: bool,
}

/// The colour space of pixels with or without alpha.
pub open spec fn layout(alpha: bool) -> ColorSpace {
    if alpha {
        ColorSpace::RGBA
    } else {
        ColorSpace::RGB
    }
}

impl WebPPicture {
    /// There are the bytes that the size calls for.
    pub open spec fn wf(self) -> bool {
        self.pixels@.len() == self.width * self.height * layout(self.alpha).components()
    }

    /// The picture as an image.
    pub open spec fn image(self) -> RasterView {
        still(
            self.width as usize,
            self.height as usize,
            layout(self.alpha),
            SamplesView::Eight(self.pixels@),
        )
    }
}

/// A picture by its contents: bytes, width, height, alpha.
pub open spec fn picture_view(picture: Option<WebPPicture>) -> Option<(Seq<u8>, u32, u32, bool)> {
    match picture {
        Some(picture) => Some((picture.pixels@, picture.width, picture.height, picture.alpha)),
        None => None,
    }
}

/// What `webp::BitstreamFeatures` reads from a file's header: width and height.
pub uninterp spec fn webp_features(data: Seq<u8>) -> Option<(u32, u32)>;

/// What `webp::Decoder` makes of a file: bytes, width, height, alpha.
pub uninterp spec fn webp_still(data: Seq<u8>) -> Option<(Seq<u8>, u32, u32, bool)>;

/// Whether `webp::Encoder::encode_advanced` may answer with `outcome` for these
/// pixels of this size under this configuration: `None` where the
/// configuration could not be initialised, else the file or the error's name.
pub uninterp spec fn webp_written(
    pixels: Seq<u8>,
    alpha: bool,
    width: u32,
    height: u32,
    quality: u8,
    lossless: bool,
    near_lossless: i32,
    exact: bool,
    outcome: Option<Result<Seq<u8>, Seq<char>>>,
) -> bool;

/// Calls `webp::BitstreamFeatures::new`: the width and height that a file's
/// header declares, which depend on the bytes alone.
#[verifier::external_body]
pub(crate) fn read_features(data: &[u8]) -> (size: Option<(u32, u32)>)
    ensures
        size == webp_features(data@),
{
    let features = webp::BitstreamFeatures::new(data)?;
    Some((features.width(), features.height()))
}

/// Calls `webp::Decoder::decode`: the picture of a still file, which depends on
/// the bytes alone; nothing for an animation or a file that cannot be decoded.
/// The picture has the size that the header declares and all the bytes that
/// the size calls for.
#[verifier::external_body]
fn read_still(data: &[u8]) -> (picture: Option<WebPPicture>)
    ensures
        picture_view(picture) == webp_still(data@),
        picture matches Some(picture) ==> picture.wf() && webp_features(data@) == Some(
            (picture.width, picture.height),
        ),
{
    let image = webp::Decoder::new(data).decode()?;
    Some(WebPPicture {
        pixels: image.to_vec(),
        width: image.width(),
        height: image.height(),
        alpha: image.is_alpha(),
    })
}

/// Whether `webp::WebPConfig::new` may answer so: with a configuration where
/// `initialized`, else with an error.
pub uninterp spec fn webp_configured(initialized: bool) -> bool;

/// Calls `webp::WebPConfig::new` and says whether it succeeded. Which of the two
/// it is rests on the library that is linked, and is not described further.
#[verifier::external_body]
fn configuration_initializes() -> (initializes: bool)
    ensures
        webp_configured(initializes),
{
    webp::WebPConfig::new().is_ok()
}

/// An encoder's answer by its contents.
pub open spec fn outcome_view(outcome: Option<Result<Vec<u8>, String>>) -> Option<
    Result<Seq<u8>, Seq<char>>,
> {
    match outcome {
        Some(Ok(file)) => Some(Ok(file@)),
        Some(Err(error)) => Some(Err(error@)),
        None => None,
    }
}

/// Calls `webp::Encoder::encode_advanced` on the pixels, with the default
/// configuration changed in the four given fields. The file that comes out is
/// not described further. A buffer shorter than the size calls for, and a row
/// of more bytes than an `i32` counts, are left out: the encoder does not take
/// them.
#[verifier::external_body]
fn write_picture(pixels: &[u8], alpha: bool, width: u32, height: u32, options: WebPOptions) -> (outcome:
    Option<Result<Vec<u8>, String>>)
    requires
        pixels@.len() >= width * height * layout(alpha).components(),
        width * 4 <= i32::MAX,
    ensures
        webp_written(
            pixels@,
            alpha,
            width,
            height,
            options.quality,
            options.lossless,
            options.near_lossless,
            options.exact,
            outcome_view(outcome),
        ),
{
    let mut config = webp::WebPConfig::new().ok()?;
    config.quality = options.quality.into();
    config.lossless = options.lossless.into();
    config.near_lossless = options.near_lossless;
    config.exact = options.exact.into();
    let layout = if alpha { webp::PixelLayout::Rgba } else { webp::PixelLayout::Rgb };
    let encoder = webp::Encoder::new(pixels, layout, width, height);
    let file = encoder.encode_advanced(&config);
    Some(file.map(|file| file.to_vec()).map_err(|error| format!("{error:?}")))
}

/// Decodes a WebP file into its only or first picture.
#[derive(Debug)]
pub struct WebPDecoder {
    /// The picture of a still file.
    pub still: Option<WebPPicture>,
    /// What the animation decoder read, used only when `still` is empty: the
    /// first picture, if the animation has one.
    pub animated: Option<Option<WebPPicture>>,
}

impl WebPDecoder {
    /// The pictures have the bytes that their sizes call for.
    pub open spec fn wf(self) -> bool {
        &&& self.still matches Some(picture) ==> picture.wf()
        &&& self.animated matches Some(Some(picture)) ==> picture.wf()
    }

    /// The picture that decoding gives.
    pub open spec fn picture(self) -> Option<WebPPicture> {
        match self.still {
            Some(picture) => Some(picture),
            None => match self.animated {
                Some(first) => first,
                None => None,
            },
        }
    }

    /// A decoder for the contents of a file; `None` where the file is not a
    /// still that can be decoded, so that the animation decoder has to read it
    /// and [`WebPDecoder::from_animation`] goes on with what it read. (That
    /// decoder is not called from here: it does not return on every file.)
    pub fn try_new(data: &[u8]) -> (result: Result<Option<WebPDecoder>, ImageFailure>)
        ensures
            data@.len() > MAX_WEBP_BYTES ==> (result matches Err(failure) && failure@
                == refused_decode("WebP input exceeds the 256 MiB read limit"@)),
            data@.len() <= MAX_WEBP_BYTES ==> (result matches Ok(decoder) && match decoder {
                Some(decoder) => {
                    &&& decoder.wf()
                    &&& decoder.animated is None
                    &&& decoder.still is Some
                    &&& picture_view(decoder.still) == webp_still(data@)
                    &&& webp_features(data@) == Some(
                        (decoder.still->0.width, decoder.still->0.height),
                    )
                },
                None => webp_still(data@) is None,
            }),
    {
        if data.len() as u64 > MAX_WEBP_BYTES {
            return Err(
                ImageFailure::decode("WebP input exceeds the 256 MiB read limit".to_owned()),
            );
        }
        match read_still(data) {
            Some(picture) => Ok(Some(WebPDecoder { still: Some(picture), animated: None })),
            None => Ok(None),
        }
    }

    /// A decoder for what the animation decoder read: the first picture, where
    /// there is one, or its message.
    pub fn from_animation(outcome: Result<Option<WebPPicture>, String>) -> (result: Result<
        WebPDecoder,
        ImageFailure,
    >)
        requires
            outcome matches Ok(Some(picture)) ==> picture.wf(),
        ensures
            match outcome {
                Ok(first) => result matches Ok(decoder) && decoder.wf() && decoder.still is None
                    && decoder.animated == Some(first),
                Err(message) => result matches Err(failure) && failure@ == refused_decode(message@),
            },
    {
        match outcome {
            Ok(first) => Ok(WebPDecoder { still: None, animated: Some(first) }),
            Err(message) => Err(ImageFailure::decode(message)),
        }
    }

    /// The width and height of the picture.
    pub fn dimensions(&self) -> (size: Option<(usize, usize)>)
        ensures
            size == match self.picture() {
                Some(picture) => Some((picture.width as usize, picture.height as usize)),
                None => None,
            },
    {
        match &self.still {
            Some(picture) => Some((picture.width as usize, picture.height as usize)),
            None => match &self.animated {
                Some(Some(picture)) => Some((picture.width as usize, picture.height as usize)),
                _ => None,
            },
        }
    }

    /// The layout that the decoder produced; RGBA where there is no picture.
    pub fn out_colorspace(&self) -> (colorspace: ColorSpace)
        ensures
            colorspace == match self.picture() {
                Some(picture) => layout(picture.alpha),
                None => ColorSpace::RGBA,
            },
    {
        let alpha = match &self.still {
            Some(picture) => picture.alpha,
            None => match &self.animated {
                Some(Some(picture)) => picture.alpha,
                _ => true,
            },
        };
        if alpha {
            ColorSpace::RGBA
        } else {
            ColorSpace::RGB
        }
    }

    /// The picture as an image, handed over once.
    pub fn decode(&mut self) -> (result: Result<Raster, ImageFailure>)
        requires
            old(self).wf(),
        ensures
            final(self).wf(),
            match old(self).picture() {
                Some(picture) => {
                    &&& result matches Ok(image) && image@ == picture.image() && image@.wf()
                    &&& final(self).still is None
                    &&& final(self).animated == if old(self).still is Some {
                        old(self).animated
                    } else {
                        None
                    }
                },
                None => {
                    &&& result matches Err(failure) && failure@ == refused_decode(
                        "WebP image has no frames"@,
                    )
                    &&& *final(self) == *old(self)
                },
            },
    {
        if self.dimensions().is_none() {
            return Err(ImageFailure::decode("WebP image has no frames".to_owned()));
        }
        let taken = match self.still.take() {
            Some(picture) => Some(picture),
            None => match self.animated.take() {
                Some(first) => first,
                None => None,
            },
        };
        match taken {
            Some(picture) => {
                let colorspace = if picture.alpha {
                    ColorSpace::RGBA
                } else {
                    ColorSpace::RGB
                };
                Ok(
                    Raster::new_still(
                        picture.width as usize,
                        picture.height as usize,
                        colorspace,
                        Samples::Eight(picture.pixels),
                    ),
                )
            },
            None => Err(ImageFailure::decode("WebP image contains no frames".to_owned())),
        }
    }

    /// The decoder's name.
    pub fn name(&self) -> (name: &'static str)
        ensures
            name@ == "webp"@,
    {
        "webp"
    }
}

/// How a picture is written.
#[derive(Debug, Clone, Copy, PartialEq, Eq, Structural)]
pub struct WebPOptions {
    /// From 0 to 100.
    pub quality: u8,
    /// Whether no detail may be lost.
    pub lossless: bool,
    /// From 0, the strongest preprocessing, to 100, none.
    pub near_lossless: i32,
    /// Whether the colours of transparent pixels are kept.
    pub exact: bool,
}

/// The options that an encoder has unless told otherwise.
pub open spec fn default_webp_options() -> WebPOptions {
    WebPOptions { quality: 75, lossless: false, near_lossless: 100, exact: false }
}

impl WebPOptions {
    /// The default options where the encoder's configuration was initialised, and
    /// an error where it was not.
    pub fn when_configured(initialized: bool) -> (result: Result<WebPOptions, ()>)
        ensures
            initialized ==> result == Ok::<WebPOptions, ()>(default_webp_options()),
            !initialized ==> result is Err,
    {
        if initialized {
            Ok(WebPOptions { quality: 75, lossless: false, near_lossless: 100, exact: false })
        } else {
            Err(())
        }
    }

    /// The default options; an error where, and only where, the encoder's
    /// configuration cannot be initialised.
    pub fn new() -> (result: Result<WebPOptions, ()>)
        ensures
            webp_configured(result is Ok),
            result matches Ok(options) ==> options == default_webp_options(),
    {
        WebPOptions::when_configured(configuration_initializes())
    }
}

/// A WebP encoder.
#[derive(Debug, Clone, Copy, PartialEq, Eq)]
pub struct WebPEncoder {
    /// The options; `None` where they could not be initialised, which encoding
    /// reports.
    pub options: Option<WebPOptions>,
}

impl Default for WebPEncoder {
    fn default() -> (encoder: Self)
        ensures
            webp_configured(encoder.options is Some),
            encoder.options matches Some(options) ==> options == default_webp_options(),
    {
        WebPEncoder::with_outcome(WebPOptions::new())
    }
}

/// Why an image is refused before the encoder sees it, if it is.
pub open spec fn webp_refusal(options: Option<WebPOptions>, image: RasterView) -> Option<
    FailureView,
> {
    if image.frames.len() == 0 {
        Some(plain_failure("Cannot encode an image with no frames"@))
    } else if !(image.colorspace is RGB || image.colorspace is RGBA) {
        Some(refused_colorspace(image.colorspace, "[RGB, RGBA]"@))
    } else if options is None {
        Some(failed_encode("libwebp encoder configuration failed to initialize"@))
    } else {
        None
    }
}

/// What is returned for an answer of the encoder.
pub open spec fn webp_result(outcome: Option<Result<Seq<u8>, Seq<char>>>) -> Result<
    Seq<u8>,
    FailureView,
> {
    match outcome {
        Some(Ok(file)) => Ok(file),
        Some(Err(error)) => Err(failed_encode("webp encoding failed: "@ + error)),
        None => Err(failed_encode("libwebp encoder configuration failed to initialize"@)),
    }
}

/// A file or a failure by its contents.
pub open spec fn file_view(result: Result<Vec<u8>, ImageFailure>) -> Result<Seq<u8>, FailureView> {
    match result {
        Ok(file) => Ok(file@),
        Err(failure) => Err(failure@),
    }
}

/// Turns an answer of the encoder into a file or a failure.
pub fn finish_encoding(outcome: Option<Result<Vec<u8>, String>>) -> (result: Result<
    Vec<u8>,
    ImageFailure,
>)
    ensures
        file_view(result) == webp_result(outcome_view(outcome)),
{
    match outcome {
        Some(Ok(file)) => Ok(file),
        Some(Err(error)) => {
            let mut reason = "webp encoding failed: ".to_owned();
            reason.append(error.as_str());
            Err(encode_failure(reason.as_str()))
        },
        None => Err(encode_failure("libwebp encoder configuration failed to initialize")),
    }
}

impl WebPEncoder {
    /// An encoder with what became of its options: an error is kept as their
    /// absence, for encoding to report.
    pub fn with_outcome(outcome: Result<WebPOptions, ()>) -> (encoder: WebPEncoder)
        ensures
            outcome matches Ok(options) ==> encoder.options == Some(options),
            outcome is Err ==> encoder.options is None,
    {
        match outcome {
            Ok(options) => WebPEncoder { options: Some(options) },
            Err(_) => WebPEncoder { options: None },
        }
    }

    /// An encoder with the default options, which it lacks where, and only where,
    /// the configuration cannot be initialised.
    pub fn new() -> (encoder: WebPEncoder)
        ensures
            webp_configured(encoder.options is Some),
            encoder.options matches Some(options) ==> options == default_webp_options(),
    {
        WebPEncoder::default()
    }

    /// An encoder with these options.
    pub fn new_with_options(options: WebPOptions) -> (encoder: WebPEncoder)
        ensures
            encoder.options == Some(options),
    {
        WebPEncoder { options: Some(options) }
    }

    /// Whether an image that is not refused has samples and sides that the
    /// library behind the encoder takes, as [`WebPEncoder::encode`] asks.
    pub fn has_room(&self, image: &Raster) -> (room: bool)
        ensures
            room == (webp_refusal(self.options, image@) is None ==> {
                &&& image.depth is Eight || image.depth is Sixteen
                &&& image.width * 4 <= i32::MAX
                &&& image.height <= u32::MAX
            }),
    {
        if image.frames.len() == 0 || self.options.is_none() {
            return true;
        }
        match image.colorspace {
            ColorSpace::RGB | ColorSpace::RGBA => {},
            _ => return true,
        }
        matches!(image.depth, BitDepth::Eight | BitDepth::Sixteen) && image.width as u128 * 4
            <= i32::MAX as u128 && image.height as u128 <= u32::MAX as u128
    }

    /// The file for the first picture of an image.
    ///
    /// Samples of single precision have to be brought to eight bits first.
    pub fn encode(&self, image: &Raster) -> (result: Result<Vec<u8>, ImageFailure>)
        requires
            image@.wf(),
            webp_refusal(self.options, image@) is None ==> {
                &&& image.depth is Eight || image.depth is Sixteen
                &&& image.width * 4 <= i32::MAX
                &&& image.height <= u32::MAX
            },
        ensures
            match webp_refusal(self.options, image@) {
                Some(failure) => file_view(result) == Err::<Seq<u8>, FailureView>(failure),
                None => exists|outcome: Option<Result<Seq<u8>, Seq<char>>>|
                    {
                        &&& #[trigger] webp_written(
                            eight_bit(image@.frames[0].samples),
                            image.colorspace is RGBA,
                            image.width as u32,
                            image.height as u32,
                            self.options->0.quality,
                            self.options->0.lossless,
                            self.options->0.near_lossless,
                            self.options->0.exact,
                            outcome,
                        )
                        &&& file_view(result) == webp_result(outcome)
                    },
            },
    {
        if image.frames.len() == 0 {
            return Err(
                ImageFailure::other("Cannot encode an image with no frames".to_owned()),
            );
        }
        let alpha = match image.colorspace {
            ColorSpace::RGB => false,
            ColorSpace::RGBA => true,
            found => {
                return Err(colorspace_failure(found, "[RGB, RGBA]"));
            },
        };
        let options = match self.options {
            Some(options) => options,
            None => {
                return Err(encode_failure("libwebp encoder configuration failed to initialize"));
            },
        };
        proof {
            assert(image@.frames[0] == image.frames@[0]@);
        }
        let pixels = to_eight_bit(&image.frames[0].samples);
        let outcome = write_picture(
            pixels.as_slice(),
            alpha,
            image.width as u32,
            image.height as u32,
            options,
        );
        let ghost answer = outcome_view(outcome);
        let result = finish_encoding(outcome);
        proof {
            assert(webp_written(
                eight_bit(image@.frames[0].samples),
                image.colorspace is RGBA,
                image.width as u32,
                image.height as u32,
                self.options->0.quality,
                self.options->0.lossless,
                self.options->0.near_lossless,
                self.options->0.exact,
                answer,
            ));
        }
        result
    }

    /// The colour spaces that the encoder takes.
    pub fn supported_colorspaces(&self) -> (supported: Vec<ColorSpace>)
        ensures
            supported@ == seq![ColorSpace::RGB, ColorSpace::RGBA],
    {
        vec![ColorSpace::RGB, ColorSpace::RGBA]
    }

    /// The depths that the encoder takes.
    pub fn supported_bit_depth(&self) -> (supported: Vec<BitDepth>)
        ensures
            supported@ == seq![BitDepth::Eight],
    {
        vec![BitDepth::Eight]
    }

    /// The depth that an image is brought to before it is encoded.
    pub fn default_depth(&self, _depth: BitDepth) -> (depth: BitDepth)
        ensures
            depth == BitDepth::Eight,
    {
        BitDepth::Eight
    }

    /// The encoder's name.
    pub fn name(&self) -> (name: &'static str)
        ensures
            name@ == "webp"@,
    {
        "webp"
    }
}

/// A picture decodes to an image of its own size, in the layout that its alpha
/// calls for: a file without alpha is not widened to four samples a pixel.
pub proof fn law_a_picture_is_not_widened(picture: WebPPicture)
    requires
        picture.wf(),
    ensures
        picture.image().wf(),
        picture.image().width == picture.width,
        picture.image().height == picture.height,
        picture.image().colorspace.alpha() == picture.alpha,
        picture.image().frame_samples() == picture.pixels@.len(),
{
    assert(picture.image().frame_samples() == picture.pixels@.len());
}

} // verus!
