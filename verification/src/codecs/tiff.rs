//! TIFF: the first picture of a file.

use vstd::prelude::*;

use crate::codecs::failures::refused_decode;
use crate::codecs::tiff_chunks::chunks_countable;
use crate::color::ColorSpace;
use crate::error::{FailureView, ImageFailure};
use crate::raster::{still, Raster, RasterView, Samples, SamplesView};
use crate::text::{decimal, push_decimal};

verus! {

/// Upper bound on the pixels of a picture that is read.
pub const MAX_TIFF_PIXELS: u64 = 100000000;

/// The colours of a picture, as the file declares them.
#[derive(Debug, PartialEq, Eq)]
pub enum TiffColor {
    /// Red, green, blue.
    RGB,
    /// Red, green, blue, alpha.
    RGBA,
    /// Cyan, magenta, yellow, key.
    CMYK,
    /// One grey sample.
    Gray,
    /// One grey sample and alpha.
    GrayA,
    /// Luma and two chroma samples.
    YCbCr,
    /// Anything else, by its name.
    Other(String),
}

/// A [`TiffColor`] by its contents.
pub enum TiffColorView {
    /// See [`TiffColor::RGB`].
    RGB,
    /// See [`TiffColor::RGBA`].
    RGBA,
    /// See [`TiffColor::CMYK`].
    CMYK,
    /// See [`TiffColor::Gray`].
    Gray,
    /// See [`TiffColor::GrayA`].
    GrayA,
    /// See [`TiffColor::YCbCr`].
    YCbCr,
    /// See [`TiffColor::Other`].
    Other(Seq<char>),
}

impl View for TiffColor {
    type V = TiffColorView;

    open spec fn view(&self) -> TiffColorView {
        match self {
            TiffColor::RGB => TiffColorView::RGB,
            TiffColor::RGBA => TiffColorView::RGBA,
            TiffColor::CMYK => TiffColorView::CMYK,
            TiffColor::Gray => TiffColorView::Gray,
            TiffColor::GrayA => TiffColorView::GrayA,
            TiffColor::YCbCr => TiffColorView::YCbCr,
            TiffColor::Other(name) => TiffColorView::Other(name@),
        }
    }
}

impl TiffColorView {
    /// The colour space that holds these colours, if one does.
    pub open spec fn colorspace(self) -> Option<ColorSpace> {
        match self {
            TiffColorView::RGB => Some(ColorSpace::RGB),
            TiffColorView::RGBA => Some(ColorSpace::RGBA),
            TiffColorView::CMYK => Some(ColorSpace::CMYK),
            TiffColorView::Gray => Some(ColorSpace::Luma),
            TiffColorView::GrayA => Some(ColorSpace::LumaA),
            TiffColorView::YCbCr => Some(ColorSpace::YCbCr),
            TiffColorView::Other(_) => None,
        }
    }
}

/// The samples of a picture; `None` where they are of a kind that no image
/// holds.
pub open spec fn samples_view(samples: Option<Samples>) -> Option<SamplesView> {
    match samples {
        Some(samples) => Some(samples@),
        None => None,
    }
}

/// The message of `tiff::decoder::Decoder::new` where it refuses a file.
pub uninterp spec fn tiff_open_error(data: Seq<u8>) -> Option<Seq<char>>;

/// The width and height that `tiff::decoder::Decoder::dimensions` reads, or its
/// message.
pub uninterp spec fn tiff_declared_size(data: Seq<u8>) -> Result<(u32, u32), Seq<char>>;

/// The colours that `tiff::decoder::Decoder::colortype` reads, or its message.
pub uninterp spec fn tiff_declared_color(data: Seq<u8>) -> Result<TiffColorView, Seq<char>>;

/// Whether `tiff::decoder::Decoder::read_image` may answer so for the first
/// picture of a file: with samples, `None` where they are neither bytes, nor
/// words, nor single-precision numbers, or with a message.
pub uninterp spec fn tiff_read(data: Seq<u8>, read: Result<Option<SamplesView>, Seq<char>>) -> bool;

/// Calls `tiff::decoder::Decoder::new` on the bytes of a file: nothing where it
/// succeeds, else its message, which depends on the bytes alone. It multiplies
/// the chunks out as it opens a file, so they have to be countable.
#[verifier::external_body]
fn open_error(data: &[u8]) -> (error: Option<String>)
    requires
        chunks_countable(data@),
    ensures
        crate::error::text_of(error) == tiff_open_error(data@),
{
    let opened = tiff::decoder::Decoder::new(std::io::Cursor::new(data));
    opened.err().map(|error| error.to_string())
}

/// A size or a message by its contents.
pub open spec fn size_view(size: Result<(u32, u32), String>) -> Result<(u32, u32), Seq<char>> {
    match size {
        Ok(size) => Ok(size),
        Err(message) => Err(message@),
    }
}

/// Calls `tiff::decoder::Decoder::dimensions` on the first picture of a file:
/// its width and height or the message, which depend on the bytes alone. The
/// file is opened first, so its chunks have to be countable.
#[verifier::external_body]
fn declared_size(data: &[u8]) -> (size: Result<(u32, u32), String>)
    requires
        chunks_countable(data@),
    ensures
        size_view(size) == tiff_declared_size(data@),
{
    let opened = tiff::decoder::Decoder::new(std::io::Cursor::new(data));
    let size = opened.and_then(|mut decoder| decoder.dimensions());
    size.map_err(|error| error.to_string())
}

/// Colours or a message by their contents.
pub open spec fn color_view(color: Result<TiffColor, String>) -> Result<TiffColorView, Seq<char>> {
    match color {
        Ok(color) => Ok(color@),
        Err(message) => Err(message@),
    }
}

/// Calls `tiff::decoder::Decoder::colortype` on the first picture of a file: its
/// colours, those without a variant here by their `Debug` text, or the message,
/// which depend on the bytes alone. The file is opened first, so its chunks have
/// to be countable.
#[verifier::external_body]
fn declared_color(data: &[u8]) -> (color: Result<TiffColor, String>)
    requires
        chunks_countable(data@),
    ensures
        color_view(color) == tiff_declared_color(data@),
{
    let opened = tiff::decoder::Decoder::new(std::io::Cursor::new(data));
    let color = opened.and_then(|mut decoder| decoder.colortype());
    color.map_err(|error| error.to_string()).map(|color| match color {
        tiff::ColorType::RGB(_) => TiffColor::RGB,
        tiff::ColorType::RGBA(_) => TiffColor::RGBA,
        tiff::ColorType::CMYK(_) => TiffColor::CMYK,
        tiff::ColorType::Gray(_) => TiffColor::Gray,
        tiff::ColorType::GrayA(_) => TiffColor::GrayA,
        tiff::ColorType::YCbCr(_) => TiffColor::YCbCr,
        other => TiffColor::Other(format!("{other:?}")),
    })
}

/// Samples or a message by their contents.
pub open spec fn read_view(read: Result<Option<Samples>, String>) -> Result<
    Option<SamplesView>,
    Seq<char>,
> {
    match read {
        Ok(samples) => Ok(samples_view(samples)),
        Err(message) => Err(message@),
    }
}

/// Calls `tiff::decoder::Decoder::read_image` on the first picture of a file:
/// its samples, single-precision numbers by their bits, or the message. What is
/// read passes through other codecs, and what is too much for the machine is
/// refused, so the answer is not described further. The file is opened first, so
/// its chunks have to be countable.
#[verifier::external_body]
fn read_samples(data: &[u8]) -> (read: Result<Option<Samples>, String>)
    requires
        chunks_countable(data@),
    ensures
        tiff_read(data@, read_view(read)),
{
    let opened = tiff::decoder::Decoder::new(std::io::Cursor::new(data));
    let read = opened.and_then(|mut decoder| decoder.read_image());
    read.map_err(|error| error.to_string()).map(|samples| match samples {
        tiff::decoder::DecodingResult::U8(data) => Some(Samples::Eight(data)),
        tiff::decoder::DecodingResult::U16(data) => Some(Samples::Sixteen(data)),
        tiff::decoder::DecodingResult::F32(data) => {
            Some(Samples::Float32(data.iter().map(|sample| sample.to_bits()).collect()))
        },
        _ => None,
    })
}

/// What a file has to say of its first picture before the pixels are read.
pub open spec fn header_of(data: Seq<u8>) -> Result<((u32, u32), ColorSpace), FailureView> {
    header_result(tiff_declared_size(data), tiff_declared_color(data))
}

/// What becomes of a declared size and declared colours.
pub open spec fn header_result(
    size: Result<(u32, u32), Seq<char>>,
    color: Result<TiffColorView, Seq<char>>,
) -> Result<((u32, u32), ColorSpace), FailureView> {
    match size {
        Err(message) => Err(refused_decode("Unable to read dimensions - "@ + message)),
        Ok(size) => if size.0 * size.1 > MAX_TIFF_PIXELS {
            Err(
                refused_decode(
                    "TIFF dimensions "@ + decimal(size.0 as nat) + "x"@ + decimal(size.1 as nat)
                        + " exceed the 100000000 pixel limit"@,
                ),
            )
        } else {
            match color {
                Err(message) => Err(refused_decode("Unable to read colorspace - "@ + message)),
                Ok(color) => match color.colorspace() {
                    Some(colorspace) => Ok((size, colorspace)),
                    None => Err(
                        refused_decode("Unsupported TIFF color type: "@ + color->Other_0),
                    ),
                },
            }
        },
    }
}

/// What becomes of the samples of a picture of this size and these colours.
pub open spec fn picture_result(
    size: (u32, u32),
    colorspace: ColorSpace,
    read: Result<Option<SamplesView>, Seq<char>>,
) -> Result<RasterView, FailureView> {
    match read {
        Err(message) => Err(refused_decode("Unable to decode TIFF file - "@ + message)),
        Ok(None) => Err(refused_decode("Tiff Data format not supported"@)),
        Ok(Some(samples)) => Ok(still(size.0 as usize, size.1 as usize, colorspace, samples)),
    }
}

/// Whether the samples are as many as the size and the colours call for, where
/// samples were read.
pub open spec fn samples_fit(
    size: (u32, u32),
    colorspace: ColorSpace,
    read: Result<Option<SamplesView>, Seq<char>>,
) -> bool {
    read matches Ok(Some(samples)) ==> samples.count() == size.0 * size.1 * colorspace.components()
}

/// An image or a failure by its contents.
pub open spec fn image_view(result: Result<Raster, ImageFailure>) -> Result<
    RasterView,
    FailureView,
> {
    match result {
        Ok(image) => Ok(image@),
        Err(failure) => Err(failure@),
    }
}

/// A header or a failure by its contents.
pub open spec fn header_view(result: Result<((u32, u32), ColorSpace), ImageFailure>) -> Result<
    ((u32, u32), ColorSpace),
    FailureView,
> {
    match result {
        Ok(header) => Ok(header),
        Err(failure) => Err(failure@),
    }
}

/// Judges a declared size and declared colours: the size is refused before the
/// colours are looked at.
pub fn check_header(size: Result<(u32, u32), String>, color: Result<TiffColor, String>) -> (result:
    Result<((u32, u32), ColorSpace), ImageFailure>)
    ensures
        header_view(result) == header_result(size_view(size), color_view(color)),
{
    let size: (u32, u32) = match size {
        Ok(size) => size,
        Err(message) => {
            let mut text = "Unable to read dimensions - ".to_owned();
            text.append(message.as_str());
            return Err(ImageFailure::decode(text));
        },
    };
    assert(size.0 * size.1 <= u32::MAX * u32::MAX) by (nonlinear_arith)
        requires
            size.0 <= u32::MAX,
            size.1 <= u32::MAX,
    ;
    if size.0 as u64 * size.1 as u64 > MAX_TIFF_PIXELS {
        let mut text = "TIFF dimensions ".to_owned();
        push_decimal(&mut text, size.0 as u128);
        text.append("x");
        push_decimal(&mut text, size.1 as u128);
        text.append(" exceed the 100000000 pixel limit");
        return Err(ImageFailure::decode(text));
    }
    let colorspace = match color {
        Ok(TiffColor::RGB) => ColorSpace::RGB,
        Ok(TiffColor::RGBA) => ColorSpace::RGBA,
        Ok(TiffColor::CMYK) => ColorSpace::CMYK,
        Ok(TiffColor::Gray) => ColorSpace::Luma,
        Ok(TiffColor::GrayA) => ColorSpace::LumaA,
        Ok(TiffColor::YCbCr) => ColorSpace::YCbCr,
        Ok(TiffColor::Other(name)) => {
            let mut text = "Unsupported TIFF color type: ".to_owned();
            text.append(name.as_str());
            return Err(ImageFailure::decode(text));
        },
        Err(message) => {
            let mut text = "Unable to read colorspace - ".to_owned();
            text.append(message.as_str());
            return Err(ImageFailure::decode(text));
        },
    };
    Ok((size, colorspace))
}

/// Whether the samples that were read are as many as the size and the colours
/// call for.
pub fn covers(size: (u32, u32), colorspace: ColorSpace, read: &Result<Option<Samples>, String>) -> (fits:
    bool)
    requires
        size.0 * size.1 <= MAX_TIFF_PIXELS,
    ensures
        fits == samples_fit(size, colorspace, read_view(*read)),
{
    match read {
        Ok(Some(samples)) => {
            let count: usize = match samples {
                Samples::Eight(samples) => samples.len(),
                Samples::Sixteen(samples) => samples.len(),
                Samples::Float32(samples) => samples.len(),
            };
            proof {
                let pixels = size.0 * size.1;
                let components = colorspace.components();
                assert(pixels * components <= MAX_TIFF_PIXELS * components) by (nonlinear_arith)
                    requires
                        0 <= pixels <= MAX_TIFF_PIXELS,
                        0 <= components,
                ;
            }
            count as u64 == size.0 as u64 * size.1 as u64 * colorspace.num_components() as u64
        },
        _ => true,
    }
}

/// The image of the samples of a picture of this size and these colours.
pub fn image_of(size: (u32, u32), colorspace: ColorSpace, read: Result<Option<Samples>, String>) -> (result:
    Result<Raster, ImageFailure>)
    requires
        samples_fit(size, colorspace, read_view(read)),
    ensures
        image_view(result) == picture_result(size, colorspace, read_view(read)),
        result matches Ok(image) ==> image@.wf(),
{
    match read {
        Ok(Some(samples)) => Ok(
            Raster::new_still(size.0 as usize, size.1 as usize, colorspace, samples),
        ),
        Ok(None) => Err(ImageFailure::decode("Tiff Data format not supported".to_owned())),
        Err(message) => {
            let mut text = "Unable to decode TIFF file - ".to_owned();
            text.append(message.as_str());
            Err(ImageFailure::decode(text))
        },
    }
}

/// Decodes the first picture of a TIFF file.
#[derive(Debug)]
pub struct TiffDecoder {
    data: Vec<u8>,
    dimensions: Option<(usize, usize)>,
    colorspace: ColorSpace,
}

impl TiffDecoder {
    /// The contents of the file.
    pub closed spec fn bytes(self) -> Seq<u8> {
        self.data@
    }

    /// The size of the picture, once it is known.
    pub closed spec fn size(self) -> Option<(usize, usize)> {
        self.dimensions
    }

    /// The colour space of the picture, once it is known.
    pub closed spec fn space(self) -> ColorSpace {
        self.colorspace
    }

    #[verifier::type_invariant]
    spec fn wf(self) -> bool {
        chunks_countable(self.data@)
    }

    /// A decoder for the contents of a file, the chunks of which have to be
    /// countable, see
    /// [`chunks_are_countable`](crate::codecs::tiff_chunks::chunks_are_countable).
    pub fn try_new(data: Vec<u8>) -> (result: Result<TiffDecoder, ImageFailure>)
        requires
            chunks_countable(data@),
        ensures
            match tiff_open_error(data@) {
                None => result matches Ok(decoder) && decoder.bytes() == data@ && decoder.size()
                    is None && decoder.space() == ColorSpace::Unknown,
                Some(message) => result matches Err(failure) && failure@ == refused_decode(
                    "Unable to create TIFF decoder: "@ + message,
                ),
            },
    {
        match open_error(data.as_slice()) {
            None => Ok(TiffDecoder { data, dimensions: None, colorspace: ColorSpace::Unknown }),
            Some(message) => {
                let mut text = "Unable to create TIFF decoder: ".to_owned();
                text.append(message.as_str());
                Err(ImageFailure::decode(text))
            },
        }
    }

    /// The image of the file; `None` where the samples that are read are not as
    /// many as the header calls for, which no image can hold.
    pub fn decode(&mut self) -> (result: Option<Result<Raster, ImageFailure>>)
        ensures
            match header_of(old(self).bytes()) {
                Err(failure) => result matches Some(Err(refusal)) && refusal@ == failure,
                Ok((size, colorspace)) => exists|read: Result<Option<SamplesView>, Seq<char>>|
                    {
                        &&& #[trigger] tiff_read(old(self).bytes(), read)
                        &&& match result {
                            Some(result) => samples_fit(size, colorspace, read) && image_view(result)
                                == picture_result(size, colorspace, read),
                            None => !samples_fit(size, colorspace, read),
                        }
                    },
            },
            result matches Some(Ok(image)) ==> image@.wf(),
            final(self).bytes() == old(self).bytes(),
            match tiff_declared_size(old(self).bytes()) {
                Ok(size) if size.0 * size.1 <= MAX_TIFF_PIXELS => final(self).size() == Some(
                    (size.0 as usize, size.1 as usize),
                ),
                _ => final(self).size() == old(self).size(),
            },
            final(self).space() == match header_of(old(self).bytes()) {
                Ok((_, colorspace)) => colorspace,
                Err(_) => old(self).space(),
            },
    {
        proof {
            use_type_invariant(&*self);
        }
        let size = declared_size(self.data.as_slice());
        if let Ok(declared) = &size {
            let pair: (u32, u32) = *declared;
            assert(pair.0 * pair.1 <= u32::MAX * u32::MAX) by (nonlinear_arith)
                requires
                    pair.0 <= u32::MAX,
                    pair.1 <= u32::MAX,
            ;
            if pair.0 as u64 * pair.1 as u64 <= MAX_TIFF_PIXELS {
                self.dimensions = Some((pair.0 as usize, pair.1 as usize));
            }
        }
        let color = declared_color(self.data.as_slice());
        match check_header(size, color) {
            Err(failure) => Some(Err(failure)),
            Ok((size, colorspace)) => {
                self.colorspace = colorspace;
                let read = read_samples(self.data.as_slice());
                let ghost answer = read_view(read);
                let fits = covers(size, colorspace, &read);
                assert(tiff_read(self.data@, answer));
                if fits {
                    Some(image_of(size, colorspace, read))
                } else {
                    None
                }
            },
        }
    }

    /// The width and height, once the picture was decoded.
    pub fn dimensions(&self) -> (size: Option<(usize, usize)>)
        ensures
            size == self.size(),
    {
        self.dimensions
    }

    /// The colour space, once the picture was decoded; unknown before.
    pub fn out_colorspace(&self) -> (colorspace: ColorSpace)
        ensures
            colorspace == self.space(),
    {
        self.colorspace
    }

    /// The decoder's name.
    pub fn name(&self) -> (name: &'static str)
        ensures
            name@ == "tiff-decoder"@,
    {
        "tiff-decoder"
    }
}

/// No image has more pixels than the bound.
pub proof fn law_an_image_lies_within_the_bound(
    size: Result<(u32, u32), Seq<char>>,
    color: Result<TiffColorView, Seq<char>>,
    read: Result<Option<SamplesView>, Seq<char>>,
)
    ensures
        header_result(size, color) matches Ok((size, colorspace)) ==> (picture_result(
            size,
            colorspace,
            read,
        ) matches Ok(image) ==> image.width * image.height <= MAX_TIFF_PIXELS),
{
}

} // verus!
