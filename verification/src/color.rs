//! Colour spaces and sample depths.

use vstd::prelude::*;

use crate::text::{decimal, push_decimal};

verus! {

/// How the samples of a pixel are to be read.
#[derive(Debug, Clone, Copy, PartialEq, Eq, Structural)]
pub enum ColorSpace {
    /// Red, green, blue.
    RGB,
    /// Red, green, blue, alpha.
    RGBA,
    /// Luma and two chroma samples.
    YCbCr,
    /// One grey sample.
    Luma,
    /// One grey sample and alpha.
    LumaA,
    /// YCbCr with a key sample.
    YCCK,
    /// Cyan, magenta, yellow, key.
    CMYK,
    /// Blue, green, red.
    BGR,
    /// Blue, green, red, alpha.
    BGRA,
    /// Not known.
    Unknown,
    /// Alpha, red, green, blue.
    ARGB,
    /// Hue, saturation, lightness.
    HSL,
    /// Hue, saturation, value.
    HSV,
    /// Any number of bands.
    MultiBand(u32),
}

impl ColorSpace {
    /// How many samples a pixel has.
    pub open spec fn components(self) -> nat {
        match self {
            ColorSpace::RGB
            | ColorSpace::YCbCr
            | ColorSpace::BGR
            | ColorSpace::HSL
            | ColorSpace::HSV => 3,
            ColorSpace::RGBA
            | ColorSpace::YCCK
            | ColorSpace::CMYK
            | ColorSpace::BGRA
            | ColorSpace::ARGB => 4,
            ColorSpace::Luma => 1,
            ColorSpace::LumaA => 2,
            ColorSpace::Unknown => 0,
            ColorSpace::MultiBand(bands) => bands as nat,
        }
    }

    /// Whether one of the samples is an alpha sample.
    pub open spec fn alpha(self) -> bool {
        self is RGBA || self is LumaA || self is BGRA || self is ARGB
    }

    /// The name that messages use.
    pub open spec fn named(self) -> Seq<char> {
        match self {
            ColorSpace::RGB => "RGB"@,
            ColorSpace::RGBA => "RGBA"@,
            ColorSpace::YCbCr => "YCbCr"@,
            ColorSpace::Luma => "Luma"@,
            ColorSpace::LumaA => "LumaA"@,
            ColorSpace::YCCK => "YCCK"@,
            ColorSpace::CMYK => "CMYK"@,
            ColorSpace::BGR => "BGR"@,
            ColorSpace::BGRA => "BGRA"@,
            ColorSpace::Unknown => "Unknown"@,
            ColorSpace::ARGB => "ARGB"@,
            ColorSpace::HSL => "HSL"@,
            ColorSpace::HSV => "HSV"@,
            ColorSpace::MultiBand(bands) => "MultiBand("@ + decimal(bands as nat) + ")"@,
        }
    }

    /// The name that messages use.
    pub fn label(self) -> (name: String)
        ensures
            name@ == self.named(),
    {
        match self {
            ColorSpace::RGB => "RGB".to_owned(),
            ColorSpace::RGBA => "RGBA".to_owned(),
            ColorSpace::YCbCr => "YCbCr".to_owned(),
            ColorSpace::Luma => "Luma".to_owned(),
            ColorSpace::LumaA => "LumaA".to_owned(),
            ColorSpace::YCCK => "YCCK".to_owned(),
            ColorSpace::CMYK => "CMYK".to_owned(),
            ColorSpace::BGR => "BGR".to_owned(),
            ColorSpace::BGRA => "BGRA".to_owned(),
            ColorSpace::Unknown => "Unknown".to_owned(),
            ColorSpace::ARGB => "ARGB".to_owned(),
            ColorSpace::HSL => "HSL".to_owned(),
            ColorSpace::HSV => "HSV".to_owned(),
            ColorSpace::MultiBand(bands) => {
                let mut name = "MultiBand(".to_owned();
                push_decimal(&mut name, bands as u128);
                name.append(")");
                name
            },
        }
    }

    /// How many samples a pixel has.
    pub fn num_components(self) -> (count: u32)
        ensures
            count == self.components(),
    {
        match self {
            ColorSpace::RGB => 3,
            ColorSpace::YCbCr => 3,
            ColorSpace::BGR => 3,
            ColorSpace::HSL => 3,
            ColorSpace::HSV => 3,
            ColorSpace::RGBA => 4,
            ColorSpace::YCCK => 4,
            ColorSpace::CMYK => 4,
            ColorSpace::BGRA => 4,
            ColorSpace::ARGB => 4,
            ColorSpace::Luma => 1,
            ColorSpace::LumaA => 2,
            ColorSpace::Unknown => 0,
            ColorSpace::MultiBand(bands) => bands,
        }
    }

    /// Whether one of the samples is an alpha sample.
    pub fn has_alpha(self) -> (alpha: bool)
        ensures
            alpha == self.alpha(),
    {
        match self {
            ColorSpace::RGBA => true,
            ColorSpace::LumaA => true,
            ColorSpace::BGRA => true,
            ColorSpace::ARGB => true,
            _ => false,
        }
    }
}

/// How a sample is stored.
#[derive(Debug, Clone, Copy, PartialEq, Eq, Structural)]
pub enum BitDepth {
    /// One byte.
    Eight,
    /// Two bytes.
    Sixteen,
    /// A single-precision number, four bytes.
    Float32,
    /// Not known.
    Unknown,
}

impl BitDepth {
    /// The bytes of one sample; one where the depth is not known, so that a
    /// budget is never over-estimated.
    pub open spec fn sample_bytes(self) -> nat {
        match self {
            BitDepth::Eight => 1,
            BitDepth::Sixteen => 2,
            BitDepth::Float32 => 4,
            BitDepth::Unknown => 1,
        }
    }

    /// The name that messages use.
    pub open spec fn named(self) -> Seq<char> {
        match self {
            BitDepth::Eight => "Eight"@,
            BitDepth::Sixteen => "Sixteen"@,
            BitDepth::Float32 => "Float32"@,
            BitDepth::Unknown => "Unknown"@,
        }
    }

    /// The name that messages use.
    pub fn label(self) -> (name: &'static str)
        ensures
            name@ == self.named(),
    {
        match self {
            BitDepth::Eight => "Eight",
            BitDepth::Sixteen => "Sixteen",
            BitDepth::Float32 => "Float32",
            BitDepth::Unknown => "Unknown",
        }
    }

    /// The bytes of one sample.
    pub fn bytes_per_sample(self) -> (bytes: u64)
        ensures
            bytes == self.sample_bytes(),
    {
        match self {
            BitDepth::Eight => 1,
            BitDepth::Sixteen => 2,
            BitDepth::Float32 => 4,
            BitDepth::Unknown => 1,
        }
    }
}

} // verus!
