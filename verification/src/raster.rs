//! Images as plain samples.

use vstd::prelude::*;

use crate::color::{BitDepth, ColorSpace};

verus! {

/// The samples of a frame, row by row, those of a pixel next to each other.
#[derive(Debug, PartialEq, Eq)]
pub enum Samples {
    /// One byte a sample.
    Eight(Vec<u8>),
    /// Two bytes a sample.
    Sixteen(Vec<u16>),
    /// Single-precision numbers, each by its bit pattern.
    Float32(Vec<u32>),
}

/// A [`Samples`] by its contents.
pub enum SamplesView {
    /// See [`Samples::Eight`].
    Eight(Seq<u8>),
    /// See [`Samples::Sixteen`].
    Sixteen(Seq<u16>),
    /// See [`Samples::Float32`].
    Float32(Seq<u32>),
}

impl View for Samples {
    type V = SamplesView;

    open spec fn view(&self) -> SamplesView {
        match self {
            Samples::Eight(samples) => SamplesView::Eight(samples@),
            Samples::Sixteen(samples) => SamplesView::Sixteen(samples@),
            Samples::Float32(samples) => SamplesView::Float32(samples@),
        }
    }
}

impl SamplesView {
    /// How many samples there are.
    pub open spec fn count(self) -> nat {
        match self {
            SamplesView::Eight(samples) => samples.len(),
            SamplesView::Sixteen(samples) => samples.len(),
            SamplesView::Float32(samples) => samples.len(),
        }
    }

    /// How the samples are stored.
    pub open spec fn depth(self) -> BitDepth {
        match self {
            SamplesView::Eight(_) => BitDepth::Eight,
            SamplesView::Sixteen(_) => BitDepth::Sixteen,
            SamplesView::Float32(_) => BitDepth::Float32,
        }
    }
}

/// One picture of an image, and for how long an animation shows it.
#[derive(Debug, PartialEq, Eq)]
pub struct Frame {
    /// The pixels.
    pub samples: Samples,
    /// The numerator of the duration.
    pub numerator: usize,
    /// The denominator of the duration.
    pub denominator: usize,
}

/// A [`Frame`] by its contents.
pub struct FrameView {
    /// The pixels.
    pub samples: SamplesView,
    /// The numerator of the duration.
    pub numerator: usize,
    /// The denominator of the duration.
    pub denominator: usize,
}

impl View for Frame {
    type V = FrameView;

    open spec fn view(&self) -> FrameView {
        FrameView {
            samples: self.samples@,
            numerator: self.numerator,
            denominator: self.denominator,
        }
    }
}

/// A decoded image.
#[derive(Debug, PartialEq, Eq)]
pub struct Raster {
    /// Pixels in a row.
    pub width: usize,
    /// Rows.
    pub height: usize,
    /// How the samples of a pixel are to be read.
    pub colorspace: ColorSpace,
    /// How a sample is stored.
    pub depth: BitDepth,
    /// The pictures, one unless the image is animated.
    pub frames: Vec<Frame>,
    /// The embedded colour profile.
    pub icc: Option<Vec<u8>>,
}

/// A [`Raster`] by its contents.
#[verifier::ext_equal]
pub struct RasterView {
    /// Pixels in a row.
    pub width: usize,
    /// Rows.
    pub height: usize,
    /// How the samples of a pixel are to be read.
    pub colorspace: ColorSpace,
    /// How a sample is stored.
    pub depth: BitDepth,
    /// The pictures.
    pub frames: Seq<FrameView>,
    /// The embedded colour profile.
    pub icc: Option<Seq<u8>>,
}

/// The bytes of an optional vector.
pub open spec fn bytes_of(bytes: Option<Vec<u8>>) -> Option<Seq<u8>> {
    match bytes {
        Some(bytes) => Some(bytes@),
        None => None,
    }
}

/// The contents of some frames.
pub open spec fn frames_of(frames: Seq<Frame>) -> Seq<FrameView> {
    frames.map_values(|frame: Frame| frame@)
}

impl View for Raster {
    type V = RasterView;

    open spec fn view(&self) -> RasterView {
        RasterView {
            width: self.width,
            height: self.height,
            colorspace: self.colorspace,
            depth: self.depth,
            frames: frames_of(self.frames@),
            icc: bytes_of(self.icc),
        }
    }
}

impl RasterView {
    /// The samples of one picture.
    pub open spec fn frame_samples(self) -> nat {
        self.width as nat * self.height as nat * self.colorspace.components()
    }

    /// Every picture has the samples that the size and the colour space call
    /// for, stored as the depth says.
    pub open spec fn wf(self) -> bool {
        forall|i: int|
            #![trigger self.frames[i]]
            0 <= i < self.frames.len() ==> {
                &&& self.frames[i].samples.count() == self.frame_samples()
                &&& self.frames[i].samples.depth() == self.depth
            }
    }
}

/// A still image without a profile.
pub open spec fn still(width: usize, height: usize, colorspace: ColorSpace, samples: SamplesView) -> RasterView {
    RasterView {
        width,
        height,
        colorspace,
        depth: samples.depth(),
        frames: seq![FrameView { samples, numerator: 1, denominator: 1 }],
        icc: None,
    }
}

impl Raster {
    /// A still image without a profile.
    pub fn new_still(width: usize, height: usize, colorspace: ColorSpace, samples: Samples) -> (raster: Raster)
        requires
            samples@.count() == width * height * colorspace.components(),
        ensures
            raster@ == still(width, height, colorspace, samples@),
            raster@.wf(),
    {
        let depth = match &samples {
            Samples::Eight(_) => BitDepth::Eight,
            Samples::Sixteen(_) => BitDepth::Sixteen,
            Samples::Float32(_) => BitDepth::Float32,
        };
        let ghost shown = samples@;
        let mut frames: Vec<Frame> = Vec::new();
        frames.push(Frame { samples, numerator: 1, denominator: 1 });
        let raster = Raster { width, height, colorspace, depth, frames, icc: None };
        proof {
            assert(raster@.frames =~= still(width, height, colorspace, shown).frames);
            assert(raster@.frame_samples() == width * height * colorspace.components());
        }
        raster
    }

    /// Whether every picture has the samples that the size and the colour space
    /// call for, stored as the depth says.
    pub fn is_well_formed(&self) -> (well_formed: bool)
        ensures
            well_formed == self@.wf(),
    {
        let components: u32 = self.colorspace.num_components();
        let ghost shown = self@;
        assert(self.width * self.height <= u64::MAX * u64::MAX) by (nonlinear_arith)
            requires
                0 <= self.width <= u64::MAX,
                0 <= self.height <= u64::MAX,
        ;
        let pixels: u128 = self.width as u128 * self.height as u128;
        let mut at: usize = 0;
        while at < self.frames.len()
            invariant
                at <= self.frames.len(),
                shown == self@,
                pixels == self.width * self.height,
                components == self.colorspace.components(),
                forall|i: int|
                    #![trigger shown.frames[i]]
                    0 <= i < at ==> {
                        &&& shown.frames[i].samples.count() == shown.frame_samples()
                        &&& shown.frames[i].samples.depth() == shown.depth
                    },
            decreases self.frames.len() - at,
        {
            assert(shown.frames[at as int] == self.frames@[at as int]@);
            let (count, stored): (usize, bool) = match &self.frames[at].samples {
                Samples::Eight(samples) => (samples.len(), matches!(self.depth, BitDepth::Eight)),
                Samples::Sixteen(samples) => (samples.len(), matches!(self.depth, BitDepth::Sixteen)),
                Samples::Float32(samples) => (samples.len(), matches!(self.depth, BitDepth::Float32)),
            };
            let covered = match pixels.checked_mul(components as u128) {
                Some(samples) => samples == count as u128,
                None => false,
            };
            if !stored || !covered {
                return false;
            }
            at = at + 1;
        }
        true
    }
}

/// A 16-bit sample at eight bits.
pub open spec fn narrowed(sample: u16) -> u8 {
    (sample / 257) as u8
}

/// A picture's samples at eight bits.
pub open spec fn eight_bit(samples: SamplesView) -> Seq<u8>
    recommends
        !(samples is Float32),
{
    match samples {
        SamplesView::Eight(samples) => samples,
        SamplesView::Sixteen(samples) => samples.map_values(|sample: u16| narrowed(sample)),
        SamplesView::Float32(_) => seq![],
    }
}

/// A picture's samples at eight bits; those of 16 bits are divided by 257,
/// which maps the brightest to the brightest.
pub fn to_eight_bit(samples: &Samples) -> (narrow: Vec<u8>)
    requires
        !(samples is Float32),
    ensures
        narrow@ == eight_bit(samples@),
{
    match samples {
        Samples::Eight(samples) => {
            let mut narrow: Vec<u8> = Vec::new();
            let mut at: usize = 0;
            while at < samples.len()
                invariant
                    at <= samples.len(),
                    narrow@ =~= samples@.take(at as int),
                decreases samples.len() - at,
            {
                narrow.push(samples[at]);
                at = at + 1;
            }
            proof {
                assert(samples@.take(at as int) =~= samples@);
            }
            narrow
        },
        Samples::Sixteen(samples) => {
            let mut narrow: Vec<u8> = Vec::new();
            let mut at: usize = 0;
            let ghost wanted = samples@.map_values(|sample: u16| narrowed(sample));
            while at < samples.len()
                invariant
                    at <= samples.len(),
                    wanted == samples@.map_values(|sample: u16| narrowed(sample)),
                    narrow@ =~= wanted.take(at as int),
                decreases samples.len() - at,
            {
                let sample: u16 = samples[at];
                narrow.push((sample / 257) as u8);
                at = at + 1;
            }
            proof {
                assert(wanted.take(at as int) =~= wanted);
            }
            narrow
        },
        Samples::Float32(_) => Vec::new(),
    }
}

/// The two bytes of each 16-bit sample, in either order.
pub open spec fn stored(samples: Seq<u16>, low_first: bool) -> Seq<u8> {
    Seq::new(
        2 * samples.len(),
        |i: int|
            if (i % 2 == 0) == low_first {
                (samples[i / 2] % 256) as u8
            } else {
                (samples[i / 2] / 256) as u8
            },
    )
}

/// The two bytes of each 16-bit sample, in either order.
pub fn to_bytes(samples: &Vec<u16>, low_first: bool) -> (bytes: Vec<u8>)
    ensures
        bytes@ == stored(samples@, low_first),
{
    let mut bytes: Vec<u8> = Vec::new();
    let mut at: usize = 0;
    while at < samples.len()
        invariant
            at <= samples.len(),
            bytes@ =~= stored(samples@, low_first).take(2 * at),
        decreases samples.len() - at,
    {
        let sample: u16 = samples[at];
        let high: u8 = (sample / 256) as u8;
        let low: u8 = (sample % 256) as u8;
        if low_first {
            bytes.push(low);
            bytes.push(high);
        } else {
            bytes.push(high);
            bytes.push(low);
        }
        proof {
            let all = stored(samples@, low_first);
            assert((2 * at + 1) / 2 == at && (2 * at + 1) % 2 == 1);
            assert(all[2 * at] == if low_first {
                low
            } else {
                high
            });
            assert(all[2 * at + 1] == if low_first {
                high
            } else {
                low
            });
        }
        at = at + 1;
    }
    proof {
        assert(stored(samples@, low_first).take(2 * at) =~= stored(samples@, low_first));
    }
    bytes
}

/// The 16-bit samples that are stored as these bytes.
pub fn from_bytes(bytes: &Vec<u8>, low_first: bool) -> (samples: Vec<u16>)
    requires
        bytes@.len() % 2 == 0,
    ensures
        stored(samples@, low_first) == bytes@,
        2 * samples@.len() == bytes@.len(),
{
    let mut samples: Vec<u16> = Vec::new();
    let length: usize = bytes.len();
    let count: usize = length / 2;
    let mut at: usize = 0;
    while at < count
        invariant
            at <= count,
            length == bytes@.len(),
            2 * count == length,
            samples@.len() == at,
            forall|i: int|
                0 <= i < 2 * at ==> #[trigger] stored(samples@, low_first)[i] == bytes@[i],
        decreases count - at,
    {
        let first: u8 = bytes[2 * at];
        let second: u8 = bytes[2 * at + 1];
        let (low, high): (u8, u8) = if low_first {
            (first, second)
        } else {
            (second, first)
        };
        let sample: u16 = high as u16 * 256 + low as u16;
        let ghost before = samples@;
        samples.push(sample);
        proof {
            assert(sample % 256 == low && sample / 256 == high);
            assert forall|i: int| 0 <= i < 2 * (at + 1) implies #[trigger] stored(
                samples@,
                low_first,
            )[i] == bytes@[i] by {
                if i < 2 * at {
                    assert(stored(before, low_first)[i] == bytes@[i]);
                    assert(samples@[i / 2] == before[i / 2]);
                } else {
                    assert(i / 2 == at);
                }
            }
        }
        at = at + 1;
    }
    proof {
        assert(stored(samples@, low_first) =~= bytes@);
    }
    samples
}

/// The bytes that a PNG stores for the samples: those of 16 bits with the high
/// byte first.
pub open spec fn network_bytes(samples: SamplesView) -> Seq<u8>
    recommends
        !(samples is Float32),
{
    match samples {
        SamplesView::Eight(samples) => samples,
        SamplesView::Sixteen(samples) => stored(samples, false),
        SamplesView::Float32(_) => seq![],
    }
}

/// The bytes that a PNG stores for the samples.
pub fn to_network_bytes(samples: &Samples) -> (bytes: Vec<u8>)
    requires
        !(samples is Float32),
    ensures
        bytes@ == network_bytes(samples@),
{
    match samples {
        Samples::Eight(_) => to_eight_bit(samples),
        Samples::Sixteen(samples) => to_bytes(samples, false),
        Samples::Float32(_) => Vec::new(),
    }
}

} // verus!
