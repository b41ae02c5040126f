//! Runtime-derived image size limits.
//!
//! A whole image is decoded into a pixel buffer, one or more copies stay alive
//! through the operations, and another one goes to the encoder. Peak memory
//! therefore scales with the pixel count, which makes the largest acceptable
//! image a property of the machine.
//!
//! The ceiling comes from three independent sources: dimensions that a format
//! or its decoder refuses ([`format_caps`]), memory available to the process
//! ([`SystemBudget`]), and free space on the destination volume
//! ([`LimitSet::for_output`]). The effective limit is their intersection.

use vstd::prelude::*;

use crate::cli::paths::{component_eq_exact, FilePath};
use crate::color::{BitDepth, ColorSpace};
use crate::text::{same_ignoring_case, same_text};

verus! {

/// Largest side the shared decoder accepts before a codec runs.
pub const DECODER_SIDE_LIMIT: u64 = 16384;

/// Budget for one image when the machine cannot be probed.
pub const FALLBACK_PER_IMAGE_BYTES: u64 = 536870912;

/// Bytes kept free on the destination volume.
pub const DISK_RESERVE_BYTES: u64 = 104857600;

/// Largest contiguous allocation assumed to be obtainable in a 32-bit process.
pub const ADDRESS_SPACE_CAP: u64 = 805306368;

/// The part of free memory that the process is willing to spend is one in this
/// many.
pub const MEMORY_SAFETY_DEN: u64 = 2;

/// Upper bounds that a format declares, as opposed to those derived from
/// system resources.
#[derive(Debug, Clone, Copy, PartialEq, Eq)]
pub struct FormatCaps {
    /// Maximum width or height, in pixels.
    pub max_side: u64,
    /// Maximum `width * height`, in pixels.
    pub max_pixels: u64,
    /// Origin of these values, for messages.
    pub source: &'static str,
}

/// Format identity used for limit lookup.
#[derive(Debug, Clone, Copy, PartialEq, Eq, Structural)]
pub enum ImageFormatId {
    /// JPEG.
    Jpeg,
    /// PNG.
    Png,
    /// WebP.
    WebP,
    /// AVIF.
    Avif,
    /// TIFF.
    Tiff,
    /// SVG.
    Svg,
    /// A format with no specific handling; treated as unconstrained.
    Other,
}

/// The largest side of a format.
pub open spec fn side_cap(format: ImageFormatId) -> u64 {
    match format {
        ImageFormatId::WebP => 16383,
        ImageFormatId::Avif => 65536,
        ImageFormatId::Jpeg | ImageFormatId::Png => DECODER_SIDE_LIMIT,
        _ => u64::MAX,
    }
}

/// Dimensions that a format declares, or that its decoder refuses.
///
/// - WebP: `WEBP_MAX_DIMENSION`, the inclusive maximum width and height.
/// - AVIF: the AV1 limit for a coded image.
/// - JPEG and PNG: the decoder's own default ceiling.
/// - Everything else publishes no limit.
pub fn format_caps(format: ImageFormatId) -> (caps: FormatCaps)
    ensures
        caps.max_side == side_cap(format),
        caps.max_pixels == u64::MAX,
        caps.source@ == (match format {
            ImageFormatId::WebP => "libwebp WEBP_MAX_DIMENSION"@,
            ImageFormatId::Avif => "AVIF spec: AV1 coded image limit at seq_level_idx=31"@,
            ImageFormatId::Jpeg | ImageFormatId::Png => "the decoder's default side limit"@,
            _ => "no published limit"@,
        }),
{
    match format {
        ImageFormatId::WebP => FormatCaps {
            max_side: 16383,
            max_pixels: u64::MAX,
            source: "libwebp WEBP_MAX_DIMENSION",
        },
        ImageFormatId::Avif => FormatCaps {
            max_side: 65536,
            max_pixels: u64::MAX,
            source: "AVIF spec: AV1 coded image limit at seq_level_idx=31",
        },
        ImageFormatId::Jpeg => FormatCaps {
            max_side: DECODER_SIDE_LIMIT,
            max_pixels: u64::MAX,
            source: "the decoder's default side limit",
        },
        ImageFormatId::Png => FormatCaps {
            max_side: DECODER_SIDE_LIMIT,
            max_pixels: u64::MAX,
            source: "the decoder's default side limit",
        },
        _ => FormatCaps {
            max_side: u64::MAX,
            max_pixels: u64::MAX,
            source: "no published limit",
        },
    }
}

/// The format of an extension, whatever its case.
pub open spec fn format_of_extension(extension: Seq<char>) -> ImageFormatId {
    let small = crate::text::ascii_lowered(extension);
    if small == "jpg"@ || small == "jpeg"@ {
        ImageFormatId::Jpeg
    } else if small == "png"@ {
        ImageFormatId::Png
    } else if small == "webp"@ {
        ImageFormatId::WebP
    } else if small == "avif"@ {
        ImageFormatId::Avif
    } else if small == "tif"@ || small == "tiff"@ {
        ImageFormatId::Tiff
    } else if small == "svg"@ || small == "svgz"@ {
        ImageFormatId::Svg
    } else {
        ImageFormatId::Other
    }
}

/// The format that the encoder of this name writes.
pub open spec fn format_of_encoder(name: Seq<char>) -> ImageFormatId {
    if name == "mozjpeg"@ || name == "jpeg"@ {
        ImageFormatId::Jpeg
    } else if name == "oxipng"@ || name == "png"@ {
        ImageFormatId::Png
    } else if name == "webp"@ {
        ImageFormatId::WebP
    } else if name == "avif"@ {
        ImageFormatId::Avif
    } else if name == "tiff"@ {
        ImageFormatId::Tiff
    } else {
        ImageFormatId::Other
    }
}

/// The extensions above are written in small letters.
pub proof fn lemma_extensions_are_small()
    ensures
        crate::text::ascii_lowered("jpg"@) == "jpg"@,
        crate::text::ascii_lowered("jpeg"@) == "jpeg"@,
        crate::text::ascii_lowered("png"@) == "png"@,
        crate::text::ascii_lowered("webp"@) == "webp"@,
        crate::text::ascii_lowered("avif"@) == "avif"@,
        crate::text::ascii_lowered("tif"@) == "tif"@,
        crate::text::ascii_lowered("tiff"@) == "tiff"@,
        crate::text::ascii_lowered("svg"@) == "svg"@,
        crate::text::ascii_lowered("svgz"@) == "svgz"@,
{
    reveal_strlit("jpg");
    reveal_strlit("jpeg");
    reveal_strlit("png");
    reveal_strlit("webp");
    reveal_strlit("avif");
    reveal_strlit("tif");
    reveal_strlit("tiff");
    reveal_strlit("svg");
    reveal_strlit("svgz");
    assert(crate::text::ascii_lowered("jpg"@) =~= "jpg"@);
    assert(crate::text::ascii_lowered("jpeg"@) =~= "jpeg"@);
    assert(crate::text::ascii_lowered("png"@) =~= "png"@);
    assert(crate::text::ascii_lowered("webp"@) =~= "webp"@);
    assert(crate::text::ascii_lowered("avif"@) =~= "avif"@);
    assert(crate::text::ascii_lowered("tif"@) =~= "tif"@);
    assert(crate::text::ascii_lowered("tiff"@) =~= "tiff"@);
    assert(crate::text::ascii_lowered("svg"@) =~= "svg"@);
    assert(crate::text::ascii_lowered("svgz"@) =~= "svgz"@);
}

impl ImageFormatId {
    /// The lowercase name of each format.
    pub open spec fn label(self) -> Seq<char> {
        match self {
            ImageFormatId::Jpeg => "jpeg"@,
            ImageFormatId::Png => "png"@,
            ImageFormatId::WebP => "webp"@,
            ImageFormatId::Avif => "avif"@,
            ImageFormatId::Tiff => "tiff"@,
            ImageFormatId::Svg => "svg"@,
            ImageFormatId::Other => "image"@,
        }
    }

    /// Canonical lowercase name, used in messages.
    pub fn name(self) -> (name: &'static str)
        ensures
            name@ == self.label(),
    {
        match self {
            ImageFormatId::Jpeg => "jpeg",
            ImageFormatId::Png => "png",
            ImageFormatId::WebP => "webp",
            ImageFormatId::Avif => "avif",
            ImageFormatId::Tiff => "tiff",
            ImageFormatId::Svg => "svg",
            ImageFormatId::Other => "image",
        }
    }

    /// Map a file extension to a format identity.
    pub fn from_extension(ext: &str) -> (format: Self)
        ensures
            format == format_of_extension(ext@),
    {
        proof {
            lemma_extensions_are_small();
        }
        if same_ignoring_case(ext, "jpg") || same_ignoring_case(ext, "jpeg") {
            ImageFormatId::Jpeg
        } else if same_ignoring_case(ext, "png") {
            ImageFormatId::Png
        } else if same_ignoring_case(ext, "webp") {
            ImageFormatId::WebP
        } else if same_ignoring_case(ext, "avif") {
            ImageFormatId::Avif
        } else if same_ignoring_case(ext, "tif") || same_ignoring_case(ext, "tiff") {
            ImageFormatId::Tiff
        } else if same_ignoring_case(ext, "svg") || same_ignoring_case(ext, "svgz") {
            ImageFormatId::Svg
        } else {
            ImageFormatId::Other
        }
    }

    /// Map an encoder name to a format identity.
    ///
    /// These names do not always match the file extension: `mozjpeg` writes a
    /// `.jpg`, and `oxipng` writes a `.png`.
    pub fn from_encoder_name(name: &str) -> (format: Self)
        ensures
            format == format_of_encoder(name@),
    {
        if same_text(name, "mozjpeg") || same_text(name, "jpeg") {
            ImageFormatId::Jpeg
        } else if same_text(name, "oxipng") || same_text(name, "png") {
            ImageFormatId::Png
        } else if same_text(name, "webp") {
            ImageFormatId::WebP
        } else if same_text(name, "avif") {
            ImageFormatId::Avif
        } else if same_text(name, "tiff") {
            ImageFormatId::Tiff
        } else {
            ImageFormatId::Other
        }
    }
}

/// Peak number of live full-image buffers, stage by stage.
///
/// These are estimates of the pipeline, not format limits.
#[derive(Debug, Clone, Copy, PartialEq, Eq, Structural)]
pub struct PipelineCost {
    /// Buffers alive at peak while decoding.
    pub decode: u64,
    /// Extra buffers introduced by resizing.
    pub resize: u64,
    /// Extra buffers introduced by quantization.
    pub quantize: u64,
    /// Peak buffers held by the encoder itself.
    pub encode: u64,
}

/// The buffers that an encoder of this format keeps.
pub open spec fn encode_buffers(format: ImageFormatId) -> u64 {
    match format {
        ImageFormatId::Jpeg => 3,
        ImageFormatId::Png => 12,
        ImageFormatId::Avif => 16,
        ImageFormatId::WebP => 6,
        _ => 8,
    }
}

/// What an encoder of this format costs beside decoding.
pub open spec fn encoder_cost(format: ImageFormatId) -> PipelineCost {
    PipelineCost { decode: 3, resize: 0, quantize: 0, encode: encode_buffers(format) }
}

impl PipelineCost {
    /// All buffers together.
    pub open spec fn sum(self) -> nat {
        (self.decode + self.resize + self.quantize + self.encode) as nat
    }

    /// The multiplier that budgets use: never zero.
    pub open spec fn factor(self) -> nat {
        if self.sum() == 0 {
            1
        } else {
            self.sum()
        }
    }

    /// A cost with these stages.
    pub fn new(decode: u64, resize: u64, quantize: u64, encode: u64) -> (cost: Self)
        ensures
            cost == (PipelineCost { decode, resize, quantize, encode }),
    {
        PipelineCost { decode, resize, quantize, encode }
    }

    /// Total live buffers at peak.
    pub fn total(&self) -> (total: u64)
        requires
            self.sum() <= u64::MAX,
        ensures
            total == self.sum(),
    {
        self.decode + self.resize + self.quantize + self.encode
    }

    /// Cost for an encoder chosen by format identity.
    pub fn for_encoder(format: ImageFormatId) -> (cost: Self)
        ensures
            cost == encoder_cost(format),
    {
        let encode: u64 = match format {
            ImageFormatId::Jpeg => 3,
            ImageFormatId::Png => 12,
            ImageFormatId::Avif => 16,
            ImageFormatId::WebP => 6,
            _ => 8,
        };
        PipelineCost::new(3, 0, 0, encode)
    }
}

/// What the operating system reports about memory.
#[derive(Debug, Clone, Copy, PartialEq, Eq)]
pub struct MemoryReading {
    /// Total and free memory of the control group, where there is one.
    pub cgroup: Option<(u64, u64)>,
    /// Memory the kernel could hand out right now.
    pub available: u64,
}

/// The free memory of a reading: that of the control group where it has a
/// limit and the smaller figure.
pub open spec fn free_memory(reading: MemoryReading) -> u64 {
    match reading.cgroup {
        Some((total, free)) if total > 0 && free < reading.available => free,
        _ => reading.available,
    }
}

/// Free memory, preferring a container-aware source.
///
/// The machine-wide figure ignores a control group's limit, so a container
/// would see more than it may use: with a group limit the smaller figure wins.
pub fn probe_available_memory(reading: MemoryReading) -> (available: u64)
    ensures
        available == free_memory(reading),
{
    match reading.cgroup {
        Some((total, free)) => {
            if total > 0 && free < reading.available {
                free
            } else {
                reading.available
            }
        },
        None => reading.available,
    }
}

/// The largest allocation assumed obtainable in this process.
pub open spec fn address_limit() -> u64 {
    if usize::MAX <= 0xffff_ffff {
        ADDRESS_SPACE_CAP
    } else {
        u64::MAX
    }
}

/// The largest allocation assumed obtainable in this process.
///
/// One allocation needs one contiguous range. On a 32-bit target fragmentation
/// prevents a large block even where the free total looks sufficient.
pub fn address_cap() -> (cap: u64)
    ensures
        cap == address_limit(),
{
    if usize::MAX as u64 <= 0xffff_ffff {
        ADDRESS_SPACE_CAP
    } else {
        u64::MAX
    }
}

/// The resources available to this process.
#[derive(Debug, Clone, Copy, PartialEq, Eq, Structural)]
pub struct SystemBudget {
    /// Free memory in bytes, or 0 when the platform could not be probed.
    pub available_memory: u64,
    /// Largest byte allocation assumed obtainable in one contiguous range.
    pub address_cap: u64,
    /// Number of images processed simultaneously.
    pub concurrency: usize,
}

/// The larger of a number and one.
pub open spec fn at_least_one(number: nat) -> nat {
    if number == 0 {
        1
    } else {
        number
    }
}

/// The smaller of two numbers.
pub open spec fn smaller(a: nat, b: nat) -> nat {
    if a <= b {
        a
    } else {
        b
    }
}

/// The budget of a machine with this memory reading, shared among so many
/// images.
pub open spec fn budget_of(concurrency: usize, reading: MemoryReading) -> SystemBudget {
    SystemBudget {
        available_memory: free_memory(reading),
        address_cap: address_limit(),
        concurrency: at_least_one(concurrency as nat) as usize,
    }
}

impl SystemBudget {
    /// The bytes that one image may use: half of the free memory, or the
    /// address cap where that is less, shared among the images in flight.
    pub open spec fn image_bytes(self) -> nat {
        if self.available_memory == 0 {
            FALLBACK_PER_IMAGE_BYTES as nat
        } else {
            at_least_one(
                smaller(
                    self.available_memory as nat / MEMORY_SAFETY_DEN as nat,
                    self.address_cap as nat,
                ) / at_least_one(self.concurrency as nat),
            )
        }
    }

    /// The budget of a machine with this memory reading.
    ///
    /// `concurrency` is the number of images the caller processes at once; it
    /// divides the budget because every image holds its own buffers.
    pub fn probe(concurrency: usize, reading: MemoryReading) -> (budget: Self)
        ensures
            budget == budget_of(concurrency, reading),
    {
        SystemBudget {
            available_memory: probe_available_memory(reading),
            address_cap: address_cap(),
            concurrency: if concurrency == 0 {
                1
            } else {
                concurrency
            },
        }
    }

    /// Budget for one image, in bytes. Never zero: callers divide by it.
    pub fn per_image_bytes(&self) -> (bytes: u64)
        ensures
            bytes == self.image_bytes(),
            bytes > 0,
    {
        if self.available_memory == 0 {
            return FALLBACK_PER_IMAGE_BYTES;
        }
        let usable: u64 = self.available_memory / MEMORY_SAFETY_DEN;
        let concurrency: u64 = if self.concurrency == 0 {
            1
        } else {
            self.concurrency as u64
        };
        let bounded: u64 = if usable <= self.address_cap {
            usable
        } else {
            self.address_cap
        };
        let share: u64 = bounded / concurrency;
        if share == 0 {
            1
        } else {
            share
        }
    }

    /// Whether the reported figure came from a real probe.
    pub fn is_probed(&self) -> (probed: bool)
        ensures
            probed == (self.available_memory != 0),
    {
        self.available_memory != 0
    }
}

/// Which source ended up being the tightest constraint.
#[derive(Debug, Clone, Copy, PartialEq, Eq, Structural)]
pub enum Binding {
    /// A dimension limit declared by the format.
    Format,
    /// The memory budget derived from system resources.
    Memory,
    /// Free space on the destination volume.
    Disk,
    /// Nothing constrained the operation.
    Unlimited,
}

impl Binding {
    /// What a reader is told about each source.
    pub open spec fn description(self) -> Seq<char> {
        match self {
            Binding::Format => "the format's own dimension limit"@,
            Binding::Memory => "the available memory budget"@,
            Binding::Disk => "free space on the destination volume"@,
            Binding::Unlimited => "no limit"@,
        }
    }

    /// Human-readable explanation, used in error messages.
    pub fn describe(self) -> (text: &'static str)
        ensures
            text@ == self.description(),
    {
        match self {
            Binding::Format => "the format's own dimension limit",
            Binding::Memory => "the available memory budget",
            Binding::Disk => "free space on the destination volume",
            Binding::Unlimited => "no limit",
        }
    }
}

/// Which measurement exceeded its limit.
#[derive(Debug, Clone, Copy, PartialEq, Eq, Structural)]
pub enum ViolationKind {
    /// Width alone.
    Width,
    /// Height alone.
    Height,
    /// `width * height`.
    Pixels,
    /// An estimated byte footprint, bounded by free space on the volume.
    Bytes,
}

/// A concrete limit that was exceeded.
#[derive(Debug, Clone, Copy, PartialEq, Eq, Structural)]
pub struct LimitViolation {
    /// What was measured.
    pub kind: ViolationKind,
    /// The offending value.
    pub actual: u64,
    /// The ceiling it exceeded.
    pub allowed: u64,
    /// Which source produced the ceiling.
    pub binding: Binding,
}

/// A mounted volume.
#[derive(Debug)]
pub struct Volume {
    /// Where it is mounted.
    pub mount_point: FilePath,
    /// The length of the mount point as it is written.
    pub mount_length: usize,
    /// Bytes that are free on it.
    pub available: u64,
}

/// Whether a path lies on a volume: it starts with the mount point.
pub open spec fn lies_on(
    path: Seq<crate::cli::paths::ComponentView>,
    volume: Volume,
) -> bool {
    volume.mount_point@.len() <= path.len() && path.take(volume.mount_point@.len() as int)
        == volume.mount_point@
}

/// Whether a volume holds a path: no other one that the path lies on has a
/// longer mount point, nor one that is as long and listed later.
pub open spec fn holds(
    path: Seq<crate::cli::paths::ComponentView>,
    volumes: Seq<Volume>,
    index: int,
) -> bool {
    &&& 0 <= index < volumes.len()
    &&& lies_on(path, volumes[index])
    &&& forall|other: int|
        0 <= other < volumes.len() && #[trigger] lies_on(path, volumes[other])
            ==> volumes[other].mount_length < volumes[index].mount_length || (
        volumes[other].mount_length == volumes[index].mount_length && other <= index)
}

fn starts_with(path: &FilePath, prefix: &FilePath) -> (result: bool)
    ensures
        result == (prefix@.len() <= path@.len() && path@.take(prefix@.len() as int) == prefix@),
{
    let count: usize = prefix.components.len();
    if path.components.len() < count {
        return false;
    }
    let mut i: usize = 0;
    while i < count
        invariant
            count == prefix@.len(),
            i <= count <= path@.len(),
            forall|j: int| 0 <= j < i ==> path@[j] == prefix@[j],
        decreases count - i,
    {
        if !component_eq_exact(&path.components[i], &prefix.components[i]) {
            assert(path@.take(count as int)[i as int] != prefix@[i as int]);
            return false;
        }
        assert(path@[i as int] == prefix@[i as int]);
        i = i + 1;
    }
    assert(path@.take(count as int) =~= prefix@);
    true
}

/// Free bytes on the volume holding `path`, if one of the volumes does.
///
/// `path` is where the output lands, or the nearest directory above it that
/// exists, with links resolved. The volume is found by the longest mount point
/// that `path` starts with. `None` means unknown, not zero.
pub fn free_space_at(path: &FilePath, volumes: &Vec<Volume>) -> (free: Option<u64>)
    ensures
        match free {
            Some(free) => exists|index: int|
                #[trigger] holds(path@, volumes@, index) && volumes@[index].available == free,
            None => forall|index: int|
                0 <= index < volumes@.len() ==> !(#[trigger] lies_on(path@, volumes@[index])),
        },
{
    let mut best: Option<usize> = None;
    let mut i: usize = 0;
    while i < volumes.len()
        invariant
            i <= volumes@.len(),
            best matches Some(index) ==> index < i && lies_on(path@, volumes@[index as int])
                && forall|other: int|
                0 <= other < i && #[trigger] lies_on(path@, volumes@[other])
                    ==> volumes@[other].mount_length < volumes@[index as int].mount_length || (
                volumes@[other].mount_length == volumes@[index as int].mount_length && other
                    <= index),
            best is None ==> forall|other: int|
                0 <= other < i ==> !(#[trigger] lies_on(path@, volumes@[other])),
        decreases volumes@.len() - i,
    {
        if starts_with(path, &volumes[i].mount_point) {
            let better = match best {
                Some(index) => volumes[index].mount_length <= volumes[i].mount_length,
                None => true,
            };
            if better {
                best = Some(i);
            }
        }
        i = i + 1;
    }
    match best {
        Some(index) => {
            assert(holds(path@, volumes@, index as int));
            Some(volumes[index].available)
        },
        None => None,
    }
}

/// A resolved set of limits for one decode or encode operation.
#[derive(Debug, Clone, Copy, PartialEq, Eq, Structural)]
pub struct LimitSet {
    /// Maximum width in pixels.
    pub max_width: u64,
    /// Maximum height in pixels.
    pub max_height: u64,
    /// Maximum `width * height` in pixels.
    pub max_pixels: u64,
    /// Maximum input or output size in bytes.
    pub max_bytes: u64,
    /// Which constraint produced `max_pixels`.
    pub binding: Binding,
    /// Which constraint produced `max_bytes`. The two ceilings are bounded by
    /// different sources.
    pub bytes_binding: Binding,
}

/// A product that stops at the largest `u64`.
pub open spec fn saturated(product: int) -> u64 {
    if product > u64::MAX {
        u64::MAX
    } else {
        product as u64
    }
}

/// Multiplies, stopping at the largest `u64`.
pub fn saturating_product(a: u64, b: u64) -> (product: u64)
    ensures
        product == saturated(a * b),
{
    proof {
        assert(0 <= a * b <= 0xffff_ffff_ffff_ffff * 0xffff_ffff_ffff_ffff) by (nonlinear_arith)
            requires
                0 <= a <= 0xffff_ffff_ffff_ffff,
                0 <= b <= 0xffff_ffff_ffff_ffff,
        ;
    }
    let product: u128 = a as u128 * b as u128;
    if product > u64::MAX as u128 {
        u64::MAX
    } else {
        product as u64
    }
}

/// The bytes that one pixel takes; at least one.
pub open spec fn pixel_bytes(depth: BitDepth, colorspace: ColorSpace) -> nat {
    at_least_one(colorspace.components() * depth.sample_bytes())
}

/// Bytes needed per pixel for a bit depth and colour space.
pub fn bytes_per_pixel(depth: BitDepth, colorspace: ColorSpace) -> (bytes: u64)
    ensures
        bytes == pixel_bytes(depth, colorspace),
{
    let components: u64 = colorspace.num_components() as u64;
    let sample: u64 = depth.bytes_per_sample();
    proof {
        assert(components * sample <= 0xffff_ffff * 4) by (nonlinear_arith)
            requires
                components <= 0xffff_ffff,
                sample <= 4,
        ;
    }
    let bytes: u64 = components * sample;
    if bytes == 0 {
        1
    } else {
        bytes
    }
}

/// The pixels that fit in a budget.
pub open spec fn budget_pixels(
    depth: BitDepth,
    colorspace: ColorSpace,
    budget: SystemBudget,
    cost: PipelineCost,
) -> nat {
    budget.image_bytes() / (pixel_bytes(depth, colorspace) * cost.factor())
}

/// The limits for reading: the side cap of the format, and whichever of its
/// square and the memory budget holds fewer pixels.
pub open spec fn input_limits(
    format: ImageFormatId,
    depth: BitDepth,
    colorspace: ColorSpace,
    budget: SystemBudget,
    cost: PipelineCost,
) -> LimitSet {
    let side = side_cap(format);
    let square = saturated(side * side);
    let pixels = budget_pixels(depth, colorspace, budget, cost);
    LimitSet {
        max_width: side,
        max_height: side,
        max_pixels: if square <= pixels {
            square
        } else {
            pixels as u64
        },
        max_bytes: saturated((budget.image_bytes() * cost.factor()) as int),
        binding: if square <= pixels {
            Binding::Format
        } else {
            Binding::Memory
        },
        bytes_binding: Binding::Memory,
    }
}

/// The bytes that may be written to a volume with this much free space.
pub open spec fn disk_allowance(free: u64) -> u64 {
    if free <= DISK_RESERVE_BYTES {
        0
    } else {
        ((free - DISK_RESERVE_BYTES) / 2) as u64
    }
}

/// The limits for writing: those for reading, with the byte ceiling lowered to
/// what the destination volume has room for, where that is known and less.
pub open spec fn output_limits(limits: LimitSet, free: Option<u64>) -> LimitSet {
    match free {
        Some(free) if disk_allowance(free) < limits.max_bytes => LimitSet {
            max_bytes: disk_allowance(free),
            bytes_binding: Binding::Disk,
            ..limits
        },
        _ => limits,
    }
}

/// Judges an image of this size: its area first, then its width, then its
/// height.
pub open spec fn size_verdict(limits: LimitSet, width: u64, height: u64) -> Result<
    (),
    LimitViolation,
> {
    let pixels = saturated(width * height);
    if pixels > limits.max_pixels {
        Err(
            LimitViolation {
                kind: ViolationKind::Pixels,
                actual: pixels,
                allowed: limits.max_pixels,
                binding: limits.binding,
            },
        )
    } else if width > limits.max_width {
        Err(
            LimitViolation {
                kind: ViolationKind::Width,
                actual: width,
                allowed: limits.max_width,
                binding: Binding::Format,
            },
        )
    } else if height > limits.max_height {
        Err(
            LimitViolation {
                kind: ViolationKind::Height,
                actual: height,
                allowed: limits.max_height,
                binding: Binding::Format,
            },
        )
    } else {
        Ok(())
    }
}

/// Judges a byte footprint.
pub open spec fn bytes_verdict(limits: LimitSet, bytes: u64) -> Result<(), LimitViolation> {
    if bytes > limits.max_bytes {
        Err(
            LimitViolation {
                kind: ViolationKind::Bytes,
                actual: bytes,
                allowed: limits.max_bytes,
                binding: limits.bytes_binding,
            },
        )
    } else {
        Ok(())
    }
}

impl LimitSet {
    /// Limits for reading an image of the given format.
    pub fn for_input(
        format: ImageFormatId,
        depth: BitDepth,
        colorspace: ColorSpace,
        budget: &SystemBudget,
        cost: PipelineCost,
    ) -> (limits: Self)
        requires
            cost.sum() <= u64::MAX,
            pixel_bytes(depth, colorspace) * cost.factor() <= u64::MAX,
        ensures
            limits == input_limits(format, depth, colorspace, *budget, cost),
    {
        let caps = format_caps(format);
        let pixel: u64 = bytes_per_pixel(depth, colorspace);
        let total: u64 = cost.total();
        let factor: u64 = if total == 0 {
            1
        } else {
            total
        };
        let budget_bytes: u64 = budget.per_image_bytes();
        proof {
            assert(pixel * factor > 0) by (nonlinear_arith)
                requires
                    pixel > 0,
                    factor > 0,
            ;
        }
        let pixels: u64 = budget_bytes / (pixel * factor);
        let square: u64 = saturating_product(caps.max_side, caps.max_side);
        let (max_pixels, binding) = if square <= pixels {
            (square, Binding::Format)
        } else {
            (pixels, Binding::Memory)
        };
        LimitSet {
            max_width: caps.max_side,
            max_height: caps.max_side,
            max_pixels,
            max_bytes: saturating_product(budget_bytes, factor),
            binding,
            bytes_binding: Binding::Memory,
        }
    }

    /// Limits for writing an image of the given format to a volume with `free`
    /// bytes left, or to one whose free space is unknown.
    ///
    /// The volume has to hold twice the byte ceiling beside a reserve: a
    /// lossless encoder can expand its input, and a lossy one still needs room
    /// for the container and the metadata.
    pub fn for_output(
        format: ImageFormatId,
        depth: BitDepth,
        colorspace: ColorSpace,
        budget: &SystemBudget,
        cost: PipelineCost,
        free: Option<u64>,
    ) -> (limits: Self)
        requires
            cost.sum() <= u64::MAX,
            pixel_bytes(depth, colorspace) * cost.factor() <= u64::MAX,
        ensures
            limits == output_limits(
                input_limits(format, depth, colorspace, *budget, cost),
                free,
            ),
    {
        let mut limits = LimitSet::for_input(format, depth, colorspace, budget, cost);
        if let Some(free) = free {
            let usable: u64 = if free <= DISK_RESERVE_BYTES {
                0
            } else {
                free - DISK_RESERVE_BYTES
            };
            let allowed: u64 = usable / 2;
            if allowed < limits.max_bytes {
                limits.max_bytes = allowed;
                limits.bytes_binding = Binding::Disk;
            }
        }
        limits
    }

    /// Check a concrete `width x height` pair, naming the constraint that was
    /// violated. An area that no `u64` can hold counts as the largest one.
    pub fn check(&self, width: u64, height: u64) -> (result: Result<(), LimitViolation>)
        ensures
            result == size_verdict(*self, width, height),
    {
        let pixels: u64 = saturating_product(width, height);
        if pixels > self.max_pixels {
            return Err(
                LimitViolation {
                    kind: ViolationKind::Pixels,
                    actual: pixels,
                    allowed: self.max_pixels,
                    binding: self.binding,
                },
            );
        }
        if width > self.max_width {
            return Err(
                LimitViolation {
                    kind: ViolationKind::Width,
                    actual: width,
                    allowed: self.max_width,
                    binding: Binding::Format,
                },
            );
        }
        if height > self.max_height {
            return Err(
                LimitViolation {
                    kind: ViolationKind::Height,
                    actual: height,
                    allowed: self.max_height,
                    binding: Binding::Format,
                },
            );
        }
        Ok(())
    }

    /// Check an estimated byte footprint against the byte ceiling.
    pub fn check_bytes(&self, bytes: u64) -> (result: Result<(), LimitViolation>)
        ensures
            result == bytes_verdict(*self, bytes),
    {
        if bytes > self.max_bytes {
            return Err(
                LimitViolation {
                    kind: ViolationKind::Bytes,
                    actual: bytes,
                    allowed: self.max_bytes,
                    binding: self.bytes_binding,
                },
            );
        }
        Ok(())
    }

    /// Whether a square of this side satisfies every ceiling.
    pub open spec fn admits_square(self, side: u64) -> bool {
        side * side <= self.max_pixels && side <= self.max_width && side <= self.max_height
    }

    /// Largest square side that satisfies every ceiling, or one where no side
    /// but zero does.
    pub fn suggested_side(&self) -> (side: u64)
        ensures
            side >= 1,
            self.admits_square(side) || side == 1,
            forall|other: u64| self.admits_square(other) ==> other <= side,
    {
        let by_pixels: u64 = integer_sqrt(self.max_pixels);
        let mut side: u64 = by_pixels;
        if self.max_width < side {
            side = self.max_width;
        }
        if self.max_height < side {
            side = self.max_height;
        }
        proof {
            assert(side * side <= by_pixels * by_pixels) by (nonlinear_arith)
                requires
                    side <= by_pixels,
            ;
            assert forall|other: u64| self.admits_square(other) implies other <= side by {
                if other > by_pixels {
                    assert(other * other >= (by_pixels + 1) * (by_pixels + 1)) by (nonlinear_arith)
                        requires
                            other >= by_pixels + 1,
                    ;
                }
            }
        }
        if side == 0 {
            1
        } else {
            side
        }
    }
}

/// A Newton step from anywhere does not fall below a root of the value.
proof fn lemma_newton_step(guess: int, value: int, root: int)
    requires
        guess > 0,
        root >= 0,
        root * root <= value,
    ensures
        (guess + value / guess) / 2 >= root,
{
    assert(value >= (2 * root - guess) * guess) by (nonlinear_arith)
        requires
            root * root <= value,
    ;
    assert(value / guess >= 2 * root - guess) by (nonlinear_arith)
        requires
            guess > 0,
            value >= (2 * root - guess) * guess,
    ;
}

/// Integer square root by Newton's method: the largest number whose square is
/// not larger than the value.
pub fn integer_sqrt(value: u64) -> (root: u64)
    ensures
        root * root <= value < (root + 1) * (root + 1),
{
    if value < 2 {
        proof {
            assert(value * value <= value < (value + 1) * (value + 1)) by (nonlinear_arith)
                requires
                    0 <= value < 2,
            ;
        }
        return value;
    }
    let mut guess: u64 = 0x1_0000_0000;
    loop
        invariant
            2 <= value,
            0 < guess <= 0x1_0000_0000,
            value < (guess + 1) * (guess + 1),
        decreases guess,
    {
        proof {
            assert(value / guess <= guess + 2) by (nonlinear_arith)
                requires
                    guess > 0,
                    value < (guess + 1) * (guess + 1),
            ;
        }
        let next: u64 = (guess + value / guess) / 2;
        if next >= guess {
            proof {
                assert(guess * guess <= value) by (nonlinear_arith)
                    requires
                        guess > 0,
                        value / guess >= guess,
                ;
            }
            return guess;
        }
        proof {
            if value >= (next + 1) * (next + 1) {
                lemma_newton_step(guess as int, value as int, next + 1);
            }
            assert(1int * 1 <= value);
            lemma_newton_step(guess as int, value as int, 1);
        }
        guess = next;
    }
}

// --- Laws --------------------------------------------------------------------
/// An image is accepted exactly when both sides and the area are within their
/// ceilings.
pub proof fn law_an_image_is_accepted_within_every_ceiling(
    limits: LimitSet,
    width: u64,
    height: u64,
)
    ensures
        size_verdict(limits, width, height) is Ok <==> width <= limits.max_width && height
            <= limits.max_height && (width * height <= limits.max_pixels || limits.max_pixels
            == u64::MAX),
{
}

/// A violation names a value that is larger than the ceiling it names, and an
/// area is reported before a side.
pub proof fn law_a_violation_is_a_violation(limits: LimitSet, width: u64, height: u64, bytes: u64)
    ensures
        size_verdict(limits, width, height) matches Err(violation) ==> {
            &&& violation.actual > violation.allowed
            &&& !(violation.kind is Bytes)
            &&& violation.kind is Pixels <==> saturated(width * height) > limits.max_pixels
            &&& violation.kind is Pixels ==> violation.binding == limits.binding
            &&& !(violation.kind is Pixels) ==> violation.binding is Format
        },
        bytes_verdict(limits, bytes) matches Err(violation) ==> {
            &&& violation.actual > violation.allowed
            &&& violation.kind is Bytes
            &&& violation.binding == limits.bytes_binding
        },
{
}

/// What fits still fits when it gets smaller.
pub proof fn law_a_smaller_image_still_fits(
    limits: LimitSet,
    width: u64,
    height: u64,
    narrower: u64,
    lower: u64,
)
    requires
        size_verdict(limits, width, height) is Ok,
        narrower <= width,
        lower <= height,
    ensures
        size_verdict(limits, narrower, lower) is Ok,
{
    assert(narrower * lower <= width * height) by (nonlinear_arith)
        requires
            narrower <= width,
            lower <= height,
    ;
}

/// A square that every ceiling admits passes the check.
pub proof fn law_a_suggested_square_fits(limits: LimitSet, side: u64)
    requires
        limits.admits_square(side),
    ensures
        size_verdict(limits, side, side) is Ok,
{
}

/// Free space only ever lowers the byte ceiling: nothing else changes, and the
/// binding of the bytes is the disk exactly when free space is what tightened
/// it.
pub proof fn law_free_space_only_lowers_the_byte_ceiling(limits: LimitSet, free: Option<u64>)
    ensures
        ({
            let output = output_limits(limits, free);
            &&& output.max_bytes <= limits.max_bytes
            &&& output.max_width == limits.max_width
            &&& output.max_height == limits.max_height
            &&& output.max_pixels == limits.max_pixels
            &&& output.binding == limits.binding
            &&& free is None ==> output == limits
            &&& output.max_bytes < limits.max_bytes ==> output.bytes_binding is Disk
            &&& output.max_bytes == limits.max_bytes ==> output.bytes_binding
                == limits.bytes_binding
        }),
{
}

/// At most one volume holds a path.
pub proof fn law_one_volume_holds_a_path(
    path: Seq<crate::cli::paths::ComponentView>,
    volumes: Seq<Volume>,
    a: int,
    b: int,
)
    requires
        holds(path, volumes, a),
        holds(path, volumes, b),
    ensures
        a == b,
{
    assert(lies_on(path, volumes[a]));
    assert(lies_on(path, volumes[b]));
}

/// What may be written leaves as much again, and the reserve, on the volume.
pub proof fn law_a_volume_keeps_its_reserve(free: u64)
    ensures
        free >= DISK_RESERVE_BYTES ==> 2 * disk_allowance(free) + DISK_RESERVE_BYTES <= free,
        free < DISK_RESERVE_BYTES ==> disk_allowance(free) == 0,
{
}

/// The images in flight together never claim more than half of the memory that
/// was probed, unless there is less than a byte for each.
pub proof fn law_the_images_in_flight_share_half_of_the_memory(budget: SystemBudget)
    requires
        budget.available_memory != 0,
    ensures
        ({
            let share = budget.image_bytes();
            let images = at_least_one(budget.concurrency as nat);
            share == 1 || share * images <= budget.available_memory as nat / 2 && share * images
                <= budget.address_cap
        }),
{
    let images = at_least_one(budget.concurrency as nat);
    let bounded = smaller(budget.available_memory as nat / 2, budget.address_cap as nat);
    assert((bounded / images) * images <= bounded) by (nonlinear_arith)
        requires
            images > 0,
    ;
}

/// More memory never lowers a budget, and more images in flight never raise
/// it.
pub proof fn law_a_budget_follows_memory_and_concurrency(a: SystemBudget, b: SystemBudget)
    requires
        0 < a.available_memory <= b.available_memory,
        a.address_cap <= b.address_cap,
        b.concurrency <= a.concurrency,
    ensures
        a.image_bytes() <= b.image_bytes(),
{
    let small = smaller(a.available_memory as nat / 2, a.address_cap as nat);
    let large = smaller(b.available_memory as nat / 2, b.address_cap as nat);
    let many = at_least_one(a.concurrency as nat);
    let few = at_least_one(b.concurrency as nat);
    assert(small / many <= large / few) by (nonlinear_arith)
        requires
            small <= large,
            0 < few <= many,
    ;
}

/// Reading limits honour both sources: no more pixels than the square of the
/// format's side, no more than the memory budget holds, and the binding names
/// the one that decided.
pub proof fn law_input_limits_are_the_intersection(
    format: ImageFormatId,
    depth: BitDepth,
    colorspace: ColorSpace,
    budget: SystemBudget,
    cost: PipelineCost,
)
    ensures
        ({
            let limits = input_limits(format, depth, colorspace, budget, cost);
            let square = saturated(side_cap(format) * side_cap(format));
            let held = budget_pixels(depth, colorspace, budget, cost);
            &&& limits.max_pixels <= square
            &&& limits.max_pixels <= held
            &&& limits.max_pixels == square || limits.max_pixels == held
            &&& limits.binding is Format <==> square <= held
            &&& limits.binding is Memory <==> held < square
        }),
{
    let held = budget_pixels(depth, colorspace, budget, cost);
    let square = saturated(side_cap(format) * side_cap(format));
    if held < square {
        assert(held as u64 == held);
    }
}

/// The buffers of the pixels that a budget admits fit in the budget.
pub proof fn law_the_admitted_pixels_fit_in_memory(
    depth: BitDepth,
    colorspace: ColorSpace,
    budget: SystemBudget,
    cost: PipelineCost,
)
    ensures
        budget_pixels(depth, colorspace, budget, cost) * (pixel_bytes(depth, colorspace)
            * cost.factor()) <= budget.image_bytes(),
{
    let pixel = pixel_bytes(depth, colorspace);
    let factor = cost.factor();
    assert(pixel * factor > 0) by (nonlinear_arith)
        requires
            pixel > 0,
            factor > 0,
    ;
    let divisor = pixel * factor;
    let bytes = budget.image_bytes();
    assert((bytes / divisor) * divisor <= bytes) by (nonlinear_arith)
        requires
            divisor > 0,
    ;
}

/// The name of a format, taken as an extension, is that format.
pub proof fn law_a_format_name_is_an_extension_of_it(format: ImageFormatId)
    ensures
        format_of_extension(format.label()) == format,
{
    lemma_extensions_are_small();
    reveal_strlit("jpg");
    reveal_strlit("jpeg");
    reveal_strlit("png");
    reveal_strlit("webp");
    reveal_strlit("avif");
    reveal_strlit("tif");
    reveal_strlit("tiff");
    reveal_strlit("svg");
    reveal_strlit("svgz");
    reveal_strlit("image");
    if format is Other {
        assert(crate::text::ascii_lowered("image"@) =~= "image"@);
        assert("image"@.len() == 5);
    }
    assert("jpeg"@[0] == 'j' && "webp"@[0] == 'w' && "avif"@[0] == 'a' && "tiff"@[0] == 't');
    assert("png"@[0] == 'p' && "svg"@[0] == 's' && "jpg"@.len() == 3);
}

/// An extension names the same format in any case.
pub proof fn law_extensions_ignore_case(a: Seq<char>, b: Seq<char>)
    requires
        crate::text::ascii_lowered(a) == crate::text::ascii_lowered(b),
    ensures
        format_of_extension(a) == format_of_extension(b),
{
}

} // verus!
