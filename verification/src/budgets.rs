//! What the limits of formats, machines and volumes come to in numbers.

use vstd::prelude::*;
use crate::color::{BitDepth, ColorSpace};
use crate::limits::{
    address_limit, budget_of, budget_pixels, bytes_verdict, disk_allowance, encoder_cost,
    format_of_encoder, format_of_extension, free_memory, holds, input_limits, lies_on,
    output_limits, pixel_bytes, side_cap, size_verdict, ImageFormatId, LimitSet, MemoryReading,
    PipelineCost, SystemBudget, Volume,
};
use crate::text::ascii_lowered;

verus! {

// --- Formats -------------------------------------------------------------------
/// The sides of a WebP end at 16383 and those of an AVIF at 65536; JPEG and PNG
/// are decoded up to 16384. The other formats have no limit of their own.
pub proof fn law_every_format_has_its_side(format: ImageFormatId)
    ensures
        format is WebP ==> side_cap(format) == 16383,
        format is Avif ==> side_cap(format) == 65536,
        format is Jpeg || format is Png ==> side_cap(format) == 16384,
        format is Tiff || format is Svg || format is Other ==> side_cap(format) == u64::MAX,
{
}

/// What each extension stands for, in any case; every other one stands for no
/// format in particular.
pub proof fn law_an_extension_stands_for_its_format(extension: Seq<char>)
    ensures
        ({
            let small = ascii_lowered(extension);
            let format = format_of_extension(extension);
            &&& format is Jpeg <==> small == "jpg"@ || small == "jpeg"@
            &&& format is Png <==> small == "png"@
            &&& format is WebP <==> small == "webp"@
            &&& format is Avif <==> small == "avif"@
            &&& format is Tiff <==> small == "tif"@ || small == "tiff"@
            &&& format is Svg <==> small == "svg"@ || small == "svgz"@
        }),
{
    reveal_strlit("jpg");
    reveal_strlit("jpeg");
    reveal_strlit("png");
    reveal_strlit("webp");
    reveal_strlit("avif");
    reveal_strlit("tif");
    reveal_strlit("tiff");
    reveal_strlit("svg");
    reveal_strlit("svgz");
    assert("jpg"@[0] == 'j' && "png"@[0] == 'p' && "tif"@[0] == 't' && "svg"@[0] == 's');
    assert("jpeg"@[0] == 'j' && "webp"@[0] == 'w' && "avif"@[0] == 'a' && "tiff"@[0] == 't'
        && "svgz"@[0] == 's');
}

/// What the name of each encoder stands for.
pub proof fn law_an_encoder_stands_for_its_format(name: Seq<char>)
    ensures
        format_of_encoder(name) is Jpeg <==> name == "mozjpeg"@ || name == "jpeg"@,
        format_of_encoder(name) is Png <==> name == "oxipng"@ || name == "png"@,
        format_of_encoder(name) is WebP <==> name == "webp"@,
        format_of_encoder(name) is Avif <==> name == "avif"@,
        format_of_encoder(name) is Tiff <==> name == "tiff"@,
        !(format_of_encoder(name) is Svg),
{
    reveal_strlit("mozjpeg");
    reveal_strlit("jpeg");
    reveal_strlit("oxipng");
    reveal_strlit("png");
    reveal_strlit("webp");
    reveal_strlit("avif");
    reveal_strlit("tiff");
    assert("mozjpeg"@.len() == 7 && "oxipng"@.len() == 6 && "png"@.len() == 3);
    assert("jpeg"@.len() == 4 && "webp"@.len() == 4 && "avif"@.len() == 4 && "tiff"@.len() == 4);
    assert("jpeg"@[0] == 'j' && "webp"@[0] == 'w' && "avif"@[0] == 'a' && "tiff"@[0] == 't');
}

/// Beside the three buffers of decoding, encoding a JPEG keeps three more, a WebP
/// six, a PNG twelve, an AVIF sixteen, and anything else eight.
pub proof fn law_every_encoder_has_its_cost(format: ImageFormatId)
    ensures
        ({
            let factor = encoder_cost(format).factor();
            &&& format is Jpeg ==> factor == 6
            &&& format is WebP ==> factor == 9
            &&& format is Png ==> factor == 15
            &&& format is Avif ==> factor == 19
            &&& format is Tiff || format is Svg || format is Other ==> factor == 11
        }),
{
}

/// The buffers of a pipeline add up; one without any counts as one.
pub proof fn law_a_cost_is_the_sum_of_its_parts(cost: PipelineCost)
    ensures
        cost.decode + cost.resize + cost.quantize + cost.encode > 0 ==> cost.factor()
            == cost.decode + cost.resize + cost.quantize + cost.encode,
        cost.decode + cost.resize + cost.quantize + cost.encode == 0 ==> cost.factor() == 1,
{
}

// --- Pixels ----------------------------------------------------------------------
/// A pixel takes its samples times the bytes of each. An unknown depth counts as
/// one byte, and an unknown colour space as one byte in all.
pub proof fn law_a_pixel_takes_its_samples(depth: BitDepth, colorspace: ColorSpace)
    ensures
        ({
            let samples = colorspace.components();
            let bytes = pixel_bytes(depth, colorspace);
            &&& samples > 0 && (depth is Eight || depth is Unknown) ==> bytes == samples
            &&& samples > 0 && depth is Sixteen ==> bytes == 2 * samples
            &&& samples > 0 && depth is Float32 ==> bytes == 4 * samples
            &&& samples == 0 ==> bytes == 1
            &&& colorspace is Luma ==> samples == 1
            &&& colorspace is LumaA ==> samples == 2
            &&& colorspace is RGB || colorspace is BGR || colorspace is YCbCr || colorspace is HSL
                || colorspace is HSV ==> samples == 3
            &&& colorspace is RGBA || colorspace is BGRA || colorspace is ARGB || colorspace is CMYK
                || colorspace is YCCK ==> samples == 4
            &&& colorspace is Unknown ==> samples == 0
            &&& colorspace matches ColorSpace::MultiBand(bands) ==> samples == bands
        }),
{
    let samples = colorspace.components();
    assert(samples * 1 == samples && samples * 2 == 2 * samples && samples * 4 == 4 * samples)
        by (nonlinear_arith);
    assert(0 * depth.sample_bytes() == 0) by (nonlinear_arith);
}

/// Four colour spaces have an alpha sample.
pub proof fn law_four_colour_spaces_have_alpha(colorspace: ColorSpace)
    ensures
        colorspace.alpha() <==> colorspace is RGBA || colorspace is LumaA || colorspace is BGRA
            || colorspace is ARGB,
{
}

// --- Memory ------------------------------------------------------------------------
/// The free memory is the smaller of what the machine has and what the control
/// group leaves; a group without a limit does not count.
pub proof fn law_the_smaller_memory_counts(reading: MemoryReading)
    ensures
        reading.cgroup is None ==> free_memory(reading) == reading.available,
        reading.cgroup matches Some((total, free)) ==> {
            &&& total == 0 ==> free_memory(reading) == reading.available
            &&& total > 0 ==> free_memory(reading) <= free && free_memory(reading)
                <= reading.available && (free_memory(reading) == free || free_memory(reading)
                == reading.available)
        },
{
}

/// A budget holds the free memory of the machine, and at least one image is in
/// flight. Where an address has 64 bits, addresses limit nothing; where it has
/// 32, images share 768 MiB.
pub proof fn law_a_budget_holds_what_the_machine_has(concurrency: usize, reading: MemoryReading)
    ensures
        budget_of(concurrency, reading).available_memory == free_memory(reading),
        budget_of(concurrency, reading).address_cap == address_limit(),
        concurrency > 0 ==> budget_of(concurrency, reading).concurrency == concurrency,
        concurrency == 0 ==> budget_of(concurrency, reading).concurrency == 1,
        usize::MAX > 0xffff_ffff ==> address_limit() == u64::MAX,
        usize::MAX <= 0xffff_ffff ==> address_limit() == 768 * 1024 * 1024,
{
}

/// An image may use its share of half the free memory, or of the addresses where
/// those are fewer, to the last whole byte and at least one byte. Where the free
/// memory is not known it may use 512 MiB.
pub proof fn law_an_image_gets_its_whole_share(budget: SystemBudget)
    ensures
        budget.available_memory == 0 ==> budget.image_bytes() == 512 * 1024 * 1024,
        budget.available_memory != 0 ==> ({
            let share = budget.image_bytes();
            let images = if budget.concurrency == 0 {
                1
            } else {
                budget.concurrency as int
            };
            &&& share >= 1
            &&& (share + 1) * images > budget.available_memory as int / 2 || (share + 1) * images
                > budget.address_cap
            &&& share > 1 ==> share * images <= budget.available_memory as int / 2 && share * images
                <= budget.address_cap
        }),
{
    if budget.available_memory != 0 {
        let half = budget.available_memory as int / 2;
        let cap = budget.address_cap as int;
        let whole = if half <= cap {
            half
        } else {
            cap
        };
        let images = if budget.concurrency == 0 {
            1
        } else {
            budget.concurrency as int
        };
        let share = whole / images;
        vstd::arithmetic::div_mod::lemma_fundamental_div_mod(whole, images);
        vstd::arithmetic::div_mod::lemma_mod_bound(whole, images);
        assert(images * share == share * images) by (nonlinear_arith);
        assert((share + 1) * images == share * images + images) by (nonlinear_arith);
        assert(share >= 0) by (nonlinear_arith)
            requires
                whole == images * share + whole % images,
                whole >= 0,
                whole % images < images,
                images > 0,
        ;
        if share == 0 {
            assert(images * share == 0) by (nonlinear_arith)
                requires
                    share == 0,
            ;
            assert((1 + 1) * images > whole) by (nonlinear_arith)
                requires
                    images > whole,
                    images > 0,
            ;
        }
    }
}

// --- Limits ------------------------------------------------------------------------
/// The pixels that a budget holds are as many as fit.
pub proof fn law_a_budget_is_used_up(
    depth: BitDepth,
    colorspace: ColorSpace,
    budget: SystemBudget,
    cost: PipelineCost,
)
    ensures
        ({
            let pixels = budget_pixels(depth, colorspace, budget, cost);
            let each = pixel_bytes(depth, colorspace) * cost.factor();
            &&& pixels * each <= budget.image_bytes()
            &&& (pixels + 1) * each > budget.image_bytes()
        }),
{
    let each = (pixel_bytes(depth, colorspace) * cost.factor()) as int;
    assert(each > 0) by (nonlinear_arith)
        requires
            each == pixel_bytes(depth, colorspace) * cost.factor(),
            pixel_bytes(depth, colorspace) >= 1,
            cost.factor() >= 1,
    ;
    let bytes = budget.image_bytes() as int;
    let pixels = bytes / each;
    vstd::arithmetic::div_mod::lemma_fundamental_div_mod(bytes, each);
    assert(each * pixels == pixels * each) by (nonlinear_arith);
    assert((pixels + 1) * each == pixels * each + each) by (nonlinear_arith);
}

/// An input is limited by the side of its format in both directions, by the
/// pixels of a square of that side and those that the budget holds, whichever are
/// fewer, and by the bytes of all its buffers.
pub proof fn law_an_input_is_limited_by_format_and_memory(
    format: ImageFormatId,
    depth: BitDepth,
    colorspace: ColorSpace,
    budget: SystemBudget,
    cost: PipelineCost,
)
    ensures
        ({
            let limits = input_limits(format, depth, colorspace, budget, cost);
            let side = side_cap(format);
            let held = budget_pixels(depth, colorspace, budget, cost);
            let bytes = budget.image_bytes() * cost.factor();
            &&& limits.max_width == side
            &&& limits.max_height == side
            &&& side * side <= u64::MAX && side * side <= held ==> limits.max_pixels == side * side
                && limits.binding is Format
            &&& side * side > held && held < u64::MAX ==> limits.max_pixels == held
                && limits.binding is Memory
            &&& bytes <= u64::MAX ==> limits.max_bytes == bytes
            &&& bytes > u64::MAX ==> limits.max_bytes == u64::MAX
            &&& limits.bytes_binding is Memory
        }),
{
}

/// A volume lends half of what it has beyond a reserve of 100 MiB, to the last
/// whole byte.
pub proof fn law_a_volume_lends_half_beyond_its_reserve(free: u64)
    ensures
        free <= 100 * 1024 * 1024 ==> disk_allowance(free) == 0,
        free > 100 * 1024 * 1024 ==> 2 * disk_allowance(free) + 100 * 1024 * 1024 <= free < 2
            * disk_allowance(free) + 2 + 100 * 1024 * 1024,
{
}

/// An output is limited by the smaller of its own ceiling and what the volume
/// lends; a volume that is not known does not count.
pub proof fn law_an_output_is_limited_by_its_volume(limits: LimitSet, free: u64)
    ensures
        ({
            let output = output_limits(limits, Some(free));
            &&& disk_allowance(free) < limits.max_bytes ==> output.max_bytes == disk_allowance(free)
                && output.bytes_binding is Disk
            &&& disk_allowance(free) >= limits.max_bytes ==> output == limits
        }),
        output_limits(limits, None) == limits,
{
}

/// What a violation says: the pixels come first, then the width, then the height.
/// It names what was measured, what is allowed, and where that comes from.
pub proof fn law_a_violation_names_the_numbers(limits: LimitSet, width: u64, height: u64, bytes: u64)
    ensures
        ({
            let verdict = size_verdict(limits, width, height);
            let area = width * height;
            let too_many = area > limits.max_pixels && limits.max_pixels < u64::MAX;
            &&& too_many ==> (verdict matches Err(violation) && violation.kind is Pixels
                && violation.allowed == limits.max_pixels && violation.binding == limits.binding && (
            area <= u64::MAX ==> violation.actual == area) && (area > u64::MAX ==> violation.actual
                == u64::MAX))
            &&& !too_many && width > limits.max_width ==> (verdict matches Err(violation)
                && violation.kind is Width && violation.actual == width && violation.allowed
                == limits.max_width && violation.binding is Format)
            &&& !too_many && width <= limits.max_width && height > limits.max_height ==> (verdict
                matches Err(violation) && violation.kind is Height && violation.actual == height
                && violation.allowed == limits.max_height && violation.binding is Format)
            &&& !too_many && width <= limits.max_width && height <= limits.max_height ==> verdict
                is Ok
        }),
        bytes <= limits.max_bytes ==> bytes_verdict(limits, bytes) is Ok,
        bytes > limits.max_bytes ==> (bytes_verdict(limits, bytes) matches Err(violation)
            && violation.kind is Bytes && violation.actual == bytes && violation.allowed
            == limits.max_bytes && violation.binding == limits.bytes_binding),
{
    assert(width * height >= 0) by (nonlinear_arith)
        requires
            width >= 0,
            height >= 0,
    ;
}

/// A path lies on a volume where it starts with the mount point, and of the
/// volumes it lies on the one with the longest mount point holds it.
pub proof fn law_the_deepest_volume_holds_a_path(
    volumes: Seq<Volume>,
    index: int,
    other: int,
    rest: Seq<crate::cli::paths::ComponentView>,
)
    requires
        0 <= index < volumes.len(),
        0 <= other < volumes.len(),
    ensures
        lies_on(volumes[index].mount_point@ + rest, volumes[index]),
        ({
            let path = volumes[index].mount_point@ + rest;
            holds(path, volumes, other) ==> volumes[index].mount_length
                <= volumes[other].mount_length && lies_on(path, volumes[other])
        }),
{
    let mount = volumes[index].mount_point@;
    assert((mount + rest).take(mount.len() as int) =~= mount);
    assert(lies_on(mount + rest, volumes[index]));
}

} // verus!
