//! What an input is measured by before it is decoded.

use vstd::prelude::*;
use crate::budgets::law_an_input_is_limited_by_format_and_memory;
use crate::budgets::{law_a_pixel_takes_its_samples, law_every_encoder_has_its_cost};
use crate::cli::headers::{avif_extent, jpeg_extent, png_extent, tiff_extent};
use crate::cli::pipeline::{declared_by, limits_for, probe_length, size_refused};
use crate::cli::threads::{clamped, requested_threads};
use crate::color::{BitDepth, ColorSpace};
use crate::error::{path_format, ErrorView, InputView};
use crate::limits::{
    budget_of, budget_pixels, encoder_cost, input_limits, pixel_bytes, side_cap, size_verdict,
    ImageFormatId, MemoryReading,
};

verus! {

/// A PNG is sized by its first 32 bytes, and a JPEG, a WebP, an AVIF or a TIFF by
/// its first 64 KiB. Nothing else is sized up front.
pub proof fn law_every_format_has_its_probe(format: ImageFormatId)
    ensures
        format is Png ==> probe_length(format) == Some(32usize),
        format is Jpeg || format is WebP || format is Avif || format is Tiff ==> probe_length(format)
            == Some(65536usize),
        format is Svg || format is Other ==> probe_length(format) is None,
{
}

/// What the front of a file declares is read by the rules of its own format; for
/// a WebP it is what the bitstream header says.
pub proof fn law_a_file_is_measured_by_its_format(
    prefix: Seq<u8>,
    features: Option<(u32, u32)>,
)
    requires
        prefix.len() > 0,
    ensures
        declared_by(prefix, ImageFormatId::Jpeg, features) == jpeg_extent(prefix),
        declared_by(prefix, ImageFormatId::Png, features) == png_extent(prefix),
        declared_by(prefix, ImageFormatId::Avif, features) == avif_extent(prefix),
        declared_by(prefix, ImageFormatId::Tiff, features) == tiff_extent(prefix),
        features matches Some((width, height)) ==> declared_by(
            prefix,
            ImageFormatId::WebP,
            features,
        ) == Some((width as u64, height as u64)),
        features is None ==> declared_by(prefix, ImageFormatId::WebP, features) is None,
        declared_by(prefix, ImageFormatId::Svg, features) is None,
        declared_by(prefix, ImageFormatId::Other, features) is None,
{
}

/// As many images are in flight as `--threads` says: one where it is absent or
/// zero.
pub proof fn law_threads_are_taken_as_given(count: u16)
    ensures
        count > 0 ==> requested_threads(Some(count)) == count,
        requested_threads(Some(0)) == 1,
        requested_threads(None) == 1,
{
}

/// A request below one runs one; any other runs as it is, as far as the machine
/// goes.
pub proof fn law_a_machine_runs_what_it_can(wanted: usize, machine: usize)
    requires
        machine >= 1,
    ensures
        wanted == 0 ==> clamped(wanted, machine) == 1,
        1 <= wanted <= machine ==> clamped(wanted, machine) == wanted,
        wanted > machine ==> clamped(wanted, machine) == machine,
{
}

/// The limits of an input in numbers: the side of its format both ways, and as
/// many pixels of eight-bit samples as fit into the share of one image together
/// with all buffers of decoding and encoding, but no more than a square of that
/// side.
pub proof fn law_an_input_has_to_fit(
    format: ImageFormatId,
    alpha: bool,
    threads: Option<u16>,
    reading: MemoryReading,
    buffers: nat,
)
    requires
        format is Jpeg ==> buffers == 6,
        format is WebP ==> buffers == 9,
        format is Png ==> buffers == 15,
        format is Avif ==> buffers == 19,
        format is Tiff || format is Svg || format is Other ==> buffers == 11,
    ensures
        ({
            let colorspace = if alpha {
                ColorSpace::RGBA
            } else {
                ColorSpace::RGB
            };
            let images: usize = match threads {
                Some(count) if count > 0 => count as usize,
                _ => 1,
            };
            let samples = if alpha {
                4
            } else {
                3int
            };
            let limits = limits_for(format, colorspace, threads, reading);
            let share = budget_of(images, reading).image_bytes();
            let side = side_cap(format);
            &&& limits.max_width == side
            &&& limits.max_height == side
            &&& limits.binding is Memory ==> limits.max_pixels * (samples * buffers) <= share < (
            limits.max_pixels + 1) * (samples * buffers)
            &&& limits.binding is Format ==> limits.max_pixels * (samples * buffers) <= share && (
            limits.max_pixels == side * side || limits.max_pixels == u64::MAX)
        }),
{
    let colorspace = if alpha {
        ColorSpace::RGBA
    } else {
        ColorSpace::RGB
    };
    let images: usize = match threads {
        Some(count) if count > 0 => count as usize,
        _ => 1,
    };
    let samples: int = if alpha {
        4
    } else {
        3
    };
    let budget = budget_of(images, reading);
    let cost = encoder_cost(format);
    assert(limits_for(format, colorspace, threads, reading) == input_limits(
        format,
        BitDepth::Eight,
        colorspace,
        budget,
        cost,
    ));
    law_every_encoder_has_its_cost(format);
    law_a_pixel_takes_its_samples(BitDepth::Eight, colorspace);
    crate::budgets::law_a_budget_is_used_up(BitDepth::Eight, colorspace, budget, cost);
    law_an_input_is_limited_by_format_and_memory(
        format,
        BitDepth::Eight,
        colorspace,
        budget,
        cost,
    );
    let limits = limits_for(format, colorspace, threads, reading);
    let held = budget_pixels(BitDepth::Eight, colorspace, budget, cost) as int;
    let each = samples * buffers;
    assert(pixel_bytes(BitDepth::Eight, colorspace) * cost.factor() == each);
    let pixels = limits.max_pixels as int;
    assert(pixels <= held);
    assert(pixels * each <= held * each) by (nonlinear_arith)
        requires
            pixels <= held,
            each >= 0,
    ;
}

/// An image is refused for its size exactly where the limits of its format do not
/// admit it, with the violation, the file and the size in the report.
pub proof fn law_a_refusal_names_file_and_size(
    path: Seq<char>,
    size: (u64, u64),
    threads: Option<u16>,
    reading: MemoryReading,
    windows: bool,
)
    ensures
        ({
            let limits = limits_for(path_format(path, windows), ColorSpace::RGB, threads, reading);
            match size_refused(path, size, threads, reading, windows) {
                None => size_verdict(limits, size.0, size.1) is Ok,
                Some(error) => error matches ErrorView::Input(
                    InputView::SizeLimit { path: named, format, dimensions, violation },
                ) && named == path && format == path_format(path, windows) && dimensions == Some(
                    size,
                ) && size_verdict(limits, size.0, size.1) == Err::<
                    (),
                    crate::limits::LimitViolation,
                >(violation),
            }
        }),
{
}

} // verus!
