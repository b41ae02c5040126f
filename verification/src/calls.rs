//! What the functions of the library give, said of their arguments and results.

use std::collections::BTreeMap;
use vstd::prelude::*;
use crate::cli::arguments::{
    law_an_encoder_is_built_by_its_name, law_every_webp_option_is_its_own_argument,
};
use crate::cli::containers::{
    frame_bytes, frame_markers, is_plain_segment, law_a_jpeg_has_the_size_in_its_frame_header,
    law_a_png_has_the_size_in_its_first_chunk, png_front, segments_bytes, JpegSegment,
};
use crate::cli::headers::{jpeg_dimensions, png_dimensions, tiff_dimensions};
use crate::cli::jpeg::{
    insert_jpeg_exif_app1, law_an_inserted_exif_segment_reads_back, read_jpeg_source_metadata,
    InsertError, JpegSourceMetadata, MetadataError,
};
use crate::cli::outputs::law_every_output_is_named_by_stem_and_suffix;
use crate::cli::paths::{
    check_input_file, collides, get_paths, output_path, path_of, path_stem, paths_equivalent, paths_of,
    plan_outputs, read_file_list_entries, resolutions, texts_of, ComponentView, FilePath,
    FileStatus, InputPathError, OutputPlan, PathsError, PathsFailure,
};
use crate::cli::pipeline::{
    avif_options, check_input_limits, decode_with_fallback, encoder, encoder_with, fallback_of,
    limits_for, mozjpeg_options, probe_dimensions, svg_decoder, AvailableEncoders, AvifOptions,
    EncoderArgs, MozJpegOptions, Retry,
};
use crate::cli::preprocess::{
    first_other, leading, operations, resize_plan, svg_target_size, Operation, PreprocessArgs,
};
use crate::cli::resize::{
    is_plain, is_writable, law_display_round_trips_through_from_str, ResizeError, ResizeValue,
    Single,
};
use crate::cli::schedule::{
    chained, is_flagged, law_a_quantization_stands_at_its_index,
    law_a_render_target_is_what_the_leading_values_ask_for, law_a_value_makes_one_step,
};
use crate::codecs::oxipng::{png_written, OxiPngEncoder};
use crate::codecs::svg::SvgDecoder;
use crate::codecs::webp::{webp_written, WebPEncoder};
use crate::color::{BitDepth, ColorSpace};
use crate::error::{path_format, text_of, Direction, ErrorView, ImageFailure, InputView, RimageError};
use crate::exit::{ExitCode, RunState};
use crate::limits::{
    size_verdict, ImageFormatId, LimitSet, LimitViolation, MemoryReading, PipelineCost,
    SystemBudget,
};
use crate::raster::{from_bytes, to_bytes, Raster, SamplesView};
use vstd::utf8::encode_utf8;

verus! {

// --- Sizes -----------------------------------------------------------------------
/// A value with both sides asks for exactly those, and one with a single side for
/// exactly that, whatever the image is like; one without any leaves the image as
/// it is.
pub proof fn law_map_dimensions_meets_the_sides(
    value: &ResizeValue,
    width: usize,
    height: usize,
    size: (usize, usize),
)
    requires
        call_ensures(ResizeValue::map_dimensions, (value, width, height), size),
    ensures
        *value matches ResizeValue::Dimensions(w, h) ==> {
            &&& w matches Some(w) ==> size.0 == w
            &&& h matches Some(h) ==> size.1 == h
            &&& w is None && h is None ==> size == (width, height)
        },
        *value matches ResizeValue::LongestSide(side) ==> {
            &&& width >= height > 0 ==> size.0 == side
            &&& 0 < width < height ==> size.1 == side
        },
        *value matches ResizeValue::ShortestSide(side) ==> {
            &&& width > height > 0 ==> size.1 == side
            &&& 0 < width <= height ==> size.0 == side
        },
{
    reveal(ResizeValue::size);
}

/// The probe for JPEG gives exactly the width and the height of the first frame
/// header behind any other segments, with any of the start-of-frame markers.
pub proof fn law_jpeg_dimensions_reads_the_frame_header(
    data: &[u8],
    size: Option<(u64, u64)>,
    segments: Seq<JpegSegment>,
    fill: nat,
    marker: u8,
    length: nat,
    precision: u8,
    width: nat,
    height: nat,
    rest: Seq<u8>,
)
    requires
        call_ensures(jpeg_dimensions, (data,), size),
        data@ == seq![0xffu8, 0xd8u8] + segments_bytes(segments) + frame_bytes(
            fill,
            marker,
            length,
            precision,
            width,
            height,
        ) + rest,
        forall|i: int| 0 <= i < segments.len() ==> is_plain_segment(#[trigger] segments[i]),
        frame_markers().contains(marker),
        2 <= length <= 0xffff,
        0 < width <= 0xffff,
        0 < height <= 0xffff,
    ensures
        size == Some((width as u64, height as u64)),
{
    law_a_jpeg_has_the_size_in_its_frame_header(
        segments,
        fill,
        marker,
        length,
        precision,
        width,
        height,
        rest,
    );
}

/// The probe for PNG gives exactly the width and the height of the first chunk.
pub proof fn law_png_dimensions_reads_the_first_chunk(
    data: &[u8],
    size: Option<(u64, u64)>,
    length: nat,
    width: nat,
    height: nat,
    rest: Seq<u8>,
)
    requires
        call_ensures(png_dimensions, (data,), size),
        data@ == png_front(length, width, height) + rest,
        0 < width <= 0xffff_ffff,
        0 < height <= 0xffff_ffff,
    ensures
        size == Some((width as u64, height as u64)),
{
    law_a_png_has_the_size_in_its_first_chunk(length, width, height, rest);
}

/// A file that was read in part is measured as the probe of its own format
/// measures it.
pub proof fn law_probe_dimensions_goes_by_the_format(
    prefix: &[u8],
    format: ImageFormatId,
    size: Option<(u64, u64)>,
    jpeg: Option<(u64, u64)>,
    png: Option<(u64, u64)>,
    tiff: Option<(u64, u64)>,
)
    requires
        call_ensures(probe_dimensions, (prefix, format), size),
        call_ensures(jpeg_dimensions, (prefix,), jpeg),
        call_ensures(png_dimensions, (prefix,), png),
        call_ensures(tiff_dimensions, (prefix,), tiff),
    ensures
        format is Jpeg ==> size == jpeg,
        format is Png ==> size == png,
        format is Tiff ==> size == tiff,
        format is Svg || format is Other ==> size is None,
        prefix@.len() == 0 ==> size is None,
{
}

/// An input is refused exactly where it declares a size that its limits do not
/// admit. One that could not be read, or declares none, is let through.
pub proof fn law_check_input_limits_refuses_what_does_not_fit(
    path: &str,
    prefix: &Vec<u8>,
    slice: &[u8],
    threads: Option<u16>,
    reading: MemoryReading,
    windows: bool,
    size: Option<(u64, u64)>,
    unread: Result<(), RimageError>,
    result: Result<(), RimageError>,
)
    requires
        call_ensures(check_input_limits, (path, None, threads, reading, windows), unread),
        call_ensures(check_input_limits, (path, Some(prefix), threads, reading, windows), result),
        call_ensures(probe_dimensions, (slice, path_format(path@, windows)), size),
        slice@ == prefix@,
    ensures
        unread is Ok,
        size is None ==> result is Ok,
        size matches Some((width, height)) ==> {
            let format = path_format(path@, windows);
            let limits = limits_for(format, ColorSpace::RGB, threads, reading);
            match result {
                Ok(()) => size_verdict(limits, width, height) is Ok,
                Err(error) => error@ matches ErrorView::Input(
                    InputView::SizeLimit { path: named, format: kind, dimensions, violation },
                ) && named == path@ && kind == format && dimensions == Some((width, height))
                    && size_verdict(limits, width, height) == Err::<(), LimitViolation>(violation),
            }
        },
{
}

// --- Command lines -----------------------------------------------------------------
/// Every quantization stands at its index with its quality and the dithering of
/// the command line, where alpha is not premultiplied there and no later one has
/// the same index.
pub proof fn law_operations_quantize_as_asked(
    args: &PreprocessArgs,
    size: (usize, usize),
    skip_resize: bool,
    map: BTreeMap<usize, Operation>,
    at: int,
)
    requires
        call_ensures(operations, (args, size, skip_resize), map),
        0 <= at < args.quantization@.len(),
        forall|j: int|
            at < j < args.quantization@.len() ==> (#[trigger] args.quantization@[j]).0
                != args.quantization@[at].0,
        !is_flagged(*args, args.quantization@[at].0),
    ensures
        ({
            let (index, quality) = args.quantization@[at];
            map@.contains_key(index) && map@[index] == Operation::Quantize(quality, args.dithering)
        }),
{
    law_a_quantization_stands_at_its_index(
        *args,
        (size.0 as nat, size.1 as nat),
        skip_resize,
        at,
    );
}

/// The quality of a MozJPEG encoder is the one that is given, and 75 where none
/// is, whatever the other arguments are; so it is with its other options.
pub proof fn law_mozjpeg_options_follow_their_arguments(
    args: &EncoderArgs,
    result: Result<MozJpegOptions, ImageFailure>,
)
    requires
        call_ensures(mozjpeg_options, (args,), result),
    ensures
        result matches Ok(options) ==> {
            &&& args.quality matches Some(quality) ==> options.quality == quality
            &&& args.quality is None ==> options.quality == 75
            &&& args.smoothing matches Some(smoothing) ==> options.smoothing == smoothing
            &&& args.smoothing is None ==> options.smoothing == 0
            &&& options.progressive == !args.baseline
            &&& options.optimize_coding == !args.no_optimize_coding
            &&& options.trellis_multipass == args.multipass
            &&& options.chroma_subsample == args.subsample
            &&& options.luma_qtable is Some <==> args.qtable is Some
            &&& options.chroma_qtable is Some <==> args.qtable is Some
        },
        args.colorspace is None && args.qtable is None ==> result is Ok,
{
    reveal_strlit("mozjpeg");
    reveal_strlit("ycbcr");
    reveal_strlit("rgb");
    reveal_strlit("grayscale");
}

/// The quality of an AVIF encoder is the one that is given, and 50 where none is;
/// its speed is 6 where none is given.
pub proof fn law_avif_options_follow_their_arguments(
    args: &EncoderArgs,
    result: Result<AvifOptions, ImageFailure>,
)
    requires
        call_ensures(avif_options, (args,), result),
    ensures
        result matches Ok(options) ==> {
            &&& args.quality matches Some(quality) ==> options.quality == quality
            &&& args.quality is None ==> options.quality == 50
            &&& args.speed matches Some(speed) ==> options.speed == speed
            &&& args.speed is None ==> options.speed == 6
            &&& options.alpha_quality == args.alpha_quality
        },
        args.colorspace is None && args.alpha_mode is None ==> result is Ok,
{
    reveal_strlit("ycbcr");
    reveal_strlit("UnassociatedClean");
}

/// Whoever asks for an encoder by its name gets that one, set up as the functions
/// for its options say.
pub proof fn law_encoder_builds_what_is_named(
    name: &str,
    args: &EncoderArgs,
    built: Result<AvailableEncoders, ImageFailure>,
    moz: Result<MozJpegOptions, ImageFailure>,
    avif: Result<AvifOptions, ImageFailure>,
)
    requires
        call_ensures(encoder, (name, args), built),
        call_ensures(mozjpeg_options, (args,), moz),
        call_ensures(avif_options, (args,), avif),
    ensures
        name@ == "mozjpeg"@ && moz is Ok ==> built == Ok::<AvailableEncoders, ImageFailure>(
            AvailableEncoders::MozJpeg(moz->Ok_0),
        ),
        name@ == "avif"@ && avif is Ok ==> built == Ok::<AvailableEncoders, ImageFailure>(
            AvailableEncoders::Avif(avif->Ok_0),
        ),
        name@ == "png"@ ==> built == Ok::<AvailableEncoders, ImageFailure>(AvailableEncoders::Png),
        name@ == "qoi"@ ==> built == Ok::<AvailableEncoders, ImageFailure>(AvailableEncoders::Qoi),
        name@ == "ppm"@ ==> built == Ok::<AvailableEncoders, ImageFailure>(AvailableEncoders::Ppm),
        name@ == "jpeg"@ ==> built == Ok::<AvailableEncoders, ImageFailure>(
            AvailableEncoders::Jpeg,
        ),
        name@ == "jpeg_xl"@ ==> built == Ok::<AvailableEncoders, ImageFailure>(
            AvailableEncoders::JpegXl,
        ),
        name@ == "farbfeld"@ ==> built == Ok::<AvailableEncoders, ImageFailure>(
            AvailableEncoders::FarbFeld,
        ),
{
    law_an_encoder_is_built_by_its_name(name@, *args, true);
    crate::cli::arguments::lemma_encoder_names();
}

/// The render target of a vector image is what the resize values in front of every
/// other operation ask for, where both directions are allowed and both sides fit
/// in 32 bits; where they change nothing there is none.
pub proof fn law_svg_target_size_is_what_is_asked_for(
    args: &PreprocessArgs,
    size: (usize, usize),
    result: Result<Option<(u32, u32)>, ImageFailure>,
)
    requires
        call_ensures(svg_target_size, (args, size), result),
        args.downscale && !args.no_downscale,
        args.upscale && !args.no_upscale,
    ensures
        ({
            let before = (size.0 as nat, size.1 as nat);
            let asked = chained(leading(args.resize@, first_other(*args)), before);
            match result {
                Ok(Some(target)) => (target.0 as nat, target.1 as nat) == asked,
                Ok(None) => asked == before,
                Err(failure) => failure.kind is Decode && (asked.0 > u32::MAX || asked.1
                    > u32::MAX),
            }
        }),
{
    law_a_render_target_is_what_the_leading_values_ask_for(
        *args,
        (size.0 as nat, size.1 as nat),
    );
}

/// An SVG is rendered at its own size without resize values, if the budget admits
/// it.
pub proof fn law_svg_decoder_renders_at_the_intrinsic_size(
    args: &PreprocessArgs,
    rounded: (usize, usize),
    intrinsic: (u32, u32),
    threads: Option<u16>,
    reading: MemoryReading,
    result: Result<SvgDecoder, ImageFailure>,
)
    requires
        call_ensures(svg_decoder, (args, rounded, intrinsic, threads, reading), result),
        args.resize@.len() == 0,
        intrinsic.0 > 0,
        intrinsic.1 > 0,
    ensures
        ({
            let budget = limits_for(
                ImageFormatId::Svg,
                ColorSpace::RGBA,
                threads,
                reading,
            ).max_pixels;
            match result {
                Ok(decoder) => decoder.target.0 == intrinsic.0 && decoder.target.1 == intrinsic.1
                    && intrinsic.0 * intrinsic.1 <= budget,
                Err(failure) => failure.kind is Decode && intrinsic.0 * intrinsic.1 > budget,
            }
        }),
{
    assert(leading(args.resize@, first_other(*args)) =~= Seq::empty());
}

/// One resize value makes one step to the size it asks for, or none where the size
/// is there already.
pub proof fn law_resize_plan_goes_to_the_size_asked_for(
    values: &Vec<(usize, ResizeValue)>,
    size: (usize, usize),
    plan: Vec<(usize, (usize, usize))>,
    asked: (usize, usize),
)
    requires
        call_ensures(resize_plan, (values, size, true, true), plan),
        values@.len() == 1,
        call_ensures(ResizeValue::map_dimensions, (&values@[0].1, size.0, size.1), asked),
    ensures
        asked == size ==> plan@.len() == 0,
        asked != size ==> plan@.len() == 1 && plan@[0] == (values@[0].0, asked),
{
    let (index, value) = values@[0];
    let before = (size.0 as nat, size.1 as nat);
    assert(values@ =~= seq![(index, value)]);
    law_a_value_makes_one_step(index, value, before, true, true);
    let steps = crate::cli::preprocess::steps_of(plan@);
    assert(steps.len() == plan@.len());
    if plan@.len() > 0 {
        assert(steps[0].index == plan@[0].0);
        assert(steps[0].size == (plan@[0].1.0 as nat, plan@[0].1.1 as nat));
    }
}

// --- Paths ---------------------------------------------------------------------------
/// The file name of an output is the stem of the input and the suffix, whatever
/// directory it goes to.
pub proof fn law_output_path_ends_in_stem_and_suffix(
    path: &FilePath,
    out_dir: &Option<FilePath>,
    common: &Option<FilePath>,
    suffix: &Option<String>,
    windows: bool,
    result: Result<FilePath, PathsError>,
)
    requires
        call_ensures(output_path, (path, out_dir, common, suffix, windows), result),
        suffix matches Some(suffix) && suffix@.len() > 0 && suffix@.last() != '.',
    ensures
        result matches Ok(output) ==> output@.len() > 0 && output@.last() == ComponentView::Normal(
            path_stem(path@) + encode_utf8(suffix->0@),
        ),
{
    law_every_output_is_named_by_stem_and_suffix(
        path@,
        path_of(*out_dir),
        path_of(*common),
        suffix->0@,
        windows,
    );
}

/// An input path is taken exactly where there is a file. What cannot be told is
/// reported as such, and what is missing or no file with its reason.
pub proof fn law_check_input_file_takes_files(
    status: FileStatus,
    result: Result<(), InputPathError>,
)
    requires
        call_ensures(check_input_file, (status,), result),
    ensures
        status is File <==> result is Ok,
        status is Failed <==> (result matches Err(InputPathError::Io)),
        status is NotFile || status is NotFound <==> (result matches Err(
            InputPathError::MissingOrNotFile(_),
        )),
{
}

/// A run that is planned and goes through pairs each file among its inputs with
/// the output that a mapping of its own gives, and no two outputs are the same
/// file.
pub proof fn law_a_planned_run_pairs_every_file(
    files: &Vec<FilePath>,
    statuses: &Vec<FileStatus>,
    out_dir: &Option<FilePath>,
    suffix: &Option<String>,
    windows: bool,
    plan: &OutputPlan,
    resolved: &Vec<Option<FilePath>>,
    pairs: Vec<(FilePath, FilePath)>,
    at: int,
    mapped: Result<FilePath, PathsError>,
    nothing: &Option<FilePath>,
    earlier: int,
    same: bool,
)
    requires
        files@.len() == statuses@.len(),
        forall|i: int| 0 <= i < statuses@.len() ==> (#[trigger] statuses@[i]) is File,
        call_ensures(plan_outputs, (files, statuses, out_dir, suffix, false, windows), *plan),
        plan.outputs@.len() == resolved@.len(),
        call_ensures(
            get_paths,
            (plan, resolved),
            Ok::<Vec<(FilePath, FilePath)>, PathsFailure>(pairs),
        ),
        0 <= earlier < at < files@.len(),
        nothing is None,
        call_ensures(output_path, (&files@[at], out_dir, nothing, suffix, windows), mapped),
        call_ensures(
            paths_equivalent,
            (
                &plan.outputs@[earlier],
                &plan.outputs@[at],
                &resolved@[earlier],
                &resolved@[at],
            ),
            same,
        ),
    ensures
        pairs@.len() == files@.len(),
        pairs@[at].0@ == files@[at]@,
        mapped matches Ok(output) && pairs@[at].1@ == output@,
        !same,
{
    let inputs = paths_of(files@);
    lemma_all_accessible(inputs, statuses@);
    assert(paths_of(plan.inputs@) == inputs);
    assert(paths_of(plan.inputs@).len() == plan.inputs@.len() && inputs.len() == files@.len());
    let outputs = paths_of(plan.outputs@);
    let places = resolutions(resolved@);
    assert(outputs.len() == plan.outputs@.len());
    assert(plan.error is None);
    assert(outputs.len() == inputs.len());
    assert(outputs[at] == plan.outputs@[at]@ && outputs[earlier] == plan.outputs@[earlier]@);
    assert(inputs[at] == files@[at]@ && paths_of(plan.inputs@)[at] == plan.inputs@[at]@);
    lemma_no_collision(plan, resolved, pairs, at);
    assert(places[at] == path_of(resolved@[at]) && places[earlier] == path_of(resolved@[earlier]));
}

/// In a run that goes through no output collides with an earlier one.
proof fn lemma_no_collision(
    plan: &OutputPlan,
    resolved: &Vec<Option<FilePath>>,
    pairs: Vec<(FilePath, FilePath)>,
    at: int,
)
    requires
        call_ensures(
            get_paths,
            (plan, resolved),
            Ok::<Vec<(FilePath, FilePath)>, PathsFailure>(pairs),
        ),
        0 <= at < plan.outputs@.len(),
    ensures
        !collides(paths_of(plan.outputs@), resolutions(resolved@), at),
{
    let outputs = paths_of(plan.outputs@);
    let places = resolutions(resolved@);
    assert(outputs.len() == plan.outputs@.len());
    let given = (plan, resolved);
    assert(resolutions(given.1@) == places);
    assert(paths_of(given.0.outputs@) == outputs);
    assert(!collides(paths_of(given.0.outputs@), resolutions(given.1@), at));
}

/// Where all inputs are files, all are taken.
proof fn lemma_all_accessible(files: Seq<Seq<ComponentView>>, statuses: Seq<FileStatus>)
    requires
        files.len() == statuses.len(),
        forall|i: int| 0 <= i < statuses.len() ==> (#[trigger] statuses[i]) is File,
    ensures
        crate::cli::paths::accessible(files, statuses) == files,
    decreases files.len(),
{
    if files.len() > 0 {
        let fewer = statuses.drop_last();
        assert forall|i: int| 0 <= i < fewer.len() implies (#[trigger] fewer[i]) is File by {
            assert(fewer[i] == statuses[i]);
        }
        lemma_all_accessible(files.drop_last(), fewer);
        assert(statuses[statuses.len() - 1] == statuses.last());
        assert(files.drop_last().push(files.last()) =~= files);
    } else {
        assert(crate::cli::paths::accessible(files, statuses) =~= files);
    }
}

// --- Decoders ------------------------------------------------------------------------
/// Only what the main decoder does not know is handed to another one, and then
/// wherever there is one for it; every other failure stands as it is.
pub proof fn law_decode_with_fallback_retries_what_is_unknown(
    path: &str,
    error: ImageFailure,
    content_is_avif: bool,
    windows: bool,
    retry: Retry,
)
    requires
        call_ensures(decode_with_fallback, (path, error, content_is_avif, windows), retry),
    ensures
        !(error.kind is DecoderNotImplemented) ==> retry == Retry::Fail(error),
        error.kind is DecoderNotImplemented ==> match fallback_of(path@, content_is_avif, windows) {
            Some(fallback) => retry == Retry::With(fallback),
            None => retry matches Retry::Fail(failure) && failure.kind is DecoderNotImplemented,
        },
        error.kind is DecoderNotImplemented && content_is_avif ==> (retry matches Retry::With(
            fallback,
        ) && (fallback is Avif || fallback is Svg)),
{
}

// --- Metadata ------------------------------------------------------------------------
/// EXIF that is put into a JPEG file is read back from it, whatever else the file
/// holds; the density stays.
pub proof fn law_inserted_exif_is_read_back(
    data: &[u8],
    payload: &[u8],
    changed: &[u8],
    written: Result<Vec<u8>, InsertError>,
    before: Result<Option<JpegSourceMetadata>, MetadataError>,
    after: Result<Option<JpegSourceMetadata>, MetadataError>,
)
    requires
        call_ensures(insert_jpeg_exif_app1, (data, payload), written),
        written is Ok,
        changed@ == written->Ok_0@,
        payload@.len() >= 6,
        payload@.take(6) == seq![0x45u8, 0x78u8, 0x69u8, 0x66u8, 0x00u8, 0x00u8],
        call_ensures(read_jpeg_source_metadata, (data,), before),
        call_ensures(read_jpeg_source_metadata, (changed,), after),
        before is Ok,
    ensures
        before matches Ok(Some(old)) && after matches Ok(Some(new)) && new.jfif_density
            == old.jfif_density && (new.exif_app1 matches Some(exif) && exif@ == payload@),
{
    let head = payload@.take(6);
    assert(head[0] == payload@[0] && head[1] == payload@[1] && head[2] == payload@[2]);
    assert(head[3] == payload@[3] && head[4] == payload@[4] && head[5] == payload@[5]);
    law_an_inserted_exif_segment_reads_back(data@, payload@);
}

/// Words that are stored as bytes are read back from them, in either order.
pub proof fn law_stored_words_are_read_back(
    words: &Vec<u16>,
    low_first: bool,
    bytes: Vec<u8>,
    again: Vec<u16>,
)
    requires
        call_ensures(to_bytes, (words, low_first), bytes),
        call_ensures(from_bytes, (&bytes, low_first), again),
    ensures
        again@ == words@,
{
    let (a, b) = (words@, again@);
    assert(a.len() == b.len());
    assert forall|i: int| 0 <= i < a.len() implies a[i] == b[i] by {
        crate::codecs::pictures::law_words_are_stored_in_either_order(a, i);
        crate::codecs::pictures::law_words_are_stored_in_either_order(b, i);
    }
    assert(a =~= b);
}

/// What a WebP encoder is given: the bytes of the first picture as they are, its
/// size, whether it has alpha, and the options unchanged.
pub proof fn law_a_webp_encoder_gets_picture_and_options(
    encoder: &WebPEncoder,
    image: &Raster,
    result: Result<Vec<u8>, ImageFailure>,
    pixels: Seq<u8>,
)
    requires
        call_ensures(WebPEncoder::encode, (encoder, image), result),
        encoder.options is Some,
        image.colorspace is RGB || image.colorspace is RGBA,
        image@.frames.len() > 0,
        image@.frames[0].samples == SamplesView::Eight(pixels),
    ensures
        exists|outcome: Option<Result<Seq<u8>, Seq<char>>>|
            {
                &&& #[trigger] webp_written(
                    pixels,
                    image.colorspace is RGBA,
                    image.width as u32,
                    image.height as u32,
                    encoder.options->0.quality,
                    encoder.options->0.lossless,
                    encoder.options->0.near_lossless,
                    encoder.options->0.exact,
                    outcome,
                )
                &&& outcome matches Some(Ok(file)) ==> (result matches Ok(written) && written@
                    == file)
                &&& outcome matches Some(Err(_)) ==> result is Err
                &&& outcome is None ==> result is Err
            },
{
}

/// What the PNG optimiser is given: the bytes of the first picture as they are, its
/// size, its channels, its profile, and the options unchanged.
pub proof fn law_a_png_encoder_gets_picture_and_options(
    encoder: &OxiPngEncoder,
    image: &Raster,
    result: Result<Vec<u8>, ImageFailure>,
    pixels: Seq<u8>,
    channels: nat,
)
    requires
        image.colorspace is RGB ==> channels == 3,
        image.colorspace is RGBA ==> channels == 4,
        call_ensures(OxiPngEncoder::encode, (encoder, image), result),
        image.colorspace is RGB || image.colorspace is RGBA,
        image.depth is Eight,
        image.width <= 0xffff_ffff,
        image.height <= 0xffff_ffff,
        image@.frames.len() > 0,
        image@.frames[0].samples == SamplesView::Eight(pixels),
    ensures
        exists|outcome: Result<Seq<u8>, Seq<char>>|
            {
                &&& #[trigger] png_written(
                    pixels,
                    image.width as u32,
                    image.height as u32,
                    channels,
                    1,
                    image@.icc,
                    encoder.options.preset,
                    encoder.options.interlace,
                    outcome,
                )
                &&& outcome matches Ok(file) ==> (result matches Ok(written) && written@ == file)
                &&& outcome is Err ==> result is Err
            },
{
}

// --- Reports -------------------------------------------------------------------------
/// A line of the log names the file, the message and the slug, in that order, and
/// the hint has a line of its own where there is one.
pub proof fn law_a_log_line_names_file_message_and_slug(
    error: &RimageError,
    path: &str,
    message: String,
    slug: &'static str,
    hint: Option<String>,
    line: String,
    advice: Option<String>,
    direction: Direction,
)
    requires
        call_ensures(RimageError::path, (error,), path),
        call_ensures(RimageError::message, (error,), message),
        call_ensures(RimageError::kind, (error,), slug),
        call_ensures(RimageError::hint, (error,), hint),
        call_ensures(RimageError::log_line, (error,), line),
        call_ensures(RimageError::hint_line, (error,), advice),
        call_ensures(RimageError::direction, (error,), direction),
    ensures
        line@ == path@ + ": "@ + message@ + " ["@ + slug@ + "]"@,
        hint is Some <==> advice is Some,
        hint is Some ==> advice->0@ == "  hint: "@ + hint->0@,
        direction is Input <==> error is Input,
{
    assert(text_of(advice) is Some <==> advice is Some);
}

/// A run over one file ends with the code of that file, and the first failure in a
/// run that has written something makes it a partial success.
pub proof fn law_a_run_ends_with_the_code_of_its_files(
    start: RunState,
    one: ExitCode,
    other: ExitCode,
    first: RunState,
    second: RunState,
    code: ExitCode,
    last: ExitCode,
)
    requires
        call_ensures(RunState::start, (), start),
        call_ensures(RunState::record, (start, one), first),
        call_ensures(RunState::record, (first, other), second),
        call_ensures(RunState::exit_code, (first,), code),
        call_ensures(RunState::exit_code, (second,), last),
        one is Success || one is Input || one is Output,
        other is Success || other is Input || other is Output,
    ensures
        code == one,
        one == other ==> last == one,
        one != other ==> last is Partial,
{
}

/// A value that is written down reads back as itself, wherever it can be written
/// down at all: with lengths above zero, and with the number that its text stands
/// for.
pub proof fn law_a_written_value_reads_back(
    value: &ResizeValue,
    number: &str,
    text: String,
    typed: &str,
    reading: Option<Single>,
    result: Result<ResizeValue, ResizeError>,
)
    requires
        call_ensures(ResizeValue::display, (value, number), text),
        call_ensures(ResizeValue::from_str, (typed, reading), result),
        typed@ == text@,
        is_writable(*value),
        value is Multiplier || value is Percentage ==> is_plain(number@),
        *value matches ResizeValue::Multiplier(single) ==> reading == Some(single),
        *value matches ResizeValue::Percentage(single) ==> reading == Some(single),
    ensures
        result == Ok::<ResizeValue, ResizeError>(*value),
{
    law_display_round_trips_through_from_str(*value, number@, reading);
}

/// The entries of a list are its lines without the white space around them; a list
/// that is no text is refused by name.
pub proof fn law_a_list_of_one_line_has_one_entry(
    list: &str,
    content: &Vec<u8>,
    line: Seq<char>,
    result: Result<Vec<String>, String>,
)
    requires
        call_ensures(read_file_list_entries, (list, content), result),
        content@ == encode_utf8(line),
        !line.contains('\n'),
        crate::text::trimmed(line).len() > 0,
    ensures
        result matches Ok(entries) && entries@.len() == 1 && entries@[0]@ == crate::text::trimmed(
            line,
        ),
{
    vstd::utf8::encode_utf8_valid_utf8(line);
    vstd::utf8::encode_utf8_decode_utf8(line);
    crate::cli::outputs::law_a_list_is_read_line_by_line(line, Seq::empty());
    if let Ok(entries) = result {
        let texts = texts_of(entries@);
        assert(texts.len() == entries@.len());
        assert(texts[0] == entries@[0]@);
    }
}

/// The limits of an output are those of an input of the same kind, but for the
/// bytes, which are as many as the volume lends where those are fewer.
pub proof fn law_output_limits_are_input_limits_on_a_volume(
    format: ImageFormatId,
    depth: BitDepth,
    colorspace: ColorSpace,
    budget: &SystemBudget,
    cost: PipelineCost,
    free: Option<u64>,
    input: LimitSet,
    output: LimitSet,
)
    requires
        call_ensures(LimitSet::for_input, (format, depth, colorspace, budget, cost), input),
        call_ensures(LimitSet::for_output, (format, depth, colorspace, budget, cost, free), output),
    ensures
        output.max_width == input.max_width,
        output.max_height == input.max_height,
        output.max_pixels == input.max_pixels,
        output.binding == input.binding,
        free is None ==> output == input,
        free matches Some(free) ==> {
            &&& output.max_bytes <= input.max_bytes
            &&& free <= 100 * 1024 * 1024 ==> output.max_bytes == 0
            &&& output.max_bytes < input.max_bytes ==> 2 * output.max_bytes <= free
                && output.bytes_binding is Disk
        },
{
}

/// A WebP encoder is built wherever its configuration can be initialised, with the
/// quality that is given, or 75.
pub proof fn law_encoder_with_builds_webp_where_it_is_ready(
    name: &str,
    args: &EncoderArgs,
    ready: Result<AvailableEncoders, ImageFailure>,
    unready: Result<AvailableEncoders, ImageFailure>,
)
    requires
        name@ == "webp"@,
        call_ensures(encoder_with, (name, args, true), ready),
        call_ensures(encoder_with, (name, args, false), unready),
    ensures
        unready is Err,
        ready matches Ok(AvailableEncoders::Webp(options)) && {
            &&& args.quality matches Some(quality) ==> options.quality == quality
            &&& args.quality is None ==> options.quality == 75
            &&& options.lossless == args.lossless
            &&& options.exact == args.exact
        },
{
    law_every_webp_option_is_its_own_argument(*args);
}

} // verus!
