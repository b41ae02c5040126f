//! What the reports and the decoders of the library answer, said of the calls that
//! make them.

use vstd::prelude::*;
use crate::cli::outputs::law_every_list_is_picked;
use crate::cli::paths::{
    expand_file_lists, failure_message, is_list, paths_of, FilePath, PathsError,
};
use crate::codecs::oxipng::OxiPngEncoder;
use crate::codecs::pictures::law_every_pixel_gets_straight_alpha;
use crate::codecs::svg::{
    check_document, demultiplied, document_failure, parse_size_limit, resolve_target_size,
    size_limit_error, SvgDecoder, SvgOptions,
};
use crate::codecs::webp::{webp_features, webp_still, WebPDecoder, WebPEncoder, WebPPicture};
use crate::color::{BitDepth, ColorSpace};
use crate::error::{
    clone_input, clone_output, input_config_error, input_open_error, input_size_limit,
    law_a_copy_prints_the_same, output_encode_error, output_io_error, output_size_limit,
    ImageFailure, InputError, IoFailure, OutputError, RimageError,
};
use crate::limits::{
    free_space_at, holds, law_one_volume_holds_a_path, lies_on, ImageFormatId, LimitSet,
    LimitViolation, Volume,
};
use crate::raster::{Raster, SamplesView};
use crate::reports::{lemma_mentions, lemma_mentions_at_end, mentions};

verus! {

// --- Paths ---------------------------------------------------------------------------
/// The message of a failed mapping names what it is about: the suffix or the name
/// in quotes, the path as it is shown, and the shared directory where one is
/// missed.
pub proof fn law_a_failed_mapping_names_its_subject(
    error: PathsError,
    subject: &str,
    common: &str,
    message: String,
)
    requires
        call_ensures(failure_message, (error, subject, common), message),
    ensures
        error is InvalidSuffix || error is NameInvalid || error is NameReserved ==> mentions(
            message@,
            crate::text::quoted(subject@),
        ),
        error is NoParent || error is OutsideCommonRoot || error is SameOutput ==> mentions(
            message@,
            subject@,
        ),
        error is OutsideCommonRoot ==> mentions(message@, common@),
{
    let quoted = crate::text::quoted(subject@);
    match error {
        PathsError::InvalidSuffix => {
            lemma_mentions("Invalid suffix "@, quoted, ": it must be a plain file-name fragment"@);
        },
        PathsError::NameInvalid => {
            lemma_mentions("Output file name "@, quoted, " is not valid on Windows"@);
        },
        PathsError::NameReserved => {
            lemma_mentions("Output file name "@, quoted, " is reserved on Windows"@);
        },
        PathsError::NoParent => {
            lemma_mentions("Input path "@, subject@, " does not have a parent directory"@);
        },
        PathsError::OutsideCommonRoot => {
            let head = "Cannot preserve directory structure for "@;
            lemma_mentions(head, subject@, " under "@ + common@);
            assert(message@ =~= head + subject@ + (" under "@ + common@));
            lemma_mentions_at_end(head + subject@ + " under "@, common@);
        },
        PathsError::SameOutput => {
            lemma_mentions_at_end("Multiple inputs map to the same output path: "@, subject@);
        },
        _ => {},
    }
}

/// Where one of the inputs is a list, the lists are read and nothing else; without
/// one, every input is taken as it is.
pub proof fn law_lists_take_the_place_of_all_inputs(
    inputs: &Vec<FilePath>,
    chosen: (bool, Vec<FilePath>),
    at: int,
)
    requires
        call_ensures(expand_file_lists, (inputs,), chosen),
        0 <= at < inputs@.len(),
    ensures
        is_list(inputs@[at]@) ==> chosen.0 && paths_of(chosen.1@).contains(inputs@[at]@),
        chosen.0 && !is_list(inputs@[at]@) ==> !paths_of(chosen.1@).contains(inputs@[at]@),
        !chosen.0 ==> paths_of(chosen.1@) == paths_of(inputs@),
{
    let all = paths_of(inputs@);
    assert(all[at] == inputs@[at]@);
    assert(all.contains(inputs@[at]@));
    law_every_list_is_picked(all, inputs@[at]@);
}

/// The free space at a path is that of the volume with the longest mount point that
/// the path lies on, and not known where it lies on none.
pub proof fn law_free_space_is_that_of_the_deepest_volume(
    path: &FilePath,
    volumes: &Vec<Volume>,
    free: Option<u64>,
    index: int,
)
    requires
        call_ensures(free_space_at, (path, volumes), free),
        0 <= index < volumes@.len(),
        lies_on(path@, volumes@[index]),
        forall|other: int|
            0 <= other < volumes@.len() && other != index && lies_on(
                path@,
                #[trigger] volumes@[other],
            ) ==> volumes@[other].mount_length < volumes@[index].mount_length,
    ensures
        free == Some(volumes@[index].available),
{
    assert(holds(path@, volumes@, index));
    let given = (path, volumes);
    assert(lies_on(given.0@, given.1@[index]));
    if let Some(space) = free {
        let found = choose|found: int|
            #[trigger] holds(given.0@, given.1@, found) && given.1@[found].available == space;
        law_one_volume_holds_a_path(path@, volumes@, found, index);
    }
}

// --- SVG -----------------------------------------------------------------------------
/// A document is read up to 256 MiB.
pub proof fn law_a_document_is_read_up_to_its_limit(
    length: u64,
    result: Result<(), ImageFailure>,
    parsing: bool,
    message: &str,
    failure: ImageFailure,
)
    requires
        call_ensures(check_document, (length,), result),
        call_ensures(document_failure, (parsing, message), failure),
    ensures
        result is Ok <==> length <= 256 * 1024 * 1024,
        result matches Err(refusal) ==> refusal.kind is Decode,
        failure.kind is Decode,
        mentions(failure.text@, message@),
{
    lemma_mentions_at_end("Unable to parse SVG - "@, message@);
    lemma_mentions_at_end("Unable to read SVG data - "@, message@);
}

/// A rendered picture becomes an image of the size of the target, with alpha, whose
/// every pixel is the rendered one without its alpha.
pub proof fn law_a_rendered_picture_becomes_an_image(
    decoder: &SvgDecoder,
    pixels: &Vec<u8>,
    result: Result<Raster, ImageFailure>,
    unrendered: Result<Raster, ImageFailure>,
    pixel: int,
)
    requires
        call_ensures(SvgDecoder::decode, (decoder, Some(pixels)), result),
        call_ensures(SvgDecoder::decode, (decoder, None), unrendered),
        pixels@.len() == decoder.target.0 * decoder.target.1 * 4,
        0 <= pixel < decoder.target.0 * decoder.target.1,
    ensures
        unrendered is Err,
        result matches Ok(image) && {
            &&& image@.width == decoder.target.0
            &&& image@.height == decoder.target.1
            &&& image@.colorspace is RGBA
            &&& image@.frames.len() == 1
            &&& image@.frames[0].samples matches SamplesView::Eight(samples) && demultiplied(
                pixels@[4 * pixel],
                pixels@[4 * pixel + 1],
                pixels@[4 * pixel + 2],
                pixels@[4 * pixel + 3],
            ) == (
                samples[4 * pixel],
                samples[4 * pixel + 1],
                samples[4 * pixel + 2],
                samples[4 * pixel + 3],
            )
        },
{
    let count = decoder.target.0 * decoder.target.1;
    law_every_pixel_gets_straight_alpha(pixels@, count, pixel);
}

/// A target that is asked for is the one that is rendered, and one that exceeds the
/// budget is refused with its numbers, which read back from the message.
pub proof fn law_a_target_is_met_or_refused_with_its_numbers(
    options: &SvgOptions,
    intrinsic: (u32, u32),
    width: u32,
    height: u32,
    budget: u64,
    result: Result<(usize, usize), ImageFailure>,
    message: &str,
    numbers: Option<(u64, u64, u64, u64)>,
)
    requires
        call_ensures(resolve_target_size, (options, intrinsic), result),
        options.target_size == Some((width, height)),
        options.pixel_budget == Some(budget),
        width > 0,
        height > 0,
        result matches Err(failure) ==> message@ == failure.text@,
        call_ensures(parse_size_limit, (message,), numbers),
    ensures
        width * height <= budget ==> (result matches Ok(size) && size.0 == width && size.1
            == height),
        width * height > budget ==> result is Err && numbers == Some(
            (width as u64, height as u64, (width * height) as u64, budget),
        ),
{
    if width * height > budget {
        assert(0 <= width * height <= 0xffff_ffff * 0xffff_ffff) by (nonlinear_arith)
            requires
                0 <= width <= 0xffff_ffff,
                0 <= height <= 0xffff_ffff,
        ;
        crate::codecs::svg::law_a_size_limit_reads_back(
            width as u64,
            height as u64,
            (width * height) as u64,
            budget,
        );
    }
}

/// A refusal of a render target reads back as the numbers that went into it.
pub proof fn law_a_refusal_carries_its_numbers(
    width: usize,
    height: usize,
    area: u64,
    budget: u64,
    error: ImageFailure,
    message: &str,
    numbers: Option<(u64, u64, u64, u64)>,
)
    requires
        call_ensures(size_limit_error, (width, height, area, budget), error),
        message@ == error.text@,
        call_ensures(parse_size_limit, (message,), numbers),
        usize::MAX <= u64::MAX,
    ensures
        error.kind is Decode,
        numbers == Some((width as u64, height as u64, area, budget)),
{
    crate::codecs::svg::law_a_size_limit_reads_back(width as u64, height as u64, area, budget);
}

// --- WebP and PNG --------------------------------------------------------------------
/// A WebP file of up to 256 MiB is decoded as the picture that it holds, at the size
/// that its header declares; a longer one is refused.
pub proof fn law_a_webp_file_is_decoded_at_its_size(
    data: &[u8],
    result: Result<Option<WebPDecoder>, ImageFailure>,
    decoder: &WebPDecoder,
    size: Option<(usize, usize)>,
    colorspace: ColorSpace,
)
    requires
        call_ensures(WebPDecoder::try_new, (data,), result),
        result matches Ok(Some(made)) ==> *decoder == made,
        call_ensures(WebPDecoder::dimensions, (decoder,), size),
        call_ensures(WebPDecoder::out_colorspace, (decoder,), colorspace),
    ensures
        result is Err <==> data@.len() > 256 * 1024 * 1024,
        result matches Ok(Some(_)) ==> webp_still(data@) is Some && webp_features(data@) is Some,
        result matches Ok(Some(_)) ==> ({
            let (pixels, width, height, alpha) = webp_still(data@)->0;
            &&& size == Some((width as usize, height as usize))
            &&& webp_features(data@) == Some((width, height))
            &&& colorspace == if alpha {
                ColorSpace::RGBA
            } else {
                ColorSpace::RGB
            }
        }),
{
}

/// An animation is shown by its first picture, and what stops it is reported.
pub proof fn law_an_animation_is_shown_by_its_first_picture(
    picture: WebPPicture,
    message: String,
    result: Result<WebPDecoder, ImageFailure>,
    failed: Result<WebPDecoder, ImageFailure>,
)
    requires
        call_ensures(
            WebPDecoder::from_animation,
            (Ok::<Option<WebPPicture>, String>(Some(picture)),),
            result,
        ),
        call_ensures(
            WebPDecoder::from_animation,
            (Err::<Option<WebPPicture>, String>(message),),
            failed,
        ),
    ensures
        result matches Ok(decoder) && decoder.picture() == Some(picture),
        failed matches Err(failure) && failure.kind is Decode && failure.text@ == message@,
{
}

/// The depth that an image is brought to for an encoder is one that it takes. A PNG
/// keeps the range of sixteen bits, and brings floating point to it.
pub proof fn law_an_image_is_brought_to_a_depth_that_is_taken(
    png: &OxiPngEncoder,
    webp: &WebPEncoder,
    depth: BitDepth,
    brought: BitDepth,
    taken: Vec<BitDepth>,
    narrow: BitDepth,
    narrow_taken: Vec<BitDepth>,
)
    requires
        call_ensures(OxiPngEncoder::default_depth, (png, depth), brought),
        call_ensures(OxiPngEncoder::supported_bit_depth, (png,), taken),
        call_ensures(WebPEncoder::default_depth, (webp, depth), narrow),
        call_ensures(WebPEncoder::supported_bit_depth, (webp,), narrow_taken),
    ensures
        taken@.contains(brought),
        taken@.contains(depth) ==> brought == depth,
        depth is Float32 ==> brought is Sixteen,
        narrow_taken@.contains(narrow),
        narrow is Eight,
{
    assert(taken@[0] is Eight && taken@[1] is Sixteen);
    assert(narrow_taken@[0] is Eight);
}

// --- Reports -------------------------------------------------------------------------
/// Each way to report a failure gives one of its own kind, on the file that it is
/// about.
pub proof fn law_every_report_is_of_its_kind(
    path: &str,
    name: &str,
    io: &IoFailure,
    cause: &ImageFailure,
    format: ImageFormatId,
    dimensions: Option<(u64, u64)>,
    violation: LimitViolation,
    open: RimageError,
    configuration: RimageError,
    limit: RimageError,
    ceiling: RimageError,
    encode: RimageError,
    write: RimageError,
)
    requires
        call_ensures(input_open_error, (path, io), open),
        call_ensures(input_config_error, (path, name, cause), configuration),
        call_ensures(input_size_limit, (path, format, dimensions, violation), limit),
        call_ensures(output_size_limit, (path, format, violation), ceiling),
        call_ensures(output_encode_error, (path, name, cause), encode),
        call_ensures(output_io_error, (path, io), write),
    ensures
        open@.slug() == "input.open"@ && open@.file() == path@,
        configuration@.slug() == "input.configuration"@ && configuration@.file() == path@,
        limit@.slug() == "input.size-limit"@ && limit@.file() == path@,
        ceiling@.slug() == "output.size-limit"@ && ceiling@.file() == path@,
        encode@.slug() == "output.encode"@ && encode@.file() == path@,
        write@.slug() == "output.io"@ && write@.file() == path@,
        open@.report() == Some(io.text@),
        write@.report() == Some(io.text@),
{
}

/// A copy of a failure has the message of the failure.
pub proof fn law_a_copied_failure_says_the_same(
    input: &InputError,
    output: &OutputError,
    input_copy: &InputError,
    output_copy: &OutputError,
    message: String,
    again: String,
    other: String,
    other_again: String,
)
    requires
        call_ensures(clone_input, (input,), *input_copy),
        call_ensures(clone_output, (output,), *output_copy),
        call_ensures(InputError::message, (input,), message),
        call_ensures(InputError::message, (input_copy,), again),
        call_ensures(OutputError::message, (output,), other),
        call_ensures(OutputError::message, (output_copy,), other_again),
    ensures
        again@ == message@,
        other_again@ == other@,
{
    law_a_copy_prints_the_same(input@, output@);
}

/// The side that is suggested for a square fits, and the next one does not, unless
/// not even one pixel does.
pub proof fn law_the_suggested_square_is_the_largest(
    limits: &LimitSet,
    side: u64,
    fits: Result<(), LimitViolation>,
    next: u64,
    larger: Result<(), LimitViolation>,
)
    requires
        call_ensures(LimitSet::suggested_side, (limits,), side),
        call_ensures(LimitSet::check, (limits, side, side), fits),
        call_ensures(LimitSet::check, (limits, next, next), larger),
        next > side,
        limits.max_pixels < u64::MAX,
        limits.max_pixels > 0,
        limits.max_width > 0,
        limits.max_height > 0,
    ensures
        fits is Ok,
        larger is Err,
{
    assert(1 * 1 == 1) by (nonlinear_arith);
    assert(limits.admits_square(1));
    if larger is Ok {
        crate::limits::law_an_image_is_accepted_within_every_ceiling(*limits, next, next);
        assert(limits.admits_square(next));
    }
    if limits.admits_square(side) {
        crate::limits::law_a_suggested_square_fits(*limits, side);
    }
}

} // verus!
