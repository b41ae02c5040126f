//! What each argument of a command line comes to in the encoder that is built
//! from it.

use vstd::prelude::*;
use crate::cli::jpeg::JfifDensity;
use crate::cli::pipeline::{
    avif_plan, encoder_plan, fallback_of, mozjpeg_plan, plan_view, reported, tables_named,
    with_density, AvailableEncoders, EncoderArgs, Fallback, QuantTable,
};
use crate::error::{ImageFailure, KindView};
use crate::path::path_extension;
use crate::text::ascii_lowered;

verus! {

/// The names of the encoders are told apart.
pub proof fn lemma_encoder_names()
    ensures
        "farbfeld"@.len() == 8,
        "jpeg_xl"@.len() == 7 && "mozjpeg"@.len() == 7 && "jpeg_xl"@[0] == 'j' && "mozjpeg"@[0]
            == 'm',
        "oxipng"@.len() == 6,
        "jpeg"@.len() == 4 && "avif"@.len() == 4 && "webp"@.len() == 4,
        "jpeg"@[0] == 'j' && "avif"@[0] == 'a' && "webp"@[0] == 'w',
        "png"@.len() == 3 && "ppm"@.len() == 3 && "qoi"@.len() == 3,
        "png"@[1] == 'n' && "ppm"@[1] == 'p' && "qoi"@[1] == 'o',
{
    reveal_strlit("farbfeld");
    reveal_strlit("jpeg");
    reveal_strlit("jpeg_xl");
    reveal_strlit("mozjpeg");
    reveal_strlit("oxipng");
    reveal_strlit("avif");
    reveal_strlit("webp");
    reveal_strlit("png");
    reveal_strlit("ppm");
    reveal_strlit("qoi");
}

/// The names of the colours and of the alpha modes are told apart.
proof fn lemma_color_names()
    ensures
        "ycbcr"@.len() == 5,
        "rgb"@.len() == 3,
        "grayscale"@.len() == 9,
        "UnassociatedDirty"@.len() == 17 && "UnassociatedClean"@.len() == 17,
        "UnassociatedDirty"@[12] == 'D' && "UnassociatedClean"@[12] == 'C',
        "Premultiplied"@.len() == 13,
{
    reveal_strlit("ycbcr");
    reveal_strlit("rgb");
    reveal_strlit("grayscale");
    reveal_strlit("UnassociatedDirty");
    reveal_strlit("UnassociatedClean");
    reveal_strlit("Premultiplied");
}

/// The names of the quantization tables are told apart.
proof fn lemma_table_names()
    ensures
        "AhumadaWatsonPeterson"@.len() == 21 && "AhumadaWatsonPeterson"@[0] == 'A',
        "AnnexK"@.len() == 6 && "AnnexK"@[0] == 'A',
        "Flat"@.len() == 4,
        "KleinSilversteinCarney"@.len() == 22,
        "MSSSIM"@.len() == 6 && "MSSSIM"@[0] == 'M',
        "NRobidoux"@.len() == 9,
        "PSNRHVS"@.len() == 7,
        "PetersonAhumadaWatson"@.len() == 21 && "PetersonAhumadaWatson"@[0] == 'P',
        "WatsonTaylorBorthwick"@.len() == 21 && "WatsonTaylorBorthwick"@[0] == 'W',
{
    reveal_strlit("AhumadaWatsonPeterson");
    reveal_strlit("AnnexK");
    reveal_strlit("Flat");
    reveal_strlit("KleinSilversteinCarney");
    reveal_strlit("MSSSIM");
    reveal_strlit("NRobidoux");
    reveal_strlit("PSNRHVS");
    reveal_strlit("PetersonAhumadaWatson");
    reveal_strlit("WatsonTaylorBorthwick");
}

/// Nine names of quantization tables are known. Three have a table for luma and
/// another for chroma, the others one table for both.
pub proof fn law_a_table_name_stands_for_its_tables(name: Seq<char>)
    ensures
        name == "AhumadaWatsonPeterson"@ ==> tables_named(name) == Some(
            (QuantTable::AhumadaWatsonPeterson, QuantTable::AhumadaWatsonPeterson),
        ),
        name == "AnnexK"@ ==> tables_named(name) == Some(
            (QuantTable::AnnexKLuma, QuantTable::AnnexKChroma),
        ),
        name == "Flat"@ ==> tables_named(name) == Some((QuantTable::Flat, QuantTable::Flat)),
        name == "KleinSilversteinCarney"@ ==> tables_named(name) == Some(
            (QuantTable::KleinSilversteinCarney, QuantTable::KleinSilversteinCarney),
        ),
        name == "MSSSIM"@ ==> tables_named(name) == Some(
            (QuantTable::MSSSIMLuma, QuantTable::MSSSIMChroma),
        ),
        name == "NRobidoux"@ ==> tables_named(name) == Some(
            (QuantTable::NRobidoux, QuantTable::NRobidoux),
        ),
        name == "PSNRHVS"@ ==> tables_named(name) == Some(
            (QuantTable::PSNRHVSLuma, QuantTable::PSNRHVSChroma),
        ),
        name == "PetersonAhumadaWatson"@ ==> tables_named(name) == Some(
            (QuantTable::PetersonAhumadaWatson, QuantTable::PetersonAhumadaWatson),
        ),
        name == "WatsonTaylorBorthwick"@ ==> tables_named(name) == Some(
            (QuantTable::WatsonTaylorBorthwick, QuantTable::WatsonTaylorBorthwick),
        ),
        tables_named(name) is Some ==> seq![
            "AhumadaWatsonPeterson"@,
            "AnnexK"@,
            "Flat"@,
            "KleinSilversteinCarney"@,
            "MSSSIM"@,
            "NRobidoux"@,
            "PSNRHVS"@,
            "PetersonAhumadaWatson"@,
            "WatsonTaylorBorthwick"@,
        ].contains(name),
{
    lemma_table_names();
    let names = seq![
        "AhumadaWatsonPeterson"@,
        "AnnexK"@,
        "Flat"@,
        "KleinSilversteinCarney"@,
        "MSSSIM"@,
        "NRobidoux"@,
        "PSNRHVS"@,
        "PetersonAhumadaWatson"@,
        "WatsonTaylorBorthwick"@,
    ];
    assert(names[0] == "AhumadaWatsonPeterson"@ && names[1] == "AnnexK"@ && names[2] == "Flat"@);
    assert(names[3] == "KleinSilversteinCarney"@ && names[4] == "MSSSIM"@ && names[5]
        == "NRobidoux"@);
    assert(names[6] == "PSNRHVS"@ && names[7] == "PetersonAhumadaWatson"@ && names[8]
        == "WatsonTaylorBorthwick"@);
}

/// Where a MozJPEG encoder is built, each of its options is what its own argument
/// says: a given `--quality` is the quality, and 75 is where none is given; the
/// scans are progressive and the coding optimised unless an argument turns that
/// off; the tables appear only with `--qtable`, the one for luma at the quality
/// and the one for chroma at `--chroma_quality`, or at the quality where that is
/// not given.
pub proof fn law_every_mozjpeg_option_is_its_own_argument(args: EncoderArgs, webp_ready: bool)
    ensures
        encoder_plan("mozjpeg"@, args, webp_ready) matches Ok(encoder) ==> (encoder
            matches AvailableEncoders::MozJpeg(options) && {
            &&& args.quality matches Some(quality) ==> options.quality == quality
            &&& args.quality is None ==> options.quality == 75
            &&& args.smoothing matches Some(smoothing) ==> options.smoothing == smoothing
            &&& args.smoothing is None ==> options.smoothing == 0
            &&& options.progressive == !args.baseline
            &&& options.optimize_coding == !args.no_optimize_coding
            &&& options.trellis_multipass == args.multipass
            &&& options.chroma_subsample == args.subsample
            &&& options.pixel_density is None
            &&& args.colorspace is None ==> options.color_space is YCbCr
            &&& (args.colorspace matches Some(name) && name@ == "ycbcr"@) ==> options.color_space is YCbCr
            &&& (args.colorspace matches Some(name) && name@ == "rgb"@) ==> options.color_space is RGB
            &&& (args.colorspace matches Some(name) && name@ == "grayscale"@) ==> options.color_space is Grayscale
            &&& options.luma_qtable is Some <==> args.qtable is Some
            &&& options.chroma_qtable is Some <==> args.qtable is Some
            &&& args.qtable matches Some(name) ==> {
                &&& tables_named(name@) == Some(
                    (options.luma_qtable->0.table, options.chroma_qtable->0.table),
                )
                &&& options.luma_qtable->0.quality == options.quality
                &&& args.chroma_quality matches Some(quality)
                    ==> options.chroma_qtable->0.quality == quality
                &&& args.chroma_quality is None ==> options.chroma_qtable->0.quality
                    == options.quality
            }
        }),
{
    lemma_encoder_names();
    lemma_color_names();
}

/// A MozJPEG encoder is built exactly where the colours and the table are known
/// ones or not named, and else the first of the two that is not known is reported
/// by its name.
pub proof fn law_mozjpeg_refuses_only_unknown_names(args: EncoderArgs, webp_ready: bool)
    ensures
        ({
            let built = encoder_plan("mozjpeg"@, args, webp_ready);
            let colors_known = args.colorspace matches Some(name) ==> name@ == "ycbcr"@ || name@
                == "rgb"@ || name@ == "grayscale"@;
            let table_known = args.qtable matches Some(name) ==> tables_named(name@) is Some;
            &&& built is Ok <==> colors_known && table_known
            &&& !colors_known ==> built == Err::<AvailableEncoders, Seq<char>>(
                "Unsupported mozjpeg colorspace: "@ + args.colorspace->0@,
            )
            &&& colors_known && !table_known ==> built == Err::<AvailableEncoders, Seq<char>>(
                "Unknown qtable: "@ + args.qtable->0@,
            )
        }),
{
    lemma_encoder_names();
    lemma_color_names();
}

/// The options of two command lines agree wherever the arguments for them do,
/// whatever the other arguments are.
pub proof fn law_mozjpeg_options_do_not_mix(a: EncoderArgs, b: EncoderArgs)
    requires
        mozjpeg_plan(a) is Ok,
        mozjpeg_plan(b) is Ok,
    ensures
        ({
            let x = mozjpeg_plan(a)->Ok_0;
            let y = mozjpeg_plan(b)->Ok_0;
            &&& a.quality == b.quality ==> x.quality == y.quality
            &&& a.baseline == b.baseline ==> x.progressive == y.progressive
            &&& a.no_optimize_coding == b.no_optimize_coding ==> x.optimize_coding
                == y.optimize_coding
            &&& a.smoothing == b.smoothing ==> x.smoothing == y.smoothing
            &&& a.colorspace == b.colorspace ==> x.color_space == y.color_space
            &&& a.multipass == b.multipass ==> x.trellis_multipass == y.trellis_multipass
            &&& a.subsample == b.subsample ==> x.chroma_subsample == y.chroma_subsample
            &&& a.qtable == b.qtable && a.quality == b.quality ==> x.luma_qtable == y.luma_qtable
            &&& a.qtable == b.qtable && a.quality == b.quality && a.chroma_quality
                == b.chroma_quality ==> x.chroma_qtable == y.chroma_qtable
            &&& x.pixel_density == y.pixel_density
        }),
{
}

/// Where an AVIF encoder is built, each of its options is what its own argument
/// says: the quality is 50 and the speed 6 where none is given, the quality of
/// alpha is left open, and the colours of transparent pixels are cleared unless
/// another mode is named.
pub proof fn law_every_avif_option_is_its_own_argument(args: EncoderArgs, webp_ready: bool)
    ensures
        encoder_plan("avif"@, args, webp_ready) matches Ok(encoder) ==> (encoder
            matches AvailableEncoders::Avif(options) && {
            &&& args.quality matches Some(quality) ==> options.quality == quality
            &&& args.quality is None ==> options.quality == 50
            &&& args.speed matches Some(speed) ==> options.speed == speed
            &&& args.speed is None ==> options.speed == 6
            &&& options.alpha_quality == args.alpha_quality
            &&& options.color_space is RGB <==> (args.colorspace matches Some(name) && name@
                == "rgb"@)
            &&& options.alpha_color_mode is UnassociatedDirty <==> (args.alpha_mode
                matches Some(name) && name@ == "UnassociatedDirty"@)
            &&& options.alpha_color_mode is Premultiplied <==> (args.alpha_mode
                matches Some(name) && name@ == "Premultiplied"@)
        }),
{
    lemma_encoder_names();
    lemma_color_names();
}

/// An AVIF encoder is built exactly where the colours and the alpha mode are
/// known ones or not named, and else the first of the two that is not known is
/// reported by its name.
pub proof fn law_avif_refuses_only_unknown_names(args: EncoderArgs, webp_ready: bool)
    ensures
        ({
            let built = encoder_plan("avif"@, args, webp_ready);
            let colors_known = args.colorspace matches Some(name) ==> name@ == "ycbcr"@ || name@
                == "rgb"@;
            let mode_known = args.alpha_mode matches Some(name) ==> name@ == "UnassociatedDirty"@
                || name@ == "UnassociatedClean"@ || name@ == "Premultiplied"@;
            &&& built is Ok <==> colors_known && mode_known
            &&& !colors_known ==> built == Err::<AvailableEncoders, Seq<char>>(
                "Unsupported avif colorspace: "@ + args.colorspace->0@,
            )
            &&& colors_known && !mode_known ==> built == Err::<AvailableEncoders, Seq<char>>(
                "Unsupported avif alpha mode: "@ + args.alpha_mode->0@,
            )
        }),
{
    lemma_encoder_names();
    lemma_color_names();
}

/// The options of two AVIF command lines agree wherever the arguments for them
/// do, whatever the other arguments are.
pub proof fn law_avif_options_do_not_mix(a: EncoderArgs, b: EncoderArgs)
    requires
        avif_plan(a) is Ok,
        avif_plan(b) is Ok,
    ensures
        ({
            let x = avif_plan(a)->Ok_0;
            let y = avif_plan(b)->Ok_0;
            &&& a.quality == b.quality ==> x.quality == y.quality
            &&& a.speed == b.speed ==> x.speed == y.speed
            &&& a.alpha_quality == b.alpha_quality ==> x.alpha_quality == y.alpha_quality
            &&& a.colorspace == b.colorspace ==> x.color_space == y.color_space
            &&& a.alpha_mode == b.alpha_mode ==> x.alpha_color_mode == y.alpha_color_mode
        }),
{
}

/// A WebP encoder is built where its configuration can be initialised, whatever
/// the arguments are. Its quality is 75 where none is given; a slight loss is
/// what near-lossless encoding lacks of 100, and without one nothing is lost.
pub proof fn law_every_webp_option_is_its_own_argument(args: EncoderArgs)
    ensures
        encoder_plan("webp"@, args, true) matches Ok(encoder) && (encoder
            matches AvailableEncoders::Webp(options) && {
            &&& args.quality matches Some(quality) ==> options.quality == quality
            &&& args.quality is None ==> options.quality == 75
            &&& options.lossless == args.lossless
            &&& options.exact == args.exact
            &&& args.slight_loss matches Some(loss) ==> options.near_lossless + loss == 100
            &&& args.slight_loss is None ==> options.near_lossless == 100
        }),
        encoder_plan("webp"@, args, false) == Err::<AvailableEncoders, Seq<char>>(
            "libwebp encoder configuration failed to initialize"@,
        ),
{
    lemma_encoder_names();
}

/// An optimising PNG encoder is built whatever the arguments are: its effort is 2
/// where none is given, and it interlaces only where that is asked for.
pub proof fn law_every_oxipng_option_is_its_own_argument(args: EncoderArgs, webp_ready: bool)
    ensures
        encoder_plan("oxipng"@, args, webp_ready) matches Ok(encoder) && (encoder
            matches AvailableEncoders::OxiPng(options) && {
            &&& args.effort matches Some(effort) ==> options.preset == effort
            &&& args.effort is None ==> options.preset == 2
            &&& args.interlace ==> options.interlace == Some(true)
            &&& !args.interlace ==> options.interlace is None
        }),
{
    lemma_encoder_names();
}

/// Every encoder is built by its own name, and the extension of its files is that
/// of the format it writes. Six of them take no arguments. Any other name is
/// reported as it was given.
pub proof fn law_an_encoder_is_built_by_its_name(
    name: Seq<char>,
    args: EncoderArgs,
    webp_ready: bool,
)
    ensures
        ({
            let built = encoder_plan(name, args, webp_ready);
            &&& name == "farbfeld"@ ==> built == Ok::<AvailableEncoders, Seq<char>>(
                AvailableEncoders::FarbFeld,
            )
            &&& name == "jpeg"@ ==> built == Ok::<AvailableEncoders, Seq<char>>(
                AvailableEncoders::Jpeg,
            )
            &&& name == "jpeg_xl"@ ==> built == Ok::<AvailableEncoders, Seq<char>>(
                AvailableEncoders::JpegXl,
            )
            &&& name == "png"@ ==> built == Ok::<AvailableEncoders, Seq<char>>(
                AvailableEncoders::Png,
            )
            &&& name == "ppm"@ ==> built == Ok::<AvailableEncoders, Seq<char>>(
                AvailableEncoders::Ppm,
            )
            &&& name == "qoi"@ ==> built == Ok::<AvailableEncoders, Seq<char>>(
                AvailableEncoders::Qoi,
            )
            &&& built matches Ok(encoder) ==> {
                &&& encoder is FarbFeld <==> name == "farbfeld"@
                &&& encoder is Jpeg <==> name == "jpeg"@
                &&& encoder is JpegXl <==> name == "jpeg_xl"@
                &&& encoder is MozJpeg <==> name == "mozjpeg"@
                &&& encoder is OxiPng <==> name == "oxipng"@
                &&& encoder is Avif <==> name == "avif"@
                &&& encoder is Webp <==> name == "webp"@
                &&& encoder is Png <==> name == "png"@
                &&& encoder is Ppm <==> name == "ppm"@
                &&& encoder is Qoi <==> name == "qoi"@
                &&& encoder is FarbFeld ==> encoder.extension() == "ff"@
                &&& encoder is Jpeg || encoder is MozJpeg ==> encoder.extension() == "jpg"@
                &&& encoder is JpegXl ==> encoder.extension() == "jxl"@
                &&& encoder is Png || encoder is OxiPng ==> encoder.extension() == "png"@
                &&& encoder is Avif || encoder is Webp || encoder is Ppm || encoder is Qoi
                    ==> encoder.extension() == name
            }
            &&& name != "farbfeld"@ && name != "jpeg"@ && name != "jpeg_xl"@ && name != "mozjpeg"@
                && name != "oxipng"@ && name != "avif"@ && name != "webp"@ && name != "png"@ && name
                != "ppm"@ && name != "qoi"@ ==> built == Err::<AvailableEncoders, Seq<char>>(
                "Encoder \""@ + name + "\" not found"@,
            )
        }),
{
    lemma_encoder_names();
}

/// A plan is reported as it is: what was built is handed on unchanged, and a
/// problem in its own words.
pub proof fn law_a_plan_is_reported_as_it_is(
    plan: Result<AvailableEncoders, Seq<char>>,
    result: Result<AvailableEncoders, ImageFailure>,
)
    requires
        plan_view(result) == reported(plan),
    ensures
        plan matches Ok(encoder) ==> result == Ok::<AvailableEncoders, ImageFailure>(encoder),
        plan matches Err(problem) ==> (result matches Err(failure) && failure.text@ == problem
            && failure@.kind == KindView::Other),
{
}

/// The density of a source file reaches a MozJPEG encoder number for number: 0 is
/// a ratio, 1 counts pixels per inch and 2 per centimetre.
pub proof fn law_a_density_is_carried_over(encoder: AvailableEncoders, density: JfifDensity)
    requires
        encoder is MozJpeg,
        density.unit <= 2,
    ensures
        with_density(encoder, Some(density)) matches AvailableEncoders::MozJpeg(options) && (
        options.pixel_density matches Some(written) && {
            &&& written.x == density.x_density
            &&& written.y == density.y_density
            &&& written.unit is PixelAspectRatio <==> density.unit == 0
            &&& written.unit is Inches <==> density.unit == 1
            &&& written.unit is Centimeters <==> density.unit == 2
        }),
{
}

/// A file that the main decoder does not know goes by its extension, in any case,
/// and by what it holds: `svg` and `svgz` to the renderer before all else, what
/// holds an AVIF to that decoder whatever it is called, `webp`, `tif` and `tiff`
/// to theirs, and anything else nowhere.
pub proof fn law_a_file_goes_to_the_decoder_of_its_kind(
    path: Seq<char>,
    extension: Seq<char>,
    content_is_avif: bool,
    windows: bool,
)
    requires
        path_extension(path, windows) == Some(extension),
    ensures
        ({
            let small = ascii_lowered(extension);
            let chosen = fallback_of(path, content_is_avif, windows);
            &&& small == "svg"@ || small == "svgz"@ ==> chosen == Some(Fallback::Svg)
            &&& small != "svg"@ && small != "svgz"@ && content_is_avif ==> chosen == Some(
                Fallback::Avif,
            )
            &&& small == "webp"@ && !content_is_avif ==> chosen == Some(Fallback::WebP)
            &&& (small == "tif"@ || small == "tiff"@) && !content_is_avif ==> chosen == Some(
                Fallback::Tiff,
            )
            &&& small != "svg"@ && small != "svgz"@ && small != "webp"@ && small != "tif"@ && small
                != "tiff"@ && !content_is_avif ==> chosen is None
        }),
{
    reveal_strlit("svg");
    reveal_strlit("svgz");
    reveal_strlit("webp");
    reveal_strlit("tif");
    reveal_strlit("tiff");
    assert("svg"@[0] == 's' && "svgz"@[0] == 's' && "webp"@[0] == 'w' && "tif"@[0] == 't'
        && "tiff"@[0] == 't');
    assert(ascii_lowered("svg"@) =~= "svg"@);
    assert(ascii_lowered("svgz"@) =~= "svgz"@);
    assert(ascii_lowered("webp"@) =~= "webp"@);
    assert(ascii_lowered("tif"@) =~= "tif"@);
    assert(ascii_lowered("tiff"@) =~= "tiff"@);
}

/// A file without an extension goes to another decoder only where it holds an
/// AVIF.
pub proof fn law_a_bare_name_goes_by_its_contents(
    path: Seq<char>,
    content_is_avif: bool,
    windows: bool,
)
    requires
        path_extension(path, windows) is None,
    ensures
        fallback_of(path, content_is_avif, windows) == if content_is_avif {
            Some(Fallback::Avif)
        } else {
            None
        },
{
}

} // verus!
