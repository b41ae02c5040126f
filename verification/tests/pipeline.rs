//! Sizing inputs up front, choosing decoders and setting up encoders.

use rimage::cli::headers::{
    avif_dimensions, jpeg_dimensions, png_dimensions, tiff_dimensions, PNG_HEADER_PROBE_BYTES,
};
use rimage::cli::jpeg::JfifDensity;
use rimage::cli::pipeline::{
    check_input_limits, check_input_size, classify_decode_failure, concurrency_from_env,
    decode_with_fallback, encoder, encoder_with, probe_bytes, probe_dimensions, quant_tables,
    svg_decoder, svg_pixel_budget, AvailableEncoders, AvifAlpha, AvifColors, AvifOptions,
    DensityUnit, EncoderArgs, Fallback, JpegColors, MozJpegOptions, PixelDensity, QuantTable,
    Retry, ScaledTable,
};
use rimage::cli::preprocess::PreprocessArgs;
use rimage::cli::resize::ResizeValue;
use rimage::codecs::oxipng::OxiPngOptions;
use rimage::codecs::webp::{WebPEncoder, WebPOptions};
use rimage::color::ColorSpace;
use rimage::error::{format_of_path, FailureKind, ImageFailure};
use rimage::limits::{ImageFormatId, MemoryReading};
use rimage::raster::{Raster, Samples};

/// The front of a JPEG whose frame header follows an application segment.
fn jpeg_with_dimensions(width: u16, height: u16) -> Vec<u8> {
    let mut data = vec![0xFF, 0xD8];
    data.extend_from_slice(&[0xFF, 0xE0, 0x00, 0x10]);
    data.extend_from_slice(b"JFIF\0\x01\x01\x00\x00\x01\x00\x01\x00\x00");
    data.extend_from_slice(&[0xFF, 0xC0, 0x00, 0x11, 0x08]);
    data.extend_from_slice(&height.to_be_bytes());
    data.extend_from_slice(&width.to_be_bytes());
    data.extend_from_slice(&[3, 1, 0x22, 0, 2, 0x11, 1, 3, 0x11, 1]);
    data
}

/// The front of a PNG.
fn png_with_dimensions(width: u32, height: u32) -> Vec<u8> {
    let mut data = vec![0x89, b'P', b'N', b'G', 0x0D, 0x0A, 0x1A, 0x0A];
    data.extend_from_slice(&13u32.to_be_bytes());
    data.extend_from_slice(b"IHDR");
    data.extend_from_slice(&width.to_be_bytes());
    data.extend_from_slice(&height.to_be_bytes());
    data.extend_from_slice(&[8, 6, 0, 0, 0]);
    data
}

/// A box of an AVIF file.
fn iso_box(kind: &[u8; 4], payload: &[u8]) -> Vec<u8> {
    let mut data = ((payload.len() + 8) as u32).to_be_bytes().to_vec();
    data.extend_from_slice(kind);
    data.extend_from_slice(payload);
    data
}

/// The front of an AVIF with its property chain.
fn avif_with_dimensions(width: u32, height: u32) -> Vec<u8> {
    let mut extent = vec![0; 4];
    extent.extend_from_slice(&width.to_be_bytes());
    extent.extend_from_slice(&height.to_be_bytes());
    let properties = iso_box(b"ipco", &iso_box(b"ispe", &extent));
    let mut meta = vec![0; 4];
    meta.extend_from_slice(&iso_box(b"hdlr", &[0; 4]));
    meta.extend_from_slice(&iso_box(b"iprp", &properties));
    let mut data = iso_box(b"ftyp", b"avif\0\0\0\0");
    data.extend_from_slice(&iso_box(b"meta", &meta));
    data
}

/// A WebP file of one colour.
fn webp_with_dimensions(width: usize, height: usize) -> Vec<u8> {
    let image = Raster::new_still(
        width,
        height,
        ColorSpace::RGB,
        Samples::Eight(vec![200; width * height * 3]),
    );
    WebPEncoder::new().encode(&image).unwrap()
}

/// A machine with so much free memory.
fn machine(available: u64) -> MemoryReading {
    MemoryReading { cgroup: None, available }
}

/// A JPEG header probe must recover the real dimensions from an ordinary
/// file, or the pre-check would silently never fire.
#[test]
fn a_jpeg_header_probe_reads_the_real_dimensions() {
    let probed = probe_dimensions(&jpeg_with_dimensions(48, 80), ImageFormatId::Jpeg);

    let (width, height) = probed.expect("the header must be readable");
    assert!(width > 0 && height > 0, "got {width}x{height}");
    assert_eq!((width, height), (48, 80));
}

/// A format with no published limit and no decoder ceiling is not probed;
/// its only bound is the memory budget, which the decoder applies to the
/// buffer it allocates.
#[test]
fn formats_without_a_side_limit_are_not_probed() {
    assert!(
        probe_dimensions(&jpeg_with_dimensions(48, 80), ImageFormatId::Tiff).is_none(),
        "format identity alone must not imply a probe; TIFF is probed by \
         its own reader but a JPEG body is not a TIFF"
    );
    for format in [ImageFormatId::Svg, ImageFormatId::Other] {
        assert_eq!(probe_bytes(format), None);
        assert_eq!(probe_dimensions(&jpeg_with_dimensions(48, 80), format), None);
    }
}

/// PNG dimensions are in the `IHDR` chunk, which the spec requires to come
/// first, so a short prefix settles them.
#[test]
fn a_png_header_probe_reads_the_real_dimensions() {
    let (width, height) = probe_dimensions(&png_with_dimensions(48, 80), ImageFormatId::Png)
        .expect("the IHDR must be readable");

    assert!(width > 0 && height > 0, "got {width}x{height}");
    assert_eq!((width, height), (48, 80));
    assert!(png_with_dimensions(48, 80).len() <= PNG_HEADER_PROBE_BYTES);
}

/// A PNG whose first chunk is not `IHDR` is malformed, and its dimensions
/// must not be read from wherever a 16-byte window happens to land.
#[test]
fn a_png_without_a_leading_ihdr_is_not_probed() {
    let mut data = vec![0x89, b'P', b'N', b'G', 0x0D, 0x0A, 0x1A, 0x0A];
    data.extend_from_slice(&13u32.to_be_bytes());
    data.extend_from_slice(b"IDAT");
    data.extend_from_slice(&[0; 16]);

    assert!(png_dimensions(&data).is_none());
}

/// A file that does not start with the PNG signature is not a PNG, whatever
/// else it holds.
#[test]
fn a_file_that_is_not_a_png_is_not_probed() {
    let mut data = vec![0u8; 8];
    data.extend_from_slice(&13u32.to_be_bytes());
    data.extend_from_slice(b"IHDR");
    data.extend_from_slice(&[0; 16]);

    assert!(png_dimensions(&data).is_none());
}

/// WebP has a published 16383-per-side limit, so its header must be
/// readable without decoding. The bitstream-features probe is what makes
/// that possible; if it ever stops working the check silently goes dead.
#[test]
fn a_webp_header_probe_reads_the_real_dimensions() {
    let file = webp_with_dimensions(48, 80);
    let (width, height) = probe_dimensions(&file, ImageFormatId::WebP)
        .expect("the header must be readable");

    assert!(width > 0 && height > 0, "got {width}x{height}");
    assert_eq!((width, height), (48, 80));

    // The header alone is enough.
    assert_eq!(probe_dimensions(&file[..40], ImageFormatId::WebP), Some((48, 80)));
    assert_eq!(probe_dimensions(&[0; 64], ImageFormatId::WebP), None);
}

/// A file too short to contain a frame header must be reported as
/// unprobeable rather than as an error, so decoding still gets its chance.
#[test]
fn a_truncated_header_is_not_an_error() {
    assert!(probe_dimensions(&[0xFF, 0xD8, 0xFF], ImageFormatId::Jpeg).is_none());
    assert!(probe_dimensions(&[], ImageFormatId::Jpeg).is_none());
    assert!(probe_dimensions(&[], ImageFormatId::WebP).is_none());
}

/// AVIF keeps its size in an ISO-BMFF property box rather than a header, so
/// the box walk is the only thing standing between an oversized file and
/// the decoder. A wrong answer here is worse than none, so the dimensions
/// are compared against the values `ispe` actually declares.
#[test]
fn an_avif_probe_reads_the_dimensions_from_the_ispe_box() {
    let (width, height) = probe_dimensions(&avif_with_dimensions(48, 80), ImageFormatId::Avif)
        .expect("the ispe box must be reachable");

    assert_eq!((width, height), (48, 80));
}

/// A byte sequence that merely looks like `ispe` must not be mistaken for
/// the property box. The walk keys off declared box sizes, so a file with
/// no `meta`/`iprp`/`ipco` chain yields nothing rather than a bogus size.
#[test]
fn an_avif_file_without_the_property_chain_is_not_probed() {
    // A well-formed `ftyp` followed by bytes that spell `ispe` where no
    // property box can legally appear.
    let mut data = Vec::new();
    data.extend_from_slice(&20u32.to_be_bytes());
    data.extend_from_slice(b"ftyp");
    data.extend_from_slice(b"avif");
    data.extend_from_slice(&[0; 8]);
    data.extend_from_slice(&20u32.to_be_bytes());
    data.extend_from_slice(b"ispe");
    data.extend_from_slice(&[0; 12]);

    assert!(avif_dimensions(&data).is_none());
}

/// TIFF stores its dimensions in an IFD reached through an offset in the
/// header, so the tag walk has to follow that offset rather than scan.
#[test]
fn a_tiff_probe_reads_the_dimensions_from_the_ifd() {
    let file = tiff_with_dimensions(b"II", 4, 48, 80);
    let (width, height) =
        probe_dimensions(&file, ImageFormatId::Tiff).expect("the IFD must be readable");

    assert!(width > 0 && height > 0, "got {width}x{height}");
    assert_eq!((width, height), (48, 80));
}

fn push_u16(file: &mut Vec<u8>, big: bool, value: u16) {
    let bytes = if big { value.to_be_bytes() } else { value.to_le_bytes() };
    file.extend_from_slice(&bytes);
}

fn push_u32(file: &mut Vec<u8>, big: bool, value: u32) {
    let bytes = if big { value.to_be_bytes() } else { value.to_le_bytes() };
    file.extend_from_slice(&bytes);
}

/// Build a minimal TIFF containing only the two dimension tags.
///
/// `value_type` is the TIFF type code, so the same builder covers both the
/// `SHORT` and `LONG` encodings the specification allows here.
fn tiff_with_dimensions(order: &[u8; 2], value_type: u16, width: u32, height: u32) -> Vec<u8> {
    let big = order == b"MM";
    let mut file = Vec::new();
    file.extend_from_slice(order);

    push_u16(&mut file, big, 42);
    push_u32(&mut file, big, 8);

    // Two IFD entries, in tag order.
    push_u16(&mut file, big, 2);
    for (tag, value) in [(0x0100u16, width), (0x0101, height)] {
        push_u16(&mut file, big, tag);
        push_u16(&mut file, big, value_type);
        push_u32(&mut file, big, 1);
        // A `SHORT` is stored left-justified and padded; a `LONG` fills the
        // whole value field.
        if value_type == 3 {
            push_u16(&mut file, big, value as u16);
            push_u16(&mut file, big, 0);
        } else {
            push_u32(&mut file, big, value);
        }
    }

    file
}

/// Both TIFF byte orders are in the wild, and both must be accepted. The
/// same tag values are written little-endian and big-endian here.
#[test]
fn a_tiff_probe_handles_both_byte_orders() {
    assert_eq!(
        tiff_dimensions(&tiff_with_dimensions(b"II", 4, 132_778, 5_000)),
        Some((132_778, 5_000)),
        "little-endian TIFF must be readable"
    );
    assert_eq!(
        tiff_dimensions(&tiff_with_dimensions(b"MM", 4, 132_778, 5_000)),
        Some((132_778, 5_000)),
        "big-endian TIFF must be readable"
    );
}

/// `SHORT` is the common encoding for small dimensions and is stored
/// left-justified in the four-byte value field, which is the one place a
/// big-endian file differs from a little-endian one.
#[test]
fn a_tiff_probe_reads_short_values() {
    assert_eq!(
        tiff_dimensions(&tiff_with_dimensions(b"II", 3, 640, 480)),
        Some((640, 480)),
        "little-endian SHORT must be readable"
    );
    assert_eq!(
        tiff_dimensions(&tiff_with_dimensions(b"MM", 3, 640, 480)),
        Some((640, 480)),
        "big-endian SHORT must be readable"
    );
}

/// A file whose magic number is wrong is not a TIFF, whatever else it
/// contains, and must not be reported as one.
#[test]
fn a_file_that_is_not_a_tiff_is_not_probed() {
    let mut file = Vec::new();
    file.extend_from_slice(b"XX");
    file.extend_from_slice(&42u16.to_le_bytes());
    file.extend_from_slice(&8u32.to_le_bytes());
    file.extend_from_slice(&[0; 32]);

    assert!(tiff_dimensions(&file).is_none());
}

/// An ordinary image on an ordinary machine must pass the pre-check, so the
/// limit does not reject files the program is expected to handle.
#[test]
fn an_ordinary_image_passes_the_pre_check() {
    check_input_limits(
        "tests/files/jpg/f1t.jpg",
        Some(&jpeg_with_dimensions(48, 80)),
        None,
        machine(8 << 30),
        false,
    )
    .expect("an ordinary image must not be rejected");
}

/// A path that does not exist is left for the decoder to report, rather
/// than being turned into a size error here.
#[test]
fn a_missing_file_is_not_a_size_error() {
    assert!(
        check_input_limits("tests/files/does-not-exist.jpg", None, None, machine(8 << 30), false)
            .is_ok()
    );
}

/// The budget must divide by the concurrency the pipeline really uses.
#[test]
fn the_memory_budget_follows_the_threads_flag() {
    assert_eq!(concurrency_from_env(None), 1);
    assert_eq!(concurrency_from_env(Some(4)), 4);
    assert_eq!(concurrency_from_env(Some(0)), 1);

    let alone = svg_pixel_budget(None, machine(8 << 30)).unwrap();
    let shared = svg_pixel_budget(Some(4), machine(8 << 30)).unwrap();
    assert_eq!(alone, (4u64 << 30) / 44);
    assert_eq!(shared, (1u64 << 30) / 44);
}

#[test]
fn an_oversized_header_is_refused_before_decoding() {
    let error = check_input_limits(
        "wide.jpg",
        Some(&jpeg_with_dimensions(65500, 2466)),
        None,
        machine(64 << 30),
        false,
    )
    .unwrap_err();
    assert_eq!(error.kind(), "input.size-limit");
    assert_eq!(error.path(), "wide.jpg");

    // The same size under another name is not probed as a JPEG.
    assert!(check_input_limits(
        "wide.qoi",
        Some(&jpeg_with_dimensions(65500, 2466)),
        None,
        machine(64 << 30),
        false,
    )
    .is_ok());

    assert!(check_input_size("a.jpg", (8000, 8000), None, machine(64 << 30), false).is_ok());
    assert!(check_input_size("a.jpg", (8000, 8000), None, machine(1 << 20), false).is_err());
    // Sharing the machine lowers the ceiling.
    assert!(check_input_size("a.jpg", (8000, 8000), Some(4), machine(3 << 30), false).is_err());
    assert!(check_input_size("a.jpg", (8000, 8000), Some(1), machine(3 << 30), false).is_ok());
}

/// A restart marker carries no length, so the walk gives up instead of reading
/// one.
#[test]
fn a_standalone_marker_stops_the_jpeg_walk() {
    for marker in [0x01, 0xD0, 0xD3, 0xD7, 0xD8, 0xD9] {
        let mut data = vec![0xFF, 0xD8, 0xFF, marker];
        data.extend_from_slice(&jpeg_with_dimensions(48, 80)[2..]);
        assert_eq!(jpeg_dimensions(&data), None, "marker {marker:#x}");
    }

    // Fill bytes before a marker are skipped.
    let mut data = vec![0xFF, 0xD8, 0xFF, 0xFF];
    data.extend_from_slice(&jpeg_with_dimensions(48, 80)[2..]);
    assert_eq!(jpeg_dimensions(&data), Some((48, 80)));
}

/// A prefix of a file that has a size declares the same size or none.
#[test]
fn a_prefix_never_misleads() {
    let files = [
        (ImageFormatId::Jpeg, jpeg_with_dimensions(48, 80)),
        (ImageFormatId::Png, png_with_dimensions(48, 80)),
        (ImageFormatId::Avif, avif_with_dimensions(48, 80)),
        (ImageFormatId::Tiff, tiff_with_dimensions(b"MM", 3, 48, 80)),
    ];
    for (format, file) in &files {
        for length in 0..=file.len() {
            let size = probe_dimensions(&file[..length], *format);
            assert!(size.is_none() || size == Some((48, 80)), "{format:?} at {length}");
        }
        assert_eq!(probe_dimensions(file, *format), Some((48, 80)));
    }
}

fn not_implemented() -> ImageFailure {
    ImageFailure {
        kind: FailureKind::DecoderNotImplemented,
        text: String::from("The decoder to parse Unknown has not been implemented\n"),
    }
}

fn fallback(path: &str, content_is_avif: bool) -> Option<Fallback> {
    match decode_with_fallback(path, not_implemented(), content_is_avif, false) {
        Retry::With(fallback) => Some(fallback),
        Retry::Fail(failure) => {
            assert!(matches!(failure.kind, FailureKind::DecoderNotImplemented));
            None
        }
    }
}

#[test]
fn unknown_files_go_to_the_decoder_of_their_extension() {
    assert_eq!(fallback("a.svg", false), Some(Fallback::Svg));
    assert_eq!(fallback("a.SVGZ", true), Some(Fallback::Svg));
    assert_eq!(fallback("a.bin", true), Some(Fallback::Avif));
    assert_eq!(fallback("a.webp", true), Some(Fallback::Avif));
    assert_eq!(fallback("dir.svg/a.WebP", false), Some(Fallback::WebP));
    assert_eq!(fallback("a.tif", false), Some(Fallback::Tiff));
    assert_eq!(fallback("a.TIFF", false), Some(Fallback::Tiff));
    assert_eq!(fallback("a.avif", false), None);
    assert_eq!(fallback("svg", false), None);
}

#[test]
fn other_failures_are_not_retried() {
    let failure = ImageFailure::decode(String::from("broken"));
    match decode_with_fallback("a.svg", failure, true, false) {
        Retry::Fail(failure) => assert_eq!(failure.text, "broken"),
        Retry::With(fallback) => panic!("retried with {fallback:?}"),
    }
}

#[test]
fn decode_failures_are_input_errors() {
    let error = classify_decode_failure("a.tif", &not_implemented(), false);
    assert_eq!(error.kind(), "input.unsupported-format");
}

#[test]
fn names_lead_to_encoders() {
    let args = EncoderArgs::default();
    let extensions = [
        ("farbfeld", "ff"),
        ("jpeg", "jpg"),
        ("jpeg_xl", "jxl"),
        ("mozjpeg", "jpg"),
        ("oxipng", "png"),
        ("avif", "avif"),
        ("webp", "webp"),
        ("png", "png"),
        ("ppm", "ppm"),
        ("qoi", "qoi"),
    ];
    for (name, extension) in extensions {
        let encoder = encoder(name, &args).unwrap();
        assert_eq!(encoder.to_extension(), extension);
        assert_eq!(
            ImageFormatId::from_extension(encoder.to_extension()),
            ImageFormatId::from_encoder_name(name)
        );
    }
    assert_eq!(encoder("gif", &args).unwrap_err().text, "Encoder \"gif\" not found");
}

#[test]
fn defaults_are_filled_in() {
    let args = EncoderArgs::default();
    assert_eq!(
        encoder("mozjpeg", &args).unwrap(),
        AvailableEncoders::MozJpeg(MozJpegOptions {
            quality: 75,
            progressive: true,
            optimize_coding: true,
            smoothing: 0,
            color_space: JpegColors::YCbCr,
            trellis_multipass: false,
            chroma_subsample: None,
            luma_qtable: None,
            chroma_qtable: None,
            pixel_density: None,
        })
    );
    assert_eq!(
        encoder("oxipng", &args).unwrap(),
        AvailableEncoders::OxiPng(OxiPngOptions { preset: 2, interlace: None })
    );
    assert_eq!(
        encoder("avif", &args).unwrap(),
        AvailableEncoders::Avif(AvifOptions {
            quality: 50,
            alpha_quality: None,
            speed: 6,
            color_space: AvifColors::YCbCr,
            alpha_color_mode: AvifAlpha::UnassociatedClean,
        })
    );
    assert_eq!(
        encoder("webp", &args).unwrap(),
        AvailableEncoders::Webp(WebPOptions {
            quality: 75,
            lossless: false,
            near_lossless: 100,
            exact: false,
        })
    );
}

#[test]
fn arguments_reach_the_encoder() {
    let args = EncoderArgs {
        quality: Some(60),
        chroma_quality: Some(40),
        baseline: true,
        no_optimize_coding: true,
        smoothing: Some(5),
        colorspace: Some(String::from("rgb")),
        multipass: true,
        subsample: Some(1),
        qtable: Some(String::from("MSSSIM")),
        effort: Some(6),
        interlace: true,
        alpha_quality: Some(30),
        speed: Some(9),
        alpha_mode: Some(String::from("Premultiplied")),
        lossless: true,
        slight_loss: Some(40),
        exact: true,
    };
    assert_eq!(
        encoder("mozjpeg", &args).unwrap(),
        AvailableEncoders::MozJpeg(MozJpegOptions {
            quality: 60,
            progressive: false,
            optimize_coding: false,
            smoothing: 5,
            color_space: JpegColors::RGB,
            trellis_multipass: true,
            chroma_subsample: Some(1),
            luma_qtable: Some(ScaledTable { table: QuantTable::MSSSIMLuma, quality: 60 }),
            chroma_qtable: Some(ScaledTable { table: QuantTable::MSSSIMChroma, quality: 40 }),
            pixel_density: None,
        })
    );
    assert_eq!(
        encoder("oxipng", &args).unwrap(),
        AvailableEncoders::OxiPng(OxiPngOptions { preset: 6, interlace: Some(true) })
    );
    assert_eq!(
        encoder("avif", &args).unwrap(),
        AvailableEncoders::Avif(AvifOptions {
            quality: 60,
            alpha_quality: Some(30),
            speed: 9,
            color_space: AvifColors::RGB,
            alpha_color_mode: AvifAlpha::Premultiplied,
        })
    );
    assert_eq!(
        encoder("webp", &args).unwrap(),
        AvailableEncoders::Webp(WebPOptions {
            quality: 60,
            lossless: true,
            near_lossless: 60,
            exact: true,
        })
    );
    assert_eq!(encoder("jpeg", &args).unwrap(), AvailableEncoders::Jpeg);
}

#[test]
fn wrong_arguments_are_named() {
    let mut args = EncoderArgs {
        colorspace: Some(String::from("cmyk")),
        qtable: Some(String::from("None")),
        alpha_mode: Some(String::from("Dirty")),
        ..EncoderArgs::default()
    };
    // The colours are judged first.
    assert_eq!(
        encoder("mozjpeg", &args).unwrap_err().text,
        "Unsupported mozjpeg colorspace: cmyk"
    );
    assert_eq!(encoder("avif", &args).unwrap_err().text, "Unsupported avif colorspace: cmyk");

    args.colorspace = Some(String::from("grayscale"));
    assert_eq!(encoder("mozjpeg", &args).unwrap_err().text, "Unknown qtable: None");
    assert_eq!(
        encoder("avif", &args).unwrap_err().text,
        "Unsupported avif colorspace: grayscale"
    );

    args.colorspace = None;
    assert_eq!(encoder("avif", &args).unwrap_err().text, "Unsupported avif alpha mode: Dirty");

    let failure = encoder_with("webp", &args, false).unwrap_err();
    assert_eq!(failure.text, "libwebp encoder configuration failed to initialize");
    assert!(encoder_with("png", &args, false).is_ok());
}

#[test]
fn chroma_follows_luma_unless_it_is_given() {
    let mut args = EncoderArgs {
        quality: Some(90),
        qtable: Some(String::from("AnnexK")),
        ..EncoderArgs::default()
    };
    let tables = |args: &EncoderArgs| match encoder("mozjpeg", args).unwrap() {
        AvailableEncoders::MozJpeg(options) => {
            (options.luma_qtable.unwrap(), options.chroma_qtable.unwrap())
        }
        other => panic!("got {other:?}"),
    };
    assert_eq!(
        tables(&args),
        (
            ScaledTable { table: QuantTable::AnnexKLuma, quality: 90 },
            ScaledTable { table: QuantTable::AnnexKChroma, quality: 90 }
        )
    );
    args.chroma_quality = Some(10);
    assert_eq!(tables(&args).1.quality, 10);
}

#[test]
fn every_table_name_is_known() {
    for name in [
        "AhumadaWatsonPeterson",
        "AnnexK",
        "Flat",
        "KleinSilversteinCarney",
        "MSSSIM",
        "NRobidoux",
        "PSNRHVS",
        "PetersonAhumadaWatson",
        "WatsonTaylorBorthwick",
    ] {
        let (luma, chroma) = quant_tables(name).unwrap();
        let paired = ["AnnexK", "MSSSIM", "PSNRHVS"].contains(&name);
        assert_eq!(luma != chroma, paired, "{name}");
    }
    assert_eq!(quant_tables("flat"), None);
}

#[test]
fn densities_reach_only_the_encoder_that_declares_them() {
    let density = JfifDensity { unit: 1, x_density: 300, y_density: 150 };
    let args = EncoderArgs::default();

    let mut moz = encoder("mozjpeg", &args).unwrap();
    moz.set_jfif_density(Some(density));
    match moz {
        AvailableEncoders::MozJpeg(options) => assert_eq!(
            options.pixel_density,
            Some(PixelDensity { unit: DensityUnit::Inches, x: 300, y: 150 })
        ),
        other => panic!("got {other:?}"),
    }

    let before = moz;
    moz.set_jfif_density(None);
    assert_eq!(moz, before);
    moz.set_jfif_density(Some(JfifDensity { unit: 3, x_density: 1, y_density: 1 }));
    assert_eq!(moz, before);

    let mut png = encoder("png", &args).unwrap();
    png.set_jfif_density(Some(density));
    assert_eq!(png, AvailableEncoders::Png);
}

#[test]
fn an_svg_is_rendered_within_the_budget_of_the_machine() {
    let args = PreprocessArgs {
        resize: vec![(2, ResizeValue::LongestSide(200))],
        quantization: Vec::new(),
        premultiply: Vec::new(),
        dithering: None,
        filter: None,
        downscale: true,
        no_downscale: false,
        upscale: true,
        no_upscale: false,
    };
    let decoder = svg_decoder(&args, (100, 50), (100, 50), None, machine(8 << 30)).unwrap();
    assert_eq!(decoder.target, (200, 100));

    let failure = svg_decoder(&args, (100, 50), (100, 50), None, machine(1 << 20)).unwrap_err();
    assert!(failure.text.starts_with("rimage-svg-size-limit:200x100:20000:11915:"));
}

#[test]
fn paths_are_read_by_the_rules_of_the_platform() {
    let (jpeg, png, other) = (ImageFormatId::Jpeg, ImageFormatId::Png, ImageFormatId::Other);
    let both = |path: &str| {
        (
            format_of_path(path, false),
            format_of_path(path, true),
        )
    };
    assert_eq!(both("photo.jpg"), (jpeg, jpeg));
    assert_eq!(both("dir.png/photo.JPG"), (jpeg, jpeg));
    assert_eq!(both("photo.jpg/."), (jpeg, jpeg));
    assert_eq!(both("photo.jpg/.."), (other, other));
    assert_eq!(both(".jpg"), (other, other));
    // A backslash parts the segments on Windows alone.
    assert_eq!(both("photo.jpg\\"), (other, jpeg));
    assert_eq!(both("dir.png\\photo"), (other, other));
    assert_eq!(both("photo.jpg\\."), (other, jpeg));
    assert_eq!(both("a\\.jpg"), (jpeg, other));
    // What stands in front of a Windows path is no name.
    assert_eq!(both("C:photo.jpg"), (jpeg, jpeg));
    assert_eq!(both("C:.jpg"), (jpeg, other));
    assert_eq!(both("\\\\server\\share.jpg"), (jpeg, other));
    assert_eq!(both("\\\\server\\share.jpg\\a.png"), (png, png));
    assert_eq!(both("\\\\.\\disk.jpg"), (jpeg, other));
    assert_eq!(both("\\\\server.jpg"), (jpeg, jpeg));
    // A verbatim path has no other separator and keeps its dots.
    assert_eq!(both("\\\\?\\C:\\a.png"), (png, png));
    assert_eq!(both("\\\\?\\disk.jpg"), (jpeg, other));
    assert_eq!(both("\\\\?\\C:\\b/a.png"), (png, png));
    assert_eq!(both("\\\\?\\C:\\a.png/"), (png, other));
    assert_eq!(both("\\\\?\\C:\\a.png\\."), (other, other));
    assert_eq!(both("\\\\?\\UNC\\server\\share.jpg"), (jpeg, other));
    assert_eq!(both("\\\\?\\UNC\\server\\share\\a.jpg"), (jpeg, jpeg));
}
