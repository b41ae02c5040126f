//! WebP, TIFF, PNG and SVG: what goes in, what comes out, and what is refused.

use std::io::Cursor;

use rimage::cli::headers::png_dimensions;
use rimage::codecs::oxipng::{OxiPngEncoder, OxiPngOptions};
use rimage::codecs::svg::{
    check_document, document_failure, resolve_target_size, straight_alpha, SvgDecoder, SvgOptions,
    MAX_SVG_BYTES, MAX_TARGET_PIXELS,
};
use rimage::codecs::tiff::{check_header, image_of, TiffColor, TiffDecoder};
use rimage::codecs::tiff_chunks::chunks_are_countable;
use rimage::codecs::webp::{
    finish_encoding, WebPDecoder, WebPEncoder, WebPOptions, WebPPicture, MAX_WEBP_BYTES,
};
use rimage::color::{BitDepth, ColorSpace};
use rimage::error::FailureKind;
use rimage::raster::{to_eight_bit, to_network_bytes, Frame, Raster, Samples};

/// Pixels without two of the same colour in a row.
fn noise(length: usize) -> Vec<u8> {
    let mut state = 12345u32;
    (0..length)
        .map(|_| {
            state = state.wrapping_mul(1664525).wrapping_add(1013904223);
            (state >> 24) as u8
        })
        .collect()
}

fn eight(width: usize, height: usize, colorspace: ColorSpace) -> Raster {
    let length = width * height * colorspace.num_components() as usize;
    Raster::new_still(width, height, colorspace, Samples::Eight(noise(length)))
}

fn lossless() -> WebPEncoder {
    WebPEncoder::new_with_options(WebPOptions {
        quality: 75,
        lossless: true,
        near_lossless: 100,
        exact: true,
    })
}

fn webp_file(alpha: bool) -> Vec<u8> {
    let colorspace = if alpha { ColorSpace::RGBA } else { ColorSpace::RGB };
    lossless().encode(&eight(48, 80, colorspace)).unwrap()
}

fn still_decoder(file: &[u8]) -> WebPDecoder {
    WebPDecoder::try_new(file).unwrap().expect("a still file")
}

// --- WebP --------------------------------------------------------------------

#[test]
fn tests_decode() {
    let mut decoder = still_decoder(&webp_file(false));

    let img = decoder.decode().unwrap();

    assert_eq!((img.width, img.height), (48, 80));
    // This file has no alpha channel, and the static decoder reports the layout
    // it actually produced rather than assuming RGBA.
    assert_eq!(img.colorspace, ColorSpace::RGB);
}

/// A file without alpha must not be silently widened to four channels: doing so
/// allocates a third more memory than the image needs.
#[test]
fn a_file_without_alpha_stays_rgb() {
    let decoder = still_decoder(&webp_file(false));

    assert_eq!(decoder.out_colorspace(), ColorSpace::RGB);
    let (width, height) = decoder.dimensions().unwrap();
    assert_eq!((width, height), (48, 80));

    assert_eq!(still_decoder(&webp_file(true)).out_colorspace(), ColorSpace::RGBA);
}

/// A still file is served by the non-animated decoder: the animation decoder
/// materialises every frame, and the static one never does.
#[test]
fn a_still_file_takes_the_non_animated_path() {
    let decoder = still_decoder(&webp_file(false));

    assert!(
        decoder.still.is_some(),
        "a still WebP must be decoded by libwebp's static decoder"
    );
    assert!(
        decoder.animated.is_none(),
        "the animation decoder must not run for a still image"
    );
}

/// Animated and corrupt inputs both make the still decoder give up, so the
/// animation decoder has to be the fallback that reports *why* the file failed.
#[test]
fn an_undecodable_file_reports_the_animation_decoder_error() {
    let garbage = vec![0u8; 32];

    assert!(WebPDecoder::try_new(&garbage).unwrap().is_none());
    let outcome = webp::AnimDecoder::new(&garbage).decode().map(|_| None);

    let Err(error) = WebPDecoder::from_animation(outcome) else {
        panic!("garbage must not decode");
    };

    assert!(!error.text.is_empty());
    assert!(matches!(error.kind, FailureKind::Decode));
}

#[test]
fn a_lossless_file_reads_back() {
    for colorspace in [ColorSpace::RGB, ColorSpace::RGBA] {
        let image = eight(48, 80, colorspace);
        let file = lossless().encode(&image).unwrap();
        let mut decoder = still_decoder(&file);
        assert_eq!(decoder.decode().unwrap(), image);

        // A picture is handed over once.
        assert_eq!(decoder.dimensions(), None);
        assert_eq!(decoder.decode().unwrap_err().text, "WebP image has no frames");
    }
}

#[test]
fn options_change_the_file() {
    let image = eight(48, 80, ColorSpace::RGB);
    let encode = |quality| {
        WebPEncoder::new_with_options(WebPOptions {
            quality,
            lossless: false,
            near_lossless: 100,
            exact: false,
        })
        .encode(&image)
        .unwrap()
    };
    assert!(encode(10).len() < encode(95).len());
    assert_ne!(encode(75), lossless().encode(&image).unwrap());
}

#[test]
fn deeper_samples_are_narrowed_for_webp() {
    let wide: Vec<u16> = noise(48 * 80 * 3).iter().map(|sample| *sample as u16 * 257).collect();
    let image = Raster::new_still(48, 80, ColorSpace::RGB, Samples::Sixteen(wide));
    assert_eq!(lossless().encode(&image).unwrap(), webp_file(false));
    assert_eq!(
        to_eight_bit(&Samples::Sixteen(vec![0, 256, 257, 65535, 65278])),
        vec![0, 0, 1, 255, 254]
    );
}

#[test]
fn webp_refuses_what_it_cannot_write() {
    let empty = Raster {
        width: 1,
        height: 1,
        colorspace: ColorSpace::CMYK,
        depth: BitDepth::Eight,
        frames: Vec::new(),
        icc: None,
    };
    assert_eq!(
        lossless().encode(&empty).unwrap_err().text,
        "Cannot encode an image with no frames"
    );

    let error = lossless().encode(&eight(2, 2, ColorSpace::CMYK)).unwrap_err();
    assert!(matches!(error.kind, FailureKind::UnsupportedColorspace));
    assert_eq!(
        error.text,
        "Found colorspace CMYK but the encoder supports [RGB, RGBA]"
    );

    let broken = WebPEncoder { options: None };
    assert_eq!(
        broken.encode(&eight(2, 2, ColorSpace::RGB)).unwrap_err().text,
        "Image could not be encoded, reason: libwebp encoder configuration failed to initialize"
    );

    let wide = eight(16384, 1, ColorSpace::RGB);
    assert_eq!(
        WebPEncoder::new().encode(&wide).unwrap_err().text,
        "Image could not be encoded, reason: webp encoding failed: VP8_ENC_ERROR_BAD_DIMENSION"
    );

    let invalid = WebPEncoder::new_with_options(WebPOptions {
        quality: 101,
        lossless: false,
        near_lossless: 100,
        exact: false,
    });
    assert_eq!(
        invalid.encode(&eight(2, 2, ColorSpace::RGB)).unwrap_err().text,
        "Image could not be encoded, reason: webp encoding failed: \
         VP8_ENC_ERROR_INVALID_CONFIGURATION"
    );
}

#[test]
fn an_answer_of_the_webp_encoder_is_passed_on() {
    assert_eq!(finish_encoding(Some(Ok(vec![1, 2, 3]))).unwrap(), vec![1, 2, 3]);
    assert_eq!(
        finish_encoding(Some(Err(String::from("X")))).unwrap_err().text,
        "Image could not be encoded, reason: webp encoding failed: X"
    );
    assert_eq!(
        finish_encoding(None).unwrap_err().text,
        "Image could not be encoded, reason: libwebp encoder configuration failed to initialize"
    );
}

#[test]
fn an_animation_gives_its_first_picture() {
    let picture = WebPPicture { pixels: noise(16), width: 2, height: 2, alpha: true };
    let mut decoder = WebPDecoder::from_animation(Ok(Some(picture))).unwrap();
    assert_eq!(decoder.dimensions(), Some((2, 2)));
    assert_eq!(decoder.decode().unwrap(), eight(2, 2, ColorSpace::RGBA));

    let mut empty = WebPDecoder::from_animation(Ok(None)).unwrap();
    assert_eq!(empty.out_colorspace(), ColorSpace::RGBA);
    assert_eq!(empty.decode().unwrap_err().text, "WebP image has no frames");
}

#[test]
fn an_oversized_webp_is_not_decoded() {
    let data = vec![0u8; MAX_WEBP_BYTES as usize + 1];
    assert_eq!(
        WebPDecoder::try_new(&data).unwrap_err().text,
        "WebP input exceeds the 256 MiB read limit"
    );
}

#[test]
fn webp_encoders_start_with_the_defaults() {
    assert_eq!(WebPEncoder::new(), WebPEncoder::default());
    assert_eq!(
        WebPOptions::new().unwrap(),
        WebPOptions { quality: 75, lossless: false, near_lossless: 100, exact: false }
    );
    let encoder = WebPEncoder::new();
    assert_eq!(encoder.default_depth(BitDepth::Float32), BitDepth::Eight);
    assert_eq!(encoder.supported_colorspaces(), vec![ColorSpace::RGB, ColorSpace::RGBA]);
    assert_eq!(encoder.supported_bit_depth(), vec![BitDepth::Eight]);
    assert_eq!(encoder.name(), "webp");
}

// --- TIFF --------------------------------------------------------------------

fn tiff_rgb(width: u32, height: u32, data: &[u8]) -> Vec<u8> {
    let mut file = Cursor::new(Vec::new());
    tiff::encoder::TiffEncoder::new(&mut file)
        .unwrap()
        .write_image::<tiff::encoder::colortype::RGB8>(width, height, data)
        .unwrap();
    file.into_inner()
}

#[test]
fn a_tiff_reads_back() {
    let data = noise(48 * 80 * 3);
    let mut decoder = TiffDecoder::try_new(tiff_rgb(48, 80, &data)).unwrap();
    assert_eq!(decoder.dimensions(), None);
    assert_eq!(decoder.out_colorspace(), ColorSpace::Unknown);

    let img = decoder.decode().expect("all samples are there").unwrap();

    assert_eq!((img.width, img.height), (48, 80));
    assert_eq!(img.colorspace, ColorSpace::RGB);
    assert_eq!(img.frames[0].samples, Samples::Eight(data));
    assert_eq!(decoder.dimensions(), Some((48, 80)));
    assert_eq!(decoder.out_colorspace(), ColorSpace::RGB);
    assert_eq!(decoder.decode().unwrap().unwrap(), img);
}

#[test]
fn a_tiff_keeps_its_sample_size() {
    let words: Vec<u16> = (0..12).map(|sample| sample * 5000).collect();
    let mut file = Cursor::new(Vec::new());
    tiff::encoder::TiffEncoder::new(&mut file)
        .unwrap()
        .write_image::<tiff::encoder::colortype::Gray16>(4, 3, &words)
        .unwrap();
    let mut decoder = TiffDecoder::try_new(file.into_inner()).unwrap();
    let img = decoder.decode().unwrap().unwrap();
    assert_eq!(img.colorspace, ColorSpace::Luma);
    assert_eq!(img.depth, BitDepth::Sixteen);
    assert_eq!(img.frames[0].samples, Samples::Sixteen(words));

    let floats: Vec<f32> = (0..12).map(|sample| sample as f32 / 7.0).collect();
    let mut file = Cursor::new(Vec::new());
    tiff::encoder::TiffEncoder::new(&mut file)
        .unwrap()
        .write_image::<tiff::encoder::colortype::Gray32Float>(4, 3, &floats)
        .unwrap();
    let mut decoder = TiffDecoder::try_new(file.into_inner()).unwrap();
    let img = decoder.decode().unwrap().unwrap();
    assert_eq!(img.depth, BitDepth::Float32);
    let bits: Vec<u32> = floats.iter().map(|sample| sample.to_bits()).collect();
    assert_eq!(img.frames[0].samples, Samples::Float32(bits));
}

#[test]
fn other_tiff_samples_are_not_supported() {
    let mut file = Cursor::new(Vec::new());
    tiff::encoder::TiffEncoder::new(&mut file)
        .unwrap()
        .write_image::<tiff::encoder::colortype::Gray64Float>(2, 1, &[0.5, 1.0])
        .unwrap();
    let mut decoder = TiffDecoder::try_new(file.into_inner()).unwrap();
    let error = decoder.decode().unwrap().unwrap_err();
    assert_eq!(error.text, "Tiff Data format not supported");
    assert_eq!(decoder.dimensions(), Some((2, 1)));
}

#[test]
fn garbage_is_no_tiff() {
    let error = TiffDecoder::try_new(vec![0; 32]).unwrap_err();
    assert!(error.text.starts_with("Unable to create TIFF decoder: "), "{}", error.text);
    assert!(error.text.len() > "Unable to create TIFF decoder: ".len());
}

#[test]
fn a_truncated_tiff_is_refused() {
    let mut file = tiff_rgb(48, 80, &noise(48 * 80 * 3));
    // The pixels come first and the directory last; blank the strip offset.
    let at = file.windows(4).rposition(|tag| tag[..2] == 0x0111u16.to_ne_bytes()).unwrap();
    file[at + 8..at + 12].copy_from_slice(&u32::MAX.to_ne_bytes());
    let mut decoder = TiffDecoder::try_new(file).unwrap();
    let error = decoder.decode().unwrap().unwrap_err();
    assert!(error.text.starts_with("Unable to decode TIFF file - "), "{}", error.text);
}

/// A picture of one bit a pixel is read as packed bytes, fewer than its size
/// calls for.
#[test]
fn packed_pixels_are_not_taken_for_samples() {
    let mut file = b"II\x2a\x00\x08\x00\x00\x00".to_vec();
    let entries: [(u16, u16, u32); 9] = [
        (0x0100, 4, 8),
        (0x0101, 4, 1),
        (0x0102, 3, 1),
        (0x0103, 3, 1),
        (0x0106, 3, 1),
        (0x0111, 4, 122),
        (0x0115, 3, 1),
        (0x0116, 4, 1),
        (0x0117, 4, 1),
    ];
    file.extend_from_slice(&(entries.len() as u16).to_le_bytes());
    for (tag, kind, value) in entries {
        file.extend_from_slice(&tag.to_le_bytes());
        file.extend_from_slice(&kind.to_le_bytes());
        file.extend_from_slice(&1u32.to_le_bytes());
        file.extend_from_slice(&value.to_le_bytes());
    }
    file.extend_from_slice(&0u32.to_le_bytes());
    file.push(0b1010_1010);
    file.push(0);

    let mut decoder = TiffDecoder::try_new(file).unwrap();
    assert!(decoder.decode().is_none());
    assert_eq!(decoder.dimensions(), Some((8, 1)));
}

/// A TIFF file that is one directory, every entry of which holds one number.
fn directory(big: bool, little: bool, entries: &[(u16, u16, u64)]) -> Vec<u8> {
    let mut file = if little { b"II".to_vec() } else { b"MM".to_vec() };
    let mut put = |value: u64, width: usize| {
        if little {
            file.extend_from_slice(&value.to_le_bytes()[..width]);
        } else {
            file.extend_from_slice(&value.to_be_bytes()[8 - width..]);
        }
    };
    let wide = if big { 8 } else { 4 };
    if big {
        put(43, 2);
        put(8, 2);
        put(0, 2);
        put(16, 8);
        put(entries.len() as u64, 8);
    } else {
        put(42, 2);
        put(8, 4);
        put(entries.len() as u64, 2);
    }
    for (tag, kind, value) in entries {
        put(*tag as u64, 2);
        put(*kind as u64, 2);
        put(1, wide);
        let width = match kind {
            1 => 1,
            3 => 2,
            16 => 8,
            _ => 4,
        };
        put(*value, width);
        put(0, wide - width);
    }
    put(0, wide);
    file
}

#[test]
fn chunks_are_counted_as_the_directory_calls_for() {
    const MOST: u64 = u32::MAX as u64;
    for (big, little) in [(false, true), (false, false), (true, true), (true, false)] {
        let strips = |height: u64, rows: u64, samples: u64, planar: u64| {
            chunks_are_countable(&directory(
                big,
                little,
                &[
                    (257, 4, height),
                    (273, 4, 0),
                    (277, 3, samples),
                    (278, 4, rows),
                    (279, 4, 0),
                    (284, 3, planar),
                ],
            ))
        };
        assert!(strips(MOST, 1, 2, 1));
        assert!(!strips(MOST, 1, 2, 2));
        assert!(!strips(MOST, 2, 2, 2));
        assert!(strips(MOST, 3, 2, 2));
        assert!(strips(MOST, 1, 1, 2));
        assert!(strips(65537, 1, 65535, 2));
        assert!(!strips(65538, 1, 65535, 2));
        assert!(strips(MOST, 0, 2, 2));

        let tiles = |samples: u64, across: u64| {
            chunks_are_countable(&directory(
                big,
                little,
                &[
                    (256, 4, MOST),
                    (257, 4, MOST),
                    (277, 3, samples),
                    (284, 1, 2),
                    (322, 4, across),
                    (323, 4, 1),
                    (324, 4, 0),
                    (325, 4, 0),
                ],
            ))
        };
        let fits = |planes: u128| {
            MOST as u128 * MOST as u128 * planes <= usize::MAX as u128
        };
        assert_eq!(tiles(1, 1), fits(1));
        assert_eq!(tiles(2, 1), fits(2));
        assert!(tiles(2, MOST) || usize::MAX as u64 == MOST);

        // Both are listed, so neither is counted.
        assert!(chunks_are_countable(&directory(
            big,
            little,
            &[(257, 4, MOST), (273, 4, 0), (277, 3, 2), (278, 4, 1), (279, 4, 0), (284, 3, 2), (324, 4, 0)],
        )));
        // The lists are of different lengths, so the strips are not counted.
        let mut uneven = directory(
            big,
            little,
            &[(273, 4, 0), (257, 4, MOST), (277, 3, 2), (278, 4, 1), (279, 4, 0), (284, 3, 2)],
        );
        assert!(!chunks_are_countable(&uneven));
        let count = if big { 24 + 4 } else { 10 + 4 };
        uneven[count + if little { 0 } else if big { 7 } else { 3 }] = 2;
        assert!(chunks_are_countable(&uneven));
        let error = TiffDecoder::try_new(uneven).unwrap_err();
        assert!(error.text.starts_with("Unable to create TIFF decoder: "), "{}", error.text);
        // All rows are in one strip.
        assert!(chunks_are_countable(&directory(
            big,
            little,
            &[(257, 4, MOST), (273, 4, 0), (277, 3, 2), (279, 4, 0), (284, 3, 2)],
        )));
    }

    // The last entry with a tag counts, and wide numbers are read.
    let wide = |height: u64| {
        directory(
            true,
            true,
            &[
                (257, 4, 1),
                (273, 4, 0),
                (277, 3, 2),
                (278, 4, 1),
                (279, 4, 0),
                (284, 3, 2),
                (257, 16, height),
            ],
        )
    };
    assert!(!chunks_are_countable(&wide(MOST)));
    assert!(chunks_are_countable(&wide(MOST + 1)));
    assert!(chunks_are_countable(&wide(MOST)[..60]));
    assert!(chunks_are_countable(b""));
    assert!(chunks_are_countable(&tiff_rgb(48, 80, &noise(48 * 80 * 3))));
}

#[test]
fn tiff_headers_are_judged_in_order() {
    let message = |size: Result<(u32, u32), &str>, color: Result<TiffColor, &str>| {
        check_header(size.map_err(String::from), color.map_err(String::from))
            .unwrap_err()
            .text
    };
    assert_eq!(message(Err("x"), Err("y")), "Unable to read dimensions - x");
    assert_eq!(
        message(Ok((10001, 10000)), Err("y")),
        "TIFF dimensions 10001x10000 exceed the 100000000 pixel limit"
    );
    assert_eq!(
        message(Ok((u32::MAX, u32::MAX)), Err("y")),
        "TIFF dimensions 4294967295x4294967295 exceed the 100000000 pixel limit"
    );
    assert_eq!(message(Ok((1, 1)), Err("y")), "Unable to read colorspace - y");
    assert_eq!(
        message(Ok((1, 1)), Ok(TiffColor::Other(String::from("Palette(8)")))),
        "Unsupported TIFF color type: Palette(8)"
    );

    for (color, colorspace) in [
        (TiffColor::RGB, ColorSpace::RGB),
        (TiffColor::RGBA, ColorSpace::RGBA),
        (TiffColor::CMYK, ColorSpace::CMYK),
        (TiffColor::Gray, ColorSpace::Luma),
        (TiffColor::GrayA, ColorSpace::LumaA),
        (TiffColor::YCbCr, ColorSpace::YCbCr),
    ] {
        let header = check_header(Ok((10000, 10000)), Ok(color)).unwrap();
        assert_eq!(header, ((10000, 10000), colorspace));
    }

    let read = image_of((1, 1), ColorSpace::Luma, Err(String::from("z")));
    assert_eq!(read.unwrap_err().text, "Unable to decode TIFF file - z");
    let read = image_of((1, 1), ColorSpace::Luma, Ok(None));
    assert_eq!(read.unwrap_err().text, "Tiff Data format not supported");
}

// --- PNG ---------------------------------------------------------------------

/// The pixels of a PNG, as the main decoder reads them.
fn read_png(file: &[u8]) -> zune_image::image::Image {
    zune_image::image::Image::read(
        zune_core::bytestream::ZCursor::new(file),
        zune_core::options::DecoderOptions::default(),
    )
    .unwrap()
}

#[test]
fn a_png_reads_back() {
    for colorspace in [ColorSpace::RGB, ColorSpace::RGBA] {
        let image = eight(16, 9, colorspace);
        let file = OxiPngEncoder::new().encode(&image).unwrap();
        assert_eq!(png_dimensions(&file), Some((16, 9)));

        let read = read_png(&file);
        assert_eq!(read.dimensions(), (16, 9));
        let Samples::Eight(samples) = &image.frames[0].samples else {
            panic!("eight bits");
        };
        assert_eq!(read.flatten_to_u8()[0], *samples);
    }
}

#[test]
fn deep_samples_are_written_high_byte_first() {
    assert_eq!(
        to_network_bytes(&Samples::Sixteen(vec![0x1234, 0x00ff])),
        vec![0x12, 0x34, 0x00, 0xff]
    );

    let words: Vec<u16> =
        noise(16 * 9 * 6).chunks(2).map(|pair| pair[0] as u16 * 256 + pair[1] as u16).collect();
    let image = Raster::new_still(16, 9, ColorSpace::RGB, Samples::Sixteen(words.clone()));
    let file = OxiPngEncoder::new().encode(&image).unwrap();
    assert_eq!(read_png(&file).flatten_frames::<u16>()[0], words);
}

#[test]
fn interlacing_and_profiles_reach_the_file() {
    let mut image = eight(16, 9, ColorSpace::RGB);
    let encode = |image: &Raster, interlace| {
        OxiPngEncoder::new_with_options(OxiPngOptions { preset: 0, interlace })
            .encode(image)
            .unwrap()
    };
    // The last byte of the header says whether the file is interlaced.
    assert_eq!(encode(&image, None)[28], 0);
    assert_eq!(encode(&image, Some(true))[28], 1);

    let bare = encode(&image, None);
    image.icc = Some(lcms2::Profile::new_srgb().icc().unwrap());
    let with_profile = encode(&image, None);
    assert!(!bare.windows(4).any(|name| name == b"iCCP" || name == b"sRGB"));
    assert!(with_profile.windows(4).any(|name| name == b"iCCP" || name == b"sRGB"));
}

#[test]
fn an_empty_image_is_written_as_any_other() {
    for (width, height) in [(0, 0), (0, 3), (3, 0)] {
        for interlace in [None, Some(false), Some(true)] {
            for preset in [0, 2] {
                let encoder =
                    OxiPngEncoder::new_with_options(OxiPngOptions { preset, interlace });
                let image = eight(width, height, ColorSpace::RGB);
                assert!(encoder.has_room(&image));
                let file = encoder.encode(&image).unwrap();
                assert_eq!(file[16..20], (width as u32).to_be_bytes());
                assert_eq!(file[20..24], (height as u32).to_be_bytes());
            }
        }
    }
    // A row, the pixels, the whole and the profile are bounded.
    let encoder = OxiPngEncoder::new();
    let sized = |width: usize, height: usize, colorspace| {
        let mut image = eight(1, 1, colorspace);
        image.width = width;
        image.height = height;
        encoder.has_room(&image)
    };
    assert!(sized(16777216, 1, ColorSpace::RGBA));
    assert!(!sized(16777217, 1, ColorSpace::RGBA));
    assert!(!sized(60000000, 1, ColorSpace::RGB));
    assert!(sized(32768, 32768, ColorSpace::RGB));
    assert!(!sized(32769, 32768, ColorSpace::RGB));
    assert!(!sized(32768, 32768, ColorSpace::RGBA));
    assert!(sized(1, 1000000000, ColorSpace::Luma));
    assert!(!sized(0, 2000000000, ColorSpace::Luma));
    // What is refused needs no room.
    let mut image = eight(1, 1, ColorSpace::RGB);
    image.frames = Vec::new();
    image.width = usize::MAX;
    assert!(OxiPngEncoder::new().has_room(&image));
    assert!(lossless().has_room(&image));
    let float = Raster::new_still(1, 1, ColorSpace::RGB, Samples::Float32(vec![0; 3]));
    assert!(OxiPngEncoder::new().has_room(&float));
    assert!(!lossless().has_room(&float));
}

#[test]
fn png_refuses_what_it_cannot_write() {
    let error = OxiPngEncoder::new().encode(&eight(2, 2, ColorSpace::CMYK)).unwrap_err();
    assert!(matches!(error.kind, FailureKind::UnsupportedColorspace));
    assert_eq!(
        error.text,
        "Found colorspace CMYK but the encoder supports [Luma, LumaA, RGB, RGBA]"
    );

    let float = Raster::new_still(1, 1, ColorSpace::Luma, Samples::Float32(vec![0]));
    assert_eq!(
        OxiPngEncoder::new().encode(&float).unwrap_err().text,
        "Float32 is not supported for oxipng encoding"
    );

    let mut empty = eight(1, 1, ColorSpace::RGB);
    empty.frames = Vec::new();
    assert_eq!(
        OxiPngEncoder::new().encode(&empty).unwrap_err().text,
        "Cannot encode an image with no frames"
    );

    empty.width = 4294967296;
    assert_eq!(
        OxiPngEncoder::new().encode(&empty).unwrap_err().text,
        "Image could not be encoded, reason: \
         image dimensions 4294967296x1 exceed the PNG u32 limit"
    );
}

#[test]
fn only_the_first_picture_is_written() {
    let mut animated = eight(4, 4, ColorSpace::RGB);
    animated.frames.push(Frame {
        samples: Samples::Eight(vec![0; 48]),
        numerator: 1,
        denominator: 2,
    });
    let still = eight(4, 4, ColorSpace::RGB);
    assert_eq!(
        OxiPngEncoder::new().encode(&animated).unwrap(),
        OxiPngEncoder::new().encode(&still).unwrap()
    );
    assert_eq!(lossless().encode(&animated).unwrap(), lossless().encode(&still).unwrap());
}

#[test]
fn png_encoders_start_with_the_defaults() {
    let encoder = OxiPngEncoder::default();
    assert_eq!(encoder, OxiPngEncoder::new());
    assert_eq!(encoder.options, OxiPngOptions { preset: 2, interlace: Some(false) });
    assert_eq!(encoder.default_depth(BitDepth::Float32), BitDepth::Sixteen);
    assert_eq!(encoder.default_depth(BitDepth::Sixteen), BitDepth::Sixteen);
    assert_eq!(encoder.default_depth(BitDepth::Unknown), BitDepth::Eight);
    assert_eq!(encoder.supported_bit_depth(), vec![BitDepth::Eight, BitDepth::Sixteen]);
    assert_eq!(encoder.supported_colorspaces().len(), 4);
    assert_eq!(encoder.name(), "oxipng");
}

// --- SVG ---------------------------------------------------------------------

#[test]
fn a_render_target_is_bounded() {
    let options = SvgOptions { target_size: None, pixel_budget: Some(5000) };
    assert_eq!(resolve_target_size(&options, (100, 50)).unwrap(), (100, 50));
    assert_eq!(
        resolve_target_size(&options, (100, 51)).unwrap_err().text,
        "rimage-svg-size-limit:100x51:5100:5000: SVG target size 100x51 (5100 pixels) exceeds \
         the limit of 5000 pixels, reduce the --resize target or the intrinsic size"
    );
    assert_eq!(resolve_target_size(&options, (0, 0)).unwrap(), (1, 1));

    let zero = SvgOptions { target_size: Some((0, 7)), pixel_budget: None };
    assert_eq!(
        resolve_target_size(&zero, (100, 50)).unwrap_err().text,
        "Invalid SVG target size 0x7"
    );

    let side = MAX_TARGET_PIXELS as u32;
    let wide = SvgOptions { target_size: Some((side, 1)), pixel_budget: None };
    assert!(resolve_target_size(&wide, (1, 1)).is_ok());
    let wider = SvgOptions { target_size: Some((side + 1, 1)), pixel_budget: None };
    assert!(SvgDecoder::try_new_with_options(&wider, (1, 1)).is_err());
}

#[test]
fn rendered_colours_are_freed_of_alpha() {
    // The renderer's own examples.
    let pixels = vec![2, 3, 5, 40, 10, 20, 30, 255, 153, 99, 54, 180, 0, 0, 0, 0];
    assert_eq!(
        straight_alpha(&pixels),
        vec![13, 19, 32, 40, 10, 20, 30, 255, 217, 140, 77, 180, 0, 0, 0, 0]
    );

    let decoder = SvgDecoder { target: (2, 2) };
    let image = decoder.decode(Some(&pixels)).unwrap();
    assert_eq!((image.width, image.height), (2, 2));
    assert_eq!(image.colorspace, ColorSpace::RGBA);
    assert_eq!(image.frames[0].samples, Samples::Eight(straight_alpha(&pixels)));
    assert_eq!(
        decoder.decode(None).unwrap_err().text,
        "Unable to allocate a 2x2 pixmap for SVG rendering"
    );
    assert_eq!(decoder.dimensions(), Some((2, 2)));
    assert_eq!(decoder.out_colorspace(), ColorSpace::RGBA);
}

#[test]
fn documents_are_judged_by_their_length() {
    assert!(check_document(MAX_SVG_BYTES).is_ok());
    assert_eq!(
        check_document(MAX_SVG_BYTES + 1).unwrap_err().text,
        "SVG input exceeds the 256 MiB read limit"
    );
    assert_eq!(document_failure(true, "oops").text, "Unable to parse SVG - oops");
    assert_eq!(document_failure(false, "oops").text, "Unable to read SVG data - oops");
}

#[test]
fn an_svg_without_a_target_keeps_its_size() {
    assert_eq!(SvgDecoder::try_new((300, 200)).unwrap().target, (300, 200));
    assert!(SvgDecoder::try_new((60_000, 60_000)).is_err());
    assert_eq!(
        SvgDecoder::try_new_with_resize(Ok(Some((30, 20))), (300, 200))
            .unwrap()
            .target,
        (30, 20)
    );
    assert!(SvgDecoder::try_new_with_resize(Ok(Some((0, 20))), (300, 200)).is_err());
}

#[test]
fn a_webp_encoder_keeps_what_became_of_its_configuration() {
    let options = WebPOptions::when_configured(true).unwrap();
    assert_eq!((options.quality, options.near_lossless), (75, 100));
    assert!(!options.lossless && !options.exact);
    assert!(WebPOptions::when_configured(false).is_err());

    assert_eq!(WebPEncoder::with_outcome(Ok(options)).options, Some(options));
    let broken = WebPEncoder::with_outcome(Err(()));
    assert_eq!(broken.options, None);
    let image = Raster::new_still(1, 1, ColorSpace::RGB, Samples::Eight(vec![1, 2, 3]));
    assert!(broken
        .encode(&image)
        .unwrap_err()
        .text
        .contains("libwebp encoder configuration failed to initialize"));
}

#[test]
fn an_image_is_well_formed_when_its_pictures_fill_it() {
    let mut image = eight(3, 2, ColorSpace::RGB);
    assert!(image.is_well_formed());
    image.width = 4;
    assert!(!image.is_well_formed());
    image.width = 3;
    image.depth = BitDepth::Sixteen;
    assert!(!image.is_well_formed());
    image.depth = BitDepth::Eight;
    image.colorspace = ColorSpace::MultiBand(u32::MAX);
    image.width = usize::MAX;
    image.height = usize::MAX;
    assert!(!image.is_well_formed());
    image.frames = Vec::new();
    assert!(image.is_well_formed());
}
