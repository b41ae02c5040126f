//! Colour profiles.

use lcms2::{PixelFormat, Profile, ToneCurve};
use rimage::color::{BitDepth, ColorSpace};
use rimage::error::FailureKind;
use rimage::operations::icc::{
    decide_conversion, destination_colorspace, destination_length, pixel_format,
    profile_signature_for_colorspace, profile_space, ApplyICC, ApplySRGB, ProfileSpace,
};
use rimage::raster::{Raster, Samples};

fn create_test_image_u8(width: usize, height: usize, colorspace: ColorSpace) -> Raster {
    let length = width * height * colorspace.num_components() as usize;
    let samples = (0..length).map(|i| (i * 37 % 256) as u8).collect();
    Raster::new_still(width, height, colorspace, Samples::Eight(samples))
}

fn create_test_image_u16(width: usize, height: usize, colorspace: ColorSpace) -> Raster {
    let length = width * height * colorspace.num_components() as usize;
    let samples = (0..length).map(|i| (i * 4099 % 65536) as u16).collect();
    Raster::new_still(width, height, colorspace, Samples::Sixteen(samples))
}

fn srgb() -> Vec<u8> {
    Profile::new_srgb().icc().unwrap()
}

fn gray() -> Vec<u8> {
    let white_point = lcms2::white_point_from_temp(6504.0).unwrap();
    let curve = ToneCurve::new(2.2);
    Profile::new_gray(&white_point, &curve).unwrap().icc().unwrap()
}

/// A profile without the time at which it was made.
fn timeless(mut icc: Vec<u8>) -> Vec<u8> {
    icc[24..36].fill(0);
    icc
}

fn alpha(image: &Raster) -> Vec<u16> {
    match &image.frames[0].samples {
        Samples::Eight(samples) => samples[3..].iter().step_by(4).map(|a| *a as u16).collect(),
        Samples::Sixteen(samples) => samples[3..].iter().step_by(4).copied().collect(),
        Samples::Float32(_) => panic!("no float samples here"),
    }
}

#[test]
fn apply_icc_profile() {
    let mut image = create_test_image_u8(100, 100, ColorSpace::RGB);
    image.icc = Some(srgb());

    let target_profile = srgb();
    let icc = Profile::new_icc(&target_profile).unwrap().icc().unwrap();

    // Apply ICC profile
    let apply_icc = ApplyICC::new(target_profile).unwrap();
    apply_icc.execute_impl(&mut image).unwrap();

    // Assert ICC profile is set correctly
    let stored = image.icc.unwrap();
    assert_eq!(stored.as_slice(), icc.as_slice());
}

#[test]
fn skip_icc_profile() {
    let mut image = create_test_image_u8(100, 100, ColorSpace::RGB);

    let apply_icc = ApplySRGB;
    let result = apply_icc.execute_impl(&mut image);

    assert!(result.is_ok());
    assert_eq!(image.icc, None);
    assert_eq!(image, create_test_image_u8(100, 100, ColorSpace::RGB));
}

#[test]
fn apply_srgb_profile() {
    let mut image = create_test_image_u8(100, 100, ColorSpace::RGB);
    image.icc = Some(srgb());

    let icc = srgb();

    // Apply ICC profile
    let apply_icc = ApplySRGB;
    apply_icc.execute_impl(&mut image).unwrap();

    // Assert ICC profile is set correctly
    assert_eq!(timeless(image.icc.unwrap()), timeless(icc));
}

#[test]
fn apply_icc_profile_to_u16_without_panicking() {
    let mut image = create_test_image_u16(8, 8, ColorSpace::RGB);
    image.icc = Some(srgb());

    let result = ApplyICC::srgb().execute_impl(&mut image);

    assert!(result.is_ok());
    assert_eq!(image.depth, BitDepth::Sixteen);
    assert_eq!((image.width, image.height), (8, 8));
}

#[test]
fn converts_gray_profile_pixels_to_srgb() {
    let mut image = create_test_image_u8(8, 8, ColorSpace::Luma);
    image.icc = Some(gray());

    ApplySRGB.execute_impl(&mut image).unwrap();

    assert_eq!(image.colorspace, ColorSpace::RGB);
    let Samples::Eight(samples) = &image.frames[0].samples else {
        panic!("the depth stays");
    };
    assert_eq!(samples.len(), 8 * 8 * 3);
    // Grey stays grey.
    assert!(samples.chunks(3).all(|pixel| pixel[0] == pixel[1] && pixel[1] == pixel[2]));
}

#[test]
fn preserves_alpha_when_converting_to_srgb() {
    let mut image = create_test_image_u8(8, 8, ColorSpace::RGBA);
    image.icc = Some(srgb());
    let alpha_before = alpha(&image);

    ApplySRGB.execute_impl(&mut image).unwrap();

    assert_eq!(image.colorspace, ColorSpace::RGBA);
    assert_eq!(alpha(&image), alpha_before);
}

#[test]
fn rejects_profile_and_pixel_layout_mismatch() {
    let mut image = create_test_image_u8(8, 8, ColorSpace::CMYK);
    let icc = srgb();
    image.icc = Some(icc.clone());

    let result = ApplySRGB.execute_impl(&mut image);

    assert!(result.is_err());
    assert_eq!(
        result.unwrap_err().text,
        "ICC profile color space RgbData does not match CMYK pixels"
    );
    assert_eq!(image.icc, Some(icc));
}

#[test]
fn alpha_survives_other_layouts_and_depths() {
    let mut deep = create_test_image_u16(8, 8, ColorSpace::RGBA);
    deep.icc = Some(srgb());
    let before = alpha(&deep);
    ApplySRGB.execute_impl(&mut deep).unwrap();
    assert_eq!(alpha(&deep), before);

    // Alpha comes first in one layout, and last in what it becomes.
    let mut first = create_test_image_u8(8, 8, ColorSpace::ARGB);
    first.icc = Some(srgb());
    let Samples::Eight(samples) = &first.frames[0].samples else {
        panic!("eight bits");
    };
    let before: Vec<u16> = samples.iter().step_by(4).map(|a| *a as u16).collect();
    ApplySRGB.execute_impl(&mut first).unwrap();
    assert_eq!(first.colorspace, ColorSpace::RGBA);
    assert_eq!(alpha(&first), before);
}

#[test]
fn the_same_profile_changes_little() {
    let mut image = create_test_image_u8(8, 8, ColorSpace::RGB);
    image.icc = Some(srgb());
    ApplySRGB.execute_impl(&mut image).unwrap();
    let before = create_test_image_u8(8, 8, ColorSpace::RGB);
    match (&image.frames[0].samples, &before.frames[0].samples) {
        (Samples::Eight(after), Samples::Eight(before)) => {
            assert!(after.iter().zip(before).all(|(a, b)| a.abs_diff(*b) <= 2));
        }
        _ => panic!("the depth stays"),
    }
}

#[test]
fn every_refusal_is_named() {
    let decide = |source: Result<ProfileSpace, String>, colorspace, depth, target| {
        decide_conversion(source, colorspace, depth, &target)
    };
    let text = |source: Result<ProfileSpace, String>, colorspace, depth, target| {
        decide(source, colorspace, depth, target).unwrap_err().text
    };
    let eight = BitDepth::Eight;
    assert_eq!(
        text(Err(String::from("broken")), ColorSpace::RGB, eight, ProfileSpace::Rgb),
        "broken"
    );
    assert_eq!(
        text(Ok(ProfileSpace::Rgb), ColorSpace::MultiBand(5), eight, ProfileSpace::Rgb),
        "ICC profile application does not support MultiBand(5) pixels"
    );
    assert_eq!(
        text(
            Ok(ProfileSpace::Other(String::from("LabData"))),
            ColorSpace::RGB,
            eight,
            ProfileSpace::Rgb
        ),
        "ICC profile color space LabData does not match RGB pixels"
    );
    assert_eq!(
        text(
            Ok(ProfileSpace::Rgb),
            ColorSpace::RGB,
            eight,
            ProfileSpace::Other(String::from("LabData"))
        ),
        "Destination ICC color space LabData is not supported"
    );
    assert_eq!(
        text(Ok(ProfileSpace::Rgb), ColorSpace::RGBA, eight, ProfileSpace::Cmyk),
        "Destination ICC color space cannot preserve the image alpha channel"
    );
    assert_eq!(
        text(Ok(ProfileSpace::Rgb), ColorSpace::RGB, BitDepth::Float32, ProfileSpace::Rgb),
        "ICC profile application does not support RGB at 32-bit"
    );
    assert_eq!(
        decide(Ok(ProfileSpace::Rgb), ColorSpace::BGRA, eight, ProfileSpace::Gray).unwrap(),
        ColorSpace::LumaA
    );
}

#[test]
fn a_broken_profile_is_refused() {
    let error = ApplyICC::new(vec![0; 16]).unwrap_err();
    assert!(matches!(error.kind, FailureKind::Other));
    assert!(error.text.starts_with("Could not create the object."), "{}", error.text);

    let mut image = create_test_image_u8(2, 2, ColorSpace::RGB);
    image.icc = Some(vec![1, 2, 3]);
    let error = ApplySRGB.execute_impl(&mut image).unwrap_err();
    assert!(error.text.starts_with("Could not create the object."), "{}", error.text);
    assert_eq!(image.icc, Some(vec![1, 2, 3]));
}

#[test]
fn sizes_are_bounded() {
    assert_eq!(
        destination_length(8, 8, ColorSpace::RGB, BitDepth::Sixteen).unwrap(),
        8 * 8 * 3 * 2
    );
    assert_eq!(
        destination_length(usize::MAX, 2, ColorSpace::RGB, BitDepth::Eight).unwrap_err().text,
        "ICC pixel count overflow"
    );
    assert_eq!(
        destination_length(65536, 65536, ColorSpace::RGB, BitDepth::Eight).unwrap_err().text,
        "ICC transformation exceeds the LCMS single-operation pixel limit"
    );
}

#[test]
fn layouts_have_the_numbers_of_the_engine() {
    let formats = [
        (ColorSpace::RGB, PixelFormat::RGB_8, PixelFormat::RGB_16),
        (ColorSpace::RGBA, PixelFormat::RGBA_8, PixelFormat::RGBA_16),
        (ColorSpace::BGR, PixelFormat::BGR_8, PixelFormat::BGR_16),
        (ColorSpace::BGRA, PixelFormat::BGRA_8, PixelFormat::BGRA_16),
        (ColorSpace::ARGB, PixelFormat::ARGB_8, PixelFormat::ARGB_16),
        (ColorSpace::Luma, PixelFormat::GRAY_8, PixelFormat::GRAY_16),
        (ColorSpace::LumaA, PixelFormat::GRAYA_8, PixelFormat::GRAYA_16),
        (ColorSpace::CMYK, PixelFormat::CMYK_8, PixelFormat::CMYK_16),
        (ColorSpace::YCbCr, PixelFormat::YCbCr_8, PixelFormat::YCbCr_16),
        (ColorSpace::HSV, PixelFormat::HSV_8, PixelFormat::HSV_16),
    ];
    for (colorspace, eight, sixteen) in formats {
        assert_eq!(pixel_format(colorspace, 8), Some(eight.0), "{colorspace:?}");
        assert_eq!(pixel_format(colorspace, 16), Some(sixteen.0), "{colorspace:?}");
        assert_eq!(pixel_format(colorspace, 32), None);
        assert!(profile_signature_for_colorspace(colorspace).is_some());
        assert!(ApplySRGB.supported_colorspaces().contains(&colorspace));
    }
    assert_eq!(pixel_format(ColorSpace::HSL, 8), None);
    assert_eq!(profile_signature_for_colorspace(ColorSpace::HSL), None);
    assert_eq!(destination_colorspace(&ProfileSpace::Hsv, true), Some(ColorSpace::HSV));
    assert_eq!(ApplySRGB.supported_types(), vec![BitDepth::Eight, BitDepth::Sixteen]);
    assert_eq!(ApplyICC::srgb().name(), "apply icc profile");
    assert_eq!(ApplySRGB.name(), "apply srgb profile");
}

#[test]
fn a_profile_of_unheard_of_colours_is_named() {
    assert_eq!(profile_space(&srgb()), Ok(ProfileSpace::Rgb));
    assert_eq!(profile_space(&gray()), Ok(ProfileSpace::Gray));
    let mut icc = srgb();
    icc[16..20].copy_from_slice(b"Lab ");
    assert_eq!(profile_space(&icc), Ok(ProfileSpace::Other(String::from("LabData"))));
    icc[16..20].copy_from_slice(b"zzzz");
    assert_eq!(profile_space(&icc), Ok(ProfileSpace::Other(String::from("Unknown"))));

    let mut image = create_test_image_u8(2, 2, ColorSpace::RGB);
    image.icc = Some(icc);
    assert_eq!(
        ApplySRGB.execute_impl(&mut image).unwrap_err().text,
        "ICC profile color space Unknown does not match RGB pixels"
    );
}

#[test]
fn an_unknown_depth_matters_only_to_a_conversion() {
    let mut image = create_test_image_u8(2, 2, ColorSpace::RGB);
    image.frames = Vec::new();
    image.depth = BitDepth::Unknown;
    assert_eq!(ApplySRGB.execute_checked(&mut image).map(|result| result.is_ok()), Some(true));
    let to_srgb = ApplyICC::new(srgb()).unwrap();
    assert!(to_srgb.execute_checked(&mut image).is_none());

    image.icc = Some(srgb());
    assert!(ApplySRGB.execute_checked(&mut image).is_none());
    image.colorspace = ColorSpace::CMYK;
    assert_eq!(
        ApplySRGB.execute_checked(&mut image).unwrap().unwrap_err().text,
        "ICC profile color space RgbData does not match CMYK pixels"
    );
    assert_eq!(
        to_srgb.execute_checked(&mut image).unwrap().unwrap_err().text,
        "ICC profile color space RgbData does not match CMYK pixels"
    );

    let mut known = create_test_image_u8(2, 2, ColorSpace::RGB);
    known.icc = Some(srgb());
    assert!(ApplySRGB.execute_checked(&mut known).unwrap().is_ok());
}
