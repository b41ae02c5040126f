//! Resize values: their spellings, and the sizes they lead to.

use rimage::cli::resize::{scale_side, ResizeError, ResizeValue, Single};

fn single(number: f32) -> Single {
    Single::from_bits(number.to_bits())
}

fn multiplier(number: f32) -> ResizeValue {
    ResizeValue::Multiplier(single(number))
}

fn percentage(number: f32) -> ResizeValue {
    ResizeValue::Percentage(single(number))
}

/// Parses a value the way the command line does: the part that is a number is
/// read first.
fn parse(text: &str) -> Result<ResizeValue, ResizeError> {
    let number = ResizeValue::number_text(text)
        .and_then(|part| part.parse::<f32>().ok())
        .map(single);
    ResizeValue::from_str(text, number)
}

/// Writes a value the way the command line does.
fn shown(value: &ResizeValue) -> String {
    match value {
        ResizeValue::Multiplier(number) | ResizeValue::Percentage(number) => {
            value.display(&f32::from_bits(number.bits).to_string())
        }
        _ => value.display(""),
    }
}

#[test]
fn display() {
    assert_eq!(shown(&multiplier(2.)), "@2");
    assert_eq!(shown(&multiplier(1.5)), "@1.5");

    assert_eq!(shown(&percentage(200.)), "200%");
    assert_eq!(shown(&percentage(150.)), "150%");

    assert_eq!(
        shown(&ResizeValue::Dimensions(Some(200), Some(200))),
        "200x200"
    );
    assert_eq!(
        shown(&ResizeValue::Dimensions(Some(150), Some(150))),
        "150x150"
    );

    assert_eq!(shown(&ResizeValue::Dimensions(None, Some(200))), "200h");
    assert_eq!(shown(&ResizeValue::Dimensions(None, Some(150))), "150h");

    assert_eq!(shown(&ResizeValue::Dimensions(Some(200), None)), "200w");
    assert_eq!(shown(&ResizeValue::Dimensions(Some(150), None)), "150w");

    assert_eq!(shown(&ResizeValue::Dimensions(None, None)), "base");

    assert_eq!(shown(&ResizeValue::LongestSide(200)), "200l");
    assert_eq!(shown(&ResizeValue::LongestSide(150)), "150l");

    assert_eq!(shown(&ResizeValue::ShortestSide(200)), "200s");
    assert_eq!(shown(&ResizeValue::ShortestSide(150)), "150s");
}

#[test]
fn from_str() {
    assert_eq!(
        parse("@2").unwrap(),
        multiplier(2.)
    );

    assert_eq!(
        parse("@1.5").unwrap(),
        multiplier(1.5)
    );

    assert_eq!(
        parse("200%").unwrap(),
        percentage(200.)
    );

    assert_eq!(
        parse("150%").unwrap(),
        percentage(150.)
    );

    assert_eq!(
        parse("200x200").unwrap(),
        ResizeValue::Dimensions(Some(200), Some(200))
    );

    assert_eq!(
        parse("150x150").unwrap(),
        ResizeValue::Dimensions(Some(150), Some(150))
    );

    assert_eq!(
        parse("200w").unwrap(),
        ResizeValue::Dimensions(Some(200), None)
    );

    assert_eq!(
        parse("150w").unwrap(),
        ResizeValue::Dimensions(Some(150), None)
    );

    assert_eq!(
        parse("200h").unwrap(),
        ResizeValue::Dimensions(None, Some(200))
    );

    assert_eq!(
        parse("150h").unwrap(),
        ResizeValue::Dimensions(None, Some(150))
    );

    assert_eq!(
        parse("200 w").unwrap(),
        ResizeValue::Dimensions(Some(200), None)
    );

    assert_eq!(
        parse("150 w").unwrap(),
        ResizeValue::Dimensions(Some(150), None)
    );

    assert_eq!(
        parse("h200").unwrap(),
        ResizeValue::Dimensions(None, Some(200))
    );

    assert_eq!(
        parse("h150").unwrap(),
        ResizeValue::Dimensions(None, Some(150))
    );

    assert_eq!(
        parse("200l").unwrap(),
        ResizeValue::LongestSide(200)
    );

    assert_eq!(
        parse("150l").unwrap(),
        ResizeValue::LongestSide(150)
    );

    assert_eq!(
        parse("200s").unwrap(),
        ResizeValue::ShortestSide(200)
    );

    assert_eq!(
        parse("150s").unwrap(),
        ResizeValue::ShortestSide(150)
    );

    assert!(parse("_x_").is_err());
    assert!(parse("150wh").is_err());
}

#[test]
fn from_str_side_accepts_same_shapes_as_width_and_height() {
    // Whatever spelling works for `100w` should work for the side values too.
    for value in ["200l", "200 l", "l200", "200L", "200 L", "L200"] {
        assert_eq!(
            parse(value).unwrap(),
            ResizeValue::LongestSide(200),
            "failed to parse {value}"
        );
    }

    for value in ["200s", "200 s", "s200", "200S", "200 S", "S200"] {
        assert_eq!(
            parse(value).unwrap(),
            ResizeValue::ShortestSide(200),
            "failed to parse {value}"
        );
    }
}

#[test]
fn from_str_width_height_accept_marker_on_either_end() {
    for value in ["200w", "200 w", "w200", "200W", "200 W", "W200"] {
        assert_eq!(
            parse(value).unwrap(),
            ResizeValue::Dimensions(Some(200), None),
            "failed to parse {value}"
        );
    }

    for value in ["200h", "200 h", "h200", "200H", "200 H", "H200"] {
        assert_eq!(
            parse(value).unwrap(),
            ResizeValue::Dimensions(None, Some(200)),
            "failed to parse {value}"
        );
    }
}

#[test]
fn from_str_rejects_zero_length() {
    assert!(parse("0w").is_err());
    assert!(parse("0h").is_err());
    assert!(parse("0l").is_err());
    assert!(parse("0s").is_err());
}

#[test]
fn from_str_rejects_anything_around_the_digits() {
    // Taking the first run of digits out of the value would turn `1.5w`
    // into a single pixel image instead of an error.
    for value in [
        "1.5l", "1.5s", "200l300", "200s300", "abc200l", "200sfoo", "2 0 0 l", "200.l",
        "200lol", "l200l", "1.5w", "1.5h", "abc100w", "100w200", "w=100", "100h50", "100h200",
        "h=100", "100w100", "2 0 0 w", "200.h", "w200w", "200ww",
    ] {
        assert!(
            parse(value).is_err(),
            "{value} should not parse"
        );
    }
}

#[test]
fn from_str_rejects_missing_length() {
    assert!(parse("w").is_err());
    assert!(parse("h").is_err());
    assert!(parse("l").is_err());
    assert!(parse("s").is_err());
}

#[test]
fn from_str_rejects_multiple_anchors() {
    for value in [
        "150ls", "150wl", "150ws", "150hl", "150hs", "150wh", "150lw", "150sh",
    ] {
        assert!(
            parse(value).is_err(),
            "{value} should not parse"
        );
    }
}

#[test]
fn from_str_still_accepts_values_without_anchors() {
    // The anchor check runs before every dimension branch, so make sure it
    // does not reject the values that carry no anchor marker at all.
    assert_eq!(
        parse("100x100").unwrap(),
        ResizeValue::Dimensions(Some(100), Some(100))
    );

    assert_eq!(
        parse("@2").unwrap(),
        multiplier(2.)
    );

    assert_eq!(
        parse("150%").unwrap(),
        percentage(150.)
    );
}

#[test]
fn display_round_trips_through_from_str() {
    for value in [
        multiplier(1.5),
        percentage(150.),
        ResizeValue::Dimensions(Some(100), Some(200)),
        ResizeValue::Dimensions(Some(100), None),
        ResizeValue::Dimensions(None, Some(200)),
        ResizeValue::LongestSide(1000),
        ResizeValue::ShortestSide(1000),
    ] {
        assert_eq!(
            parse(&shown(&value)).unwrap(),
            value,
            "{value:?} did not round trip"
        );
    }
}

#[test]
fn map_dimensions_longest_side() {
    let resize_value = ResizeValue::LongestSide(100);

    // Landscape anchors on the width, portrait on the height, and the
    // result has the same longest side either way.
    assert_eq!(resize_value.map_dimensions(1000, 500), (100, 50));
    assert_eq!(resize_value.map_dimensions(500, 1000), (50, 100));
    assert_eq!(resize_value.map_dimensions(800, 800), (100, 100));
}

#[test]
fn map_dimensions_shortest_side() {
    let resize_value = ResizeValue::ShortestSide(100);

    assert_eq!(resize_value.map_dimensions(1000, 500), (200, 100));
    assert_eq!(resize_value.map_dimensions(500, 1000), (100, 200));
    assert_eq!(resize_value.map_dimensions(800, 800), (100, 100));
}

#[test]
fn map_dimensions_side_upscales() {
    assert_eq!(
        ResizeValue::LongestSide(1000).map_dimensions(100, 50),
        (1000, 500)
    );

    assert_eq!(
        ResizeValue::ShortestSide(1000).map_dimensions(100, 50),
        (2000, 1000)
    );
}

#[test]
fn map_dimensions_side_is_a_noop_when_the_image_already_fits() {
    // The pipeline skips the resize when the mapped size equals the source,
    // so this is what makes an already correct image untouched.
    assert_eq!(
        ResizeValue::LongestSide(1000).map_dimensions(1000, 500),
        (1000, 500)
    );

    assert_eq!(
        ResizeValue::ShortestSide(500).map_dimensions(1000, 500),
        (1000, 500)
    );

    assert_eq!(
        ResizeValue::LongestSide(800).map_dimensions(800, 800),
        (800, 800)
    );
}

#[test]
fn map_dimensions_side_never_returns_zero() {
    // Extreme aspect ratios truncate the derived side to zero, which the
    // resize operation rejects outright.
    assert_eq!(
        ResizeValue::LongestSide(10).map_dimensions(1000, 3),
        (10, 1)
    );
    assert_eq!(
        ResizeValue::LongestSide(10).map_dimensions(3, 1000),
        (1, 10)
    );
    assert_eq!(
        ResizeValue::LongestSide(1).map_dimensions(1000, 1000),
        (1, 1)
    );
}

#[test]
fn map_dimensions_side_preserves_aspect_ratio() {
    for (width, height) in [(1920, 1080), (1080, 1920), (640, 640), (3000, 2000)] {
        for side in [50, 100, 512, 4000] {
            for value in [
                ResizeValue::LongestSide(side),
                ResizeValue::ShortestSide(side),
            ] {
                let (new_width, new_height) = value.map_dimensions(width, height);

                let source_ratio = width as f32 / height as f32;
                let result_ratio = new_width as f32 / new_height as f32;

                // Truncation moves the derived side by at most a pixel, so
                // compare with a tolerance scaled to the smaller result.
                let tolerance = source_ratio / new_width.min(new_height) as f32;

                assert!(
                    (source_ratio - result_ratio).abs() <= tolerance,
                    "{value:?} on {width}x{height} gave {new_width}x{new_height}"
                );
            }
        }
    }
}

#[test]
fn map_dimensions_side_anchors_the_expected_side() {
    for (width, height) in [(1920, 1080), (1080, 1920), (640, 640), (3000, 2000)] {
        let (new_width, new_height) =
            ResizeValue::LongestSide(512).map_dimensions(width, height);
        assert_eq!(new_width.max(new_height), 512);

        let (new_width, new_height) =
            ResizeValue::ShortestSide(512).map_dimensions(width, height);
        assert_eq!(new_width.min(new_height), 512);
    }
}

#[test]
fn map_dimensions_side_leaves_degenerate_images_alone() {
    assert_eq!(
        ResizeValue::LongestSide(100).map_dimensions(0, 500),
        (0, 500)
    );
    assert_eq!(
        ResizeValue::ShortestSide(100).map_dimensions(500, 0),
        (500, 0)
    );
    assert_eq!(ResizeValue::LongestSide(100).map_dimensions(0, 0), (0, 0));
}

#[test]
fn map_dimensions_multiplier() {
    let resize_value = multiplier(2.0);
    assert_eq!(resize_value.map_dimensions(100, 200), (200, 400));
}

#[test]
fn map_dimensions_percentage() {
    let resize_value = percentage(50.0);
    assert_eq!(resize_value.map_dimensions(100, 200), (50, 100));
}

#[test]
fn map_dimensions_dimensions() {
    let resize_value = ResizeValue::Dimensions(Some(300), Some(600));
    assert_eq!(resize_value.map_dimensions(100, 200), (300, 600));
}

#[test]
fn map_dimensions_dimensions_with_width() {
    let resize_value = ResizeValue::Dimensions(Some(300), None);
    assert_eq!(resize_value.map_dimensions(100, 200), (300, 600));
}

#[test]
fn map_dimensions_dimensions_with_height() {
    let resize_value = ResizeValue::Dimensions(None, Some(600));
    assert_eq!(resize_value.map_dimensions(100, 200), (300, 600));
}

#[test]
fn map_dimensions_dimensions_with_none() {
    let resize_value = ResizeValue::Dimensions(None, None);
    assert_eq!(resize_value.map_dimensions(100, 200), (100, 200));
}

/// The sizes are those of single-precision arithmetic, rounding included.
#[test]
fn sizes_agree_with_single_precision_arithmetic() {
    let sides = [1usize, 2, 3, 7, 48, 80, 333, 1000, 4095, 16383, 16777217, 123456789];
    let numbers = [0.0f32, 0.1, 0.333, 0.5, 1.0, 1.1, 1.5, 2.0, 3.7, 99.99, 1e-30, 1e30];

    for width in sides {
        for height in sides {
            for number in numbers {
                assert_eq!(
                    multiplier(number).map_dimensions(width, height),
                    ((width as f32 * number) as usize, (height as f32 * number) as usize),
                    "@{number} on {width}x{height}"
                );
                assert_eq!(
                    percentage(number).map_dimensions(width, height),
                    (
                        (width as f32 * (number / 100.)) as usize,
                        (height as f32 * (number / 100.)) as usize
                    ),
                    "{number}% on {width}x{height}"
                );
            }
            for side in sides {
                let ratio = width as f32 / height as f32;
                assert_eq!(
                    ResizeValue::Dimensions(Some(side), None).map_dimensions(width, height),
                    (side, (side as f32 / ratio) as usize),
                    "{side}w on {width}x{height}"
                );
                assert_eq!(
                    ResizeValue::Dimensions(None, Some(side)).map_dimensions(width, height),
                    ((side as f32 * ratio) as usize, side),
                    "{side}h on {width}x{height}"
                );
                assert_eq!(
                    scale_side(width, height, side, true),
                    (side, ((side as f32 * height as f32 / width as f32) as usize).max(1)),
                    "{side} for the width of {width}x{height}"
                );
                assert_eq!(
                    scale_side(width, height, side, false),
                    (((side as f32 * width as f32 / height as f32) as usize).max(1), side),
                    "{side} for the height of {width}x{height}"
                );
            }
        }
    }
}

#[test]
fn numbers_that_are_no_size_give_no_pixels() {
    for number in [f32::NAN, -1.0, f32::NEG_INFINITY, -0.0] {
        assert_eq!(multiplier(number).map_dimensions(100, 200), (0, 0));
    }
    assert_eq!(
        multiplier(f32::INFINITY).map_dimensions(100, 200),
        (usize::MAX, usize::MAX)
    );
}

#[test]
fn errors_say_what_is_wrong() {
    assert_eq!(parse("0w").unwrap_err().message(), "Length should be greater than 0");
    assert_eq!(parse("100").unwrap_err().message(), "Invalid resize value");
    assert_eq!(parse("x5").unwrap_err().message(), "cannot parse integer from empty string");
    assert_eq!(parse("5xq").unwrap_err().message(), "invalid digit found in string");
    assert_eq!(
        parse("99999999999999999999999x5").unwrap_err().message(),
        "number too large to fit in target type"
    );
    assert_eq!(parse("@").unwrap_err().message(), "cannot parse float from empty string");
    assert_eq!(parse("@q").unwrap_err().message(), "invalid float literal");
    assert_eq!(parse("1x2x3").unwrap_err().message(), "There is more that 2 dimensions");
    assert_eq!(
        parse("150wh").unwrap_err().message(),
        "Resize value can be anchored to only one of width, height, longest or shortest side"
    );
}

#[test]
fn a_longest_side_is_met() {
    for (width, height) in [(8991, 8991), (30000, 29999), (16_777_217, 16_777_216), (3, 70000)] {
        for side in [1, 1867, 65_535, 4_194_303] {
            let (new_width, new_height) =
                ResizeValue::LongestSide(side).map_dimensions(width, height);
            assert_eq!(new_width.max(new_height), side);
        }
    }
    // Far past that, rounding may add a pixel.
    assert_eq!(
        ResizeValue::LongestSide(15_091_879).map_dimensions(1209, 1209),
        (15_091_879, 15_091_880)
    );
}

#[test]
fn a_shortest_side_is_met() {
    for (width, height) in [(4096, 4096), (4000, 3999), (1, 16_000)] {
        for side in [1, 13, 1000] {
            let (new_width, new_height) =
                ResizeValue::ShortestSide(side).map_dimensions(width, height);
            assert_eq!(new_width.min(new_height), side);
        }
    }
    // An image that is not square meets longer sides too.
    for (width, height) in [(8991, 8990), (100_001, 100_000), (3_999_999, 4_000_000)] {
        for side in [1867, 65_535, 1_000_003, 16_777_215] {
            let (new_width, new_height) =
                ResizeValue::ShortestSide(side).map_dimensions(width, height);
            assert_eq!(new_width.min(new_height), side);
        }
    }
    // Past what single precision holds exactly, a square may lose a pixel.
    assert_eq!(
        ResizeValue::ShortestSide(1867).map_dimensions(8991, 8991),
        (1867, 1866)
    );
}

#[test]
fn the_derived_side_keeps_the_ratio() {
    for (width, height) in [(1920, 1080), (4000, 3000), (7, 5)] {
        for side in [1, 50, 512, 4000] {
            let (new_width, new_height) =
                ResizeValue::LongestSide(side).map_dimensions(width, height);
            assert_eq!(new_width, side);
            let exact = side * height;
            assert!(new_height * width + width > exact);
            assert!(new_height == 1 || new_height * width < exact + width);
        }
    }
}

#[test]
fn a_length_is_digits_alone() {
    for value in ["+200w", "w+200", "+200h", "+200l", "s+200", "-1w"] {
        assert_eq!(parse(value), Err(ResizeError::Invalid), "{value}");
    }
    assert_eq!(parse("200w").unwrap(), ResizeValue::Dimensions(Some(200), None));
}

#[test]
fn case_and_outer_white_space_do_not_matter() {
    for value in [
        multiplier(1.5),
        percentage(150.),
        ResizeValue::Dimensions(Some(100), Some(200)),
        ResizeValue::Dimensions(Some(100), None),
        ResizeValue::Dimensions(None, Some(200)),
        ResizeValue::LongestSide(1000),
        ResizeValue::ShortestSide(1000),
    ] {
        let typed = format!(" \t{}\u{a0}\n", shown(&value).to_uppercase());
        assert_eq!(parse(&typed).unwrap(), value, "{typed:?}");
    }
}
