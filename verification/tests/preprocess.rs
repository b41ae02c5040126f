//! What the preprocessing arguments do to an image of a given size.

use rimage::cli::preprocess::{
    first_other_index, operations, resize_plan, svg_target_size, AlphaState, Operation,
    PreprocessArgs, ResizeFilter,
};
use rimage::cli::resize::{ResizeValue, Single};
use rimage::error::ImageFailure;

fn value(text: &str) -> ResizeValue {
    let number = ResizeValue::number_text(text)
        .and_then(|part| part.parse::<f32>().ok())
        .map(|number| Single::from_bits(number.to_bits()));
    ResizeValue::from_str(text, number).unwrap()
}

/// The arguments of a command line: values and flags by their positions. Both
/// directions of resizing are on unless they are switched off.
fn arguments(args: &[&str]) -> PreprocessArgs {
    let mut parsed = PreprocessArgs {
        resize: Vec::new(),
        quantization: Vec::new(),
        premultiply: Vec::new(),
        dithering: None,
        filter: None,
        downscale: true,
        no_downscale: false,
        upscale: true,
        no_upscale: false,
    };
    let mut at = 0;
    while at < args.len() {
        match args[at] {
            "--resize" => {
                at += 1;
                parsed.resize.push((at + 1, value(args[at])));
            }
            "--quantization" => {
                at += 1;
                parsed.quantization.push((at + 1, args[at].parse().unwrap()));
            }
            "--dithering" => {
                at += 1;
                parsed.dithering = Some(args[at].parse().unwrap());
            }
            "--filter" => {
                at += 1;
                parsed.filter = Some(match args[at] {
                    "nearest" => ResizeFilter::Nearest,
                    "box" => ResizeFilter::Box,
                    other => panic!("unknown filter {other}"),
                });
            }
            "--premultiply" => parsed.premultiply.push((at + 1, true)),
            "--no-upscale" | "--reduce-only" => parsed.no_upscale = true,
            "--no-downscale" | "--enlarge-only" => parsed.no_downscale = true,
            other => panic!("unknown argument {other}"),
        }
        at += 1;
    }
    if parsed.premultiply.is_empty() {
        // A flag that was not given comes as a trailing `false`.
        parsed.premultiply.push((args.len() + 1, false));
    }
    parsed
}

/// How many resize operations are queued for an image of the given size, next
/// to the size it ends up with.
fn run(args: &[&str], width: usize, height: usize) -> (usize, (usize, usize)) {
    let mut queued = 0;
    let mut size = (width, height);
    for operation in operations(&arguments(args), (width, height), false).values() {
        if let Operation::Resize(width, height, _) = operation {
            queued += 1;
            size = (*width, *height);
        }
    }
    (queued, size)
}

/// The render target of an SVG of 100 by 50 pixels.
fn target_size(args: &[&str]) -> Result<Option<(u32, u32)>, ImageFailure> {
    svg_target_size(&arguments(args), (100, 50))
}

#[test]
fn longest_side_anchors_per_orientation() {
    assert_eq!(run(&["--resize", "1000l"], 2000, 1000), (1, (1000, 500)));
    assert_eq!(run(&["--resize", "1000l"], 1000, 2000), (1, (500, 1000)));
    assert_eq!(run(&["--resize", "1000l"], 1600, 1600), (1, (1000, 1000)));
}

#[test]
fn shortest_side_anchors_per_orientation() {
    assert_eq!(run(&["--resize", "500s"], 2000, 1000), (1, (1000, 500)));
    assert_eq!(run(&["--resize", "500s"], 1000, 2000), (1, (500, 1000)));
    assert_eq!(run(&["--resize", "500s"], 1600, 1600), (1, (500, 500)));
}

#[test]
fn side_value_is_skipped_when_the_image_already_fits_exactly() {
    assert_eq!(run(&["--resize", "1000l"], 1000, 500), (0, (1000, 500)));
    assert_eq!(run(&["--resize", "500s"], 1000, 500), (0, (1000, 500)));
}

#[test]
fn no_upscale_leaves_smaller_images_untouched() {
    // The whole point of the flag pair: images already under the target
    // keep their original size instead of being blown up to it.
    assert_eq!(
        run(&["--resize", "1000l", "--no-upscale"], 800, 400),
        (0, (800, 400))
    );

    assert_eq!(
        run(&["--resize", "500s", "--no-upscale"], 800, 400),
        (0, (800, 400))
    );
}

#[test]
fn no_upscale_still_shrinks_larger_images() {
    assert_eq!(
        run(&["--resize", "1000l", "--no-upscale"], 4000, 2000),
        (1, (1000, 500))
    );

    assert_eq!(
        run(&["--resize", "1000l", "--no-upscale"], 2000, 4000),
        (1, (500, 1000))
    );
}

#[test]
fn no_downscale_leaves_larger_images_untouched() {
    assert_eq!(
        run(&["--resize", "1000l", "--no-downscale"], 4000, 2000),
        (0, (4000, 2000))
    );

    assert_eq!(
        run(&["--resize", "500s", "--no-downscale"], 4000, 2000),
        (0, (4000, 2000))
    );
}

#[test]
fn no_downscale_still_enlarges_smaller_images() {
    assert_eq!(
        run(&["--resize", "1000l", "--no-downscale"], 800, 400),
        (1, (1000, 500))
    );

    assert_eq!(
        run(&["--resize", "1000l", "--no-downscale"], 400, 800),
        (1, (500, 1000))
    );
}

#[test]
fn a_mixed_batch_ends_up_with_a_consistent_longest_side() {
    // This is the case `100w` cannot express: with a fixed width anchor the
    // portrait images below would come out far taller than the landscape
    // ones are wide.
    for (width, height) in [(4000, 3000), (3000, 4000), (2000, 2000), (1200, 900)] {
        let (_, (new_width, new_height)) = run(&["--resize", "1000l"], width, height);

        assert_eq!(
            new_width.max(new_height),
            1000,
            "{width}x{height} gave {new_width}x{new_height}"
        );
    }
}

#[test]
fn a_mixed_batch_ends_up_with_a_consistent_shortest_side() {
    for (width, height) in [(4000, 3000), (3000, 4000), (2000, 2000), (1200, 900)] {
        let (_, (new_width, new_height)) = run(&["--resize", "500s"], width, height);

        assert_eq!(
            new_width.min(new_height),
            500,
            "{width}x{height} gave {new_width}x{new_height}"
        );
    }
}

#[test]
fn shrink_only_batch_touches_only_oversized_images() {
    // 1000l with --no-upscale is the shrink only mode from the feature
    // request: everything ends up at or below 1000px, and anything that was
    // already small keeps its exact original size.
    let batch = [
        ((4000, 3000), (1000, 750)),
        ((3000, 4000), (750, 1000)),
        ((800, 600), (800, 600)),
        ((1000, 1000), (1000, 1000)),
    ];

    for ((width, height), expected) in batch {
        let (_, dimensions) = run(&["--resize", "1000l", "--no-upscale"], width, height);

        assert_eq!(dimensions, expected, "failed on {width}x{height}");
    }
}

#[test]
fn reduce_only_is_an_alias_for_no_upscale() {
    for (width, height) in [(4000, 2000), (800, 400), (1000, 500)] {
        assert_eq!(
            run(&["--resize", "1000l", "--reduce-only"], width, height),
            run(&["--resize", "1000l", "--no-upscale"], width, height),
            "--reduce-only diverged from --no-upscale on {width}x{height}"
        );
    }
}

#[test]
fn enlarge_only_is_an_alias_for_no_downscale() {
    for (width, height) in [(4000, 2000), (800, 400), (1000, 500)] {
        assert_eq!(
            run(&["--resize", "1000l", "--enlarge-only"], width, height),
            run(&["--resize", "1000l", "--no-downscale"], width, height),
            "--enlarge-only diverged from --no-downscale on {width}x{height}"
        );
    }
}

#[test]
fn reduce_only_and_enlarge_only_pick_the_direction_their_names_promise() {
    // Guards against the aliases being wired to the opposite flag, which is
    // the whole risk of naming a double negative.
    assert_eq!(
        run(&["--resize", "1000l", "--reduce-only"], 4000, 2000),
        (1, (1000, 500))
    );
    assert_eq!(
        run(&["--resize", "1000l", "--reduce-only"], 800, 400),
        (0, (800, 400))
    );

    assert_eq!(
        run(&["--resize", "1000l", "--enlarge-only"], 800, 400),
        (1, (1000, 500))
    );
    assert_eq!(
        run(&["--resize", "1000l", "--enlarge-only"], 4000, 2000),
        (0, (4000, 2000))
    );
}

#[test]
fn width_anchor_with_reduce_caps_the_width_only() {
    // Capping one dimension however long the other one is does not need a
    // side value at all, the existing width anchor already covers it. The
    // height follows the aspect ratio, and images at or under the cap keep
    // their original size.
    assert_eq!(
        run(&["--resize", "400w", "--reduce-only"], 200, 100),
        (0, (200, 100))
    );
    assert_eq!(
        run(&["--resize", "400w", "--reduce-only"], 400, 2000),
        (0, (400, 2000))
    );
    assert_eq!(
        run(&["--resize", "400w", "--reduce-only"], 800, 900),
        (1, (400, 450))
    );
}

#[test]
fn disabling_both_directions_skips_every_resize() {
    // Neither flag wins over the other, they both apply, which leaves no
    // direction to resize in. The order they are passed does not matter.
    for args in [
        ["--resize", "1000l", "--no-upscale", "--no-downscale"],
        ["--resize", "1000l", "--no-downscale", "--no-upscale"],
        ["--resize", "1000l", "--reduce-only", "--enlarge-only"],
    ] {
        assert_eq!(run(&args, 4000, 2000), (0, (4000, 2000)));
        assert_eq!(run(&args, 800, 400), (0, (800, 400)));
        assert_eq!(run(&args, 1000, 500), (0, (1000, 500)));
    }
}

#[test]
fn chained_resize_values_compose() {
    // Each value maps the size the previous resize left behind, so the
    // chain applies in order instead of every value mapping the source.
    assert_eq!(
        run(&["--resize", "100x400", "--resize", "200s"], 800, 400),
        (2, (200, 800))
    );

    assert_eq!(
        run(&["--resize", "1000l", "--resize", "50%"], 800, 400),
        (2, (500, 250))
    );

    // The first resize already lands on the target the second one maps to,
    // so the second is skipped as "already fits" instead of running twice.
    assert_eq!(
        run(&["--resize", "1000l", "--resize", "500s"], 800, 400),
        (1, (1000, 500))
    );

    // A skipped resize leaves the current size unchanged, so the next value
    // maps the size the resize actually ran on.
    assert_eq!(
        run(
            &["--resize", "2000l", "--resize", "50%", "--no-upscale"],
            800,
            400
        ),
        (1, (400, 200))
    );
}

#[test]
fn side_values_compose_with_the_filter_flag() {
    assert_eq!(
        run(&["--resize", "1000l", "--filter", "nearest"], 2000, 1000),
        (1, (1000, 500))
    );
}

#[test]
fn skip_resize_skips_only_leading_svg_steps() {
    let parsed = arguments(&["--resize", "@2", "--quantization", "80", "--resize", "50%"]);

    let ops = operations(&parsed, (200, 100), true);

    let resize_indices: Vec<usize> = ops
        .iter()
        .filter(|(_, op)| matches!(op, Operation::Resize(_, _, _)))
        .map(|(idx, _)| *idx)
        .collect();

    let expected: Vec<usize> = parsed.resize.iter().map(|(idx, _)| *idx).skip(1).collect();
    assert_eq!(resize_indices, expected);
}

#[test]
fn multiplier_uses_vector_render_target() {
    assert_eq!(target_size(&["--resize", "@2"]).unwrap(), Some((200, 100)));
}

#[test]
fn chained_resize_composes_for_svg() {
    assert_eq!(
        target_size(&["--resize", "@2", "--resize", "50%"]).unwrap(),
        Some((100, 50))
    );
}

#[test]
fn intrinsic_size_returns_no_target() {
    assert_eq!(target_size(&["--resize", "100x50"]).unwrap(), None);
}

#[test]
fn no_upscale_skips_growth_for_svg() {
    assert_eq!(
        target_size(&["--resize", "200l", "--no-upscale"]).unwrap(),
        None
    );
}

#[test]
fn resize_after_quantization_is_not_preapplied() {
    assert_eq!(
        target_size(&["--quantization", "80", "--resize", "64x64"]).unwrap(),
        None
    );
}

#[test]
fn premultiply_before_resize_is_not_preapplied() {
    assert_eq!(
        target_size(&["--premultiply", "--resize", "64x64"]).unwrap(),
        None
    );
}

#[test]
fn longest_side_upscales_svg_vectorly() {
    assert_eq!(
        target_size(&["--resize", "200l"]).unwrap(),
        Some((200, 100))
    );
}

#[test]
fn filter_is_accepted_but_ignored_for_svg_vector_resize() {
    assert_eq!(
        target_size(&["--resize", "@2", "--filter", "nearest"]).unwrap(),
        Some((200, 100))
    );
}

#[test]
fn oversized_dimensions_are_rejected() {
    assert!(target_size(&["--resize", "4294967396x4294967396"]).is_err());
}

#[test]
fn an_oversized_target_names_its_side() {
    let error = target_size(&["--resize", "4294967396x10"]).unwrap_err();
    assert_eq!(
        error.text,
        "SVG target width 4294967396 exceeds the maximum supported dimension of 4294967295"
    );
    let error = target_size(&["--resize", "10x4294967396"]).unwrap_err();
    assert_eq!(
        error.text,
        "SVG target height 4294967396 exceeds the maximum supported dimension of 4294967295"
    );
}

#[test]
fn a_premultiply_flag_surrounds_the_operation_after_it() {
    let parsed = arguments(&["--premultiply", "--resize", "64x64"]);
    assert_eq!(first_other_index(&parsed), 1);

    let ops = operations(&parsed, (200, 100), false);
    assert_eq!(ops.len(), 3);
    assert_eq!(
        ops[&1],
        Operation::PremultiplyAlpha(AlphaState::PreMultiplied)
    );
    assert_eq!(ops[&3], Operation::Resize(64, 64, ResizeFilter::Lanczos3));
    assert_eq!(
        ops[&4],
        Operation::PremultiplyAlpha(AlphaState::NonPreMultiplied)
    );
}

#[test]
fn a_premultiply_flag_without_an_operation_is_ignored() {
    assert!(operations(&arguments(&["--premultiply"]), (200, 100), false).is_empty());
    assert!(operations(&arguments(&[]), (200, 100), false).is_empty());
}

#[test]
fn an_occupied_position_is_not_overwritten() {
    let mut parsed = arguments(&["--premultiply", "--resize", "64x64"]);
    parsed.quantization.push((4, 80));

    let ops = operations(&parsed, (200, 100), false);
    assert_eq!(ops[&4], Operation::Quantize(80, None));
    assert_eq!(ops[&1], Operation::PremultiplyAlpha(AlphaState::PreMultiplied));
}

#[test]
fn quantization_carries_the_dithering_strength() {
    let ops = operations(
        &arguments(&["--quantization", "80", "--dithering", "25"]),
        (200, 100),
        false,
    );
    assert_eq!(ops.len(), 1);
    assert_eq!(ops[&2], Operation::Quantize(80, Some(25)));
}

#[test]
fn a_plan_skips_what_goes_the_wrong_way() {
    let values = vec![(2, value("200x200")), (4, value("50x50")), (6, value("50x50"))];
    assert_eq!(
        resize_plan(&values, (100, 100), true, true),
        vec![(2, (200, 200)), (4, (50, 50))]
    );
    assert_eq!(resize_plan(&values, (100, 100), true, false), vec![(4, (50, 50))]);
    assert_eq!(resize_plan(&values, (100, 100), false, true), vec![(2, (200, 200))]);
    assert_eq!(resize_plan(&values, (100, 100), false, false), vec![]);
}

#[test]
fn a_resize_carries_its_filter() {
    let step = |args: &[&str]| operations(&arguments(args), (100, 50), false)[&2];
    assert_eq!(step(&["--resize", "@2"]), Operation::Resize(200, 100, ResizeFilter::Lanczos3));
    assert_eq!(
        step(&["--resize", "@2", "--filter", "nearest"]),
        Operation::Resize(200, 100, ResizeFilter::Nearest)
    );
    assert_eq!(
        step(&["--resize", "10x10", "--filter", "box"]),
        Operation::Resize(10, 10, ResizeFilter::Box)
    );
}
