//! Classified failures: what they are called, what they say and what they
//! advise.

use rimage::codecs::svg::{size_limit_error, SIZE_LIMIT_MARKER};
use rimage::error::{
    classify_input, classify_output, clone_image_errors, clone_input, clone_output, human_bytes,
    human_count, input_config_error, input_open_error, input_operation_error, input_size_limit,
    output_encode_error, output_io_error, output_size_limit, Direction, FailureKind, ImageFailure,
    InputError, IoFailure, IoKind, OutputError, RimageError, UnsupportedReason,
};
use rimage::limits::{Binding, ImageFormatId, LimitViolation, ViolationKind};

fn jpeg_path() -> &'static str {
    "/tmp/photo.jpg"
}

fn decode_failure() -> ImageFailure {
    // Mirrors the trailing newline of a decoder's own report.
    ImageFailure::decode(String::from("unexpected end of file\n"))
}

fn failure(kind: FailureKind, text: &str) -> ImageFailure {
    ImageFailure { kind, text: String::from(text) }
}

fn encode_failure(text: &str) -> ImageFailure {
    failure(
        FailureKind::Other,
        &format!("Image could not be encoded, reason: {text}\n\n"),
    )
}

fn resize_failure() -> ImageFailure {
    failure(
        FailureKind::OperationNotImplemented(String::from("resize")),
        "Image operation resize for depth U8  not implemented\n",
    )
}

fn io(kind: IoKind, text: &str) -> IoFailure {
    IoFailure { kind, text: String::from(text) }
}

fn limit_violation() -> LimitViolation {
    LimitViolation {
        kind: ViolationKind::Pixels,
        actual: 4_290_250_000,
        allowed: 1_908_874_353,
        binding: Binding::Memory,
    }
}

#[test]
fn decoder_not_implemented_becomes_an_unsupported_format_input_error() {
    let error = failure(
        FailureKind::DecoderNotImplemented,
        "The decoder to parse Unknown has not been implemented
",
    );

    let classified = classify_input(jpeg_path(), &error, None, false).unwrap();

    assert_eq!(classified.direction(), Direction::Input);
    assert_eq!(classified.kind(), "input.unsupported-format");
    // The format comes from the extension, because the decoder never reported one.
    let message = classified.message();
    assert!(message.contains("jpeg"), "{message}");
    assert!(message.contains("no decoder"), "{message}");
}

#[test]
fn missing_decoder_feature_is_distinguished_from_a_missing_decoder() {
    let error = failure(
        FailureKind::DecoderNotIncluded,
        "The feature required to decode JPEG has not been included\n",
    );

    let classified = classify_input(jpeg_path(), &error, None, false).unwrap();
    let message = classified.message();

    assert!(message.contains("build time"), "{message}");
    assert_eq!(classified.kind(), "input.unsupported-format");
}

#[test]
fn a_resize_refusal_is_an_input_error_not_a_decode_error() {
    let error = resize_failure();

    let classified = classify_input(
        jpeg_path(),
        &error,
        Some(("the result does not fit in 32 bits", (70_000, 70_000))),
        false,
    )
    .unwrap();

    assert_eq!(classified.kind(), "input.invalid-resize");
    let message = classified.message();
    assert!(message.contains("70000x70000"), "{message}");
    assert!(message.contains("32 bits"), "{message}");
}

#[test]
fn a_resize_refusal_without_context_falls_back_to_a_decode_error() {
    // Dropping the caller's context must not lose the error entirely.
    let error = resize_failure();

    let classified = classify_input(jpeg_path(), &error, None, false).unwrap();

    assert_eq!(classified.kind(), "input.decode");
}

#[test]
fn a_generic_decode_failure_names_the_file_and_format() {
    let classified = classify_input(jpeg_path(), &decode_failure(), None, false).unwrap();

    assert_eq!(classified.kind(), "input.decode");
    let message = classified.message();
    assert!(message.contains("photo.jpg"), "{message}");
    assert!(message.contains("jpeg"), "{message}");
    assert!(message.contains("unexpected end of file"), "{message}");
}

#[test]
fn the_message_does_not_end_in_a_stray_newline() {
    // A decoder's report ends in a newline; ours must not inherit it,
    // or every log line gains a blank line after it.
    let classified = classify_input(jpeg_path(), &decode_failure(), None, false).unwrap();

    assert!(!classified.message().ends_with('\n'));
}

#[test]
fn an_unknown_extension_is_reported_as_a_generic_image() {
    let error = decode_failure();
    let classified = classify_input("mystery.qoi", &error, None, false).unwrap();

    assert!(classified.message().contains("image"), "{classified:?}");
}

#[test]
fn classify_output_routes_an_encode_error_with_the_path_extension_format() {
    let error = encode_failure("webp encoding failed");

    // The output path extension is authoritative: the encoder picks it, so the
    // format tag is reliable even though the error value does not carry it.
    let classified = classify_output(jpeg_path(), &error, false).unwrap();

    assert_eq!(classified.direction(), Direction::Output);
    assert_eq!(classified.kind(), "output.encode");
    let message = classified.message();
    assert!(message.contains("photo.jpg"), "{message}");
    assert!(message.contains("jpeg"), "{message}");
    assert!(message.contains("webp encoding failed"), "{message}");
}

#[test]
fn classify_output_routes_an_io_error_to_output_io() {
    let error = failure(
        FailureKind::Io(io(IoKind::StorageFull, "No space left on device")),
        "IO error, No space left on device\n",
    );

    let classified = classify_output(jpeg_path(), &error, false).unwrap();

    assert_eq!(classified.kind(), "output.io");
    assert!(classified.message().contains("photo.jpg"));
}

#[test]
fn output_encode_error_uses_the_encoder_name_for_the_format_tag() {
    let error = encode_failure("encode failed");

    // `mozjpeg` writes `.jpg`, so the format tag is `jpeg` even though the
    // encoder name does not contain "jpeg" literally.
    let classified = output_encode_error(jpeg_path(), "mozjpeg", &error);

    assert_eq!(classified.kind(), "output.encode");
    let message = classified.message();
    assert!(message.contains("jpeg"), "{message}");
    assert!(message.contains("encode failed"), "{message}");
}

#[test]
fn output_io_error_preserves_the_io_kind_for_hint_routing() {
    let error = io(IoKind::PermissionDenied, "denied");

    let classified = output_io_error("readonly/out.png", &error);

    assert_eq!(classified.kind(), "output.io");
    assert_eq!(classified.path(), "readonly/out.png");
    // PermissionDenied errors get a hint, so the user knows what to fix.
    assert!(classified.hint().unwrap().contains("permission"));
}

#[test]
fn output_io_error_without_a_specific_kind_has_no_hint() {
    let error = io(IoKind::Other, "disk on fire");

    let classified = output_io_error("out.png", &error);

    assert_eq!(classified.kind(), "output.io");
    assert!(classified.hint().is_none());
}

#[test]
fn output_io_error_storage_full_has_a_hint() {
    let error = io(IoKind::StorageFull, "disk full");

    let classified = output_io_error("out.png", &error);

    assert_eq!(classified.kind(), "output.io");
    let hint = classified.hint().expect("StorageFull must produce a hint");
    assert!(hint.contains("free up space"), "{hint}");
}

#[test]
fn an_svg_size_limit_marker_becomes_a_structured_size_limit() {
    let path = "poster.svg";
    // Mirrors `codecs::svg::decoder::size_limit_error` shape exactly.
    let error = ImageFailure::decode(format!(
        "{}132778x5000:663890000:268435456: SVG target size 132778x5000 \
         (663890000 pixels) exceeds the limit of 268435456 pixels, reduce the --resize target \
         or the intrinsic size\n",
        SIZE_LIMIT_MARKER
    ));

    let classified = classify_input(path, &error, None, false)
        .expect("SVG marker is a recognised, classified input failure");

    match &classified {
        RimageError::Input(InputError::SizeLimit {
            format,
            dimensions,
            violation,
            ..
        }) => {
            assert_eq!(*format, ImageFormatId::Svg);
            assert_eq!(*dimensions, Some((132_778, 5_000)));
            assert_eq!(violation.kind, ViolationKind::Pixels);
            assert_eq!(violation.actual, 663_890_000);
            assert_eq!(violation.allowed, 268_435_456);
            // The SVG render target is always bounded by the memory budget the
            // pipeline derived, so the violation is honestly labelled `Memory`
            // — never `Format` (SVG has no fixed dimension cap) and never
            // `Disk` (free space is the output volume's job).
            assert_eq!(violation.binding, Binding::Memory);
        }
        other => panic!("expected Input::SizeLimit, got {other:?}"),
    }

    // The marker prefix must not leak into the human-readable text.
    let rendered = classified.message();
    assert!(!rendered.contains(SIZE_LIMIT_MARKER), "{rendered}");
    assert!(classified.kind() == "input.size-limit");
}

#[test]
fn an_svg_decode_error_without_the_marker_still_routes_to_decode() {
    // Without the marker the classifier cannot know the failure is a size
    // limit, so the safer default is to surface the upstream message under
    // `input.decode` rather than guess.
    let path = "poster.svg";
    let error = ImageFailure::decode(String::from("Unable to parse SVG - oops\n"));

    let classified = classify_input(path, &error, None, false).expect("classifies");
    assert!(matches!(
        classified,
        RimageError::Input(InputError::Decode { .. })
    ));
    assert_eq!(classified.kind(), "input.decode");
}

#[test]
fn a_size_limit_violation_explains_which_ceiling_bound() {
    let error = RimageError::Input(InputError::SizeLimit {
        path: String::from("panorama.png"),
        format: ImageFormatId::Png,
        dimensions: Some((65_500, 65_500)),
        violation: limit_violation(),
    });

    let message = error.message();
    assert!(message.contains("too large"), "{message}");
    assert!(message.contains("pixel count"), "{message}");
    assert!(message.contains("65500x65500"), "{message}");
    // The binding is what makes the message actionable: it says *why* this
    // limit and not a format constant.
    assert!(message.contains("available memory budget"), "{message}");
}

#[test]
fn every_violation_kind_is_described() {
    for kind in [ViolationKind::Width, ViolationKind::Height, ViolationKind::Pixels] {
        let error = RimageError::Input(InputError::SizeLimit {
            path: String::from("x.png"),
            format: ImageFormatId::Png,
            dimensions: None,
            violation: LimitViolation {
                kind,
                actual: 200,
                allowed: 100,
                binding: Binding::Format,
            },
        });

        assert!(!error.message().is_empty(), "{kind:?} produced no message");
        assert!(error.hint().is_some(), "{kind:?} produced no hint");
    }
}

#[test]
fn out_of_space_names_both_figures() {
    let error = RimageError::Output(OutputError::OutOfSpace {
        path: String::from("out.png"),
        format: ImageFormatId::Png,
        needed: 3 * 1024 * 1024 * 1024,
        available: 512 * 1024 * 1024,
    });

    let message = error.message();
    assert!(message.contains("3.0 GiB"), "{message}");
    assert!(message.contains("512.0 MiB"), "{message}");

    let hint = error.hint().unwrap();
    assert!(hint.contains("2.5 GiB"), "{hint}");
}

#[test]
fn io_errors_report_the_path_that_failed() {
    let error = RimageError::Output(OutputError::Io {
        path: String::from("readonly/out.png"),
        cause: io(IoKind::PermissionDenied, "access denied"),
    });

    assert_eq!(error.direction(), Direction::Output);
    assert_eq!(error.path(), "readonly/out.png");
    assert!(error.message().contains("readonly/out.png"));
    assert!(error.hint().unwrap().contains("permission"));
}

#[test]
fn a_missing_input_points_at_the_path() {
    let error = RimageError::Input(InputError::Open {
        path: String::from("gone.jpg"),
        cause: io(IoKind::NotFound, "no such file"),
    });

    assert_eq!(error.direction(), Direction::Input);
    assert!(error.hint().unwrap().contains("exists"));
}

#[test]
fn err_kinds_are_unique_per_variant() {
    let errors = [
        RimageError::Input(InputError::Open {
            path: String::from("a"),
            cause: io(IoKind::Other, "x"),
        }),
        RimageError::Input(InputError::Decode {
            path: String::from("a"),
            format: ImageFormatId::Png,
            cause: decode_failure(),
        }),
        RimageError::Input(InputError::UnsupportedFormat {
            path: String::from("a"),
            format: ImageFormatId::Png,
            reason: UnsupportedReason::NotImplemented,
        }),
        RimageError::Input(InputError::SizeLimit {
            path: String::from("a"),
            format: ImageFormatId::Png,
            dimensions: None,
            violation: limit_violation(),
        }),
        RimageError::Input(InputError::InvalidResize {
            requested: (1, 1),
            reason: "x",
        }),
        RimageError::Output(OutputError::Io {
            path: String::from("a"),
            cause: io(IoKind::Other, "x"),
        }),
        RimageError::Output(OutputError::Encode {
            path: String::from("a"),
            format: ImageFormatId::Png,
            cause: decode_failure(),
        }),
        RimageError::Output(OutputError::SizeLimit {
            path: String::from("a"),
            format: ImageFormatId::Png,
            violation: limit_violation(),
        }),
        RimageError::Output(OutputError::OutOfSpace {
            path: String::from("a"),
            format: ImageFormatId::Png,
            needed: 1,
            available: 0,
        }),
    ];

    let mut kinds: Vec<&str> = errors.iter().map(|e| e.kind()).collect();
    let total = kinds.len();
    kinds.sort_unstable();
    kinds.dedup();
    assert_eq!(kinds.len(), total, "kind slugs collide");
}

#[test]
fn source_preserves_the_upstream_error() {
    let error = RimageError::Input(InputError::Decode {
        path: String::from(jpeg_path()),
        format: ImageFormatId::Jpeg,
        cause: decode_failure(),
    });

    // The wrapper has to keep the original reachable, or callers that matched
    // on the upstream error lose their ability to do so.
    assert!(error.source().is_some());

    // Errors with no underlying OS or decoder cause report none.
    let error = RimageError::Output(OutputError::OutOfSpace {
        path: String::from("a"),
        format: ImageFormatId::Png,
        needed: 1,
        available: 0,
    });
    assert!(error.source().is_none());
}

#[test]
fn display_matches_what_displaying_the_inner_variants_produces() {
    let error = InputError::Decode {
        path: String::from(jpeg_path()),
        format: ImageFormatId::Jpeg,
        cause: decode_failure(),
    };

    assert_eq!(error.message(), RimageError::Input(clone_input(&error)).message());
}

#[test]
fn hints_are_absent_when_there_is_nothing_actionable() {
    let error = RimageError::Output(OutputError::Io {
        path: String::from("out.png"),
        cause: io(IoKind::Other, "disk on fire"),
    });

    assert!(error.hint().is_none());
}

#[test]
fn human_bytes_uses_binary_units() {
    assert_eq!(human_bytes(0), "0 B");
    assert_eq!(human_bytes(1023), "1023 B");
    assert_eq!(human_bytes(1024), "1.0 KiB");
    assert_eq!(human_bytes(1536), "1.5 KiB");
    assert_eq!(human_bytes(1024 * 1024), "1.0 MiB");
    assert_eq!(human_bytes(1024 * 1024 * 1024), "1.0 GiB");
}

#[test]
fn human_count_switches_to_words_for_large_values() {
    assert_eq!(human_count(999), "999");
    assert_eq!(human_count(1_500_000), "1.5 million");
    assert_eq!(human_count(4_290_250_000), "4.3 billion");
}

#[test]
fn a_size_limit_constructor_names_the_path_and_format() {
    let error = input_size_limit(
        jpeg_path(),
        ImageFormatId::Jpeg,
        Some((65_500, 65_500)),
        limit_violation(),
    );

    assert_eq!(error.direction(), Direction::Input);
    assert_eq!(error.kind(), "input.size-limit");
    assert_eq!(error.path(), jpeg_path());

    let text = error.message();
    assert!(text.contains("too large"), "unexpected message: {text}");
    assert!(text.contains("65500x65500"), "unexpected message: {text}");
}

#[test]
fn an_output_size_limit_constructor_reports_the_output_side() {
    let error = output_size_limit(jpeg_path(), ImageFormatId::Jpeg, limit_violation());

    assert_eq!(error.direction(), Direction::Output);
    assert_eq!(error.kind(), "output.size-limit");
}

#[test]
fn every_error_renders_its_hint_on_a_following_line() {
    // The hint is separate from the message line so a log capture can grep one
    // line per failure and still show the advice.
    let error = input_size_limit(
        jpeg_path(),
        ImageFormatId::Jpeg,
        Some((65_500, 65_500)),
        limit_violation(),
    );

    let hint = error.hint().expect("a size violation always suggests a fix");
    assert!(
        hint.contains("shrink"),
        "hint should name the action: {hint}"
    );
    // The message itself must not already contain the hint, or `log` would
    // print the advice twice.
    assert!(
        !error.message().contains(&hint),
        "the hint must not be duplicated in the message"
    );
}

#[test]
fn an_error_without_a_hint_still_formats() {
    let error = RimageError::Output(OutputError::Io {
        path: String::from("out.png"),
        cause: io(IoKind::Other, "disk on fire"),
    });

    assert!(error.hint().is_none());
    assert_eq!(error.kind(), "output.io");
}

/// One decimal, as formatting a floating-point quotient to one decimal gives.
#[test]
fn human_figures_agree_with_floating_point_formatting() {
    let units = [("KiB", 1024f64), ("MiB", 1048576.0), ("GiB", 1073741824.0)];
    for (unit, size) in units {
        for bytes in [1.0f64, 1.04, 1.05, 1.15, 1.25, 1.35, 2.5, 99.95, 512.45, 1000.0] {
            let value = (bytes * size) as u64;
            let expected = format!("{:.1} {unit}", value as f64 / size);
            assert_eq!(human_bytes(value), expected, "{value}");
        }
    }
    for count in [1_000_000u64, 1_049_999, 1_050_000, 1_150_000, 1_250_000, 999_949_999] {
        assert_eq!(human_count(count), format!("{:.1} million", count as f64 / 1e6), "{count}");
    }
    for count in [1_000_000_000u64, 1_050_000_000, 2_250_000_000, u64::MAX] {
        assert_eq!(human_count(count), format!("{:.1} billion", count as f64 / 1e9), "{count}");
    }
}

/// What the decoder writes, the classifier reads back.
#[test]
fn a_refused_render_target_keeps_its_numbers() {
    let failure = size_limit_error(300, 200, 60000, 50000);
    let classified = classify_input("a.svgz", &failure, None, false).unwrap();
    match classified {
        RimageError::Input(InputError::SizeLimit { dimensions, violation, .. }) => {
            assert_eq!(dimensions, Some((300, 200)));
            assert_eq!((violation.actual, violation.allowed), (60000, 50000));
        }
        other => panic!("got {other:?}"),
    }
    // Under another extension the text stays a text.
    let classified = classify_input("a.png", &failure, None, false).unwrap();
    assert_eq!(classified.kind(), "input.decode");
}

#[test]
fn a_copy_says_what_the_original_says() {
    let input = InputError::Decode {
        path: String::from("a.png"),
        format: ImageFormatId::Png,
        cause: decode_failure(),
    };
    assert_eq!(clone_input(&input).message(), input.message());

    let output = OutputError::Encode {
        path: String::from("a.png"),
        format: ImageFormatId::Png,
        cause: encode_failure("x"),
    };
    assert_eq!(clone_output(&output).message(), output.message());
}

#[test]
fn a_kept_failure_loses_its_trailing_newlines() {
    assert_eq!(clone_image_errors(&decode_failure()).text, "unexpected end of file");
    let fixed = failure(FailureKind::Fixed, "fixed\n");
    assert_eq!(clone_image_errors(&fixed).text, "fixed\n");
}

#[test]
fn configuration_and_operation_failures_are_input_errors() {
    let other = failure(FailureKind::Other, "Encoder \"gif\" not found\n");
    let error = input_config_error("a.png", "gif", &other);
    assert_eq!(error.kind(), "input.configuration");
    assert_eq!(error.direction(), Direction::Input);
    assert!(error.message().contains("Encoder \"gif\" not found"));

    let error = input_operation_error("a.png", &other, false);
    assert_eq!(error.direction(), Direction::Input);

    let error = input_open_error("gone.png", &io(IoKind::NotFound, "no such file"));
    assert_eq!(error.kind(), "input.open");
}

#[test]
fn log_lines_name_the_kind_and_hints_follow() {
    let error = input_size_limit(jpeg_path(), ImageFormatId::Jpeg, None, limit_violation());
    assert!(error.log_line().contains("input.size-limit"), "{}", error.log_line());
    let hint = error.hint_line().unwrap();
    assert!(hint.contains(&error.hint().unwrap()), "{hint}");

    let error = output_io_error("out.png", &io(IoKind::Other, "disk on fire"));
    assert_eq!(error.hint_line(), None);
}
