//! Worker counts and the text below the options.

use rimage::cli::help::{after_help, Features};
use rimage::cli::threads::{clamp, requested};

/// The machine's own parallelism is accepted unchanged, so a request the
/// host can actually honour is never silently reduced.
#[test]
fn the_machines_own_parallelism_survives() {
    for machine in [1, 4, 64] {
        assert_eq!(clamp(machine, machine), machine);
    }
}

/// Anything above it collapses onto it. This is the whole point of the
/// clamp: an oversized `-t` must not divide the memory budget further.
#[test]
fn an_over_large_request_falls_back_to_the_machine() {
    for machine in [1, 4, 64] {
        assert_eq!(clamp(machine + 1, machine), machine);
        assert_eq!(clamp(usize::MAX, machine), machine);
    }
}

/// The lower bound holds even though the parser rejects `0` already: this
/// number divides the memory budget, and a zero divisor is not a value the
/// rest of the pipeline should have to defend against.
#[test]
fn the_request_is_never_below_one() {
    for machine in [1, 4, 64] {
        assert_eq!(clamp(0, machine), 1);
        assert_eq!(clamp(1, machine), 1);
    }
}

#[test]
fn a_missing_or_zero_flag_asks_for_one_worker() {
    assert_eq!(requested(None), 1);
    assert_eq!(requested(Some(0)), 1);
    assert_eq!(requested(Some(7)), 7);
}

fn features(present: bool) -> Features {
    Features {
        avif: present,
        mozjpeg: present,
        oxipng: present,
        svg: present,
        tiff: present,
        webp: present,
        resize: present,
        quantization: present,
    }
}

#[test]
fn the_help_lists_what_the_build_has() {
    let full = after_help(features(true));
    let bare = after_help(features(false));

    for name in ["| avif", "| mozjpeg", "| oxipng", "| svg", "| tiff", "| webp", "- Resize"] {
        assert!(full.contains(name), "{name}");
        assert!(!bare.contains(name), "{name}");
    }
    for name in ["| bmp", "| jpeg ", "| png", "| qoi", "- Alpha premultiply"] {
        assert!(full.contains(name), "{name}");
        assert!(bare.contains(name), "{name}");
    }
    assert!(bare.starts_with(
        "\nList of supported codecs\n\
         | Image Format  | Input | Output | Note              |\n\
         | ------------- | ----- | ------ | ----------------- |\n\
         | bmp           | O     | X      |                   |\n"
    ));
    assert!(bare.ends_with(
        "\nList of supported preprocessing options\n\
         - Alpha premultiply\n\
         \nList of supported mode for output info presenting\n\
         - No-progress (Shown on Default)\n\
         - Quiet (Show all msgs on Default)\n"
    ));
}
