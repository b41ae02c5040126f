//! Structured, side-tagged errors for the decode and encode pipeline.
//!
//! A failure to read a truncated input and a failure to write to a full disk
//! need different messages, hints and exit codes, so every failure is tagged
//! with the side it happened on and with the format it concerns.
//!
//! Output failures are classified by the extension of the output path, which
//! is authoritative there: the encoder chooses it.

use vstd::prelude::*;

use crate::codecs::svg::parse_size_limit;
use crate::limits::{Binding, ImageFormatId, LimitViolation, ViolationKind};
use crate::path::extension_of;
use crate::rounding::{divide_half_even, quotient_tenths, round_to_double, DOUBLE};
use crate::text::{decimal, decimal_text, push_decimal, same_text, trim_end, trimmed_end};

verus! {

/// Which side of the pipeline a failure happened on.
#[derive(Debug, Clone, Copy, PartialEq, Eq, Structural)]
pub enum Direction {
    /// Reading, parsing or validating an existing file.
    Input,
    /// Materialising data, encoding, or writing a new file.
    Output,
}

impl Direction {
    /// Human-readable direction, used in messages.
    pub fn as_str(self) -> (text: &'static str)
        ensures
            text@ == (match self {
                Direction::Input => "input"@,
                Direction::Output => "output"@,
            }),
    {
        match self {
            Direction::Input => "input",
            Direction::Output => "output",
        }
    }

    /// The verb the pipeline was performing when this direction failed.
    pub fn verb(self) -> (text: &'static str)
        ensures
            text@ == (match self {
                Direction::Input => "reading"@,
                Direction::Output => "writing"@,
            }),
    {
        match self {
            Direction::Input => "reading",
            Direction::Output => "writing",
        }
    }
}

/// The input and output failures that have advice of their own.
#[derive(Debug, Clone, Copy, PartialEq, Eq, Structural)]
pub enum IoKind {
    /// The file does not exist.
    NotFound,
    /// The file may not be read or written.
    PermissionDenied,
    /// The volume is full.
    StorageFull,
    /// Anything else.
    Other,
}

/// An input or output failure: its kind, and what it says of itself.
#[derive(Debug)]
pub struct IoFailure {
    /// What went wrong.
    pub kind: IoKind,
    /// The text of the failure.
    pub text: String,
}

/// What the classifier needs to know of a decoder's or an encoder's failure.
#[derive(Debug)]
pub enum FailureKind {
    /// A decoder refused the contents of a file.
    Decode,
    /// The format is known but no decoder for it exists.
    DecoderNotImplemented,
    /// The decoder for the format was not built in.
    DecoderNotIncluded,
    /// An operation does not support the image; its name.
    OperationNotImplemented(String),
    /// An encoder does not accept the colour space of the image.
    UnsupportedColorspace,
    /// Reading or writing failed.
    Io(IoFailure),
    /// A fixed message.
    Fixed,
    /// Anything else.
    Other,
}

/// A decoder's or an encoder's failure: its kind, and what it says of itself.
/// The text may end in line breaks.
#[derive(Debug)]
pub struct ImageFailure {
    /// What went wrong.
    pub kind: FailureKind,
    /// The text of the failure.
    pub text: String,
}

/// An [`IoFailure`] by its contents.
pub struct IoView {
    /// What went wrong.
    pub kind: IoKind,
    /// The text of the failure.
    pub text: Seq<char>,
}

/// A [`FailureKind`] by its contents.
pub enum KindView {
    /// See [`FailureKind::Decode`].
    Decode,
    /// See [`FailureKind::DecoderNotImplemented`].
    DecoderNotImplemented,
    /// See [`FailureKind::DecoderNotIncluded`].
    DecoderNotIncluded,
    /// See [`FailureKind::OperationNotImplemented`].
    OperationNotImplemented(Seq<char>),
    /// See [`FailureKind::UnsupportedColorspace`].
    UnsupportedColorspace,
    /// See [`FailureKind::Io`].
    Io(IoView),
    /// See [`FailureKind::Fixed`].
    Fixed,
    /// See [`FailureKind::Other`].
    Other,
}

/// An [`ImageFailure`] by its contents.
pub struct FailureView {
    /// What went wrong.
    pub kind: KindView,
    /// The text of the failure.
    pub text: Seq<char>,
}

impl View for IoFailure {
    type V = IoView;

    open spec fn view(&self) -> IoView {
        IoView { kind: self.kind, text: self.text@ }
    }
}

impl View for FailureKind {
    type V = KindView;

    open spec fn view(&self) -> KindView {
        match self {
            FailureKind::Decode => KindView::Decode,
            FailureKind::DecoderNotImplemented => KindView::DecoderNotImplemented,
            FailureKind::DecoderNotIncluded => KindView::DecoderNotIncluded,
            FailureKind::OperationNotImplemented(name) => KindView::OperationNotImplemented(name@),
            FailureKind::UnsupportedColorspace => KindView::UnsupportedColorspace,
            FailureKind::Io(failure) => KindView::Io(failure@),
            FailureKind::Fixed => KindView::Fixed,
            FailureKind::Other => KindView::Other,
        }
    }
}

impl View for ImageFailure {
    type V = FailureView;

    open spec fn view(&self) -> FailureView {
        FailureView { kind: self.kind@, text: self.text@ }
    }
}

/// What is kept of a failure: a fixed message as it is, anything else as its
/// text without trailing white space.
pub open spec fn kept(failure: FailureView) -> FailureView {
    if failure.kind is Fixed {
        failure
    } else {
        FailureView { kind: KindView::Other, text: crate::text::trimmed_end(failure.text) }
    }
}

impl IoFailure {
    /// Another failure with the same kind and text.
    pub fn copied(&self) -> (copy: IoFailure)
        ensures
            copy@ == self@,
    {
        IoFailure { kind: self.kind, text: self.text.as_str().to_owned() }
    }
}

impl ImageFailure {
    /// Whether a decoder refused the contents of a file.
    pub open spec fn is_decode(self) -> bool {
        self.kind is Decode
    }

    /// A decoder's failure with this message.
    pub fn decode(text: String) -> (failure: ImageFailure)
        ensures
            failure.is_decode(),
            failure.text == text,
    {
        ImageFailure { kind: FailureKind::Decode, text }
    }

    /// A failure of no particular kind with this message.
    pub fn other(text: String) -> (failure: ImageFailure)
        ensures
            failure.kind is Other,
            failure.text == text,
    {
        ImageFailure { kind: FailureKind::Other, text }
    }
}

/// Keeps a failure by its text; a line of a log has to stay one line.
pub fn clone_image_errors(error: &ImageFailure) -> (copy: ImageFailure)
    ensures
        copy@ == kept(error@),
{
    match error.kind {
        FailureKind::Fixed => ImageFailure {
            kind: FailureKind::Fixed,
            text: error.text.as_str().to_owned(),
        },
        _ => ImageFailure {
            kind: FailureKind::Other,
            text: trim_end(error.text.as_str()).to_owned(),
        },
    }
}

/// Why a format could not be handed to a decoder.
#[derive(Debug, Clone, Copy, PartialEq, Eq, Structural)]
pub enum UnsupportedReason {
    /// The required decoder was not enabled when this binary was built.
    FeatureNotEnabled,
    /// No decoder exists for this format in this program.
    NotImplemented,
}

impl UnsupportedReason {
    /// What a reader is told about each reason.
    pub open spec fn description(self) -> Seq<char> {
        match self {
            UnsupportedReason::FeatureNotEnabled => "its decoder was not enabled at build time"@,
            UnsupportedReason::NotImplemented => "no decoder for this format is implemented"@,
        }
    }

    /// Human-readable explanation, used in messages and hints.
    pub fn as_str(self) -> (text: &'static str)
        ensures
            text@ == self.description(),
    {
        match self {
            UnsupportedReason::FeatureNotEnabled => "its decoder was not enabled at build time",
            UnsupportedReason::NotImplemented => "no decoder for this format is implemented",
        }
    }
}

/// What went wrong with a file we were reading.
#[derive(Debug)]
#[non_exhaustive]
#[allow(inconsistent_fields)]
pub enum InputError {
    /// The file could not be opened, or its bytes could not be read.
    Open {
        /// The file we were trying to open.
        path: String,
        /// Why the open failed.
        cause: IoFailure,
    },
    /// The contents could not be decoded into pixels.
    Decode {
        /// The file we were trying to decode.
        path: String,
        /// The format we identified, from the extension.
        format: ImageFormatId,
        /// The decoder's own report.
        cause: ImageFailure,
    },
    /// The format has no decoder in this program, or none in this build.
    UnsupportedFormat {
        /// The file we were asked to read.
        path: String,
        /// The format we identified.
        format: ImageFormatId,
        /// Whether the decoder is missing from the build or absent entirely.
        reason: UnsupportedReason,
    },
    /// The image is larger than this machine or this format can handle.
    SizeLimit {
        /// The file we were asked to read.
        path: String,
        /// The format we identified.
        format: ImageFormatId,
        /// The dimensions, when the header could be read.
        dimensions: Option<(u64, u64)>,
        /// Which ceiling was exceeded, and by how much.
        violation: LimitViolation,
    },
    /// A resize value cannot be represented by the resize operation.
    InvalidResize {
        /// The dimensions that were requested or computed.
        requested: (u64, u64),
        /// Why they are unusable.
        reason: &'static str,
    },
    /// The encoder for the requested output format could not be configured.
    Configuration {
        /// The file being processed.
        path: String,
        /// The output format that was being set up.
        format: ImageFormatId,
        /// The encoder's own report.
        cause: ImageFailure,
    },
}

/// What went wrong with a file we were writing.
#[derive(Debug)]
#[non_exhaustive]
#[allow(inconsistent_fields)]
pub enum OutputError {
    /// Creating, writing to, or renaming the output file failed.
    Io {
        /// The file we were trying to write.
        path: String,
        /// Why the write failed.
        cause: IoFailure,
    },
    /// The encoder for the requested output format failed.
    Encode {
        /// The intended destination.
        path: String,
        /// The format we were asked to produce.
        format: ImageFormatId,
        /// The encoder's own report.
        cause: ImageFailure,
    },
    /// An image cannot be produced at the requested size.
    SizeLimit {
        /// The intended destination.
        path: String,
        /// The output format.
        format: ImageFormatId,
        /// Which ceiling was exceeded, and by how much.
        violation: LimitViolation,
    },
    /// There is not enough room on the destination volume.
    OutOfSpace {
        /// The intended destination.
        path: String,
        /// The format we were asked to produce.
        format: ImageFormatId,
        /// Bytes the encoded image is estimated to need.
        needed: u64,
        /// Bytes the volume has room for.
        available: u64,
    },
}

/// A failure anywhere in the pipeline, tagged with the side it happened on.
#[derive(Debug)]
pub enum RimageError {
    /// A file could not be read, parsed, or accepted.
    Input(InputError),
    /// A result could not be produced or written.
    Output(OutputError),
}

/// An [`InputError`] by its contents.
#[allow(inconsistent_fields)]
pub enum InputView {
    /// See [`InputError::Open`].
    Open { path: Seq<char>, cause: IoView },
    /// See [`InputError::Decode`].
    Decode { path: Seq<char>, format: ImageFormatId, cause: FailureView },
    /// See [`InputError::UnsupportedFormat`].
    UnsupportedFormat { path: Seq<char>, format: ImageFormatId, reason: UnsupportedReason },
    /// See [`InputError::SizeLimit`].
    SizeLimit {
        path: Seq<char>,
        format: ImageFormatId,
        dimensions: Option<(u64, u64)>,
        violation: LimitViolation,
    },
    /// See [`InputError::InvalidResize`].
    InvalidResize { requested: (u64, u64), reason: Seq<char> },
    /// See [`InputError::Configuration`].
    Configuration { path: Seq<char>, format: ImageFormatId, cause: FailureView },
}

/// An [`OutputError`] by its contents.
#[allow(inconsistent_fields)]
pub enum OutputView {
    /// See [`OutputError::Io`].
    Io { path: Seq<char>, cause: IoView },
    /// See [`OutputError::Encode`].
    Encode { path: Seq<char>, format: ImageFormatId, cause: FailureView },
    /// See [`OutputError::SizeLimit`].
    SizeLimit { path: Seq<char>, format: ImageFormatId, violation: LimitViolation },
    /// See [`OutputError::OutOfSpace`].
    OutOfSpace { path: Seq<char>, format: ImageFormatId, needed: u64, available: u64 },
}

/// A [`RimageError`] by its contents.
pub enum ErrorView {
    /// See [`RimageError::Input`].
    Input(InputView),
    /// See [`RimageError::Output`].
    Output(OutputView),
}

impl View for InputError {
    type V = InputView;

    open spec fn view(&self) -> InputView {
        match self {
            InputError::Open { path, cause } => InputView::Open { path: path@, cause: cause@ },
            InputError::Decode { path, format, cause } => InputView::Decode {
                path: path@,
                format: *format,
                cause: cause@,
            },
            InputError::UnsupportedFormat { path, format, reason } =>
                InputView::UnsupportedFormat { path: path@, format: *format, reason: *reason },
            InputError::SizeLimit { path, format, dimensions, violation } => InputView::SizeLimit {
                path: path@,
                format: *format,
                dimensions: *dimensions,
                violation: *violation,
            },
            InputError::InvalidResize { requested, reason } => InputView::InvalidResize {
                requested: *requested,
                reason: reason@,
            },
            InputError::Configuration { path, format, cause } => InputView::Configuration {
                path: path@,
                format: *format,
                cause: cause@,
            },
        }
    }
}

impl View for OutputError {
    type V = OutputView;

    open spec fn view(&self) -> OutputView {
        match self {
            OutputError::Io { path, cause } => OutputView::Io { path: path@, cause: cause@ },
            OutputError::Encode { path, format, cause } => OutputView::Encode {
                path: path@,
                format: *format,
                cause: cause@,
            },
            OutputError::SizeLimit { path, format, violation } => OutputView::SizeLimit {
                path: path@,
                format: *format,
                violation: *violation,
            },
            OutputError::OutOfSpace { path, format, needed, available } => OutputView::OutOfSpace {
                path: path@,
                format: *format,
                needed: *needed,
                available: *available,
            },
        }
    }
}

impl View for RimageError {
    type V = ErrorView;

    open spec fn view(&self) -> ErrorView {
        match self {
            RimageError::Input(error) => ErrorView::Input(error@),
            RimageError::Output(error) => ErrorView::Output(error@),
        }
    }
}

// --- Numbers for readers -----------------------------------------------------
/// Tenths as a number with one decimal.
pub open spec fn one_decimal(tenths: nat) -> Seq<char> {
    decimal(tenths / 10) + "."@ + decimal(tenths % 10)
}

/// A byte count in the largest binary unit up to PiB that it reaches, with one
/// decimal. The count is first taken in double precision.
pub open spec fn bytes_text(bytes: nat) -> Seq<char> {
    let value = crate::rounding::to_precision(bytes, DOUBLE as nat);
    if value >= 0x4_0000_0000_0000 {
        one_decimal(crate::rounding::half_even(10 * value, 0x4_0000_0000_0000)) + " PiB"@
    } else if value >= 0x100_0000_0000 {
        one_decimal(crate::rounding::half_even(10 * value, 0x100_0000_0000)) + " TiB"@
    } else if value >= 0x4000_0000 {
        one_decimal(crate::rounding::half_even(10 * value, 0x4000_0000)) + " GiB"@
    } else if value >= 0x10_0000 {
        one_decimal(crate::rounding::half_even(10 * value, 0x10_0000)) + " MiB"@
    } else if value >= 0x400 {
        one_decimal(crate::rounding::half_even(10 * value, 0x400)) + " KiB"@
    } else {
        decimal(bytes) + " B"@
    }
}

/// A count in words from a million on, with one decimal of the
/// double-precision quotient.
pub open spec fn count_text(count: nat) -> Seq<char> {
    let value = crate::rounding::to_precision(count, DOUBLE as nat);
    if count >= 1_000_000_000 {
        one_decimal(
            crate::rounding::tenths(
                crate::rounding::nearest(value, 1_000_000_000, 0, DOUBLE as nat),
            ),
        ) + " billion"@
    } else if count >= 1_000_000 {
        one_decimal(
            crate::rounding::tenths(
                crate::rounding::nearest(value, 1_000_000, 0, DOUBLE as nat),
            ),
        ) + " million"@
    } else {
        decimal(count)
    }
}

fn one_decimal_text(tenths: u128) -> (text: String)
    ensures
        text@ == one_decimal(tenths as nat),
{
    let mut text = decimal_text(tenths / 10);
    text.append(".");
    push_decimal(&mut text, tenths % 10);
    text
}

/// Render a byte count with a binary unit suffix.
pub fn human_bytes(bytes: u64) -> (text: String)
    ensures
        text@ == bytes_text(bytes as nat),
{
    let value: u128 = round_to_double(bytes);
    if value >= 0x4_0000_0000_0000 {
        let mut text = one_decimal_text(divide_half_even(10 * value, 0x4_0000_0000_0000));
        text.append(" PiB");
        text
    } else if value >= 0x100_0000_0000 {
        let mut text = one_decimal_text(divide_half_even(10 * value, 0x100_0000_0000));
        text.append(" TiB");
        text
    } else if value >= 0x4000_0000 {
        let mut text = one_decimal_text(divide_half_even(10 * value, 0x4000_0000));
        text.append(" GiB");
        text
    } else if value >= 0x10_0000 {
        let mut text = one_decimal_text(divide_half_even(10 * value, 0x10_0000));
        text.append(" MiB");
        text
    } else if value >= 0x400 {
        let mut text = one_decimal_text(divide_half_even(10 * value, 0x400));
        text.append(" KiB");
        text
    } else {
        let mut text = decimal_text(bytes as u128);
        text.append(" B");
        text
    }
}

/// Render a large count with a billion or million suffix.
pub fn human_count(count: u64) -> (text: String)
    ensures
        text@ == count_text(count as nat),
{
    if count >= 1_000_000_000 {
        let value: u128 = round_to_double(count);
        proof {
            lemma_double_is_close(count);
        }
        let mut text = one_decimal_text(quotient_tenths(value, 1_000_000_000));
        text.append(" billion");
        text
    } else if count >= 1_000_000 {
        let value: u128 = round_to_double(count);
        let mut text = one_decimal_text(quotient_tenths(value, 1_000_000));
        text.append(" million");
        text
    } else {
        decimal_text(count as u128)
    }
}

/// Rounding to double precision keeps large numbers large.
proof fn lemma_double_is_close(count: u64)
    ensures
        crate::rounding::to_precision(count as nat, DOUBLE as nat) >= count - count / 2,
{
    let unit = crate::rounding::reduced(count as nat, 1, 0, DOUBLE as nat).0;
    lemma_reduced_unit(count as nat, 1, 0);
    let quotient = count as nat / unit;
    assert(quotient * unit + count as nat % unit == count) by (nonlinear_arith)
        requires
            unit > 0,
            quotient == count as nat / unit,
    ;
    let multiple = crate::rounding::half_even(count as nat, unit);
    assert(multiple * unit >= quotient * unit) by (nonlinear_arith)
        requires
            multiple >= quotient,
    ;
    assert(count as nat % unit < unit) by (nonlinear_arith)
        requires
            unit > 0,
    ;
    if unit > 1 {
        assert(2 * unit <= unit * (DOUBLE as nat)) by (nonlinear_arith)
            requires
                DOUBLE as nat >= 4,
        ;
    }
}

proof fn lemma_reduced_unit(n: nat, d: nat, exponent: int)
    requires
        d > 0,
        d == 1 || 4 * d <= 2 * n,
    ensures
        ({
            let unit = crate::rounding::reduced(n, d, exponent, DOUBLE as nat).0;
            unit > 0 && (unit == 1 || 4 * unit <= 2 * n)
        }),
    decreases
            if d <= n {
                n - d
            } else {
                0
            },
{
    if d * (DOUBLE as nat) <= n {
        assert(4 * d <= d * (DOUBLE as nat)) by (nonlinear_arith)
            requires
                DOUBLE as nat >= 4,
        ;
        lemma_reduced_unit(n, 2 * d, exponent + 1);
    }
}

// --- Messages ----------------------------------------------------------------
/// What a violation measured, in a message.
pub open spec fn measured(kind: ViolationKind) -> Seq<char> {
    match kind {
        ViolationKind::Width => "width"@,
        ViolationKind::Height => "height"@,
        ViolationKind::Pixels => "pixel count"@,
        ViolationKind::Bytes => "estimated size"@,
    }
}

/// A measurement in words.
pub open spec fn measurement(kind: ViolationKind, value: u64) -> Seq<char> {
    if kind is Bytes {
        bytes_text(value as nat)
    } else {
        count_text(value as nat)
    }
}

/// The shared phrasing of a violation.
pub open spec fn violation_text(violation: LimitViolation) -> Seq<char> {
    measured(violation.kind) + " "@ + measurement(violation.kind, violation.actual)
        + " exceeds the limit of "@ + measurement(violation.kind, violation.allowed) + " (from "@
        + violation.binding.description() + ")"@
}

/// A size as `WxH`.
pub open spec fn size_text(size: (u64, u64)) -> Seq<char> {
    decimal(size.0 as nat) + "x"@ + decimal(size.1 as nat)
}

impl InputView {
    /// The message of an input failure.
    pub open spec fn text(self) -> Seq<char> {
        match self {
            InputView::Open { path, cause } => "input: cannot open "@ + path + ": "@ + cause.text,
            InputView::Decode { path, format, cause } => "input: cannot decode "@ + path + " as "@
                + format.label() + ": "@ + trimmed_end(cause.text),
            InputView::UnsupportedFormat { path, format, reason } => "input: "@ + path + " is a "@
                + format.label() + " file, but "@ + reason.description(),
            InputView::SizeLimit { path, format, dimensions, violation } => {
                let start = "input: "@ + path + " is too large to process as "@ + format.label()
                    + ": "@ + violation_text(violation);
                match dimensions {
                    Some(size) => start + " (image is "@ + size_text(size) + ")"@,
                    None => start,
                }
            },
            InputView::InvalidResize { requested, reason } => "input: cannot resize to "@
                + size_text(requested) + ": "@ + reason,
            InputView::Configuration { path, format, cause } => "input: cannot configure "@
                + format.label() + " encoder for "@ + path + ": "@ + trimmed_end(cause.text),
        }
    }
}

impl OutputView {
    /// The message of an output failure.
    pub open spec fn text(self) -> Seq<char> {
        match self {
            OutputView::Io { path, cause } => "output: cannot write "@ + path + ": "@ + cause.text,
            OutputView::Encode { path, format, cause } => "output: cannot encode "@ + path + " as "@
                + format.label() + ": "@ + trimmed_end(cause.text),
            OutputView::SizeLimit { path, format, violation } => "output: cannot produce "@ + path
                + " as "@ + format.label() + ": "@ + violation_text(violation),
            OutputView::OutOfSpace { path, format, needed, available } =>
                "output: not enough space for "@ + path + " as "@ + format.label() + ": "@
                    + "needs about "@ + bytes_text(needed as nat)
                    + " but the destination volume has "@ + bytes_text(available as nat)
                    + " free"@,
        }
    }
}

impl ErrorView {
    /// The message of a failure.
    pub open spec fn text(self) -> Seq<char> {
        match self {
            ErrorView::Input(error) => error.text(),
            ErrorView::Output(error) => error.text(),
        }
    }

    /// The slug of a failure.
    pub open spec fn slug(self) -> Seq<char> {
        match self {
            ErrorView::Input(InputView::Open { .. }) => "input.open"@,
            ErrorView::Input(InputView::Decode { .. }) => "input.decode"@,
            ErrorView::Input(InputView::UnsupportedFormat { .. }) => "input.unsupported-format"@,
            ErrorView::Input(InputView::SizeLimit { .. }) => "input.size-limit"@,
            ErrorView::Input(InputView::InvalidResize { .. }) => "input.invalid-resize"@,
            ErrorView::Input(InputView::Configuration { .. }) => "input.configuration"@,
            ErrorView::Output(OutputView::Io { .. }) => "output.io"@,
            ErrorView::Output(OutputView::Encode { .. }) => "output.encode"@,
            ErrorView::Output(OutputView::SizeLimit { .. }) => "output.size-limit"@,
            ErrorView::Output(OutputView::OutOfSpace { .. }) => "output.out-of-space"@,
        }
    }

    /// The file that a failure concerns; empty for a resize that fits no file.
    pub open spec fn file(self) -> Seq<char> {
        match self {
            ErrorView::Input(InputView::Open { path, .. }) => path,
            ErrorView::Input(InputView::Decode { path, .. }) => path,
            ErrorView::Input(InputView::UnsupportedFormat { path, .. }) => path,
            ErrorView::Input(InputView::SizeLimit { path, .. }) => path,
            ErrorView::Input(InputView::InvalidResize { .. }) => ""@,
            ErrorView::Input(InputView::Configuration { path, .. }) => path,
            ErrorView::Output(OutputView::Io { path, .. }) => path,
            ErrorView::Output(OutputView::Encode { path, .. }) => path,
            ErrorView::Output(OutputView::SizeLimit { path, .. }) => path,
            ErrorView::Output(OutputView::OutOfSpace { path, .. }) => path,
        }
    }

    /// What an outside report said, where the failure comes from one.
    pub open spec fn report(self) -> Option<Seq<char>> {
        match self {
            ErrorView::Input(InputView::Open { cause, .. }) => Some(cause.text),
            ErrorView::Input(InputView::Decode { cause, .. }) => Some(cause.text),
            ErrorView::Input(InputView::Configuration { cause, .. }) => Some(cause.text),
            ErrorView::Output(OutputView::Io { cause, .. }) => Some(cause.text),
            ErrorView::Output(OutputView::Encode { cause, .. }) => Some(cause.text),
            _ => None,
        }
    }
}

fn push_size(text: &mut String, size: (u64, u64))
    ensures
        final(text)@ == old(text)@ + size_text(size),
{
    let ghost start = text@;
    push_decimal(text, size.0 as u128);
    text.append("x");
    push_decimal(text, size.1 as u128);
    assert(text@ =~= start + size_text(size));
}

/// Appends the shared phrasing of a violation.
pub fn write_violation(text: &mut String, violation: &LimitViolation)
    ensures
        final(text)@ == old(text)@ + violation_text(*violation),
{
    let ghost start = text@;
    let mut phrase = match violation.kind {
        ViolationKind::Width => "width",
        ViolationKind::Height => "height",
        ViolationKind::Pixels => "pixel count",
        ViolationKind::Bytes => "estimated size",
    }.to_owned();
    let (actual, allowed) = match violation.kind {
        ViolationKind::Bytes => (human_bytes(violation.actual), human_bytes(violation.allowed)),
        _ => (human_count(violation.actual), human_count(violation.allowed)),
    };
    phrase.append(" ");
    phrase.append(actual.as_str());
    phrase.append(" exceeds the limit of ");
    phrase.append(allowed.as_str());
    phrase.append(" (from ");
    phrase.append(violation.binding.describe());
    phrase.append(")");
    text.append(phrase.as_str());
}

impl InputError {
    /// The message of this failure, on one line.
    pub fn message(&self) -> (text: String)
        ensures
            text@ == self@.text(),
    {
        match self {
            InputError::Open { path, cause } => {
                let mut text = "input: cannot open ".to_owned();
                text.append(path.as_str());
                text.append(": ");
                text.append(cause.text.as_str());
                text
            },
            InputError::Decode { path, format, cause } => {
                let mut text = "input: cannot decode ".to_owned();
                text.append(path.as_str());
                text.append(" as ");
                text.append(format.name());
                text.append(": ");
                text.append(trim_end(cause.text.as_str()));
                text
            },
            InputError::UnsupportedFormat { path, format, reason } => {
                let mut text = "input: ".to_owned();
                text.append(path.as_str());
                text.append(" is a ");
                text.append(format.name());
                text.append(" file, but ");
                text.append(reason.as_str());
                text
            },
            InputError::SizeLimit { path, format, dimensions, violation } => {
                let mut text = "input: ".to_owned();
                text.append(path.as_str());
                text.append(" is too large to process as ");
                text.append(format.name());
                text.append(": ");
                write_violation(&mut text, violation);
                if let Some(size) = *dimensions {
                    text.append(" (image is ");
                    push_size(&mut text, size);
                    text.append(")");
                }
                text
            },
            InputError::InvalidResize { requested, reason } => {
                let mut text = "input: cannot resize to ".to_owned();
                push_size(&mut text, *requested);
                text.append(": ");
                text.append(reason);
                text
            },
            InputError::Configuration { path, format, cause } => {
                let mut text = "input: cannot configure ".to_owned();
                text.append(format.name());
                text.append(" encoder for ");
                text.append(path.as_str());
                text.append(": ");
                text.append(trim_end(cause.text.as_str()));
                text
            },
        }
    }
}

impl OutputError {
    /// The message of this failure, on one line.
    pub fn message(&self) -> (text: String)
        ensures
            text@ == self@.text(),
    {
        match self {
            OutputError::Io { path, cause } => {
                let mut text = "output: cannot write ".to_owned();
                text.append(path.as_str());
                text.append(": ");
                text.append(cause.text.as_str());
                text
            },
            OutputError::Encode { path, format, cause } => {
                let mut text = "output: cannot encode ".to_owned();
                text.append(path.as_str());
                text.append(" as ");
                text.append(format.name());
                text.append(": ");
                text.append(trim_end(cause.text.as_str()));
                text
            },
            OutputError::SizeLimit { path, format, violation } => {
                let mut text = "output: cannot produce ".to_owned();
                text.append(path.as_str());
                text.append(" as ");
                text.append(format.name());
                text.append(": ");
                write_violation(&mut text, violation);
                text
            },
            OutputError::OutOfSpace { path, format, needed, available } => {
                let mut text = "output: not enough space for ".to_owned();
                text.append(path.as_str());
                text.append(" as ");
                text.append(format.name());
                text.append(": ");
                text.append("needs about ");
                text.append(human_bytes(*needed).as_str());
                text.append(" but the destination volume has ");
                text.append(human_bytes(*available).as_str());
                text.append(" free");
                text
            },
        }
    }
}

// --- Hints -------------------------------------------------------------------
/// What a violation measured, in a hint.
pub open spec fn hinted(kind: ViolationKind) -> Seq<char> {
    match kind {
        ViolationKind::Pixels => "total pixel count"@,
        other => measured(other),
    }
}

/// The advice on a violated ceiling. A volume without room is not something
/// that a smaller image fixes in general, so there the volume is named.
pub open spec fn limit_hint(
    dimensions: Option<(u64, u64)>,
    violation: LimitViolation,
    verb: Seq<char>,
) -> Seq<char> {
    if violation.kind is Bytes {
        "free up space on the destination volume, or write elsewhere; writing this image needs about "@
            + bytes_text(violation.actual as nat) + " but only "@ + bytes_text(
            violation.allowed as nat,
        ) + " is allowed (from "@ + violation.binding.description() + ")"@
    } else {
        let start = verb + " the image so its "@ + hinted(violation.kind) + " is at most "@
            + count_text(violation.allowed as nat) + "; this limit comes from "@
            + violation.binding.description();
        match dimensions {
            Some(size) => start + " (this image is "@ + size_text(size) + ")"@,
            None => start,
        }
    }
}

impl ErrorView {
    /// A concrete next step, when one exists.
    pub open spec fn advice(self) -> Option<Seq<char>> {
        match self {
            ErrorView::Input(InputView::UnsupportedFormat { format, reason, .. }) => match reason {
                UnsupportedReason::FeatureNotEnabled => Some(
                    "rebuild with the feature that provides the "@ + format.label() + " decoder"@,
                ),
                UnsupportedReason::NotImplemented => Some(
                    "convert the file to a supported format (jpeg, png, webp, avif, tiff or svg) before optimizing it"@,
                ),
            },
            ErrorView::Input(InputView::SizeLimit { dimensions, violation, .. }) => Some(
                limit_hint(dimensions, violation, "shrink"@),
            ),
            ErrorView::Input(InputView::InvalidResize { requested, .. }) => Some(
                "choose a --resize value that fits in "@ + size_text(requested) + " pixels"@,
            ),
            ErrorView::Output(OutputView::SizeLimit { violation, .. }) => Some(
                limit_hint(None, violation, "shrink"@),
            ),
            ErrorView::Output(OutputView::OutOfSpace { needed, available, .. }) => Some(
                "free at least "@ + bytes_text(
                    if needed <= available {
                        0
                    } else {
                        (needed - available) as nat
                    },
                )
                    + " on the destination volume, raise -t to process fewer images at once, or lower --speed"@,
            ),
            ErrorView::Output(OutputView::Io { cause, .. }) => match cause.kind {
                IoKind::PermissionDenied => Some(
                    "check write permissions on the output directory"@,
                ),
                IoKind::StorageFull => Some(
                    "free up space on the destination volume or write elsewhere"@,
                ),
                _ => None,
            },
            ErrorView::Input(InputView::Open { cause, .. }) => match cause.kind {
                IoKind::NotFound => Some(
                    "check that the path exists and the spelling is correct"@,
                ),
                IoKind::PermissionDenied => Some("check read permissions on the file"@),
                _ => None,
            },
            ErrorView::Input(InputView::Decode { .. }) => Some(
                "check that the file is not truncated or corrupt"@,
            ),
            ErrorView::Input(InputView::Configuration { .. }) => None,
            ErrorView::Output(OutputView::Encode { cause, .. }) => if cause.kind
                is UnsupportedColorspace {
                Some("choose an output format that accepts this image's colorspace"@)
            } else {
                Some(
                    "check that this encoder supports the image's dimensions and bit depth, or choose another output format"@,
                )
            },
        }
    }
}

/// A text that may be absent, by its contents.
pub open spec fn text_of(text: Option<String>) -> Option<Seq<char>> {
    match text {
        Some(text) => Some(text@),
        None => None,
    }
}

/// Build a hint naming the violated ceiling and a size that would fit.
pub fn size_limit_hint(
    dimensions: Option<(u64, u64)>,
    violation: &LimitViolation,
    verb: &str,
) -> (hint: String)
    ensures
        hint@ == limit_hint(dimensions, *violation, verb@),
{
    if matches!(violation.kind, ViolationKind::Bytes) {
        let mut hint =
            "free up space on the destination volume, or write elsewhere; writing this image needs about ".to_owned();
        hint.append(human_bytes(violation.actual).as_str());
        hint.append(" but only ");
        hint.append(human_bytes(violation.allowed).as_str());
        hint.append(" is allowed (from ");
        hint.append(violation.binding.describe());
        hint.append(")");
        return hint;
    }
    let measured = match violation.kind {
        ViolationKind::Width => "width",
        ViolationKind::Height => "height",
        ViolationKind::Pixels => "total pixel count",
        ViolationKind::Bytes => "estimated size",
    };
    let mut hint = verb.to_owned();
    hint.append(" the image so its ");
    hint.append(measured);
    hint.append(" is at most ");
    hint.append(human_count(violation.allowed).as_str());
    hint.append("; this limit comes from ");
    hint.append(violation.binding.describe());
    if let Some(size) = dimensions {
        hint.append(" (this image is ");
        push_size(&mut hint, size);
        hint.append(")");
    }
    hint
}

impl RimageError {
    /// Which side of the pipeline failed.
    pub fn direction(&self) -> (direction: Direction)
        ensures
            direction == (match self@ {
                ErrorView::Input(_) => Direction::Input,
                ErrorView::Output(_) => Direction::Output,
            }),
    {
        match self {
            RimageError::Input(_) => Direction::Input,
            RimageError::Output(_) => Direction::Output,
        }
    }

    /// A stable, machine-readable slug for this failure.
    pub fn kind(&self) -> (slug: &'static str)
        ensures
            slug@ == self@.slug(),
    {
        match self {
            RimageError::Input(InputError::Open { .. }) => "input.open",
            RimageError::Input(InputError::Decode { .. }) => "input.decode",
            RimageError::Input(InputError::UnsupportedFormat { .. }) => "input.unsupported-format",
            RimageError::Input(InputError::SizeLimit { .. }) => "input.size-limit",
            RimageError::Input(InputError::InvalidResize { .. }) => "input.invalid-resize",
            RimageError::Input(InputError::Configuration { .. }) => "input.configuration",
            RimageError::Output(OutputError::Io { .. }) => "output.io",
            RimageError::Output(OutputError::Encode { .. }) => "output.encode",
            RimageError::Output(OutputError::SizeLimit { .. }) => "output.size-limit",
            RimageError::Output(OutputError::OutOfSpace { .. }) => "output.out-of-space",
        }
    }

    /// The file this failure concerns.
    pub fn path(&self) -> (path: &str)
        ensures
            path@ == self@.file(),
    {
        match self {
            RimageError::Input(InputError::Open { path, .. }) => path.as_str(),
            RimageError::Input(InputError::Decode { path, .. }) => path.as_str(),
            RimageError::Input(InputError::UnsupportedFormat { path, .. }) => path.as_str(),
            RimageError::Input(InputError::SizeLimit { path, .. }) => path.as_str(),
            RimageError::Input(InputError::InvalidResize { .. }) => "",
            RimageError::Input(InputError::Configuration { path, .. }) => path.as_str(),
            RimageError::Output(OutputError::Io { path, .. }) => path.as_str(),
            RimageError::Output(OutputError::Encode { path, .. }) => path.as_str(),
            RimageError::Output(OutputError::SizeLimit { path, .. }) => path.as_str(),
            RimageError::Output(OutputError::OutOfSpace { path, .. }) => path.as_str(),
        }
    }

    /// What the decoder, the encoder or the operating system reported, where
    /// the failure comes from one of them.
    pub fn source(&self) -> (report: Option<&str>)
        ensures
            report is Some == self@.report() is Some,
            report matches Some(report) ==> self@.report() == Some(report@),
    {
        match self {
            RimageError::Input(InputError::Open { cause, .. }) => Some(cause.text.as_str()),
            RimageError::Input(InputError::Decode { cause, .. }) => Some(cause.text.as_str()),
            RimageError::Input(InputError::Configuration { cause, .. }) => Some(
                cause.text.as_str(),
            ),
            RimageError::Output(OutputError::Io { cause, .. }) => Some(cause.text.as_str()),
            RimageError::Output(OutputError::Encode { cause, .. }) => Some(cause.text.as_str()),
            _ => None,
        }
    }

    /// The message of this failure, on one line.
    pub fn message(&self) -> (text: String)
        ensures
            text@ == self@.text(),
    {
        match self {
            RimageError::Input(error) => error.message(),
            RimageError::Output(error) => error.message(),
        }
    }

    /// A concrete next step, when one exists.
    ///
    /// `None` when the failure has no actionable advice beyond fixing the
    /// file, so callers can omit an empty hint line.
    pub fn hint(&self) -> (hint: Option<String>)
        ensures
            text_of(hint) == self@.advice(),
    {
        match self {
            RimageError::Input(InputError::UnsupportedFormat { format, reason, .. }) => {
                match reason {
                    UnsupportedReason::FeatureNotEnabled => {
                        let mut hint = "rebuild with the feature that provides the ".to_owned();
                        hint.append(format.name());
                        hint.append(" decoder");
                        Some(hint)
                    },
                    UnsupportedReason::NotImplemented => Some(
                        "convert the file to a supported format (jpeg, png, webp, avif, tiff or svg) before optimizing it".to_owned(),
                    ),
                }
            },
            RimageError::Input(InputError::SizeLimit { dimensions, violation, .. }) => Some(
                size_limit_hint(*dimensions, violation, "shrink"),
            ),
            RimageError::Input(InputError::InvalidResize { requested, .. }) => {
                let mut hint = "choose a --resize value that fits in ".to_owned();
                push_size(&mut hint, *requested);
                hint.append(" pixels");
                Some(hint)
            },
            RimageError::Output(OutputError::SizeLimit { violation, .. }) => Some(
                size_limit_hint(None, violation, "shrink"),
            ),
            RimageError::Output(OutputError::OutOfSpace { needed, available, .. }) => {
                let missing: u64 = if *needed <= *available {
                    0
                } else {
                    *needed - *available
                };
                let mut hint = "free at least ".to_owned();
                hint.append(human_bytes(missing).as_str());
                hint.append(
                    " on the destination volume, raise -t to process fewer images at once, or lower --speed",
                );
                Some(hint)
            },
            RimageError::Output(OutputError::Io { cause, .. }) => match cause.kind {
                IoKind::PermissionDenied => Some(
                    "check write permissions on the output directory".to_owned(),
                ),
                IoKind::StorageFull => Some(
                    "free up space on the destination volume or write elsewhere".to_owned(),
                ),
                _ => None,
            },
            RimageError::Input(InputError::Open { cause, .. }) => match cause.kind {
                IoKind::NotFound => Some(
                    "check that the path exists and the spelling is correct".to_owned(),
                ),
                IoKind::PermissionDenied => Some("check read permissions on the file".to_owned()),
                _ => None,
            },
            RimageError::Input(InputError::Decode { .. }) => Some(
                "check that the file is not truncated or corrupt".to_owned(),
            ),
            RimageError::Input(InputError::Configuration { .. }) => None,
            RimageError::Output(OutputError::Encode { cause, .. }) => match cause.kind {
                FailureKind::UnsupportedColorspace => Some(
                    "choose an output format that accepts this image's colorspace".to_owned(),
                ),
                _ => Some(
                    "check that this encoder supports the image's dimensions and bit depth, or choose another output format".to_owned(),
                ),
            },
        }
    }

    /// The line that reports this failure: the file, the message and the slug.
    pub fn log_line(&self) -> (line: String)
        ensures
            line@ == self@.file() + ": "@ + self@.text() + " ["@ + self@.slug() + "]"@,
    {
        let mut line = self.path().to_owned();
        line.append(": ");
        line.append(self.message().as_str());
        line.append(" [");
        line.append(self.kind());
        line.append("]");
        line
    }

    /// The line that follows with the advice, if there is any.
    pub fn hint_line(&self) -> (line: Option<String>)
        ensures
            text_of(line) == (match self@.advice() {
                Some(hint) => Some("  hint: "@ + hint),
                None => None,
            }),
    {
        match self.hint() {
            Some(hint) => {
                let mut line = "  hint: ".to_owned();
                line.append(hint.as_str());
                Some(line)
            },
            None => None,
        }
    }
}

// --- Classification ----------------------------------------------------------
/// The format that the extension of a path stands for.
pub open spec fn path_format(path: Seq<char>, windows: bool) -> ImageFormatId {
    match crate::path::path_extension(path, windows) {
        Some(extension) => crate::limits::format_of_extension(extension),
        None => ImageFormatId::Other,
    }
}

/// The format that the extension of a path stands for.
pub fn format_of_path(path: &str, windows: bool) -> (format: ImageFormatId)
    ensures
        format == path_format(path@, windows),
{
    match extension_of(path, windows) {
        Some(extension) => ImageFormatId::from_extension(extension),
        None => ImageFormatId::Other,
    }
}

/// A failure to decode a file, with what is kept of the report.
pub open spec fn decode_failure(path: Seq<char>, error: FailureView, windows: bool) -> ErrorView {
    ErrorView::Input(
        InputView::Decode { path, format: path_format(path, windows), cause: kept(error) },
    )
}

/// What a failure while reading a file is reported as.
///
/// The refusal of an SVG render target comes as a text; its ceiling always
/// originates in the memory budget.
pub open spec fn input_failure(
    path: Seq<char>,
    error: FailureView,
    resize: Option<(Seq<char>, (u64, u64))>,
    windows: bool,
) -> ErrorView {
    let format = path_format(path, windows);
    match error.kind {
        KindView::DecoderNotImplemented => ErrorView::Input(
            InputView::UnsupportedFormat {
                path,
                format,
                reason: UnsupportedReason::NotImplemented,
            },
        ),
        KindView::DecoderNotIncluded => ErrorView::Input(
            InputView::UnsupportedFormat {
                path,
                format,
                reason: UnsupportedReason::FeatureNotEnabled,
            },
        ),
        KindView::Decode => match crate::codecs::svg::read_size_limit(error.text) {
            Some((width, height, actual, allowed)) if format is Svg => ErrorView::Input(
                InputView::SizeLimit {
                    path,
                    format,
                    dimensions: Some((width, height)),
                    violation: LimitViolation {
                        kind: ViolationKind::Pixels,
                        actual,
                        allowed,
                        binding: Binding::Memory,
                    },
                },
            ),
            _ => decode_failure(path, error, windows),
        },
        KindView::OperationNotImplemented(name) => match resize {
            Some((reason, requested)) if name == "resize"@ => ErrorView::Input(
                InputView::InvalidResize { requested, reason },
            ),
            _ => decode_failure(path, error, windows),
        },
        _ => decode_failure(path, error, windows),
    }
}

/// What a failure while writing a file is reported as.
pub open spec fn output_failure(path: Seq<char>, error: FailureView, windows: bool) -> ErrorView {
    match error.kind {
        KindView::Io(cause) => ErrorView::Output(OutputView::Io { path, cause }),
        _ => ErrorView::Output(
            OutputView::Encode { path, format: path_format(path, windows), cause: kept(error) },
        ),
    }
}

/// A resize request by its contents.
pub open spec fn request_of(resize: Option<(&'static str, (u64, u64))>) -> Option<
    (Seq<char>, (u64, u64)),
> {
    match resize {
        Some((reason, requested)) => Some((reason@, requested)),
        None => None,
    }
}

/// Classify something that went wrong while reading `path`, which is read by the
/// rules of Windows or of the other platforms. Every failure can be classified.
pub fn classify_input(
    path: &str,
    error: &ImageFailure,
    resize: Option<(&'static str, (u64, u64))>,
    windows: bool,
) -> (classified: Option<RimageError>)
    ensures
        classified matches Some(classified) && classified@ == input_failure(
            path@,
            error@,
            request_of(resize),
            windows,
        ),
{
    let format = format_of_path(path, windows);
    let classified = match &error.kind {
        FailureKind::DecoderNotImplemented => RimageError::Input(
            InputError::UnsupportedFormat {
                path: path.to_owned(),
                format,
                reason: UnsupportedReason::NotImplemented,
            },
        ),
        FailureKind::DecoderNotIncluded => RimageError::Input(
            InputError::UnsupportedFormat {
                path: path.to_owned(),
                format,
                reason: UnsupportedReason::FeatureNotEnabled,
            },
        ),
        FailureKind::Decode => {
            let numbers = parse_size_limit(error.text.as_str());
            match (format, numbers) {
                (ImageFormatId::Svg, Some((width, height, actual, allowed))) => RimageError::Input(
                    InputError::SizeLimit {
                        path: path.to_owned(),
                        format,
                        dimensions: Some((width, height)),
                        violation: LimitViolation {
                            kind: ViolationKind::Pixels,
                            actual,
                            allowed,
                            binding: Binding::Memory,
                        },
                    },
                ),
                _ => RimageError::Input(
                    InputError::Decode {
                        path: path.to_owned(),
                        format,
                        cause: clone_image_errors(error),
                    },
                ),
            }
        },
        FailureKind::OperationNotImplemented(name) => {
            let is_resize = same_text(name.as_str(), "resize");
            match (is_resize, resize) {
                (true, Some((reason, requested))) => RimageError::Input(
                    InputError::InvalidResize { requested, reason },
                ),
                _ => RimageError::Input(
                    InputError::Decode {
                        path: path.to_owned(),
                        format,
                        cause: clone_image_errors(error),
                    },
                ),
            }
        },
        _ => RimageError::Input(
            InputError::Decode { path: path.to_owned(), format, cause: clone_image_errors(error) },
        ),
    };
    Some(classified)
}

/// Classify something that went wrong while writing `path`. A failure of the
/// operating system is an output failure of its own; everything else is the
/// encoder's.
pub fn classify_output(path: &str, error: &ImageFailure, windows: bool) -> (classified: Option<
    RimageError,
>)
    ensures
        classified matches Some(classified) && classified@ == output_failure(path@, error@, windows),
{
    let format = format_of_path(path, windows);
    let classified = match &error.kind {
        FailureKind::Io(cause) => RimageError::Output(
            OutputError::Io { path: path.to_owned(), cause: cause.copied() },
        ),
        _ => RimageError::Output(
            OutputError::Encode { path: path.to_owned(), format, cause: clone_image_errors(error) },
        ),
    };
    Some(classified)
}

/// Build an "the input is too large" failure from a resolved limit check.
pub fn input_size_limit(
    path: &str,
    format: ImageFormatId,
    dimensions: Option<(u64, u64)>,
    violation: LimitViolation,
) -> (error: RimageError)
    ensures
        error@ == ErrorView::Input(
            InputView::SizeLimit { path: path@, format, dimensions, violation },
        ),
{
    RimageError::Input(InputError::SizeLimit { path: path.to_owned(), format, dimensions, violation })
}

/// Build an "the output cannot be produced" failure from a resolved limit
/// check.
pub fn output_size_limit(path: &str, format: ImageFormatId, violation: LimitViolation) -> (error:
    RimageError)
    ensures
        error@ == ErrorView::Output(OutputView::SizeLimit { path: path@, format, violation }),
{
    RimageError::Output(OutputError::SizeLimit { path: path.to_owned(), format, violation })
}

/// Build an input failure of the operating system: the file cannot be opened
/// or read.
pub fn input_open_error(path: &str, error: &IoFailure) -> (classified: RimageError)
    ensures
        classified@ == ErrorView::Input(InputView::Open { path: path@, cause: error@ }),
{
    RimageError::Input(InputError::Open { path: path.to_owned(), cause: error.copied() })
}

/// Build an encoder-configuration failure. The file was read successfully; the
/// failure is in matching the configuration to the encoder's capabilities.
pub fn input_config_error(path: &str, encoder_name: &str, error: &ImageFailure) -> (classified:
    RimageError)
    ensures
        classified@ == ErrorView::Input(
            InputView::Configuration {
                path: path@,
                format: crate::limits::format_of_encoder(encoder_name@),
                cause: kept(error@),
            },
        ),
{
    RimageError::Input(
        InputError::Configuration {
            path: path.to_owned(),
            format: ImageFormatId::from_encoder_name(encoder_name),
            cause: clone_image_errors(error),
        },
    )
}

/// Build an operation-execution failure.
pub fn input_operation_error(path: &str, error: &ImageFailure, windows: bool) -> (classified:
    RimageError)
    ensures
        classified@ == input_failure(path@, error@, None, windows),
{
    classify_input(path, error, None, windows).unwrap()
}

/// Build an encode failure from a known encoder name, which is a more direct
/// source of the format than the extension.
pub fn output_encode_error(path: &str, encoder_name: &str, error: &ImageFailure) -> (classified:
    RimageError)
    ensures
        classified@ == ErrorView::Output(
            OutputView::Encode {
                path: path@,
                format: crate::limits::format_of_encoder(encoder_name@),
                cause: kept(error@),
            },
        ),
{
    RimageError::Output(
        OutputError::Encode {
            path: path.to_owned(),
            format: ImageFormatId::from_encoder_name(encoder_name),
            cause: clone_image_errors(error),
        },
    )
}

/// Build an output failure of the operating system.
pub fn output_io_error(path: &str, error: &IoFailure) -> (classified: RimageError)
    ensures
        classified@ == ErrorView::Output(OutputView::Io { path: path@, cause: error@ }),
{
    RimageError::Output(OutputError::Io { path: path.to_owned(), cause: error.copied() })
}

/// What a copy of an input failure keeps.
pub open spec fn input_copy(error: InputView) -> InputView {
    match error {
        InputView::Decode { path, format, cause } => InputView::Decode {
            path,
            format,
            cause: kept(cause),
        },
        InputView::Configuration { path, format, cause } => InputView::Configuration {
            path,
            format,
            cause: kept(cause),
        },
        other => other,
    }
}

/// What a copy of an output failure keeps.
pub open spec fn output_copy(error: OutputView) -> OutputView {
    match error {
        OutputView::Encode { path, format, cause } => OutputView::Encode {
            path,
            format,
            cause: kept(cause),
        },
        other => other,
    }
}

/// Copies an input failure; a report is kept by its text.
pub fn clone_input(error: &InputError) -> (copy: InputError)
    ensures
        copy@ == input_copy(error@),
{
    match error {
        InputError::Open { path, cause } => InputError::Open {
            path: path.as_str().to_owned(),
            cause: cause.copied(),
        },
        InputError::Decode { path, format, cause } => InputError::Decode {
            path: path.as_str().to_owned(),
            format: *format,
            cause: clone_image_errors(cause),
        },
        InputError::UnsupportedFormat { path, format, reason } => InputError::UnsupportedFormat {
            path: path.as_str().to_owned(),
            format: *format,
            reason: *reason,
        },
        InputError::SizeLimit { path, format, dimensions, violation } => InputError::SizeLimit {
            path: path.as_str().to_owned(),
            format: *format,
            dimensions: *dimensions,
            violation: *violation,
        },
        InputError::InvalidResize { requested, reason } => InputError::InvalidResize {
            requested: *requested,
            reason: *reason,
        },
        InputError::Configuration { path, format, cause } => InputError::Configuration {
            path: path.as_str().to_owned(),
            format: *format,
            cause: clone_image_errors(cause),
        },
    }
}

/// Copies an output failure; a report is kept by its text.
pub fn clone_output(error: &OutputError) -> (copy: OutputError)
    ensures
        copy@ == output_copy(error@),
{
    match error {
        OutputError::Io { path, cause } => OutputError::Io {
            path: path.as_str().to_owned(),
            cause: cause.copied(),
        },
        OutputError::Encode { path, format, cause } => OutputError::Encode {
            path: path.as_str().to_owned(),
            format: *format,
            cause: clone_image_errors(cause),
        },
        OutputError::SizeLimit { path, format, violation } => OutputError::SizeLimit {
            path: path.as_str().to_owned(),
            format: *format,
            violation: *violation,
        },
        OutputError::OutOfSpace { path, format, needed, available } => OutputError::OutOfSpace {
            path: path.as_str().to_owned(),
            format: *format,
            needed: *needed,
            available: *available,
        },
    }
}

impl From<InputError> for RimageError {
    fn from(error: InputError) -> (result: Self) {
        RimageError::Input(error)
    }
}

impl vstd::std_specs::convert::FromSpecImpl<InputError> for RimageError {
    open spec fn obeys_from_spec() -> bool {
        true
    }

    open spec fn from_spec(error: InputError) -> Self {
        RimageError::Input(error)
    }
}

impl From<OutputError> for RimageError {
    fn from(error: OutputError) -> (result: Self) {
        RimageError::Output(error)
    }
}

impl vstd::std_specs::convert::FromSpecImpl<OutputError> for RimageError {
    open spec fn obeys_from_spec() -> bool {
        true
    }

    open spec fn from_spec(error: OutputError) -> Self {
        RimageError::Output(error)
    }
}

// --- Laws --------------------------------------------------------------------
/// Trimming twice is trimming once.
proof fn lemma_trimmed_end_is_idempotent(text: Seq<char>)
    ensures
        trimmed_end(trimmed_end(text)) == trimmed_end(text),
{
    crate::text::lemma_trimmed_end(text);
}

/// A copy of a failure prints what the failure prints.
pub proof fn law_a_copy_prints_the_same(input: InputView, output: OutputView)
    ensures
        input_copy(input).text() == input.text(),
        output_copy(output).text() == output.text(),
{
    match input {
        InputView::Decode { cause, .. } => lemma_trimmed_end_is_idempotent(cause.text),
        InputView::Configuration { cause, .. } => lemma_trimmed_end_is_idempotent(cause.text),
        _ => {},
    }
    match output {
        OutputView::Encode { cause, .. } => lemma_trimmed_end_is_idempotent(cause.text),
        _ => {},
    }
}

/// The variant that a failure belongs to.
pub open spec fn variant(error: ErrorView) -> u8 {
    match error {
        ErrorView::Input(InputView::Open { .. }) => 0,
        ErrorView::Input(InputView::Decode { .. }) => 1,
        ErrorView::Input(InputView::UnsupportedFormat { .. }) => 2,
        ErrorView::Input(InputView::SizeLimit { .. }) => 3,
        ErrorView::Input(InputView::InvalidResize { .. }) => 4,
        ErrorView::Input(InputView::Configuration { .. }) => 5,
        ErrorView::Output(OutputView::Io { .. }) => 6,
        ErrorView::Output(OutputView::Encode { .. }) => 7,
        ErrorView::Output(OutputView::SizeLimit { .. }) => 8,
        ErrorView::Output(OutputView::OutOfSpace { .. }) => 9,
    }
}

/// The length of a slug and its first letter, by variant.
proof fn lemma_slug_shape(error: ErrorView)
    ensures
        variant(error) == 0 ==> error.slug().len() == 10,
        variant(error) == 1 ==> error.slug().len() == 12,
        variant(error) == 2 ==> error.slug().len() == 24,
        variant(error) == 3 ==> error.slug().len() == 16,
        variant(error) == 4 ==> error.slug().len() == 20,
        variant(error) == 5 ==> error.slug().len() == 19 && error.slug()[0] == 'i',
        variant(error) == 6 ==> error.slug().len() == 9,
        variant(error) == 7 ==> error.slug().len() == 13,
        variant(error) == 8 ==> error.slug().len() == 17,
        variant(error) == 9 ==> error.slug().len() == 19 && error.slug()[0] == 'o',
        variant(error) <= 9,
{
    reveal_strlit("input.open");
    reveal_strlit("input.decode");
    reveal_strlit("input.unsupported-format");
    reveal_strlit("input.size-limit");
    reveal_strlit("input.invalid-resize");
    reveal_strlit("input.configuration");
    reveal_strlit("output.io");
    reveal_strlit("output.encode");
    reveal_strlit("output.size-limit");
    reveal_strlit("output.out-of-space");
}

/// Slugs tell the variants apart.
pub proof fn law_slugs_are_unique_per_variant(a: ErrorView, b: ErrorView)
    ensures
        a.slug() == b.slug() <==> variant(a) == variant(b),
{
    lemma_slug_shape(a);
    lemma_slug_shape(b);
}

/// A failure while reading is reported as an input failure, and one while
/// writing as an output failure, whatever it is.
pub proof fn law_classification_keeps_the_side(
    path: Seq<char>,
    error: FailureView,
    resize: Option<(Seq<char>, (u64, u64))>,
    windows: bool,
)
    ensures
        input_failure(path, error, resize, windows) is Input,
        output_failure(path, error, windows) is Output,
{
}

/// A resize refusal without the caller's context is not lost: it is reported
/// as a decode failure, and so is every refusal of another operation.
pub proof fn law_an_operation_refusal_is_never_lost(
    path: Seq<char>,
    error: FailureView,
    windows: bool,
)
    requires
        error.kind is OperationNotImplemented,
    ensures
        input_failure(path, error, None, windows) == decode_failure(path, error, windows),
{
}

/// The refusal of an SVG render target becomes a size limit with the very
/// numbers that the decoder refused, bound by memory.
pub proof fn law_an_svg_refusal_becomes_a_size_limit(
    path: Seq<char>,
    width: u64,
    height: u64,
    area: u64,
    budget: u64,
    resize: Option<(Seq<char>, (u64, u64))>,
    windows: bool,
)
    requires
        path_format(path, windows) is Svg,
    ensures
        input_failure(
            path,
            FailureView {
                kind: KindView::Decode,
                text: crate::codecs::svg::size_limit_text(
                    width as nat,
                    height as nat,
                    area as nat,
                    budget as nat,
                ),
            },
            resize,
            windows,
        ) == ErrorView::Input(
            InputView::SizeLimit {
                path,
                format: ImageFormatId::Svg,
                dimensions: Some((width, height)),
                violation: LimitViolation {
                    kind: ViolationKind::Pixels,
                    actual: area,
                    allowed: budget,
                    binding: Binding::Memory,
                },
            },
        ),
{
    crate::codecs::svg::law_a_size_limit_reads_back(width, height, area, budget);
}

/// Whether a text ends in a line break.
pub open spec fn ends_in_newline(text: Seq<char>) -> bool {
    text.len() > 0 && text.last() == '\n'
}

proof fn lemma_joined_end(head: Seq<char>, tail: Seq<char>)
    requires
        !ends_in_newline(head),
        !ends_in_newline(tail),
    ensures
        !ends_in_newline(head + tail),
{
    if tail.len() > 0 {
        assert((head + tail).last() == tail.last());
    } else {
        assert(head + tail =~= head);
    }
}

/// A message does not end in a stray line break, whatever the decoder or the
/// encoder reported. The reports of the operating system are printed as they
/// are, so those are taken to end without one.
pub proof fn law_the_message_does_not_end_in_a_stray_newline(error: ErrorView)
    requires
        error matches ErrorView::Input(InputView::Open { cause, .. }) ==> !ends_in_newline(
            cause.text,
        ),
        error matches ErrorView::Output(OutputView::Io { cause, .. }) ==> !ends_in_newline(
            cause.text,
        ),
        error matches ErrorView::Input(InputView::InvalidResize { reason, .. })
            ==> !ends_in_newline(reason),
    ensures
        !ends_in_newline(error.text()),
{
    reveal_strlit(": ");
    reveal_strlit(")");
    reveal_strlit(" free");
    reveal_strlit("its decoder was not enabled at build time");
    reveal_strlit("no decoder for this format is implemented");
    match error {
        ErrorView::Input(InputView::Open { path, cause }) => {
            let head = "input: cannot open "@ + path + ": "@;
            assert(head.last() == ' ');
            lemma_joined_end(head, cause.text);
        },
        ErrorView::Input(InputView::Decode { path, format, cause }) => {
            let head = "input: cannot decode "@ + path + " as "@ + format.label() + ": "@;
            assert(head.last() == ' ');
            crate::text::lemma_trimmed_end(cause.text);
            lemma_joined_end(head, trimmed_end(cause.text));
        },
        ErrorView::Input(InputView::UnsupportedFormat { path, format, reason }) => {
            assert(error.text().last() == reason.description().last());
        },
        ErrorView::Input(InputView::SizeLimit { .. }) => {
            assert(error.text().last() == ')');
        },
        ErrorView::Input(InputView::InvalidResize { requested, reason }) => {
            let head = "input: cannot resize to "@ + size_text(requested) + ": "@;
            assert(head.last() == ' ');
            lemma_joined_end(head, reason);
        },
        ErrorView::Input(InputView::Configuration { path, format, cause }) => {
            let head = "input: cannot configure "@ + format.label() + " encoder for "@ + path
                + ": "@;
            assert(head.last() == ' ');
            crate::text::lemma_trimmed_end(cause.text);
            lemma_joined_end(head, trimmed_end(cause.text));
        },
        ErrorView::Output(OutputView::Io { path, cause }) => {
            let head = "output: cannot write "@ + path + ": "@;
            assert(head.last() == ' ');
            lemma_joined_end(head, cause.text);
        },
        ErrorView::Output(OutputView::Encode { path, format, cause }) => {
            let head = "output: cannot encode "@ + path + " as "@ + format.label() + ": "@;
            assert(head.last() == ' ');
            crate::text::lemma_trimmed_end(cause.text);
            lemma_joined_end(head, trimmed_end(cause.text));
        },
        ErrorView::Output(OutputView::SizeLimit { .. }) => {
            assert(error.text().last() == ')');
        },
        ErrorView::Output(OutputView::OutOfSpace { .. }) => {
            assert(error.text().last() == 'e');
        },
    }
}

/// A size limit always has advice, on either side.
pub proof fn law_a_size_limit_always_has_advice(error: ErrorView)
    requires
        variant(error) == 3 || variant(error) == 8,
    ensures
        error.advice() is Some,
{
}

} // verus!
