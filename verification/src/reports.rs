//! What the reports of failures say, and in which numbers.

use vstd::prelude::*;
use crate::error::{
    bytes_text, count_text, input_failure, kept, limit_hint, output_failure, path_format, size_text,
    violation_text, ErrorView, FailureView, InputView, KindView, OutputView, UnsupportedReason,
};
use crate::limits::{Binding, ImageFormatId, LimitViolation};
use crate::precision::{
    denominator, down, law_a_number_goes_to_the_nearest_mantissa,
    law_a_quotient_goes_to_the_nearest_integer, lemma_nearest_is_close, numerator, up,
};
use crate::rounding::{half_even, nearest, tenths, to_precision, DOUBLE};
use crate::text::decimal;

verus! {

// --- Numbers ---------------------------------------------------------------------
/// The nearest integer is the only one within half of it.
proof fn lemma_only_nearest(n: nat, d: nat, t: nat)
    requires
        d > 0,
        2 * (t * d) < 2 * n + d,
        2 * n < 2 * (t * d) + d,
    ensures
        half_even(n, d) == t,
{
    law_a_quotient_goes_to_the_nearest_integer(n, d);
    let h = half_even(n, d) as int;
    let (x, y) = (t as int, d as int);
    assert(h == x) by (nonlinear_arith)
        requires
            2 * (h * y) <= 2 * n + y,
            2 * n <= 2 * (h * y) + y,
            2 * (x * y) < 2 * n + y,
            2 * n < 2 * (x * y) + y,
            y > 0,
    ;
}

/// A whole number that double precision holds is not rounded.
proof fn lemma_exact(n: nat)
    requires
        n < DOUBLE,
    ensures
        to_precision(n, DOUBLE as nat) == n,
{
    assert(crate::rounding::reduced(n, 1, 0, DOUBLE as nat).0 == 1);
    lemma_only_nearest(n, 1, n);
    assert(half_even(n, 1) * 1 == n);
}

/// Whether `tenths` is the number of tenths of a unit nearest to a count, and not
/// as near as another.
pub open spec fn are_tenths_of(tenths: nat, count: nat, unit: nat) -> bool {
    2 * (tenths * unit) < 20 * count + unit && 20 * count < 2 * (tenths * unit) + unit
}

/// A byte count is given as it is below a KiB, and else in the largest binary unit
/// that it reaches, rounded to the nearest tenth.
pub proof fn law_bytes_are_given_in_the_largest_unit(bytes: nat, tenths: nat)
    requires
        bytes < DOUBLE,
    ensures
        bytes < 1024 ==> bytes_text(bytes) == decimal(bytes) + " B"@,
        1024 <= bytes < 1024 * 1024 && are_tenths_of(tenths, bytes, 1024) ==> bytes_text(bytes)
            == decimal(tenths / 10) + "."@ + decimal(tenths % 10) + " KiB"@,
        1024 * 1024 <= bytes < 1024 * 1024 * 1024 && are_tenths_of(tenths, bytes, 1024 * 1024)
            ==> bytes_text(bytes) == decimal(tenths / 10) + "."@ + decimal(tenths % 10) + " MiB"@,
        1024 * 1024 * 1024 <= bytes < 1024 * 1024 * 1024 * 1024 && are_tenths_of(
            tenths,
            bytes,
            1024 * 1024 * 1024,
        ) ==> bytes_text(bytes) == decimal(tenths / 10) + "."@ + decimal(tenths % 10) + " GiB"@,
        1024 * 1024 * 1024 * 1024 <= bytes < 1024 * 1024 * 1024 * 1024 * 1024 && are_tenths_of(
            tenths,
            bytes,
            1024 * 1024 * 1024 * 1024,
        ) ==> bytes_text(bytes) == decimal(tenths / 10) + "."@ + decimal(tenths % 10) + " TiB"@,
        1024 * 1024 * 1024 * 1024 * 1024 <= bytes && are_tenths_of(
            tenths,
            bytes,
            1024 * 1024 * 1024 * 1024 * 1024,
        ) ==> bytes_text(bytes) == decimal(tenths / 10) + "."@ + decimal(tenths % 10) + " PiB"@,
{
    lemma_exact(bytes);
    if are_tenths_of(tenths, bytes, 0x400) {
        lemma_only_nearest(10 * bytes, 0x400, tenths);
    }
    if are_tenths_of(tenths, bytes, 0x10_0000) {
        lemma_only_nearest(10 * bytes, 0x10_0000, tenths);
    }
    if are_tenths_of(tenths, bytes, 0x4000_0000) {
        lemma_only_nearest(10 * bytes, 0x4000_0000, tenths);
    }
    if are_tenths_of(tenths, bytes, 0x100_0000_0000) {
        lemma_only_nearest(10 * bytes, 0x100_0000_0000, tenths);
    }
    if are_tenths_of(tenths, bytes, 0x4_0000_0000_0000) {
        lemma_only_nearest(10 * bytes, 0x4_0000_0000_0000, tenths);
    }
}

/// Tenths of a quotient in double precision are those of the exact quotient,
/// unless that lies in the middle between two.
proof fn lemma_quotient_tenths(count: nat, unit: nat, wanted: nat)
    requires
        0 < count < DOUBLE,
        unit == 1_000_000 || unit == 1_000_000_000,
        are_tenths_of(wanted, count, unit),
    ensures
        tenths(nearest(count, unit, 0, DOUBLE as nat)) == wanted,
{
    let half = 0x10_0000_0000_0000nat;
    assert(2 * half == DOUBLE);
    law_a_number_goes_to_the_nearest_mantissa(count, unit, 0, half);
    lemma_nearest_is_close(count, unit, 0, half);
    vstd::arithmetic::power2::lemma2_to64();
    let value = nearest(count, unit, 0, DOUBLE as nat);
    let (m, p) = (value.0 as int, denominator(value) as int);
    let (c, d, t, s) = (count as int, unit as int, wanted as int, DOUBLE as int);
    assert(up(0) == 1 && down(0) == 1);
    assert((count * up(0)) * denominator(value) == c * p) by (nonlinear_arith)
        requires
            up(0) == 1,
            count == c,
            denominator(value) == p,
    ;
    let top = numerator(value) as int;
    assert(numerator(value) * (unit * down(0)) == top * d) by (nonlinear_arith)
        requires
            down(0) == 1,
            unit == d,
            numerator(value) == top,
    ;
    assert(s * (top * d) <= (s + 1) * (c * p));
    assert(s * (top * d) >= (s - 1) * (c * p));
    if value.1 >= 0 {
        crate::precision::lemma_scales_are_positive(value.1);
        assert(p == 1);
        assert(top >= m) by (nonlinear_arith)
            requires
                top == m * up(value.1),
                up(value.1) >= 1,
                m >= 0,
        ;
        assert(false) by (nonlinear_arith)
            requires
                s * (top * d) <= (s + 1) * (c * p),
                p == 1,
                c < s,
                s == 2 * half,
                top >= half,
                d >= 1_000_000,
                half == 0x10_0000_0000_0000,
        ;
    }
    assert(top == m) by {
        assert(up(value.1) == 1);
        assert(m * 1 == m);
    }
    crate::precision::lemma_scales_are_positive(value.1);
    assert(p >= 1);
    // The exact quotient is off the middle by ten at least.
    let gap = 10 * c - t * d;
    assert(-d < 2 * gap < d);
    assert(gap % 10 == 0) by (nonlinear_arith)
        requires
            gap == 10 * c - t * d,
            d == 1_000_000 || d == 1_000_000_000,
    ;
    assert(-d + 20 <= 2 * gap <= d - 20);
    let off = m * d - c * p;
    assert(s * off <= c * p && -(c * p) <= s * off) by (nonlinear_arith)
        requires
            s * (m * d) <= (s + 1) * (c * p),
            s * (m * d) >= (s - 1) * (c * p),
            off == m * d - c * p,
    ;
    assert(off < p && -p < off) by (nonlinear_arith)
        requires
            s * off <= c * p,
            -(c * p) <= s * off,
            c < s,
            c > 0,
            p >= 1,
    ;
    assert(2 * (t * p) < 2 * (10 * m) + p && 2 * (10 * m) < 2 * (t * p) + p) by {
        let left = (10 * m) * d - (t * p) * d;
        assert(left == 10 * off + p * gap) by (nonlinear_arith)
            requires
                left == (10 * m) * d - (t * p) * d,
                off == m * d - c * p,
                gap == 10 * c - t * d,
        ;
        assert(2 * (p * gap) <= p * (d - 20) && 2 * (p * gap) >= -(p * (d - 20)))
            by (nonlinear_arith)
            requires
                -d + 20 <= 2 * gap <= d - 20,
                p >= 1,
        ;
        assert(p * (d - 20) == p * d - 20 * p) by (nonlinear_arith);
        assert(2 * left < p * d && 2 * left > -(p * d));
        assert(2 * (10 * m - t * p) < p && 2 * (10 * m - t * p) > -p) by (nonlinear_arith)
            requires
                2 * left < p * d,
                2 * left > -(p * d),
                left == (10 * m) * d - (t * p) * d,
                d > 0,
        ;
    }
    lemma_only_nearest(10 * value.0, denominator(value), wanted);
}

/// A count below a million is given as it is, one below a billion in millions and
/// any other in billions, rounded to the nearest tenth.
pub proof fn law_counts_are_given_in_words(count: nat, tenths: nat)
    requires
        count < DOUBLE,
    ensures
        count < 1_000_000 ==> count_text(count) == decimal(count),
        1_000_000 <= count < 1_000_000_000 && are_tenths_of(tenths, count, 1_000_000) ==> count_text(
            count,
        ) == decimal(tenths / 10) + "."@ + decimal(tenths % 10) + " million"@,
        1_000_000_000 <= count && are_tenths_of(tenths, count, 1_000_000_000) ==> count_text(count)
            == decimal(tenths / 10) + "."@ + decimal(tenths % 10) + " billion"@,
{
    lemma_exact(count);
    if count >= 1_000_000 && are_tenths_of(tenths, count, 1_000_000) {
        lemma_quotient_tenths(count, 1_000_000, tenths);
    }
    if count >= 1_000_000_000 && are_tenths_of(tenths, count, 1_000_000_000) {
        lemma_quotient_tenths(count, 1_000_000_000, tenths);
    }
}

// --- Sorting failures ----------------------------------------------------------------
/// What is kept of a report is its text without the white space at its end, and a
/// fixed message as it is.
pub proof fn law_a_report_loses_only_its_trailing_space(text: Seq<char>, space: Seq<char>, kind: KindView)
    requires
        text.len() > 0 ==> !crate::text::is_space(text.last()),
        forall|i: int| 0 <= i < space.len() ==> crate::text::is_space(#[trigger] space[i]),
        !(kind is Fixed),
    ensures
        kept((FailureView { kind, text: text + space })) == (FailureView {
            kind: KindView::Other,
            text,
        }),
        kept((FailureView { kind: KindView::Fixed, text: text + space })) == (FailureView {
            kind: KindView::Fixed,
            text: text + space,
        }),
{
    lemma_trailing_space(text, space);
}

proof fn lemma_trailing_space(text: Seq<char>, space: Seq<char>)
    requires
        text.len() > 0 ==> !crate::text::is_space(text.last()),
        forall|i: int| 0 <= i < space.len() ==> crate::text::is_space(#[trigger] space[i]),
    ensures
        crate::text::trimmed_end(text + space) == text,
    decreases space.len(),
{
    if space.len() == 0 {
        assert(text + space =~= text);
    } else {
        let shorter = space.drop_last();
        assert(space[space.len() - 1] == space.last());
        assert((text + space).last() == space.last());
        assert((text + space).drop_last() =~= text + shorter);
        assert forall|i: int| 0 <= i < shorter.len() implies crate::text::is_space(
            #[trigger] shorter[i],
        ) by {
            assert(shorter[i] == space[i]);
        }
        lemma_trailing_space(text, shorter);
    }
}

/// A failure to read a file is sorted by its kind alone: a decoder that does not
/// exist and one that was left out are reported as such, a resize that fits no
/// image with the size asked for, and everything else as a failed decode, with
/// what is kept of the report.
pub proof fn law_a_failed_read_is_sorted_by_its_kind(
    path: Seq<char>,
    error: FailureView,
    resize: Option<(Seq<char>, (u64, u64))>,
    reason: Seq<char>,
    requested: (u64, u64),
    windows: bool,
)
    ensures
        ({
            let sorted = input_failure(path, error, resize, windows);
            let format = path_format(path, windows);
            &&& error.kind is DecoderNotImplemented ==> sorted == ErrorView::Input(
                (InputView::UnsupportedFormat {
                    path,
                    format,
                    reason: UnsupportedReason::NotImplemented,
                }),
            )
            &&& error.kind is DecoderNotIncluded ==> sorted == ErrorView::Input(
                (InputView::UnsupportedFormat {
                    path,
                    format,
                    reason: UnsupportedReason::FeatureNotEnabled,
                }),
            )
            &&& error.kind == KindView::OperationNotImplemented("resize"@) ==> input_failure(
                path,
                error,
                Some((reason, requested)),
                windows,
            ) == ErrorView::Input((InputView::InvalidResize { requested, reason }))
            &&& error.kind is Decode && !(format is Svg) || error.kind is UnsupportedColorspace
                || error.kind is Io || error.kind is Fixed || error.kind is Other || (error.kind
                matches KindView::OperationNotImplemented(name) && name != "resize"@) ==> sorted
                == ErrorView::Input((InputView::Decode { path, format, cause: kept(error) }))
        }),
{
}

/// A failure to write a file is one of input and output where it is of that kind,
/// with its cause as it is, and else a failed encode with what is kept of the
/// report.
pub proof fn law_a_failed_write_is_sorted_by_its_kind(
    path: Seq<char>,
    error: FailureView,
    windows: bool,
)
    ensures
        error.kind matches KindView::Io(cause) ==> output_failure(path, error, windows)
            == ErrorView::Output((OutputView::Io { path, cause })),
        !(error.kind is Io) ==> output_failure(path, error, windows) == ErrorView::Output(
            (OutputView::Encode { path, format: path_format(path, windows), cause: kept(error) }),
        ),
{
}

/// The slug of every failure.
pub proof fn law_every_failure_has_its_slug(error: ErrorView)
    ensures
        error matches ErrorView::Input(failure) ==> {
            &&& failure is Open ==> error.slug() == "input.open"@
            &&& failure is Decode ==> error.slug() == "input.decode"@
            &&& failure is UnsupportedFormat ==> error.slug() == "input.unsupported-format"@
            &&& failure is SizeLimit ==> error.slug() == "input.size-limit"@
            &&& failure is InvalidResize ==> error.slug() == "input.invalid-resize"@
            &&& failure is Configuration ==> error.slug() == "input.configuration"@
        },
        error matches ErrorView::Output(failure) ==> {
            &&& failure is Io ==> error.slug() == "output.io"@
            &&& failure is Encode ==> error.slug() == "output.encode"@
            &&& failure is SizeLimit ==> error.slug() == "output.size-limit"@
            &&& failure is OutOfSpace ==> error.slug() == "output.out-of-space"@
        },
{
}

// --- What messages hold ----------------------------------------------------------------
/// Whether a text holds another one.
#[verifier::opaque]
pub open spec fn mentions(text: Seq<char>, part: Seq<char>) -> bool {
    exists|before: Seq<char>, after: Seq<char>| text == #[trigger] (before + part + after)
}

pub proof fn lemma_mentions(before: Seq<char>, part: Seq<char>, after: Seq<char>)
    ensures
        mentions(before + part + after, part),
{
    reveal(mentions);
    assert(before + part + after == (before + part + after));
}

pub proof fn lemma_mentions_at_end(before: Seq<char>, part: Seq<char>)
    ensures
        mentions(before + part, part),
{
    assert(before + part =~= before + part + Seq::<char>::empty());
    lemma_mentions(before, part, Seq::empty());
}

/// What is mentioned stays mentioned in a longer text.
pub proof fn lemma_mentions_longer(text: Seq<char>, part: Seq<char>, more: Seq<char>)
    requires
        mentions(text, part),
    ensures
        mentions(text + more, part),
        mentions(more + text, part),
{
    reveal(mentions);
    let (before, after) = choose|before: Seq<char>, after: Seq<char>|
        text == #[trigger] (before + part + after);
    assert(text + more =~= before + part + (after + more));
    lemma_mentions(before, part, after + more);
    assert(more + text =~= (more + before) + part + after);
    lemma_mentions(more + before, part, after);
}

/// A violation names both numbers, in bytes or as counts as it was measured, and
/// where the limit comes from.
pub proof fn law_a_violation_names_both_numbers(violation: LimitViolation)
    ensures
        violation.kind is Bytes ==> mentions(
            violation_text(violation),
            bytes_text(violation.actual as nat) + " exceeds the limit of "@ + bytes_text(
                violation.allowed as nat,
            ),
        ),
        !(violation.kind is Bytes) ==> mentions(
            violation_text(violation),
            count_text(violation.actual as nat) + " exceeds the limit of "@ + count_text(
                violation.allowed as nat,
            ),
        ),
        violation.kind is Width ==> "width "@.is_prefix_of(violation_text(violation)),
        violation.kind is Height ==> "height "@.is_prefix_of(violation_text(violation)),
        violation.kind is Pixels ==> "pixel count "@.is_prefix_of(violation_text(violation)),
        violation.kind is Bytes ==> "estimated size "@.is_prefix_of(violation_text(violation)),
        violation.binding is Format ==> mentions(
            violation_text(violation),
            " (from the format's own dimension limit)"@,
        ),
        violation.binding is Memory ==> mentions(
            violation_text(violation),
            " (from the available memory budget)"@,
        ),
        violation.binding is Disk ==> mentions(
            violation_text(violation),
            " (from free space on the destination volume)"@,
        ),
{
    let text = violation_text(violation);
    let kind = violation.kind;
    let start = crate::error::measured(kind) + " "@;
    let (actual, allowed) = (
        crate::error::measurement(kind, violation.actual),
        crate::error::measurement(kind, violation.allowed),
    );
    let middle = " exceeds the limit of "@;
    let source = violation.binding.description();
    let end = " (from "@ + source + ")"@;
    assert(text =~= start + (actual + middle + allowed) + end);
    lemma_mentions(start, actual + middle + allowed, end);
    lemma_mentions_at_end(start + (actual + middle + allowed), end);
    reveal_strlit("width");
    reveal_strlit("height");
    reveal_strlit("pixel count");
    reveal_strlit("estimated size");
    reveal_strlit("width ");
    reveal_strlit("height ");
    reveal_strlit("pixel count ");
    reveal_strlit("estimated size ");
    reveal_strlit(" ");
    assert("width"@ + " "@ =~= "width "@);
    assert("height"@ + " "@ =~= "height "@);
    assert("pixel count"@ + " "@ =~= "pixel count "@);
    assert("estimated size"@ + " "@ =~= "estimated size "@);
    reveal_strlit(" (from ");
    reveal_strlit(")");
    reveal_strlit("the format's own dimension limit");
    reveal_strlit("the available memory budget");
    reveal_strlit("free space on the destination volume");
    reveal_strlit(" (from the format's own dimension limit)");
    reveal_strlit(" (from the available memory budget)");
    reveal_strlit(" (from free space on the destination volume)");
    match violation.binding {
        Binding::Format => {
            assert(end =~= " (from the format's own dimension limit)"@);
        },
        Binding::Memory => {
            assert(end =~= " (from the available memory budget)"@);
        },
        Binding::Disk => {
            assert(end =~= " (from free space on the destination volume)"@);
        },
        Binding::Unlimited => {},
    }
}

proof fn lemma_trimmed_is_mentioned(text: Seq<char>)
    ensures
        mentions(text, crate::text::trimmed_end(text)),
    decreases text.len(),
{
    if text.len() > 0 && crate::text::is_space(text.last()) {
        let shorter = text.drop_last();
        lemma_trimmed_is_mentioned(shorter);
        lemma_mentions_longer(shorter, crate::text::trimmed_end(text), seq![text.last()]);
        assert(shorter + seq![text.last()] =~= text);
    } else {
        lemma_mentions_at_end(Seq::empty(), text);
        assert(Seq::<char>::empty() + text =~= text);
    }
}

/// What a text starts with.
proof fn lemma_starts(head: Seq<char>, rest: Seq<char>, front: Seq<char>)
    requires
        front.is_prefix_of(head),
    ensures
        front.is_prefix_of(head + rest),
{
    assert((head + rest).take(front.len() as int) =~= head.take(front.len() as int));
}

/// A message put together from its parts starts like its first part and holds the
/// others.
proof fn lemma_message(
    text: Seq<char>,
    front: Seq<char>,
    head: Seq<char>,
    path: Seq<char>,
    middle: Seq<char>,
    report: Seq<char>,
)
    requires
        front.is_prefix_of(head),
        text == head + path + middle + report,
    ensures
        front.is_prefix_of(text),
        mentions(text, path),
        mentions(text, report),
        mentions(text, crate::text::trimmed_end(report)),
{
    lemma_starts(head, path + middle + report, front);
    assert(text =~= head + (path + middle + report));
    lemma_mentions(head, path, middle + report);
    assert(text =~= head + path + (middle + report));
    lemma_mentions_at_end(head + path + middle, report);
    lemma_trimmed_is_mentioned(report);
    lemma_mentions_longer(report, crate::text::trimmed_end(report), head + path + middle);
}

proof fn lemma_input_heads()
    ensures
        "input: "@.is_prefix_of("input: cannot open "@),
        "input: "@.is_prefix_of("input: cannot decode "@),
        "input: "@.is_prefix_of("input: cannot resize to "@),
        "input: "@.is_prefix_of("input: cannot configure "@),
{
    reveal_strlit("input: ");
    reveal_strlit("input: cannot open ");
    reveal_strlit("input: cannot decode ");
    reveal_strlit("input: cannot resize to ");
    reveal_strlit("input: cannot configure ");
    assert("input: "@ =~= "input: cannot open "@.take(7));
    assert("input: "@ =~= "input: cannot decode "@.take(7));
    assert("input: "@ =~= "input: cannot resize to "@.take(7));
    assert("input: "@ =~= "input: cannot configure "@.take(7));
}

proof fn lemma_output_heads()
    ensures
        "output: "@.is_prefix_of("output: cannot write "@),
        "output: "@.is_prefix_of("output: cannot encode "@),
        "output: "@.is_prefix_of("output: cannot produce "@),
        "output: "@.is_prefix_of("output: not enough space for "@),
{
    reveal_strlit("output: ");
    reveal_strlit("output: cannot write ");
    reveal_strlit("output: cannot encode ");
    reveal_strlit("output: cannot produce ");
    reveal_strlit("output: not enough space for ");
    assert("output: "@ =~= "output: cannot write "@.take(8));
    assert("output: "@ =~= "output: cannot encode "@.take(8));
    assert("output: "@ =~= "output: cannot produce "@.take(8));
    assert("output: "@ =~= "output: not enough space for "@.take(8));
}

proof fn lemma_twice_trimmed(text: Seq<char>)
    ensures
        crate::text::trimmed_end(crate::text::trimmed_end(text)) == crate::text::trimmed_end(text),
{
    crate::text::lemma_trimmed_end(text);
}

/// The message of an input failure says which side failed, names the file, if
/// there is one, and says what the report behind it said, without the white space
/// at its end.
pub proof fn law_an_input_message_names_side_file_and_report(failure: InputView)
    ensures
        ({
            let error = ErrorView::Input(failure);
            &&& "input: "@.is_prefix_of(error.text())
            &&& mentions(error.text(), error.file())
            &&& error.report() matches Some(report) ==> mentions(
                error.text(),
                crate::text::trimmed_end(report),
            )
        }),
{
    lemma_input_heads();
    let front = "input: "@;
    let text = failure.text();
    match failure {
        InputView::Open { path, cause } => {
            lemma_message(text, front, "input: cannot open "@, path, ": "@, cause.text);
        },
        InputView::Decode { path, format, cause } => {
            let head = "input: cannot decode "@;
            let (label, report) = (format.label(), crate::text::trimmed_end(cause.text));
            lemma_twice_trimmed(cause.text);
            lemma_parts(head, path, " as "@, label, ": "@, report);
            lemma_message(text, front, head, path, " as "@ + label + ": "@, report);
        },
        InputView::UnsupportedFormat { path, format, reason } => {
            let (label, report) = (format.label(), reason.description());
            lemma_parts(front, path, " is a "@, label, " file, but "@, report);
            lemma_whole(front);
            lemma_message(text, front, front, path, " is a "@ + label + " file, but "@, report);
        },
        InputView::SizeLimit { path, format, dimensions, violation } => {
            let (label, report) = (format.label(), violation_text(violation));
            let middle = " is too large to process as "@;
            let short = front + path + middle + label + ": "@ + report;
            lemma_parts(front, path, middle, label, ": "@, report);
            lemma_whole(front);
            lemma_message(short, front, front, path, middle + label + ": "@, report);
            if let Some(size) = dimensions {
                let more = " (image is "@ + size_text(size) + ")"@;
                lemma_starts(short, more, front);
                lemma_mentions_longer(short, path, more);
                assert(text =~= short + more);
            }
        },
        InputView::InvalidResize { requested, reason } => {
            let head = "input: cannot resize to "@;
            lemma_message(text, front, head, size_text(requested), ": "@, reason);
            reveal_strlit("");
            lemma_mentions_at_end(text, ""@);
            assert(text + ""@ =~= text);
        },
        InputView::Configuration { path, format, cause } => {
            let head = "input: cannot configure "@;
            let (label, report) = (format.label(), crate::text::trimmed_end(cause.text));
            lemma_twice_trimmed(cause.text);
            lemma_starts(head, label + " encoder for "@, front);
            assert(head + label + " encoder for "@ =~= head + (label + " encoder for "@));
            lemma_message(text, front, head + label + " encoder for "@, path, ": "@, report);
        },
    }
}

proof fn lemma_whole(front: Seq<char>)
    ensures
        front.is_prefix_of(front),
{
    assert(front.take(front.len() as int) =~= front);
}

proof fn lemma_parts(
    a: Seq<char>,
    b: Seq<char>,
    c: Seq<char>,
    d: Seq<char>,
    e: Seq<char>,
    f: Seq<char>,
)
    ensures
        a + b + c + d + e + f == a + b + (c + d + e) + f,
{
    assert(a + b + c + d + e + f =~= a + b + (c + d + e) + f);
}

/// The message of an output failure says which side failed, names the file, and
/// says what the report behind it said, without the white space at its end. One
/// about space names what is needed and what there is.
pub proof fn law_an_output_message_names_side_file_and_report(failure: OutputView)
    ensures
        ({
            let error = ErrorView::Output(failure);
            &&& "output: "@.is_prefix_of(error.text())
            &&& mentions(error.text(), error.file())
            &&& error.report() matches Some(report) ==> mentions(
                error.text(),
                crate::text::trimmed_end(report),
            )
            &&& failure matches OutputView::OutOfSpace { needed, available, .. } ==> mentions(
                error.text(),
                "needs about "@ + bytes_text(needed as nat) + " but the destination volume has "@
                    + bytes_text(available as nat) + " free"@,
            )
        }),
{
    lemma_output_heads();
    let front = "output: "@;
    let text = failure.text();
    match failure {
        OutputView::Io { path, cause } => {
            lemma_message(text, front, "output: cannot write "@, path, ": "@, cause.text);
        },
        OutputView::Encode { path, format, cause } => {
            let head = "output: cannot encode "@;
            let (label, report) = (format.label(), crate::text::trimmed_end(cause.text));
            lemma_twice_trimmed(cause.text);
            lemma_parts(head, path, " as "@, label, ": "@, report);
            lemma_message(text, front, head, path, " as "@ + label + ": "@, report);
        },
        OutputView::SizeLimit { path, format, violation } => {
            let head = "output: cannot produce "@;
            let (label, report) = (format.label(), violation_text(violation));
            lemma_parts(head, path, " as "@, label, ": "@, report);
            lemma_message(text, front, head, path, " as "@ + label + ": "@, report);
        },
        OutputView::OutOfSpace { path, format, needed, available } => {
            let head = "output: not enough space for "@;
            let label = format.label();
            let numbers = "needs about "@ + bytes_text(needed as nat)
                + " but the destination volume has "@ + bytes_text(available as nat) + " free"@;
            lemma_parts(head, path, " as "@, label, ": "@, numbers);
            lemma_tail(
                head + path + " as "@ + label + ": "@,
                "needs about "@,
                bytes_text(needed as nat),
                " but the destination volume has "@,
                bytes_text(available as nat),
                " free"@,
            );
            lemma_message(text, front, head, path, " as "@ + label + ": "@, numbers);
        },
    }
}

proof fn lemma_tail(
    a: Seq<char>,
    b: Seq<char>,
    c: Seq<char>,
    d: Seq<char>,
    e: Seq<char>,
    f: Seq<char>,
)
    ensures
        a + b + c + d + e + f == a + (b + c + d + e + f),
{
    assert(a + b + c + d + e + f =~= a + (b + c + d + e + f));
}

/// A failure names the file it concerns, and says what the report behind it said,
/// where there is one.
pub proof fn law_a_failure_names_its_file_and_report(
    path: Seq<char>,
    format: ImageFormatId,
    io: crate::error::IoView,
    cause: FailureView,
    violation: LimitViolation,
    dimensions: Option<(u64, u64)>,
    needed: u64,
    available: u64,
)
    ensures
        ({
            let open = ErrorView::Input((InputView::Open { path, cause: io }));
            let decode = ErrorView::Input((InputView::Decode { path, format, cause }));
            let configuration = ErrorView::Input(
                (InputView::Configuration { path, format, cause }),
            );
            let limit = ErrorView::Input(
                (InputView::SizeLimit { path, format, dimensions, violation }),
            );
            let write = ErrorView::Output((OutputView::Io { path, cause: io }));
            let encode = ErrorView::Output((OutputView::Encode { path, format, cause }));
            let ceiling = ErrorView::Output((OutputView::SizeLimit { path, format, violation }));
            let space = ErrorView::Output(
                (OutputView::OutOfSpace { path, format, needed, available }),
            );
            &&& open.file() == path && decode.file() == path && configuration.file() == path
            &&& limit.file() == path && write.file() == path && encode.file() == path
            &&& ceiling.file() == path && space.file() == path
            &&& open.report() == Some(io.text) && write.report() == Some(io.text)
            &&& decode.report() == Some(cause.text) && configuration.report() == Some(cause.text)
            &&& encode.report() == Some(cause.text)
            &&& limit.report() is None && ceiling.report() is None && space.report() is None
        }),
{
}

// --- Advice --------------------------------------------------------------------------------
/// The advice on a failed open or write goes by what went wrong.
pub proof fn law_advice_on_files_goes_by_the_cause(path: Seq<char>, io: crate::error::IoView)
    ensures
        ({
            let open = ErrorView::Input((InputView::Open { path, cause: io })).advice();
            let write = ErrorView::Output((OutputView::Io { path, cause: io })).advice();
            &&& io.kind is NotFound ==> open == Some(
                "check that the path exists and the spelling is correct"@,
            ) && write is None
            &&& io.kind is PermissionDenied ==> open == Some("check read permissions on the file"@)
                && write == Some("check write permissions on the output directory"@)
            &&& io.kind is StorageFull ==> open is None && write == Some(
                "free up space on the destination volume or write elsewhere"@,
            )
            &&& io.kind is Other ==> open is None && write is None
        }),
{
}

/// The advice where a volume lacks space names exactly what is missing; where
/// nothing is, none.
pub proof fn law_advice_on_space_names_what_is_missing(
    path: Seq<char>,
    format: ImageFormatId,
    needed: u64,
    available: u64,
)
    ensures
        ({
            let advice = ErrorView::Output(
                (OutputView::OutOfSpace { path, format, needed, available }),
            ).advice();
            &&& needed >= available ==> (advice matches Some(text) && mentions(
                text,
                "free at least "@ + bytes_text((needed - available) as nat)
                    + " on the destination volume"@,
            ))
            &&& needed < available ==> (advice matches Some(text) && mentions(
                text,
                "free at least "@ + bytes_text(0) + " on the destination volume"@,
            ))
        }),
{
    let missing = if needed <= available {
        0nat
    } else {
        (needed - available) as nat
    };
    reveal_strlit(
        " on the destination volume, raise -t to process fewer images at once, or lower --speed",
    );
    reveal_strlit(" on the destination volume");
    let tail =
        " on the destination volume, raise -t to process fewer images at once, or lower --speed"@;
    let part = "free at least "@ + bytes_text(missing) + " on the destination volume"@;
    let more = tail.skip(26);
    assert(tail =~= " on the destination volume"@ + more);
    lemma_mentions(Seq::empty(), part, more);
    assert("free at least "@ + bytes_text(missing) + tail =~= Seq::<char>::empty() + part + more);
}

/// The advice on a limit names the number to stay under, where it comes from, and
/// the size of the image, if it is known. Where the bytes are too many it names
/// what is needed and what is allowed.
pub proof fn law_advice_on_limits_names_the_numbers(
    dimensions: Option<(u64, u64)>,
    violation: LimitViolation,
    verb: Seq<char>,
)
    ensures
        ({
            let hint = limit_hint(dimensions, violation, verb);
            let source = violation.binding.description();
            &&& mentions(hint, source)
            &&& violation.kind is Bytes ==> mentions(
                hint,
                "needs about "@ + bytes_text(violation.actual as nat) + " but only "@ + bytes_text(
                    violation.allowed as nat,
                ) + " is allowed"@,
            )
            &&& !(violation.kind is Bytes) ==> verb.is_prefix_of(hint) && mentions(
                hint,
                " is at most "@ + count_text(violation.allowed as nat),
            )
            &&& !(violation.kind is Bytes) && dimensions is Some ==> mentions(
                hint,
                size_text(dimensions->0),
            )
        }),
{
    let hint = limit_hint(dimensions, violation, verb);
    let source = violation.binding.description();
    if violation.kind is Bytes {
        let long =
            "free up space on the destination volume, or write elsewhere; writing this image needs about "@;
        reveal_strlit(
            "free up space on the destination volume, or write elsewhere; writing this image needs about ",
        );
        reveal_strlit("needs about ");
        reveal_strlit(" is allowed (from ");
        reveal_strlit(" is allowed");
        let head = long.take(long.len() - 12);
        assert(long =~= head + "needs about "@);
        let tail = " is allowed (from "@;
        let rest = tail.skip(11);
        assert(tail =~= " is allowed"@ + rest);
        let numbers = bytes_text(violation.actual as nat) + " but only "@ + bytes_text(
            violation.allowed as nat,
        );
        let part = "needs about "@ + bytes_text(violation.actual as nat) + " but only "@
            + bytes_text(violation.allowed as nat) + " is allowed"@;
        assert(hint =~= head + part + (rest + source + ")"@));
        lemma_mentions(head, part, rest + source + ")"@);
        assert(hint =~= (long + numbers + tail) + source + ")"@);
        lemma_mentions(long + numbers + tail, source, ")"@);
    } else {
        let named = " the image so its "@ + crate::error::hinted(violation.kind);
        let most = " is at most "@ + count_text(violation.allowed as nat);
        let start = verb + " the image so its "@ + crate::error::hinted(violation.kind)
            + " is at most "@ + count_text(violation.allowed as nat) + "; this limit comes from "@
            + source;
        let from = "; this limit comes from "@;
        assert(start =~= (verb + named) + most + (from + source));
        lemma_mentions(verb + named, most, from + source);
        lemma_mentions_at_end(verb + named + most + from, source);
        assert(start =~= (verb + named + most + from) + source);
        assert(verb.is_prefix_of(start)) by {
            assert(start.take(verb.len() as int) =~= verb);
        }
        if let Some(size) = dimensions {
            let tail = " (this image is "@ + size_text(size) + ")"@;
            assert(hint =~= start + tail);
            lemma_mentions_longer(start, source, tail);
            lemma_mentions_longer(start, most, tail);
            lemma_starts(start, tail, verb);
            assert(hint =~= (start + " (this image is "@) + size_text(size) + ")"@);
            lemma_mentions(start + " (this image is "@, size_text(size), ")"@);
        }
    }
}

/// Which failures have advice, and what it is where it does not depend on numbers.
pub proof fn law_every_kind_of_failure_has_its_advice(
    path: Seq<char>,
    format: ImageFormatId,
    cause: FailureView,
    violation: LimitViolation,
    dimensions: Option<(u64, u64)>,
)
    ensures
        ErrorView::Input((InputView::Decode { path, format, cause })).advice() == Some(
            "check that the file is not truncated or corrupt"@,
        ),
        ErrorView::Input((InputView::Configuration { path, format, cause })).advice() is None,
        ErrorView::Output((OutputView::Encode { path, format, cause })).advice() == Some(
            if cause.kind is UnsupportedColorspace {
                "choose an output format that accepts this image's colorspace"@
            } else {
                "check that this encoder supports the image's dimensions and bit depth, or choose another output format"@
            },
        ),
        ErrorView::Input(
            (InputView::SizeLimit { path, format, dimensions, violation }),
        ).advice() == Some(limit_hint(dimensions, violation, "shrink"@)),
        ErrorView::Output((OutputView::SizeLimit { path, format, violation })).advice() == Some(
            limit_hint(None, violation, "shrink"@),
        ),
        ErrorView::Input(
            (InputView::UnsupportedFormat {
                path,
                format,
                reason: UnsupportedReason::FeatureNotEnabled,
            }),
        ).advice() == Some(
            "rebuild with the feature that provides the "@ + format.label() + " decoder"@,
        ),
        ErrorView::Input(
            (InputView::UnsupportedFormat {
                path,
                format,
                reason: UnsupportedReason::NotImplemented,
            }),
        ).advice() == Some(
            "convert the file to a supported format (jpeg, png, webp, avif, tiff or svg) before optimizing it"@,
        ),
{
}

/// A size is written as its width, `x`, and its height.
pub proof fn law_a_size_is_width_by_height(width: u64, height: u64)
    ensures
        size_text((width, height)) == decimal(width as nat) + seq!['x'] + decimal(height as nat),
{
    reveal_strlit("x");
    assert("x"@ =~= seq!['x']);
}

} // verus!
