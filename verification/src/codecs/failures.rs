//! What encoders say when they refuse an image.

use vstd::prelude::*;

use crate::color::ColorSpace;
use crate::error::{FailureKind, FailureView, ImageFailure, KindView};

verus! {

/// A failure of no particular kind.
pub open spec fn plain_failure(text: Seq<char>) -> FailureView {
    FailureView { kind: KindView::Other, text }
}

/// A decoder's refusal.
pub open spec fn refused_decode(text: Seq<char>) -> FailureView {
    FailureView { kind: KindView::Decode, text }
}

/// An encoder that gave up, and why.
pub open spec fn failed_encode(reason: Seq<char>) -> FailureView {
    plain_failure("Image could not be encoded, reason: "@ + reason)
}

/// An encoder that does not take the colour space of an image. `supported`
/// lists those it takes.
pub open spec fn refused_colorspace(found: ColorSpace, supported: Seq<char>) -> FailureView {
    FailureView {
        kind: KindView::UnsupportedColorspace,
        text: "Found colorspace "@ + found.named() + " but the encoder supports "@ + supported,
    }
}

/// An encoder that gave up, and why.
pub fn encode_failure(reason: &str) -> (failure: ImageFailure)
    ensures
        failure@ == failed_encode(reason@),
{
    let mut text = "Image could not be encoded, reason: ".to_owned();
    text.append(reason);
    ImageFailure::other(text)
}

/// An encoder that does not take the colour space of an image.
pub fn colorspace_failure(found: ColorSpace, supported: &str) -> (failure: ImageFailure)
    ensures
        failure@ == refused_colorspace(found, supported@),
{
    let mut text = "Found colorspace ".to_owned();
    text.append(found.label().as_str());
    text.append(" but the encoder supports ");
    text.append(supported);
    ImageFailure { kind: FailureKind::UnsupportedColorspace, text }
}

} // verus!
