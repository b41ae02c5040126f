//! Files of each container written out byte by byte, and what the probes of the
//! header module read in them.
//!
//! A file is put together here from its parts, as its format lays them out, so
//! that what a probe answers is said of the bytes alone.

use vstd::prelude::*;
use crate::cli::headers::{
    avif_extent, be16, be32, box_payload, directory_extent, entry_at, entry_readable, entry_value,
    extent, fill_end, jpeg_extent, jpeg_walk, last_value, png_extent, tagged, tiff_extent, word16, word32,
};

verus! {

/// A number below 65536 as two bytes, the high one first.
pub open spec fn two_bytes(number: nat) -> Seq<u8> {
    seq![(number / 256) as u8, (number % 256) as u8]
}

/// A number below 4294967296 as four bytes, the highest one first.
pub open spec fn four_bytes(number: nat) -> Seq<u8> {
    seq![
        (number / 0x100_0000) as u8,
        (number / 0x1_0000 % 256) as u8,
        (number / 256 % 256) as u8,
        (number % 256) as u8,
    ]
}

proof fn lemma_two_bytes(number: nat)
    requires
        number <= 0xffff,
    ensures
        two_bytes(number).len() == 2,
        two_bytes(number)[0] * 256 + two_bytes(number)[1] == number,
{
}

proof fn lemma_four_bytes(number: nat)
    requires
        number <= 0xffff_ffff,
    ensures
        four_bytes(number).len() == 4,
        (four_bytes(number)[0] * 256 + four_bytes(number)[1]) * 65536 + four_bytes(number)[2] * 256
            + four_bytes(number)[3] == number,
{
    let top = number / 0x100_0000;
    let second = number / 0x1_0000 % 256;
    let third = number / 256 % 256;
    let last = number % 256;
    assert(top <= 255);
    assert(top * 0x100_0000 + second * 0x1_0000 + third * 256 + last == number);
}

// --- PNG -------------------------------------------------------------------
/// The front of a PNG file: the eight bytes of the signature, the length of the
/// first chunk, its name `IHDR`, and the width and the height.
pub open spec fn png_front(length: nat, width: nat, height: nat) -> Seq<u8> {
    seq![0x89u8, 0x50u8, 0x4eu8, 0x47u8, 0x0du8, 0x0au8, 0x1au8, 0x0au8] + four_bytes(length)
        + seq![0x49u8, 0x48u8, 0x44u8, 0x52u8] + four_bytes(width) + four_bytes(height)
}

/// A PNG file has the size that is written into its first chunk, and none where
/// a side is written as zero.
pub proof fn law_a_png_has_the_size_in_its_first_chunk(
    length: nat,
    width: nat,
    height: nat,
    rest: Seq<u8>,
)
    requires
        width <= 0xffff_ffff,
        height <= 0xffff_ffff,
    ensures
        width > 0 && height > 0 ==> png_extent(png_front(length, width, height) + rest) == Some(
            (width as u64, height as u64),
        ),
        width == 0 || height == 0 ==> png_extent(png_front(length, width, height) + rest) is None,
{
    let data = png_front(length, width, height) + rest;
    lemma_four_bytes(width);
    lemma_four_bytes(height);
    assert(data[16] == four_bytes(width)[0] && data[17] == four_bytes(width)[1]);
    assert(data[18] == four_bytes(width)[2] && data[19] == four_bytes(width)[3]);
    assert(data[20] == four_bytes(height)[0] && data[21] == four_bytes(height)[1]);
    assert(data[22] == four_bytes(height)[2] && data[23] == four_bytes(height)[3]);
    assert(be32(data, 16) == width);
    assert(be32(data, 20) == height);
}

/// Nothing but a PNG file is sized as one: a file that is sized starts with the
/// signature, has `IHDR` as the name of its first chunk, and holds both sides.
pub proof fn law_only_a_png_is_sized_as_one(data: Seq<u8>)
    requires
        png_extent(data) is Some,
    ensures
        data.len() >= 24,
        data.take(8) == seq![0x89u8, 0x50u8, 0x4eu8, 0x47u8, 0x0du8, 0x0au8, 0x1au8, 0x0au8],
        data.subrange(12, 16) == seq![0x49u8, 0x48u8, 0x44u8, 0x52u8],
{
    assert(tagged(data, 0, 0x89, 0x50, 0x4e, 0x47));
    assert(tagged(data, 4, 0x0d, 0x0a, 0x1a, 0x0a));
    assert(data.take(8) =~= seq![0x89u8, 0x50u8, 0x4eu8, 0x47u8, 0x0du8, 0x0au8, 0x1au8, 0x0au8]);
    assert(data.subrange(12, 16) =~= seq![0x49u8, 0x48u8, 0x44u8, 0x52u8]);
}

// --- JPEG ------------------------------------------------------------------
/// A marker segment: its marker behind one `0xFF` and some fill bytes of the
/// same value, and what follows its length field.
pub struct JpegSegment {
    pub fill: nat,
    pub marker: u8,
    pub payload: Seq<u8>,
}

/// `0xFF`, fill bytes, and the marker.
pub open spec fn marker_bytes(fill: nat, marker: u8) -> Seq<u8> {
    Seq::new(1 + fill, |i: int| 0xffu8).push(marker)
}

/// A segment: the marker, the length of the rest with the length field itself,
/// and the rest.
pub open spec fn segment_bytes(segment: JpegSegment) -> Seq<u8> {
    marker_bytes(segment.fill, segment.marker) + two_bytes(segment.payload.len() + 2)
        + segment.payload
}

/// Segments, one behind the other.
pub open spec fn segments_bytes(segments: Seq<JpegSegment>) -> Seq<u8>
    decreases segments.len(),
{
    if segments.len() == 0 {
        seq![]
    } else {
        segment_bytes(segments.first()) + segments_bytes(segments.drop_first())
    }
}

/// The start-of-frame markers.
pub open spec fn frame_markers() -> Seq<u8> {
    seq![
        0xc0u8,
        0xc1u8,
        0xc2u8,
        0xc3u8,
        0xc5u8,
        0xc6u8,
        0xc7u8,
        0xc9u8,
        0xcau8,
        0xcbu8,
        0xcdu8,
        0xceu8,
        0xcfu8,
    ]
}

/// The markers that no length follows, and the one that starts a scan.
pub open spec fn bare_markers() -> Seq<u8> {
    seq![
        0x01u8,
        0xd0u8,
        0xd1u8,
        0xd2u8,
        0xd3u8,
        0xd4u8,
        0xd5u8,
        0xd6u8,
        0xd7u8,
        0xd8u8,
        0xd9u8,
        0xdau8,
    ]
}

/// Whether a segment is well formed and starts no frame.
pub open spec fn is_plain_segment(segment: JpegSegment) -> bool {
    &&& segment.marker != 0xff
    &&& !frame_markers().contains(segment.marker)
    &&& !bare_markers().contains(segment.marker)
    &&& segment.payload.len() + 2 <= 0xffff
}

/// A start-of-frame segment up to the width: the marker, the length, the sample
/// precision, the height and the width.
pub open spec fn frame_bytes(
    fill: nat,
    marker: u8,
    length: nat,
    precision: u8,
    width: nat,
    height: nat,
) -> Seq<u8> {
    marker_bytes(fill, marker) + two_bytes(length) + seq![precision] + two_bytes(height)
        + two_bytes(width)
}

proof fn lemma_frame_markers(marker: u8)
    ensures
        frame_markers().contains(marker) <==> (0xc0 <= marker <= 0xcf && marker != 0xc4 && marker
            != 0xc8 && marker != 0xcc),
        bare_markers().contains(marker) <==> (marker == 0x01 || 0xd0 <= marker <= 0xda),
{
    let frames = frame_markers();
    let bare = bare_markers();
    assert(frames[0] == 0xc0 && frames[1] == 0xc1 && frames[2] == 0xc2 && frames[3] == 0xc3);
    assert(frames[4] == 0xc5 && frames[5] == 0xc6 && frames[6] == 0xc7 && frames[7] == 0xc9);
    assert(frames[8] == 0xca && frames[9] == 0xcb && frames[10] == 0xcd && frames[11] == 0xce);
    assert(frames[12] == 0xcf);
    assert(bare[0] == 0x01 && bare[1] == 0xd0 && bare[2] == 0xd1 && bare[3] == 0xd2);
    assert(bare[4] == 0xd3 && bare[5] == 0xd4 && bare[6] == 0xd5 && bare[7] == 0xd6);
    assert(bare[8] == 0xd7 && bare[9] == 0xd8 && bare[10] == 0xd9 && bare[11] == 0xda);
}

/// The fill bytes end where something else follows them.
proof fn lemma_fill_ends(data: Seq<u8>, at: int, end: int)
    requires
        0 <= at <= end < data.len(),
        forall|i: int| at <= i < end ==> data[i] == 0xff,
        data[end] != 0xff,
    ensures
        fill_end(data, at) == end,
    decreases end - at,
{
    if at < end {
        lemma_fill_ends(data, at + 1, end);
    }
}

/// Where a marker stands in a file.
proof fn lemma_marker(data: Seq<u8>, front: Seq<u8>, fill: nat, marker: u8, rest: Seq<u8>)
    requires
        data == front + marker_bytes(fill, marker) + rest,
        marker != 0xff,
    ensures
        data[front.len() as int] == 0xff,
        data[front.len() as int + 1 + fill] == marker,
        fill_end(data, front.len() as int + 1) == front.len() + 1 + fill,
        forall|i: int|
            0 <= i < rest.len() ==> data[front.len() as int + 2 + fill + i] == #[trigger] rest[i],
        data.len() == front.len() + 2 + fill + rest.len(),
{
    let at = front.len() as int;
    let bytes = marker_bytes(fill, marker);
    assert(bytes.len() == fill + 2);
    assert forall|i: int| at <= i < at + 1 + fill implies data[i] == 0xff by {
        assert(data[i] == bytes[i - at]);
    }
    assert(data[at + 1 + fill] == bytes[1 + fill as int]);
    lemma_fill_ends(data, at + 1, at + 1 + fill);
    assert forall|i: int| 0 <= i < rest.len() implies data[at + 2 + fill + i]
        == #[trigger] rest[i] by {
        assert((front + bytes).len() == at + 2 + fill);
    }
}

/// The walk goes over a plain segment.
proof fn lemma_walk_over(data: Seq<u8>, front: Seq<u8>, segment: JpegSegment, rest: Seq<u8>)
    requires
        data == front + segment_bytes(segment) + rest,
        is_plain_segment(segment),
    ensures
        jpeg_walk(data, front.len() as int) == jpeg_walk(
            data,
            (front + segment_bytes(segment)).len() as int,
        ),
{
    let length = segment.payload.len() + 2;
    let behind = two_bytes(length) + segment.payload + rest;
    lemma_two_bytes(length);
    assert(data =~= front + marker_bytes(segment.fill, segment.marker) + behind);
    lemma_marker(data, front, segment.fill, segment.marker, behind);
    lemma_frame_markers(segment.marker);
    let code = front.len() as int + 1 + segment.fill;
    assert(behind[0] == two_bytes(length)[0]);
    assert(behind[1] == two_bytes(length)[1]);
    assert(be16(data, code + 1) == length);
    assert((front + segment_bytes(segment)).len() == code + 1 + length);
}

proof fn lemma_walk_over_all(
    data: Seq<u8>,
    front: Seq<u8>,
    segments: Seq<JpegSegment>,
    rest: Seq<u8>,
)
    requires
        data == front + segments_bytes(segments) + rest,
        forall|i: int| 0 <= i < segments.len() ==> is_plain_segment(#[trigger] segments[i]),
    ensures
        jpeg_walk(data, front.len() as int) == jpeg_walk(
            data,
            (front + segments_bytes(segments)).len() as int,
        ),
    decreases segments.len(),
{
    if segments.len() > 0 {
        let first = segments.first();
        let others = segments.drop_first();
        assert(is_plain_segment(segments[0]));
        assert(data =~= front + segment_bytes(first) + (segments_bytes(others) + rest));
        lemma_walk_over(data, front, first, segments_bytes(others) + rest);
        assert(data =~= (front + segment_bytes(first)) + segments_bytes(others) + rest);
        assert forall|i: int| 0 <= i < others.len() implies is_plain_segment(
            #[trigger] others[i],
        ) by {
            assert(others[i] == segments[i + 1]);
        }
        lemma_walk_over_all(data, front + segment_bytes(first), others, rest);
        assert(front + segments_bytes(segments) =~= (front + segment_bytes(first))
            + segments_bytes(others));
    } else {
        assert(front + segments_bytes(segments) =~= front);
    }
}

/// A JPEG file has the size in its first frame header: behind the two bytes of
/// the start marker and any number of other segments, a segment with any of the
/// start-of-frame markers decides, whatever follows it. One that holds a zero
/// leaves the file unsized.
pub proof fn law_a_jpeg_has_the_size_in_its_frame_header(
    segments: Seq<JpegSegment>,
    fill: nat,
    marker: u8,
    length: nat,
    precision: u8,
    width: nat,
    height: nat,
    rest: Seq<u8>,
)
    requires
        forall|i: int| 0 <= i < segments.len() ==> is_plain_segment(#[trigger] segments[i]),
        frame_markers().contains(marker),
        2 <= length <= 0xffff,
        width <= 0xffff,
        height <= 0xffff,
    ensures
        ({
            let data = seq![0xffu8, 0xd8u8] + segments_bytes(segments) + frame_bytes(
                fill,
                marker,
                length,
                precision,
                width,
                height,
            ) + rest;
            &&& width > 0 && height > 0 ==> jpeg_extent(data) == Some(
                (width as u64, height as u64),
            )
            &&& width == 0 || height == 0 ==> jpeg_extent(data) is None
        }),
{
    let start = seq![0xffu8, 0xd8u8];
    let frame = frame_bytes(fill, marker, length, precision, width, height);
    let data = start + segments_bytes(segments) + frame + rest;
    assert(data =~= start + segments_bytes(segments) + (frame + rest));
    lemma_walk_over_all(data, start, segments, frame + rest);
    let front = start + segments_bytes(segments);
    let fields = two_bytes(length) + seq![precision] + two_bytes(height) + two_bytes(width);
    lemma_two_bytes(length);
    lemma_two_bytes(height);
    lemma_two_bytes(width);
    assert(frame =~= marker_bytes(fill, marker) + fields);
    let behind = fields + rest;
    assert(data =~= front + marker_bytes(fill, marker) + behind);
    lemma_frame_markers(marker);
    lemma_marker(data, front, fill, marker, behind);
    let code = front.len() as int + 1 + fill;
    assert(behind[0] == two_bytes(length)[0] && behind[1] == two_bytes(length)[1]);
    assert(behind[3] == two_bytes(height)[0] && behind[4] == two_bytes(height)[1]);
    assert(behind[5] == two_bytes(width)[0] && behind[6] == two_bytes(width)[1]);
    assert(be16(data, code + 1) == length);
    assert(data[code + 4] == behind[3] && data[code + 5] == behind[4]);
    assert(data[code + 6] == behind[5] && data[code + 7] == behind[6]);
    assert(be16(data, code + 4) == height);
    assert(be16(data, code + 6) == width);
}

/// The start of a scan, or a marker that no length follows, leaves the file
/// unsized, whatever comes behind it; so does a byte that starts no marker, and a
/// file that does not begin with the start marker.
pub proof fn law_a_jpeg_is_unsized_where_the_segments_end(
    segments: Seq<JpegSegment>,
    fill: nat,
    marker: u8,
    stray: u8,
    rest: Seq<u8>,
    other: Seq<u8>,
)
    requires
        forall|i: int| 0 <= i < segments.len() ==> is_plain_segment(#[trigger] segments[i]),
        bare_markers().contains(marker),
        stray != 0xff,
        !seq![0xffu8, 0xd8u8].is_prefix_of(other),
    ensures
        jpeg_extent(
            seq![0xffu8, 0xd8u8] + segments_bytes(segments) + marker_bytes(fill, marker) + rest,
        ) is None,
        jpeg_extent(seq![0xffu8, 0xd8u8] + segments_bytes(segments) + seq![stray] + rest) is None,
        jpeg_extent(seq![0xffu8, 0xd8u8] + segments_bytes(segments)) is None,
        jpeg_extent(other) is None,
{
    let start = seq![0xffu8, 0xd8u8];
    let front = start + segments_bytes(segments);
    let bare = front + marker_bytes(fill, marker) + rest;
    lemma_frame_markers(marker);
    assert(bare =~= front + (marker_bytes(fill, marker) + rest));
    lemma_walk_over_all(bare, start, segments, marker_bytes(fill, marker) + rest);
    lemma_marker(bare, front, fill, marker, rest);
    let strayed = front + seq![stray] + rest;
    assert(strayed =~= front + (seq![stray] + rest));
    lemma_walk_over_all(strayed, start, segments, seq![stray] + rest);
    assert(strayed[front.len() as int] == stray);
    assert(front =~= front + Seq::<u8>::empty());
    lemma_walk_over_all(front, start, segments, Seq::empty());
    if other.len() >= 2 && other[0] == 0xff && other[1] == 0xd8 {
        assert(start.is_prefix_of(other));
    }
}

// --- AVIF ------------------------------------------------------------------
/// A box: the size of all of it, four letters, and what it holds.
pub open spec fn box_bytes(kind: Seq<u8>, payload: Seq<u8>) -> Seq<u8> {
    four_bytes(payload.len() + 8) + kind + payload
}

/// Boxes of some types and contents, one behind the other.
pub open spec fn boxes_bytes(boxes: Seq<(Seq<u8>, Seq<u8>)>) -> Seq<u8>
    decreases boxes.len(),
{
    if boxes.len() == 0 {
        seq![]
    } else {
        box_bytes(boxes.first().0, boxes.first().1) + boxes_bytes(boxes.drop_first())
    }
}

/// Whether these are boxes, and none of this type.
pub open spec fn are_other_boxes(boxes: Seq<(Seq<u8>, Seq<u8>)>, kind: Seq<u8>) -> bool {
    forall|i: int|
        0 <= i < boxes.len() ==> {
            &&& (#[trigger] boxes[i]).0.len() == 4
            &&& boxes[i].0 != kind
            &&& boxes[i].1.len() + 8 <= 0xffff_ffff
        }
}

/// The four letters of a box type.
pub open spec fn letters(kind: (u8, u8, u8, u8)) -> Seq<u8> {
    seq![kind.0, kind.1, kind.2, kind.3]
}

/// The first box of a type is found behind any others.
proof fn lemma_box_found(
    data: Seq<u8>,
    start: int,
    end: int,
    boxes: Seq<(Seq<u8>, Seq<u8>)>,
    kind: (u8, u8, u8, u8),
    payload: Seq<u8>,
    rest: Seq<u8>,
)
    requires
        0 <= start <= end <= data.len(),
        data.subrange(start, end) == boxes_bytes(boxes) + box_bytes(letters(kind), payload) + rest,
        are_other_boxes(boxes, letters(kind)),
        payload.len() + 8 <= 0xffff_ffff,
    ensures
        ({
            let at = start + boxes_bytes(boxes).len() + 8;
            &&& box_payload(data, start, end, kind) == Some((at, at + payload.len()))
            &&& at + payload.len() <= end
            &&& data.subrange(at, at + payload.len()) == payload
        }),
    decreases boxes.len(),
{
    let part = data.subrange(start, end);
    assert forall|i: int| 0 <= i < part.len() implies data[start + i] == #[trigger] part[i] by {}
    if boxes.len() == 0 {
        let head = four_bytes(payload.len() + 8);
        lemma_four_bytes(payload.len() + 8);
        assert(part =~= head + letters(kind) + payload + rest);
        assert(part.len() == 8 + payload.len() + rest.len());
        assert(part[0] == head[0] && part[1] == head[1] && part[2] == head[2] && part[3]
            == head[3]);
        assert(be32(data, start) == payload.len() + 8);
        assert(part[4] == kind.0 && part[5] == kind.1 && part[6] == kind.2 && part[7] == kind.3);
        assert(tagged(data, start + 4, kind.0, kind.1, kind.2, kind.3));
        assert(data.subrange(start + 8, start + 8 + payload.len()) =~= payload) by {
            assert forall|i: int| 0 <= i < payload.len() implies data[start + 8 + i]
                == payload[i] by {
                assert(data[start + 8 + i] == part[8 + i]);
            }
        }
    } else {
        let first = boxes.first();
        let others = boxes.drop_first();
        assert(boxes[0] == first);
        let size = first.1.len() + 8;
        let head = four_bytes(size);
        lemma_four_bytes(size);
        let behind = boxes_bytes(others) + box_bytes(letters(kind), payload) + rest;
        assert(part =~= head + first.0 + first.1 + behind);
        assert(part.len() == size + behind.len());
        assert(part[0] == head[0] && part[1] == head[1] && part[2] == head[2] && part[3]
            == head[3]);
        assert(be32(data, start) == size);
        assert(part[4] == first.0[0] && part[5] == first.0[1] && part[6] == first.0[2] && part[7]
            == first.0[3]);
        if tagged(data, start + 4, kind.0, kind.1, kind.2, kind.3) {
            assert(first.0 =~= letters(kind));
        }
        assert(data.subrange(start + size, end) =~= behind) by {
            assert forall|i: int| 0 <= i < behind.len() implies data[start + size + i]
                == behind[i] by {
                assert(data[start + size + i] == part[size + i]);
            }
        }
        assert forall|i: int| 0 <= i < others.len() implies {
            &&& (#[trigger] others[i]).0.len() == 4
            &&& others[i].0 != letters(kind)
            &&& others[i].1.len() + 8 <= 0xffff_ffff
        } by {
            assert(others[i] == boxes[i + 1]);
        }
        lemma_box_found(data, start + size, end, others, kind, payload, rest);
        assert(boxes_bytes(boxes).len() == size + boxes_bytes(others).len());
    }
}

/// What stands beside the box that is looked for: the boxes in front of it, and
/// whatever follows it.
pub struct Beside {
    pub before: Seq<(Seq<u8>, Seq<u8>)>,
    pub after: Seq<u8>,
}

/// A box of a type among others.
#[verifier::opaque]
pub open spec fn among(beside: Beside, kind: Seq<u8>, payload: Seq<u8>) -> Seq<u8> {
    boxes_bytes(beside.before) + box_bytes(kind, payload) + beside.after
}

/// What an `ispe` property says where it stands.
proof fn lemma_property(
    data: Seq<u8>,
    at: int,
    flags: Seq<u8>,
    width: nat,
    height: nat,
    more: Seq<u8>,
)
    requires
        0 <= at,
        flags.len() == 4,
        width <= 0xffff_ffff,
        height <= 0xffff_ffff,
        at + 12 + more.len() <= data.len(),
        data.subrange(at, at + 12 + more.len()) == flags + four_bytes(width) + four_bytes(height)
            + more,
    ensures
        be32(data, at + 4) == width,
        be32(data, at + 8) == height,
{
    let ispe = flags + four_bytes(width) + four_bytes(height) + more;
    let part = data.subrange(at, at + 12 + more.len());
    lemma_four_bytes(width);
    lemma_four_bytes(height);
    assert forall|i: int| 0 <= i < ispe.len() implies data[at + i] == #[trigger] ispe[i] by {
        assert(part[i] == ispe[i]);
    }
    assert(ispe[4] == four_bytes(width)[0] && ispe[5] == four_bytes(width)[1]);
    assert(ispe[6] == four_bytes(width)[2] && ispe[7] == four_bytes(width)[3]);
    assert(ispe[8] == four_bytes(height)[0] && ispe[9] == four_bytes(height)[1]);
    assert(ispe[10] == four_bytes(height)[2] && ispe[11] == four_bytes(height)[3]);
    assert(data[at + 4] == ispe[4] && data[at + 5] == ispe[5]);
    assert(data[at + 6] == ispe[6] && data[at + 7] == ispe[7]);
    assert(data[at + 8] == ispe[8] && data[at + 9] == ispe[9]);
    assert(data[at + 10] == ispe[10] && data[at + 11] == ispe[11]);
}

/// What four bytes precede stands behind them.
proof fn lemma_behind_flags(data: Seq<u8>, at: int, flags: Seq<u8>, inner: Seq<u8>)
    requires
        0 <= at,
        flags.len() == 4,
        at + 4 + inner.len() <= data.len(),
        data.subrange(at, at + 4 + inner.len()) == flags + inner,
    ensures
        data.subrange(at + 4, at + 4 + inner.len()) == inner,
{
    let part = data.subrange(at, at + 4 + inner.len());
    assert(data.subrange(at + 4, at + 4 + inner.len()) =~= part.skip(4));
    assert((flags + inner).skip(4) =~= inner);
}

/// A box among others is found, and is shorter than all of them together.
proof fn lemma_among(
    data: Seq<u8>,
    start: int,
    beside: Beside,
    kind: (u8, u8, u8, u8),
    payload: Seq<u8>,
)
    requires
        0 <= start,
        ({
            let bytes = among(beside, letters(kind), payload);
            &&& start + bytes.len() <= data.len()
            &&& data.subrange(start, start + bytes.len()) == bytes
        }),
        are_other_boxes(beside.before, letters(kind)),
        payload.len() + 8 <= 0xffff_ffff,
    ensures
        ({
            let bytes = among(beside, letters(kind), payload);
            let at = start + boxes_bytes(beside.before).len() + 8;
            &&& box_payload(data, start, start + bytes.len(), kind) == Some(
                (at, at + payload.len()),
            )
            &&& 0 <= at
            &&& at + payload.len() <= data.len()
            &&& data.subrange(at, at + payload.len()) == payload
        }),
{
    reveal(among);
    let bytes = among(beside, letters(kind), payload);
    lemma_box_found(
        data,
        start,
        start + bytes.len(),
        beside.before,
        kind,
        payload,
        beside.after,
    );
}

proof fn lemma_among_is_longer(beside: Beside, kind: Seq<u8>, payload: Seq<u8>)
    requires
        kind.len() == 4,
    ensures
        among(beside, kind, payload).len() >= payload.len() + 8,
{
    reveal(among);
}

/// Four boxes found one inside the other lead to the size.
proof fn lemma_boxes_lead(
    data: Seq<u8>,
    meta: (int, int),
    iprp: (int, int),
    ipco: (int, int),
    ispe: (int, int),
)
    requires
        box_payload(data, 0, data.len() as int, (0x6d, 0x65, 0x74, 0x61)) == Some(meta),
        box_payload(data, meta.0 + 4, meta.1, (0x69, 0x70, 0x72, 0x70)) == Some(iprp),
        box_payload(data, iprp.0, iprp.1, (0x69, 0x70, 0x63, 0x6f)) == Some(ipco),
        box_payload(data, ipco.0, ipco.1, (0x69, 0x73, 0x70, 0x65)) == Some(ispe),
        ispe.0 + 12 <= data.len(),
    ensures
        avif_extent(data) == extent(be32(data, ispe.0 + 4), be32(data, ispe.0 + 8)),
{
}

/// An AVIF file has the size in its `ispe` property: `ispe` lies inside `ipco`,
/// that inside `iprp`, and that inside `meta`. At each level any boxes of other
/// types may come before, and anything may follow. `meta` and `ispe` start with
/// four bytes of their own.
pub proof fn law_an_avif_has_the_size_in_its_property(
    top: Beside,
    second: Beside,
    third: Beside,
    fourth: Beside,
    meta_flags: Seq<u8>,
    ispe_flags: Seq<u8>,
    width: nat,
    height: nat,
    more: Seq<u8>,
)
    requires
        are_other_boxes(top.before, seq![0x6du8, 0x65u8, 0x74u8, 0x61u8]),
        are_other_boxes(second.before, seq![0x69u8, 0x70u8, 0x72u8, 0x70u8]),
        are_other_boxes(third.before, seq![0x69u8, 0x70u8, 0x63u8, 0x6fu8]),
        are_other_boxes(fourth.before, seq![0x69u8, 0x73u8, 0x70u8, 0x65u8]),
        meta_flags.len() == 4,
        ispe_flags.len() == 4,
        width <= 0xffff_ffff,
        height <= 0xffff_ffff,
        ({
            let ispe = ispe_flags + four_bytes(width) + four_bytes(height) + more;
            let ipco = among(fourth, seq![0x69u8, 0x73u8, 0x70u8, 0x65u8], ispe);
            let iprp = among(third, seq![0x69u8, 0x70u8, 0x63u8, 0x6fu8], ipco);
            let meta = meta_flags + among(second, seq![0x69u8, 0x70u8, 0x72u8, 0x70u8], iprp);
            meta.len() + 8 <= 0xffff_ffff
        }),
    ensures
        ({
            let ispe = ispe_flags + four_bytes(width) + four_bytes(height) + more;
            let ipco = among(fourth, seq![0x69u8, 0x73u8, 0x70u8, 0x65u8], ispe);
            let iprp = among(third, seq![0x69u8, 0x70u8, 0x63u8, 0x6fu8], ipco);
            let meta = meta_flags + among(second, seq![0x69u8, 0x70u8, 0x72u8, 0x70u8], iprp);
            let data = among(top, seq![0x6du8, 0x65u8, 0x74u8, 0x61u8], meta);
            &&& width > 0 && height > 0 ==> avif_extent(data) == Some(
                (width as u64, height as u64),
            )
            &&& width == 0 || height == 0 ==> avif_extent(data) is None
        }),
{
    let meta_kind = (0x6du8, 0x65u8, 0x74u8, 0x61u8);
    let iprp_kind = (0x69u8, 0x70u8, 0x72u8, 0x70u8);
    let ipco_kind = (0x69u8, 0x70u8, 0x63u8, 0x6fu8);
    let ispe_kind = (0x69u8, 0x73u8, 0x70u8, 0x65u8);
    let ispe = ispe_flags + four_bytes(width) + four_bytes(height) + more;
    let ipco = among(fourth, letters(ispe_kind), ispe);
    let iprp = among(third, letters(ipco_kind), ipco);
    let inner = among(second, letters(iprp_kind), iprp);
    let meta = meta_flags + inner;
    let data = among(top, letters(meta_kind), meta);
    assert(data.subrange(0, data.len() as int) =~= data);
    lemma_among_is_longer(fourth, letters(ispe_kind), ispe);
    lemma_among_is_longer(third, letters(ipco_kind), ipco);
    lemma_among_is_longer(second, letters(iprp_kind), iprp);
    let at = boxes_bytes(top.before).len() as int + 8;
    let at2 = at + 4 + boxes_bytes(second.before).len() + 8;
    let at3 = at2 + boxes_bytes(third.before).len() + 8;
    let at4 = at3 + boxes_bytes(fourth.before).len() + 8;
    lemma_among(data, 0, top, meta_kind, meta);
    lemma_behind_flags(data, at, meta_flags, inner);
    lemma_among(data, at + 4, second, iprp_kind, iprp);
    lemma_among(data, at2, third, ipco_kind, ipco);
    lemma_among(data, at3, fourth, ispe_kind, ispe);
    assert(ispe.len() == 12 + more.len());
    lemma_property(data, at4, ispe_flags, width, height, more);
    lemma_boxes_lead(
        data,
        (at, at + meta.len()),
        (at2, at2 + iprp.len()),
        (at3, at3 + ipco.len()),
        (at4, at4 + ispe.len()),
    );
}

// --- TIFF ------------------------------------------------------------------
/// A directory entry: its tag, the type and the number of its values, and the
/// value field.
pub struct TiffEntry {
    pub tag: u16,
    pub kind: u16,
    pub count: u32,
    pub field: Seq<u8>,
}

/// A number below 65536 as two bytes in the byte order of a file.
pub open spec fn ordered16(number: nat, little: bool) -> Seq<u8> {
    if little {
        two_bytes(number).reverse()
    } else {
        two_bytes(number)
    }
}

/// A number below 4294967296 as four bytes in the byte order of a file.
pub open spec fn ordered32(number: nat, little: bool) -> Seq<u8> {
    if little {
        four_bytes(number).reverse()
    } else {
        four_bytes(number)
    }
}

/// The twelve bytes of a directory entry.
pub open spec fn entry_bytes(entry: TiffEntry, little: bool) -> Seq<u8> {
    ordered16(entry.tag as nat, little) + ordered16(entry.kind as nat, little) + ordered32(
        entry.count as nat,
        little,
    ) + entry.field
}

/// Directory entries, one behind the other.
pub open spec fn entries_bytes(entries: Seq<TiffEntry>, little: bool) -> Seq<u8>
    decreases entries.len(),
{
    if entries.len() == 0 {
        seq![]
    } else {
        entries_bytes(entries.drop_last(), little) + entry_bytes(entries.last(), little)
    }
}

/// The front of a TIFF file: `II` or `MM` for its byte order, the number 42, and
/// where its first directory starts.
#[verifier::opaque]
pub open spec fn tiff_front(directory: nat, little: bool) -> Seq<u8> {
    (if little {
        seq![0x49u8, 0x49u8]
    } else {
        seq![0x4du8, 0x4du8]
    }) + ordered16(42, little) + ordered32(directory, little)
}

/// A TIFF file: its front, a gap, the number of the entries of the directory, the
/// entries, and whatever follows.
pub open spec fn tiff_file(
    little: bool,
    gap: Seq<u8>,
    entries: Seq<TiffEntry>,
    rest: Seq<u8>,
) -> Seq<u8> {
    tiff_front(8 + gap.len(), little) + gap + ordered16(entries.len(), little) + entries_bytes(
        entries,
        little,
    ) + rest
}

/// Whether an entry holds one number: as a `SHORT` in the first two bytes of the
/// field, or as a `LONG` in all four.
pub open spec fn holds_number(entry: TiffEntry, number: nat, little: bool) -> bool {
    &&& entry.count == 1
    &&& entry.field.len() == 4
    &&& {
        ||| entry.kind == 3 && number <= 0xffff && entry.field.take(2) == ordered16(number, little)
        ||| entry.kind == 4 && number <= 0xffff_ffff && entry.field == ordered32(number, little)
    }
}

/// Whether the entry at a place is the last one with this tag.
pub open spec fn is_last(entries: Seq<TiffEntry>, place: int, tag: u16) -> bool {
    &&& 0 <= place < entries.len()
    &&& entries[place].tag == tag
    &&& forall|i: int| place < i < entries.len() ==> (#[trigger] entries[i]).tag != tag
}

/// Whether an entry is either no dimension or one number.
pub open spec fn is_sound(entry: TiffEntry, little: bool) -> bool {
    &&& entry.field.len() == 4
    &&& entry.tag == 256 || entry.tag == 257 ==> exists|number: nat|
        #[trigger] holds_number(entry, number, little)
}

pub proof fn lemma_word16_of(data: Seq<u8>, at: int, number: nat, little: bool)
    requires
        0 <= at,
        at + 2 <= data.len(),
        number <= 0xffff,
        data.subrange(at, at + 2) == ordered16(number, little),
    ensures
        word16(data, at, little) == Some(number),
{
    let part = data.subrange(at, at + 2);
    lemma_two_bytes(number);
    assert(part[0] == data[at] && part[1] == data[at + 1]);
    if little {
        assert(part[0] == two_bytes(number)[1] && part[1] == two_bytes(number)[0]);
    }
}

proof fn lemma_word32_of(data: Seq<u8>, at: int, number: nat, little: bool)
    requires
        0 <= at,
        at + 4 <= data.len(),
        number <= 0xffff_ffff,
        data.subrange(at, at + 4) == ordered32(number, little),
    ensures
        word32(data, at, little) == Some(number),
{
    let part = data.subrange(at, at + 4);
    let bytes = four_bytes(number);
    lemma_four_bytes(number);
    assert(part[0] == data[at] && part[1] == data[at + 1] && part[2] == data[at + 2] && part[3]
        == data[at + 3]);
    if little {
        assert(part[0] == bytes[3] && part[1] == bytes[2] && part[2] == bytes[1] && part[3]
            == bytes[0]);
    }
}

pub proof fn lemma_entries(entries: Seq<TiffEntry>, little: bool, index: int)
    requires
        forall|i: int| 0 <= i < entries.len() ==> (#[trigger] entries[i]).field.len() == 4,
    ensures
        entries_bytes(entries, little).len() == 12 * entries.len(),
        0 <= index < entries.len() ==> entries_bytes(entries, little).subrange(
            12 * index,
            12 * index + 12,
        ) == entry_bytes(entries[index], little),
    decreases entries.len(),
{
    if entries.len() > 0 {
        let before = entries.drop_last();
        assert forall|i: int| 0 <= i < before.len() implies (#[trigger] before[i]).field.len()
            == 4 by {
            assert(before[i] == entries[i]);
        }
        lemma_entries(before, little, index);
        assert(entries[entries.len() - 1].field.len() == 4);
        let bytes = entries_bytes(entries, little);
        if 0 <= index < before.len() {
            assert(bytes.subrange(12 * index, 12 * index + 12) =~= entries_bytes(
                before,
                little,
            ).subrange(12 * index, 12 * index + 12));
        } else if index == before.len() {
            assert(bytes.subrange(12 * index, 12 * index + 12) =~= entry_bytes(
                entries[index],
                little,
            ));
        }
    }
}

/// What an entry says where it stands.
pub proof fn lemma_entry_fields(data: Seq<u8>, at: int, entry: TiffEntry, number: nat, little: bool)
    requires
        0 <= at,
        at + 12 <= data.len(),
        entry.field.len() == 4,
        data.subrange(at, at + 12) == entry_bytes(entry, little),
    ensures
        word16(data, at, little) == Some(entry.tag as nat),
        holds_number(entry, number, little) ==> entry_value(data, at, little) == Some(number),
        entry.count != 1 || (entry.kind != 3 && entry.kind != 4) ==> entry_value(data, at, little)
            is None,
        word16(data, at + 2, little) == Some(entry.kind as nat),
        word32(data, at + 4, little) == Some(entry.count as nat),
        holds_number(entry, number, little) && entry.kind == 3 ==> word16(data, at + 8, little)
            == Some(number),
        holds_number(entry, number, little) && entry.kind == 4 ==> word32(data, at + 8, little)
            == Some(number),
{
    let part = data.subrange(at, at + 12);
    assert(data.subrange(at, at + 2) =~= part.take(2));
    assert(part.take(2) =~= ordered16(entry.tag as nat, little));
    lemma_word16_of(data, at, entry.tag as nat, little);
    assert(data.subrange(at + 2, at + 4) =~= part.subrange(2, 4));
    assert(part.subrange(2, 4) =~= ordered16(entry.kind as nat, little));
    lemma_word16_of(data, at + 2, entry.kind as nat, little);
    assert(data.subrange(at + 4, at + 8) =~= part.subrange(4, 8));
    assert(part.subrange(4, 8) =~= ordered32(entry.count as nat, little));
    lemma_word32_of(data, at + 4, entry.count as nat, little);
    if holds_number(entry, number, little) {
        assert(data.subrange(at + 8, at + 12) =~= part.subrange(8, 12));
        assert(part.subrange(8, 12) =~= entry.field);
        if entry.kind == 3 {
            assert(data.subrange(at + 8, at + 10) =~= entry.field.take(2));
            lemma_word16_of(data, at + 8, number, little);
        } else {
            lemma_word32_of(data, at + 8, number, little);
        }
    }
}

/// The last entry with a tag decides.
proof fn lemma_decisive_value(
    data: Seq<u8>,
    ifd: int,
    entries: Seq<TiffEntry>,
    count: int,
    place: int,
    tag: u16,
    number: nat,
    little: bool,
)
    requires
        is_last(entries, place, tag),
        place < count <= entries.len(),
        forall|i: int|
            0 <= i < entries.len() ==> word16(data, #[trigger] entry_at(ifd, i), little) == Some(
                entries[i].tag as nat,
            ),
        entry_value(data, entry_at(ifd, place), little) == Some(number),
    ensures
        last_value(data, ifd, count, little, tag as nat) == Some(number),
    decreases count,
{
    assert(word16(data, entry_at(ifd, count - 1), little) == Some(entries[count - 1].tag as nat));
    if count - 1 != place {
        lemma_decisive_value(data, ifd, entries, count - 1, place, tag, number, little);
    }
}

/// Where an entry of a directory stands in a file.
pub proof fn lemma_entry_in_place(
    data: Seq<u8>,
    ifd: int,
    entries: Seq<TiffEntry>,
    index: int,
    little: bool,
)
    requires
        0 <= ifd,
        0 <= index < entries.len(),
        ifd + 2 + 12 * entries.len() <= data.len(),
        forall|i: int| 0 <= i < entries.len() ==> (#[trigger] entries[i]).field.len() == 4,
        data.subrange(ifd + 2, ifd + 2 + 12 * entries.len()) == entries_bytes(entries, little),
    ensures
        ({
            let at = entry_at(ifd, index);
            &&& 0 <= at
            &&& at + 12 <= data.len()
            &&& data.subrange(at, at + 12) == entry_bytes(entries[index], little)
        }),
{
    let at = entry_at(ifd, index);
    let table = entries_bytes(entries, little);
    lemma_entries(entries, little, index);
    assert(data.subrange(at, at + 12) =~= table.subrange(12 * index, 12 * index + 12));
}

/// What a directory gives where it stands.
proof fn lemma_directory(
    data: Seq<u8>,
    ifd: int,
    entries: Seq<TiffEntry>,
    width_place: int,
    height_place: int,
    width: nat,
    height: nat,
    little: bool,
)
    requires
        0 <= ifd,
        ifd + 2 + 12 * entries.len() <= data.len(),
        forall|i: int| 0 <= i < entries.len() ==> is_sound(#[trigger] entries[i], little),
        data.subrange(ifd + 2, ifd + 2 + 12 * entries.len()) == entries_bytes(entries, little),
        is_last(entries, width_place, 256),
        is_last(entries, height_place, 257),
        holds_number(entries[width_place], width, little),
        holds_number(entries[height_place], height, little),
    ensures
        last_value(data, ifd, entries.len() as int, little, 256) == Some(width),
        last_value(data, ifd, entries.len() as int, little, 257) == Some(height),
        forall|i: int|
            0 <= i < entries.len() ==> #[trigger] entry_readable(data, ifd, i, little),
{
    assert forall|i: int| 0 <= i < entries.len() implies (#[trigger] entries[i]).field.len() == 4 by {
        assert(is_sound(entries[i], little));
    }
    assert forall|i: int| 0 <= i < entries.len() implies word16(
        data,
        #[trigger] entry_at(ifd, i),
        little,
    ) == Some(entries[i].tag as nat) by {
        lemma_entry_in_place(data, ifd, entries, i, little);
        assert(is_sound(entries[i], little));
        lemma_entry_fields(data, entry_at(ifd, i), entries[i], width, little);
    }
    lemma_entry_in_place(data, ifd, entries, width_place, little);
    lemma_entry_in_place(data, ifd, entries, height_place, little);
    lemma_entry_fields(data, entry_at(ifd, width_place), entries[width_place], width, little);
    lemma_entry_fields(data, entry_at(ifd, height_place), entries[height_place], height, little);
    let count = entries.len() as int;
    lemma_decisive_value(data, ifd, entries, count, width_place, 256, width, little);
    lemma_decisive_value(data, ifd, entries, count, height_place, 257, height, little);
    assert forall|i: int| 0 <= i < entries.len() implies #[trigger] entry_readable(
        data,
        ifd,
        i,
        little,
    ) by {
        assert(word16(data, entry_at(ifd, i), little) == Some(entries[i].tag as nat));
        if entries[i].tag == 256 || entries[i].tag == 257 {
            assert(is_sound(entries[i], little));
            let number = choose|number: nat| #[trigger] holds_number(entries[i], number, little);
            lemma_entry_in_place(data, ifd, entries, i, little);
            lemma_entry_fields(data, entry_at(ifd, i), entries[i], number, little);
        }
    }
}

/// The words at the front of a file lead to its directory.
proof fn lemma_front_leads(data: Seq<u8>, ifd: nat, count: nat, little: bool)
    requires
        data.len() >= 8,
        little ==> data[0] == 0x49 && data[1] == 0x49,
        !little ==> data[0] == 0x4d && data[1] == 0x4d,
        word16(data, 2, little) == Some(42nat),
        word32(data, 4, little) == Some(ifd),
        word16(data, ifd as int, little) == Some(count),
    ensures
        tiff_extent(data) == directory_extent(data, ifd as int, count as int, little),
{
}

/// The parts of a file stand where the parts before them end.
pub proof fn lemma_parts(front: Seq<u8>, gap: Seq<u8>, number: Seq<u8>, table: Seq<u8>, rest: Seq<u8>)
    ensures
        ({
            let data = front + gap + number + table + rest;
            let a = front.len() as int;
            let b = a + gap.len();
            let c = b + number.len();
            let d = c + table.len();
            &&& d <= data.len()
            &&& data.take(a) == front
            &&& data.subrange(b, c) == number
            &&& data.subrange(c, d) == table
        }),
{
    let data = front + gap + number + table + rest;
    let a = front.len() as int;
    let b = a + gap.len();
    let c = b + number.len();
    let d = c + table.len();
    assert(data.take(a) =~= front);
    assert(data.subrange(b, c) =~= number);
    assert(data.subrange(c, d) =~= table);
}

/// What the front of a file says.
pub proof fn lemma_front_words(data: Seq<u8>, directory: nat, little: bool)
    requires
        data.len() >= 8,
        directory <= 0xffff_ffff,
        data.take(8) == tiff_front(directory, little),
    ensures
        little ==> data[0] == 0x49 && data[1] == 0x49,
        !little ==> data[0] == 0x4d && data[1] == 0x4d,
        word16(data, 2, little) == Some(42nat),
        word32(data, 4, little) == Some(directory),
{
    reveal(tiff_front);
    let front = data.take(8);
    assert(data[0] == front[0] && data[1] == front[1]);
    assert(data.subrange(2, 4) =~= front.subrange(2, 4));
    assert(front.subrange(2, 4) =~= ordered16(42, little));
    lemma_word16_of(data, 2, 42, little);
    assert(data.subrange(4, 8) =~= front.subrange(4, 8));
    assert(front.subrange(4, 8) =~= ordered32(directory, little));
    lemma_word32_of(data, 4, directory, little);
}

/// The parts at the front of a file lead to the directory behind them.
proof fn lemma_parts_lead(little: bool, gap: Seq<u8>, count: nat, table: Seq<u8>, rest: Seq<u8>)
    requires
        8 + gap.len() <= 0xffff_ffff,
        count <= 0xffff,
    ensures
        ({
            let data = tiff_front(8 + gap.len(), little) + gap + ordered16(count, little) + table
                + rest;
            let ifd = 8 + gap.len() as int;
            &&& ifd + 2 + table.len() <= data.len()
            &&& data.subrange(ifd + 2, ifd + 2 + table.len()) == table
            &&& tiff_extent(data) == directory_extent(data, ifd, count as int, little)
        }),
{
    let front = tiff_front(8 + gap.len(), little);
    let number = ordered16(count, little);
    let data = front + gap + number + table + rest;
    let ifd = 8 + gap.len() as int;
    assert(front.len() == 8) by {
        reveal(tiff_front);
    }
    assert(number.len() == 2);
    lemma_parts(front, gap, number, table, rest);
    lemma_front_words(data, 8 + gap.len(), little);
    lemma_word16_of(data, ifd, count, little);
    lemma_front_leads(data, 8 + gap.len(), count, little);
}

/// A file reaches the directory that it names.
proof fn lemma_tiff_layout(little: bool, gap: Seq<u8>, entries: Seq<TiffEntry>, rest: Seq<u8>)
    requires
        8 + gap.len() <= 0xffff_ffff,
        entries.len() <= 0xffff,
        forall|i: int| 0 <= i < entries.len() ==> (#[trigger] entries[i]).field.len() == 4,
    ensures
        ({
            let data = tiff_file(little, gap, entries, rest);
            let ifd = 8 + gap.len() as int;
            let count = entries.len() as int;
            &&& ifd + 2 + 12 * count <= data.len()
            &&& data.subrange(ifd + 2, ifd + 2 + 12 * count) == entries_bytes(entries, little)
            &&& tiff_extent(data) == directory_extent(data, ifd, count, little)
        }),
{
    lemma_entries(entries, little, -1);
    lemma_parts_lead(little, gap, entries.len(), entries_bytes(entries, little), rest);
}

/// A TIFF file has the size in its first directory, in either byte order: the
/// last entry with the tag 256 holds the width and the last with 257 the height,
/// each as a `SHORT` or a `LONG`, wherever in the directory they stand and
/// wherever in the file the directory starts.
pub proof fn law_a_tiff_has_the_size_in_its_directory(
    little: bool,
    gap: Seq<u8>,
    entries: Seq<TiffEntry>,
    rest: Seq<u8>,
    width_place: int,
    height_place: int,
    width: nat,
    height: nat,
)
    requires
        8 + gap.len() <= 0xffff_ffff,
        entries.len() <= 0xffff,
        forall|i: int| 0 <= i < entries.len() ==> is_sound(#[trigger] entries[i], little),
        is_last(entries, width_place, 256),
        is_last(entries, height_place, 257),
        holds_number(entries[width_place], width, little),
        holds_number(entries[height_place], height, little),
    ensures
        ({
            let data = tiff_file(little, gap, entries, rest);
            &&& width > 0 && height > 0 ==> tiff_extent(data) == Some(
                (width as u64, height as u64),
            )
            &&& width == 0 || height == 0 ==> tiff_extent(data) is None
        }),
{
    let data = tiff_file(little, gap, entries, rest);
    let ifd = 8 + gap.len() as int;
    let count = entries.len() as int;
    assert forall|i: int| 0 <= i < entries.len() implies (#[trigger] entries[i]).field.len() == 4 by {
        assert(is_sound(entries[i], little));
    }
    lemma_tiff_layout(little, gap, entries, rest);
    lemma_directory(data, ifd, entries, width_place, height_place, width, height, little);
}

/// A TIFF file whose directory lacks one of the two tags has no size, and neither
/// has one where an entry with such a tag is of another type or counts other than
/// one value.
pub proof fn law_a_tiff_without_readable_dimensions_is_unsized(
    little: bool,
    gap: Seq<u8>,
    entries: Seq<TiffEntry>,
    rest: Seq<u8>,
    place: int,
)
    requires
        8 + gap.len() <= 0xffff_ffff,
        entries.len() <= 0xffff,
        forall|i: int| 0 <= i < entries.len() ==> (#[trigger] entries[i]).field.len() == 4,
        ({
            ||| forall|i: int| 0 <= i < entries.len() ==> (#[trigger] entries[i]).tag != 256
            ||| forall|i: int| 0 <= i < entries.len() ==> (#[trigger] entries[i]).tag != 257
            ||| {
                &&& 0 <= place < entries.len()
                &&& entries[place].tag == 256 || entries[place].tag == 257
                &&& entries[place].count != 1 || (entries[place].kind != 3 && entries[place].kind
                    != 4)
            }
        }),
    ensures
        tiff_extent(tiff_file(little, gap, entries, rest)) is None,
{
    let data = tiff_file(little, gap, entries, rest);
    let ifd = 8 + gap.len() as int;
    let count = entries.len() as int;
    lemma_tiff_layout(little, gap, entries, rest);
    if forall|i: int| 0 <= i < entries.len() ==> (#[trigger] entries[i]).tag != 256 {
        lemma_no_value(data, ifd, entries, count, 256, little);
    } else if forall|i: int| 0 <= i < entries.len() ==> (#[trigger] entries[i]).tag != 257 {
        lemma_no_value(data, ifd, entries, count, 257, little);
    } else {
        lemma_entry_in_place(data, ifd, entries, place, little);
        lemma_entry_fields(data, entry_at(ifd, place), entries[place], 0, little);
        assert(!entry_readable(data, ifd, place, little));
    }
}

proof fn lemma_no_value(
    data: Seq<u8>,
    ifd: int,
    entries: Seq<TiffEntry>,
    count: int,
    tag: u16,
    little: bool,
)
    requires
        0 <= ifd,
        0 <= count <= entries.len(),
        ifd + 2 + 12 * entries.len() <= data.len(),
        forall|i: int| 0 <= i < entries.len() ==> (#[trigger] entries[i]).field.len() == 4,
        data.subrange(ifd + 2, ifd + 2 + 12 * entries.len()) == entries_bytes(entries, little),
        forall|i: int| 0 <= i < entries.len() ==> (#[trigger] entries[i]).tag != tag,
    ensures
        last_value(data, ifd, count, little, tag as nat) is None,
    decreases count,
{
    if count > 0 {
        lemma_no_value(data, ifd, entries, count - 1, tag, little);
        lemma_entry_in_place(data, ifd, entries, count - 1, little);
        assert(entries[count - 1].field.len() == 4);
        lemma_entry_fields(data, entry_at(ifd, count - 1), entries[count - 1], 0, little);
    }
}

/// Nothing but a TIFF file is sized as one: a file that is sized starts with its
/// byte order and the number 42 in that order.
pub proof fn law_only_a_tiff_is_sized_as_one(data: Seq<u8>)
    requires
        tiff_extent(data) is Some,
    ensures
        data.len() >= 8,
        data.take(4) == seq![0x49u8, 0x49u8, 0x2au8, 0x00u8] || data.take(4) == seq![
            0x4du8,
            0x4du8,
            0x00u8,
            0x2au8,
        ],
{
    let little = data[0] == 0x49;
    assert(word16(data, 2, little) == Some(42nat));
    if little {
        assert(data.take(4) =~= seq![0x49u8, 0x49u8, 0x2au8, 0x00u8]);
    } else {
        assert(data.take(4) =~= seq![0x4du8, 0x4du8, 0x00u8, 0x2au8]);
    }
    let ifd = word32(data, 4, little)->0 as int;
    assert(word16(data, ifd, little) is Some);
}

} // verus!
