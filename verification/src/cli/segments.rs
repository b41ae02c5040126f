//! What the metadata of a JPEG file is, said of the segments it is made of.

use vstd::prelude::*;
use crate::cli::containers::{
    marker_bytes, segment_bytes, segments_bytes, two_bytes, JpegSegment,
};
use crate::cli::jpeg::{
    absorbed, marker_at, metadata_from, seek_ff, source_metadata, with_app1, JfifDensity,
    MetadataError, MetadataView, MAX_SEGMENT_PAYLOAD,
};

verus! {

/// Whether a segment is a JFIF header: APP0, `JFIF` and a zero byte, and at least
/// fourteen bytes in all.
pub open spec fn is_jfif_segment(segment: JpegSegment) -> bool {
    &&& segment.marker == 0xe0
    &&& segment.payload.len() >= 14
    &&& segment.payload.take(5) == seq![0x4au8, 0x46u8, 0x49u8, 0x46u8, 0x00u8]
}

/// Whether a segment holds EXIF: APP1, `Exif` and two zero bytes.
pub open spec fn is_exif_segment(segment: JpegSegment) -> bool {
    &&& segment.marker == 0xe1
    &&& segment.payload.len() >= 6
    &&& segment.payload.take(6) == seq![0x45u8, 0x78u8, 0x69u8, 0x66u8, 0x00u8, 0x00u8]
}

/// Whether a segment is well formed: its marker is one that a length follows, and
/// the length can be written down.
pub open spec fn has_length(segment: JpegSegment) -> bool {
    &&& segment.marker != 0xff
    &&& segment.marker != 0x01
    &&& !(0xd0 <= segment.marker <= 0xda)
    &&& segment.payload.len() + 2 <= 0xffff
}

/// What a segment adds to what is known.
spec fn added(known: MetadataView, segment: JpegSegment) -> MetadataView {
    MetadataView {
        density: if known.density is None && is_jfif_segment(segment) {
            Some(
                JfifDensity {
                    unit: segment.payload[7],
                    x_density: (segment.payload[8] * 256 + segment.payload[9]) as u16,
                    y_density: (segment.payload[10] * 256 + segment.payload[11]) as u16,
                },
            )
        } else {
            known.density
        },
        exif: if known.exif is None && is_exif_segment(segment) {
            Some(segment.payload)
        } else {
            known.exif
        },
    }
}

spec fn added_all(known: MetadataView, segments: Seq<JpegSegment>) -> MetadataView
    decreases segments.len(),
{
    if segments.len() == 0 {
        known
    } else {
        added_all(added(known, segments.first()), segments.drop_first())
    }
}

/// The search goes over what it does not look for.
proof fn lemma_seek(data: Seq<u8>, at: int, end: int, wanted: bool)
    requires
        0 <= at <= end < data.len(),
        forall|i: int| at <= i < end ==> ((#[trigger] data[i]) == 0xff) != wanted,
        (data[end] == 0xff) == wanted,
    ensures
        seek_ff(data, at, wanted) == end,
    decreases end - at,
{
    if at < end {
        assert((data[at] == 0xff) != wanted);
        lemma_seek(data, at + 1, end, wanted);
    }
}

/// A marker is found where it stands.
proof fn lemma_marker_found(data: Seq<u8>, front: Seq<u8>, fill: nat, marker: u8, rest: Seq<u8>)
    requires
        data == front + marker_bytes(fill, marker) + rest,
        marker != 0xff,
    ensures
        marker_at(data, front.len() as int) == front.len() + 1 + fill,
        data[front.len() as int + 1 + fill] == marker,
        data.len() == front.len() + 2 + fill + rest.len(),
        forall|i: int|
            0 <= i < rest.len() ==> data[front.len() as int + 2 + fill + i] == #[trigger] rest[i],
{
    let at = front.len() as int;
    let bytes = marker_bytes(fill, marker);
    assert(bytes.len() == fill + 2);
    assert forall|i: int| at <= i < at + 1 + fill implies (#[trigger] data[i]) == 0xff by {
        assert(data[i] == bytes[i - at]);
    }
    assert(data[at + 1 + fill] == bytes[1 + fill as int]);
    assert(data[at] == 0xff);
    lemma_seek(data, at, at, true);
    lemma_seek(data, at + 1, at + 1 + fill, false);
    assert forall|i: int| 0 <= i < rest.len() implies data[at + 2 + fill + i]
        == #[trigger] rest[i] by {
        assert((front + bytes).len() == at + 2 + fill);
    }
}

/// What the head of a payload says.
proof fn lemma_heads(data: Seq<u8>, body: int, payload: Seq<u8>)
    requires
        0 <= body,
        body + payload.len() <= data.len(),
        data.subrange(body, body + payload.len()) == payload,
    ensures
        payload.len() >= 5 ==> (crate::cli::jpeg::is_jfif(data, body) <==> payload.take(5) == seq![
            0x4au8,
            0x46u8,
            0x49u8,
            0x46u8,
            0x00u8,
        ]),
        payload.len() >= 6 ==> (crate::cli::jpeg::is_exif(data, body) <==> payload.take(6) == seq![
            0x45u8,
            0x78u8,
            0x69u8,
            0x66u8,
            0x00u8,
            0x00u8,
        ]),
        forall|i: int| 0 <= i < payload.len() ==> data[body + i] == #[trigger] payload[i],
{
    let part = data.subrange(body, body + payload.len());
    assert forall|i: int| 0 <= i < payload.len() implies data[body + i] == #[trigger] payload[i] by {
        assert(part[i] == payload[i]);
    }
    if payload.len() >= 5 {
        let jfif = seq![0x4au8, 0x46u8, 0x49u8, 0x46u8, 0x00u8];
        let head = payload.take(5);
        assert(head[0] == payload[0] && head[1] == payload[1] && head[2] == payload[2]);
        assert(head[3] == payload[3] && head[4] == payload[4]);
        assert(data[body + 0] == payload[0]);
        assert(head == jfif ==> head[0] == jfif[0] && head[1] == jfif[1] && head[2] == jfif[2]
            && head[3] == jfif[3] && head[4] == jfif[4]);
        if crate::cli::jpeg::is_jfif(data, body) {
            assert(head =~= jfif);
        }
    }
    if payload.len() >= 6 {
        let exif = seq![0x45u8, 0x78u8, 0x69u8, 0x66u8, 0x00u8, 0x00u8];
        let head = payload.take(6);
        assert(head[0] == payload[0] && head[1] == payload[1] && head[2] == payload[2]);
        assert(head[3] == payload[3] && head[4] == payload[4] && head[5] == payload[5]);
        assert(data[body + 0] == payload[0]);
        assert(head == exif ==> head[0] == exif[0] && head[1] == exif[1] && head[2] == exif[2]
            && head[3] == exif[3] && head[4] == exif[4] && head[5] == exif[5]);
        if crate::cli::jpeg::is_exif(data, body) {
            assert(head =~= exif);
        }
    }
}

/// A segment adds what it holds.
proof fn lemma_absorbed(data: Seq<u8>, body: int, segment: JpegSegment, known: MetadataView)
    requires
        0 <= body,
        body + segment.payload.len() <= data.len(),
        data.subrange(body, body + segment.payload.len()) == segment.payload,
    ensures
        absorbed(data, segment.marker, body, segment.payload.len() as int, known) == added(
            known,
            segment,
        ),
{
    let payload = segment.payload;
    lemma_heads(data, body, payload);
    if payload.len() >= 14 {
        assert(data[body + 7] == payload[7]);
        assert(data[body + 8] == payload[8] && data[body + 9] == payload[9]);
        assert(data[body + 10] == payload[10] && data[body + 11] == payload[11]);
    }
}

/// The walk goes over a segment and adds what it holds.
proof fn lemma_segment(
    data: Seq<u8>,
    front: Seq<u8>,
    segment: JpegSegment,
    rest: Seq<u8>,
    known: MetadataView,
)
    requires
        data == front + segment_bytes(segment) + rest,
        has_length(segment),
    ensures
        metadata_from(data, front.len() as int, known) == metadata_from(
            data,
            (front + segment_bytes(segment)).len() as int,
            added(known, segment),
        ),
{
    let payload = segment.payload;
    let length = payload.len() + 2;
    let behind = two_bytes(length) + payload + rest;
    assert(two_bytes(length)[0] * 256 + two_bytes(length)[1] == length);
    assert(data =~= front + marker_bytes(segment.fill, segment.marker) + behind);
    lemma_marker_found(data, front, segment.fill, segment.marker, behind);
    let code = front.len() as int + 1 + segment.fill;
    assert(behind[0] == two_bytes(length)[0]);
    assert(behind[1] == two_bytes(length)[1]);
    assert(crate::cli::jpeg::be16(data, code + 1) == length);
    assert((front + segment_bytes(segment)).len() == code + 1 + length);
    let body = code + 3;
    assert(data.subrange(body, body + payload.len()) =~= payload) by {
        assert forall|i: int| 0 <= i < payload.len() implies data[body + i]
            == #[trigger] payload[i] by {
            assert(behind[2 + i] == payload[i]);
        }
    }
    lemma_absorbed(data, body, segment, known);
}

proof fn lemma_segments(
    data: Seq<u8>,
    front: Seq<u8>,
    segments: Seq<JpegSegment>,
    rest: Seq<u8>,
    known: MetadataView,
)
    requires
        data == front + segments_bytes(segments) + rest,
        forall|i: int| 0 <= i < segments.len() ==> has_length(#[trigger] segments[i]),
    ensures
        metadata_from(data, front.len() as int, known) == metadata_from(
            data,
            (front + segments_bytes(segments)).len() as int,
            added_all(known, segments),
        ),
    decreases segments.len(),
{
    if segments.len() > 0 {
        let first = segments.first();
        let others = segments.drop_first();
        assert(has_length(segments[0]));
        assert(data =~= front + segment_bytes(first) + (segments_bytes(others) + rest));
        lemma_segment(data, front, first, segments_bytes(others) + rest, known);
        assert(data =~= (front + segment_bytes(first)) + segments_bytes(others) + rest);
        assert forall|i: int| 0 <= i < others.len() implies has_length(#[trigger] others[i]) by {
            assert(others[i] == segments[i + 1]);
        }
        lemma_segments(data, front + segment_bytes(first), others, rest, added(known, first));
        assert(front + segments_bytes(segments) =~= (front + segment_bytes(first))
            + segments_bytes(others));
    } else {
        assert(front + segments_bytes(segments) =~= front);
    }
}

/// The first JFIF and the first EXIF segment count.
proof fn lemma_first_counts(known: MetadataView, segments: Seq<JpegSegment>, place: int)
    requires
        0 <= place < segments.len(),
    ensures
        known.density is Some ==> added_all(known, segments).density == known.density,
        known.exif is Some ==> added_all(known, segments).exif == known.exif,
        known.density is None && is_jfif_segment(segments[place]) && (forall|i: int|
            0 <= i < place ==> !is_jfif_segment(#[trigger] segments[i])) ==> added_all(
            known,
            segments,
        ).density == added(known, segments[place]).density,
        known.exif is None && is_exif_segment(segments[place]) && (forall|i: int|
            0 <= i < place ==> !is_exif_segment(#[trigger] segments[i])) ==> added_all(
            known,
            segments,
        ).exif == Some(segments[place].payload),
    decreases segments.len(),
{
    let first = segments.first();
    let others = segments.drop_first();
    let next = added(known, first);
    assert(segments[0] == first);
    if others.len() > 0 {
        let at = if place > 0 {
            place - 1
        } else {
            0
        };
        lemma_first_counts(next, others, at);
        if place > 0 {
            assert(others[place - 1] == segments[place]);
            if forall|i: int| 0 <= i < place ==> !is_jfif_segment(#[trigger] segments[i]) {
                assert(!is_jfif_segment(segments[0]));
                assert forall|i: int| 0 <= i < place - 1 implies !is_jfif_segment(
                    #[trigger] others[i],
                ) by {
                    assert(others[i] == segments[i + 1]);
                }
            }
            if forall|i: int| 0 <= i < place ==> !is_exif_segment(#[trigger] segments[i]) {
                assert(!is_exif_segment(segments[0]));
                assert forall|i: int| 0 <= i < place - 1 implies !is_exif_segment(
                    #[trigger] others[i],
                ) by {
                    assert(others[i] == segments[i + 1]);
                }
            }
        }
    } else {
        assert(added_all(next, others) == next);
    }
}

proof fn lemma_none_counts(known: MetadataView, segments: Seq<JpegSegment>)
    ensures
        (forall|i: int| 0 <= i < segments.len() ==> !is_jfif_segment(#[trigger] segments[i]))
            ==> added_all(known, segments).density == known.density,
        (forall|i: int| 0 <= i < segments.len() ==> !is_exif_segment(#[trigger] segments[i]))
            ==> added_all(known, segments).exif == known.exif,
    decreases segments.len(),
{
    if segments.len() > 0 {
        let others = segments.drop_first();
        assert(segments[0] == segments.first());
        lemma_none_counts(added(known, segments.first()), others);
        if forall|i: int| 0 <= i < segments.len() ==> !is_jfif_segment(#[trigger] segments[i]) {
            assert(!is_jfif_segment(segments[0]));
            assert forall|i: int| 0 <= i < others.len() implies !is_jfif_segment(
                #[trigger] others[i],
            ) by {
                assert(others[i] == segments[i + 1]);
            }
        }
        if forall|i: int| 0 <= i < segments.len() ==> !is_exif_segment(#[trigger] segments[i]) {
            assert(!is_exif_segment(segments[0]));
            assert forall|i: int| 0 <= i < others.len() implies !is_exif_segment(
                #[trigger] others[i],
            ) by {
                assert(others[i] == segments[i + 1]);
            }
        }
    }
}

/// How the segments that hold metadata end: with the end of the image, or with
/// the segment that starts a scan.
pub open spec fn ending(scan: Option<JpegSegment>, fill: nat) -> Seq<u8> {
    match scan {
        None => marker_bytes(fill, 0xd9),
        Some(scan) => segment_bytes(scan),
    }
}

/// Whether a segment starts a scan.
pub open spec fn is_scan(segment: JpegSegment) -> bool {
    segment.marker == 0xda && segment.payload.len() + 2 <= 0xffff
}

proof fn lemma_ending(
    data: Seq<u8>,
    front: Seq<u8>,
    scan: Option<JpegSegment>,
    fill: nat,
    rest: Seq<u8>,
    known: MetadataView,
)
    requires
        data == front + ending(scan, fill) + rest,
        scan matches Some(segment) ==> is_scan(segment),
    ensures
        metadata_from(data, front.len() as int, known) == Ok::<MetadataView, MetadataError>(known),
{
    match scan {
        None => {
            lemma_marker_found(data, front, fill, 0xd9, rest);
        },
        Some(segment) => {
            let length = segment.payload.len() + 2;
            let behind = two_bytes(length) + segment.payload + rest;
            assert(two_bytes(length)[0] * 256 + two_bytes(length)[1] == length);
            assert(data =~= front + marker_bytes(segment.fill, 0xda) + behind);
            lemma_marker_found(data, front, segment.fill, 0xda, behind);
            let code = front.len() as int + 1 + segment.fill;
            assert(behind[0] == two_bytes(length)[0]);
            assert(behind[1] == two_bytes(length)[1]);
            assert(crate::cli::jpeg::be16(data, code + 1) == length);
        },
    }
}

/// The metadata of a JPEG file is that of its first JFIF and its first EXIF
/// segment, wherever they stand among the segments before the first scan or the
/// end of the image, and whatever follows. The density is the eighth byte and the
/// two numbers behind it; the EXIF payload is all of its segment.
pub proof fn law_the_first_segments_give_the_metadata(
    segments: Seq<JpegSegment>,
    scan: Option<JpegSegment>,
    fill: nat,
    rest: Seq<u8>,
    place: int,
)
    requires
        forall|i: int| 0 <= i < segments.len() ==> has_length(#[trigger] segments[i]),
        scan matches Some(segment) ==> is_scan(segment),
    ensures
        ({
            let data = seq![0xffu8, 0xd8u8] + segments_bytes(segments) + ending(scan, fill) + rest;
            source_metadata(data) matches Ok(Some(found)) && {
                &&& (0 <= place < segments.len() && is_jfif_segment(segments[place]) && forall|i: int|
                    0 <= i < place ==> !is_jfif_segment(#[trigger] segments[i])) ==> (found.density
                    matches Some(density) && {
                    let payload = segments[place].payload;
                    &&& density.unit == payload[7]
                    &&& density.x_density == payload[8] * 256 + payload[9]
                    &&& density.y_density == payload[10] * 256 + payload[11]
                })
                &&& (forall|i: int| 0 <= i < segments.len() ==> !is_jfif_segment(#[trigger] segments[i]))
                    ==> found.density is None
                &&& (0 <= place < segments.len() && is_exif_segment(segments[place]) && forall|i: int|
                    0 <= i < place ==> !is_exif_segment(#[trigger] segments[i])) ==> found.exif
                    == Some(segments[place].payload)
                &&& (forall|i: int| 0 <= i < segments.len() ==> !is_exif_segment(#[trigger] segments[i]))
                    ==> found.exif is None
            }
        }),
{
    let start = seq![0xffu8, 0xd8u8];
    let front = start + segments_bytes(segments);
    let data = front + ending(scan, fill) + rest;
    let nothing = MetadataView { density: None, exif: None };
    assert(data =~= front + (ending(scan, fill) + rest));
    lemma_segments(data, start, segments, ending(scan, fill) + rest, nothing);
    lemma_ending(data, front, scan, fill, rest, added_all(nothing, segments));
    lemma_none_counts(nothing, segments);
    if 0 <= place < segments.len() {
        lemma_first_counts(nothing, segments, place);
    }
}

/// A JPEG file that ends among its segments, or within one, is reported as cut
/// short, one with a segment too short for its own length field as malformed, and
/// what does not start like a JPEG file has no metadata.
pub proof fn law_broken_segments_are_reported(
    segments: Seq<JpegSegment>,
    cut: JpegSegment,
    missing: nat,
    length: nat,
    rest: Seq<u8>,
    other: Seq<u8>,
)
    requires
        forall|i: int| 0 <= i < segments.len() ==> has_length(#[trigger] segments[i]),
        has_length(cut),
        0 < missing <= cut.payload.len(),
        length < 2,
        !seq![0xffu8, 0xd8u8].is_prefix_of(other),
    ensures
        source_metadata(seq![0xffu8, 0xd8u8] + segments_bytes(segments)) == Err::<
            Option<MetadataView>,
            MetadataError,
        >(MetadataError::UnexpectedEof),
        source_metadata(
            seq![0xffu8, 0xd8u8] + segments_bytes(segments) + segment_bytes(cut).take(
                segment_bytes(cut).len() - missing,
            ),
        ) == Err::<Option<MetadataView>, MetadataError>(MetadataError::UnexpectedEof),
        source_metadata(
            seq![0xffu8, 0xd8u8] + segments_bytes(segments) + marker_bytes(cut.fill, cut.marker)
                + two_bytes(length) + rest,
        ) == Err::<Option<MetadataView>, MetadataError>(MetadataError::MalformedLength),
        source_metadata(other) == Ok::<Option<MetadataView>, MetadataError>(None),
{
    let start = seq![0xffu8, 0xd8u8];
    let front = start + segments_bytes(segments);
    let nothing = MetadataView { density: None, exif: None };
    let known = added_all(nothing, segments);
    assert(front =~= front + Seq::<u8>::empty());
    lemma_segments(front, start, segments, Seq::empty(), nothing);
    assert(front[0] == 0xff && front[1] == 0xd8);
    assert(marker_at(front, front.len() as int) == front.len() + 1);
    let whole = segment_bytes(cut);
    let part = whole.take(whole.len() - missing);
    let short = front + part;
    lemma_segments(short, start, segments, part, nothing);
    let kept = cut.payload.take(cut.payload.len() - missing);
    let full = cut.payload.len() + 2;
    assert(two_bytes(full)[0] * 256 + two_bytes(full)[1] == full);
    let behind = two_bytes(full) + kept;
    assert(part =~= marker_bytes(cut.fill, cut.marker) + behind);
    assert(short =~= front + marker_bytes(cut.fill, cut.marker) + behind);
    lemma_marker_found(short, front, cut.fill, cut.marker, behind);
    assert(behind[0] == two_bytes(full)[0] && behind[1] == two_bytes(full)[1]);
    assert(short[0] == 0xff && short[1] == 0xd8);
    let code = front.len() as int + 1 + cut.fill;
    assert(crate::cli::jpeg::be16(short, code + 1) == full);
    let tail = two_bytes(length) + rest;
    let bad = front + marker_bytes(cut.fill, cut.marker) + two_bytes(length) + rest;
    assert(bad =~= front + marker_bytes(cut.fill, cut.marker) + tail);
    assert(bad =~= front + (marker_bytes(cut.fill, cut.marker) + tail));
    lemma_segments(bad, start, segments, marker_bytes(cut.fill, cut.marker) + tail, nothing);
    lemma_marker_found(bad, front, cut.fill, cut.marker, tail);
    assert(tail[0] == two_bytes(length)[0] && tail[1] == two_bytes(length)[1]);
    assert(two_bytes(length)[0] * 256 + two_bytes(length)[1] == length);
    assert(crate::cli::jpeg::be16(bad, code + 1) == length);
    assert(bad[0] == 0xff && bad[1] == 0xd8);
    if other.len() >= 2 && other[0] == 0xff && other[1] == 0xd8 {
        assert(start.is_prefix_of(other));
    }
}

/// EXIF is put in as one APP1 segment right behind the start marker, and nothing
/// else changes. A segment takes up to what its length field can count.
pub proof fn law_exif_is_put_in_as_a_segment(data: Seq<u8>, payload: Seq<u8>)
    requires
        data.len() >= 2,
    ensures
        with_app1(data, payload) == data.take(2) + segment_bytes(
            (JpegSegment { fill: 0, marker: 0xe1, payload }),
        ) + data.skip(2),
        MAX_SEGMENT_PAYLOAD + 2 == 0xffff,
{
    let segment = JpegSegment { fill: 0, marker: 0xe1, payload };
    assert(marker_bytes(0, 0xe1) =~= seq![0xffu8, 0xe1u8]);
    assert(with_app1(data, payload) =~= data.take(2) + segment_bytes(segment) + data.skip(2));
}

/// The markers that no length follows, besides the end of the image.
pub open spec fn is_bare(marker: u8) -> bool {
    seq![
        0x01u8,
        0xd0u8,
        0xd1u8,
        0xd2u8,
        0xd3u8,
        0xd4u8,
        0xd5u8,
        0xd6u8,
        0xd7u8,
        0xd8u8,
    ].contains(marker)
}

/// The walk goes over a marker that no length follows.
proof fn lemma_bare(
    data: Seq<u8>,
    front: Seq<u8>,
    fill: nat,
    marker: u8,
    rest: Seq<u8>,
    known: MetadataView,
)
    requires
        data == front + marker_bytes(fill, marker) + rest,
        is_bare(marker),
    ensures
        metadata_from(data, front.len() as int, known) == metadata_from(
            data,
            (front + marker_bytes(fill, marker)).len() as int,
            known,
        ),
{
    let list = seq![
        0x01u8,
        0xd0u8,
        0xd1u8,
        0xd2u8,
        0xd3u8,
        0xd4u8,
        0xd5u8,
        0xd6u8,
        0xd7u8,
        0xd8u8,
    ];
    let k = choose|k: int| 0 <= k < list.len() && list[k] == marker;
    assert(marker == 0x01 || 0xd0 <= marker <= 0xd8);
    lemma_marker_found(data, front, fill, marker, rest);
}

/// What segments and an ending give from where they start.
proof fn lemma_rest(
    data: Seq<u8>,
    front: Seq<u8>,
    segments: Seq<JpegSegment>,
    scan: Option<JpegSegment>,
    fill: nat,
    rest: Seq<u8>,
    known: MetadataView,
)
    requires
        data == front + (segments_bytes(segments) + ending(scan, fill) + rest),
        forall|i: int| 0 <= i < segments.len() ==> has_length(#[trigger] segments[i]),
        scan matches Some(segment) ==> is_scan(segment),
    ensures
        metadata_from(data, front.len() as int, known) == Ok::<MetadataView, MetadataError>(
            added_all(known, segments),
        ),
{
    let bytes = segments_bytes(segments);
    let end = ending(scan, fill);
    assert(data =~= front + bytes + (end + rest));
    lemma_segments(data, front, segments, end + rest, known);
    assert(data =~= (front + bytes) + end + rest);
    lemma_ending(data, front + bytes, scan, fill, rest, added_all(known, segments));
}

proof fn lemma_reorder(
    a: Seq<u8>,
    b: Seq<u8>,
    c: Seq<u8>,
    d: Seq<u8>,
    e: Seq<u8>,
    f: Seq<u8>,
)
    ensures
        a + b + c + d + e + f == (a + b) + (c + (d + e + f)),
        a + b + c + d + e + f == (a + b + c) + (d + e + f),
        (a + b) + c + (d + e + f) == (a + b + c) + (d + e + f),
        a + b + d + e + f == (a + b) + (d + e + f),
{
    assert(a + b + c + d + e + f =~= (a + b) + (c + (d + e + f)));
    assert(a + b + c + d + e + f =~= (a + b + c) + (d + e + f));
    assert(a + b + d + e + f =~= (a + b) + (d + e + f));
}

/// A marker that no length follows is passed over: a file with one among its
/// segments has the metadata of the same file without it.
pub proof fn law_bare_markers_are_passed_over(
    first: Seq<JpegSegment>,
    second: Seq<JpegSegment>,
    bare_fill: nat,
    marker: u8,
    scan: Option<JpegSegment>,
    fill: nat,
    rest: Seq<u8>,
)
    requires
        forall|i: int| 0 <= i < first.len() ==> has_length(#[trigger] first[i]),
        forall|i: int| 0 <= i < second.len() ==> has_length(#[trigger] second[i]),
        is_bare(marker),
        scan matches Some(segment) ==> is_scan(segment),
    ensures
        source_metadata(
            seq![0xffu8, 0xd8u8] + segments_bytes(first) + marker_bytes(bare_fill, marker)
                + segments_bytes(second) + ending(scan, fill) + rest,
        ) == source_metadata(
            seq![0xffu8, 0xd8u8] + segments_bytes(first) + segments_bytes(second) + ending(
                scan,
                fill,
            ) + rest,
        ),
{
    let start = seq![0xffu8, 0xd8u8];
    let one = segments_bytes(first);
    let two = segments_bytes(second);
    let front = start + one;
    let bare = marker_bytes(bare_fill, marker);
    let end = ending(scan, fill);
    let tail = two + end + rest;
    let with = start + one + bare + two + end + rest;
    let without = start + one + two + end + rest;
    let nothing = MetadataView { density: None, exif: None };
    let known = added_all(nothing, first);
    lemma_reorder(start, one, bare, two, end, rest);
    lemma_segments(with, start, first, bare + tail, nothing);
    lemma_bare(with, front, bare_fill, marker, tail, known);
    lemma_rest(with, front + bare, second, scan, fill, rest, known);
    lemma_segments(without, start, first, tail, nothing);
    lemma_rest(without, front, second, scan, fill, rest, known);
    assert(with[0] == start[0] && with[1] == start[1]);
    assert(without[0] == start[0] && without[1] == start[1]);
}

} // verus!
