//! Metadata that survives a JPEG to JPEG conversion: the pixel density and the
//! EXIF segment.

use vstd::prelude::*;

verus! {

/// Density parsed from a JFIF APP0 segment.
///
/// `unit` uses the values of the JFIF standard: 0 is an aspect ratio only, 1
/// is dots per inch, 2 is dots per centimetre.
#[derive(Debug, Clone, Copy, PartialEq, Eq, Structural)]
pub struct JfifDensity {
    /// What the densities count.
    pub unit: u8,
    /// Horizontal density.
    pub x_density: u16,
    /// Vertical density.
    pub y_density: u16,
}

/// Metadata that can be preserved from a JPEG source file.
#[derive(Debug)]
pub struct JpegSourceMetadata {
    /// The density of the first JFIF segment.
    pub jfif_density: Option<JfifDensity>,
    /// The payload of the first APP1 segment that starts with `Exif\0\0`,
    /// without the marker and the length.
    pub exif_app1: Option<Vec<u8>>,
}

/// Why the segments of a JPEG file cannot be read.
#[derive(Debug, Clone, Copy, PartialEq, Eq, Structural)]
pub enum MetadataError {
    /// The file ends inside a segment, or before the image.
    UnexpectedEof,
    /// A segment is shorter than its own length field.
    MalformedLength,
}

impl MetadataError {
    /// What the user is told.
    pub fn message(self) -> (message: &'static str)
        ensures
            message@ == (match self {
                MetadataError::UnexpectedEof => "failed to fill whole buffer"@,
                MetadataError::MalformedLength => "malformed JPEG segment length"@,
            }),
    {
        match self {
            MetadataError::UnexpectedEof => "failed to fill whole buffer",
            MetadataError::MalformedLength => "malformed JPEG segment length",
        }
    }
}

/// Why a segment cannot be put into a file.
#[derive(Debug, Clone, Copy, PartialEq, Eq, Structural)]
pub enum InsertError {
    /// The data does not start like a JPEG file.
    NotJpeg,
    /// The length field of a segment cannot express the payload.
    PayloadTooLarge,
}

impl InsertError {
    /// What the user is told.
    pub fn message(self) -> (message: &'static str)
        ensures
            message@ == (match self {
                InsertError::NotJpeg => "encoded output is not a JPEG"@,
                InsertError::PayloadTooLarge =>
                    "EXIF APP1 payload is too large for a JPEG segment"@,
            }),
    {
        match self {
            InsertError::NotJpeg => "encoded output is not a JPEG",
            InsertError::PayloadTooLarge => "EXIF APP1 payload is too large for a JPEG segment",
        }
    }
}

/// The largest payload of a segment: the length field counts itself.
pub const MAX_SEGMENT_PAYLOAD: usize = 65533;

/// What is known of a file at some point of the walk, by contents.
pub struct MetadataView {
    /// The density.
    pub density: Option<JfifDensity>,
    /// The EXIF payload.
    pub exif: Option<Seq<u8>>,
}

impl View for JpegSourceMetadata {
    type V = MetadataView;

    open spec fn view(&self) -> MetadataView {
        MetadataView {
            density: self.jfif_density,
            exif: match self.exif_app1 {
                Some(payload) => Some(payload@),
                None => None,
            },
        }
    }
}

/// Where the next byte with (or without) the value `0xFF` is, or the end.
pub open spec fn seek_ff(data: Seq<u8>, at: int, wanted: bool) -> int
    decreases data.len() - at,
{
    if 0 <= at < data.len() && (data[at] == 0xff) != wanted {
        seek_ff(data, at + 1, wanted)
    } else {
        at
    }
}

/// Where the next marker code is: after at least one `0xFF`, the first byte
/// that is another one.
pub open spec fn marker_at(data: Seq<u8>, at: int) -> int {
    seek_ff(data, seek_ff(data, at, true) + 1, false)
}

/// Two bytes as a big-endian number.
pub open spec fn be16(data: Seq<u8>, at: int) -> int {
    data[at] * 256 + data[at + 1]
}

/// Whether a JFIF header starts here.
pub open spec fn is_jfif(data: Seq<u8>, at: int) -> bool {
    data[at] == 0x4a && data[at + 1] == 0x46 && data[at + 2] == 0x49 && data[at + 3] == 0x46
        && data[at + 4] == 0
}

/// Whether an EXIF header starts here.
pub open spec fn is_exif(data: Seq<u8>, at: int) -> bool {
    data[at] == 0x45 && data[at + 1] == 0x78 && data[at + 2] == 0x69 && data[at + 3] == 0x66
        && data[at + 4] == 0 && data[at + 5] == 0
}

/// Markers without a length field.
pub open spec fn has_no_length(marker: u8) -> bool {
    marker == 0x01 || 0xd0 <= marker <= 0xd8
}

/// What a segment adds: the first density, and the first EXIF payload.
pub open spec fn absorbed(
    data: Seq<u8>,
    marker: u8,
    body: int,
    length: int,
    known: MetadataView,
) -> MetadataView {
    if marker == 0xe0 && known.density is None && length >= 14 && body + 14 <= data.len()
        && is_jfif(data, body) {
        MetadataView {
            density: Some(
                JfifDensity {
                    unit: data[body + 7],
                    x_density: be16(data, body + 8) as u16,
                    y_density: be16(data, body + 10) as u16,
                },
            ),
            ..known
        }
    } else if marker == 0xe1 && known.exif is None && length >= 6 && body + length <= data.len()
        && is_exif(data, body) {
        MetadataView { exif: Some(data.subrange(body, body + length)), ..known }
    } else {
        known
    }
}

/// What the segments from `at` on give, up to the end of the image or the
/// first scan.
pub open spec fn metadata_from(data: Seq<u8>, at: int, known: MetadataView) -> Result<
    MetadataView,
    MetadataError,
>
    decreases data.len() - at,
{
    let code = marker_at(data, at);
    if at < 0 || code >= data.len() {
        Err(MetadataError::UnexpectedEof)
    } else if data[code] == 0xd9 {
        Ok(known)
    } else if has_no_length(data[code]) {
        proof {
            lemma_marker_at(data, at);
        }
        metadata_from(data, code + 1, known)
    } else if code + 3 > data.len() {
        Err(MetadataError::UnexpectedEof)
    } else if be16(data, code + 1) < 2 {
        Err(MetadataError::MalformedLength)
    } else {
        let body = code + 3;
        let length = be16(data, code + 1) - 2;
        let found = absorbed(data, data[code], body, length, known);
        if data[code] == 0xda {
            Ok(found)
        } else if body + length > data.len() {
            Err(MetadataError::UnexpectedEof)
        } else {
            proof {
                lemma_marker_at(data, at);
            }
            metadata_from(data, body + length, found)
        }
    }
}

/// The metadata of a file, if it starts like a JPEG file.
pub open spec fn source_metadata(data: Seq<u8>) -> Result<Option<MetadataView>, MetadataError> {
    if data.len() < 2 || data[0] != 0xff || data[1] != 0xd8 {
        Ok(None)
    } else {
        match metadata_from(data, 2, MetadataView { density: None, exif: None }) {
            Ok(found) => Ok(Some(found)),
            Err(error) => Err(error),
        }
    }
}

proof fn lemma_seek_ff(data: Seq<u8>, at: int, wanted: bool)
    requires
        0 <= at,
    ensures
        at <= seek_ff(data, at, wanted),
        at <= data.len() ==> seek_ff(data, at, wanted) <= data.len(),
    decreases data.len() - at,
{
    if at < data.len() && (data[at] == 0xff) != wanted {
        lemma_seek_ff(data, at + 1, wanted);
    }
}

/// A marker code lies behind its prefix.
pub proof fn lemma_marker_at(data: Seq<u8>, at: int)
    requires
        0 <= at,
    ensures
        at < marker_at(data, at),
{
    lemma_seek_ff(data, at, true);
    lemma_seek_ff(data, seek_ff(data, at, true) + 1, false);
}

/// A result by its contents.
pub open spec fn metadata_of(result: Result<Option<JpegSourceMetadata>, MetadataError>) -> Result<
    Option<MetadataView>,
    MetadataError,
> {
    match result {
        Ok(Some(metadata)) => Ok(Some(metadata@)),
        Ok(None) => Ok(None),
        Err(error) => Err(error),
    }
}

fn read_be16(data: &[u8], at: usize) -> (value: u16)
    requires
        at + 2 <= data@.len(),
    ensures
        value == be16(data@, at as int),
{
    data[at] as u16 * 256 + data[at + 1] as u16
}

fn find_ff(data: &[u8], at: usize, wanted: bool) -> (index: usize)
    requires
        at <= data@.len(),
    ensures
        at <= index <= data@.len(),
        index == seek_ff(data@, at as int, wanted),
{
    let mut index: usize = at;
    while index < data.len() && (data[index] == 0xff) != wanted
        invariant
            at <= index <= data@.len(),
            seek_ff(data@, at as int, wanted) == seek_ff(data@, index as int, wanted),
        decreases data@.len() - index,
    {
        index = index + 1;
    }
    index
}

/// Reads the next marker, giving the place of its code.
fn read_marker(data: &[u8], at: usize) -> (code: Option<usize>)
    requires
        at <= data@.len(),
    ensures
        code is None <==> marker_at(data@, at as int) >= data@.len(),
        code matches Some(code) ==> code == marker_at(data@, at as int) && at < code
            < data@.len(),
{
    let prefix: usize = find_ff(data, at, true);
    proof {
        lemma_seek_ff(data@, seek_ff(data@, at as int, true) + 1, false);
    }
    if prefix >= data.len() {
        return None;
    }
    let code: usize = find_ff(data, prefix + 1, false);
    if code >= data.len() {
        None
    } else {
        Some(code)
    }
}

fn copy_range(data: &[u8], from: usize, to: usize) -> (bytes: Vec<u8>)
    requires
        from <= to <= data@.len(),
    ensures
        bytes@ == data@.subrange(from as int, to as int),
{
    let mut bytes: Vec<u8> = Vec::new();
    let mut i: usize = from;
    while i < to
        invariant
            from <= i <= to <= data@.len(),
            bytes@ == data@.subrange(from as int, i as int),
        decreases to - i,
    {
        bytes.push(data[i]);
        i = i + 1;
        assert(bytes@ =~= data@.subrange(from as int, i as int));
    }
    bytes
}

fn absorb(data: &[u8], marker: u8, body: usize, length: usize, known: &mut JpegSourceMetadata)
    requires
        body <= data@.len(),
    ensures
        final(known)@ == absorbed(data@, marker, body as int, length as int, old(known)@),
{
    let rest: usize = data.len() - body;
    if marker == 0xe0 {
        if known.jfif_density.is_none() && length >= 14 && rest >= 14 {
            if data[body] == 0x4a && data[body + 1] == 0x46 && data[body + 2] == 0x49 && data[body
                + 3] == 0x46 && data[body + 4] == 0 {
                known.jfif_density = Some(
                    JfifDensity {
                        unit: data[body + 7],
                        x_density: read_be16(data, body + 8),
                        y_density: read_be16(data, body + 10),
                    },
                );
            }
        }
    } else if marker == 0xe1 {
        if known.exif_app1.is_none() && length >= 6 && rest >= length {
            if data[body] == 0x45 && data[body + 1] == 0x78 && data[body + 2] == 0x69 && data[body
                + 3] == 0x66 && data[body + 4] == 0 && data[body + 5] == 0 {
                known.exif_app1 = Some(copy_range(data, body, body + length));
            }
        }
    }
}

/// Scans the beginning of a JPEG file for the density of the first JFIF
/// segment and for the first EXIF segment.
///
/// Image data after the start of a scan is never looked at. Gives `Ok(None)`
/// when the data does not start with the JPEG signature, and an error when the
/// segment structure is malformed.
pub fn read_jpeg_source_metadata(data: &[u8]) -> (result: Result<
    Option<JpegSourceMetadata>,
    MetadataError,
>)
    ensures
        metadata_of(result) == source_metadata(data@),
{
    if data.len() < 2 || data[0] != 0xff || data[1] != 0xd8 {
        return Ok(None);
    }
    let mut known = JpegSourceMetadata { jfif_density: None, exif_app1: None };
    let ghost whole = metadata_from(data@, 2, MetadataView { density: None, exif: None });
    assert(known@ == MetadataView { density: None, exif: None });
    let mut at: usize = 2;
    loop
        invariant
            at <= data@.len(),
            whole == metadata_from(data@, 2, MetadataView { density: None, exif: None }),
            whole == metadata_from(data@, at as int, known@),
            data@.len() >= 2 && data@[0] == 0xff && data@[1] == 0xd8,
        decreases data@.len() - at,
    {
        let code: usize = match read_marker(data, at) {
            Some(code) => code,
            None => return Err(MetadataError::UnexpectedEof),
        };
        let marker: u8 = data[code];
        if marker == 0xd9 {
            return Ok(Some(known));
        }
        if marker == 0x01 || (0xd0 <= marker && marker <= 0xd8) {
            at = code + 1;
            continue;
        }
        if data.len() - code < 3 {
            return Err(MetadataError::UnexpectedEof);
        }
        let total: usize = read_be16(data, code + 1) as usize;
        if total < 2 {
            return Err(MetadataError::MalformedLength);
        }
        let body: usize = code + 3;
        let length: usize = total - 2;
        absorb(data, marker, body, length, &mut known);
        if marker == 0xda {
            return Ok(Some(known));
        }
        if data.len() - body < length {
            return Err(MetadataError::UnexpectedEof);
        }
        at = body + length;
    }
}

/// The file with an APP1 segment right after its start marker.
pub open spec fn with_app1(data: Seq<u8>, payload: Seq<u8>) -> Seq<u8> {
    let length = payload.len() + 2;
    data.take(2) + seq![0xffu8, 0xe1u8, (length / 256) as u8, (length % 256) as u8] + payload
        + data.skip(2)
}

/// Puts an EXIF payload into an encoded JPEG file, right after the start
/// marker.
///
/// `exif_payload` is the payload without the marker and the length, as
/// [`read_jpeg_source_metadata`] gives it. A payload that the length field of
/// a segment cannot express is refused.
pub fn insert_jpeg_exif_app1(data: &[u8], exif_payload: &[u8]) -> (result: Result<
    Vec<u8>,
    InsertError,
>)
    ensures
        result == Err::<Vec<u8>, InsertError>(InsertError::NotJpeg) <==> data@.len() < 2 || data@[0]
            != 0xff || data@[1] != 0xd8,
        result == Err::<Vec<u8>, InsertError>(InsertError::PayloadTooLarge) <==> data@.len() >= 2
            && data@[0] == 0xff && data@[1] == 0xd8 && exif_payload@.len() > MAX_SEGMENT_PAYLOAD,
        result matches Ok(bytes) ==> bytes@ == with_app1(data@, exif_payload@),
{
    if data.len() < 2 || data[0] != 0xff || data[1] != 0xd8 {
        return Err(InsertError::NotJpeg);
    }
    if exif_payload.len() > MAX_SEGMENT_PAYLOAD {
        return Err(InsertError::PayloadTooLarge);
    }
    let length: usize = exif_payload.len() + 2;
    let mut out: Vec<u8> = Vec::new();
    out.push(0xff);
    out.push(0xd8);
    out.push(0xff);
    out.push(0xe1);
    out.push((length / 256) as u8);
    out.push((length % 256) as u8);
    let mut payload = copy_range(exif_payload, 0, exif_payload.len());
    out.append(&mut payload);
    let mut rest = copy_range(data, 2, data.len());
    out.append(&mut rest);
    assert(out@ =~= with_app1(data@, exif_payload@));
    Ok(out)
}

// --- Laws --------------------------------------------------------------------
proof fn lemma_seek_ff_within(data: Seq<u8>, more: Seq<u8>, at: int, wanted: bool)
    requires
        0 <= at,
        seek_ff(data, at, wanted) < data.len(),
    ensures
        seek_ff(data + more, at, wanted) == seek_ff(data, at, wanted),
    decreases data.len() - at,
{
    lemma_seek_ff(data, at, wanted);
    assert((data + more)[at] == data[at]);
    if (data[at] == 0xff) != wanted {
        lemma_seek_ff_within(data, more, at + 1, wanted);
    }
}

proof fn lemma_metadata_within(data: Seq<u8>, more: Seq<u8>, at: int, known: MetadataView)
    requires
        0 <= at,
        metadata_from(data, at, known) is Ok,
    ensures
        metadata_from(data + more, at, known) == metadata_from(data, at, known),
    decreases data.len() - at,
{
    let whole = data + more;
    let code = marker_at(data, at);
    lemma_marker_at(data, at);
    lemma_seek_ff(data, at, true);
    lemma_seek_ff(data, seek_ff(data, at, true) + 1, false);
    lemma_seek_ff_within(data, more, at, true);
    lemma_seek_ff_within(data, more, seek_ff(data, at, true) + 1, false);
    assert(marker_at(whole, at) == code);
    assert(whole[code] == data[code]);
    if data[code] == 0xd9 {
    } else if has_no_length(data[code]) {
        lemma_metadata_within(data, more, code + 1, known);
    } else {
        let body = code + 3;
        let length = be16(data, code + 1) - 2;
        assert(be16(whole, code + 1) == be16(data, code + 1));
        if data[code] != 0xda {
            assert(whole.subrange(body, body + length) =~= data.subrange(body, body + length));
            lemma_metadata_within(
                data,
                more,
                body + length,
                absorbed(data, data[code], body, length, known),
            );
        }
    }
}

/// Whatever follows the header of a file changes nothing: where the segments
/// of some data can be read, the same data with more behind it reads the same.
pub proof fn law_metadata_ignores_what_follows(data: Seq<u8>, more: Seq<u8>)
    requires
        source_metadata(data) matches Ok(Some(_)),
    ensures
        source_metadata(data + more) == source_metadata(data),
{
    lemma_metadata_within(data, more, 2, MetadataView { density: None, exif: None });
}

/// The walk over a file in which a segment was put in front of `at` is the
/// walk over the file, with the EXIF slot already taken.
proof fn lemma_metadata_shifted(
    data: Seq<u8>,
    front: Seq<u8>,
    at: int,
    known: MetadataView,
    exif: Seq<u8>,
)
    requires
        0 <= at,
    ensures
        ({
            let shifted = metadata_from(
                front + data,
                front.len() + at,
                MetadataView { density: known.density, exif: Some(exif) },
            );
            match metadata_from(data, at, known) {
                Ok(found) => shifted == Ok::<MetadataView, MetadataError>(
                    MetadataView { density: found.density, exif: Some(exif) },
                ),
                Err(error) => shifted == Err::<MetadataView, MetadataError>(error),
            }
        }),
    decreases data.len() - at,
{
    let whole = front + data;
    let shift = front.len() as int;
    lemma_seek_shifted(data, front, at, true);
    lemma_seek_ff(data, at, true);
    lemma_seek_shifted(data, front, seek_ff(data, at, true) + 1, false);
    lemma_marker_at(data, at);
    let code = marker_at(data, at);
    assert(marker_at(whole, shift + at) == shift + code);
    if code < data.len() {
        assert(whole[shift + code] == data[code]);
        if data[code] == 0xd9 {
        } else if has_no_length(data[code]) {
            lemma_metadata_shifted(data, front, code + 1, known, exif);
        } else if code + 3 <= data.len() {
            assert(be16(whole, shift + code + 1) == be16(data, code + 1));
            let body = code + 3;
            let length = be16(data, code + 1) - 2;
            if length >= 0 {
                let found = absorbed(data, data[code], body, length, known);
                let there = absorbed(
                    whole,
                    data[code],
                    shift + body,
                    length,
                    MetadataView { density: known.density, exif: Some(exif) },
                );
                assert(body + 14 <= data.len() ==> is_jfif(whole, shift + body) == is_jfif(
                    data,
                    body,
                ));
                assert(there == MetadataView { density: found.density, exif: Some(exif) });
                if data[code] != 0xda && body + length <= data.len() {
                    lemma_metadata_shifted(data, front, body + length, found, exif);
                }
            }
        }
    }
}

proof fn lemma_seek_shifted(data: Seq<u8>, front: Seq<u8>, at: int, wanted: bool)
    requires
        0 <= at,
    ensures
        seek_ff(front + data, front.len() + at, wanted) == front.len() + seek_ff(data, at, wanted),
    decreases data.len() - at,
{
    if at < data.len() {
        assert((front + data)[front.len() + at] == data[at]);
        if (data[at] == 0xff) != wanted {
            lemma_seek_shifted(data, front, at + 1, wanted);
        }
    }
}

/// An EXIF payload that was put into a file is the one that is read back, and
/// the density of the file stays what it was.
pub proof fn law_an_inserted_exif_segment_reads_back(data: Seq<u8>, payload: Seq<u8>)
    requires
        6 <= payload.len() <= MAX_SEGMENT_PAYLOAD,
        is_exif(payload, 0),
        data.len() >= 2,
        data[0] == 0xff,
        data[1] == 0xd8,
    ensures
        match source_metadata(data) {
            Ok(Some(found)) => source_metadata(with_app1(data, payload)) == Ok::<
                Option<MetadataView>,
                MetadataError,
            >(Some(MetadataView { density: found.density, exif: Some(payload) })),
            Ok(None) => false,
            Err(error) => source_metadata(with_app1(data, payload)) == Err::<
                Option<MetadataView>,
                MetadataError,
            >(error),
        },
{
    let length = payload.len() + 2;
    let whole = with_app1(data, payload);
    let head = data.take(2) + seq![0xffu8, 0xe1u8, (length / 256) as u8, (length % 256) as u8]
        + payload;
    let empty = MetadataView { density: None, exif: None };
    assert(whole[0] == 0xff && whole[1] == 0xd8);
    assert(whole[2] == 0xff && whole[3] == 0xe1);
    assert(whole[4] == (length / 256) as u8 && whole[5] == (length % 256) as u8);
    assert(be16(whole, 4) == length);
    reveal_with_fuel(seek_ff, 3);
    assert(marker_at(whole, 2) == 3);
    assert forall|i: int| 0 <= i < payload.len() implies whole[6 + i] == payload[i] by {}
    assert(is_exif(whole, 6));
    assert(whole.subrange(6, 6 + payload.len() as int) =~= payload);
    assert(absorbed(whole, 0xe1, 6, payload.len() as int, empty) == MetadataView {
        density: None,
        exif: Some(payload),
    });
    let after = 6 + payload.len() as int;
    assert(whole =~= head + data.skip(2));
    assert(metadata_from(whole, 2, empty) == metadata_from(
        whole,
        after,
        MetadataView { density: None, exif: Some(payload) },
    ));
    // The rest of the file is the old file behind another front of the same kind.
    let front = head.subrange(0, after - 2);
    lemma_metadata_shifted(data, front, 2, empty, payload);
    lemma_same_tail(
        whole,
        front + data,
        after,
        MetadataView { density: None, exif: Some(payload) },
    );
}

proof fn lemma_same_seek(a: Seq<u8>, b: Seq<u8>, at: int, wanted: bool, from: int)
    requires
        a.len() == b.len(),
        0 <= from <= at,
        forall|i: int| from <= i < a.len() ==> a[i] == b[i],
    ensures
        seek_ff(a, at, wanted) == seek_ff(b, at, wanted),
    decreases a.len() - at,
{
    if at < a.len() && (a[at] == 0xff) != wanted {
        lemma_same_seek(a, b, at + 1, wanted, from);
    }
}

/// The walk depends only on the data from where it starts.
proof fn lemma_same_tail(a: Seq<u8>, b: Seq<u8>, at: int, known: MetadataView)
    requires
        a.len() == b.len(),
        0 <= at,
        forall|i: int| at <= i < a.len() ==> a[i] == b[i],
    ensures
        metadata_from(a, at, known) == metadata_from(b, at, known),
    decreases a.len() - at,
{
    lemma_same_seek(a, b, at, true, at);
    lemma_seek_ff(a, at, true);
    lemma_same_seek(a, b, seek_ff(a, at, true) + 1, false, at);
    lemma_marker_at(a, at);
    let code = marker_at(a, at);
    if code < a.len() && a[code] != 0xd9 {
        if has_no_length(a[code]) {
            lemma_same_tail(a, b, code + 1, known);
        } else if code + 3 <= a.len() && be16(a, code + 1) >= 2 {
            let body = code + 3;
            let length = be16(a, code + 1) - 2;
            if body + length <= a.len() {
                assert(a.subrange(body, body + length) =~= b.subrange(body, body + length));
                lemma_same_tail(
                    a,
                    b,
                    body + length,
                    absorbed(a, a[code], body, length, known),
                );
            }
        }
    }
}

} // verus!
