//! Image dimensions read from the front of a file.
//!
//! Every container is walked by its own structure rather than scanned for a
//! byte pattern, because a pattern would also match inside compressed image
//! data and report the wrong size. A file that cannot be read this way is not
//! sized here: the decoder reports the real problem.

use vstd::prelude::*;

verus! {

/// Bytes of a file read to recover a JPEG frame header.
pub const JPEG_HEADER_PROBE_BYTES: usize = 65536;

/// Bytes of a file read to recover a WebP bitstream header.
pub const WEBP_HEADER_PROBE_BYTES: usize = 65536;

/// Bytes of a file read to recover a PNG `IHDR` chunk.
pub const PNG_HEADER_PROBE_BYTES: usize = 32;

/// Bytes of a file read to recover a container header.
pub const CONTAINER_HEADER_PROBE_BYTES: usize = 65536;

/// Two bytes as a big-endian number.
pub open spec fn be16(data: Seq<u8>, at: int) -> nat {
    (data[at] * 256 + data[at + 1]) as nat
}

/// Two bytes as a little-endian number.
pub open spec fn le16(data: Seq<u8>, at: int) -> nat {
    (data[at + 1] * 256 + data[at]) as nat
}

/// Four bytes as a big-endian number.
pub open spec fn be32(data: Seq<u8>, at: int) -> nat {
    be16(data, at) * 65536 + be16(data, at + 2)
}

/// Four bytes as a little-endian number.
pub open spec fn le32(data: Seq<u8>, at: int) -> nat {
    le16(data, at + 2) * 65536 + le16(data, at)
}

/// A width and a height, unless one of them is zero.
pub open spec fn extent(width: nat, height: nat) -> Option<(u64, u64)> {
    if width == 0 || height == 0 {
        None
    } else {
        Some((width as u64, height as u64))
    }
}

/// Whether four bytes are these.
pub open spec fn tagged(data: Seq<u8>, at: int, a: u8, b: u8, c: u8, d: u8) -> bool {
    data[at] == a && data[at + 1] == b && data[at + 2] == c && data[at + 3] == d
}

fn read_be16(data: &[u8], at: usize) -> (value: u16)
    requires
        at + 2 <= data@.len(),
    ensures
        value == be16(data@, at as int),
{
    data[at] as u16 * 256 + data[at + 1] as u16
}

fn read_be32(data: &[u8], at: usize) -> (value: u32)
    requires
        at + 4 <= data@.len(),
    ensures
        value == be32(data@, at as int),
{
    assert(data@.len() == data.len());
    read_be16(data, at) as u32 * 65536 + read_be16(data, at + 2) as u32
}

fn has_tag(data: &[u8], at: usize, a: u8, b: u8, c: u8, d: u8) -> (found: bool)
    requires
        at + 4 <= data@.len(),
    ensures
        found == tagged(data@, at as int, a, b, c, d),
{
    data[at] == a && data[at + 1] == b && data[at + 2] == c && data[at + 3] == d
}

// --- PNG -------------------------------------------------------------------
/// Whether the data starts with the signature of a PNG file.
pub open spec fn png_signed(data: Seq<u8>) -> bool {
    tagged(data, 0, 0x89, 0x50, 0x4e, 0x47) && tagged(data, 4, 0x0d, 0x0a, 0x1a, 0x0a)
}

/// The dimensions of a PNG file: the first two fields of the `IHDR` chunk,
/// which has to be the first chunk.
pub open spec fn png_extent(data: Seq<u8>) -> Option<(u64, u64)> {
    if data.len() >= 24 && png_signed(data) && tagged(data, 12, 0x49, 0x48, 0x44, 0x52) {
        extent(be32(data, 16), be32(data, 20))
    } else {
        None
    }
}

/// Read the width and height from a PNG `IHDR` chunk.
pub fn png_dimensions(data: &[u8]) -> (size: Option<(u64, u64)>)
    ensures
        size == png_extent(data@),
{
    if data.len() < 24 {
        return None;
    }
    if !has_tag(data, 0, 0x89, 0x50, 0x4e, 0x47) || !has_tag(data, 4, 0x0d, 0x0a, 0x1a, 0x0a) {
        return None;
    }
    if !has_tag(data, 12, 0x49, 0x48, 0x44, 0x52) {
        return None;
    }
    let width: u32 = read_be32(data, 16);
    let height: u32 = read_be32(data, 20);
    if width == 0 || height == 0 {
        return None;
    }
    Some((width as u64, height as u64))
}

// --- JPEG ------------------------------------------------------------------
/// Where the fill bytes from `at` on end: the first byte that is not `0xFF`,
/// or the end of the data.
pub open spec fn fill_end(data: Seq<u8>, at: int) -> int
    decreases data.len() - at,
{
    if at < data.len() && data[at] == 0xff {
        fill_end(data, at + 1)
    } else {
        at
    }
}

/// Markers that stand alone, without a length: `TEM`, `RST0` to `RST7`, `SOI`
/// and `EOI`.
pub open spec fn is_standalone(marker: u8) -> bool {
    marker == 0x01 || 0xd0 <= marker <= 0xd9
}

/// Markers of a frame header. `DHT`, `JPG` and `DAC` lie in the same range but
/// are none.
pub open spec fn is_frame_header(marker: u8) -> bool {
    0xc0 <= marker <= 0xcf && marker != 0xc4 && marker != 0xc8 && marker != 0xcc
}

/// The dimensions in the first frame header at or after `at`, following the
/// marker segments by their lengths.
pub open spec fn jpeg_walk(data: Seq<u8>, at: int) -> Option<(u64, u64)>
    decreases data.len() - at,
{
    if at + 4 > data.len() || data[at] != 0xff {
        None
    } else {
        let code = fill_end(data, at + 1);
        if code + 3 > data.len() || is_standalone(data[code]) || data[code] == 0xda {
            None
        } else {
            let length = be16(data, code + 1);
            if length < 2 {
                None
            } else if is_frame_header(data[code]) {
                if code + 8 > data.len() {
                    None
                } else {
                    extent(be16(data, code + 6), be16(data, code + 4))
                }
            } else if code + 1 + length > data.len() {
                None
            } else {
                proof {
                    lemma_fill_end(data, at + 1);
                }
                jpeg_walk(data, code + 1 + length)
            }
        }
    }
}

/// The dimensions of a JPEG file.
pub open spec fn jpeg_extent(data: Seq<u8>) -> Option<(u64, u64)> {
    if data.len() >= 2 && data[0] == 0xff && data[1] == 0xd8 {
        jpeg_walk(data, 2)
    } else {
        None
    }
}

/// Fill bytes only move forward.
pub proof fn lemma_fill_end(data: Seq<u8>, at: int)
    requires
        at <= data.len(),
    ensures
        at <= fill_end(data, at) <= data.len(),
        fill_end(data, at) < data.len() ==> data[fill_end(data, at)] != 0xff,
        forall|i: int| at <= i < fill_end(data, at) ==> data[i] == 0xff,
    decreases data.len() - at,
{
    if at < data.len() && data[at] == 0xff {
        lemma_fill_end(data, at + 1);
    }
}

/// Read the width and height from a JPEG start-of-frame segment.
///
/// The walk follows marker segments: each is a two-byte marker, then a
/// two-byte big-endian length that covers the length field itself. A marker
/// without a length would desynchronise the walk, so meeting one means that
/// the file cannot be sized. So does the start of a scan: the frame header
/// always precedes it.
pub fn jpeg_dimensions(data: &[u8]) -> (size: Option<(u64, u64)>)
    ensures
        size == jpeg_extent(data@),
{
    if data.len() < 2 || data[0] != 0xff || data[1] != 0xd8 {
        return None;
    }
    let mut at: usize = 2;
    while data.len() - at >= 4
        invariant
            at <= data@.len(),
            jpeg_extent(data@) == jpeg_walk(data@, at as int),
        decreases data@.len() - at,
    {
        if data[at] != 0xff {
            return None;
        }
        let mut code: usize = at + 1;
        while code < data.len() && data[code] == 0xff
            invariant
                at < code <= data@.len(),
                fill_end(data@, at + 1) == fill_end(data@, code as int),
            decreases data@.len() - code,
        {
            code = code + 1;
        }
        if data.len() - code < 3 {
            return None;
        }
        let marker: u8 = data[code];
        if marker == 0x01 || (0xd0 <= marker && marker <= 0xd9) || marker == 0xda {
            return None;
        }
        let length: usize = read_be16(data, code + 1) as usize;
        if length < 2 {
            return None;
        }
        if 0xc0 <= marker && marker <= 0xcf && marker != 0xc4 && marker != 0xc8 && marker != 0xcc {
            if data.len() - code < 8 {
                return None;
            }
            let height: u16 = read_be16(data, code + 4);
            let width: u16 = read_be16(data, code + 6);
            if width == 0 || height == 0 {
                return None;
            }
            return Some((width as u64, height as u64));
        }
        if data.len() - code - 1 < length {
            return None;
        }
        at = code + 1 + length;
    }
    None
}

// --- AVIF ------------------------------------------------------------------
/// The payload of the first box of a type among the boxes between `start` and
/// `end`, and where that box ends. Boxes follow each other by their declared
/// sizes; a size of zero or one, or one that leaves the range, ends the walk.
pub open spec fn box_payload(data: Seq<u8>, start: int, end: int, kind: (u8, u8, u8, u8)) -> Option<
    (int, int),
>
    decreases end - start,
{
    if start + 8 > end {
        None
    } else {
        let size = be32(data, start);
        if size < 2 || start + size > end {
            None
        } else if tagged(data, start + 4, kind.0, kind.1, kind.2, kind.3) {
            Some((start + 8, start + size))
        } else {
            box_payload(data, start + size, end, kind)
        }
    }
}

/// The dimensions of an AVIF file: the `ispe` property inside `meta`, `iprp`
/// and `ipco`. `meta` and `ispe` start with four bytes of version and flags.
pub open spec fn avif_extent(data: Seq<u8>) -> Option<(u64, u64)> {
    match box_payload(data, 0, data.len() as int, (0x6d, 0x65, 0x74, 0x61)) {
        None => None,
        Some(meta) => match box_payload(data, meta.0 + 4, meta.1, (0x69, 0x70, 0x72, 0x70)) {
            None => None,
            Some(iprp) => match box_payload(data, iprp.0, iprp.1, (0x69, 0x70, 0x63, 0x6f)) {
                None => None,
                Some(ipco) => match box_payload(data, ipco.0, ipco.1, (0x69, 0x73, 0x70, 0x65)) {
                    None => None,
                    Some(ispe) => if ispe.0 + 12 > data.len() {
                        None
                    } else {
                        extent(be32(data, ispe.0 + 4), be32(data, ispe.0 + 8))
                    },
                },
            },
        },
    }
}

/// A pair of positions as mathematical numbers.
pub open spec fn positions(range: Option<(usize, usize)>) -> Option<(int, int)> {
    match range {
        Some((start, end)) => Some((start as int, end as int)),
        None => None,
    }
}

/// Walks the boxes between `start` and `end` for one of the wanted type.
fn find_box(data: &[u8], start: usize, end: usize, kind: (u8, u8, u8, u8)) -> (range: Option<
    (usize, usize),
>)
    requires
        end <= data@.len(),
    ensures
        positions(range) == box_payload(data@, start as int, end as int, kind),
        range matches Some((payload, box_end)) ==> payload <= end && box_end <= end,
{
    let mut at: usize = start;
    while at <= end && end - at >= 8
        invariant
            end <= data@.len(),
            box_payload(data@, start as int, end as int, kind) == box_payload(
                data@,
                at as int,
                end as int,
                kind,
            ),
        decreases end - at,
    {
        let size: u32 = read_be32(data, at);
        if size < 2 || size as u64 > (end - at) as u64 {
            return None;
        }
        let box_end: usize = at + size as usize;
        if has_tag(data, at + 4, kind.0, kind.1, kind.2, kind.3) {
            return Some((at + 8, box_end));
        }
        at = box_end;
    }
    None
}

/// Read the width and height from an AVIF `ispe` property box.
pub fn avif_dimensions(data: &[u8]) -> (size: Option<(u64, u64)>)
    ensures
        size == avif_extent(data@),
{
    let end: usize = data.len();
    let meta = match find_box(data, 0, end, (0x6d, 0x65, 0x74, 0x61)) {
        Some(range) => range,
        None => return None,
    };
    if end - meta.0 < 4 {
        return None;
    }
    let iprp = match find_box(data, meta.0 + 4, meta.1, (0x69, 0x70, 0x72, 0x70)) {
        Some(range) => range,
        None => return None,
    };
    let ipco = match find_box(data, iprp.0, iprp.1, (0x69, 0x70, 0x63, 0x6f)) {
        Some(range) => range,
        None => return None,
    };
    let ispe = match find_box(data, ipco.0, ipco.1, (0x69, 0x73, 0x70, 0x65)) {
        Some(range) => range,
        None => return None,
    };
    if end - ispe.0 < 12 {
        return None;
    }
    let width: u32 = read_be32(data, ispe.0 + 4);
    let height: u32 = read_be32(data, ispe.0 + 8);
    if width == 0 || height == 0 {
        return None;
    }
    Some((width as u64, height as u64))
}

// --- TIFF ------------------------------------------------------------------
/// Two bytes in the byte order of the file, where they are there.
pub open spec fn word16(data: Seq<u8>, at: int, little: bool) -> Option<nat> {
    if at + 2 > data.len() {
        None
    } else if little {
        Some(le16(data, at))
    } else {
        Some(be16(data, at))
    }
}

/// Four bytes in the byte order of the file, where they are there.
pub open spec fn word32(data: Seq<u8>, at: int, little: bool) -> Option<nat> {
    if at + 4 > data.len() {
        None
    } else if little {
        Some(le32(data, at))
    } else {
        Some(be32(data, at))
    }
}

/// Whether a directory entry holds one of the two dimensions.
pub open spec fn is_dimension_tag(tag: nat) -> bool {
    tag == 0x100 || tag == 0x101
}

/// The value of the directory entry at `entry`: a `SHORT` sits in the first
/// two bytes of the value field under either byte order, a `LONG` in all four.
/// There has to be exactly one value.
pub open spec fn entry_value(data: Seq<u8>, entry: int, little: bool) -> Option<nat> {
    if word32(data, entry + 4, little) != Some(1nat) {
        None
    } else if word16(data, entry + 2, little) == Some(3nat) {
        word16(data, entry + 8, little)
    } else if word16(data, entry + 2, little) == Some(4nat) {
        word32(data, entry + 8, little)
    } else {
        None
    }
}

/// Where an entry of the directory at `ifd` starts.
pub open spec fn entry_at(ifd: int, index: int) -> int {
    ifd + 2 + index * 12
}

/// Whether an entry can be read as far as its tag asks for.
pub open spec fn entry_readable(data: Seq<u8>, ifd: int, index: int, little: bool) -> bool {
    match word16(data, entry_at(ifd, index), little) {
        None => false,
        Some(tag) => is_dimension_tag(tag) ==> entry_value(
            data,
            entry_at(ifd, index),
            little,
        ) is Some,
    }
}

/// The value of the last of the first `count` entries that has this tag.
pub open spec fn last_value(data: Seq<u8>, ifd: int, count: int, little: bool, tag: nat) -> Option<
    nat,
>
    decreases count,
{
    if count <= 0 {
        None
    } else if word16(data, entry_at(ifd, count - 1), little) == Some(tag) {
        entry_value(data, entry_at(ifd, count - 1), little)
    } else {
        last_value(data, ifd, count - 1, little, tag)
    }
}

/// The dimensions in the directory at `ifd`. An entry that cannot be read
/// leaves the whole file unsized.
pub open spec fn directory_extent(data: Seq<u8>, ifd: int, count: int, little: bool) -> Option<
    (u64, u64),
> {
    if exists|index: int|
        0 <= index < count && !(#[trigger] entry_readable(data, ifd, index, little)) {
        None
    } else {
        match (
            last_value(data, ifd, count, little, 0x100),
            last_value(data, ifd, count, little, 0x101),
        ) {
            (Some(width), Some(height)) => extent(width, height),
            _ => None,
        }
    }
}

/// The dimensions of a TIFF file: the byte order, the number 42, and the place
/// of the first directory.
pub open spec fn tiff_extent(data: Seq<u8>) -> Option<(u64, u64)> {
    if data.len() < 2 || !((data[0] == 0x49 && data[1] == 0x49) || (data[0] == 0x4d && data[1]
        == 0x4d)) {
        None
    } else {
        let little = data[0] == 0x49;
        if word16(data, 2, little) != Some(42nat) {
            None
        } else {
            match word32(data, 4, little) {
                None => None,
                Some(ifd) => match word16(data, ifd as int, little) {
                    None => None,
                    Some(count) => directory_extent(data, ifd as int, count as int, little),
                },
            }
        }
    }
}

/// A machine number as the number it stands for.
pub open spec fn widened16(value: Option<u16>) -> Option<nat> {
    match value {
        Some(value) => Some(value as nat),
        None => None,
    }
}

/// A machine number as the number it stands for.
pub open spec fn widened32(value: Option<u32>) -> Option<nat> {
    match value {
        Some(value) => Some(value as nat),
        None => None,
    }
}

/// Reads two bytes in the byte order of the file, where they are there.
pub fn read_word16(data: &[u8], at: u64, little: bool) -> (value: Option<u16>)
    ensures
        widened16(value) == word16(data@, at as int, little),
{
    if data.len() < 2 || at > data.len() as u64 - 2 {
        None
    } else if little {
        Some(data[at as usize + 1] as u16 * 256 + data[at as usize] as u16)
    } else {
        Some(read_be16(data, at as usize))
    }
}

/// Reads four bytes in the byte order of the file, where they are there.
pub fn read_word32(data: &[u8], at: u64, little: bool) -> (value: Option<u32>)
    ensures
        widened32(value) == word32(data@, at as int, little),
{
    if data.len() < 4 || at > data.len() as u64 - 4 {
        None
    } else if little {
        let i: usize = at as usize;
        let low: u32 = data[i + 1] as u32 * 256 + data[i] as u32;
        let high: u32 = data[i + 3] as u32 * 256 + data[i + 2] as u32;
        Some(high * 65536 + low)
    } else {
        Some(read_be32(data, at as usize))
    }
}

fn read_entry_value(data: &[u8], entry: u64, little: bool) -> (value: Option<u32>)
    requires
        entry <= 0x2_0000_0000,
    ensures
        widened32(value) == entry_value(data@, entry as int, little),
{
    match read_word32(data, entry + 4, little) {
        Some(count) => {
            if count != 1 {
                return None;
            }
        },
        None => return None,
    }
    match read_word16(data, entry + 2, little) {
        Some(kind) => {
            if kind == 3 {
                match read_word16(data, entry + 8, little) {
                    Some(value) => Some(value as u32),
                    None => None,
                }
            } else if kind == 4 {
                read_word32(data, entry + 8, little)
            } else {
                None
            }
        },
        None => None,
    }
}

/// Read the width and height from a TIFF image file directory.
pub fn tiff_dimensions(data: &[u8]) -> (size: Option<(u64, u64)>)
    ensures
        size == tiff_extent(data@),
{
    if data.len() < 2 {
        return None;
    }
    let little: bool = data[0] == 0x49 && data[1] == 0x49;
    if !little && !(data[0] == 0x4d && data[1] == 0x4d) {
        return None;
    }
    match read_word16(data, 2, little) {
        Some(magic) => {
            if magic != 42 {
                return None;
            }
        },
        None => return None,
    }
    let ifd: u64 = match read_word32(data, 4, little) {
        Some(offset) => offset as u64,
        None => return None,
    };
    let count: u64 = match read_word16(data, ifd, little) {
        Some(count) => count as u64,
        None => return None,
    };
    let mut width: Option<u32> = None;
    let mut height: Option<u32> = None;
    let mut index: u64 = 0;
    while index < count
        invariant
            index <= count <= 0xffff,
            ifd <= 0xffff_ffff,
            widened32(width) == last_value(data@, ifd as int, index as int, little, 0x100),
            widened32(height) == last_value(data@, ifd as int, index as int, little, 0x101),
            forall|i: int| 0 <= i < index ==> #[trigger] entry_readable(data@, ifd as int, i, little),
            tiff_extent(data@) == directory_extent(data@, ifd as int, count as int, little),
        decreases count - index,
    {
        let entry: u64 = ifd + 2 + index * 12;
        assert(entry == entry_at(ifd as int, index as int));
        let tag: u16 = match read_word16(data, entry, little) {
            Some(tag) => tag,
            None => {
                assert(!entry_readable(data@, ifd as int, index as int, little));
                return None;
            },
        };
        if tag == 0x100 || tag == 0x101 {
            let value: u32 = match read_entry_value(data, entry, little) {
                Some(value) => value,
                None => {
                    assert(!entry_readable(data@, ifd as int, index as int, little));
                    return None;
                },
            };
            if tag == 0x100 {
                width = Some(value);
            } else {
                height = Some(value);
            }
        }
        assert(entry_readable(data@, ifd as int, index as int, little));
        index = index + 1;
    }
    match (width, height) {
        (Some(w), Some(h)) => {
            if w > 0 && h > 0 {
                Some((w as u64, h as u64))
            } else {
                None
            }
        },
        _ => None,
    }
}

// --- Laws --------------------------------------------------------------------
/// Fill bytes that end inside a prefix end at the same place in the whole.
proof fn lemma_fill_end_of_prefix(data: Seq<u8>, length: int, at: int)
    requires
        0 <= at <= length <= data.len(),
        fill_end(data.take(length), at) < length,
    ensures
        fill_end(data, at) == fill_end(data.take(length), at),
    decreases length - at,
{
    if at < length && data[at] == 0xff {
        assert(data.take(length)[at] == data[at]);
        lemma_fill_end_of_prefix(data, length, at + 1);
    }
}

proof fn lemma_jpeg_walk_of_prefix(data: Seq<u8>, length: int, at: int)
    requires
        0 <= at,
        0 <= length <= data.len(),
        jpeg_walk(data.take(length), at) is Some,
    ensures
        jpeg_walk(data, at) == jpeg_walk(data.take(length), at),
    decreases length - at,
{
    let prefix = data.take(length);
    let code = fill_end(prefix, at + 1);
    lemma_fill_end(prefix, at + 1);
    lemma_fill_end_of_prefix(data, length, at + 1);
    if !is_frame_header(prefix[code]) {
        lemma_jpeg_walk_of_prefix(data, length, code + 1 + be16(prefix, code + 1));
    }
}

/// A JPEG size that the front of a file gives is the one that the whole file
/// gives: reading a prefix can leave a file unsized, but never mis-sizes it.
pub proof fn law_a_jpeg_prefix_never_misleads(data: Seq<u8>, length: int)
    requires
        0 <= length <= data.len(),
        jpeg_extent(data.take(length)) is Some,
    ensures
        jpeg_extent(data) == jpeg_extent(data.take(length)),
{
    lemma_jpeg_walk_of_prefix(data, length, 2);
}

/// A PNG size that the front of a file gives is the one that the whole file
/// gives.
pub proof fn law_a_png_prefix_never_misleads(data: Seq<u8>, length: int)
    requires
        0 <= length <= data.len(),
        png_extent(data.take(length)) is Some,
    ensures
        png_extent(data) == png_extent(data.take(length)),
{
}

/// The fixed number of bytes that is read from a PNG file settles its size.
pub proof fn law_a_png_is_sized_by_its_probe(data: Seq<u8>)
    requires
        data.len() >= PNG_HEADER_PROBE_BYTES,
    ensures
        png_extent(data.take(PNG_HEADER_PROBE_BYTES as int)) == png_extent(data),
{
}

proof fn lemma_box_of_prefix(
    data: Seq<u8>,
    length: int,
    start: int,
    end: int,
    whole_end: int,
    kind: (u8, u8, u8, u8),
)
    requires
        0 <= start,
        0 <= end <= length <= data.len(),
        end <= whole_end,
        box_payload(data.take(length), start, end, kind) is Some,
    ensures
        box_payload(data, start, whole_end, kind) == box_payload(
            data.take(length),
            start,
            end,
            kind,
        ),
        box_payload(data, start, whole_end, kind) matches Some(range) && 0 <= range.0 <= end && 0
            <= range.1 <= end,
    decreases end - start,
{
    let prefix = data.take(length);
    assert(be32(prefix, start) == be32(data, start));
    assert(tagged(prefix, start + 4, kind.0, kind.1, kind.2, kind.3) == tagged(
        data,
        start + 4,
        kind.0,
        kind.1,
        kind.2,
        kind.3,
    ));
    if !tagged(prefix, start + 4, kind.0, kind.1, kind.2, kind.3) {
        lemma_box_of_prefix(data, length, start + be32(prefix, start), end, whole_end, kind);
    }
}

/// An AVIF size that the front of a file gives is the one that the whole file
/// gives.
pub proof fn law_an_avif_prefix_never_misleads(data: Seq<u8>, length: int)
    requires
        0 <= length <= data.len(),
        avif_extent(data.take(length)) is Some,
    ensures
        avif_extent(data) == avif_extent(data.take(length)),
{
    let prefix = data.take(length);
    let top = (0x6du8, 0x65u8, 0x74u8, 0x61u8);
    let meta = box_payload(prefix, 0, length, top)->0;
    lemma_box_of_prefix(data, length, 0, length, data.len() as int, top);
    let second = (0x69u8, 0x70u8, 0x72u8, 0x70u8);
    let iprp = box_payload(prefix, meta.0 + 4, meta.1, second)->0;
    lemma_box_of_prefix(data, length, meta.0 + 4, meta.1, meta.1, second);
    let third = (0x69u8, 0x70u8, 0x63u8, 0x6fu8);
    let ipco = box_payload(prefix, iprp.0, iprp.1, third)->0;
    lemma_box_of_prefix(data, length, iprp.0, iprp.1, iprp.1, third);
    let fourth = (0x69u8, 0x73u8, 0x70u8, 0x65u8);
    lemma_box_of_prefix(data, length, ipco.0, ipco.1, ipco.1, fourth);
}

proof fn lemma_last_value_of_prefix(
    data: Seq<u8>,
    length: int,
    ifd: int,
    count: int,
    little: bool,
    tag: nat,
)
    requires
        0 <= length <= data.len(),
        0 <= ifd,
        is_dimension_tag(tag),
        forall|index: int|
            0 <= index < count ==> #[trigger] entry_readable(
                data.take(length),
                ifd,
                index,
                little,
            ),
    ensures
        last_value(data, ifd, count, little, tag) == last_value(
            data.take(length),
            ifd,
            count,
            little,
            tag,
        ),
    decreases count,
{
    if count > 0 {
        assert(entry_readable(data.take(length), ifd, count - 1, little));
        lemma_last_value_of_prefix(data, length, ifd, count - 1, little, tag);
    }
}

/// A TIFF size that the front of a file gives is the one that the whole file
/// gives.
pub proof fn law_a_tiff_prefix_never_misleads(data: Seq<u8>, length: int)
    requires
        0 <= length <= data.len(),
        tiff_extent(data.take(length)) is Some,
    ensures
        tiff_extent(data) == tiff_extent(data.take(length)),
{
    let prefix = data.take(length);
    let little = prefix[0] == 0x49;
    let ifd = word32(prefix, 4, little)->0 as int;
    let count = word16(prefix, ifd, little)->0 as int;
    assert forall|index: int| 0 <= index < count implies #[trigger] entry_readable(
        prefix,
        ifd,
        index,
        little,
    ) by {}
    assert forall|index: int| 0 <= index < count implies #[trigger] entry_readable(
        data,
        ifd,
        index,
        little,
    ) by {
        assert(entry_readable(prefix, ifd, index, little));
    }
    lemma_last_value_of_prefix(data, length, ifd, count, little, 0x100);
    lemma_last_value_of_prefix(data, length, ifd, count, little, 0x101);
}

/// No probe reports an empty image.
pub proof fn law_a_sized_image_is_not_empty(data: Seq<u8>, size: (u64, u64))
    requires
        png_extent(data) == Some(size) || jpeg_extent(data) == Some(size) || avif_extent(data)
            == Some(size) || tiff_extent(data) == Some(size),
    ensures
        size.0 > 0,
        size.1 > 0,
{
    if jpeg_extent(data) == Some(size) {
        lemma_jpeg_extent_is_not_empty(data, 2);
    }
    if tiff_extent(data) == Some(size) {
        let little = data[0] == 0x49;
        let ifd = word32(data, 4, little)->0 as int;
        let count = word16(data, ifd, little)->0 as int;
        lemma_last_value_is_small(data, ifd, count, little, 0x100);
        lemma_last_value_is_small(data, ifd, count, little, 0x101);
    }
}

proof fn lemma_jpeg_extent_is_not_empty(data: Seq<u8>, at: int)
    ensures
        jpeg_walk(data, at) matches Some(size) ==> size.0 > 0 && size.1 > 0,
    decreases data.len() - at,
{
    if at + 4 <= data.len() {
        let code = fill_end(data, at + 1);
        lemma_fill_end(data, at + 1);
        let next = code + 1 + be16(data, code + 1);
        if next <= data.len() {
            lemma_jpeg_extent_is_not_empty(data, next);
        }
    }
}

proof fn lemma_last_value_is_small(data: Seq<u8>, ifd: int, count: int, little: bool, tag: nat)
    ensures
        last_value(data, ifd, count, little, tag) matches Some(value) ==> value <= 0xffff_ffff,
    decreases count,
{
    if count > 0 {
        lemma_last_value_is_small(data, ifd, count - 1, little, tag);
    }
}

} // verus!
