//! TIFF: the strips or tiles that the first directory of a file calls for.
//!
//! A picture is stored in chunks, strips or tiles, and the directory says how
//! large they are. How many there have to be is a product that a file is free to
//! make larger than a machine number holds.

use vstd::prelude::*;

use crate::cli::headers::{be32, le32, read_word16, read_word32, word16, word32};

verus! {

/// The width of the picture.
pub const IMAGE_WIDTH: u16 = 256;

/// The height of the picture.
pub const IMAGE_LENGTH: u16 = 257;

/// Where the strips are.
pub const STRIP_OFFSETS: u16 = 273;

/// How many samples a pixel has.
pub const SAMPLES_PER_PIXEL: u16 = 277;

/// How many rows a strip has.
pub const ROWS_PER_STRIP: u16 = 278;

/// How long the strips are.
pub const STRIP_BYTE_COUNTS: u16 = 279;

/// Whether the samples of a pixel stand together.
pub const PLANAR_CONFIGURATION: u16 = 284;

/// The width of a tile.
pub const TILE_WIDTH: u16 = 322;

/// The height of a tile.
pub const TILE_LENGTH: u16 = 323;

/// Where the tiles are.
pub const TILE_OFFSETS: u16 = 324;

/// How long the tiles are.
pub const TILE_BYTE_COUNTS: u16 = 325;

/// How a file writes its numbers: the byte order, and whether places and counts
/// take eight bytes or four.
#[derive(Debug, Clone, Copy)]
pub struct TiffForm {
    /// The low byte comes first.
    pub little: bool,
    /// Places and counts take eight bytes.
    pub big: bool,
}

/// A directory: where its entries start and how many it claims to have.
pub struct TiffDirectory {
    /// How the file writes its numbers.
    pub form: TiffForm,
    /// Where the first entry starts.
    pub start: int,
    /// How many entries there are.
    pub count: nat,
}

/// Eight bytes in the byte order of the file, where they are there.
pub open spec fn word64(data: Seq<u8>, at: int, little: bool) -> Option<nat> {
    if at + 8 > data.len() {
        None
    } else if little {
        Some(le32(data, at + 4) * 0x1_0000_0000 + le32(data, at))
    } else {
        Some(be32(data, at) * 0x1_0000_0000 + be32(data, at + 4))
    }
}

/// A machine number as the number it stands for.
pub open spec fn widened64(value: Option<u64>) -> Option<nat> {
    match value {
        Some(value) => Some(value as nat),
        None => None,
    }
}

/// A place or a count, as wide as the form has them.
pub open spec fn wide_word(data: Seq<u8>, at: int, form: TiffForm) -> Option<nat> {
    if form.big {
        word64(data, at, form.little)
    } else {
        word32(data, at, form.little)
    }
}

/// Whether this is the number of a field type.
pub open spec fn is_field_type(kind: nat) -> bool {
    1 <= kind <= 13 || 16 <= kind <= 18
}

/// Whether the entry at `at` has a field type.
pub open spec fn has_field_type(data: Seq<u8>, at: int, form: TiffForm) -> bool {
    word16(data, at + 2, form.little) matches Some(kind) && is_field_type(kind)
}

/// How long the entry at `at` is taken to be: one without a field type is passed
/// over as if it were a narrow one.
pub open spec fn entry_length(data: Seq<u8>, at: int, form: TiffForm) -> nat {
    if form.big && has_field_type(data, at, form) {
        20
    } else {
        12
    }
}

/// Where the last entry with this tag is, among the `count` entries from `at` on
/// that the file holds in full.
pub open spec fn field_at(data: Seq<u8>, at: int, count: nat, tag: u16, form: TiffForm) -> Option<
    int,
>
    decreases count,
{
    if count == 0 || at + entry_length(data, at, form) > data.len() {
        None
    } else {
        match field_at(data, at + entry_length(data, at, form), (count - 1) as nat, tag, form) {
            Some(place) => Some(place),
            None => if has_field_type(data, at, form) && word16(data, at, form.little) == Some(
                tag as nat,
            ) {
                Some(at)
            } else {
                None
            },
        }
    }
}

/// The number in the entry at `at`, where it is one unsigned number. A wide
/// number of a narrow form stands elsewhere in the file.
pub open spec fn field_number(data: Seq<u8>, at: int, form: TiffForm) -> Option<nat> {
    let value = at + if form.big {
        12int
    } else {
        8
    };
    if wide_word(data, at + 4, form) != Some(1nat) {
        None
    } else {
        match word16(data, at + 2, form.little) {
            None => None,
            Some(kind) => if kind == 1 || kind == 7 {
                if value < data.len() {
                    Some(data[value] as nat)
                } else {
                    None
                }
            } else if kind == 3 {
                word16(data, value, form.little)
            } else if kind == 4 || kind == 13 {
                word32(data, value, form.little)
            } else if kind == 16 || kind == 18 {
                if form.big {
                    word64(data, value, form.little)
                } else {
                    match word32(data, value, form.little) {
                        Some(place) => word64(data, place as int, form.little),
                        None => None,
                    }
                }
            } else {
                None
            },
        }
    }
}

/// How many numbers the entry at `at` lists, where it lists unsigned numbers.
pub open spec fn field_length(data: Seq<u8>, at: int, form: TiffForm) -> Option<nat> {
    match word16(data, at + 2, form.little) {
        Some(kind) if kind == 1 || kind == 3 || kind == 4 || kind == 7 || kind == 13 || kind == 16
            || kind == 18 => wide_word(data, at + 4, form),
        _ => None,
    }
}

/// The first directory of a file, where it starts as one.
pub open spec fn tiff_directory(data: Seq<u8>) -> Option<TiffDirectory> {
    if data.len() < 2 || !((data[0] == 0x49 && data[1] == 0x49) || (data[0] == 0x4d && data[1]
        == 0x4d)) {
        None
    } else {
        let little = data[0] == 0x49;
        if word16(data, 2, little) == Some(42nat) {
            match word32(data, 4, little) {
                None => None,
                Some(place) => match word16(data, place as int, little) {
                    None => None,
                    Some(count) => Some(
                        TiffDirectory {
                            form: TiffForm { little, big: false },
                            start: place + 2int,
                            count,
                        },
                    ),
                },
            }
        } else if word16(data, 2, little) == Some(43nat) && word16(data, 4, little) == Some(8nat)
            && word16(data, 6, little) == Some(0nat) {
            match word64(data, 8, little) {
                None => None,
                Some(place) => match word64(data, place as int, little) {
                    None => None,
                    Some(count) => Some(
                        TiffDirectory {
                            form: TiffForm { little, big: true },
                            start: place + 8int,
                            count,
                        },
                    ),
                },
            }
        } else {
            None
        }
    }
}

/// A length that a picture or a chunk can have.
pub open spec fn is_side(side: Option<nat>) -> bool {
    side matches Some(side) && 0 < side <= u32::MAX
}

/// How many pieces of a length cover a whole.
pub open spec fn pieces(whole: nat, piece: nat) -> nat {
    ((whole + piece - 1) / piece as int) as nat
}

/// Whether the strips of a picture can be counted.
pub open spec fn strips_countable(height: Option<nat>, rows: Option<nat>, planes: nat) -> bool {
    is_side(height) && is_side(rows) ==> pieces(height->0, rows->0) * planes <= u32::MAX
}

/// Whether the tiles of a picture can be counted.
pub open spec fn tiles_countable(
    width: Option<nat>,
    height: Option<nat>,
    tile_width: Option<nat>,
    tile_length: Option<nat>,
    planes: nat,
) -> bool {
    is_side(width) && is_side(height) && is_side(tile_width) && is_side(tile_length) ==> pieces(
        height->0,
        tile_length->0,
    ) * pieces(width->0, tile_width->0) * planes <= usize::MAX
}

impl TiffDirectory {
    /// Whether the directory has an entry with this tag.
    pub open spec fn has(self, data: Seq<u8>, tag: u16) -> bool {
        field_at(data, self.start, self.count, tag, self.form) is Some
    }

    /// The number that the directory gives under this tag.
    pub open spec fn number(self, data: Seq<u8>, tag: u16) -> Option<nat> {
        match field_at(data, self.start, self.count, tag, self.form) {
            Some(place) => field_number(data, place, self.form),
            None => None,
        }
    }

    /// How many planes the picture is stored in: one for each sample of a pixel
    /// where they stand apart.
    pub open spec fn planes(self, data: Seq<u8>) -> nat {
        match self.number(data, SAMPLES_PER_PIXEL) {
            Some(samples) if samples <= u16::MAX && self.number(data, PLANAR_CONFIGURATION) == Some(
                2nat,
            ) => samples,
            _ => 1,
        }
    }

    /// How many rows a strip has: all of them where the directory does not say.
    pub open spec fn rows_per_strip(self, data: Seq<u8>) -> Option<nat> {
        if self.has(data, ROWS_PER_STRIP) {
            self.number(data, ROWS_PER_STRIP)
        } else {
            self.number(data, IMAGE_LENGTH)
        }
    }

    /// Whether the strips are listed, and no tiles.
    pub open spec fn in_strips(self, data: Seq<u8>) -> bool {
        self.has(data, STRIP_BYTE_COUNTS) && self.has(data, STRIP_OFFSETS) && !self.has(
            data,
            TILE_BYTE_COUNTS,
        ) && !self.has(data, TILE_OFFSETS)
    }

    /// Whether the tiles are listed, and no strips.
    pub open spec fn in_tiles(self, data: Seq<u8>) -> bool {
        !self.has(data, STRIP_BYTE_COUNTS) && !self.has(data, STRIP_OFFSETS) && self.has(
            data,
            TILE_BYTE_COUNTS,
        ) && self.has(data, TILE_OFFSETS)
    }

    /// How many numbers the directory lists under this tag.
    pub open spec fn length(self, data: Seq<u8>, tag: u16) -> Option<nat> {
        match field_at(data, self.start, self.count, tag, self.form) {
            Some(place) => field_length(data, place, self.form),
            None => None,
        }
    }

    /// Whether two lists of numbers are of different lengths. The chunks of a
    /// picture with such lists are not counted.
    pub open spec fn uneven(self, data: Seq<u8>, one: u16, other: u16) -> bool {
        match (self.length(data, one), self.length(data, other)) {
            (Some(one), Some(other)) => one != other,
            _ => false,
        }
    }

    /// Whether the chunks that the directory calls for can be counted.
    pub open spec fn countable(self, data: Seq<u8>) -> bool {
        &&& self.in_strips(data) && !self.uneven(
            data,
            STRIP_OFFSETS,
            STRIP_BYTE_COUNTS,
        ) ==> strips_countable(
            self.number(data, IMAGE_LENGTH),
            self.rows_per_strip(data),
            self.planes(data),
        )
        &&& self.in_tiles(data) && !self.uneven(
            data,
            TILE_OFFSETS,
            TILE_BYTE_COUNTS,
        ) ==> tiles_countable(
            self.number(data, IMAGE_WIDTH),
            self.number(data, IMAGE_LENGTH),
            self.number(data, TILE_WIDTH),
            self.number(data, TILE_LENGTH),
            self.planes(data),
        )
    }
}

/// Whether the chunks that the first directory of a file calls for can be
/// counted: strips in 32 bits, tiles in the machine's own numbers. No file whose
/// chunks cannot is a picture, as it cannot list them all.
pub open spec fn chunks_countable(data: Seq<u8>) -> bool {
    tiff_directory(data) matches Some(directory) ==> directory.countable(data)
}

fn read_word64(data: &[u8], at: u64, little: bool) -> (value: Option<u64>)
    ensures
        widened64(value) == word64(data@, at as int, little),
{
    if data.len() < 8 || at > data.len() as u64 - 8 {
        return None;
    }
    match (read_word32(data, at, little), read_word32(data, at + 4, little)) {
        (Some(first), Some(second)) => {
            if little {
                Some(second as u64 * 0x1_0000_0000 + first as u64)
            } else {
                Some(first as u64 * 0x1_0000_0000 + second as u64)
            }
        },
        _ => None,
    }
}

fn read_wide_word(data: &[u8], at: u64, form: TiffForm) -> (value: Option<u64>)
    ensures
        widened64(value) == wide_word(data@, at as int, form),
{
    if form.big {
        read_word64(data, at, form.little)
    } else {
        match read_word32(data, at, form.little) {
            Some(value) => Some(value as u64),
            None => None,
        }
    }
}

/// A place as the number it stands for.
pub open spec fn place_view(place: Option<u64>) -> Option<int> {
    match place {
        Some(place) => Some(place as int),
        None => None,
    }
}

fn find_field(data: &[u8], start: u64, count: u64, tag: u16, form: TiffForm) -> (place: Option<u64>)
    ensures
        place_view(place) == field_at(data@, start as int, count as nat, tag, form),
        place matches Some(place) ==> place + 12 <= data@.len(),
{
    let length: u64 = data.len() as u64;
    let mut at: u64 = start;
    let mut left: u64 = count;
    let mut found: Option<u64> = None;
    while left > 0
        invariant
            length == data@.len(),
            found matches Some(place) ==> place + 12 <= length,
            field_at(data@, start as int, count as nat, tag, form) == match field_at(
                data@,
                at as int,
                left as nat,
                tag,
                form,
            ) {
                Some(place) => Some(place),
                None => place_view(found),
            },
        decreases left,
    {
        if length < 12 || at > length - 12 {
            return found;
        }
        let typed: bool = match read_word16(data, at + 2, form.little) {
            Some(kind) => 1 <= kind && kind <= 13 || 16 <= kind && kind <= 18,
            None => false,
        };
        let step: u64 = if form.big && typed {
            20
        } else {
            12
        };
        assert(step == entry_length(data@, at as int, form));
        if step > length - at {
            return found;
        }
        if typed {
            if let Some(value) = read_word16(data, at, form.little) {
                if value == tag {
                    found = Some(at);
                }
            }
        }
        at = at + step;
        left = left - 1;
    }
    found
}

fn read_field(data: &[u8], at: u64, form: TiffForm) -> (value: Option<u64>)
    requires
        at + 12 <= data@.len(),
    ensures
        widened64(value) == field_number(data@, at as int, form),
{
    assert(data@.len() == data.len());
    match read_wide_word(data, at + 4, form) {
        Some(count) => {
            if count != 1 {
                return None;
            }
        },
        None => return None,
    }
    let value: u64 = if form.big {
        at + 12
    } else {
        at + 8
    };
    let kind: u16 = match read_word16(data, at + 2, form.little) {
        Some(kind) => kind,
        None => return None,
    };
    if kind == 1 || kind == 7 {
        if value < data.len() as u64 {
            Some(data[value as usize] as u64)
        } else {
            None
        }
    } else if kind == 3 {
        match read_word16(data, value, form.little) {
            Some(value) => Some(value as u64),
            None => None,
        }
    } else if kind == 4 || kind == 13 {
        match read_word32(data, value, form.little) {
            Some(value) => Some(value as u64),
            None => None,
        }
    } else if kind == 16 || kind == 18 {
        if form.big {
            read_word64(data, value, form.little)
        } else {
            match read_word32(data, value, form.little) {
                Some(place) => read_word64(data, place as u64, form.little),
                None => None,
            }
        }
    } else {
        None
    }
}

/// Where a directory is, in machine numbers.
struct Located {
    form: TiffForm,
    start: u64,
    count: u64,
}

impl Located {
    spec fn directory(self) -> TiffDirectory {
        TiffDirectory { form: self.form, start: self.start as int, count: self.count as nat }
    }

    fn has(&self, data: &[u8], tag: u16) -> (found: bool)
        ensures
            found == self.directory().has(data@, tag),
    {
        find_field(data, self.start, self.count, tag, self.form).is_some()
    }

    fn number(&self, data: &[u8], tag: u16) -> (value: Option<u64>)
        ensures
            widened64(value) == self.directory().number(data@, tag),
    {
        match find_field(data, self.start, self.count, tag, self.form) {
            Some(place) => read_field(data, place, self.form),
            None => None,
        }
    }

    fn length(&self, data: &[u8], tag: u16) -> (length: Option<u64>)
        ensures
            widened64(length) == self.directory().length(data@, tag),
    {
        match find_field(data, self.start, self.count, tag, self.form) {
            Some(place) => {
                assert(data@.len() == data.len());
                match read_word16(data, place + 2, self.form.little) {
                    Some(kind) => {
                        if kind == 1 || kind == 3 || kind == 4 || kind == 7 || kind == 13 || kind
                            == 16 || kind == 18 {
                            read_wide_word(data, place + 4, self.form)
                        } else {
                            None
                        }
                    },
                    None => None,
                }
            },
            None => None,
        }
    }

    fn uneven(&self, data: &[u8], one: u16, other: u16) -> (uneven: bool)
        ensures
            uneven == self.directory().uneven(data@, one, other),
    {
        match (self.length(data, one), self.length(data, other)) {
            (Some(one), Some(other)) => one != other,
            _ => false,
        }
    }

    fn planes(&self, data: &[u8]) -> (planes: u64)
        ensures
            planes == self.directory().planes(data@),
            planes <= u16::MAX,
    {
        match (
            self.number(data, SAMPLES_PER_PIXEL),
            self.number(data, PLANAR_CONFIGURATION),
        ) {
            (Some(samples), Some(2)) => {
                if samples <= 0xffff {
                    samples
                } else {
                    1
                }
            },
            _ => 1,
        }
    }

    fn countable(&self, data: &[u8]) -> (countable: bool)
        ensures
            countable == self.directory().countable(data@),
    {
        let strip_counts: bool = self.has(data, STRIP_BYTE_COUNTS);
        let strip_offsets: bool = self.has(data, STRIP_OFFSETS);
        let tile_counts: bool = self.has(data, TILE_BYTE_COUNTS);
        let tile_offsets: bool = self.has(data, TILE_OFFSETS);
        let height: Option<u64> = self.number(data, IMAGE_LENGTH);
        let planes: u64 = self.planes(data);
        if strip_counts && strip_offsets && !tile_counts && !tile_offsets {
            if self.uneven(data, STRIP_OFFSETS, STRIP_BYTE_COUNTS) {
                return true;
            }
            let rows: Option<u64> = if self.has(data, ROWS_PER_STRIP) {
                self.number(data, ROWS_PER_STRIP)
            } else {
                height
            };
            match (side(height), side(rows)) {
                (Some(height), Some(rows)) => {
                    let strips: u64 = pieces_of(height, rows);
                    proof {
                        lemma_product_fits(strips as int, 1, planes as int);
                    }
                    strips as u128 * planes as u128 <= u32::MAX as u128
                },
                _ => true,
            }
        } else if !strip_counts && !strip_offsets && tile_counts && tile_offsets {
            if self.uneven(data, TILE_OFFSETS, TILE_BYTE_COUNTS) {
                return true;
            }
            let width: Option<u64> = self.number(data, IMAGE_WIDTH);
            let tile_width: Option<u64> = self.number(data, TILE_WIDTH);
            let tile_length: Option<u64> = self.number(data, TILE_LENGTH);
            match (side(width), side(height), side(tile_width), side(tile_length)) {
                (Some(width), Some(height), Some(tile_width), Some(tile_length)) => {
                    let down: u64 = pieces_of(height, tile_length);
                    let across: u64 = pieces_of(width, tile_width);
                    proof {
                        lemma_product_fits(down as int, across as int, planes as int);
                    }
                    down as u128 * across as u128 * planes as u128 <= usize::MAX as u128
                },
                _ => true,
            }
        } else {
            true
        }
    }
}

proof fn lemma_product_fits(down: int, across: int, planes: int)
    requires
        0 <= down <= u32::MAX,
        0 <= across <= u32::MAX,
        0 <= planes <= u16::MAX,
    ensures
        0 <= down * across <= u64::MAX,
        0 <= down * across * planes <= u128::MAX,
        0 <= down * planes <= u128::MAX,
{
    assert(0 <= down * across <= u32::MAX * u32::MAX) by (nonlinear_arith)
        requires
            0 <= down <= u32::MAX,
            0 <= across <= u32::MAX,
    ;
    assert(0 <= (down * across) * planes <= u64::MAX * u16::MAX) by (nonlinear_arith)
        requires
            0 <= down * across <= u64::MAX,
            0 <= planes <= u16::MAX,
    ;
    assert(0 <= down * planes <= u32::MAX * u16::MAX) by (nonlinear_arith)
        requires
            0 <= down <= u32::MAX,
            0 <= planes <= u16::MAX,
    ;
}

fn side(value: Option<u64>) -> (side: Option<u64>)
    ensures
        side == if is_side(widened64(value)) {
            value
        } else {
            None
        },
{
    match value {
        Some(value) => {
            if value > 0 && value <= u32::MAX as u64 {
                Some(value)
            } else {
                None
            }
        },
        None => None,
    }
}

fn pieces_of(whole: u64, piece: u64) -> (count: u64)
    requires
        0 < whole <= u32::MAX,
        0 < piece <= u32::MAX,
    ensures
        count == pieces(whole as nat, piece as nat),
        count <= u32::MAX,
{
    assert((whole + piece - 1) / piece as int <= whole) by (nonlinear_arith)
        requires
            0 < whole,
            0 < piece,
    ;
    assert((whole + piece - 1) / piece as int >= 0) by (nonlinear_arith)
        requires
            0 < whole,
            0 < piece,
    ;
    (whole + piece - 1) / piece
}

fn locate(data: &[u8]) -> (located: Option<Located>)
    ensures
        match (located, tiff_directory(data@)) {
            (Some(located), Some(directory)) => located.directory() == directory,
            (None, None) => true,
            _ => false,
        },
{
    if data.len() < 2 {
        return None;
    }
    let little: bool = data[0] == 0x49 && data[1] == 0x49;
    if !little && !(data[0] == 0x4d && data[1] == 0x4d) {
        return None;
    }
    let version: u16 = match read_word16(data, 2, little) {
        Some(version) => version,
        None => return None,
    };
    if version == 42 {
        let place: u64 = match read_word32(data, 4, little) {
            Some(place) => place as u64,
            None => return None,
        };
        match read_word16(data, place, little) {
            Some(count) => Some(
                Located {
                    form: TiffForm { little, big: false },
                    start: place + 2,
                    count: count as u64,
                },
            ),
            None => None,
        }
    } else if version == 43 {
        match (read_word16(data, 4, little), read_word16(data, 6, little)) {
            (Some(8), Some(0)) => {},
            _ => return None,
        }
        let place: u64 = match read_word64(data, 8, little) {
            Some(place) => place,
            None => return None,
        };
        match read_word64(data, place, little) {
            Some(count) => {
                assert(place + 8 <= data@.len());
                Some(Located { form: TiffForm { little, big: true }, start: place + 8, count })
            },
            None => None,
        }
    } else {
        None
    }
}

/// Whether the chunks that the first directory of a file calls for can be
/// counted.
pub fn chunks_are_countable(data: &[u8]) -> (countable: bool)
    ensures
        countable == chunks_countable(data@),
{
    match locate(data) {
        Some(located) => located.countable(data),
        None => true,
    }
}

/// The strips of a picture whose samples stand together can always be counted:
/// there are no more of them than rows.
pub proof fn law_strips_of_one_plane_are_countable(height: Option<nat>, rows: Option<nat>)
    ensures
        strips_countable(height, rows, 1),
{
    if is_side(height) && is_side(rows) {
        let height = height->0;
        let rows = rows->0;
        assert((height + rows - 1) / rows as int <= height) by (nonlinear_arith)
            requires
                0 < height,
                0 < rows,
        ;
        assert((height + rows - 1) / rows as int >= 0) by (nonlinear_arith)
            requires
                0 < height,
                0 < rows,
        ;
    }
}

} // verus!
