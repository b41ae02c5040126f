//! What the directory of a TIFF file says of its chunks.

use vstd::prelude::*;
use crate::cli::containers::{
    entries_bytes, holds_number, is_last, lemma_entries, lemma_entry_fields, lemma_entry_in_place,
    lemma_front_words, lemma_parts, lemma_word16_of, ordered16, tiff_file, tiff_front, TiffEntry,
};
use crate::cli::headers::entry_at;
use crate::codecs::tiff_chunks::{
    field_at, field_number, strips_countable, tiff_directory, tiles_countable, TiffDirectory,
    TiffForm,
};

verus! {

/// Whether every entry is one: of a type that exists, with a field of four bytes.
pub open spec fn are_entries(entries: Seq<TiffEntry>) -> bool {
    forall|i: int|
        0 <= i < entries.len() ==> {
            &&& (#[trigger] entries[i]).field.len() == 4
            &&& 1 <= entries[i].kind <= 13 || 16 <= entries[i].kind <= 18
        }
}

/// The first directory of a TIFF file starts where the file says, behind the number
/// of its entries, and has as many entries as that.
pub proof fn law_a_tiff_names_its_directory(
    little: bool,
    gap: Seq<u8>,
    entries: Seq<TiffEntry>,
    rest: Seq<u8>,
)
    requires
        8 + gap.len() <= 0xffff_ffff,
        entries.len() <= 0xffff,
        are_entries(entries),
    ensures
        tiff_directory(tiff_file(little, gap, entries, rest)) matches Some(directory) && {
            &&& directory.form.little == little
            &&& !directory.form.big
            &&& directory.start == 8 + gap.len() + 2
            &&& directory.count == entries.len()
        },
{
    lemma_fields_are_four(entries);
    let front = tiff_front(8 + gap.len(), little);
    let table = entries_bytes(entries, little);
    let number = ordered16(entries.len(), little);
    let data = tiff_file(little, gap, entries, rest);
    assert(front.len() == 8) by {
        reveal(tiff_front);
    }
    assert(number.len() == 2);
    lemma_parts(front, gap, number, table, rest);
    lemma_front_words(data, 8 + gap.len(), little);
    lemma_word16_of(data, 8 + gap.len() as int, entries.len(), little);
}

proof fn lemma_fields_are_four(entries: Seq<TiffEntry>)
    requires
        are_entries(entries),
    ensures
        forall|i: int| 0 <= i < entries.len() ==> (#[trigger] entries[i]).field.len() == 4,
{
    assert forall|i: int| 0 <= i < entries.len() implies (#[trigger] entries[i]).field.len()
        == 4 by {}
}

proof fn lemma_table(little: bool, gap: Seq<u8>, entries: Seq<TiffEntry>, rest: Seq<u8>)
    requires
        are_entries(entries),
    ensures
        ({
            let data = tiff_file(little, gap, entries, rest);
            let ifd = 8 + gap.len() as int;
            &&& ifd + 2 + 12 * entries.len() <= data.len()
            &&& data.subrange(ifd + 2, ifd + 2 + 12 * entries.len()) == entries_bytes(
                entries,
                little,
            )
        }),
{
    lemma_fields_are_four(entries);
    lemma_entries(entries, little, -1);
    let front = tiff_front(8 + gap.len(), little);
    assert(front.len() == 8) by {
        reveal(tiff_front);
    }
    lemma_parts(
        front,
        gap,
        ordered16(entries.len(), little),
        entries_bytes(entries, little),
        rest,
    );
}

/// The search of a directory finds the last entry with a tag.
proof fn lemma_field_found(
    data: Seq<u8>,
    ifd: int,
    entries: Seq<TiffEntry>,
    from: int,
    tag: u16,
    little: bool,
)
    requires
        0 <= ifd,
        0 <= from <= entries.len(),
        are_entries(entries),
        ifd + 2 + 12 * entries.len() <= data.len(),
        data.subrange(ifd + 2, ifd + 2 + 12 * entries.len()) == entries_bytes(entries, little),
    ensures
        ({
            let form = TiffForm { little, big: false };
            let found = field_at(
                data,
                entry_at(ifd, from),
                (entries.len() - from) as nat,
                tag,
                form,
            );
            &&& forall|place: int|
                #[trigger] is_last(entries, place, tag) && from <= place ==> found == Some(
                    entry_at(ifd, place),
                )
            &&& (forall|i: int| from <= i < entries.len() ==> (#[trigger] entries[i]).tag != tag)
                ==> found is None
        }),
    decreases entries.len() - from,
{
    if from < entries.len() {
        let form = TiffForm { little, big: false };
        let at = entry_at(ifd, from);
        lemma_fields_are_four(entries);
        lemma_entry_in_place(data, ifd, entries, from, little);
        lemma_entry_fields(data, at, entries[from], 0, little);
        lemma_field_found(data, ifd, entries, from + 1, tag, little);
        assert(entry_at(ifd, from + 1) == at + 12);
        assert(entries[from].field.len() == 4);
        assert(crate::codecs::tiff_chunks::has_field_type(data, at, form));
        assert(crate::codecs::tiff_chunks::entry_length(data, at, form) == 12);
        let behind = field_at(
            data,
            at + 12,
            (entries.len() - from - 1) as nat,
            tag,
            form,
        );
        assert forall|place: int| #[trigger] is_last(entries, place, tag) && from
            <= place implies field_at(data, at, (entries.len() - from) as nat, tag, form) == Some(
            entry_at(ifd, place),
        ) by {
            if place == from {
                assert forall|i: int| from + 1 <= i < entries.len() implies (
                #[trigger] entries[i]).tag != tag by {}
                assert(behind is None);
            }
        }
        if forall|i: int| from <= i < entries.len() ==> (#[trigger] entries[i]).tag != tag {
            assert(entries[from].tag != tag);
        }
    }
}

/// What a directory gives under a tag is the number in the last entry with it, as
/// a `SHORT` or a `LONG`, and nothing where no entry has the tag.
pub proof fn law_a_directory_gives_the_last_entry(
    little: bool,
    gap: Seq<u8>,
    entries: Seq<TiffEntry>,
    rest: Seq<u8>,
    place: int,
    tag: u16,
    number: nat,
)
    requires
        8 + gap.len() <= 0xffff_ffff,
        entries.len() <= 0xffff,
        are_entries(entries),
    ensures
        ({
            let data = tiff_file(little, gap, entries, rest);
            tiff_directory(data) matches Some(directory) && {
                &&& is_last(entries, place, tag) ==> directory.has(data, tag)
                &&& is_last(entries, place, tag) && holds_number(entries[place], number, little)
                    ==> directory.number(data, tag) == Some(number)
                &&& (forall|i: int| 0 <= i < entries.len() ==> (#[trigger] entries[i]).tag != tag)
                    ==> !directory.has(data, tag) && directory.number(data, tag) is None
            }
        }),
{
    let data = tiff_file(little, gap, entries, rest);
    let ifd = 8 + gap.len() as int;
    law_a_tiff_names_its_directory(little, gap, entries, rest);
    lemma_table(little, gap, entries, rest);
    lemma_field_found(data, ifd, entries, 0, tag, little);
    assert(entry_at(ifd, 0) == ifd + 2);
    if is_last(entries, place, tag) {
        lemma_fields_are_four(entries);
        lemma_entry_in_place(data, ifd, entries, place, little);
        assert(entries[place].field.len() == 4);
        lemma_entry_fields(data, entry_at(ifd, place), entries[place], number, little);
        let form = TiffForm { little, big: false };
        if holds_number(entries[place], number, little) {
            assert(field_number(data, entry_at(ifd, place), form) == Some(number));
        }
    }
}

/// A picture is stored in one plane, unless its samples stand apart: then in one
/// for each sample of a pixel. A strip has the rows that the directory says, and
/// all of them where it says nothing.
pub proof fn law_planes_and_rows_follow_the_directory(directory: TiffDirectory, data: Seq<u8>, samples: nat)
    ensures
        directory.number(data, 284) == Some(2nat) && directory.number(data, 277) == Some(samples)
            && samples <= 0xffff ==> directory.planes(data) == samples,
        directory.number(data, 284) != Some(2nat) ==> directory.planes(data) == 1,
        directory.has(data, 278) ==> directory.rows_per_strip(data) == directory.number(data, 278),
        !directory.has(data, 278) ==> directory.rows_per_strip(data) == directory.number(data, 257),
{
}

/// Strips can be counted where so many times the rows of one, in every plane, cover
/// the picture with a number that 32 bits hold; tiles likewise both ways, in the
/// machine's own numbers.
pub proof fn law_chunks_are_counted_in_whole_pieces(
    width: nat,
    height: nat,
    piece_width: nat,
    piece_height: nat,
    across: nat,
    down: nat,
    planes: nat,
)
    requires
        0 < width <= u32::MAX,
        0 < height <= u32::MAX,
        0 < piece_width <= u32::MAX,
        0 < piece_height <= u32::MAX,
        across * piece_width >= width,
        (across - 1) * piece_width < width,
        down * piece_height >= height,
        (down - 1) * piece_height < height,
    ensures
        strips_countable(Some(height), Some(piece_height), planes) <==> down * planes <= u32::MAX,
        tiles_countable(Some(width), Some(height), Some(piece_width), Some(piece_height), planes)
            <==> down * across * planes <= usize::MAX,
{
    lemma_pieces(width, piece_width, across);
    lemma_pieces(height, piece_height, down);
}

proof fn lemma_pieces(whole: nat, piece: nat, count: nat)
    requires
        whole > 0,
        piece > 0,
        count * piece >= whole,
        (count - 1) * piece < whole,
    ensures
        crate::codecs::tiff_chunks::pieces(whole, piece) == count,
{
    crate::codecs::pictures::law_pieces_just_cover_a_whole(whole, piece);
    let found = crate::codecs::tiff_chunks::pieces(whole, piece) as int;
    let (c, p) = (count as int, piece as int);
    assert(found == c) by (nonlinear_arith)
        requires
            c * p >= whole,
            (c - 1) * p < whole,
            found * p >= whole,
            (found - 1) * p < whole,
            p > 0,
    ;
}

} // verus!
