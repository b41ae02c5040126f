//! The extension in the text of a path.

use vstd::prelude::*;

use crate::text::chars_of;

verus! {

/// Where a character last occurs, or -1.
pub open spec fn last_index(text: Seq<char>, wanted: char) -> int
    decreases text.len(),
{
    if text.len() == 0 {
        -1
    } else if text.last() == wanted {
        text.len() - 1
    } else {
        last_index(text.drop_last(), wanted)
    }
}

/// Whether a character parts the segments of a path: the slash, on Windows the
/// backslash too, and there alone the backslash in a path that is taken verbatim.
pub open spec fn is_separator(c: char, windows: bool, verbatim: bool) -> bool {
    if verbatim {
        c == '\\'
    } else {
        c == '/' || (windows && c == '\\')
    }
}

/// Whether a path is taken verbatim, as Windows does behind `\\?\`.
pub open spec fn is_verbatim(path: Seq<char>, windows: bool) -> bool {
    windows && path.len() >= 4 && path[0] == '\\' && path[1] == '\\' && path[2] == '?' && path[3]
        == '\\'
}

/// Where the segment of a Windows path ends that starts at `from`.
pub open spec fn segment_end(path: Seq<char>, from: int, verbatim: bool) -> int
    decreases path.len() - from,
{
    if from < path.len() && !is_separator(path[from], true, verbatim) {
        segment_end(path, from + 1, verbatim)
    } else {
        from
    }
}

/// Where the segment ends that follows the one which ends at `end`.
pub open spec fn next_end(path: Seq<char>, end: int, verbatim: bool) -> int {
    if end < path.len() {
        segment_end(path, end + 1, verbatim)
    } else {
        end
    }
}

/// Whether a character is a letter that a drive can have.
pub open spec fn is_drive_letter(c: char) -> bool {
    ('a' <= c && c <= 'z') || ('A' <= c && c <= 'Z')
}

/// How long the drive, the share or the device at the front of a path is.
pub open spec fn prefix_length(path: Seq<char>, windows: bool) -> int {
    let parts = |at: int| is_separator(path[at], true, false);
    if !windows {
        0
    } else if is_verbatim(path, windows) {
        if path.len() >= 8 && path[4] == 'U' && path[5] == 'N' && path[6] == 'C' && path[7] == '\\' {
            next_end(path, segment_end(path, 8, true), true)
        } else {
            segment_end(path, 4, true)
        }
    } else if path.len() >= 2 && parts(0) && parts(1) {
        if path.len() >= 4 && path[2] == '.' && parts(3) {
            segment_end(path, 4, false)
        } else {
            let server = segment_end(path, 2, false);
            let share = next_end(path, server, false);
            if server > 2 && share > server + 1 {
                share
            } else {
                0
            }
        }
    } else if path.len() >= 2 && is_drive_letter(path[0]) && path[1] == ':' {
        2
    } else {
        0
    }
}

/// Where a separator last occurs, or -1.
pub open spec fn last_separator(text: Seq<char>, windows: bool, verbatim: bool) -> int
    decreases text.len(),
{
    if text.len() == 0 {
        -1
    } else if is_separator(text.last(), windows, verbatim) {
        text.len() - 1
    } else {
        last_separator(text.drop_last(), windows, verbatim)
    }
}

/// The file name behind the prefix of a path: its last segment, looking past
/// empty segments and `.`, unless that one leads to the parent directory. A path
/// that is taken verbatim keeps its `.`, which names no file.
pub open spec fn last_name(rest: Seq<char>, windows: bool, verbatim: bool) -> Option<Seq<char>>
    decreases rest.len(),
{
    let at = last_separator(rest, windows, verbatim);
    let segment = rest.skip(at + 1);
    if segment.len() == 0 || (segment == seq!['.'] && !verbatim) {
        if at < 0 || at >= rest.len() {
            None
        } else {
            last_name(rest.take(at), windows, verbatim)
        }
    } else if segment == seq!['.'] || segment == seq!['.', '.'] {
        None
    } else {
        Some(segment)
    }
}

/// The file name in a path.
pub open spec fn name_in(path: Seq<char>, windows: bool) -> Option<Seq<char>> {
    last_name(path.skip(prefix_length(path, windows)), windows, is_verbatim(path, windows))
}

/// The extension of a file name: what follows its last dot, unless the name
/// has no dot or starts with its only one.
pub open spec fn extension_in(name: Seq<char>) -> Option<Seq<char>> {
    let dot = last_index(name, '.');
    if dot <= 0 {
        None
    } else {
        Some(name.skip(dot + 1))
    }
}

/// The extension of the file that a path names.
pub open spec fn path_extension(path: Seq<char>, windows: bool) -> Option<Seq<char>> {
    match name_in(path, windows) {
        None => None,
        Some(name) => extension_in(name),
    }
}

/// The number of characters up to and with the last one wanted.
fn after_last(chars: &Vec<char>, from: usize, end: usize, wanted: char) -> (after: usize)
    requires
        from <= end <= chars@.len(),
    ensures
        from <= after <= end,
        after == from + last_index(chars@.subrange(from as int, end as int), wanted) + 1,
{
    let mut after: usize = end;
    while after > from && chars[after - 1] != wanted
        invariant
            from <= after <= end <= chars@.len(),
            last_index(chars@.subrange(from as int, end as int), wanted) == last_index(
                chars@.subrange(from as int, after as int),
                wanted,
            ),
        decreases after,
    {
        assert(chars@.subrange(from as int, after as int).drop_last() =~= chars@.subrange(
            from as int,
            after - 1,
        ));
        after = after - 1;
    }
    after
}

fn parts_segments(c: char, windows: bool, verbatim: bool) -> (parts: bool)
    ensures
        parts == is_separator(c, windows, verbatim),
{
    if verbatim {
        c == '\\'
    } else {
        c == '/' || (windows && c == '\\')
    }
}

/// The number of characters up to and with the last separator.
fn after_separator(chars: &Vec<char>, from: usize, end: usize, windows: bool, verbatim: bool) -> (after:
    usize)
    requires
        from <= end <= chars@.len(),
    ensures
        from <= after <= end,
        after == from + last_separator(
            chars@.subrange(from as int, end as int),
            windows,
            verbatim,
        ) + 1,
{
    let mut after: usize = end;
    while after > from && !parts_segments(chars[after - 1], windows, verbatim)
        invariant
            from <= after <= end <= chars@.len(),
            last_separator(chars@.subrange(from as int, end as int), windows, verbatim)
                == last_separator(chars@.subrange(from as int, after as int), windows, verbatim),
        decreases after,
    {
        assert(chars@.subrange(from as int, after as int).drop_last() =~= chars@.subrange(
            from as int,
            after - 1,
        ));
        after = after - 1;
    }
    after
}

fn end_of_segment(chars: &Vec<char>, from: usize, verbatim: bool) -> (end: usize)
    requires
        from <= chars@.len(),
    ensures
        from <= end <= chars@.len(),
        end == segment_end(chars@, from as int, verbatim),
{
    let mut end: usize = from;
    while end < chars.len() && !parts_segments(chars[end], true, verbatim)
        invariant
            from <= end <= chars@.len(),
            segment_end(chars@, from as int, verbatim) == segment_end(chars@, end as int, verbatim),
        decreases chars@.len() - end,
    {
        end = end + 1;
    }
    end
}

fn end_of_next(chars: &Vec<char>, end: usize, verbatim: bool) -> (next: usize)
    requires
        end <= chars@.len(),
    ensures
        end <= next <= chars@.len(),
        next == next_end(chars@, end as int, verbatim),
{
    if end < chars.len() {
        end_of_segment(chars, end + 1, verbatim)
    } else {
        end
    }
}

fn taken_verbatim(chars: &Vec<char>, windows: bool) -> (verbatim: bool)
    ensures
        verbatim == is_verbatim(chars@, windows),
{
    windows && chars.len() >= 4 && chars[0] == '\\' && chars[1] == '\\' && chars[2] == '?'
        && chars[3] == '\\'
}

fn end_of_prefix(chars: &Vec<char>, windows: bool) -> (end: usize)
    ensures
        end <= chars@.len(),
        end == prefix_length(chars@, windows),
{
    let count: usize = chars.len();
    if !windows {
        0
    } else if taken_verbatim(chars, windows) {
        if count >= 8 && chars[4] == 'U' && chars[5] == 'N' && chars[6] == 'C' && chars[7] == '\\' {
            let server: usize = end_of_segment(chars, 8, true);
            end_of_next(chars, server, true)
        } else {
            end_of_segment(chars, 4, true)
        }
    } else if count >= 2 && parts_segments(chars[0], true, false) && parts_segments(
        chars[1],
        true,
        false,
    ) {
        if count >= 4 && chars[2] == '.' && parts_segments(chars[3], true, false) {
            end_of_segment(chars, 4, false)
        } else {
            let server: usize = end_of_segment(chars, 2, false);
            let share: usize = end_of_next(chars, server, false);
            if server > 2 && share > server && share - server > 1 {
                share
            } else {
                0
            }
        }
    } else if count >= 2 && (('a' <= chars[0] && chars[0] <= 'z') || ('A' <= chars[0] && chars[0]
        <= 'Z')) && chars[1] == ':' {
        2
    } else {
        0
    }
}

/// Where the file name of a path starts and ends, in characters.
fn name_range(chars: &Vec<char>, windows: bool) -> (range: Option<(usize, usize)>)
    ensures
        range is Some == name_in(chars@, windows) is Some,
        range matches Some((start, end)) ==> start <= end <= chars@.len() && name_in(chars@, windows)
            == Some(chars@.subrange(start as int, end as int)),
{
    let verbatim = taken_verbatim(chars, windows);
    let from: usize = end_of_prefix(chars, windows);
    let mut end: usize = chars.len();
    assert(chars@.subrange(from as int, end as int) =~= chars@.skip(from as int));
    loop
        invariant
            from <= end <= chars@.len(),
            name_in(chars@, windows) == last_name(
                chars@.subrange(from as int, end as int),
                windows,
                verbatim,
            ),
        decreases end,
    {
        let ghost head = chars@.subrange(from as int, end as int);
        let start: usize = after_separator(chars, from, end, windows, verbatim);
        assert(head.skip(start - from) =~= chars@.subrange(start as int, end as int));
        let length: usize = end - start;
        let ghost segment = head.skip(start - from);
        proof {
            if length == 1 {
                assert(segment == seq!['.'] <==> segment[0] == '.') by {
                    if segment[0] == '.' {
                        assert(segment =~= seq!['.']);
                    }
                }
            } else {
                assert(seq!['.'].len() == 1);
            }
            if length == 2 {
                assert(segment == seq!['.', '.'] <==> segment[0] == '.' && segment[1] == '.') by {
                    if segment[0] == '.' && segment[1] == '.' {
                        assert(segment =~= seq!['.', '.']);
                    }
                }
            } else {
                assert(seq!['.', '.'].len() == 2);
            }
        }
        if length == 0 || (length == 1 && chars[start] == '.' && !verbatim) {
            if start == from {
                return None;
            }
            assert(head.take(start - from - 1) =~= chars@.subrange(from as int, start - 1));
            end = start - 1;
        } else if (length == 1 && chars[start] == '.') || (length == 2 && chars[start] == '.'
            && chars[start + 1] == '.') {
            return None;
        } else {
            return Some((start, end));
        }
    }
}

/// The extension of the file that a path names, by the rules of Windows or of
/// the other platforms.
pub fn extension_of(path: &str, windows: bool) -> (extension: Option<&str>)
    ensures
        extension is Some == path_extension(path@, windows) is Some,
        extension matches Some(extension) ==> path_extension(path@, windows) == Some(extension@),
{
    let chars = chars_of(path);
    match name_range(&chars, windows) {
        None => None,
        Some((start, end)) => {
            let after: usize = after_last(&chars, start, end, '.');
            let ghost name = chars@.subrange(start as int, end as int);
            if after - start <= 1 {
                None
            } else {
                assert(name.skip(after - start) =~= chars@.subrange(after as int, end as int));
                Some(path.substring_char(after, end))
            }
        },
    }
}

} // verus!
