//! What the extension of a path is, said of paths put together from their parts.

use vstd::prelude::*;
use crate::path::{
    extension_in, is_separator, is_verbatim, last_index, last_name, last_separator, next_end,
    path_extension, prefix_length, segment_end,
};

verus! {

/// Whether a character can part the segments of a path.
pub open spec fn parts(c: char, windows: bool) -> bool {
    c == '/' || (windows && c == '\\')
}

/// Whether a text is one segment of a path.
pub open spec fn is_segment(text: Seq<char>, windows: bool) -> bool {
    forall|i: int| 0 <= i < text.len() ==> !parts(#[trigger] text[i], windows)
}

/// Whether a path starts with a drive, a share or a device, which only Windows
/// knows.
pub open spec fn may_have_prefix(path: Seq<char>, windows: bool) -> bool {
    windows && path.len() > 0 && (parts(path[0], true) || (path.len() > 1 && path[1] == ':'))
}

proof fn lemma_last_dot(stem: Seq<char>, extension: Seq<char>)
    requires
        !extension.contains('.'),
    ensures
        last_index(stem + seq!['.'] + extension, '.') == stem.len(),
    decreases extension.len(),
{
    let name = stem + seq!['.'] + extension;
    if extension.len() == 0 {
        assert(name.last() == '.');
    } else {
        let shorter = extension.drop_last();
        assert(extension[extension.len() - 1] == extension.last());
        assert(name.last() == extension.last());
        assert forall|i: int| 0 <= i < shorter.len() implies shorter[i] != '.' by {
            assert(extension[i] == shorter[i]);
        }
        lemma_last_dot(stem, shorter);
        assert(name.drop_last() =~= stem + seq!['.'] + shorter);
    }
}

proof fn lemma_no_dot(name: Seq<char>)
    requires
        !name.contains('.'),
    ensures
        last_index(name, '.') == -1,
    decreases name.len(),
{
    if name.len() > 0 {
        assert(name[name.len() - 1] == name.last());
        let shorter = name.drop_last();
        assert forall|i: int| 0 <= i < shorter.len() implies shorter[i] != '.' by {
            assert(name[i] == shorter[i]);
        }
        lemma_no_dot(shorter);
    }
}

/// The extension of a name is what follows its last dot. A name without a dot has
/// none, and neither has one whose only dot is its first character.
pub proof fn law_an_extension_follows_the_last_dot(stem: Seq<char>, extension: Seq<char>)
    requires
        !extension.contains('.'),
    ensures
        stem.len() > 0 ==> extension_in(stem + seq!['.'] + extension) == Some(extension),
        extension_in(seq!['.'] + extension) is None,
        extension_in(extension) is None,
{
    lemma_last_dot(stem, extension);
    lemma_last_dot(Seq::empty(), extension);
    lemma_no_dot(extension);
    assert(Seq::<char>::empty() + seq!['.'] + extension =~= seq!['.'] + extension);
    assert((stem + seq!['.'] + extension).skip(stem.len() as int + 1) =~= extension);
}

proof fn lemma_last_separator(dir: Seq<char>, c: char, name: Seq<char>, windows: bool)
    requires
        parts(c, windows),
        is_segment(name, windows),
    ensures
        last_separator(dir.push(c) + name, windows, false) == dir.len(),
    decreases name.len(),
{
    let text = dir.push(c) + name;
    if name.len() == 0 {
        assert(text.last() == c);
    } else {
        assert(name[name.len() - 1] == name.last());
        assert(text.last() == name.last());
        let shorter = name.drop_last();
        assert forall|i: int| 0 <= i < shorter.len() implies !parts(
            #[trigger] shorter[i],
            windows,
        ) by {
            assert(name[i] == shorter[i]);
        }
        lemma_last_separator(dir, c, shorter, windows);
        assert(text.drop_last() =~= dir.push(c) + shorter);
    }
}

proof fn lemma_no_separator(name: Seq<char>, windows: bool)
    requires
        is_segment(name, windows),
    ensures
        last_separator(name, windows, false) == -1,
    decreases name.len(),
{
    if name.len() > 0 {
        assert(name[name.len() - 1] == name.last());
        let shorter = name.drop_last();
        assert forall|i: int| 0 <= i < shorter.len() implies !parts(
            #[trigger] shorter[i],
            windows,
        ) by {
            assert(name[i] == shorter[i]);
        }
        lemma_no_separator(shorter, windows);
    }
}

/// The last segment of a path is its name.
proof fn lemma_last_segment(dir: Seq<char>, c: char, name: Seq<char>, windows: bool)
    requires
        parts(c, windows),
        is_segment(name, windows),
    ensures
        name.len() > 0 && name != seq!['.'] && name != seq!['.', '.'] ==> last_name(
            dir.push(c) + name,
            windows,
            false,
        ) == Some(name) && last_name(name, windows, false) == Some(name),
        name.len() == 0 || name == seq!['.'] ==> last_name(dir.push(c) + name, windows, false)
            == last_name(dir, windows, false),
        name == seq!['.', '.'] ==> last_name(dir.push(c) + name, windows, false) is None,
{
    let text = dir.push(c) + name;
    lemma_last_separator(dir, c, name, windows);
    lemma_no_separator(name, windows);
    assert(text.skip(dir.len() as int + 1) =~= name);
    assert(text.take(dir.len() as int) =~= dir);
    assert(name.skip(0) =~= name);
    assert(seq!['.'].len() != seq!['.', '.'].len());
}

/// The extension of a path is that of its last segment, whatever directories it
/// lies in.
pub proof fn law_a_path_has_the_extension_of_its_name(
    dir: Seq<char>,
    separator: char,
    name: Seq<char>,
    windows: bool,
)
    requires
        parts(separator, windows),
        is_segment(name, windows),
        name.len() > 0,
        name != seq!['.'],
        name != seq!['.', '.'],
        !may_have_prefix(dir.push(separator) + name, windows),
        !may_have_prefix(name, windows),
    ensures
        path_extension(dir.push(separator) + name, windows) == extension_in(name),
        path_extension(name, windows) == extension_in(name),
{
    let path = dir.push(separator) + name;
    lemma_last_segment(dir, separator, name, windows);
    lemma_no_prefix(path, windows);
    lemma_no_prefix(name, windows);
    assert(path.skip(0) =~= path);
    assert(name.skip(0) =~= name);
}

proof fn lemma_no_prefix(path: Seq<char>, windows: bool)
    requires
        !may_have_prefix(path, windows),
    ensures
        prefix_length(path, windows) == 0,
        !is_verbatim(path, windows),
{
    if windows && path.len() >= 2 {
        assert(!is_separator(path[0], true, false));
    }
}

/// Separators and `.` at the end of a path do not hide its extension, but `..`
/// leads elsewhere.
pub proof fn law_trailing_separators_are_looked_past(
    path: Seq<char>,
    separator: char,
    windows: bool,
)
    requires
        parts(separator, windows),
        path.len() >= 2,
        !may_have_prefix(path, windows),
    ensures
        path_extension(path.push(separator), windows) == path_extension(path, windows),
        path_extension(path.push(separator).push('.'), windows) == path_extension(path, windows),
        path_extension(path.push(separator).push('.').push('.'), windows) is None,
{
    let a = path.push(separator);
    let b = a.push('.');
    let c = b.push('.');
    assert(a[0] == path[0] && a[1] == path[1] && b[0] == path[0] && b[1] == path[1] && c[0]
        == path[0] && c[1] == path[1]);
    lemma_no_prefix(path, windows);
    lemma_no_prefix(a, windows);
    lemma_no_prefix(b, windows);
    lemma_no_prefix(c, windows);
    lemma_last_segment(path, separator, Seq::empty(), windows);
    lemma_last_segment(path, separator, seq!['.'], windows);
    lemma_last_segment(path, separator, seq!['.', '.'], windows);
    assert(a + Seq::<char>::empty() =~= a);
    assert(a + seq!['.'] =~= b);
    assert(a + seq!['.', '.'] =~= c);
    assert(a.skip(0) =~= a);
    assert(b.skip(0) =~= b);
    assert(c.skip(0) =~= c);
    assert(path.skip(0) =~= path);
}

/// Only Windows parts a path at a backslash: elsewhere it belongs to the name.
pub proof fn law_a_backslash_is_a_character_elsewhere(front: Seq<char>, extension: Seq<char>)
    requires
        front.len() > 0,
        is_segment(front, false),
        is_segment(extension, false),
        !extension.contains('.'),
        front != seq!['.'],
    ensures
        path_extension(front + seq!['.'] + extension, false) == Some(extension),
{
    let name = front + seq!['.'] + extension;
    lemma_no_separator(name, false);
    law_an_extension_follows_the_last_dot(front, extension);
    assert(name.skip(0) =~= name);
    if name == seq!['.'] || name == seq!['.', '.'] {
        assert(name.len() >= 2);
        assert(name[0] == '.');
        assert(front =~= seq!['.']);
    }
}

/// A drive is no part of a name.
pub proof fn law_a_drive_is_no_part_of_a_name(letter: char, name: Seq<char>)
    requires
        ('a' <= letter && letter <= 'z') || ('A' <= letter && letter <= 'Z'),
        is_segment(name, true),
        name.len() > 0,
        name != seq!['.'],
        name != seq!['.', '.'],
    ensures
        path_extension(seq![letter, ':'] + name, true) == extension_in(name),
        path_extension(seq![letter, ':'], true) is None,
        path_extension(seq![letter, ':', '\\'] + name, true) == extension_in(name),
{
    let a = seq![letter, ':'] + name;
    let b = seq![letter, ':'];
    let c = seq![letter, ':', '\\'] + name;
    lemma_letter(letter);
    assert(a[0] == letter && a[1] == ':' && b[0] == letter && b[1] == ':' && c[0] == letter && c[1]
        == ':');
    assert(a.skip(2) =~= name);
    assert(b.skip(2) =~= Seq::<char>::empty());
    let root = Seq::<char>::empty().push('\\');
    assert(c.skip(2) =~= root + name);
    lemma_last_segment(Seq::empty(), '\\', name, true);
    lemma_no_separator(Seq::empty(), true);
    assert(Seq::<char>::empty().skip(0) =~= Seq::<char>::empty());
    assert(last_name(Seq::empty(), true, false) is None);
}

proof fn lemma_letter(letter: char)
    requires
        ('a' <= letter && letter <= 'z') || ('A' <= letter && letter <= 'Z'),
    ensures
        letter != '/',
        letter != '\\',
{
}

proof fn lemma_segment_end(path: Seq<char>, from: int, end: int)
    requires
        0 <= from <= end <= path.len(),
        forall|i: int| from <= i < end ==> !parts(#[trigger] path[i], true),
        end < path.len() ==> parts(path[end], true),
    ensures
        segment_end(path, from, false) == end,
    decreases end - from,
{
    if from < end {
        assert(!parts(path[from], true));
        lemma_segment_end(path, from + 1, end);
    }
}

/// A share is no part of a name: a path that is only a server and a share has no
/// extension, and one below it has that of its name.
pub proof fn law_a_share_is_no_part_of_a_name(
    server: Seq<char>,
    share: Seq<char>,
    name: Seq<char>,
)
    requires
        is_segment(server, true),
        is_segment(share, true),
        is_segment(name, true),
        server.len() > 0,
        share.len() > 0,
        server != seq!['?'],
        server != seq!['.'],
        name.len() > 0,
        name != seq!['.'],
        name != seq!['.', '.'],
    ensures
        path_extension(seq!['\\', '\\'] + server + seq!['\\'] + share, true) is None,
        path_extension(
            seq!['\\', '\\'] + server + seq!['\\'] + share + seq!['\\'] + name,
            true,
        ) == extension_in(name),
{
    let front = seq!['\\', '\\'] + server + seq!['\\'] + share;
    let path = front + seq!['\\'] + name;
    lemma_share_prefix(server, share, Seq::empty());
    lemma_share_prefix(server, share, seq!['\\'] + name);
    assert(front + Seq::<char>::empty() =~= front);
    assert(path =~= front + (seq!['\\'] + name));
    assert(front.skip(front.len() as int) =~= Seq::<char>::empty());
    let root = Seq::<char>::empty().push('\\');
    assert(path.skip(front.len() as int) =~= root + name);
    lemma_last_segment(Seq::empty(), '\\', name, true);
    lemma_no_separator(Seq::empty(), true);
    assert(Seq::<char>::empty().skip(0) =~= Seq::<char>::empty());
    assert(last_name(Seq::empty(), true, false) is None);
}

proof fn lemma_share_prefix(server: Seq<char>, share: Seq<char>, rest: Seq<char>)
    requires
        is_segment(server, true),
        is_segment(share, true),
        server.len() > 0,
        share.len() > 0,
        server != seq!['?'],
        server != seq!['.'],
        rest.len() > 0 ==> parts(rest[0], true),
    ensures
        ({
            let front = seq!['\\', '\\'] + server + seq!['\\'] + share;
            &&& prefix_length(front + rest, true) == front.len()
            &&& !is_verbatim(front + rest, true)
        }),
{
    let front = seq!['\\', '\\'] + server + seq!['\\'] + share;
    let path = front + rest;
    let end = 2 + server.len() as int;
    assert(path[0] == '\\' && path[1] == '\\');
    assert forall|i: int| 0 <= i < server.len() implies path[2 + i] == #[trigger] server[i] by {}
    assert(path[end] == '\\');
    assert forall|i: int| 0 <= i < share.len() implies path[end + 1 + i] == #[trigger] share[i] by {}
    assert forall|i: int| 2 <= i < end implies !parts(#[trigger] path[i], true) by {
        assert(path[i] == server[i - 2]);
    }
    lemma_segment_end(path, 2, end);
    let last = front.len() as int;
    assert forall|i: int| end + 1 <= i < last implies !parts(#[trigger] path[i], true) by {
        assert(path[i] == share[i - end - 1]);
    }
    if last < path.len() {
        assert(path[last] == rest[0]);
    }
    lemma_segment_end(path, end + 1, last);
    assert(next_end(path, end, false) == last);
    assert(path[2] == server[0]);
    if parts(path[3], true) {
        if server.len() > 1 {
            assert(path[3] == server[1]);
            assert(!parts(server[1], true));
        }
        assert(server.len() == 1);
        if server[0] == '?' {
            assert(server =~= seq!['?']);
        }
        if server[0] == '.' {
            assert(server =~= seq!['.']);
        }
    }
}

proof fn lemma_verbatim_end(path: Seq<char>, from: int, end: int)
    requires
        0 <= from <= end <= path.len(),
        forall|i: int| from <= i < end ==> (#[trigger] path[i]) != '\\',
        end < path.len() ==> path[end] == '\\',
    ensures
        segment_end(path, from, true) == end,
    decreases end - from,
{
    if from < end {
        assert(path[from] != '\\');
        lemma_verbatim_end(path, from + 1, end);
    }
}

proof fn lemma_verbatim_separator(name: Seq<char>)
    requires
        !name.contains('\\'),
    ensures
        last_separator(seq!['\\'] + name, true, true) == 0,
    decreases name.len(),
{
    let text = seq!['\\'] + name;
    if name.len() == 0 {
        assert(text.last() == '\\');
        assert(text.len() == 1);
    } else {
        assert(name[name.len() - 1] == name.last());
        assert(text.last() == name.last());
        let shorter = name.drop_last();
        assert forall|i: int| 0 <= i < shorter.len() implies shorter[i] != '\\' by {
            assert(name[i] == shorter[i]);
        }
        lemma_verbatim_separator(shorter);
        assert(text.drop_last() =~= seq!['\\'] + shorter);
    }
}

proof fn lemma_verbatim_name(name: Seq<char>)
    requires
        !name.contains('\\'),
        name.len() > 0,
        name != seq!['.'],
        name != seq!['.', '.'],
    ensures
        last_name(seq!['\\'] + name, true, true) == Some(name),
{
    lemma_verbatim_separator(name);
    assert((seq!['\\'] + name).skip(1) =~= name);
}

/// Behind `\\?\` a path is parted at backslashes alone, and what comes up to the
/// first of them is no part of a name: here a drive, or whatever stands there.
pub proof fn law_a_verbatim_path_is_parted_at_backslashes(front: Seq<char>, name: Seq<char>)
    requires
        !front.contains('\\'),
        !name.contains('\\'),
        front != seq!['U', 'N', 'C'],
        name.len() > 0,
        name != seq!['.'],
        name != seq!['.', '.'],
    ensures
        path_extension(
            seq!['\\', '\\', '?', '\\'] + front + (seq!['\\'] + name),
            true,
        ) == extension_in(name),
{
    let start = seq!['\\', '\\', '?', '\\'];
    let tail = seq!['\\'] + name;
    let path = start + front + tail;
    let end = 4 + front.len() as int;
    assert(path[0] == '\\' && path[1] == '\\' && path[2] == '?' && path[3] == '\\');
    assert(path[end] == '\\');
    assert forall|i: int| 4 <= i < end implies (#[trigger] path[i]) != '\\' by {
        assert(path[i] == front[i - 4]);
    }
    lemma_verbatim_end(path, 4, end);
    if path.len() >= 8 && path[4] == 'U' && path[5] == 'N' && path[6] == 'C' && path[7] == '\\' {
        assert(end == 7) by {
            if end > 7 {
                assert(path[7] != '\\');
            }
            if end < 7 {
                assert(path[end] == '\\');
            }
        }
        assert(front[0] == path[4] && front[1] == path[5] && front[2] == path[6]);
        assert(front =~= seq!['U', 'N', 'C']);
    }
    assert(path.skip(end) =~= tail);
    lemma_verbatim_name(name);
}

/// Behind `\\?\UNC\` the server and the share are no part of a name.
pub proof fn law_a_verbatim_share_is_no_part_of_a_name(
    server: Seq<char>,
    share: Seq<char>,
    name: Seq<char>,
)
    requires
        !server.contains('\\'),
        !share.contains('\\'),
        !name.contains('\\'),
        name.len() > 0,
        name != seq!['.'],
        name != seq!['.', '.'],
    ensures
        path_extension(
            seq!['\\', '\\', '?', '\\', 'U', 'N', 'C', '\\'] + server + seq!['\\'] + share + (
            seq!['\\'] + name),
            true,
        ) == extension_in(name),
{
    let start = seq!['\\', '\\', '?', '\\', 'U', 'N', 'C', '\\'];
    let tail = seq!['\\'] + name;
    let path = start + server + seq!['\\'] + share + tail;
    let middle = 8 + server.len() as int;
    let end = middle + 1 + share.len();
    assert(path[0] == '\\' && path[1] == '\\' && path[2] == '?' && path[3] == '\\');
    assert(path[4] == 'U' && path[5] == 'N' && path[6] == 'C' && path[7] == '\\');
    assert(path[middle] == '\\' && path[end] == '\\');
    assert forall|i: int| 8 <= i < middle implies (#[trigger] path[i]) != '\\' by {
        assert(path[i] == server[i - 8]);
    }
    assert forall|i: int| middle + 1 <= i < end implies (#[trigger] path[i]) != '\\' by {
        assert(path[i] == share[i - middle - 1]);
    }
    lemma_verbatim_end(path, 8, middle);
    lemma_verbatim_end(path, middle + 1, end);
    assert(next_end(path, middle, true) == end);
    assert(path.skip(end) =~= tail);
    lemma_verbatim_name(name);
}

} // verus!
