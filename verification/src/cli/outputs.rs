//! Where the output of an input goes and what it is called.

use vstd::prelude::*;
use vstd::utf8::{decode_utf8, encode_utf8, valid_utf8};
use crate::cli::paths::{
    behind, common_root, default_stem, equivalent, expansion, expansions, has_glob_meta, is_common, is_list,
    joined_path, last_byte,
    lemma_names_stay, list_entries, list_name, lists_in, lower_bytes, match_up_to, name_fault,
    named, names_of, normalized, output_of, parent_of, parents_of, path_stem, same_component, set_fault,
    stem_of, upper_text, with_suffix, ComponentView, GlobInput, PathsError,
};
use crate::text::{first_index, trimmed};

verus! {

// --- The name of an output -------------------------------------------------------
/// Whether a name is one of the two that stand for a directory.
pub open spec fn is_dots(name: Seq<u8>) -> bool {
    name == seq![46u8] || name == seq![46u8, 46u8]
}

/// Where the last dot stands.
proof fn lemma_last_dot(front: Seq<u8>, rest: Seq<u8>)
    requires
        !rest.contains(46u8),
    ensures
        last_byte(front + seq![46u8] + rest, 46) == front.len(),
    decreases rest.len(),
{
    let name = front + seq![46u8] + rest;
    if rest.len() == 0 {
        assert(name.last() == 46u8);
    } else {
        let shorter = rest.drop_last();
        assert(rest[rest.len() - 1] == rest.last());
        assert(name.last() == rest.last());
        assert forall|i: int| 0 <= i < shorter.len() implies shorter[i] != 46u8 by {
            assert(rest[i] == shorter[i]);
        }
        lemma_last_dot(front, shorter);
        assert(name.drop_last() =~= front + seq![46u8] + shorter);
    }
}

proof fn lemma_no_dot(name: Seq<u8>)
    requires
        !name.contains(46u8),
    ensures
        last_byte(name, 46) == -1,
    decreases name.len(),
{
    if name.len() > 0 {
        assert(name[name.len() - 1] == name.last());
        let shorter = name.drop_last();
        assert forall|i: int| 0 <= i < shorter.len() implies shorter[i] != 46u8 by {
            assert(name[i] == shorter[i]);
        }
        lemma_no_dot(shorter);
    }
}

/// What a file's stem is: all up to the last dot, where there is a dot and
/// something before it; the whole name otherwise.
pub proof fn law_a_stem_ends_at_the_last_dot(stem: Seq<u8>, extension: Seq<u8>)
    requires
        !extension.contains(46u8),
    ensures
        stem.len() > 0 ==> stem_of(stem + seq![46u8] + extension) == stem,
        stem_of(seq![46u8] + extension) == seq![46u8] + extension,
        stem_of(extension) == extension,
{
    lemma_last_dot(stem, extension);
    lemma_last_dot(Seq::empty(), extension);
    lemma_no_dot(extension);
    assert(Seq::<u8>::empty() + seq![46u8] + extension =~= seq![46u8] + extension);
    assert((stem + seq![46u8] + extension).take(stem.len() as int) =~= stem);
}

/// A path whose last component names nothing gets the stem `optimized_image`.
pub proof fn law_a_nameless_input_gets_a_default_stem(path: Seq<ComponentView>)
    requires
        path.len() > 0 ==> !(path.last() is Normal),
    ensures
        path_stem(path) == encode_utf8("optimized_image"@),
{
    reveal_strlit("optimized_image");
    let text = "optimized_image"@;
    assert(vstd::utf8::is_ascii_chars(text));
    vstd::utf8::is_ascii_chars_encode_utf8(text);
    assert(encode_utf8(text) =~= default_stem());
}

/// The name of an output is the last component of its path.
proof fn lemma_output_name(
    path: Seq<ComponentView>,
    out_dir: Option<Seq<ComponentView>>,
    common: Option<Seq<ComponentView>>,
    suffix: Option<Seq<char>>,
    windows: bool,
    name: Seq<u8>,
)
    requires
        name == with_suffix(path_stem(path), suffix),
        !is_dots(name),
    ensures
        output_of(path, out_dir, common, suffix, windows) matches Ok(output) ==> output.len() > 0
            && output.last() == ComponentView::Normal(name),
{
    match crate::cli::paths::output_directory(path, out_dir, common) {
        Ok(directory) => {
            assert(directory.push(named(name)).drop_last() =~= directory);
            assert(directory.push(named(name)).last() == ComponentView::Normal(name));
        },
        Err(_) => {},
    }
}

/// The file name of an output is the stem of the input, followed by the bytes of
/// the suffix where there is one: whatever the output directory and the shared
/// root are, and whether there are any. Here the input is called
/// `stem.extension`; the extension is not kept.
pub proof fn law_an_output_is_named_by_stem_and_suffix(
    path: Seq<ComponentView>,
    out_dir: Option<Seq<ComponentView>>,
    common: Option<Seq<ComponentView>>,
    suffix: Seq<char>,
    windows: bool,
    stem: Seq<u8>,
    extension: Seq<u8>,
)
    requires
        path.len() > 0,
        path.last() == ComponentView::Normal(stem + seq![46u8] + extension),
        stem.len() > 0,
        !extension.contains(46u8),
    ensures
        !is_dots(stem + encode_utf8(suffix)) ==> (output_of(
            path,
            out_dir,
            common,
            Some(suffix),
            windows,
        ) matches Ok(output) ==> output.len() > 0 && output.last() == ComponentView::Normal(
            stem + encode_utf8(suffix),
        )),
        !is_dots(stem) ==> (output_of(path, out_dir, common, None, windows) matches Ok(output)
            ==> output.len() > 0 && output.last() == ComponentView::Normal(stem)),
{
    law_a_stem_ends_at_the_last_dot(stem, extension);
    if !is_dots(stem + encode_utf8(suffix)) {
        let name = stem + encode_utf8(suffix);
        lemma_output_name(path, out_dir, common, Some(suffix), windows, name);
    }
    if !is_dots(stem) {
        lemma_output_name(path, out_dir, common, None, windows, stem);
    }
}

/// An input without an extension keeps all of its name in front of the suffix:
/// one without a dot, and one whose only dot is its first character.
pub proof fn law_an_output_keeps_a_name_without_extension(
    path: Seq<ComponentView>,
    out_dir: Option<Seq<ComponentView>>,
    common: Option<Seq<ComponentView>>,
    suffix: Seq<char>,
    windows: bool,
    name: Seq<u8>,
)
    requires
        path.len() > 0,
        path.last() == ComponentView::Normal(name),
        name.len() > 0,
        !name.skip(1).contains(46u8),
    ensures
        !is_dots(name + encode_utf8(suffix)) ==> (output_of(
            path,
            out_dir,
            common,
            Some(suffix),
            windows,
        ) matches Ok(output) ==> output.len() > 0 && output.last() == ComponentView::Normal(
            name + encode_utf8(suffix),
        )),
        !is_dots(name) ==> (output_of(path, out_dir, common, None, windows) matches Ok(output)
            ==> output.len() > 0 && output.last() == ComponentView::Normal(name)),
{
    let rest = name.skip(1);
    law_a_stem_ends_at_the_last_dot(name, rest);
    if name[0] == 46u8 {
        assert(name =~= seq![46u8] + rest);
    } else {
        assert(!name.contains(46u8)) by {
            if name.contains(46u8) {
                let i = choose|i: int| 0 <= i < name.len() && name[i] == 46u8;
                assert(rest[i - 1] == 46u8);
            }
        }
        law_a_stem_ends_at_the_last_dot(name, name);
    }
    assert(stem_of(name) == name);
    if !is_dots(name + encode_utf8(suffix)) {
        lemma_output_name(
            path,
            out_dir,
            common,
            Some(suffix),
            windows,
            name + encode_utf8(suffix),
        );
    }
    if !is_dots(name) {
        lemma_output_name(path, out_dir, common, None, windows, name);
    }
}

/// A suffix that does not end in a dot, as no suffix that is accepted does, never
/// makes a name that stands for a directory.
pub proof fn law_a_suffixed_name_is_a_file_name(stem: Seq<u8>, suffix: Seq<char>)
    requires
        suffix.len() > 0,
        suffix.last() != '.',
    ensures
        !is_dots(stem + encode_utf8(suffix)),
{
    let bytes = encode_utf8(suffix);
    let name = stem + bytes;
    vstd::utf8::encode_utf8_decode_utf8(suffix);
    assert(bytes.len() > 0) by {
        if bytes.len() == 0 {
            assert(bytes =~= Seq::<u8>::empty());
            assert(decode_utf8(bytes).len() == 0);
        }
    }
    if is_dots(name) {
        let dots = Seq::new(bytes.len(), |i: int| '.');
        assert(name[0] == 46u8 && (name.len() == 2 ==> name[1] == 46u8));
        assert(name.len() <= 2);
        assert forall|i: int| 0 <= i < bytes.len() implies bytes[i] == 46u8 by {
            assert(name[stem.len() + i] == bytes[i]);
        }
        assert(vstd::utf8::is_ascii_chars(dots));
        vstd::utf8::is_ascii_chars_encode_utf8(dots);
        assert(encode_utf8(dots) =~= bytes);
        vstd::utf8::encode_utf8_decode_utf8(dots);
        assert(suffix == dots);
        assert(dots.last() == '.');
    }
}

/// For every input, output directory and shared root, the file name of the output
/// is the stem of the input followed by the bytes of the suffix; where the input
/// names no file the stem is `optimized_image`.
pub proof fn law_every_output_is_named_by_stem_and_suffix(
    path: Seq<ComponentView>,
    out_dir: Option<Seq<ComponentView>>,
    common: Option<Seq<ComponentView>>,
    suffix: Seq<char>,
    windows: bool,
)
    requires
        suffix.len() > 0,
        suffix.last() != '.',
    ensures
        output_of(path, out_dir, common, Some(suffix), windows) matches Ok(output) ==> {
            &&& output.len() > 0
            &&& output.last() == ComponentView::Normal(path_stem(path) + encode_utf8(suffix))
            &&& path.len() > 0 && path.last() is Normal ==> output.last() == ComponentView::Normal(
                stem_of(path.last()->Normal_0) + encode_utf8(suffix),
            )
            &&& path.len() == 0 || !(path.last() is Normal) ==> output.last()
                == ComponentView::Normal(encode_utf8("optimized_image"@) + encode_utf8(suffix))
        },
{
    law_a_suffixed_name_is_a_file_name(path_stem(path), suffix);
    let name = path_stem(path) + encode_utf8(suffix);
    lemma_output_name(path, out_dir, common, Some(suffix), windows, name);
    if path.len() == 0 || !(path.last() is Normal) {
        law_a_nameless_input_gets_a_default_stem(path);
    }
}

/// The file name of an output depends on the input and the suffix alone: two
/// mappings that both succeed give the same one, whatever their directories are,
/// and whatever directory the input lies in.
pub proof fn law_the_file_name_does_not_depend_on_the_directory(
    a: Seq<ComponentView>,
    b: Seq<ComponentView>,
    out_a: Option<Seq<ComponentView>>,
    out_b: Option<Seq<ComponentView>>,
    common_a: Option<Seq<ComponentView>>,
    common_b: Option<Seq<ComponentView>>,
    suffix: Seq<char>,
    windows: bool,
)
    requires
        a.len() > 0,
        b.len() > 0,
        a.last() == b.last(),
        suffix.len() > 0,
        suffix.last() != '.',
    ensures
        ({
            let x = output_of(a, out_a, common_a, Some(suffix), windows);
            let y = output_of(b, out_b, common_b, Some(suffix), windows);
            x is Ok && y is Ok ==> x->Ok_0.len() > 0 && y->Ok_0.len() > 0 && x->Ok_0.last()
                == y->Ok_0.last()
        }),
{
    law_a_suffixed_name_is_a_file_name(path_stem(a), suffix);
    let name = path_stem(a) + encode_utf8(suffix);
    lemma_output_name(a, out_a, common_a, Some(suffix), windows, name);
    lemma_output_name(b, out_b, common_b, Some(suffix), windows, name);
}

// --- The directory of an output ----------------------------------------------------
/// A path of plain names, at the root or not, is in its simplest form already.
pub proof fn law_plain_paths_stay(front: Seq<ComponentView>, names: Seq<ComponentView>)
    requires
        forall|i: int| 0 <= i < front.len() ==> (#[trigger] front[i]) is RootDir || front[i]
            is Prefix,
        forall|i: int| 0 <= i < names.len() ==> (#[trigger] names[i]) is Normal,
    ensures
        normalized(front + names) == front + names,
{
    lemma_roots_stay(front);
    lemma_names_stay(front, names);
}

proof fn lemma_roots_stay(front: Seq<ComponentView>)
    requires
        forall|i: int| 0 <= i < front.len() ==> (#[trigger] front[i]) is RootDir || front[i]
            is Prefix,
    ensures
        normalized(front) == front,
    decreases front.len(),
{
    if front.len() > 0 {
        let before = front.drop_last();
        assert forall|i: int| 0 <= i < before.len() implies (#[trigger] before[i]) is RootDir
            || before[i] is Prefix by {
            assert(before[i] == front[i]);
        }
        lemma_roots_stay(before);
        assert(front[front.len() - 1] == front.last());
        assert(before.push(front.last()) =~= front);
    }
}

/// Nothing lies above the root, nor above where a relative path starts: a `..`
/// there can be left out.
pub proof fn law_nothing_lies_above_the_start(
    front: Seq<ComponentView>,
    tail: Seq<ComponentView>,
)
    requires
        forall|i: int| 0 <= i < front.len() ==> (#[trigger] front[i]) is RootDir || front[i]
            is Prefix,
    ensures
        normalized(front + seq![ComponentView::ParentDir] + tail) == normalized(front + tail),
    decreases tail.len(),
{
    let dots = seq![ComponentView::ParentDir];
    let whole = front + dots + tail;
    lemma_roots_stay(front);
    if tail.len() == 0 {
        assert(whole.drop_last() =~= front);
        assert(front + tail =~= front);
        assert(whole.last() is ParentDir);
        if front.len() > 0 {
            assert(front[front.len() - 1] == front.last());
        }
    } else {
        let before = tail.drop_last();
        law_nothing_lies_above_the_start(front, before);
        assert(whole.drop_last() =~= front + dots + before);
        assert((front + tail).drop_last() =~= front + before);
        assert(whole.last() == (front + tail).last());
    }
}

/// Without an output directory an output lies beside its input. With one and
/// without a shared root it lies right in that directory, wherever the input
/// does. Here the directories are in their simplest form.
pub proof fn law_an_output_lies_in_its_directory(
    parent: Seq<ComponentView>,
    file: Seq<u8>,
    dir: Seq<ComponentView>,
    common: Option<Seq<ComponentView>>,
    suffix: Option<Seq<char>>,
    windows: bool,
)
    requires
        !is_dots(with_suffix(stem_of(file), suffix)),
    ensures
        output_of(parent.push(ComponentView::Normal(file)), None, common, suffix, windows)
            matches Ok(output) ==> output.len() > 0 && output.drop_last() == normalized(parent),
        output_of(parent.push(ComponentView::Normal(file)), Some(dir), None, suffix, windows)
            matches Ok(output) ==> output.len() > 0 && output.drop_last() == normalized(dir),
{
    let path = parent.push(ComponentView::Normal(file));
    let name = with_suffix(stem_of(file), suffix);
    assert(path.last() == ComponentView::Normal(file));
    assert(path.drop_last() =~= parent);
    assert(parent_of(path) == Some(parent));
    let leaf = ComponentView::Normal(name);
    assert(parent.push(leaf).drop_last() =~= parent);
    assert(dir.push(leaf).drop_last() =~= dir);
    assert(normalized(parent.push(leaf)) == normalized(parent).push(leaf));
    assert(normalized(dir.push(leaf)) == normalized(dir).push(leaf));
    assert(normalized(parent).push(leaf).drop_last() =~= normalized(parent));
    assert(normalized(dir).push(leaf).drop_last() =~= normalized(dir));
}

/// With an output directory and a shared root, an input that lies `relative` to
/// the root has its output `relative` to the directory.
pub proof fn law_an_output_lies_as_deep_as_its_input(
    common: Seq<ComponentView>,
    relative: Seq<ComponentView>,
    file: Seq<u8>,
    dir: Seq<ComponentView>,
    suffix: Option<Seq<char>>,
)
    requires
        forall|i: int| 0 <= i < relative.len() ==> (#[trigger] relative[i]) is Normal,
        !is_dots(with_suffix(stem_of(file), suffix)),
    ensures
        output_of(
            (common + relative).push(ComponentView::Normal(file)),
            Some(dir),
            Some(common),
            suffix,
            false,
        ) == Ok::<Seq<ComponentView>, PathsError>(
            (normalized(dir) + relative).push(
                ComponentView::Normal(with_suffix(stem_of(file), suffix)),
            ),
        ),
{
    let parent = common + relative;
    let path = parent.push(ComponentView::Normal(file));
    let name = with_suffix(stem_of(file), suffix);
    let leaf = ComponentView::Normal(name);
    assert(path.drop_last() =~= parent);
    assert forall|i: int| 0 <= i < common.len() implies same_component(
        #[trigger] parent[i],
        common[i],
    ) by {
        crate::cli::paths::law_sameness_is_symmetric(common[i], common[i]);
    }
    assert(match_up_to(parent, common, common.len() as int));
    assert(parent.skip(common.len() as int) =~= relative);
    assert(behind(parent, common) == Some(relative));
    if relative.len() > 0 {
        assert(relative[0] is Normal);
    }
    let names = relative.push(leaf);
    lemma_names_stay(dir, names);
    assert((dir + relative).push(leaf) =~= dir + names);
    assert(normalized(dir) + names =~= (normalized(dir) + relative).push(leaf));
}

/// A mapping fails only for a name that Windows does not take, and where the
/// structure of the inputs is to be kept but the input has no directory, or one
/// outside the shared root. Elsewhere every input has an output.
pub proof fn law_a_mapping_fails_for_a_reason(
    path: Seq<ComponentView>,
    out_dir: Option<Seq<ComponentView>>,
    common: Option<Seq<ComponentView>>,
    suffix: Option<Seq<char>>,
    windows: bool,
)
    ensures
        ({
            let result = output_of(path, out_dir, common, suffix, windows);
            let kept = out_dir is Some && common is Some;
            &&& !windows && !kept ==> result is Ok
            &&& result == Err::<Seq<ComponentView>, PathsError>(PathsError::NoParent) ==> kept
                && parent_of(path) is None
            &&& result == Err::<Seq<ComponentView>, PathsError>(PathsError::OutsideCommonRoot)
                ==> kept && (parent_of(path) matches Some(parent) && !match_up_to(
                parent,
                common->0,
                common->0.len() as int,
            ))
            &&& !windows && kept && parent_of(path) is None ==> result == Err::<
                Seq<ComponentView>,
                PathsError,
            >(PathsError::NoParent)
            &&& !windows && kept && (parent_of(path) matches Some(parent) && !match_up_to(
                parent,
                common->0,
                common->0.len() as int,
            )) ==> result == Err::<Seq<ComponentView>, PathsError>(PathsError::OutsideCommonRoot)
            &&& result matches Err(error) ==> error is NoParent || error is OutsideCommonRoot || (
            windows && (error is NameNotUnicode || error is NameInvalid || error is NameReserved))
        }),
{
}

/// The directory of a path is all of it but its last component; the root, a drive
/// and an empty path have none.
pub proof fn law_a_directory_holds_its_files(dir: Seq<ComponentView>, name: Seq<u8>)
    ensures
        parent_of(dir.push(ComponentView::Normal(name))) == Some(dir),
        parent_of(dir.push(ComponentView::CurDir)) == Some(dir),
        parent_of(dir.push(ComponentView::ParentDir)) == Some(dir),
        parent_of(dir.push(ComponentView::RootDir)) is None,
        parent_of(dir.push(ComponentView::Prefix(name))) is None,
        parent_of(Seq::empty()) is None,
{
    assert(dir.push(ComponentView::Normal(name)).drop_last() =~= dir);
    assert(dir.push(ComponentView::CurDir).drop_last() =~= dir);
    assert(dir.push(ComponentView::ParentDir).drop_last() =~= dir);
}

// --- Names that are taken -----------------------------------------------------------
/// The characters that no file name may hold, besides control characters.
pub open spec fn reserved_characters() -> Seq<char> {
    seq!['<', '>', ':', '"', '/', '\\', '|', '?', '*']
}

/// Whether a text has a control character or a reserved one.
pub open spec fn has_reserved_character(text: Seq<char>) -> bool {
    exists|i: int|
        0 <= i < text.len() && ((#[trigger] text[i]) as u32) < 32 || 0 <= i < text.len()
            && reserved_characters().contains(#[trigger] text[i])
}

/// Whether a text can be a part of a file name.
proof fn lemma_plain_name(text: Seq<char>)
    ensures
        crate::cli::paths::is_plain_name(text) <==> text.len() > 0 && !has_reserved_character(text)
            && text.last() != ' ' && text.last() != '.',
{
    let list = reserved_characters();
    assert(list[0] == '<' && list[1] == '>' && list[2] == ':' && list[3] == '"' && list[4] == '/');
    assert(list[5] == '\\' && list[6] == '|' && list[7] == '?' && list[8] == '*');
    assert forall|c: char| crate::cli::paths::is_forbidden(c) == ((c as u32) < 32
        || #[trigger] list.contains(c)) by {}
    if has_reserved_character(text) {
        let i = choose|i: int|
            0 <= i < text.len() && ((#[trigger] text[i]) as u32) < 32 || 0 <= i < text.len()
                && reserved_characters().contains(#[trigger] text[i]);
        assert(list.contains(text[i]) || (text[i] as u32) < 32);
        assert(crate::cli::paths::is_forbidden(text[i])) by {
            let there = list.contains(text[i]);
        }
    } else if text.len() > 0 {
        assert forall|i: int| 0 <= i < text.len() implies !crate::cli::paths::is_forbidden(
            #[trigger] text[i],
        ) by {
            let there = list.contains(text[i]);
            assert(!there && !((text[i] as u32) < 32));
        }
    }
}

/// A suffix is refused where it is empty, holds a control character or one that
/// no file name may hold, or ends in a space or a dot, and nowhere else. It is
/// judged before anything else is.
pub proof fn law_a_suffix_is_a_part_of_a_file_name(
    files: Seq<Seq<ComponentView>>,
    suffix: Seq<char>,
    recursive: bool,
)
    ensures
        set_fault(files, Some(suffix), recursive) == Some(PathsError::InvalidSuffix)
            <==> suffix.len() == 0 || has_reserved_character(suffix) || suffix.last() == ' '
            || suffix.last() == '.',
        set_fault(files, None, recursive) != Some(PathsError::InvalidSuffix),
        !recursive || files.len() == 0 ==> set_fault(files, None, recursive) is None,
        recursive && files.len() > 0 ==> (set_fault(files, None, recursive) is Some
            <==> common_root(files, true) is None),
        set_fault(files, Some(suffix), recursive) == Some(PathsError::InvalidSuffix) || set_fault(
            files,
            Some(suffix),
            recursive,
        ) == set_fault(files, None, recursive),
{
    lemma_plain_name(suffix);
}

/// The names that Windows keeps for devices.
pub open spec fn device_names() -> Seq<Seq<char>> {
    seq![
        "CON"@,
        "PRN"@,
        "AUX"@,
        "NUL"@,
        "COM1"@,
        "COM2"@,
        "COM3"@,
        "COM4"@,
        "COM5"@,
        "COM6"@,
        "COM7"@,
        "COM8"@,
        "COM9"@,
        "LPT1"@,
        "LPT2"@,
        "LPT3"@,
        "LPT4"@,
        "LPT5"@,
        "LPT6"@,
        "LPT7"@,
        "LPT8"@,
        "LPT9"@,
    ]
}

/// Whether a character is a letter of another case, or the same: what `upper` is
/// to `c` where small ASCII letters are made capital.
pub open spec fn is_capital_of(upper: char, c: char) -> bool {
    if 'a' <= c && c <= 'z' {
        upper as u32 + 32 == c as u32
    } else {
        upper == c
    }
}

/// A text in capitals has a capital for every small ASCII letter, and everything
/// else as it was.
pub proof fn law_capitals_stand_for_small_letters(text: Seq<char>, index: int)
    requires
        0 <= index < text.len(),
    ensures
        upper_text(text).len() == text.len(),
        is_capital_of(upper_text(text)[index], text[index]),
{
    lemma_capital(text[index]);
}

proof fn lemma_capital(c: char)
    ensures
        is_capital_of(crate::cli::paths::upper_char(c), c),
{
    if 97 <= c as u32 <= 122 {
        let code = (c as u32 - 32) as u32;
        assert((code as char) as u32 == code);
    }
}

/// What stands in front of the first dot of a text.
proof fn lemma_first_dot(base: Seq<char>, rest: Seq<char>)
    requires
        !base.contains('.'),
        rest.len() > 0 ==> rest[0] == '.',
    ensures
        first_index(base + rest, '.') == base.len(),
        (base + rest).take(base.len() as int) == base,
    decreases base.len(),
{
    let text = base + rest;
    assert(text.take(base.len() as int) =~= base);
    if base.len() > 0 {
        let shorter = base.drop_first();
        assert(base[0] == base.first());
        assert forall|i: int| 0 <= i < shorter.len() implies shorter[i] != '.' by {
            assert(base[i + 1] == shorter[i]);
        }
        lemma_first_dot(shorter, rest);
        assert(text.drop_first() =~= shorter + rest);
    }
}

proof fn lemma_device(name: Seq<char>)
    ensures
        crate::cli::paths::is_device(name) <==> device_names().contains(name),
{
    reveal_strlit("CON");
    reveal_strlit("PRN");
    reveal_strlit("AUX");
    reveal_strlit("NUL");
    reveal_strlit("COM");
    reveal_strlit("LPT");
    reveal_strlit("COM1");
    reveal_strlit("COM2");
    reveal_strlit("COM3");
    reveal_strlit("COM4");
    reveal_strlit("COM5");
    reveal_strlit("COM6");
    reveal_strlit("COM7");
    reveal_strlit("COM8");
    reveal_strlit("COM9");
    reveal_strlit("LPT1");
    reveal_strlit("LPT2");
    reveal_strlit("LPT3");
    reveal_strlit("LPT4");
    reveal_strlit("LPT5");
    reveal_strlit("LPT6");
    reveal_strlit("LPT7");
    reveal_strlit("LPT8");
    reveal_strlit("LPT9");
    let list = device_names();
    let com = "COM"@;
    let lpt = "LPT"@;
    assert(list[0] == "CON"@ && list[1] == "PRN"@ && list[2] == "AUX"@ && list[3] == "NUL"@);
    assert(list[4] =~= com.push('1') && list[5] =~= com.push('2') && list[6] =~= com.push('3'));
    assert(list[7] =~= com.push('4') && list[8] =~= com.push('5') && list[9] =~= com.push('6'));
    assert(list[10] =~= com.push('7') && list[11] =~= com.push('8') && list[12] =~= com.push('9'));
    assert(list[13] =~= lpt.push('1') && list[14] =~= lpt.push('2') && list[15] =~= lpt.push('3'));
    assert(list[16] =~= lpt.push('4') && list[17] =~= lpt.push('5') && list[18] =~= lpt.push('6'));
    assert(list[19] =~= lpt.push('7') && list[20] =~= lpt.push('8') && list[21] =~= lpt.push('9'));
    if name.len() == 4 {
        assert(name =~= name.take(3).push(name[3]));
        lemma_digit(name[3]);
    }
    if list.contains(name) {
        let i = choose|i: int| 0 <= i < list.len() && list[i] == name;
        assert(list.len() == 22);
        if i >= 4 {
            let front = if i < 13 {
                com
            } else {
                lpt
            };
            assert(name.len() == 4);
            assert(name.take(3) =~= front);
        }
    }
}

/// The digits above zero.
proof fn lemma_digit(c: char)
    ensures
        '1' <= c && c <= '9' <==> c == '1' || c == '2' || c == '3' || c == '4' || c == '5' || c
            == '6' || c == '7' || c == '8' || c == '9',
{
}

/// Only Windows has rules for the name of an output. There the name has to be
/// text; it must not be empty, hold a control character or a reserved one, nor
/// end in a space or a dot; and what stands before its first dot must not be the
/// name of a device in any case.
pub proof fn law_windows_names_are_judged(base: Seq<char>, rest: Seq<char>, raw: Seq<u8>)
    requires
        !base.contains('.'),
        rest.len() > 0 ==> rest[0] == '.',
    ensures
        name_fault(raw, false) is None,
        !valid_utf8(raw) ==> name_fault(raw, true) == Some(PathsError::NameNotUnicode),
        ({
            let text = base + rest;
            let fault = name_fault(encode_utf8(text), true);
            let plain = text.len() > 0 && !has_reserved_character(text) && text.last() != ' '
                && text.last() != '.';
            &&& !plain ==> fault == Some(PathsError::NameInvalid)
            &&& plain && device_names().contains(upper_text(base)) ==> fault == Some(
                PathsError::NameReserved,
            )
            &&& plain && !device_names().contains(upper_text(base)) ==> fault is None
        }),
{
    let text = base + rest;
    vstd::utf8::encode_utf8_valid_utf8(text);
    vstd::utf8::encode_utf8_decode_utf8(text);
    lemma_plain_name(text);
    lemma_first_dot(base, rest);
    lemma_device(upper_text(base));
}

// --- Lists of inputs ------------------------------------------------------------------
/// A list gives its entries line by line: a line without its outer white space is
/// an entry, unless nothing is left of it, and the lines behind it follow.
pub proof fn law_a_list_is_read_line_by_line(line: Seq<char>, rest: Seq<char>)
    requires
        !line.contains('\n'),
    ensures
        trimmed(line).len() > 0 ==> list_entries(line + seq!['\n'] + rest) == seq![trimmed(line)]
            + list_entries(rest),
        trimmed(line).len() == 0 ==> list_entries(line + seq!['\n'] + rest) == list_entries(rest),
        trimmed(line).len() > 0 ==> list_entries(line) == seq![trimmed(line)],
        trimmed(line).len() == 0 ==> list_entries(line) == Seq::<Seq<char>>::empty(),
{
    let text = line + seq!['\n'] + rest;
    lemma_first_newline(line, seq!['\n'] + rest);
    lemma_first_newline(line, Seq::empty());
    assert(text =~= line + (seq!['\n'] + rest));
    assert(line =~= line + Seq::<char>::empty());
    assert(text.skip(line.len() as int + 1) =~= rest);
    if trimmed(line).len() > 0 {
        assert(seq![trimmed(line)] + Seq::<Seq<char>>::empty() =~= seq![trimmed(line)]);
    }
}

proof fn lemma_first_newline(line: Seq<char>, rest: Seq<char>)
    requires
        !line.contains('\n'),
        rest.len() > 0 ==> rest[0] == '\n',
    ensures
        first_index(line + rest, '\n') == line.len(),
        (line + rest).take(line.len() as int) == line,
    decreases line.len(),
{
    let text = line + rest;
    assert(text.take(line.len() as int) =~= line);
    if line.len() > 0 {
        let shorter = line.drop_first();
        assert(line[0] == line.first());
        assert forall|i: int| 0 <= i < shorter.len() implies shorter[i] != '\n' by {
            assert(line[i + 1] == shorter[i]);
        }
        lemma_first_newline(shorter, rest);
        assert(text.drop_first() =~= shorter + rest);
    }
}

/// An input is a list where its last component is called `file.list`, in any
/// case, and nowhere else.
pub proof fn law_a_list_is_known_by_its_name(dir: Seq<ComponentView>, name: Seq<u8>)
    ensures
        is_list(dir.push(ComponentView::Normal(name))) <==> lower_bytes(name) == encode_utf8(
            "file.list"@,
        ),
        !is_list(dir.push(ComponentView::CurDir)),
        !is_list(dir.push(ComponentView::ParentDir)),
        !is_list(dir.push(ComponentView::RootDir)),
        !is_list(dir.push(ComponentView::Prefix(name))),
        !is_list(Seq::empty()),
{
    reveal_strlit("file.list");
    let text = "file.list"@;
    assert(vstd::utf8::is_ascii_chars(text));
    vstd::utf8::is_ascii_chars_encode_utf8(text);
    assert(encode_utf8(text) =~= list_name());
}

/// Bytes in small letters have a small letter for every ASCII capital, and
/// everything else as it was.
pub proof fn law_small_bytes_stand_for_capitals(bytes: Seq<u8>, index: int)
    requires
        0 <= index < bytes.len(),
    ensures
        lower_bytes(bytes).len() == bytes.len(),
        0x41 <= bytes[index] <= 0x5a ==> lower_bytes(bytes)[index] == bytes[index] + 32,
        !(0x41 <= bytes[index] <= 0x5a) ==> lower_bytes(bytes)[index] == bytes[index],
{
}

/// The lists among the inputs are exactly the inputs that are lists.
pub proof fn law_every_list_is_picked(
    inputs: Seq<Seq<ComponentView>>,
    path: Seq<ComponentView>,
)
    ensures
        lists_in(inputs).contains(path) <==> inputs.contains(path) && is_list(path),
        lists_in(inputs + seq![path]) == if is_list(path) {
            lists_in(inputs).push(path)
        } else {
            lists_in(inputs)
        },
    decreases inputs.len(),
{
    reveal(Seq::filter);
    let all = inputs + seq![path];
    assert(all.drop_last() =~= inputs);
    assert(all.last() == path);
    let kept = lists_in(inputs);
    if inputs.len() > 0 {
        let before = inputs.drop_last();
        let last = inputs.last();
        law_every_list_is_picked(before, path);
        let rest = lists_in(before);
        if is_list(last) {
            assert(kept == rest.push(last));
            if rest.contains(path) {
                let i = choose|i: int| 0 <= i < rest.len() && rest[i] == path;
                assert(kept[i] == path);
            }
            if path == last {
                assert(kept[rest.len() as int] == path);
            }
            if kept.contains(path) && path != last {
                let i = choose|i: int| 0 <= i < kept.len() && kept[i] == path;
                assert(rest[i] == path);
            }
        } else {
            assert(kept == rest);
        }
        if before.contains(path) {
            let i = choose|i: int| 0 <= i < before.len() && before[i] == path;
            assert(inputs[i] == path);
        }
        if inputs.contains(path) && path != last {
            let i = choose|i: int| 0 <= i < inputs.len() && inputs[i] == path;
            assert(before[i] == path);
        }
        if path == last {
            assert(inputs[inputs.len() - 1] == path);
        }
    }
}

// --- Patterns ---------------------------------------------------------------------------
/// A text is a pattern where it holds one of `*`, `?`, `[` and `]`; what is no
/// text is none.
pub proof fn law_a_pattern_holds_a_pattern_character(text: Seq<char>, raw: Seq<u8>)
    ensures
        has_glob_meta(encode_utf8(text)) <==> exists|i: int|
            0 <= i < text.len() && seq!['*', '?', '[', ']'].contains(#[trigger] text[i]),
        !valid_utf8(raw) ==> !has_glob_meta(raw),
{
    vstd::utf8::encode_utf8_valid_utf8(text);
    vstd::utf8::encode_utf8_decode_utf8(text);
    let list = seq!['*', '?', '[', ']'];
    assert(list[0] == '*' && list[1] == '?' && list[2] == '[' && list[3] == ']');
    if has_glob_meta(encode_utf8(text)) {
        let i = choose|i: int|
            0 <= i < text.len() && (text[i] == '*' || text[i] == '?' || text[i] == '[' || text[i]
                == ']');
        assert(list.contains(text[i]));
    }
    if exists|i: int| 0 <= i < text.len() && list.contains(#[trigger] text[i]) {
        let i = choose|i: int| 0 <= i < text.len() && list.contains(#[trigger] text[i]);
        let k = choose|k: int| 0 <= k < list.len() && list[k] == text[i];
        assert(text.contains(text[i]));
    }
}

/// An input that does not exist and is a pattern stands for what it matches, in
/// that order; any other stands for itself. The files of some inputs are those of
/// each, in order.
pub proof fn law_inputs_expand_one_by_one(inputs: Seq<GlobInput>, input: GlobInput)
    ensures
        input.found is Some && !input.exists && has_glob_meta(input.path@) ==> expansion(input)
            == names_of(input.found->0@),
        input.found is None || input.exists || !has_glob_meta(input.path@) ==> expansion(input)
            == seq![input.path@],
        expansions(Seq::empty()) == Seq::<Seq<u8>>::empty(),
        expansions(inputs.push(input)) == expansions(inputs) + expansion(input),
{
    assert(inputs.push(input).drop_last() =~= inputs);
    assert(inputs.push(input).last() == input);
}

// --- Names that are the same --------------------------------------------------------------
/// Components of different kinds are never the same. Two names that are no text
/// are the same where they differ in the case of ASCII letters at most.
pub proof fn law_components_are_told_apart(a: Seq<u8>, b: Seq<u8>)
    ensures
        !same_component(ComponentView::Normal(a), ComponentView::Prefix(b)),
        !same_component(ComponentView::Normal(a), ComponentView::RootDir),
        !same_component(ComponentView::Normal(a), ComponentView::CurDir),
        !same_component(ComponentView::Normal(a), ComponentView::ParentDir),
        !same_component(ComponentView::RootDir, ComponentView::CurDir),
        !same_component(ComponentView::RootDir, ComponentView::ParentDir),
        !same_component(ComponentView::CurDir, ComponentView::ParentDir),
        !same_component(ComponentView::Prefix(a), ComponentView::RootDir),
        same_component(ComponentView::Normal(a), ComponentView::Normal(b)) == same_component(
            ComponentView::Prefix(a),
            ComponentView::Prefix(b),
        ),
        !valid_utf8(a) ==> (same_component(ComponentView::Normal(a), ComponentView::Normal(b))
            <==> a.len() == b.len() && forall|i: int|
            0 <= i < a.len() ==> differ_in_case_at_most(#[trigger] a[i], b[i])),
        valid_utf8(a) && valid_utf8(b) ==> (same_component(
            ComponentView::Normal(a),
            ComponentView::Normal(b),
        ) <==> crate::text::unicode_lowercase(decode_utf8(a)) == crate::text::unicode_lowercase(
            decode_utf8(b),
        )),
{
    if !valid_utf8(a) {
        if a.len() == b.len() && forall|i: int|
            0 <= i < a.len() ==> differ_in_case_at_most(#[trigger] a[i], b[i]) {
            assert forall|i: int| 0 <= i < a.len() implies lower_bytes(a)[i] == lower_bytes(b)[i] by {
                assert(differ_in_case_at_most(a[i], b[i]));
            }
            assert(lower_bytes(a) =~= lower_bytes(b));
        }
        if lower_bytes(a) == lower_bytes(b) {
            assert(a.len() == lower_bytes(a).len() && b.len() == lower_bytes(b).len());
            assert forall|i: int| 0 <= i < a.len() implies differ_in_case_at_most(
                #[trigger] a[i],
                b[i],
            ) by {
                assert(lower_bytes(a)[i] == lower_bytes(b)[i]);
            }
        }
    }
}

/// Whether two bytes are equal, or the same ASCII letter in either case.
pub open spec fn differ_in_case_at_most(a: u8, b: u8) -> bool {
    ||| a == b
    ||| 0x41 <= a <= 0x5a && b == a + 32
    ||| 0x41 <= b <= 0x5a && a == b + 32
}

/// Two paths that both exist are the same file exactly where they resolve to the
/// same place, however they are written; otherwise they are where they have as
/// many components and each matches its counterpart.
pub proof fn law_existing_paths_go_by_where_they_lead(
    a: Seq<ComponentView>,
    b: Seq<ComponentView>,
    x: Seq<ComponentView>,
    y: Seq<ComponentView>,
    other: Option<Seq<ComponentView>>,
)
    ensures
        equivalent(a, b, Some(x), Some(y)) <==> x == y,
        equivalent(a, b, None, other) <==> a.len() == b.len() && forall|i: int|
            0 <= i < a.len() ==> same_component(#[trigger] a[i], b[i]),
        equivalent(a, b, other, None) <==> a.len() == b.len() && forall|i: int|
            0 <= i < a.len() ==> same_component(#[trigger] a[i], b[i]),
{
}

// --- The shared root --------------------------------------------------------------------
proof fn lemma_parents(files: Seq<Seq<ComponentView>>)
    requires
        forall|i: int| 0 <= i < files.len() ==> parent_of(#[trigger] files[i]) is Some,
    ensures
        parents_of(files).len() == files.len(),
        forall|i: int|
            0 <= i < files.len() ==> parent_of(#[trigger] files[i]) == Some(parents_of(files)[i]),
    decreases files.len(),
{
    if files.len() > 0 {
        let before = files.drop_last();
        assert forall|i: int| 0 <= i < before.len() implies parent_of(#[trigger] before[i])
            is Some by {
            assert(before[i] == files[i]);
        }
        lemma_parents(before);
        assert(files[files.len() - 1] == files.last());
        assert forall|i: int| 0 <= i < files.len() implies parent_of(#[trigger] files[i]) == Some(
            parents_of(files)[i],
        ) by {
            if i < before.len() {
                assert(before[i] == files[i]);
            }
        }
    }
}

/// The root that recursive inputs share is the deepest directory that holds them
/// all: every input lies in it, and no directory further down the path of the
/// first input does as well. It is written as the first input has it.
pub proof fn law_the_shared_root_is_the_deepest_directory(
    files: Seq<Seq<ComponentView>>,
    index: int,
    deeper: int,
)
    requires
        0 <= index < files.len(),
        forall|i: int| 0 <= i < files.len() ==> parent_of(#[trigger] files[i]) is Some,
    ensures
        ({
            let first = parent_of(files[0])->0;
            match common_root(files, true) {
                Some(root) => {
                    &&& root.len() > 0
                    &&& root.is_prefix_of(first)
                    &&& match_up_to(first, parent_of(files[index])->0, root.len() as int)
                    &&& root.len() < deeper <= first.len() ==> exists|i: int|
                        0 <= i < files.len() && !match_up_to(
                            first,
                            parent_of(#[trigger] files[i])->0,
                            deeper,
                        )
                },
                None => 0 < deeper <= first.len() ==> exists|i: int|
                    0 <= i < files.len() && !match_up_to(
                        first,
                        parent_of(#[trigger] files[i])->0,
                        deeper,
                    ),
            }
        }),
        common_root(files, false) is None,
{
    lemma_parents(files);
    let parents = parents_of(files);
    let first = parents[0];
    assert(parent_of(files[0]) == Some(first));
    assert(parent_of(files[index]) == Some(parents[index]));
    crate::cli::paths::law_the_common_path_is_the_longest_shared_start(parents);
    if 0 < deeper <= first.len() && !is_common(parents, deeper) {
        let i = choose|i: int|
            0 <= i < parents.len() && !match_up_to(first, #[trigger] parents[i], deeper);
        assert(parent_of(files[i]) == Some(parents[i]));
    }
    if let Some(root) = common_root(files, true) {
        assert(is_common(parents, root.len() as int));
        assert(match_up_to(first, parents[index], root.len() as int));
        assert(root.is_prefix_of(first));
    }
}

/// A path joined to a directory lies in it, unless it starts at the root, where it
/// keeps no more of the directory than its drive, or with a drive of its own, where
/// it keeps nothing.
pub proof fn law_joining_keeps_the_directory_of_relative_paths(
    drive: Seq<u8>,
    dir: Seq<ComponentView>,
    path: Seq<ComponentView>,
)
    requires
        dir.len() > 0 ==> !(dir[0] is Prefix),
    ensures
        path.len() == 0 || path[0] is Normal || path[0] is CurDir || path[0] is ParentDir
            ==> joined_path(dir, path) == dir + path,
        path.len() > 0 && path[0] is RootDir ==> joined_path(dir, path) == path && joined_path(
            seq![ComponentView::Prefix(drive)] + dir,
            path,
        ) == seq![ComponentView::Prefix(drive)] + path,
        path.len() > 0 && path[0] is Prefix ==> joined_path(dir, path) == path,
{
    assert(Seq::<ComponentView>::empty() + path =~= path);
    let driven = seq![ComponentView::Prefix(drive)] + dir;
    assert(driven[0] is Prefix);
    assert(driven.take(1) =~= seq![ComponentView::Prefix(drive)]);
}

} // verus!
