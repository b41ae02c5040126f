//! Input paths, and the output path that each of them maps to.
//!
//! A path is held as its components, and the names in it as the bytes that the
//! operating system gave, which need not be valid UTF-8. Names are compared
//! without regard to case on every platform: taking two names for one is safe,
//! while taking one file for two could publish over a file that is to be kept.

use vstd::prelude::*;

use crate::text::{debug_text, find_char, first_index, from_utf8, to_lowercase};

verus! {

/// A component of a path.
#[derive(Debug, Clone, PartialEq, Eq)]
pub enum Component {
    /// A drive or a share.
    Prefix(Vec<u8>),
    /// The root directory.
    RootDir,
    /// The current directory.
    CurDir,
    /// The parent directory.
    ParentDir,
    /// A name.
    Normal(Vec<u8>),
}

/// A path as its components.
#[derive(Debug, Clone, PartialEq, Eq)]
pub struct FilePath {
    /// The components, from the front.
    pub components: Vec<Component>,
}

/// A [`Component`] by its contents.
pub enum ComponentView {
    /// See [`Component::Prefix`].
    Prefix(Seq<u8>),
    /// See [`Component::RootDir`].
    RootDir,
    /// See [`Component::CurDir`].
    CurDir,
    /// See [`Component::ParentDir`].
    ParentDir,
    /// See [`Component::Normal`].
    Normal(Seq<u8>),
}

impl View for Component {
    type V = ComponentView;

    open spec fn view(&self) -> ComponentView {
        match self {
            Component::Prefix(name) => ComponentView::Prefix(name@),
            Component::RootDir => ComponentView::RootDir,
            Component::CurDir => ComponentView::CurDir,
            Component::ParentDir => ComponentView::ParentDir,
            Component::Normal(name) => ComponentView::Normal(name@),
        }
    }
}

/// Components by their contents.
pub open spec fn contents(components: Seq<Component>) -> Seq<ComponentView> {
    components.map_values(|component: Component| component@)
}

impl View for FilePath {
    type V = Seq<ComponentView>;

    open spec fn view(&self) -> Seq<ComponentView> {
        contents(self.components@)
    }
}

// --- Comparing names ---------------------------------------------------------
/// A byte with ASCII capitals made small.
pub open spec fn lower_byte(byte: u8) -> u8 {
    if 65 <= byte <= 90 {
        (byte + 32) as u8
    } else {
        byte
    }
}

/// Bytes with ASCII capitals made small.
pub open spec fn lower_bytes(bytes: Seq<u8>) -> Seq<u8> {
    bytes.map_values(|byte: u8| lower_byte(byte))
}

/// Whether two names are the same but for case: by the rules of Unicode where
/// both are text, and by ASCII letters otherwise.
pub open spec fn same_name(a: Seq<u8>, b: Seq<u8>) -> bool {
    if vstd::utf8::valid_utf8(a) && vstd::utf8::valid_utf8(b) {
        crate::text::unicode_lowercase(vstd::utf8::decode_utf8(a))
            == crate::text::unicode_lowercase(vstd::utf8::decode_utf8(b))
    } else {
        lower_bytes(a) == lower_bytes(b)
    }
}

/// Whether two components are the same but for case.
pub open spec fn same_component(a: ComponentView, b: ComponentView) -> bool {
    match (a, b) {
        (ComponentView::Prefix(x), ComponentView::Prefix(y)) => same_name(x, y),
        (ComponentView::RootDir, ComponentView::RootDir) => true,
        (ComponentView::CurDir, ComponentView::CurDir) => true,
        (ComponentView::ParentDir, ComponentView::ParentDir) => true,
        (ComponentView::Normal(x), ComponentView::Normal(y)) => same_name(x, y),
        _ => false,
    }
}

fn lowered(byte: u8) -> (small: u8)
    ensures
        small == lower_byte(byte),
{
    if 65 <= byte && byte <= 90 {
        byte + 32
    } else {
        byte
    }
}

fn bytes_match(a: &Vec<u8>, b: &Vec<u8>) -> (same: bool)
    ensures
        same == (lower_bytes(a@) == lower_bytes(b@)),
{
    if a.len() != b.len() {
        assert(lower_bytes(a@).len() != lower_bytes(b@).len());
        return false;
    }
    let mut i: usize = 0;
    while i < a.len()
        invariant
            i <= a@.len() == b@.len(),
            forall|j: int| 0 <= j < i ==> lower_byte(#[trigger] a@[j]) == lower_byte(b@[j]),
        decreases a@.len() - i,
    {
        if lowered(a[i]) != lowered(b[i]) {
            assert(lower_bytes(a@)[i as int] != lower_bytes(b@)[i as int]);
            return false;
        }
        i = i + 1;
    }
    assert(lower_bytes(a@) =~= lower_bytes(b@));
    true
}

fn names_match(a: &Vec<u8>, b: &Vec<u8>) -> (same: bool)
    ensures
        same == same_name(a@, b@),
{
    match (from_utf8(a.as_slice()), from_utf8(b.as_slice())) {
        (Some(x), Some(y)) => to_lowercase(x) == to_lowercase(y),
        _ => bytes_match(a, b),
    }
}

/// Whether two components are the same but for case.
pub fn component_eq(a: &Component, b: &Component) -> (same: bool)
    ensures
        same == same_component(a@, b@),
{
    match (a, b) {
        (Component::Prefix(x), Component::Prefix(y)) => names_match(x, y),
        (Component::RootDir, Component::RootDir) => true,
        (Component::CurDir, Component::CurDir) => true,
        (Component::ParentDir, Component::ParentDir) => true,
        (Component::Normal(x), Component::Normal(y)) => names_match(x, y),
        _ => false,
    }
}

fn same_bytes(a: &Vec<u8>, b: &Vec<u8>) -> (same: bool)
    ensures
        same == (a@ == b@),
{
    if a.len() != b.len() {
        return false;
    }
    let mut i: usize = 0;
    while i < a.len()
        invariant
            i <= a@.len() == b@.len(),
            forall|j: int| 0 <= j < i ==> a@[j] == b@[j],
        decreases a@.len() - i,
    {
        if a[i] != b[i] {
            return false;
        }
        i = i + 1;
    }
    assert(a@ =~= b@);
    true
}

/// Whether two components are exactly the same.
pub fn component_eq_exact(a: &Component, b: &Component) -> (same: bool)
    ensures
        same == (a@ == b@),
{
    match (a, b) {
        (Component::Prefix(x), Component::Prefix(y)) => same_bytes(x, y),
        (Component::RootDir, Component::RootDir) => true,
        (Component::CurDir, Component::CurDir) => true,
        (Component::ParentDir, Component::ParentDir) => true,
        (Component::Normal(x), Component::Normal(y)) => same_bytes(x, y),
        _ => false,
    }
}

fn copy_bytes(bytes: &Vec<u8>) -> (copy: Vec<u8>)
    ensures
        copy@ == bytes@,
{
    let mut copy: Vec<u8> = Vec::new();
    let mut i: usize = 0;
    while i < bytes.len()
        invariant
            i <= bytes@.len(),
            copy@ == bytes@.take(i as int),
        decreases bytes@.len() - i,
    {
        copy.push(bytes[i]);
        i = i + 1;
        assert(copy@ =~= bytes@.take(i as int));
    }
    assert(bytes@.take(bytes@.len() as int) =~= bytes@);
    copy
}

fn copy_component(component: &Component) -> (copy: Component)
    ensures
        copy@ == component@,
{
    match component {
        Component::Prefix(name) => Component::Prefix(copy_bytes(name)),
        Component::RootDir => Component::RootDir,
        Component::CurDir => Component::CurDir,
        Component::ParentDir => Component::ParentDir,
        Component::Normal(name) => Component::Normal(copy_bytes(name)),
    }
}

impl FilePath {
    /// The part of a path between two of its components.
    fn part(&self, from: usize, to: usize) -> (part: FilePath)
        requires
            from <= to <= self@.len(),
        ensures
            part@ == self@.subrange(from as int, to as int),
    {
        let mut components: Vec<Component> = Vec::new();
        let mut i: usize = from;
        while i < to
            invariant
                from <= i <= to <= self@.len(),
                contents(components@) == self@.subrange(from as int, i as int),
            decreases to - i,
        {
            let ghost before = components@;
            let component = copy_component(&self.components[i]);
            components.push(component);
            assert(contents(components@) =~= contents(before).push(component@));
            assert(self@.subrange(from as int, i + 1) =~= self@.subrange(
                from as int,
                i as int,
            ).push(self@[i as int]));
            i = i + 1;
        }
        FilePath { components }
    }

    /// Another path with the same components.
    pub fn copied(&self) -> (copy: FilePath)
        ensures
            copy@ == self@,
    {
        let copy = self.part(0, self.components.len());
        assert(self@.subrange(0, self@.len() as int) =~= self@);
        copy
    }
}

/// Whether two paths have exactly the same components.
pub fn same_path(a: &FilePath, b: &FilePath) -> (same: bool)
    ensures
        same == (a@ == b@),
{
    if a.components.len() != b.components.len() {
        assert(a@.len() != b@.len());
        return false;
    }
    let mut i: usize = 0;
    while i < a.components.len()
        invariant
            i <= a@.len() == b@.len(),
            forall|j: int| 0 <= j < i ==> a@[j] == b@[j],
        decreases a@.len() - i,
    {
        if !component_eq_exact(&a.components[i], &b.components[i]) {
            assert(a@[i as int] != b@[i as int]);
            return false;
        }
        assert(a@[i as int] == b@[i as int]);
        i = i + 1;
    }
    assert(a@ =~= b@);
    true
}

/// Whether the first `count` components of two paths match.
pub open spec fn match_up_to(a: Seq<ComponentView>, b: Seq<ComponentView>, count: int) -> bool {
    &&& count <= a.len()
    &&& count <= b.len()
    &&& forall|i: int| 0 <= i < count ==> same_component(#[trigger] a[i], b[i])
}

/// Whether two paths match all along.
pub open spec fn paths_match(a: Seq<ComponentView>, b: Seq<ComponentView>) -> bool {
    a.len() == b.len() && match_up_to(a, b, a.len() as int)
}

/// Whether two paths name the same file. Where both exist, what they resolve
/// to decides; otherwise their components do.
pub open spec fn equivalent(
    a: Seq<ComponentView>,
    b: Seq<ComponentView>,
    resolved_a: Option<Seq<ComponentView>>,
    resolved_b: Option<Seq<ComponentView>>,
) -> bool {
    match (resolved_a, resolved_b) {
        (Some(x), Some(y)) => x == y,
        _ => paths_match(a, b),
    }
}

/// A path that may be missing, by its contents.
pub open spec fn path_of(path: Option<FilePath>) -> Option<Seq<ComponentView>> {
    match path {
        Some(path) => Some(path@),
        None => None,
    }
}

fn components_match(a: &FilePath, b: &FilePath) -> (same: bool)
    ensures
        same == paths_match(a@, b@),
{
    if a.components.len() != b.components.len() {
        return false;
    }
    let mut i: usize = 0;
    while i < a.components.len()
        invariant
            i <= a@.len() == b@.len(),
            forall|j: int| 0 <= j < i ==> same_component(#[trigger] a@[j], b@[j]),
        decreases a@.len() - i,
    {
        if !component_eq(&a.components[i], &b.components[i]) {
            assert(!same_component(a@[i as int], b@[i as int]));
            return false;
        }
        i = i + 1;
    }
    true
}

/// Compares two paths for filesystem-level equivalence. `resolved_a` and
/// `resolved_b` are what the paths resolve to, where they exist.
pub fn paths_equivalent(
    a: &FilePath,
    b: &FilePath,
    resolved_a: &Option<FilePath>,
    resolved_b: &Option<FilePath>,
) -> (same: bool)
    ensures
        same == equivalent(a@, b@, path_of(*resolved_a), path_of(*resolved_b)),
{
    if let Some(x) = resolved_a {
        if let Some(y) = resolved_b {
            return same_path(x, y);
        }
    }
    components_match(a, b)
}

// --- Prefixes ----------------------------------------------------------------
/// Paths by their contents.
pub open spec fn paths_of(paths: Seq<FilePath>) -> Seq<Seq<ComponentView>> {
    paths.map_values(|path: FilePath| path@)
}

/// Whether the first `count` components of the first path match in all paths.
pub open spec fn is_common(paths: Seq<Seq<ComponentView>>, count: int) -> bool {
    forall|i: int| 0 <= i < paths.len() ==> match_up_to(paths[0], #[trigger] paths[i], count)
}

/// The largest number of components, up to `limit`, that all paths share.
pub open spec fn shared_count(paths: Seq<Seq<ComponentView>>, limit: nat) -> nat
    decreases limit,
{
    if limit == 0 || is_common(paths, limit as int) {
        limit
    } else {
        shared_count(paths, (limit - 1) as nat)
    }
}

/// The longest start that all paths share, with the names as the first path
/// has them; `None` where they share nothing.
pub open spec fn common_path(paths: Seq<Seq<ComponentView>>) -> Option<Seq<ComponentView>> {
    if paths.len() == 0 || shared_count(paths, paths[0].len()) == 0 {
        None
    } else {
        Some(paths[0].take(shared_count(paths, paths[0].len()) as int))
    }
}

proof fn lemma_shared_count(paths: Seq<Seq<ComponentView>>, limit: nat, count: int)
    requires
        0 <= count <= limit,
        is_common(paths, count),
        count < limit ==> !is_common(paths, count + 1),
    ensures
        shared_count(paths, limit) == count,
    decreases limit,
{
    if count < limit {
        if is_common(paths, limit as int) {
            assert forall|i: int| 0 <= i < paths.len() implies match_up_to(
                paths[0],
                #[trigger] paths[i],
                count + 1,
            ) by {
                assert(match_up_to(paths[0], paths[i], limit as int));
            }
        }
        lemma_shared_count(paths, (limit - 1) as nat, count);
    }
}

fn matching_length(a: &FilePath, b: &FilePath, limit: usize) -> (count: usize)
    requires
        limit <= a@.len(),
    ensures
        count <= limit,
        match_up_to(a@, b@, count as int),
        count < limit ==> !match_up_to(a@, b@, count + 1),
{
    let mut count: usize = 0;
    while count < limit && count < b.components.len() && component_eq(
        &a.components[count],
        &b.components[count],
    )
        invariant
            count <= limit <= a@.len(),
            count <= b@.len(),
            forall|i: int| 0 <= i < count ==> same_component(#[trigger] a@[i], b@[i]),
        decreases limit - count,
    {
        count = count + 1;
    }
    proof {
        if count < limit && match_up_to(a@, b@, count + 1) {
            assert(same_component(a@[count as int], b@[count as int]));
        }
    }
    count
}

/// The longest start that all paths share, with the names as the first path
/// has them; `None` where they share nothing.
pub fn get_common_path(paths: &Vec<FilePath>) -> (common: Option<FilePath>)
    ensures
        path_of(common) == common_path(paths_of(paths@)),
{
    if paths.len() == 0 {
        return None;
    }
    let ghost all = paths_of(paths@);
    let first = &paths[0];
    let mut count: usize = first.components.len();
    proof {
        assert(all[0] == first@);
        assert forall|i: int| 0 <= i < first@.len() implies same_component(
            #[trigger] first@[i],
            first@[i],
        ) by {}
    }
    let mut next: usize = 1;
    while next < paths.len()
        invariant
            all == paths_of(paths@),
            0 < next <= paths@.len(),
            first@ == all[0],
            count <= first@.len(),
            forall|i: int| 0 <= i < next ==> match_up_to(all[0], #[trigger] all[i], count as int),
            count < first@.len() ==> exists|i: int|
                0 <= i < next && !match_up_to(all[0], #[trigger] all[i], count + 1),
        decreases paths@.len() - next,
    {
        let ghost before = count;
        count = matching_length(first, &paths[next], count);
        proof {
            assert(all[next as int] == paths@[next as int]@);
            if before < first@.len() && count == before {
                let i = choose|i: int|
                    0 <= i < next && !match_up_to(all[0], #[trigger] all[i], before + 1);
                assert(!match_up_to(all[0], all[i], count + 1));
            }
            if count < before {
                assert(!match_up_to(all[0], all[next as int], count + 1));
            }
        }
        next = next + 1;
    }
    proof {
        assert(is_common(all, count as int));
        if count < first@.len() {
            assert(!is_common(all, count + 1));
        }
        lemma_shared_count(all, first@.len(), count as int);
        assert(first@.subrange(0, count as int) =~= first@.take(count as int));
    }
    if count == 0 {
        None
    } else {
        Some(first.part(0, count))
    }
}

/// The rest of a path behind a base, if the path starts with it.
pub open spec fn behind(path: Seq<ComponentView>, base: Seq<ComponentView>) -> Option<
    Seq<ComponentView>,
> {
    if match_up_to(path, base, base.len() as int) {
        Some(path.skip(base.len() as int))
    } else {
        None
    }
}

/// Strips a base from a path, comparing component by component.
pub fn strip_prefix_components(path: &FilePath, base: &FilePath) -> (rest: Option<FilePath>)
    ensures
        path_of(rest) == behind(path@, base@),
{
    let count: usize = base.components.len();
    if path.components.len() < count {
        return None;
    }
    if matching_length(base, path, count) < count {
        proof {
            let length = base@.len() as int;
            if match_up_to(path@, base@, length) {
                assert forall|i: int| 0 <= i < length implies same_component(
                    #[trigger] base@[i],
                    path@[i],
                ) by {
                    assert(same_component(path@[i], base@[i]));
                }
                assert(match_up_to(base@, path@, length));
            }
            lemma_match_is_monotone(base@, path@);
        }
        return None;
    }
    proof {
        assert forall|i: int| 0 <= i < base@.len() implies same_component(
            #[trigger] path@[i],
            base@[i],
        ) by {
            assert(same_component(base@[i], path@[i]));
        }
        assert(path@.subrange(count as int, path@.len() as int) =~= path@.skip(count as int));
    }
    Some(path.part(count, path.components.len()))
}

/// Matching up to some point is matching up to every point before it.
proof fn lemma_match_is_monotone(a: Seq<ComponentView>, b: Seq<ComponentView>)
    ensures
        forall|m: int, n: int|
            0 <= m <= n && #[trigger] match_up_to(a, b, n) ==> #[trigger] match_up_to(a, b, m),
{
}

// --- Output names ------------------------------------------------------------
/// Whether a component can be taken off the end of a path.
pub open spec fn is_removable(component: ComponentView) -> bool {
    component is Normal || component is CurDir || component is ParentDir
}

/// The directory of a path.
pub open spec fn parent_of(path: Seq<ComponentView>) -> Option<Seq<ComponentView>> {
    if path.len() > 0 && is_removable(path.last()) {
        Some(path.drop_last())
    } else {
        None
    }
}

/// The path without its `.` and `..` components: each `..` takes the name in
/// front of it away, and none leaves the root.
pub open spec fn normalized(path: Seq<ComponentView>) -> Seq<ComponentView>
    decreases path.len(),
{
    if path.len() == 0 {
        path
    } else {
        let before = normalized(path.drop_last());
        match path.last() {
            ComponentView::CurDir => before,
            ComponentView::ParentDir => if before.len() > 0 && before.last() is Normal {
                before.drop_last()
            } else {
                before
            },
            other => before.push(other),
        }
    }
}

/// Where a byte last occurs, or -1.
pub open spec fn last_byte(bytes: Seq<u8>, wanted: u8) -> int
    decreases bytes.len(),
{
    if bytes.len() == 0 {
        -1
    } else if bytes.last() == wanted {
        bytes.len() - 1
    } else {
        last_byte(bytes.drop_last(), wanted)
    }
}

/// A file name without its extension.
pub open spec fn stem_of(name: Seq<u8>) -> Seq<u8> {
    let dot = last_byte(name, 46);
    if dot <= 0 {
        name
    } else {
        name.take(dot)
    }
}

/// The name of an image whose path has none: `optimized_image`.
pub open spec fn default_stem() -> Seq<u8> {
    seq![
        0x6fu8,
        0x70u8,
        0x74u8,
        0x69u8,
        0x6du8,
        0x69u8,
        0x7au8,
        0x65u8,
        0x64u8,
        0x5fu8,
        0x69u8,
        0x6du8,
        0x61u8,
        0x67u8,
        0x65u8,
    ]
}

/// The stem of the file that a path names.
pub open spec fn path_stem(path: Seq<ComponentView>) -> Seq<u8> {
    if path.len() > 0 {
        match path.last() {
            ComponentView::Normal(name) => stem_of(name),
            _ => default_stem(),
        }
    } else {
        default_stem()
    }
}

/// What a name is as a component: two names have a meaning of their own.
pub open spec fn named(name: Seq<u8>) -> ComponentView {
    if name == seq![46u8] {
        ComponentView::CurDir
    } else if name == seq![46u8, 46u8] {
        ComponentView::ParentDir
    } else {
        ComponentView::Normal(name)
    }
}

/// Characters that no part of a file name may hold.
pub open spec fn is_forbidden(c: char) -> bool {
    c as u32 <= 0x1f || c == '/' || c == '\\' || c == ':' || c == '*' || c == '?' || c == '"' || c
        == '<' || c == '>' || c == '|'
}

/// Whether a text can be a part of a file name: not empty, without a forbidden
/// character, and not ending in a space or a dot.
pub open spec fn is_plain_name(text: Seq<char>) -> bool {
    &&& text.len() > 0
    &&& forall|i: int| 0 <= i < text.len() ==> !is_forbidden(#[trigger] text[i])
    &&& text.last() != ' '
    &&& text.last() != '.'
}

fn forbidden(c: char) -> (result: bool)
    ensures
        result == is_forbidden(c),
{
    c as u32 <= 0x1f || c == '/' || c == '\\' || c == ':' || c == '*' || c == '?' || c == '"' || c
        == '<' || c == '>' || c == '|'
}

/// Whether a suffix is a plain file-name fragment.
pub fn valid_suffix(suffix: &str) -> (valid: bool)
    ensures
        valid == is_plain_name(suffix@),
{
    let chars = crate::text::chars_of(suffix);
    if chars.len() == 0 {
        return false;
    }
    let mut i: usize = 0;
    while i < chars.len()
        invariant
            i <= chars@.len(),
            chars@ == suffix@,
            forall|j: int| 0 <= j < i ==> !is_forbidden(#[trigger] chars@[j]),
        decreases chars@.len() - i,
    {
        if forbidden(chars[i]) {
            assert(is_forbidden(suffix@[i as int]));
            return false;
        }
        i = i + 1;
    }
    let last: char = chars[chars.len() - 1];
    last != ' ' && last != '.'
}

/// The names that Windows keeps for devices, in capitals.
pub open spec fn is_device(name: Seq<char>) -> bool {
    ||| name == "CON"@
    ||| name == "PRN"@
    ||| name == "AUX"@
    ||| name == "NUL"@
    ||| name.len() == 4 && (name.take(3) == "COM"@ || name.take(3) == "LPT"@) && '1' <= name[3]
        && name[3] <= '9'
}

/// A character with small ASCII letters made capital.
pub open spec fn upper_char(c: char) -> char {
    if 97 <= c as u32 <= 122 {
        ((c as u32 - 32) as u32) as char
    } else {
        c
    }
}

/// A text with small ASCII letters made capital.
pub open spec fn upper_text(text: Seq<char>) -> Seq<char> {
    text.map_values(|c: char| upper_char(c))
}

/// Why inputs cannot be mapped to outputs.
#[derive(Debug, Clone, Copy, PartialEq, Eq, Structural)]
pub enum PathsError {
    /// The suffix is no plain file-name fragment.
    InvalidSuffix,
    /// Recursive inputs share no directory.
    NoCommonRoot,
    /// A file name is not valid Unicode, which Windows demands.
    NameNotUnicode,
    /// A file name is not valid on Windows.
    NameInvalid,
    /// A file name is reserved on Windows.
    NameReserved,
    /// An input has no directory.
    NoParent,
    /// An input does not lie in the shared directory.
    OutsideCommonRoot,
    /// Two inputs map to the same output.
    SameOutput,
}

/// What is wrong with an output file name, if anything is. Only Windows has
/// rules for it.
pub open spec fn name_fault(name: Seq<u8>, windows: bool) -> Option<PathsError> {
    if !windows {
        None
    } else if !vstd::utf8::valid_utf8(name) {
        Some(PathsError::NameNotUnicode)
    } else {
        let text = vstd::utf8::decode_utf8(name);
        if !is_plain_name(text) {
            Some(PathsError::NameInvalid)
        } else if is_device(upper_text(text.take(first_index(text, '.')))) {
            Some(PathsError::NameReserved)
        } else {
            None
        }
    }
}

fn upper(c: char) -> (result: u32)
    ensures
        result == upper_char(c) as u32,
{
    let code: u32 = c as u32;
    if 97 <= code && code <= 122 {
        code - 32
    } else {
        code
    }
}

/// Whether three characters, in capitals, are these.
fn is_three(chars: &Vec<char>, a: char, b: char, c: char) -> (result: bool)
    requires
        chars@.len() >= 3,
    ensures
        result == (upper_text(chars@).take(3) == seq![a, b, c]),
{
    let result = upper(chars[0]) == a as u32 && upper(chars[1]) == b as u32 && upper(chars[2]) == c as u32;
    proof {
        let name = upper_text(chars@).take(3);
        assert(name[0] == upper_char(chars@[0]));
        assert(name[1] == upper_char(chars@[1]));
        assert(name[2] == upper_char(chars@[2]));
        if result {
            assert(name =~= seq![a, b, c]);
        }
        if name == seq![a, b, c] {
            assert(name[0] == a && name[1] == b && name[2] == c);
        }
    }
    result
}

/// Whether the first `count` characters, in capitals, name a device.
fn names_device(chars: &Vec<char>, count: usize) -> (result: bool)
    requires
        count <= chars@.len(),
    ensures
        result == is_device(upper_text(chars@.take(count as int))),
{
    let ghost name = upper_text(chars@.take(count as int));
    proof {
        reveal_strlit("CON");
        reveal_strlit("PRN");
        reveal_strlit("AUX");
        reveal_strlit("NUL");
        reveal_strlit("COM");
        reveal_strlit("LPT");
        assert("CON"@ =~= seq!['C', 'O', 'N']);
        assert("PRN"@ =~= seq!['P', 'R', 'N']);
        assert("AUX"@ =~= seq!['A', 'U', 'X']);
        assert("NUL"@ =~= seq!['N', 'U', 'L']);
        assert("COM"@ =~= seq!['C', 'O', 'M']);
        assert("LPT"@ =~= seq!['L', 'P', 'T']);
        if count >= 3 {
            assert(name.take(3) =~= upper_text(chars@).take(3));
        }
        if count == 3 {
            assert(name.take(3) =~= name);
        }
    }
    if count == 3 {
        is_three(chars, 'C', 'O', 'N') || is_three(chars, 'P', 'R', 'N') || is_three(
            chars,
            'A',
            'U',
            'X',
        ) || is_three(chars, 'N', 'U', 'L')
    } else if count == 4 {
        let digit: u32 = chars[3] as u32;
        assert(name[3] == upper_char(chars@[3]));
        49 <= digit && digit <= 57 && (is_three(chars, 'C', 'O', 'M') || is_three(
            chars,
            'L',
            'P',
            'T',
        ))
    } else {
        false
    }
}

/// Checks an output file name against the rules of the platform.
pub fn validate_output_file_name(name: &Vec<u8>, windows: bool) -> (result: Result<(), PathsError>)
    ensures
        result is Ok <==> name_fault(name@, windows) is None,
        result matches Err(error) ==> name_fault(name@, windows) == Some(error),
{
    if !windows {
        return Ok(());
    }
    let text = match from_utf8(name.as_slice()) {
        Some(text) => text,
        None => return Err(PathsError::NameNotUnicode),
    };
    if !valid_suffix(text) {
        return Err(PathsError::NameInvalid);
    }
    let chars = crate::text::chars_of(text);
    let end: usize = find_char(&chars, '.');
    if names_device(&chars, end) {
        return Err(PathsError::NameReserved);
    }
    Ok(())
}

/// The stem with the suffix behind it, where there is one.
pub open spec fn with_suffix(stem: Seq<u8>, suffix: Option<Seq<char>>) -> Seq<u8> {
    match suffix {
        Some(suffix) => stem + vstd::utf8::encode_utf8(suffix),
        None => stem,
    }
}

/// The drive or share at the front of a path, where there is one.
pub open spec fn prefix_of(path: Seq<ComponentView>) -> Seq<ComponentView> {
    if path.len() > 0 && path[0] is Prefix {
        path.take(1)
    } else {
        Seq::empty()
    }
}

/// A path joined to a directory. One with a drive or a share replaces the
/// directory, and one that starts at the root replaces all of it but its drive
/// or share.
pub open spec fn joined_path(
    dir: Seq<ComponentView>,
    path: Seq<ComponentView>,
) -> Seq<ComponentView> {
    if path.len() > 0 && path[0] is Prefix {
        path
    } else if path.len() > 0 && path[0] is RootDir {
        prefix_of(dir) + path
    } else {
        dir + path
    }
}

/// The directory that the output of an input goes to.
pub open spec fn output_directory(
    path: Seq<ComponentView>,
    out_dir: Option<Seq<ComponentView>>,
    common: Option<Seq<ComponentView>>,
) -> Result<Seq<ComponentView>, PathsError> {
    match (out_dir, common) {
        (Some(dir), Some(common)) => match parent_of(path) {
            None => Err(PathsError::NoParent),
            Some(parent) => match behind(parent, common) {
                None => Err(PathsError::OutsideCommonRoot),
                Some(relative) => Ok(joined_path(dir, relative)),
            },
        },
        (Some(dir), None) => Ok(dir),
        (None, _) => match parent_of(path) {
            Some(parent) => Ok(parent),
            None => Ok(Seq::empty()),
        },
    }
}

/// The output path of an input: the stem and the suffix in the output
/// directory, with `.` and `..` resolved.
pub open spec fn output_of(
    path: Seq<ComponentView>,
    out_dir: Option<Seq<ComponentView>>,
    common: Option<Seq<ComponentView>>,
    suffix: Option<Seq<char>>,
    windows: bool,
) -> Result<Seq<ComponentView>, PathsError> {
    let name = with_suffix(path_stem(path), suffix);
    match name_fault(name, windows) {
        Some(error) => Err(error),
        None => match output_directory(path, out_dir, common) {
            Err(error) => Err(error),
            Ok(directory) => Ok(normalized(directory.push(named(name)))),
        },
    }
}

fn push_component(path: &mut FilePath, component: Component)
    ensures
        final(path)@ == old(path)@.push(component@),
{
    let ghost before = path.components@;
    path.components.push(component);
    assert(contents(path.components@) =~= contents(before).push(component@));
}

/// Resolves `.` and `..` by the text of a path alone.
pub fn normalize_lexically(path: &FilePath) -> (result: FilePath)
    ensures
        result@ == normalized(path@),
{
    let mut result = FilePath { components: Vec::new() };
    let mut i: usize = 0;
    assert(result@ =~= normalized(path@.take(0)));
    while i < path.components.len()
        invariant
            i <= path@.len(),
            result@ == normalized(path@.take(i as int)),
        decreases path@.len() - i,
    {
        let ghost before = result.components@;
        proof {
            assert(path@.take(i + 1).drop_last() =~= path@.take(i as int));
            assert(path@.take(i + 1).last() == path.components@[i as int]@);
        }
        match &path.components[i] {
            Component::CurDir => {},
            Component::ParentDir => {
                let count: usize = result.components.len();
                if count > 0 && matches!(result.components[count - 1], Component::Normal(_)) {
                    result.components.pop();
                    assert(contents(result.components@) =~= contents(before).drop_last());
                }
            },
            other => {
                push_component(&mut result, copy_component(other));
            },
        }
        i = i + 1;
    }
    assert(path@.take(path@.len() as int) =~= path@);
    result
}

impl FilePath {
    /// The directory of this path.
    pub fn parent(&self) -> (parent: Option<FilePath>)
        ensures
            path_of(parent) == parent_of(self@),
    {
        let count: usize = self.components.len();
        if count == 0 {
            return None;
        }
        assert(self@.last() == self.components@[count - 1]@);
        match &self.components[count - 1] {
            Component::Prefix(_) => None,
            Component::RootDir => None,
            _ => {
                assert(self@.subrange(0, count - 1) =~= self@.drop_last());
                Some(self.part(0, count - 1))
            },
        }
    }

    /// The stem of the file that this path names.
    pub fn file_stem(&self) -> (stem: Vec<u8>)
        ensures
            stem@ == path_stem(self@),
    {
        let count: usize = self.components.len();
        if count > 0 {
            assert(self@.last() == self.components@[count - 1]@);
            if let Component::Normal(name) = &self.components[count - 1] {
                return stem_bytes(name);
            }
        }
        let stem: Vec<u8> = vec![
            0x6f,
            0x70,
            0x74,
            0x69,
            0x6d,
            0x69,
            0x7a,
            0x65,
            0x64,
            0x5f,
            0x69,
            0x6d,
            0x61,
            0x67,
            0x65,
        ];
        assert(stem@ =~= default_stem());
        stem
    }
}

fn stem_bytes(name: &Vec<u8>) -> (stem: Vec<u8>)
    ensures
        stem@ == stem_of(name@),
{
    let mut after: usize = name.len();
    assert(name@.take(name@.len() as int) =~= name@);
    while after > 0 && name[after - 1] != 46
        invariant
            after <= name@.len(),
            last_byte(name@, 46) == last_byte(name@.take(after as int), 46),
        decreases after,
    {
        assert(name@.take(after as int).drop_last() =~= name@.take(after - 1));
        after = after - 1;
    }
    let mut stem = copy_bytes(name);
    if after > 1 {
        stem.truncate(after - 1);
        assert(stem@ =~= name@.take(after - 1));
    }
    stem
}

/// The stem with the suffix behind it.
pub fn file_name_with_suffix(stem: &Vec<u8>, suffix: &str) -> (name: Vec<u8>)
    ensures
        name@ == stem@ + vstd::utf8::encode_utf8(suffix@),
{
    let mut name = copy_bytes(stem);
    let bytes = suffix.as_bytes();
    let mut i: usize = 0;
    assert(name@ =~= stem@ + bytes@.take(0));
    while i < bytes.len()
        invariant
            i <= bytes@.len(),
            name@ == stem@ + bytes@.take(i as int),
        decreases bytes@.len() - i,
    {
        name.push(bytes[i]);
        i = i + 1;
        assert(name@ =~= stem@ + bytes@.take(i as int));
    }
    assert(bytes@.take(bytes@.len() as int) =~= bytes@);
    name
}

fn to_component(name: Vec<u8>) -> (component: Component)
    ensures
        component@ == named(name@),
{
    proof {
        if name@.len() == 1 && name@[0] == 46 {
            assert(name@ =~= seq![46u8]);
        }
        if name@.len() == 2 && name@[0] == 46 && name@[1] == 46 {
            assert(name@ =~= seq![46u8, 46u8]);
        }
    }
    if name.len() == 1 && name[0] == 46 {
        Component::CurDir
    } else if name.len() == 2 && name[0] == 46 && name[1] == 46 {
        Component::ParentDir
    } else {
        Component::Normal(name)
    }
}

fn join(dir: &FilePath, relative: &FilePath) -> (joined: FilePath)
    ensures
        joined@ == joined_path(dir@, relative@),
{
    let first: usize = if relative.components.len() == 0 {
        dir.components.len()
    } else {
        match &relative.components[0] {
            Component::Prefix(_) => 0,
            Component::RootDir => {
                if dir.components.len() > 0 && matches!(dir.components[0], Component::Prefix(_)) {
                    1
                } else {
                    0
                }
            },
            _ => dir.components.len(),
        }
    };
    let mut joined = FilePath { components: Vec::new() };
    let mut i: usize = 0;
    assert(joined@ =~= dir@.take(0));
    while i < first
        invariant
            i <= first <= dir@.len(),
            joined@ == dir@.take(i as int),
        decreases first - i,
    {
        push_component(&mut joined, copy_component(&dir.components[i]));
        i = i + 1;
        assert(joined@ =~= dir@.take(i as int));
    }
    let mut i: usize = 0;
    assert(joined@ =~= dir@.take(first as int) + relative@.take(0));
    while i < relative.components.len()
        invariant
            i <= relative@.len(),
            first <= dir@.len(),
            joined@ == dir@.take(first as int) + relative@.take(i as int),
        decreases relative@.len() - i,
    {
        push_component(&mut joined, copy_component(&relative.components[i]));
        i = i + 1;
        assert(joined@ =~= dir@.take(first as int) + relative@.take(i as int));
    }
    assert(relative@.take(relative@.len() as int) =~= relative@);
    assert(joined@ =~= joined_path(dir@, relative@));
    joined
}

/// The output path of an input.
pub fn output_path(
    path: &FilePath,
    out_dir: &Option<FilePath>,
    common: &Option<FilePath>,
    suffix: &Option<String>,
    windows: bool,
) -> (result: Result<FilePath, PathsError>)
    ensures
        ({
            let expected = output_of(
                path@,
                path_of(*out_dir),
                path_of(*common),
                crate::error::text_of(*suffix),
                windows,
            );
            match result {
                Ok(output) => expected == Ok::<Seq<ComponentView>, PathsError>(output@),
                Err(error) => expected == Err::<Seq<ComponentView>, PathsError>(error),
            }
        }),
{
    let stem = path.file_stem();
    let name = match suffix {
        Some(suffix) => file_name_with_suffix(&stem, suffix.as_str()),
        None => stem,
    };
    match validate_output_file_name(&name, windows) {
        Ok(()) => {},
        Err(error) => return Err(error),
    }
    let mut output = match out_dir {
        Some(dir) => match common {
            Some(common) => {
                let parent = match path.parent() {
                    Some(parent) => parent,
                    None => return Err(PathsError::NoParent),
                };
                match strip_prefix_components(&parent, common) {
                    Some(relative) => join(dir, &relative),
                    None => return Err(PathsError::OutsideCommonRoot),
                }
            },
            None => dir.copied(),
        },
        None => match path.parent() {
            Some(parent) => parent,
            None => {
                let empty = FilePath { components: Vec::new() };
                assert(empty@ =~= Seq::<ComponentView>::empty());
                empty
            },
        },
    };
    push_component(&mut output, to_component(name));
    Ok(normalize_lexically(&output))
}

// --- Mapping inputs to outputs -----------------------------------------------
/// The directories of paths, without those that have none.
pub open spec fn parents_of(paths: Seq<Seq<ComponentView>>) -> Seq<Seq<ComponentView>>
    decreases paths.len(),
{
    if paths.len() == 0 {
        Seq::empty()
    } else {
        let before = parents_of(paths.drop_last());
        match parent_of(paths.last()) {
            Some(parent) => before.push(parent),
            None => before,
        }
    }
}

/// The directory under which the structure of recursive inputs is kept.
pub open spec fn common_root(paths: Seq<Seq<ComponentView>>, recursive: bool) -> Option<
    Seq<ComponentView>,
> {
    if recursive {
        common_path(parents_of(paths))
    } else {
        None
    }
}

/// The inputs that are files, in the order in which they are given.
pub open spec fn accessible(
    files: Seq<Seq<ComponentView>>,
    statuses: Seq<FileStatus>,
) -> Seq<Seq<ComponentView>>
    decreases files.len(),
{
    if files.len() == 0 {
        Seq::empty()
    } else {
        let before = accessible(files.drop_last(), statuses.drop_last());
        if statuses.last() is File {
            before.push(files.last())
        } else {
            before
        }
    }
}

/// Leaves out the inputs that are no files.
pub fn accessible_files(files: &Vec<FilePath>, statuses: &Vec<FileStatus>) -> (inputs: Vec<FilePath>)
    requires
        files@.len() == statuses@.len(),
    ensures
        paths_of(inputs@) == accessible(paths_of(files@), statuses@),
{
    let mut inputs: Vec<FilePath> = Vec::new();
    let ghost all = paths_of(files@);
    let mut i: usize = 0;
    assert(paths_of(inputs@) =~= accessible(all.take(0), statuses@.take(0)));
    while i < files.len()
        invariant
            i <= files@.len() == statuses@.len(),
            all == paths_of(files@),
            paths_of(inputs@) == accessible(all.take(i as int), statuses@.take(i as int)),
        decreases files@.len() - i,
    {
        proof {
            assert(all.take(i + 1).drop_last() =~= all.take(i as int));
            assert(all.take(i + 1).last() == files@[i as int]@);
            assert(statuses@.take(i + 1).drop_last() =~= statuses@.take(i as int));
        }
        let ghost before = inputs@;
        if check_input_file(statuses[i]).is_ok() {
            let input = files[i].copied();
            inputs.push(input);
            assert(paths_of(inputs@) =~= paths_of(before).push(input@));
        }
        i = i + 1;
    }
    assert(all.take(all.len() as int) =~= all);
    assert(statuses@.take(statuses@.len() as int) =~= statuses@);
    inputs
}

/// The inputs that are files, and the outputs of the first of them, up to the
/// first one that has none.
#[derive(Debug)]
pub struct OutputPlan {
    /// The inputs that are files.
    pub inputs: Vec<FilePath>,
    /// The outputs, in the order of the inputs.
    pub outputs: Vec<FilePath>,
    /// Why the input after those has no output, where the inputs are not all
    /// mapped.
    pub error: Option<PathsError>,
}

/// What makes a whole set of inputs unusable, before any of them is mapped.
pub open spec fn set_fault(
    files: Seq<Seq<ComponentView>>,
    suffix: Option<Seq<char>>,
    recursive: bool,
) -> Option<PathsError> {
    match suffix {
        Some(suffix) if !is_plain_name(suffix) => Some(PathsError::InvalidSuffix),
        _ => if recursive && files.len() > 0 && common_root(files, recursive) is None {
            Some(PathsError::NoCommonRoot)
        } else {
            None
        },
    }
}

fn parents(files: &Vec<FilePath>) -> (parents: Vec<FilePath>)
    ensures
        paths_of(parents@) == parents_of(paths_of(files@)),
{
    let mut parents: Vec<FilePath> = Vec::new();
    let ghost all = paths_of(files@);
    let mut i: usize = 0;
    assert(paths_of(parents@) =~= parents_of(all.take(0)));
    while i < files.len()
        invariant
            i <= files@.len(),
            all == paths_of(files@),
            paths_of(parents@) == parents_of(all.take(i as int)),
        decreases files@.len() - i,
    {
        proof {
            assert(all.take(i + 1).drop_last() =~= all.take(i as int));
            assert(all.take(i + 1).last() == files@[i as int]@);
        }
        let ghost before = parents@;
        if let Some(parent) = files[i].parent() {
            parents.push(parent);
            assert(paths_of(parents@) =~= paths_of(before).push(parent@));
        }
        i = i + 1;
    }
    assert(all.take(all.len() as int) =~= all);
    parents
}

/// Maps each input that is a file to its output path, as far as that goes;
/// `statuses` says what stands at each of the paths.
///
/// With `recursive` and an output directory, the structure below the shared
/// parent directory of the inputs is kept. Recursive inputs without a shared
/// directory are refused instead of being flattened. The suffix and the file
/// names are checked before work starts.
pub fn plan_outputs(
    files: &Vec<FilePath>,
    statuses: &Vec<FileStatus>,
    out_dir: &Option<FilePath>,
    suffix: &Option<String>,
    recursive: bool,
    windows: bool,
) -> (plan: OutputPlan)
    requires
        files@.len() == statuses@.len(),
    ensures
        paths_of(plan.inputs@) == accessible(paths_of(files@), statuses@),
        ({
            let inputs = paths_of(plan.inputs@);
            let outputs = paths_of(plan.outputs@);
            let tail = crate::error::text_of(*suffix);
            match set_fault(inputs, tail, recursive) {
                Some(error) => outputs.len() == 0 && plan.error == Some(error),
                None => {
                    let common = common_root(inputs, recursive);
                    &&& outputs.len() <= inputs.len()
                    &&& forall|i: int|
                        0 <= i < outputs.len() ==> output_of(
                            inputs[i],
                            path_of(*out_dir),
                            common,
                            tail,
                            windows,
                        ) == Ok::<Seq<ComponentView>, PathsError>(#[trigger] outputs[i])
                    &&& plan.error is None <==> outputs.len() == inputs.len()
                    &&& plan.error matches Some(error) ==> output_of(
                        inputs[outputs.len() as int],
                        path_of(*out_dir),
                        common,
                        tail,
                        windows,
                    ) == Err::<Seq<ComponentView>, PathsError>(error)
                },
            }
        }),
{
    let kept = accessible_files(files, statuses);
    if let Some(suffix) = suffix {
        if !valid_suffix(suffix.as_str()) {
            return OutputPlan {
                inputs: kept,
                outputs: Vec::new(),
                error: Some(PathsError::InvalidSuffix),
            };
        }
    }
    let common = if recursive {
        get_common_path(&parents(&kept))
    } else {
        None
    };
    if recursive && kept.len() > 0 && common.is_none() {
        return OutputPlan {
            inputs: kept,
            outputs: Vec::new(),
            error: Some(PathsError::NoCommonRoot),
        };
    }
    let ghost inputs = paths_of(kept@);
    let ghost tail = crate::error::text_of(*suffix);
    let mut outputs: Vec<FilePath> = Vec::new();
    let mut i: usize = 0;
    while i < kept.len()
        invariant
            i <= kept@.len(),
            inputs == paths_of(kept@),
            inputs == accessible(paths_of(files@), statuses@),
            tail == crate::error::text_of(*suffix),
            set_fault(inputs, tail, recursive) is None,
            path_of(common) == common_root(inputs, recursive),
            outputs@.len() == i,
            forall|j: int|
                0 <= j < i ==> output_of(
                    inputs[j],
                    path_of(*out_dir),
                    path_of(common),
                    tail,
                    windows,
                ) == Ok::<Seq<ComponentView>, PathsError>(#[trigger] outputs@[j]@),
        decreases kept@.len() - i,
    {
        assert(inputs[i as int] == kept@[i as int]@);
        match output_path(&kept[i], out_dir, &common, suffix, windows) {
            Ok(output) => {
                outputs.push(output);
            },
            Err(error) => {
                return OutputPlan { inputs: kept, outputs, error: Some(error) };
            },
        }
        i = i + 1;
    }
    OutputPlan { inputs: kept, outputs, error: None }
}

/// A mapping that failed, and the input at which it did.
#[derive(Debug, Clone, Copy, PartialEq, Eq, Structural)]
pub struct PathsFailure {
    /// What is wrong.
    pub error: PathsError,
    /// The index of the input.
    pub file: usize,
}

/// Whether an output is also the output of an earlier input.
pub open spec fn collides(
    outputs: Seq<Seq<ComponentView>>,
    resolved: Seq<Option<Seq<ComponentView>>>,
    index: int,
) -> bool {
    exists|earlier: int|
        0 <= earlier < index && equivalent(
            #[trigger] outputs[earlier],
            outputs[index],
            resolved[earlier],
            resolved[index],
        )
}

/// Paths that may be missing, by their contents.
pub open spec fn resolutions(resolved: Seq<Option<FilePath>>) -> Seq<Option<Seq<ComponentView>>> {
    resolved.map_values(|path: Option<FilePath>| path_of(path))
}

fn find_collision(plan: &OutputPlan, resolved: &Vec<Option<FilePath>>, index: usize) -> (found: bool)
    requires
        index < plan.outputs@.len(),
        plan.outputs@.len() == resolved@.len(),
    ensures
        found == collides(paths_of(plan.outputs@), resolutions(resolved@), index as int),
{
    let ghost outputs = paths_of(plan.outputs@);
    let ghost places = resolutions(resolved@);
    let mut earlier: usize = 0;
    while earlier < index
        invariant
            earlier <= index < plan.outputs@.len(),
            plan.outputs@.len() == resolved@.len(),
            outputs == paths_of(plan.outputs@),
            places == resolutions(resolved@),
            forall|j: int|
                0 <= j < earlier ==> !equivalent(
                    #[trigger] outputs[j],
                    outputs[index as int],
                    places[j],
                    places[index as int],
                ),
        decreases index - earlier,
    {
        if paths_equivalent(
            &plan.outputs[earlier],
            &plan.outputs[index],
            &resolved[earlier],
            &resolved[index],
        ) {
            assert(outputs[earlier as int] == plan.outputs@[earlier as int]@);
            return true;
        }
        assert(outputs[earlier as int] == plan.outputs@[earlier as int]@);
        earlier = earlier + 1;
    }
    false
}

/// Pairs each input of a plan with its output, or says why that cannot be done.
///
/// `resolved` holds what each planned output resolves to, where it exists
/// already. Inputs that map to the same output are refused instead of being
/// raced. Of several problems the one with the earliest input is reported.
pub fn get_paths(plan: &OutputPlan, resolved: &Vec<Option<FilePath>>) -> (result: Result<
    Vec<(FilePath, FilePath)>,
    PathsFailure,
>)
    requires
        plan.outputs@.len() == resolved@.len(),
        plan.outputs@.len() <= plan.inputs@.len(),
        plan.error is None ==> plan.outputs@.len() == plan.inputs@.len(),
    ensures
        ({
            let outputs = paths_of(plan.outputs@);
            let places = resolutions(resolved@);
            match result {
                Ok(pairs) => {
                    &&& plan.error is None
                    &&& pairs@.len() == plan.inputs@.len()
                    &&& forall|i: int|
                        0 <= i < pairs@.len() ==> (#[trigger] pairs@[i]).0@ == plan.inputs@[i]@
                            && pairs@[i].1@ == outputs[i]
                    &&& forall|i: int| 0 <= i < outputs.len() ==> !(#[trigger] collides(outputs, places, i))
                },
                Err(failure) => {
                    &&& forall|i: int|
                        0 <= i < outputs.len() && i < failure.file ==> !(#[trigger] collides(
                            outputs,
                            places,
                            i,
                        ))
                    &&& if failure.file < outputs.len() {
                        failure.error == PathsError::SameOutput && collides(
                            outputs,
                            places,
                            failure.file as int,
                        )
                    } else {
                        failure.file == outputs.len() && plan.error == Some(failure.error)
                    }
                },
            }
        }),
{
    let ghost outputs = paths_of(plan.outputs@);
    let ghost places = resolutions(resolved@);
    let mut pairs: Vec<(FilePath, FilePath)> = Vec::new();
    let mut i: usize = 0;
    while i < plan.outputs.len()
        invariant
            i <= plan.outputs@.len() <= plan.inputs@.len(),
            plan.outputs@.len() == resolved@.len(),
            outputs == paths_of(plan.outputs@),
            places == resolutions(resolved@),
            pairs@.len() == i,
            forall|j: int|
                0 <= j < i ==> (#[trigger] pairs@[j]).0@ == plan.inputs@[j]@ && pairs@[j].1@
                    == outputs[j],
            forall|j: int| 0 <= j < i ==> !(#[trigger] collides(outputs, places, j)),
        decreases plan.outputs@.len() - i,
    {
        if find_collision(plan, resolved, i) {
            return Err(PathsFailure { error: PathsError::SameOutput, file: i });
        }
        pairs.push((plan.inputs[i].copied(), plan.outputs[i].copied()));
        i = i + 1;
    }
    match plan.error {
        Some(error) => Err(PathsFailure { error, file: plan.outputs.len() }),
        None => Ok(pairs),
    }
}

/// What a user is told of a failed mapping. `subject` is the suffix, the file
/// name, or the path in question, and `common` the shared directory, the last
/// two as they are shown to a user.
pub open spec fn failure_text(error: PathsError, subject: Seq<char>, common: Seq<char>) -> Seq<char> {
    match error {
        PathsError::InvalidSuffix => "Invalid suffix "@ + crate::text::quoted(subject)
            + ": it must be a plain file-name fragment"@,
        PathsError::NoCommonRoot =>
            "Recursive inputs do not have a common filesystem root; split them into separate commands"@,
        PathsError::NameNotUnicode => "Output file name is not valid Unicode on Windows"@,
        PathsError::NameInvalid => "Output file name "@ + crate::text::quoted(subject)
            + " is not valid on Windows"@,
        PathsError::NameReserved => "Output file name "@ + crate::text::quoted(subject)
            + " is reserved on Windows"@,
        PathsError::NoParent => "Input path "@ + subject + " does not have a parent directory"@,
        PathsError::OutsideCommonRoot => "Cannot preserve directory structure for "@ + subject
            + " under "@ + common,
        PathsError::SameOutput => "Multiple inputs map to the same output path: "@ + subject,
    }
}

/// What a user is told of a failed mapping.
pub fn failure_message(error: PathsError, subject: &str, common: &str) -> (message: String)
    ensures
        message@ == failure_text(error, subject@, common@),
{
    match error {
        PathsError::InvalidSuffix => {
            let mut message = "Invalid suffix ".to_owned();
            message.append(debug_text(subject).as_str());
            message.append(": it must be a plain file-name fragment");
            message
        },
        PathsError::NoCommonRoot =>
            "Recursive inputs do not have a common filesystem root; split them into separate commands".to_owned(),
        PathsError::NameNotUnicode => "Output file name is not valid Unicode on Windows".to_owned(),
        PathsError::NameInvalid => {
            let mut message = "Output file name ".to_owned();
            message.append(debug_text(subject).as_str());
            message.append(" is not valid on Windows");
            message
        },
        PathsError::NameReserved => {
            let mut message = "Output file name ".to_owned();
            message.append(debug_text(subject).as_str());
            message.append(" is reserved on Windows");
            message
        },
        PathsError::NoParent => {
            let mut message = "Input path ".to_owned();
            message.append(subject);
            message.append(" does not have a parent directory");
            message
        },
        PathsError::OutsideCommonRoot => {
            let mut message = "Cannot preserve directory structure for ".to_owned();
            message.append(subject);
            message.append(" under ");
            message.append(common);
            message
        },
        PathsError::SameOutput => {
            let mut message = "Multiple inputs map to the same output path: ".to_owned();
            message.append(subject);
            message
        },
    }
}

// --- Inputs ------------------------------------------------------------------
/// What the operating system says of an input path.
#[derive(Debug, Clone, Copy, PartialEq, Eq, Structural)]
pub enum FileStatus {
    /// There is a file.
    File,
    /// There is something else.
    NotFile,
    /// There is nothing.
    NotFound,
    /// It cannot be told.
    Failed,
}

/// Why an input path is left out.
#[derive(Debug, Clone, Copy, PartialEq, Eq)]
pub enum InputPathError {
    /// There is no file; what is there instead.
    MissingOrNotFile(&'static str),
    /// The path cannot be accessed.
    Io,
}

/// Judges an input path.
pub fn check_input_file(status: FileStatus) -> (result: Result<(), InputPathError>)
    ensures
        result is Ok <==> status is File,
        result matches Err(InputPathError::Io) <==> status is Failed,
        status is NotFile ==> (result matches Err(InputPathError::MissingOrNotFile(reason))
            && reason@ == "is not a file"@),
        status is NotFound ==> (result matches Err(InputPathError::MissingOrNotFile(reason))
            && reason@ == "does not exist or is a dangling symbolic link"@),
{
    match status {
        FileStatus::File => Ok(()),
        FileStatus::NotFile => Err(InputPathError::MissingOrNotFile("is not a file")),
        FileStatus::NotFound => Err(
            InputPathError::MissingOrNotFile("does not exist or is a dangling symbolic link"),
        ),
        FileStatus::Failed => Err(InputPathError::Io),
    }
}

/// Whether a path holds a character that a glob pattern gives a meaning to. A
/// path that is not text never does.
pub open spec fn has_glob_meta(path: Seq<u8>) -> bool {
    vstd::utf8::valid_utf8(path) && ({
        let text = vstd::utf8::decode_utf8(path);
        text.contains('*') || text.contains('?') || text.contains('[') || text.contains(']')
    })
}

/// Whether a path holds a character that a glob pattern gives a meaning to.
pub fn contains_glob_meta(path: &Vec<u8>) -> (found: bool)
    ensures
        found == has_glob_meta(path@),
{
    match from_utf8(path.as_slice()) {
        Some(text) => crate::text::has_char(text, '*') || crate::text::has_char(text, '?')
            || crate::text::has_char(text, '[') || crate::text::has_char(text, ']'),
        None => false,
    }
}

/// Whether an input is expanded as a pattern. An existing path is taken
/// literally, so that file names may hold the characters of a pattern.
pub fn is_glob_pattern(path: &Vec<u8>, exists: bool) -> (pattern: bool)
    ensures
        pattern == (!exists && has_glob_meta(path@)),
{
    !exists && contains_glob_meta(path)
}

/// An input, and what the file system says of it.
#[derive(Debug, PartialEq, Eq)]
pub struct GlobInput {
    /// The input as it was given.
    pub path: Vec<u8>,
    /// Whether a file of that name exists.
    pub exists: bool,
    /// The files that it matches as a pattern; `None` where it is no valid one.
    pub found: Option<Vec<Vec<u8>>>,
}

/// Byte strings by their contents.
pub open spec fn names_of(names: Seq<Vec<u8>>) -> Seq<Seq<u8>> {
    names.map_values(|name: Vec<u8>| name@)
}

/// The files that an input stands for: what it matches where it is expanded as
/// a pattern, and else itself.
pub open spec fn expansion(input: GlobInput) -> Seq<Seq<u8>> {
    match input.found {
        Some(found) if !input.exists && has_glob_meta(input.path@) => names_of(found@),
        _ => seq![input.path@],
    }
}

/// The files that some inputs stand for, in order.
pub open spec fn expansions(inputs: Seq<GlobInput>) -> Seq<Seq<u8>>
    decreases inputs.len(),
{
    if inputs.len() == 0 {
        seq![]
    } else {
        expansions(inputs.drop_last()) + expansion(inputs.last())
    }
}

fn append_names(files: &mut Vec<Vec<u8>>, names: &Vec<Vec<u8>>)
    ensures
        names_of(final(files)@) == names_of(old(files)@) + names_of(names@),
{
    let mut at: usize = 0;
    proof {
        assert(names_of(names@).take(0) =~= seq![]);
        assert(names_of(files@) =~= names_of(old(files)@) + names_of(names@).take(0));
    }
    while at < names.len()
        invariant
            at <= names.len(),
            names_of(files@) == names_of(old(files)@) + names_of(names@).take(at as int),
        decreases names.len() - at,
    {
        let ghost before = files@;
        files.push(copy_bytes(&names[at]));
        proof {
            assert(names_of(files@) =~= names_of(before).push(names@[at as int]@));
            assert(names_of(names@).take(at + 1) =~= names_of(names@).take(at as int).push(
                names@[at as int]@,
            ));
            assert(names_of(files@) =~= names_of(old(files)@) + names_of(names@).take(at + 1));
        }
        at = at + 1;
    }
    proof {
        assert(names_of(names@).take(at as int) =~= names_of(names@));
    }
}

/// The files that an input stands for.
pub fn apply_glob_pattern(input: &GlobInput) -> (files: Vec<Vec<u8>>)
    ensures
        names_of(files@) == expansion(*input),
{
    let mut files: Vec<Vec<u8>> = Vec::new();
    proof {
        assert(names_of(files@) =~= seq![]);
    }
    if is_glob_pattern(&input.path, input.exists) {
        if let Some(found) = &input.found {
            append_names(&mut files, found);
            assert(names_of(files@) =~= names_of(found@));
            return files;
        }
    }
    files.push(copy_bytes(&input.path));
    assert(names_of(files@) =~= seq![input.path@]);
    files
}

/// The files that the inputs stand for, in order.
pub fn collect_files(inputs: &Vec<GlobInput>) -> (files: Vec<Vec<u8>>)
    ensures
        names_of(files@) == expansions(inputs@),
{
    let mut files: Vec<Vec<u8>> = Vec::new();
    let mut at: usize = 0;
    proof {
        assert(names_of(files@) =~= expansions(inputs@.take(0)));
    }
    while at < inputs.len()
        invariant
            at <= inputs.len(),
            names_of(files@) == expansions(inputs@.take(at as int)),
        decreases inputs.len() - at,
    {
        let found = apply_glob_pattern(&inputs[at]);
        append_names(&mut files, &found);
        proof {
            assert(inputs@.take(at + 1).drop_last() =~= inputs@.take(at as int));
            assert(inputs@.take(at + 1).last() == inputs@[at as int]);
        }
        at = at + 1;
    }
    proof {
        assert(inputs@.take(at as int) =~= inputs@);
    }
    files
}

/// The name that marks a list of inputs: `file.list`.
pub open spec fn list_name() -> Seq<u8> {
    seq![0x66u8, 0x69u8, 0x6cu8, 0x65u8, 0x2eu8, 0x6cu8, 0x69u8, 0x73u8, 0x74u8]
}

/// Whether a path names a list of inputs, whatever the case.
pub open spec fn is_list(path: Seq<ComponentView>) -> bool {
    path.len() > 0 && (path.last() matches ComponentView::Normal(name) && lower_bytes(name)
        == list_name())
}

/// Whether a path names a list of inputs.
pub fn is_file_list_path(path: &FilePath) -> (list: bool)
    ensures
        list == is_list(path@),
{
    let count: usize = path.components.len();
    if count == 0 {
        return false;
    }
    assert(path@.last() == path.components@[count - 1]@);
    let wanted: Vec<u8> = vec![0x66, 0x69, 0x6c, 0x65, 0x2e, 0x6c, 0x69, 0x73, 0x74];
    assert(wanted@ =~= list_name());
    assert(lower_bytes(list_name()) =~= list_name());
    match &path.components[count - 1] {
        Component::Normal(name) => bytes_match(name, &wanted),
        _ => false,
    }
}

/// The entries of a list: its lines without the white space around them, and
/// without the empty ones.
pub open spec fn list_entries(text: Seq<char>) -> Seq<Seq<char>>
    decreases text.len(),
{
    let end = first_index(text, '\n');
    let entry = crate::text::trimmed(text.take(end));
    let rest = if end >= text.len() || end < 0 {
        Seq::empty()
    } else {
        list_entries(text.skip(end + 1))
    };
    if entry.len() == 0 {
        rest
    } else {
        seq![entry] + rest
    }
}

/// Texts by their contents.
pub open spec fn texts_of(texts: Seq<String>) -> Seq<Seq<char>> {
    texts.map_values(|text: String| text@)
}

fn split_entries(text: &str) -> (entries: Vec<String>)
    ensures
        texts_of(entries@) == list_entries(text@),
{
    let chars = crate::text::chars_of(text);
    let count: usize = chars.len();
    let mut entries: Vec<String> = Vec::new();
    let mut start: usize = 0;
    let ghost whole = list_entries(text@);
    assert(text@.skip(0) =~= text@);
    assert(texts_of(entries@) + list_entries(text@.skip(0)) =~= whole);
    loop
        invariant
            chars@ == text@,
            count == chars@.len(),
            start <= count,
            whole == list_entries(text@),
            texts_of(entries@) + list_entries(text@.skip(start as int)) == whole,
        decreases count - start,
    {
        let ghost line = text@.skip(start as int);
        let mut end: usize = start;
        assert(line.skip(0) =~= line);
        while end < count && chars[end] != '\n'
            invariant
                chars@ == text@,
                count == chars@.len(),
                start <= end <= count,
                line == text@.skip(start as int),
                first_index(line, '\n') == end - start + first_index(
                    line.skip(end - start),
                    '\n',
                ),
            decreases count - end,
        {
            assert(line.skip(end - start).drop_first() =~= line.skip(end + 1 - start));
            assert(line.skip(end - start).first() == text@[end as int]);
            end = end + 1;
        }
        proof {
            if end < count {
                assert(line.skip(end - start).first() == text@[end as int]);
            }
            assert(first_index(line, '\n') == end - start);
            assert(line.take(end - start) =~= text@.subrange(start as int, end as int));
        }
        let entry = crate::text::trim(text.substring_char(start, end));
        let ghost before = texts_of(entries@);
        let ghost rest = if end >= count {
            Seq::<Seq<char>>::empty()
        } else {
            list_entries(text@.skip(end + 1))
        };
        assert(end < count ==> line.skip(end - start + 1) =~= text@.skip(end + 1));
        if entry.unicode_len() > 0 {
            entries.push(entry.to_owned());
            assert(texts_of(entries@) =~= before.push(entry@));
            assert(texts_of(entries@) + rest =~= before + (seq![entry@] + rest));
        }
        if end >= count {
            assert(texts_of(entries@) + rest =~= texts_of(entries@));
            return entries;
        }
        start = end + 1;
    }
}

/// Reads the entries of a list of inputs, one per line. The error names the
/// list, which has to be text.
pub fn read_file_list_entries(list: &str, content: &Vec<u8>) -> (result: Result<Vec<String>, String>)
    ensures
        match result {
            Ok(entries) => vstd::utf8::valid_utf8(content@) && texts_of(entries@) == list_entries(
                vstd::utf8::decode_utf8(content@),
            ),
            Err(message) => !vstd::utf8::valid_utf8(content@) && message@ == "File list "@ + list@
                + " is not valid UTF-8"@,
        },
{
    match from_utf8(content.as_slice()) {
        Some(text) => Ok(split_entries(text)),
        None => {
            let mut message = "File list ".to_owned();
            message.append(list);
            message.append(" is not valid UTF-8");
            Err(message)
        },
    }
}

/// The inputs that are lists, in order.
pub open spec fn lists_in(inputs: Seq<Seq<ComponentView>>) -> Seq<Seq<ComponentView>> {
    inputs.filter(|path: Seq<ComponentView>| is_list(path))
}

/// The inputs to go on with: where one of them is a list, the lists and
/// nothing else, otherwise all of them. The flag tells which.
pub fn expand_file_lists(inputs: &Vec<FilePath>) -> (chosen: (bool, Vec<FilePath>))
    ensures
        chosen.0 == (lists_in(paths_of(inputs@)).len() > 0),
        paths_of(chosen.1@) == (if chosen.0 {
            lists_in(paths_of(inputs@))
        } else {
            paths_of(inputs@)
        }),
{
    let ghost all = paths_of(inputs@);
    let mut lists: Vec<FilePath> = Vec::new();
    let mut others: Vec<FilePath> = Vec::new();
    let mut i: usize = 0;
    assert(paths_of(lists@) =~= lists_in(all.take(0)));
    assert(paths_of(others@) =~= all.take(0));
    while i < inputs.len()
        invariant
            i <= inputs@.len(),
            all == paths_of(inputs@),
            paths_of(lists@) == lists_in(all.take(i as int)),
            paths_of(others@) == all.take(i as int),
        decreases inputs@.len() - i,
    {
        let ghost before = lists@;
        let ghost kept = others@;
        proof {
            reveal(Seq::filter);
            assert(all.take(i + 1).drop_last() =~= all.take(i as int));
            assert(all.take(i + 1).last() == inputs@[i as int]@);
        }
        if is_file_list_path(&inputs[i]) {
            lists.push(inputs[i].copied());
            assert(paths_of(lists@) =~= paths_of(before).push(inputs@[i as int]@));
        }
        others.push(inputs[i].copied());
        assert(paths_of(others@) =~= paths_of(kept).push(inputs@[i as int]@));
        assert(all.take(i + 1) =~= all.take(i as int).push(inputs@[i as int]@));
        i = i + 1;
    }
    assert(all.take(all.len() as int) =~= all);
    assert(paths_of(lists@).len() == lists@.len());
    if lists.len() > 0 {
        (true, lists)
    } else {
        (false, others)
    }
}

// --- Laws --------------------------------------------------------------------
/// An existing file is never expanded, whatever its name holds, nor is a name
/// without the characters of a pattern.
pub proof fn law_a_literal_input_stands_for_itself(input: GlobInput)
    requires
        input.exists || !has_glob_meta(input.path@),
    ensures
        expansion(input) == seq![input.path@],
{
}

/// A name is the same as itself, and sameness does not depend on the order.
pub proof fn law_sameness_is_symmetric(a: ComponentView, b: ComponentView)
    ensures
        same_component(a, a),
        same_component(a, b) == same_component(b, a),
{
}

/// Equivalence of paths is reflexive and symmetric.
pub proof fn law_equivalence_is_symmetric(
    a: Seq<ComponentView>,
    b: Seq<ComponentView>,
    resolved_a: Option<Seq<ComponentView>>,
    resolved_b: Option<Seq<ComponentView>>,
)
    ensures
        equivalent(a, a, resolved_a, resolved_a),
        equivalent(a, b, resolved_a, resolved_b) == equivalent(b, a, resolved_b, resolved_a),
{
    assert forall|i: int| 0 <= i < a.len() implies same_component(#[trigger] a[i], a[i]) by {}
    if paths_match(a, b) {
        assert forall|i: int| 0 <= i < a.len() implies same_component(#[trigger] b[i], a[i]) by {
            assert(same_component(a[i], b[i]));
        }
    }
    if paths_match(b, a) {
        assert forall|i: int| 0 <= i < a.len() implies same_component(#[trigger] a[i], b[i]) by {
            assert(same_component(b[i], a[i]));
        }
    }
}

/// The shared start of some paths is a start of each of them, and there is no
/// longer one; with a name that they do not share, there is none.
pub proof fn law_the_common_path_is_the_longest_shared_start(paths: Seq<Seq<ComponentView>>)
    requires
        paths.len() > 0,
    ensures
        match common_path(paths) {
            Some(common) => {
                &&& common.len() > 0
                &&& common == paths[0].take(common.len() as int)
                &&& is_common(paths, common.len() as int)
                &&& forall|count: int|
                    common.len() < count <= paths[0].len() ==> !(#[trigger] is_common(
                        paths,
                        count,
                    ))
            },
            None => forall|count: int|
                0 < count <= paths[0].len() ==> !(#[trigger] is_common(paths, count)),
        },
{
    lemma_shared_count_is_largest(paths, paths[0].len());
    let count = shared_count(paths, paths[0].len());
    if count > 0 {
        assert(paths[0].take(count as int).len() == count);
    }
}

proof fn lemma_shared_count_is_largest(paths: Seq<Seq<ComponentView>>, limit: nat)
    ensures
        shared_count(paths, limit) <= limit,
        shared_count(paths, limit) > 0 ==> is_common(paths, shared_count(paths, limit) as int),
        forall|count: int|
            shared_count(paths, limit) < count <= limit ==> !(#[trigger] is_common(paths, count)),
    decreases limit,
{
    if limit > 0 && !is_common(paths, limit as int) {
        lemma_shared_count_is_largest(paths, (limit - 1) as nat);
    }
}

/// The shared start can be stripped from every path that it was taken of, and
/// what is left is the rest of that path.
pub proof fn law_every_path_lies_under_the_common_path(
    paths: Seq<Seq<ComponentView>>,
    index: int,
)
    requires
        0 <= index < paths.len(),
        common_path(paths) is Some,
    ensures
        behind(paths[index], common_path(paths)->0) == Some(
            paths[index].skip(common_path(paths)->0.len() as int),
        ),
{
    let common = common_path(paths)->0;
    let count = common.len() as int;
    law_the_common_path_is_the_longest_shared_start(paths);
    assert(match_up_to(paths[0], paths[index], count));
    assert forall|i: int| 0 <= i < count implies same_component(
        #[trigger] paths[index][i],
        common[i],
    ) by {
        assert(same_component(paths[0][i], paths[index][i]));
        assert(common[i] == paths[0][i]);
    }
}

/// A normalized path holds no `.` and no `..`.
pub proof fn law_a_normalized_path_has_no_dots(path: Seq<ComponentView>)
    ensures
        forall|i: int|
            0 <= i < normalized(path).len() ==> !((#[trigger] normalized(path)[i]) is CurDir) && !(
            normalized(path)[i] is ParentDir),
    decreases path.len(),
{
    if path.len() > 0 {
        law_a_normalized_path_has_no_dots(path.drop_last());
    }
}

proof fn lemma_normalized_without_dots(path: Seq<ComponentView>)
    requires
        forall|i: int| 0 <= i < path.len() ==> !((#[trigger] path[i]) is CurDir) && !(path[i]
            is ParentDir),
    ensures
        normalized(path) == path,
    decreases path.len(),
{
    if path.len() > 0 {
        lemma_normalized_without_dots(path.drop_last());
        assert(path.last() == path[path.len() - 1]);
        assert(path =~= path.drop_last().push(path.last()));
    }
}

/// Normalizing twice is normalizing once.
pub proof fn law_normalizing_is_idempotent(path: Seq<ComponentView>)
    ensures
        normalized(normalized(path)) == normalized(path),
{
    law_a_normalized_path_has_no_dots(path);
    lemma_normalized_without_dots(normalized(path));
}

/// A name followed by `..`, or a `.`, can be left out of a path.
pub proof fn law_a_detour_can_be_left_out(
    front: Seq<ComponentView>,
    name: Seq<u8>,
    tail: Seq<ComponentView>,
)
    ensures
        normalized(front + seq![ComponentView::Normal(name), ComponentView::ParentDir] + tail)
            == normalized(front + tail),
        normalized(front + seq![ComponentView::CurDir] + tail) == normalized(front + tail),
    decreases tail.len(),
{
    let detour = seq![ComponentView::Normal(name), ComponentView::ParentDir];
    let here = seq![ComponentView::CurDir];
    if tail.len() == 0 {
        assert(front + tail =~= front);
        assert((front + detour + tail).drop_last() =~= front.push(ComponentView::Normal(name)));
        assert(front.push(ComponentView::Normal(name)).drop_last() =~= front);
        assert((front + detour + tail).last() == ComponentView::ParentDir);
        let with_name = normalized(front).push(ComponentView::Normal(name));
        assert(normalized(front.push(ComponentView::Normal(name))) == with_name);
        assert(with_name.drop_last() =~= normalized(front));
        assert((front + here + tail).drop_last() =~= front);
    } else {
        law_a_detour_can_be_left_out(front, name, tail.drop_last());
        assert((front + detour + tail).drop_last() =~= front + detour + tail.drop_last());
        assert((front + here + tail).drop_last() =~= front + here + tail.drop_last());
        assert((front + tail).drop_last() =~= front + tail.drop_last());
    }
}

/// No number of `..` leaves the root: a path that starts there stays there.
pub proof fn law_a_rooted_path_stays_rooted(path: Seq<ComponentView>)
    requires
        path.len() > 0,
        path[0] is RootDir,
    ensures
        normalized(path).len() > 0,
        normalized(path)[0] is RootDir,
    decreases path.len(),
{
    if path.len() == 1 {
        assert(path.drop_last() =~= Seq::<ComponentView>::empty());
    } else {
        law_a_rooted_path_stays_rooted(path.drop_last());
    }
}

/// An output path is normalized.
pub proof fn law_an_output_is_normalized(
    path: Seq<ComponentView>,
    out_dir: Option<Seq<ComponentView>>,
    common: Option<Seq<ComponentView>>,
    suffix: Option<Seq<char>>,
    windows: bool,
)
    ensures
        output_of(path, out_dir, common, suffix, windows) matches Ok(output) ==> normalized(output)
            == output,
{
    let name = with_suffix(path_stem(path), suffix);
    if let Ok(directory) = output_directory(path, out_dir, common) {
        law_normalizing_is_idempotent(directory.push(named(name)));
    }
}

/// Names alone are not touched by normalizing.
pub proof fn lemma_names_stay(path: Seq<ComponentView>, names: Seq<ComponentView>)
    requires
        forall|i: int| 0 <= i < names.len() ==> (#[trigger] names[i]) is Normal,
    ensures
        normalized(path + names) == normalized(path) + names,
    decreases names.len(),
{
    if names.len() == 0 {
        assert(path + names =~= path);
        assert(normalized(path) + names =~= normalized(path));
    } else {
        let before = names.drop_last();
        lemma_names_stay(path, before);
        assert((path + names).drop_last() =~= path + before);
        assert((path + names).last() == names.last());
        assert(names[names.len() - 1] is Normal);
        assert(normalized(path + before).push(names.last()) =~= normalized(path) + names);
    }
}

/// A recursive run keeps the structure below the shared directory: where an
/// input lies in plain directories below it, its output lies in directories of
/// the same names below the output directory.
pub proof fn law_the_structure_of_the_inputs_is_kept(
    path: Seq<ComponentView>,
    out_dir: Seq<ComponentView>,
    common: Seq<ComponentView>,
    suffix: Option<Seq<char>>,
    windows: bool,
)
    requires
        parent_of(path) is Some,
        behind(parent_of(path)->0, common) matches Some(relative) && forall|i: int|
            0 <= i < relative.len() ==> (#[trigger] relative[i]) is Normal,
        named(with_suffix(path_stem(path), suffix)) is Normal,
    ensures
        output_of(path, Some(out_dir), Some(common), suffix, windows) matches Ok(output)
            ==> output == (normalized(out_dir) + behind(parent_of(path)->0, common)->0).push(
            named(with_suffix(path_stem(path), suffix)),
        ),
{
    let relative = behind(parent_of(path)->0, common)->0;
    let name = named(with_suffix(path_stem(path), suffix));
    let names = relative.push(name);
    lemma_names_stay(out_dir, names);
    if relative.len() > 0 {
        assert(relative[0] is Normal);
    }
    assert(joined_path(out_dir, relative).push(name) =~= out_dir + names);
    assert((normalized(out_dir) + relative).push(name) =~= normalized(out_dir) + names);
}

/// Every input of a recursive run keeps its place below the shared directory:
/// none is turned away for lying outside of it.
pub proof fn law_recursive_inputs_lie_under_the_common_root(
    files: Seq<Seq<ComponentView>>,
    index: int,
)
    requires
        0 <= index < files.len(),
        common_root(files, true) is Some,
        parent_of(files[index]) is Some,
    ensures
        behind(parent_of(files[index])->0, common_root(files, true)->0) is Some,
{
    let parents = parents_of(files);
    lemma_parent_is_listed(files, index);
    let place = choose|place: int|
        0 <= place < parents.len() && parents[place] == parent_of(files[index])->0;
    law_every_path_lies_under_the_common_path(parents, place);
}

proof fn lemma_parent_is_listed(files: Seq<Seq<ComponentView>>, index: int)
    requires
        0 <= index < files.len(),
        parent_of(files[index]) is Some,
    ensures
        exists|place: int|
            0 <= place < parents_of(files).len() && #[trigger] parents_of(files)[place]
                == parent_of(files[index])->0,
    decreases files.len(),
{
    let parents = parents_of(files);
    if index == files.len() - 1 {
        assert(parents[parents.len() - 1] == parent_of(files[index])->0);
    } else {
        let before = files.drop_last();
        lemma_parent_is_listed(before, index);
        let place = choose|place: int|
            0 <= place < parents_of(before).len() && #[trigger] parents_of(before)[place]
                == parent_of(before[index])->0;
        assert(parents[place] == parents_of(before)[place]);
    }
}

/// Whether these are the places of the inputs that are files, from the front.
pub open spec fn picks(
    files: Seq<Seq<ComponentView>>,
    statuses: Seq<FileStatus>,
    places: Seq<int>,
) -> bool {
    &&& places.len() == accessible(files, statuses).len()
    &&& forall|j: int|
        0 <= j < places.len() ==> 0 <= #[trigger] places[j] < files.len()
            && statuses[places[j]] is File && accessible(files, statuses)[j] == files[places[j]]
    &&& forall|j: int, k: int|
        0 <= j < k < places.len() ==> #[trigger] places[j] < #[trigger] places[k]
}

/// An input takes part in a run exactly when it is a file, and the inputs that
/// take part keep their order.
pub proof fn law_the_inputs_of_a_run_are_the_files_in_order(
    files: Seq<Seq<ComponentView>>,
    statuses: Seq<FileStatus>,
)
    requires
        files.len() == statuses.len(),
    ensures
        forall|i: int|
            0 <= i < files.len() && statuses[i] is File ==> accessible(files, statuses).contains(
                #[trigger] files[i],
            ),
        exists|places: Seq<int>| #[trigger] picks(files, statuses, places),
    decreases files.len(),
{
    let found = accessible(files, statuses);
    if files.len() == 0 {
        assert(picks(files, statuses, Seq::empty()));
    } else {
        let front = files.drop_last();
        let earlier = statuses.drop_last();
        let before = accessible(front, earlier);
        law_the_inputs_of_a_run_are_the_files_in_order(front, earlier);
        let kept = choose|places: Seq<int>| #[trigger] picks(front, earlier, places);
        let places = if statuses.last() is File {
            kept.push(files.len() - 1)
        } else {
            kept
        };
        assert forall|i: int| 0 <= i < files.len() && statuses[i] is File implies found.contains(
            #[trigger] files[i],
        ) by {
            if i < front.len() {
                assert(front[i] == files[i] && earlier[i] is File);
                assert(before.contains(front[i]));
                let place = choose|place: int| 0 <= place < before.len() && before[place] == front[i];
                assert(found[place] == files[i]);
            } else {
                assert(found[found.len() - 1] == files[i]);
            }
        }
        assert forall|j: int| 0 <= j < places.len() implies 0 <= #[trigger] places[j] < files.len()
            && statuses[places[j]] is File && found[j] == files[places[j]] by {
            if j < kept.len() {
                assert(places[j] == kept[j]);
                assert(earlier[kept[j]] is File);
            }
        }
        assert forall|j: int, k: int| 0 <= j < k < places.len() implies #[trigger] places[j]
            < #[trigger] places[k] by {
            assert(places[j] == kept[j]);
            if k < kept.len() {
                assert(places[k] == kept[k]);
            }
        }
        assert(picks(files, statuses, places));
    }
}

} // verus!
