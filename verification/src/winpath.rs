//! Windows paths, whatever machine reads them: what a path begins with, its components,
//! its parent, how two paths join, and how one lies below another.

use crate::text::{
    chars_of, equal_ignoring_case, same_ignoring_case, same_text, string_of, views,
};
use vstd::prelude::*;

verus! {

/// What a path can begin with.
#[derive(Clone, Copy, PartialEq, Eq, Structural, Debug)]
pub enum PrefixKind {
    /// `\\?\name`
    Verbatim,
    /// `\\?\UNC\server\share`
    VerbatimUnc,
    /// `\\?\C:`
    VerbatimDisk,
    /// `\\.\name`
    Device,
    /// `\\server\share`
    Unc,
    /// `C:`
    Disk,
}

/// The beginning of a path that names a drive, a share or a device. Two prefixes are
/// the same when they agree here; a drive's name is its letter as a capital.
#[verifier::ext_equal]
pub struct PrefixView {
    pub kind: PrefixKind,
    pub name: Seq<char>,
    pub share: Seq<char>,
}

/// One component of a path.
#[verifier::ext_equal]
pub enum PartView {
    Prefix(Seq<char>),
    RootDir,
    CurDir,
    ParentDir,
    Normal(Seq<char>),
}

/// Whether a character separates components of an ordinary path.
pub open spec fn is_separator(c: char) -> bool {
    c == '\\' || c == '/'
}

/// Whether a character separates components. In a verbatim path only `\` does.
pub open spec fn separates(c: char, verbatim: bool) -> bool {
    c == '\\' || (c == '/' && !verbatim)
}

/// Whether a path opens with a pattern, `/` standing for `\` too.
pub open spec fn opens_with(path: Seq<char>, pattern: Seq<char>) -> bool {
    &&& pattern.len() <= path.len()
    &&& forall|i: int|
        0 <= i < pattern.len() ==> (#[trigger] path[i] == pattern[i] || (pattern[i] == '\\'
            && path[i] == '/'))
}

/// The first separator at or after a position, or the path's length.
pub open spec fn component_end(path: Seq<char>, from: int, verbatim: bool) -> int
    decreases path.len() - from,
{
    if from >= path.len() {
        path.len() as int
    } else if from < 0 || separates(path[from], verbatim) {
        from
    } else {
        component_end(path, from + 1, verbatim)
    }
}

/// The component text that begins at a position.
pub open spec fn component_text(path: Seq<char>, from: int, verbatim: bool) -> Seq<char> {
    if 0 <= from <= path.len() {
        path.subrange(from, component_end(path, from, verbatim))
    } else {
        Seq::empty()
    }
}

/// Whether a character can name a drive.
pub open spec fn is_drive_letter(c: char) -> bool {
    'a' <= c <= 'z' || 'A' <= c <= 'Z'
}

/// The capital of a drive letter.
pub open spec fn drive_capital(c: char) -> char {
    if 'a' <= c <= 'z' {
        (c as int - 32) as char
    } else {
        c
    }
}

/// Whether a drive such as `C:` stands at a position.
pub open spec fn drive_at(path: Seq<char>, at: int) -> bool {
    at + 1 < path.len() && is_drive_letter(path[at]) && path[at + 1] == ':'
}

/// The prefix of a path.
pub open spec fn prefix_of(path: Seq<char>) -> Option<PrefixView> {
    if opens_with(path, seq!['\\', '\\']) {
        if path.len() >= 4 && path[0] == '\\' && path[1] == '\\' && path[2] == '?' && path[3]
            == '\\' {
            if opens_with(path, seq!['\\', '\\', '?', '\\', 'U', 'N', 'C', '\\']) {
                let server = component_text(path, 8, true);
                Some(
                    PrefixView {
                        kind: PrefixKind::VerbatimUnc,
                        name: server,
                        share: component_text(path, 8 + server.len() as int + 1, true),
                    },
                )
            } else if drive_at(path, 4) && (path.len() == 6 || is_separator(path[6])) {
                Some(
                    PrefixView {
                        kind: PrefixKind::VerbatimDisk,
                        name: seq![drive_capital(path[4])],
                        share: Seq::empty(),
                    },
                )
            } else {
                Some(
                    PrefixView {
                        kind: PrefixKind::Verbatim,
                        name: component_text(path, 4, true),
                        share: Seq::empty(),
                    },
                )
            }
        } else if opens_with(path, seq!['\\', '\\', '.', '\\']) {
            Some(
                PrefixView {
                    kind: PrefixKind::Device,
                    name: component_text(path, 4, false),
                    share: Seq::empty(),
                },
            )
        } else {
            let server = component_text(path, 2, false);
            let share = component_text(path, 2 + server.len() as int + 1, false);
            if server.len() > 0 && share.len() > 0 {
                Some(PrefixView { kind: PrefixKind::Unc, name: server, share })
            } else {
                None
            }
        }
    } else if drive_at(path, 0) {
        Some(
            PrefixView {
                kind: PrefixKind::Disk,
                name: seq![drive_capital(path[0])],
                share: Seq::empty(),
            },
        )
    } else {
        None
    }
}

/// How much of a path its prefix takes.
pub open spec fn prefix_len(path: Seq<char>) -> int {
    match prefix_of(path) {
        None => 0,
        Some(prefix) => {
            let tail: int = if prefix.share.len() > 0 {
                1 + prefix.share.len() as int
            } else {
                0
            };
            match prefix.kind {
                PrefixKind::Verbatim => 4 + prefix.name.len() as int,
                PrefixKind::VerbatimUnc => 8 + prefix.name.len() + tail,
                PrefixKind::VerbatimDisk => 6,
                PrefixKind::Device => 4 + prefix.name.len() as int,
                PrefixKind::Unc => 2 + prefix.name.len() + tail,
                PrefixKind::Disk => 2,
            }
        },
    }
}

/// Whether a path is taken as it is written.
pub open spec fn is_verbatim(path: Seq<char>) -> bool {
    match prefix_of(path) {
        None => false,
        Some(prefix) => prefix.kind == PrefixKind::Verbatim || prefix.kind
            == PrefixKind::VerbatimUnc || prefix.kind == PrefixKind::VerbatimDisk,
    }
}

/// Whether the prefix of a path is a drive such as `C:`.
pub open spec fn is_drive_path(path: Seq<char>) -> bool {
    prefix_of(path) matches Some(prefix) && prefix.kind == PrefixKind::Disk
}

/// Whether a separator follows the prefix.
pub open spec fn has_written_root(path: Seq<char>) -> bool {
    let start = prefix_len(path);
    0 <= start < path.len() && is_separator(path[start])
}

/// Whether a path starts from a root, written or meant by its prefix.
pub open spec fn has_root(path: Seq<char>) -> bool {
    has_written_root(path) || (prefix_of(path) is Some && !is_drive_path(path))
}

/// Whether a path says both which drive or share it is on and where it starts there.
pub open spec fn is_absolute(path: Seq<char>) -> bool {
    has_root(path) && prefix_of(path) is Some
}

/// Whether a path without root opens with the component `.`, at most a drive before it.
pub open spec fn opens_with_dot(path: Seq<char>) -> bool {
    let start = prefix_len(path);
    &&& !has_root(path)
    &&& 0 <= start < path.len()
    &&& path[start] == '.'
    &&& path.len() == start + 1 || is_separator(path[start + 1])
}

/// Where the components after prefix, root and a leading `.` begin.
pub open spec fn body_start(path: Seq<char>) -> int {
    if has_written_root(path) || opens_with_dot(path) {
        prefix_len(path) + 1
    } else {
        prefix_len(path)
    }
}

/// The component that a text between separators is. An empty one is none, nor is `.`
/// outside a verbatim path.
pub open spec fn single_part(text: Seq<char>, verbatim: bool) -> Option<PartView> {
    if text == seq!['.'] {
        if verbatim {
            Some(PartView::CurDir)
        } else {
            None
        }
    } else if text == seq!['.', '.'] {
        Some(PartView::ParentDir)
    } else if text.len() == 0 {
        None
    } else {
        Some(PartView::Normal(text))
    }
}

/// The components from a position on.
pub open spec fn body_parts(path: Seq<char>, from: int, verbatim: bool) -> Seq<PartView>
    decreases path.len() + 1 - from,
{
    if from < 0 || from >= path.len() {
        Seq::empty()
    } else {
        let end = component_end(path, from, verbatim);
        if end < from || end > path.len() {
            Seq::empty()
        } else {
            let rest = body_parts(path, end + 1, verbatim);
            match single_part(path.subrange(from, end), verbatim) {
                Some(part) => seq![part] + rest,
                None => rest,
            }
        }
    }
}

/// The components after the prefix.
pub open spec fn rooted_parts(path: Seq<char>) -> Seq<PartView> {
    let head: Seq<PartView> = if has_written_root(path) {
        seq![PartView::RootDir]
    } else if prefix_of(path) is Some {
        if !is_drive_path(path) && !is_verbatim(path) {
            seq![PartView::RootDir]
        } else {
            Seq::empty()
        }
    } else if opens_with_dot(path) {
        seq![PartView::CurDir]
    } else {
        Seq::empty()
    };
    head + body_parts(path, body_start(path), is_verbatim(path))
}

/// The components of a path.
pub open spec fn components(path: Seq<char>) -> Seq<PartView> {
    if prefix_of(path) is Some && prefix_len(path) <= path.len() {
        seq![PartView::Prefix(path.take(prefix_len(path)))] + rooted_parts(path)
    } else {
        rooted_parts(path)
    }
}

/// Whether two paths are equal: the same prefix and then the same components.
pub open spec fn same_path(a: Seq<char>, b: Seq<char>) -> bool {
    prefix_of(a) == prefix_of(b) && rooted_parts(a) == rooted_parts(b)
}

/// Where the last component of `path[start..len]` begins.
pub open spec fn last_component_start(path: Seq<char>, start: int, len: int, verbatim: bool) -> int
    decreases len - start,
{
    if len <= start {
        start
    } else if separates(path[len - 1], verbatim) {
        len
    } else {
        last_component_start(path, start, len - 1, verbatim)
    }
}

/// Where `path[start..len]` ends without the component that begins at `last` and the
/// separator before it.
pub open spec fn cut_before(start: int, last: int) -> int {
    if last > start {
        last - 1
    } else {
        start
    }
}

/// Where `path[start..len]` ends without separators and ignored components at its end.
pub open spec fn trimmed_len(path: Seq<char>, start: int, len: int, verbatim: bool) -> int
    decreases len - start,
    via trimmed_len_decreases
{
    if len <= start {
        len
    } else {
        let last = last_component_start(path, start, len, verbatim);
        if single_part(path.subrange(last, len), verbatim) is Some {
            len
        } else {
            trimmed_len(path, start, cut_before(start, last), verbatim)
        }
    }
}

#[via_fn]
proof fn trimmed_len_decreases(path: Seq<char>, start: int, len: int, verbatim: bool) {
    lemma_last_component_start(path, start, len, verbatim);
}

/// The directory that a path lies in: the path without its last component. A root and a
/// bare prefix lie in none.
pub open spec fn parent(path: Seq<char>) -> Option<Seq<char>> {
    let verbatim = is_verbatim(path);
    let start = body_start(path);
    let end = trimmed_len(path, start, path.len() as int, verbatim);
    if end > start {
        let last = last_component_start(path, start, end, verbatim);
        Some(path.take(trimmed_len(path, start, cut_before(start, last), verbatim)))
    } else if opens_with_dot(path) && prefix_of(path) is None {
        Some(Seq::empty())
    } else {
        None
    }
}

/// The components of a verbatim path after those of another path are added. `..` takes
/// away the component before it, since a verbatim path cannot hold it.
pub open spec fn add_parts(parts: Seq<PartView>, added: Seq<PartView>) -> Seq<PartView>
    decreases added.len(),
{
    if added.len() == 0 {
        parts
    } else {
        let next = match added.first() {
            PartView::RootDir => if parts.len() > 0 {
                seq![parts[0], PartView::RootDir]
            } else {
                seq![PartView::RootDir]
            },
            PartView::CurDir => parts,
            PartView::ParentDir => if parts.len() > 0 && parts.last() is Normal {
                parts.drop_last()
            } else {
                parts
            },
            other => parts.push(other),
        };
        add_parts(next, added.drop_first())
    }
}

/// How a component is written.
pub open spec fn part_text(part: PartView) -> Seq<char> {
    match part {
        PartView::Prefix(text) => text,
        PartView::RootDir => seq!['\\'],
        PartView::CurDir => seq!['.'],
        PartView::ParentDir => seq!['.', '.'],
        PartView::Normal(text) => text,
    }
}

/// How components are written, `\` between them but not around a root.
pub open spec fn written_parts(parts: Seq<PartView>) -> Seq<char>
    decreases parts.len(),
{
    if parts.len() == 0 {
        Seq::empty()
    } else {
        let before = written_parts(parts.drop_last());
        let separated = parts.len() > 1 && !(parts.last() is RootDir) && !(parts[parts.len() - 2]
            is RootDir);
        if separated {
            before.push('\\') + part_text(parts.last())
        } else {
            before + part_text(parts.last())
        }
    }
}

/// A path as seen from a base. A path with a prefix stands for itself, one with a root
/// keeps the prefix of the base, and any other goes below the base.
pub open spec fn join_path(base: Seq<char>, path: Seq<char>) -> Seq<char> {
    if prefix_of(path) is Some {
        path
    } else if is_verbatim(base) && path.len() > 0 {
        written_parts(add_parts(components(base), components(path)))
    } else if has_root(path) {
        base.take(prefix_len(base)) + path
    } else if base.len() == 0 || is_separator(base.last()) || (is_drive_path(base) && prefix_len(
        base,
    ) == base.len()) {
        base + path
    } else {
        base.push('\\') + path
    }
}

/// What stands for a component when two paths are compared. `.` stands for nothing.
pub open spec fn comparable_text(part: PartView) -> Option<Seq<char>> {
    match part {
        PartView::CurDir => None,
        other => Some(part_text(other)),
    }
}

/// What is compared of components.
pub open spec fn comparable_texts(parts: Seq<PartView>) -> Seq<Seq<char>>
    decreases parts.len(),
{
    if parts.len() == 0 {
        Seq::empty()
    } else {
        match comparable_text(parts.last()) {
            Some(text) => comparable_texts(parts.drop_last()).push(text),
            None => comparable_texts(parts.drop_last()),
        }
    }
}

/// The name that a component adds below a directory.
pub open spec fn component_name(part: PartView) -> Option<Seq<char>> {
    match part {
        PartView::Normal(text) => Some(text),
        PartView::ParentDir => Some(seq!['.', '.']),
        _ => None,
    }
}

/// The names among components.
pub open spec fn component_names(parts: Seq<PartView>) -> Seq<Seq<char>>
    decreases parts.len(),
{
    if parts.len() == 0 {
        Seq::empty()
    } else {
        match component_name(parts.last()) {
            Some(name) => component_names(parts.drop_last()).push(name),
            None => component_names(parts.drop_last()),
        }
    }
}

/// Whether a path lies at or below a root, ASCII case aside.
pub open spec fn lies_below(candidate: Seq<char>, root: Seq<char>) -> bool {
    let mine = comparable_texts(components(candidate));
    let theirs = comparable_texts(components(root));
    &&& theirs.len() <= mine.len()
    &&& forall|i: int|
        0 <= i < theirs.len() ==> same_ignoring_case(#[trigger] mine[i], theirs[i])
}

/// The names that lead from a root to a path below it.
pub open spec fn relative_names(candidate: Seq<char>, root: Seq<char>) -> Option<Seq<Seq<char>>> {
    if lies_below(candidate, root) {
        let mine = components(candidate);
        let skipped = components(root).len();
        if skipped <= mine.len() {
            Some(component_names(mine.skip(skipped as int)))
        } else {
            Some(Seq::empty())
        }
    } else {
        None
    }
}

/// One component of a path.
#[derive(Clone, PartialEq, Eq, Debug)]
pub enum PathPart {
    Prefix(String),
    RootDir,
    CurDir,
    ParentDir,
    Normal(String),
}

impl View for PathPart {
    type V = PartView;

    open spec fn view(&self) -> PartView {
        match self {
            PathPart::Prefix(text) => PartView::Prefix(text@),
            PathPart::RootDir => PartView::RootDir,
            PathPart::CurDir => PartView::CurDir,
            PathPart::ParentDir => PartView::ParentDir,
            PathPart::Normal(text) => PartView::Normal(text@),
        }
    }
}

/// The components of a list as they are compared.
pub open spec fn part_views(parts: Seq<PathPart>) -> Seq<PartView> {
    Seq::new(parts.len(), |i: int| parts[i]@)
}

/// What a path begins with, and how much of it that takes.
#[derive(Clone, PartialEq, Eq, Debug)]
pub struct PathPrefix {
    pub kind: PrefixKind,
    pub name: String,
    pub share: String,
    pub len: usize,
}

impl View for PathPrefix {
    type V = PrefixView;

    open spec fn view(&self) -> PrefixView {
        PrefixView { kind: self.kind, name: self.name@, share: self.share@ }
    }
}

/// The first separator at or after a position.
fn find_component_end(path: &Vec<char>, from: usize, verbatim: bool) -> (end: usize)
    requires
        from <= path.len(),
    ensures
        from <= end <= path.len(),
        end == component_end(path@, from as int, verbatim),
{
    let mut end: usize = from;
    while end < path.len() && !(path[end] == '\\' || (path[end] == '/' && !verbatim))
        invariant
            from <= end <= path.len(),
            component_end(path@, end as int, verbatim) == component_end(
                path@,
                from as int,
                verbatim,
            ),
        decreases path.len() - end,
    {
        end += 1;
    }
    end
}

/// Whether a path opens with a pattern, `/` standing for `\` too.
fn path_opens_with(path: &Vec<char>, pattern: &Vec<char>) -> (yes: bool)
    ensures
        yes == opens_with(path@, pattern@),
{
    if path.len() < pattern.len() {
        return false;
    }
    let mut i: usize = 0;
    while i < pattern.len()
        invariant
            i <= pattern.len() <= path.len(),
            forall|j: int|
                0 <= j < i ==> (#[trigger] path@[j] == pattern@[j] || (pattern@[j] == '\\'
                    && path@[j] == '/')),
        decreases pattern.len() - i,
    {
        if path[i] != pattern[i] && !(pattern[i] == '\\' && path[i] == '/') {
            return false;
        }
        i += 1;
    }
    true
}

/// Whether a drive stands at a position.
fn has_drive_at(path: &Vec<char>, at: usize) -> (yes: bool)
    requires
        at <= 4,
    ensures
        yes == drive_at(path@, at as int),
{
    path.len() > at + 1 && (('a' <= path[at] && path[at] <= 'z') || ('A' <= path[at] && path[at]
        <= 'Z')) && path[at + 1] == ':'
}

/// The capital of a drive letter, as a string.
fn drive_name(c: char) -> (name: String)
    requires
        is_drive_letter(c),
    ensures
        name@ == seq![drive_capital(c)],
{
    let mut name = String::new();
    if 'a' <= c && c <= 'z' {
        let code: u8 = c as u8;
        name.push((code - 32) as char);
    } else {
        name.push(c);
    }
    assert(name@ =~= seq![drive_capital(c)]);
    name
}

/// The prefix of a path.
fn read_prefix(path: &Vec<char>) -> (found: Option<PathPrefix>)
    ensures
        match found {
            Some(prefix) => prefix_of(path@) == Some(prefix@) && prefix.len == prefix_len(path@)
                && prefix.len <= path.len(),
            None => prefix_of(path@) is None,
        },
{
    let slashes = vec!['\\', '\\'];
    assert(slashes@ =~= seq!['\\', '\\']);
    if path_opens_with(path, &slashes) {
        if path.len() >= 4 && path[0] == '\\' && path[1] == '\\' && path[2] == '?' && path[3]
            == '\\' {
            let unc = vec!['\\', '\\', '?', '\\', 'U', 'N', 'C', '\\'];
            assert(unc@ =~= seq!['\\', '\\', '?', '\\', 'U', 'N', 'C', '\\']);
            if path_opens_with(path, &unc) {
                let server_end = find_component_end(path, 8, true);
                let name = string_of(path, 8, server_end);
                if server_end < path.len() {
                    let share_end = find_component_end(path, server_end + 1, true);
                    let share = string_of(path, server_end + 1, share_end);
                    let len: usize = if share_end > server_end + 1 {
                        share_end
                    } else {
                        server_end
                    };
                    Some(PathPrefix { kind: PrefixKind::VerbatimUnc, name, share, len })
                } else {
                    Some(
                        PathPrefix {
                            kind: PrefixKind::VerbatimUnc,
                            name,
                            share: String::new(),
                            len: server_end,
                        },
                    )
                }
            } else if has_drive_at(path, 4) && (path.len() == 6 || path[6] == '\\' || path[6]
                == '/') {
                Some(
                    PathPrefix {
                        kind: PrefixKind::VerbatimDisk,
                        name: drive_name(path[4]),
                        share: String::new(),
                        len: 6,
                    },
                )
            } else {
                let end = find_component_end(path, 4, true);
                Some(
                    PathPrefix {
                        kind: PrefixKind::Verbatim,
                        name: string_of(path, 4, end),
                        share: String::new(),
                        len: end,
                    },
                )
            }
        } else {
            let device = vec!['\\', '\\', '.', '\\'];
            assert(device@ =~= seq!['\\', '\\', '.', '\\']);
            if path_opens_with(path, &device) {
                let end = find_component_end(path, 4, false);
                Some(
                    PathPrefix {
                        kind: PrefixKind::Device,
                        name: string_of(path, 4, end),
                        share: String::new(),
                        len: end,
                    },
                )
            } else {
                let server_end = find_component_end(path, 2, false);
                if server_end == 2 || server_end == path.len() {
                    return None;
                }
                let share_end = find_component_end(path, server_end + 1, false);
                if share_end == server_end + 1 {
                    return None;
                }
                Some(
                    PathPrefix {
                        kind: PrefixKind::Unc,
                        name: string_of(path, 2, server_end),
                        share: string_of(path, server_end + 1, share_end),
                        len: share_end,
                    },
                )
            }
        }
    } else if has_drive_at(path, 0) {
        Some(
            PathPrefix {
                kind: PrefixKind::Disk,
                name: drive_name(path[0]),
                share: String::new(),
                len: 2,
            },
        )
    } else {
        None
    }
}

/// What the other functions need of a path, read once.
struct Outline {
    prefix: Option<PathPrefix>,
    prefix_len: usize,
    verbatim: bool,
    drive: bool,
    written_root: bool,
    dot: bool,
    body: usize,
}

impl Outline {
    spec fn describes(&self, path: Seq<char>) -> bool {
        &&& match self.prefix {
            Some(prefix) => prefix_of(path) == Some(prefix@),
            None => prefix_of(path) is None,
        }
        &&& self.prefix_len == prefix_len(path)
        &&& self.prefix_len <= path.len()
        &&& self.verbatim == is_verbatim(path)
        &&& self.drive == is_drive_path(path)
        &&& self.written_root == has_written_root(path)
        &&& self.dot == opens_with_dot(path)
        &&& self.body == body_start(path)
        &&& self.body <= path.len()
    }
}

/// Reads prefix, root and leading `.` of a path.
fn outline(path: &Vec<char>) -> (found: Outline)
    ensures
        found.describes(path@),
{
    let prefix = read_prefix(path);
    let mut prefix_len: usize = 0;
    let mut verbatim = false;
    let mut drive = false;
    let has_prefix = match &prefix {
        Some(p) => {
            prefix_len = p.len;
            match p.kind {
                PrefixKind::Verbatim => {
                    verbatim = true;
                },
                PrefixKind::VerbatimUnc => {
                    verbatim = true;
                },
                PrefixKind::VerbatimDisk => {
                    verbatim = true;
                },
                PrefixKind::Disk => {
                    drive = true;
                },
                _ => {},
            }
            true
        },
        None => false,
    };
    let written_root = prefix_len < path.len() && (path[prefix_len] == '\\' || path[prefix_len]
        == '/');
    let dot = (!has_prefix || drive) && !written_root && prefix_len < path.len()
        && path[prefix_len] == '.' && (path.len() - prefix_len == 1 || path[prefix_len + 1] == '\\'
        || path[prefix_len + 1] == '/');
    let body: usize = if written_root || dot {
        prefix_len + 1
    } else {
        prefix_len
    };
    Outline { prefix, prefix_len, verbatim, drive, written_root, dot, body }
}

/// The component that a stretch between separators is.
fn read_part(path: &Vec<char>, from: usize, to: usize, verbatim: bool) -> (part: Option<PathPart>)
    requires
        from <= to <= path.len(),
    ensures
        match part {
            Some(p) => single_part(path@.subrange(from as int, to as int), verbatim) == Some(p@),
            None => single_part(path@.subrange(from as int, to as int), verbatim) is None,
        },
{
    let ghost text = path@.subrange(from as int, to as int);
    assert(text == seq!['.'] <==> text.len() == 1 && text[0] == '.') by {
        if text.len() == 1 && text[0] == '.' {
            assert(text =~= seq!['.']);
        }
    }
    assert(text == seq!['.', '.'] <==> text.len() == 2 && text[0] == '.' && text[1] == '.') by {
        if text.len() == 2 && text[0] == '.' && text[1] == '.' {
            assert(text =~= seq!['.', '.']);
        }
    }
    if to - from == 1 && path[from] == '.' {
        if verbatim {
            Some(PathPart::CurDir)
        } else {
            None
        }
    } else if to - from == 2 && path[from] == '.' && path[from + 1] == '.' {
        Some(PathPart::ParentDir)
    } else if from == to {
        None
    } else {
        Some(PathPart::Normal(string_of(path, from, to)))
    }
}

/// Appends the components after the prefix.
fn push_rooted_parts(path: &Vec<char>, seen: &Outline, parts: &mut Vec<PathPart>)
    requires
        seen.describes(path@),
    ensures
        part_views(final(parts)@) == part_views(old(parts)@) + rooted_parts(path@),
{
    let ghost before = part_views(parts@);
    if seen.written_root {
        parts.push(PathPart::RootDir);
    } else if seen.prefix.is_some() {
        if !seen.drive && !seen.verbatim {
            parts.push(PathPart::RootDir);
        }
    } else if seen.dot {
        parts.push(PathPart::CurDir);
    }
    let ghost all = body_parts(path@, seen.body as int, seen.verbatim);
    assert(part_views(parts@) + all =~= before + rooted_parts(path@));
    let mut from: usize = seen.body;
    while from < path.len()
        invariant
            seen.body <= from <= path.len(),
            part_views(parts@) + body_parts(path@, from as int, seen.verbatim) == before
                + rooted_parts(path@),
        decreases path.len() - from,
    {
        let end = find_component_end(path, from, seen.verbatim);
        let ghost sofar = part_views(parts@);
        let ghost rest = body_parts(path@, end + 1, seen.verbatim);
        match read_part(path, from, end, seen.verbatim) {
            Some(part) => {
                let ghost view = part@;
                parts.push(part);
                assert(part_views(parts@) =~= sofar.push(view));
                assert(sofar + (seq![view] + rest) =~= sofar.push(view) + rest);
            },
            None => {},
        }
        if end == path.len() {
            assert(rest =~= Seq::empty());
            assert(body_parts(path@, end as int, seen.verbatim) =~= Seq::empty());
            from = end;
        } else {
            from = end + 1;
        }
    }
    assert(part_views(parts@) + body_parts(path@, from as int, seen.verbatim) =~= part_views(
        parts@,
    ));
}

/// The components of a path.
pub fn path_components(path: &str) -> (parts: Vec<PathPart>)
    ensures
        part_views(parts@) == components(path@),
{
    let chars = chars_of(path);
    let seen = outline(&chars);
    let mut parts: Vec<PathPart> = Vec::new();
    if seen.prefix.is_some() {
        parts.push(PathPart::Prefix(string_of(&chars, 0, seen.prefix_len)));
    }
    push_rooted_parts(&chars, &seen, &mut parts);
    assert(part_views(parts@) =~= components(path@));
    parts
}

/// Whether a path says both which drive or share it is on and where it starts there.
pub fn path_is_absolute(path: &str) -> (yes: bool)
    ensures
        yes == is_absolute(path@),
{
    let seen = outline(&chars_of(path));
    seen.prefix.is_some() && (seen.written_root || !seen.drive)
}

/// Whether two components are equal.
fn same_part(a: &PathPart, b: &PathPart) -> (same: bool)
    ensures
        same == (a@ == b@),
{
    match (a, b) {
        (PathPart::Prefix(x), PathPart::Prefix(y)) => same_text(x.as_str(), y.as_str()),
        (PathPart::RootDir, PathPart::RootDir) => true,
        (PathPart::CurDir, PathPart::CurDir) => true,
        (PathPart::ParentDir, PathPart::ParentDir) => true,
        (PathPart::Normal(x), PathPart::Normal(y)) => same_text(x.as_str(), y.as_str()),
        _ => false,
    }
}

/// Whether two prefixes are equal.
fn same_prefix(a: &Option<PathPrefix>, b: &Option<PathPrefix>) -> (same: bool)
    ensures
        same == match (a, b) {
            (Some(x), Some(y)) => x@ == y@,
            (None, None) => true,
            _ => false,
        },
{
    match (a, b) {
        (Some(x), Some(y)) => x.kind == y.kind && same_text(x.name.as_str(), y.name.as_str())
            && same_text(x.share.as_str(), y.share.as_str()),
        (None, None) => true,
        _ => false,
    }
}

/// Whether two paths are equal.
pub fn paths_equal(a: &str, b: &str) -> (same: bool)
    ensures
        same == same_path(a@, b@),
{
    let left = chars_of(a);
    let right = chars_of(b);
    let left_seen = outline(&left);
    let right_seen = outline(&right);
    if !same_prefix(&left_seen.prefix, &right_seen.prefix) {
        return false;
    }
    let mut left_parts: Vec<PathPart> = Vec::new();
    let mut right_parts: Vec<PathPart> = Vec::new();
    push_rooted_parts(&left, &left_seen, &mut left_parts);
    push_rooted_parts(&right, &right_seen, &mut right_parts);
    let ghost l = rooted_parts(a@);
    let ghost r = rooted_parts(b@);
    assert(part_views(left_parts@) =~= l);
    assert(part_views(right_parts@) =~= r);
    if left_parts.len() != right_parts.len() {
        assert(l.len() != r.len());
        return false;
    }
    let mut i: usize = 0;
    while i < left_parts.len()
        invariant
            prefix_of(a@) == prefix_of(b@),
            l == rooted_parts(a@),
            r == rooted_parts(b@),
            part_views(left_parts@) == l,
            part_views(right_parts@) == r,
            left_parts.len() == right_parts.len(),
            i <= left_parts.len(),
            forall|j: int| 0 <= j < i ==> l[j] == r[j],
        decreases left_parts.len() - i,
    {
        assert(l[i as int] == left_parts@[i as int]@);
        assert(r[i as int] == right_parts@[i as int]@);
        if !same_part(&left_parts[i], &right_parts[i]) {
            return false;
        }
        i += 1;
    }
    assert(l =~= r);
    true
}

proof fn lemma_last_component_start(path: Seq<char>, start: int, len: int, verbatim: bool)
    ensures
        start <= len ==> start <= last_component_start(path, start, len, verbatim) <= len,
    decreases len - start,
{
    if start < len && !separates(path[len - 1], verbatim) {
        lemma_last_component_start(path, start, len - 1, verbatim);
    }
}

proof fn lemma_trimmed_len(path: Seq<char>, start: int, len: int, verbatim: bool)
    requires
        start <= len,
    ensures
        start <= trimmed_len(path, start, len, verbatim) <= len,
    decreases len - start,
{
    if start < len {
        lemma_last_component_start(path, start, len, verbatim);
        let last = last_component_start(path, start, len, verbatim);
        lemma_trimmed_len(path, start, cut_before(start, last), verbatim);
    }
}

/// The directory that a path lies in is shorter than the path.
pub proof fn lemma_parent_is_shorter(path: Seq<char>)
    ensures
        parent(path) matches Some(up) ==> up.len() < path.len(),
{
    let verbatim = is_verbatim(path);
    let start = body_start(path);
    let len = path.len() as int;
    let end = trimmed_len(path, start, len, verbatim);
    if start <= len {
        lemma_trimmed_len(path, start, len, verbatim);
        lemma_last_component_start(path, start, end, verbatim);
        let last = last_component_start(path, start, end, verbatim);
        if end > start {
            lemma_trimmed_len(path, start, cut_before(start, last), verbatim);
        }
    }
}

/// Where the last component of a stretch begins.
fn find_last_component(path: &Vec<char>, start: usize, len: usize, verbatim: bool) -> (last: usize)
    requires
        start < len <= path.len(),
    ensures
        start <= last <= len,
        last == last_component_start(path@, start as int, len as int, verbatim),
{
    let mut at: usize = len;
    while start < at && !(path[at - 1] == '\\' || (path[at - 1] == '/' && !verbatim))
        invariant
            start <= at <= len <= path.len(),
            last_component_start(path@, start as int, at as int, verbatim) == last_component_start(
                path@,
                start as int,
                len as int,
                verbatim,
            ),
        decreases at - start,
    {
        at -= 1;
    }
    at
}

/// Where a stretch ends without separators and ignored components at its end.
fn find_trimmed_len(path: &Vec<char>, start: usize, len: usize, verbatim: bool) -> (end: usize)
    requires
        start <= len <= path.len(),
    ensures
        start <= end <= len,
        end == trimmed_len(path@, start as int, len as int, verbatim),
{
    let mut end: usize = len;
    while start < end
        invariant
            start <= end <= len <= path.len(),
            trimmed_len(path@, start as int, end as int, verbatim) == trimmed_len(
                path@,
                start as int,
                len as int,
                verbatim,
            ),
        decreases end - start,
    {
        let last = find_last_component(path, start, end, verbatim);
        if read_part(path, last, end, verbatim).is_some() {
            return end;
        }
        end = if last > start {
            last - 1
        } else {
            start
        };
    }
    end
}

/// The directory that a path lies in.
pub fn path_parent(path: &str) -> (found: Option<String>)
    ensures
        match found {
            Some(up) => parent(path@) == Some(up@) && up@.len() < path@.len(),
            None => parent(path@) is None,
        },
{
    let chars = chars_of(path);
    let seen = outline(&chars);
    let end = find_trimmed_len(&chars, seen.body, chars.len(), seen.verbatim);
    if end > seen.body {
        let last = find_last_component(&chars, seen.body, end, seen.verbatim);
        let cut: usize = if last > seen.body {
            last - 1
        } else {
            seen.body
        };
        let up = find_trimmed_len(&chars, seen.body, cut, seen.verbatim);
        let text = string_of(&chars, 0, up);
        assert(text@ =~= path@.take(up as int));
        Some(text)
    } else if seen.dot && seen.prefix.is_none() {
        Some(String::new())
    } else {
        None
    }
}

/// A component with the same view.
fn copy_part(part: &PathPart) -> (copy: PathPart)
    ensures
        copy@ == part@,
{
    match part {
        PathPart::Prefix(text) => PathPart::Prefix(text.clone()),
        PathPart::RootDir => PathPart::RootDir,
        PathPart::CurDir => PathPart::CurDir,
        PathPart::ParentDir => PathPart::ParentDir,
        PathPart::Normal(text) => PathPart::Normal(text.clone()),
    }
}

/// Adds components to those of a verbatim path.
fn push_added_parts(parts: &mut Vec<PathPart>, added: &Vec<PathPart>)
    ensures
        part_views(final(parts)@) == add_parts(part_views(old(parts)@), part_views(added@)),
{
    let ghost goal = add_parts(part_views(parts@), part_views(added@));
    let mut i: usize = 0;
    assert(part_views(added@).skip(0) =~= part_views(added@));
    while i < added.len()
        invariant
            i <= added.len(),
            add_parts(part_views(parts@), part_views(added@).skip(i as int)) == goal,
        decreases added.len() - i,
    {
        let ghost left = part_views(added@).skip(i as int);
        let ghost before = part_views(parts@);
        assert(left.first() == added@[i as int]@);
        assert(left.drop_first() =~= part_views(added@).skip(i + 1));
        match &added[i] {
            PathPart::RootDir => {
                parts.truncate(1);
                parts.push(PathPart::RootDir);
                assert(before.len() > 0 ==> part_views(parts@) =~= seq![
                    before[0],
                    PartView::RootDir,
                ]);
                assert(before.len() == 0 ==> part_views(parts@) =~= seq![PartView::RootDir]);
            },
            PathPart::CurDir => {},
            PathPart::ParentDir => {
                if parts.len() > 0 {
                    let drop = match &parts[parts.len() - 1] {
                        PathPart::Normal(_) => true,
                        _ => false,
                    };
                    assert(before.last() == parts@.last()@);
                    if drop {
                        let len = parts.len();
                        parts.truncate(len - 1);
                        assert(part_views(parts@) =~= before.drop_last());
                    }
                }
            },
            _ => {
                let copy = copy_part(&added[i]);
                let ghost view = copy@;
                parts.push(copy);
                assert(part_views(parts@) =~= before.push(view));
            },
        }
        i += 1;
    }
    assert(part_views(added@).skip(i as int) =~= Seq::empty());
}

/// Appends how a component is written.
fn push_part_text(text: &mut String, part: &PathPart)
    ensures
        final(text)@ == old(text)@ + part_text(part@),
{
    match part {
        PathPart::Prefix(name) => text.append(name.as_str()),
        PathPart::RootDir => text.push('\\'),
        PathPart::CurDir => text.push('.'),
        PathPart::ParentDir => {
            text.push('.');
            text.push('.');
        },
        PathPart::Normal(name) => text.append(name.as_str()),
    }
    assert(text@ =~= old(text)@ + part_text(part@));
}

/// How components are written.
fn write_parts(parts: &Vec<PathPart>) -> (text: String)
    ensures
        text@ == written_parts(part_views(parts@)),
{
    let ghost all = part_views(parts@);
    let mut text = String::new();
    let mut i: usize = 0;
    while i < parts.len()
        invariant
            i <= parts.len(),
            all == part_views(parts@),
            text@ == written_parts(all.take(i as int)),
        decreases parts.len() - i,
    {
        let ghost now = all.take(i + 1);
        assert(now.drop_last() =~= all.take(i as int));
        assert(now.last() == parts@[i as int]@);
        let root_here = match &parts[i] {
            PathPart::RootDir => true,
            _ => false,
        };
        if i > 0 {
            assert(now[i - 1] == parts@[i - 1]@);
            let root_before = match &parts[i - 1] {
                PathPart::RootDir => true,
                _ => false,
            };
            if !root_here && !root_before {
                text.push('\\');
            }
        }
        push_part_text(&mut text, &parts[i]);
        i += 1;
    }
    assert(all.take(i as int) =~= all);
    text
}

/// A path as seen from a base.
pub fn path_join(base: &str, path: &str) -> (joined: String)
    ensures
        joined@ == join_path(base@, path@),
{
    let base_chars = chars_of(base);
    let seen = outline(&base_chars);
    let added = outline(&chars_of(path));
    if added.prefix.is_some() {
        return path.to_string();
    }
    if seen.verbatim && !path.is_empty() {
        let mut parts = path_components(base);
        push_added_parts(&mut parts, &path_components(path));
        return write_parts(&parts);
    }
    if added.written_root {
        let mut text = string_of(&base_chars, 0, seen.prefix_len);
        assert(text@ =~= base@.take(seen.prefix_len as int));
        text.append(path);
        return text;
    }
    let mut text = base.to_string();
    let len = base_chars.len();
    if !(len == 0 || base_chars[len - 1] == '\\' || base_chars[len - 1] == '/' || (seen.drive
        && seen.prefix_len == len)) {
        text.push('\\');
    }
    text.append(path);
    text
}

/// What stands for each component of a path when paths are compared.
pub fn comparable_components(path: &str) -> (found: Vec<String>)
    ensures
        views(found@) == comparable_texts(components(path@)),
{
    let parts = path_components(path);
    let ghost all = components(path@);
    let mut found: Vec<String> = Vec::new();
    let mut i: usize = 0;
    assert(views(found@) =~= comparable_texts(all.take(0)));
    while i < parts.len()
        invariant
            i <= parts.len(),
            all == part_views(parts@),
            views(found@) == comparable_texts(all.take(i as int)),
        decreases parts.len() - i,
    {
        let ghost before = views(found@);
        assert(all.take(i + 1).drop_last() =~= all.take(i as int));
        assert(all.take(i + 1).last() == parts@[i as int]@);
        match &parts[i] {
            PathPart::CurDir => {},
            _ => {
                let mut text = String::new();
                push_part_text(&mut text, &parts[i]);
                assert(text@ =~= part_text(parts@[i as int]@));
                let ghost view = text@;
                found.push(text);
                assert(views(found@) =~= before.push(view));
            },
        }
        i += 1;
    }
    assert(all.take(i as int) =~= all);
    found
}

/// The name that a component adds below a directory.
pub fn component_to_name(part: &PathPart) -> (name: Option<String>)
    ensures
        match name {
            Some(text) => component_name(part@) == Some(text@),
            None => component_name(part@) is None,
        },
{
    match part {
        PathPart::Normal(text) => Some(text.clone()),
        PathPart::ParentDir => {
            let mut text = String::new();
            text.push('.');
            text.push('.');
            assert(text@ =~= seq!['.', '.']);
            Some(text)
        },
        _ => None,
    }
}

/// The names that lead from a root to a path below it.
pub fn relative_components(candidate: &str, root: &str) -> (found: Option<Vec<String>>)
    ensures
        match found {
            Some(names) => relative_names(candidate@, root@) == Some(views(names@)),
            None => relative_names(candidate@, root@) is None,
        },
{
    let mine = comparable_components(candidate);
    let theirs = comparable_components(root);
    let ghost mine_texts = comparable_texts(components(candidate@));
    let ghost their_texts = comparable_texts(components(root@));
    if mine.len() < theirs.len() {
        assert(mine_texts.len() < their_texts.len());
        return None;
    }
    let mut i: usize = 0;
    while i < theirs.len()
        invariant
            i <= theirs.len() <= mine.len(),
            mine_texts == comparable_texts(components(candidate@)),
            their_texts == comparable_texts(components(root@)),
            views(mine@) == mine_texts,
            views(theirs@) == their_texts,
            forall|j: int|
                0 <= j < i ==> same_ignoring_case(#[trigger] mine_texts[j], their_texts[j]),
        decreases theirs.len() - i,
    {
        assert(mine_texts[i as int] == mine@[i as int]@);
        assert(their_texts[i as int] == theirs@[i as int]@);
        if !equal_ignoring_case(mine[i].as_str(), theirs[i].as_str()) {
            assert(!lies_below(candidate@, root@));
            return None;
        }
        i += 1;
    }
    assert(lies_below(candidate@, root@));
    let parts = path_components(candidate);
    let skipped = path_components(root).len();
    let ghost all = components(candidate@);
    assert(skipped == components(root@).len());
    let mut names: Vec<String> = Vec::new();
    if skipped > parts.len() {
        assert(views(names@) =~= Seq::empty());
        return Some(names);
    }
    let ghost rest = all.skip(skipped as int);
    let mut at: usize = skipped;
    assert(views(names@) =~= component_names(rest.take(0)));
    while at < parts.len()
        invariant
            skipped <= at <= parts.len(),
            all == part_views(parts@),
            rest == all.skip(skipped as int),
            views(names@) == component_names(rest.take(at - skipped)),
        decreases parts.len() - at,
    {
        let ghost before = views(names@);
        assert(rest.take(at + 1 - skipped).drop_last() =~= rest.take(at - skipped));
        assert(rest.take(at + 1 - skipped).last() == parts@[at as int]@);
        match component_to_name(&parts[at]) {
            Some(name) => {
                let ghost view = name@;
                names.push(name);
                assert(views(names@) =~= before.push(view));
            },
            None => {},
        }
        at += 1;
    }
    assert(rest.take(at - skipped) =~= rest);
    Some(names)
}

/// A path lies at itself, and no names lead from a path to itself.
pub proof fn law_path_lies_at_itself(path: Seq<char>)
    ensures
        relative_names(path, path) == Some(Seq::<Seq<char>>::empty()),
{
    let mine = components(path);
    assert(mine.skip(mine.len() as int) =~= Seq::empty());
    assert(component_names(Seq::<PartView>::empty()) =~= Seq::empty());
}

/// Whether a text is the name of a file or a directory and nothing else.
pub open spec fn is_plain_name(name: Seq<char>) -> bool {
    &&& name.len() > 0
    &&& name != seq!['.']
    &&& name != seq!['.', '.']
    &&& forall|i: int| 0 <= i < name.len() ==> !is_separator(#[trigger] name[i]) && name[i] != ':'
}

proof fn lemma_component_end(path: Seq<char>, from: int, end: int, verbatim: bool)
    requires
        0 <= from <= end <= path.len(),
        forall|i: int| from <= i < end ==> !separates(#[trigger] path[i], verbatim),
        end == path.len() || separates(path[end], verbatim),
    ensures
        component_end(path, from, verbatim) == end,
    decreases end - from,
{
    if from < end {
        lemma_component_end(path, from + 1, end, verbatim);
    }
}

proof fn lemma_component_end_bounds(path: Seq<char>, from: int, verbatim: bool)
    requires
        0 <= from <= path.len(),
    ensures
        ({
            let end = component_end(path, from, verbatim);
            &&& from <= end <= path.len()
            &&& forall|i: int| from <= i < end ==> !separates(#[trigger] path[i], verbatim)
            &&& end == path.len() || separates(path[end], verbatim)
        }),
    decreases path.len() - from,
{
    if from < path.len() && !separates(path[from], verbatim) {
        lemma_component_end_bounds(path, from + 1, verbatim);
    }
}

/// The end of a component stays where it is when a path goes on behind a separator.
proof fn lemma_component_end_kept(path: Seq<char>, longer: Seq<char>, from: int, verbatim: bool)
    requires
        0 <= from <= path.len() <= longer.len(),
        longer.take(path.len() as int) == path,
        component_end(path, from, verbatim) < path.len() || path.len() == longer.len() || separates(
            longer[path.len() as int],
            verbatim,
        ),
    ensures
        component_end(longer, from, verbatim) == component_end(path, from, verbatim),
{
    lemma_component_end_bounds(path, from, verbatim);
    let end = component_end(path, from, verbatim);
    assert forall|i: int| from <= i < end implies !separates(#[trigger] longer[i], verbatim) by {
        assert(longer.take(path.len() as int)[i] == longer[i]);
        assert(!separates(path[i], verbatim));
    }
    if end < path.len() {
        assert(longer.take(path.len() as int)[end] == longer[end]);
    }
    lemma_component_end(longer, from, end, verbatim);
}

/// A plain name is a path of one component.
pub proof fn lemma_plain_name(name: Seq<char>)
    requires
        is_plain_name(name),
    ensures
        prefix_of(name) is None,
        !has_root(name),
        components(name) == seq![PartView::Normal(name)],
{
    assert(!is_separator(name[0]));
    assert(!opens_with(name, seq!['\\', '\\'])) by {
        if opens_with(name, seq!['\\', '\\']) {
            assert(name[0] == seq!['\\', '\\'][0] || (seq!['\\', '\\'][0] == '\\' && name[0]
                == '/'));
        }
    }
    if name.len() > 1 {
        assert(name[1] != ':');
    }
    assert(!opens_with_dot(name)) by {
        if opens_with_dot(name) {
            if name.len() == 1 {
                assert(name =~= seq!['.']);
            } else {
                assert(is_separator(name[1]));
            }
        }
    }
    assert forall|i: int| 0 <= i < name.len() implies !separates(#[trigger] name[i], false) by {
        assert(!is_separator(name[i]));
    }
    lemma_component_end(name, 0, name.len() as int, false);
    assert(name.subrange(0, name.len() as int) =~= name);
    assert(body_parts(name, name.len() as int + 1, false) =~= Seq::empty());
    assert(body_parts(name, 0, false) =~= seq![PartView::Normal(name)]);
    assert(components(name) =~= seq![PartView::Normal(name)]);
}

/// What a path becomes before a name is written behind it.
pub open spec fn join_front(base: Seq<char>) -> Seq<char> {
    if is_verbatim(base) {
        let parts = components(base);
        if parts.len() > 0 && !(parts.last() is RootDir) {
            written_parts(parts).push('\\')
        } else {
            written_parts(parts)
        }
    } else if base.len() == 0 || is_separator(base.last()) || (is_drive_path(base) && prefix_len(
        base,
    ) == base.len()) {
        base
    } else {
        base.push('\\')
    }
}

/// A plain name is joined to a path by writing it behind the path.
pub proof fn lemma_join_plain_name(base: Seq<char>, name: Seq<char>)
    requires
        is_plain_name(name),
    ensures
        join_path(base, name) == join_front(base) + name,
{
    lemma_plain_name(name);
    if is_verbatim(base) {
        let parts = components(base);
        let part = PartView::Normal(name);
        let added = seq![part];
        assert(added.drop_first() =~= Seq::empty());
        assert(add_parts(parts.push(part), added.drop_first()) == parts.push(part));
        assert(add_parts(parts, added) == parts.push(part));
        let all = parts.push(part);
        assert(all.drop_last() =~= parts);
        assert(written_parts(all) =~= join_front(base) + name);
    }
}

/// No two names are joined to one path as the same path.
pub proof fn law_joined_names_stay_apart(base: Seq<char>, a: Seq<char>, b: Seq<char>)
    requires
        is_plain_name(a),
        is_plain_name(b),
        join_path(base, a) == join_path(base, b),
    ensures
        a == b,
{
    lemma_join_plain_name(base, a);
    lemma_join_plain_name(base, b);
    let front = join_front(base);
    assert((front + a).skip(front.len() as int) =~= a);
    assert((front + b).skip(front.len() as int) =~= b);
}

proof fn lemma_body_before_separator(path: Seq<char>, from: int)
    requires
        0 <= from <= path.len(),
    ensures
        body_parts(path.push('\\'), from, false) == body_parts(path, from, false),
    decreases path.len() - from,
{
    let longer = path.push('\\');
    let len = path.len() as int;
    assert(longer.take(len) =~= path);
    lemma_component_end_bounds(path, from, false);
    lemma_component_end_kept(path, longer, from, false);
    let end = component_end(path, from, false);
    assert(longer.subrange(from, end) =~= path.subrange(from, end));
    if from == len {
        assert(path.subrange(from, end) =~= Seq::empty());
        assert(body_parts(longer, len + 1, false) =~= Seq::empty());
        assert(body_parts(path, from, false) =~= Seq::empty());
    } else if end < len {
        lemma_body_before_separator(path, end + 1);
    } else {
        assert(body_parts(longer, len + 1, false) =~= body_parts(path, len + 1, false));
    }
}

proof fn lemma_body_with_name(front: Seq<char>, name: Seq<char>, from: int)
    requires
        0 <= from <= front.len(),
        from < front.len() ==> is_separator(front.last()),
        is_plain_name(name),
    ensures
        body_parts(front + name, from, false) == body_parts(front, from, false).push(
            PartView::Normal(name),
        ),
    decreases front.len() - from,
{
    let longer = front + name;
    let len = front.len() as int;
    if from == len {
        assert forall|i: int| from <= i < longer.len() implies !separates(
            #[trigger] longer[i],
            false,
        ) by {
            assert(longer[i] == name[i - len]);
            assert(!is_separator(name[i - len]));
        }
        lemma_component_end(longer, from, longer.len() as int, false);
        assert(longer.subrange(from, longer.len() as int) =~= name);
        assert(body_parts(longer, longer.len() as int + 1, false) =~= Seq::empty());
        assert(body_parts(longer, from, false) =~= seq![PartView::Normal(name)]);
        assert(body_parts(front, from, false) =~= Seq::empty());
    } else {
        lemma_component_end_bounds(front, from, false);
        let end = component_end(front, from, false);
        assert(end < len) by {
            if end == len {
                assert(!separates(front[len - 1], false));
            }
        }
        assert(longer.take(len) =~= front);
        lemma_component_end_kept(front, longer, from, false);
        assert(longer.subrange(from, end) =~= front.subrange(from, end));
        lemma_body_with_name(front, name, end + 1);
        let rest = body_parts(front, end + 1, false);
        match single_part(front.subrange(from, end), false) {
            Some(part) => {
                assert(seq![part] + rest.push(PartView::Normal(name)) =~= (seq![part] + rest).push(
                    PartView::Normal(name),
                ));
            },
            None => {},
        }
    }
}

/// Whether a path is one that names go below without a change of what it begins with: it is
/// absolute, not taken as it is written, and not a bare `\\.\`.
pub open spec fn takes_names(path: Seq<char>) -> bool {
    is_absolute(path) && !is_verbatim(path) && !(prefix_of(path)->0.kind == PrefixKind::Device
        && prefix_of(path)->0.name.len() == 0)
}

/// What a path begins with stays when a name is written behind it.
proof fn lemma_prefix_kept(path: Seq<char>, longer: Seq<char>)
    requires
        takes_names(path),
        path.len() <= longer.len(),
        longer.take(path.len() as int) == path,
        path.len() == longer.len() || is_separator(longer[path.len() as int]) || is_separator(
            path.last(),
        ),
    ensures
        prefix_of(longer) == prefix_of(path),
        prefix_len(path) <= path.len(),
        prefix_len(path) == path.len() || is_separator(path[prefix_len(path)]),
{
    let len = path.len() as int;
    let two = seq!['\\', '\\'];
    assert forall|i: int| 0 <= i < len implies longer[i] == #[trigger] path[i] by {
        assert(longer.take(len)[i] == longer[i]);
    }
    if opens_with(path, two) {
        assert(opens_with(longer, two)) by {
            assert forall|i: int| 0 <= i < 2 implies (#[trigger] longer[i] == two[i] || (two[i]
                == '\\' && longer[i] == '/')) by {
                assert(path[i] == two[i] || (two[i] == '\\' && path[i] == '/'));
            }
        }
        let device = seq!['\\', '\\', '.', '\\'];
        if opens_with(path, device) {
            assert(opens_with(longer, device)) by {
                assert forall|i: int| 0 <= i < 4 implies (#[trigger] longer[i] == device[i] || (
                device[i] == '\\' && longer[i] == '/')) by {
                    assert(path[i] == device[i] || (device[i] == '\\' && path[i] == '/'));
                }
            }
            lemma_component_end_bounds(path, 4, false);
            let end = component_end(path, 4, false);
            assert(end < len || path.len() == longer.len() || separates(longer[len], false)) by {
                if end == len {
                    assert(!separates(path[len - 1], false));
                }
            }
            lemma_component_end_kept(path, longer, 4, false);
            assert(longer.subrange(4, end) =~= path.subrange(4, end));
            assert(path[2] == '.');
        } else {
            lemma_component_end_bounds(path, 2, false);
            let server_end = component_end(path, 2, false);
            let server = component_text(path, 2, false);
            let at = 2 + server.len() as int + 1;
            let share = component_text(path, at, false);
            assert(share.len() > 0);
            assert(server_end == at - 1);
            lemma_component_end_bounds(path, at, false);
            let end = component_end(path, at, false);
            assert(server_end < len);
            lemma_component_end_kept(path, longer, 2, false);
            assert(longer.subrange(2, server_end) =~= path.subrange(2, server_end));
            assert(end < len || path.len() == longer.len() || separates(longer[len], false)) by {
                if end == len {
                    assert(!separates(path[len - 1], false));
                }
            }
            lemma_component_end_kept(path, longer, at, false);
            assert(longer.subrange(at, end) =~= path.subrange(at, end));
            assert(!opens_with(longer, device)) by {
                if opens_with(longer, device) {
                    assert forall|i: int| 0 <= i < 4 implies (#[trigger] path[i] == device[i] || (
                    device[i] == '\\' && path[i] == '/')) by {
                        assert(longer[i] == device[i] || (device[i] == '\\' && longer[i] == '/'));
                    }
                    assert(opens_with(path, device));
                }
            }
            assert(longer[2] == path[2] && longer[3] == path[3]);
        }
    } else {
        assert(!opens_with(longer, two)) by {
            if opens_with(longer, two) {
                assert forall|i: int| 0 <= i < 2 implies (#[trigger] path[i] == two[i] || (two[i]
                    == '\\' && path[i] == '/')) by {
                    assert(longer[i] == two[i] || (two[i] == '\\' && longer[i] == '/'));
                }
                assert(opens_with(path, two));
            }
        }
        assert(drive_at(longer, 0));
    }
}

/// A name that is joined to an absolute path is one more component of it.
pub proof fn law_joined_name_is_last_component(path: Seq<char>, name: Seq<char>)
    requires
        takes_names(path),
        is_plain_name(name),
    ensures
        components(join_path(path, name)) == components(path).push(PartView::Normal(name)),
        takes_names(join_path(path, name)),
{
    let part = PartView::Normal(name);
    let front = join_front(path);
    let longer = front + name;
    let len = path.len() as int;
    lemma_join_plain_name(path, name);
    assert(path.len() > 0);
    assert(longer.take(len) =~= path);
    if !is_separator(path.last()) {
        assert(longer[len] == '\\');
    }
    lemma_prefix_kept(path, longer);
    let start = prefix_len(path);
    if start == len {
        lemma_no_separator_at_prefix_end(path);
    }
    assert(longer.take(start) =~= path.take(start));
    assert(longer[start] == '\\' || longer[start] == '/') by {
        if start < len {
            assert(longer[start] == path[start]);
        }
    }
    assert(has_written_root(longer));
    if start == len {
        assert(!is_drive_path(path));
        assert(front =~= path.push('\\'));
        lemma_body_with_name(front, name, len + 1);
        assert(body_parts(front, len + 1, false) =~= Seq::empty());
        assert(body_parts(path, len, false) =~= Seq::empty());
    } else {
        if front.len() > len {
            assert(front =~= path.push('\\'));
            lemma_body_before_separator(path, start + 1);
        } else {
            assert(front =~= path);
        }
        lemma_body_with_name(front, name, start + 1);
    }
    let body = body_parts(path, body_start(path), false);
    assert(body_parts(longer, start + 1, false) == body.push(part));
    let head = seq![PartView::Prefix(path.take(start))];
    let root = seq![PartView::RootDir];
    assert(rooted_parts(path) =~= root + body);
    assert(rooted_parts(longer) =~= root + body.push(part));
    assert(head + (root + body.push(part)) =~= (head + (root + body)).push(part));
}

/// A prefix that takes all of a path does not end with a separator.
proof fn lemma_no_separator_at_prefix_end(path: Seq<char>)
    requires
        takes_names(path),
        prefix_len(path) == path.len(),
    ensures
        !is_separator(path.last()),
{
    let len = path.len() as int;
    if opens_with(path, seq!['\\', '\\']) {
        if opens_with(path, seq!['\\', '\\', '.', '\\']) {
            lemma_component_end_bounds(path, 4, false);
            assert(!separates(path[len - 1], false));
        } else {
            let server = component_text(path, 2, false);
            lemma_component_end_bounds(path, 2, false);
            let at = 2 + server.len() as int + 1;
            lemma_component_end_bounds(path, at, false);
            assert(!separates(path[len - 1], false));
        }
    }
}

/// A name that is joined to a path below a root is one more name on the way there.
pub proof fn law_joined_name_is_last_name(root: Seq<char>, path: Seq<char>, name: Seq<char>)
    requires
        takes_names(path),
        is_plain_name(name),
        relative_names(path, root) is Some,
        components(root).len() <= components(path).len(),
    ensures
        relative_names(join_path(path, name), root) == Some(
            relative_names(path, root)->0.push(name),
        ),
{
    law_joined_name_is_last_component(path, name);
    let part = PartView::Normal(name);
    let mine = components(path);
    let longer = components(join_path(path, name));
    let skipped = components(root).len() as int;
    let theirs = comparable_texts(components(root));
    assert(longer.drop_last() =~= mine);
    assert(comparable_texts(longer) == comparable_texts(mine).push(name));
    assert forall|i: int| 0 <= i < theirs.len() implies same_ignoring_case(
        #[trigger] comparable_texts(longer)[i],
        theirs[i],
    ) by {
        assert(comparable_texts(longer)[i] == comparable_texts(mine)[i]);
    }
    assert(longer.skip(skipped) =~= mine.skip(skipped).push(part));
    assert(longer.skip(skipped).drop_last() =~= mine.skip(skipped));
}

/// Whether a component is not an empty name.
pub open spec fn is_written(part: PartView) -> bool {
    part matches PartView::Normal(text) ==> text.len() > 0
}

proof fn lemma_body_is_written(path: Seq<char>, from: int, verbatim: bool)
    ensures
        forall|i: int|
            0 <= i < body_parts(path, from, verbatim).len() ==> is_written(
                #[trigger] body_parts(path, from, verbatim)[i],
            ),
    decreases path.len() + 1 - from,
{
    let parts = body_parts(path, from, verbatim);
    if 0 <= from < path.len() {
        let end = component_end(path, from, verbatim);
        if from <= end <= path.len() {
            lemma_body_is_written(path, end + 1, verbatim);
            let rest = body_parts(path, end + 1, verbatim);
            assert forall|i: int| 0 <= i < parts.len() implies is_written(#[trigger] parts[i]) by {
                if parts.len() > rest.len() && i > 0 {
                    assert(parts[i] == rest[i - 1]);
                } else if parts.len() == rest.len() {
                    assert(parts[i] == rest[i]);
                }
            }
        }
    }
}

proof fn lemma_names_are_written(parts: Seq<PartView>)
    requires
        forall|i: int| 0 <= i < parts.len() ==> is_written(#[trigger] parts[i]),
    ensures
        forall|i: int|
            0 <= i < component_names(parts).len() ==> (#[trigger] component_names(parts)[i]).len()
                > 0,
    decreases parts.len(),
{
    if parts.len() > 0 {
        let head = parts.drop_last();
        assert forall|i: int| 0 <= i < head.len() implies is_written(#[trigger] head[i]) by {
            assert(head[i] == parts[i]);
        }
        lemma_names_are_written(head);
        let last = parts[parts.len() - 1];
        assert(last == parts.last());
        assert(is_written(last));
        let before = component_names(head);
        let names = component_names(parts);
        assert forall|i: int| 0 <= i < names.len() implies (#[trigger] names[i]).len() > 0 by {
            if i < before.len() {
                assert(names[i] == before[i]);
            }
        }
    }
}

/// No name on the way from a root to a path is empty.
pub proof fn law_relative_names_are_written(path: Seq<char>, root: Seq<char>)
    ensures
        relative_names(path, root) matches Some(names) ==> forall|i: int|
            0 <= i < names.len() ==> (#[trigger] names[i]).len() > 0,
{
    let parts = components(path);
    let body = body_parts(path, body_start(path), is_verbatim(path));
    lemma_body_is_written(path, body_start(path), is_verbatim(path));
    assert forall|i: int| 0 <= i < parts.len() implies is_written(#[trigger] parts[i]) by {
        let k = i - (parts.len() - body.len());
        if k >= 0 {
            assert(parts[i] == body[k]);
        }
    }
    let skipped = components(root).len() as int;
    if skipped <= parts.len() {
        let rest = parts.skip(skipped);
        assert forall|i: int| 0 <= i < rest.len() implies is_written(#[trigger] rest[i]) by {
            assert(rest[i] == parts[skipped + i]);
        }
        lemma_names_are_written(rest);
    }
}

/// A drive and a separator behind it make a path absolute, whatever follows; a drive without a
/// separator, a separator without a drive, and a name alone do not. So does a share on a
/// server.
pub proof fn law_absolute_paths_begin_at_a_root(
    drive: char,
    separator: char,
    rest: Seq<char>,
    name: Seq<char>,
    share: Seq<char>,
)
    requires
        is_drive_letter(drive),
        separator == '\\' || separator == '/',
        is_plain_name(name),
        is_plain_name(share),
        name.len() > 2,
    ensures
        is_absolute(seq![drive, ':', separator] + rest),
        !is_absolute(seq![drive, ':'] + name),
        !is_absolute(seq![drive, ':']),
        !is_absolute(seq![separator] + name),
        !is_absolute(name),
        !is_absolute(Seq::empty()),
        is_absolute(seq!['\\', '\\'] + name + seq!['\\'] + share),
{
    let two = seq!['\\', '\\'];
    assert(two[0] == '\\' && two[1] == '\\');
    let a = seq![drive, ':', separator] + rest;
    assert(a[0] == drive && a[1] == ':' && a[2] == separator);
    assert(!opens_with(a, two)) by {
        if opens_with(a, two) {
            assert(a[0] == two[0] || (two[0] == '\\' && a[0] == '/'));
        }
    }
    let b = seq![drive, ':'] + name;
    assert(b[0] == drive && b[1] == ':' && b[2] == name[0]);
    assert(!is_separator(name[0]) && !is_separator(name[1]));
    assert(!opens_with(b, two)) by {
        if opens_with(b, two) {
            assert(b[0] == two[0] || (two[0] == '\\' && b[0] == '/'));
        }
    }
    let c = seq![drive, ':'];
    assert(!opens_with(c, two)) by {
        if opens_with(c, two) {
            assert(c[0] == two[0] || (two[0] == '\\' && c[0] == '/'));
        }
    }
    let d = seq![separator] + name;
    assert(d[0] == separator && d[1] == name[0]);
    assert(!opens_with(d, two)) by {
        if opens_with(d, two) {
            assert(d[1] == two[1] || (two[1] == '\\' && d[1] == '/'));
        }
    }
    lemma_plain_name(name);
    let e = seq!['\\', '\\'] + name + seq!['\\'] + share;
    let n = name.len() as int;
    assert(e[0] == '\\' && e[1] == '\\' && e[2] == name[0] && e[3] == name[1]);
    assert(opens_with(e, two));
    let device = seq!['\\', '\\', '.', '\\'];
    assert(device[3] == '\\');
    assert(!opens_with(e, device)) by {
        if opens_with(e, device) {
            assert(e[3] == device[3] || (device[3] == '\\' && e[3] == '/'));
        }
    }
    assert forall|i: int| 2 <= i < n + 2 implies !separates(#[trigger] e[i], false) by {
        assert(e[i] == name[i - 2]);
        assert(!is_separator(name[i - 2]));
    }
    assert(e[n + 2] == '\\');
    lemma_component_end(e, 2, n + 2, false);
    assert forall|i: int| n + 3 <= i < e.len() implies !separates(#[trigger] e[i], false) by {
        assert(e[i] == share[i - n - 3]);
        assert(!is_separator(share[i - n - 3]));
    }
    lemma_component_end(e, n + 3, e.len() as int, false);
}

proof fn lemma_joined_shape(path: Seq<char>, name: Seq<char>)
    requires
        takes_names(path),
        is_plain_name(name),
    ensures
        ({
            let longer = join_path(path, name);
            let front = join_front(path);
            &&& longer == front + name
            &&& prefix_of(longer) == prefix_of(path)
            &&& !is_verbatim(longer)
            &&& body_start(longer) == prefix_len(path) + 1
            &&& body_start(longer) <= front.len()
            &&& front.len() > 0 && is_separator(front.last())
            &&& front.len() == path.len() || front == path.push('\\')
            &&& front.len() == path.len() ==> front == path
            &&& prefix_len(path) <= path.len()
        }),
{
    let front = join_front(path);
    let longer = front + name;
    let len = path.len() as int;
    lemma_join_plain_name(path, name);
    assert(path.len() > 0);
    assert(longer.take(len) =~= path);
    if !is_separator(path.last()) {
        assert(longer[len] == '\\');
    }
    lemma_prefix_kept(path, longer);
    let start = prefix_len(path);
    if start == len {
        lemma_no_separator_at_prefix_end(path);
    }
    assert(longer[start] == '\\' || longer[start] == '/') by {
        if start < len {
            assert(longer[start] == path[start]);
        }
    }
    assert(has_written_root(longer));
}

/// Two names below one directory are the same path exactly where they are the same name, and
/// one lies at or below the other exactly where they are the same but for case. A directory
/// does not lie below what is in it.
pub proof fn law_names_tell_paths_apart(path: Seq<char>, a: Seq<char>, b: Seq<char>)
    requires
        takes_names(path),
        is_plain_name(a),
        is_plain_name(b),
    ensures
        same_path(join_path(path, a), join_path(path, b)) <==> a == b,
        relative_names(join_path(path, a), join_path(path, b)) is Some <==> same_ignoring_case(a, b),
        relative_names(path, join_path(path, a)) is None,
        !same_path(path, join_path(path, a)),
{
    law_joined_name_is_last_component(path, a);
    law_joined_name_is_last_component(path, b);
    lemma_joined_shape(path, a);
    lemma_joined_shape(path, b);
    let base = components(path);
    let left = join_path(path, a);
    let right = join_path(path, b);
    let x = components(left);
    let y = components(right);
    assert(x.drop_last() =~= base && y.drop_last() =~= base);
    assert(comparable_texts(x) == comparable_texts(base).push(a));
    assert(comparable_texts(y) == comparable_texts(base).push(b));
    let n = comparable_texts(base).len() as int;
    assert(comparable_texts(x)[n] == a && comparable_texts(y)[n] == b);
    if same_ignoring_case(a, b) {
        assert forall|i: int| 0 <= i < n + 1 implies same_ignoring_case(
            #[trigger] comparable_texts(x)[i],
            comparable_texts(y)[i],
        ) by {
            if i < n {
                assert(comparable_texts(x)[i] == comparable_texts(y)[i]);
            }
        }
        assert(lies_below(left, right));
    }
    assert(relative_names(left, right) is Some ==> lies_below(left, right));
    assert(lies_below(left, right) ==> same_ignoring_case(
        comparable_texts(x)[n],
        comparable_texts(y)[n],
    ));
    assert(!lies_below(path, left));
    assert(rooted_parts(left) =~= x.skip(1));
    assert(rooted_parts(right) =~= y.skip(1));
    assert(rooted_parts(path) =~= base.skip(1));
    if a != b {
        let m = x.len() - 1;
        assert(x[m] == PartView::Normal(a) && y[m] == PartView::Normal(b));
        assert(x.skip(1)[m - 1] == x[m] && y.skip(1)[m - 1] == y[m]);
    }
    assert(x.skip(1).len() != base.skip(1).len());
}

proof fn lemma_last_start(path: Seq<char>, start: int, front: int, len: int)
    requires
        0 <= start <= front <= len <= path.len(),
        front == start || separates(path[front - 1], false),
        forall|i: int| front <= i < len ==> !separates(#[trigger] path[i], false),
    ensures
        last_component_start(path, start, len, false) == front,
    decreases len - front,
{
    if front < len {
        assert(!separates(path[len - 1], false));
        lemma_last_start(path, start, front, len - 1);
    }
}

proof fn lemma_trimmed_at_name(path: Seq<char>, start: int, front: int, len: int)
    requires
        0 <= start <= front < len <= path.len(),
        front == start || separates(path[front - 1], false),
        is_plain_name(path.subrange(front, len)),
    ensures
        trimmed_len(path, start, len, false) == len,
        last_component_start(path, start, len, false) == front,
{
    let name = path.subrange(front, len);
    assert forall|i: int| front <= i < len implies !separates(#[trigger] path[i], false) by {
        assert(path[i] == name[i - front]);
        assert(!is_separator(name[i - front]));
    }
    lemma_last_start(path, start, front, len);
    assert(single_part(name, false) is Some);
}

/// The directory that a name lies in is the one that it was joined to.
pub proof fn law_parent_undoes_join(path: Seq<char>, directory: Seq<char>, name: Seq<char>)
    requires
        takes_names(path),
        is_plain_name(directory),
        is_plain_name(name),
    ensures
        parent(join_path(join_path(path, directory), name)) == Some(join_path(path, directory)),
{
    let outer = join_path(path, directory);
    law_joined_name_is_last_component(path, directory);
    lemma_joined_shape(path, directory);
    lemma_joined_shape(outer, name);
    let longer = join_path(outer, name);
    let len = longer.len() as int;
    let front = join_front(outer);
    assert(!is_separator(outer.last())) by {
        assert(outer.last() == directory[directory.len() - 1]);
        assert(!is_separator(directory[directory.len() - 1]));
    }
    assert(front =~= outer.push('\\'));
    let start = body_start(longer);
    assert(longer.subrange(front.len() as int, len) =~= name);
    assert(separates(longer[front.len() - 1], false));
    assert(start == body_start(outer));
    lemma_trimmed_at_name(longer, start, front.len() as int, len);
    let inner = join_front(path);
    assert(longer.subrange(inner.len() as int, outer.len() as int) =~= directory);
    assert(longer[inner.len() - 1] == inner.last());
    assert(separates(longer[inner.len() - 1], false));
    lemma_trimmed_at_name(longer, start, inner.len() as int, outer.len() as int);
    assert(longer.take(outer.len() as int) =~= outer);
}

/// A path that says where it begins is not joined to another: it stands for itself.
pub proof fn law_absolute_paths_stand_for_themselves(base: Seq<char>, path: Seq<char>)
    requires
        is_absolute(path),
    ensures
        join_path(base, path) == path,
{
}

/// A drive is called by a letter of ASCII, and it does not matter whether that is a capital.
pub proof fn law_drives_are_called_by_letters(c: char, rest: Seq<char>)
    ensures
        ({
            let path = seq![c, ':'] + rest;
            let small = 'a' <= c <= 'z';
            let capital = 'A' <= c <= 'Z';
            &&& small || capital ==> prefix_of(path) == Some(
                PrefixView {
                    kind: PrefixKind::Disk,
                    name: seq![
                        if small {
                            (c as int - 32) as char
                        } else {
                            c
                        },
                    ],
                    share: Seq::empty(),
                },
            )
            &&& !small && !capital && c != '\\' && c != '/' ==> prefix_of(path) is None
        }),
{
    let path = seq![c, ':'] + rest;
    assert(path[0] == c && path[1] == ':');
    assert(path.take(2)[1] == ':');
}

} // verus!
