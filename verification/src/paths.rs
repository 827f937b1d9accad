//! File paths as texts, and what `std::path` makes of them.
//!
//! Unix and Windows write and take apart paths differently. What is stated
//! here holds under both conventions; where the two differ, the separator
//! that the machine uses is left open.
use crate::text;
use vstd::prelude::*;

verus! {

/// The characters that separate the components of a path.
pub open spec fn is_separator(c: char) -> bool {
    c == '/' || c == '\\'
}

/// Whether a text names a file by itself under either convention: no
/// separator and no drive letter in it.
pub open spec fn plain_name(name: Seq<char>) -> bool {
    &&& name.len() > 0
    &&& forall|i: int| 0 <= i < name.len() ==> !is_separator(#[trigger] name[i]) && name[i] != ':'
}

/// Whether a text names the directory itself or the one above it.
pub open spec fn dots(name: Seq<char>) -> bool {
    name == seq!['.'] || name == seq!['.', '.']
}

/// Whether a path starts with the `\\?\` mark, behind which Windows takes a path
/// literally.
pub open spec fn verbatim(path: Seq<char>) -> bool {
    &&& path.len() >= 4
    &&& path[0] == '\\'
    &&& path[1] == '\\'
    &&& path[2] == '?'
    &&& path[3] == '\\'
}

/// Whether a path starts as a verbatim one does, with separators of either kind
/// in the mark, or with the mark not yet ended.
pub open spec fn marked(path: Seq<char>) -> bool {
    &&& network(path)
    &&& path.len() >= 3
    &&& path[2] == '?'
    &&& path.len() == 3 || is_separator(path[3])
}

/// Whether a path can start with the name of a server or a device, which it
/// does only behind two separators.
pub open spec fn network(path: Seq<char>) -> bool {
    path.len() >= 2 && is_separator(path[0]) && is_separator(path[1])
}

/// Whether the verbatim mark is followed by `UNC\`, behind which a server and a
/// share are named.
pub open spec fn unc_mark(path: Seq<char>) -> bool {
    verbatim(path) && path.len() >= 8 && path.subrange(4, 8) == seq!['U', 'N', 'C', '\\']
}

/// Whether a component `.` or `..` starts at a place.
pub open spec fn dots_at(path: Seq<char>, k: int) -> bool {
    &&& path[k] == '.'
    &&& is_separator(path[k - 1])
    &&& {
        ||| k + 1 == path.len()
        ||| is_separator(path[k + 1])
        ||| path[k + 1] == '.' && (k + 2 == path.len() || is_separator(path[k + 2]))
    }
}

/// Whether there is nothing in a verbatim path to be tidied up: behind the mark
/// no `\` follows another, no component is `.` or `..`, no `/` stands where a
/// drive or `UNC` would be named, none ends the path, and something is named.
pub open spec fn tidy_verbatim(path: Seq<char>) -> bool {
    &&& verbatim(path)
    &&& path.len() >= 7
    &&& path[4] != '/' && path[5] != '/' && path[6] != '/'
    &&& path.last() != '/'
    &&& unc_mark(path) ==> path.len() > 8
    &&& forall|k: int|
        4 <= k < path.len() ==> !(#[trigger] path[k] == '\\' && path[k - 1] == '\\') && !dots_at(path, k)
}

/// Whether a text ends with another.
pub open spec fn ends_with(s: Seq<char>, tail: Seq<char>) -> bool {
    tail.len() <= s.len() && s.skip(s.len() - tail.len()) == tail
}

/// Whether a path is a drive letter with its colon and no more.
pub open spec fn bare_drive(path: Seq<char>) -> bool {
    &&& path.len() == 2
    &&& ('a' <= path[0] <= 'z' || 'A' <= path[0] <= 'Z')
    &&& path[1] == ':'
}

/// A file name put under a directory where `sep` is the machine's separator:
/// `sep` stands between them unless the directory is empty, already ends in a
/// separator, or, with `\`, is a bare drive.
pub open spec fn joined(sep: char, dir: Seq<char>, name: Seq<char>) -> Seq<char> {
    if dir.len() == 0 || dir.last() == '/' || dir.last() == sep || (sep == '\\' && bare_drive(dir)) {
        dir + name
    } else {
        dir + seq![sep] + name
    }
}

/// Whether `path` is `name` put under `dir`, with the separator of one of the
/// two conventions.
pub open spec fn placed(dir: Seq<char>, name: Seq<char>, path: Seq<char>) -> bool {
    exists|sep: char| is_separator(sep) && path == #[trigger] joined(sep, dir, name)
}

/// Whether a character separates components where `sep` is the machine's
/// separator: `/` does everywhere, `\` only where it is the machine's own.
pub open spec fn separates(sep: char, c: char) -> bool {
    c == '/' || c == sep
}

/// The place of the first separator, of either kind, at or behind a place, or the
/// length of the path where there is none.
pub open spec fn next_separator(path: Seq<char>, from: int) -> int
    decreases path.len() - from,
{
    if from >= path.len() {
        path.len() as int
    } else if is_separator(path[from]) {
        from
    } else {
        next_separator(path, from + 1)
    }
}

/// Where the second of the two names ends that start at a place with a separator
/// between them.
pub open spec fn second_end(path: Seq<char>, from: int) -> int {
    next_separator(path, next_separator(path, from) + 1)
}

/// Whether two names start at a place, with a separator between them.
pub open spec fn two_names(path: Seq<char>, from: int) -> bool {
    &&& from < next_separator(path, from)
    &&& next_separator(path, from) + 1 < second_end(path, from)
}

/// Whether a verbatim path is written as such paths commonly are: all with `\`,
/// something named behind the mark, no component that is a single dot, and a
/// server and a share behind `UNC`.
pub open spec fn common_verbatim(path: Seq<char>) -> bool {
    &&& verbatim(path)
    &&& path.len() > 4 && path[4] != '\\'
    &&& unc_mark(path) ==> two_names(path, 8)
    &&& forall|k: int|
        4 <= k < path.len() ==> #[trigger] path[k] != '/' && !(path[k] == '.' && path[k - 1] == '\\' && (k + 1
            == path.len() || path[k + 1] == '\\'))
}

/// Whether a path is one of which it is claimed how it is taken apart: one that
/// does not start as a verbatim one does, or is a common one of that kind.
pub open spec fn covered(path: Seq<char>) -> bool {
    marked(path) ==> common_verbatim(path)
}

/// Whether a path starts as the name of a device does.
pub open spec fn device(path: Seq<char>) -> bool {
    network(path) && path.len() >= 4 && path[2] == '.' && is_separator(path[3])
}

/// The length of the prefix that a path starts with where `sep` is the machine's
/// separator. Only Windows knows prefixes: a drive; a server and a share, or a
/// device, behind two separators; or any of these, or another name, behind the
/// verbatim mark.
pub open spec fn prefix_len(sep: char, path: Seq<char>) -> int {
    if sep != '\\' {
        0
    } else if unc_mark(path) {
        second_end(path, 8)
    } else if verbatim(path) || device(path) {
        next_separator(path, 4)
    } else if network(path) {
        if two_names(path, 2) {
            second_end(path, 2)
        } else {
            0
        }
    } else if path.len() >= 2 && bare_drive(path.take(2)) {
        2
    } else {
        0
    }
}

/// The length of the prefix and the root that a path starts with.
pub open spec fn root_len(sep: char, path: Seq<char>) -> int {
    let prefix = prefix_len(sep, path);
    if path.len() > prefix && separates(sep, path[prefix]) {
        prefix + 1
    } else {
        prefix
    }
}

/// Whether a stretch of a path adds no component: separators, and single dots
/// between separators.
pub open spec fn idle(sep: char, path: Seq<char>, from: int, to: int) -> bool {
    forall|k: int|
        from <= k < to ==> {
            ||| separates(sep, #[trigger] path[k])
            ||| idle_dot(sep, path, k)
        }
}

/// Whether a single dot between separators stands at a place.
pub open spec fn idle_dot(sep: char, path: Seq<char>, k: int) -> bool {
    &&& path[k] == '.'
    &&& k > 0
    &&& separates(sep, path[k - 1])
    &&& k + 1 == path.len() || separates(sep, path[k + 1])
}

/// Whether the final component of a path stands from `i` up to `j`: behind the
/// prefix, between separators or at the ends, with nothing but idle characters
/// behind it. A single dot is a component only at the very beginning.
pub open spec fn final_component(sep: char, path: Seq<char>, i: int, j: int) -> bool {
    &&& 0 <= i < j <= path.len()
    &&& forall|k: int| i <= k < j ==> !separates(sep, #[trigger] path[k])
    &&& prefix_len(sep, path) <= i
    &&& i == prefix_len(sep, path) || separates(sep, path[i - 1])
    &&& j == path.len() || separates(sep, path[j])
    &&& idle(sep, path, j, path.len() as int)
    &&& j == i + 1 && path[i] == '.' ==> i == 0
}

/// Whether a path, cut off at `k`, is what stands in front of the component at
/// `i`: without idle characters at its end, but never without its root.
pub open spec fn cut_before(sep: char, path: Seq<char>, i: int, k: int) -> bool {
    &&& root_len(sep, path) <= k <= i
    &&& idle(sep, path, k, i)
    &&& k == root_len(sep, path) || !idle(sep, path, k - 1, i)
}

/// Whether `parent` is what is left of a path without its final component, or
/// nothing where the path has none.
pub open spec fn parent_under(sep: char, path: Seq<char>, parent: Option<Seq<char>>) -> bool {
    match parent {
        Some(p) => {
            &&& p.len() <= path.len()
            &&& p == path.take(p.len() as int)
            &&& exists|i: int, j: int|
                #[trigger] final_component(sep, path, i, j) && cut_before(sep, path, i, p.len() as int)
        },
        None => forall|i: int, j: int| !#[trigger] final_component(sep, path, i, j),
    }
}

/// Whether `name` is the final component of a path, or nothing where the path
/// has none or ends in `.` or `..`.
pub open spec fn file_name_under(sep: char, path: Seq<char>, name: Option<Seq<char>>) -> bool {
    match name {
        Some(n) => exists|i: int, j: int|
            #[trigger] final_component(sep, path, i, j) && n == path.subrange(i, j) && !dots(n),
        None => forall|i: int, j: int|
            #[trigger] final_component(sep, path, i, j) ==> dots(path.subrange(i, j)),
    }
}

/// The place of the last dot in a name, or -1.
pub open spec fn last_dot(name: Seq<char>) -> int
    decreases name.len(),
{
    if name.len() == 0 {
        -1
    } else if name.last() == '.' {
        name.len() - 1
    } else {
        last_dot(name.drop_last())
    }
}

/// A file name up to its last dot; all of it where it has no dot or only a
/// leading one.
pub open spec fn stem_of(name: Seq<char>) -> Seq<char> {
    if last_dot(name) <= 0 {
        name
    } else {
        name.take(last_dot(name))
    }
}

/// What stands behind the last dot of a file name, if that dot is not the
/// leading one.
pub open spec fn extension_of(name: Seq<char>) -> Option<Seq<char>> {
    if last_dot(name) <= 0 {
        None
    } else {
        Some(name.skip(last_dot(name) + 1))
    }
}

/// Whether a directory is one of which it is claimed how a name is put under it:
/// not a verbatim one, or one with nothing to be tidied up.
pub open spec fn joinable(dir: Seq<char>) -> bool {
    marked(dir) ==> tidy_verbatim(dir)
}

/// The place of the last `\` in a path, or -1.
pub open spec fn last_backslash(path: Seq<char>) -> int
    decreases path.len(),
{
    if path.len() == 0 {
        -1
    } else if path.last() == '\\' {
        path.len() - 1
    } else {
        last_backslash(path.drop_last())
    }
}

/// The last `\` of a path stands in it.
pub proof fn lemma_last_backslash_bounds(path: Seq<char>)
    ensures
        -1 <= last_backslash(path) < path.len(),
    decreases path.len(),
{
    if path.len() > 0 && path.last() != '\\' {
        lemma_last_backslash_bounds(path.drop_last());
    }
}

/// What stands between the `\` of a path, without what is empty or a single dot.
pub open spec fn segments(path: Seq<char>) -> Seq<Seq<char>>
    decreases path.len(),
{
    let cut = last_backslash(path);
    let tail = path.skip(cut + 1);
    let front = if cut < 0 {
        Seq::empty()
    } else {
        proof {
            lemma_last_backslash_bounds(path);
        }
        segments(path.take(cut))
    };
    if tail.len() == 0 || tail == seq!['.'] {
        front
    } else {
        front.push(tail)
    }
}

/// Whether a `/` stands right behind a drive that follows the verbatim mark.
pub open spec fn slash_behind_drive(dir: Seq<char>) -> bool {
    dir.len() > 6 && bare_drive(dir.subrange(4, 6)) && dir[6] == '/'
}

/// Whether a verbatim directory is one of which it is claimed where a name put
/// under it stands, though the directory may be rewritten: no `..` in it, and no
/// `/` right behind a drive.
pub open spec fn rewritable(dir: Seq<char>) -> bool {
    &&& verbatim(dir)
    &&& !segments(dir).contains(seq!['.', '.'])
    &&& !slash_behind_drive(dir)
}

/// Whether one verbatim directory is another, written with other repetitions of
/// separators and other single dots.
pub open spec fn rewritten(dir: Seq<char>, as_written: Seq<char>) -> bool {
    &&& verbatim(as_written)
    &&& !slash_behind_drive(as_written)
    &&& segments(as_written) == segments(dir)
}

/// What joining a directory and a name can give: for a plain name, the name
/// put under the directory.
pub open spec fn join_outcome(dir: Seq<char>, name: Seq<char>, path: Seq<char>) -> bool {
    &&& plain_name(name) && !dots(name) && joinable(dir) ==> placed(dir, name, path)
    &&& plain_name(name) && !dots(name) && rewritable(dir) ==> exists|as_written: Seq<char>|
        #[trigger] rewritten(dir, as_written) && placed(as_written, name, path)
    &&& plain_name(name) && !marked(dir) ==> placed(dir, name, path)
    &&& plain_name(name) && !dots(name) ==> ends_with(path, name)
}

/// What the parent of a path can be.
pub open spec fn parent_outcome(path: Seq<char>, parent: Option<Seq<char>>) -> bool {
    &&& covered(path) ==> exists|sep: char| is_separator(sep) && #[trigger] parent_under(sep, path, parent)
    &&& parent is Some ==> parent->0.len() < path.len() && parent->0 == path.take(parent->0.len() as int)
}

/// What the final component of a path can be.
pub open spec fn file_name_outcome(path: Seq<char>, name: Option<Seq<char>>) -> bool {
    exists|sep: char| is_separator(sep) && #[trigger] file_name_under(sep, path, name)
}

/// What the stem of a path's final component can be.
pub open spec fn stem_outcome(path: Seq<char>, stem: Option<Seq<char>>) -> bool {
    covered(path) ==> exists|name: Option<Seq<char>>|
        #[trigger] file_name_outcome(path, name) && stem == match name {
            Some(n) => Some(stem_of(n)),
            None => None,
        }
}

/// What the extension of a path's final component can be.
pub open spec fn extension_outcome(path: Seq<char>, extension: Option<Seq<char>>) -> bool {
    covered(path) ==> exists|name: Option<Seq<char>>|
        #[trigger] file_name_outcome(path, name) && extension == match name {
            Some(n) => extension_of(n),
            None => None,
        }
}

/// `Path::join` puts a name under a directory. Claimed for a name without
/// separators and colons: the result is the directory, then at most one
/// separator, then the name, by the rule of `joined`; only which separator the
/// machine uses is open. A verbatim directory is written anew, without repeated
/// separators and references to `.`; claimed is that the name then stands under
/// a directory that is otherwise the same, and under the very same text where
/// there is nothing to be tidied up. With a `..` in such a directory, or a `/`
/// right behind its drive, only that the result ends with the name. Nothing is
/// claimed of other names.
#[verifier::external_body]
pub(crate) fn path_join(dir: &str, name: &str) -> (path: String)
    ensures
        join_outcome(dir@, name@, path@),
{
    std::path::Path::new(dir).join(name).to_string_lossy().into_owned()
}

/// `Path::parent` gives a path without its final component, and nothing for a
/// path that has no component. Claimed is that the result is the one of
/// `parent_under`, for the separator that the machine uses. Of a path that starts
/// as a verbatim one does that is claimed only where it is written as such paths
/// commonly are; of any other of that kind, that the parent is a shorter front of
/// the path.
#[verifier::external_body]
pub(crate) fn path_parent(path: &str) -> (parent: Option<String>)
    ensures
        parent_outcome(path@, text::opt_view(parent)),
{
    match std::path::Path::new(path).parent() {
        Some(p) => Some(p.to_string_lossy().into_owned()),
        None => None,
    }
}

/// `Path::file_stem` gives the final component of a path up to its last dot.
/// Claimed is that it is the stem of the component of `file_name_under`, for the
/// separator that the machine uses; of a path that starts as a verbatim one does,
/// only where it is written as such paths commonly are.
#[verifier::external_body]
pub(crate) fn path_file_stem(path: &str) -> (stem: Option<String>)
    ensures
        stem_outcome(path@, text::opt_view(stem)),
{
    match std::path::Path::new(path).file_stem() {
        Some(s) => Some(s.to_string_lossy().into_owned()),
        None => None,
    }
}

/// `Path::extension` gives what stands behind the last dot of the final
/// component of a path. Claimed is that it is the extension of the component of
/// `file_name_under`, for the separator that the machine uses; of a path that
/// starts as a verbatim one does, only where it is written as such paths commonly
/// are.
#[verifier::external_body]
pub(crate) fn path_extension(path: &str) -> (extension: Option<String>)
    ensures
        extension_outcome(path@, text::opt_view(extension)),
{
    match std::path::Path::new(path).extension() {
        Some(e) => Some(e.to_string_lossy().into_owned()),
        None => None,
    }
}

/// Under one convention a path has at most one final component.
pub proof fn law_final_component_is_unique(sep: char, path: Seq<char>, i: int, j: int, i2: int, j2: int)
    requires
        final_component(sep, path, i, j),
        final_component(sep, path, i2, j2),
    ensures
        i == i2 && j == j2,
{
    lemma_component_ends_before_idle(sep, path, j, i2, j2);
    lemma_component_ends_before_idle(sep, path, j2, i, j);
    if i < i2 {
        assert(!separates(sep, path[i2 - 1]));
    } else if i2 < i {
        assert(!separates(sep, path[i - 1]));
    }
}

/// No final component reaches into what is idle to the end.
proof fn lemma_component_ends_before_idle(sep: char, path: Seq<char>, from: int, i: int, j: int)
    requires
        0 <= from,
        idle(sep, path, from, path.len() as int),
        final_component(sep, path, i, j),
    ensures
        j <= from,
{
    let last = j - 1;
    if from <= last {
        assert(!separates(sep, path[last]));
        assert(idle_dot(sep, path, last));
        if i < last {
            assert(!separates(sep, path[last - 1]));
        }
    }
}

/// Under one convention the parent of a path is determined by the path.
pub proof fn law_parent_is_determined(
    sep: char,
    path: Seq<char>,
    a: Option<Seq<char>>,
    b: Option<Seq<char>>,
)
    requires
        parent_under(sep, path, a),
        parent_under(sep, path, b),
    ensures
        a == b,
{
    if a is Some && b is Some {
        let k = a->0.len() as int;
        let k2 = b->0.len() as int;
        let (i, j) = choose|i: int, j: int|
            #[trigger] final_component(sep, path, i, j) && cut_before(sep, path, i, k);
        let (i2, j2) = choose|i: int, j: int|
            #[trigger] final_component(sep, path, i, j) && cut_before(sep, path, i, k2);
        law_final_component_is_unique(sep, path, i, j, i2, j2);
        if k < k2 {
            assert(idle(sep, path, k2 - 1, i));
        } else if k2 < k {
            assert(idle(sep, path, k - 1, i));
        }
    }
}

/// Under one convention the file name of a path is determined by the path.
pub proof fn law_file_name_is_determined(
    sep: char,
    path: Seq<char>,
    a: Option<Seq<char>>,
    b: Option<Seq<char>>,
)
    requires
        file_name_under(sep, path, a),
        file_name_under(sep, path, b),
    ensures
        a == b,
{
    if a is Some && b is Some {
        let (i, j) = choose|i: int, j: int|
            #[trigger] final_component(sep, path, i, j) && a->0 == path.subrange(i, j);
        let (i2, j2) = choose|i: int, j: int|
            #[trigger] final_component(sep, path, i, j) && b->0 == path.subrange(i, j);
        law_final_component_is_unique(sep, path, i, j, i2, j2);
    }
}

/// A path that ends neither in a separator nor in a dot has a final component,
/// unless it is a prefix and no more.
pub proof fn law_final_component_exists(sep: char, path: Seq<char>)
    requires
        prefix_len(sep, path) < path.len(),
        !separates(sep, path.last()),
        path.last() != '.',
    ensures
        exists|i: int| #[trigger] final_component(sep, path, i, path.len() as int),
{
    lemma_prefix_len_bounds(sep, path);
    lemma_component_from(sep, path, path.len() - 1);
}

/// A run without separators at the end of a path reaches back to a final
/// component.
proof fn lemma_component_from(sep: char, path: Seq<char>, i: int)
    requires
        0 <= prefix_len(sep, path) <= i < path.len(),
        path.last() != '.',
        forall|k: int| i <= k < path.len() ==> !separates(sep, #[trigger] path[k]),
    ensures
        exists|start: int| #[trigger] final_component(sep, path, start, path.len() as int),
    decreases i,
{
    if i == prefix_len(sep, path) || separates(sep, path[i - 1]) {
        assert(final_component(sep, path, i, path.len() as int));
    } else {
        lemma_component_from(sep, path, i - 1);
    }
}

/// The next separator stands at or behind the place from which it is sought.
proof fn lemma_next_separator_bounds(path: Seq<char>, from: int)
    ensures
        from < path.len() ==> from <= next_separator(path, from),
        next_separator(path, from) <= path.len(),
        from >= path.len() ==> next_separator(path, from) == path.len(),
    decreases path.len() - from,
{
    if from < path.len() && !is_separator(path[from]) {
        lemma_next_separator_bounds(path, from + 1);
    }
}

/// A prefix is no longer than its path.
proof fn lemma_prefix_len_bounds(sep: char, path: Seq<char>)
    ensures
        0 <= prefix_len(sep, path) <= path.len(),
{
    if sep == '\\' && network(path) {
        lemma_next_separator_bounds(path, 2);
        lemma_next_separator_bounds(path, 4);
        lemma_next_separator_bounds(path, 8);
        lemma_next_separator_bounds(path, next_separator(path, 2) + 1);
        lemma_next_separator_bounds(path, next_separator(path, 8) + 1);
    }
}

/// Where a path ends with a plain name that does not end in a dot and is no part
/// of the prefix, its final component ends with that name too.
pub proof fn law_final_component_holds_the_name(sep: char, path: Seq<char>, name: Seq<char>, i: int, j: int)
    requires
        is_separator(sep),
        plain_name(name),
        name.last() != '.',
        ends_with(path, name),
        prefix_len(sep, path) <= path.len() - name.len(),
        final_component(sep, path, i, j),
    ensures
        j == path.len(),
        i <= path.len() - name.len(),
        ends_with(path.subrange(i, j), name),
{
    let start = path.len() - name.len();
    assert forall|k: int| start <= k < path.len() implies #[trigger] path[k] == name[k - start] by {
        assert(path.skip(start)[k - start] == name[k - start]);
    }
    let last = path.len() - 1;
    assert(path[last] == name.last());
    assert(j == path.len());
    if i > start {
        assert(path[i - 1] == name[i - 1 - start]);
        assert(false);
    }
    assert(path.subrange(i, j).skip(start - i) =~= name);
}

/// The parent of a name in a directory is the directory, under a convention under
/// which the character between them separates them. (Left out are a directory
/// that ends in a separator or a dot, or that is a root without its separator,
/// where the parent is written differently.)
pub proof fn law_parent_of_a_name_in_a_directory(
    sep: char,
    dir: Seq<char>,
    between: char,
    leaf: Seq<char>,
    parent: Option<Seq<char>>,
)
    requires
        is_separator(sep),
        separates(sep, between),
        dir.len() > 0,
        !separates(sep, dir.last()),
        dir.last() != '.',
        plain_name(leaf),
        leaf.last() != '.',
        root_len(sep, dir + seq![between] + leaf) <= dir.len(),
        parent_under(sep, dir + seq![between] + leaf, parent),
    ensures
        parent == Some(dir),
{
    let target = dir + seq![between] + leaf;
    let middle = dir.len() as int;
    assert(target[middle] == between);
    assert(target.last() == leaf.last());
    assert(target.skip(middle + 1) =~= leaf);
    assert(ends_with(target, leaf));
    lemma_prefix_len_bounds(sep, target);
    law_final_component_exists(sep, target);
    assert(parent is Some);
    let p = parent->0;
    let (i, j) = choose|i: int, j: int|
        #[trigger] final_component(sep, target, i, j) && cut_before(sep, target, i, p.len() as int);
    law_final_component_holds_the_name(sep, target, leaf, i, j);
    assert(i == middle + 1);
    let k = p.len() as int;
    assert(target[middle - 1] == dir.last());
    if k < middle {
        assert(!idle(sep, target, k, i));
    }
    if k == middle + 1 {
        assert(idle(sep, target, middle, i));
        assert(false);
    }
    assert(p =~= dir);
}

/// A plain name put under a directory, where it is no part of a prefix, is the
/// file name of the resulting path; and the directory is its parent, unless it
/// ends in a separator or a dot or is a root without its separator.
pub proof fn law_joined_path_is_taken_apart(sep: char, dir: Seq<char>, name: Seq<char>)
    requires
        is_separator(sep),
        plain_name(name),
        name.last() != '.',
        prefix_len(sep, joined(sep, dir, name)) <= dir.len(),
    ensures
        file_name_under(sep, joined(sep, dir, name), Some(name)),
        dir.len() > 0 && !separates(sep, dir.last()) && dir.last() != '.' && root_len(
            sep,
            joined(sep, dir, name),
        ) <= dir.len() ==> parent_under(sep, joined(sep, dir, name), Some(dir)),
{
    let path = joined(sep, dir, name);
    let start = path.len() - name.len();
    lemma_prefix_len_bounds(sep, path);
    assert forall|k: int| start <= k < path.len() implies !separates(sep, #[trigger] path[k]) by {
        assert(path[k] == name[k - start]);
    }
    assert(path.last() == name.last());
    if start > 0 {
        assert(path[start - 1] == dir.last() || path[start - 1] == sep);
    }
    if sep == '\\' && bare_drive(dir) {
        assert(path.take(2) =~= dir);
        assert(!network(path));
    }
    assert(final_component(sep, path, start, path.len() as int));
    assert(path.subrange(start, path.len() as int) =~= name);
    if dir.len() > 0 && !separates(sep, dir.last()) && dir.last() != '.' && root_len(sep, path) <= dir.len() {
        let k = dir.len() as int;
        assert(path[k - 1] == dir.last());
        assert(!separates(sep, path[k - 1]) && path[k - 1] != '.');
        assert(idle(sep, path, k, start));
        assert(k == root_len(sep, path) || !idle(sep, path, k - 1, start));
        assert(cut_before(sep, path, start, k));
        assert(path.take(k) =~= dir);
    }
}

/// A directory that has nothing to be tidied up still has nothing when a plain
/// name that does not start with a dot is put under it.
pub proof fn law_joining_keeps_a_directory_tidy(sep: char, dir: Seq<char>, name: Seq<char>)
    requires
        is_separator(sep),
        tidy_verbatim(dir),
        plain_name(name),
        name[0] != '.',
    ensures
        tidy_verbatim(joined(sep, dir, name)),
{
    let path = joined(sep, dir, name);
    let n = dir.len() as int;
    let start = path.len() - name.len();
    assert forall|k: int| 0 <= k < n implies #[trigger] path[k] == dir[k] by {}
    assert forall|k: int| start <= k < path.len() implies #[trigger] path[k] == name[k - start] by {}
    assert(path.last() == name.last());
    if unc_mark(path) {
        assert(path.len() > 8);
    }
    assert forall|k: int| 4 <= k < path.len() implies !(#[trigger] path[k] == '\\' && path[k - 1] == '\\')
        && !dots_at(path, k) by {
        if k < n {
            assert(path[k - 1] == dir[k - 1]);
            assert(!dots_at(dir, k));
        } else if k == start {
            assert(path[k] == name[0]);
        } else if k > start {
            assert(path[k - 1] == name[k - 1 - start]);
        } else {
            assert(path[k] == sep && path[k - 1] == dir.last());
        }
    }
}

/// A text behind the last `\` of a path does not move that `\`.
proof fn lemma_last_backslash_of_sum(path: Seq<char>, more: Seq<char>)
    requires
        forall|k: int| 0 <= k < more.len() ==> #[trigger] more[k] != '\\',
    ensures
        last_backslash(path + more) == last_backslash(path),
    decreases more.len(),
{
    if more.len() == 0 {
        assert(path + more =~= path);
    } else {
        let less = more.drop_last();
        assert forall|k: int| 0 <= k < less.len() implies #[trigger] less[k] != '\\' by {
            assert(less[k] == more[k]);
        }
        assert((path + more).last() == more.last());
        assert((path + more).drop_last() =~= path + less);
        lemma_last_backslash_of_sum(path, less);
    }
}

/// A plain name without dots in front, put under a directory without `..`, brings
/// none in.
proof fn lemma_joining_brings_in_no_dots(sep: char, dir: Seq<char>, name: Seq<char>)
    requires
        is_separator(sep),
        plain_name(name),
        name[0] != '.',
        dir.len() > 0,
        !segments(dir).contains(seq!['.', '.']),
    ensures
        !segments(joined(sep, dir, name)).contains(seq!['.', '.']),
{
    let path = joined(sep, dir, name);
    let two = seq!['.', '.'];
    let more = if path.len() == dir.len() + name.len() {
        name
    } else {
        seq![sep] + name
    };
    assert(path =~= dir + more);
    assert forall|k: int| 0 <= k < name.len() implies #[trigger] name[k] != '\\' by {}
    lemma_last_backslash_bounds(dir);
    lemma_last_backslash_bounds(path);
    let cut = last_backslash(dir);
    if more.len() > name.len() && sep == '\\' {
        assert(path =~= dir.push(sep) + name);
        lemma_last_backslash_of_sum(dir.push(sep), name);
        assert(last_backslash(path) == dir.len());
        assert(path.take(dir.len() as int) =~= dir);
        assert(path.skip((dir.len() + 1) as int) =~= name);
        assert(name != two) by {
            assert(two[0] == '.');
        }
        lemma_push_brings_in_nothing(segments(dir), name, two);
    } else {
        assert forall|k: int| 0 <= k < more.len() implies #[trigger] more[k] != '\\' by {
            if more.len() > name.len() && k > 0 {
                assert(more[k] == name[k - 1]);
            }
        }
        lemma_last_backslash_of_sum(dir, more);
        let tail = path.skip(cut + 1);
        let old_tail = dir.skip(cut + 1);
        assert(tail =~= old_tail + more);
        let front = if cut < 0 {
            Seq::empty()
        } else {
            segments(path.take(cut))
        };
        if cut >= 0 {
            assert(path.take(cut) =~= dir.take(cut));
        }
        assert(!front.contains(two)) by {
            if front.contains(two) {
                let i = choose|i: int| 0 <= i < front.len() && front[i] == two;
                assert(segments(dir)[i] == two);
            }
        }
        assert(tail != two) by {
            if tail == two {
                assert(two[1] == '.' && two[0] == '.');
                if old_tail.len() == 0 {
                    assert(tail =~= more);
                    assert(more[0] == two[0]);
                } else {
                    assert(tail[old_tail.len() as int] == more[0]);
                    assert(more[0] == '.');
                }
            }
        }
        lemma_push_brings_in_nothing(front, tail, two);
    }
}

/// Appending something else brings nothing in.
proof fn lemma_push_brings_in_nothing(list: Seq<Seq<char>>, item: Seq<char>, wanted: Seq<char>)
    requires
        !list.contains(wanted),
        item != wanted,
    ensures
        !list.push(item).contains(wanted),
{
    if list.push(item).contains(wanted) {
        let i = choose|i: int| 0 <= i < list.push(item).len() && list.push(item)[i] == wanted;
        if i < list.len() {
            assert(list[i] == wanted);
        }
    }
}

/// A verbatim drive and no more has two segments.
proof fn lemma_segments_of_verbatim_drive(dir: Seq<char>)
    requires
        verbatim(dir),
        dir.len() == 6,
        bare_drive(dir.subrange(4, 6)),
    ensures
        segments(dir).len() <= 2,
{
    assert(dir[4] == dir.subrange(4, 6)[0] && dir[5] == dir.subrange(4, 6)[1]);
    reveal_with_fuel(last_backslash, 4);
    reveal_with_fuel(segments, 5);
    assert(last_backslash(dir) == 3);
    let a = dir.take(3);
    assert(last_backslash(a) == 1);
    let b = a.take(1);
    assert(last_backslash(b) == 0);
    assert(b.take(0).len() == 0);
    assert(last_backslash(b.take(0)) == -1);
    assert(segments(b.take(0)) =~= Seq::<Seq<char>>::empty());
    assert(segments(b) =~= Seq::<Seq<char>>::empty());
}

/// A name put under a verbatim directory that was written anew, with more than one
/// name behind the mark, gives again a directory of which it is claimed where a name put under
/// it stands.
pub proof fn law_joining_keeps_a_directory_rewritable(
    sep: char,
    dir: Seq<char>,
    as_written: Seq<char>,
    name: Seq<char>,
)
    requires
        is_separator(sep),
        rewritable(dir),
        segments(dir).len() > 2,
        rewritten(dir, as_written),
        plain_name(name),
        name[0] != '.',
    ensures
        rewritable(joined(sep, as_written, name)),
{
    let path = joined(sep, as_written, name);
    let n = as_written.len() as int;
    assert forall|k: int| 0 <= k < n implies #[trigger] path[k] == as_written[k] by {}
    lemma_joining_brings_in_no_dots(sep, as_written, name);
    if slash_behind_drive(path) {
        assert(path.subrange(4, 6)[0] == path[4] && path.subrange(4, 6)[1] == path[5]);
        if n > 6 {
            assert(as_written.subrange(4, 6) =~= path.subrange(4, 6));
        } else if n == 6 {
            assert(as_written.subrange(4, 6) =~= path.subrange(4, 6));
            lemma_segments_of_verbatim_drive(as_written);
        } else if n == 5 {
            assert(path[5] == sep || path[5] == name[0]);
        } else {
            assert(path[4] == name[0] || path[4] == sep);
            assert(path[5] == name[0] || path[5] == name[1]);
        }
    }
}

} // verus!
