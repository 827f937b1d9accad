//! Where the files of an operation stand.
use crate::paths;
use crate::plan::JOURNAL_DIR_NAME;
use crate::plan::OWNERSHIP_MARKER_PREFIX;
use crate::stamp;
use crate::text;
use vstd::prelude::*;

verus! {

/// An ASCII letter or digit.
pub open spec fn letter_or_digit(c: char) -> bool {
    'a' <= c <= 'z' || 'A' <= c <= 'Z' || '0' <= c <= '9'
}

/// The ASCII letters and digits of a text, in order.
pub open spec fn letters_and_digits(seed: Seq<char>) -> Seq<char> {
    seed.filter(|c: char| letter_or_digit(c))
}

/// At most the first twelve of a run of characters.
pub open spec fn first_twelve(s: Seq<char>) -> Seq<char> {
    if s.len() <= 12 {
        s
    } else {
        s.take(12)
    }
}

/// The part of an identifier that file names carry: its first twelve ASCII
/// letters and digits, in small letters.
pub open spec fn fragment_of(seed: Seq<char>) -> Seq<char> {
    first_twelve(letters_and_digits(seed)).map_values(|c: char| text::ascii_lower(c))
}

/// Tells an ASCII letter or digit.
fn is_letter_or_digit(c: char) -> (yes: bool)
    ensures
        yes == letter_or_digit(c),
{
    ('a' <= c && c <= 'z') || ('A' <= c && c <= 'Z') || ('0' <= c && c <= '9')
}

proof fn lemma_filter_step(s: Seq<char>, i: int)
    requires
        0 <= i < s.len(),
    ensures
        letters_and_digits(s.take(i + 1)) == if letter_or_digit(s[i]) {
            letters_and_digits(s.take(i)).push(s[i])
        } else {
            letters_and_digits(s.take(i))
        },
{
    reveal(Seq::filter);
    assert(s.take(i + 1).drop_last() =~= s.take(i));
    assert(s.take(i + 1).last() == s[i]);
}

/// Every character that the filter keeps is a letter or digit.
proof fn lemma_filter_keeps_letters_and_digits(s: Seq<char>)
    ensures
        forall|i: int|
            0 <= i < letters_and_digits(s).len() ==> letter_or_digit(#[trigger] letters_and_digits(s)[i]),
    decreases s.len(),
{
    reveal(Seq::filter);
    if s.len() > 0 {
        lemma_filter_keeps_letters_and_digits(s.drop_last());
    }
}

/// The part of an identifier that file names carry.
pub fn operation_fragment(seed: &str) -> (fragment: String)
    ensures
        fragment@ == fragment_of(seed@),
{
    let mut kept = String::new();
    let mut count: usize = 0;
    assert(letters_and_digits(seed@.take(0)) =~= Seq::<char>::empty()) by {
        reveal(Seq::filter);
    }
    for c in it: seed.chars()
        invariant
            it.seq() == seed@,
            kept@ == first_twelve(letters_and_digits(seed@.take(it.index() as int))),
            count == kept@.len(),
            count <= 12,
    {
        proof {
            lemma_filter_step(seed@, it.index() as int);
        }
        if count < 12 && is_letter_or_digit(c) {
            kept.push(c);
            count = count + 1;
        }
        proof {
            let before = letters_and_digits(seed@.take(it.index() as int));
            let after = letters_and_digits(seed@.take(it.index() + 1));
            if before.len() < 12 {
                assert(kept@ =~= first_twelve(after));
            } else {
                assert(first_twelve(after) =~= first_twelve(before));
            }
        }
    }
    assert(seed@.take(seed@.len() as int) =~= seed@);
    proof {
        lemma_filter_keeps_letters_and_digits(seed@);
        assert forall|i: int| 0 <= i < kept@.len() implies (#[trigger] kept@[i]) <= '\u{7f}' by {
            assert(kept@[i] == letters_and_digits(seed@)[i]);
        }
        assert(text::all_ascii(kept@));
    }
    kept.as_str().to_lowercase()
}

/// The file name of an operation's journal.
pub open spec fn journal_file_name(operation_id: Seq<char>) -> Seq<char> {
    "store-create-"@ + fragment_of(operation_id) + ".json"@
}

/// The file name of an operation's ownership markers.
pub open spec fn marker_file_name(operation_id: Seq<char>) -> Seq<char> {
    OWNERSHIP_MARKER_PREFIX@ + "-"@ + fragment_of(operation_id) + ".marker"@
}

/// The file name of an operation's archive.
pub open spec fn archive_file_name(operation_id: Seq<char>) -> Seq<char> {
    "wsl_store_create_"@ + fragment_of(operation_id) + ".tar"@
}

/// Whether `path` is where the journal of an operation stands: in the journal
/// directory below `base_dir`.
pub open spec fn journal_location(base_dir: Seq<char>, operation_id: Seq<char>, path: Seq<char>) -> bool {
    exists|dir: Seq<char>|
        #[trigger] paths::join_outcome(base_dir, JOURNAL_DIR_NAME@, dir) && paths::join_outcome(
            dir,
            journal_file_name(operation_id),
            path,
        )
}

/// The directory that holds the journals.
pub fn journal_dir(base_dir: &str) -> (dir: String)
    ensures
        paths::join_outcome(base_dir@, JOURNAL_DIR_NAME@, dir@),
{
    paths::path_join(base_dir, JOURNAL_DIR_NAME)
}

/// Where the journal of an operation stands.
pub fn journal_path(base_dir: &str, operation_id: &str) -> (path: String)
    ensures
        journal_location(base_dir@, operation_id@, path@),
{
    let dir = journal_dir(base_dir);
    let mut name = "store-create-".to_owned();
    name.append(operation_fragment(operation_id).as_str());
    name.append(".json");
    paths::path_join(dir.as_str(), name.as_str())
}

/// Where the marker stands that shows an installation path to belong to an
/// operation.
pub fn ownership_marker_path(install_path: &str, operation_id: &str) -> (path: String)
    ensures
        paths::join_outcome(install_path@, marker_file_name(operation_id@), path@),
{
    let mut name = OWNERSHIP_MARKER_PREFIX.to_owned();
    name.append("-");
    name.append(operation_fragment(operation_id).as_str());
    name.append(".marker");
    paths::path_join(install_path, name.as_str())
}

/// The directory for the archive, given the parent of the target path: the
/// current directory for a blank target, the target itself where its parent is
/// missing or empty.
pub open spec fn archive_dir(target_path: Seq<char>, parent: Option<Seq<char>>) -> Seq<char> {
    if text::blank(target_path) {
        "."@
    } else if parent is Some && parent->0.len() > 0 {
        parent->0
    } else {
        target_path
    }
}

/// The directory for the archive, given the parent of the target path.
pub fn archive_dir_from(target_path: &str, parent: Option<String>) -> (dir: String)
    ensures
        dir@ == archive_dir(target_path@, text::opt_view(parent)),
{
    if text::is_blank(target_path) {
        return ".".to_owned();
    }
    match parent {
        Some(parent) => {
            if parent.as_str().is_empty() {
                target_path.to_owned()
            } else {
                parent
            }
        },
        None => target_path.to_owned(),
    }
}

/// Whether `dir` is where the archive for a target path goes: next to the
/// target.
pub open spec fn archive_dir_outcome(target_path: Seq<char>, dir: Seq<char>) -> bool {
    exists|parent: Option<Seq<char>>|
        #[trigger] paths::parent_outcome(target_path, parent) && dir == archive_dir(target_path, parent)
}

/// The directory for the archive.
pub fn parent_dir_for(target_path: &str) -> (dir: String)
    ensures
        archive_dir_outcome(target_path@, dir@),
{
    let parent = paths::path_parent(target_path);
    archive_dir_from(target_path, parent)
}

/// Whether `path` is where the archive of an operation goes.
pub open spec fn archive_location(target_path: Seq<char>, operation_id: Seq<char>, path: Seq<char>) -> bool {
    exists|dir: Seq<char>|
        #[trigger] archive_dir_outcome(target_path, dir) && paths::join_outcome(
            dir,
            archive_file_name(operation_id),
            path,
        )
}

/// Where the archive goes that a seed is exported to and the target imported
/// from.
pub fn archive_path_for(target_path: &str, operation_id: &str) -> (path: String)
    ensures
        archive_location(target_path@, operation_id@, path@),
{
    let dir = parent_dir_for(target_path);
    let mut name = "wsl_store_create_".to_owned();
    name.append(operation_fragment(operation_id).as_str());
    name.append(".tar");
    paths::path_join(dir.as_str(), name.as_str())
}

/// The characters of a fragment are small ASCII letters and digits, at most
/// twelve of them.
pub proof fn law_fragment_shape(seed: Seq<char>)
    ensures
        fragment_of(seed).len() <= 12,
        forall|i: int|
            0 <= i < fragment_of(seed).len() ==> {
                let c = #[trigger] fragment_of(seed)[i];
                'a' <= c <= 'z' || '0' <= c <= '9'
            },
{
    lemma_filter_keeps_letters_and_digits(seed);
    assert forall|i: int| 0 <= i < fragment_of(seed).len() implies {
        let c = #[trigger] fragment_of(seed)[i];
        'a' <= c <= 'z' || '0' <= c <= '9'
    } by {
        assert(letter_or_digit(letters_and_digits(seed)[i]));
        assert(fragment_of(seed)[i] == text::ascii_lower(letters_and_digits(seed)[i]));
    }
}

/// A text of letters and digits goes through the filter unchanged.
proof fn lemma_filter_all(s: Seq<char>)
    requires
        forall|i: int| 0 <= i < s.len() ==> letter_or_digit(#[trigger] s[i]),
    ensures
        letters_and_digits(s) == s,
    decreases s.len(),
{
    reveal(Seq::filter);
    if s.len() > 0 {
        let front = s.drop_last();
        assert forall|i: int| 0 <= i < front.len() implies letter_or_digit(#[trigger] front[i]) by {
            assert(front[i] == s[i]);
        }
        lemma_filter_all(front);
        assert(s =~= front.push(s.last()));
    }
}

/// Taking the fragment of a fragment changes nothing.
pub proof fn law_fragment_idempotent(seed: Seq<char>)
    ensures
        fragment_of(fragment_of(seed)) == fragment_of(seed),
{
    law_fragment_shape(seed);
    lemma_filter_all(fragment_of(seed));
    assert(fragment_of(fragment_of(seed)) =~= fragment_of(seed));
}

/// A fragment between two fixed texts without separators and colons makes a name
/// without them.
proof fn lemma_plain_around_fragment(front: Seq<char>, operation_id: Seq<char>, back: Seq<char>)
    requires
        paths::plain_name(front),
        paths::plain_name(back),
        front.len() > 2,
    ensures
        paths::plain_name(front + fragment_of(operation_id) + back),
        !paths::dots(front + fragment_of(operation_id) + back),
        (front + fragment_of(operation_id) + back).last() == back.last(),
        (front + fragment_of(operation_id) + back)[0] == front[0],
{
    law_fragment_shape(operation_id);
    let f = fragment_of(operation_id);
    let name = front + f + back;
    assert forall|i: int| 0 <= i < name.len() implies !paths::is_separator(#[trigger] name[i]) && name[i] != ':' by {
        if i < front.len() {
            assert(name[i] == front[i]);
        } else if i < front.len() + f.len() {
            assert(name[i] == f[i - front.len()]);
        } else {
            assert(name[i] == back[i - front.len() - f.len()]);
        }
    }
    assert(name.len() > 2 && seq!['.'].len() == 1 && seq!['.', '.'].len() == 2);
}

/// The name of the journal directory is plain.
proof fn lemma_journal_dir_name()
    ensures
        paths::plain_name(JOURNAL_DIR_NAME@),
        !paths::dots(JOURNAL_DIR_NAME@),
        JOURNAL_DIR_NAME@.last() == 's',
        JOURNAL_DIR_NAME@[0] == 'o',
        JOURNAL_DIR_NAME@.len() == 10,
{
    reveal_strlit("operations");
}

/// The name of a journal is plain.
proof fn lemma_journal_name(operation_id: Seq<char>)
    ensures
        paths::plain_name(journal_file_name(operation_id)),
        !paths::dots(journal_file_name(operation_id)),
        journal_file_name(operation_id).last() == 'n',
{
    reveal_strlit("store-create-");
    reveal_strlit(".json");
    lemma_plain_around_fragment("store-create-"@, operation_id, ".json"@);
}

/// The name of a marker is plain.
proof fn lemma_marker_name(operation_id: Seq<char>)
    ensures
        paths::plain_name(marker_file_name(operation_id)),
        !paths::dots(marker_file_name(operation_id)),
        marker_file_name(operation_id).last() == 'r',
{
    reveal_strlit(".wsl-dashboard-store-create");
    reveal_strlit("-");
    reveal_strlit(".marker");
    lemma_plain_around_fragment(OWNERSHIP_MARKER_PREFIX@ + "-"@, operation_id, ".marker"@);
}

/// The name of an archive is plain.
proof fn lemma_archive_name(operation_id: Seq<char>)
    ensures
        paths::plain_name(archive_file_name(operation_id)),
        !paths::dots(archive_file_name(operation_id)),
        archive_file_name(operation_id).last() == 'r',
{
    reveal_strlit("wsl_store_create_");
    reveal_strlit(".tar");
    lemma_plain_around_fragment("wsl_store_create_"@, operation_id, ".tar"@);
}

/// The names of an operation's files are plain under both conventions, and none
/// of them is `.` or `..` or ends in a dot.
pub proof fn law_file_names_are_plain(operation_id: Seq<char>)
    ensures
        paths::plain_name(JOURNAL_DIR_NAME@),
        !paths::dots(JOURNAL_DIR_NAME@),
        JOURNAL_DIR_NAME@.last() != '.',
        JOURNAL_DIR_NAME@[0] != '.',
        paths::plain_name(journal_file_name(operation_id)),
        !paths::dots(journal_file_name(operation_id)),
        journal_file_name(operation_id).last() != '.',
        paths::plain_name(marker_file_name(operation_id)),
        !paths::dots(marker_file_name(operation_id)),
        marker_file_name(operation_id).last() != '.',
        paths::plain_name(archive_file_name(operation_id)),
        !paths::dots(archive_file_name(operation_id)),
        archive_file_name(operation_id).last() != '.',
{
    lemma_journal_dir_name();
    lemma_journal_name(operation_id);
    lemma_marker_name(operation_id);
    lemma_archive_name(operation_id);
}

/// Where a directory can be joined to, so can the journal directory below it.
proof fn lemma_journal_dir_is_joinable(base_dir: Seq<char>, dir: Seq<char>)
    requires
        paths::joinable(base_dir),
        paths::placed(base_dir, JOURNAL_DIR_NAME@, dir),
    ensures
        paths::joinable(dir),
{
    lemma_journal_dir_name();
    let sep = choose|sep: char|
        paths::is_separator(sep) && dir == #[trigger] paths::joined(sep, base_dir, JOURNAL_DIR_NAME@);
    if paths::marked(base_dir) {
        paths::law_joining_keeps_a_directory_tidy(sep, base_dir, JOURNAL_DIR_NAME@);
    } else {
        lemma_journal_dir_adds_no_mark(sep, base_dir);
    }
}

/// What is not marked does not become so by the journal directory put under it.
proof fn lemma_journal_dir_adds_no_mark(sep: char, base_dir: Seq<char>)
    requires
        paths::is_separator(sep),
        !paths::marked(base_dir),
    ensures
        !paths::marked(paths::joined(sep, base_dir, JOURNAL_DIR_NAME@)),
{
    lemma_journal_dir_name();
    let dir = paths::joined(sep, base_dir, JOURNAL_DIR_NAME@);
    let n = base_dir.len() as int;
    assert forall|k: int| 0 <= k < n implies #[trigger] dir[k] == base_dir[k] by {}
    assert(dir.len() >= n + 10);
    assert(dir[n] == sep || dir[n] == 'o');
    if n < 2 {
        assert(dir[n] == 'o' || dir[n + 1] == 'o');
        if n == 0 {
            assert(dir[0] == 'o');
        }
    }
}

/// What ends with the name of a journal ends with `.json`, and not with
/// `instances.toml`.
proof fn lemma_journal_name_ending(operation_id: Seq<char>, path: Seq<char>)
    requires
        paths::ends_with(path, journal_file_name(operation_id)),
    ensures
        paths::ends_with(path, ".json"@),
        !paths::ends_with(path, "instances.toml"@),
{
    reveal_strlit(".json");
    reveal_strlit("instances.toml");
    let name = journal_file_name(operation_id);
    let whole = path.skip(path.len() - name.len());
    assert(name.skip(name.len() - 5) =~= ".json"@);
    assert(path.skip(path.len() - 5) =~= whole.skip(name.len() - 5));
    if paths::ends_with(path, "instances.toml"@) {
        assert(path.skip(path.len() - 14)[13] == path.skip(path.len() - 5)[4]);
    }
}

/// Whether `path` is a journal's file in the journal directory below `base_dir`.
pub open spec fn in_journal_dir(base_dir: Seq<char>, operation_id: Seq<char>, path: Seq<char>) -> bool {
    exists|dir: Seq<char>|
        #[trigger] paths::placed(base_dir, JOURNAL_DIR_NAME@, dir) && paths::placed(
            dir,
            journal_file_name(operation_id),
            path,
        )
}

/// Whether `path` is a journal's file in the journal directory below a verbatim
/// `base_dir`, with the directories written anew.
pub open spec fn in_rewritten_journal_dir(base_dir: Seq<char>, operation_id: Seq<char>, path: Seq<char>) -> bool {
    exists|base: Seq<char>, dir: Seq<char>, as_written: Seq<char>|
        #[trigger] paths::rewritten(base_dir, base) && #[trigger] paths::rewritten(dir, as_written)
            && paths::placed(base, JOURNAL_DIR_NAME@, dir) && paths::placed(
            as_written,
            journal_file_name(operation_id),
            path,
        )
}

/// A journal stands in the journal directory, bears the fragment of its
/// operation in its name, and is kept apart from `instances.toml`. Below a verbatim
/// directory that has something to be tidied up, the directories are written anew.
/// (With a `..` in such a directory, or a `/` right behind its drive, or a single
/// name behind its mark, only the name is known.)
pub proof fn law_journal_location(base_dir: Seq<char>, operation_id: Seq<char>, path: Seq<char>)
    requires
        journal_location(base_dir, operation_id, path),
    ensures
        paths::ends_with(path, journal_file_name(operation_id)),
        paths::ends_with(path, ".json"@),
        !paths::ends_with(path, "instances.toml"@),
        paths::joinable(base_dir) ==> in_journal_dir(base_dir, operation_id, path),
        paths::joinable(base_dir) ==> text::occurs(JOURNAL_DIR_NAME@, path),
        paths::rewritable(base_dir) && paths::segments(base_dir).len() > 2 ==> in_rewritten_journal_dir(
            base_dir,
            operation_id,
            path,
        ),
{
    let name = journal_file_name(operation_id);
    let dir = choose|dir: Seq<char>|
        #[trigger] paths::join_outcome(base_dir, JOURNAL_DIR_NAME@, dir) && paths::join_outcome(dir, name, path);
    lemma_journal_name(operation_id);
    lemma_journal_name_ending(operation_id, path);
    if paths::rewritable(base_dir) && paths::segments(base_dir).len() > 2 {
        lemma_rewritten_journal_dir(base_dir, operation_id, dir, path);
    }
    if paths::joinable(base_dir) {
        lemma_journal_in_its_directory(base_dir, operation_id, dir, path);
    }
}

/// A journal below a directory that can be joined to.
proof fn lemma_journal_in_its_directory(
    base_dir: Seq<char>,
    operation_id: Seq<char>,
    dir: Seq<char>,
    path: Seq<char>,
)
    requires
        paths::joinable(base_dir),
        paths::join_outcome(base_dir, JOURNAL_DIR_NAME@, dir),
        paths::join_outcome(dir, journal_file_name(operation_id), path),
    ensures
        in_journal_dir(base_dir, operation_id, path),
        text::occurs(JOURNAL_DIR_NAME@, path),
{
    lemma_journal_dir_name();
    lemma_journal_name(operation_id);
    let name = journal_file_name(operation_id);
    assert(paths::placed(base_dir, JOURNAL_DIR_NAME@, dir));
    lemma_journal_dir_is_joinable(base_dir, dir);
    assert(paths::placed(dir, name, path));
    let sep = choose|sep: char|
        paths::is_separator(sep) && dir == #[trigger] paths::joined(sep, base_dir, JOURNAL_DIR_NAME@);
    let sep2 = choose|sep: char|
        paths::is_separator(sep) && path == #[trigger] paths::joined(sep, dir, name);
    let at = dir.len() - JOURNAL_DIR_NAME@.len();
    assert(path.subrange(at, at + JOURNAL_DIR_NAME@.len()) =~= JOURNAL_DIR_NAME@);
    assert(text::occurs_at(JOURNAL_DIR_NAME@, path, at));
}

/// A journal below a verbatim directory that is written anew.
proof fn lemma_rewritten_journal_dir(
    base_dir: Seq<char>,
    operation_id: Seq<char>,
    dir: Seq<char>,
    path: Seq<char>,
)
    requires
        paths::rewritable(base_dir),
        paths::segments(base_dir).len() > 2,
        paths::join_outcome(base_dir, JOURNAL_DIR_NAME@, dir),
        paths::join_outcome(dir, journal_file_name(operation_id), path),
    ensures
        in_rewritten_journal_dir(base_dir, operation_id, path),
{
    lemma_journal_dir_name();
    lemma_journal_name(operation_id);
    let name = journal_file_name(operation_id);
    let base = choose|base: Seq<char>|
        #[trigger] paths::rewritten(base_dir, base) && paths::placed(base, JOURNAL_DIR_NAME@, dir);
    let sep = choose|sep: char|
        paths::is_separator(sep) && dir == #[trigger] paths::joined(sep, base, JOURNAL_DIR_NAME@);
    paths::law_joining_keeps_a_directory_rewritable(sep, base_dir, base, JOURNAL_DIR_NAME@);
    let as_written = choose|as_written: Seq<char>|
        #[trigger] paths::rewritten(dir, as_written) && paths::placed(as_written, name, path);
    assert(paths::rewritten(base_dir, base) && paths::rewritten(dir, as_written));
}

/// An ownership marker is scoped to its operation and to the path it marks: its
/// name holds the marker prefix and the operation's fragment and ends in
/// `.marker`, and it stands under the path; where that is a verbatim one that has
/// something to be tidied up, under the path written anew. (With a `..` in such a
/// path, or a `/` right behind its drive, only the name is known.)
pub proof fn law_marker_location(install_path: Seq<char>, operation_id: Seq<char>, path: Seq<char>)
    requires
        paths::join_outcome(install_path, marker_file_name(operation_id), path),
    ensures
        paths::ends_with(path, ".marker"@),
        text::occurs(OWNERSHIP_MARKER_PREFIX@, path),
        text::occurs(fragment_of(operation_id), path),
        paths::joinable(install_path) ==> paths::placed(install_path, marker_file_name(operation_id), path),
        paths::rewritable(install_path) ==> exists|as_written: Seq<char>|
            #[trigger] paths::rewritten(install_path, as_written) && paths::placed(
                as_written,
                marker_file_name(operation_id),
                path,
            ),
{
    lemma_marker_name(operation_id);
    reveal_strlit(".wsl-dashboard-store-create");
    reveal_strlit("-");
    reveal_strlit(".marker");
    let f = fragment_of(operation_id);
    let name = marker_file_name(operation_id);
    let start = path.len() - name.len();
    assert(path.skip(start) == name);
    assert forall|k: int| 0 <= k < name.len() implies #[trigger] path[start + k] == name[k] by {
        assert(path.skip(start)[k] == name[k]);
    }
    assert(path.skip(path.len() - 7) =~= ".marker"@) by {
        assert forall|k: int| 0 <= k < 7 implies path.skip(path.len() - 7)[k] == ".marker"@[k] by {
            assert(path[start + (name.len() - 7 + k)] == name[name.len() - 7 + k]);
        }
    }
    assert(path.subrange(start, start + 27) =~= OWNERSHIP_MARKER_PREFIX@) by {
        assert forall|k: int| 0 <= k < 27 implies path.subrange(start, start + 27)[k] == OWNERSHIP_MARKER_PREFIX@[k] by {
            assert(path[start + k] == name[k]);
        }
    }
    assert(text::occurs_at(OWNERSHIP_MARKER_PREFIX@, path, start));
    assert(path.subrange(start + 28, start + 28 + f.len()) =~= f) by {
        assert forall|k: int| 0 <= k < f.len() implies path.subrange(start + 28, start + 28 + f.len())[k] == f[k] by {
            assert(path[start + (28 + k)] == name[28 + k]);
        }
    }
    assert(text::occurs_at(f, path, start + 28));
}

/// The archive stands next to the target: for a target path that is a name in a
/// directory, with `/` between them, it goes to that directory. (Left out are a
/// directory that ends in a separator or a dot or is a root without its
/// separator, where the parent is written differently, and verbatim directories,
/// in which `/` separates nothing.)
pub proof fn law_archive_stands_next_to_the_target(
    dir: Seq<char>,
    leaf: Seq<char>,
    operation_id: Seq<char>,
    archive: Seq<char>,
)
    requires
        dir.len() > 0,
        !paths::is_separator(dir.last()),
        dir.last() != '.',
        paths::plain_name(leaf),
        leaf.last() != '.',
        paths::covered(dir + seq!['/'] + leaf),
        paths::root_len('/', dir + seq!['/'] + leaf) <= dir.len(),
        paths::root_len('\\', dir + seq!['/'] + leaf) <= dir.len(),
        archive_location(dir + seq!['/'] + leaf, operation_id, archive),
    ensures
        paths::placed(dir, archive_file_name(operation_id), archive),
{
    let target = dir + seq!['/'] + leaf;
    let found = choose|found: Seq<char>|
        #[trigger] archive_dir_outcome(target, found) && paths::join_outcome(
            found,
            archive_file_name(operation_id),
            archive,
        );
    let parent = choose|parent: Option<Seq<char>>|
        #[trigger] paths::parent_outcome(target, parent) && found == archive_dir(target, parent);
    let sep = choose|sep: char| paths::is_separator(sep) && #[trigger] paths::parent_under(sep, target, parent);
    paths::law_parent_of_a_name_in_a_directory(sep, dir, '/', leaf, parent);
    assert(target[dir.len() as int] == '/');
    assert forall|k: int| 0 <= k < dir.len() implies #[trigger] target[k] == dir[k] by {}
    assert(!paths::marked(dir));
    lemma_archive_name(operation_id);
}

/// Whether `path` is where the archive of an operation goes on a machine whose
/// separator is `sep`.
pub open spec fn archive_location_under(
    sep: char,
    target_path: Seq<char>,
    operation_id: Seq<char>,
    path: Seq<char>,
) -> bool {
    exists|parent: Option<Seq<char>>|
        #[trigger] paths::parent_under(sep, target_path, parent) && path == paths::joined(
            sep,
            archive_dir(target_path, parent),
            archive_file_name(operation_id),
        )
}

/// On one machine the place of an archive is determined by the target path and
/// the fragment of the operation, and it stands next to the target: for a name in
/// a directory, with a character between them that separates there, it goes to
/// that directory.
pub proof fn law_archive_on_one_machine(
    sep: char,
    dir: Seq<char>,
    between: char,
    leaf: Seq<char>,
    operation_id: Seq<char>,
    archive: Seq<char>,
)
    requires
        paths::is_separator(sep),
        paths::separates(sep, between),
        dir.len() > 0,
        !paths::separates(sep, dir.last()),
        dir.last() != '.',
        paths::plain_name(leaf),
        leaf.last() != '.',
        paths::root_len(sep, dir + seq![between] + leaf) <= dir.len(),
        archive_location_under(sep, dir + seq![between] + leaf, operation_id, archive),
    ensures
        archive == paths::joined(sep, dir, archive_file_name(operation_id)),
{
    let target = dir + seq![between] + leaf;
    let parent = choose|parent: Option<Seq<char>>|
        #[trigger] paths::parent_under(sep, target, parent) && archive == paths::joined(
            sep,
            archive_dir(target, parent),
            archive_file_name(operation_id),
        );
    paths::law_parent_of_a_name_in_a_directory(sep, dir, between, leaf, parent);
    assert(!text::blank(target)) by {
        assert(target[dir.len() as int] == between);
    }
}

/// On one machine the archives of two operations for one target path stand at the
/// same place exactly where the fragments of the operations are the same.
pub proof fn law_one_archive_per_fragment(
    sep: char,
    target_path: Seq<char>,
    id_a: Seq<char>,
    path_a: Seq<char>,
    id_b: Seq<char>,
    path_b: Seq<char>,
)
    requires
        archive_location_under(sep, target_path, id_a, path_a),
        archive_location_under(sep, target_path, id_b, path_b),
    ensures
        path_a == path_b <==> fragment_of(id_a) == fragment_of(id_b),
{
    let a = choose|parent: Option<Seq<char>>|
        #[trigger] paths::parent_under(sep, target_path, parent) && path_a == paths::joined(
            sep,
            archive_dir(target_path, parent),
            archive_file_name(id_a),
        );
    let b = choose|parent: Option<Seq<char>>|
        #[trigger] paths::parent_under(sep, target_path, parent) && path_b == paths::joined(
            sep,
            archive_dir(target_path, parent),
            archive_file_name(id_b),
        );
    paths::law_parent_is_determined(sep, target_path, a, b);
    let dir = archive_dir(target_path, a);
    lemma_joined_is_injective(sep, dir, archive_file_name(id_a), archive_file_name(id_b));
    lemma_around_is_injective("wsl_store_create_"@, fragment_of(id_a), fragment_of(id_b), ".tar"@);
}

/// The place that an archive has on one machine is one that `archive_path_for`
/// can give.
pub proof fn law_archive_place_is_possible(
    sep: char,
    target_path: Seq<char>,
    operation_id: Seq<char>,
    path: Seq<char>,
)
    requires
        paths::is_separator(sep),
        archive_location_under(sep, target_path, operation_id, path),
    ensures
        archive_location(target_path, operation_id, path),
{
    let name = archive_file_name(operation_id);
    let parent = choose|parent: Option<Seq<char>>|
        #[trigger] paths::parent_under(sep, target_path, parent) && path == paths::joined(
            sep,
            archive_dir(target_path, parent),
            name,
        );
    let dir = archive_dir(target_path, parent);
    if parent is Some {
        let p = parent->0;
        let (i, j) = choose|i: int, j: int|
            #[trigger] paths::final_component(sep, target_path, i, j) && paths::cut_before(
                sep,
                target_path,
                i,
                p.len() as int,
            );
        assert(p.len() < target_path.len());
    }
    assert(paths::parent_outcome(target_path, parent));
    assert(archive_dir_outcome(target_path, dir));
    assert(path.skip(path.len() - name.len()) =~= name);
    assert(paths::rewritable(dir) ==> paths::rewritten(dir, dir));
    assert(paths::join_outcome(dir, name, path));
}

/// It does not matter for the place of an archive whether it is worked out for an
/// operation's identifier or for its fragment.
pub proof fn law_archive_of_a_fragment(target_path: Seq<char>, operation_id: Seq<char>, path: Seq<char>)
    ensures
        archive_location(target_path, fragment_of(operation_id), path) == archive_location(
            target_path,
            operation_id,
            path,
        ),
{
    law_fragment_idempotent(operation_id);
    assert(archive_file_name(fragment_of(operation_id)) == archive_file_name(operation_id));
}

/// An archive bears its own file name and stands in the directory that was chosen
/// for it, on a machine whose separator is `sep`. (Left out is a directory such as
/// `\\server`, below which the name is read as part of the prefix.)
pub proof fn law_archive_is_a_file_in_its_directory(sep: char, dir: Seq<char>, operation_id: Seq<char>)
    requires
        paths::is_separator(sep),
        paths::prefix_len(sep, paths::joined(sep, dir, archive_file_name(operation_id))) <= dir.len(),
    ensures
        ({
            let path = paths::joined(sep, dir, archive_file_name(operation_id));
            &&& paths::file_name_under(sep, path, Some(archive_file_name(operation_id)))
            &&& dir.len() > 0 && !paths::separates(sep, dir.last()) && dir.last() != '.' && paths::root_len(
                sep,
                path,
            ) <= dir.len() ==> paths::parent_under(sep, path, Some(dir))
        }),
{
    lemma_archive_name(operation_id);
    paths::law_joined_path_is_taken_apart(sep, dir, archive_file_name(operation_id));
}

/// Names put under one directory are the same where the paths are.
proof fn lemma_joined_is_injective(sep: char, dir: Seq<char>, a: Seq<char>, b: Seq<char>)
    ensures
        paths::joined(sep, dir, a) == paths::joined(sep, dir, b) <==> a == b,
{
    let start = paths::joined(sep, dir, a).len() - a.len();
    if paths::joined(sep, dir, a) == paths::joined(sep, dir, b) {
        assert(a =~= paths::joined(sep, dir, a).skip(start));
        assert(b =~= paths::joined(sep, dir, b).skip(start));
    }
}

/// What stands between two fixed texts is determined by the whole.
proof fn lemma_around_is_injective(front: Seq<char>, a: Seq<char>, b: Seq<char>, back: Seq<char>)
    ensures
        front + a + back == front + b + back <==> a == b,
{
    if front + a + back == front + b + back {
        assert((front + a + back).len() == front.len() + a.len() + back.len());
        assert((front + b + back).len() == front.len() + b.len() + back.len());
        assert(a =~= (front + a + back).subrange(front.len() as int, (front.len() + a.len()) as int));
        assert(b =~= (front + b + back).subrange(front.len() as int, (front.len() + b.len()) as int));
    }
}

/// Where the journal of an operation stands on a machine whose separator is
/// `sep`.
pub open spec fn journal_place(sep: char, base_dir: Seq<char>, operation_id: Seq<char>) -> Seq<char> {
    paths::joined(sep, paths::joined(sep, base_dir, JOURNAL_DIR_NAME@), journal_file_name(operation_id))
}

/// On one machine the journals of two operations below one directory stand at the
/// same place exactly where the fragments of the operations are the same.
pub proof fn law_one_journal_per_fragment(
    sep: char,
    base_dir: Seq<char>,
    id_a: Seq<char>,
    id_b: Seq<char>,
)
    ensures
        journal_place(sep, base_dir, id_a) == journal_place(sep, base_dir, id_b) <==> fragment_of(id_a)
            == fragment_of(id_b),
{
    let dir = paths::joined(sep, base_dir, JOURNAL_DIR_NAME@);
    lemma_joined_is_injective(sep, dir, journal_file_name(id_a), journal_file_name(id_b));
    lemma_around_is_injective("store-create-"@, fragment_of(id_a), fragment_of(id_b), ".json"@);
}

/// A name put under a directory is one of the outcomes of joining.
proof fn lemma_joined_is_an_outcome(sep: char, dir: Seq<char>, name: Seq<char>)
    requires
        paths::is_separator(sep),
    ensures
        paths::join_outcome(dir, name, paths::joined(sep, dir, name)),
{
    let path = paths::joined(sep, dir, name);
    assert(path.skip(path.len() - name.len()) =~= name);
    assert(paths::rewritable(dir) ==> paths::rewritten(dir, dir));
}

/// The place that a journal has on one machine is one that `journal_path` can
/// give, and operations with the same fragment can have the same places.
pub proof fn law_journal_place_is_possible(
    sep: char,
    base_dir: Seq<char>,
    operation_id: Seq<char>,
    other_id: Seq<char>,
    path: Seq<char>,
)
    requires
        paths::is_separator(sep),
    ensures
        journal_location(base_dir, operation_id, journal_place(sep, base_dir, operation_id)),
        fragment_of(operation_id) == fragment_of(other_id) ==> journal_location(base_dir, operation_id, path)
            == journal_location(base_dir, other_id, path),
{
    let dir = paths::joined(sep, base_dir, JOURNAL_DIR_NAME@);
    let name = journal_file_name(operation_id);
    lemma_joined_is_an_outcome(sep, base_dir, JOURNAL_DIR_NAME@);
    lemma_joined_is_an_outcome(sep, dir, name);
    assert(journal_file_name(operation_id) == "store-create-"@ + fragment_of(operation_id) + ".json"@);
    assert(journal_file_name(other_id) == "store-create-"@ + fragment_of(other_id) + ".json"@);
}

/// Operations whose fragments differ never share a journal, wherever the
/// journals stand.
pub proof fn law_journals_do_not_collide(
    base_a: Seq<char>,
    id_a: Seq<char>,
    path_a: Seq<char>,
    base_b: Seq<char>,
    id_b: Seq<char>,
    path_b: Seq<char>,
)
    requires
        journal_location(base_a, id_a, path_a),
        journal_location(base_b, id_b, path_b),
        fragment_of(id_a) != fragment_of(id_b),
    ensures
        path_a != path_b,
{
    law_journal_location(base_a, id_a, path_a);
    law_journal_location(base_b, id_b, path_b);
    if path_a == path_b {
        if fragment_of(id_a).len() <= fragment_of(id_b).len() {
            lemma_journal_name_suffix(id_a, id_b, path_a);
        } else {
            lemma_journal_name_suffix(id_b, id_a, path_a);
        }
    }
}

/// Two journal names that end the same path carry the same fragment.
proof fn lemma_journal_name_suffix(short: Seq<char>, long: Seq<char>, path: Seq<char>)
    requires
        fragment_of(short).len() <= fragment_of(long).len(),
        paths::ends_with(path, journal_file_name(short)),
        paths::ends_with(path, journal_file_name(long)),
    ensures
        fragment_of(short) == fragment_of(long),
{
    law_fragment_shape(short);
    law_fragment_shape(long);
    reveal_strlit("store-create-");
    reveal_strlit(".json");
    let s = journal_file_name(short);
    let l = journal_file_name(long);
    let d = l.len() - s.len();
    assert forall|k: int| 0 <= k < s.len() implies #[trigger] s[k] == l[d + k] by {
        assert(path.skip(path.len() - s.len())[k] == path.skip(path.len() - l.len())[d + k]);
    }
    if d > 0 {
        assert(s[12] == '-');
        assert(l[d + 12] == fragment_of(long)[d + 12 - 13]);
        assert(false);
    }
    assert forall|k: int| 0 <= k < fragment_of(short).len() implies fragment_of(short)[k] == fragment_of(long)[k] by {
        assert(s[13 + k] == l[13 + k]);
    }
    assert(fragment_of(short) =~= fragment_of(long));
}

/// Of a text with a hyphen in it, the filter keeps what it keeps of both sides.
proof fn lemma_filter_around_hyphen(a: Seq<char>, b: Seq<char>)
    ensures
        letters_and_digits(a + seq!['-'] + b) == letters_and_digits(a) + letters_and_digits(b),
{
    let keep = |c: char| letter_or_digit(c);
    let hyphen = seq!['-'];
    Seq::filter_distributes_over_add(a + hyphen, b, keep);
    Seq::filter_distributes_over_add(a, hyphen, keep);
    assert(letters_and_digits(hyphen) =~= Seq::<char>::empty()) by {
        reveal(Seq::filter);
        assert(hyphen.drop_last() =~= Seq::<char>::empty());
        assert(hyphen.last() == '-');
        assert(letters_and_digits(hyphen.drop_last()) =~= Seq::<char>::empty());
    }
    assert(letters_and_digits(a) + Seq::<char>::empty() =~= letters_and_digits(a));
}

/// The front of a random identifier passes the filter but for its hyphen.
proof fn lemma_filter_of_random_id(id: Seq<char>)
    requires
        stamp::random_id_text(id),
    ensures
        letters_and_digits(id) == id.subrange(0, 8) + (id.subrange(9, 13) + letters_and_digits(id.skip(13))),
{
    let a = id.subrange(0, 8);
    let b = id.subrange(9, 13);
    let rest = id.skip(13);
    assert forall|i: int| 0 <= i < a.len() implies letter_or_digit(#[trigger] a[i]) by {
        assert(a[i] == id[i]);
    }
    assert forall|i: int| 0 <= i < b.len() implies letter_or_digit(#[trigger] b[i]) by {
        assert(b[i] == id[9 + i]);
    }
    lemma_filter_all(a);
    lemma_filter_all(b);
    assert(id[8] == '-');
    assert(id =~= a + seq!['-'] + (b + rest));
    lemma_filter_around_hyphen(a, b + rest);
    Seq::filter_distributes_over_add(b, rest, |c: char| letter_or_digit(c));
}

/// The fragment of a random identifier is its first twelve digits.
pub proof fn law_fragment_of_random_id(id: Seq<char>)
    requires
        stamp::random_id_text(id),
    ensures
        fragment_of(id) == id.subrange(0, 8) + id.subrange(9, 13),
{
    lemma_filter_of_random_id(id);
    let front = id.subrange(0, 8) + id.subrange(9, 13);
    assert(first_twelve(letters_and_digits(id)) =~= front);
    assert forall|i: int| 0 <= i < 12 implies #[trigger] text::ascii_lower(front[i]) == front[i] by {
        if i < 8 {
            assert(front[i] == id[i]);
        } else {
            assert(front[i] == id[i + 1]);
        }
    }
    assert(fragment_of(id) =~= front);
}

/// A fragment is made character by character: an ASCII letter or digit gives
/// itself, small, any other character nothing, until there are twelve.
pub proof fn law_fragment_is_made_of_the_characters(a: Seq<char>, b: Seq<char>, c: char)
    ensures
        fragment_of(Seq::empty()).len() == 0,
        48 <= c as int <= 57 || 65 <= c as int <= 90 || 97 <= c as int <= 122 ==> fragment_of(seq![c])
            == seq![text::ascii_lower(c)],
        !(48 <= c as int <= 57 || 65 <= c as int <= 90 || 97 <= c as int <= 122) ==> fragment_of(
            seq![c],
        ).len() == 0,
        fragment_of(a).len() + fragment_of(b).len() <= 12 ==> fragment_of(a + b) == fragment_of(a)
            + fragment_of(b),
        fragment_of(a).len() + fragment_of(b).len() > 12 ==> fragment_of(a + b) == (fragment_of(a)
            + fragment_of(b)).take(12),
{
    let keep = |x: char| letter_or_digit(x);
    assert(letters_and_digits(Seq::empty()) =~= Seq::<char>::empty()) by {
        reveal(Seq::filter);
    }
    assert(letters_and_digits(seq![c]) =~= if letter_or_digit(c) {
        seq![c]
    } else {
        Seq::<char>::empty()
    }) by {
        reveal(Seq::filter);
        assert(seq![c].drop_last() =~= Seq::<char>::empty());
        assert(seq![c].last() == c);
        assert(letters_and_digits(seq![c].drop_last()) =~= Seq::<char>::empty());
    }
    if letter_or_digit(c) {
        assert(fragment_of(seq![c]) =~= seq![text::ascii_lower(c)]);
    }
    Seq::filter_distributes_over_add(a, b, keep);
    let la = letters_and_digits(a);
    let lb = letters_and_digits(b);
    assert(letters_and_digits(a + b) == la + lb);
    if fragment_of(a).len() + fragment_of(b).len() <= 12 {
        if la.len() + lb.len() <= 12 {
            assert(fragment_of(a + b) =~= fragment_of(a) + fragment_of(b));
        } else {
            assert(fragment_of(a + b) =~= fragment_of(a) + fragment_of(b));
        }
    } else {
        assert(fragment_of(a + b) =~= (fragment_of(a) + fragment_of(b)).take(12));
    }
}

/// The names of an operation's files: what they start with, the fragment of the
/// operation, and what they end with.
pub proof fn law_names_of_files(operation_id: Seq<char>)
    ensures
        journal_file_name(operation_id) == "store-create-"@ + fragment_of(operation_id) + ".json"@,
        marker_file_name(operation_id) == ".wsl-dashboard-store-create-"@ + fragment_of(operation_id)
            + ".marker"@,
        archive_file_name(operation_id) == "wsl_store_create_"@ + fragment_of(operation_id) + ".tar"@,
        JOURNAL_DIR_NAME@ == "operations"@,
{
    reveal_strlit(".wsl-dashboard-store-create-");
    reveal_strlit(".wsl-dashboard-store-create");
    reveal_strlit("-");
    assert(OWNERSHIP_MARKER_PREFIX@ + "-"@ =~= ".wsl-dashboard-store-create-"@);
}

/// Where the archive goes: to the current directory exactly where the target path
/// is white space throughout; otherwise to its parent, if that is there and not
/// empty, and else to the target path itself.
pub proof fn law_where_the_archive_goes(target_path: Seq<char>, parent: Seq<char>)
    ensures
        (forall|i: int| 0 <= i < target_path.len() ==> text::white_space(#[trigger] target_path[i])) ==> archive_dir(
            target_path,
            Some(parent),
        ) == "."@ && archive_dir(target_path, None) == "."@,
        (exists|i: int| 0 <= i < target_path.len() && !text::white_space(#[trigger] target_path[i])) ==> {
            &&& parent.len() > 0 ==> archive_dir(target_path, Some(parent)) == parent
            &&& archive_dir(target_path, Some(Seq::empty())) == target_path
            &&& archive_dir(target_path, None) == target_path
        },
{
}

} // verus!
