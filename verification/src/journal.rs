//! Keeping journals and ownership markers: where they are written, what is
//! written, and which files are journals.
use crate::locations;
use crate::paths;
use crate::plan;
use crate::plan::JournalView;
use crate::plan::StoreCreateJournal;
use crate::plan::StoreCreatePhase;
use crate::text;
use vstd::prelude::*;

verus! {

/// A file to write, and the directory that has to be there first.
#[derive(Debug, PartialEq, Eq)]
pub struct FileOrder {
    pub path: String,
    pub directory: Option<String>,
}

/// Whether an order has the directory that holds its file.
pub open spec fn in_its_directory(order: FileOrder) -> bool {
    paths::parent_outcome(order.path@, text::opt_view(order.directory))
}

/// A journal to write, and where.
#[derive(Debug, PartialEq, Eq)]
pub struct JournalOrder {
    pub file: FileOrder,
    pub journal: StoreCreateJournal,
}

/// Whether an order is to write a journal to a path, in its directory.
pub open spec fn writes(order: JournalOrder, path: Seq<char>, journal: JournalView) -> bool {
    &&& order.file.path@ == path
    &&& in_its_directory(order.file)
    &&& order.journal@ == journal
}

/// The order to write a journal to a path: its directory is created where it
/// has one.
pub fn persist_journal(path: &str, journal: StoreCreateJournal) -> (order: JournalOrder)
    ensures
        writes(order, path@, journal@),
{
    JournalOrder {
        file: FileOrder { path: path.to_owned(), directory: paths::path_parent(path) },
        journal,
    }
}

/// The order to write a new journal below the temporary location.
pub fn save_journal(base_dir: &str, journal: &StoreCreateJournal) -> (order: JournalOrder)
    ensures
        locations::journal_location(base_dir@, journal@.operation_id, order.file.path@),
        writes(order, order.file.path@, journal@),
{
    let path = locations::journal_path(base_dir, journal.operation_id.as_str());
    persist_journal(path.as_str(), journal.clone())
}

/// The order to write a journal back to where it was read when its operation has
/// come to a phase. A journal that could not be read is not written: the reason
/// is handed on.
pub fn update_journal_phase(
    path: &str,
    loaded: Result<StoreCreateJournal, String>,
    phase: StoreCreatePhase,
) -> (updated: Result<JournalOrder, String>)
    ensures
        match (loaded, updated) {
            (Ok(before), Ok(order)) => writes(order, path@, (JournalView { phase, ..before@ })),
            (Err(reason), Err(same)) => same@ == reason@,
            _ => false,
        },
{
    match loaded {
        Ok(before) => {
            let mut journal = before;
            journal.advance_to(phase);
            Ok(persist_journal(path, journal))
        },
        Err(reason) => Err(reason),
    }
}

/// The order to write a journal back to where it was read when its operation
/// comes to own a path. A journal that could not be read is not written: the
/// reason is handed on.
pub fn register_owned_path(
    path: &str,
    loaded: Result<StoreCreateJournal, String>,
    owned_path: String,
) -> (updated: Result<JournalOrder, String>)
    ensures
        match (loaded, updated) {
            (Ok(before), Ok(order)) => writes(
                order,
                path@,
                (JournalView { cleanup: before@.cleanup.with_owned_path(owned_path@), ..before@ }),
            ),
            (Err(reason), Err(same)) => same@ == reason@,
            _ => false,
        },
{
    match loaded {
        Ok(before) => {
            let mut journal = before;
            journal.cleanup.register_owned_path(owned_path);
            Ok(persist_journal(path, journal))
        },
        Err(reason) => Err(reason),
    }
}

/// A marker to write, and what it holds.
#[derive(Debug, PartialEq, Eq)]
pub struct MarkerOrder {
    pub file: FileOrder,
    pub content: String,
}

/// The order to write an ownership marker, which holds the identifier of the
/// operation as it is.
pub fn create_ownership_marker(install_path: &str, operation_id: &str) -> (order: MarkerOrder)
    ensures
        paths::join_outcome(install_path@, locations::marker_file_name(operation_id@), order.file.path@),
        in_its_directory(order.file),
        order.content@ == operation_id@,
{
    let path = locations::ownership_marker_path(install_path, operation_id);
    let directory = paths::path_parent(path.as_str());
    MarkerOrder { file: FileOrder { path, directory }, content: operation_id.to_owned() }
}

/// The views of a list of optional texts.
pub open spec fn opt_views(list: Seq<Option<String>>) -> Seq<Option<Seq<char>>> {
    list.map_values(|t: Option<String>| text::opt_view(t))
}

/// The places, in order, of the extension `json` in a list of extensions.
pub open spec fn json_places(extensions: Seq<Option<Seq<char>>>) -> Seq<usize>
    decreases extensions.len(),
{
    if extensions.len() == 0 {
        Seq::empty()
    } else {
        let front = json_places(extensions.drop_last());
        if extensions.last() == Some("json"@) {
            front.push((extensions.len() - 1) as usize)
        } else {
            front
        }
    }
}

/// Which of some files are journals, given their extensions.
pub fn journals_among(extensions: &Vec<Option<String>>) -> (places: Vec<usize>)
    ensures
        places@ == json_places(opt_views(extensions@)),
{
    let mut places: Vec<usize> = Vec::new();
    let mut i: usize = 0;
    assert(opt_views(extensions@).take(0) =~= Seq::<Option<Seq<char>>>::empty());
    while i < extensions.len()
        invariant
            i <= extensions@.len(),
            places@ == json_places(opt_views(extensions@).take(i as int)),
        decreases extensions@.len() - i,
    {
        let is_json = match &extensions[i] {
            Some(extension) => text::same_text(extension.as_str(), "json"),
            None => false,
        };
        if is_json {
            places.push(i);
        }
        proof {
            let now = opt_views(extensions@).take(i + 1);
            assert(now.drop_last() =~= opt_views(extensions@).take(i as int));
            assert(now.last() == text::opt_view(extensions@[i as int]));
        }
        i = i + 1;
    }
    assert(opt_views(extensions@).take(i as int) =~= opt_views(extensions@));
    places
}

/// Whether some extensions are those that a list of paths can have.
pub open spec fn extensions_outcome(
    files: Seq<Seq<char>>,
    extensions: Seq<Option<Seq<char>>>,
) -> bool {
    &&& extensions.len() == files.len()
    &&& forall|i: int|
        0 <= i < files.len() ==> paths::extension_outcome(#[trigger] files[i], extensions[i])
}

/// Whether some places are those of the journals in a list of paths.
pub open spec fn journals_outcome(files: Seq<Seq<char>>, places: Seq<usize>) -> bool {
    exists|extensions: Seq<Option<Seq<char>>>|
        #[trigger] extensions_outcome(files, extensions) && places == json_places(extensions)
}

/// Which of the files in the journal directory are journals: those with the
/// extension `json`, in the order in which they are given.
pub fn list_journals(files: &Vec<String>) -> (places: Vec<usize>)
    ensures
        journals_outcome(text::views(files@), places@),
{
    let mut extensions: Vec<Option<String>> = Vec::new();
    let mut i: usize = 0;
    while i < files.len()
        invariant
            i <= files@.len(),
            extensions@.len() == i,
            forall|j: int|
                0 <= j < i ==> paths::extension_outcome(
                    #[trigger] text::views(files@)[j],
                    text::opt_view(extensions@[j]),
                ),
        decreases files@.len() - i,
    {
        let ghost before = extensions@;
        extensions.push(paths::path_extension(files[i].as_str()));
        proof {
            assert forall|j: int| 0 <= j < i + 1 implies paths::extension_outcome(
                #[trigger] text::views(files@)[j],
                text::opt_view(extensions@[j]),
            ) by {
                if j < i {
                    assert(extensions@[j] == before[j]);
                }
            }
        }
        i = i + 1;
    }
    proof {
        let found = opt_views(extensions@);
        assert forall|j: int| 0 <= j < files@.len() implies paths::extension_outcome(
            #[trigger] text::views(files@)[j],
            found[j],
        ) by {}
        assert(extensions_outcome(text::views(files@), found));
    }
    journals_among(&extensions)
}

/// Coming to a phase and coming to own a path do not disturb each other: in
/// either order the same journal results. Doing either again, to the journal that
/// results, changes nothing.
pub proof fn law_updates_do_not_disturb_each_other(
    journal: JournalView,
    phase: StoreCreatePhase,
    path: Seq<char>,
)
    ensures
        ({
            let advanced = JournalView { phase, ..journal };
            let owning = JournalView { cleanup: journal.cleanup.with_owned_path(path), ..journal };
            &&& (JournalView { cleanup: advanced.cleanup.with_owned_path(path), ..advanced }) == (JournalView {
                phase,
                ..owning
            })
            &&& (JournalView { phase, ..advanced }) == advanced
            &&& (JournalView { cleanup: owning.cleanup.with_owned_path(path), ..owning }) == owning
        }),
{
    plan::law_registering_a_path(journal.cleanup, path);
}

/// The places of the journals are places of the list, in ascending order, and
/// are exactly those where the extension is `json`.
pub proof fn law_json_places(extensions: Seq<Option<Seq<char>>>)
    requires
        extensions.len() <= usize::MAX,
    ensures
        forall|i: int, j: int|
            0 <= i < j < json_places(extensions).len() ==> json_places(extensions)[i] < json_places(
                extensions,
            )[j],
        forall|k: int|
            0 <= k < extensions.len() ==> (#[trigger] extensions[k] == Some("json"@) <==> json_places(
                extensions,
            ).contains(k as usize)),
        forall|i: int|
            0 <= i < json_places(extensions).len() ==> #[trigger] json_places(extensions)[i]
                < extensions.len(),
    decreases extensions.len(),
{
    if extensions.len() > 0 {
        let front = extensions.drop_last();
        let last = extensions.len() - 1;
        law_json_places(front);
        let before = json_places(front);
        let now = json_places(extensions);
        assert forall|k: int| 0 <= k < extensions.len() implies (#[trigger] extensions[k] == Some("json"@)
            <==> now.contains(k as usize)) by {
            if k < last {
                assert(extensions[k] == front[k]);
                if before.contains(k as usize) {
                    let at = choose|at: int| 0 <= at < before.len() && before[at] == k as usize;
                    assert(now[at] == k as usize);
                }
                if now.contains(k as usize) {
                    let at = choose|at: int| 0 <= at < now.len() && now[at] == k as usize;
                    assert(before[at] == k as usize);
                }
            } else {
                if extensions[k] == Some("json"@) {
                    assert(now[before.len() as int] == k as usize);
                } else if now.contains(k as usize) {
                    let at = choose|at: int| 0 <= at < now.len() && now[at] == k as usize;
                    assert(before[at] < front.len());
                }
            }
        }
    }
}

/// A journal that `save_journal` put somewhere is found again there: its path has
/// the extension `json`. (Left out is a directory of two separators and no more,
/// or another below which the name is read as part of the prefix; and verbatim
/// places that are not written as they commonly are.)
pub proof fn law_saved_journal_is_listed(
    base_dir: Seq<char>,
    operation_id: Seq<char>,
    path: Seq<char>,
    extension: Option<Seq<char>>,
)
    requires
        locations::journal_location(base_dir, operation_id, path),
        paths::covered(path),
        paths::prefix_len('\\', path) <= path.len() - locations::journal_file_name(operation_id).len(),
        paths::extension_outcome(path, extension),
    ensures
        extension == Some("json"@),
{
    let file = locations::journal_file_name(operation_id);
    locations::law_file_names_are_plain(operation_id);
    locations::law_journal_location(base_dir, operation_id, path);
    lemma_json_extension(operation_id, path);
    let name = choose|name: Option<Seq<char>>|
        #[trigger] paths::file_name_outcome(path, name) && extension == match name {
            Some(f) => paths::extension_of(f),
            None => None,
        };
    let sep = choose|sep: char|
        paths::is_separator(sep) && #[trigger] paths::file_name_under(sep, path, name);
    let (i, j) = if name is Some {
        choose|i: int, j: int|
            #[trigger] paths::final_component(sep, path, i, j) && name->0 == path.subrange(i, j)
    } else {
        paths::law_final_component_exists(sep, path);
        (choose|i: int| #[trigger] paths::final_component(sep, path, i, path.len() as int), path.len() as int)
    };
    paths::law_final_component_holds_the_name(sep, path, file, i, j);
    lemma_json_extension(operation_id, path.subrange(i, j));
}

/// Whatever ends with the name of a journal has the extension `json`, and is
/// neither `.` nor `..`.
proof fn lemma_json_extension(operation_id: Seq<char>, name: Seq<char>)
    requires
        paths::ends_with(name, locations::journal_file_name(operation_id)),
    ensures
        paths::extension_of(name) == Some("json"@),
        !paths::dots(name),
        name.len() > 2,
        name.last() == 'n',
{
    reveal_strlit("store-create-");
    reveal_strlit(".json");
    reveal_strlit("json");
    let file = locations::journal_file_name(operation_id);
    let m = name.len();
    let tail = name.skip(m - 5);
    assert(tail =~= ".json"@) by {
        let whole = name.skip(m - file.len());
        assert(whole == file);
        assert(tail =~= whole.skip(file.len() - 5));
        assert(file.skip(file.len() - 5) =~= ".json"@);
    }
    assert(name[m - 5] == tail[0]);
    assert(name[m - 4] == tail[1]);
    assert(name[m - 3] == tail[2]);
    assert(name[m - 2] == tail[3]);
    assert(name[m - 1] == tail[4]);
    reveal_with_fuel(paths::last_dot, 6);
    assert(paths::last_dot(name) == m - 5);
    assert(name.skip(m - 4) =~= "json"@);
}

/// What an order says: the journal goes to the path, and the directory to create
/// is one that the parent of the path can be.
pub proof fn law_what_an_order_says(order: JournalOrder, path: Seq<char>, journal: JournalView)
    requires
        writes(order, path, journal),
    ensures
        order.file.path@ == path,
        order.journal@ == journal,
        paths::parent_outcome(path, text::opt_view(order.file.directory)),
{
}

/// Whatever else lies in the journal directory, a journal that was saved there is
/// among the journals that are listed. (Left out is what
/// `law_saved_journal_is_listed` leaves out.)
pub proof fn law_saved_journal_is_found_among_files(
    base_dir: Seq<char>,
    operation_id: Seq<char>,
    files: Seq<Seq<char>>,
    at: int,
    places: Seq<usize>,
)
    requires
        files.len() <= usize::MAX,
        0 <= at < files.len(),
        locations::journal_location(base_dir, operation_id, files[at]),
        paths::covered(files[at]),
        paths::prefix_len('\\', files[at]) <= files[at].len() - locations::journal_file_name(operation_id).len(),
        journals_outcome(files, places),
    ensures
        places.contains(at as usize),
{
    let extensions = choose|extensions: Seq<Option<Seq<char>>>|
        #[trigger] extensions_outcome(files, extensions) && places == json_places(extensions);
    assert(paths::extension_outcome(files[at], extensions[at]));
    law_saved_journal_is_listed(base_dir, operation_id, files[at], extensions[at]);
    law_json_places(extensions);
    assert(extensions[at] == Some("json"@));
}

/// The last dot of a name is a dot, and stands in it.
proof fn lemma_last_dot(name: Seq<char>)
    ensures
        -1 <= paths::last_dot(name) < name.len(),
        paths::last_dot(name) >= 0 ==> name[paths::last_dot(name)] == '.',
    decreases name.len(),
{
    if name.len() > 0 && name.last() != '.' {
        lemma_last_dot(name.drop_last());
    }
}

/// Nothing is listed as a journal whose path does not hold `.json`.
pub proof fn law_only_json_files_are_listed(files: Seq<Seq<char>>, at: int, places: Seq<usize>)
    requires
        files.len() <= usize::MAX,
        0 <= at < files.len(),
        paths::covered(files[at]),
        journals_outcome(files, places),
        places.contains(at as usize),
    ensures
        text::occurs(".json"@, files[at]),
{
    let extensions = choose|extensions: Seq<Option<Seq<char>>>|
        #[trigger] extensions_outcome(files, extensions) && places == json_places(extensions);
    law_json_places(extensions);
    let path = files[at];
    assert(paths::extension_outcome(path, extensions[at]));
    assert(extensions[at] == Some("json"@));
    let name = choose|name: Option<Seq<char>>|
        #[trigger] paths::file_name_outcome(path, name) && extensions[at] == match name {
            Some(n) => paths::extension_of(n),
            None => None,
        };
    let sep = choose|sep: char|
        paths::is_separator(sep) && #[trigger] paths::file_name_under(sep, path, name);
    let n = name->0;
    let (i, j) = choose|i: int, j: int|
        #[trigger] paths::final_component(sep, path, i, j) && n == path.subrange(i, j);
    lemma_last_dot(n);
    let dot = paths::last_dot(n);
    reveal_strlit("json");
    reveal_strlit(".json");
    let tail = n.skip(dot + 1);
    assert(tail == "json"@);
    assert(n.len() == dot + 5);
    assert(path.subrange(i + dot, i + dot + 5) =~= ".json"@) by {
        assert forall|k: int| 0 <= k < 5 implies path.subrange(i + dot, i + dot + 5)[k] == ".json"@[k] by {
            assert(path[i + dot + k] == n[dot + k]);
            if k > 0 {
                assert(n[dot + k] == tail[k - 1]);
            }
        }
    }
    assert(text::occurs_at(".json"@, path, i + dot));
}

/// The journals are listed in the order of the files, each once, and nothing is
/// listed that is not among the files.
pub proof fn law_journals_are_listed_in_order(files: Seq<Seq<char>>, places: Seq<usize>, i: int, j: int)
    requires
        files.len() <= usize::MAX,
        journals_outcome(files, places),
    ensures
        0 <= i < j < places.len() ==> places[i] < places[j],
        0 <= i < places.len() ==> places[i] < files.len(),
{
    let extensions = choose|extensions: Seq<Option<Seq<char>>>|
        #[trigger] extensions_outcome(files, extensions) && places == json_places(extensions);
    law_json_places(extensions);
}

} // verus!
