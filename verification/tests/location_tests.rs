use store_create::journal;
use store_create::locations::{
    archive_dir_from, archive_path_for, journal_path, operation_fragment, ownership_marker_path, parent_dir_for,
};
use store_create::plan::{
    choose_strategy, CapabilityProbe, StoreCreateJournal, StoreCreatePhase, StoreCreateRequest,
};

fn sample_journal() -> StoreCreateJournal {
    let request = StoreCreateRequest::new("dev", "linux/dev", "Ubuntu");
    let plan = choose_strategy(CapabilityProbe::Supported, false, "Ubuntu", &request);
    StoreCreateJournal::new_at("2024-01-01T00:00:00+00:00".to_string(), "Op-77", request, plan.cleanup, true)
}

#[test]
fn fragment_keeps_twelve_small_letters_and_digits() {
    assert_eq!(operation_fragment("op-1234"), "op1234");
    assert_eq!(operation_fragment("ABC_def.GHI-jkl MNO"), "abcdefghijkl");
    assert_eq!(operation_fragment("äÖ中-_"), "");
    assert_eq!(operation_fragment("01234567-89ab-cdef"), "0123456789ab");
}

#[test]
fn fragment_of_a_fragment_is_the_same() {
    let once = operation_fragment("Ubuntu-24.04-dev-x");
    assert_eq!(once, "ubuntu2404de");
    assert_eq!(operation_fragment(&once), once);
}

#[test]
fn journal_stands_in_the_journal_directory() {
    let expected = std::path::Path::new("base").join("operations").join("store-create-op77.json");
    assert_eq!(journal_path("base", "Op-77"), expected.to_string_lossy());
    let expected = std::path::Path::new("base/").join("operations").join("store-create-.json");
    assert_eq!(journal_path("base/", "--"), expected.to_string_lossy());
}

#[test]
fn marker_stands_under_the_installation_path() {
    let expected = std::path::Path::new("inst").join(".wsl-dashboard-store-create-op77.marker");
    assert_eq!(ownership_marker_path("inst", "Op-77"), expected.to_string_lossy());
    assert_eq!(ownership_marker_path("", "x"), ".wsl-dashboard-store-create-x.marker");
}

#[test]
fn operations_with_other_fragments_have_other_journals() {
    assert_ne!(journal_path("b", "aaaa"), journal_path("b", "aaab"));
    assert_eq!(journal_path("b", "aaaaaaaaaaaa1"), journal_path("b", "aaaaaaaaaaaa2"));
}

#[test]
fn archive_directory_follows_the_parent() {
    assert_eq!(archive_dir_from("x/y", Some("x".to_string())), "x");
    assert_eq!(archive_dir_from("y", Some(String::new())), "y");
    assert_eq!(archive_dir_from("/", None), "/");
    assert_eq!(archive_dir_from(" \u{a0}", Some("x".to_string())), ".");
    assert_eq!(parent_dir_for("x/y/"), "x");
    assert_eq!(parent_dir_for("/"), "/");
}

#[test]
fn saving_a_journal_creates_its_directory() {
    let order = journal::save_journal("base", &sample_journal());
    let dir = std::path::Path::new("base").join("operations");
    assert_eq!(order.file.path, dir.join("store-create-op77.json").to_string_lossy());
    assert_eq!(order.file.directory.unwrap(), dir.to_string_lossy());
    assert_eq!(order.journal, sample_journal());

    let bare = journal::persist_journal("j.json", sample_journal());
    assert_eq!(bare.file.path, "j.json");
    assert_eq!(bare.file.directory, Some(String::new()));
    assert_eq!(bare.journal, sample_journal());
    assert_eq!(journal::persist_journal("", sample_journal()).file.directory, None);
}

#[test]
fn marker_order_names_the_marked_directory() {
    let order = journal::create_ownership_marker("inst", "Op-77");
    assert_eq!(order.file.path, ownership_marker_path("inst", "Op-77"));
    assert_eq!(order.file.directory, Some("inst".to_string()));
    assert_eq!(order.content, "Op-77");
}

#[test]
fn updating_changes_one_thing() {
    let journal = sample_journal();
    let order =
        journal::update_journal_phase("d/j.json", Ok(journal.clone()), StoreCreatePhase::SeedReady).unwrap();
    let mut expected = journal.clone();
    expected.phase = StoreCreatePhase::SeedReady;
    assert_eq!(order.journal, expected);
    assert_eq!(order.file.path, "d/j.json");
    assert_eq!(order.file.directory, Some("d".to_string()));

    let order = journal::register_owned_path("d/j.json", Ok(journal.clone()), "seed".to_string()).unwrap();
    let mut expected = journal;
    expected.cleanup.owned_paths.push("seed".to_string());
    assert_eq!(order.journal, expected);
    assert_eq!(order.file.path, "d/j.json");
}

#[test]
fn unreadable_journal_is_not_updated() {
    let reason = Err("no such file".to_string());
    assert_eq!(
        journal::update_journal_phase("j", reason.clone(), StoreCreatePhase::Completed),
        Err("no such file".to_string())
    );
    assert_eq!(
        journal::register_owned_path("j", reason, "p".to_string()),
        Err("no such file".to_string())
    );
}

#[test]
fn only_json_files_are_journals() {
    let files: Vec<String> = ["a.json", "b.txt", ".json", "c.JSON", "d.tar.json", "json", "dir/e.json"]
        .iter()
        .map(|f| f.to_string())
        .collect();
    assert_eq!(journal::list_journals(&files), vec![0, 4, 6]);
    assert_eq!(journal::list_journals(&Vec::new()), Vec::<usize>::new());
}

#[test]
fn saved_journals_are_listed() {
    let path = journal_path("base", "Op-77");
    assert_eq!(journal::list_journals(&vec![path]), vec![0]);
}

#[test]
fn places_of_journals_follow_the_extensions() {
    let extensions = vec![Some("json".to_string()), None, Some("toml".to_string()), Some("json".to_string())];
    assert_eq!(journal::journals_among(&extensions), vec![0, 3]);
}

#[test]
fn fragment_of_a_random_identifier_is_its_front() {
    let id = uuid::Uuid::new_v4().to_string();
    assert_eq!(operation_fragment(&id), format!("{}{}", &id[0..8], &id[9..13]));
}

#[test]
fn updates_do_not_disturb_each_other() {
    let journal = sample_journal();
    let phase = StoreCreatePhase::PromotionPending;
    let seed = || "seed".to_string();
    let owning = journal::register_owned_path("j", Ok(journal.clone()), seed()).unwrap();
    let one = journal::update_journal_phase("j", Ok(owning.journal), phase).unwrap();
    let advanced = journal::update_journal_phase("j", Ok(journal), phase).unwrap();
    let other = journal::register_owned_path("j", Ok(advanced.journal), seed()).unwrap();
    assert_eq!(one, other);

    let again = journal::register_owned_path("j", Ok(other.journal), seed()).unwrap();
    assert_eq!(again, one);
}

#[test]
fn places_behind_two_separators_are_handled_alike() {
    for base in [r"\\server\share\temp", r"\\?\C:\temp", r"\\?\UNC\server\share\temp", "//server/share/temp"] {
        let path = journal_path(base, "Op-77");
        let expected = std::path::Path::new(base).join("operations").join("store-create-op77.json");
        assert_eq!(path, expected.to_string_lossy());
        assert_eq!(journal::list_journals(&vec![path]), vec![0]);

        let marker = ownership_marker_path(base, "Op-77");
        let expected = std::path::Path::new(base).join(".wsl-dashboard-store-create-op77.marker");
        assert_eq!(marker, expected.to_string_lossy());
        assert!(marker.starts_with(base));

        let target = format!("{}/dev", base);
        assert_eq!(parent_dir_for(&target), base);
    }
}

#[test]
fn equal_fragments_give_equal_places() {
    assert_eq!(journal_path("b", "Op-77"), journal_path("b", "op77"));
    assert_eq!(archive_path_for("t/dev", "Op-77"), archive_path_for("t/dev", &operation_fragment("Op-77")));
    assert_ne!(archive_path_for("t/dev", "Op-77"), archive_path_for("t/dev", "Op-78"));
}

#[test]
fn archive_is_a_file_in_the_directory_of_the_target() {
    let archive = archive_path_for("some/where/dev", "Op-77");
    let path = std::path::Path::new(&archive);
    assert_eq!(path.file_name().unwrap(), "wsl_store_create_op77.tar");
    assert_eq!(path.parent().unwrap().to_string_lossy(), parent_dir_for("some/where/dev"));
}

#[test]
fn dots_are_no_directories_of_their_own() {
    assert_eq!(parent_dir_for("./dev"), ".");
    assert_eq!(parent_dir_for("a/./dev"), "a");
    assert_eq!(parent_dir_for("a/dev/."), "a");
    assert_eq!(parent_dir_for("a//dev//"), "a");
    assert_eq!(parent_dir_for("/dev"), "/");
    assert_eq!(parent_dir_for("/."), "/.");
    assert_eq!(parent_dir_for("a/.."), "a");
}
