use store_create::locations::{archive_path_for, journal_path, ownership_marker_path};
use store_create::plan::{
    choose_strategy, CapabilityProbe, RecoveryAction, StoreCreateJournal, StoreCreatePhase,
    StoreCreateRequest, StoreCreateStrategy, JOURNAL_DIR_NAME, OWNERSHIP_MARKER_PREFIX,
};

fn sample_request() -> StoreCreateRequest {
    StoreCreateRequest::new(
        "Ubuntu-24.04-dev",
        r"D:\linux\Ubuntu-24.04-dev",
        "Ubuntu-24.04",
    )
}

#[test]
fn direct_install_requires_supported_probe_and_unmodified_target() {
    let request = StoreCreateRequest::new("Ubuntu-24.04", "", "Ubuntu-24.04");

    let plan = choose_strategy(CapabilityProbe::Supported, false, "Ubuntu-24.04", &request);
    assert_eq!(plan.strategy, StoreCreateStrategy::DirectInstall);

    let fallback = choose_strategy(CapabilityProbe::Unknown, false, "Ubuntu-24.04", &request);
    assert_eq!(fallback.strategy, StoreCreateStrategy::FreshSeedPromote);
}

#[test]
fn existing_seed_promote_does_not_claim_the_original_seed() {
    let request = sample_request();
    let plan = choose_strategy(CapabilityProbe::Unknown, true, "Ubuntu-24.04", &request);

    assert_eq!(plan.strategy, StoreCreateStrategy::ExistingSeedPromote);
    assert!(!plan.seed_created_by_operation);
    assert_eq!(plan.cleanup.owned_distros, vec![request.target_name.clone()]);
    assert_eq!(plan.cleanup.owned_paths, vec![request.target_path.clone()]);
    assert!(plan.cleanup.archive_path.is_some());
}

#[test]
fn fresh_seed_promote_tracks_created_seed_and_target() {
    let request = sample_request();
    let plan = choose_strategy(CapabilityProbe::Unknown, false, "Ubuntu-24.04", &request);

    assert_eq!(plan.strategy, StoreCreateStrategy::FreshSeedPromote);
    assert!(plan.seed_created_by_operation);
    assert_eq!(
        plan.cleanup.owned_distros,
        vec!["Ubuntu-24.04".to_string(), request.target_name.clone()]
    );
    assert_eq!(plan.cleanup.owned_paths, vec![request.target_path.clone()]);
    assert!(plan.cleanup.archive_path.is_some());
}

#[test]
fn journal_path_is_kept_out_of_instances_toml() {
    let rendered = journal_path(r"C:\Users\alice\.wsldashboard\temp", "op-1234");

    assert!(rendered.contains(JOURNAL_DIR_NAME));
    assert!(rendered.ends_with("store-create-op1234.json"));
    assert!(!rendered.ends_with("instances.toml"));
}

#[test]
fn ownership_marker_path_is_scoped_to_operation_and_install_path() {
    let rendered = ownership_marker_path(r"D:\linux\Ubuntu-24.04-dev", "ABC123");

    assert!(rendered.contains(OWNERSHIP_MARKER_PREFIX));
    assert!(rendered.ends_with(".marker"));
    assert!(rendered.contains("abc123"));
}

#[test]
fn cleanup_validation_rejects_unowned_distros_and_paths() {
    let request = sample_request();
    let plan = choose_strategy(CapabilityProbe::Unknown, false, "Ubuntu-24.04", &request);
    let mut journal = StoreCreateJournal::new("recover-op-1234", request.clone(), plan.cleanup, true);
    journal.cleanup.register_owned_path(r"D:\seed-cache\Ubuntu-24.04".to_string());

    assert!(journal.can_cleanup_distro("Ubuntu-24.04", Some(r"D:\seed-cache\Ubuntu-24.04")));
    assert!(journal.can_cleanup_distro("Ubuntu-24.04-dev", Some(request.target_path.as_str())));
    assert!(!journal.can_cleanup_distro("Ubuntu-20.04", Some(r"D:\linux\Ubuntu-20.04")));
    assert!(!journal.can_cleanup_distro("Ubuntu-24.04", Some(r"D:\linux\Ubuntu-20.04")));
    assert!(journal.can_cleanup_path(request.target_path.as_str()));
    assert!(!journal.can_cleanup_path(r"D:\windows\system32"));
    assert!(journal.can_cleanup_archive(journal.cleanup.archive_path.as_deref().unwrap_or_default()));
    assert!(!journal.can_cleanup_archive(r"D:\other\archive.tar"));
}

#[test]
fn journal_recovery_actions_cover_only_managed_cleanup_and_reopen() {
    let request = sample_request();
    let plan = choose_strategy(CapabilityProbe::Unknown, true, "Ubuntu-24.04", &request);
    let journal = StoreCreateJournal::new("recover-op-1234", request.clone(), plan.cleanup, false);

    let actions = journal.recovery_actions();
    assert!(actions.iter().any(|action| matches!(
        action,
        RecoveryAction::RemoveManagedDistro { distro_name } if distro_name == &request.target_name
    )));
    assert!(actions.iter().any(|action| matches!(
        action,
        RecoveryAction::RemoveManagedPath { install_path } if install_path == &request.target_path
    )));
    assert!(actions.iter().any(|action| matches!(
        action,
        RecoveryAction::ReopenAddFlow { request: reopened } if reopened == &request
    )));
}

#[test]
fn direct_plan_owns_the_target_alone() {
    let request = sample_request();
    let plan = choose_strategy(CapabilityProbe::Supported, true, "Ubuntu-24.04", &request);

    assert_eq!(plan.strategy, StoreCreateStrategy::DirectInstall);
    assert_eq!(plan.final_path, request.target_path);
    assert_eq!(plan.archive_path, None);
    assert_eq!(plan.cleanup.owned_distros, vec!["Ubuntu-24.04-dev".to_string()]);
    assert_eq!(plan.cleanup.owned_paths, vec![r"D:\linux\Ubuntu-24.04-dev".to_string()]);
    assert_eq!(plan.cleanup.archive_path, None);
    assert!(plan.seed_created_by_operation);
}

#[test]
fn direct_plan_without_a_path_owns_no_path() {
    let request = StoreCreateRequest::new("dev", "", "Ubuntu");
    let direct = choose_strategy(CapabilityProbe::Supported, false, "Ubuntu", &request);
    assert!(direct.cleanup.owned_paths.is_empty());

    let promoted = choose_strategy(CapabilityProbe::Unsupported, false, "Ubuntu", &request);
    assert_eq!(promoted.cleanup.owned_paths, vec!["".to_string()]);
    assert_eq!(promoted.archive_path, promoted.cleanup.archive_path);
}

#[test]
fn archive_stands_next_to_the_target() {
    let path = archive_path_for("linux/dev", "My-Op_42");
    let expected = std::path::Path::new("linux").join("wsl_store_create_myop42.tar");
    assert_eq!(path, expected.to_string_lossy());

    let nested = archive_path_for("a/b/c", "x");
    let expected = std::path::Path::new("a/b").join("wsl_store_create_x.tar");
    assert_eq!(nested, expected.to_string_lossy());
}

#[test]
fn archive_of_a_target_without_parent_stands_in_it() {
    let path = archive_path_for("dev", "op");
    let expected = std::path::Path::new("dev").join("wsl_store_create_op.tar");
    assert_eq!(path, expected.to_string_lossy());
}

#[test]
fn archive_of_a_blank_target_stands_in_the_current_directory() {
    for blank in ["", "  ", "\t\n", "\u{3000}"] {
        let path = archive_path_for(blank, "op");
        let expected = std::path::Path::new(".").join("wsl_store_create_op.tar");
        assert_eq!(path, expected.to_string_lossy());
    }
}

#[test]
fn archive_of_a_plan_carries_the_fragment_of_the_target_name() {
    let request = StoreCreateRequest::new("Ubuntu-24.04-dev-long", "linux/dev", "Ubuntu");
    let plan = choose_strategy(CapabilityProbe::Unknown, false, "Ubuntu", &request);
    let expected = std::path::Path::new("linux").join("wsl_store_create_ubuntu2404de.tar");
    assert_eq!(plan.archive_path.unwrap(), expected.to_string_lossy());
}

#[test]
fn existing_seed_cannot_be_removed_even_where_its_path_is_owned() {
    let request = sample_request();
    let plan = choose_strategy(CapabilityProbe::Unsupported, true, "Ubuntu-24.04", &request);
    let seed_created = plan.seed_created_by_operation;
    let mut journal = StoreCreateJournal::new("op", request, plan.cleanup, seed_created);
    journal.cleanup.register_owned_path(r"D:\seed".to_string());
    journal.advance_to(StoreCreatePhase::Recoverable);

    assert!(!journal.can_cleanup_distro("Ubuntu-24.04", Some(r"D:\seed")));
    assert!(!journal.can_cleanup_distro("Ubuntu-24.04", None));
    assert!(!journal.recovery_actions().contains(&RecoveryAction::RemoveManagedDistro {
        distro_name: "Ubuntu-24.04".to_string(),
    }));
}

#[test]
fn target_is_removed_only_where_it_was_put() {
    let request = sample_request();
    let plan = choose_strategy(CapabilityProbe::Supported, false, "Ubuntu-24.04", &request);
    let journal = StoreCreateJournal::new("op", request, plan.cleanup, true);
    assert!(journal.can_cleanup_distro("Ubuntu-24.04-dev", Some(r"D:\linux\Ubuntu-24.04-dev")));
    assert!(!journal.can_cleanup_distro("Ubuntu-24.04-dev", Some(r"D:\elsewhere")));
    assert!(!journal.can_cleanup_distro("Ubuntu-24.04-dev", None));
}

#[test]
fn registering_a_path_twice_lists_it_once() {
    let request = sample_request();
    let plan = choose_strategy(CapabilityProbe::Supported, false, "Ubuntu-24.04", &request);
    let mut cleanup = plan.cleanup;
    cleanup.register_owned_path("a".to_string());
    cleanup.register_owned_path("b".to_string());
    cleanup.register_owned_path("a".to_string());
    assert_eq!(
        cleanup.owned_paths,
        vec![r"D:\linux\Ubuntu-24.04-dev".to_string(), "a".to_string(), "b".to_string()]
    );
    assert!(cleanup.owns_path("b"));
    assert!(!cleanup.owns_path("c"));
    assert!(cleanup.owns_distro("Ubuntu-24.04-dev"));
}

#[test]
fn recovery_actions_come_in_order() {
    let request = sample_request();
    let plan = choose_strategy(CapabilityProbe::Unknown, false, "Ubuntu-24.04", &request);
    let archive = plan.archive_path.clone().unwrap();
    let journal = StoreCreateJournal::new("op", request.clone(), plan.cleanup, true);
    assert_eq!(
        journal.recovery_actions(),
        vec![
            RecoveryAction::RemoveManagedDistro { distro_name: "Ubuntu-24.04".to_string() },
            RecoveryAction::RemoveManagedDistro { distro_name: "Ubuntu-24.04-dev".to_string() },
            RecoveryAction::RemoveManagedPath {
                install_path: r"D:\linux\Ubuntu-24.04-dev".to_string(),
            },
            RecoveryAction::RemoveManagedArchive { archive_path: archive },
            RecoveryAction::ReopenAddFlow { request },
        ]
    );
}

#[test]
fn new_journal_starts_now_in_its_first_phase() {
    let request = sample_request();
    let plan = choose_strategy(CapabilityProbe::Supported, false, "Ubuntu-24.04", &request);
    let before = chrono::Utc::now();
    let journal = StoreCreateJournal::new("op", request, plan.cleanup, true);
    let after = chrono::Utc::now();
    assert_eq!(journal.phase, StoreCreatePhase::JournalCreated);
    assert_eq!(journal.operation_id, "op");
    let created = chrono::DateTime::parse_from_rfc3339(&journal.created_at).unwrap();
    assert!(before <= created && created <= after);
    assert!(journal.created_at.ends_with("+00:00"));
}

#[test]
fn phase_grants_nothing() {
    let request = sample_request();
    let plan = choose_strategy(CapabilityProbe::Unknown, false, "Ubuntu-24.04", &request);
    let mut journal = StoreCreateJournal::new("op", request.clone(), plan.cleanup, true);
    let actions = journal.recovery_actions();
    for phase in [
        StoreCreatePhase::SeedReady,
        StoreCreatePhase::PromotionPending,
        StoreCreatePhase::Recoverable,
        StoreCreatePhase::Completed,
        StoreCreatePhase::Failed,
    ] {
        journal.advance_to(phase);
        assert_eq!(journal.phase, phase);
        assert_eq!(journal.recovery_actions(), actions);
        assert!(!journal.can_cleanup_distro("Ubuntu-24.04", Some("elsewhere")));
        assert!(journal.can_cleanup_path(&request.target_path));
    }
}
