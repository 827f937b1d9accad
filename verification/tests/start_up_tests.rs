use store_create::plan::{
    choose_strategy, CapabilityProbe, StoreCreateJournal, StoreCreatePhase, StoreCreateRequest,
};
use store_create::recovery::{latest, recovery_notice, scan, search_root, FoundJournal, ScanEffect};
use store_create::update_check::{
    after_standard_time, after_update, begin, begin_at, look_for_update, read_setting,
    should_check_update, CheckAsk, CheckEffect, CheckSettings, UpdateInfo,
    DAY_MILLIS,
};

fn settings(check_time: &str, days: i64, silent: bool) -> CheckSettings {
    CheckSettings { check_time: check_time.to_string(), check_update_days: days, silent }
}

fn journal(name: &str, id: &str, phase: StoreCreatePhase) -> StoreCreateJournal {
    let request = StoreCreateRequest::new(name, "linux/dev", "Ubuntu");
    let plan = choose_strategy(CapabilityProbe::Supported, false, "Ubuntu", &request);
    let mut journal = StoreCreateJournal::new(id, request, plan.cleanup, true);
    journal.advance_to(phase);
    journal
}

fn found(path: &str, read: Result<StoreCreateJournal, String>) -> FoundJournal {
    FoundJournal { path: path.to_string(), read }
}

#[test]
fn settings_are_read_as_numbers() {
    assert_eq!(read_setting("1700000000000"), 1_700_000_000_000);
    assert_eq!(read_setting("-3"), -3);
    assert_eq!(read_setting("soon"), 0);
    assert_eq!(read_setting(""), 0);
}

#[test]
fn check_is_due_after_the_interval() {
    let last = 1_700_000_000_000;
    assert!(!should_check_update(last + 7 * DAY_MILLIS - 1, last, 7));
    assert!(should_check_update(last + 7 * DAY_MILLIS, last, 7));
    assert!(should_check_update(last + 8 * DAY_MILLIS, last, 7));
    assert!(should_check_update(last, last, 0));
    assert!(!should_check_update(last - 1, last, 0));
}

#[test]
fn extreme_settings_are_worked_out() {
    assert!(should_check_update(0, i64::MIN, 7));
    assert!(!should_check_update(0, i64::MAX, 7));
    assert!(!should_check_update(i64::MAX, 0, i64::MAX));
    assert!(should_check_update(i64::MIN, i64::MAX, i64::MIN));
    let step = begin_at(&settings("-9223372036854775808", i64::MAX, false), "0", 1_700_000_000_000);
    assert_eq!(step.ask, CheckAsk::Stop);
}

#[test]
fn journals_are_sought_unless_silent() {
    assert_eq!(search_root("temp".to_string(), false), Some("temp".to_string()));
    assert_eq!(search_root("temp".to_string(), true), None);
}

#[test]
fn silent_start_checks_nothing() {
    let step = begin(&settings("0", 7, true), "1");
    assert!(step.effects.is_empty());
    assert_eq!(step.ask, CheckAsk::Stop);
}

#[test]
fn early_start_checks_nothing() {
    let step = begin_at(&settings("1700000000000", 7, false), "1", 1_700_000_000_001);
    assert!(step.effects.is_empty());
    assert_eq!(step.ask, CheckAsk::Stop);
}

#[test]
fn expiry_is_checked_before_updates() {
    let step = begin_at(&settings("never", 7, false), "1800000000", 1_700_000_000_000);
    assert!(step.effects.is_empty());
    assert_eq!(step.ask, CheckAsk::StandardTime { expire_time: 1_800_000_000 });
    for expire in ["0", "-5", "none"] {
        let step = begin_at(&settings("never", 7, false), expire, 1_700_000_000_000);
        assert_eq!(step.effects, vec![CheckEffect::SetChecking(true)]);
        assert_eq!(step.ask, CheckAsk::Update);
    }
}

#[test]
fn check_is_made_with_the_present_time() {
    let now = chrono::Utc::now().timestamp_millis();
    let recent = (now - DAY_MILLIS + 60_000).to_string();
    let step = begin(&settings(&recent, 1, false), "0");
    assert_eq!(step.ask, CheckAsk::Stop);
    let old = (now - DAY_MILLIS).to_string();
    let step = begin(&settings(&old, 1, false), "0");
    assert_eq!(step.ask, CheckAsk::Update);
}

#[test]
fn expired_application_says_so() {
    let step = after_standard_time(100, 101);
    assert_eq!(step.effects, vec![CheckEffect::ShowExpireDialog, CheckEffect::SaveCheckTime]);
    assert_eq!(step.ask, CheckAsk::Stop);
    let step = after_standard_time(100, 100);
    assert_eq!(step, look_for_update());
}

#[test]
fn update_is_shown_and_recorded() {
    let info = UpdateInfo { has_update: true, latest_version: "2.0".to_string() };
    let step = after_update(Some(info));
    assert_eq!(
        step.effects,
        vec![
            CheckEffect::SetChecking(false),
            CheckEffect::SetUpdate("2.0".to_string()),
            CheckEffect::ShowUpdateDialog,
            CheckEffect::SaveCheckTime,
        ]
    );
    assert_eq!(step.ask, CheckAsk::Stop);
}

#[test]
fn search_without_news_is_not_recorded() {
    let info = UpdateInfo { has_update: false, latest_version: "1.0".to_string() };
    assert_eq!(after_update(Some(info)).effects, vec![CheckEffect::SetChecking(false)]);
    assert_eq!(after_update(None).effects, vec![CheckEffect::SetChecking(false)]);
}

#[test]
fn completed_operations_are_swept_away() {
    let mut done = journal("dev", "op", StoreCreatePhase::Completed);
    done.cleanup.register_owned_path("seed".to_string());
    let result = scan(vec![
        found("d/b.json", Ok(journal("b", "op-b", StoreCreatePhase::Recoverable))),
        found("d/a.json", Ok(done)),
        found("d/c.json", Err("broken".to_string())),
    ]);
    assert_eq!(
        result.effects,
        vec![
            ScanEffect::RemoveMarker { path: "linux/dev".to_string(), operation_id: "op".to_string() },
            ScanEffect::RemoveMarker { path: "seed".to_string(), operation_id: "op".to_string() },
            ScanEffect::RemoveJournal("d/a.json".to_string()),
            ScanEffect::Warn { path: "d/c.json".to_string(), reason: "broken".to_string() },
        ]
    );
    assert_eq!(result.interrupted.len(), 1);
    assert_eq!(result.interrupted[0].path, "d/b.json");
}

#[test]
fn every_phase_but_the_last_is_interrupted() {
    for phase in [
        StoreCreatePhase::JournalCreated,
        StoreCreatePhase::SeedReady,
        StoreCreatePhase::PromotionPending,
        StoreCreatePhase::Recoverable,
        StoreCreatePhase::Failed,
    ] {
        let result = scan(vec![found("a.json", Ok(journal("dev", "op", phase)))]);
        assert!(result.effects.is_empty());
        assert_eq!(result.interrupted.len(), 1);
    }
}

#[test]
fn one_interrupted_operation_is_named() {
    let result = scan(vec![found("a.json", Ok(journal("dev", "op", StoreCreatePhase::SeedReady)))]);
    let notice = recovery_notice("temp", &result.interrupted).unwrap();
    assert_eq!(
        notice.message,
        "An interrupted Store instance creation for 'dev' was detected. Cleanup will target only managed temporary residue before reopening the add flow."
    );
    assert_eq!(notice.action, "Clean up and retry");
    assert_eq!(notice.payload, "store-create-recovery-root:temp");
}

#[test]
fn several_interrupted_operations_are_counted() {
    let mut files = Vec::new();
    for i in 0..12 {
        files.push(found(&format!("d/{}.json", i), Ok(journal("dev", "op", StoreCreatePhase::Failed))));
    }
    let result = scan(files);
    let notice = recovery_notice("temp", &result.interrupted).unwrap();
    assert_eq!(
        notice.message,
        "Detected 12 interrupted Store instance creations. Cleanup will target only managed temporary residue, then reopen the most recent add flow."
    );
}

#[test]
fn nothing_interrupted_needs_no_notice() {
    assert_eq!(recovery_notice("temp", &Vec::new()), None);
}

#[test]
fn latest_is_the_last_in_the_order_of_paths() {
    let phase = StoreCreatePhase::Failed;
    let result = scan(vec![
        found("d/b.json", Ok(journal("b", "1", phase))),
        found("d/c.json", Ok(journal("c", "2", phase))),
        found("d/a.json", Ok(journal("a", "3", phase))),
    ]);
    assert_eq!(latest(&result.interrupted), 1);
    let mut sorted: Vec<String> = result.interrupted.iter().map(|i| i.path.clone()).collect();
    sorted.sort();
    assert_eq!(sorted.last().unwrap(), "d/c.json");
}
