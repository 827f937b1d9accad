use store_create::commands::CommandResult;
use store_create::install::machine::{advance, advance_with, answers, begin, begin_with};
use store_create::install::types::{
    Ask, Effect, Install, InstallForm, InstallSettings, Outside, Reply, RunMode, Stage, Step,
};
use store_create::messages::{Message, Phrase};
use store_create::plan::{CleanupPlan, StoreCreatePhase, StoreCreateRequest};

fn form(source: i32, name: &str) -> InstallForm {
    InstallForm {
        source,
        name: name.to_string(),
        friendly_name: "Ubuntu 24.04 LTS".to_string(),
        internal_id: "Ubuntu-24.04".to_string(),
        install_path: "inst/dev".to_string(),
        file_path: String::new(),
    }
}

fn settings() -> InstallSettings {
    InstallSettings { distro_location: "distros".to_string(), temp_location: "temp".to_string() }
}

fn names(list: &[&str]) -> Vec<String> {
    list.iter().map(|n| n.to_string()).collect()
}

fn ran(success: bool, output: &str, error: Option<&str>) -> Reply {
    Reply::Ran(CommandResult {
        success,
        output: output.to_string(),
        error: error.map(|e| e.to_string()),
    })
}

fn joined(dir: &str, name: &str) -> String {
    std::path::Path::new(dir).join(name).to_string_lossy().into_owned()
}

fn start_shown() -> Vec<Effect> {
    vec![
        Effect::SetInstalling(true),
        Effect::SetStatus(Message::Phrase(Phrase::Checking)),
        Effect::SetSuccess(false),
        Effect::ClearTerminal,
        Effect::SetNameError(Message::Plain(String::new())),
    ]
}

fn failure(reason: Message) -> Vec<Effect> {
    vec![Effect::SetSuccess(false), Effect::SetFailure(reason), Effect::SetInstalling(false)]
}

fn success(name: &str) -> Vec<Effect> {
    vec![
        Effect::SetSuccess(true),
        Effect::SetStatus(Message::PhraseOf(Phrase::CreatedSuccess, name.to_string())),
        Effect::SetInstalling(false),
    ]
}

fn recoverable() -> Vec<Effect> {
    vec![
        Effect::SetPhase { journal: "J".to_string(), phase: StoreCreatePhase::Recoverable },
        Effect::ShowTerminal,
    ]
}

fn all(parts: Vec<Vec<Effect>>) -> Vec<Effect> {
    parts.into_iter().flatten().collect()
}

fn plain(text: &str) -> Message {
    Message::Plain(text.to_string())
}

fn line(text: &str) -> Effect {
    Effect::Write(plain(text), true)
}

fn outside(id: &str) -> Outside {
    Outside {
        operation_id: id.to_string(),
        created_at: "then".to_string(),
        archive_path: "inst/a.tar".to_string(),
        offered_path: "offered".to_string(),
    }
}

fn no_outside() -> Outside {
    Outside {
        operation_id: String::new(),
        created_at: String::new(),
        archive_path: String::new(),
        offered_path: String::new(),
    }
}

fn go(install: Install, reply: Reply) -> Step {
    assert!(answers(install.stage, &reply));
    advance_with(install, reply, no_outside())
}

fn args_of(ask: &Ask) -> Vec<String> {
    match ask {
        Ask::Run { args, .. } => args.clone(),
        other => panic!("no command: {:?}", other),
    }
}

/// A Store installation whose direct command is about to run.
fn at_direct_run(seed_exists: bool) -> Install {
    let distros = if seed_exists { names(&["Ubuntu-24.04"]) } else { names(&[]) };
    let step = begin(form(2, "dev"), settings(), &distros);
    let step = advance_with(step.install, Reply::Source(true), outside("op1"));
    go(step.install, Reply::Saved(Ok("J".to_string()))).install
}

/// A promotion whose seed command is about to run.
fn at_seed_run() -> Install {
    let refused = ran(false, "", Some("Invalid option --name"));
    let step = advance_with(at_direct_run(false), refused, outside("op2"));
    go(step.install, Reply::Saved(Ok("J".to_string()))).install
}

/// A promotion whose seed is about to be exported.
fn at_export(place: Option<&str>) -> Install {
    let step = go(at_seed_run(), ran(true, "", None));
    let step = go(step.install, Reply::Distros(names(&["Ubuntu-24.04"])));
    assert_eq!(step.ask, Ask::InstallLocation("Ubuntu-24.04".to_string()));
    go(step.install, Reply::Location(place.map(|p| p.to_string()))).install
}

#[test]
fn missing_name_ends_the_installation() {
    let mut empty = form(2, "");
    empty.friendly_name = String::new();
    let step = begin(empty, settings(), &names(&[]));
    assert_eq!(step.ask, Ask::Finish { refresh: false });
    assert_eq!(
        step.effects,
        all(vec![
            start_shown(),
            vec![
                Effect::SetNameError(Message::Phrase(Phrase::NameRequired)),
                Effect::SetInstalling(false),
                Effect::SetStatus(Message::Phrase(Phrase::Error)),
            ],
        ])
    );
    assert_eq!(step.install.stage, Stage::Over);
}

#[test]
fn unfit_name_ends_the_installation() {
    for name in ["a b", "ä", "abcdefghijklmnopqrstuvwxyz"] {
        let step = begin(form(2, name), settings(), &names(&[]));
        assert_eq!(step.ask, Ask::Finish { refresh: false });
        assert!(step.effects.contains(&Effect::SetNameError(Message::Phrase(Phrase::NameInvalid))));
    }
    // The name of the distribution stands in for a missing one, and has to be fit too.
    let step = begin(form(2, ""), settings(), &names(&[]));
    assert!(step.effects.contains(&Effect::SetNameError(Message::Phrase(Phrase::NameInvalid))));
}

#[test]
fn taken_name_leads_to_another() {
    let step = begin(form(2, "dev"), settings(), &names(&["other", "dev"]));
    assert_eq!(step.ask, Ask::SuggestName("dev".to_string()));
    assert_eq!(step.effects, start_shown());
    let reply = Reply::Suggested { name: "dev-x1".to_string(), location: "loc".to_string() };
    let step = advance(step.install, reply);
    assert_eq!(step.ask, Ask::Finish { refresh: false });
    assert_eq!(
        step.effects,
        vec![
            Effect::OfferName { name: "dev-x1".to_string(), path: joined("loc", "dev-x1") },
            Effect::SetNameError(Message::PhraseOf(Phrase::NameExists, "dev".to_string())),
            Effect::SetInstalling(false),
            Effect::SetStatus(Message::Phrase(Phrase::ConflictError)),
        ]
    );
}

#[test]
fn store_installation_needs_an_identifier() {
    let mut unknown = form(2, "dev");
    unknown.internal_id = String::new();
    unknown.friendly_name = String::new();
    let step = begin(unknown, settings(), &names(&[]));
    assert_eq!(step.ask, Ask::Finish { refresh: false });
    assert_eq!(
        step.effects[5..],
        [
            Effect::SetStatus(Message::Phrase(Phrase::UnknownDistro)),
            Effect::SetInstalling(false),
        ]
    );
}

#[test]
fn friendly_name_stands_in_for_the_identifier() {
    let mut friendly = form(2, "dev");
    friendly.internal_id = String::new();
    friendly.install_path = String::new();
    let step = begin(friendly, settings(), &names(&["Ubuntu 24.04 LTS"]));
    assert_eq!(step.install.store_id, "Ubuntu 24.04 LTS");
    assert!(step.install.seed_exists);
    assert_eq!(step.install.target_path, joined("distros", "dev"));
    assert_eq!(step.ask, Ask::FastestSource);
    assert_eq!(
        step.effects[5..],
        [
            Effect::SetStatus(Message::Phrase(Phrase::Installing)),
            Effect::Write(
                Message::PhraseOf(Phrase::StoreStep1, "Ubuntu 24.04 LTS".to_string()),
                true
            ),
            Effect::ShowTerminal,
        ]
    );
}

#[test]
fn unknown_source_fails() {
    for source in [-1, 3] {
        let step = begin(form(source, "dev"), settings(), &names(&[]));
        assert_eq!(step.ask, Ask::Finish { refresh: false });
        assert_eq!(
            step.effects[5..],
            failure(Message::Phrase(Phrase::UnknownSource))[..]
        );
    }
}

#[test]
fn file_installation_needs_a_file() {
    let step = begin(form(0, "dev"), settings(), &names(&[]));
    assert_eq!(step.ask, Ask::Finish { refresh: false });
    assert_eq!(step.effects[5..], failure(Message::Phrase(Phrase::SelectFile))[..]);
}

#[test]
fn file_name_stands_in_for_the_name() {
    let mut file = form(0, "");
    file.file_path = "images/ubuntu.rootfs.tar".to_string();
    file.install_path = String::new();
    let step = begin(file, settings(), &names(&[]));
    assert_eq!(step.install.name, "ubuntu.rootfs");
    assert_eq!(step.ask, Ask::CreateTarget(joined("distros", "ubuntu.rootfs")));
    assert_eq!(
        step.effects[5..],
        [Effect::Write(Message::Phrase(Phrase::FileStep1), true), Effect::ShowTerminal]
    );

    let mut nameless = form(1, "");
    nameless.file_path = "..".to_string();
    let step = begin(nameless, settings(), &names(&[]));
    assert!(step.effects.contains(&Effect::SetNameError(Message::Phrase(Phrase::NameRequired))));
}

#[test]
fn given_name_and_path_are_used() {
    let step = begin_with(form(2, "ignored"), settings(), &names(&[]), "dev".to_string(), "default".to_string());
    assert_eq!(step.install.name, "dev");
    assert_eq!(step.install.target_path, "inst/dev");
    let mut pathless = form(2, "ignored");
    pathless.install_path = String::new();
    let step = begin_with(pathless, settings(), &names(&[]), "dev".to_string(), "default".to_string());
    assert_eq!(step.install.target_path, "default");
}

#[test]
fn file_is_imported() {
    for (source, vhd) in [(0, false), (1, true)] {
        let mut file = form(source, "dev");
        file.file_path = "f.tar".to_string();
        let step = begin(file, settings(), &names(&[]));
        assert_eq!(step.ask, Ask::CreateTarget("inst/dev".to_string()));
        let step = go(step.install, Reply::Created(None));
        let mut args = names(&["--import", "dev", "inst/dev", "f.tar"]);
        let mut command = "wsl --import dev inst/dev f.tar".to_string();
        if vhd {
            args.push("--vhd".to_string());
            command.push_str(" --vhd");
        }
        assert_eq!(step.ask, Ask::Run { args, mode: RunMode::Progress });
        assert_eq!(
            step.effects,
            vec![
                Effect::SetStatus(Message::Phrase(Phrase::Importing)),
                Effect::Write(Message::PhraseOf(Phrase::FileStep2, command), false),
                Effect::ShowTerminal,
            ]
        );
        let step = go(step.install, ran(true, "ignored", None));
        assert_eq!(step.ask, Ask::Finish { refresh: true });
        assert_eq!(
            step.effects,
            all(vec![
                vec![
                    Effect::Write(Message::PhraseOf(Phrase::FileStep3, "dev".to_string()), true),
                    Effect::ShowTerminal,
                ],
                success("dev"),
            ])
        );
    }
}

#[test]
fn failed_import_of_a_file_is_shown() {
    let mut file = form(0, "dev");
    file.file_path = "f.tar".to_string();
    let step = begin(file, settings(), &names(&[]));
    let step = go(step.install, Reply::Created(None));
    let step = go(step.install, ran(false, "out", None));
    assert_eq!(step.ask, Ask::Finish { refresh: false });
    assert_eq!(
        step.effects,
        all(vec![
            vec![line("\n[WSL Output]\nout"), Effect::ShowTerminal],
            failure(Message::Phrase(Phrase::ImportFailed)),
        ])
    );
}

#[test]
fn missing_directory_ends_the_import() {
    let mut file = form(0, "dev");
    file.file_path = "f.tar".to_string();
    let step = begin(file, settings(), &names(&[]));
    let step = go(step.install, Reply::Created(Some("denied".to_string())));
    assert_eq!(step.ask, Ask::Finish { refresh: false });
    assert_eq!(step.effects, failure(plain("Failed to create directory: denied")));
}

#[test]
fn direct_installation_is_journalled_first() {
    let step = begin(form(2, "dev"), settings(), &names(&[]));
    let step = advance_with(step.install, Reply::Source(false), outside("op1"));
    assert!(step.effects.is_empty());
    match &step.ask {
        Ask::SaveJournal(journal) => {
            assert_eq!(journal.operation_id, "op1");
            assert_eq!(journal.created_at, "then");
            assert_eq!(journal.phase, StoreCreatePhase::JournalCreated);
            assert_eq!(journal.request, StoreCreateRequest::new("dev", "inst/dev", "Ubuntu-24.04"));
            assert_eq!(
                journal.cleanup,
                CleanupPlan {
                    owned_distros: names(&["dev"]),
                    owned_paths: names(&["inst/dev"]),
                    archive_path: None,
                }
            );
            assert!(journal.seed_created_by_operation);
        }
        other => panic!("{:?}", other),
    }
    let step = go(step.install, Reply::Saved(Ok("J".to_string())));
    let command = "wsl --install Ubuntu-24.04 --name dev --location inst/dev --no-launch";
    assert_eq!(
        step.effects,
        vec![
            Effect::CreateDir("inst/dev".to_string()),
            Effect::CreateMarker { path: "inst/dev".to_string(), operation_id: "op1".to_string() },
            line(&format!("Trying direct named install: {}", command)),
        ]
    );
    assert_eq!(args_of(&step.ask).join(" "), &command[4..]);
    assert!(matches!(step.ask, Ask::Run { mode: RunMode::Streaming, .. }));
}

#[test]
fn empty_target_path_is_not_claimed() {
    let mut pathless = form(2, "dev");
    pathless.install_path = String::new();
    let step = begin_with(pathless, settings(), &names(&[]), "dev".to_string(), String::new());
    let step = advance_with(step.install, Reply::Source(true), outside("op1"));
    let step = go(step.install, Reply::Saved(Ok("J".to_string())));
    assert_eq!(step.effects.len(), 1);
    assert_eq!(
        args_of(&step.ask),
        names(&["--install", "Ubuntu-24.04", "--name", "dev", "--no-launch", "--web-download"])
    );
}

#[test]
fn unsaved_journal_ends_the_installation() {
    let step = begin(form(2, "dev"), settings(), &names(&[]));
    let step = advance_with(step.install, Reply::Source(true), outside("op1"));
    let step = go(step.install, Reply::Saved(Err("disk full".to_string())));
    assert_eq!(step.ask, Ask::Finish { refresh: false });
    assert_eq!(
        step.effects,
        vec![Effect::SetFailure(plain("disk full")), Effect::SetInstalling(false)]
    );
}

#[test]
fn journal_of_a_run_bears_a_fresh_identifier_and_the_time() {
    let step = begin(form(2, "dev"), settings(), &names(&[]));
    let step = advance(step.install, Reply::Source(true));
    let first = match &step.ask {
        Ask::SaveJournal(journal) => {
            assert_eq!(journal.operation_id.len(), 36);
            assert_eq!(journal.operation_id.as_bytes()[14], b'4');
            assert!(chrono::DateTime::parse_from_rfc3339(&journal.created_at).is_ok());
            assert_eq!(journal.operation_id, step.install.operation_id);
            journal.operation_id.clone()
        }
        other => panic!("{:?}", other),
    };
    let step = advance(step.install, Reply::Saved(Ok("J".to_string())));
    let step = advance(step.install, ran(false, "usage: --name", None));
    match &step.ask {
        Ask::SaveJournal(journal) => {
            assert_ne!(journal.operation_id, first);
            let archive = joined("inst", "wsl_store_create_dev.tar");
            assert_eq!(journal.cleanup.archive_path, Some(archive.clone()));
            assert_eq!(step.install.archive_path, archive);
        }
        other => panic!("{:?}", other),
    }
}

#[test]
fn direct_installation_succeeds() {
    let step = go(at_direct_run(false), ran(true, "", None));
    assert_eq!(step.ask, Ask::ListDistros);
    assert!(step.effects.is_empty());
    let step = go(step.install, Reply::Distros(names(&["x", "dev"])));
    assert_eq!(step.ask, Ask::Finish { refresh: true });
    assert_eq!(
        step.effects,
        all(vec![
            vec![
                line("Direct Store install succeeded using GitHub as the download source."),
                Effect::Write(Message::Phrase(Phrase::StoreStep9), true),
                Effect::SetPhase { journal: "J".to_string(), phase: StoreCreatePhase::Completed },
                Effect::RemoveMarker { path: "inst/dev".to_string(), operation_id: "op1".to_string() },
                Effect::RemoveJournal("J".to_string()),
                Effect::ShowTerminal,
            ],
            success("dev"),
        ])
    );
}

#[test]
fn missing_instance_is_left_for_recovery() {
    let step = go(at_direct_run(false), ran(true, "", None));
    let step = go(step.install, Reply::Distros(names(&["Dev"])));
    assert_eq!(step.ask, Ask::Finish { refresh: false });
    assert_eq!(
        step.effects,
        all(vec![
            recoverable(),
            failure(Message::PhraseOf(Phrase::VerifyFailed, "dev".to_string())),
        ])
    );
}

#[test]
fn failed_direct_installation_is_left_for_recovery() {
    let step = go(at_direct_run(false), ran(false, "half done", Some("no network")));
    assert_eq!(step.ask, Ask::Finish { refresh: false });
    assert_eq!(
        step.effects,
        all(vec![
            vec![line("\n[WSL Output]\nhalf done")],
            recoverable(),
            failure(plain("no network")),
        ])
    );
    let step = go(at_direct_run(false), ran(false, " \r\n", None));
    assert_eq!(
        step.effects,
        all(vec![recoverable(), failure(Message::Phrase(Phrase::InstallFailed))])
    );
}

#[test]
fn seed_in_use_is_left_alone() {
    let step = go(at_direct_run(true), ran(false, "", Some("Invalid option: --NAME")));
    assert_eq!(step.ask, Ask::Finish { refresh: false });
    assert_eq!(
        step.effects,
        all(vec![
            vec![
                line("Current WSL does not support '--name'; switching to compatibility mode."),
                Effect::RemoveMarker { path: "inst/dev".to_string(), operation_id: "op1".to_string() },
                Effect::RemoveJournal("J".to_string()),
                Effect::ShowTerminal,
            ],
            failure(plain(
                "Current WSL does not support '--name'. Safe automatic fallback is unavailable while 'Ubuntu-24.04' already exists. Please upgrade WSL before creating another Store instance for this distro."
            )),
        ])
    );
}

#[test]
fn promotion_is_journalled_first() {
    let refused = ran(false, "参数 --name", None);
    let step = advance_with(at_direct_run(false), refused, outside("op2"));
    assert_eq!(step.effects.len(), 3);
    match &step.ask {
        Ask::SaveJournal(journal) => {
            assert_eq!(journal.operation_id, "op2");
            assert_eq!(
                journal.cleanup,
                CleanupPlan {
                    owned_distros: names(&["Ubuntu-24.04", "dev"]),
                    owned_paths: names(&["inst/dev"]),
                    archive_path: Some("inst/a.tar".to_string()),
                }
            );
            assert!(journal.seed_created_by_operation);
        }
        other => panic!("{:?}", other),
    }
    let failed = go(step.install, Reply::Saved(Err("no".to_string())));
    assert_eq!(failed.ask, Ask::Finish { refresh: false });
}

#[test]
fn seed_is_promoted() {
    let refused = ran(false, "", Some("unknown --name"));
    let step = advance_with(at_direct_run(false), refused, outside("op2"));
    let step = go(step.install, Reply::Saved(Ok("J".to_string())));
    assert_eq!(
        step.effects,
        vec![
            Effect::Write(Message::Phrase(Phrase::StoreStep2), true),
            Effect::Write(
                Message::PhraseOf(
                    Phrase::StoreStep3,
                    "wsl --install -d Ubuntu-24.04 --no-launch --web-download".to_string()
                ),
                true
            ),
            Effect::Write(Message::PhraseOf(Phrase::StoreStep4, "GitHub".to_string()), false),
        ]
    );
    assert_eq!(
        args_of(&step.ask),
        names(&["--install", "-d", "Ubuntu-24.04", "--no-launch", "--web-download"])
    );

    let step = go(step.install, ran(true, "", None));
    let step = go(step.install, Reply::Distros(names(&["Ubuntu-24.04"])));
    let step = go(step.install, Reply::Location(Some("seed".to_string())));
    assert_eq!(
        step.effects,
        vec![
            Effect::OwnPath { journal: "J".to_string(), path: "seed".to_string() },
            Effect::CreateMarker { path: "seed".to_string(), operation_id: "op2".to_string() },
            Effect::SetPhase { journal: "J".to_string(), phase: StoreCreatePhase::SeedReady },
            Effect::Write(Message::Phrase(Phrase::StoreStep5), true),
            Effect::SetPhase { journal: "J".to_string(), phase: StoreCreatePhase::PromotionPending },
            Effect::Write(Message::Phrase(Phrase::StoreStep6), true),
            Effect::CreateDir("temp".to_string()),
        ]
    );
    assert_eq!(
        step.ask,
        Ask::Run { args: names(&["--export", "Ubuntu-24.04", "inst/a.tar"]), mode: RunMode::Quiet }
    );

    let step = go(step.install, ran(true, "", None));
    assert_eq!(step.effects, vec![Effect::Write(Message::Phrase(Phrase::StoreStep7), true)]);
    assert_eq!(
        step.ask,
        Ask::Run { args: names(&["--unregister", "Ubuntu-24.04"]), mode: RunMode::Quiet }
    );

    let step = go(step.install, ran(true, "", None));
    assert_eq!(
        step.effects,
        vec![
            Effect::RemoveMarker { path: "seed".to_string(), operation_id: "op2".to_string() },
            Effect::CreateDir("inst/dev".to_string()),
            Effect::CreateMarker { path: "inst/dev".to_string(), operation_id: "op2".to_string() },
        ]
    );
    assert_eq!(
        step.ask,
        Ask::Run { args: names(&["--import", "dev", "inst/dev", "inst/a.tar"]), mode: RunMode::Quiet }
    );

    let step = go(step.install, ran(true, "", None));
    assert_eq!(step.ask, Ask::Finish { refresh: true });
    assert_eq!(
        step.effects,
        all(vec![
            vec![
                Effect::Write(Message::Phrase(Phrase::StoreStep8), true),
                Effect::Write(Message::Phrase(Phrase::StoreStep9), true),
                Effect::SetPhase { journal: "J".to_string(), phase: StoreCreatePhase::Completed },
                Effect::RemoveFile("inst/a.tar".to_string()),
                Effect::RemoveMarker { path: "inst/dev".to_string(), operation_id: "op2".to_string() },
                Effect::RemoveJournal("J".to_string()),
                Effect::ShowTerminal,
            ],
            success("dev"),
        ])
    );
    assert_eq!(step.install.stage, Stage::Over);
}

#[test]
fn seed_of_unknown_place_is_not_claimed() {
    let install = at_export(None);
    assert_eq!(install.seed_path, None);
    let step = go(install, ran(true, "", None));
    let step = go(step.install, ran(true, "", None));
    assert_eq!(
        step.effects,
        vec![
            Effect::CreateDir("inst/dev".to_string()),
            Effect::CreateMarker { path: "inst/dev".to_string(), operation_id: "op2".to_string() },
        ]
    );
}

#[test]
fn failed_promotion_is_left_for_recovery() {
    let custom = || failure(Message::Phrase(Phrase::ImportFailedCustom));

    let step = go(at_seed_run(), ran(false, "x", None));
    assert_eq!(
        step.effects,
        all(vec![
            vec![line("\n[WSL Output]\nx")],
            recoverable(),
            failure(Message::Phrase(Phrase::InstallFailed)),
        ])
    );

    let step = go(at_seed_run(), ran(true, "", None));
    let step = go(step.install, Reply::Distros(names(&["dev"])));
    assert_eq!(
        step.effects,
        all(vec![
            recoverable(),
            failure(Message::PhraseOf(Phrase::VerifyFailed, "Ubuntu-24.04".to_string())),
        ])
    );

    let step = go(at_export(Some("seed")), ran(false, "not shown", None));
    assert_eq!(step.effects, all(vec![recoverable(), custom()]));

    let step = go(at_export(Some("seed")), ran(true, "", None));
    let step = go(step.install, ran(false, "", Some("busy")));
    assert_eq!(step.effects, all(vec![recoverable(), failure(plain("busy"))]));

    let step = go(at_export(Some("seed")), ran(true, "", None));
    let step = go(step.install, ran(true, "", None));
    let step = go(step.install, ran(false, "", None));
    assert_eq!(step.ask, Ask::Finish { refresh: false });
    assert_eq!(step.effects, all(vec![recoverable(), custom()]));
}

#[test]
fn replies_have_to_answer_the_question() {
    assert!(answers(Stage::Source, &Reply::Source(true)));
    assert!(!answers(Stage::DirectSave, &Reply::Source(true)));
    assert!(answers(Stage::SeedSave, &Reply::Saved(Ok(String::new()))));
    assert!(answers(Stage::FileRun, &ran(true, "", None)));
    assert!(!answers(Stage::Over, &ran(true, "", None)));
    assert!(!answers(Stage::SeedList, &Reply::Location(None)));
}

#[test]
fn every_ending_is_shown_last() {
    let endings = vec![
        begin(form(7, "dev"), settings(), &names(&[])),
        begin(form(2, "a b"), settings(), &names(&[])),
        begin(form(0, "dev"), settings(), &names(&[])),
        go(at_direct_run(false), ran(false, "x", None)),
        go(at_direct_run(true), ran(false, "", Some("invalid --name"))),
        go(at_export(None), ran(false, "", None)),
    ];
    for step in endings {
        assert_eq!(step.ask, Ask::Finish { refresh: false });
        let last = step.effects.iter().rev().find(|e| matches!(e, Effect::SetInstalling(_)));
        assert_eq!(last, Some(&Effect::SetInstalling(false)));
        assert!(!step.effects.contains(&Effect::SetSuccess(true)));
    }
}
