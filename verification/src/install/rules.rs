//! What the steps of an installation are.
use crate::commands;
use crate::commands::CommandResultView;
use crate::install::types::AskView;
use crate::install::types::EffectView;
use crate::install::types::FormView;
use crate::install::types::InstallView;
use crate::install::types::OutsideView;
use crate::install::types::ReplyView;
use crate::install::types::RunMode;
use crate::install::types::Stage;
use crate::install::types::StepView;
use crate::locations;
use crate::messages::MessageView;
use crate::messages::Phrase;
use crate::naming;
use crate::paths;
use crate::plan;
use crate::plan::CapabilityProbe;
use crate::plan::JournalView;
use crate::plan::StoreCreatePhase;
use crate::stamp;
use crate::text;
use vstd::prelude::*;

verus! {

/// Whether the step after a stage can start a journal.
pub open spec fn starts_journal(stage: Stage) -> bool {
    stage == Stage::Source || stage == Stage::DirectRun
}

/// What holds of everything that a step gets from outside: for a step that can
/// start a journal, a random identifier, a time, and a place for the archive
/// next to the target; for one that offers a name, that name put under its
/// directory.
pub open spec fn outside_outcome(s: InstallView, reply: ReplyView, outside: OutsideView) -> bool {
    &&& starts_journal(s.stage) ==> {
        &&& stamp::random_id_text(outside.operation_id)
        &&& stamp::utc_time_text(outside.created_at)
        &&& locations::archive_location(s.target_path, s.name, outside.archive_path)
    }
    &&& match reply {
        ReplyView::Suggested { name, location } => {
            paths::join_outcome(location, name, outside.offered_path)
        },
        _ => true,
    }
}

/// Whether a reply answers what the machine waits for.
pub open spec fn fits(stage: Stage, reply: ReplyView) -> bool {
    match stage {
        Stage::Suggestion => reply is Suggested,
        Stage::Source => reply is Source,
        Stage::DirectSave | Stage::SeedSave => reply is Saved,
        Stage::DirectRun
        | Stage::SeedRun
        | Stage::Export
        | Stage::Unregister
        | Stage::Import
        | Stage::FileRun => reply is Ran,
        Stage::DirectList | Stage::SeedList => reply is Distros,
        Stage::SeedLocation => reply is Location,
        Stage::TargetDir => reply is Created,
        Stage::Over => false,
    }
}

/// What the window shows of a success.
pub open spec fn success_shown(name: Seq<char>) -> Seq<EffectView> {
    seq![
        EffectView::SetSuccess(true),
        EffectView::SetStatus(MessageView::PhraseOf(Phrase::CreatedSuccess, name)),
        EffectView::SetInstalling(false),
    ]
}

/// What the window shows of a failure.
pub open spec fn failure_shown(reason: MessageView) -> Seq<EffectView> {
    seq![
        EffectView::SetSuccess(false),
        EffectView::SetFailure(reason),
        EffectView::SetInstalling(false),
    ]
}

/// A phrase as a line of the terminal.
pub open spec fn line(phrase: Phrase) -> EffectView {
    EffectView::Write(MessageView::Phrase(phrase), true)
}

/// A phrase with a text in it as a line of the terminal.
pub open spec fn line_of(phrase: Phrase, t: Seq<char>) -> EffectView {
    EffectView::Write(MessageView::PhraseOf(phrase, t), true)
}

/// A fixed text as a line of the terminal.
pub open spec fn plain_line(t: Seq<char>) -> EffectView {
    EffectView::Write(MessageView::Plain(t), true)
}

/// The output of a failed command in the terminal, unless it is blank.
pub open spec fn output_shown(output: Seq<char>) -> Seq<EffectView> {
    if text::blank(output) {
        Seq::empty()
    } else {
        seq![plain_line("\n[WSL Output]\n"@ + output)]
    }
}

/// Why a command failed: what it says, or else a phrase.
pub open spec fn failure_reason(result: CommandResultView, otherwise: Phrase) -> MessageView {
    match result.error {
        Some(e) => MessageView::Plain(e),
        None => MessageView::Phrase(otherwise),
    }
}

/// The last step: effects, and nothing more to ask.
pub open spec fn over(s: InstallView, effects: Seq<EffectView>, refresh: bool) -> StepView {
    StepView { install: s.at(Stage::Over), effects, ask: AskView::Finish { refresh } }
}

/// The step of a Store installation that cannot go on: the journal is marked
/// for recovery, and the failure is shown.
pub open spec fn left_recoverable(
    s: InstallView,
    before: Seq<EffectView>,
    reason: MessageView,
) -> StepView {
    over(
        s,
        before + seq![
            EffectView::SetPhase { journal: s.journal, phase: StoreCreatePhase::Recoverable },
            EffectView::ShowTerminal,
        ] + failure_shown(reason),
        false,
    )
}

/// A step that leads to running a command.
pub open spec fn run_next(
    s: InstallView,
    stage: Stage,
    effects: Seq<EffectView>,
    args: Seq<Seq<char>>,
    mode: RunMode,
) -> StepView {
    StepView { install: s.at(stage), effects, ask: AskView::Run { args, mode } }
}

/// The step where no journal could be written: nothing was started.
pub open spec fn unsaved(s: InstallView, reason: Seq<char>) -> StepView {
    over(
        s,
        seq![EffectView::SetFailure(MessageView::Plain(reason)), EffectView::SetInstalling(false)],
        false,
    )
}

/// With another name at hand: it is offered, and the installation ends.
pub open spec fn after_suggestion(s: InstallView, name: Seq<char>, path: Seq<char>) -> StepView {
    over(
        s,
        seq![
            EffectView::OfferName { name, path },
            EffectView::SetNameError(MessageView::PhraseOf(Phrase::NameExists, s.name)),
            EffectView::SetInstalling(false),
            EffectView::SetStatus(MessageView::Phrase(Phrase::ConflictError)),
        ],
        false,
    )
}

/// With the source known: the direct installation is journalled.
pub open spec fn after_source(s: InstallView, web: bool, outside: OutsideView) -> StepView {
    let direct = plan::plan_for(
        CapabilityProbe::Supported,
        s.seed_exists,
        s.request(),
        outside.archive_path,
    );
    StepView {
        install: InstallView {
            web_download: web,
            operation_id: outside.operation_id,
            ..s.at(Stage::DirectSave)
        },
        effects: Seq::empty(),
        ask: AskView::SaveJournal(
            JournalView::fresh(
                outside.operation_id,
                outside.created_at,
                s.request(),
                direct.cleanup,
                direct.seed_created_by_operation,
            ),
        ),
    }
}

/// Creating and marking the target's directory, where there is a path.
pub open spec fn target_claimed(s: InstallView) -> Seq<EffectView> {
    if s.target_path.len() > 0 {
        seq![
            EffectView::CreateDir(s.target_path),
            EffectView::CreateMarker { path: s.target_path, operation_id: s.operation_id },
        ]
    } else {
        Seq::empty()
    }
}

/// With the journal of the direct installation written: the target's directory
/// is claimed and the installation run.
pub open spec fn after_direct_save(s: InstallView, saved: Result<Seq<char>, Seq<char>>) -> StepView {
    match saved {
        Err(reason) => unsaved(s, reason),
        Ok(journal) => {
            let args = commands::direct_install_args(s.store_id, s.name, s.target_path, s.web_download);
            run_next(
                InstallView { journal, ..s },
                Stage::DirectRun,
                target_claimed(s) + seq![
                    plain_line("Trying direct named install: "@ + commands::command_line(args)),
                ],
                args,
                RunMode::Streaming,
            )
        },
    }
}

/// Taking back the claim on the target and the journal: what a refused direct
/// installation leaves is nothing.
pub open spec fn direct_withdrawn(s: InstallView) -> Seq<EffectView> {
    seq![
        plain_line("Current WSL does not support '--name'; switching to compatibility mode."@),
        EffectView::RemoveMarker { path: s.target_path, operation_id: s.operation_id },
        EffectView::RemoveJournal(s.journal),
    ]
}

/// What the user is told where promotion would touch a seed that is in use.
pub open spec fn no_safe_fallback(store_id: Seq<char>) -> Seq<char> {
    "Current WSL does not support '--name'. Safe automatic fallback is unavailable while '"@ + store_id
        + "' already exists. Please upgrade WSL before creating another Store instance for this distro."@
}

/// Whether a failed direct installation means that WSL does not know `--name`.
pub open spec fn name_option_refused(result: CommandResultView) -> bool {
    commands::refuses_name_option(
        commands::said_lowered(
            result.output,
            match result.error {
                Some(e) => e,
                None => ""@,
            },
        ),
    )
}

/// With the direct installation run: on success the distributions are looked
/// at; where WSL does not know `--name`, a promotion is journalled, unless the
/// seed is in use; any other failure is left for recovery.
pub open spec fn after_direct_run(
    s: InstallView,
    result: CommandResultView,
    outside: OutsideView,
) -> StepView {
    if result.success {
        StepView {
            install: s.at(Stage::DirectList),
            effects: Seq::empty(),
            ask: AskView::ListDistros,
        }
    } else if name_option_refused(result) {
        if s.seed_exists {
            over(
                s,
                direct_withdrawn(s) + seq![EffectView::ShowTerminal] + failure_shown(
                    MessageView::Plain(no_safe_fallback(s.store_id)),
                ),
                false,
            )
        } else {
            let fallback = plan::plan_for(
                CapabilityProbe::Unsupported,
                false,
                s.request(),
                outside.archive_path,
            );
            StepView {
                install: InstallView {
                    operation_id: outside.operation_id,
                    archive_path: outside.archive_path,
                    ..s.at(Stage::SeedSave)
                },
                effects: direct_withdrawn(s),
                ask: AskView::SaveJournal(
                    JournalView::fresh(
                        outside.operation_id,
                        outside.created_at,
                        s.request(),
                        fallback.cleanup,
                        fallback.seed_created_by_operation,
                    ),
                ),
            }
        }
    } else {
        left_recoverable(s, output_shown(result.output), failure_reason(result, Phrase::InstallFailed))
    }
}

/// The name of the download source.
pub open spec fn source_name(web: bool) -> Seq<char> {
    if web {
        "GitHub"@
    } else {
        "Microsoft"@
    }
}

/// With the distributions listed after the direct installation: it succeeded if
/// the instance is among them.
pub open spec fn after_direct_list(s: InstallView, names: Seq<Seq<char>>) -> StepView {
    if names.contains(s.name) {
        over(
            s,
            seq![
                plain_line(
                    "Direct Store install succeeded using "@ + source_name(s.web_download)
                        + " as the download source."@,
                ),
                line(Phrase::StoreStep9),
                EffectView::SetPhase { journal: s.journal, phase: StoreCreatePhase::Completed },
                EffectView::RemoveMarker { path: s.target_path, operation_id: s.operation_id },
                EffectView::RemoveJournal(s.journal),
                EffectView::ShowTerminal,
            ] + success_shown(s.name),
            true,
        )
    } else {
        left_recoverable(s, Seq::empty(), MessageView::PhraseOf(Phrase::VerifyFailed, s.name))
    }
}

/// With the journal of the promotion written: the seed is installed.
pub open spec fn after_seed_save(s: InstallView, saved: Result<Seq<char>, Seq<char>>) -> StepView {
    match saved {
        Err(reason) => unsaved(s, reason),
        Ok(journal) => {
            let args = commands::seed_install_args(s.store_id, s.web_download);
            run_next(
                InstallView { journal, ..s },
                Stage::SeedRun,
                seq![
                    line(Phrase::StoreStep2),
                    line_of(Phrase::StoreStep3, commands::command_line(args)),
                    EffectView::Write(
                        MessageView::PhraseOf(Phrase::StoreStep4, source_name(s.web_download)),
                        false,
                    ),
                ],
                args,
                RunMode::Streaming,
            )
        },
    }
}

/// With the installation of the seed run.
pub open spec fn after_seed_run(s: InstallView, result: CommandResultView) -> StepView {
    if result.success {
        StepView { install: s.at(Stage::SeedList), effects: Seq::empty(), ask: AskView::ListDistros }
    } else {
        left_recoverable(s, output_shown(result.output), failure_reason(result, Phrase::InstallFailed))
    }
}

/// With the distributions listed after the installation of the seed.
pub open spec fn after_seed_list(s: InstallView, names: Seq<Seq<char>>) -> StepView {
    if names.contains(s.store_id) {
        StepView {
            install: s.at(Stage::SeedLocation),
            effects: Seq::empty(),
            ask: AskView::InstallLocation(s.store_id),
        }
    } else {
        left_recoverable(s, Seq::empty(), MessageView::PhraseOf(Phrase::VerifyFailed, s.store_id))
    }
}

/// Owning and marking the place of the seed, where it is known.
pub open spec fn seed_claimed(s: InstallView, place: Option<Seq<char>>) -> Seq<EffectView> {
    match place {
        Some(path) => seq![
            EffectView::OwnPath { journal: s.journal, path },
            EffectView::CreateMarker { path, operation_id: s.operation_id },
        ],
        None => Seq::empty(),
    }
}

/// With the place of the seed looked up: it is claimed, and the seed exported.
pub open spec fn after_seed_location(s: InstallView, place: Option<Seq<char>>) -> StepView {
    run_next(
        InstallView { seed_path: place, ..s },
        Stage::Export,
        seed_claimed(s, place) + seq![
            EffectView::SetPhase { journal: s.journal, phase: StoreCreatePhase::SeedReady },
            line(Phrase::StoreStep5),
            EffectView::SetPhase { journal: s.journal, phase: StoreCreatePhase::PromotionPending },
            line(Phrase::StoreStep6),
            EffectView::CreateDir(s.temp_location),
        ],
        commands::export_args(s.store_id, s.archive_path),
        RunMode::Quiet,
    )
}

/// With the seed exported: it is removed.
pub open spec fn after_export(s: InstallView, result: CommandResultView) -> StepView {
    if result.success {
        run_next(
            s,
            Stage::Unregister,
            seq![line(Phrase::StoreStep7)],
            commands::unregister_args(s.store_id),
            RunMode::Quiet,
        )
    } else {
        left_recoverable(s, Seq::empty(), failure_reason(result, Phrase::ImportFailedCustom))
    }
}

/// Giving up the place of the seed, where it is known.
pub open spec fn seed_released(s: InstallView) -> Seq<EffectView> {
    match s.seed_path {
        Some(path) => seq![EffectView::RemoveMarker { path, operation_id: s.operation_id }],
        None => Seq::empty(),
    }
}

/// With the seed removed: the target is imported from the archive.
pub open spec fn after_unregister(s: InstallView, result: CommandResultView) -> StepView {
    if result.success {
        run_next(
            s,
            Stage::Import,
            seed_released(s) + target_claimed(s),
            commands::import_args(s.name, s.target_path, s.archive_path, false),
            RunMode::Quiet,
        )
    } else {
        left_recoverable(s, Seq::empty(), failure_reason(result, Phrase::ImportFailedCustom))
    }
}

/// With the target imported: the archive, the marker and the journal go.
pub open spec fn after_import(s: InstallView, result: CommandResultView) -> StepView {
    if result.success {
        over(
            s,
            seq![
                line(Phrase::StoreStep8),
                line(Phrase::StoreStep9),
                EffectView::SetPhase { journal: s.journal, phase: StoreCreatePhase::Completed },
                EffectView::RemoveFile(s.archive_path),
                EffectView::RemoveMarker { path: s.target_path, operation_id: s.operation_id },
                EffectView::RemoveJournal(s.journal),
                EffectView::ShowTerminal,
            ] + success_shown(s.name),
            true,
        )
    } else {
        left_recoverable(s, Seq::empty(), failure_reason(result, Phrase::ImportFailedCustom))
    }
}

/// With the directory for an instance from a file created: the file is
/// imported.
pub open spec fn after_target_dir(s: InstallView, problem: Option<Seq<char>>) -> StepView {
    match problem {
        Some(reason) => over(
            s,
            failure_shown(MessageView::Plain("Failed to create directory: "@ + reason)),
            false,
        ),
        None => {
            let args = commands::import_args(s.name, s.target_path, s.file_path, s.vhd);
            run_next(
                s,
                Stage::FileRun,
                seq![
                    EffectView::SetStatus(MessageView::Phrase(Phrase::Importing)),
                    EffectView::Write(
                        MessageView::PhraseOf(Phrase::FileStep2, commands::command_line(args)),
                        false,
                    ),
                    EffectView::ShowTerminal,
                ],
                args,
                RunMode::Progress,
            )
        },
    }
}

/// With the file imported.
pub open spec fn after_file_run(s: InstallView, result: CommandResultView) -> StepView {
    if result.success {
        over(
            s,
            seq![line_of(Phrase::FileStep3, s.name), EffectView::ShowTerminal] + success_shown(s.name),
            true,
        )
    } else {
        over(
            s,
            output_shown(result.output) + seq![EffectView::ShowTerminal] + failure_shown(
                failure_reason(result, Phrase::ImportFailed),
            ),
            false,
        )
    }
}

/// The step that follows a reply.
pub open spec fn next(s: InstallView, reply: ReplyView, outside: OutsideView) -> StepView
    recommends
        fits(s.stage, reply),
{
    match s.stage {
        Stage::Suggestion => after_suggestion(s, reply->Suggested_name, outside.offered_path),
        Stage::Source => after_source(s, reply->Source_0, outside),
        Stage::DirectSave => after_direct_save(s, reply->Saved_0),
        Stage::DirectRun => after_direct_run(s, reply->Ran_0, outside),
        Stage::DirectList => after_direct_list(s, reply->Distros_0),
        Stage::SeedSave => after_seed_save(s, reply->Saved_0),
        Stage::SeedRun => after_seed_run(s, reply->Ran_0),
        Stage::SeedList => after_seed_list(s, reply->Distros_0),
        Stage::SeedLocation => after_seed_location(s, reply->Location_0),
        Stage::Export => after_export(s, reply->Ran_0),
        Stage::Unregister => after_unregister(s, reply->Ran_0),
        Stage::Import => after_import(s, reply->Ran_0),
        Stage::TargetDir => after_target_dir(s, reply->Created_0),
        Stage::FileRun => after_file_run(s, reply->Ran_0),
        Stage::Over => over(s, Seq::empty(), false),
    }
}

/// Whether a step is one that can follow a reply.
pub open spec fn next_outcome(s: InstallView, reply: ReplyView, step: StepView) -> bool {
    exists|outside: OutsideView|
        #[trigger] outside_outcome(s, reply, outside) && step == next(s, reply, outside)
}

/// The identifier of the distribution in the Store: the internal one, or else
/// its name.
pub open spec fn store_id_of(form: FormView) -> Seq<char> {
    if form.internal_id.len() > 0 {
        form.internal_id
    } else {
        form.friendly_name
    }
}

/// An installation before its first step.
pub open spec fn started(
    form: FormView,
    temp_location: Seq<char>,
    distros: Seq<Seq<char>>,
    name: Seq<char>,
    default_path: Seq<char>,
) -> InstallView {
    InstallView {
        stage: Stage::Over,
        name,
        store_id: store_id_of(form),
        target_path: if form.install_path.len() == 0 {
            default_path
        } else {
            form.install_path
        },
        file_path: form.file_path,
        vhd: form.source == naming::VHDX_SOURCE,
        seed_exists: distros.contains(store_id_of(form)),
        temp_location,
        web_download: false,
        operation_id: Seq::empty(),
        journal: Seq::empty(),
        archive_path: Seq::empty(),
        seed_path: None,
    }
}

/// What the window shows at the start.
pub open spec fn start_shown() -> Seq<EffectView> {
    seq![
        EffectView::SetInstalling(true),
        EffectView::SetStatus(MessageView::Phrase(Phrase::Checking)),
        EffectView::SetSuccess(false),
        EffectView::ClearTerminal,
        EffectView::SetNameError(MessageView::Plain(Seq::empty())),
    ]
}

/// What the window shows of a name that cannot be used.
pub open spec fn bad_name_shown(complaint: Phrase) -> Seq<EffectView> {
    seq![
        EffectView::SetNameError(MessageView::Phrase(complaint)),
        EffectView::SetInstalling(false),
        EffectView::SetStatus(MessageView::Phrase(Phrase::Error)),
    ]
}

/// The first step, with the name chosen and the path that it gets by default: a
/// name that is missing, unfit or taken goes no further; then the source
/// decides.
pub open spec fn opening(
    form: FormView,
    temp_location: Seq<char>,
    distros: Seq<Seq<char>>,
    name: Seq<char>,
    default_path: Seq<char>,
) -> StepView {
    let s = started(form, temp_location, distros, name, default_path);
    if name.len() == 0 {
        over(s, start_shown() + bad_name_shown(Phrase::NameRequired), false)
    } else if !naming::fit_name(name) {
        over(s, start_shown() + bad_name_shown(Phrase::NameInvalid), false)
    } else if distros.contains(name) {
        StepView {
            install: s.at(Stage::Suggestion),
            effects: start_shown(),
            ask: AskView::SuggestName(name),
        }
    } else if form.source == naming::STORE_SOURCE {
        if s.store_id.len() == 0 {
            over(
                s,
                start_shown() + seq![
                    EffectView::SetStatus(MessageView::Phrase(Phrase::UnknownDistro)),
                    EffectView::SetInstalling(false),
                ],
                false,
            )
        } else {
            StepView {
                install: s.at(Stage::Source),
                effects: start_shown() + seq![
                    EffectView::SetStatus(MessageView::Phrase(Phrase::Installing)),
                    line_of(Phrase::StoreStep1, s.store_id),
                    EffectView::ShowTerminal,
                ],
                ask: AskView::FastestSource,
            }
        }
    } else if form.source == naming::ROOTFS_SOURCE || form.source == naming::VHDX_SOURCE {
        if form.file_path.len() == 0 {
            over(s, start_shown() + failure_shown(MessageView::Phrase(Phrase::SelectFile)), false)
        } else {
            StepView {
                install: s.at(Stage::TargetDir),
                effects: start_shown() + seq![line(Phrase::FileStep1), EffectView::ShowTerminal],
                ask: AskView::CreateTarget(s.target_path),
            }
        }
    } else {
        over(s, start_shown() + failure_shown(MessageView::Phrase(Phrase::UnknownSource)), false)
    }
}

/// The name that a form leads to, given the stem of the file's name.
pub open spec fn form_name(form: FormView, file_stem: Option<Seq<char>>) -> Seq<char> {
    naming::chosen_name(form.source, form.name, form.friendly_name, form.file_path, file_stem)
}

/// What holds of everything that the first step gets from outside: the stem of
/// the file's name, and the chosen name put under the directory for instances.
pub open spec fn opening_inputs(
    form: FormView,
    distro_location: Seq<char>,
    file_stem: Option<Seq<char>>,
    default_path: Seq<char>,
) -> bool {
    &&& paths::stem_outcome(form.file_path, file_stem)
    &&& paths::join_outcome(distro_location, form_name(form, file_stem), default_path)
}

/// Whether a step is one that a form can lead to.
pub open spec fn opening_outcome(
    form: FormView,
    distro_location: Seq<char>,
    temp_location: Seq<char>,
    distros: Seq<Seq<char>>,
    step: StepView,
) -> bool {
    exists|file_stem: Option<Seq<char>>, default_path: Seq<char>|
        #[trigger] opening_inputs(form, distro_location, file_stem, default_path) && step == opening(
            form,
            temp_location,
            distros,
            form_name(form, file_stem),
            default_path,
        )
}

} // verus!
