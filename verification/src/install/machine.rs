//! Performing the steps of an installation.
use crate::commands;
use crate::commands::CommandResult;
use crate::install::laws;
use crate::install::rules;
use crate::install::types;
use crate::install::types::Ask;
use crate::install::types::AskView;
use crate::install::types::Effect;
use crate::install::types::EffectView;
use crate::install::types::Install;
use crate::install::types::InstallForm;
use crate::install::types::InstallSettings;
use crate::install::types::InstallView;
use crate::install::types::Outside;
use crate::install::types::Reply;
use crate::install::types::RunMode;
use crate::install::types::Stage;
use crate::install::types::Step;
use crate::install::types::StepView;
use crate::messages::Message;
use crate::messages::MessageView;
use crate::messages::Phrase;
use crate::naming;
use crate::paths;
use crate::plan;
use crate::plan::CapabilityProbe;
use crate::plan::JournalView;
use crate::plan::StoreCreateJournal;
use crate::plan::StoreCreatePhase;
use crate::plan::StoreCreateRequest;
use crate::stamp;
use crate::text;
use vstd::prelude::*;

verus! {

/// Appends an effect.
fn emit(effects: &mut Vec<Effect>, effect: Effect)
    ensures
        types::effect_views(final(effects)@) == types::effect_views(old(effects)@).push(effect@),
{
    effects.push(effect);
    assert(types::effect_views(effects@) =~= types::effect_views(old(effects)@).push(effect@));
}

/// No effects.
fn no_effects() -> (effects: Vec<Effect>)
    ensures
        types::effect_views(effects@) == Seq::<EffectView>::empty(),
{
    let effects: Vec<Effect> = Vec::new();
    assert(types::effect_views(effects@) =~= Seq::<EffectView>::empty());
    effects
}

/// Appends a fixed text as a line of the terminal.
fn emit_plain(effects: &mut Vec<Effect>, line: String)
    ensures
        types::effect_views(final(effects)@) == types::effect_views(old(effects)@).push(rules::plain_line(line@)),
{
    emit(effects, Effect::Write(Message::Plain(line), true));
}

/// Appends a phrase as a line of the terminal.
fn emit_line(effects: &mut Vec<Effect>, phrase: Phrase)
    ensures
        types::effect_views(final(effects)@) == types::effect_views(old(effects)@).push(rules::line(phrase)),
{
    emit(effects, Effect::Write(Message::Phrase(phrase), true));
}

/// Appends what the window shows of a success.
fn emit_success(effects: &mut Vec<Effect>, name: &str)
    ensures
        types::effect_views(final(effects)@) == types::effect_views(old(effects)@) + rules::success_shown(name@),
{
    emit(effects, Effect::SetSuccess(true));
    emit(effects, Effect::SetStatus(Message::PhraseOf(Phrase::CreatedSuccess, name.to_owned())));
    emit(effects, Effect::SetInstalling(false));
    assert(types::effect_views(effects@) =~= types::effect_views(old(effects)@) + rules::success_shown(name@));
}

/// Appends what the window shows of a failure.
fn emit_failure(effects: &mut Vec<Effect>, reason: Message)
    ensures
        types::effect_views(final(effects)@) == types::effect_views(old(effects)@) + rules::failure_shown(reason@),
{
    emit(effects, Effect::SetSuccess(false));
    emit(effects, Effect::SetFailure(reason));
    emit(effects, Effect::SetInstalling(false));
    assert(types::effect_views(effects@) =~= types::effect_views(old(effects)@) + rules::failure_shown(reason@));
}

/// Appends the output of a failed command, unless it is blank.
fn emit_output(effects: &mut Vec<Effect>, output: &str)
    ensures
        types::effect_views(final(effects)@) == types::effect_views(old(effects)@) + rules::output_shown(output@),
{
    if !text::is_blank(output) {
        let mut shown = "\n[WSL Output]\n".to_owned();
        shown.append(output);
        emit_plain(effects, shown);
    }
    assert(types::effect_views(effects@) =~= types::effect_views(old(effects)@) + rules::output_shown(output@));
}

/// Why a command failed.
fn reason_of(result: CommandResult, otherwise: Phrase) -> (reason: Message)
    ensures
        reason@ == rules::failure_reason(result@, otherwise),
{
    match result.error {
        Some(e) => Message::Plain(e),
        None => Message::Phrase(otherwise),
    }
}

/// The last step.
fn finish(install: Install, effects: Vec<Effect>, refresh: bool) -> (step: Step)
    ensures
        step@ == rules::over(install@, types::effect_views(effects@), refresh),
{
    let mut install = install;
    install.stage = Stage::Over;
    Step { install, effects, ask: Ask::Finish { refresh } }
}

/// The step of a Store installation that cannot go on.
fn leave_recoverable(install: Install, effects: Vec<Effect>, reason: Message) -> (step: Step)
    ensures
        step@ == rules::left_recoverable(install@, types::effect_views(effects@), reason@),
{
    let ghost before = types::effect_views(effects@);
    let mut effects = effects;
    emit(
        &mut effects,
        Effect::SetPhase { journal: install.journal.clone(), phase: StoreCreatePhase::Recoverable },
    );
    emit(&mut effects, Effect::ShowTerminal);
    emit_failure(&mut effects, reason);
    assert(types::effect_views(effects@) =~= before + seq![
        EffectView::SetPhase { journal: install@.journal, phase: StoreCreatePhase::Recoverable },
        EffectView::ShowTerminal,
    ] + rules::failure_shown(reason@));
    finish(install, effects, false)
}

/// A step that leads to running a command.
fn run_command(install: Install, stage: Stage, effects: Vec<Effect>, args: Vec<String>, mode: RunMode) -> (step: Step)
    ensures
        step@ == rules::run_next(install@, stage, types::effect_views(effects@), text::views(args@), mode),
{
    let mut install = install;
    install.stage = stage;
    Step { install, effects, ask: Ask::Run { args, mode } }
}

/// The step where no journal could be written.
fn stop_unsaved(install: Install, reason: String) -> (step: Step)
    ensures
        step@ == rules::unsaved(install@, reason@),
{
    let mut effects = no_effects();
    emit(&mut effects, Effect::SetFailure(Message::Plain(reason)));
    emit(&mut effects, Effect::SetInstalling(false));
    assert(types::effect_views(effects@) =~= rules::unsaved(install@, reason@).effects);
    finish(install, effects, false)
}

/// Appends creating and marking the target's directory.
fn emit_target_claim(effects: &mut Vec<Effect>, install: &Install)
    ensures
        types::effect_views(final(effects)@) == types::effect_views(old(effects)@) + rules::target_claimed(install@),
{
    if !install.target_path.as_str().is_empty() {
        emit(effects, Effect::CreateDir(install.target_path.clone()));
        emit(
            effects,
            Effect::CreateMarker {
                path: install.target_path.clone(),
                operation_id: install.operation_id.clone(),
            },
        );
    }
    assert(types::effect_views(effects@) =~= types::effect_views(old(effects)@) + rules::target_claimed(install@));
}

/// The request of a Store installation.
fn request_of(install: &Install) -> (request: StoreCreateRequest)
    ensures
        request@ == install@.request(),
{
    StoreCreateRequest::new(
        install.name.as_str(),
        install.target_path.as_str(),
        install.store_id.as_str(),
    )
}

/// Asks to journal an operation under a plan, from then on waiting at `stage`.
fn journal_operation(
    install: Install,
    stage: Stage,
    effects: Vec<Effect>,
    probe: CapabilityProbe,
    outside: Outside,
) -> (step: Step)
    ensures
        ({
            let chosen = plan::plan_for(
                probe,
                install@.seed_exists,
                install@.request(),
                outside@.archive_path,
            );
            step@ == StepView {
                install: InstallView { operation_id: outside@.operation_id, ..install@.at(stage) },
                effects: types::effect_views(effects@),
                ask: AskView::SaveJournal(
                    JournalView::fresh(
                        outside@.operation_id,
                        outside@.created_at,
                        install@.request(),
                        chosen.cleanup,
                        chosen.seed_created_by_operation,
                    ),
                ),
            }
        }),
{
    let request = request_of(&install);
    let chosen = plan::plan_with_archive(probe, install.seed_exists, &request, outside.archive_path);
    let journal = StoreCreateJournal::new_at(
        outside.created_at,
        outside.operation_id.as_str(),
        request,
        chosen.cleanup,
        chosen.seed_created_by_operation,
    );
    let mut install = install;
    install.operation_id = outside.operation_id;
    install.stage = stage;
    Step { install, effects, ask: Ask::SaveJournal(journal) }
}

/// With another name at hand.
fn on_suggestion(install: Install, name: String, path: String) -> (step: Step)
    ensures
        step@ == rules::after_suggestion(install@, name@, path@),
{
    let mut effects = no_effects();
    emit(&mut effects, Effect::OfferName { name, path });
    emit(&mut effects, Effect::SetNameError(Message::PhraseOf(Phrase::NameExists, install.name.clone())));
    emit(&mut effects, Effect::SetInstalling(false));
    emit(&mut effects, Effect::SetStatus(Message::Phrase(Phrase::ConflictError)));
    assert(types::effect_views(effects@) =~= rules::after_suggestion(install@, name@, path@).effects);
    finish(install, effects, false)
}

/// With the source known.
fn on_source(install: Install, web: bool, outside: Outside) -> (step: Step)
    ensures
        step@ == rules::after_source(install@, web, outside@),
{
    let mut install = install;
    install.web_download = web;
    journal_operation(install, Stage::DirectSave, no_effects(), CapabilityProbe::Supported, outside)
}

/// With the journal of the direct installation written, or not.
fn on_direct_save(install: Install, saved: Result<String, String>) -> (step: Step)
    ensures
        step@ == rules::after_direct_save(
            install@,
            match saved {
                Ok(path) => Ok(path@),
                Err(reason) => Err(reason@),
            },
        ),
{
    match saved {
        Err(reason) => stop_unsaved(install, reason),
        Ok(path) => {
            let args = commands::direct_install_command(
                install.store_id.as_str(),
                install.name.as_str(),
                install.target_path.as_str(),
                install.web_download,
            );
            let mut announced = "Trying direct named install: ".to_owned();
            announced.append(commands::command_text(&args).as_str());
            let mut effects = no_effects();
            emit_target_claim(&mut effects, &install);
            emit_plain(&mut effects, announced);
            assert(types::effect_views(effects@) =~= rules::target_claimed(install@) + seq![rules::plain_line(announced@)]);
            let mut install = install;
            install.journal = path;
            run_command(install, Stage::DirectRun, effects, args, RunMode::Streaming)
        },
    }
}

/// Whether a failed direct installation means that WSL does not know `--name`.
fn refused_for_name(result: &CommandResult) -> (yes: bool)
    ensures
        yes == rules::name_option_refused(result@),
{
    match &result.error {
        Some(e) => commands::supports_named_install_error(result.output.as_str(), e.as_str()),
        None => commands::supports_named_install_error(result.output.as_str(), ""),
    }
}

/// With the direct installation run.
fn on_direct_run(install: Install, result: CommandResult, outside: Outside) -> (step: Step)
    ensures
        step@ == rules::after_direct_run(install@, result@, outside@),
{
    let mut effects = no_effects();
    if result.success {
        let mut install = install;
        install.stage = Stage::DirectList;
        return Step { install, effects, ask: Ask::ListDistros };
    }
    if !refused_for_name(&result) {
        emit_output(&mut effects, result.output.as_str());
        assert(types::effect_views(effects@) =~= rules::output_shown(result@.output));
        return leave_recoverable(install, effects, reason_of(result, Phrase::InstallFailed));
    }
    emit_plain(
        &mut effects,
        "Current WSL does not support '--name'; switching to compatibility mode.".to_owned(),
    );
    emit(
        &mut effects,
        Effect::RemoveMarker {
            path: install.target_path.clone(),
            operation_id: install.operation_id.clone(),
        },
    );
    emit(&mut effects, Effect::RemoveJournal(install.journal.clone()));
    assert(types::effect_views(effects@) =~= rules::direct_withdrawn(install@));
    if install.seed_exists {
        let mut told =
            "Current WSL does not support '--name'. Safe automatic fallback is unavailable while '".to_owned();
        told.append(install.store_id.as_str());
        told.append(
            "' already exists. Please upgrade WSL before creating another Store instance for this distro.",
        );
        emit(&mut effects, Effect::ShowTerminal);
        emit_failure(&mut effects, Message::Plain(told));
        assert(types::effect_views(effects@) =~= rules::direct_withdrawn(install@) + seq![EffectView::ShowTerminal]
            + rules::failure_shown(MessageView::Plain(told@)));
        return finish(install, effects, false);
    }
    let mut install = install;
    install.archive_path = outside.archive_path.clone();
    journal_operation(install, Stage::SeedSave, effects, CapabilityProbe::Unsupported, outside)
}

/// The name of the download source.
fn source_text(web: bool) -> (name: &'static str)
    ensures
        name@ == rules::source_name(web),
{
    if web {
        "GitHub"
    } else {
        "Microsoft"
    }
}

/// With the distributions listed after the direct installation.
fn on_direct_list(install: Install, names: &Vec<String>) -> (step: Step)
    ensures
        step@ == rules::after_direct_list(install@, text::views(names@)),
{
    let mut effects = no_effects();
    if !text::list_has(names, install.name.as_str()) {
        let reason = Message::PhraseOf(Phrase::VerifyFailed, install.name.clone());
        return leave_recoverable(install, effects, reason);
    }
    let mut told = "Direct Store install succeeded using ".to_owned();
    told.append(source_text(install.web_download));
    told.append(" as the download source.");
    emit_plain(&mut effects, told);
    emit_line(&mut effects, Phrase::StoreStep9);
    emit(
        &mut effects,
        Effect::SetPhase { journal: install.journal.clone(), phase: StoreCreatePhase::Completed },
    );
    emit(
        &mut effects,
        Effect::RemoveMarker {
            path: install.target_path.clone(),
            operation_id: install.operation_id.clone(),
        },
    );
    emit(&mut effects, Effect::RemoveJournal(install.journal.clone()));
    emit(&mut effects, Effect::ShowTerminal);
    emit_success(&mut effects, install.name.as_str());
    assert(types::effect_views(effects@) =~= rules::after_direct_list(install@, text::views(names@)).effects);
    finish(install, effects, true)
}

/// With the journal of the promotion written, or not.
fn on_seed_save(install: Install, saved: Result<String, String>) -> (step: Step)
    ensures
        step@ == rules::after_seed_save(
            install@,
            match saved {
                Ok(path) => Ok(path@),
                Err(reason) => Err(reason@),
            },
        ),
{
    match saved {
        Err(reason) => stop_unsaved(install, reason),
        Ok(path) => {
            let args = commands::seed_install_command(install.store_id.as_str(), install.web_download);
            let command = commands::command_text(&args);
            let mut effects = no_effects();
            emit_line(&mut effects, Phrase::StoreStep2);
            emit(&mut effects, Effect::Write(Message::PhraseOf(Phrase::StoreStep3, command), true));
            emit(
                &mut effects,
                Effect::Write(
                    Message::PhraseOf(Phrase::StoreStep4, source_text(install.web_download).to_owned()),
                    false,
                ),
            );
            assert(types::effect_views(effects@) =~= seq![
                rules::line(Phrase::StoreStep2),
                rules::line_of(Phrase::StoreStep3, command@),
                EffectView::Write(
                    MessageView::PhraseOf(Phrase::StoreStep4, rules::source_name(install@.web_download)),
                    false,
                ),
            ]);
            let mut install = install;
            install.journal = path;
            run_command(install, Stage::SeedRun, effects, args, RunMode::Streaming)
        },
    }
}

/// With the installation of the seed run.
fn on_seed_run(install: Install, result: CommandResult) -> (step: Step)
    ensures
        step@ == rules::after_seed_run(install@, result@),
{
    let mut effects = no_effects();
    if result.success {
        let mut install = install;
        install.stage = Stage::SeedList;
        return Step { install, effects, ask: Ask::ListDistros };
    }
    emit_output(&mut effects, result.output.as_str());
    assert(types::effect_views(effects@) =~= rules::output_shown(result@.output));
    leave_recoverable(install, effects, reason_of(result, Phrase::InstallFailed))
}

/// With the distributions listed after the installation of the seed.
fn on_seed_list(install: Install, names: &Vec<String>) -> (step: Step)
    ensures
        step@ == rules::after_seed_list(install@, text::views(names@)),
{
    let effects = no_effects();
    let seed = install.store_id.clone();
    if !text::list_has(names, seed.as_str()) {
        return leave_recoverable(install, effects, Message::PhraseOf(Phrase::VerifyFailed, seed));
    }
    let mut install = install;
    install.stage = Stage::SeedLocation;
    Step { install, effects, ask: Ask::InstallLocation(seed) }
}

/// With the place of the seed looked up.
fn on_seed_location(install: Install, place: Option<String>) -> (step: Step)
    ensures
        step@ == rules::after_seed_location(install@, text::opt_view(place)),
{
    let mut effects = no_effects();
    if let Some(path) = &place {
        emit(&mut effects, Effect::OwnPath { journal: install.journal.clone(), path: path.clone() });
        emit(
            &mut effects,
            Effect::CreateMarker { path: path.clone(), operation_id: install.operation_id.clone() },
        );
    }
    emit(
        &mut effects,
        Effect::SetPhase { journal: install.journal.clone(), phase: StoreCreatePhase::SeedReady },
    );
    emit_line(&mut effects, Phrase::StoreStep5);
    emit(
        &mut effects,
        Effect::SetPhase { journal: install.journal.clone(), phase: StoreCreatePhase::PromotionPending },
    );
    emit_line(&mut effects, Phrase::StoreStep6);
    emit(&mut effects, Effect::CreateDir(install.temp_location.clone()));
    assert(types::effect_views(effects@) =~= rules::after_seed_location(install@, text::opt_view(place)).effects);
    let args = commands::export_command(install.store_id.as_str(), install.archive_path.as_str());
    let mut install = install;
    install.seed_path = place;
    run_command(install, Stage::Export, effects, args, RunMode::Quiet)
}

/// With the export of the seed run.
fn on_export(install: Install, result: CommandResult) -> (step: Step)
    ensures
        step@ == rules::after_export(install@, result@),
{
    let mut effects = no_effects();
    if !result.success {
        return leave_recoverable(install, effects, reason_of(result, Phrase::ImportFailedCustom));
    }
    emit_line(&mut effects, Phrase::StoreStep7);
    assert(types::effect_views(effects@) =~= seq![rules::line(Phrase::StoreStep7)]);
    let args = commands::unregister_command(install.store_id.as_str());
    run_command(install, Stage::Unregister, effects, args, RunMode::Quiet)
}

/// With the removal of the seed run.
fn on_unregister(install: Install, result: CommandResult) -> (step: Step)
    ensures
        step@ == rules::after_unregister(install@, result@),
{
    let mut effects = no_effects();
    if !result.success {
        return leave_recoverable(install, effects, reason_of(result, Phrase::ImportFailedCustom));
    }
    if let Some(path) = &install.seed_path {
        emit(
            &mut effects,
            Effect::RemoveMarker { path: path.clone(), operation_id: install.operation_id.clone() },
        );
    }
    assert(types::effect_views(effects@) =~= rules::seed_released(install@));
    emit_target_claim(&mut effects, &install);
    let args = commands::import_command(
        install.name.as_str(),
        install.target_path.as_str(),
        install.archive_path.as_str(),
        false,
    );
    run_command(install, Stage::Import, effects, args, RunMode::Quiet)
}

/// With the import of the target run.
fn on_import(install: Install, result: CommandResult) -> (step: Step)
    ensures
        step@ == rules::after_import(install@, result@),
{
    let mut effects = no_effects();
    if !result.success {
        return leave_recoverable(install, effects, reason_of(result, Phrase::ImportFailedCustom));
    }
    emit_line(&mut effects, Phrase::StoreStep8);
    emit_line(&mut effects, Phrase::StoreStep9);
    emit(
        &mut effects,
        Effect::SetPhase { journal: install.journal.clone(), phase: StoreCreatePhase::Completed },
    );
    emit(&mut effects, Effect::RemoveFile(install.archive_path.clone()));
    emit(
        &mut effects,
        Effect::RemoveMarker {
            path: install.target_path.clone(),
            operation_id: install.operation_id.clone(),
        },
    );
    emit(&mut effects, Effect::RemoveJournal(install.journal.clone()));
    emit(&mut effects, Effect::ShowTerminal);
    emit_success(&mut effects, install.name.as_str());
    assert(types::effect_views(effects@) =~= rules::after_import(install@, result@).effects);
    finish(install, effects, true)
}

/// With the directory for an instance from a file created, or not.
fn on_target_dir(install: Install, problem: Option<String>) -> (step: Step)
    ensures
        step@ == rules::after_target_dir(install@, text::opt_view(problem)),
{
    let mut effects = no_effects();
    if let Some(reason) = problem {
        let mut told = "Failed to create directory: ".to_owned();
        told.append(reason.as_str());
        emit_failure(&mut effects, Message::Plain(told));
        assert(types::effect_views(effects@) =~= rules::failure_shown(MessageView::Plain(told@)));
        return finish(install, effects, false);
    }
    let args = commands::import_command(
        install.name.as_str(),
        install.target_path.as_str(),
        install.file_path.as_str(),
        install.vhd,
    );
    let command = commands::command_text(&args);
    emit(&mut effects, Effect::SetStatus(Message::Phrase(Phrase::Importing)));
    emit(&mut effects, Effect::Write(Message::PhraseOf(Phrase::FileStep2, command), false));
    emit(&mut effects, Effect::ShowTerminal);
    assert(types::effect_views(effects@) =~= rules::after_target_dir(install@, text::opt_view(problem)).effects);
    run_command(install, Stage::FileRun, effects, args, RunMode::Progress)
}

/// With the import of a file run.
fn on_file_run(install: Install, result: CommandResult) -> (step: Step)
    ensures
        step@ == rules::after_file_run(install@, result@),
{
    let mut effects = no_effects();
    if result.success {
        emit(
            &mut effects,
            Effect::Write(Message::PhraseOf(Phrase::FileStep3, install.name.clone()), true),
        );
        emit(&mut effects, Effect::ShowTerminal);
        emit_success(&mut effects, install.name.as_str());
        assert(types::effect_views(effects@) =~= rules::after_file_run(install@, result@).effects);
        return finish(install, effects, true);
    }
    emit_output(&mut effects, result.output.as_str());
    emit(&mut effects, Effect::ShowTerminal);
    emit_failure(&mut effects, reason_of(result, Phrase::ImportFailed));
    assert(types::effect_views(effects@) =~= rules::after_file_run(install@, result@).effects);
    finish(install, effects, false)
}

/// Whether a reply answers what the machine waits for.
pub fn answers(stage: Stage, reply: &Reply) -> (yes: bool)
    ensures
        yes == rules::fits(stage, reply@),
{
    match reply {
        Reply::Suggested { name, location } => stage == Stage::Suggestion,
        Reply::Source(web) => stage == Stage::Source,
        Reply::Saved(saved) => stage == Stage::DirectSave || stage == Stage::SeedSave,
        Reply::Ran(result) => {
            stage == Stage::DirectRun || stage == Stage::SeedRun || stage == Stage::Export || stage
                == Stage::Unregister || stage == Stage::Import || stage == Stage::FileRun
        },
        Reply::Distros(names) => stage == Stage::DirectList || stage == Stage::SeedList,
        Reply::Location(place) => stage == Stage::SeedLocation,
        Reply::Created(problem) => stage == Stage::TargetDir,
    }
}

/// The step that follows a reply, with what it needs from outside given.
pub fn advance_with(install: Install, reply: Reply, outside: Outside) -> (step: Step)
    requires
        rules::fits(install@.stage, reply@),
    ensures
        step@ == rules::next(install@, reply@, outside@),
{
    let stage = install.stage;
    match reply {
        Reply::Suggested { name, location } => on_suggestion(install, name, outside.offered_path),
        Reply::Source(web) => on_source(install, web, outside),
        Reply::Saved(saved) => {
            if stage == Stage::DirectSave {
                on_direct_save(install, saved)
            } else {
                on_seed_save(install, saved)
            }
        },
        Reply::Ran(result) => match stage {
            Stage::DirectRun => on_direct_run(install, result, outside),
            Stage::SeedRun => on_seed_run(install, result),
            Stage::Export => on_export(install, result),
            Stage::Unregister => on_unregister(install, result),
            Stage::Import => on_import(install, result),
            _ => on_file_run(install, result),
        },
        Reply::Distros(names) => {
            if stage == Stage::DirectList {
                on_direct_list(install, &names)
            } else {
                on_seed_list(install, &names)
            }
        },
        Reply::Location(place) => on_seed_location(install, place),
        Reply::Created(problem) => on_target_dir(install, problem),
    }
}

/// The step that follows a reply.
pub fn advance(install: Install, reply: Reply) -> (step: Step)
    requires
        rules::fits(install@.stage, reply@),
    ensures
        rules::next_outcome(install@, reply@, step@),
        laws::asked_for(step@.install.stage, step@.ask),
        laws::steps_left(step@.install.stage) < laws::steps_left(install@.stage),
        laws::sound(install@) ==> laws::sound(step@.install),
{
    let offered_path = match &reply {
        Reply::Suggested { name, location } => paths::path_join(location.as_str(), name.as_str()),
        _ => String::new(),
    };
    let outside = if install.stage == Stage::Source || install.stage == Stage::DirectRun {
        Outside {
            operation_id: stamp::new_random_id(),
            created_at: stamp::now_rfc3339(),
            archive_path: plan::archive_path_of(&request_of(&install)),
            offered_path,
        }
    } else {
        Outside {
            operation_id: String::new(),
            created_at: String::new(),
            archive_path: String::new(),
            offered_path,
        }
    };
    assert(rules::outside_outcome(install@, reply@, outside@));
    proof {
        laws::law_step(install@, reply@, outside@);
    }
    advance_with(install, reply, outside)
}

/// Appends what the window shows of a name that cannot be used.
fn emit_bad_name(effects: &mut Vec<Effect>, complaint: Phrase)
    ensures
        types::effect_views(final(effects)@) == types::effect_views(old(effects)@) + rules::bad_name_shown(complaint),
{
    emit(effects, Effect::SetNameError(Message::Phrase(complaint)));
    emit(effects, Effect::SetInstalling(false));
    emit(effects, Effect::SetStatus(Message::Phrase(Phrase::Error)));
    assert(types::effect_views(effects@) =~= types::effect_views(old(effects)@) + rules::bad_name_shown(complaint));
}

/// The first step, with the name chosen and the path that it gets by default.
pub fn begin_with(
    form: InstallForm,
    settings: InstallSettings,
    distros: &Vec<String>,
    name: String,
    default_path: String,
) -> (step: Step)
    ensures
        step@ == rules::opening(form@, settings.temp_location@, text::views(distros@), name@, default_path@),
{
    let ghost view = form@;
    let source = form.source;
    let store_id = if !form.internal_id.as_str().is_empty() {
        form.internal_id
    } else {
        form.friendly_name
    };
    let target_path = if form.install_path.as_str().is_empty() {
        default_path
    } else {
        form.install_path
    };
    let seed_exists = text::list_has(distros, store_id.as_str());
    let taken = text::list_has(distros, name.as_str());
    let mut install = Install {
        stage: Stage::Over,
        name,
        store_id,
        target_path,
        file_path: form.file_path,
        vhd: source == naming::VHDX_SOURCE,
        seed_exists,
        temp_location: settings.temp_location,
        web_download: false,
        operation_id: String::new(),
        journal: String::new(),
        archive_path: String::new(),
        seed_path: None,
    };
    let ghost s = rules::started(view, settings.temp_location@, text::views(distros@), name@, default_path@);
    assert(install@ == s);
    let mut effects = no_effects();
    emit(&mut effects, Effect::SetInstalling(true));
    emit(&mut effects, Effect::SetStatus(Message::Phrase(Phrase::Checking)));
    emit(&mut effects, Effect::SetSuccess(false));
    emit(&mut effects, Effect::ClearTerminal);
    emit(&mut effects, Effect::SetNameError(Message::Plain(String::new())));
    assert(types::effect_views(effects@) =~= rules::start_shown());
    if install.name.as_str().is_empty() {
        emit_bad_name(&mut effects, Phrase::NameRequired);
        return finish(install, effects, false);
    }
    if !naming::is_fit_name(install.name.as_str()) {
        emit_bad_name(&mut effects, Phrase::NameInvalid);
        return finish(install, effects, false);
    }
    if taken {
        let ask = Ask::SuggestName(install.name.clone());
        install.stage = Stage::Suggestion;
        return Step { install, effects, ask };
    }
    if source == naming::STORE_SOURCE {
        if install.store_id.as_str().is_empty() {
            emit(&mut effects, Effect::SetStatus(Message::Phrase(Phrase::UnknownDistro)));
            emit(&mut effects, Effect::SetInstalling(false));
            assert(types::effect_views(effects@) =~= rules::start_shown() + seq![
                EffectView::SetStatus(MessageView::Phrase(Phrase::UnknownDistro)),
                EffectView::SetInstalling(false),
            ]);
            return finish(install, effects, false);
        }
        emit(&mut effects, Effect::SetStatus(Message::Phrase(Phrase::Installing)));
        emit(
            &mut effects,
            Effect::Write(Message::PhraseOf(Phrase::StoreStep1, install.store_id.clone()), true),
        );
        emit(&mut effects, Effect::ShowTerminal);
        assert(types::effect_views(effects@) =~= rules::start_shown() + seq![
            EffectView::SetStatus(MessageView::Phrase(Phrase::Installing)),
            rules::line_of(Phrase::StoreStep1, s.store_id),
            EffectView::ShowTerminal,
        ]);
        install.stage = Stage::Source;
        return Step { install, effects, ask: Ask::FastestSource };
    }
    if source == naming::ROOTFS_SOURCE || source == naming::VHDX_SOURCE {
        if install.file_path.as_str().is_empty() {
            emit_failure(&mut effects, Message::Phrase(Phrase::SelectFile));
            return finish(install, effects, false);
        }
        emit_line(&mut effects, Phrase::FileStep1);
        emit(&mut effects, Effect::ShowTerminal);
        assert(types::effect_views(effects@) =~= rules::start_shown() + seq![
            rules::line(Phrase::FileStep1),
            EffectView::ShowTerminal,
        ]);
        let ask = Ask::CreateTarget(install.target_path.clone());
        install.stage = Stage::TargetDir;
        return Step { install, effects, ask };
    }
    emit_failure(&mut effects, Message::Phrase(Phrase::UnknownSource));
    finish(install, effects, false)
}

/// The first step of an installation, given the names of the distributions that
/// are installed.
pub fn begin(form: InstallForm, settings: InstallSettings, distros: &Vec<String>) -> (step: Step)
    ensures
        rules::opening_outcome(
            form@,
            settings.distro_location@,
            settings.temp_location@,
            text::views(distros@),
            step@,
        ),
        laws::asked_for(step@.install.stage, step@.ask),
        laws::sound(step@.install),
{
    let file_stem = paths::path_file_stem(form.file_path.as_str());
    let ghost stem = text::opt_view(file_stem);
    let name = naming::choose_name(
        form.source,
        form.name.as_str(),
        form.friendly_name.as_str(),
        form.file_path.as_str(),
        file_stem,
    );
    let default_path = paths::path_join(settings.distro_location.as_str(), name.as_str());
    assert(rules::opening_inputs(form@, settings.distro_location@, stem, default_path@));
    proof {
        laws::law_opening(form@, settings.temp_location@, text::views(distros@), name@, default_path@);
    }
    begin_with(form, settings, distros, name, default_path)
}

} // verus!
