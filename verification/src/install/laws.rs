//! What holds of every installation.
use crate::commands;
use crate::install::rules;
use crate::install::types::AskView;
use crate::install::types::EffectView;
use crate::install::types::FormView;
use crate::install::types::InstallView;
use crate::install::types::OutsideView;
use crate::install::types::ReplyView;
use crate::install::types::Stage;
use crate::install::types::StepView;
use crate::locations;
use crate::messages::MessageView;
use crate::messages::Phrase;
use crate::naming;
use crate::plan::StoreCreatePhase;
use crate::stamp;
use vstd::prelude::*;

verus! {

/// The stages of a promotion.
pub open spec fn promoting(stage: Stage) -> bool {
    ||| stage == Stage::SeedSave
    ||| stage == Stage::SeedRun
    ||| stage == Stage::SeedList
    ||| stage == Stage::SeedLocation
    ||| stage == Stage::Export
    ||| stage == Stage::Unregister
    ||| stage == Stage::Import
}

/// The stages at which an operation is journalled.
pub open spec fn journalled(stage: Stage) -> bool {
    ||| stage == Stage::DirectRun
    ||| stage == Stage::DirectList
    ||| promoting(stage) && stage != Stage::SeedSave
}

/// What holds of an installation at every stage: an operation of the Store has
/// an identifier once its journal is asked for, and a promotion takes place
/// only where no seed was in use, with an archive next to the target.
pub open spec fn sound(s: InstallView) -> bool {
    &&& s.stage != Stage::Over ==> s.name.len() > 0 && naming::fit_name(s.name)
    &&& s.stage == Stage::DirectSave || journalled(s.stage) || promoting(s.stage) ==> stamp::random_id_text(
        s.operation_id,
    )
    &&& promoting(s.stage) ==> !s.seed_exists && locations::archive_location(
        s.target_path,
        s.name,
        s.archive_path,
    )
}

/// How many steps an installation can still take.
pub open spec fn steps_left(stage: Stage) -> nat {
    match stage {
        Stage::Source => 11,
        Stage::DirectSave => 10,
        Stage::DirectRun => 9,
        Stage::DirectList => 1,
        Stage::SeedSave => 8,
        Stage::SeedRun => 7,
        Stage::SeedList => 6,
        Stage::SeedLocation => 5,
        Stage::Export => 4,
        Stage::Unregister => 3,
        Stage::Import => 2,
        Stage::TargetDir => 2,
        Stage::FileRun => 1,
        Stage::Suggestion => 1,
        Stage::Over => 0,
    }
}

/// Whether what is asked is what the stage waits for.
pub open spec fn asked_for(stage: Stage, ask: AskView) -> bool {
    match ask {
        AskView::SuggestName(n) => stage == Stage::Suggestion,
        AskView::FastestSource => stage == Stage::Source,
        AskView::SaveJournal(j) => stage == Stage::DirectSave || stage == Stage::SeedSave,
        AskView::Run { args, mode } => {
            ||| stage == Stage::DirectRun
            ||| stage == Stage::SeedRun
            ||| stage == Stage::Export
            ||| stage == Stage::Unregister
            ||| stage == Stage::Import
            ||| stage == Stage::FileRun
        },
        AskView::ListDistros => stage == Stage::DirectList || stage == Stage::SeedList,
        AskView::InstallLocation(n) => stage == Stage::SeedLocation,
        AskView::CreateTarget(p) => stage == Stage::TargetDir,
        AskView::Finish { refresh } => stage == Stage::Over,
    }
}

/// Whether the first argument of a command that is asked for is `word`.
pub open spec fn runs(ask: AskView, word: Seq<char>) -> bool {
    match ask {
        AskView::Run { args, mode } => args.len() > 0 && args[0] == word,
        _ => false,
    }
}

/// Every first step leaves the installation sound, asks for what the
/// installation waits for from then on, and either ends or starts out.
pub proof fn law_opening(
    form: FormView,
    temp_location: Seq<char>,
    distros: Seq<Seq<char>>,
    name: Seq<char>,
    default_path: Seq<char>,
)
    ensures
        ({
            let step = rules::opening(form, temp_location, distros, name, default_path);
            &&& sound(step.install)
            &&& asked_for(step.install.stage, step.ask)
            &&& step.ask is Finish ==> step.ask == (AskView::Finish { refresh: false })
        }),
{
}

/// Every step keeps a sound installation sound, asks for what the installation
/// waits for from then on, and comes nearer to the end.
pub proof fn law_step(s: InstallView, reply: ReplyView, outside: OutsideView)
    requires
        rules::fits(s.stage, reply),
        rules::outside_outcome(s, reply, outside),
    ensures
        ({
            let step = rules::next(s, reply, outside);
            &&& sound(s) ==> sound(step.install)
            &&& asked_for(step.install.stage, step.ask)
            &&& steps_left(step.install.stage) < steps_left(s.stage)
        }),
{
}

/// A seed that is in use is neither exported nor removed nor installed over:
/// the only commands are the direct installation and an import.
pub proof fn law_seed_in_use_is_left_alone(s: InstallView, reply: ReplyView, outside: OutsideView)
    requires
        sound(s),
        s.seed_exists,
        rules::fits(s.stage, reply),
        rules::outside_outcome(s, reply, outside),
    ensures
        ({
            let step = rules::next(s, reply, outside);
            &&& step.install.seed_exists
            &&& !promoting(step.install.stage)
            &&& !runs(step.ask, "--export"@)
            &&& !runs(step.ask, "--unregister"@)
            &&& step.ask is Run ==> step.ask->args == commands::direct_install_args(
                s.store_id,
                s.name,
                s.target_path,
                s.web_download,
            ) || step.ask->args == commands::import_args(s.name, s.target_path, s.file_path, s.vhd)
        }),
{
    reveal_strlit("--install");
    reveal_strlit("--import");
    reveal_strlit("--export");
    reveal_strlit("--unregister");
    assert("--install"@[2] == 'i');
    assert("--import"@[2] == 'i');
    assert("--export"@[2] == 'e');
    assert("--unregister"@[2] == 'u');
}

/// Nothing is installed from the Store before the journal of the operation has
/// been written, and the journal names what the operation then makes: the
/// target, for a promotion the seed too, and the archive.
pub proof fn law_journal_comes_first(s: InstallView, reply: ReplyView, outside: OutsideView)
    requires
        sound(s),
        rules::fits(s.stage, reply),
        rules::outside_outcome(s, reply, outside),
    ensures
        ({
            let step = rules::next(s, reply, outside);
            &&& runs(step.ask, "--install"@) ==> {
                &&& s.stage == Stage::DirectSave || s.stage == Stage::SeedSave
                &&& reply == ReplyView::Saved(Ok(step.install.journal))
            }
            &&& step.ask matches AskView::SaveJournal(journal) ==> {
                &&& journal.request == s.request()
                &&& journal.operation_id == step.install.operation_id
                &&& journal.phase == StoreCreatePhase::JournalCreated
                &&& journal.cleanup.owned_distros.contains(s.name)
                &&& s.target_path.len() > 0 ==> journal.cleanup.owned_paths.contains(s.target_path)
                &&& promoting(step.install.stage) ==> {
                    &&& journal.seed_created_by_operation
                    &&& journal.cleanup.owned_distros.contains(s.store_id)
                    &&& journal.cleanup.archive_path == Some(step.install.archive_path)
                }
            }
        }),
{
    reveal_strlit("--install");
    reveal_strlit("--import");
    reveal_strlit("--export");
    reveal_strlit("--unregister");
    assert("--install"@[3] == 'n');
    assert("--import"@[3] == 'm');
    assert("--export"@[2] == 'e');
    assert("--unregister"@[2] == 'u');
    let step = rules::next(s, reply, outside);
    if let AskView::SaveJournal(journal) = step.ask {
        let distros = journal.cleanup.owned_distros;
        assert(distros[distros.len() - 1] == s.name);
        assert(distros[0] == s.store_id || !promoting(step.install.stage));
        if s.target_path.len() > 0 {
            assert(journal.cleanup.owned_paths[0] == s.target_path);
        }
    }
}

/// What some effects last say of whether an installation is under way, if
/// anything.
pub open spec fn last_installing(effects: Seq<EffectView>) -> Option<bool>
    decreases effects.len(),
{
    if effects.len() == 0 {
        None
    } else {
        match effects.last() {
            EffectView::SetInstalling(value) => Some(value),
            _ => last_installing(effects.drop_last()),
        }
    }
}

/// What is said last, is said last of all that was said.
proof fn lemma_last_installing_of_sum(a: Seq<EffectView>, b: Seq<EffectView>)
    ensures
        last_installing(a + b) == if last_installing(b) is Some {
            last_installing(b)
        } else {
            last_installing(a)
        },
    decreases b.len(),
{
    if b.len() == 0 {
        assert(a + b =~= a);
    } else {
        assert((a + b).last() == b.last());
        assert((a + b).drop_last() =~= a + b.drop_last());
        lemma_last_installing_of_sum(a, b.drop_last());
    }
}

/// An effect at the end, or one before the end, says it last.
proof fn lemma_last_installing_at_end(effects: Seq<EffectView>, value: bool)
    requires
        effects.len() >= 2,
        effects.last() == EffectView::SetInstalling(value) || (effects.last() !is SetInstalling
            && effects[effects.len() - 2] == EffectView::SetInstalling(value)),
    ensures
        last_installing(effects) == Some(value),
{
    reveal_with_fuel(last_installing, 3);
    assert(effects.drop_last().last() == effects[effects.len() - 2]);
}

/// Effects that do not speak of it say nothing of it.
proof fn lemma_nothing_of_installing(effects: Seq<EffectView>)
    requires
        forall|i: int| 0 <= i < effects.len() ==> #[trigger] effects[i] !is SetInstalling,
    ensures
        last_installing(effects) is None,
    decreases effects.len(),
{
    if effects.len() > 0 {
        let front = effects.drop_last();
        assert forall|i: int| 0 <= i < front.len() implies #[trigger] front[i] !is SetInstalling by {
            assert(front[i] == effects[i]);
        }
        lemma_nothing_of_installing(front);
    }
}

/// What a step shows of whether an installation is under way and of success, as
/// its question demands: at the end, that none is under way, and success exactly
/// where something was installed; before that, `before` (the start says that an
/// installation is under way, and no later step says anything of it), and no
/// success.
pub open spec fn shown_as_asked(effects: Seq<EffectView>, ask: AskView, before: Option<bool>) -> bool {
    match ask {
        AskView::Finish { refresh } => {
            &&& last_installing(effects) == Some(false)
            &&& effects.contains(EffectView::SetSuccess(true)) <==> refresh
        },
        _ => {
            &&& last_installing(effects) == before
            &&& !effects.contains(EffectView::SetSuccess(true))
        },
    }
}

/// An installation that ends with its first step shows itself as no longer under
/// way and shows no success; one that goes on shows itself as under way.
pub proof fn law_opening_is_shown(
    form: FormView,
    temp_location: Seq<char>,
    distros: Seq<Seq<char>>,
    name: Seq<char>,
    default_path: Seq<char>,
)
    ensures
        ({
            let step = rules::opening(form, temp_location, distros, name, default_path);
            shown_as_asked(step.effects, step.ask, Some(true))
        }),
{
    let step = rules::opening(form, temp_location, distros, name, default_path);
    let n = step.effects.len();
    if step.ask is Finish {
        lemma_last_installing_at_end(step.effects, false);
    } else {
        let start = rules::start_shown();
        let more = step.effects.skip(5);
        assert(step.effects =~= start + more);
        lemma_nothing_of_installing(more);
        let first = start.take(1);
        assert(start =~= first + start.skip(1));
        lemma_nothing_of_installing(start.skip(1));
        lemma_last_installing_of_sum(first, start.skip(1));
        lemma_last_installing_of_sum(start, more);
        reveal_with_fuel(last_installing, 2);
        assert(last_installing(first) == Some(true));
    }
}

/// Whether effects neither speak of an installation under way nor show success.
pub open spec fn says_nothing(effects: Seq<EffectView>) -> bool {
    forall|i: int|
        0 <= i < effects.len() ==> #[trigger] effects[i] !is SetInstalling && effects[i]
            != EffectView::SetSuccess(true)
}

/// Effects that say nothing say nothing together.
proof fn lemma_nothing_together(a: Seq<EffectView>, b: Seq<EffectView>)
    requires
        says_nothing(a),
        says_nothing(b),
    ensures
        says_nothing(a + b),
{
    assert forall|i: int| 0 <= i < (a + b).len() implies #[trigger] (a + b)[i] !is SetInstalling && (a + b)[i]
        != EffectView::SetSuccess(true) by {
        if i < a.len() {
            assert((a + b)[i] == a[i]);
        } else {
            assert((a + b)[i] == b[i - a.len()]);
        }
    }
}

/// A step that goes on shows neither that an installation is under way, nor
/// success.
proof fn lemma_going_on_says_nothing(s: InstallView, reply: ReplyView, outside: OutsideView)
    requires
        rules::fits(s.stage, reply),
        rules::next(s, reply, outside).ask !is Finish,
    ensures
        says_nothing(rules::next(s, reply, outside).effects),
{
    match s.stage {
        Stage::DirectSave => {
            let args = commands::direct_install_args(s.store_id, s.name, s.target_path, s.web_download);
            lemma_nothing_together(
                rules::target_claimed(s),
                seq![rules::plain_line("Trying direct named install: "@ + commands::command_line(args))],
            );
        },
        Stage::Unregister => {
            lemma_nothing_together(rules::seed_released(s), rules::target_claimed(s));
        },
        _ => {},
    }
}

/// What a failure shows at the end.
proof fn lemma_failure_shown(before: Seq<EffectView>, reason: MessageView)
    requires
        says_nothing(before),
    ensures
        last_installing(before + rules::failure_shown(reason)) == Some(false),
        !(before + rules::failure_shown(reason)).contains(EffectView::SetSuccess(true)),
{
    lemma_last_installing_at_end(before + rules::failure_shown(reason), false);
}

/// What a success shows at the end.
proof fn lemma_success_shown(before: Seq<EffectView>, name: Seq<char>)
    ensures
        last_installing(before + rules::success_shown(name)) == Some(false),
        (before + rules::success_shown(name)).contains(EffectView::SetSuccess(true)),
{
    let effects = before + rules::success_shown(name);
    lemma_last_installing_at_end(effects, false);
    assert(effects[before.len() as int] == EffectView::SetSuccess(true));
}

/// What a Store installation shows that is left for recovery.
proof fn lemma_recoverable_shown(s: InstallView, before: Seq<EffectView>, reason: MessageView)
    requires
        says_nothing(before),
    ensures
        ({
            let step = rules::left_recoverable(s, before, reason);
            shown_as_asked(step.effects, step.ask, None)
        }),
{
    let marked = seq![
        EffectView::SetPhase { journal: s.journal, phase: StoreCreatePhase::Recoverable },
        EffectView::ShowTerminal,
    ];
    lemma_nothing_together(before, marked);
    lemma_failure_shown(before + marked, reason);
}

/// A step that ends an installation shows last that it is no longer under way,
/// and shows success exactly where something was installed; a step that goes on
/// shows neither.
pub proof fn law_ending_is_shown(s: InstallView, reply: ReplyView, outside: OutsideView)
    requires
        rules::fits(s.stage, reply),
    ensures
        ({
            let step = rules::next(s, reply, outside);
            shown_as_asked(step.effects, step.ask, None)
        }),
{
    let step = rules::next(s, reply, outside);
    if step.ask is Finish {
        lemma_end_of_stage_is_shown(s, reply, outside);
    } else {
        lemma_going_on_says_nothing(s, reply, outside);
        lemma_nothing_of_installing(step.effects);
    }
}

/// The steps that end an installation, one by one.
proof fn lemma_end_of_stage_is_shown(s: InstallView, reply: ReplyView, outside: OutsideView)
    requires
        rules::fits(s.stage, reply),
        rules::next(s, reply, outside).ask is Finish,
    ensures
        ({
            let step = rules::next(s, reply, outside);
            shown_as_asked(step.effects, step.ask, None)
        }),
{
    let effects = rules::next(s, reply, outside).effects;
    let none = Seq::<EffectView>::empty();
    match s.stage {
        Stage::Suggestion | Stage::DirectSave | Stage::SeedSave => {
            lemma_last_installing_at_end(effects, false);
        },
        Stage::DirectRun => {
            let result = reply->Ran_0;
            if rules::name_option_refused(result) {
                let gone = rules::direct_withdrawn(s) + seq![EffectView::ShowTerminal];
                lemma_failure_shown(gone, MessageView::Plain(rules::no_safe_fallback(s.store_id)));
            } else {
                lemma_recoverable_shown(
                    s,
                    rules::output_shown(result.output),
                    rules::failure_reason(result, Phrase::InstallFailed),
                );
            }
        },
        Stage::DirectList => {
            if reply->Distros_0.contains(s.name) {
                lemma_success_shown(effects.take(effects.len() - 3), s.name);
                assert(effects =~= effects.take(effects.len() - 3) + rules::success_shown(s.name));
            } else {
                lemma_recoverable_shown(s, none, MessageView::PhraseOf(Phrase::VerifyFailed, s.name));
            }
        },
        Stage::SeedRun => {
            let result = reply->Ran_0;
            lemma_recoverable_shown(
                s,
                rules::output_shown(result.output),
                rules::failure_reason(result, Phrase::InstallFailed),
            );
        },
        Stage::SeedList => {
            lemma_recoverable_shown(s, none, MessageView::PhraseOf(Phrase::VerifyFailed, s.store_id));
        },
        Stage::Export | Stage::Unregister => {
            lemma_recoverable_shown(
                s,
                none,
                rules::failure_reason(reply->Ran_0, Phrase::ImportFailedCustom),
            );
        },
        Stage::Import => {
            let result = reply->Ran_0;
            if result.success {
                lemma_success_shown(effects.take(effects.len() - 3), s.name);
                assert(effects =~= effects.take(effects.len() - 3) + rules::success_shown(s.name));
            } else {
                lemma_recoverable_shown(s, none, rules::failure_reason(result, Phrase::ImportFailedCustom));
            }
        },
        Stage::TargetDir => {
            let told = "Failed to create directory: "@ + reply->Created_0->0;
            lemma_failure_shown(none, MessageView::Plain(told));
            assert(none + rules::failure_shown(MessageView::Plain(told)) =~= effects);
        },
        Stage::FileRun => {
            let result = reply->Ran_0;
            if result.success {
                lemma_success_shown(effects.take(effects.len() - 3), s.name);
                assert(effects =~= effects.take(effects.len() - 3) + rules::success_shown(s.name));
            } else {
                let shown = rules::output_shown(result.output);
                lemma_nothing_together(shown, seq![EffectView::ShowTerminal]);
                lemma_failure_shown(
                    shown + seq![EffectView::ShowTerminal],
                    rules::failure_reason(result, Phrase::ImportFailed),
                );
            }
        },
        _ => {},
    }
}

/// A Store installation that succeeds marks its journal completed and only then
/// removes it.
pub proof fn law_success_completes_the_journal(s: InstallView, reply: ReplyView, outside: OutsideView)
    requires
        journalled(s.stage),
        rules::fits(s.stage, reply),
        rules::next(s, reply, outside).ask == (AskView::Finish { refresh: true }),
    ensures
        ({
            let effects = rules::next(s, reply, outside).effects;
            exists|i: int, j: int|
                0 <= i < j < effects.len() && #[trigger] effects[i] == (EffectView::SetPhase {
                    journal: s.journal,
                    phase: StoreCreatePhase::Completed,
                }) && #[trigger] effects[j] == EffectView::RemoveJournal(s.journal)
        }),
{
    let effects = rules::next(s, reply, outside).effects;
    assert(effects[2] == EffectView::SetPhase { journal: s.journal, phase: StoreCreatePhase::Completed });
    if s.stage == Stage::DirectList {
        assert(effects[4] == EffectView::RemoveJournal(s.journal));
    } else {
        assert(effects[5] == EffectView::RemoveJournal(s.journal));
    }
}

/// Whether a step gives up a direct installation that WSL refused because it
/// does not know `--name`.
pub open spec fn withdraws(s: InstallView, reply: ReplyView) -> bool {
    &&& s.stage == Stage::DirectRun
    &&& !reply->Ran_0.success
    &&& rules::name_option_refused(reply->Ran_0)
}

/// A journalled installation that fails leaves its journal behind, marked for
/// recovery. The one exception is a direct installation that WSL refused before
/// it began, of which nothing is left: its marker and its journal are removed.
pub proof fn law_failure_is_recoverable(s: InstallView, reply: ReplyView, outside: OutsideView)
    requires
        journalled(s.stage),
        rules::fits(s.stage, reply),
    ensures
        ({
            let step = rules::next(s, reply, outside);
            let recoverable = EffectView::SetPhase {
                journal: s.journal,
                phase: StoreCreatePhase::Recoverable,
            };
            &&& step.ask == (AskView::Finish { refresh: false }) && !withdraws(s, reply) ==> {
                &&& step.effects.contains(recoverable)
                &&& !step.effects.contains(EffectView::RemoveJournal(s.journal))
            }
            &&& withdraws(s, reply) ==> {
                &&& step.effects.contains(
                    EffectView::RemoveMarker { path: s.target_path, operation_id: s.operation_id },
                )
                &&& step.effects.contains(EffectView::RemoveJournal(s.journal))
                &&& !step.effects.contains(recoverable)
            }
        }),
{
    let step = rules::next(s, reply, outside);
    if withdraws(s, reply) {
        assert(step.effects[1] == EffectView::RemoveMarker {
            path: s.target_path,
            operation_id: s.operation_id,
        });
        assert(step.effects[2] == EffectView::RemoveJournal(s.journal));
    } else if step.ask == (AskView::Finish { refresh: false }) {
        let n = step.effects.len();
        assert(step.effects[n - 5] == EffectView::SetPhase {
            journal: s.journal,
            phase: StoreCreatePhase::Recoverable,
        });
    }
}

/// Whether an effect takes away or records only what belongs to the operation
/// under way: its own journal, its archive, and markers of its own at the
/// target and the seed.
pub open spec fn stays_within(s: InstallView, effect: EffectView) -> bool {
    match effect {
        EffectView::RemoveFile(path) => path == s.archive_path,
        EffectView::RemoveJournal(journal) => journal == s.journal,
        EffectView::SetPhase { journal, phase } => journal == s.journal,
        EffectView::OwnPath { journal, path } => journal == s.journal,
        EffectView::CreateMarker { path, operation_id } => operation_id == s.operation_id,
        EffectView::RemoveMarker { path, operation_id } => {
            &&& operation_id == s.operation_id
            &&& path == s.target_path || s.seed_path == Some(path)
        },
        _ => true,
    }
}

/// Whether every one of some effects stays within the operation under way.
pub open spec fn all_within(s: InstallView, effects: Seq<EffectView>) -> bool {
    forall|i: int| 0 <= i < effects.len() ==> stays_within(s, #[trigger] effects[i])
}

/// Effects that stay within the operation do so together.
proof fn lemma_within_together(s: InstallView, a: Seq<EffectView>, b: Seq<EffectView>)
    requires
        all_within(s, a),
        all_within(s, b),
    ensures
        all_within(s, a + b),
{
    assert forall|i: int| 0 <= i < (a + b).len() implies stays_within(s, #[trigger] (a + b)[i]) by {
        if i < a.len() {
            assert((a + b)[i] == a[i]);
        } else {
            assert((a + b)[i] == b[i - a.len()]);
        }
    }
}

/// Leaving an operation for recovery stays within it.
proof fn lemma_recoverable_within(s: InstallView, before: Seq<EffectView>, reason: MessageView)
    requires
        all_within(s, before),
    ensures
        all_within(s, rules::left_recoverable(s, before, reason).effects),
{
    let marked = seq![
        EffectView::SetPhase { journal: s.journal, phase: StoreCreatePhase::Recoverable },
        EffectView::ShowTerminal,
    ];
    lemma_within_together(s, before, marked);
    lemma_within_together(s, before + marked, rules::failure_shown(reason));
}

/// No step takes away or records anything but what belongs to the operation
/// under way.
pub proof fn law_effects_stay_within_the_operation(s: InstallView, reply: ReplyView, outside: OutsideView)
    requires
        rules::fits(s.stage, reply),
    ensures
        all_within(s, rules::next(s, reply, outside).effects),
{
    match s.stage {
        Stage::DirectRun => {
            let result = reply->Ran_0;
            if !result.success {
                if !rules::name_option_refused(result) {
                    lemma_recoverable_within(
                        s,
                        rules::output_shown(result.output),
                        rules::failure_reason(result, Phrase::InstallFailed),
                    );
                } else if s.seed_exists {
                    let gone = rules::direct_withdrawn(s);
                    let shown = seq![EffectView::ShowTerminal];
                    lemma_within_together(s, gone, shown);
                    lemma_within_together(
                        s,
                        gone + shown,
                        rules::failure_shown(MessageView::Plain(rules::no_safe_fallback(s.store_id))),
                    );
                }
            }
        },
        Stage::DirectSave => {
            if let Ok(journal) = reply->Saved_0 {
                let args = commands::direct_install_args(s.store_id, s.name, s.target_path, s.web_download);
                lemma_within_together(
                    s,
                    rules::target_claimed(s),
                    seq![
                        rules::plain_line(
                            "Trying direct named install: "@ + commands::command_line(args),
                        ),
                    ],
                );
            }
        },
        Stage::DirectList => {
            lemma_recoverable_within(
                s,
                Seq::empty(),
                MessageView::PhraseOf(Phrase::VerifyFailed, s.name),
            );
        },
        Stage::SeedRun => {
            let result = reply->Ran_0;
            lemma_recoverable_within(
                s,
                rules::output_shown(result.output),
                rules::failure_reason(result, Phrase::InstallFailed),
            );
        },
        Stage::SeedList => {
            lemma_recoverable_within(
                s,
                Seq::empty(),
                MessageView::PhraseOf(Phrase::VerifyFailed, s.store_id),
            );
        },
        Stage::Export | Stage::Import => {
            lemma_recoverable_within(
                s,
                Seq::empty(),
                rules::failure_reason(reply->Ran_0, Phrase::ImportFailedCustom),
            );
        },
        Stage::Unregister => {
            lemma_within_together(s, rules::seed_released(s), rules::target_claimed(s));
            lemma_recoverable_within(
                s,
                Seq::empty(),
                rules::failure_reason(reply->Ran_0, Phrase::ImportFailedCustom),
            );
        },
        _ => {},
    }
}

/// A marker that is put at the place of the seed is taken away again once the
/// seed is removed, and the one at the target once the operation succeeds.
pub proof fn law_markers_are_taken_back(s: InstallView, reply: ReplyView, outside: OutsideView)
    requires
        rules::fits(s.stage, reply),
    ensures
        ({
            let step = rules::next(s, reply, outside);
            &&& s.stage == Stage::Unregister && reply->Ran_0.success && s.seed_path is Some
                ==> step.effects.contains(
                EffectView::RemoveMarker { path: s.seed_path->0, operation_id: s.operation_id },
            )
            &&& journalled(s.stage) && step.ask == (AskView::Finish { refresh: true })
                ==> step.effects.contains(
                EffectView::RemoveMarker { path: s.target_path, operation_id: s.operation_id },
            )
        }),
{
    let step = rules::next(s, reply, outside);
    if s.stage == Stage::Unregister && reply->Ran_0.success && s.seed_path is Some {
        assert(step.effects[0] == EffectView::RemoveMarker {
            path: s.seed_path->0,
            operation_id: s.operation_id,
        });
    }
    if journalled(s.stage) && step.ask == (AskView::Finish { refresh: true }) {
        if s.stage == Stage::DirectList {
            assert(step.effects[3] == EffectView::RemoveMarker {
                path: s.target_path,
                operation_id: s.operation_id,
            });
        } else {
            assert(step.effects[4] == EffectView::RemoveMarker {
                path: s.target_path,
                operation_id: s.operation_id,
            });
        }
    }
}

/// The seed is removed only right after it was exported with success, and what
/// is imported in its place is the archive that it was exported to.
pub proof fn law_seed_is_exported_before_it_is_removed(
    s: InstallView,
    reply: ReplyView,
    outside: OutsideView,
)
    requires
        rules::fits(s.stage, reply),
        runs(rules::next(s, reply, outside).ask, "--unregister"@),
    ensures
        s.stage == Stage::Export,
        reply->Ran_0.success,
        rules::next(s, reply, outside).install == s.at(Stage::Unregister),
        forall|later: ReplyView, other: OutsideView|
            later is Ran && later->Ran_0.success ==> (#[trigger] rules::next(
                s.at(Stage::Unregister),
                later,
                other,
            )).ask->args == commands::import_args(s.name, s.target_path, s.archive_path, false),
{
    reveal_strlit("--install");
    reveal_strlit("--import");
    reveal_strlit("--export");
    reveal_strlit("--unregister");
    assert("--install"@[2] == 'i');
    assert("--import"@[2] == 'i');
    assert("--export"@[2] == 'e');
    assert("--unregister"@[2] == 'u');
}

/// A reply, with what the step that follows it gets from outside.
pub struct Exchange {
    pub reply: ReplyView,
    pub outside: OutsideView,
}

/// Whether an installation can get these replies, one after the other.
pub open spec fn possible(s: InstallView, exchanges: Seq<Exchange>) -> bool
    decreases exchanges.len(),
{
    exchanges.len() > 0 ==> {
        let first = exchanges[0];
        &&& rules::fits(s.stage, first.reply)
        &&& rules::outside_outcome(s, first.reply, first.outside)
        &&& possible(rules::next(s, first.reply, first.outside).install, exchanges.skip(1))
    }
}

/// Where an installation stands after some replies.
pub open spec fn run(s: InstallView, exchanges: Seq<Exchange>) -> InstallView
    decreases exchanges.len(),
{
    if exchanges.len() == 0 {
        s
    } else {
        run(
            rules::next(s, exchanges[0].reply, exchanges[0].outside).install,
            exchanges.skip(1),
        )
    }
}

/// Every installation stays sound and comes to an end, whatever the replies: it
/// takes no more steps than it had left.
pub proof fn law_every_run_is_sound_and_ends(s: InstallView, exchanges: Seq<Exchange>)
    requires
        sound(s),
        possible(s, exchanges),
    ensures
        sound(run(s, exchanges)),
        exchanges.len() + steps_left(run(s, exchanges).stage) <= steps_left(s.stage),
    decreases exchanges.len(),
{
    if exchanges.len() > 0 {
        let first = exchanges[0];
        law_step(s, first.reply, first.outside);
        law_every_run_is_sound_and_ends(
            rules::next(s, first.reply, first.outside).install,
            exchanges.skip(1),
        );
    }
}

/// The last step of an installation that started with a step and got some
/// replies.
pub open spec fn last_step(first: StepView, exchanges: Seq<Exchange>) -> StepView
    decreases exchanges.len(),
{
    if exchanges.len() == 0 {
        first
    } else {
        last_step(
            rules::next(first.install, exchanges[0].reply, exchanges[0].outside),
            exchanges.skip(1),
        )
    }
}

/// Everything that an installation did that started with a step and got some
/// replies.
pub open spec fn all_effects(first: StepView, exchanges: Seq<Exchange>) -> Seq<EffectView>
    decreases exchanges.len(),
{
    if exchanges.len() == 0 {
        first.effects
    } else {
        first.effects + all_effects(
            rules::next(first.install, exchanges[0].reply, exchanges[0].outside),
            exchanges.skip(1),
        )
    }
}

/// In every run from any form, an installation that has come to its end has shown
/// last that it is no longer under way, and has shown success exactly where the
/// installed distributions are to be refreshed; until then it shows itself as
/// under way and shows no success.
pub proof fn law_every_run_is_shown(
    form: FormView,
    temp_location: Seq<char>,
    distros: Seq<Seq<char>>,
    name: Seq<char>,
    default_path: Seq<char>,
    exchanges: Seq<Exchange>,
)
    requires
        possible(
            rules::opening(form, temp_location, distros, name, default_path).install,
            exchanges,
        ),
    ensures
        ({
            let first = rules::opening(form, temp_location, distros, name, default_path);
            shown_as_asked(all_effects(first, exchanges), last_step(first, exchanges).ask, Some(true))
        }),
{
    let first = rules::opening(form, temp_location, distros, name, default_path);
    law_opening(form, temp_location, distros, name, default_path);
    law_opening_is_shown(form, temp_location, distros, name, default_path);
    lemma_run_is_shown(first, exchanges, Some(true));
}

/// Steps that show what their questions demand do so together.
proof fn lemma_run_is_shown(first: StepView, exchanges: Seq<Exchange>, before: Option<bool>)
    requires
        possible(first.install, exchanges),
        asked_for(first.install.stage, first.ask),
        shown_as_asked(first.effects, first.ask, before),
    ensures
        shown_as_asked(all_effects(first, exchanges), last_step(first, exchanges).ask, before),
    decreases exchanges.len(),
{
    if exchanges.len() > 0 {
        let e = exchanges[0];
        let second = rules::next(first.install, e.reply, e.outside);
        assert(first.ask !is Finish);
        law_step(first.install, e.reply, e.outside);
        law_ending_is_shown(first.install, e.reply, e.outside);
        lemma_run_is_shown(second, exchanges.skip(1), None);
        let rest = all_effects(second, exchanges.skip(1));
        lemma_last_installing_of_sum(first.effects, rest);
        let success = EffectView::SetSuccess(true);
        let whole = first.effects + rest;
        if rest.contains(success) {
            let i = choose|i: int| 0 <= i < rest.len() && rest[i] == success;
            assert(whole[first.effects.len() + i] == success);
        }
        if whole.contains(success) {
            let i = choose|i: int| 0 <= i < whole.len() && whole[i] == success;
            if i < first.effects.len() {
                assert(first.effects[i] == success);
            }
            assert(rest[i - first.effects.len()] == success);
        }
    }
}

/// In no run from any form is a seed that was in use promoted, and so neither
/// exported nor removed.
pub proof fn law_no_run_promotes_a_seed_in_use(
    form: FormView,
    temp_location: Seq<char>,
    distros: Seq<Seq<char>>,
    name: Seq<char>,
    default_path: Seq<char>,
    exchanges: Seq<Exchange>,
)
    requires
        distros.contains(rules::store_id_of(form)),
        possible(
            rules::opening(form, temp_location, distros, name, default_path).install,
            exchanges,
        ),
    ensures
        !promoting(
            run(
                rules::opening(form, temp_location, distros, name, default_path).install,
                exchanges,
            ).stage,
        ),
{
    let s = rules::opening(form, temp_location, distros, name, default_path).install;
    law_opening(form, temp_location, distros, name, default_path);
    law_every_run_is_sound_and_ends(s, exchanges);
    lemma_seed_use_is_remembered(s, exchanges);
}

/// Whether the seed was in use is not forgotten.
proof fn lemma_seed_use_is_remembered(s: InstallView, exchanges: Seq<Exchange>)
    ensures
        run(s, exchanges).seed_exists == s.seed_exists,
    decreases exchanges.len(),
{
    if exchanges.len() > 0 {
        lemma_seed_use_is_remembered(
            rules::next(s, exchanges[0].reply, exchanges[0].outside).install,
            exchanges.skip(1),
        );
    }
}

} // verus!
