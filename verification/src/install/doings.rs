//! What the steps of an installation do, and exactly when.
use crate::commands;
use crate::commands::CommandResultView;
use crate::install::decisions;
use crate::install::rules;
use crate::install::types::EffectView;
use crate::install::types::FormView;
use crate::install::types::InstallView;
use crate::install::types::OutsideView;
use crate::install::types::ReplyView;
use crate::install::types::Stage;
use crate::messages::MessageView;
use crate::messages::Phrase;
use crate::naming;
use crate::plan::StoreCreatePhase;
use crate::text;
use vstd::prelude::*;

verus! {

/// What is in two lists together is in one of them.
proof fn lemma_in_sum(a: Seq<EffectView>, b: Seq<EffectView>, e: EffectView)
    ensures
        (a + b).contains(e) <==> a.contains(e) || b.contains(e),
{
    if a.contains(e) {
        let i = choose|i: int| 0 <= i < a.len() && a[i] == e;
        assert((a + b)[i] == e);
    }
    if b.contains(e) {
        let i = choose|i: int| 0 <= i < b.len() && b[i] == e;
        assert((a + b)[a.len() + i] == e);
    }
    if (a + b).contains(e) {
        let i = choose|i: int| 0 <= i < (a + b).len() && (a + b)[i] == e;
        if i < a.len() {
            assert(a[i] == e);
        } else {
            assert(b[i - a.len()] == e);
        }
    }
}

/// What is in a list with one more at its end.
proof fn lemma_in_push(a: Seq<EffectView>, last: EffectView, e: EffectView)
    ensures
        a.push(last).contains(e) <==> a.contains(e) || e == last,
{
    assert(a.push(last) =~= a + seq![last]);
    lemma_in_sum(a, seq![last], e);
    assert(seq![last][0] == last);
}

/// What is in a list of one.
proof fn lemma_in_one(x: EffectView, e: EffectView)
    ensures
        seq![x].contains(e) <==> e == x,
{
    assert(seq![x][0] == x);
}

/// What is in a list of two.
proof fn lemma_in_two(x: EffectView, y: EffectView, e: EffectView)
    ensures
        seq![x, y].contains(e) <==> e == x || e == y,
{
    assert(seq![x, y][0] == x && seq![x, y][1] == y);
}

/// What is in a list of three.
proof fn lemma_in_three(x: EffectView, y: EffectView, z: EffectView, e: EffectView)
    ensures
        seq![x, y, z].contains(e) <==> e == x || e == y || e == z,
{
    assert(seq![x, y, z] =~= seq![x, y].push(z));
    lemma_in_two(x, y, e);
    lemma_in_push(seq![x, y], z, e);
}

/// Why a failed command failed: what it says, or else a phrase.
spec fn reason(result: CommandResultView, otherwise: Phrase) -> MessageView {
    if result.error is Some {
        MessageView::Plain(result.error->0)
    } else {
        MessageView::Phrase(otherwise)
    }
}

/// Whether an effect is one of those that show a failure.
spec fn of_failure(e: EffectView, why: MessageView) -> bool {
    ||| e == EffectView::SetSuccess(false)
    ||| e == EffectView::SetFailure(why)
    ||| e == EffectView::SetInstalling(false)
}

/// Whether an effect is one of those that show a success.
spec fn of_success(e: EffectView, name: Seq<char>) -> bool {
    ||| e == EffectView::SetSuccess(true)
    ||| e == EffectView::SetStatus(MessageView::PhraseOf(Phrase::CreatedSuccess, name))
    ||| e == EffectView::SetInstalling(false)
}

/// Whether an effect shows the output of a failed command.
spec fn of_output(e: EffectView, output: Seq<char>) -> bool {
    !text::blank(output) && e == EffectView::Write(MessageView::Plain("\n[WSL Output]\n"@ + output), true)
}

/// Whether an effect is one of those that leave an operation for recovery.
spec fn of_leaving(s: InstallView, e: EffectView, why: MessageView) -> bool {
    ||| e == EffectView::SetPhase { journal: s.journal, phase: StoreCreatePhase::Recoverable }
    ||| e == EffectView::ShowTerminal
    ||| of_failure(e, why)
}

/// Whether an effect is one of those that claim the target's directory.
spec fn of_claim(s: InstallView, e: EffectView) -> bool {
    s.target_path.len() > 0 && (e == EffectView::CreateDir(s.target_path) || e == EffectView::CreateMarker {
        path: s.target_path,
        operation_id: s.operation_id,
    })
}

/// Whether an effect is one of those that take back a refused direct
/// installation.
spec fn of_withdrawal(s: InstallView, e: EffectView) -> bool {
    ||| e == EffectView::Write(
        MessageView::Plain("Current WSL does not support '--name'; switching to compatibility mode."@),
        true,
    )
    ||| e == EffectView::RemoveMarker { path: s.target_path, operation_id: s.operation_id }
    ||| e == EffectView::RemoveJournal(s.journal)
}

proof fn lemma_failure(before: Seq<EffectView>, why: MessageView, e: EffectView)
    ensures
        (before + rules::failure_shown(why)).contains(e) <==> before.contains(e) || of_failure(e, why),
{
    lemma_in_sum(before, rules::failure_shown(why), e);
    lemma_in_three(
        EffectView::SetSuccess(false),
        EffectView::SetFailure(why),
        EffectView::SetInstalling(false),
        e,
    );
}

proof fn lemma_success(before: Seq<EffectView>, name: Seq<char>, e: EffectView)
    ensures
        (before + rules::success_shown(name)).contains(e) <==> before.contains(e) || of_success(e, name),
{
    lemma_in_sum(before, rules::success_shown(name), e);
    lemma_in_three(
        EffectView::SetSuccess(true),
        EffectView::SetStatus(MessageView::PhraseOf(Phrase::CreatedSuccess, name)),
        EffectView::SetInstalling(false),
        e,
    );
}

proof fn lemma_output(output: Seq<char>, e: EffectView)
    ensures
        rules::output_shown(output).contains(e) <==> of_output(e, output),
{
    lemma_in_one(EffectView::Write(MessageView::Plain("\n[WSL Output]\n"@ + output), true), e);
}

proof fn lemma_leaving(s: InstallView, before: Seq<EffectView>, why: MessageView, e: EffectView)
    ensures
        rules::left_recoverable(s, before, why).effects.contains(e) <==> before.contains(e) || of_leaving(
            s,
            e,
            why,
        ),
{
    let phase = EffectView::SetPhase { journal: s.journal, phase: StoreCreatePhase::Recoverable };
    let two = seq![phase, EffectView::ShowTerminal];
    lemma_failure(before + two, why, e);
    lemma_in_sum(before, two, e);
    lemma_in_two(phase, EffectView::ShowTerminal, e);
}

proof fn lemma_claim(s: InstallView, e: EffectView)
    ensures
        rules::target_claimed(s).contains(e) <==> of_claim(s, e),
{
    lemma_in_two(
        EffectView::CreateDir(s.target_path),
        EffectView::CreateMarker { path: s.target_path, operation_id: s.operation_id },
        e,
    );
}

proof fn lemma_withdrawal(s: InstallView, e: EffectView)
    ensures
        rules::direct_withdrawn(s).contains(e) <==> of_withdrawal(s, e),
{
    lemma_in_three(
        EffectView::Write(
            MessageView::Plain("Current WSL does not support '--name'; switching to compatibility mode."@),
            true,
        ),
        EffectView::RemoveMarker { path: s.target_path, operation_id: s.operation_id },
        EffectView::RemoveJournal(s.journal),
        e,
    );
}

/// What is done while a seed is made ready.
spec fn of_seed(s: InstallView, place: Option<Seq<char>>, e: EffectView) -> bool {
    ||| place is Some && e == EffectView::OwnPath { journal: s.journal, path: place->0 }
    ||| place is Some && e == EffectView::CreateMarker { path: place->0, operation_id: s.operation_id }
    ||| e == EffectView::SetPhase { journal: s.journal, phase: StoreCreatePhase::SeedReady }
    ||| e == EffectView::Write(MessageView::Phrase(Phrase::StoreStep5), true)
    ||| e == EffectView::SetPhase { journal: s.journal, phase: StoreCreatePhase::PromotionPending }
    ||| e == EffectView::Write(MessageView::Phrase(Phrase::StoreStep6), true)
    ||| e == EffectView::CreateDir(s.temp_location)
}

proof fn lemma_seed(s: InstallView, place: Option<Seq<char>>, e: EffectView)
    ensures
        rules::after_seed_location(s, place).effects.contains(e) <==> of_seed(s, place, e),
{
    let ready = EffectView::SetPhase { journal: s.journal, phase: StoreCreatePhase::SeedReady };
    let five = EffectView::Write(MessageView::Phrase(Phrase::StoreStep5), true);
    let pending = EffectView::SetPhase { journal: s.journal, phase: StoreCreatePhase::PromotionPending };
    let six = EffectView::Write(MessageView::Phrase(Phrase::StoreStep6), true);
    let dir = EffectView::CreateDir(s.temp_location);
    let claimed = rules::seed_claimed(s, place);
    let rest = seq![ready, five, pending, six, dir];
    assert(rest =~= seq![ready, five, pending].push(six).push(dir));
    lemma_in_three(ready, five, pending, e);
    lemma_in_push(seq![ready, five, pending], six, e);
    lemma_in_push(seq![ready, five, pending].push(six), dir, e);
    lemma_in_sum(claimed, rest, e);
    if let Some(path) = place {
        lemma_in_two(
            EffectView::OwnPath { journal: s.journal, path },
            EffectView::CreateMarker { path, operation_id: s.operation_id },
            e,
        );
    }
}

/// What is done when a direct installation is there.
spec fn of_direct_success(s: InstallView, e: EffectView) -> bool {
    ||| e == EffectView::Write(
        MessageView::Plain(
            "Direct Store install succeeded using "@ + (if s.web_download {
                "GitHub"@
            } else {
                "Microsoft"@
            }) + " as the download source."@,
        ),
        true,
    )
    ||| e == EffectView::Write(MessageView::Phrase(Phrase::StoreStep9), true)
    ||| e == EffectView::SetPhase { journal: s.journal, phase: StoreCreatePhase::Completed }
    ||| e == EffectView::RemoveMarker { path: s.target_path, operation_id: s.operation_id }
    ||| e == EffectView::RemoveJournal(s.journal)
    ||| e == EffectView::ShowTerminal
    ||| of_success(e, s.name)
}

proof fn lemma_direct_success(s: InstallView, names: Seq<Seq<char>>, e: EffectView)
    requires
        names.contains(s.name),
    ensures
        rules::after_direct_list(s, names).effects.contains(e) <==> of_direct_success(s, e),
{
    let told = EffectView::Write(
        MessageView::Plain(
            "Direct Store install succeeded using "@ + (if s.web_download {
                "GitHub"@
            } else {
                "Microsoft"@
            }) + " as the download source."@,
        ),
        true,
    );
    let nine = EffectView::Write(MessageView::Phrase(Phrase::StoreStep9), true);
    let phase = EffectView::SetPhase { journal: s.journal, phase: StoreCreatePhase::Completed };
    let marker = EffectView::RemoveMarker { path: s.target_path, operation_id: s.operation_id };
    let journal = EffectView::RemoveJournal(s.journal);
    let three = seq![told, nine, phase];
    let before = seq![told, nine, phase, marker, journal, EffectView::ShowTerminal];
    assert(before =~= three.push(marker).push(journal).push(EffectView::ShowTerminal));
    lemma_in_three(told, nine, phase, e);
    lemma_in_push(three, marker, e);
    lemma_in_push(three.push(marker), journal, e);
    lemma_in_push(three.push(marker).push(journal), EffectView::ShowTerminal, e);
    lemma_success(before, s.name, e);
}

/// What is done when a promoted seed is imported.
spec fn of_import(s: InstallView, e: EffectView) -> bool {
    ||| e == EffectView::Write(MessageView::Phrase(Phrase::StoreStep8), true)
    ||| e == EffectView::Write(MessageView::Phrase(Phrase::StoreStep9), true)
    ||| e == EffectView::SetPhase { journal: s.journal, phase: StoreCreatePhase::Completed }
    ||| e == EffectView::RemoveFile(s.archive_path)
    ||| e == EffectView::RemoveMarker { path: s.target_path, operation_id: s.operation_id }
    ||| e == EffectView::RemoveJournal(s.journal)
    ||| e == EffectView::ShowTerminal
    ||| of_success(e, s.name)
}

proof fn lemma_import(s: InstallView, result: CommandResultView, e: EffectView)
    requires
        result.success,
    ensures
        rules::after_import(s, result).effects.contains(e) <==> of_import(s, e),
{
    let eight = EffectView::Write(MessageView::Phrase(Phrase::StoreStep8), true);
    let nine = EffectView::Write(MessageView::Phrase(Phrase::StoreStep9), true);
    let phase = EffectView::SetPhase { journal: s.journal, phase: StoreCreatePhase::Completed };
    let file = EffectView::RemoveFile(s.archive_path);
    let marker = EffectView::RemoveMarker { path: s.target_path, operation_id: s.operation_id };
    let journal = EffectView::RemoveJournal(s.journal);
    let three = seq![eight, nine, phase];
    let before = seq![eight, nine, phase, file, marker, journal, EffectView::ShowTerminal];
    assert(before =~= three.push(file).push(marker).push(journal).push(EffectView::ShowTerminal));
    lemma_in_three(eight, nine, phase, e);
    lemma_in_push(three, file, e);
    lemma_in_push(three.push(file), marker, e);
    lemma_in_push(three.push(file).push(marker), journal, e);
    lemma_in_push(three.push(file).push(marker).push(journal), EffectView::ShowTerminal, e);
    lemma_success(before, s.name, e);
}

/// The text that the user is told where a seed is in use.
spec fn no_fallback(store_id: Seq<char>) -> Seq<char> {
    "Current WSL does not support '--name'. Safe automatic fallback is unavailable while '"@ + store_id
        + "' already exists. Please upgrade WSL before creating another Store instance for this distro."@
}

/// The command that is announced at a stage.
spec fn announced(s: InstallView) -> Seq<char> {
    commands::command_line(
        if s.stage == Stage::DirectSave {
            commands::direct_install_args(s.store_id, s.name, s.target_path, s.web_download)
        } else if s.stage == Stage::SeedSave {
            commands::seed_install_args(s.store_id, s.web_download)
        } else {
            commands::import_args(s.name, s.target_path, s.file_path, s.vhd)
        },
    )
}

/// Whether an effect belongs to a step.
spec fn done(s: InstallView, reply: ReplyView, outside: OutsideView, e: EffectView) -> bool {
    let result = reply->Ran_0;
    match s.stage {
        Stage::Suggestion => {
            ||| e == EffectView::OfferName { name: reply->Suggested_name, path: outside.offered_path }
            ||| e == EffectView::SetNameError(MessageView::PhraseOf(Phrase::NameExists, s.name))
            ||| e == EffectView::SetInstalling(false)
            ||| e == EffectView::SetStatus(MessageView::Phrase(Phrase::ConflictError))
        },
        Stage::DirectSave | Stage::SeedSave => match reply->Saved_0 {
            Err(why) => e == EffectView::SetFailure(MessageView::Plain(why)) || e == EffectView::SetInstalling(
                false,
            ),
            Ok(place) => if s.stage == Stage::DirectSave {
                of_claim(s, e) || e == EffectView::Write(
                    MessageView::Plain("Trying direct named install: "@ + announced(s)),
                    true,
                )
            } else {
                ||| e == EffectView::Write(MessageView::Phrase(Phrase::StoreStep2), true)
                ||| e == EffectView::Write(MessageView::PhraseOf(Phrase::StoreStep3, announced(s)), true)
                ||| e == EffectView::Write(
                    MessageView::PhraseOf(
                        Phrase::StoreStep4,
                        if s.web_download {
                            "GitHub"@
                        } else {
                            "Microsoft"@
                        },
                    ),
                    false,
                )
            },
        },
        Stage::DirectRun => {
            ||| decisions::failed_otherwise(result) && (of_output(e, result.output) || of_leaving(
                s,
                e,
                reason(result, Phrase::InstallFailed),
            ))
            ||| decisions::failed_over_name(result) && of_withdrawal(s, e)
            ||| decisions::failed_over_name(result) && s.seed_exists && (e == EffectView::ShowTerminal || of_failure(
                e,
                MessageView::Plain(no_fallback(s.store_id)),
            ))
        },
        Stage::DirectList => if reply->Distros_0.contains(s.name) {
            of_direct_success(s, e)
        } else {
            of_leaving(s, e, MessageView::PhraseOf(Phrase::VerifyFailed, s.name))
        },
        Stage::SeedRun => !result.success && (of_output(e, result.output) || of_leaving(
            s,
            e,
            reason(result, Phrase::InstallFailed),
        )),
        Stage::SeedList => !reply->Distros_0.contains(s.store_id) && of_leaving(
            s,
            e,
            MessageView::PhraseOf(Phrase::VerifyFailed, s.store_id),
        ),
        Stage::SeedLocation => of_seed(s, reply->Location_0, e),
        Stage::Export => if result.success {
            e == EffectView::Write(MessageView::Phrase(Phrase::StoreStep7), true)
        } else {
            of_leaving(s, e, reason(result, Phrase::ImportFailedCustom))
        },
        Stage::Unregister => if result.success {
            ||| s.seed_path is Some && e == EffectView::RemoveMarker {
                path: s.seed_path->0,
                operation_id: s.operation_id,
            }
            ||| of_claim(s, e)
        } else {
            of_leaving(s, e, reason(result, Phrase::ImportFailedCustom))
        },
        Stage::Import => if result.success {
            of_import(s, e)
        } else {
            of_leaving(s, e, reason(result, Phrase::ImportFailedCustom))
        },
        Stage::TargetDir => match reply->Created_0 {
            Some(why) => of_failure(e, MessageView::Plain("Failed to create directory: "@ + why)),
            None => {
                ||| e == EffectView::SetStatus(MessageView::Phrase(Phrase::Importing))
                ||| e == EffectView::Write(MessageView::PhraseOf(Phrase::FileStep2, announced(s)), false)
                ||| e == EffectView::ShowTerminal
            },
        },
        Stage::FileRun => if result.success {
            ||| e == EffectView::Write(MessageView::PhraseOf(Phrase::FileStep3, s.name), true)
            ||| e == EffectView::ShowTerminal
            ||| of_success(e, s.name)
        } else {
            ||| of_output(e, result.output)
            ||| e == EffectView::ShowTerminal
            ||| of_failure(e, reason(result, Phrase::ImportFailed))
        },
        _ => false,
    }
}

proof fn lemma_done_while_saving(s: InstallView, saved: Result<Seq<char>, Seq<char>>, outside: OutsideView, e: EffectView)
    requires
        s.stage == Stage::DirectSave || s.stage == Stage::SeedSave,
    ensures
        rules::next(s, ReplyView::Saved(saved), outside).effects.contains(e) <==> done(
            s,
            ReplyView::Saved(saved),
            outside,
            e,
        ),
{
    match saved {
        Err(why) => {
            lemma_in_two(EffectView::SetFailure(MessageView::Plain(why)), EffectView::SetInstalling(false), e);
        },
        Ok(place) => {
            if s.stage == Stage::DirectSave {
                let line = EffectView::Write(
                    MessageView::Plain("Trying direct named install: "@ + announced(s)),
                    true,
                );
                lemma_claim(s, e);
                lemma_in_one(line, e);
                lemma_in_sum(rules::target_claimed(s), seq![line], e);
            } else {
                lemma_in_three(
                    EffectView::Write(MessageView::Phrase(Phrase::StoreStep2), true),
                    EffectView::Write(MessageView::PhraseOf(Phrase::StoreStep3, announced(s)), true),
                    EffectView::Write(
                        MessageView::PhraseOf(
                            Phrase::StoreStep4,
                            if s.web_download {
                                "GitHub"@
                            } else {
                                "Microsoft"@
                            },
                        ),
                        false,
                    ),
                    e,
                );
            }
        },
    }
}

proof fn lemma_done_in_direct_run(s: InstallView, result: CommandResultView, outside: OutsideView, e: EffectView)
    requires
        s.stage == Stage::DirectRun,
    ensures
        rules::next(s, ReplyView::Ran(result), outside).effects.contains(e) <==> done(
            s,
            ReplyView::Ran(result),
            outside,
            e,
        ),
{
    decisions::law_failure_over_name_is_recognised(result);
    if !result.success {
        if decisions::failed_over_name(result) {
            lemma_withdrawal(s, e);
            if s.seed_exists {
                let gone = rules::direct_withdrawn(s);
                let shown = seq![EffectView::ShowTerminal];
                lemma_in_one(EffectView::ShowTerminal, e);
                lemma_in_sum(gone, shown, e);
                lemma_failure(gone + shown, MessageView::Plain(no_fallback(s.store_id)), e);
            }
        } else {
            lemma_output(result.output, e);
            lemma_leaving(s, rules::output_shown(result.output), reason(result, Phrase::InstallFailed), e);
        }
    }
}

proof fn lemma_done_in_promotion(s: InstallView, result: CommandResultView, outside: OutsideView, e: EffectView)
    requires
        s.stage == Stage::SeedRun || s.stage == Stage::Export || s.stage == Stage::Unregister || s.stage
            == Stage::Import,
    ensures
        rules::next(s, ReplyView::Ran(result), outside).effects.contains(e) <==> done(
            s,
            ReplyView::Ran(result),
            outside,
            e,
        ),
{
    let none = Seq::<EffectView>::empty();
    lemma_leaving(s, none, reason(result, Phrase::ImportFailedCustom), e);
    if s.stage == Stage::SeedRun {
        lemma_output(result.output, e);
        lemma_leaving(s, rules::output_shown(result.output), reason(result, Phrase::InstallFailed), e);
    } else if s.stage == Stage::Export {
        lemma_in_one(EffectView::Write(MessageView::Phrase(Phrase::StoreStep7), true), e);
    } else if s.stage == Stage::Unregister {
        lemma_claim(s, e);
        lemma_in_sum(rules::seed_released(s), rules::target_claimed(s), e);
        if let Some(path) = s.seed_path {
            lemma_in_one(EffectView::RemoveMarker { path, operation_id: s.operation_id }, e);
        }
    } else if result.success {
        lemma_import(s, result, e);
    }
}

proof fn lemma_done_with_file(s: InstallView, reply: ReplyView, outside: OutsideView, e: EffectView)
    requires
        rules::fits(s.stage, reply),
        s.stage == Stage::TargetDir || s.stage == Stage::FileRun,
    ensures
        rules::next(s, reply, outside).effects.contains(e) <==> done(s, reply, outside, e),
{
    let none = Seq::<EffectView>::empty();
    if s.stage == Stage::TargetDir {
        match reply->Created_0 {
            Some(why) => {
                let told = MessageView::Plain("Failed to create directory: "@ + why);
                lemma_failure(none, told, e);
                assert(none + rules::failure_shown(told) =~= rules::failure_shown(told));
            },
            None => {
                lemma_in_three(
                    EffectView::SetStatus(MessageView::Phrase(Phrase::Importing)),
                    EffectView::Write(MessageView::PhraseOf(Phrase::FileStep2, announced(s)), false),
                    EffectView::ShowTerminal,
                    e,
                );
            },
        }
    } else {
        let result = reply->Ran_0;
        if result.success {
            let line = EffectView::Write(MessageView::PhraseOf(Phrase::FileStep3, s.name), true);
            lemma_in_two(line, EffectView::ShowTerminal, e);
            lemma_success(seq![line, EffectView::ShowTerminal], s.name, e);
        } else {
            let shown = rules::output_shown(result.output);
            lemma_output(result.output, e);
            lemma_in_one(EffectView::ShowTerminal, e);
            lemma_in_sum(shown, seq![EffectView::ShowTerminal], e);
            lemma_failure(shown + seq![EffectView::ShowTerminal], reason(result, Phrase::ImportFailed), e);
        }
    }
}

/// A step does exactly what belongs to it.
proof fn lemma_done(s: InstallView, reply: ReplyView, outside: OutsideView, e: EffectView)
    requires
        rules::fits(s.stage, reply),
    ensures
        rules::next(s, reply, outside).effects.contains(e) <==> done(s, reply, outside, e),
{
    let none = Seq::<EffectView>::empty();
    match s.stage {
        Stage::Suggestion => {
            let offer = EffectView::OfferName { name: reply->Suggested_name, path: outside.offered_path };
            let error = EffectView::SetNameError(MessageView::PhraseOf(Phrase::NameExists, s.name));
            let off = EffectView::SetInstalling(false);
            let status = EffectView::SetStatus(MessageView::Phrase(Phrase::ConflictError));
            assert(seq![offer, error, off, status] =~= seq![offer, error, off].push(status));
            lemma_in_three(offer, error, off, e);
            lemma_in_push(seq![offer, error, off], status, e);
        },
        Stage::DirectSave | Stage::SeedSave => lemma_done_while_saving(s, reply->Saved_0, outside, e),
        Stage::DirectRun => lemma_done_in_direct_run(s, reply->Ran_0, outside, e),
        Stage::DirectList => {
            if reply->Distros_0.contains(s.name) {
                lemma_direct_success(s, reply->Distros_0, e);
            } else {
                lemma_leaving(s, none, MessageView::PhraseOf(Phrase::VerifyFailed, s.name), e);
            }
        },
        Stage::SeedList => {
            lemma_leaving(s, none, MessageView::PhraseOf(Phrase::VerifyFailed, s.store_id), e);
        },
        Stage::SeedLocation => lemma_seed(s, reply->Location_0, e),
        Stage::SeedRun | Stage::Export | Stage::Unregister | Stage::Import => lemma_done_in_promotion(
            s,
            reply->Ran_0,
            outside,
            e,
        ),
        Stage::TargetDir | Stage::FileRun => lemma_done_with_file(s, reply, outside, e),
        _ => {},
    }
}

/// Where markers are put, and when: at the target, if it has a path, when the
/// direct installation is journalled and when the seed is removed; and at the
/// place of the seed when that becomes known. They are the operation's own.
pub proof fn law_when_markers_are_put(
    s: InstallView,
    reply: ReplyView,
    outside: OutsideView,
    path: Seq<char>,
    operation_id: Seq<char>,
)
    requires
        rules::fits(s.stage, reply),
    ensures
        rules::next(s, reply, outside).effects.contains(EffectView::CreateMarker { path, operation_id }) <==> {
            &&& operation_id == s.operation_id
            &&& {
                ||| path == s.target_path && path.len() > 0 && s.stage == Stage::DirectSave && reply->Saved_0 is Ok
                ||| path == s.target_path && path.len() > 0 && s.stage == Stage::Unregister && reply->Ran_0.success
                ||| s.stage == Stage::SeedLocation && reply->Location_0 == Some(path)
            }
        },
{
    lemma_done(s, reply, outside, EffectView::CreateMarker { path, operation_id });
}

/// Where markers are removed, and when: at the target when a direct installation
/// is refused and when the installation has succeeded; and at the place of the
/// seed when the seed is removed. They are the operation's own.
pub proof fn law_when_markers_are_removed(
    s: InstallView,
    reply: ReplyView,
    outside: OutsideView,
    path: Seq<char>,
    operation_id: Seq<char>,
)
    requires
        rules::fits(s.stage, reply),
    ensures
        rules::next(s, reply, outside).effects.contains(EffectView::RemoveMarker { path, operation_id }) <==> {
            &&& operation_id == s.operation_id
            &&& {
                ||| path == s.target_path && (decisions::direct_refused(s, reply) || decisions::store_success(
                    s,
                    reply,
                ))
                ||| s.stage == Stage::Unregister && reply->Ran_0.success && s.seed_path == Some(path)
            }
        },
{
    lemma_done(s, reply, outside, EffectView::RemoveMarker { path, operation_id });
}

/// Which directories are created, and when: the target's, if it has a path, when
/// the direct installation is journalled and when the seed is removed; and the
/// temporary location before the seed is exported.
pub proof fn law_when_directories_are_created(
    s: InstallView,
    reply: ReplyView,
    outside: OutsideView,
    path: Seq<char>,
)
    requires
        rules::fits(s.stage, reply),
    ensures
        rules::next(s, reply, outside).effects.contains(EffectView::CreateDir(path)) <==> {
            ||| path == s.target_path && path.len() > 0 && s.stage == Stage::DirectSave && reply->Saved_0 is Ok
            ||| path == s.target_path && path.len() > 0 && s.stage == Stage::Unregister && reply->Ran_0.success
            ||| path == s.temp_location && s.stage == Stage::SeedLocation
        },
{
    lemma_done(s, reply, outside, EffectView::CreateDir(path));
}

/// When the journal records how far the operation has come: that it can be
/// recovered exactly where it failed, that it is completed exactly where it
/// succeeded, and that the seed is ready and its promotion pending when the place
/// of the seed is known. It is always the operation's own journal, and no other
/// phase is ever recorded.
pub proof fn law_when_phases_are_recorded(
    s: InstallView,
    reply: ReplyView,
    outside: OutsideView,
    journal: Seq<char>,
    phase: StoreCreatePhase,
)
    requires
        rules::fits(s.stage, reply),
    ensures
        rules::next(s, reply, outside).effects.contains(EffectView::SetPhase { journal, phase }) <==> {
            &&& journal == s.journal
            &&& {
                ||| phase is Recoverable && decisions::store_failure(s, reply)
                ||| phase is Completed && decisions::store_success(s, reply)
                ||| (phase is SeedReady || phase is PromotionPending) && s.stage == Stage::SeedLocation
            }
        },
{
    lemma_done(s, reply, outside, EffectView::SetPhase { journal, phase });
}

/// When a path comes to be owned: the place of the seed, when it is known.
pub proof fn law_when_paths_come_to_be_owned(
    s: InstallView,
    reply: ReplyView,
    outside: OutsideView,
    journal: Seq<char>,
    path: Seq<char>,
)
    requires
        rules::fits(s.stage, reply),
    ensures
        rules::next(s, reply, outside).effects.contains(EffectView::OwnPath { journal, path }) <==> journal
            == s.journal && s.stage == Stage::SeedLocation && reply->Location_0 == Some(path),
{
    lemma_done(s, reply, outside, EffectView::OwnPath { journal, path });
}

/// When a journal and a file are removed: the journal exactly where the
/// installation succeeded or its direct command was refused over `--name`; the
/// archive exactly where the import succeeded; no other.
pub proof fn law_when_files_are_removed(
    s: InstallView,
    reply: ReplyView,
    outside: OutsideView,
    path: Seq<char>,
)
    requires
        rules::fits(s.stage, reply),
    ensures
        rules::next(s, reply, outside).effects.contains(EffectView::RemoveJournal(path)) <==> path == s.journal
            && (decisions::store_success(s, reply) || decisions::direct_refused(s, reply)),
        rules::next(s, reply, outside).effects.contains(EffectView::RemoveFile(path)) <==> path == s.archive_path
            && s.stage == Stage::Import && reply->Ran_0.success,
{
    lemma_done(s, reply, outside, EffectView::RemoveJournal(path));
    lemma_done(s, reply, outside, EffectView::RemoveFile(path));
}

/// What the window is told of the outcome: success exactly where something was
/// installed; no success exactly where something failed of which a reason is
/// shown, but not where no journal could be written or another name is offered;
/// and that nothing is under way any more exactly at the end.
pub proof fn law_when_the_outcome_is_shown(
    s: InstallView,
    reply: ReplyView,
    outside: OutsideView,
    value: bool,
)
    requires
        rules::fits(s.stage, reply),
    ensures
        ({
            let step = rules::next(s, reply, outside);
            let good = decisions::store_success(s, reply) || s.stage == Stage::FileRun && reply->Ran_0.success;
            let bad = {
                ||| decisions::store_failure(s, reply)
                ||| decisions::direct_refused(s, reply) && s.seed_exists
                ||| s.stage == Stage::TargetDir && reply->Created_0 is Some
                ||| s.stage == Stage::FileRun && !reply->Ran_0.success
            };
            &&& step.effects.contains(EffectView::SetSuccess(value)) <==> if value {
                good
            } else {
                bad
            }
            &&& step.effects.contains(EffectView::SetInstalling(value)) <==> !value && (good || bad
                || decisions::not_saved(s, reply) || s.stage == Stage::Suggestion)
        }),
{
    lemma_done(s, reply, outside, EffectView::SetSuccess(value));
    lemma_done(s, reply, outside, EffectView::SetInstalling(value));
}

/// Which reason is shown for a failure: why the journal could not be written; what
/// the failed command says, or else what kind of command it was; what is not
/// listed though it was installed; that a seed is in use; or why the directory
/// could not be created.
pub proof fn law_which_reason_is_shown(
    s: InstallView,
    reply: ReplyView,
    outside: OutsideView,
    why: MessageView,
)
    requires
        rules::fits(s.stage, reply),
    ensures
        rules::next(s, reply, outside).effects.contains(EffectView::SetFailure(why)) <==> {
            let result = reply->Ran_0;
            ||| decisions::not_saved(s, reply) && why == MessageView::Plain(reply->Saved_0->Err_0)
            ||| decisions::store_failure(s, reply) && reply is Ran && result.error is Some && why
                == MessageView::Plain(result.error->0)
            ||| decisions::store_failure(s, reply) && reply is Ran && result.error is None && (s.stage
                == Stage::DirectRun || s.stage == Stage::SeedRun) && why == MessageView::Phrase(
                Phrase::InstallFailed,
            )
            ||| decisions::store_failure(s, reply) && reply is Ran && result.error is None && s.stage
                != Stage::DirectRun && s.stage != Stage::SeedRun && why == MessageView::Phrase(
                Phrase::ImportFailedCustom,
            )
            ||| decisions::store_failure(s, reply) && s.stage == Stage::DirectList && why
                == MessageView::PhraseOf(Phrase::VerifyFailed, s.name)
            ||| decisions::store_failure(s, reply) && s.stage == Stage::SeedList && why == MessageView::PhraseOf(
                Phrase::VerifyFailed,
                s.store_id,
            )
            ||| decisions::direct_refused(s, reply) && s.seed_exists && why == MessageView::Plain(
                "Current WSL does not support '--name'. Safe automatic fallback is unavailable while '"@
                    + s.store_id
                    + "' already exists. Please upgrade WSL before creating another Store instance for this distro."@,
            )
            ||| s.stage == Stage::TargetDir && reply->Created_0 is Some && why == MessageView::Plain(
                "Failed to create directory: "@ + reply->Created_0->0,
            )
            ||| s.stage == Stage::FileRun && !result.success && result.error is Some && why == MessageView::Plain(
                result.error->0,
            )
            ||| s.stage == Stage::FileRun && !result.success && result.error is None && why
                == MessageView::Phrase(Phrase::ImportFailed)
        },
{
    lemma_done(s, reply, outside, EffectView::SetFailure(why));
}

/// What else the window shows: which instance was created, exactly where one was;
/// that a file is being imported; and, where the name is taken, the other name
/// with its path, and whose name is taken.
pub proof fn law_what_else_is_shown(
    s: InstallView,
    reply: ReplyView,
    outside: OutsideView,
    message: MessageView,
    name: Seq<char>,
    path: Seq<char>,
)
    requires
        rules::fits(s.stage, reply),
    ensures
        ({
            let effects = rules::next(s, reply, outside).effects;
            let good = decisions::store_success(s, reply) || s.stage == Stage::FileRun && reply->Ran_0.success;
            &&& effects.contains(EffectView::SetStatus(message)) <==> {
                ||| good && message == MessageView::PhraseOf(Phrase::CreatedSuccess, s.name)
                ||| s.stage == Stage::TargetDir && reply->Created_0 is None && message == MessageView::Phrase(
                    Phrase::Importing,
                )
                ||| s.stage == Stage::Suggestion && message == MessageView::Phrase(Phrase::ConflictError)
            }
            &&& effects.contains(EffectView::SetNameError(message)) <==> s.stage == Stage::Suggestion && message
                == MessageView::PhraseOf(Phrase::NameExists, s.name)
            &&& effects.contains(EffectView::OfferName { name, path }) <==> s.stage == Stage::Suggestion && name
                == reply->name && path == outside.offered_path
            &&& !effects.contains(EffectView::ClearTerminal)
        }),
{
    lemma_done(s, reply, outside, EffectView::SetStatus(message));
    lemma_done(s, reply, outside, EffectView::SetNameError(message));
    lemma_done(s, reply, outside, EffectView::OfferName { name, path });
    lemma_done(s, reply, outside, EffectView::ClearTerminal);
}

/// When the terminal is shown: at the end of everything that was begun (but not
/// where the directory or the journal could not be had), and when a file is about
/// to be imported.
pub proof fn law_when_the_terminal_is_shown(s: InstallView, reply: ReplyView, outside: OutsideView)
    requires
        rules::fits(s.stage, reply),
    ensures
        rules::next(s, reply, outside).effects.contains(EffectView::ShowTerminal) <==> {
            ||| decisions::store_success(s, reply)
            ||| decisions::store_failure(s, reply)
            ||| decisions::direct_refused(s, reply) && s.seed_exists
            ||| s.stage == Stage::FileRun
            ||| s.stage == Stage::TargetDir && reply->Created_0 is None
        },
{
    lemma_done(s, reply, outside, EffectView::ShowTerminal);
}

/// Which numbered steps are written to the terminal, and when.
pub proof fn law_when_steps_are_written(
    s: InstallView,
    reply: ReplyView,
    outside: OutsideView,
    phrase: Phrase,
    end: bool,
)
    requires
        rules::fits(s.stage, reply),
    ensures
        rules::next(s, reply, outside).effects.contains(EffectView::Write(MessageView::Phrase(phrase), end)) <==> {
            &&& end
            &&& {
                ||| phrase is StoreStep2 && s.stage == Stage::SeedSave && reply->Saved_0 is Ok
                ||| (phrase is StoreStep5 || phrase is StoreStep6) && s.stage == Stage::SeedLocation
                ||| phrase is StoreStep7 && s.stage == Stage::Export && reply->Ran_0.success
                ||| phrase is StoreStep8 && s.stage == Stage::Import && reply->Ran_0.success
                ||| phrase is StoreStep9 && decisions::store_success(s, reply)
            }
        },
{
    lemma_done(s, reply, outside, EffectView::Write(MessageView::Phrase(phrase), end));
}

/// Which steps with a text in them are written to the terminal, and when: the
/// command that installs the seed and the source that it is loaded from, the
/// command that imports a file (these two without a line end), and the instance
/// that a file was imported as.
pub proof fn law_when_steps_with_texts_are_written(
    s: InstallView,
    reply: ReplyView,
    outside: OutsideView,
    phrase: Phrase,
    t: Seq<char>,
    end: bool,
)
    requires
        rules::fits(s.stage, reply),
    ensures
        rules::next(s, reply, outside).effects.contains(EffectView::Write(MessageView::PhraseOf(phrase, t), end))
            <==> {
            ||| phrase is StoreStep3 && end && s.stage == Stage::SeedSave && reply->Saved_0 is Ok && t
                == commands::command_line(commands::seed_install_args(s.store_id, s.web_download))
            ||| phrase is StoreStep4 && !end && s.stage == Stage::SeedSave && reply->Saved_0 is Ok && t == if s.web_download {
                "GitHub"@
            } else {
                "Microsoft"@
            }
            ||| phrase is FileStep2 && !end && s.stage == Stage::TargetDir && reply->Created_0 is None && t
                == commands::command_line(commands::import_args(s.name, s.target_path, s.file_path, s.vhd))
            ||| phrase is FileStep3 && end && s.stage == Stage::FileRun && reply->Ran_0.success && t == s.name
        },
{
    lemma_done(s, reply, outside, EffectView::Write(MessageView::PhraseOf(phrase, t), end));
}

/// Which other lines are written to the terminal, and when: the direct command
/// when it is about to run, that WSL refused it, that it succeeded and from which
/// source, and what a failed installation or import of a file put out, if that is
/// not blank.
pub proof fn law_when_other_lines_are_written(
    s: InstallView,
    reply: ReplyView,
    outside: OutsideView,
    t: Seq<char>,
    end: bool,
)
    requires
        rules::fits(s.stage, reply),
    ensures
        rules::next(s, reply, outside).effects.contains(EffectView::Write(MessageView::Plain(t), end)) <==> {
            &&& end
            &&& {
                ||| s.stage == Stage::DirectSave && reply->Saved_0 is Ok && t == "Trying direct named install: "@
                    + commands::command_line(
                    commands::direct_install_args(s.store_id, s.name, s.target_path, s.web_download),
                )
                ||| decisions::direct_refused(s, reply) && t
                    == "Current WSL does not support '--name'; switching to compatibility mode."@
                ||| s.stage == Stage::DirectList && reply->Distros_0.contains(s.name) && t
                    == "Direct Store install succeeded using "@ + (if s.web_download {
                    "GitHub"@
                } else {
                    "Microsoft"@
                }) + " as the download source."@
                ||| {
                    &&& {
                        ||| s.stage == Stage::DirectRun && decisions::failed_otherwise(reply->Ran_0)
                        ||| (s.stage == Stage::SeedRun || s.stage == Stage::FileRun) && !reply->Ran_0.success
                    }
                    &&& !text::blank(reply->Ran_0.output)
                    &&& t == "\n[WSL Output]\n"@ + reply->Ran_0.output
                }
            }
        },
{
    lemma_done(s, reply, outside, EffectView::Write(MessageView::Plain(t), end));
}

/// Whether a form asks for the Store and says what to get there.
spec fn asks_store(form: FormView) -> bool {
    form.source == 2 && (form.internal_id.len() > 0 || form.friendly_name.len() > 0)
}

/// Whether a form gives a file to import.
spec fn gives_file(form: FormView) -> bool {
    (form.source == 0 || form.source == 1) && form.file_path.len() > 0
}

/// Whether an effect belongs to every first step.
spec fn of_start(e: EffectView) -> bool {
    ||| e == EffectView::SetInstalling(true)
    ||| e == EffectView::SetStatus(MessageView::Phrase(Phrase::Checking))
    ||| e == EffectView::SetSuccess(false)
    ||| e == EffectView::ClearTerminal
    ||| e == EffectView::SetNameError(MessageView::Plain(Seq::empty()))
}

/// Whether an effect belongs to the complaint about a name.
spec fn of_complaint(e: EffectView, complaint: Phrase) -> bool {
    ||| e == EffectView::SetNameError(MessageView::Phrase(complaint))
    ||| e == EffectView::SetInstalling(false)
    ||| e == EffectView::SetStatus(MessageView::Phrase(Phrase::Error))
}

/// Whether an effect belongs to the first step that a form leads to, besides
/// those of every first step.
spec fn opened(form: FormView, distros: Seq<Seq<char>>, name: Seq<char>, e: EffectView) -> bool {
    if name.len() == 0 {
        of_complaint(e, Phrase::NameRequired)
    } else if !naming::fit_name(name) {
        of_complaint(e, Phrase::NameInvalid)
    } else if distros.contains(name) {
        false
    } else if form.source == 2 {
        if asks_store(form) {
            ||| e == EffectView::SetStatus(MessageView::Phrase(Phrase::Installing))
            ||| e == EffectView::Write(
                MessageView::PhraseOf(
                    Phrase::StoreStep1,
                    if form.internal_id.len() > 0 {
                        form.internal_id
                    } else {
                        form.friendly_name
                    },
                ),
                true,
            )
            ||| e == EffectView::ShowTerminal
        } else {
            e == EffectView::SetStatus(MessageView::Phrase(Phrase::UnknownDistro)) || e
                == EffectView::SetInstalling(false)
        }
    } else if gives_file(form) {
        e == EffectView::Write(MessageView::Phrase(Phrase::FileStep1), true) || e == EffectView::ShowTerminal
    } else {
        of_failure(
            e,
            MessageView::Phrase(
                if form.source == 0 || form.source == 1 {
                    Phrase::SelectFile
                } else {
                    Phrase::UnknownSource
                },
            ),
        )
    }
}

proof fn lemma_start(e: EffectView)
    ensures
        rules::start_shown().contains(e) <==> of_start(e),
{
    let installing = EffectView::SetInstalling(true);
    let status = EffectView::SetStatus(MessageView::Phrase(Phrase::Checking));
    let success = EffectView::SetSuccess(false);
    let error = EffectView::SetNameError(MessageView::Plain(Seq::empty()));
    let three = seq![installing, status, success];
    assert(rules::start_shown() =~= three.push(EffectView::ClearTerminal).push(error));
    lemma_in_three(installing, status, success, e);
    lemma_in_push(three, EffectView::ClearTerminal, e);
    lemma_in_push(three.push(EffectView::ClearTerminal), error, e);
}

proof fn lemma_complaint(complaint: Phrase, e: EffectView)
    ensures
        (rules::start_shown() + rules::bad_name_shown(complaint)).contains(e) <==> of_start(e) || of_complaint(
            e,
            complaint,
        ),
{
    lemma_start(e);
    lemma_in_sum(rules::start_shown(), rules::bad_name_shown(complaint), e);
    lemma_in_three(
        EffectView::SetNameError(MessageView::Phrase(complaint)),
        EffectView::SetInstalling(false),
        EffectView::SetStatus(MessageView::Phrase(Phrase::Error)),
        e,
    );
}

/// A first step does what belongs to every first step, and what the form leads
/// to.
proof fn lemma_opened(
    form: FormView,
    temp_location: Seq<char>,
    distros: Seq<Seq<char>>,
    name: Seq<char>,
    default_path: Seq<char>,
    e: EffectView,
)
    ensures
        rules::opening(form, temp_location, distros, name, default_path).effects.contains(e) <==> of_start(e)
            || opened(form, distros, name, e),
{
    let start = rules::start_shown();
    lemma_start(e);
    if name.len() == 0 {
        lemma_complaint(Phrase::NameRequired, e);
    } else if !naming::fit_name(name) {
        lemma_complaint(Phrase::NameInvalid, e);
    } else if distros.contains(name) {
    } else if form.source == 2 {
        if asks_store(form) {
            let status = EffectView::SetStatus(MessageView::Phrase(Phrase::Installing));
            let id = if form.internal_id.len() > 0 {
                form.internal_id
            } else {
                form.friendly_name
            };
            let line = EffectView::Write(MessageView::PhraseOf(Phrase::StoreStep1, id), true);
            lemma_in_three(status, line, EffectView::ShowTerminal, e);
            lemma_in_sum(start, seq![status, line, EffectView::ShowTerminal], e);
        } else {
            let status = EffectView::SetStatus(MessageView::Phrase(Phrase::UnknownDistro));
            lemma_in_two(status, EffectView::SetInstalling(false), e);
            lemma_in_sum(start, seq![status, EffectView::SetInstalling(false)], e);
        }
    } else if gives_file(form) {
        let line = EffectView::Write(MessageView::Phrase(Phrase::FileStep1), true);
        lemma_in_two(line, EffectView::ShowTerminal, e);
        lemma_in_sum(start, seq![line, EffectView::ShowTerminal], e);
    } else {
        let why = if form.source == 0 || form.source == 1 {
            Phrase::SelectFile
        } else {
            Phrase::UnknownSource
        };
        lemma_failure(start, MessageView::Phrase(why), e);
    }
}

/// What every first step begins with, in this order: that an installation is
/// under way, that it is checked, that it has not succeeded, an empty terminal and
/// no complaint about the name.
pub proof fn law_how_an_installation_begins(
    form: FormView,
    temp_location: Seq<char>,
    distros: Seq<Seq<char>>,
    name: Seq<char>,
    default_path: Seq<char>,
)
    ensures
        ({
            let effects = rules::opening(form, temp_location, distros, name, default_path).effects;
            &&& effects.len() >= 5
            &&& effects[0] == EffectView::SetInstalling(true)
            &&& effects[1] == EffectView::SetStatus(MessageView::Phrase(Phrase::Checking))
            &&& effects[2] == EffectView::SetSuccess(false)
            &&& effects[3] == EffectView::ClearTerminal
            &&& effects[4] is SetNameError
            &&& effects[4]->SetNameError_0 is Plain && effects[4]->SetNameError_0->Plain_0.len() == 0
        }),
{
}

/// What is said of a name and of the form: that a name is missing or unfit, that
/// the Store is not told what to get, that the file is missing, or that there is
/// no such source; and that the installation goes on. What comes first is said.
pub proof fn law_what_is_said_of_a_form(
    form: FormView,
    temp_location: Seq<char>,
    distros: Seq<Seq<char>>,
    name: Seq<char>,
    default_path: Seq<char>,
    message: MessageView,
)
    ensures
        ({
            let effects = rules::opening(form, temp_location, distros, name, default_path).effects;
            let fit = name.len() > 0 && naming::fit_name(name);
            let free = fit && !distros.contains(name);
            let identified = form.internal_id.len() > 0 || form.friendly_name.len() > 0;
            let from_file = form.source == 0 || form.source == 1;
            &&& effects.contains(EffectView::SetNameError(message)) <==> {
                ||| message == MessageView::Plain(Seq::empty())
                ||| name.len() == 0 && message == MessageView::Phrase(Phrase::NameRequired)
                ||| name.len() > 0 && !naming::fit_name(name) && message == MessageView::Phrase(
                    Phrase::NameInvalid,
                )
            }
            &&& effects.contains(EffectView::SetStatus(message)) <==> {
                ||| message == MessageView::Phrase(Phrase::Checking)
                ||| !fit && message == MessageView::Phrase(Phrase::Error)
                ||| free && form.source == 2 && !identified && message == MessageView::Phrase(
                    Phrase::UnknownDistro,
                )
                ||| free && form.source == 2 && identified && message == MessageView::Phrase(Phrase::Installing)
            }
            &&& effects.contains(EffectView::SetFailure(message)) <==> {
                ||| free && from_file && form.file_path.len() == 0 && message == MessageView::Phrase(
                    Phrase::SelectFile,
                )
                ||| free && !from_file && form.source != 2 && message == MessageView::Phrase(
                    Phrase::UnknownSource,
                )
            }
        }),
{
    lemma_opened(form, temp_location, distros, name, default_path, EffectView::SetNameError(message));
    lemma_opened(form, temp_location, distros, name, default_path, EffectView::SetStatus(message));
    lemma_opened(form, temp_location, distros, name, default_path, EffectView::SetFailure(message));
}

/// What a first step writes: what the Store is asked for, or that a file is
/// imported, each as a line, with the terminal shown; and nothing where the form
/// goes no further.
pub proof fn law_what_a_first_step_writes(
    form: FormView,
    temp_location: Seq<char>,
    distros: Seq<Seq<char>>,
    name: Seq<char>,
    default_path: Seq<char>,
    message: MessageView,
    end: bool,
)
    ensures
        ({
            let effects = rules::opening(form, temp_location, distros, name, default_path).effects;
            let free = name.len() > 0 && naming::fit_name(name) && !distros.contains(name);
            let from_store = free && form.source == 2;
            let from_file = free && (form.source == 0 || form.source == 1) && form.file_path.len() > 0;
            &&& effects.contains(EffectView::Write(message, end)) <==> end && {
                ||| from_store && form.internal_id.len() > 0 && message == MessageView::PhraseOf(
                    Phrase::StoreStep1,
                    form.internal_id,
                )
                ||| from_store && form.internal_id.len() == 0 && form.friendly_name.len() > 0 && message
                    == MessageView::PhraseOf(Phrase::StoreStep1, form.friendly_name)
                ||| from_file && message == MessageView::Phrase(Phrase::FileStep1)
            }
            &&& effects.contains(EffectView::ShowTerminal) <==> {
                ||| from_store && (form.internal_id.len() > 0 || form.friendly_name.len() > 0)
                ||| from_file
            }
        }),
{
    lemma_opened(form, temp_location, distros, name, default_path, EffectView::Write(message, end));
    lemma_opened(form, temp_location, distros, name, default_path, EffectView::ShowTerminal);
}

/// A first step only shows things: it creates, marks, records and removes
/// nothing, and it never reports a success. It shows that nothing is under way any
/// more exactly where it is the last.
pub proof fn law_first_step_touches_nothing(
    form: FormView,
    temp_location: Seq<char>,
    distros: Seq<Seq<char>>,
    name: Seq<char>,
    default_path: Seq<char>,
    e: EffectView,
)
    ensures
        ({
            let step = rules::opening(form, temp_location, distros, name, default_path);
            &&& step.effects.contains(e) ==> {
                ||| e is SetInstalling
                ||| e is SetStatus
                ||| e is SetSuccess
                ||| e is SetFailure
                ||| e is SetNameError
                ||| e is ClearTerminal
                ||| e is ShowTerminal
                ||| e is Write
            }
            &&& !step.effects.contains(EffectView::SetSuccess(true))
            &&& step.effects.contains(EffectView::SetInstalling(false)) <==> step.ask is Finish
        }),
{
    lemma_opened(form, temp_location, distros, name, default_path, e);
    lemma_opened(form, temp_location, distros, name, default_path, EffectView::SetSuccess(true));
    lemma_opened(form, temp_location, distros, name, default_path, EffectView::SetInstalling(false));
}

} // verus!
