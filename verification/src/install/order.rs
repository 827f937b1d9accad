//! In which order the steps of an installation do things.
use crate::install::rules;
use crate::install::types::EffectView;
use crate::install::types::FormView;
use crate::install::types::InstallView;
use crate::install::types::OutsideView;
use crate::install::types::ReplyView;
use crate::install::types::Stage;
use crate::messages::MessageView;
use crate::messages::Phrase;
use crate::plan::StoreCreatePhase;
use vstd::prelude::*;

verus! {

/// When a line of the terminal has its turn: the steps that follow another in one
/// breath come after it.
pub open spec fn turn_of_line(message: MessageView) -> int {
    match message {
        MessageView::Phrase(Phrase::StoreStep9) => 6,
        MessageView::PhraseOf(Phrase::StoreStep3, _) => 6,
        MessageView::PhraseOf(Phrase::StoreStep4, _) => 7,
        MessageView::Phrase(Phrase::StoreStep6) => 7,
        _ => 5,
    }
}

/// When an effect has its turn among those of one step. What is owned is recorded
/// before it is marked, a directory is there before its marker, and both before
/// anything is said of it; an operation is recorded as over before what it leaves
/// behind is removed, and its journal goes last; then the terminal is shown, then
/// the outcome, and that nothing is under way any more.
pub open spec fn turn(stage: Stage, e: EffectView) -> int {
    match e {
        EffectView::OwnPath { .. } => 1,
        EffectView::OfferName { .. } => 1,
        EffectView::SetNameError(_) => 2,
        EffectView::CreateDir(_) => if stage == Stage::SeedLocation {
            8
        } else {
            2
        },
        EffectView::CreateMarker { .. } => 3,
        EffectView::SetPhase { journal, phase } => match phase {
            StoreCreatePhase::SeedReady => 4,
            StoreCreatePhase::PromotionPending => 6,
            _ => 7,
        },
        EffectView::Write(message, _) => turn_of_line(message),
        EffectView::RemoveFile(_) => 8,
        EffectView::RemoveMarker { .. } => if stage == Stage::Unregister {
            1
        } else {
            9
        },
        EffectView::RemoveJournal(_) => 10,
        EffectView::ShowTerminal => 11,
        EffectView::SetSuccess(_) => 12,
        EffectView::SetFailure(_) => 13,
        EffectView::SetStatus(message) => match message {
            MessageView::Phrase(Phrase::Importing) => 1,
            MessageView::Phrase(Phrase::Installing) => 1,
            MessageView::Phrase(Phrase::ConflictError) => 15,
            MessageView::Phrase(Phrase::Error) => 15,
            _ => 13,
        },
        EffectView::SetInstalling(_) => 14,
        EffectView::ClearTerminal => 0,
    }
}

/// Whether each effect, from one on, has its turn after the one before it.
pub open spec fn in_turn(stage: Stage, effects: Seq<EffectView>, from: int) -> bool {
    forall|i: int|
        from <= i && i + 1 < effects.len() ==> turn(stage, #[trigger] effects[i]) < turn(stage, effects[i + 1])
}

proof fn lemma_joined_in_turn(stage: Stage, a: Seq<EffectView>, b: Seq<EffectView>)
    requires
        in_turn(stage, a, 0),
        in_turn(stage, b, 0),
        a.len() > 0 && b.len() > 0 ==> turn(stage, a.last()) < turn(stage, b[0]),
    ensures
        in_turn(stage, a + b, 0),
{
    assert forall|i: int| 0 <= i && i + 1 < (a + b).len() implies turn(stage, #[trigger] (a + b)[i]) < turn(
        stage,
        (a + b)[i + 1],
    ) by {
        if i + 1 < a.len() {
            assert(turn(stage, a[i]) < turn(stage, a[i + 1]));
        } else if i >= a.len() {
            assert(turn(stage, b[i - a.len()]) < turn(stage, b[i - a.len() + 1]));
        } else {
            assert(a[i] == a.last());
        }
    }
}

proof fn lemma_left_in_turn(s: InstallView, before: Seq<EffectView>, why: MessageView)
    requires
        before.len() == 0 || before.len() == 1 && before[0] is Write && turn_of_line(
            before[0]->Write_0,
        ) == 5,
    ensures
        in_turn(s.stage, rules::left_recoverable(s, before, why).effects, 0),
{
    let two = seq![
        EffectView::SetPhase { journal: s.journal, phase: StoreCreatePhase::Recoverable },
        EffectView::ShowTerminal,
    ];
    lemma_joined_in_turn(s.stage, before, two);
    lemma_joined_in_turn(s.stage, before + two, rules::failure_shown(why));
}

/// Each effect of a step has its turn after the one before it; so none is done
/// twice.
pub proof fn law_effects_come_in_turn(s: InstallView, reply: ReplyView, outside: OutsideView)
    requires
        rules::fits(s.stage, reply),
    ensures
        in_turn(s.stage, rules::next(s, reply, outside).effects, 0),
{
    let none = Seq::<EffectView>::empty();
    match s.stage {
        Stage::DirectRun => lemma_direct_run_in_turn(s, reply, outside),
        Stage::DirectList => lemma_direct_list_in_turn(s, reply, outside),
        Stage::SeedList => lemma_left_in_turn(s, none, MessageView::PhraseOf(Phrase::VerifyFailed, s.store_id)),
        Stage::SeedRun | Stage::Export | Stage::Unregister | Stage::Import => lemma_promotion_in_turn(
            s,
            reply,
            outside,
        ),
        Stage::SeedLocation => {
            let effects = rules::next(s, reply, outside).effects;
            let claimed = rules::seed_claimed(s, reply->Location_0);
            lemma_joined_in_turn(s.stage, claimed, effects.skip(claimed.len() as int));
            assert(effects =~= claimed + effects.skip(claimed.len() as int));
        },
        Stage::FileRun => {
            let result = reply->Ran_0;
            if result.success {
                let effects = rules::next(s, reply, outside).effects;
                lemma_joined_in_turn(s.stage, effects.take(2), rules::success_shown(s.name));
                assert(effects =~= effects.take(2) + rules::success_shown(s.name));
            } else {
                let shown = rules::output_shown(result.output);
                let why = rules::failure_reason(result, Phrase::ImportFailed);
                lemma_joined_in_turn(s.stage, shown, seq![EffectView::ShowTerminal]);
                lemma_joined_in_turn(
                    s.stage,
                    shown + seq![EffectView::ShowTerminal],
                    rules::failure_shown(why),
                );
            }
        },
        _ => {},
    }
}

proof fn lemma_direct_run_in_turn(s: InstallView, reply: ReplyView, outside: OutsideView)
    requires
        rules::fits(s.stage, reply),
        s.stage == Stage::DirectRun,
    ensures
        in_turn(s.stage, rules::next(s, reply, outside).effects, 0),
{
    let result = reply->Ran_0;
    let gone = rules::direct_withdrawn(s);
    let shown = seq![EffectView::ShowTerminal];
    lemma_joined_in_turn(s.stage, gone, shown);
    lemma_joined_in_turn(
        s.stage,
        gone + shown,
        rules::failure_shown(MessageView::Plain(rules::no_safe_fallback(s.store_id))),
    );
    lemma_left_in_turn(
        s,
        rules::output_shown(result.output),
        rules::failure_reason(result, Phrase::InstallFailed),
    );
}

proof fn lemma_direct_list_in_turn(s: InstallView, reply: ReplyView, outside: OutsideView)
    requires
        rules::fits(s.stage, reply),
        s.stage == Stage::DirectList,
    ensures
        in_turn(s.stage, rules::next(s, reply, outside).effects, 0),
{
    let effects = rules::next(s, reply, outside).effects;
    if reply->Distros_0.contains(s.name) {
        lemma_joined_in_turn(s.stage, effects.take(6), rules::success_shown(s.name));
        assert(effects =~= effects.take(6) + rules::success_shown(s.name));
    } else {
        lemma_left_in_turn(s, Seq::empty(), MessageView::PhraseOf(Phrase::VerifyFailed, s.name));
    }
}

proof fn lemma_promotion_in_turn(s: InstallView, reply: ReplyView, outside: OutsideView)
    requires
        rules::fits(s.stage, reply),
        s.stage == Stage::SeedRun || s.stage == Stage::Export || s.stage == Stage::Unregister || s.stage
            == Stage::Import,
    ensures
        in_turn(s.stage, rules::next(s, reply, outside).effects, 0),
{
    let result = reply->Ran_0;
    let effects = rules::next(s, reply, outside).effects;
    if s.stage == Stage::SeedRun {
        lemma_left_in_turn(
            s,
            rules::output_shown(result.output),
            rules::failure_reason(result, Phrase::InstallFailed),
        );
    } else if !result.success {
        lemma_left_in_turn(s, Seq::empty(), rules::failure_reason(result, Phrase::ImportFailedCustom));
    } else if s.stage == Stage::Unregister {
        lemma_joined_in_turn(s.stage, rules::seed_released(s), rules::target_claimed(s));
    } else if s.stage == Stage::Import {
        lemma_joined_in_turn(s.stage, effects.take(7), rules::success_shown(s.name));
        assert(effects =~= effects.take(7) + rules::success_shown(s.name));
    }
}

/// After what every first step begins with, each effect of it has its turn after
/// the one before it.
pub proof fn law_first_effects_come_in_turn(
    form: FormView,
    temp_location: Seq<char>,
    distros: Seq<Seq<char>>,
    name: Seq<char>,
    default_path: Seq<char>,
)
    ensures
        ({
            let step = rules::opening(form, temp_location, distros, name, default_path);
            in_turn(step.install.stage, step.effects, 5)
        }),
{
    let step = rules::opening(form, temp_location, distros, name, default_path);
    assert(step.effects.len() <= 8);
    assert(step.effects.len() > 6 ==> turn(step.install.stage, step.effects[5]) < turn(
        step.install.stage,
        step.effects[6],
    ));
    assert(step.effects.len() > 7 ==> turn(step.install.stage, step.effects[6]) < turn(
        step.install.stage,
        step.effects[7],
    ));
    assert forall|i: int| 5 <= i && i + 1 < step.effects.len() implies turn(
        step.install.stage,
        #[trigger] step.effects[i],
    ) < turn(step.install.stage, step.effects[i + 1]) by {
        assert(i == 5 || i == 6);
    }
}

} // verus!
