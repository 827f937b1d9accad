//! What decides how an installation goes on, and what it then asks for.
use crate::commands;
use crate::commands::CommandResultView;
use crate::install::rules;
use crate::install::types::AskView;
use crate::install::types::EffectView;
use crate::install::types::FormView;
use crate::install::types::InstallView;
use crate::install::types::OutsideView;
use crate::install::types::ReplyView;
use crate::install::types::RunMode;
use crate::install::types::Stage;
use crate::install::types::StepView;
use crate::locations;
use crate::naming;
use crate::paths;
use crate::plan::StoreCreatePhase;
use crate::stamp;
use vstd::prelude::*;

verus! {

/// Whether a command said a word, in any case, in its output or in its error if
/// it gives one.
pub open spec fn said(result: CommandResultView, word: Seq<char>) -> bool {
    commands::said_on_either(
        word,
        result.output,
        match result.error {
            Some(error) => error,
            None => ""@,
        },
    )
}

/// Whether a command failed over the `--name` option: it said the option, and a
/// word of refusal.
pub open spec fn failed_over_name(result: CommandResultView) -> bool {
    &&& !result.success
    &&& said(result, "--name"@)
    &&& {
        ||| said(result, "invalid"@)
        ||| said(result, "unknown"@)
        ||| said(result, "option"@)
        ||| said(result, "usage"@)
        ||| said(result, "参数"@)
        ||| said(result, "选项"@)
    }
}

/// Whether a command failed otherwise.
pub open spec fn failed_otherwise(result: CommandResultView) -> bool {
    !result.success && !failed_over_name(result)
}

/// The machine recognises a failure over `--name` wherever the command spoke of
/// it.
pub proof fn law_failure_over_name_is_recognised(result: CommandResultView)
    ensures
        !result.success ==> (rules::name_option_refused(result) <==> failed_over_name(result)),
{
    commands::law_refusal_is_read_from_both_channels(
        result.output,
        match result.error {
            Some(error) => error,
            None => ""@,
        },
    );
}

/// Whether a Store installation has just succeeded: its instance is listed after
/// the direct installation, or the import of the promoted seed succeeded.
pub open spec fn store_success(s: InstallView, reply: ReplyView) -> bool {
    ||| s.stage == Stage::DirectList && reply->Distros_0.contains(s.name)
    ||| s.stage == Stage::Import && reply->Ran_0.success
}

/// Whether a journalled installation has just failed, so that something may be
/// left of it: a command failed (but not the direct one over `--name`), or what it
/// installed is not listed.
pub open spec fn store_failure(s: InstallView, reply: ReplyView) -> bool {
    ||| s.stage == Stage::DirectRun && failed_otherwise(reply->Ran_0)
    ||| s.stage == Stage::DirectList && !reply->Distros_0.contains(s.name)
    ||| s.stage == Stage::SeedRun && !reply->Ran_0.success
    ||| s.stage == Stage::SeedList && !reply->Distros_0.contains(s.store_id)
    ||| s.stage == Stage::Export && !reply->Ran_0.success
    ||| s.stage == Stage::Unregister && !reply->Ran_0.success
    ||| s.stage == Stage::Import && !reply->Ran_0.success
}

/// Whether a direct installation was refused over `--name`.
pub open spec fn direct_refused(s: InstallView, reply: ReplyView) -> bool {
    s.stage == Stage::DirectRun && failed_over_name(reply->Ran_0)
}

/// Whether a journal could not be written.
pub open spec fn not_saved(s: InstallView, reply: ReplyView) -> bool {
    (s.stage == Stage::DirectSave || s.stage == Stage::SeedSave) && reply->Saved_0 is Err
}

/// A reply fits exactly where it is of the kind that was asked for; nothing fits
/// an installation that is over.
pub proof fn law_which_replies_fit(stage: Stage, reply: ReplyView)
    ensures
        reply is Suggested ==> (rules::fits(stage, reply) <==> stage is Suggestion),
        reply is Source ==> (rules::fits(stage, reply) <==> stage is Source),
        reply is Saved ==> (rules::fits(stage, reply) <==> stage is DirectSave || stage is SeedSave),
        reply is Ran ==> (rules::fits(stage, reply) <==> stage is DirectRun || stage is SeedRun || stage is Export
            || stage is Unregister || stage is Import || stage is FileRun),
        reply is Distros ==> (rules::fits(stage, reply) <==> stage is DirectList || stage is SeedList),
        reply is Location ==> (rules::fits(stage, reply) <==> stage is SeedLocation),
        reply is Created ==> (rules::fits(stage, reply) <==> stage is TargetDir),
{
}

/// When an installation ends, and how. It ends with success exactly where a Store
/// installation has succeeded or a file was imported; without, where a journal
/// could not be written, where something failed, where a refused direct
/// installation cannot be made up for because the seed is in use, where another
/// name is offered, and where the directory could not be created. Otherwise it
/// goes on.
pub proof fn law_when_an_installation_ends(s: InstallView, reply: ReplyView, outside: OutsideView)
    requires
        rules::fits(s.stage, reply),
    ensures
        ({
            let step = rules::next(s, reply, outside);
            &&& step.ask == (AskView::Finish { refresh: true }) <==> {
                ||| store_success(s, reply)
                ||| s.stage == Stage::FileRun && reply->Ran_0.success
            }
            &&& step.ask == (AskView::Finish { refresh: false }) <==> {
                ||| store_failure(s, reply)
                ||| not_saved(s, reply)
                ||| direct_refused(s, reply) && s.seed_exists
                ||| s.stage == Stage::Suggestion
                ||| s.stage == Stage::TargetDir && reply->Created_0 is Some
                ||| s.stage == Stage::FileRun && !reply->Ran_0.success
            }
            &&& step.install.stage == Stage::Over <==> step.ask is Finish
        }),
{
    if s.stage == Stage::DirectRun {
        law_failure_over_name_is_recognised(reply->Ran_0);
    }
}

/// A direct installation counts as a success only where its instance is listed
/// afterwards: whatever else is listed, the names decide by that one alone.
pub proof fn law_direct_success_needs_the_instance(
    s: InstallView,
    names: Seq<Seq<char>>,
    outside: OutsideView,
)
    requires
        s.stage == Stage::DirectList,
    ensures
        rules::next(s, ReplyView::Distros(names), outside).ask == (AskView::Finish {
            refresh: exists|i: int| 0 <= i < names.len() && #[trigger] names[i] == s.name,
        }),
{
}

/// What a failed direct installation leads to, by what it said in its output and
/// its error together: over `--name`, the journal of a promotion where no seed is
/// in use, and the end where one is; otherwise the end.
pub proof fn law_what_a_failed_direct_installation_leads_to(
    s: InstallView,
    result: CommandResultView,
    outside: OutsideView,
)
    requires
        s.stage == Stage::DirectRun,
        !result.success,
    ensures
        ({
            let step = rules::next(s, ReplyView::Ran(result), outside);
            &&& step.ask is SaveJournal <==> failed_over_name(result) && !s.seed_exists
            &&& step.install.stage == Stage::SeedSave <==> failed_over_name(result) && !s.seed_exists
            &&& step.ask == (AskView::Finish { refresh: false }) <==> !failed_over_name(result) || s.seed_exists
        }),
{
    law_failure_over_name_is_recognised(result);
}

/// What is asked next wherever an installation goes on, stage by stage on the way
/// of a Store installation and of a file.
pub proof fn law_what_is_asked_next(s: InstallView, reply: ReplyView, outside: OutsideView)
    requires
        rules::fits(s.stage, reply),
    ensures
        ({
            let step = rules::next(s, reply, outside);
            &&& step.ask is ListDistros <==> (s.stage == Stage::DirectRun || s.stage == Stage::SeedRun)
                && reply->Ran_0.success
            &&& step.ask is InstallLocation <==> s.stage == Stage::SeedList && reply->Distros_0.contains(
                s.store_id,
            )
            &&& step.ask is InstallLocation ==> step.ask == AskView::InstallLocation(s.store_id)
            &&& step.ask is SaveJournal <==> s.stage == Stage::Source || direct_refused(s, reply)
                && !s.seed_exists
            &&& step.ask !is SuggestName && step.ask !is FastestSource && step.ask !is CreateTarget
            &&& step.ask is Run <==> {
                ||| (s.stage == Stage::DirectSave || s.stage == Stage::SeedSave) && reply->Saved_0 is Ok
                ||| s.stage == Stage::SeedLocation
                ||| (s.stage == Stage::Export || s.stage == Stage::Unregister) && reply->Ran_0.success
                ||| s.stage == Stage::TargetDir && reply->Created_0 is None
            }
        }),
{
    if s.stage == Stage::DirectRun {
        law_failure_over_name_is_recognised(reply->Ran_0);
    }
}

/// Which command is asked for: the direct installation and that of a seed once
/// their journals are written, the export of the seed to the archive, its
/// removal, the import of the target from the archive, and the import of a file;
/// the installations with their output read as it comes, the import of a file
/// with progress shown.
pub proof fn law_which_command_is_run(s: InstallView, reply: ReplyView, outside: OutsideView)
    requires
        rules::fits(s.stage, reply),
        rules::next(s, reply, outside).ask is Run,
    ensures
        ({
            let ask = rules::next(s, reply, outside).ask;
            let args = ask->args;
            &&& s.stage == Stage::DirectSave ==> args == commands::direct_install_args(
                s.store_id,
                s.name,
                s.target_path,
                s.web_download,
            )
            &&& s.stage == Stage::SeedSave ==> args == commands::seed_install_args(s.store_id, s.web_download)
            &&& s.stage == Stage::SeedLocation ==> args == commands::export_args(s.store_id, s.archive_path)
            &&& s.stage == Stage::Export ==> args == commands::unregister_args(s.store_id)
            &&& s.stage == Stage::Unregister ==> args == commands::import_args(
                s.name,
                s.target_path,
                s.archive_path,
                false,
            )
            &&& s.stage == Stage::TargetDir ==> args == commands::import_args(
                s.name,
                s.target_path,
                s.file_path,
                s.vhd,
            )
            &&& ask->mode == RunMode::Streaming <==> s.stage == Stage::DirectSave || s.stage == Stage::SeedSave
            &&& ask->mode == RunMode::Progress <==> s.stage == Stage::TargetDir
            &&& ask->mode == RunMode::Quiet <==> s.stage == Stage::SeedLocation || s.stage == Stage::Export
                || s.stage == Stage::Unregister
        }),
{
}

/// Where the commands lead, each to the stage that waits for it.
pub proof fn law_stages_follow_each_other(s: InstallView, reply: ReplyView, outside: OutsideView)
    requires
        rules::fits(s.stage, reply),
    ensures
        ({
            let then = rules::next(s, reply, outside).install.stage;
            let ask = rules::next(s, reply, outside).ask;
            &&& then == Stage::DirectSave <==> s.stage == Stage::Source
            &&& then == Stage::DirectRun <==> s.stage == Stage::DirectSave && reply->Saved_0 is Ok
            &&& then == Stage::DirectList <==> s.stage == Stage::DirectRun && reply->Ran_0.success
            &&& then == Stage::SeedSave <==> direct_refused(s, reply) && !s.seed_exists
            &&& then == Stage::SeedRun <==> s.stage == Stage::SeedSave && reply->Saved_0 is Ok
            &&& then == Stage::SeedList <==> s.stage == Stage::SeedRun && reply->Ran_0.success
            &&& then == Stage::SeedLocation <==> s.stage == Stage::SeedList && reply->Distros_0.contains(
                s.store_id,
            )
            &&& then == Stage::Export <==> s.stage == Stage::SeedLocation
            &&& then == Stage::Unregister <==> s.stage == Stage::Export && reply->Ran_0.success
            &&& then == Stage::Import <==> s.stage == Stage::Unregister && reply->Ran_0.success
            &&& then == Stage::FileRun <==> s.stage == Stage::TargetDir && reply->Created_0 is None
            &&& then != Stage::Source && then != Stage::Suggestion && then != Stage::TargetDir
        }),
{
    if s.stage == Stage::DirectRun {
        law_failure_over_name_is_recognised(reply->Ran_0);
    }
}

/// What a step changes of what is known, and what it leaves alone: the source is
/// known from the reply about it, an identifier is taken with each new journal,
/// the place of the journal from where it was written, that of the archive with
/// the journal of a promotion, and that of the seed from the reply about it.
pub proof fn law_what_a_step_remembers(s: InstallView, reply: ReplyView, outside: OutsideView)
    requires
        rules::fits(s.stage, reply),
    ensures
        ({
            let step = rules::next(s, reply, outside);
            let then = step.install;
            &&& then.name == s.name && then.store_id == s.store_id && then.target_path == s.target_path
            &&& then.file_path == s.file_path && then.vhd == s.vhd && then.seed_exists == s.seed_exists
            &&& then.temp_location == s.temp_location
            &&& then.web_download == if s.stage == Stage::Source {
                reply->Source_0
            } else {
                s.web_download
            }
            &&& then.operation_id == if step.ask is SaveJournal {
                outside.operation_id
            } else {
                s.operation_id
            }
            &&& then.journal == if (s.stage == Stage::DirectSave || s.stage == Stage::SeedSave)
                && reply->Saved_0 is Ok {
                reply->Saved_0->Ok_0
            } else {
                s.journal
            }
            &&& then.archive_path == if direct_refused(s, reply) && !s.seed_exists {
                outside.archive_path
            } else {
                s.archive_path
            }
            &&& then.seed_path == if s.stage == Stage::SeedLocation {
                reply->Location_0
            } else {
                s.seed_path
            }
        }),
{
    if s.stage == Stage::DirectRun {
        law_failure_over_name_is_recognised(reply->Ran_0);
    }
}

/// What a journal that is to be saved records: the operation and its request, that
/// nothing is done yet, and what the operation will own. A direct installation
/// owns the target alone and no archive; a promotion its seed and the target, the
/// target's path and the archive.
pub proof fn law_what_is_journalled(s: InstallView, reply: ReplyView, outside: OutsideView)
    requires
        rules::fits(s.stage, reply),
        rules::next(s, reply, outside).ask is SaveJournal,
    ensures
        ({
            let journal = rules::next(s, reply, outside).ask->SaveJournal_0;
            &&& journal.operation_id == outside.operation_id
            &&& journal.created_at == outside.created_at
            &&& journal.request.target_name == s.name
            &&& journal.request.target_path == s.target_path
            &&& journal.request.store_id == s.store_id
            &&& journal.phase == StoreCreatePhase::JournalCreated
            &&& journal.seed_created_by_operation
            &&& journal.cleanup.owned_distros.last() == s.name
            &&& s.stage == Stage::Source ==> {
                &&& journal.cleanup.owned_distros.len() == 1
                &&& journal.cleanup.archive_path is None
                &&& journal.cleanup.owned_paths.len() == if s.target_path.len() > 0 {
                    1int
                } else {
                    0int
                }
            }
            &&& s.stage == Stage::DirectRun ==> {
                &&& journal.cleanup.owned_distros.len() == 2
                &&& journal.cleanup.owned_distros[0] == s.store_id
                &&& journal.cleanup.archive_path == Some(outside.archive_path)
                &&& journal.cleanup.owned_paths.len() == 1
            }
            &&& journal.cleanup.owned_paths.len() == 1 ==> journal.cleanup.owned_paths[0] == s.target_path
        }),
{
}

/// A name that is missing, unfit or taken stops every installation at its first
/// step, whatever its source; a fit name that is taken leads to another.
pub proof fn law_names_are_judged_first(
    form: FormView,
    temp_location: Seq<char>,
    distros: Seq<Seq<char>>,
    name: Seq<char>,
    default_path: Seq<char>,
)
    ensures
        ({
            let step = rules::opening(form, temp_location, distros, name, default_path);
            let good = name.len() > 0 && naming::fit_name(name);
            &&& step.ask == AskView::SuggestName(name) <==> good && distros.contains(name)
            &&& step.ask is SuggestName ==> step.ask == AskView::SuggestName(name)
            &&& !good ==> step.ask == (AskView::Finish { refresh: false })
            &&& step.install.stage == Stage::Source || step.install.stage == Stage::TargetDir ==> good
                && !distros.contains(name)
            &&& step.install.stage == Stage::Suggestion <==> good && distros.contains(name)
        }),
{
}

/// What a form with a good name leads to, by its source: the Store (2) needs an
/// identifier and then asks for the faster source; a root file system (0) or a
/// disk image (1) needs a file and then asks for the directory; any other source
/// is the end.
pub proof fn law_what_a_form_leads_to(
    form: FormView,
    temp_location: Seq<char>,
    distros: Seq<Seq<char>>,
    name: Seq<char>,
    default_path: Seq<char>,
)
    requires
        name.len() > 0,
        naming::fit_name(name),
        !distros.contains(name),
    ensures
        ({
            let step = rules::opening(form, temp_location, distros, name, default_path);
            let from_store = form.source == 2;
            let from_file = form.source == 0 || form.source == 1;
            let identified = form.internal_id.len() > 0 || form.friendly_name.len() > 0;
            &&& step.ask is FastestSource <==> from_store && identified
            &&& step.install.stage == Stage::Source <==> from_store && identified
            &&& step.ask is CreateTarget <==> from_file && form.file_path.len() > 0
            &&& step.ask is CreateTarget ==> step.ask == AskView::CreateTarget(step.install.target_path)
            &&& step.install.stage == Stage::TargetDir <==> from_file && form.file_path.len() > 0
            &&& step.ask == (AskView::Finish { refresh: false }) <==> {
                ||| from_store && !identified
                ||| from_file && form.file_path.len() == 0
                ||| !from_store && !from_file
            }
        }),
{
}

/// What an installation knows from its form: the identifier in the Store is the
/// internal one, or else the name of the distribution; the path is the one that
/// was given, or else the default one; a disk image is told from an archive by
/// the source; and a seed is in use exactly where its identifier is installed.
pub proof fn law_what_is_known_from_the_form(
    form: FormView,
    temp_location: Seq<char>,
    distros: Seq<Seq<char>>,
    name: Seq<char>,
    default_path: Seq<char>,
)
    ensures
        ({
            let known = rules::opening(form, temp_location, distros, name, default_path).install;
            &&& known.name == name
            &&& form.internal_id.len() > 0 ==> known.store_id == form.internal_id
            &&& form.internal_id.len() == 0 ==> known.store_id == form.friendly_name
            &&& form.install_path.len() > 0 ==> known.target_path == form.install_path
            &&& form.install_path.len() == 0 ==> known.target_path == default_path
            &&& known.file_path == form.file_path
            &&& known.vhd <==> form.source == 1
            &&& known.seed_exists <==> exists|i: int|
                0 <= i < distros.len() && #[trigger] distros[i] == known.store_id
            &&& known.temp_location == temp_location
            &&& !known.web_download
            &&& known.operation_id.len() == 0 && known.journal.len() == 0 && known.archive_path.len() == 0
            &&& known.seed_path is None
        }),
{
    let known = rules::opening(form, temp_location, distros, name, default_path).install;
    assert(known.seed_exists == distros.contains(known.store_id));
}

/// Which name and place the first step of an installation settles on: the name
/// that was typed; without one, for the Store the name of the distribution, and
/// otherwise the stem of the file, if there is a file; and the place that was
/// given, or else that name below the directory for instances.
pub proof fn law_name_and_place_of_an_instance(
    form: FormView,
    distro_location: Seq<char>,
    temp_location: Seq<char>,
    distros: Seq<Seq<char>>,
    step: StepView,
)
    requires
        rules::opening_outcome(form, distro_location, temp_location, distros, step),
    ensures
        form.name.len() > 0 ==> step.install.name == form.name,
        form.name.len() == 0 && form.source == 2 ==> step.install.name == form.friendly_name,
        form.name.len() == 0 && form.source != 2 && form.file_path.len() == 0 ==> step.install.name.len() == 0,
        form.name.len() == 0 && form.source != 2 && form.file_path.len() > 0 ==> exists|stem: Option<Seq<char>>|
            #[trigger] paths::stem_outcome(form.file_path, stem) && step.install.name == match stem {
                Some(t) => t,
                None => Seq::empty(),
            },
        form.install_path.len() > 0 ==> step.install.target_path == form.install_path,
        form.install_path.len() == 0 ==> paths::join_outcome(
            distro_location,
            step.install.name,
            step.install.target_path,
        ),
{
    let (stem, default_path) = choose|stem: Option<Seq<char>>, default_path: Seq<char>|
        #[trigger] rules::opening_inputs(form, distro_location, stem, default_path) && step == rules::opening(
            form,
            temp_location,
            distros,
            rules::form_name(form, stem),
            default_path,
        );
    assert(paths::stem_outcome(form.file_path, stem));
    if form.name.len() == 0 {
        assert(form.name =~= Seq::empty());
    }
}

/// Which path goes with another name: that name below the directory that the
/// reply gives. And what a new journal and a promotion get from outside: a random
/// identifier, the time, and an archive next to the target that bears the
/// fragment of the instance's name.
pub proof fn law_what_comes_from_outside(s: InstallView, reply: ReplyView, step: StepView)
    requires
        rules::fits(s.stage, reply),
        rules::next_outcome(s, reply, step),
    ensures
        s.stage == Stage::Suggestion ==> exists|path: Seq<char>|
            #[trigger] paths::join_outcome(reply->location, reply->name, path) && step.effects.contains(
                EffectView::OfferName { name: reply->name, path },
            ),
        step.ask is SaveJournal ==> {
            &&& stamp::random_id_text(step.ask->SaveJournal_0.operation_id)
            &&& stamp::utc_time_text(step.ask->SaveJournal_0.created_at)
        },
        step.ask is SaveJournal && s.stage == Stage::DirectRun ==> locations::archive_location(
            s.target_path,
            s.name,
            step.install.archive_path,
        ),
{
    let outside = choose|outside: OutsideView|
        #[trigger] rules::outside_outcome(s, reply, outside) && step == rules::next(s, reply, outside);
    if s.stage == Stage::Suggestion {
        assert(step.effects[0] == (EffectView::OfferName {
            name: reply->name,
            path: outside.offered_path,
        }));
        assert(paths::join_outcome(reply->location, reply->name, outside.offered_path));
    }
}

/// Whatever comes from outside, every step is the one that the rules give for the
/// installation and the reply as they are.
pub proof fn law_steps_are_those_of_the_rules(s: InstallView, reply: ReplyView, step: StepView)
    requires
        rules::next_outcome(s, reply, step),
    ensures
        exists|outside: OutsideView| step == #[trigger] rules::next(s, reply, outside),
{
}

/// Whatever comes from outside, the first step is the one that the rules give for
/// the form, the installed distributions and the name that it settles on.
pub proof fn law_first_step_is_that_of_the_rules(
    form: FormView,
    distro_location: Seq<char>,
    temp_location: Seq<char>,
    distros: Seq<Seq<char>>,
    step: StepView,
)
    requires
        rules::opening_outcome(form, distro_location, temp_location, distros, step),
    ensures
        exists|default_path: Seq<char>|
            step == #[trigger] rules::opening(form, temp_location, distros, step.install.name, default_path)
                && paths::join_outcome(distro_location, step.install.name, default_path),
{
    let (stem, default_path) = choose|stem: Option<Seq<char>>, default_path: Seq<char>|
        #[trigger] rules::opening_inputs(form, distro_location, stem, default_path) && step == rules::opening(
            form,
            temp_location,
            distros,
            rules::form_name(form, stem),
            default_path,
        );
    assert(step.install.name == rules::form_name(form, stem));
    assert(step == rules::opening(form, temp_location, distros, step.install.name, default_path));
}

} // verus!
