//! The parts of the installing machine: what it is given, what it does and asks
//! for, and where it stands.
use crate::commands::CommandResult;
use crate::commands::CommandResultView;
use crate::messages::Message;
use crate::messages::MessageView;
use crate::plan::JournalView;
use crate::plan::RequestView;
use crate::plan::StoreCreateJournal;
use crate::plan::StoreCreatePhase;
use crate::text;
use vstd::prelude::*;

verus! {

/// What the user entered.
#[derive(Debug, PartialEq, Eq)]
pub struct InstallForm {
    pub source: i32,
    pub name: String,
    pub friendly_name: String,
    pub internal_id: String,
    pub install_path: String,
    pub file_path: String,
}

/// The mathematical content of a form.
pub struct FormView {
    pub source: i32,
    pub name: Seq<char>,
    pub friendly_name: Seq<char>,
    pub internal_id: Seq<char>,
    pub install_path: Seq<char>,
    pub file_path: Seq<char>,
}

impl View for InstallForm {
    type V = FormView;

    open spec fn view(&self) -> FormView {
        FormView {
            source: self.source,
            name: self.name@,
            friendly_name: self.friendly_name@,
            internal_id: self.internal_id@,
            install_path: self.install_path@,
            file_path: self.file_path@,
        }
    }
}

/// The settings that installing depends on.
#[derive(Debug, PartialEq, Eq)]
pub struct InstallSettings {
    pub distro_location: String,
    pub temp_location: String,
}

/// Something to do whose result does not matter.
#[derive(Debug, PartialEq, Eq)]
pub enum Effect {
    /// Whether the window shows an installation under way.
    SetInstalling(bool),
    /// Whether the window shows a success.
    SetSuccess(bool),
    /// The status line.
    SetStatus(Message),
    /// The status line, as an error followed by its reason.
    SetFailure(Message),
    /// The complaint at the name field.
    SetNameError(Message),
    /// Empties the terminal that the window shows.
    ClearTerminal,
    /// Adds a message to the terminal text, with or without a line end.
    Write(Message, bool),
    /// Shows the terminal text.
    ShowTerminal,
    /// Puts another name and path into the form.
    OfferName { name: String, path: String },
    CreateDir(String),
    CreateMarker { path: String, operation_id: String },
    RemoveMarker { path: String, operation_id: String },
    SetPhase { journal: String, phase: StoreCreatePhase },
    OwnPath { journal: String, path: String },
    RemoveJournal(String),
    RemoveFile(String),
}

/// The mathematical content of an effect.
pub enum EffectView {
    SetInstalling(bool),
    SetSuccess(bool),
    SetStatus(MessageView),
    SetFailure(MessageView),
    SetNameError(MessageView),
    ClearTerminal,
    Write(MessageView, bool),
    ShowTerminal,
    OfferName { name: Seq<char>, path: Seq<char> },
    CreateDir(Seq<char>),
    CreateMarker { path: Seq<char>, operation_id: Seq<char> },
    RemoveMarker { path: Seq<char>, operation_id: Seq<char> },
    SetPhase { journal: Seq<char>, phase: StoreCreatePhase },
    OwnPath { journal: Seq<char>, path: Seq<char> },
    RemoveJournal(Seq<char>),
    RemoveFile(Seq<char>),
}

impl View for Effect {
    type V = EffectView;

    open spec fn view(&self) -> EffectView {
        match self {
            Effect::SetInstalling(b) => EffectView::SetInstalling(*b),
            Effect::SetSuccess(b) => EffectView::SetSuccess(*b),
            Effect::SetStatus(m) => EffectView::SetStatus(m@),
            Effect::SetFailure(m) => EffectView::SetFailure(m@),
            Effect::SetNameError(m) => EffectView::SetNameError(m@),
            Effect::ClearTerminal => EffectView::ClearTerminal,
            Effect::Write(m, end) => EffectView::Write(m@, *end),
            Effect::ShowTerminal => EffectView::ShowTerminal,
            Effect::OfferName { name, path } => EffectView::OfferName { name: name@, path: path@ },
            Effect::CreateDir(p) => EffectView::CreateDir(p@),
            Effect::CreateMarker { path, operation_id } => {
                EffectView::CreateMarker { path: path@, operation_id: operation_id@ }
            },
            Effect::RemoveMarker { path, operation_id } => {
                EffectView::RemoveMarker { path: path@, operation_id: operation_id@ }
            },
            Effect::SetPhase { journal, phase } => EffectView::SetPhase { journal: journal@, phase: *phase },
            Effect::OwnPath { journal, path } => EffectView::OwnPath { journal: journal@, path: path@ },
            Effect::RemoveJournal(p) => EffectView::RemoveJournal(p@),
            Effect::RemoveFile(p) => EffectView::RemoveFile(p@),
        }
    }
}

/// The views of a list of effects.
pub open spec fn effect_views(effects: Seq<Effect>) -> Seq<EffectView> {
    effects.map_values(|e: Effect| e@)
}

/// How a command is run.
#[derive(Debug, Clone, Copy, PartialEq, Eq, Structural)]
pub enum RunMode {
    /// In one go.
    Quiet,
    /// With its output read as it comes.
    Streaming,
    /// With its output read as it comes, and progress shown meanwhile.
    Progress,
}

/// Something to do whose result decides how to go on.
#[derive(Debug, PartialEq, Eq)]
pub enum Ask {
    /// Make up another name from a name that is taken.
    SuggestName(String),
    /// Find out whether the download from the web is the faster one.
    FastestSource,
    SaveJournal(StoreCreateJournal),
    Run { args: Vec<String>, mode: RunMode },
    /// Refresh and list the names of the installed distributions.
    ListDistros,
    /// Find out where a distribution is installed.
    InstallLocation(String),
    /// Create the directory for the instance.
    CreateTarget(String),
    /// Nothing more; refresh what the window shows if something was installed.
    Finish { refresh: bool },
}

/// The mathematical content of what is asked for.
pub enum AskView {
    SuggestName(Seq<char>),
    FastestSource,
    SaveJournal(JournalView),
    Run { args: Seq<Seq<char>>, mode: RunMode },
    ListDistros,
    InstallLocation(Seq<char>),
    CreateTarget(Seq<char>),
    Finish { refresh: bool },
}

impl View for Ask {
    type V = AskView;

    open spec fn view(&self) -> AskView {
        match self {
            Ask::SuggestName(n) => AskView::SuggestName(n@),
            Ask::FastestSource => AskView::FastestSource,
            Ask::SaveJournal(j) => AskView::SaveJournal(j@),
            Ask::Run { args, mode } => AskView::Run { args: text::views(args@), mode: *mode },
            Ask::ListDistros => AskView::ListDistros,
            Ask::InstallLocation(n) => AskView::InstallLocation(n@),
            Ask::CreateTarget(p) => AskView::CreateTarget(p@),
            Ask::Finish { refresh } => AskView::Finish { refresh: *refresh },
        }
    }
}

/// What came of what was asked for.
#[derive(Debug, PartialEq, Eq)]
pub enum Reply {
    /// Another name, and the directory that instances go to.
    Suggested { name: String, location: String },
    /// Whether the download from the web is the faster one.
    Source(bool),
    /// Where the journal was written, or why it was not.
    Saved(Result<String, String>),
    Ran(CommandResult),
    Distros(Vec<String>),
    Location(Option<String>),
    /// Why the directory could not be created, if so.
    Created(Option<String>),
}

/// The mathematical content of a reply.
pub enum ReplyView {
    Suggested { name: Seq<char>, location: Seq<char> },
    Source(bool),
    Saved(Result<Seq<char>, Seq<char>>),
    Ran(CommandResultView),
    Distros(Seq<Seq<char>>),
    Location(Option<Seq<char>>),
    Created(Option<Seq<char>>),
}

impl View for Reply {
    type V = ReplyView;

    open spec fn view(&self) -> ReplyView {
        match self {
            Reply::Suggested { name, location } => ReplyView::Suggested { name: name@, location: location@ },
            Reply::Source(web) => ReplyView::Source(*web),
            Reply::Saved(r) => ReplyView::Saved(
                match r {
                    Ok(path) => Ok(path@),
                    Err(reason) => Err(reason@),
                },
            ),
            Reply::Ran(r) => ReplyView::Ran(r@),
            Reply::Distros(names) => ReplyView::Distros(text::views(names@)),
            Reply::Location(p) => ReplyView::Location(text::opt_view(*p)),
            Reply::Created(e) => ReplyView::Created(text::opt_view(*e)),
        }
    }
}

/// What the machine is waiting for.
#[derive(Debug, Clone, Copy, PartialEq, Eq, Structural)]
pub enum Stage {
    /// Another name, since the chosen one is taken.
    Suggestion,
    /// The faster source.
    Source,
    /// The journal of the direct installation.
    DirectSave,
    /// The direct installation.
    DirectRun,
    /// The distributions after the direct installation.
    DirectList,
    /// The journal of the promotion.
    SeedSave,
    /// The installation of the seed.
    SeedRun,
    /// The distributions after the installation of the seed.
    SeedList,
    /// The place of the seed.
    SeedLocation,
    /// The export of the seed.
    Export,
    /// The removal of the seed.
    Unregister,
    /// The import of the target.
    Import,
    /// The directory for an instance from a file.
    TargetDir,
    /// The import of an instance from a file.
    FileRun,
    /// Nothing.
    Over,
}

/// An installation under way.
#[derive(Debug, PartialEq, Eq)]
pub struct Install {
    pub stage: Stage,
    pub name: String,
    pub store_id: String,
    pub target_path: String,
    pub file_path: String,
    pub vhd: bool,
    pub seed_exists: bool,
    pub temp_location: String,
    pub web_download: bool,
    pub operation_id: String,
    pub journal: String,
    pub archive_path: String,
    pub seed_path: Option<String>,
}

/// The mathematical content of an installation under way.
pub struct InstallView {
    pub stage: Stage,
    pub name: Seq<char>,
    pub store_id: Seq<char>,
    pub target_path: Seq<char>,
    pub file_path: Seq<char>,
    pub vhd: bool,
    pub seed_exists: bool,
    pub temp_location: Seq<char>,
    pub web_download: bool,
    pub operation_id: Seq<char>,
    pub journal: Seq<char>,
    pub archive_path: Seq<char>,
    pub seed_path: Option<Seq<char>>,
}

impl View for Install {
    type V = InstallView;

    open spec fn view(&self) -> InstallView {
        InstallView {
            stage: self.stage,
            name: self.name@,
            store_id: self.store_id@,
            target_path: self.target_path@,
            file_path: self.file_path@,
            vhd: self.vhd,
            seed_exists: self.seed_exists,
            temp_location: self.temp_location@,
            web_download: self.web_download,
            operation_id: self.operation_id@,
            journal: self.journal@,
            archive_path: self.archive_path@,
            seed_path: text::opt_view(self.seed_path),
        }
    }
}

impl InstallView {
    /// The request that a Store installation journals.
    pub open spec fn request(self) -> RequestView {
        RequestView { target_name: self.name, target_path: self.target_path, store_id: self.store_id }
    }

    /// The same installation, waiting for something else.
    pub open spec fn at(self, stage: Stage) -> InstallView {
        InstallView { stage, ..self }
    }
}

/// One step of an installation: what to do, what to ask, and the installation
/// from then on.
#[derive(Debug, PartialEq, Eq)]
pub struct Step {
    pub install: Install,
    pub effects: Vec<Effect>,
    pub ask: Ask,
}

/// The mathematical content of a step.
pub struct StepView {
    pub install: InstallView,
    pub effects: Seq<EffectView>,
    pub ask: AskView,
}

impl View for Step {
    type V = StepView;

    open spec fn view(&self) -> StepView {
        StepView {
            install: self.install@,
            effects: effect_views(self.effects@),
            ask: self.ask@,
        }
    }
}

/// What a step needs from outside: an identifier and a time for a new journal,
/// the place for the archive, and the path for another name.
pub struct Outside {
    pub operation_id: String,
    pub created_at: String,
    pub archive_path: String,
    pub offered_path: String,
}

/// The mathematical content of what a step needs from outside.
pub struct OutsideView {
    pub operation_id: Seq<char>,
    pub created_at: Seq<char>,
    pub archive_path: Seq<char>,
    pub offered_path: Seq<char>,
}

impl View for Outside {
    type V = OutsideView;

    open spec fn view(&self) -> OutsideView {
        OutsideView {
            operation_id: self.operation_id@,
            created_at: self.created_at@,
            archive_path: self.archive_path@,
            offered_path: self.offered_path@,
        }
    }
}

} // verus!
