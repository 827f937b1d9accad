//! What the user is told, before translation.
use vstd::prelude::*;

verus! {

/// The phrases of the translation table that installing uses.
#[derive(Debug, Clone, Copy, PartialEq, Eq, Structural)]
pub enum Phrase {
    Error,
    Checking,
    NameRequired,
    NameInvalid,
    NameExists,
    ConflictError,
    UnknownDistro,
    UnknownSource,
    Installing,
    Importing,
    SelectFile,
    StoreStep1,
    StoreStep2,
    StoreStep3,
    StoreStep4,
    StoreStep5,
    StoreStep6,
    StoreStep7,
    StoreStep8,
    StoreStep9,
    FileStep1,
    FileStep2,
    FileStep3,
    VerifyFailed,
    InstallFailed,
    ImportFailed,
    ImportFailedCustom,
    CreatedSuccess,
}

impl Phrase {
    /// The key of the phrase in the translation table.
    pub open spec fn table_key(self) -> Seq<char> {
        match self {
            Phrase::Error => "install.error"@,
            Phrase::Checking => "install.checking"@,
            Phrase::NameRequired => "dialog.name_required"@,
            Phrase::NameInvalid => "dialog.install_name_invalid"@,
            Phrase::NameExists => "dialog.install_name_exists"@,
            Phrase::ConflictError => "install.conflict_error"@,
            Phrase::UnknownDistro => "install.unknown_distro"@,
            Phrase::UnknownSource => "install.unknown_source"@,
            Phrase::Installing => "install.installing"@,
            Phrase::Importing => "install.importing"@,
            Phrase::SelectFile => "install.select_file"@,
            Phrase::StoreStep1 => "install.step_1"@,
            Phrase::StoreStep2 => "install.step_2"@,
            Phrase::StoreStep3 => "install.step_3"@,
            Phrase::StoreStep4 => "install.step_4"@,
            Phrase::StoreStep5 => "install.step_5"@,
            Phrase::StoreStep6 => "install.step_6"@,
            Phrase::StoreStep7 => "install.step_7"@,
            Phrase::StoreStep8 => "install.step_8"@,
            Phrase::StoreStep9 => "install.step_9"@,
            Phrase::FileStep1 => "install.step_1_3"@,
            Phrase::FileStep2 => "install.step_2_3"@,
            Phrase::FileStep3 => "install.step_3_3"@,
            Phrase::VerifyFailed => "install.verify_failed"@,
            Phrase::InstallFailed => "install.install_failed"@,
            Phrase::ImportFailed => "install.import_failed"@,
            Phrase::ImportFailedCustom => "install.import_failed_custom"@,
            Phrase::CreatedSuccess => "install.created_success"@,
        }
    }

    /// The key of the phrase in the translation table.
    pub fn key(self) -> (key: &'static str)
        ensures
            key@ == self.table_key(),
    {
        match self {
            Phrase::Error => "install.error",
            Phrase::Checking => "install.checking",
            Phrase::NameRequired => "dialog.name_required",
            Phrase::NameInvalid => "dialog.install_name_invalid",
            Phrase::NameExists => "dialog.install_name_exists",
            Phrase::ConflictError => "install.conflict_error",
            Phrase::UnknownDistro => "install.unknown_distro",
            Phrase::UnknownSource => "install.unknown_source",
            Phrase::Installing => "install.installing",
            Phrase::Importing => "install.importing",
            Phrase::SelectFile => "install.select_file",
            Phrase::StoreStep1 => "install.step_1",
            Phrase::StoreStep2 => "install.step_2",
            Phrase::StoreStep3 => "install.step_3",
            Phrase::StoreStep4 => "install.step_4",
            Phrase::StoreStep5 => "install.step_5",
            Phrase::StoreStep6 => "install.step_6",
            Phrase::StoreStep7 => "install.step_7",
            Phrase::StoreStep8 => "install.step_8",
            Phrase::StoreStep9 => "install.step_9",
            Phrase::FileStep1 => "install.step_1_3",
            Phrase::FileStep2 => "install.step_2_3",
            Phrase::FileStep3 => "install.step_3_3",
            Phrase::VerifyFailed => "install.verify_failed",
            Phrase::InstallFailed => "install.install_failed",
            Phrase::ImportFailed => "install.import_failed",
            Phrase::ImportFailedCustom => "install.import_failed_custom",
            Phrase::CreatedSuccess => "install.created_success",
        }
    }
}

/// A message: a fixed text, a phrase, or a phrase with one text put into it.
#[derive(Debug, PartialEq, Eq)]
pub enum Message {
    Plain(String),
    Phrase(Phrase),
    PhraseOf(Phrase, String),
}

/// The mathematical content of a message.
pub enum MessageView {
    Plain(Seq<char>),
    Phrase(Phrase),
    PhraseOf(Phrase, Seq<char>),
}

impl View for Message {
    type V = MessageView;

    open spec fn view(&self) -> MessageView {
        match self {
            Message::Plain(t) => MessageView::Plain(t@),
            Message::Phrase(p) => MessageView::Phrase(*p),
            Message::PhraseOf(p, t) => MessageView::PhraseOf(*p, t@),
        }
    }
}

/// The steps of an installation from the Store are numbered in the table, and so
/// are those of an installation from a file.
pub proof fn law_steps_are_numbered()
    ensures
        Phrase::StoreStep1.table_key() == "install.step_1"@,
        Phrase::StoreStep2.table_key() == "install.step_2"@,
        Phrase::StoreStep3.table_key() == "install.step_3"@,
        Phrase::StoreStep4.table_key() == "install.step_4"@,
        Phrase::StoreStep5.table_key() == "install.step_5"@,
        Phrase::StoreStep6.table_key() == "install.step_6"@,
        Phrase::StoreStep7.table_key() == "install.step_7"@,
        Phrase::StoreStep8.table_key() == "install.step_8"@,
        Phrase::StoreStep9.table_key() == "install.step_9"@,
        Phrase::FileStep1.table_key() == "install.step_1_3"@,
        Phrase::FileStep2.table_key() == "install.step_2_3"@,
        Phrase::FileStep3.table_key() == "install.step_3_3"@,
{
}

/// The other phrases stand in the table under what they say.
pub proof fn law_phrases_say_what_they_mean()
    ensures
        Phrase::Error.table_key() == "install.error"@,
        Phrase::Checking.table_key() == "install.checking"@,
        Phrase::NameRequired.table_key() == "dialog.name_required"@,
        Phrase::NameInvalid.table_key() == "dialog.install_name_invalid"@,
        Phrase::NameExists.table_key() == "dialog.install_name_exists"@,
        Phrase::ConflictError.table_key() == "install.conflict_error"@,
        Phrase::UnknownDistro.table_key() == "install.unknown_distro"@,
        Phrase::UnknownSource.table_key() == "install.unknown_source"@,
        Phrase::Installing.table_key() == "install.installing"@,
        Phrase::Importing.table_key() == "install.importing"@,
        Phrase::SelectFile.table_key() == "install.select_file"@,
        Phrase::VerifyFailed.table_key() == "install.verify_failed"@,
        Phrase::InstallFailed.table_key() == "install.install_failed"@,
        Phrase::ImportFailed.table_key() == "install.import_failed"@,
        Phrase::ImportFailedCustom.table_key() == "install.import_failed_custom"@,
        Phrase::CreatedSuccess.table_key() == "install.created_success"@,
{
}

} // verus!
