//! What the session asks of the world: notes for the transcript, escapes for
//! the terminal, and work that only the outside can do. Handlers list them in
//! order; whoever drives the session carries them out.

use vstd::prelude::*;
use crate::text;
use crate::transcript::{EntryModel, TranscriptEntry};
use crate::tui::app::overlay::OverlayKind;

verus! {

/// An attached image: where it lies, and its content as a data URL.
#[derive(Debug, PartialEq)]
pub struct Attachment {
    pub path: String,
    pub data_url: String,
}

/// One thing to do.
#[derive(Debug, PartialEq)]
pub enum Effect {
    /// Write an entry to the session's transcript; it shows already.
    Persist(TranscriptEntry),
    /// An escape for the terminal.
    Title(String),
    /// Ask the live run to stop.
    Abort,
    /// Stop the commands that are under way.
    StopCommands,
    /// Hand a typed message to the live run.
    SteerTyped(String),
    /// Hand queued messages to the live run, in order.
    SteerQueue(Vec<String>),
    /// Write the answers of the survey.
    WriteAnswers,
    /// Write one reply that answers the whole survey.
    WriteChat(String),
    /// Collect the background jobs that settled while no run was live.
    HandOffJobs,
    /// Start a run.
    StartRun { goal: String, images: Vec<Attachment> },
    SelectProfile(String),
    SelectToolProfile(String),
    SelectPrompt(String),
    /// Open the session of this id.
    OpenSession(String),
    /// Open the session that a reference names.
    ResumeSession(String),
    NewSession,
    /// List what a picker picks from, and open it; sessions up to a number.
    OpenPicker(OverlayKind, usize),
    /// List sessions, up to a number.
    ListSessions(usize),
    ShowState,
    ShowConfig,
    ListRoles,
    ListEnv,
    SetEnv { key: String, value: String },
    /// Load a skill and switch it on.
    LoadSkill(String),
    /// Look for skills anew, and open the picker.
    BrowseSkills,
    /// Look for skills anew.
    RefreshSkills,
    /// Read the jobs anew, open the browser, and inspect that row.
    OpenJobs { row: Option<usize> },
    /// Read the jobs anew, and inspect that row.
    OpenJobDetail(usize),
    /// Take an image from the clipboard.
    CaptureClipboard,
    /// Clean what was pasted, and attach it where it is an image.
    Paste(String),
    /// Save the name of the session.
    SaveName { chosen: String, manual: bool },
    /// Find a model that can name the session, and ask it.
    GenerateName,
    /// Generate a title for the session.
    RequestTitle { epoch: u64, goal: String },
    /// Read the MCP servers anew, and carry out the command.
    Mcp(String),
    ListMarketplaces,
    AddMarketplace { source: String, name: Option<String> },
    RemoveMarketplace(String),
    UpdateMarketplaces(Option<String>),
    SetPlugin { enable: bool, key: String },
}

/// What an effect asks for.
pub ghost enum EffectModel {
    Persist(EntryModel),
    Title(Seq<char>),
    Abort,
    StopCommands,
    SteerTyped(Seq<char>),
    SteerQueue(Seq<Seq<char>>),
    WriteAnswers,
    WriteChat(Seq<char>),
    HandOffJobs,
    StartRun(Seq<char>, Seq<Attachment>),
    SelectProfile(Seq<char>),
    SelectToolProfile(Seq<char>),
    SelectPrompt(Seq<char>),
    OpenSession(Seq<char>),
    ResumeSession(Seq<char>),
    NewSession,
    OpenPicker(OverlayKind, usize),
    ListSessions(usize),
    ShowState,
    ShowConfig,
    ListRoles,
    ListEnv,
    SetEnv(Seq<char>, Seq<char>),
    LoadSkill(Seq<char>),
    BrowseSkills,
    RefreshSkills,
    OpenJobs(Option<usize>),
    OpenJobDetail(usize),
    CaptureClipboard,
    Paste(Seq<char>),
    SaveName(Seq<char>, bool),
    GenerateName,
    RequestTitle(u64, Seq<char>),
    Mcp(Seq<char>),
    ListMarketplaces,
    AddMarketplace(Seq<char>, Option<Seq<char>>),
    RemoveMarketplace(Seq<char>),
    UpdateMarketplaces(Option<Seq<char>>),
    SetPlugin(bool, Seq<char>),
}

impl View for Effect {
    type V = EffectModel;

    open spec fn view(&self) -> EffectModel {
        match *self {
            Effect::Persist(entry) => EffectModel::Persist(entry@),
            Effect::Title(s) => EffectModel::Title(s@),
            Effect::Abort => EffectModel::Abort,
            Effect::StopCommands => EffectModel::StopCommands,
            Effect::SteerTyped(s) => EffectModel::SteerTyped(s@),
            Effect::SteerQueue(v) => EffectModel::SteerQueue(text::texts(v@)),
            Effect::WriteAnswers => EffectModel::WriteAnswers,
            Effect::WriteChat(s) => EffectModel::WriteChat(s@),
            Effect::HandOffJobs => EffectModel::HandOffJobs,
            Effect::StartRun { goal, images } => EffectModel::StartRun(goal@, images@),
            Effect::SelectProfile(s) => EffectModel::SelectProfile(s@),
            Effect::SelectToolProfile(s) => EffectModel::SelectToolProfile(s@),
            Effect::SelectPrompt(s) => EffectModel::SelectPrompt(s@),
            Effect::OpenSession(s) => EffectModel::OpenSession(s@),
            Effect::ResumeSession(s) => EffectModel::ResumeSession(s@),
            Effect::NewSession => EffectModel::NewSession,
            Effect::OpenPicker(kind, most) => EffectModel::OpenPicker(kind, most),
            Effect::ListSessions(most) => EffectModel::ListSessions(most),
            Effect::ShowState => EffectModel::ShowState,
            Effect::ShowConfig => EffectModel::ShowConfig,
            Effect::ListRoles => EffectModel::ListRoles,
            Effect::ListEnv => EffectModel::ListEnv,
            Effect::SetEnv { key, value } => EffectModel::SetEnv(key@, value@),
            Effect::LoadSkill(s) => EffectModel::LoadSkill(s@),
            Effect::BrowseSkills => EffectModel::BrowseSkills,
            Effect::RefreshSkills => EffectModel::RefreshSkills,
            Effect::OpenJobs { row } => EffectModel::OpenJobs(row),
            Effect::OpenJobDetail(i) => EffectModel::OpenJobDetail(i),
            Effect::CaptureClipboard => EffectModel::CaptureClipboard,
            Effect::Paste(s) => EffectModel::Paste(s@),
            Effect::SaveName { chosen, manual } => EffectModel::SaveName(chosen@, manual),
            Effect::GenerateName => EffectModel::GenerateName,
            Effect::RequestTitle { epoch, goal } => EffectModel::RequestTitle(epoch, goal@),
            Effect::Mcp(s) => EffectModel::Mcp(s@),
            Effect::ListMarketplaces => EffectModel::ListMarketplaces,
            Effect::AddMarketplace { source, name } => EffectModel::AddMarketplace(
                source@,
                text::opt_text(name),
            ),
            Effect::RemoveMarketplace(s) => EffectModel::RemoveMarketplace(s@),
            Effect::UpdateMarketplaces(name) => EffectModel::UpdateMarketplaces(
                text::opt_text(name),
            ),
            Effect::SetPlugin { enable, key } => EffectModel::SetPlugin(enable, key@),
        }
    }
}

/// What effects ask for.
pub open spec fn effect_models(v: Seq<Effect>) -> Seq<EffectModel> {
    Seq::new(v.len(), |i: int| v[i]@)
}

/// An effect asks for what it is called, with what it carries; several ask for
/// that in order.
pub proof fn law_an_effect_asks_for_what_it_is_called(
    entry: TranscriptEntry,
    s: String,
    t: String,
    v: Vec<String>,
    images: Vec<Attachment>,
    kind: OverlayKind,
    n: usize,
    row: Option<usize>,
    name: Option<String>,
    b: bool,
    e: u64,
    all: Seq<Effect>,
    i: int,
)
    ensures
        Effect::Persist(entry)@ == EffectModel::Persist(entry@),
        Effect::Title(s)@ == EffectModel::Title(s@),
        Effect::Abort@ == EffectModel::Abort,
        Effect::StopCommands@ == EffectModel::StopCommands,
        Effect::SteerTyped(s)@ == EffectModel::SteerTyped(s@),
        Effect::SteerQueue(v)@ == EffectModel::SteerQueue(text::texts(v@)),
        Effect::WriteAnswers@ == EffectModel::WriteAnswers,
        Effect::WriteChat(s)@ == EffectModel::WriteChat(s@),
        Effect::HandOffJobs@ == EffectModel::HandOffJobs,
        (Effect::StartRun { goal: s, images })@ == EffectModel::StartRun(s@, images@),
        Effect::SelectProfile(s)@ == EffectModel::SelectProfile(s@),
        Effect::SelectToolProfile(s)@ == EffectModel::SelectToolProfile(s@),
        Effect::SelectPrompt(s)@ == EffectModel::SelectPrompt(s@),
        Effect::OpenSession(s)@ == EffectModel::OpenSession(s@),
        Effect::ResumeSession(s)@ == EffectModel::ResumeSession(s@),
        Effect::NewSession@ == EffectModel::NewSession,
        Effect::OpenPicker(kind, n)@ == EffectModel::OpenPicker(kind, n),
        Effect::ListSessions(n)@ == EffectModel::ListSessions(n),
        Effect::ShowState@ == EffectModel::ShowState,
        Effect::ShowConfig@ == EffectModel::ShowConfig,
        Effect::ListRoles@ == EffectModel::ListRoles,
        Effect::ListEnv@ == EffectModel::ListEnv,
        (Effect::SetEnv { key: s, value: t })@ == EffectModel::SetEnv(s@, t@),
        Effect::LoadSkill(s)@ == EffectModel::LoadSkill(s@),
        Effect::BrowseSkills@ == EffectModel::BrowseSkills,
        Effect::RefreshSkills@ == EffectModel::RefreshSkills,
        (Effect::OpenJobs { row })@ == EffectModel::OpenJobs(row),
        Effect::OpenJobDetail(n)@ == EffectModel::OpenJobDetail(n),
        Effect::CaptureClipboard@ == EffectModel::CaptureClipboard,
        Effect::Paste(s)@ == EffectModel::Paste(s@),
        (Effect::SaveName { chosen: s, manual: b })@ == EffectModel::SaveName(s@, b),
        Effect::GenerateName@ == EffectModel::GenerateName,
        (Effect::RequestTitle { epoch: e, goal: s })@ == EffectModel::RequestTitle(e, s@),
        Effect::Mcp(s)@ == EffectModel::Mcp(s@),
        Effect::ListMarketplaces@ == EffectModel::ListMarketplaces,
        (Effect::AddMarketplace { source: s, name })@ == EffectModel::AddMarketplace(
            s@,
            text::opt_text(name),
        ),
        Effect::RemoveMarketplace(s)@ == EffectModel::RemoveMarketplace(s@),
        Effect::UpdateMarketplaces(name)@ == EffectModel::UpdateMarketplaces(text::opt_text(name)),
        (Effect::SetPlugin { enable: b, key: s })@ == EffectModel::SetPlugin(b, s@),
        effect_models(all).len() == all.len(),
        0 <= i < all.len() ==> effect_models(all)[i] == all[i]@,
{
}

} // verus!
