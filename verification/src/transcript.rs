//! The session transcript: its entries, and the models that contracts speak of.

use vstd::prelude::*;
use crate::text;

verus! {

/// What kind of harness event an entry records.
#[derive(Clone, Copy, Debug, PartialEq, Eq, Structural)]
pub enum HarnessEventType {
    ContextExpired,
    ContextPromoted,
    ContextRefreshed,
    ContextWithheld,
    HarnessOp,
    Inference,
    IterationStart,
    LoopStart,
    ModelText,
    OperatorMessage,
    Question,
    RateLimited,
    RunComplete,
    RunSummary,
    RunWarning,
    StallRecovery,
    TaskFinished,
    ToolCall,
    ToolResult,
}

/// Why a run ended: completed, or for another reason of the given name.
#[derive(Debug, PartialEq)]
pub enum HarnessRunReason {
    Completed,
    Other(String),
}

impl HarnessRunReason {
    /// The name of the reason.
    pub open spec fn name_text(self) -> Seq<char> {
        match self {
            HarnessRunReason::Completed => "Completed"@,
            HarnessRunReason::Other(name) => name@,
        }
    }

    /// The name of the reason.
    pub fn name(&self) -> (r: String)
        ensures
            r@ == self.name_text(),
    {
        match self {
            HarnessRunReason::Completed => "Completed".to_string(),
            HarnessRunReason::Other(name) => name.clone(),
        }
    }
}

impl Clone for HarnessRunReason {
    fn clone(&self) -> (r: Self)
        ensures
            r == *self,
    {
        match self {
            HarnessRunReason::Completed => HarnessRunReason::Completed,
            HarnessRunReason::Other(name) => HarnessRunReason::Other(name.clone()),
        }
    }
}

/// Structured data of an event, where the harness recorded any.
#[derive(Debug, PartialEq)]
pub struct HarnessEventData {
    pub call_id: Option<String>,
    pub tool_name: Option<String>,
    pub failed: Option<bool>,
}

impl Default for HarnessEventData {
    fn default() -> (r: Self)
        ensures
            r == (HarnessEventData { call_id: None, tool_name: None, failed: None }),
    {
        HarnessEventData { call_id: None, tool_name: None, failed: None }
    }
}

/// A copy of an optional text.
pub fn clone_opt(o: &Option<String>) -> (r: Option<String>)
    ensures
        r == *o,
{
    match o {
        Some(s) => Some(s.clone()),
        None => None,
    }
}

impl Clone for HarnessEventData {
    fn clone(&self) -> (r: Self)
        ensures
            r == *self,
    {
        HarnessEventData {
            call_id: clone_opt(&self.call_id),
            tool_name: clone_opt(&self.tool_name),
            failed: self.failed,
        }
    }
}

/// One harness event.
#[derive(Debug, PartialEq)]
pub struct TranscriptEventEntry {
    pub at: String,
    pub data: Option<HarnessEventData>,
    pub detail: String,
    pub goal_id: String,
    pub iteration: i64,
    pub kind: HarnessEventType,
}

/// What an event holds.
pub ghost struct EventModel {
    pub at: Seq<char>,
    pub data: Option<HarnessEventData>,
    pub detail: Seq<char>,
    pub goal_id: Seq<char>,
    pub iteration: i64,
    pub kind: HarnessEventType,
}

impl View for TranscriptEventEntry {
    type V = EventModel;

    open spec fn view(&self) -> EventModel {
        EventModel {
            at: self.at@,
            data: self.data,
            detail: self.detail@,
            goal_id: self.goal_id@,
            iteration: self.iteration,
            kind: self.kind,
        }
    }
}

impl EventModel {
    /// The tool that the structured data names.
    pub open spec fn tool(self) -> Option<Seq<char>> {
        match self.data {
            Some(data) => text::opt_text(data.tool_name),
            None => None,
        }
    }

    /// Whether the structured data reports a failure.
    pub open spec fn failed(self) -> bool {
        match self.data {
            Some(data) => data.failed == Some(true),
            None => false,
        }
    }
}

impl Clone for TranscriptEventEntry {
    fn clone(&self) -> (r: Self)
        ensures
            r == *self,
    {
        TranscriptEventEntry {
            at: self.at.clone(),
            data: match &self.data {
                Some(data) => Some(data.clone()),
                None => None,
            },
            detail: self.detail.clone(),
            goal_id: self.goal_id.clone(),
            iteration: self.iteration,
            kind: self.kind,
        }
    }
}

/// A goal that the operator submitted.
#[derive(Debug, PartialEq)]
pub struct TranscriptGoalEntry {
    pub at: String,
    pub goal_id: String,
    pub images: Vec<String>,
    pub mentions: Vec<String>,
    pub text: String,
}

/// The model route of a run.
#[derive(Debug, PartialEq)]
pub struct TranscriptModelEntry {
    pub at: String,
    pub goal_id: String,
    pub model: String,
    pub profile_id: String,
    pub provider: String,
    pub reasoning_effort: Option<String>,
    pub roles: Option<String>,
    pub tool_model: Option<String>,
    pub tool_profile_id: Option<String>,
    pub tool_reasoning_effort: Option<String>,
}

impl Clone for TranscriptModelEntry {
    fn clone(&self) -> (r: Self)
        ensures
            r == *self,
    {
        TranscriptModelEntry {
            at: self.at.clone(),
            goal_id: self.goal_id.clone(),
            model: self.model.clone(),
            profile_id: self.profile_id.clone(),
            provider: self.provider.clone(),
            reasoning_effort: clone_opt(&self.reasoning_effort),
            roles: clone_opt(&self.roles),
            tool_model: clone_opt(&self.tool_model),
            tool_profile_id: clone_opt(&self.tool_profile_id),
            tool_reasoning_effort: clone_opt(&self.tool_reasoning_effort),
        }
    }
}

/// The end of a run.
#[derive(Debug, PartialEq)]
pub struct TranscriptRunEndEntry {
    pub at: String,
    pub goal_id: String,
    pub iterations: i64,
    pub reason: HarnessRunReason,
}

/// A notice or an error.
#[derive(Debug, PartialEq)]
pub struct TranscriptNoteEntry {
    pub at: String,
    pub text: String,
}

/// A skill switched on or off.
#[derive(Debug, PartialEq)]
pub struct TranscriptSkillEntry {
    pub at: String,
    pub enabled: bool,
    pub name: String,
}

/// One entry of a transcript.
#[derive(Debug, PartialEq)]
pub enum TranscriptEntry {
    Error(TranscriptNoteEntry),
    Event(TranscriptEventEntry),
    Goal(TranscriptGoalEntry),
    Info(TranscriptNoteEntry),
    Model(TranscriptModelEntry),
    RunEnd(TranscriptRunEndEntry),
    Skill(TranscriptSkillEntry),
}

/// What an entry holds.
pub ghost enum EntryModel {
    Error { at: Seq<char>, text: Seq<char> },
    Event(EventModel),
    Goal {
        at: Seq<char>,
        goal_id: Seq<char>,
        images: Seq<Seq<char>>,
        mentions: Seq<Seq<char>>,
        text: Seq<char>,
    },
    Info { at: Seq<char>, text: Seq<char> },
    Model(TranscriptModelEntry),
    RunEnd { at: Seq<char>, goal_id: Seq<char>, iterations: i64, reason: HarnessRunReason },
    Skill { at: Seq<char>, enabled: bool, name: Seq<char> },
}

impl View for TranscriptEntry {
    type V = EntryModel;

    open spec fn view(&self) -> EntryModel {
        match *self {
            TranscriptEntry::Error(e) => EntryModel::Error { at: e.at@, text: e.text@ },
            TranscriptEntry::Event(e) => EntryModel::Event(e@),
            TranscriptEntry::Goal(e) => EntryModel::Goal {
                at: e.at@,
                goal_id: e.goal_id@,
                images: text::texts(e.images@),
                mentions: text::texts(e.mentions@),
                text: e.text@,
            },
            TranscriptEntry::Info(e) => EntryModel::Info { at: e.at@, text: e.text@ },
            TranscriptEntry::Model(e) => EntryModel::Model(e),
            TranscriptEntry::RunEnd(e) => EntryModel::RunEnd {
                at: e.at@,
                goal_id: e.goal_id@,
                iterations: e.iterations,
                reason: e.reason,
            },
            TranscriptEntry::Skill(e) => EntryModel::Skill {
                at: e.at@,
                enabled: e.enabled,
                name: e.name@,
            },
        }
    }
}

/// What the entries of a sequence hold.
pub open spec fn entry_models(v: Seq<TranscriptEntry>) -> Seq<EntryModel> {
    Seq::new(v.len(), |i: int| v[i]@)
}

/// A copy of a list of texts.
pub fn clone_texts(v: &Vec<String>) -> (r: Vec<String>)
    ensures
        r@ == v@,
{
    let mut r: Vec<String> = Vec::new();
    let mut i: usize = 0;
    while i < v.len()
        invariant
            i <= v.len(),
            r@ == v@.take(i as int),
        decreases v.len() - i,
    {
        r.push(v[i].clone());
        i = i + 1;
        assert(r@ =~= v@.take(i as int));
    }
    assert(v@.take(v@.len() as int) =~= v@);
    r
}

fn clone_note(e: &TranscriptNoteEntry) -> (r: TranscriptNoteEntry)
    ensures
        r == *e,
{
    TranscriptNoteEntry { at: e.at.clone(), text: e.text.clone() }
}

impl Clone for TranscriptEntry {
    fn clone(&self) -> (r: Self)
        ensures
            r@ == self@,
    {
        match self {
            TranscriptEntry::Error(e) => TranscriptEntry::Error(clone_note(e)),
            TranscriptEntry::Event(e) => TranscriptEntry::Event(e.clone()),
            TranscriptEntry::Goal(e) => TranscriptEntry::Goal(
                TranscriptGoalEntry {
                    at: e.at.clone(),
                    goal_id: e.goal_id.clone(),
                    images: clone_texts(&e.images),
                    mentions: clone_texts(&e.mentions),
                    text: e.text.clone(),
                },
            ),
            TranscriptEntry::Info(e) => TranscriptEntry::Info(clone_note(e)),
            TranscriptEntry::Model(e) => TranscriptEntry::Model(e.clone()),
            TranscriptEntry::RunEnd(e) => TranscriptEntry::RunEnd(
                TranscriptRunEndEntry {
                    at: e.at.clone(),
                    goal_id: e.goal_id.clone(),
                    iterations: e.iterations,
                    reason: e.reason.clone(),
                },
            ),
            TranscriptEntry::Skill(e) => TranscriptEntry::Skill(
                TranscriptSkillEntry {
                    at: e.at.clone(),
                    enabled: e.enabled,
                    name: e.name.clone(),
                },
            ),
        }
    }
}

/// What is seen of an event is what it holds, field by field.
pub proof fn law_an_event_is_seen_as_it_is(it: TranscriptEventEntry)
    ensures
        it@.at == it.at@,
        it@.data == it.data,
        it@.detail == it.detail@,
        it@.goal_id == it.goal_id@,
        it@.iteration == it.iteration,
        it@.kind == it.kind,
{
}

/// An entry is what it is called, with what it carries; several are these, in
/// order.
pub proof fn law_an_entry_is_seen_as_it_is(entry: TranscriptEntry, all: Seq<TranscriptEntry>, i: int)
    ensures
        entry matches TranscriptEntry::Error(e) ==> entry@ == (EntryModel::Error {
            at: e.at@,
            text: e.text@,
        }),
        entry matches TranscriptEntry::Info(e) ==> entry@ == (EntryModel::Info {
            at: e.at@,
            text: e.text@,
        }),
        entry matches TranscriptEntry::Event(e) ==> entry@ == EntryModel::Event(e@),
        entry matches TranscriptEntry::Goal(e) ==> entry@ == (EntryModel::Goal {
            at: e.at@,
            goal_id: e.goal_id@,
            images: text::texts(e.images@),
            mentions: text::texts(e.mentions@),
            text: e.text@,
        }),
        entry matches TranscriptEntry::Model(e) ==> entry@ == EntryModel::Model(e),
        entry matches TranscriptEntry::RunEnd(e) ==> entry@ == (EntryModel::RunEnd {
            at: e.at@,
            goal_id: e.goal_id@,
            iterations: e.iterations,
            reason: e.reason,
        }),
        entry matches TranscriptEntry::Skill(e) ==> entry@ == (EntryModel::Skill {
            at: e.at@,
            enabled: e.enabled,
            name: e.name@,
        }),
        entry_models(all).len() == all.len(),
        0 <= i < all.len() ==> entry_models(all)[i] == all[i]@,
{
}

/// The tool of an event is the one that its data names, and it failed exactly
/// where its data says so.
pub proof fn law_an_event_tells_its_tool_and_failure(event: EventModel)
    ensures
        event.data is None ==> event.tool() is None && !event.failed(),
        event.data matches Some(data) ==> {
            &&& data.tool_name is None ==> event.tool() is None
            &&& data.tool_name matches Some(name) ==> event.tool() == Some(name@)
            &&& event.failed() <==> data.failed == Some(true)
        },
{
}

} // verus!
