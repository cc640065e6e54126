//! Overlays: the picker that stands in place of the composer, and the lists
//! that it is opened over.

use vstd::prelude::*;
use crate::text;
use crate::text::{concat2, concat3, format_decimal, same, take_chars};
use crate::transcript::clone_opt;

verus! {

/// What an overlay picks from.
#[derive(Clone, Copy, Debug, PartialEq, Eq, Structural)]
pub enum OverlayKind {
    Jobs,
    Model,
    Prompt,
    Question,
    Sessions,
    Skills,
    ToolModel,
}

/// One row of a picker.
#[derive(Debug, PartialEq)]
pub struct PickerItem {
    pub detail: Option<String>,
    pub id: String,
    pub label: String,
}

impl Clone for PickerItem {
    fn clone(&self) -> (r: Self)
        ensures
            r == *self,
    {
        PickerItem {
            detail: clone_opt(&self.detail),
            id: self.id.clone(),
            label: self.label.clone(),
        }
    }
}

/// What a row of a picker says.
#[verifier::ext_equal]
pub ghost struct ItemModel {
    pub detail: Option<Seq<char>>,
    pub id: Seq<char>,
    pub label: Seq<char>,
}

impl View for PickerItem {
    type V = ItemModel;

    open spec fn view(&self) -> ItemModel {
        ItemModel { detail: text::opt_text(self.detail), id: self.id@, label: self.label@ }
    }
}

/// What the rows of a picker say.
pub open spec fn item_models(v: Seq<PickerItem>) -> Seq<ItemModel> {
    Seq::new(v.len(), |i: int| v[i]@)
}

pub broadcast proof fn lemma_items_push(v: Seq<PickerItem>, item: PickerItem)
    ensures
        #[trigger] item_models(v.push(item)) == item_models(v).push(item@),
{
    assert(item_models(v.push(item)) =~= item_models(v).push(item@));
}

/// An open picker.
#[derive(Debug, PartialEq)]
pub struct Overlay {
    /// The search text of the skills picker; empty for any other.
    pub filter: String,
    pub items: Vec<PickerItem>,
    pub kind: OverlayKind,
    pub selected: usize,
    pub title: String,
}

/// What an open picker holds.
#[verifier::ext_equal]
pub ghost struct OverlayModel {
    pub filter: Seq<char>,
    pub items: Seq<ItemModel>,
    pub kind: OverlayKind,
    pub selected: int,
    pub title: Seq<char>,
}

impl OverlayModel {
    /// A picker that was just opened.
    pub open spec fn opened(
        kind: OverlayKind,
        title: Seq<char>,
        items: Seq<ItemModel>,
    ) -> OverlayModel {
        OverlayModel { filter: Seq::empty(), items, kind, selected: 0, title }
    }

    /// The selection one row up.
    pub open spec fn moved_up(self) -> OverlayModel {
        OverlayModel {
            selected: if self.selected > 0 {
                self.selected - 1
            } else {
                0
            },
            ..self
        }
    }

    /// The last row.
    pub open spec fn last_row(self) -> int {
        if self.items.len() > 0 {
            self.items.len() - 1
        } else {
            0
        }
    }

    /// The selection one row down, to the last row at most.
    pub open spec fn moved_down(self) -> OverlayModel {
        OverlayModel {
            selected: if self.selected < self.last_row() {
                self.selected + 1
            } else {
                self.last_row()
            },
            ..self
        }
    }

    /// The selection on the row of a number, counted from one, where there is
    /// such a row.
    pub open spec fn jumped(self, number: int) -> OverlayModel {
        if 1 <= number <= self.items.len() {
            OverlayModel { selected: number - 1, ..self }
        } else {
            self
        }
    }

    /// The selected row.
    pub open spec fn picked(self) -> Option<ItemModel> {
        if 0 <= self.selected < self.items.len() {
            Some(self.items[self.selected])
        } else {
            None
        }
    }
}

impl View for Overlay {
    type V = OverlayModel;

    open spec fn view(&self) -> OverlayModel {
        OverlayModel {
            filter: self.filter@,
            items: item_models(self.items@),
            kind: self.kind,
            selected: self.selected as int,
            title: self.title@,
        }
    }
}

/// What an overlay holds, where one is open.
pub open spec fn overlay_model(o: Option<Overlay>) -> Option<OverlayModel> {
    match o {
        Some(overlay) => Some(overlay@),
        None => None,
    }
}

impl Overlay {
    /// Opens a picker.
    pub fn open(kind: OverlayKind, title: String, items: Vec<PickerItem>) -> (r: Self)
        ensures
            r@ == OverlayModel::opened(kind, title@, item_models(items@)),
    {
        Overlay { filter: String::new(), items, kind, selected: 0, title }
    }

    pub fn move_up(&mut self)
        ensures
            final(self)@ == old(self)@.moved_up(),
    {
        if self.selected > 0 {
            self.selected = self.selected - 1;
        }
    }

    pub fn move_down(&mut self)
        ensures
            final(self)@ == old(self)@.moved_down(),
    {
        let last: usize = if self.items.len() > 0 {
            self.items.len() - 1
        } else {
            0
        };
        if self.selected < last {
            self.selected = self.selected + 1;
        } else {
            self.selected = last;
        }
    }

    /// The selected row.
    pub fn picked(&self) -> (r: Option<PickerItem>)
        ensures
            (match r {
                Some(item) => Some(item@),
                None => None,
            }) == self@.picked(),
    {
        if self.selected < self.items.len() {
            Some(self.items[self.selected].clone())
        } else {
            None
        }
    }
}

// ---------------------------------------------------------------------------
// The lists behind the pickers
// ---------------------------------------------------------------------------

/// A model profile.
#[derive(Debug, PartialEq)]
pub struct ModelProfile {
    pub id: String,
    pub label: Option<String>,
    pub model: String,
    pub provider: String,
    /// Where its key comes from.
    pub api_key_ref: Option<String>,
}

/// A system prompt profile.
#[derive(Debug, PartialEq)]
pub struct PromptProfile {
    pub id: String,
    pub label: Option<String>,
}

/// A recorded session.
#[derive(Debug, PartialEq)]
pub struct SessionSummary {
    pub id: String,
    pub status: String,
    pub goal_count: u64,
    pub last_goal: Option<String>,
    pub updated_at: String,
}

/// What stands before the row that is active.
pub open spec fn mark(active: bool) -> Seq<char> {
    if active {
        "\u{25cf} "@
    } else {
        ""@
    }
}

/// What a profile is called.
pub open spec fn called(label: Option<String>, id: Seq<char>) -> Seq<char> {
    match label {
        Some(l) => l@,
        None => id,
    }
}

/// The row of a model profile.
pub open spec fn profile_item(profile: ModelProfile, active: Seq<char>) -> ItemModel {
    ItemModel {
        detail: Some(profile.provider@ + " \u{b7} "@ + profile.model@),
        id: profile.id@,
        label: mark(profile.id@ == active) + called(profile.label, profile.id@),
    }
}

/// The rows of model profiles.
pub open spec fn profile_items(
    profiles: Seq<ModelProfile>,
    active: Seq<char>,
) -> Seq<ItemModel> {
    Seq::new(profiles.len(), |i: int| profile_item(profiles[i], active))
}

/// The row that sends everything through the active model.
pub open spec fn no_split_item(active_tool: Seq<char>) -> ItemModel {
    ItemModel {
        detail: Some("route every request through the active model"@),
        id: ""@,
        label: mark(active_tool.len() == 0) + "no split \u{2014} use the active model"@,
    }
}

/// The row of a system prompt profile.
pub open spec fn prompt_item(profile: PromptProfile) -> ItemModel {
    ItemModel { detail: None, id: profile.id@, label: called(profile.label, profile.id@) }
}

/// The rows of system prompt profiles.
pub open spec fn prompt_items(profiles: Seq<PromptProfile>) -> Seq<ItemModel> {
    Seq::new(profiles.len(), |i: int| prompt_item(profiles[i]))
}

/// The first eight characters of an id.
pub open spec fn short_text(id: Seq<char>) -> Seq<char> {
    text::first_chars(id, 8)
}

/// The first eight characters of an id.
pub fn short_id(id: &str) -> (r: String)
    ensures
        r@ == short_text(id@),
{
    take_chars(id, 8)
}

/// The last goal of a session, or that it has none.
pub open spec fn goal_or_none(goal: Option<String>) -> Seq<char> {
    match goal {
        Some(g) => g@,
        None => "(no goal yet)"@,
    }
}

/// The row of a session.
pub open spec fn session_item(record: SessionSummary, current: Seq<char>) -> ItemModel {
    ItemModel {
        detail: Some(goal_or_none(record.last_goal)),
        id: record.id@,
        label: mark(record.id@ == current) + short_text(record.id@) + " \u{b7} "@
            + record.status@ + " \u{b7} "@ + text::decimal(record.goal_count as nat)
            + " goal(s)"@,
    }
}

/// The rows of sessions.
pub open spec fn session_items(
    records: Seq<SessionSummary>,
    current: Seq<char>,
) -> Seq<ItemModel> {
    Seq::new(records.len(), |i: int| session_item(records[i], current))
}

fn mark_text(active: bool) -> (r: String)
    ensures
        r@ == mark(active),
{
    if active {
        "\u{25cf} ".to_string()
    } else {
        "".to_string()
    }
}

fn called_text(label: &Option<String>, id: &str) -> (r: String)
    ensures
        r@ == called(*label, id@),
{
    match label {
        Some(l) => l.clone(),
        None => id.to_string(),
    }
}

fn list_profiles(profiles: &Vec<ModelProfile>, active: &str) -> (r: Vec<PickerItem>)
    ensures
        item_models(r@) == profile_items(profiles@, active@),
{
    let ghost all = profile_items(profiles@, active@);
    let mut out: Vec<PickerItem> = Vec::new();
    let mut i: usize = 0;
    assert(item_models(out@) =~= all.take(0));
    while i < profiles.len()
        invariant
            i <= profiles.len(),
            all == profile_items(profiles@, active@),
            item_models(out@) == all.take(i as int),
        decreases profiles.len() - i,
    {
        broadcast use lemma_items_push;

        let p = &profiles[i];
        let dot = mark_text(same(p.id.as_str(), active));
        let name = called_text(&p.label, p.id.as_str());
        out.push(
            PickerItem {
                detail: Some(concat3(p.provider.as_str(), " \u{b7} ", p.model.as_str())),
                id: p.id.clone(),
                label: concat2(dot.as_str(), name.as_str()),
            },
        );
        assert(all.take(i + 1) =~= all.take(i as int).push(all[i as int]));
        i = i + 1;
    }
    assert(all.take(i as int) =~= all);
    out
}

fn list_prompts(profiles: &Vec<PromptProfile>) -> (r: Vec<PickerItem>)
    ensures
        item_models(r@) == prompt_items(profiles@),
{
    let ghost all = prompt_items(profiles@);
    let mut out: Vec<PickerItem> = Vec::new();
    let mut i: usize = 0;
    assert(item_models(out@) =~= all.take(0));
    while i < profiles.len()
        invariant
            i <= profiles.len(),
            all == prompt_items(profiles@),
            item_models(out@) == all.take(i as int),
        decreases profiles.len() - i,
    {
        broadcast use lemma_items_push;

        let p = &profiles[i];
        out.push(
            PickerItem {
                detail: None,
                id: p.id.clone(),
                label: called_text(&p.label, p.id.as_str()),
            },
        );
        assert(all.take(i + 1) =~= all.take(i as int).push(all[i as int]));
        i = i + 1;
    }
    assert(all.take(i as int) =~= all);
    out
}

fn list_session_rows(records: &Vec<SessionSummary>, current: &str) -> (r: Vec<PickerItem>)
    ensures
        item_models(r@) == session_items(records@, current@),
{
    let ghost all = session_items(records@, current@);
    let mut out: Vec<PickerItem> = Vec::new();
    let mut i: usize = 0;
    assert(item_models(out@) =~= all.take(0));
    while i < records.len()
        invariant
            i <= records.len(),
            all == session_items(records@, current@),
            item_models(out@) == all.take(i as int),
        decreases records.len() - i,
    {
        broadcast use lemma_items_push;

        let record = &records[i];
        let mut label = mark_text(same(record.id.as_str(), current));
        let short = short_id(record.id.as_str());
        let count = format_decimal(record.goal_count);
        label.append(short.as_str());
        label.append(" \u{b7} ");
        label.append(record.status.as_str());
        label.append(" \u{b7} ");
        label.append(count.as_str());
        label.append(" goal(s)");
        let detail = match &record.last_goal {
            Some(g) => g.clone(),
            None => "(no goal yet)".to_string(),
        };
        out.push(PickerItem { detail: Some(detail), id: record.id.clone(), label });
        assert(all.take(i + 1) =~= all.take(i as int).push(all[i as int]));
        i = i + 1;
    }
    assert(all.take(i as int) =~= all);
    out
}

/// How many sessions a listing or a picker shows.
pub const SESSIONS_LISTED: usize = 15;

/// What the pickers of profiles and sessions list. A configuration that cannot
/// be read lists nothing.
pub struct PickerLists {
    pub profiles: Option<Vec<ModelProfile>>,
    pub active_profile: String,
    pub active_tool_profile: String,
    pub prompts: Option<Vec<PromptProfile>>,
    pub sessions: Vec<SessionSummary>,
    pub current_session: String,
}

/// The picker of a kind over the lists; the pickers that carry live rows are
/// not opened this way.
pub open spec fn picker_over(kind: OverlayKind, lists: PickerLists) -> Option<OverlayModel> {
    match kind {
        OverlayKind::Question => None,
        OverlayKind::Skills => None,
        OverlayKind::Jobs => None,
        OverlayKind::Model => Some(
            OverlayModel::opened(
                kind,
                "model profiles"@,
                match lists.profiles {
                    Some(profiles) => profile_items(profiles@, lists.active_profile@),
                    None => Seq::empty(),
                },
            ),
        ),
        OverlayKind::ToolModel => Some(
            OverlayModel::opened(
                kind,
                "tool-calling model profiles"@,
                match lists.profiles {
                    Some(profiles) => seq![no_split_item(lists.active_tool_profile@)]
                        + profile_items(profiles@, lists.active_tool_profile@),
                    None => Seq::empty(),
                },
            ),
        ),
        OverlayKind::Prompt => Some(
            OverlayModel::opened(
                kind,
                "system prompt profiles"@,
                match lists.prompts {
                    Some(profiles) => prompt_items(profiles@),
                    None => Seq::empty(),
                },
            ),
        ),
        OverlayKind::Sessions => Some(
            OverlayModel::opened(
                kind,
                "resume a session"@,
                session_items(lists.sessions@, lists.current_session@),
            ),
        ),
    }
}

/// Opens the picker of a kind over the lists.
pub fn open_overlay(kind: OverlayKind, lists: &PickerLists) -> (r: Option<Overlay>)
    ensures
        overlay_model(r) == picker_over(kind, *lists),
{
    let nothing: Vec<PickerItem> = Vec::new();
    assert(item_models(nothing@) =~= Seq::empty());
    match kind {
        OverlayKind::Question => None,
        OverlayKind::Skills => None,
        OverlayKind::Jobs => None,
        OverlayKind::Model => {
            let items = match &lists.profiles {
                Some(profiles) => list_profiles(profiles, lists.active_profile.as_str()),
                None => nothing,
            };
            Some(Overlay::open(kind, "model profiles".to_string(), items))
        },
        OverlayKind::ToolModel => {
            let items = match &lists.profiles {
                Some(profiles) => {
                    let tool = lists.active_tool_profile.as_str();
                    let dot = mark_text(tool.unicode_len() == 0);
                    let mut items: Vec<PickerItem> = Vec::new();
                    items.push(
                        PickerItem {
                            detail: Some(
                                "route every request through the active model".to_string(),
                            ),
                            id: "".to_string(),
                            label: concat2(
                                dot.as_str(),
                                "no split \u{2014} use the active model",
                            ),
                        },
                    );
                    let ghost head = item_models(items@);
                    assert(head =~= seq![no_split_item(lists.active_tool_profile@)]);
                    let mut more = list_profiles(profiles, tool);
                    let ghost rest = item_models(more@);
                    items.append(&mut more);
                    assert(item_models(items@) =~= head + rest);
                    items
                },
                None => nothing,
            };
            Some(Overlay::open(kind, "tool-calling model profiles".to_string(), items))
        },
        OverlayKind::Prompt => {
            let items = match &lists.prompts {
                Some(profiles) => list_prompts(profiles),
                None => nothing,
            };
            Some(Overlay::open(kind, "system prompt profiles".to_string(), items))
        },
        OverlayKind::Sessions => {
            let items = list_session_rows(&lists.sessions, lists.current_session.as_str());
            Some(Overlay::open(kind, "resume a session".to_string(), items))
        },
    }
}

// ---------------------------------------------------------------------------
// Laws
// ---------------------------------------------------------------------------

/// Moving and jumping keep the selection on a row of a list that has any.
pub proof fn law_the_selection_stays_on_a_row(o: OverlayModel, number: int)
    requires
        0 <= o.selected < o.items.len(),
    ensures
        0 <= o.moved_up().selected < o.items.len(),
        0 <= o.moved_down().selected < o.items.len(),
        0 <= o.jumped(number).selected < o.items.len(),
{
}

/// The selection moves one row at a time and stops at the first and the last
/// row; a number goes to the row that it counts, from one on. What is picked is
/// the selected row. Nothing else of the picker changes.
pub proof fn law_a_picker_is_walked_row_by_row(o: OverlayModel, number: int)
    requires
        0 <= o.selected < o.items.len(),
    ensures
        o.selected > 0 ==> o.moved_up().selected == o.selected - 1,
        o.selected == 0 ==> o.moved_up().selected == 0,
        o.selected < o.items.len() - 1 ==> o.moved_down().selected == o.selected + 1,
        o.selected == o.items.len() - 1 ==> o.moved_down().selected == o.selected,
        1 <= number <= o.items.len() ==> o.jumped(number).selected == number - 1,
        !(1 <= number <= o.items.len()) ==> o.jumped(number) == o,
        o.picked() == Some(o.items[o.selected]),
        o.moved_up().items == o.items && o.moved_up().kind == o.kind,
        o.moved_down().items == o.items && o.moved_down().kind == o.kind,
        o.jumped(number).items == o.items && o.jumped(number).kind == o.kind,
{
}

/// A picker over models has a row for each profile, in order, that stands for
/// it: with its name, or its id where it has none, and a dot before the one
/// that is active. The picker over tool models begins with the row for none.
pub proof fn law_every_profile_can_be_picked(lists: PickerLists, profiles: Vec<ModelProfile>, i: int)
    requires
        lists.profiles == Some(profiles),
        0 <= i < profiles@.len(),
    ensures
        ({
            let p = profiles@[i];
            let name = match p.label {
                Some(label) => label@,
                None => p.id@,
            };
            let models = picker_over(OverlayKind::Model, lists)->0;
            let tools = picker_over(OverlayKind::ToolModel, lists)->0;
            &&& picker_over(OverlayKind::Model, lists) is Some
            &&& picker_over(OverlayKind::ToolModel, lists) is Some
            &&& models.kind == OverlayKind::Model && models.selected == 0
            &&& models.items.len() == profiles@.len()
            &&& models.items[i].id == p.id@
            &&& models.items[i].detail == Some(p.provider@ + " · "@ + p.model@)
            &&& p.id@ == lists.active_profile@ ==> models.items[i].label == "● "@ + name
            &&& p.id@ != lists.active_profile@ ==> models.items[i].label == name
            &&& tools.kind == OverlayKind::ToolModel && tools.selected == 0
            &&& tools.items.len() == profiles@.len() + 1
            &&& tools.items[0].id.len() == 0
            &&& tools.items[i + 1].id == p.id@
            &&& p.id@ == lists.active_tool_profile@ ==> tools.items[i + 1].label == "● "@ + name
            &&& p.id@ != lists.active_tool_profile@ ==> tools.items[i + 1].label == name
        }),
{
    reveal_strlit("");
    let p = profiles@[i];
    let name = called(p.label, p.id@);
    assert(""@ + name =~= name);
}

/// A picker over sessions has a row for each of them, in order, that stands for
/// it and tells its state, its goals and the last of them; the current one has
/// a dot before it. The picker over prompts has a row for each prompt.
pub proof fn law_every_session_can_be_picked(lists: PickerLists, i: int)
    requires
        0 <= i < lists.sessions@.len(),
    ensures
        ({
            let s = lists.sessions@[i];
            let told = text::first_chars(s.id@, 8) + " · "@ + s.status@ + " · "@ + text::decimal(
                s.goal_count as nat,
            ) + " goal(s)"@;
            let o = picker_over(OverlayKind::Sessions, lists)->0;
            &&& picker_over(OverlayKind::Sessions, lists) is Some
            &&& o.kind == OverlayKind::Sessions && o.selected == 0
            &&& o.items.len() == lists.sessions@.len()
            &&& o.items[i].id == s.id@
            &&& s.id@ == lists.current_session@ ==> o.items[i].label == "● "@ + told
            &&& s.id@ != lists.current_session@ ==> o.items[i].label == told
            &&& s.last_goal is Some ==> o.items[i].detail == Some(s.last_goal->0@)
            &&& s.last_goal is None ==> o.items[i].detail == Some("(no goal yet)"@)
        }),
        SESSIONS_LISTED == 15,
{
    reveal_strlit("");
    let s = lists.sessions@[i];
    let o = picker_over(OverlayKind::Sessions, lists)->0;
    let told = text::first_chars(s.id@, 8) + " · "@ + s.status@ + " · "@ + text::decimal(
        s.goal_count as nat,
    ) + " goal(s)"@;
    let dot = "● "@;
    lemma_marked_row(dot, text::first_chars(s.id@, 8), s.status@, text::decimal(s.goal_count as nat));
    lemma_marked_row(""@, text::first_chars(s.id@, 8), s.status@, text::decimal(s.goal_count as nat));
    assert(""@ + told =~= told);
}

proof fn lemma_marked_row(m: Seq<char>, id: Seq<char>, status: Seq<char>, goals: Seq<char>)
    ensures
        m + id + " · "@ + status + " · "@ + goals + " goal(s)"@ == m + (id + " · "@ + status + " · "@
            + goals + " goal(s)"@),
{
    assert(m + id + " · "@ + status + " · "@ + goals + " goal(s)"@ =~= m + (id + " · "@ + status
        + " · "@ + goals + " goal(s)"@));
}

/// A picker over prompts has a row for each prompt, in order, that stands for
/// it. Pickers over live rows are not opened over lists.
pub proof fn law_every_prompt_can_be_picked(lists: PickerLists, prompts: Vec<PromptProfile>, i: int)
    requires
        lists.prompts == Some(prompts),
        0 <= i < prompts@.len(),
    ensures
        ({
            let p = prompts@[i];
            let o = picker_over(OverlayKind::Prompt, lists)->0;
            &&& picker_over(OverlayKind::Prompt, lists) is Some
            &&& o.kind == OverlayKind::Prompt && o.selected == 0
            &&& o.items.len() == prompts@.len()
            &&& o.items[i].id == p.id@
            &&& p.label is Some ==> o.items[i].label == p.label->0@
            &&& p.label is None ==> o.items[i].label == p.id@
        }),
        picker_over(OverlayKind::Question, lists) is None,
        picker_over(OverlayKind::Skills, lists) is None,
        picker_over(OverlayKind::Jobs, lists) is None,
{
}

/// What is seen of a picker is what it holds, field by field.
pub proof fn law_a_picker_is_seen_as_it_is(it: Overlay)
    ensures
        it@.filter == it.filter@,
        it@.items == item_models(it.items@),
        it@.kind == it.kind,
        it@.selected == it.selected as int,
        it@.title == it.title@,
{
}

/// What is seen of a row of a picker is what it holds, field by field.
pub proof fn law_a_picker_row_is_seen_as_it_is(it: PickerItem)
    ensures
        it@.detail == text::opt_text(it.detail),
        it@.id == it.id@,
        it@.label == it.label@,
{
}

/// The picker over tool models offers to use no other than the active one, and
/// marks that where none is set.
pub proof fn law_no_tool_model_can_be_picked(lists: PickerLists, profiles: Vec<ModelProfile>)
    requires
        lists.profiles == Some(profiles),
    ensures
        ({
            let row = picker_over(OverlayKind::ToolModel, lists)->0.items[0];
            &&& row.id.len() == 0
            &&& row.detail == Some("route every request through the active model"@)
            &&& lists.active_tool_profile@.len() == 0 ==> row.label
                == "● no split — use the active model"@
            &&& lists.active_tool_profile@.len() > 0 ==> row.label
                == "no split — use the active model"@
        }),
{
    reveal_strlit("");
    reveal_strlit("● ");
    reveal_strlit("no split — use the active model");
    reveal_strlit("● no split — use the active model");
    assert(""@ + "no split — use the active model"@ =~= "no split — use the active model"@);
    assert("● "@ + "no split — use the active model"@ =~= "● no split — use the active model"@);
}

} // verus!
