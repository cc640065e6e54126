//! Compact projection of the transcript timeline.
//!
//! The transcript keeps every event; this layer folds back-to-back tool
//! activity within one goal cycle into a single summary row such as
//! `── 3 Tools called: READ, PATCH, BASH ──`. Only `ToolCall` events are
//! counted; a `ToolResult` is absorbed by the open group and `Inference`
//! telemetry never breaks it. Every other entry finalizes the open group and
//! is shown itself.

use vstd::prelude::*;
use crate::ansi;
use crate::ansi::{dim, fits, white};
use crate::text;
use crate::text::{
    chars_of, concat2, find_from, format_decimal, format_signed, join_texts, repeat_char, same,
    space, split_words, sub_string, trim_end,
};
use crate::transcript::{
    clone_texts, EntryModel, EventModel, HarnessEventType, TranscriptEntry, TranscriptEventEntry,
};
use crate::tui::timeline;
use crate::tui::timeline::{
    estimate_cell_rows, render_timeline_cell, LIVE_REGION_RESERVED_ROWS, MIN_TAIL_ROWS,
};

verus! {

// ---------------------------------------------------------------------------
// Cells
// ---------------------------------------------------------------------------

/// A folded group of tool activity within one cycle.
#[derive(Debug, PartialEq)]
pub struct ToolGroupCell {
    /// Number of ToolCall events, at most `usize::MAX`.
    pub count: usize,
    /// Distinct tool names in first-seen order.
    pub tools: Vec<String>,
    /// Calls that are known to have failed, at most `usize::MAX`.
    pub failed: usize,
    /// Cycle number of the first folded call.
    pub iteration: i64,
    /// The first folded ToolCall entry.
    pub source: TranscriptEntry,
}

/// One presentation row-group in the compact timeline.
#[derive(Debug, PartialEq)]
pub enum CompactCell {
    /// Folded `── N Tools called: … ──` row.
    ToolGroup(ToolGroupCell),
    /// Any other transcript entry.
    Passthrough(TranscriptEntry),
}

/// What a tool group holds.
#[verifier::ext_equal]
pub ghost struct GroupModel {
    pub count: nat,
    pub tools: Seq<Seq<char>>,
    pub failed: nat,
    pub iteration: i64,
    pub source: EntryModel,
}

/// What a cell holds.
pub ghost enum CellModel {
    ToolGroup(GroupModel),
    Passthrough(EntryModel),
}

impl View for ToolGroupCell {
    type V = GroupModel;

    open spec fn view(&self) -> GroupModel {
        GroupModel {
            count: self.count as nat,
            tools: text::texts(self.tools@),
            failed: self.failed as nat,
            iteration: self.iteration,
            source: self.source@,
        }
    }
}

impl View for CompactCell {
    type V = CellModel;

    open spec fn view(&self) -> CellModel {
        match *self {
            CompactCell::ToolGroup(group) => CellModel::ToolGroup(group@),
            CompactCell::Passthrough(entry) => CellModel::Passthrough(entry@),
        }
    }
}

/// What the cells of a sequence hold.
pub open spec fn cell_models(v: Seq<CompactCell>) -> Seq<CellModel> {
    Seq::new(v.len(), |i: int| v[i]@)
}

pub broadcast proof fn lemma_cells_push(v: Seq<CompactCell>, c: CompactCell)
    ensures
        #[trigger] cell_models(v.push(c)) == cell_models(v).push(c@),
{
    assert(cell_models(v.push(c)) =~= cell_models(v).push(c@));
}

impl Clone for ToolGroupCell {
    fn clone(&self) -> (r: Self)
        ensures
            r@ == self@,
    {
        ToolGroupCell {
            count: self.count,
            tools: clone_texts(&self.tools),
            failed: self.failed,
            iteration: self.iteration,
            source: self.source.clone(),
        }
    }
}

impl Clone for CompactCell {
    fn clone(&self) -> (r: Self)
        ensures
            r@ == self@,
    {
        match self {
            CompactCell::ToolGroup(group) => CompactCell::ToolGroup(group.clone()),
            CompactCell::Passthrough(entry) => CompactCell::Passthrough(entry.clone()),
        }
    }
}

impl CellModel {
    /// The entry that the cell renders from.
    pub open spec fn source(self) -> EntryModel {
        match self {
            CellModel::ToolGroup(group) => group.source,
            CellModel::Passthrough(entry) => entry,
        }
    }
}

impl CompactCell {
    /// The transcript entry this cell renders from: of a group, its first
    /// call.
    pub fn entry(&self) -> (r: &TranscriptEntry)
        ensures
            r@ == self@.source(),
    {
        match self {
            CompactCell::ToolGroup(group) => &group.source,
            CompactCell::Passthrough(entry) => entry,
        }
    }
}

// ---------------------------------------------------------------------------
// Projection
// ---------------------------------------------------------------------------

/// Finalized cells and the open group.
#[verifier::ext_equal]
pub ghost struct ProjectionModel {
    pub cells: Seq<CellModel>,
    pub open: Option<GroupModel>,
}

/// The length of the run of characters before the first white space.
pub open spec fn token_length(s: Seq<char>) -> nat
    decreases s.len(),
{
    if s.len() == 0 || text::is_space(s[0]) {
        0
    } else {
        1 + token_length(s.skip(1))
    }
}

/// The tool that an event names: by its structured data, else by the leading
/// token of its detail.
pub open spec fn tool_name_of(event: EventModel) -> Seq<char> {
    match event.tool() {
        Some(name) => name,
        None => event.detail.take(token_length(event.detail) as int),
    }
}

/// `n` counted up by one, at most `usize::MAX`.
pub open spec fn counted(n: nat) -> nat {
    if n < usize::MAX {
        n + 1
    } else {
        n
    }
}

impl ProjectionModel {
    /// Nothing projected yet.
    pub open spec fn fresh() -> ProjectionModel {
        ProjectionModel { cells: Seq::empty(), open: None }
    }

    /// The open group finalized.
    pub open spec fn flushed(self) -> ProjectionModel {
        match self.open {
            Some(group) => ProjectionModel {
                cells: self.cells.push(CellModel::ToolGroup(group)),
                open: None,
            },
            None => self,
        }
    }

    /// The open group finalized and the entry shown after it.
    pub open spec fn shown(self, entry: EntryModel) -> ProjectionModel {
        ProjectionModel {
            cells: self.flushed().cells.push(CellModel::Passthrough(entry)),
            open: None,
        }
    }

    /// A tool call joins the open group, or opens one.
    pub open spec fn called(self, event: EventModel) -> ProjectionModel {
        let name = tool_name_of(event);
        let group = match self.open {
            Some(group) => GroupModel {
                count: counted(group.count),
                tools: if name.len() > 0 && !group.tools.contains(name) {
                    group.tools.push(name)
                } else {
                    group.tools
                },
                ..group
            },
            None => GroupModel {
                count: 1,
                tools: seq![name],
                failed: 0,
                iteration: event.iteration,
                source: EntryModel::Event(event),
            },
        };
        ProjectionModel { open: Some(group), ..self }
    }

    /// One entry fed to the projection.
    pub open spec fn appended(self, entry: EntryModel) -> ProjectionModel {
        match entry {
            EntryModel::Event(event) => match event.kind {
                HarnessEventType::ToolCall => self.called(event),
                HarnessEventType::ToolResult => match self.open {
                    Some(group) => if event.failed() {
                        ProjectionModel {
                            open: Some(GroupModel { failed: counted(group.failed), ..group }),
                            ..self
                        }
                    } else {
                        self
                    },
                    None => self.shown(entry),
                },
                HarnessEventType::Inference => self,
                _ => self.shown(entry),
            },
            _ => self.shown(entry),
        }
    }

    /// Entries fed one after the other.
    pub open spec fn fed(self, entries: Seq<EntryModel>) -> ProjectionModel
        decreases entries.len(),
    {
        if entries.len() == 0 {
            self
        } else {
            self.fed(entries.drop_last()).appended(entries.last())
        }
    }
}

/// Folds tool activity per cycle.
pub struct CompactProjection {
    /// Finalized cells, in chronological order.
    pub cells: Vec<CompactCell>,
    /// Open group (`None` when the last visible event was a boundary).
    pub open: Option<ToolGroupCell>,
}

impl View for CompactProjection {
    type V = ProjectionModel;

    open spec fn view(&self) -> ProjectionModel {
        ProjectionModel {
            cells: cell_models(self.cells@),
            open: match self.open {
                Some(group) => Some(group@),
                None => None,
            },
        }
    }
}

/// The tool that an event names: by its structured data, else by the leading
/// token of its detail.
pub fn event_tool_name(event: &TranscriptEventEntry) -> (r: String)
    ensures
        r@ == tool_name_of(event@),
{
    if let Some(data) = &event.data {
        if let Some(name) = &data.tool_name {
            return name.clone();
        }
    }
    let x = chars_of(event.detail.as_str());
    let mut i: usize = 0;
    assert(x@.skip(0) =~= x@);
    while i < x.len() && !space(x[i])
        invariant
            i <= x.len(),
            token_length(x@) == i + token_length(x@.skip(i as int)),
        decreases x.len() - i,
    {
        assert(x@.skip(i as int)[0] == x@[i as int]);
        assert(x@.skip(i as int).skip(1) =~= x@.skip(i + 1));
        i = i + 1;
    }
    assert(i < x.len() ==> x@.skip(i as int)[0] == x@[i as int]);
    assert(x@.subrange(0, i as int) =~= x@.take(i as int));
    sub_string(&x, 0, i)
}

fn count_up(n: usize) -> (r: usize)
    ensures
        r == counted(n as nat),
{
    if n < usize::MAX {
        n + 1
    } else {
        n
    }
}

/// Whether one of the texts is `name`.
pub fn lists(names: &Vec<String>, name: &str) -> (r: bool)
    ensures
        r == text::texts(names@).contains(name@),
{
    let ghost all = text::texts(names@);
    let mut i: usize = 0;
    while i < names.len()
        invariant
            i <= names.len(),
            all == text::texts(names@),
            forall|j: int| 0 <= j < i ==> all[j] != name@,
        decreases names.len() - i,
    {
        if same(names[i].as_str(), name) {
            assert(all[i as int] == name@);
            return true;
        }
        i = i + 1;
    }
    false
}

impl CompactProjection {
    pub fn new() -> (r: Self)
        ensures
            r@ == ProjectionModel::fresh(),
    {
        let r = CompactProjection { cells: Vec::new(), open: None };
        assert(r@ =~= ProjectionModel::fresh());
        r
    }

    /// Projects a full transcript.
    pub fn rebuild(entries: &[TranscriptEntry]) -> (r: Self)
        ensures
            r@ == ProjectionModel::fresh().fed(crate::transcript::entry_models(entries@)),
    {
        let mut projection = CompactProjection::new();
        projection.append_all(entries);
        projection
    }

    /// Feeds entries one after the other.
    pub fn append_all(&mut self, entries: &[TranscriptEntry])
        ensures
            final(self)@ == old(self)@.fed(crate::transcript::entry_models(entries@)),
    {
        let ghost all = crate::transcript::entry_models(entries@);
        let mut i: usize = 0;
        assert(all.take(0) =~= Seq::empty());
        while i < entries.len()
            invariant
                i <= entries.len(),
                all == crate::transcript::entry_models(entries@),
                self@ == old(self)@.fed(all.take(i as int)),
            decreases entries.len() - i,
        {
            self.append(&entries[i]);
            assert(all.take(i + 1).drop_last() =~= all.take(i as int));
            i = i + 1;
        }
        assert(all.take(i as int) =~= all);
    }

    /// Feeds one transcript entry; appends, extends or finalizes cells.
    pub fn append(&mut self, entry: &TranscriptEntry)
        ensures
            final(self)@ == old(self)@.appended(entry@),
    {
        match entry {
            TranscriptEntry::Event(event) => self.append_event(event),
            _ => self.show(entry.clone()),
        }
    }

    fn show(&mut self, entry: TranscriptEntry)
        ensures
            final(self)@ == old(self)@.shown(entry@),
    {
        broadcast use lemma_cells_push;

        self.flush_active();
        self.cells.push(CompactCell::Passthrough(entry));
    }

    fn append_event(&mut self, event: &TranscriptEventEntry)
        ensures
            final(self)@ == old(self)@.appended(EntryModel::Event(event@)),
    {
        match event.kind {
            HarnessEventType::ToolCall => {
                let name = event_tool_name(event);
                match self.open.take() {
                    Some(mut group) => {
                        let ghost before = group@;
                        let known = lists(&group.tools, name.as_str());
                        if name.as_str().unicode_len() > 0 && !known {
                            group.tools.push(name);
                            proof {
                                text::lemma_texts_push(
                                    group.tools@.drop_last(),
                                    group.tools@.last(),
                                );
                                assert(group.tools@.drop_last().push(group.tools@.last())
                                    =~= group.tools@);
                                assert(text::texts(group.tools@) =~= before.tools.push(name@));
                            }
                        }
                        group.count = count_up(group.count);
                        self.open = Some(group);
                        assert(self@ =~= old(self)@.called(event@));
                    },
                    None => {
                        let mut tools: Vec<String> = Vec::new();
                        tools.push(name);
                        assert(text::texts(tools@) =~= seq![name@]);
                        self.open = Some(
                            ToolGroupCell {
                                count: 1,
                                tools,
                                failed: 0,
                                iteration: event.iteration,
                                source: TranscriptEntry::Event(event.clone()),
                            },
                        );
                        assert(self@ =~= old(self)@.called(event@));
                    },
                }
            },
            HarnessEventType::ToolResult => match self.open.take() {
                Some(mut group) => {
                    let failed = match &event.data {
                        Some(data) => match data.failed {
                            Some(f) => f,
                            None => false,
                        },
                        None => false,
                    };
                    if failed {
                        group.failed = count_up(group.failed);
                    }
                    self.open = Some(group);
                },
                None => {
                    self.show(TranscriptEntry::Event(event.clone()));
                },
            },
            HarnessEventType::Inference => {},
            _ => self.show(TranscriptEntry::Event(event.clone())),
        }
    }

    /// Finalizes any open tool group into the cell list.
    pub fn finalize(&mut self)
        ensures
            final(self)@ == old(self)@.flushed(),
    {
        self.flush_active();
    }

    /// Whether a tool group is open.
    pub fn is_active(&self) -> (r: bool)
        ensures
            r == (self@.open is Some),
    {
        self.open.is_some()
    }

    /// The open tool group.
    pub fn active_group(&self) -> (r: Option<&ToolGroupCell>)
        ensures
            match r {
                Some(group) => self@.open == Some(group@),
                None => self@.open is None,
            },
    {
        self.open.as_ref()
    }

    fn flush_active(&mut self)
        ensures
            final(self)@ == old(self)@.flushed(),
    {
        broadcast use lemma_cells_push;

        if let Some(group) = self.open.take() {
            self.cells.push(CompactCell::ToolGroup(group));
        }
    }

    /// The finalized cells.
    pub fn into_cells(self) -> (r: Vec<CompactCell>)
        ensures
            cell_models(r@) == self@.cells,
    {
        self.cells
    }
}

impl Default for CompactProjection {
    fn default() -> (r: Self)
        ensures
            r@ == ProjectionModel::fresh(),
    {
        CompactProjection::new()
    }
}

// ---------------------------------------------------------------------------
// Emitter
// ---------------------------------------------------------------------------

/// A projection and how many of its cells were handed out.
#[verifier::ext_equal]
pub ghost struct EmitterModel {
    pub projection: ProjectionModel,
    pub emitted: nat,
}

impl EmitterModel {
    pub open spec fn wf(self) -> bool {
        self.emitted <= self.projection.cells.len()
    }

    /// Nothing fed yet.
    pub open spec fn fresh() -> EmitterModel {
        EmitterModel { projection: ProjectionModel::fresh(), emitted: 0 }
    }

    /// The cells not handed out yet.
    pub open spec fn pending(self) -> Seq<CellModel> {
        self.projection.cells.skip(self.emitted as int)
    }

    /// Everything finalized is handed out.
    pub open spec fn drained(self) -> EmitterModel {
        EmitterModel { emitted: self.projection.cells.len(), ..self }
    }

    /// Entries fed, nothing handed out.
    pub open spec fn fed(self, entries: Seq<EntryModel>) -> EmitterModel {
        EmitterModel { projection: self.projection.fed(entries), ..self }
    }

    /// The open group finalized, nothing handed out.
    pub open spec fn flushed(self) -> EmitterModel {
        EmitterModel { projection: self.projection.flushed(), ..self }
    }
}

/// A projection plus the cursor of what was already painted, so that each
/// finalized cell reaches scrollback exactly once.
pub struct CompactEmitter {
    /// Finalized cells and the open group.
    pub projection: CompactProjection,
    /// How many finalized cells were handed out.
    pub emitted: usize,
}

impl View for CompactEmitter {
    type V = EmitterModel;

    open spec fn view(&self) -> EmitterModel {
        EmitterModel { projection: self.projection@, emitted: self.emitted as nat }
    }
}

proof fn lemma_appended_keeps_cells(p: ProjectionModel, entry: EntryModel)
    ensures
        p.cells.is_prefix_of(p.appended(entry).cells),
        p.cells.is_prefix_of(p.flushed().cells),
{
    assert(p.cells =~= p.cells.subrange(0, p.cells.len() as int));
    assert(p.flushed().cells.subrange(0, p.cells.len() as int) =~= p.cells);
    assert(p.shown(entry).cells.subrange(0, p.cells.len() as int) =~= p.cells);
}

proof fn lemma_fed_keeps_cells(p: ProjectionModel, entries: Seq<EntryModel>)
    ensures
        p.cells.is_prefix_of(p.fed(entries).cells),
    decreases entries.len(),
{
    if entries.len() == 0 {
        assert(p.cells =~= p.cells.subrange(0, p.cells.len() as int));
    } else {
        let q = p.fed(entries.drop_last());
        lemma_fed_keeps_cells(p, entries.drop_last());
        lemma_appended_keeps_cells(q, entries.last());
        let r = q.appended(entries.last());
        let n = p.cells.len() as int;
        assert(q.cells.subrange(0, n) =~= p.cells);
        assert(r.cells.subrange(0, q.cells.len() as int) =~= q.cells);
        assert(r.cells.subrange(0, n) =~= p.cells) by {
            assert forall|i: int| 0 <= i < n implies r.cells[i] == p.cells[i] by {
                assert(q.cells.subrange(0, n)[i] == q.cells[i]);
                assert(r.cells.subrange(0, q.cells.len() as int)[i] == r.cells[i]);
            }
        }
    }
}

impl CompactEmitter {
    pub fn new() -> (r: Self)
        ensures
            r@ == EmitterModel::fresh(),
            r@.wf(),
    {
        CompactEmitter { projection: CompactProjection::new(), emitted: 0 }
    }

    /// Feeds raw entries and returns the cells they finalized. Each cell is
    /// returned exactly once.
    pub fn absorb(&mut self, entries: &[TranscriptEntry]) -> (r: Vec<CompactCell>)
        requires
            old(self)@.wf(),
        ensures
            final(self)@.wf(),
            ({
                let fed = old(self)@.fed(crate::transcript::entry_models(entries@));
                &&& final(self)@ == fed.drained()
                &&& cell_models(r@) == fed.pending()
            }),
    {
        proof {
            lemma_fed_keeps_cells(self@.projection, crate::transcript::entry_models(entries@));
        }
        self.projection.append_all(entries);
        self.drain()
    }

    /// Cells finalized since the last drain.
    pub fn drain(&mut self) -> (r: Vec<CompactCell>)
        requires
            old(self)@.wf(),
        ensures
            final(self)@.wf(),
            final(self)@ == old(self)@.drained(),
            cell_models(r@) == old(self)@.pending(),
    {
        let ghost all = cell_models(self.projection.cells@);
        let ghost start = self.emitted as int;
        let mut cells: Vec<CompactCell> = Vec::new();
        let mut i: usize = self.emitted;
        assert(cell_models(cells@) =~= all.subrange(start, start));
        while i < self.projection.cells.len()
            invariant
                start <= i <= self.projection.cells.len(),
                start == self.emitted,
                all == cell_models(self.projection.cells@),
                *self == *old(self),
                cell_models(cells@) == all.subrange(start, i as int),
            decreases self.projection.cells.len() - i,
        {
            broadcast use lemma_cells_push;

            cells.push(self.projection.cells[i].clone());
            assert(all.subrange(start, i + 1) =~= all.subrange(start, i as int).push(
                all[i as int],
            ));
            i = i + 1;
        }
        assert(all.subrange(start, i as int) =~= all.skip(start));
        self.emitted = self.projection.cells.len();
        cells
    }

    /// Replaces the state from raw transcript entries; everything already
    /// finalized counts as painted.
    pub fn rebuild(&mut self, entries: &[TranscriptEntry])
        ensures
            final(self)@.wf(),
            final(self)@ == EmitterModel::fresh().fed(
                crate::transcript::entry_models(entries@),
            ).drained(),
    {
        self.projection = CompactProjection::rebuild(entries);
        self.emitted = self.projection.cells.len();
    }

    /// Settles any open group at a run boundary and returns the cells to
    /// paint.
    pub fn finalize(&mut self) -> (r: Vec<CompactCell>)
        requires
            old(self)@.wf(),
        ensures
            final(self)@.wf(),
            final(self)@ == old(self)@.flushed().drained(),
            cell_models(r@) == old(self)@.flushed().pending(),
    {
        self.projection.finalize();
        self.drain()
    }
}

impl Default for CompactEmitter {
    fn default() -> (r: Self)
        ensures
            r@ == EmitterModel::fresh(),
            r@.wf(),
    {
        CompactEmitter::new()
    }
}

// ---------------------------------------------------------------------------
// Rendering
// ---------------------------------------------------------------------------

/// `s` with spaces before it up to `n` characters.
pub open spec fn padded_left(s: Seq<char>, n: nat) -> Seq<char> {
    if s.len() < n {
        text::repeated(' ', (n - s.len()) as nat) + s
    } else {
        s
    }
}

fn pad_left(s: &str, n: usize) -> (r: String)
    ensures
        r@ == padded_left(s@, n as nat),
{
    let len: usize = s.unicode_len();
    if len < n {
        let pad = repeat_char(' ', n - len);
        concat2(pad.as_str(), s)
    } else {
        s.to_string()
    }
}

/// The longest prefix of `s`, of at most `k` characters, that takes at most
/// `width` columns.
pub open spec fn cut_length(s: Seq<char>, k: nat, width: nat) -> nat
    decreases k,
{
    if k == 0 || ansi::text_width(s.take(k as int)) <= width {
        k
    } else {
        cut_length(s, (k - 1) as nat, width)
    }
}

/// `s` cut to `width` columns, the last of them an ellipsis.
pub open spec fn ellipsized(s: Seq<char>, width: nat) -> Seq<char> {
    let room = if width > 0 {
        (width - 1) as nat
    } else {
        0
    };
    let k = if room < s.len() {
        room
    } else {
        s.len()
    };
    s.take(cut_length(s, k, room) as int).push('\u{2026}')
}

/// Cuts `s` to `width` columns, the last of them an ellipsis.
pub fn ellipsize(s: &str, width: usize) -> (r: String)
    ensures
        r@ == ellipsized(s@, width as nat),
{
    let room: usize = if width > 0 {
        width - 1
    } else {
        0
    };
    let x = chars_of(s);
    let mut k: usize = if room < x.len() {
        room
    } else {
        x.len()
    };
    let ghost k0 = k as nat;
    let mut out = sub_string(&x, 0, k);
    assert(x@.subrange(0, k as int) =~= x@.take(k as int));
    while k > 0 && !fits(out.as_str(), room)
        invariant
            k <= x.len(),
            x@ == s@,
            out@ == x@.take(k as int),
            cut_length(s@, k0, room as nat) == cut_length(s@, k as nat, room as nat),
        decreases k,
    {
        k = k - 1;
        out = sub_string(&x, 0, k);
        assert(x@.subrange(0, k as int) =~= x@.take(k as int));
    }
    out.push('\u{2026}');
    out
}

/// An ellipsized text takes at most `width` columns.
pub proof fn lemma_ellipsized_width(s: Seq<char>, width: nat)
    requires
        width > 0,
    ensures
        ansi::text_width(ellipsized(s, width)) <= width,
{
    let room = (width - 1) as nat;
    let k = if room < s.len() {
        room
    } else {
        s.len()
    };
    lemma_cut_length(s, k, room);
    let cut = s.take(cut_length(s, k, room) as int);
    let dots = seq!['\u{2026}'];
    ansi::lemma_visible_append(cut, dots);
    assert(cut + dots =~= cut.push('\u{2026}'));
    reveal_with_fuel(ansi::visible, 2);
    reveal_with_fuel(ansi::columns, 2);
    assert(ansi::visible(dots) =~= dots);
}

proof fn lemma_cut_length(s: Seq<char>, k: nat, width: nat)
    ensures
        cut_length(s, k, width) <= k,
        ansi::text_width(s.take(cut_length(s, k, width) as int)) <= width,
    decreases k,
{
    if k == 0 {
        assert(s.take(0) =~= Seq::empty());
    } else if ansi::text_width(s.take(k as int)) > width {
        lemma_cut_length(s, (k - 1) as nat, width);
    }
}

impl GroupModel {
    /// `── N Tools called: … ──`.
    pub open spec fn summary(self) -> Seq<char> {
        "\u{2500}\u{2500} "@ + text::decimal(self.count) + (if self.count == 1 {
            " Tool called: "@
        } else {
            " Tools called: "@
        }) + text::joined(self.tools, ", "@) + " \u{2500}\u{2500}"@
    }

    /// The summary after the cycle number.
    pub open spec fn plain(self) -> Seq<char> {
        "["@ + padded_left(text::signed_decimal(self.iteration as int), 3) + "] "@ + self.summary()
    }

    /// The plain row and how many calls failed, if any did.
    pub open spec fn detailed(self) -> Seq<char> {
        if self.failed > 0 {
            self.plain() + " ("@ + text::decimal(self.failed) + " failed)"@
        } else {
            self.plain()
        }
    }

    /// The row before painting, held to `width` columns (not at all where
    /// `width` is zero): the failed count goes first, then the end of the
    /// summary.
    pub open spec fn fitted(self, width: nat) -> Seq<char> {
        if width == 0 || ansi::text_width(self.detailed()) <= width {
            self.detailed()
        } else if ansi::text_width(self.plain()) <= width {
            self.plain()
        } else {
            ellipsized(self.plain(), width)
        }
    }

    /// The painted row.
    pub open spec fn row(self, width: nat) -> Seq<char> {
        painted_row(self.fitted(width))
    }
}

/// How many characters of `s` stand up to and including the first `]`; none
/// where it holds no `]`.
pub open spec fn bracket_length(s: Seq<char>) -> nat {
    if s.contains(']') {
        (s.index_of_first(']')->0 + 1) as nat
    } else {
        0
    }
}

/// The cycle number dim, the rest white.
pub open spec fn painted_row(s: Seq<char>) -> Seq<char> {
    let k = bracket_length(s) as int;
    ansi::dimmed(s.take(k)) + ansi::whitened(s.skip(k))
}

fn paint_row(s: &str) -> (r: String)
    ensures
        r@ == painted_row(s@),
{
    let x = chars_of(s);
    let mut i: usize = 0;
    while i < x.len() && x[i] != ']'
        invariant
            i <= x.len(),
            forall|j: int| 0 <= j < i ==> x@[j] != ']',
        decreases x.len() - i,
    {
        i = i + 1;
    }
    let k: usize = if i < x.len() {
        i + 1
    } else {
        0
    };
    proof {
        x@.index_of_first_ensures(']');
        if i < x.len() {
            assert(x@.contains(']'));
            let f = x@.index_of_first(']')->0;
            if f < i {
                assert(x@[f] != ']');
            }
            if i < f {
                assert(x@[i as int] == ']');
            }
        } else {
            assert(!x@.contains(']'));
        }
    }
    assert(x@.subrange(0, k as int) =~= x@.take(k as int));
    assert(x@.subrange(k as int, x@.len() as int) =~= x@.skip(k as int));
    let head = sub_string(&x, 0, k);
    let tail = sub_string(&x, k, x.len());
    let a = dim(head.as_str());
    let b = white(tail.as_str());
    concat2(a.as_str(), b.as_str())
}

/// Renders a tool group as its single painted summary row. Clipping happens
/// before painting (the failed count first, then with an ellipsis), so the
/// escapes stay balanced and the row takes one line.
pub fn render_tool_group(group: &ToolGroupCell, width: usize) -> (r: Vec<String>)
    ensures
        text::texts(r@) == seq![group@.row(width as nat)],
{
    let number = format_signed(group.iteration);
    let padded = pad_left(number.as_str(), 3);
    let count = format_decimal(group.count as u64);
    let names = join_texts(&group.tools, ", ");
    let mut summary = "\u{2500}\u{2500} ".to_string();
    summary.append(count.as_str());
    if group.count == 1 {
        summary.append(" Tool called: ");
    } else {
        summary.append(" Tools called: ");
    }
    summary.append(names.as_str());
    summary.append(" \u{2500}\u{2500}");
    assert(summary@ == group@.summary());
    let mut plain = "[".to_string();
    plain.append(padded.as_str());
    plain.append("] ");
    plain.append(summary.as_str());
    assert(plain@ == group@.plain());
    let mut detailed = plain.clone();
    if group.failed > 0 {
        let n = format_decimal(group.failed as u64);
        detailed.append(" (");
        detailed.append(n.as_str());
        detailed.append(" failed)");
    }
    assert(detailed@ == group@.detailed());
    let fitted = if width == 0 || fits(detailed.as_str(), width) {
        detailed
    } else if fits(plain.as_str(), width) {
        plain
    } else {
        ellipsize(plain.as_str(), width)
    };
    let mut rows: Vec<String> = Vec::new();
    rows.push(paint_row(fitted.as_str()));
    assert(text::texts(rows@) =~= seq![group@.row(width as nat)]);
    rows
}

/// A tool group always renders as one row that takes at most `width` columns.
pub proof fn law_tool_group_row_fits(group: GroupModel, width: nat)
    requires
        width > 0,
    ensures
        ansi::text_width(group.row(width)) <= width,
        ansi::visible(group.row(width)) == ansi::visible(group.fitted(width)),
{
    let s = group.fitted(width);
    let k = bracket_length(s) as int;
    let a = ansi::dimmed(s.take(k));
    let b = ansi::whitened(s.skip(k));
    lemma_ellipsized_width(group.plain(), width);
    reveal_strlit("\u{1b}[37m");
    assert(b[0] == '\u{1b}');
    ansi::lemma_visible_append(a, b);
    ansi::law_painting_adds_no_columns(s.take(k));
    ansi::law_painting_adds_no_columns(s.skip(k));
    s.index_of_first_ensures(']');
    assert(s.take(k) + s.skip(k) =~= s);
    ansi::lemma_visible_split(s.take(k), s.skip(k));
}

/// The rows of a projected cell.
pub open spec fn cell_rows(cell: CellModel, width: nat) -> Seq<Seq<char>> {
    match cell {
        CellModel::ToolGroup(group) => seq![group.row(width)],
        CellModel::Passthrough(entry) => timeline::wrapped_lines(
            timeline::entry_lines(entry),
            width,
        ),
    }
}

/// Renders one projected cell as painted rows.
pub fn render_compact_cell(cell: &CompactCell, width: usize) -> (r: Vec<String>)
    ensures
        text::texts(r@) == cell_rows(cell@, width as nat),
{
    match cell {
        CompactCell::ToolGroup(group) => render_tool_group(group, width),
        CompactCell::Passthrough(entry) => render_timeline_cell(entry, width),
    }
}

/// How many rows a cell is budgeted for.
pub open spec fn cell_estimate(cell: CellModel) -> nat {
    match cell {
        CellModel::ToolGroup(_) => 1,
        CellModel::Passthrough(entry) => timeline::entry_lines(entry).len(),
    }
}

/// How many rows a cell is budgeted for.
pub fn estimate_compact_rows(cell: &CompactCell) -> (r: usize)
    ensures
        r == cell_estimate(cell@),
{
    match cell {
        CompactCell::ToolGroup(_) => 1,
        CompactCell::Passthrough(entry) => estimate_cell_rows(entry),
    }
}

/// The rows that the cells from `k` on are budgeted for.
pub open spec fn tail_estimate(cells: Seq<CellModel>, k: int) -> nat
    decreases cells.len() - k,
{
    if k < 0 || k >= cells.len() {
        0
    } else {
        cell_estimate(cells[k]) + tail_estimate(cells, k + 1)
    }
}

/// The rows that a repaint may fill above the live region.
pub open spec fn tail_budget(terminal_rows: nat) -> nat {
    let free = if terminal_rows > LIVE_REGION_RESERVED_ROWS {
        (terminal_rows - LIVE_REGION_RESERVED_ROWS) as nat
    } else {
        0
    };
    if free > MIN_TAIL_ROWS {
        free
    } else {
        MIN_TAIL_ROWS as nat
    }
}

/// The least position, going down from `k`, from which on all cells are within
/// `budget` rows.
pub open spec fn tail_start(cells: Seq<CellModel>, k: nat, budget: nat) -> nat
    decreases k,
{
    if k == 0 || tail_estimate(cells, k - 1) > budget {
        k
    } else {
        tail_start(cells, (k - 1) as nat, budget)
    }
}

/// The first cell of the tail that a repaint shows; the newest cell is shown in
/// any case.
pub open spec fn tail_first(cells: Seq<CellModel>, terminal_rows: nat) -> int {
    if cells.len() == 0 {
        0
    } else {
        let start = tail_start(cells, cells.len(), tail_budget(terminal_rows));
        if start < cells.len() {
            start as int
        } else {
            cells.len() - 1
        }
    }
}

/// After a repaint clears the screen, the first of the most recent cells that
/// fit above the live region: the newest cell is shown in any case.
pub fn select_compact_tail_start(cells: &[CompactCell], terminal_rows: usize) -> (r: usize)
    ensures
        cells@.len() == 0 ==> r == 0,
        cells@.len() > 0 ==> ({
            let start = tail_start(
                cell_models(cells@),
                cells@.len(),
                tail_budget(terminal_rows as nat),
            );
            r == if start < cells@.len() {
                start as int
            } else {
                cells@.len() - 1
            }
        }),
        r == tail_first(cell_models(cells@), terminal_rows as nat),
{
    let free: usize = if terminal_rows > LIVE_REGION_RESERVED_ROWS {
        terminal_rows - LIVE_REGION_RESERVED_ROWS
    } else {
        0
    };
    let budget: usize = if free > MIN_TAIL_ROWS {
        free
    } else {
        MIN_TAIL_ROWS
    };
    if cells.len() == 0 {
        return 0;
    }
    let ghost all = cell_models(cells@);
    let mut used: usize = 0;
    let mut k: usize = cells.len();
    while k > 0
        invariant
            k <= cells.len(),
            cells.len() > 0,
            all == cell_models(cells@),
            budget == tail_budget(terminal_rows as nat),
            used == tail_estimate(all, k as int),
            used <= budget,
            tail_start(all, cells@.len(), budget as nat) == tail_start(all, k as nat, budget as nat),
        decreases k,
    {
        let rows: usize = estimate_compact_rows(&cells[k - 1]);
        if rows > budget - used {
            return if k < cells.len() {
                k
            } else {
                cells.len() - 1
            };
        }
        used = used + rows;
        k = k - 1;
    }
    0
}

/// What a cycle-transition detail says, its white space collapsed.
pub open spec fn flat(detail: Seq<char>) -> Seq<char> {
    text::joined(text::words(detail), " "@)
}

/// Where the budget note of a transition starts: the last place that holds
/// its marker.
pub open spec fn is_budget_at(s: Seq<char>, i: int) -> bool {
    &&& text::occurs_at(s, " [budget "@, i)
    &&& forall|j: int| i < j ==> !text::occurs_at(s, " [budget "@, j)
}

/// The planning text of a transition and, where it has one, its budget note.
pub open spec fn transition_parts(s: Seq<char>) -> (Seq<char>, Option<Seq<char>>) {
    if exists|i: int| is_budget_at(s, i) {
        let i = choose|i: int| is_budget_at(s, i);
        (text::trimmed_end(s.take(i)), Some(s.skip(i)))
    } else {
        (s, None)
    }
}

/// The plain transition row: the whole text where it fits, else without its
/// budget note, and the planning text is then cut with an ellipsis.
pub open spec fn transition_plain(detail: Seq<char>, width: nat) -> Seq<char> {
    let whole = flat(detail);
    let body = transition_parts(whole).0;
    if width == 0 || ansi::text_width(whole) <= width {
        whole
    } else if ansi::text_width(body) <= width {
        body
    } else {
        ellipsized(body, width)
    }
}

/// The last place where `p` stands in `x`.
fn find_last(x: &Vec<char>, p: &Vec<char>) -> (r: Option<usize>)
    ensures
        match r {
            Some(i) => text::occurs_at(x@, p@, i as int) && forall|j: int|
                i < j ==> !text::occurs_at(x@, p@, j),
            None => forall|j: int| !text::occurs_at(x@, p@, j),
        },
{
    let mut last: Option<usize> = None;
    let mut from: usize = 0;
    loop
        invariant
            from <= x.len() + 1,
            match last {
                Some(i) => i < from && text::occurs_at(x@, p@, i as int) && forall|j: int|
                    i < j < from ==> !text::occurs_at(x@, p@, j),
                None => forall|j: int| 0 <= j < from ==> !text::occurs_at(x@, p@, j),
            },
        decreases x.len() + 1 - from,
    {
        match find_from(x, p, from) {
            Some(i) => {
                if i == usize::MAX {
                    return Some(i);
                }
                last = Some(i);
                from = i + 1;
            },
            None => {
                return last;
            },
        }
    }
}

/// Paints the transition row of an `IterationStart` detail: white space
/// collapsed, the budget note kept while the row fits, then cut to one line.
pub fn render_cycle_transition(event: &TranscriptEventEntry, width: usize) -> (r: Vec<String>)
    ensures
        text::texts(r@) == seq![ansi::whitened(transition_plain(event.detail@, width as nat))],
{
    let ws = split_words(event.detail.as_str());
    let flat_text = join_texts(&ws, " ");
    let x = chars_of(flat_text.as_str());
    let p = chars_of(" [budget ");
    let mut body = flat_text.clone();
    match find_last(&x, &p) {
        Some(i) => {
            assert(is_budget_at(x@, i as int));
            let ghost c = choose|c: int| is_budget_at(x@, c);
            assert(c == i) by {
                if c < i {
                    assert(!text::occurs_at(x@, " [budget "@, i as int));
                }
                if i < c {
                    assert(!text::occurs_at(x@, " [budget "@, c));
                }
            }
            let head = sub_string(&x, 0, i);
            assert(x@.subrange(0, i as int) =~= x@.take(i as int));
            body = trim_end(head.as_str());
        },
        None => {
            assert(!(exists|i: int| is_budget_at(x@, i)));
        },
    }
    let plain = if width == 0 || fits(flat_text.as_str(), width) {
        flat_text
    } else if fits(body.as_str(), width) {
        body
    } else {
        ellipsize(body.as_str(), width)
    };
    let mut rows: Vec<String> = Vec::new();
    rows.push(white(plain.as_str()));
    assert(text::texts(rows@) =~= seq![
        ansi::whitened(transition_plain(event.detail@, width as nat)),
    ]);
    rows
}

/// A transition row takes at most `width` columns.
pub proof fn law_transition_row_fits(detail: Seq<char>, width: nat)
    requires
        width > 0,
    ensures
        ansi::text_width(ansi::whitened(transition_plain(detail, width))) <= width,
{
    lemma_ellipsized_width(transition_parts(flat(detail)).0, width);
    ansi::law_painting_adds_no_columns(transition_plain(detail, width));
}

/// A transition row that fits is the detail with its white space collapsed, so
/// its budget note is kept; where no width is given, every row fits.
pub proof fn law_a_fitting_transition_is_kept_whole(detail: Seq<char>, width: nat)
    requires
        width == 0 || ansi::text_width(flat(detail)) <= width,
    ensures
        ansi::whitened(transition_plain(detail, width)) == ansi::whitened(flat(detail)),
        ansi::visible(ansi::whitened(transition_plain(detail, width))) == ansi::visible(
            flat(detail),
        ),
{
    ansi::law_painting_adds_no_columns(flat(detail));
}

/// The planning text and the budget note of a transition make up its text.
pub proof fn law_a_transition_is_its_text_and_its_note(detail: Seq<char>)
    ensures
        ({
            let (body, note) = transition_parts(flat(detail));
            body + (match note {
                Some(n) => n,
                None => Seq::empty(),
            }) == flat(detail)
        }),
{
    let s = flat(detail);
    reveal_strlit(" ");
    reveal_strlit(" [budget ");
    assert(" "@ =~= seq![' ']);
    text::lemma_words(detail, |c: char| true);
    text::lemma_joined_spacing(text::words(detail));
    if exists|i: int| is_budget_at(s, i) {
        let i = choose|i: int| is_budget_at(s, i);
        assert(s[i] == s.subrange(i, i + 9)[0]);
        assert(text::is_space(s[i]));
        assert(i > 0);
        assert(s.take(i).last() == s[i - 1]);
        assert(text::trimmed_end(s.take(i)) == s.take(i));
        assert(s.take(i) + s.skip(i) =~= s);
    } else {
        assert(s + Seq::<char>::empty() =~= s);
    }
}

// ---------------------------------------------------------------------------
// Laws
// ---------------------------------------------------------------------------

/// Feeding a transcript in two batches is the same as feeding it at once.
pub proof fn law_replay_matches_incremental_appends(
    p: ProjectionModel,
    a: Seq<EntryModel>,
    b: Seq<EntryModel>,
)
    ensures
        p.fed(a + b) == p.fed(a).fed(b),
    decreases b.len(),
{
    if b.len() == 0 {
        assert(a + b =~= a);
    } else {
        law_replay_matches_incremental_appends(p, a, b.drop_last());
        assert((a + b).drop_last() =~= a + b.drop_last());
        assert((a + b).last() == b.last());
    }
}

/// Each finalized cell is handed out exactly once: what two batches hand out
/// is what one batch of both would have handed out, and an emitter that
/// started fresh has handed out exactly its finalized cells.
pub proof fn law_each_cell_is_emitted_exactly_once(
    e: EmitterModel,
    a: Seq<EntryModel>,
    b: Seq<EntryModel>,
)
    requires
        e.wf(),
    ensures
        e.fed(a).pending() + e.fed(a).drained().fed(b).pending() == e.fed(a + b).pending(),
        e.fed(a).drained().fed(b).drained() == e.fed(a + b).drained(),
        EmitterModel::fresh().fed(a).pending() == EmitterModel::fresh().fed(
            a,
        ).drained().projection.cells,
        e.fed(a).drained().drained() == e.fed(a).drained(),
        e.fed(a).drained().pending().len() == 0,
{
    law_replay_matches_incremental_appends(e.projection, a, b);
    lemma_fed_keeps_cells(e.projection, a);
    lemma_fed_keeps_cells(e.projection.fed(a), b);
    let pa = e.projection.fed(a).cells;
    let pab = e.projection.fed(a + b).cells;
    assert(pab.subrange(0, pa.len() as int) =~= pa);
    assert(pa.skip(e.emitted as int) + pab.skip(pa.len() as int) =~= pab.skip(e.emitted as int)) by {
        assert forall|i: int| 0 <= i < pa.len() implies pa[i] == pab[i] by {
            assert(pab.subrange(0, pa.len() as int)[i] == pab[i]);
        }
    }
    assert(ProjectionModel::fresh().fed(a).cells.skip(0) =~= ProjectionModel::fresh().fed(a).cells);
}

/// Settling after settling hands out nothing.
pub proof fn law_finalize_is_idempotent(e: EmitterModel)
    requires
        e.wf(),
    ensures
        e.flushed().drained().flushed().pending().len() == 0,
        e.flushed().drained().flushed().drained() == e.flushed().drained(),
{
}

/// Whether an entry folds into tool activity: tool calls, results and
/// inference telemetry.
pub open spec fn is_activity(entry: EntryModel) -> bool {
    match entry {
        EntryModel::Event(event) => event.kind == HarnessEventType::ToolCall || event.kind
            == HarnessEventType::ToolResult || event.kind == HarnessEventType::Inference,
        _ => false,
    }
}

/// Every entry that is no tool activity is a boundary: it closes the open
/// group and is itself the newest cell, so no group spans it.
pub proof fn law_groups_never_span_a_boundary(p: ProjectionModel, entry: EntryModel)
    requires
        !is_activity(entry),
    ensures
        p.appended(entry).open is None,
        p.appended(entry).cells.last() == CellModel::Passthrough(entry),
{
}

/// How many tool calls a group cell stands for.
pub open spec fn cell_calls(cell: CellModel) -> nat {
    match cell {
        CellModel::ToolGroup(group) => group.count,
        CellModel::Passthrough(_) => 0,
    }
}

/// How many tool calls the cells stand for.
pub open spec fn calls_in(cells: Seq<CellModel>) -> nat
    decreases cells.len(),
{
    if cells.len() == 0 {
        0
    } else {
        calls_in(cells.drop_last()) + cell_calls(cells.last())
    }
}

/// How many tool calls a projection stands for.
pub open spec fn total_calls(p: ProjectionModel) -> nat {
    calls_in(p.cells) + match p.open {
        Some(group) => group.count,
        None => 0,
    }
}

/// How many tool calls a transcript holds.
pub open spec fn calls_of(entries: Seq<EntryModel>) -> nat
    decreases entries.len(),
{
    if entries.len() == 0 {
        0
    } else {
        calls_of(entries.drop_last()) + match entries.last() {
            EntryModel::Event(event) => if event.kind == HarnessEventType::ToolCall {
                1nat
            } else {
                0
            },
            _ => 0,
        }
    }
}

/// Only tool calls are counted, and each exactly once: the groups of a
/// projected transcript count together as many calls as the transcript holds.
pub proof fn law_every_tool_call_is_counted_once(entries: Seq<EntryModel>)
    requires
        entries.len() <= usize::MAX,
    ensures
        total_calls(ProjectionModel::fresh().fed(entries)) == calls_of(entries),
        calls_of(entries) <= entries.len(),
    decreases entries.len(),
{
    if entries.len() > 0 {
        let p = ProjectionModel::fresh().fed(entries.drop_last());
        let e = entries.last();
        law_every_tool_call_is_counted_once(entries.drop_last());
        assert(p.flushed().cells.drop_last() =~= p.cells || p.open is None);
        assert(p.shown(e).cells.drop_last() =~= p.flushed().cells);
        assert(calls_in(p.flushed().cells) == total_calls(p));
        assert(calls_in(p.shown(e).cells) == total_calls(p));
    }
}

/// The row of a tool group that fits, in full: the cycle number dim in
/// brackets, three places wide at least, and white behind it how many calls
/// there were, the names of the tools and, where at least one call failed, how
/// many did. Where only the failed count has no room, the rest stands alone.
pub proof fn law_a_tool_row_tells_calls_and_failures(group: GroupModel, width: nat)
    ensures
        ({
            let number = text::signed_decimal(group.iteration as int);
            let gap = if number.len() < 3 {
                Seq::new((3 - number.len()) as nat, |i: int| ' ')
            } else {
                Seq::empty()
            };
            let cycle = "["@ + gap + number + "]"@;
            let calls = " \u{2500}\u{2500} "@ + text::decimal(group.count) + (if group.count == 1 {
                " Tool called: "@
            } else {
                " Tools called: "@
            }) + text::joined(group.tools, ", "@) + " \u{2500}\u{2500}"@;
            let failures = " ("@ + text::decimal(group.failed) + " failed)"@;
            let wide = ansi::text_width(cycle + calls + failures);
            let narrow = ansi::text_width(cycle + calls);
            &&& group.failed >= 1 && (width == 0 || wide <= width) ==> group.row(width)
                == "\u{1b}[2m"@ + cycle + "\u{1b}[22m\u{1b}[37m"@ + calls + failures
                + "\u{1b}[39m"@
            &&& group.failed == 0 && (width == 0 || narrow <= width) ==> group.row(width)
                == "\u{1b}[2m"@ + cycle + "\u{1b}[22m\u{1b}[37m"@ + calls + "\u{1b}[39m"@
            &&& width > 0 && wide > width && narrow <= width ==> group.row(width)
                == "\u{1b}[2m"@ + cycle + "\u{1b}[22m\u{1b}[37m"@ + calls + "\u{1b}[39m"@
            &&& group.failed >= 1 && (width == 0 || wide <= width) ==> ansi::visible(
                group.row(width),
            ) == ansi::visible(cycle + calls + failures)
        }),
{
    let number = text::signed_decimal(group.iteration as int);
    let gap = if number.len() < 3 {
        Seq::new((3 - number.len()) as nat, |i: int| ' ')
    } else {
        Seq::empty()
    };
    let cycle = "["@ + gap + number + "]"@;
    let calls = " \u{2500}\u{2500} "@ + text::decimal(group.count) + (if group.count == 1 {
        " Tool called: "@
    } else {
        " Tools called: "@
    }) + text::joined(group.tools, ", "@) + " \u{2500}\u{2500}"@;
    let failures = " ("@ + text::decimal(group.failed) + " failed)"@;
    let joint = text::joined(group.tools, ", "@);
    let count = text::decimal(group.count);
    let label = if group.count == 1 {
        " Tool called: "@
    } else {
        " Tools called: "@
    };
    let space = seq![' '];
    let bars = "\u{2500}\u{2500} "@;
    let end = " \u{2500}\u{2500}"@;
    text::law_a_decimal_reads_back((if group.iteration < 0 {
        -group.iteration
    } else {
        group.iteration as int
    }) as nat);
    assert(gap + number =~= padded_left(number, 3));
    assert("] "@ == "]"@ + space && " \u{2500}\u{2500} "@ == space + bars
        && "\u{1b}[22m\u{1b}[37m"@ == "\u{1b}[22m"@ + "\u{1b}[37m"@) by {
        reveal_strlit("]");
        reveal_strlit("] ");
        reveal_strlit("\u{2500}\u{2500} ");
        reveal_strlit(" \u{2500}\u{2500} ");
        reveal_strlit("\u{1b}[22m");
        reveal_strlit("\u{1b}[37m");
        reveal_strlit("\u{1b}[22m\u{1b}[37m");
        assert("] "@ =~= "]"@ + space);
        assert(" \u{2500}\u{2500} "@ =~= space + bars);
        assert("\u{1b}[22m\u{1b}[37m"@ =~= "\u{1b}[22m"@ + "\u{1b}[37m"@);
    }
    lemma_regroup(space, bars, count);
    lemma_regroup(space, bars + count, label);
    lemma_regroup(space, bars + count + label, joint);
    lemma_regroup(space, bars + count + label + joint, end);
    assert(calls == space + group.summary());
    lemma_regroup("["@, gap, number);
    let front = "["@ + gap + number;
    lemma_regroup(front, "]"@, space);
    lemma_regroup(cycle, space, group.summary());
    assert(group.plain() == cycle + calls);
    lemma_regroup(cycle + calls, " ("@, text::decimal(group.failed));
    lemma_regroup(cycle + calls, " ("@ + text::decimal(group.failed), " failed)"@);
    lemma_regroup(cycle, calls, failures);
    assert(forall|i: int| 0 <= i < (gap + number).len() ==> #[trigger] (gap + number)[i] != ']');
    lemma_painted_cycle(gap + number, calls);
    lemma_painted_cycle(gap + number, calls + failures);
    lemma_two_paints(cycle, calls);
    lemma_two_paints(cycle, calls + failures);
    lemma_regroup("\u{1b}[2m"@ + cycle + "\u{1b}[22m\u{1b}[37m"@, calls, failures);
    let w = ansi::text_width(cycle + calls + failures) + 1;
    if group.failed >= 1 {
        law_tool_group_row_fits(group, w);
    }
}

proof fn lemma_regroup(a: Seq<char>, b: Seq<char>, c: Seq<char>)
    ensures
        a + (b + c) == a + b + c,
{
    assert(a + (b + c) =~= a + b + c);
}

proof fn lemma_two_paints(a: Seq<char>, b: Seq<char>)
    ensures
        ansi::dimmed(a) + ansi::whitened(b) == "\u{1b}[2m"@ + a + ("\u{1b}[22m"@
            + "\u{1b}[37m"@) + b + "\u{1b}[39m"@,
{
    assert(ansi::dimmed(a) + ansi::whitened(b) =~= "\u{1b}[2m"@ + a + ("\u{1b}[22m"@
        + "\u{1b}[37m"@) + b + "\u{1b}[39m"@);
}

proof fn lemma_painted_cycle(number: Seq<char>, rest: Seq<char>)
    requires
        forall|i: int| 0 <= i < number.len() ==> #[trigger] number[i] != ']',
    ensures
        painted_row("["@ + number + "]"@ + rest) == ansi::dimmed("["@ + number + "]"@)
            + ansi::whitened(rest),
{
    reveal_strlit("[");
    reveal_strlit("]");
    let head = "["@ + number + "]"@;
    let s = head + rest;
    assert(s[head.len() - 1] == ']');
    assert(s.contains(']'));
    s.index_of_first_ensures(']');
    let f = s.index_of_first(']')->0;
    if f < head.len() - 1 {
        if f > 0 {
            assert(s[f] == number[f - 1]);
        }
    }
    if f > head.len() - 1 {
        assert(s[head.len() - 1] != ']');
    }
    assert(s.take(head.len() as int) =~= head);
    assert(s.skip(head.len() as int) =~= rest);
}

/// What an ellipsis stands for: a cut text is a beginning of the whole and one
/// ellipsis, and the beginning is as long as the room before the ellipsis
/// allows, both in characters and in columns.
pub proof fn law_an_ellipsis_marks_the_cut(s: Seq<char>, width: nat)
    requires
        width > 0,
    ensures
        exists|k: int|
            0 <= k <= s.len() && k < width && #[trigger] s.take(k) + seq!['\u{2026}'] == ellipsized(
                s,
                width,
            ) && ansi::text_width(s.take(k)) < width && (k < s.len() && k + 1 < width
                ==> ansi::text_width(s.take(k + 1)) >= width),
{
    let room = (width - 1) as nat;
    let top = if room < s.len() {
        room
    } else {
        s.len()
    };
    lemma_cut_length(s, top, room);
    lemma_cut_is_longest(s, top, room);
    let k = cut_length(s, top, room) as int;
    assert(s.take(k) + seq!['\u{2026}'] =~= ellipsized(s, width));
}

proof fn lemma_cut_is_longest(s: Seq<char>, k: nat, width: nat)
    ensures
        cut_length(s, k, width) < k ==> ansi::text_width(
            s.take(cut_length(s, k, width) as int + 1),
        ) > width,
    decreases k,
{
    if k > 0 && ansi::text_width(s.take(k as int)) > width {
        lemma_cut_is_longest(s, (k - 1) as nat, width);
    }
}

/// A tool group that is too long for the row even without its failed count is
/// cut with an ellipsis; nothing but that changes in what is shown.
pub proof fn law_a_long_tool_row_is_cut(group: GroupModel, width: nat)
    requires
        width > 0,
        ansi::text_width(group.plain()) > width,
        ansi::text_width(group.detailed()) > width,
    ensures
        ansi::visible(group.row(width)) == ansi::visible(ellipsized(group.plain(), width)),
{
    law_tool_group_row_fits(group, width);
}

/// A tool call with no group open begins one of a single call, which names its
/// tool and carries its cycle; the finished cells stay as they are.
pub proof fn law_a_first_call_opens_a_group(p: ProjectionModel, event: EventModel)
    requires
        event.kind == HarnessEventType::ToolCall,
        p.open is None,
    ensures
        p.appended(EntryModel::Event(event)).cells == p.cells,
        p.appended(EntryModel::Event(event)).open is Some,
        ({
            let group = p.appended(EntryModel::Event(event)).open->0;
            &&& group.count == 1
            &&& group.failed == 0
            &&& group.tools == seq![tool_name_of(event)]
            &&& group.iteration == event.iteration
            &&& group.source == EntryModel::Event(event)
        }),
{
}

/// A further call is one more call of the open group. Its tool is named once,
/// behind those that were named before; failures, cycle and cells stay.
pub proof fn law_a_further_call_joins_the_group(p: ProjectionModel, event: EventModel)
    requires
        event.kind == HarnessEventType::ToolCall,
        p.open is Some,
        p.open->0.count < usize::MAX,
    ensures
        p.appended(EntryModel::Event(event)).cells == p.cells,
        p.appended(EntryModel::Event(event)).open is Some,
        ({
            let before = p.open->0;
            let after = p.appended(EntryModel::Event(event)).open->0;
            let name = tool_name_of(event);
            &&& after.count == before.count + 1
            &&& after.failed == before.failed
            &&& after.iteration == before.iteration
            &&& after.source == before.source
            &&& name.len() > 0 ==> after.tools.contains(name)
            &&& before.tools.is_prefix_of(after.tools)
            &&& before.tools.contains(name) || name.len() == 0 ==> after.tools == before.tools
            &&& after.tools.len() <= before.tools.len() + 1
            &&& before.tools.no_duplicates() ==> after.tools.no_duplicates()
        }),
{
    let before = p.open->0;
    let after = p.appended(EntryModel::Event(event)).open->0;
    let name = tool_name_of(event);
    if name.len() > 0 && !before.tools.contains(name) {
        assert(after.tools == before.tools.push(name));
        assert(after.tools[before.tools.len() as int] == name);
        assert(before.tools =~= after.tools.take(before.tools.len() as int));
        if before.tools.no_duplicates() {
            assert forall|i: int, j: int|
                0 <= i < after.tools.len() && 0 <= j < after.tools.len() && i
                    != j implies after.tools[i] != after.tools[j] by {
                if i < before.tools.len() && j < before.tools.len() {
                    assert(before.tools[i] != before.tools[j]);
                } else if i < before.tools.len() {
                    assert(before.tools.contains(before.tools[i]));
                } else {
                    assert(before.tools.contains(before.tools[j]));
                }
            }
        }
    }
}

/// Results are folded into the open group and never counted as calls: a failed
/// one adds one failure and changes nothing else, any other changes nothing at
/// all. A result without a group is shown as it is.
pub proof fn law_a_result_counts_only_its_failure(p: ProjectionModel, event: EventModel)
    requires
        event.kind == HarnessEventType::ToolResult,
    ensures
        ({
            let q = p.appended(EntryModel::Event(event));
            let failed = event.data is Some && event.data->0.failed == Some(true);
            &&& p.open is Some && !failed ==> q == p
            &&& p.open is Some && failed && p.open->0.failed < usize::MAX ==> q.cells == p.cells
                && q.open == Some(GroupModel { failed: p.open->0.failed + 1, ..p.open->0 })
            &&& p.open is None ==> q.open is None && q.cells == p.cells.push(
                CellModel::Passthrough(EntryModel::Event(event)),
            )
        }),
{
}

/// Inference telemetry leaves no trace.
pub proof fn law_telemetry_leaves_no_trace(p: ProjectionModel, event: EventModel)
    requires
        event.kind == HarnessEventType::Inference,
    ensures
        p.appended(EntryModel::Event(event)) == p,
{
}

/// Everything else ends the open group: the group's row comes first, whole,
/// then the entry itself, and nothing that was there before is lost.
pub proof fn law_a_boundary_settles_the_group_before_it(p: ProjectionModel, entry: EntryModel)
    requires
        entry is Event ==> ({
            let kind = entry->Event_0.kind;
            &&& kind != HarnessEventType::ToolCall
            &&& kind != HarnessEventType::ToolResult
            &&& kind != HarnessEventType::Inference
        }),
    ensures
        p.appended(entry).open is None,
        p.appended(entry).cells == p.cells + (match p.open {
            Some(group) => seq![CellModel::ToolGroup(group)],
            None => Seq::empty(),
        }) + seq![CellModel::Passthrough(entry)],
        p.flushed().open is None,
        p.flushed().cells == p.cells + (match p.open {
            Some(group) => seq![CellModel::ToolGroup(group)],
            None => Seq::empty(),
        }),
{
    assert(p.appended(entry).cells =~= p.cells + (match p.open {
        Some(group) => seq![CellModel::ToolGroup(group)],
        None => Seq::empty(),
    }) + seq![CellModel::Passthrough(entry)]);
    assert(p.flushed().cells =~= p.cells + (match p.open {
        Some(group) => seq![CellModel::ToolGroup(group)],
        None => Seq::empty(),
    }));
}

/// A tool goes by the name in the event's data; without one, by what stands in
/// the detail before its first white space.
pub proof fn law_a_tool_goes_by_its_name(event: EventModel, word: Seq<char>, rest: Seq<char>)
    requires
        forall|i: int| 0 <= i < word.len() ==> !text::is_space(#[trigger] word[i]),
        rest.len() > 0 ==> text::is_space(rest[0]),
        event.detail == word + rest,
    ensures
        tool_name_of(event) == (if event.data is Some && event.data->0.tool_name is Some {
            event.data->0.tool_name->0@
        } else {
            word
        }),
{
    lemma_token(word, rest);
    assert((word + rest).take(word.len() as int) =~= word);
}

proof fn lemma_token(word: Seq<char>, rest: Seq<char>)
    requires
        forall|i: int| 0 <= i < word.len() ==> !text::is_space(#[trigger] word[i]),
        rest.len() > 0 ==> text::is_space(rest[0]),
    ensures
        token_length(word + rest) == word.len(),
    decreases word.len(),
{
    let s = word + rest;
    if word.len() > 0 {
        assert(s[0] == word[0]);
        assert(s.skip(1) =~= word.skip(1) + rest);
        lemma_token(word.skip(1), rest);
    } else {
        assert(s =~= rest);
    }
}

/// The tail of a repaint is as long as fits: the cells from its start on take
/// no more rows than the budget, and with the cell before the start they would
/// take more.
pub proof fn law_the_tail_is_the_longest_that_fits(cells: Seq<CellModel>, k: nat, budget: nat)
    requires
        k <= cells.len(),
        tail_estimate(cells, k as int) <= budget,
    ensures
        ({
            let start = tail_start(cells, k, budget);
            &&& start <= k
            &&& tail_estimate(cells, start as int) <= budget
            &&& start > 0 ==> tail_estimate(cells, start - 1) > budget
        }),
    decreases k,
{
    if k > 0 && tail_estimate(cells, k - 1) <= budget {
        law_the_tail_is_the_longest_that_fits(cells, (k - 1) as nat, budget);
    }
}

/// Where the row of a cycle has no room for its budget note, the note goes
/// first: the planning text before the last note stays whole while it fits
/// itself, and is else cut with an ellipsis.
pub proof fn law_the_budget_note_goes_first(detail: Seq<char>, i: int, width: nat)
    requires
        width > 0,
        ansi::text_width(flat(detail)) > width,
        text::occurs_at(flat(detail), " [budget "@, i),
        forall|j: int| i < j ==> !text::occurs_at(flat(detail), " [budget "@, j),
    ensures
        ansi::text_width(text::trimmed_end(flat(detail).take(i))) <= width ==> transition_plain(
            detail,
            width,
        ) == text::trimmed_end(flat(detail).take(i)),
        ansi::text_width(text::trimmed_end(flat(detail).take(i))) > width ==> transition_plain(
            detail,
            width,
        ) == ellipsized(text::trimmed_end(flat(detail).take(i)), width),
{
    let s = flat(detail);
    assert(is_budget_at(s, i));
    let c = choose|c: int| is_budget_at(s, c);
    assert(c == i) by {
        if c < i {
            assert(!text::occurs_at(s, " [budget "@, i));
        }
        if i < c {
            assert(!text::occurs_at(s, " [budget "@, c));
        }
    }
}

/// What is seen of a tool group is what it holds, field by field.
pub proof fn law_a_group_is_seen_as_it_is(it: ToolGroupCell)
    ensures
        it@.count == it.count as nat,
        it@.tools == text::texts(it.tools@),
        it@.failed == it.failed as nat,
        it@.iteration == it.iteration,
        it@.source == it.source@,
{
}

/// What is seen of a projection is what it holds, field by field.
pub proof fn law_a_projection_is_seen_as_it_is(it: CompactProjection)
    ensures
        it@.cells == cell_models(it.cells@),
        it@.open == (match it.open {
                Some(group) => Some(group@),
                None => None,
            }),
{
}

/// What is seen of an emitter is what it holds, field by field.
pub proof fn law_an_emitter_is_seen_as_it_is(it: CompactEmitter)
    ensures
        it@.projection == it.projection@,
        it@.emitted == it.emitted as nat,
{
}

/// A cell is a tool group or an entry, and is seen as that; several are these,
/// in order.
pub proof fn law_a_cell_is_seen_as_it_is(cell: CompactCell, all: Seq<CompactCell>, i: int)
    ensures
        cell matches CompactCell::ToolGroup(group) ==> cell@ == CellModel::ToolGroup(group@),
        cell matches CompactCell::Passthrough(entry) ==> cell@ == CellModel::Passthrough(entry@),
        cell@ matches CellModel::ToolGroup(group) ==> cell@.source() == group.source,
        cell@ matches CellModel::Passthrough(entry) ==> cell@.source() == entry,
        cell_models(all).len() == all.len(),
        0 <= i < all.len() ==> cell_models(all)[i] == all[i]@,
{
}

/// A cell is budgeted for the rows that it prints: a tool group for one, an
/// entry for its lines. A repaint fills six rows at least, and else all but
/// the ten of the live region.
pub proof fn law_a_cell_is_budgeted_for_its_rows(
    group: GroupModel,
    entry: EntryModel,
    rows: nat,
)
    ensures
        cell_estimate(CellModel::ToolGroup(group)) == 1,
        cell_estimate(CellModel::Passthrough(entry)) == timeline::entry_lines(entry).len(),
        rows > 16 ==> tail_budget(rows) == rows - 10,
        rows <= 16 ==> tail_budget(rows) == 6,
        cell_rows(CellModel::ToolGroup(group), rows) == seq![group.row(rows)],
        cell_rows(CellModel::Passthrough(entry), rows) == timeline::wrapped_lines(
            timeline::entry_lines(entry),
            rows,
        ),
{
}

/// The detail of a cycle is shown word by word, with single spaces between.
pub proof fn law_a_transition_keeps_its_words(detail: Seq<char>)
    ensures
        flat(detail) == text::joined(text::words(detail), seq![' ']),
        text::words(flat(detail)) == text::words(detail),
{
    reveal_strlit(" ");
    assert(" "@ =~= seq![' ']);
    text::lemma_words(detail, |c: char| true);
    text::lemma_words_of_joined(text::words(detail));
}

/// A repaint shows the newest cell in any case, and besides it as many of those
/// before it as fit.
pub proof fn law_a_repaint_shows_the_newest_cells(cells: Seq<CellModel>, rows: nat)
    requires
        cells.len() > 0,
    ensures
        ({
            let first = tail_first(cells, rows);
            let budget = tail_budget(rows);
            &&& 0 <= first < cells.len()
            &&& tail_estimate(cells, first) <= budget || first == cells.len() - 1
            &&& first > 0 ==> tail_estimate(cells, first - 1) > budget || first == cells.len() - 1
        }),
        tail_first(Seq::empty(), rows) == 0,
        tail_estimate(cells, cells.len() as int) == 0,
        forall|k: int|
            0 <= k < cells.len() ==> #[trigger] tail_estimate(cells, k) == cell_estimate(cells[k])
                + tail_estimate(cells, k + 1),
{
    law_the_tail_is_the_longest_that_fits(cells, cells.len(), tail_budget(rows));
}

} // verus!
