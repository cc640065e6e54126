//! What settles into scrollback and what only blinks on the activity line.
//!
//! Tool activity, cycle transitions, operations and warnings are transient:
//! they show above the composer while a run needs them and never reach
//! scrollback. Their block is debounced, so a burst lands as one update.

use vstd::prelude::*;
use crate::ansi;
use crate::text;
use crate::transcript::{EntryModel, EventModel, HarnessEventType, TranscriptEntry};
use crate::tui::compact;
use crate::tui::compact::{
    render_compact_cell, render_cycle_transition, render_tool_group, CellModel, CompactCell,
    GroupModel, ToolGroupCell,
};

verus! {

/// How many transient rows show at once.
pub const ACTIVITY_NOTICE_LIMIT: usize = 2;

/// How long a transient block stays before the next one replaces it, in
/// milliseconds.
pub const ACTIVITY_DEBOUNCE_MS: u64 = 500;

/// A time `ms` later, at the clock's end at the latest.
pub open spec fn later_time(t: u64, ms: u64) -> u64 {
    if t + ms <= u64::MAX {
        (t + ms) as u64
    } else {
        u64::MAX
    }
}

pub fn later(t: u64, ms: u64) -> (r: u64)
    ensures
        r == later_time(t, ms),
{
    if ms <= u64::MAX - t {
        t + ms
    } else {
        u64::MAX
    }
}

// ---------------------------------------------------------------------------
// Durable and transient
// ---------------------------------------------------------------------------

/// The kinds of events whose rows are transient.
pub open spec fn is_transient(kind: HarnessEventType) -> bool {
    match kind {
        HarnessEventType::ContextExpired => true,
        HarnessEventType::ContextPromoted => true,
        HarnessEventType::ContextRefreshed => true,
        HarnessEventType::ContextWithheld => true,
        HarnessEventType::HarnessOp => true,
        HarnessEventType::Inference => true,
        HarnessEventType::IterationStart => true,
        HarnessEventType::LoopStart => true,
        HarnessEventType::RateLimited => true,
        HarnessEventType::RunComplete => true,
        HarnessEventType::RunWarning => true,
        HarnessEventType::StallRecovery => true,
        HarnessEventType::TaskFinished => true,
        HarnessEventType::ToolCall => true,
        HarnessEventType::ToolResult => true,
        _ => false,
    }
}

pub fn is_transient_kind(kind: HarnessEventType) -> (r: bool)
    ensures
        r == is_transient(kind),
{
    match kind {
        HarnessEventType::ContextExpired => true,
        HarnessEventType::ContextPromoted => true,
        HarnessEventType::ContextRefreshed => true,
        HarnessEventType::ContextWithheld => true,
        HarnessEventType::HarnessOp => true,
        HarnessEventType::Inference => true,
        HarnessEventType::IterationStart => true,
        HarnessEventType::LoopStart => true,
        HarnessEventType::RateLimited => true,
        HarnessEventType::RunComplete => true,
        HarnessEventType::RunWarning => true,
        HarnessEventType::StallRecovery => true,
        HarnessEventType::TaskFinished => true,
        HarnessEventType::ToolCall => true,
        HarnessEventType::ToolResult => true,
        _ => false,
    }
}

/// Whether an entry is a durable row: goals, model text, run ends, notices and
/// questions are; transient events and switched skills are not.
pub open spec fn is_durable(entry: EntryModel) -> bool {
    match entry {
        EntryModel::Event(event) => !is_transient(event.kind),
        EntryModel::Skill { .. } => false,
        _ => true,
    }
}

pub fn is_scrollback_entry(entry: &TranscriptEntry) -> (r: bool)
    ensures
        r == is_durable(entry@),
{
    match entry {
        TranscriptEntry::Event(event) => !is_transient_kind(event.kind),
        TranscriptEntry::Skill(_) => false,
        _ => true,
    }
}

/// Whether a projected cell is a durable row: a folded tool group is not.
pub open spec fn is_durable_cell(cell: CellModel) -> bool {
    match cell {
        CellModel::ToolGroup(_) => false,
        CellModel::Passthrough(entry) => is_durable(entry),
    }
}

pub fn is_scrollback_cell(cell: &CompactCell) -> (r: bool)
    ensures
        r == is_durable_cell(cell@),
{
    match cell {
        CompactCell::ToolGroup(_) => false,
        CompactCell::Passthrough(entry) => is_scrollback_entry(entry),
    }
}

/// The cells that are durable, or those that are not, in their order.
pub open spec fn cells_by(cells: Seq<CellModel>, durable: bool) -> Seq<CellModel>
    decreases cells.len(),
{
    if cells.len() == 0 {
        Seq::empty()
    } else if is_durable_cell(cells.last()) == durable {
        cells_by(cells.drop_last(), durable).push(cells.last())
    } else {
        cells_by(cells.drop_last(), durable)
    }
}

fn pick_cells(cells: &[CompactCell], durable: bool) -> (r: Vec<CompactCell>)
    ensures
        compact::cell_models(r@) == cells_by(compact::cell_models(cells@), durable),
{
    let ghost all = compact::cell_models(cells@);
    let mut out: Vec<CompactCell> = Vec::new();
    let mut i: usize = 0;
    assert(compact::cell_models(out@) =~= cells_by(all.take(0), durable));
    while i < cells.len()
        invariant
            i <= cells.len(),
            all == compact::cell_models(cells@),
            compact::cell_models(out@) == cells_by(all.take(i as int), durable),
        decreases cells.len() - i,
    {
        broadcast use compact::lemma_cells_push;

        assert(all.take(i + 1).drop_last() =~= all.take(i as int));
        if is_scrollback_cell(&cells[i]) == durable {
            out.push(cells[i].clone());
        }
        i = i + 1;
    }
    assert(all.take(i as int) =~= all);
    out
}

/// The cells that may reach scrollback.
pub fn scrollback_cells(cells: &[CompactCell]) -> (r: Vec<CompactCell>)
    ensures
        compact::cell_models(r@) == cells_by(compact::cell_models(cells@), true),
{
    pick_cells(cells, true)
}

/// The cells that only blink on the activity line.
pub fn transient_cells(cells: &[CompactCell]) -> (r: Vec<CompactCell>)
    ensures
        compact::cell_models(r@) == cells_by(compact::cell_models(cells@), false),
{
    pick_cells(cells, false)
}

/// The rows of cells, one after the other.
pub open spec fn rows_of_cells(cells: Seq<CellModel>, width: nat) -> Seq<Seq<char>>
    decreases cells.len(),
{
    if cells.len() == 0 {
        Seq::empty()
    } else {
        rows_of_cells(cells.drop_last(), width) + compact::cell_rows(cells.last(), width)
    }
}

/// The scrollback rows of projected cells: durable cells only.
pub fn projected_rows(cells: &[CompactCell], width: usize) -> (r: Vec<String>)
    ensures
        text::texts(r@) == rows_of_cells(
            cells_by(compact::cell_models(cells@), true),
            width as nat,
        ),
{
    let kept = scrollback_cells(cells);
    let ghost all = compact::cell_models(kept@);
    let mut out: Vec<String> = Vec::new();
    let mut i: usize = 0;
    assert(text::texts(out@) =~= rows_of_cells(all.take(0), width as nat));
    while i < kept.len()
        invariant
            i <= kept.len(),
            all == compact::cell_models(kept@),
            text::texts(out@) == rows_of_cells(all.take(i as int), width as nat),
        decreases kept.len() - i,
    {
        let mut rows = render_compact_cell(&kept[i], width);
        proof {
            text::lemma_texts_add(out@, rows@);
            assert(all.take(i + 1).drop_last() =~= all.take(i as int));
        }
        out.append(&mut rows);
        i = i + 1;
    }
    assert(all.take(i as int) =~= all);
    out
}

// ---------------------------------------------------------------------------
// The activity line
// ---------------------------------------------------------------------------

/// The rows of a transient notice: a folded group keeps its summary row, a
/// cycle transition its numbered preview, anything else its ordinary rows.
pub open spec fn notice_rows(cell: CellModel, width: nat) -> Seq<Seq<char>> {
    match cell {
        CellModel::Passthrough(EntryModel::Event(event)) => if event.kind
            == HarnessEventType::IterationStart {
            seq![ansi::whitened(compact::transition_plain(event.detail, width))]
        } else {
            compact::cell_rows(cell, width)
        },
        _ => compact::cell_rows(cell, width),
    }
}

pub fn activity_notice_rows(cell: &CompactCell, width: usize) -> (r: Vec<String>)
    ensures
        text::texts(r@) == notice_rows(cell@, width as nat),
{
    match cell {
        CompactCell::Passthrough(TranscriptEntry::Event(event)) => {
            if event.kind == HarnessEventType::IterationStart {
                render_cycle_transition(event, width)
            } else {
                render_compact_cell(cell, width)
            }
        },
        _ => render_compact_cell(cell, width),
    }
}

/// The rows of notices, one after the other.
pub open spec fn rows_of_notices(cells: Seq<CellModel>, width: nat) -> Seq<Seq<char>>
    decreases cells.len(),
{
    if cells.len() == 0 {
        Seq::empty()
    } else {
        rows_of_notices(cells.drop_last(), width) + notice_rows(cells.last(), width)
    }
}

/// The last `n` rows.
pub open spec fn last_rows(rows: Seq<Seq<char>>, n: nat) -> Seq<Seq<char>> {
    if rows.len() > n {
        rows.skip(rows.len() - n)
    } else {
        rows
    }
}

/// The transient block: what shows, what waits, and since when it shows.
pub struct ActivityBlock {
    pub notices: Vec<CompactCell>,
    pub pending: Vec<CompactCell>,
    pub shown_at: Option<u64>,
}

/// What a transient block holds.
#[verifier::ext_equal]
pub ghost struct ActivityModel {
    pub notices: Seq<CellModel>,
    pub pending: Seq<CellModel>,
    pub shown_at: Option<u64>,
}

/// The last cells, as many as may show.
pub open spec fn newest_cells(cells: Seq<CellModel>) -> Seq<CellModel> {
    if cells.len() > ACTIVITY_NOTICE_LIMIT {
        cells.skip(cells.len() - ACTIVITY_NOTICE_LIMIT)
    } else {
        cells
    }
}

impl ActivityModel {
    /// An empty block.
    pub open spec fn cleared() -> ActivityModel {
        ActivityModel { notices: Seq::empty(), pending: Seq::empty(), shown_at: None }
    }

    /// Whether the block that shows must stay for now.
    pub open spec fn is_held(self, now: u64) -> bool {
        match self.shown_at {
            Some(shown) => now < later_time(shown, ACTIVITY_DEBOUNCE_MS),
            None => false,
        }
    }

    /// The block after a batch of cells: the transient ones replace what
    /// shows, or wait where that must stay.
    pub open spec fn remembered(self, now: u64, cells: Seq<CellModel>) -> ActivityModel {
        let fresh = cells_by(cells, false);
        if fresh.len() == 0 {
            self
        } else if self.is_held(now) {
            ActivityModel { pending: newest_cells(self.pending + fresh), ..self }
        } else {
            ActivityModel { notices: fresh, pending: Seq::empty(), shown_at: Some(now) }
        }
    }

    /// Whether what waits may show.
    pub open spec fn is_due(self, now: u64) -> bool {
        self.pending.len() > 0 && !self.is_held(now)
    }

    /// The block after what waits was given its chance to show.
    pub open spec fn settled(self, now: u64) -> ActivityModel {
        if self.is_due(now) {
            ActivityModel { notices: self.pending, pending: Seq::empty(), shown_at: Some(now) }
        } else {
            self
        }
    }

    /// When what waits may show.
    pub open spec fn deadline(self) -> Option<u64> {
        if self.pending.len() == 0 {
            None
        } else {
            match self.shown_at {
                Some(shown) => Some(later_time(shown, ACTIVITY_DEBOUNCE_MS)),
                None => None,
            }
        }
    }

    /// The rows that show: the open group and the notices, the newest of them.
    pub open spec fn rows(self, open: Option<GroupModel>, width: nat) -> Seq<Seq<char>> {
        let head = match open {
            Some(group) => seq![group.row(width)],
            None => Seq::empty(),
        };
        last_rows(head + rows_of_notices(self.notices, width), ACTIVITY_NOTICE_LIMIT as nat)
    }
}

impl View for ActivityBlock {
    type V = ActivityModel;

    open spec fn view(&self) -> ActivityModel {
        ActivityModel {
            notices: compact::cell_models(self.notices@),
            pending: compact::cell_models(self.pending@),
            shown_at: self.shown_at,
        }
    }
}

impl ActivityBlock {
    pub fn new() -> (r: Self)
        ensures
            r@ == ActivityModel::cleared(),
    {
        let r = ActivityBlock { notices: Vec::new(), pending: Vec::new(), shown_at: None };
        assert(r@ =~= ActivityModel::cleared());
        r
    }

    fn held(&self, now: u64) -> (r: bool)
        ensures
            r == self@.is_held(now),
    {
        match self.shown_at {
            Some(shown) => now < later(shown, ACTIVITY_DEBOUNCE_MS),
            None => false,
        }
    }

    /// Keeps the transient cells of a batch. Inside the window of the block
    /// that shows they wait; the deadline stays where it is, so a continuous
    /// stream still updates once per window.
    pub fn remember_activity_notices(&mut self, now: u64, cells: &[CompactCell])
        ensures
            final(self)@ == old(self)@.remembered(now, compact::cell_models(cells@)),
    {
        let mut fresh = transient_cells(cells);
        if fresh.len() == 0 {
            return ;
        }
        if self.held(now) {
            let ghost waiting = compact::cell_models(self.pending@) + compact::cell_models(
                fresh@,
            );
            self.pending.append(&mut fresh);
            assert(compact::cell_models(self.pending@) =~= waiting);
            while self.pending.len() > ACTIVITY_NOTICE_LIMIT
                invariant
                    newest_cells(compact::cell_models(self.pending@)) == newest_cells(waiting),
                    self.notices == old(self).notices,
                    self.shown_at == old(self).shown_at,
                decreases self.pending.len(),
            {
                let ghost before = compact::cell_models(self.pending@);
                let _ = self.pending.remove(0);
                assert(compact::cell_models(self.pending@) =~= before.skip(1));
                assert(newest_cells(before.skip(1)) =~= newest_cells(before));
            }
            assert(self@ =~= old(self)@.remembered(now, compact::cell_models(cells@)));
            return ;
        }
        self.notices = fresh;
        self.shown_at = Some(now);
        self.pending = Vec::new();
        assert(self@ =~= old(self)@.remembered(now, compact::cell_models(cells@)));
    }

    /// Shows what waits, once its window has closed. Returns whether the block
    /// changed.
    pub fn settle_activity_notices(&mut self, now: u64) -> (r: bool)
        ensures
            final(self)@ == old(self)@.settled(now),
            r == old(self)@.is_due(now),
    {
        if self.pending.len() == 0 || self.held(now) {
            return false;
        }
        let mut waiting: Vec<CompactCell> = Vec::new();
        waiting.append(&mut self.pending);
        assert(compact::cell_models(waiting@) =~= old(self)@.pending);
        self.notices = waiting;
        self.shown_at = Some(now);
        assert(self@ =~= old(self)@.settled(now));
        true
    }

    /// When what waits may show, where anything does.
    pub fn activity_debounce_deadline(&self) -> (r: Option<u64>)
        ensures
            r == self@.deadline(),
    {
        if self.pending.len() == 0 {
            return None;
        }
        match self.shown_at {
            Some(shown) => Some(later(shown, ACTIVITY_DEBOUNCE_MS)),
            None => None,
        }
    }

    /// Drops everything: a run ended, or a transcript is replayed.
    pub fn clear(&mut self)
        ensures
            final(self)@ == ActivityModel::cleared(),
    {
        self.notices = Vec::new();
        self.pending = Vec::new();
        self.shown_at = None;
        assert(self@ =~= ActivityModel::cleared());
    }

    /// The rows that show above the composer.
    pub fn activity_rows(&self, open: Option<&ToolGroupCell>, width: usize) -> (r: Vec<String>)
        ensures
            text::texts(r@) == self@.rows(
                match open {
                    Some(group) => Some(group@),
                    None => None,
                },
                width as nat,
            ),
    {
        let ghost all = compact::cell_models(self.notices@);
        let mut rows: Vec<String> = match open {
            Some(group) => render_tool_group(group, width),
            None => Vec::new(),
        };
        let ghost head = text::texts(rows@);
        assert(open is None ==> head =~= Seq::empty());
        let mut i: usize = 0;
        assert(text::texts(rows@) =~= head + rows_of_notices(all.take(0), width as nat));
        while i < self.notices.len()
            invariant
                i <= self.notices.len(),
                all == compact::cell_models(self.notices@),
                text::texts(rows@) == head + rows_of_notices(all.take(i as int), width as nat),
            decreases self.notices.len() - i,
        {
            let mut more = activity_notice_rows(&self.notices[i], width);
            proof {
                text::lemma_texts_add(rows@, more@);
                assert(all.take(i + 1).drop_last() =~= all.take(i as int));
            }
            rows.append(&mut more);
            i = i + 1;
            assert(text::texts(rows@) =~= head + rows_of_notices(all.take(i as int), width as nat));
        }
        assert(all.take(i as int) =~= all);
        let ghost full = text::texts(rows@);
        while rows.len() > ACTIVITY_NOTICE_LIMIT
            invariant
                last_rows(text::texts(rows@), ACTIVITY_NOTICE_LIMIT as nat) == last_rows(
                    full,
                    ACTIVITY_NOTICE_LIMIT as nat,
                ),
            decreases rows.len(),
        {
            let ghost before = text::texts(rows@);
            let _ = rows.remove(0);
            assert(text::texts(rows@) =~= before.skip(1));
            assert(last_rows(before.skip(1), ACTIVITY_NOTICE_LIMIT as nat) =~= last_rows(
                before,
                ACTIVITY_NOTICE_LIMIT as nat,
            ));
        }
        rows
    }
}

// ---------------------------------------------------------------------------
// Laws
// ---------------------------------------------------------------------------

/// How many of the cells are of a kind.
pub open spec fn count_by(cells: Seq<CellModel>, durable: bool) -> nat {
    cells_by(cells, durable).len()
}

/// Every cell is either durable or transient: the two parts hold as many cells
/// as the whole, and each holds only its own kind.
pub proof fn law_cells_are_durable_or_transient(cells: Seq<CellModel>)
    ensures
        count_by(cells, true) + count_by(cells, false) == cells.len(),
        forall|i: int|
            0 <= i < cells_by(cells, true).len() ==> is_durable_cell(
                #[trigger] cells_by(cells, true)[i],
            ),
        forall|i: int|
            0 <= i < cells_by(cells, false).len() ==> !is_durable_cell(
                #[trigger] cells_by(cells, false)[i],
            ),
    decreases cells.len(),
{
    if cells.len() > 0 {
        law_cells_are_durable_or_transient(cells.drop_last());
    }
}

/// Tool activity never settles into scrollback: no durable cell is a folded
/// group or a transient event.
pub proof fn law_transient_rows_never_settle(cells: Seq<CellModel>, i: int)
    requires
        0 <= i < cells_by(cells, true).len(),
    ensures
        cells_by(cells, true)[i] matches CellModel::Passthrough(entry) && {
            &&& (entry matches EntryModel::Event(event) ==> !is_transient(event.kind))
            &&& !(entry is Skill)
        },
{
    law_cells_are_durable_or_transient(cells);
    assert(is_durable_cell(cells_by(cells, true)[i]));
}

/// What shows is never replaced inside its window: a batch that arrives there
/// waits, and settling changes nothing before the deadline.
pub proof fn law_a_shown_block_stays_for_its_window(
    a: ActivityModel,
    now: u64,
    cells: Seq<CellModel>,
)
    requires
        a.is_held(now),
    ensures
        a.remembered(now, cells).notices == a.notices,
        a.remembered(now, cells).shown_at == a.shown_at,
        a.remembered(now, cells).settled(now).notices == a.notices,
{
}

/// A waiting batch never starves: at its deadline it shows.
pub proof fn law_a_waiting_batch_shows_at_its_deadline(a: ActivityModel, now: u64)
    requires
        a.pending.len() > 0,
        a.deadline() is Some,
        now >= a.deadline()->0,
    ensures
        a.settled(now).notices == a.pending,
        a.settled(now).pending.len() == 0,
        a.settled(now).deadline() is None,
{
}

/// The activity line never takes more rows than its limit.
pub proof fn law_the_activity_line_is_bounded(
    a: ActivityModel,
    open: Option<GroupModel>,
    width: nat,
)
    ensures
        a.rows(open, width).len() <= ACTIVITY_NOTICE_LIMIT,
{
}

/// What settles in the scrollback: goals, notices, errors, model routes and
/// ends of runs, and of the events what the model said, what was summed up and
/// what was asked. Tool activity, cycles, warnings and telemetry pass by.
pub proof fn law_what_was_said_settles(entry: EntryModel)
    ensures
        entry is Goal || entry is Info || entry is Error || entry is Model || entry is RunEnd
            ==> is_durable(entry),
        entry is Skill ==> !is_durable(entry),
        entry matches EntryModel::Event(e) ==> {
            &&& e.kind == HarnessEventType::ModelText || e.kind == HarnessEventType::RunSummary
                || e.kind == HarnessEventType::Question || e.kind
                == HarnessEventType::OperatorMessage ==> is_durable(entry)
            &&& e.kind == HarnessEventType::ToolCall || e.kind == HarnessEventType::ToolResult
                || e.kind == HarnessEventType::Inference || e.kind
                == HarnessEventType::IterationStart || e.kind == HarnessEventType::RunWarning
                || e.kind == HarnessEventType::HarnessOp || e.kind
                == HarnessEventType::TaskFinished || e.kind == HarnessEventType::LoopStart
                || e.kind == HarnessEventType::RunComplete || e.kind
                == HarnessEventType::RateLimited || e.kind == HarnessEventType::StallRecovery
                || e.kind == HarnessEventType::ContextExpired || e.kind
                == HarnessEventType::ContextPromoted || e.kind
                == HarnessEventType::ContextRefreshed || e.kind
                == HarnessEventType::ContextWithheld ==> !is_durable(entry)
        },
{
}

/// Durable cells are picked out in their order, none twice and none left out,
/// and so are the others.
pub proof fn law_cells_are_parted_in_their_order(cells: Seq<CellModel>, durable: bool)
    ensures
        cells_by(cells, durable) == cells.filter(
            |c: CellModel|
                durable == (match c {
                    CellModel::ToolGroup(_) => false,
                    CellModel::Passthrough(entry) => is_durable(entry),
                }),
        ),
    decreases cells.len(),
{
    reveal(Seq::filter);
    let kept = |c: CellModel|
        durable == (match c {
            CellModel::ToolGroup(_) => false,
            CellModel::Passthrough(entry) => is_durable(entry),
        });
    if cells.len() > 0 {
        law_cells_are_parted_in_their_order(cells.drop_last(), durable);
        assert(kept(cells.last()) == (is_durable_cell(cells.last()) == durable));
    } else {
        assert(cells_by(cells, durable) =~= cells.filter(kept));
    }
}

/// The rows of cells follow each other, each cell with all of its own.
pub proof fn law_every_cell_has_its_rows(cells: Seq<CellModel>, cell: CellModel, width: nat)
    ensures
        rows_of_cells(cells.push(cell), width) == rows_of_cells(cells, width) + compact::cell_rows(
            cell,
            width,
        ),
        rows_of_cells(Seq::empty(), width) == Seq::<Seq<char>>::empty(),
        rows_of_notices(cells.push(cell), width) == rows_of_notices(cells, width) + notice_rows(
            cell,
            width,
        ),
        rows_of_notices(Seq::empty(), width) == Seq::<Seq<char>>::empty(),
{
    assert(cells.push(cell).drop_last() =~= cells);
}

/// A new batch shows at once where nothing must stay, and else waits behind
/// what waits, the newest two of it. A block must stay for half a second.
pub proof fn law_a_new_batch_shows_or_waits(a: ActivityModel, now: u64, cells: Seq<CellModel>)
    ensures
        ({
            let fresh = cells_by(cells, false);
            let all = a.pending + fresh;
            let held = a.shown_at is Some && (a.shown_at->0 + 500 <= u64::MAX ==> now
                < a.shown_at->0 + 500) && (a.shown_at->0 + 500 > u64::MAX ==> now < u64::MAX);
            let next = a.remembered(now, cells);
            &&& a.is_held(now) == held
            &&& fresh.len() == 0 ==> next == a
            &&& fresh.len() > 0 && !held ==> next.notices == fresh && next.pending.len() == 0
                && next.shown_at == Some(now)
            &&& fresh.len() > 0 && held && all.len() <= 2 ==> next.pending == all
            &&& fresh.len() > 0 && held && all.len() > 2 ==> next.pending == all.skip(
                all.len() - 2,
            )
        }),
{
}

/// The activity line shows the open group first and the notices behind it, the
/// last two rows of them all.
pub proof fn law_the_activity_line_shows_the_newest_rows(
    a: ActivityModel,
    group: GroupModel,
    width: nat,
)
    ensures
        ({
            let notices = rows_of_notices(a.notices, width);
            let all = seq![group.row(width)] + notices;
            &&& all.len() <= 2 ==> a.rows(Some(group), width) == all
            &&& all.len() > 2 ==> a.rows(Some(group), width) == all.skip(all.len() - 2)
            &&& notices.len() <= 2 ==> a.rows(None, width) == notices
            &&& notices.len() > 2 ==> a.rows(None, width) == notices.skip(notices.len() - 2)
        }),
{
    let notices = rows_of_notices(a.notices, width);
    assert(Seq::<Seq<char>>::empty() + notices =~= notices);
}

/// A time later is so much later, and at the end of the clock its end.
pub proof fn law_later_is_later(t: u64, ms: u64)
    ensures
        t + ms <= u64::MAX ==> later_time(t, ms) == t + ms,
        t + ms > u64::MAX ==> later_time(t, ms) == u64::MAX,
        later_time(t, ms) >= t,
{
}

/// The notice of a cycle is its transition row; any other notice has the rows
/// that its cell has.
pub proof fn law_a_cycle_is_noticed_by_its_transition(event: EventModel, cell: CellModel, width: nat)
    ensures
        event.kind == HarnessEventType::IterationStart ==> notice_rows(
            CellModel::Passthrough(EntryModel::Event(event)),
            width,
        ) == seq![ansi::whitened(compact::transition_plain(event.detail, width))],
        event.kind != HarnessEventType::IterationStart ==> notice_rows(
            CellModel::Passthrough(EntryModel::Event(event)),
            width,
        ) == compact::cell_rows(CellModel::Passthrough(EntryModel::Event(event)), width),
        cell is ToolGroup ==> notice_rows(cell, width) == compact::cell_rows(cell, width),
{
}

/// What is seen of a transient block is what it holds, field by field.
pub proof fn law_a_block_is_seen_as_it_is(it: ActivityBlock)
    ensures
        it@.notices == compact::cell_models(it.notices@),
        it@.pending == compact::cell_models(it.pending@),
        it@.shown_at == it.shown_at,
{
}

} // verus!
