//! The timeline of the running session: entries come in, the compact
//! projection folds them, durable rows go out above the live region and
//! transient ones to the activity line.

use vstd::prelude::*;
use crate::text;
use crate::transcript;
use crate::transcript::{EntryModel, TranscriptEntry};
use crate::tui::app::activity;
use crate::tui::app::activity::{
    later, projected_rows, scrollback_cells, ActivityBlock, ActivityModel,
};
use crate::tui::compact;
use crate::tui::compact::{
    select_compact_tail_start, CellModel, CompactCell, CompactEmitter, EmitterModel,
};

verus! {

/// How long harness events gather before they are painted, in milliseconds.
pub const EVENT_BATCH_MS: u64 = 48;

/// The timeline and what waits to be painted.
pub struct Feed {
    /// Every entry shown so far.
    pub cells: Vec<TranscriptEntry>,
    pub compact: CompactEmitter,
    /// Entries that wait for the next flush.
    pub pending_cells: Vec<TranscriptEntry>,
    pub flush_deadline: Option<u64>,
    pub pending_detail: Option<String>,
    pub running_detail: Option<String>,
    pub activity: ActivityBlock,
    /// Rows that wait to be printed above the live region.
    pub above: Vec<String>,
}

/// What a feed holds.
#[verifier::ext_equal]
pub ghost struct FeedModel {
    pub cells: Seq<EntryModel>,
    pub compact: EmitterModel,
    pub pending: Seq<EntryModel>,
    pub flush_deadline: Option<u64>,
    pub pending_detail: Option<Seq<char>>,
    pub running_detail: Option<Seq<char>>,
    pub activity: ActivityModel,
    pub above: Seq<Seq<char>>,
}

/// The scrollback rows of cells at a width.
pub open spec fn scrollback_rows(cells: Seq<CellModel>, width: nat) -> Seq<Seq<char>> {
    activity::rows_of_cells(activity::cells_by(cells, true), width)
}

impl FeedModel {
    /// A feed that shows nothing.
    pub open spec fn fresh() -> FeedModel {
        FeedModel {
            cells: Seq::empty(),
            compact: EmitterModel::fresh(),
            pending: Seq::empty(),
            flush_deadline: None,
            pending_detail: None,
            running_detail: None,
            activity: ActivityModel::cleared(),
            above: Seq::empty(),
        }
    }

    pub open spec fn wf(self) -> bool {
        self.compact.wf()
    }

    /// Entries shown: their durable rows go above the live region; while a run
    /// is live their transient cells go to the activity line.
    pub open spec fn emitted(
        self,
        entries: Seq<EntryModel>,
        now: u64,
        running: bool,
        width: nat,
    ) -> FeedModel {
        let fed = self.compact.fed(entries);
        FeedModel {
            cells: self.cells + entries,
            compact: fed.drained(),
            activity: if running {
                self.activity.remembered(now, fed.pending())
            } else {
                self.activity
            },
            above: self.above + scrollback_rows(fed.pending(), width),
            ..self
        }
    }

    /// What waited is shown.
    pub open spec fn flushed(self, now: u64, running: bool, width: nat) -> FeedModel {
        FeedModel {
            pending: Seq::empty(),
            flush_deadline: None,
            pending_detail: None,
            running_detail: if self.pending_detail is Some {
                self.pending_detail
            } else {
                self.running_detail
            },
            ..self.emitted(self.pending, now, running, width)
        }
    }

    /// An entry shown at once, behind what waited.
    pub open spec fn pushed(
        self,
        entry: EntryModel,
        now: u64,
        running: bool,
        width: nat,
    ) -> FeedModel {
        FeedModel { pending: self.pending.push(entry), ..self }.flushed(now, running, width)
    }

    /// An entry that waits for the next flush; the first one sets the
    /// deadline.
    pub open spec fn queued(self, entry: EntryModel, now: u64) -> FeedModel {
        FeedModel {
            pending: self.pending.push(entry),
            flush_deadline: if self.flush_deadline is Some {
                self.flush_deadline
            } else {
                Some(activity::later_time(now, EVENT_BATCH_MS))
            },
            ..self
        }
    }

    /// The open tool group settled, at the end of a run.
    pub open spec fn finalized(self, width: nat) -> FeedModel {
        let fed = self.compact.flushed();
        FeedModel {
            compact: fed.drained(),
            above: self.above + scrollback_rows(fed.pending(), width),
            ..self
        }
    }

    /// Another transcript replayed from the top; nothing of it blinks.
    pub open spec fn replayed(self, entries: Seq<EntryModel>, width: nat) -> FeedModel {
        let fed = EmitterModel::fresh().fed(entries);
        FeedModel {
            cells: entries,
            compact: fed.drained(),
            activity: ActivityModel::cleared(),
            above: self.above + scrollback_rows(fed.projection.cells, width),
            ..self
        }
    }
}

impl View for Feed {
    type V = FeedModel;

    open spec fn view(&self) -> FeedModel {
        FeedModel {
            cells: transcript::entry_models(self.cells@),
            compact: self.compact@,
            pending: transcript::entry_models(self.pending_cells@),
            flush_deadline: self.flush_deadline,
            pending_detail: text::opt_text(self.pending_detail),
            running_detail: text::opt_text(self.running_detail),
            activity: self.activity@,
            above: text::texts(self.above@),
        }
    }
}

proof fn lemma_entries_add(a: Seq<TranscriptEntry>, b: Seq<TranscriptEntry>)
    ensures
        transcript::entry_models(a + b) == transcript::entry_models(a) + transcript::entry_models(
            b,
        ),
{
    assert(transcript::entry_models(a + b) =~= transcript::entry_models(a)
        + transcript::entry_models(b));
}

impl Feed {
    pub fn new() -> (r: Self)
        ensures
            r@ == FeedModel::fresh(),
            r@.wf(),
    {
        let r = Feed {
            cells: Vec::new(),
            compact: CompactEmitter::new(),
            pending_cells: Vec::new(),
            flush_deadline: None,
            pending_detail: None,
            running_detail: None,
            activity: ActivityBlock::new(),
            above: Vec::new(),
        };
        assert(r@ =~= FeedModel::fresh());
        r
    }

    /// Shows entries above the live region.
    pub fn emit_static(
        &mut self,
        entries: Vec<TranscriptEntry>,
        now: u64,
        running: bool,
        width: usize,
    )
        requires
            old(self)@.wf(),
        ensures
            final(self)@ == old(self)@.emitted(
                transcript::entry_models(entries@),
                now,
                running,
                width as nat,
            ),
            final(self)@.wf(),
    {
        let ghost shown = transcript::entry_models(entries@);
        let cells = self.compact.absorb(&entries);
        let mut added = entries;
        proof {
            lemma_entries_add(self.cells@, added@);
        }
        self.cells.append(&mut added);
        if running {
            self.activity.remember_activity_notices(now, &cells);
        }
        let mut rows = projected_rows(&cells, width);
        proof {
            text::lemma_texts_add(self.above@, rows@);
        }
        self.above.append(&mut rows);
        assert(self@ =~= old(self)@.emitted(shown, now, running, width as nat));
    }

    /// Shows what waited.
    pub fn flush_pending_cells(&mut self, now: u64, running: bool, width: usize)
        requires
            old(self)@.wf(),
        ensures
            final(self)@ == old(self)@.flushed(now, running, width as nat),
            final(self)@.wf(),
    {
        self.flush_deadline = None;
        match self.pending_detail.take() {
            Some(detail) => {
                self.running_detail = Some(detail);
            },
            None => {},
        }
        let mut pending: Vec<TranscriptEntry> = Vec::new();
        pending.append(&mut self.pending_cells);
        assert(pending@ =~= old(self).pending_cells@);
        self.emit_static(pending, now, running, width);
        assert(self@ =~= old(self)@.flushed(now, running, width as nat));
    }

    /// Shows an entry at once, behind what waited.
    pub fn push_cell(&mut self, entry: TranscriptEntry, now: u64, running: bool, width: usize)
        requires
            old(self)@.wf(),
        ensures
            final(self)@ == old(self)@.pushed(entry@, now, running, width as nat),
            final(self)@.wf(),
    {
        let ghost e = entry@;
        self.pending_cells.push(entry);
        assert(transcript::entry_models(self.pending_cells@) =~= old(self)@.pending.push(e));
        assert(self@ =~= (FeedModel { pending: old(self)@.pending.push(e), ..old(self)@ }));
        self.flush_pending_cells(now, running, width);
    }

    /// Keeps an entry for the next flush, so that a burst becomes one frame.
    pub fn queue_cell(&mut self, entry: TranscriptEntry, now: u64)
        requires
            old(self)@.wf(),
        ensures
            final(self)@ == old(self)@.queued(entry@, now),
            final(self)@.wf(),
    {
        let ghost e = entry@;
        self.pending_cells.push(entry);
        assert(transcript::entry_models(self.pending_cells@) =~= old(self)@.pending.push(e));
        if self.flush_deadline.is_none() {
            self.flush_deadline = Some(later(now, EVENT_BATCH_MS));
        }
        assert(self@ =~= old(self)@.queued(e, now));
    }

    /// Settles any open tool group at the end of a run.
    pub fn finalize_compact(&mut self, width: usize)
        requires
            old(self)@.wf(),
        ensures
            final(self)@ == old(self)@.finalized(width as nat),
            final(self)@.wf(),
    {
        let cells = self.compact.finalize();
        let mut rows = projected_rows(&cells, width);
        proof {
            text::lemma_texts_add(self.above@, rows@);
        }
        self.above.append(&mut rows);
        assert(self@ =~= old(self)@.finalized(width as nat));
    }

    /// Replays another transcript from the top. A trailing group that is still
    /// open stays in the live region.
    pub fn rebuild_compact(&mut self, entries: Vec<TranscriptEntry>, width: usize)
        ensures
            final(self)@ == old(self)@.replayed(transcript::entry_models(entries@), width as nat),
            final(self)@.wf(),
    {
        self.compact.rebuild(&entries);
        self.activity.clear();
        let mut rows = projected_rows(&self.compact.projection.cells, width);
        proof {
            text::lemma_texts_add(self.above@, rows@);
        }
        self.above.append(&mut rows);
        self.cells = entries;
        assert(self@ =~= old(self)@.replayed(
            transcript::entry_models(entries@),
            width as nat,
        ));
    }

    /// The rows to print after the screen was cleared: the most recent durable
    /// cells that fit above the live region.
    pub fn tail_rows(&self, rows: usize, width: usize) -> (r: Vec<String>)
        ensures
            text::texts(r@) == tail_of(self@.compact.projection.cells, rows as nat, width as nat),
    {
        let kept = scrollback_cells(&self.compact.projection.cells);
        let ghost all = compact::cell_models(kept@);
        let start: usize = select_compact_tail_start(&kept, rows);
        let mut tail: Vec<CompactCell> = Vec::new();
        let mut i: usize = start;
        assert(compact::cell_models(tail@) =~= all.subrange(start as int, start as int));
        while i < kept.len()
            invariant
                start <= i <= kept.len(),
                all == compact::cell_models(kept@),
                compact::cell_models(tail@) == all.subrange(start as int, i as int),
            decreases kept.len() - i,
        {
            broadcast use compact::lemma_cells_push;

            tail.push(kept[i].clone());
            assert(all.subrange(start as int, i + 1) =~= all.subrange(start as int, i as int).push(
                all[i as int],
            ));
            i = i + 1;
        }
        assert(all.subrange(start as int, i as int) =~= all.skip(start as int));
        proof {
            lemma_durable_stays(self.compact@.projection.cells, start as int);
        }
        projected_rows(&tail, width)
    }
}

/// Where the most recent durable cells that fit begin.
pub open spec fn tail_from(cells: Seq<CellModel>, rows: nat) -> int {
    if cells.len() == 0 {
        0
    } else {
        let start = compact::tail_start(cells, cells.len(), compact::tail_budget(rows));
        if start < cells.len() {
            start as int
        } else {
            cells.len() - 1
        }
    }
}

/// The rows of the most recent durable cells that fit.
pub open spec fn tail_of(cells: Seq<CellModel>, rows: nat, width: nat) -> Seq<Seq<char>> {
    let kept = activity::cells_by(cells, true);
    activity::rows_of_cells(kept.skip(tail_from(kept, rows)), width)
}

proof fn lemma_all_durable(cells: Seq<CellModel>)
    requires
        forall|i: int| 0 <= i < cells.len() ==> activity::is_durable_cell(#[trigger] cells[i]),
    ensures
        activity::cells_by(cells, true) == cells,
    decreases cells.len(),
{
    if cells.len() > 0 {
        assert forall|i: int| 0 <= i < cells.drop_last().len() implies activity::is_durable_cell(
            #[trigger] cells.drop_last()[i],
        ) by {
            assert(cells.drop_last()[i] == cells[i]);
        }
        lemma_all_durable(cells.drop_last());
        assert(cells.drop_last().push(cells.last()) =~= cells);
    }
}

proof fn lemma_durable_stays(cells: Seq<CellModel>, start: int)
    requires
        0 <= start <= activity::cells_by(cells, true).len(),
    ensures
        activity::cells_by(activity::cells_by(cells, true).skip(start), true)
            == activity::cells_by(cells, true).skip(start),
{
    let kept = activity::cells_by(cells, true);
    activity::law_cells_are_durable_or_transient(cells);
    assert forall|i: int| 0 <= i < kept.skip(start).len() implies activity::is_durable_cell(
        #[trigger] kept.skip(start)[i],
    ) by {
        assert(kept.skip(start)[i] == kept[start + i]);
    }
    lemma_all_durable(kept.skip(start));
}

// ---------------------------------------------------------------------------
// Laws
// ---------------------------------------------------------------------------

/// After a resize no transient row comes back: the rows that are printed again
/// are those of the durable cells alone.
pub proof fn law_a_resize_brings_back_no_transient_row(
    cells: Seq<CellModel>,
    rows: nat,
    width: nat,
)
    ensures
        tail_of(cells, rows, width) == tail_of(activity::cells_by(cells, true), rows, width),
{
    let kept = activity::cells_by(cells, true);
    lemma_durable_stays(cells, 0);
    assert(kept.skip(0) =~= kept);
}

/// A replayed transcript shows no transient row: nothing of an old run blinks
/// on the activity line of the next one.
pub proof fn law_replay_never_blinks(f: FeedModel, entries: Seq<EntryModel>, width: nat)
    ensures
        f.replayed(entries, width).activity == ActivityModel::cleared(),
{
}

/// Every entry is kept: whatever shows or blinks, the raw timeline grows by
/// exactly what came in.
pub proof fn law_no_entry_is_lost(f: FeedModel, now: u64, running: bool, width: nat)
    ensures
        f.flushed(now, running, width).cells == f.cells + f.pending,
        f.flushed(now, running, width).pending.len() == 0,
{
}

/// What is shown goes above the live region as the rows of its durable cells,
/// behind those that are there, and is kept; its transient cells go to the
/// activity line while a run is live.
pub proof fn law_what_is_shown_goes_above(
    f: FeedModel,
    entries: Seq<EntryModel>,
    now: u64,
    running: bool,
    width: nat,
)
    ensures
        ({
            let next = f.emitted(entries, now, running, width);
            let cells = f.compact.fed(entries).pending();
            &&& next.cells == f.cells + entries
            &&& next.above == f.above + activity::rows_of_cells(
                activity::cells_by(cells, true),
                width,
            )
            &&& running ==> next.activity == f.activity.remembered(now, cells)
            &&& !running ==> next.activity == f.activity
            &&& next.compact == f.compact.fed(entries).drained()
            &&& next.pending == f.pending
        }),
{
}

/// An entry that waits is behind those that wait, and the first one sets when
/// they are shown: forty-eight milliseconds later at the latest.
pub proof fn law_a_waiting_entry_is_shown_in_time(f: FeedModel, entry: EntryModel, now: u64)
    requires
        now <= u64::MAX - 48,
    ensures
        f.queued(entry, now).pending == f.pending.push(entry),
        f.flush_deadline is None ==> f.queued(entry, now).flush_deadline == Some((now + 48) as u64),
        f.flush_deadline is Some ==> f.queued(entry, now).flush_deadline == f.flush_deadline,
        f.queued(entry, now).cells == f.cells,
        f.queued(entry, now).above == f.above,
{
}

/// A flush shows everything that waited, in order, and updates what the status
/// line says of the run; nothing waits after it. An entry that is shown at once
/// comes behind what waited.
pub proof fn law_a_flush_shows_everything(
    f: FeedModel,
    entry: EntryModel,
    now: u64,
    running: bool,
    width: nat,
)
    ensures
        ({
            let next = f.flushed(now, running, width);
            &&& next.cells == f.cells + f.pending
            &&& next.above == f.emitted(f.pending, now, running, width).above
            &&& next.flush_deadline is None
            &&& f.pending_detail is Some ==> next.running_detail == f.pending_detail
            &&& f.pending_detail is None ==> next.running_detail == f.running_detail
            &&& f.pushed(entry, now, running, width).cells == (f.cells + f.pending).push(entry)
            &&& f.pushed(entry, now, running, width).pending.len() == 0
        }),
{
    assert(f.cells + f.pending.push(entry) =~= (f.cells + f.pending).push(entry));
}

/// The end of a run settles its open tool group; replaying a transcript shows
/// that transcript, all of its durable rows, and nothing of another.
pub proof fn law_a_replay_shows_its_transcript(f: FeedModel, entries: Seq<EntryModel>, width: nat)
    ensures
        f.replayed(entries, width).cells == entries,
        f.replayed(entries, width).compact.projection == compact::ProjectionModel::fresh().fed(
            entries,
        ),
        f.replayed(entries, width).above == f.above + activity::rows_of_cells(
            activity::cells_by(compact::ProjectionModel::fresh().fed(entries).cells, true),
            width,
        ),
        f.finalized(width).compact.projection.open is None,
        f.finalized(width).cells == f.cells,
{
}

/// What is seen of a feed is what it holds, field by field.
pub proof fn law_a_feed_is_seen_as_it_is(it: Feed)
    ensures
        it@.cells == transcript::entry_models(it.cells@),
        it@.compact == it.compact@,
        it@.pending == transcript::entry_models(it.pending_cells@),
        it@.flush_deadline == it.flush_deadline,
        it@.pending_detail == text::opt_text(it.pending_detail),
        it@.running_detail == text::opt_text(it.running_detail),
        it@.activity == it.activity@,
        it@.above == text::texts(it.above@),
{
}

/// A resize shows again the newest durable cells that fit, and of those every
/// row.
pub proof fn law_a_resize_shows_the_newest_rows(cells: Seq<CellModel>, rows: nat, width: nat)
    ensures
        ({
            let kept = activity::cells_by(cells, true);
            let first = compact::tail_first(kept, rows);
            &&& tail_of(cells, rows, width) == activity::rows_of_cells(kept.skip(first), width)
            &&& kept.len() > 0 ==> 0 <= first < kept.len()
        }),
{
    let kept = activity::cells_by(cells, true);
    if kept.len() > 0 {
        compact::law_a_repaint_shows_the_newest_cells(kept, rows);
    }
}

} // verus!
