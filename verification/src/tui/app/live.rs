//! The live region: the rows at the bottom of the screen that are erased and
//! drawn again with every frame, and the frames themselves.

use vstd::prelude::*;
use crate::ansi;
use crate::ansi::{clip_ansi, string_width, strip_ansi};
use crate::text;
use crate::text::{chars_of, concat2, concat3, find_from, format_decimal, join_texts, sub_string};
use crate::tui::app::feed;
use crate::tui::app::frames;
use crate::tui::app::frames::{
    render_composer, render_picker, render_skill_picker, render_status_bar, render_survey,
    render_working_line, StatusBarProps,
};
use crate::tui::app::overlay::{Overlay, OverlayKind, OverlayModel};
use crate::tui::app::skills;
use crate::tui::app::skills::visible_skill_rows;
use crate::tui::app::state::{AppModel, TuiApp};
use crate::tui::app::status_row;
use crate::tui::app::survey::SurveyModel;
use crate::tui::evals::push_row;
use crate::tui::jobs;
use crate::tui::jobs::{background_counter, render_job_detail, render_jobs_list};
use crate::tui::pane_title;
use crate::tui::pane_title::frame_for;
use crate::tui::widgets;

verus! {

/// Starts a frame that the terminal shows in one piece.
pub const SYNC_UPDATE_START: &'static str = "\u{1b}[?2026h";

/// Ends a frame.
pub const SYNC_UPDATE_END: &'static str = "\u{1b}[?2026l";

/// Clears what the screen shows.
pub const CLEAR_VISIBLE_SCREEN: &'static str = "\u{1b}[2J\u{1b}[H";

/// Clears from the cursor to the end of the screen.
pub const CLEAR_TO_END: &'static str = "\u{1b}[J";

// ---------------------------------------------------------------------------
// What the region says
// ---------------------------------------------------------------------------

/// The rows that take a free-text answer.
pub open spec fn free_text_rows(s: SurveyModel, input: Seq<char>) -> Seq<Seq<char>> {
    let question = if s.asks() {
        s.questions[s.current].question
    } else {
        Seq::empty()
    };
    seq![
        "Type something — "@ + question,
        "> "@ + input + "▏"@,
        "enter to submit · esc back to choices"@,
    ]
}

impl AppModel {
    /// The rows of a survey's question.
    pub open spec fn survey_rows(self, o: OverlayModel) -> Seq<Seq<char>> {
        match self.survey {
            Some(s) => if s.asks() {
                frames::survey_frame(
                    s.questions[s.current],
                    o.items,
                    s.picks,
                    o.selected,
                    s.current + 1,
                    s.questions.len() as int,
                )
            } else {
                frames::picker_frame(o.title, o.items, o.selected)
            },
            None => frames::picker_frame(o.title, o.items, o.selected),
        }
    }

    /// The rows of the job browser: one job in detail, or the list.
    pub open spec fn jobs_rows(self, o: OverlayModel, output: Seq<char>) -> Seq<Seq<char>> {
        match self.jobs.detail {
            Some(i) => widgets::framed(
                jobs::detail_rows(
                    self.jobs.rows[i],
                    jobs::runtime_at(self.jobs.ages, i),
                    output,
                ),
                self.cols as nat,
                if jobs::is_monitor(self.jobs.rows[i]) {
                    "Monitor details"@
                } else {
                    "Shell details"@
                },
            ),
            None => widgets::framed(
                jobs::list_rows(self.jobs.rows, self.jobs.ages, o.selected),
                self.cols as nat,
                Seq::empty(),
            ),
        }
    }

    /// The rows of an open picker.
    pub open spec fn overlay_rows(self, o: OverlayModel, output: Seq<char>) -> Seq<Seq<char>> {
        if o.kind == OverlayKind::Question {
            self.survey_rows(o)
        } else if o.kind == OverlayKind::Skills {
            frames::skill_frame(
                o.filter,
                skills::visible_rows(self.skill_rows, o.filter),
                skills::active_names(self.active),
                o.selected,
                self.skill_rows.len(),
            )
        } else if o.kind == OverlayKind::Jobs {
            self.jobs_rows(o, output)
        } else {
            frames::picker_frame(o.title, o.items, o.selected)
        }
    }

    /// The rows that a live run shows above the composer: what happens, and how
    /// long the run has worked.
    pub open spec fn run_rows(self) -> Seq<Seq<char>> {
        if !self.running {
            Seq::empty()
        } else {
            let rows = self.feed.activity.rows(
                self.feed.compact.projection.open,
                self.cols as nat,
            );
            match self.run_started_at {
                Some(started) => {
                    let worked = pane_title::elapsed(self.now, started);
                    let line = frames::working_line(
                        pane_title::SPINNER_FRAMES@[pane_title::frame_index(worked)]@,
                        worked as nat,
                    );
                    if rows.len() > 0 {
                        rows.push(Seq::empty()).push(line)
                    } else {
                        rows.push(line)
                    }
                },
                None => rows,
            }
        }
    }

    /// What stands between the margin and the status row. `output` is the tail
    /// of the log of the job that is shown in detail.
    pub open spec fn middle_rows(self, output: Seq<char>) -> Seq<Seq<char>> {
        if self.survey is Some && self.survey->0.other_input is Some {
            free_text_rows(self.survey->0, self.survey->0.other_input->0)
        } else {
            match self.overlay {
                Some(o) => self.overlay_rows(o, output),
                None => self.run_rows() + frames::composer_frame(
                    self.composer,
                    self.queued,
                    self.attachments.len(),
                    self.titles.session_name,
                    self.cols as nat,
                ),
            }
        }
    }

    /// The row of the configured command, where there is one and it says
    /// something.
    pub open spec fn custom_row(self) -> Option<Seq<char>> {
        match self.status_line.runner {
            Some(runner) => status_row::custom_row(
                self.status_line.output,
                self.cols as nat,
                runner.setting.padding as nat,
            ),
            None => None,
        }
    }

    /// The default status row.
    pub open spec fn default_row(self) -> Seq<char> {
        frames::status_bar(
            self.session.id@,
            jobs::counter(self.jobs.counts.0, self.jobs.counts.1),
            frames::run_state(self.running, self.feed.running_detail),
            skills::active_names(self.active),
            self.bootstrap.cwd@,
        )
    }

    /// The status row.
    pub open spec fn last_row(self) -> Seq<char> {
        match self.custom_row() {
            Some(row) => if row.len() > 0 {
                row
            } else {
                self.default_row()
            },
            None => self.default_row(),
        }
    }

    /// The whole region before it is cut to the screen.
    pub open spec fn all_rows(self, output: Seq<char>) -> Seq<Seq<char>> {
        (seq![Seq::<char>::empty()] + self.middle_rows(output)).push(self.last_row())
    }

    /// The live region.
    pub open spec fn live_rows_at(self, output: Seq<char>) -> Seq<Seq<char>> {
        fitted(clipped_rows(self.all_rows(output), at_least_one(self.cols as nat)), at_least_one(
            self.rows as nat,
        ))
    }
}

/// `n`, or one.
pub open spec fn at_least_one(n: nat) -> nat {
    if n == 0 {
        1
    } else {
        n
    }
}

/// Rows cut to a width.
pub open spec fn clipped_rows(rows: Seq<Seq<char>>, width: nat) -> Seq<Seq<char>> {
    Seq::new(rows.len(), |i: int| ansi::clipped(rows[i], width))
}

/// At most `max` rows: where there are more, those right above the last row
/// are left out.
pub open spec fn fitted(rows: Seq<Seq<char>>, max: nat) -> Seq<Seq<char>> {
    if rows.len() <= max {
        rows
    } else {
        rows.take(max - 1).push(rows.last())
    }
}

// ---------------------------------------------------------------------------
// Drawing it
// ---------------------------------------------------------------------------

fn milliseconds_since(now: u64, since: u64) -> (r: u64)
    ensures
        r == pane_title::elapsed(now, since),
{
    if now >= since {
        now - since
    } else {
        0
    }
}

fn clip_rows(rows: &Vec<String>, width: usize) -> (r: Vec<String>)
    ensures
        text::texts(r@) == clipped_rows(text::texts(rows@), width as nat),
{
    let ghost all = clipped_rows(text::texts(rows@), width as nat);
    let mut out: Vec<String> = Vec::new();
    let mut i: usize = 0;
    assert(text::texts(out@) =~= all.take(0));
    while i < rows.len()
        invariant
            i <= rows.len(),
            all == clipped_rows(text::texts(rows@), width as nat),
            text::texts(out@) == all.take(i as int),
        decreases rows.len() - i,
    {
        push_row(&mut out, clip_ansi(rows[i].as_str(), width));
        assert(all.take(i + 1) =~= all.take(i as int).push(all[i as int]));
        i = i + 1;
    }
    assert(all.take(i as int) =~= all);
    out
}

fn fit_rows(rows: Vec<String>, max: usize) -> (r: Vec<String>)
    requires
        max >= 1,
        rows@.len() >= 1,
    ensures
        text::texts(r@) == fitted(text::texts(rows@), max as nat),
{
    let n: usize = rows.len();
    if n <= max {
        return rows;
    }
    let ghost all = text::texts(rows@);
    let mut out: Vec<String> = Vec::new();
    let mut i: usize = 0;
    assert(text::texts(out@) =~= all.take(0));
    while i < max - 1
        invariant
            i <= max - 1,
            max < n,
            n == rows@.len(),
            all == text::texts(rows@),
            text::texts(out@) == all.take(i as int),
        decreases max - i,
    {
        push_row(&mut out, rows[i].clone());
        assert(all.take(i + 1) =~= all.take(i as int).push(all[i as int]));
        i = i + 1;
    }
    push_row(&mut out, rows[n - 1].clone());
    out
}

fn add_rows(rows: &mut Vec<String>, more: Vec<String>)
    ensures
        text::texts(final(rows)@) == text::texts(old(rows)@) + text::texts(more@),
{
    let mut more = more;
    proof {
        text::lemma_texts_add(rows@, more@);
    }
    rows.append(&mut more);
}

impl TuiApp {
    fn survey_rows(&self, o: &Overlay) -> (r: Vec<String>)
        ensures
            text::texts(r@) == self@.survey_rows(o@),
    {
        match &self.survey {
            Some(s) => if s.asks() {
                let total: usize = s.survey.questions.len();
                render_survey(
                    &s.survey.questions[s.current],
                    &o.items,
                    &s.multiple_picks,
                    o.selected,
                    s.current + 1,
                    total,
                )
            } else {
                render_picker(o.title.as_str(), &o.items, o.selected)
            },
            None => render_picker(o.title.as_str(), &o.items, o.selected),
        }
    }

    fn overlay_rows(&self, o: &Overlay, output: &str) -> (r: Vec<String>)
        requires
            self@.wf(),
        ensures
            text::texts(r@) == self@.overlay_rows(o@, output@),
    {
        match o.kind {
            OverlayKind::Question => self.survey_rows(o),
            OverlayKind::Skills => {
                let rows = visible_skill_rows(&self.skill_rows, o.filter.as_str());
                render_skill_picker(
                    o.filter.as_str(),
                    &rows,
                    &self.active_skills,
                    o.selected,
                    self.skill_rows.len(),
                )
            },
            OverlayKind::Jobs => match self.jobs.detail {
                Some(i) => render_job_detail(
                    &self.jobs.rows[i],
                    self.jobs.age(i),
                    output,
                    self.cols,
                ),
                None => render_jobs_list(&self.jobs.rows, &self.jobs.ages, o.selected, self.cols),
            },
            _ => render_picker(o.title.as_str(), &o.items, o.selected),
        }
    }

    fn run_rows(&self) -> (r: Vec<String>)
        ensures
            text::texts(r@) == self@.run_rows(),
    {
        if !self.running {
            let none: Vec<String> = Vec::new();
            assert(text::texts(none@) =~= Seq::empty());
            return none;
        }
        let open = self.feed.compact.projection.active_group();
        let mut rows = self.feed.activity.activity_rows(open, self.cols);
        match self.run_started_at {
            Some(started) => {
                let worked: u64 = milliseconds_since(self.now, started);
                if rows.len() > 0 {
                    push_row(&mut rows, String::new());
                }
                push_row(&mut rows, render_working_line(frame_for(worked), worked));
            },
            None => {},
        }
        rows
    }

    fn middle_rows(&self, output: &str) -> (r: Vec<String>)
        requires
            self@.wf(),
        ensures
            text::texts(r@) == self@.middle_rows(output@),
    {
        match &self.survey {
            Some(s) => match &s.other_input {
                Some(input) => {
                    let mut rows: Vec<String> = Vec::new();
                    if s.asks() {
                        let q = &s.survey.questions[s.current];
                        rows.push(concat2("Type something — ", q.question.as_str()));
                    } else {
                        rows.push(concat2("Type something — ", ""));
                    }
                    rows.push(concat3("> ", input.as_str(), "▏"));
                    rows.push("enter to submit · esc back to choices".to_string());
                    proof {
                        reveal_strlit("");
                        assert(""@ =~= Seq::<char>::empty());
                        assert(text::texts(rows@) =~= free_text_rows(s@, input@));
                    }
                    return rows;
                },
                None => {},
            },
            None => {},
        }
        match &self.overlay {
            Some(o) => self.overlay_rows(o, output),
            None => {
                let mut rows = self.run_rows();
                let composer = render_composer(
                    &self.composer,
                    &self.queued_prompts,
                    self.attachments.len(),
                    &self.titles.session_name,
                    self.cols,
                );
                add_rows(&mut rows, composer);
                rows
            },
        }
    }

    fn last_row(&self) -> (r: String)
        ensures
            r@ == self@.last_row(),
    {
        match self.status_line.custom_status_row(self.cols) {
            Some(row) => {
                if row.as_str().unicode_len() > 0 {
                    return row;
                }
            },
            None => {},
        }
        let detail = match &self.feed.running_detail {
            Some(d) => Some(d.as_str()),
            None => None,
        };
        let bar = render_status_bar(
            &StatusBarProps {
                active_skills: &self.active_skills,
                cwd: self.bootstrap.cwd.as_str(),
                running: self.running,
                running_detail: detail,
                session_id: self.session.id.as_str(),
                monitors: self.jobs.counts.0,
                shells: self.jobs.counts.1,
            },
        );
        assert(text::texts(bar@)[0] == self@.default_row());
        assert(text::texts(bar@).len() == 1);
        bar[0].clone()
    }

    /// The live region: a margin, what the moment asks for, and the status row.
    /// Rows never wrap, and a terminal shorter than the region loses rows above
    /// the status row, never the status row itself.
    pub fn live_region(&self, output: &str) -> (r: Vec<String>)
        requires
            self@.wf(),
        ensures
            text::texts(r@) == self@.live_rows_at(output@),
            1 <= r@.len() <= at_least_one(self@.rows as nat),
    {
        proof {
            law_the_region_fits_the_screen(self@, output@, 0);
        }
        let mut rows: Vec<String> = Vec::new();
        rows.push(String::new());
        assert(text::texts(rows@) =~= seq![Seq::<char>::empty()]);
        add_rows(&mut rows, self.middle_rows(output));
        push_row(&mut rows, self.last_row());
        assert(text::texts(rows@) == self@.all_rows(output@));
        let width: usize = if self.cols == 0 {
            1
        } else {
            self.cols
        };
        let height: usize = if self.rows == 0 {
            1
        } else {
            self.rows
        };
        let clipped = clip_rows(&rows, width);
        assert(text::texts(clipped@).len() >= 1);
        fit_rows(clipped, height)
    }
}

// ---------------------------------------------------------------------------
// The background chip
// ---------------------------------------------------------------------------

/// Whether column `col`, counted from one, lies on the first place where
/// `counts` stands in a row.
pub open spec fn on_text(plain: Seq<char>, counts: Seq<char>, col: int) -> bool {
    exists|i: int|
        #[trigger] text::occurs_at(plain, counts, i) && (forall|j: int|
            0 <= j < i ==> !text::occurs_at(plain, counts, j)) && ansi::text_width(plain.take(i))
            < col <= ansi::text_width(plain.take(i)) + ansi::text_width(counts)
}

impl AppModel {
    /// Whether a cell of the screen, counted from one, lies on the background
    /// counter as it is drawn. The region is the bottom of the screen.
    pub open spec fn chip_at(self, col: int, row: int, output: Seq<char>) -> bool {
        let live = self.live_rows_at(output);
        let from_bottom = if row <= self.rows {
            self.rows - row
        } else {
            0
        };
        let index = live.len() - from_bottom - 1;
        match jobs::counter(self.jobs.counts.0, self.jobs.counts.1) {
            Some(counts) => 0 <= index && on_text(ansi::visible(live[index]), counts, col),
            None => false,
        }
    }
}

fn lies_on(plain: &str, counts: &str, col: usize) -> (r: bool)
    ensures
        r == on_text(plain@, counts@, col as int),
{
    let x = chars_of(plain);
    let p = chars_of(counts);
    match find_from(&x, &p, 0) {
        Some(at) => {
            assert(text::occurs_at(plain@, counts@, at as int));
            let head = sub_string(&x, 0, at);
            assert(head@ =~= plain@.take(at as int));
            let before: usize = string_width(head.as_str());
            let wide: usize = string_width(counts);
            let r = col > before && col - before <= wide;
            proof {
                if on_text(plain@, counts@, col as int) {
                    let i = choose|i: int|
                        #[trigger] text::occurs_at(plain@, counts@, i) && (forall|j: int|
                            0 <= j < i ==> !text::occurs_at(plain@, counts@, j))
                            && ansi::text_width(plain@.take(i)) < col <= ansi::text_width(
                            plain@.take(i),
                        ) + ansi::text_width(counts@);
                    assert(i == at);
                }
            }
            r
        },
        None => {
            proof {
                if on_text(plain@, counts@, col as int) {
                    let i = choose|i: int|
                        #[trigger] text::occurs_at(plain@, counts@, i) && (forall|j: int|
                            0 <= j < i ==> !text::occurs_at(plain@, counts@, j))
                            && ansi::text_width(plain@.take(i)) < col <= ansi::text_width(
                            plain@.take(i),
                        ) + ansi::text_width(counts@);
                    assert(0 <= i);
                }
            }
            false
        },
    }
}

impl TuiApp {
    /// Whether the cell `(col, row)` of the screen lies on the background
    /// counter that the status bar drew.
    pub fn background_chip_at(&self, col: usize, row: usize, output: &str) -> (r: bool)
        requires
            self@.wf(),
        ensures
            r == self@.chip_at(col as int, row as int, output@),
    {
        let counts = match background_counter(self.jobs.counts.0, self.jobs.counts.1) {
            Some(counts) => counts,
            None => {
                return false;
            },
        };
        let live = self.live_region(output);
        let n: usize = live.len();
        assert(n == text::texts(live@).len());
        let from_bottom: usize = if row <= self.rows {
            self.rows - row
        } else {
            0
        };
        if from_bottom >= n {
            return false;
        }
        let index: usize = n - from_bottom - 1;
        assert(text::texts(live@)[index as int] == live@[index as int]@);
        let plain = strip_ansi(live[index].as_str());
        lies_on(plain.as_str(), counts.as_str(), col)
    }
}

// ---------------------------------------------------------------------------
// Frames
// ---------------------------------------------------------------------------

/// Rows, each ended by a line feed.
pub open spec fn ended_rows(rows: Seq<Seq<char>>) -> Seq<char>
    decreases rows.len(),
{
    if rows.len() == 0 {
        Seq::empty()
    } else {
        ended_rows(rows.drop_last()) + rows.last() + "\n"@
    }
}

/// What moves the cursor to the first of `n` rows whose last it stands on.
pub open spec fn climb(n: int) -> Seq<char> {
    if n > 1 {
        "\u{1b}["@ + text::decimal((n - 1) as nat) + "A"@
    } else {
        Seq::empty()
    }
}

/// A frame: the region drawn last is erased, what settles is printed in its
/// place, and the region follows.
pub open spec fn frame_text(drawn: int, settled: Seq<char>, live: Seq<Seq<char>>) -> Seq<char> {
    SYNC_UPDATE_START@ + "\r"@ + climb(drawn) + CLEAR_TO_END@ + settled + text::joined(live, "\n"@)
        + SYNC_UPDATE_END@
}

impl AppModel {
    /// After a frame: what waited above the region is printed.
    pub open spec fn painted(self, output: Seq<char>) -> AppModel {
        AppModel {
            live_rows: self.live_rows_at(output).len() as usize,
            feed: feed::FeedModel { above: Seq::empty(), ..self.feed },
            ..self
        }
    }

    /// The frame.
    pub open spec fn frame(self, output: Seq<char>) -> Seq<char> {
        frame_text(self.live_rows as int, ended_rows(self.feed.above), self.live_rows_at(output))
    }

    /// The frame that draws a cleared screen again: the newest entries that fit
    /// above the region.
    pub open spec fn full_frame(self, output: Seq<char>) -> Seq<char> {
        frame_text(
            0,
            ended_rows(self.feed.above) + CLEAR_VISIBLE_SCREEN@ + ended_rows(
                feed::tail_of(
                    self.feed.compact.projection.cells,
                    self.rows as nat,
                    self.cols as nat,
                ),
            ),
            self.live_rows_at(output),
        )
    }
}

fn end_rows(rows: &Vec<String>) -> (r: String)
    ensures
        r@ == ended_rows(text::texts(rows@)),
{
    let ghost all = text::texts(rows@);
    let mut out = String::new();
    let mut i: usize = 0;
    assert(out@ == ended_rows(all.take(0)));
    while i < rows.len()
        invariant
            i <= rows.len(),
            all == text::texts(rows@),
            out@ == ended_rows(all.take(i as int)),
        decreases rows.len() - i,
    {
        out.append(rows[i].as_str());
        out.append("\n");
        assert(all.take(i + 1).drop_last() =~= all.take(i as int));
        i = i + 1;
    }
    assert(all.take(i as int) =~= all);
    out
}

fn build_frame(drawn: usize, settled: &str, live: &Vec<String>) -> (r: String)
    ensures
        r@ == frame_text(drawn as int, settled@, text::texts(live@)),
{
    let mut frame = concat2(SYNC_UPDATE_START, "\r");
    if drawn > 1 {
        let n = format_decimal((drawn - 1) as u64);
        let up = concat3("\u{1b}[", n.as_str(), "A");
        frame.append(up.as_str());
    } else {
        assert(frame@ =~= frame@ + climb(drawn as int));
    }
    frame.append(CLEAR_TO_END);
    frame.append(settled);
    let region = join_texts(live, "\n");
    frame.append(region.as_str());
    frame.append(SYNC_UPDATE_END);
    frame
}

impl TuiApp {
    /// The next frame. `output` is the tail of the log of the job that is shown
    /// in detail.
    pub fn paint(&mut self, output: &str) -> (r: String)
        requires
            old(self)@.wf(),
        ensures
            r@ == old(self)@.frame(output@),
            final(self)@ == old(self)@.painted(output@),
            final(self)@.wf(),
    {
        let live = self.live_region(output);
        let settled = end_rows(&self.feed.above);
        let frame = build_frame(self.live_rows, settled.as_str(), &live);
        assert(live@.len() == self@.live_rows_at(output@).len());
        self.live_rows = live.len();
        self.feed.above = Vec::new();
        assert(self@.feed.above =~= Seq::empty());
        assert(self@ =~= old(self)@.painted(output@));
        frame
    }

    /// The frame that draws everything anew, after the screen changed.
    pub fn full_repaint(&mut self, output: &str) -> (r: String)
        requires
            old(self)@.wf(),
        ensures
            r@ == old(self)@.full_frame(output@),
            final(self)@ == old(self)@.painted(output@),
            final(self)@.wf(),
    {
        let live = self.live_region(output);
        let mut settled = end_rows(&self.feed.above);
        settled.append(CLEAR_VISIBLE_SCREEN);
        let tail = self.feed.tail_rows(self.rows, self.cols);
        let ended = end_rows(&tail);
        settled.append(ended.as_str());
        let frame = build_frame(0, settled.as_str(), &live);
        assert(live@.len() == self@.live_rows_at(output@).len());
        self.live_rows = live.len();
        self.feed.above = Vec::new();
        assert(self@.feed.above =~= Seq::empty());
        assert(self@ =~= old(self)@.painted(output@));
        frame
    }
}

// ---------------------------------------------------------------------------
// Laws
// ---------------------------------------------------------------------------

/// The region is never taller than the screen, no row of it is wider, and the
/// status row is always there, at its end.
pub proof fn law_the_region_fits_the_screen(app: AppModel, output: Seq<char>, i: int)
    ensures
        1 <= app.live_rows_at(output).len() <= at_least_one(app.rows as nat),
        0 <= i < app.live_rows_at(output).len() ==> ansi::text_width(app.live_rows_at(output)[i])
            <= at_least_one(app.cols as nat),
        app.live_rows_at(output).last() == ansi::clipped(
            app.last_row(),
            at_least_one(app.cols as nat),
        ),
{
    let width = at_least_one(app.cols as nat);
    let all = app.all_rows(output);
    let cut = clipped_rows(all, width);
    let live = app.live_rows_at(output);
    assert(cut.last() == ansi::clipped(all.last(), width));
    if 0 <= i < live.len() {
        let k = if i < live.len() - 1 {
            i
        } else {
            cut.len() - 1
        };
        assert(live[i] == cut[k]);
        ansi::law_clipped_fits(all[k], width);
    }
}

/// Drawing the same state twice draws the same region, and prints what settled
/// only once.
pub proof fn law_settled_rows_are_printed_once(app: AppModel, output: Seq<char>)
    ensures
        app.painted(output).live_rows_at(output) == app.live_rows_at(output),
        app.painted(output).feed.above.len() == 0,
        app.painted(output).painted(output) == app.painted(output),
{
    assert(app.painted(output).live_rows_at(output) == app.live_rows_at(output));
    assert(app.painted(output).painted(output) =~= app.painted(output));
}

/// A frame is drawn in one piece: the rows drawn last are climbed and erased,
/// what settles is printed in their place, and the region follows, its rows
/// parted by line feeds.
pub proof fn law_a_frame_replaces_the_one_before(
    drawn: int,
    settled: Seq<char>,
    live: Seq<Seq<char>>,
)
    ensures
        drawn > 1 ==> frame_text(drawn, settled, live) == "\u{1b}[?2026h"@ + "\r"@ + ("\u{1b}["@
            + text::decimal((drawn - 1) as nat) + "A"@) + "\u{1b}[J"@ + settled + text::joined(
            live,
            "\n"@,
        ) + "\u{1b}[?2026l"@,
        drawn <= 1 ==> frame_text(drawn, settled, live) == "\u{1b}[?2026h"@ + "\r"@ + "\u{1b}[J"@
            + settled + text::joined(live, "\n"@) + "\u{1b}[?2026l"@,
{
    let head = "\u{1b}[?2026h"@ + "\r"@;
    assert(head + Seq::<char>::empty() =~= head);
}

/// Rows that settle are printed one after the other, each with its line feed.
pub proof fn law_settled_rows_are_printed_in_order(rows: Seq<Seq<char>>, row: Seq<char>)
    ensures
        ended_rows(rows.push(row)) == ended_rows(rows) + row + "\n"@,
        ended_rows(Seq::empty()) == Seq::<char>::empty(),
{
    assert(rows.push(row).drop_last() =~= rows);
}

/// What a frame shows: what waited above the region, then the region, over as
/// many rows as were drawn last. After it nothing waits, and the rows that were
/// drawn are remembered.
pub proof fn law_a_frame_shows_what_waited(app: AppModel, output: Seq<char>)
    ensures
        app.frame(output) == frame_text(
            app.live_rows as int,
            ended_rows(app.feed.above),
            app.live_rows_at(output),
        ),
        app.live_rows_at(output).len() <= usize::MAX ==> app.painted(output).live_rows
            == app.live_rows_at(output).len(),
        app.painted(output).feed.cells == app.feed.cells,
        app.painted(output).feed.pending == app.feed.pending,
        app.painted(output).composer == app.composer,
        app.painted(output).effects == app.effects,
        app.full_frame(output) == frame_text(
            0,
            ended_rows(app.feed.above) + "\u{1b}[2J\u{1b}[H"@ + ended_rows(
                feed::tail_of(
                    app.feed.compact.projection.cells,
                    app.rows as nat,
                    app.cols as nat,
                ),
            ),
            app.live_rows_at(output),
        ),
{
}

/// The region begins with an empty row and ends with the status row. Between
/// them stands the free text of a survey, or an open picker, or what a live run
/// shows and the composer.
pub proof fn law_the_region_shows_what_takes_the_keys(app: AppModel, output: Seq<char>)
    ensures
        app.all_rows(output) == seq![Seq::<char>::empty()] + app.middle_rows(output) + seq![
            app.last_row(),
        ],
        app.takes_other() ==> app.middle_rows(output) == free_text_rows(
            app.survey->0,
            app.survey->0.other_input->0,
        ),
        !app.takes_other() && app.overlay is Some ==> app.middle_rows(output) == app.overlay_rows(
            app.overlay->0,
            output,
        ),
        !app.takes_other() && app.overlay is None ==> app.middle_rows(output) == app.run_rows()
            + frames::composer_frame(
            app.composer,
            app.queued,
            app.attachments.len(),
            app.titles.session_name,
            app.cols as nat,
        ),
{
    assert(app.all_rows(output) =~= seq![Seq::<char>::empty()] + app.middle_rows(output) + seq![
        app.last_row(),
    ]);
}

/// The configured row is shown where it says something, and else the default
/// one.
pub proof fn law_the_configured_row_is_shown_where_it_says_something(app: AppModel)
    ensures
        app.custom_row() is Some && app.custom_row()->0.len() > 0 ==> app.last_row()
            == app.custom_row()->0,
        app.custom_row() is None || app.custom_row()->0.len() == 0 ==> app.last_row()
            == app.default_row(),
{
}

/// A region that is too tall keeps its first rows and its last one.
pub proof fn law_a_tall_region_keeps_its_status_row(rows: Seq<Seq<char>>, max: nat)
    requires
        max > 0,
    ensures
        rows.len() <= max ==> fitted(rows, max) == rows,
        rows.len() > max ==> fitted(rows, max).len() == max && fitted(rows, max).last()
            == rows.last() && fitted(rows, max).drop_last() == rows.take(max - 1),
{
    if rows.len() > max {
        assert(fitted(rows, max).drop_last() =~= rows.take(max - 1));
    }
}

/// What a live run shows above the composer ends with how long it has worked,
/// behind the spinner; an idle session shows nothing there.
pub proof fn law_a_live_run_shows_its_work(app: AppModel, started: u64)
    ensures
        !app.running ==> app.run_rows().len() == 0,
        app.running && app.run_started_at == Some(started) && started <= app.now ==> {
            let rows = app.feed.activity.rows(app.feed.compact.projection.open, app.cols as nat);
            let worked = (app.now - started) as nat;
            &&& app.run_rows().last() == frames::working_line(
                pane_title::SPINNER_FRAMES@[(worked as int / 100) % 10]@,
                worked,
            )
            &&& rows.len() > 0 ==> app.run_rows() == rows + seq![
                Seq::<char>::empty(),
                app.run_rows().last(),
            ]
            &&& rows.len() == 0 ==> app.run_rows() == seq![app.run_rows().last()]
        },
{
    if app.running && app.run_started_at == Some(started) && started <= app.now {
        let rows = app.feed.activity.rows(app.feed.compact.projection.open, app.cols as nat);
        if rows.len() > 0 {
            assert(app.run_rows() =~= rows + seq![Seq::<char>::empty(), app.run_rows().last()]);
        } else {
            assert(app.run_rows() =~= seq![app.run_rows().last()]);
        }
    }
}

/// The free text of a survey is shown as it is typed, under its question.
pub proof fn law_free_text_is_shown_as_it_is_typed(s: SurveyModel, input: Seq<char>)
    requires
        s.asks(),
    ensures
        free_text_rows(s, input).len() == 3,
        free_text_rows(s, input)[0] == "Type something — "@ + s.questions[s.current].question,
        free_text_rows(s, input)[1] == "> "@ + input + "▏"@,
{
}

/// A picker is shown by its kind: a question as a survey, the skills with what
/// is on, the jobs as a list or one of them in detail, and any other as a list.
pub proof fn law_a_picker_is_shown_by_its_kind(app: AppModel, o: OverlayModel, output: Seq<char>)
    ensures
        o.kind == OverlayKind::Question && app.survey is Some && app.survey->0.asks()
            ==> app.overlay_rows(o, output) == frames::survey_frame(
            app.survey->0.questions[app.survey->0.current],
            o.items,
            app.survey->0.picks,
            o.selected,
            app.survey->0.current + 1,
            app.survey->0.questions.len() as int,
        ),
        o.kind == OverlayKind::Skills ==> app.overlay_rows(o, output) == frames::skill_frame(
            o.filter,
            skills::visible_rows(app.skill_rows, o.filter),
            skills::active_names(app.active),
            o.selected,
            app.skill_rows.len(),
        ),
        o.kind == OverlayKind::Jobs && app.jobs.detail is None ==> app.overlay_rows(o, output)
            == widgets::framed(
            jobs::list_rows(app.jobs.rows, app.jobs.ages, o.selected),
            app.cols as nat,
            Seq::empty(),
        ),
        o.kind == OverlayKind::Jobs && app.jobs.detail is Some ==> ({
            let i = app.jobs.detail->0;
            let shown = jobs::detail_rows(
                app.jobs.rows[i],
                jobs::runtime_at(app.jobs.ages, i),
                output,
            );
            &&& app.jobs.rows[i].tool_name@ == "MONITOR"@ ==> app.overlay_rows(o, output)
                == widgets::framed(shown, app.cols as nat, "Monitor details"@)
            &&& app.jobs.rows[i].tool_name@ != "MONITOR"@ ==> app.overlay_rows(o, output)
                == widgets::framed(shown, app.cols as nat, "Shell details"@)
        }),
        o.kind == OverlayKind::Model || o.kind == OverlayKind::ToolModel || o.kind
            == OverlayKind::Prompt || o.kind == OverlayKind::Sessions ==> app.overlay_rows(
            o,
            output,
        ) == frames::picker_frame(o.title, o.items, o.selected),
{
}

/// A cell lies on the background counter exactly where the counter stands in
/// the row that is drawn there, rows counted from the bottom of the screen.
/// Where nothing runs there is no counter to click.
pub proof fn law_the_counter_is_clicked_where_it_stands(
    app: AppModel,
    col: int,
    row: int,
    output: Seq<char>,
)
    requires
        1 <= row <= app.rows,
    ensures
        ({
            let live = app.live_rows_at(output);
            let index = live.len() - (app.rows - row) - 1;
            let counts = jobs::counter(app.jobs.counts.0, app.jobs.counts.1);
            &&& counts is None ==> !app.chip_at(col, row, output)
            &&& index < 0 ==> !app.chip_at(col, row, output)
            &&& counts is Some && index >= 0 ==> (app.chip_at(col, row, output) <==> on_text(
                ansi::visible(live[index]),
                counts->0,
                col,
            ))
        }),
{
}

/// A column lies on a text in a row exactly where the text stands there, behind
/// the columns of what is before it.
pub proof fn law_a_column_lies_on_the_text_that_stands_there(
    before: Seq<char>,
    counts: Seq<char>,
    after: Seq<char>,
    col: int,
)
    requires
        forall|j: int|
            0 <= j < before.len() ==> !text::occurs_at(before + counts + after, counts, j),
    ensures
        on_text(before + counts + after, counts, col) <==> ansi::text_width(before) < col
            <= ansi::text_width(before) + ansi::text_width(counts),
{
    let s = before + counts + after;
    let n = before.len() as int;
    text::law_a_text_stands_between_what_is_around_it(before, counts, after, s);
    assert(s.take(n) =~= before);
    assert(text::occurs_at(s, counts, n));
    if on_text(s, counts, col) {
        let i = choose|i: int|
            #[trigger] text::occurs_at(s, counts, i) && (forall|j: int|
                0 <= j < i ==> !text::occurs_at(s, counts, j)) && ansi::text_width(s.take(i)) < col
                <= ansi::text_width(s.take(i)) + ansi::text_width(counts);
        if i < n {
            assert(!text::occurs_at(s, counts, i));
        }
        if n < i {
            assert(!text::occurs_at(s, counts, n));
        }
    }
}

/// Every row of the region is cut to the width of the terminal and nothing
/// else, and the region is that of its state.
pub proof fn law_the_region_is_cut_to_the_screen(app: AppModel, output: Seq<char>, i: int)
    requires
        app.cols > 0,
        app.rows > 0,
        app.all_rows(output).len() <= app.rows,
        0 <= i < app.all_rows(output).len(),
    ensures
        app.live_rows_at(output).len() == app.all_rows(output).len(),
        app.live_rows_at(output)[i] == ansi::clipped(app.all_rows(output)[i], app.cols as nat),
{
}

/// The default status row tells the session at hand: its id, what runs in the
/// background, the state of its run, the skills that are on and its directory.
pub proof fn law_the_default_row_tells_the_session(app: AppModel)
    ensures
        app.default_row() == frames::status_bar(
            app.session.id@,
            jobs::counter(app.jobs.counts.0, app.jobs.counts.1),
            frames::run_state(app.running, app.feed.running_detail),
            skills::active_names(app.active),
            app.bootstrap.cwd@,
        ),
{
}

} // verus!
