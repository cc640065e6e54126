//! The job browser in the session: opening it, its keys, and what a click does.

use vstd::prelude::*;
use crate::text::{parse_number, same, trim};
use crate::text;
use crate::tools::types::ChatAsyncToolJob;
use crate::tui::app::effects::{Effect, EffectModel};
use crate::tui::app::input::{Key, KeyModel, MouseEvent};
use crate::tui::app::job_browser;
use crate::tui::app::overlay::{Overlay, OverlayKind, OverlayModel};
use crate::tui::app::state::{AppModel, TuiApp};

verus! {

/// The row that `/jobs` names; rows count from one.
pub open spec fn named_row(args: Seq<char>) -> Option<usize> {
    match text::number(text::trimmed(args)) {
        Some(n) => if n >= 1 {
            Some((n - 1) as usize)
        } else {
            None
        },
        None => None,
    }
}

impl AppModel {
    /// The jobs that run now.
    pub open spec fn jobs_read(
        self,
        rows: Seq<ChatAsyncToolJob>,
        ages: Seq<Option<i64>>,
    ) -> AppModel {
        AppModel { jobs: self.jobs.refreshed(rows, ages, self.now), ..self }
    }

    /// The jobs that were read, with how long each has run by now.
    pub open spec fn jobs_aged(self, ages: Seq<Option<i64>>) -> AppModel {
        AppModel { jobs: self.jobs.aged(ages), ..self }
    }

    /// One of them in detail; a job that is gone is not shown.
    pub open spec fn job_inspected(
        self,
        index: int,
        rows: Seq<ChatAsyncToolJob>,
        ages: Seq<Option<i64>>,
    ) -> AppModel {
        let read = self.jobs_read(rows, ages);
        if index < rows.len() {
            AppModel { jobs: read.jobs.inspected(index), ..read }
        } else {
            read.info("that background job is no longer running"@)
        }
    }

    /// The browser over the jobs that run now.
    pub open spec fn jobs_listed(
        self,
        rows: Seq<ChatAsyncToolJob>,
        ages: Seq<Option<i64>>,
    ) -> AppModel {
        let read = self.jobs_read(rows, ages);
        AppModel {
            jobs: read.jobs.listed(),
            overlay: Some(
                OverlayModel::opened(
                    OverlayKind::Jobs,
                    "Background jobs"@,
                    job_browser::job_items_of(rows, ages),
                ),
            ),
            ..read
        }
    }

    /// The browser, on a row of it where there is one.
    pub open spec fn jobs_opened(
        self,
        row: Option<usize>,
        rows: Seq<ChatAsyncToolJob>,
        ages: Seq<Option<i64>>,
    ) -> AppModel {
        let listed = self.jobs_listed(rows, ages);
        match row {
            Some(i) => if i < rows.len() {
                listed.job_inspected(i as int, rows, ages)
            } else {
                listed
            },
            None => listed,
        }
    }

    /// The list instead of a job in detail.
    pub open spec fn detail_left(self) -> AppModel {
        AppModel { jobs: self.jobs.listed(), ..self }
    }

    /// Enter or space: the highlighted job opens, and an open one closes the
    /// browser.
    pub open spec fn job_entered(self, o: OverlayModel) -> AppModel {
        if self.jobs.detail is Some {
            AppModel { overlay: None, ..self.detail_left() }
        } else {
            self.with(EffectModel::OpenJobDetail(o.selected as usize))
        }
    }

    /// A key in the browser `o`.
    pub open spec fn jobs_key(self, o: OverlayModel, key: KeyModel) -> AppModel {
        match key {
            KeyModel::Escape => if self.jobs.detail is Some {
                self.detail_left()
            } else {
                AppModel { overlay: None, ..self }
            },
            KeyModel::Left => self.detail_left(),
            KeyModel::Return => self.job_entered(o),
            KeyModel::Text(s) => if s == " "@ {
                self.job_entered(o)
            } else {
                self
            },
            KeyModel::Up => AppModel { overlay: Some(o.moved_up()), ..self.detail_left() },
            KeyModel::Down | KeyModel::Tab => AppModel {
                overlay: Some(o.moved_down()),
                ..self.detail_left()
            },
            KeyModel::Ctrl(c) => if c == 'c' {
                self.ended()
            } else {
                self
            },
            _ => self,
        }
    }

    /// The browser is asked for.
    pub open spec fn jobs_asked(self, row: Option<usize>) -> AppModel {
        self.with(EffectModel::OpenJobs(row))
    }

    /// A mouse report: a click on the background counter asks for the browser,
    /// and nothing else does anything.
    pub open spec fn moused(self, event: MouseEvent, output: Seq<char>) -> AppModel {
        match event {
            MouseEvent::Click { col, row } => if self.chip_at(col as int, row as int, output) {
                self.jobs_asked(None)
            } else {
                self
            },
            _ => self,
        }
    }
}

impl TuiApp {
    /// Takes in the jobs that run now. Says whether the counts changed.
    pub fn refresh_jobs(&mut self, rows: Vec<ChatAsyncToolJob>, ages: Vec<Option<i64>>) -> (r: bool)
        requires
            old(self)@.wf(),
        ensures
            final(self)@ == old(self)@.jobs_read(rows@, ages@),
            r == (job_browser::counts_of(rows@) != old(self)@.jobs.counts),
            final(self)@.wf(),
    {
        self.jobs.refresh_jobs(rows, ages, self.now)
    }

    /// Takes in how long the jobs have run by now, so that their clocks count on
    /// between two readings.
    pub fn age_jobs(&mut self, ages: Vec<Option<i64>>)
        requires
            old(self)@.wf(),
        ensures
            final(self)@ == old(self)@.jobs_aged(ages@),
            final(self)@.wf(),
    {
        self.jobs.set_ages(ages);
    }

    /// Shows a job in detail, where it still runs.
    pub fn open_job_detail(
        &mut self,
        index: usize,
        rows: Vec<ChatAsyncToolJob>,
        ages: Vec<Option<i64>>,
    )
        requires
            old(self)@.wf(),
        ensures
            final(self)@ == old(self)@.job_inspected(index as int, rows@, ages@),
            final(self)@.wf(),
    {
        let _ = self.refresh_jobs(rows, ages);
        if index < self.jobs.rows.len() {
            let _ = self.jobs.show_detail(index);
        } else {
            self.push_info("that background job is no longer running");
        }
    }

    /// Opens the browser over the jobs that run now, on a row of it where there
    /// is one.
    pub fn open_jobs(
        &mut self,
        row: Option<usize>,
        rows: Vec<ChatAsyncToolJob>,
        ages: Vec<Option<i64>>,
    )
        requires
            old(self)@.wf(),
        ensures
            final(self)@ == old(self)@.jobs_opened(row, rows@, ages@),
            final(self)@.wf(),
    {
        let _ = self.refresh_jobs(rows, ages);
        self.jobs.show_list();
        let items = self.jobs.job_items();
        self.overlay = Some(
            Overlay::open(OverlayKind::Jobs, "Background jobs".to_string(), items),
        );
        assert(self@ =~= old(self)@.jobs_listed(rows@, ages@));
        match row {
            Some(i) => {
                if i < self.jobs.rows.len() {
                    let _ = self.jobs.show_detail(i);
                    assert(self@ =~= old(self)@.jobs_opened(row, rows@, ages@));
                }
            },
            None => {},
        }
    }

    /// `/jobs`: asks for the browser, and for a row of it where one is named.
    pub fn jobs_command(&mut self, args: &str)
        requires
            old(self)@.wf(),
        ensures
            final(self)@ == old(self)@.jobs_asked(named_row(args@)),
            final(self)@.wf(),
    {
        let row = match parse_number(trim(args).as_str()) {
            Some(n) => if n >= 1 {
                Some(n - 1)
            } else {
                None
            },
            None => None,
        };
        self.emit(Effect::OpenJobs { row });
    }

    fn enter_job(&mut self, selected: usize)
        requires
            old(self)@.wf(),
            old(self)@.overlay is Some,
            old(self)@.overlay->0.selected == selected,
        ensures
            final(self)@ == old(self)@.job_entered(old(self)@.overlay->0),
            final(self)@.wf(),
    {
        if self.jobs.detail.is_some() {
            self.overlay = None;
            self.jobs.show_list();
        } else {
            self.emit(Effect::OpenJobDetail(selected));
        }
    }

    /// A key while the browser is open. Says whether it was, and then the key
    /// is spent.
    pub fn on_jobs_key(&mut self, key: &Key) -> (r: bool)
        requires
            old(self)@.wf(),
        ensures
            r == (old(self)@.overlay is Some && old(self)@.overlay->0.kind == OverlayKind::Jobs),
            final(self)@ == (if r {
                old(self)@.jobs_key(old(self)@.overlay->0, key@)
            } else {
                old(self)@
            }),
            final(self)@.wf(),
    {
        let selected: usize = match &self.overlay {
            Some(o) => match o.kind {
                OverlayKind::Jobs => o.selected,
                _ => {
                    return false;
                },
            },
            None => {
                return false;
            },
        };
        match key {
            Key::Escape => {
                if self.jobs.detail.is_some() {
                    self.jobs.show_list();
                } else {
                    self.overlay = None;
                }
            },
            Key::Left => {
                self.jobs.show_list();
            },
            Key::Return => {
                self.enter_job(selected);
            },
            Key::Text(s) => {
                if same(s.as_str(), " ") {
                    self.enter_job(selected);
                }
            },
            Key::Up => {
                match &mut self.overlay {
                    Some(o) => {
                        o.move_up();
                    },
                    None => {},
                }
                self.jobs.show_list();
            },
            Key::Down | Key::Tab => {
                match &mut self.overlay {
                    Some(o) => {
                        o.move_down();
                    },
                    None => {},
                }
                self.jobs.show_list();
            },
            Key::Ctrl(c) => {
                if *c == 'c' {
                    self.quit = true;
                }
            },
            _ => {},
        }
        true
    }

    /// A mouse report. `output` is the tail of the log of the job that is shown
    /// in detail.
    pub fn on_mouse(&mut self, event: MouseEvent, output: &str)
        requires
            old(self)@.wf(),
        ensures
            final(self)@ == old(self)@.moused(event, output@),
            final(self)@.wf(),
    {
        match event {
            MouseEvent::Click { col, row } => {
                if self.background_chip_at(col, row, output) {
                    self.emit(Effect::OpenJobs { row: None });
                }
            },
            _ => {},
        }
    }
}

// ---------------------------------------------------------------------------
// Laws
// ---------------------------------------------------------------------------

/// Escape leads out one level at a time: from a job to the list, and from the
/// list out of the browser.
pub proof fn law_escape_steps_out_one_level(app: AppModel)
    requires
        app.overlay is Some,
        app.jobs.detail is Some,
    ensures
        ({
            let once = app.jobs_key(app.overlay->0, KeyModel::Escape);
            let twice = once.jobs_key(app.overlay->0, KeyModel::Escape);
            &&& once.overlay == app.overlay
            &&& once.jobs.detail is None
            &&& twice.overlay is None
        }),
{
}

/// A job that is gone is never shown as running.
pub proof fn law_a_gone_job_is_not_shown(
    app: AppModel,
    index: int,
    rows: Seq<ChatAsyncToolJob>,
    ages: Seq<Option<i64>>,
)
    requires
        app.wf(),
        0 <= index,
    ensures
        app.job_inspected(index, rows, ages).jobs.wf(),
        app.job_inspected(index, rows, ages).jobs.rows == rows,
        index < rows.len() ==> app.job_inspected(index, rows, ages).jobs.detail == Some(index),
{
}

/// A click that is not on the background counter changes nothing, and a wheel
/// never does.
pub proof fn law_other_clicks_do_nothing(app: AppModel, event: MouseEvent, output: Seq<char>)
    requires
        match event {
            MouseEvent::Click { col, row } => !app.chip_at(col as int, row as int, output),
            _ => true,
        },
    ensures
        app.moused(event, output) == app,
{
}

/// A number behind `/jobs` names a row, counted from one; anything else names
/// none.
pub proof fn law_a_number_names_its_row(n: nat)
    requires
        1 <= n <= usize::MAX,
    ensures
        named_row(text::decimal(n)) == Some((n - 1) as usize),
        named_row(Seq::empty()) is None,
        named_row(text::decimal(0)) is None,
{
    text::law_a_decimal_reads_back(n);
    text::law_a_decimal_reads_back(0);
    let d = text::decimal(n);
    lemma_untrimmed(d);
    lemma_untrimmed(text::decimal(0));
    assert(text::number(Seq::empty()) is None) by {
        assert(text::unsigned(Seq::empty()) =~= Seq::empty());
    }
    assert(text::trimmed(Seq::empty()) =~= Seq::empty());
}

proof fn lemma_untrimmed(d: Seq<char>)
    requires
        d.len() > 0,
        forall|i: int| 0 <= i < d.len() ==> '0' <= #[trigger] d[i] <= '9',
    ensures
        text::trimmed(d) == d,
{
    assert('0' <= d[0] <= '9');
    assert('0' <= d[d.len() - 1] <= '9');
    assert(d =~= Seq::<char>::empty() + d + Seq::<char>::empty());
    text::law_trimming_gives_the_middle(Seq::empty(), d, Seq::empty());
}

/// The browser opens over the jobs that run, one row for each; on a row that
/// was named its job is shown, and a row that is not there is passed over.
pub proof fn law_the_browser_lists_the_running_jobs(
    app: AppModel,
    row: Option<usize>,
    rows: Seq<ChatAsyncToolJob>,
    ages: Seq<Option<i64>>,
)
    ensures
        ({
            let next = app.jobs_opened(row, rows, ages);
            &&& next.overlay is Some
            &&& next.overlay->0.kind == OverlayKind::Jobs
            &&& next.overlay->0.selected == 0
            &&& next.overlay->0.items == job_browser::job_items_of(rows, ages)
            &&& next.jobs.rows == rows
            &&& row is None || row->0 >= rows.len() ==> next.jobs.detail is None
            &&& row is Some && row->0 < rows.len() ==> next.jobs.detail == Some(row->0 as int)
            &&& next.effects == app.effects
        }),
        app.jobs_asked(row).effects == app.effects.push(EffectModel::OpenJobs(row)),
{
}

/// The keys of the browser: enter and space open the selected job, and close
/// the browser where one is open; the arrows move and leave the detail; left
/// leaves it too.
pub proof fn law_the_browsers_keys_do_what_they_say(app: AppModel, o: OverlayModel)
    ensures
        app.jobs.detail is None ==> {
            &&& app.jobs_key(o, KeyModel::Return).effects == app.effects.push(
                EffectModel::OpenJobDetail(o.selected as usize),
            )
            &&& app.jobs_key(o, KeyModel::Text(" "@)) == app.jobs_key(o, KeyModel::Return)
        },
        app.jobs.detail is Some ==> {
            &&& app.jobs_key(o, KeyModel::Return).overlay is None
            &&& app.jobs_key(o, KeyModel::Return).jobs.detail is None
            &&& app.jobs_key(o, KeyModel::Text(" "@)) == app.jobs_key(o, KeyModel::Return)
        },
        app.jobs_key(o, KeyModel::Left).jobs.detail is None,
        app.jobs_key(o, KeyModel::Left).overlay == app.overlay,
        app.jobs_key(o, KeyModel::Up).overlay == Some(o.moved_up()),
        app.jobs_key(o, KeyModel::Up).jobs.detail is None,
        app.jobs_key(o, KeyModel::Down).overlay == Some(o.moved_down()),
        app.jobs_key(o, KeyModel::Down).jobs.detail is None,
        app.jobs_key(o, KeyModel::Tab).overlay == Some(o.moved_down()),
{
}

/// A click on the background counter asks for the browser, exactly as its key
/// does.
pub proof fn law_a_click_on_the_counter_opens_the_jobs(
    app: AppModel,
    col: usize,
    row: usize,
    output: Seq<char>,
)
    requires
        app.chip_at(col as int, row as int, output),
    ensures
        app.moused(MouseEvent::Click { col, row }, output) == app.jobs_asked(None),
{
}

/// Jobs that were read are shown from then on; with new ages they are the same
/// jobs.
pub proof fn law_jobs_that_were_read_are_shown(
    app: AppModel,
    rows: Seq<ChatAsyncToolJob>,
    ages: Seq<Option<i64>>,
)
    ensures
        app.jobs_read(rows, ages).jobs == app.jobs.refreshed(rows, ages, app.now),
        app.jobs_aged(ages).jobs.rows == app.jobs.rows,
        app.jobs_aged(ages).jobs.ages == ages,
        app.jobs_aged(ages).jobs.detail == app.jobs.detail,
        app.jobs_read(rows, ages).effects == app.effects,
        app.jobs_read(rows, ages).overlay == app.overlay,
{
}

/// A job that is there is shown in detail; one that is gone is said to be.
pub proof fn law_a_job_that_is_there_is_shown(
    app: AppModel,
    index: int,
    rows: Seq<ChatAsyncToolJob>,
    ages: Seq<Option<i64>>,
)
    requires
        0 <= index,
    ensures
        index < rows.len() ==> app.job_inspected(index, rows, ages).jobs.detail == Some(index)
            && app.job_inspected(index, rows, ages).effects == app.effects,
        index >= rows.len() ==> app.job_inspected(index, rows, ages) == app.jobs_read(
            rows,
            ages,
        ).info("that background job is no longer running"@),
{
}

} // verus!
