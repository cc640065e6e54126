//! The clockwork of the session: its deadlines, its opening and its end.

use vstd::prelude::*;
use crate::text;
use crate::transcript;
use crate::transcript::{EntryModel, TranscriptEntry};
use crate::tui::app::activity;
use crate::tui::app::activity::later;
use crate::tui::app::effects::EffectModel;
use crate::tui::app::feed::FeedModel;
use crate::tui::app::state::{AppModel, TuiApp, TuiBootstrap};
use crate::tui::app::status_row::StatusLineRequest;
use crate::tui::pane_title::SPINNER_INTERVAL_MS;

verus! {

/// How long a resize must rest before it is drawn, in milliseconds.
pub const RESIZE_SETTLE_MS: u64 = 150;

/// The longest wait of the loop, in milliseconds.
pub const LONGEST_WAIT_MS: u64 = 300;

/// How long a live run is given at the end of the session to write its record,
/// in milliseconds.
pub const EXIT_GRACE_MS: u64 = 3_000;

/// Whether a deadline has come.
pub open spec fn is_past(deadline: Option<u64>, now: u64) -> bool {
    deadline is Some && now >= deadline->0
}

/// Whether a deadline has come.
pub fn past(deadline: Option<u64>, now: u64) -> (r: bool)
    ensures
        r == is_past(deadline, now),
{
    match deadline {
        Some(at) => now >= at,
        None => false,
    }
}

/// The shorter of a wait and the time to a deadline.
pub open spec fn wait_until(wait: int, deadline: Option<u64>, now: u64) -> int {
    match deadline {
        Some(at) => {
            let left = if at >= now {
                at - now
            } else {
                0
            };
            if left < wait {
                left
            } else {
                wait
            }
        },
        None => wait,
    }
}

fn shorten(wait: u64, deadline: Option<u64>, now: u64) -> (r: u64)
    ensures
        r == wait_until(wait as int, deadline, now),
{
    match deadline {
        Some(at) => {
            let left: u64 = if at >= now {
                at - now
            } else {
                0
            };
            if left < wait {
                left
            } else {
                wait
            }
        },
        None => wait,
    }
}

/// How much is left of the time that a live run is given at the end, after it
/// was asked to stop.
pub open spec fn grace(asked: u64, now: u64) -> int {
    let end = activity::later_time(asked, EXIT_GRACE_MS);
    if end >= now {
        end - now
    } else {
        0
    }
}

/// How much is left of the time that a live run is given at the end, in
/// milliseconds.
pub fn grace_left(asked: u64, now: u64) -> (r: u64)
    ensures
        r == grace(asked, now),
        now >= asked ==> r <= EXIT_GRACE_MS,
{
    let end: u64 = later(asked, EXIT_GRACE_MS);
    if end >= now {
        end - now
    } else {
        0
    }
}

impl AppModel {
    /// The time of the next event.
    pub open spec fn at_time(self, now: u64, stamp: Seq<char>) -> AppModel {
        AppModel { now, stamp, ..self }
    }

    /// The terminal changed its size; it is drawn once it rests.
    pub open spec fn resizing(self) -> AppModel {
        AppModel { resize_at: Some(activity::later_time(self.now, RESIZE_SETTLE_MS)), ..self }
    }

    /// The terminal rests at its new size.
    pub open spec fn resized(self, cols: usize, rows: usize) -> AppModel {
        AppModel { resize_at: None, cols, rows, ..self }
    }

    /// What waited is shown, where it is time.
    pub open spec fn flush_timed(self) -> AppModel {
        if is_past(self.feed.flush_deadline, self.now) {
            AppModel {
                feed: self.feed.flushed(self.now, self.running, self.cols as nat),
                ..self
            }
        } else {
            self
        }
    }

    /// The transient rows that waited show.
    pub open spec fn notices_settled(self) -> AppModel {
        AppModel {
            feed: FeedModel { activity: self.feed.activity.settled(self.now), ..self.feed },
            ..self
        }
    }

    /// The same, where it is time.
    pub open spec fn debounce_timed(self) -> AppModel {
        if is_past(self.feed.activity.deadline(), self.now) && self.running {
            self.notices_settled()
        } else {
            self
        }
    }

    /// The title's next frame, where it is time.
    pub open spec fn title_timed(self) -> AppModel {
        AppModel { titles: self.titles.after_tick(self.now), ..self }.shown(
            self.titles.tick_escape(self.now),
        )
    }

    /// The activity line's next frame, where it is time; none follows the end
    /// of the run.
    pub open spec fn activity_timed(self) -> AppModel {
        if is_past(self.activity_next_tick, self.now) {
            if self.running {
                AppModel {
                    activity_next_tick: Some(activity::later_time(self.now, SPINNER_INTERVAL_MS)),
                    ..self.notices_settled()
                }
            } else {
                AppModel { activity_next_tick: None, ..self }
            }
        } else {
            self
        }
    }

    /// Whatever it is time for.
    pub open spec fn timed(self) -> AppModel {
        self.flush_timed().debounce_timed().title_timed().activity_timed()
    }

    /// Whether something it is time for shows on the screen: rows that waited,
    /// transient rows, or the activity line's next frame.
    pub open spec fn timers_show(self) -> bool {
        let flushed = self.flush_timed();
        ||| is_past(self.feed.flush_deadline, self.now)
        ||| is_past(flushed.feed.activity.deadline(), self.now) && self.running
        ||| is_past(self.activity_next_tick, self.now) && self.running
    }

    /// How long the loop may wait.
    pub open spec fn wait(self) -> int {
        let a = wait_until(LONGEST_WAIT_MS as int, self.feed.flush_deadline, self.now);
        let b = wait_until(a, self.resize_at, self.now);
        let c = wait_until(b, self.status_line.next_refresh, self.now);
        let d = wait_until(c, self.jobs.next_refresh, self.now);
        let e = wait_until(d, self.titles.next_tick, self.now);
        let f = wait_until(e, self.activity_next_tick, self.now);
        wait_until(f, self.feed.activity.deadline(), self.now)
    }

    /// The session opens: its transcript is replayed, and the first goal runs.
    pub open spec fn opened(self, entries: Seq<EntryModel>) -> AppModel {
        let replayed = AppModel {
            feed: self.feed.emitted(entries, self.now, self.running, self.cols as nat),
            ..self
        };
        match self.bootstrap.initial_goal {
            Some(goal) => AppModel {
                bootstrap: TuiBootstrap { initial_goal: None, ..self.bootstrap },
                ..replayed
            }.run_begun(goal@),
            None => replayed,
        }
    }

    /// The session closes: the title rests, and what waited is shown.
    pub open spec fn closed(self) -> AppModel {
        let rested = AppModel { titles: self.titles.rested(self.now), ..self }.shown(
            self.titles.rested_escape(self.now),
        );
        AppModel {
            feed: rested.feed.flushed(rested.now, rested.running, rested.cols as nat),
            ..rested
        }
    }
}

impl TuiApp {
    /// Sets the time of the next event.
    pub fn set_time(&mut self, now: u64, stamp: String)
        requires
            old(self)@.wf(),
        ensures
            final(self)@ == old(self)@.at_time(now, stamp@),
            final(self)@.wf(),
    {
        self.now = now;
        self.stamp = stamp;
    }

    /// The terminal changed its size.
    pub fn on_winch(&mut self)
        requires
            old(self)@.wf(),
        ensures
            final(self)@ == old(self)@.resizing(),
            final(self)@.wf(),
    {
        self.resize_at = Some(later(self.now, RESIZE_SETTLE_MS));
    }

    /// Whether the terminal rests at a new size.
    pub fn resize_due(&self) -> (r: bool)
        ensures
            r == is_past(self@.resize_at, self@.now),
    {
        past(self.resize_at, self.now)
    }

    /// The frame for the terminal's new size: everything is drawn anew where
    /// its width changed.
    pub fn settle_resize(&mut self, cols: usize, rows: usize, output: &str) -> (r: String)
        requires
            old(self)@.wf(),
        ensures
            final(self)@ == old(self)@.resized(cols, rows).painted(output@),
            r@ == (if cols != old(self)@.cols {
                old(self)@.resized(cols, rows).full_frame(output@)
            } else {
                old(self)@.resized(cols, rows).frame(output@)
            }),
            final(self)@.wf(),
    {
        let wider = cols != self.cols;
        self.resize_at = None;
        self.cols = cols;
        self.rows = rows;
        if wider {
            self.full_repaint(output)
        } else {
            self.paint(output)
        }
    }

    fn settle_notices(&mut self)
        requires
            old(self)@.wf(),
        ensures
            final(self)@ == old(self)@.notices_settled(),
            final(self)@.wf(),
    {
        let _ = self.feed.activity.settle_activity_notices(self.now);
    }

    fn flush_if_due(&mut self) -> (r: bool)
        requires
            old(self)@.wf(),
        ensures
            final(self)@ == old(self)@.flush_timed(),
            r == is_past(old(self)@.feed.flush_deadline, old(self)@.now),
            final(self)@.wf(),
    {
        if past(self.feed.flush_deadline, self.now) {
            self.feed.flush_pending_cells(self.now, self.running, self.cols);
            return true;
        }
        false
    }

    fn settle_if_due(&mut self) -> (r: bool)
        requires
            old(self)@.wf(),
        ensures
            final(self)@ == old(self)@.debounce_timed(),
            r == (is_past(old(self)@.feed.activity.deadline(), old(self)@.now) && old(
                self,
            )@.running),
            final(self)@.wf(),
    {
        if past(self.feed.activity.activity_debounce_deadline(), self.now) && self.running {
            self.settle_notices();
            return true;
        }
        false
    }

    fn tick_title(&mut self)
        requires
            old(self)@.wf(),
        ensures
            final(self)@ == old(self)@.title_timed(),
            final(self)@.wf(),
    {
        let escape = self.titles.tick(self.now);
        self.show_title(escape);
    }

    fn tick_activity(&mut self) -> (r: bool)
        requires
            old(self)@.wf(),
        ensures
            final(self)@ == old(self)@.activity_timed(),
            r == (is_past(old(self)@.activity_next_tick, old(self)@.now) && old(self)@.running),
            final(self)@.wf(),
    {
        if past(self.activity_next_tick, self.now) {
            self.activity_next_tick = None;
            if self.running {
                self.settle_notices();
                self.activity_next_tick = Some(later(self.now, SPINNER_INTERVAL_MS));
                return true;
            }
        }
        false
    }

    /// Does whatever it is time for. Says whether the screen is to be painted.
    pub fn on_timers(&mut self) -> (r: bool)
        requires
            old(self)@.wf(),
        ensures
            final(self)@ == old(self)@.timed(),
            r == old(self)@.timers_show(),
            final(self)@.wf(),
    {
        let flushed = self.flush_if_due();
        let settled = self.settle_if_due();
        self.tick_title();
        let ticked = self.tick_activity();
        flushed || settled || ticked
    }

    /// How long the loop may wait, in milliseconds.
    pub fn next_wait(&self) -> (r: u64)
        ensures
            r == self@.wait(),
            r <= LONGEST_WAIT_MS,
    {
        let a: u64 = shorten(LONGEST_WAIT_MS, self.feed.flush_deadline, self.now);
        let b: u64 = shorten(a, self.resize_at, self.now);
        let c: u64 = shorten(b, self.status_line.next_refresh, self.now);
        let d: u64 = shorten(c, self.jobs.next_refresh, self.now);
        let e: u64 = shorten(d, self.titles.title_next_tick, self.now);
        let f: u64 = shorten(e, self.activity_next_tick, self.now);
        shorten(f, self.feed.activity.activity_debounce_deadline(), self.now)
    }

    /// Whether the jobs are to be read anew.
    pub fn jobs_due(&self) -> (r: bool)
        ensures
            r == (self@.jobs.next_refresh is None || is_past(
                self@.jobs.next_refresh,
                self@.now,
            )),
    {
        self.jobs.next_refresh.is_none() || past(self.jobs.next_refresh, self.now)
    }

    /// Opens the session.
    pub fn open(&mut self, entries: Vec<TranscriptEntry>)
        requires
            old(self)@.wf(),
        ensures
            final(self)@ == old(self)@.opened(transcript::entry_models(entries@)),
            final(self)@.wf(),
    {
        self.feed.emit_static(entries, self.now, self.running, self.cols);
        match self.bootstrap.initial_goal.take() {
            Some(goal) => {
                self.run_goal(goal);
            },
            None => {},
        }
    }

    /// Closes the session.
    pub fn close(&mut self) -> (r: i32)
        requires
            old(self)@.wf(),
        ensures
            final(self)@ == old(self)@.closed(),
            r == old(self)@.exit_code,
            final(self)@.wf(),
    {
        let escape = self.titles.finish(self.now);
        self.show_title(escape);
        self.feed.flush_pending_cells(self.now, self.running, self.cols);
        self.exit_code
    }
}

// ---------------------------------------------------------------------------
// The custom status line
// ---------------------------------------------------------------------------

impl TuiApp {
    /// What the configured command is told: what the session truly knows, and
    /// nothing else.
    pub fn status_line_request(&self, model_label: &str) -> (r: StatusLineRequest)
        ensures
            text::opt_text(r.session_id) == Some(self@.session.id@),
            text::opt_text(r.cwd) == Some(self@.bootstrap.cwd@),
            text::opt_text(r.model_display_name) == Some(model_label@),
            r.model_id is None,
            r.version is None,
            r.context_usage is None,
            r.render_width_chars == self@.cols,
    {
        StatusLineRequest {
            session_id: Some(self.session.id.clone()),
            cwd: Some(self.bootstrap.cwd.clone()),
            model_id: None,
            model_display_name: Some(model_label.to_string()),
            version: None,
            render_width_chars: self.cols,
            context_usage: None,
        }
    }
}

// ---------------------------------------------------------------------------
// Laws
// ---------------------------------------------------------------------------

/// The loop never waits past a deadline.
pub proof fn law_the_loop_meets_its_deadlines(app: AppModel)
    ensures
        0 <= app.wait() <= LONGEST_WAIT_MS,
        app.feed.flush_deadline is Some && app.feed.flush_deadline->0 >= app.now ==> app.now
            + app.wait() <= app.feed.flush_deadline->0,
        app.titles.next_tick is Some && app.titles.next_tick->0 >= app.now ==> app.now
            + app.wait() <= app.titles.next_tick->0,
        app.activity_next_tick is Some && app.activity_next_tick->0 >= app.now ==> app.now
            + app.wait() <= app.activity_next_tick->0,
        app.resize_at is Some && app.resize_at->0 >= app.now ==> app.now + app.wait()
            <= app.resize_at->0,
        app.status_line.next_refresh is Some && app.status_line.next_refresh->0 >= app.now
            ==> app.now + app.wait() <= app.status_line.next_refresh->0,
        app.jobs.next_refresh is Some && app.jobs.next_refresh->0 >= app.now ==> app.now
            + app.wait() <= app.jobs.next_refresh->0,
        app.feed.activity.deadline() is Some && app.feed.activity.deadline()->0 >= app.now
            ==> app.now + app.wait() <= app.feed.activity.deadline()->0,
{
}

/// Where no timer shows, the timeline stays as it was: nothing is left
/// unpainted.
pub proof fn law_silent_timers_change_no_row(app: AppModel)
    requires
        !app.timers_show(),
    ensures
        app.timed().feed == app.feed,
        app.timed().live_rows == app.live_rows,
{
}

/// An idle session never animates: once the run is over, a tick arms no other.
pub proof fn law_idle_ticks_never_rearm(app: AppModel)
    requires
        !app.running,
        is_past(app.activity_next_tick, app.now),
    ensures
        app.activity_timed().activity_next_tick is None,
{
}

/// The loop waits as long as it may: for three tenths of a second, or until the
/// first deadline, and not at all where one is past.
pub proof fn law_the_loop_waits_as_long_as_it_may(app: AppModel)
    ensures
        ({
            let left = |d: Option<u64>|
                match d {
                    Some(at) => if at >= app.now {
                        at - app.now
                    } else {
                        0int
                    },
                    None => 300int,
                };
            ||| app.wait() == 300
            ||| app.wait() == left(app.feed.flush_deadline)
            ||| app.wait() == left(app.resize_at)
            ||| app.wait() == left(app.status_line.next_refresh)
            ||| app.wait() == left(app.jobs.next_refresh)
            ||| app.wait() == left(app.titles.next_tick)
            ||| app.wait() == left(app.activity_next_tick)
            ||| app.wait() == left(app.feed.activity.deadline())
        }),
        app.wait() <= 300,
{
}

/// A resize is drawn once it has rested for a hundred and fifty milliseconds,
/// at the size that the terminal has then.
pub proof fn law_a_resize_is_drawn_once_it_rests(app: AppModel, cols: usize, rows: usize)
    requires
        app.now <= u64::MAX - 150,
    ensures
        app.resizing().resize_at == Some((app.now + 150) as u64),
        app.resized(cols, rows).resize_at is None,
        app.resized(cols, rows).cols == cols,
        app.resized(cols, rows).rows == rows,
        app.resized(cols, rows).composer == app.composer,
        app.resized(cols, rows).feed == app.feed,
{
}

/// What is due is done, and nothing before its time: what waited is shown,
/// transient rows settle while a run is live, and the animation goes on a tenth
/// of a second later.
pub proof fn law_what_is_due_is_done(app: AppModel, at: u64)
    requires
        app.now <= u64::MAX - 100,
    ensures
        app.feed.flush_deadline == Some(at) && app.now >= at ==> app.flush_timed().feed.cells
            == app.feed.cells + app.feed.pending && app.flush_timed().feed.pending.len() == 0,
        app.feed.flush_deadline == Some(at) && app.now < at ==> app.flush_timed() == app,
        app.feed.flush_deadline is None ==> app.flush_timed() == app,
        app.running && app.activity_next_tick == Some(at) && app.now >= at
            ==> app.activity_timed().activity_next_tick == Some((app.now + 100) as u64),
        app.activity_next_tick == Some(at) && app.now < at ==> app.activity_timed() == app,
        app.running && app.feed.activity.deadline() == Some(at) && app.now >= at
            ==> app.debounce_timed().feed.activity == app.feed.activity.settled(app.now),
        app.title_timed().titles == app.titles.after_tick(app.now),
        app.titles.tick_escape(app.now) matches Some(e) ==> app.title_timed().effects
            == app.effects.push(EffectModel::Title(e)),
{
}

/// Something shows exactly where a timer that has rows is due.
pub proof fn law_due_rows_ask_for_a_frame(app: AppModel, at: u64)
    ensures
        app.feed.flush_deadline == Some(at) && app.now >= at ==> app.timers_show(),
        app.running && app.activity_next_tick == Some(at) && app.now >= at ==> app.timers_show(),
{
}

/// A session opens with its whole transcript, and runs its first goal where it
/// was given one, once.
pub proof fn law_a_session_opens_with_its_transcript(app: AppModel, entries: Seq<EntryModel>)
    ensures
        app.opened(entries).feed.cells == app.feed.cells + entries,
        app.bootstrap.initial_goal matches Some(goal) ==> {
            &&& app.opened(entries).running
            &&& app.opened(entries).effects == app.effects.push(
                EffectModel::StartRun(goal@, app.attachments),
            )
            &&& app.opened(entries).bootstrap.initial_goal is None
        },
        app.bootstrap.initial_goal is None ==> app.opened(entries).effects == app.effects
            && app.opened(entries).running == app.running,
        app.closed().feed.cells == app.feed.cells + app.feed.pending,
        app.closed().feed.pending.len() == 0,
{
}

/// A live run is given three seconds at the end, counted from when it was asked
/// to stop.
pub proof fn law_a_run_is_given_three_seconds_to_end(asked: u64, now: u64)
    requires
        asked <= now,
        asked <= u64::MAX - 3_000,
    ensures
        now - asked <= 3_000 ==> grace(asked, now) == 3_000 - (now - asked),
        now - asked > 3_000 ==> grace(asked, now) == 0,
{
}

} // verus!
