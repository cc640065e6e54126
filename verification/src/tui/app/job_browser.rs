//! The background jobs of a session: the snapshot that the status bar counts,
//! the browser over it, and the report that a settled job leaves.

use vstd::prelude::*;
use crate::text;
use crate::text::{concat2, concat3, format_decimal, format_signed, join_texts, same, take_chars, trim};
use crate::tools::types::{ChatAsyncToolJob, ChatAsyncToolRuntime, ChatAsyncToolTailResult};
use crate::tui::app::activity;
use crate::tui::app::activity::later;
use crate::tui::app::overlay;
use crate::tui::app::overlay::{ItemModel, PickerItem};
use crate::tui::jobs;
use crate::tui::jobs::{job_counts, job_kind, running_label, JOBS_REFRESH_MS};

verus! {

/// How many lines of its log a job shows in detail.
pub const JOB_DETAIL_LINES: i64 = 60;

/// The running jobs, as last read, and the one that is inspected.
pub struct JobBrowser {
    pub rows: Vec<ChatAsyncToolJob>,
    /// How long each job has run, where it is known, in milliseconds.
    pub ages: Vec<Option<i64>>,
    /// Monitors and shells.
    pub counts: (usize, usize),
    /// The job that is shown in detail; none while the list shows.
    pub detail: Option<usize>,
    pub next_refresh: Option<u64>,
}

/// What a job browser holds.
#[verifier::ext_equal]
pub ghost struct JobsModel {
    pub rows: Seq<ChatAsyncToolJob>,
    pub ages: Seq<Option<i64>>,
    pub counts: (nat, nat),
    pub detail: Option<int>,
    pub next_refresh: Option<u64>,
}

/// Monitors and shells among jobs.
pub open spec fn counts_of(rows: Seq<ChatAsyncToolJob>) -> (nat, nat) {
    (jobs::monitor_count(rows), (rows.len() - jobs::monitor_count(rows)) as nat)
}

impl JobsModel {
    pub open spec fn wf(self) -> bool {
        match self.detail {
            Some(i) => 0 <= i < self.rows.len(),
            None => true,
        }
    }

    /// The snapshot read anew. A detail whose row is gone gives way to the
    /// list.
    pub open spec fn refreshed(
        self,
        rows: Seq<ChatAsyncToolJob>,
        ages: Seq<Option<i64>>,
        now: u64,
    ) -> JobsModel {
        JobsModel {
            rows,
            ages,
            counts: counts_of(rows),
            detail: match self.detail {
                Some(i) => if i < rows.len() {
                    Some(i)
                } else {
                    None
                },
                None => None,
            },
            next_refresh: Some(activity::later_time(now, JOBS_REFRESH_MS)),
        }
    }

    /// The jobs as they are, with how long each has run by now.
    pub open spec fn aged(self, ages: Seq<Option<i64>>) -> JobsModel {
        JobsModel { ages, ..self }
    }

    /// The list, not a detail.
    pub open spec fn listed(self) -> JobsModel {
        JobsModel { detail: None, ..self }
    }

    /// The detail of a job that still runs.
    pub open spec fn inspected(self, index: int) -> JobsModel {
        if 0 <= index < self.rows.len() {
            JobsModel { detail: Some(index), ..self }
        } else {
            self
        }
    }
}

impl View for JobBrowser {
    type V = JobsModel;

    open spec fn view(&self) -> JobsModel {
        JobsModel {
            rows: self.rows@,
            ages: self.ages@,
            counts: (self.counts.0 as nat, self.counts.1 as nat),
            detail: match self.detail {
                Some(i) => Some(i as int),
                None => None,
            },
            next_refresh: self.next_refresh,
        }
    }
}

/// The picker row of a job; its id is its place in the snapshot.
pub open spec fn job_item(job: ChatAsyncToolJob, age: Option<i64>, i: nat) -> ItemModel {
    ItemModel {
        detail: Some(
            jobs::kind_word(job) + " \u{b7} "@ + jobs::running_text(age) + " \u{b7} "@ + text::first_chars(
                job.id@,
                8,
            ),
        ),
        id: text::decimal(i),
        label: job.title@,
    }
}

/// The picker rows of the jobs.
pub open spec fn job_items_of(
    rows: Seq<ChatAsyncToolJob>,
    ages: Seq<Option<i64>>,
) -> Seq<ItemModel> {
    Seq::new(rows.len(), |i: int| job_item(rows[i], jobs::runtime_at(ages, i), i as nat))
}

impl JobBrowser {
    /// The jobs that run when the session opens.
    pub fn new(rows: Vec<ChatAsyncToolJob>, ages: Vec<Option<i64>>, now: u64) -> (r: Self)
        ensures
            r@ == (JobsModel {
                rows: rows@,
                ages: ages@,
                counts: counts_of(rows@),
                detail: None,
                next_refresh: Some(activity::later_time(now, JOBS_REFRESH_MS)),
            }),
            r@.wf(),
    {
        let counts = job_counts(&rows);
        JobBrowser { rows, ages, counts, detail: None, next_refresh: Some(later(now, JOBS_REFRESH_MS)) }
    }

    /// Takes over a fresh snapshot. Returns whether the counts changed.
    pub fn refresh_jobs(
        &mut self,
        rows: Vec<ChatAsyncToolJob>,
        ages: Vec<Option<i64>>,
        now: u64,
    ) -> (r: bool)
        ensures
            final(self)@ == old(self)@.refreshed(rows@, ages@, now),
            r == (counts_of(rows@) != old(self)@.counts),
            final(self)@.wf(),
    {
        self.next_refresh = Some(later(now, JOBS_REFRESH_MS));
        let counts = job_counts(&rows);
        let changed = counts.0 != self.counts.0 || counts.1 != self.counts.1;
        self.rows = rows;
        self.ages = ages;
        self.counts = counts;
        match self.detail {
            Some(index) => {
                if index >= self.rows.len() {
                    self.detail = None;
                }
            },
            None => {},
        }
        changed
    }

    /// Takes in how long each job has run by now.
    pub fn set_ages(&mut self, ages: Vec<Option<i64>>)
        ensures
            final(self)@ == old(self)@.aged(ages@),
    {
        self.ages = ages;
    }

    /// How long the job at `i` has run, where it is known.
    pub fn age(&self, i: usize) -> (r: Option<i64>)
        ensures
            r == jobs::runtime_at(self@.ages, i as int),
    {
        if i < self.ages.len() {
            self.ages[i]
        } else {
            None
        }
    }

    /// One picker row for each running job.
    pub fn job_items(&self) -> (r: Vec<PickerItem>)
        ensures
            overlay::item_models(r@) == job_items_of(self@.rows, self@.ages),
    {
        let ghost all = job_items_of(self@.rows, self@.ages);
        let mut out: Vec<PickerItem> = Vec::new();
        let mut i: usize = 0;
        assert(overlay::item_models(out@) =~= all.take(0));
        while i < self.rows.len()
            invariant
                i <= self.rows.len(),
                all == job_items_of(self@.rows, self@.ages),
                overlay::item_models(out@) == all.take(i as int),
            decreases self.rows.len() - i,
        {
            broadcast use overlay::lemma_items_push;

            let job = &self.rows[i];
            let running = running_label(self.age(i));
            let short = take_chars(job.id.as_str(), 8);
            let mut detail = concat3(job_kind(job), " \u{b7} ", running.as_str());
            detail.append(" \u{b7} ");
            detail.append(short.as_str());
            out.push(
                PickerItem {
                    detail: Some(detail),
                    id: format_decimal(i as u64),
                    label: job.title.clone(),
                },
            );
            assert(all.take(i + 1) =~= all.take(i as int).push(all[i as int]));
            i = i + 1;
        }
        assert(all.take(i as int) =~= all);
        out
    }

    /// Shows the list.
    pub fn show_list(&mut self)
        ensures
            final(self)@ == old(self)@.listed(),
            final(self)@.wf(),
    {
        self.detail = None;
    }

    /// Shows a job in detail. Returns whether it still runs.
    pub fn show_detail(&mut self, index: usize) -> (r: bool)
        requires
            old(self)@.wf(),
        ensures
            final(self)@ == old(self)@.inspected(index as int),
            r == (index < old(self)@.rows.len()),
            final(self)@.wf(),
    {
        if index >= self.rows.len() {
            return false;
        }
        self.detail = Some(index);
        true
    }
}

// ---------------------------------------------------------------------------
// The log of a job
// ---------------------------------------------------------------------------

/// What a job's detail shows of its log: nothing where it cannot be read.
pub open spec fn output_of(tail: Result<ChatAsyncToolTailResult, String>) -> Seq<char> {
    match tail {
        Ok(t) => t.output@,
        Err(_) => Seq::empty(),
    }
}

/// What a job's detail shows of its log, once the end of it was read.
pub fn tail_output(tail: Result<ChatAsyncToolTailResult, String>) -> (r: String)
    ensures
        r@ == output_of(tail),
{
    match tail {
        Ok(t) => t.output,
        Err(_) => String::new(),
    }
}

/// What a job's detail shows of its log: its last `JOB_DETAIL_LINES` lines.
pub fn job_output<J: ChatAsyncToolRuntime + ?Sized>(jobs: &J, job: &ChatAsyncToolJob) -> (r: String)
    ensures
        exists|id: &str, tail: Result<ChatAsyncToolTailResult, String>|
            id@ == job.id@ && #[trigger] call_ensures(
                J::tail_job,
                (jobs, id, Some(JOB_DETAIL_LINES)),
                tail,
            ) && r@ == output_of(tail),
{
    let id = job.id.as_str();
    let tail = jobs.tail_job(id, Some(JOB_DETAIL_LINES));
    assert(call_ensures(J::tail_job, (jobs, id, Some(JOB_DETAIL_LINES)), tail));
    tail_output(tail)
}

// ---------------------------------------------------------------------------
// Settled jobs
// ---------------------------------------------------------------------------

/// The exit code of a job, where it ended with one.
pub open spec fn exit_of(job: ChatAsyncToolJob) -> Option<i32> {
    match job.exit_code {
        Some(code) => code,
        None => None,
    }
}

/// How a job ended: its error goes first, then its exit code.
pub open spec fn outcome_text(job: ChatAsyncToolJob) -> Seq<char> {
    match job.error {
        Some(error) => "failed - "@ + text::trimmed(error@),
        None => match exit_of(job) {
            Some(code) => if jobs::is_monitor(job) {
                if code == 0 {
                    "the signal fired (exit 0)"@
                } else {
                    "ended with exit "@ + text::signed_decimal(code as int)
                        + " without the signal"@
                }
            } else {
                "finished with exit "@ + text::signed_decimal(code as int)
            },
            None => if jobs::is_monitor(job) {
                "settled without an exit status"@
            } else {
                "finished without an exit status"@
            },
        },
    }
}

/// The report of a settled job: what it was, how it ended, and where its
/// output lies.
pub open spec fn report_text(job: ChatAsyncToolJob) -> Seq<char> {
    (if jobs::is_monitor(job) {
        "[background monitor] "@
    } else {
        "[background shell] "@
    }) + job.id@ + " "@ + job.title@ + ": "@ + outcome_text(job) + " - full output: "@
        + job.log_path@
}

/// The reports of settled jobs.
pub open spec fn report_texts(settled: Seq<ChatAsyncToolJob>) -> Seq<Seq<char>> {
    Seq::new(settled.len(), |i: int| report_text(settled[i]))
}

/// The report of a settled job, so that whoever reads it next can act on it
/// without hunting for the job.
pub fn background_report_message(job: &ChatAsyncToolJob) -> (r: String)
    ensures
        r@ == report_text(*job),
{
    let is_monitor = same(job.tool_name.as_str(), "MONITOR");
    let exit: Option<i32> = match job.exit_code {
        Some(code) => code,
        None => None,
    };
    let outcome = match &job.error {
        Some(error) => {
            let t = trim(error.as_str());
            concat2("failed - ", t.as_str())
        },
        None => match exit {
            Some(code) => {
                let shown = format_signed(code as i64);
                if is_monitor {
                    if code == 0 {
                        "the signal fired (exit 0)".to_string()
                    } else {
                        concat3("ended with exit ", shown.as_str(), " without the signal")
                    }
                } else {
                    concat2("finished with exit ", shown.as_str())
                }
            },
            None => if is_monitor {
                "settled without an exit status".to_string()
            } else {
                "finished without an exit status".to_string()
            },
        },
    };
    let mut out = if is_monitor {
        "[background monitor] ".to_string()
    } else {
        "[background shell] ".to_string()
    };
    out.append(job.id.as_str());
    out.append(" ");
    out.append(job.title.as_str());
    out.append(": ");
    out.append(outcome.as_str());
    out.append(" - full output: ");
    out.append(job.log_path.as_str());
    out
}

/// The reports of settled jobs as one message.
pub open spec fn handoff_text(settled: Seq<ChatAsyncToolJob>) -> Seq<char> {
    text::joined(report_texts(settled), "\n"@)
}

/// The message that the settled jobs make for an idle session. While a run is
/// live it drains its own reports, so there is none; nor where nothing
/// settled.
pub fn idle_background_reports(running: bool, settled: &Vec<ChatAsyncToolJob>) -> (r: Option<
    String,
>)
    ensures
        text::opt_text(r) == (if running || settled@.len() == 0 {
            None
        } else {
            Some(handoff_text(settled@))
        }),
{
    if running || settled.len() == 0 {
        return None;
    }
    let ghost all = report_texts(settled@);
    let mut lines: Vec<String> = Vec::new();
    let mut i: usize = 0;
    assert(text::texts(lines@) =~= all.take(0));
    while i < settled.len()
        invariant
            i <= settled.len(),
            all == report_texts(settled@),
            text::texts(lines@) == all.take(i as int),
        decreases settled.len() - i,
    {
        broadcast use text::lemma_texts_push;

        lines.push(background_report_message(&settled[i]));
        assert(all.take(i + 1) =~= all.take(i as int).push(all[i as int]));
        i = i + 1;
    }
    assert(all.take(i as int) =~= all);
    Some(join_texts(&lines, "\n"))
}

// ---------------------------------------------------------------------------
// Laws
// ---------------------------------------------------------------------------

/// A detail never outlives its row: after every refresh it shows a job of the
/// fresh snapshot, or the list shows.
pub proof fn law_a_detail_never_outlives_its_job(
    b: JobsModel,
    rows: Seq<ChatAsyncToolJob>,
    ages: Seq<Option<i64>>,
    now: u64,
)
    requires
        b.wf(),
    ensures
        b.refreshed(rows, ages, now).wf(),
        rows.len() == 0 ==> b.refreshed(rows, ages, now).detail is None,
{
}

/// The counts always are those of the snapshot.
pub proof fn law_counts_match_the_snapshot(
    b: JobsModel,
    rows: Seq<ChatAsyncToolJob>,
    ages: Seq<Option<i64>>,
    now: u64,
)
    ensures
        ({
            let r = b.refreshed(rows, ages, now);
            r.counts.0 + r.counts.1 == r.rows.len()
        }),
{
    jobs::law_counts_partition_the_jobs(rows);
}

/// How a job ended is told as it was: an error first, with its text; else the
/// exit code. A monitor's signal fired exactly where it ended with zero.
pub proof fn law_a_job_is_reported_as_it_ended(job: ChatAsyncToolJob, code: i32)
    ensures
        job.error is Some ==> outcome_text(job) == "failed - "@ + text::trimmed(job.error->0@),
        job.error is None && job.exit_code == Some(Some(code)) ==> {
            &&& job.tool_name@ != "MONITOR"@ ==> outcome_text(job) == "finished with exit "@
                + text::signed_decimal(code as int)
            &&& job.tool_name@ == "MONITOR"@ && code == 0 ==> outcome_text(job)
                == "the signal fired (exit 0)"@
            &&& job.tool_name@ == "MONITOR"@ && code != 0 ==> outcome_text(job)
                == "ended with exit "@ + text::signed_decimal(code as int)
                + " without the signal"@
        },
        job.error is None && (job.exit_code is None || job.exit_code->0 is None) ==> {
            &&& job.tool_name@ == "MONITOR"@ ==> outcome_text(job)
                == "settled without an exit status"@
            &&& job.tool_name@ != "MONITOR"@ ==> outcome_text(job)
                == "finished without an exit status"@
        },
{
}

/// A report names the job: what kind it was, its id and title, how it ended and
/// where its output lies. Every settled job has its report, in order.
pub proof fn law_every_settled_job_is_reported(settled: Seq<ChatAsyncToolJob>, i: int)
    requires
        0 <= i < settled.len(),
    ensures
        report_texts(settled).len() == settled.len(),
        ({
            let job = settled[i];
            let kind = if job.tool_name@ == "MONITOR"@ {
                "[background monitor] "@
            } else {
                "[background shell] "@
            };
            report_texts(settled)[i] == kind + job.id@ + " "@ + job.title@ + ": "@ + outcome_text(
                job,
            ) + " - full output: "@ + job.log_path@
        }),
        handoff_text(settled) == text::joined(report_texts(settled), "\n"@),
{
}

/// The row of a job stands for its place in the list and tells its title, what
/// it is and how long it has run.
pub proof fn law_a_job_row_stands_for_its_place(
    rows: Seq<ChatAsyncToolJob>,
    ages: Seq<Option<i64>>,
    i: int,
)
    requires
        0 <= i < rows.len(),
        ages.len() == rows.len(),
    ensures
        job_items_of(rows, ages).len() == rows.len(),
        job_items_of(rows, ages)[i].id == text::decimal(i as nat),
        job_items_of(rows, ages)[i].label == rows[i].title@,
        job_items_of(rows, ages)[i].detail == Some(
            jobs::kind_word(rows[i]) + " · "@ + jobs::running_text(ages[i]) + " · "@
                + text::first_chars(rows[i].id@, 8),
        ),
{
}

/// A refresh shows what was read: these jobs with these ages, counted anew, and
/// the next one is due half a second later. The open detail stays while its row
/// is there.
pub proof fn law_a_refresh_shows_what_was_read(
    m: JobsModel,
    rows: Seq<ChatAsyncToolJob>,
    ages: Seq<Option<i64>>,
    now: u64,
)
    ensures
        ({
            let next = m.refreshed(rows, ages, now);
            &&& next.rows == rows
            &&& next.ages == ages
            &&& next.counts.0 == rows.filter(
                |j: ChatAsyncToolJob| j.tool_name@ == "MONITOR"@,
            ).len()
            &&& next.counts.0 + next.counts.1 == rows.len()
            &&& now <= u64::MAX - 500 ==> next.next_refresh == Some((now + 500) as u64)
            &&& m.detail matches Some(i) ==> i < rows.len() ==> next.detail == Some(i)
            &&& m.detail is None ==> next.detail is None
        }),
        m.aged(ages).rows == m.rows,
        m.aged(ages).ages == ages,
        m.aged(ages).detail == m.detail,
        m.listed().detail is None,
        m.listed().rows == m.rows,
{
    jobs::law_counts_partition_the_jobs(rows);
    if rows.len() > 0 {
        jobs::law_only_the_monitor_tool_makes_monitors(rows, rows[0]);
    } else {
        reveal(Seq::filter);
    }
}

/// The log of a job is shown as it was read; one that cannot be read shows
/// nothing.
pub proof fn law_a_log_is_shown_as_it_was_read(tail: ChatAsyncToolTailResult, error: String)
    ensures
        output_of(Ok(tail)) == tail.output@,
        output_of(Err(error)) == Seq::<char>::empty(),
        JOB_DETAIL_LINES == 60,
{
}

/// What is seen of a job browser is what it holds, field by field.
pub proof fn law_a_browser_is_seen_as_it_is(it: JobBrowser)
    ensures
        it@.rows == it.rows@,
        it@.ages == it.ages@,
        it@.counts == (it.counts.0 as nat, it.counts.1 as nat),
        it@.detail == (match it.detail {
                Some(i) => Some(i as int),
                None => None,
            }),
        it@.next_refresh == it.next_refresh,
{
}

} // verus!
