//! The background-jobs browser: the status-line counter of live background
//! work (`1 monitor`, `2 shells`) and the list and detail frames it opens
//! into.

use vstd::prelude::*;
use crate::text;
use crate::text::{
    concat2, concat3, format_decimal, same, split_lines, take_chars, trim, trim_end,
};
use crate::tools::types::{ChatAsyncToolJob, ChatAsyncToolJobStatus};
use crate::tui::evals::push_row;
use crate::tui::widgets;
use crate::tui::widgets::{boxed, boxed_titled, paint_accent, paint_faint};

verus! {

/// How often the running-job snapshot is read again, in milliseconds.
pub const JOBS_REFRESH_MS: u64 = 500;

/// `n` of something, in the singular for one.
pub open spec fn amount(n: nat, one: Seq<char>, many: Seq<char>) -> Seq<char> {
    text::decimal(n) + " "@ + (if n == 1 {
        one
    } else {
        many
    })
}

fn amount_text(n: usize, one: &str, many: &str) -> (r: String)
    ensures
        r@ == amount(n as nat, one@, many@),
{
    let d = format_decimal(n as u64);
    concat3(
        d.as_str(),
        " ",
        if n == 1 {
            one
        } else {
            many
        },
    )
}

/// The counter of live jobs; nothing where nothing runs.
pub open spec fn counter(monitors: nat, shells: nat) -> Option<Seq<char>> {
    let m = amount(monitors, "monitor"@, "monitors"@);
    let s = amount(shells, "shell"@, "shells"@);
    if monitors > 0 && shells > 0 {
        Some(m + " · "@ + s)
    } else if monitors > 0 {
        Some(m)
    } else if shells > 0 {
        Some(s)
    } else {
        None
    }
}

/// The status-line counter: `1 monitor`, `2 shells`, joined by ` · ` when both
/// kinds are live. `None` when nothing runs.
pub fn background_counter(monitors: usize, shells: usize) -> (r: Option<String>)
    ensures
        text::opt_text(r) == counter(monitors as nat, shells as nat),
{
    if monitors > 0 && shells > 0 {
        let m = amount_text(monitors, "monitor", "monitors");
        let s = amount_text(shells, "shell", "shells");
        Some(concat3(m.as_str(), " · ", s.as_str()))
    } else if monitors > 0 {
        Some(amount_text(monitors, "monitor", "monitors"))
    } else if shells > 0 {
        Some(amount_text(shells, "shell", "shells"))
    } else {
        None
    }
}

/// Whether a job was started by the monitor tool.
pub open spec fn is_monitor(job: ChatAsyncToolJob) -> bool {
    job.tool_name@ == "MONITOR"@
}

fn monitors(job: &ChatAsyncToolJob) -> (r: bool)
    ensures
        r == is_monitor(*job),
{
    same(job.tool_name.as_str(), "MONITOR")
}

/// The word for a job's kind.
pub open spec fn kind_word(job: ChatAsyncToolJob) -> Seq<char> {
    if is_monitor(job) {
        "monitor"@
    } else {
        "shell"@
    }
}

/// Whether a job is a monitor or an async shell; every async tool but the
/// monitor counts as a shell.
pub fn job_kind(job: &ChatAsyncToolJob) -> (r: &'static str)
    ensures
        r@ == kind_word(*job),
{
    if monitors(job) {
        "monitor"
    } else {
        "shell"
    }
}

/// How many of the jobs are monitors.
pub open spec fn monitor_count(jobs: Seq<ChatAsyncToolJob>) -> nat
    decreases jobs.len(),
{
    if jobs.len() == 0 {
        0
    } else {
        monitor_count(jobs.drop_last()) + if is_monitor(jobs.last()) {
            1nat
        } else {
            0
        }
    }
}

/// Jobs by kind: monitors, and all others.
pub fn job_counts(jobs: &[ChatAsyncToolJob]) -> (r: (usize, usize))
    ensures
        r.0 == monitor_count(jobs@),
        r.0 + r.1 == jobs@.len(),
{
    let mut m: usize = 0;
    let mut i: usize = 0;
    assert(jobs@.take(0) =~= Seq::empty());
    while i < jobs.len()
        invariant
            i <= jobs.len(),
            m <= i,
            m == monitor_count(jobs@.take(i as int)),
        decreases jobs.len() - i,
    {
        assert(jobs@.take(i + 1).drop_last() =~= jobs@.take(i as int));
        if monitors(&jobs[i]) {
            m = m + 1;
        }
        i = i + 1;
    }
    assert(jobs@.take(i as int) =~= jobs@);
    (m, jobs.len() - m)
}

/// A number of seconds with two digits.
pub open spec fn two_digits(n: nat) -> Seq<char> {
    if n < 10 {
        "0"@ + text::decimal(n)
    } else {
        text::decimal(n)
    }
}

/// `20s`, `1m 05s`: a runtime as a clock.
pub open spec fn clock_text(ms: nat) -> Seq<char> {
    let seconds = ms / 1000;
    if seconds >= 60 {
        text::decimal(seconds / 60) + "m "@ + two_digits(seconds % 60) + "s"@
    } else {
        text::decimal(seconds) + "s"@
    }
}

/// `20s`, `1m 05s`: a runtime as a clock.
pub fn clock(ms: u64) -> (r: String)
    ensures
        r@ == clock_text(ms as nat),
{
    let seconds: u64 = ms / 1000;
    if seconds >= 60 {
        let minutes = format_decimal(seconds / 60);
        let rest = format_decimal(seconds % 60);
        let padded = if seconds % 60 < 10 {
            concat2("0", rest.as_str())
        } else {
            rest
        };
        let mut out = concat3(minutes.as_str(), "m ", padded.as_str());
        out.append("s");
        out
    } else {
        let s = format_decimal(seconds);
        concat2(s.as_str(), "s")
    }
}

/// A runtime that is never negative.
pub open spec fn since_start(ms: i64) -> nat {
    if ms < 0 {
        0
    } else {
        ms as nat
    }
}

fn held(ms: i64) -> (r: u64)
    ensures
        r == since_start(ms),
{
    if ms < 0 {
        0
    } else {
        ms as u64
    }
}

/// `running 20s` where the age is known, else `running`.
pub open spec fn running_text(runtime_ms: Option<i64>) -> Seq<char> {
    match runtime_ms {
        Some(ms) => "running "@ + clock_text(since_start(ms)),
        None => "running"@,
    }
}

/// `running 20s` for a job whose age is known, `running` otherwise.
pub fn running_label(runtime_ms: Option<i64>) -> (r: String)
    ensures
        r@ == running_text(runtime_ms),
{
    match runtime_ms {
        Some(ms) => {
            let c = clock(held(ms));
            concat2("running ", c.as_str())
        },
        None => "running".to_string(),
    }
}

/// The short job id.
pub fn short_job_id(id: &str) -> (r: String)
    ensures
        r@ == text::first_chars(id@, 8),
{
    take_chars(id, 8)
}

/// The runtime as a clock, a dash where it is not known.
pub open spec fn runtime_text(runtime_ms: Option<i64>) -> Seq<char> {
    match runtime_ms {
        Some(ms) => clock_text(since_start(ms)),
        None => "—"@,
    }
}

/// The runtime of a job as a clock, `—` when it is not known.
pub fn runtime_clock(runtime_ms: Option<i64>) -> (r: String)
    ensures
        r@ == runtime_text(runtime_ms),
{
    match runtime_ms {
        Some(ms) => clock(held(ms)),
        None => "—".to_string(),
    }
}

/// The word for a job's status.
pub open spec fn status_word(status: ChatAsyncToolJobStatus) -> Seq<char> {
    match status {
        ChatAsyncToolJobStatus::Running => "running"@,
        ChatAsyncToolJobStatus::Completed => "completed"@,
        ChatAsyncToolJobStatus::Failed => "failed"@,
    }
}

/// The status word a job shows in its detail frame.
pub fn job_status_label(job: &ChatAsyncToolJob) -> (r: &'static str)
    ensures
        r@ == status_word(job.status),
{
    match job.status {
        ChatAsyncToolJobStatus::Running => "running",
        ChatAsyncToolJobStatus::Completed => "completed",
        ChatAsyncToolJobStatus::Failed => "failed",
    }
}

/// The row of the job at `i`: cursor, number, title, kind, runtime and short
/// id.
pub open spec fn job_row(
    job: ChatAsyncToolJob,
    runtime: Option<i64>,
    i: nat,
    selected: bool,
) -> Seq<char> {
    let label = text::decimal(i + 1) + ". "@ + job.title@;
    let detail = widgets::faint(
        " — "@ + kind_word(job) + " · "@ + running_text(runtime) + " · job "@ + text::first_chars(
            job.id@,
            8,
        ),
    );
    if selected {
        widgets::accented("▸ "@) + widgets::accented(label) + detail
    } else {
        widgets::faint("  "@) + label + detail
    }
}

/// The runtime that belongs to the job at `i`, where it is known.
pub open spec fn runtime_at(runtimes: Seq<Option<i64>>, i: int) -> Option<i64> {
    if 0 <= i < runtimes.len() {
        runtimes[i]
    } else {
        None
    }
}

/// The rows of the jobs.
pub open spec fn job_rows(
    jobs: Seq<ChatAsyncToolJob>,
    runtimes: Seq<Option<i64>>,
    selected: int,
) -> Seq<Seq<char>> {
    Seq::new(
        jobs.len(),
        |i: int| job_row(jobs[i], runtime_at(runtimes, i), i as nat, i == selected),
    )
}

/// The list frame's rows.
pub open spec fn list_rows(
    jobs: Seq<ChatAsyncToolJob>,
    runtimes: Seq<Option<i64>>,
    selected: int,
) -> Seq<Seq<char>> {
    let m = monitor_count(jobs);
    let header = seq![
        widgets::accented(
            match counter(m, (jobs.len() - m) as nat) {
                Some(counts) => "Background jobs · "@ + counts,
                None => "Background jobs"@,
            },
        ),
    ];
    if jobs.len() == 0 {
        header.push(
            widgets::faint(
                "nothing running — monitors and async shells appear here while they run"@,
            ),
        ).push(Seq::empty()).push(widgets::faint("esc to close"@))
    } else {
        (header + job_rows(jobs, runtimes, selected)).push(Seq::empty()).push(
            widgets::faint("↑/↓ move · enter to inspect · esc to close"@),
        )
    }
}

fn row_of_job(job: &ChatAsyncToolJob, runtime: Option<i64>, i: usize, selected: bool) -> (r: String)
    requires
        i < usize::MAX,
    ensures
        r@ == job_row(*job, runtime, i as nat, selected),
{
    let number = format_decimal((i + 1) as u64);
    let label = concat3(number.as_str(), ". ", job.title.as_str());
    let running = running_label(runtime);
    let id = short_job_id(job.id.as_str());
    let mut tail = concat3(" — ", job_kind(job), " · ");
    tail.append(running.as_str());
    tail.append(" · job ");
    tail.append(id.as_str());
    let detail = paint_faint(tail.as_str());
    if selected {
        let a = paint_accent("▸ ");
        let b = paint_accent(label.as_str());
        concat3(a.as_str(), b.as_str(), detail.as_str())
    } else {
        let a = paint_faint("  ");
        concat3(a.as_str(), label.as_str(), detail.as_str())
    }
}

/// The jobs browser list: a header with the live counts, one row per running
/// job (title, kind, runtime, short id) and the keys that navigate it. `runtimes`
/// gives each job's age in milliseconds, where it is known.
pub fn render_jobs_list(
    jobs: &[ChatAsyncToolJob],
    runtimes: &[Option<i64>],
    selected: usize,
    width: usize,
) -> (r: Vec<String>)
    ensures
        text::texts(r@) == widgets::framed(
            list_rows(jobs@, runtimes@, selected as int),
            width as nat,
            Seq::empty(),
        ),
{
    let (m, s) = job_counts(jobs);
    let header = match background_counter(m, s) {
        Some(counts) => concat2("Background jobs · ", counts.as_str()),
        None => "Background jobs".to_string(),
    };
    let mut rows: Vec<String> = Vec::new();
    rows.push(paint_accent(header.as_str()));
    let ghost top = text::texts(rows@);
    assert(top =~= seq![widgets::accented(header@)]);
    if jobs.len() == 0 {
        push_row(
            &mut rows,
            paint_faint("nothing running — monitors and async shells appear here while they run"),
        );
        push_row(&mut rows, String::new());
        push_row(&mut rows, paint_faint("esc to close"));
        assert(text::texts(rows@) =~= list_rows(jobs@, runtimes@, selected as int));
        return boxed(&rows, width);
    }
    let ghost want = job_rows(jobs@, runtimes@, selected as int);
    assert(text::texts(rows@) =~= top + want.take(0));
    let mut i: usize = 0;
    while i < jobs.len()
        invariant
            i <= jobs.len(),
            want == job_rows(jobs@, runtimes@, selected as int),
            text::texts(rows@) == top + want.take(i as int),
        decreases jobs.len() - i,
    {
        let runtime: Option<i64> = if i < runtimes.len() {
            runtimes[i]
        } else {
            None
        };
        push_row(&mut rows, row_of_job(&jobs[i], runtime, i, i == selected));
        i = i + 1;
        assert(text::texts(rows@) =~= top + want.take(i as int));
    }
    assert(want.take(i as int) =~= want);
    push_row(&mut rows, String::new());
    push_row(&mut rows, paint_faint("↑/↓ move · enter to inspect · esc to close"));
    assert(text::texts(rows@) =~= list_rows(jobs@, runtimes@, selected as int));
    boxed(&rows, width)
}

/// What a job runs: its command where it has one, else its title.
pub open spec fn script_of(job: ChatAsyncToolJob) -> Seq<char> {
    match job.command {
        Some(command) => if text::is_blank(command@) {
            job.title@
        } else {
            text::trimmed(command@)
        },
        None => job.title@,
    }
}

/// The detail frame's rows.
pub open spec fn detail_rows(
    job: ChatAsyncToolJob,
    runtime_ms: Option<i64>,
    output: Seq<char>,
) -> Seq<Seq<char>> {
    let head = seq![
        widgets::faint("Status:"@) + " "@ + widgets::accented(status_word(job.status)),
        widgets::faint("Runtime:"@) + " "@ + widgets::accented(runtime_text(runtime_ms)),
        widgets::faint("Script:"@) + " "@ + script_of(job),
        Seq::empty(),
        widgets::faint("Output:"@),
    ];
    let tail = text::trimmed_end(output);
    let body = if tail.len() == 0 {
        head.push(widgets::faint("No output available"@))
    } else {
        head + text::lines(tail)
    };
    body.push(Seq::empty()).push(
        widgets::faint("← to go back · Esc/Enter/Space to close"@),
    )
}

/// The detail frame one job opens into: status, runtime, the script, the log
/// tail, and the keys that lead back out.
pub fn render_job_detail(
    job: &ChatAsyncToolJob,
    runtime_ms: Option<i64>,
    output: &str,
    width: usize,
) -> (r: Vec<String>)
    ensures
        text::texts(r@) == widgets::framed(
            detail_rows(*job, runtime_ms, output@),
            width as nat,
            if is_monitor(*job) {
                "Monitor details"@
            } else {
                "Shell details"@
            },
        ),
{
    let title = if monitors(job) {
        "Monitor details"
    } else {
        "Shell details"
    };
    let script = match &job.command {
        Some(command) => {
            let t = trim(command.as_str());
            if t.as_str().unicode_len() == 0 {
                job.title.clone()
            } else {
                t
            }
        },
        None => job.title.clone(),
    };
    let status_key = paint_faint("Status:");
    let status = paint_accent(job_status_label(job));
    let runtime_key = paint_faint("Runtime:");
    let runtime = runtime_clock(runtime_ms);
    let runtime_value = paint_accent(runtime.as_str());
    let script_key = paint_faint("Script:");
    let mut rows: Vec<String> = Vec::new();
    rows.push(concat3(status_key.as_str(), " ", status.as_str()));
    rows.push(concat3(runtime_key.as_str(), " ", runtime_value.as_str()));
    rows.push(concat3(script_key.as_str(), " ", script.as_str()));
    rows.push(String::new());
    rows.push(paint_faint("Output:"));
    let tail = trim_end(output);
    if tail.as_str().unicode_len() == 0 {
        push_row(&mut rows, paint_faint("No output available"));
    } else {
        let mut body = split_lines(tail.as_str());
        proof {
            text::lemma_texts_add(rows@, body@);
        }
        rows.append(&mut body);
    }
    push_row(&mut rows, String::new());
    push_row(&mut rows, paint_faint("← to go back · Esc/Enter/Space to close"));
    assert(text::texts(rows@) =~= detail_rows(*job, runtime_ms, output@));
    boxed_titled(&rows, width, title)
}

/// The counts partition the jobs: each is a monitor or a shell, and a counter
/// shows exactly where a job runs.
pub proof fn law_counts_partition_the_jobs(jobs: Seq<ChatAsyncToolJob>)
    ensures
        monitor_count(jobs) <= jobs.len(),
        counter(monitor_count(jobs), (jobs.len() - monitor_count(jobs)) as nat) is None <==> jobs.len()
            == 0,
    decreases jobs.len(),
{
    if jobs.len() > 0 {
        law_counts_partition_the_jobs(jobs.drop_last());
    }
}

/// The counter names what runs: each kind with its number, one in the singular,
/// both kinds with a dot between them, and nothing where nothing runs.
pub proof fn law_the_counter_names_what_runs(monitors: nat, shells: nat)
    ensures
        ({
            let m = text::decimal(monitors) + (if monitors == 1 {
                " monitor"@
            } else {
                " monitors"@
            });
            let s = text::decimal(shells) + (if shells == 1 {
                " shell"@
            } else {
                " shells"@
            });
            &&& monitors > 0 && shells > 0 ==> counter(monitors, shells) == Some(m + " · "@ + s)
            &&& monitors > 0 && shells == 0 ==> counter(monitors, shells) == Some(m)
            &&& monitors == 0 && shells > 0 ==> counter(monitors, shells) == Some(s)
            &&& monitors == 0 && shells == 0 ==> counter(monitors, shells) is None
        }),
{
    reveal_strlit(" ");
    reveal_strlit("monitor");
    reveal_strlit("monitors");
    reveal_strlit("shell");
    reveal_strlit("shells");
    reveal_strlit(" monitor");
    reveal_strlit(" monitors");
    reveal_strlit(" shell");
    reveal_strlit(" shells");
    assert(text::decimal(monitors) + " "@ + "monitor"@ =~= text::decimal(monitors) + " monitor"@);
    assert(text::decimal(monitors) + " "@ + "monitors"@ =~= text::decimal(monitors)
        + " monitors"@);
    assert(text::decimal(shells) + " "@ + "shell"@ =~= text::decimal(shells) + " shell"@);
    assert(text::decimal(shells) + " "@ + "shells"@ =~= text::decimal(shells) + " shells"@);
}

/// A job counts as a monitor exactly where the tool `MONITOR` started it, and
/// goes by that word then; every other job is a shell.
pub proof fn law_only_the_monitor_tool_makes_monitors(
    jobs: Seq<ChatAsyncToolJob>,
    job: ChatAsyncToolJob,
)
    ensures
        monitor_count(jobs) == jobs.filter(|j: ChatAsyncToolJob| j.tool_name@ == "MONITOR"@).len(),
        job.tool_name@ == "MONITOR"@ ==> kind_word(job) == "monitor"@,
        job.tool_name@ != "MONITOR"@ ==> kind_word(job) == "shell"@,
    decreases jobs.len(),
{
    reveal(Seq::filter);
    if jobs.len() > 0 {
        law_only_the_monitor_tool_makes_monitors(jobs.drop_last(), job);
    }
}

/// A runtime is told in whole seconds below a minute, and else in minutes and
/// seconds, the seconds with two digits. A fraction of a second is left out.
pub proof fn law_a_clock_tells_minutes_and_seconds(minutes: nat, seconds: nat, rest: nat)
    requires
        seconds < 60,
        rest < 1000,
    ensures
        clock_text(seconds * 1000 + rest) == text::decimal(seconds) + "s"@,
        minutes > 0 && seconds >= 10 ==> clock_text((minutes * 60 + seconds) * 1000 + rest)
            == text::decimal(minutes) + "m "@ + text::decimal(seconds) + "s"@,
        minutes > 0 && seconds < 10 ==> clock_text((minutes * 60 + seconds) * 1000 + rest)
            == text::decimal(minutes) + "m 0"@ + text::decimal(seconds) + "s"@,
{
    reveal_strlit("m ");
    reveal_strlit("0");
    reveal_strlit("m 0");
    let total = minutes * 60 + seconds;
    assert((total * 1000 + rest) / 1000 == total) by (nonlinear_arith)
        requires
            rest < 1000,
    ;
    assert((seconds * 1000 + rest) / 1000 == seconds) by (nonlinear_arith)
        requires
            rest < 1000,
    ;
    assert(total / 60 == minutes && total % 60 == seconds) by (nonlinear_arith)
        requires
            total == minutes * 60 + seconds,
            seconds < 60,
    ;
    assert(text::decimal(minutes) + "m "@ + ("0"@ + text::decimal(seconds)) + "s"@
        =~= text::decimal(minutes) + "m 0"@ + text::decimal(seconds) + "s"@);
}

/// An age that is not known is told by the word alone, or by a dash; one from
/// the future counts as none.
pub proof fn law_an_unknown_age_is_not_made_up(ms: i64)
    ensures
        running_text(None) == "running"@,
        runtime_text(None) == "—"@,
        ms >= 0 ==> running_text(Some(ms)) == "running "@ + clock_text(ms as nat)
            && runtime_text(Some(ms)) == clock_text(ms as nat),
        ms < 0 ==> running_text(Some(ms)) == "running "@ + clock_text(0) && runtime_text(Some(ms))
            == clock_text(0),
{
}

/// Every job has its row in the list, in order, with its number, its title and
/// what it is; the one that is selected, and no other, is marked.
pub proof fn law_every_job_is_listed(
    jobs: Seq<ChatAsyncToolJob>,
    runtimes: Seq<Option<i64>>,
    selected: int,
    i: int,
)
    requires
        0 <= i < jobs.len(),
        runtimes.len() == jobs.len(),
    ensures
        ({
            let rows = list_rows(jobs, runtimes, selected);
            let label = text::decimal((i + 1) as nat) + ". "@ + jobs[i].title@;
            let detail = widgets::faint(
                " — "@ + kind_word(jobs[i]) + " · "@ + running_text(runtimes[i]) + " · job "@
                    + text::first_chars(jobs[i].id@, 8),
            );
            &&& rows.len() == jobs.len() + 3
            &&& i == selected ==> rows[i + 1] == widgets::accented("▸ "@) + widgets::accented(
                label,
            ) + detail
            &&& i != selected ==> rows[i + 1] == widgets::faint("  "@) + label + detail
            &&& rows[0] == widgets::accented(
                "Background jobs · "@ + counter(
                    monitor_count(jobs),
                    (jobs.len() - monitor_count(jobs)) as nat,
                )->0,
            )
            &&& rows.last() == widgets::faint("↑/↓ move · enter to inspect · esc to close"@)
        }),
{
    law_counts_partition_the_jobs(jobs);
}

/// What a job runs is its command without white space at the edges, or its
/// title where it has no command that says anything.
pub proof fn law_a_job_runs_its_command(job: ChatAsyncToolJob)
    ensures
        job.command is Some && !text::is_blank(job.command->0@) ==> script_of(job)
            == text::trimmed(job.command->0@),
        job.command is Some && text::is_blank(job.command->0@) ==> script_of(job) == job.title@,
        job.command is None ==> script_of(job) == job.title@,
{
}

/// The detail of a job tells its state, its age and what it runs, and shows
/// every line of its output in order; only white space at the output's end is
/// left out.
pub proof fn law_a_detail_shows_all_output(
    job: ChatAsyncToolJob,
    runtime_ms: Option<i64>,
    output: Seq<char>,
    i: int,
)
    requires
        0 <= i < text::lines(text::trimmed_end(output)).len(),
    ensures
        ({
            let rows = detail_rows(job, runtime_ms, output);
            let shown = text::lines(text::trimmed_end(output));
            &&& rows.len() == shown.len() + 7
            &&& rows[0] == widgets::faint("Status:"@) + " "@ + widgets::accented(
                status_word(job.status),
            )
            &&& rows[1] == widgets::faint("Runtime:"@) + " "@ + widgets::accented(
                runtime_text(runtime_ms),
            )
            &&& rows[2] == widgets::faint("Script:"@) + " "@ + script_of(job)
            &&& rows[5 + i] == shown[i]
        }),
        job.status is Running ==> status_word(job.status) == "running"@,
        job.status is Completed ==> status_word(job.status) == "completed"@,
        job.status is Failed ==> status_word(job.status) == "failed"@,
{
    let tail = text::trimmed_end(output);
    if tail.len() == 0 {
        text::law_a_text_without_line_feed_is_one_line(tail);
    }
}

} // verus!
