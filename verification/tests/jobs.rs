//! The browser of background jobs.

use drip::tools::types::{ChatAsyncToolJob, ChatAsyncToolJobStatus};
use drip::tui::jobs::{
    background_counter, job_counts, job_kind, render_job_detail, render_jobs_list,
};

fn job(id: &str, tool_name: &str, title: &str) -> ChatAsyncToolJob {
    ChatAsyncToolJob {
        command: None,
        cwd: "/tmp".to_string(),
        error: None,
        exit_code: None,
        finished_at: None,
        id: id.to_string(),
        log_path: "/tmp/job.log".to_string(),
        started_at: "2026-01-01T00:00:00Z".to_string(),
        status: ChatAsyncToolJobStatus::Running,
        title: title.to_string(),
        tool_name: tool_name.to_string(),
    }
}

fn plain(rows: &[String]) -> Vec<String> {
    let strip = regex::Regex::new("\u{1b}\\[[0-9;]*m").expect("ansi regex");
    rows.iter()
        .map(|row| strip.replace_all(row, "").into_owned())
        .collect()
}

#[test]
fn background_counter_names_each_kind_and_only_when_live() {
    assert_eq!(background_counter(0, 0), None);
    assert_eq!(background_counter(1, 0).as_deref(), Some("1 monitor"));
    assert_eq!(background_counter(2, 0).as_deref(), Some("2 monitors"));
    assert_eq!(background_counter(0, 1).as_deref(), Some("1 shell"));
    assert_eq!(background_counter(0, 3).as_deref(), Some("3 shells"));
    assert_eq!(
        background_counter(1, 2).as_deref(),
        Some("1 monitor · 2 shells")
    );
}

#[test]
fn counts_split_monitors_from_shells() {
    let jobs = vec![
        job("monitor-1", "MONITOR", "monitor: watch the build"),
        job("shell-1", "BASH_ASYNC", "cargo test --lib"),
        job("shell-2", "BASH_ASYNC", "bun test"),
    ];
    assert_eq!(job_counts(&jobs), (1, 2));
    assert_eq!(job_counts(&[]), (0, 0));
    assert_eq!(job_kind(&jobs[0]), "monitor");
    assert_eq!(job_kind(&jobs[1]), "shell");
}

#[test]
fn the_list_rows_carry_kind_runtime_and_the_navigation_hint() {
    let jobs = vec![
        job("monitor-1", "MONITOR", "monitor: watch the build"),
        job("shell-1", "BASH_ASYNC", "cargo test --lib"),
    ];
    let rows = plain(&render_jobs_list(&jobs, &[None, None], 1, 72));
    let text = rows.join("\n");
    assert!(
        text.contains("Background jobs · 1 monitor · 1 shell"),
        "{text}"
    );
    assert!(text.contains("1. monitor: watch the build"), "{text}");
    assert!(text.contains("2. cargo test --lib"), "{text}");
    assert!(text.contains("job monitor-"), "{text}");
    assert!(text.contains("enter to inspect"), "{text}");
}

#[test]
fn each_row_names_its_kind_beside_what_runs() {
    let jobs = vec![
        job("monitor-1", "MONITOR", "monitor: watch the build"),
        job("shell-1", "BASH_ASYNC", "cargo test --lib"),
    ];
    let text = plain(&render_jobs_list(&jobs, &[None, Some(20_000)], 0, 80)).join("\n");
    assert!(
        text.contains("1. monitor: watch the build — monitor · running · job monitor-"),
        "{text}"
    );
    assert!(
        text.contains("2. cargo test --lib — shell · running 20s · job shell-1"),
        "{text}"
    );
}

#[test]
fn an_empty_browser_says_so_instead_of_showing_a_blank_box() {
    let rows = plain(&render_jobs_list(&[], &[], 0, 72));
    let text = rows.join("\n");
    assert!(text.contains("nothing running"), "{text}");
    assert!(text.contains("esc to close"), "{text}");
}

#[test]
fn the_detail_frame_shows_status_runtime_script_and_output() {
    let mut monitor = job("monitor-1", "MONITOR", "monitor: watch the build");
    let rows = plain(&render_job_detail(&monitor, Some(20_000), "", 72));
    let text = rows.join("\n");
    assert!(text.contains("Monitor details"), "{text}");
    assert!(text.contains("Status: running"), "{text}");
    assert!(text.contains("Runtime: 20s"), "{text}");
    // A monitor's script line falls back to its title when it has no
    // command of its own.
    assert!(text.contains("Script: monitor: watch the build"), "{text}");
    assert!(text.contains("No output available"), "{text}");
    assert!(text.contains("← to go back"), "{text}");

    monitor.command = Some("sleep 120; echo \"foo bar baz\"".to_string());
    let rows = plain(&render_job_detail(
        &monitor,
        Some(1_500),
        "line one\nline two\n",
        72,
    ));
    let text = rows.join("\n");
    assert!(text.contains("Script: sleep 120"), "{text}");
    assert!(text.contains("line two"), "{text}");
    assert!(!text.contains("No output available"), "{text}");
}

#[test]
fn a_shell_job_gets_the_shell_detail_title_and_its_own_status_word() {
    let mut shell = job("shell-1", "BASH_ASYNC", "cargo test --lib");
    shell.command = Some("cargo test --lib".to_string());
    shell.status = ChatAsyncToolJobStatus::Failed;
    let text = plain(&render_job_detail(&shell, Some(2_000), "boom", 72)).join("\n");
    assert!(text.contains("Shell details"), "{text}");
    assert!(text.contains("Status: failed"), "{text}");
    assert!(text.contains("Runtime: 2s"), "{text}");
}
