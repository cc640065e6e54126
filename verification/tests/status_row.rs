//! The custom status row.

use drip::ansi::string_width;
use drip::tui::app::status_row::{
    custom_status_row_from, StatusLineOutput, StatusLineRequest, StatusLineRunner,
    StatusLineSetting,
};

fn output(line: &str, ok: bool) -> StatusLineOutput {
    StatusLineOutput {
        line: line.to_string(),
        ok,
        fresh: true,
        finished_at: 0,
    }
}

fn bare_request() -> StatusLineRequest {
    StatusLineRequest {
        session_id: None,
        cwd: None,
        model_id: None,
        model_display_name: None,
        version: None,
        render_width_chars: 80,
        context_usage: None,
    }
}

fn command_setting(command: &str) -> StatusLineSetting {
    StatusLineSetting {
        kind: "command".to_string(),
        command: command.to_string(),
        padding: 0,
        update_interval_ms: 300,
        timeout_ms: 5_000,
    }
}

#[test]
fn no_custom_output_keeps_default_bar() {
    // Not configured, or configured but nothing finished yet: default bar.
    assert!(custom_status_row_from(None, 80, 0).is_none());
    assert!(custom_status_row_from(Some(&output("", true)), 80, 0).is_none());
}

#[test]
fn failed_or_timed_out_output_falls_back_to_default_bar() {
    assert!(custom_status_row_from(Some(&output("ignored", false)), 80, 0).is_none());
}

#[test]
fn stale_success_row_is_dropped_on_any_later_failure_or_blank() {
    // The runner delivers every finished job; the renderer keeps only the
    // newest: a success paints, but any later failure, timeout, blank, or
    // missing output renders the built-in bar, never a stale custom row.
    assert!(custom_status_row_from(Some(&output("current", true)), 40, 0).is_some());
    assert!(custom_status_row_from(Some(&output("stale", false)), 40, 0).is_none());
    assert!(custom_status_row_from(Some(&output("", true)), 40, 0).is_none());
    assert!(custom_status_row_from(None, 40, 0).is_none());
}

#[test]
fn custom_ansi_output_is_exact_width_with_reset() {
    let row = custom_status_row_from(Some(&output("\x1b[32mok\x1b[0m", true)), 10, 0).unwrap();
    assert!(row.starts_with("\x1b[32mok\x1b[0m"), "{row:?}");
    assert_eq!(string_width(&row), 10);
    assert!(row.ends_with("\x1b[0m"));
}

#[test]
fn custom_row_survives_narrow_unicode_and_padding() {
    let wide = custom_status_row_from(Some(&output("コード drip", true)), 4, 0).unwrap();
    assert_eq!(string_width(&wide), 4);
    // Width>0 pads to exactly the requested cells; padding 2 shows as two
    // leading spaces before the content.
    let row = custom_status_row_from(Some(&output("ab", true)), 80, 2).unwrap();
    assert_eq!(string_width(&row), 80);
    assert!(row.starts_with("  ab"), "{row:?}");
}

#[test]
fn shutdown_runner_ignores_refresh_requests() {
    let mut runner = StatusLineRunner::new(command_setting("true"));
    runner.shutdown();
    assert!(!runner.request_refresh(&bare_request()));
}
