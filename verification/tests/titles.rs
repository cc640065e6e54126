//! The life of the pane title.

use drip::tui::app::status_row::sanitize_status_line;
use drip::tui::app::titles::{
    apply_rename_label, apply_title_result, should_rearm_title_tick, should_request_auto_title,
    should_request_title, TERMINAL_TITLE_ENABLED_SETTING_ID,
};
use drip::tui::pane_title::{fallback_title, osc2, sanitize, PaneTitle, SPINNER_INTERVAL_MS};

fn enabled_settings() -> indexmap::IndexMap<String, String> {
    indexmap::IndexMap::new()
}

const NOW: u64 = 10_000;

fn pane(goal: &str) -> Option<PaneTitle> {
    Some(PaneTitle::new(goal))
}

fn label(title: &Option<PaneTitle>) -> String {
    title.as_ref().expect("a title").label().to_string()
}

#[test]
fn title_request_gate_is_tty_enabled_and_one_shot() {
    let settings = enabled_settings();
    assert!(should_request_title(true, &settings, false));
    // Headless, redirected, or worker children: never request.
    assert!(!should_request_title(false, &settings, false));
    // Explicit opt-out disables the request entirely.
    let mut off = settings.clone();
    off.insert(
        TERMINAL_TITLE_ENABLED_SETTING_ID.to_string(),
        "false".to_string(),
    );
    assert!(!should_request_title(true, &off, false));
    // Exactly one request per session.
    assert!(!should_request_title(true, &settings, true));
}

#[test]
fn generated_label_replaces_fallback_with_sanitized_bounded_escape() {
    let mut title = pane("fix the login bug");
    let escape = apply_title_result(
        &mut title,
        0,
        0,
        Some("\x1b]2;pwn\x07fix the login bug and the signup flow too".to_string()),
        NOW,
    )
    .expect("escape expected");
    assert!(escape.starts_with("\x1b]2;") && escape.ends_with('\x07'));
    assert!(!escape.contains("pwn"));
    assert!(label(&title).split_whitespace().count() <= 5);
}

#[test]
fn stale_generation_result_from_previous_session_is_rejected() {
    // switch_session bumps the epoch before the old session's result lands.
    let mut title = pane("old goal");
    assert!(apply_title_result(
        &mut title,
        1,
        0,
        Some("stale title".to_string()),
        NOW,
    )
    .is_none());
    assert_eq!(label(&title), fallback_title("old goal"));
}

#[test]
fn failed_generation_keeps_fallback_and_headless_title_is_none() {
    // Generation failure (None label): the fallback label survives.
    let mut title = pane("my goal");
    assert!(apply_title_result(&mut title, 0, 0, None, NOW).is_none());
    assert_eq!(label(&title), fallback_title("my goal"));
    // No pane title at all (headless/no-TTY): results are dropped safely.
    assert!(
        apply_title_result(&mut None, 0, 0, Some("unused".to_string()), NOW).is_none()
    );
}

#[test]
fn busy_ticks_produce_distinct_spinner_frames() {
    // The main loop's tick consumption must actually animate the busy
    // title: two due ticks, one spinner interval apart, emit different
    // frames around the same stable label.
    let mut title = PaneTitle::new("fix the login bug");
    let start = NOW;
    assert!(title.set_busy(true, start).is_some());
    let step = SPINNER_INTERVAL_MS;
    let first = title.tick(start + step).expect("first due tick emits");
    let second = title.tick(start + 2 * step).expect("second due tick emits");
    assert_ne!(first, second, "spinner frames must advance between ticks");
    assert!(first.starts_with("\x1b]2;") && first.ends_with('\x07'));
    assert!(second.ends_with("fix the login bug\x07"));
}

#[test]
fn idle_ticks_never_rearm_the_spinner_deadline() {
    // A fired tick while idle must not re-arm the deadline: the re-arm
    // gate is busy-only, so title ticks can never drive the event loop
    // into a zero-wait busy poll.
    let at = NOW;
    let step = SPINNER_INTERVAL_MS;
    // Headless (no pane title): nothing to re-arm.
    assert!(!should_rearm_title_tick(None));
    // A title that never went busy: its ticks are inert.
    let mut idle = PaneTitle::new("another goal");
    assert!(idle.tick(at).is_none());
    assert!(!should_rearm_title_tick(Some(&idle)));
    // The finish_run path: busy then idled — later ticks stay inert and
    // the switch stays closed.
    let mut done = PaneTitle::new("finish the run");
    assert!(done.set_busy(true, at).is_some());
    assert!(done.set_busy(false, at + step).is_some());
    assert!(done.tick(at + 2 * step).is_none());
    assert!(!should_rearm_title_tick(Some(&done)));
    // The only live re-arm case: a title that is busy.
    let mut busy = PaneTitle::new("run the goal");
    assert!(busy.set_busy(true, at).is_some());
    assert!(should_rearm_title_tick(Some(&busy)));
}

#[test]
fn title_escapes_and_custom_status_line_coexist_sanitized() {
    // The OSC 2 pane-title stream and the custom status line sanitize
    // independently: neither leaks control sequences into the other.
    // The label is sanitized BEFORE wrapping, so the escape carries a
    // clean payload; the status-line sanitizer runs on the plain label
    // text and strips any residual control sequences.
    let raw = "\x1b]2;pwn\x07 \u{24b8}fix\tlogin\nbug\x1b[2J";
    let label = sanitize(raw);
    assert!(
        !label.contains('\x1b') && !label.contains('\x07'),
        "{label:?}"
    );
    let title = osc2(&label);
    assert!(
        title.starts_with("\x1b]2;") && title.ends_with('\x07'),
        "{title:?}"
    );
    assert!(
        !title.contains("pwn") && !title.contains("\x1b[2J"),
        "{title:?}"
    );
    let row = sanitize_status_line(&label, 20, 0);
    assert!(row.contains("fix login bug"), "{row:?}");
    assert!(!row.contains('\x1b') && !row.contains('\x07'), "{row:?}");
    assert!(row.chars().count() <= 20);
}
#[test]
fn auto_title_yields_to_a_persisted_rename_name() {
    let settings = enabled_settings();
    // An explicit /rename name wins: no auto-title even on a fresh,
    // TTY-visible, enabled session.
    assert!(!should_request_auto_title(
        true,
        &settings,
        false,
        Some("User Chosen Name")
    ));
    // Without one, the usual gate applies unchanged.
    assert!(should_request_auto_title(true, &settings, false, None));
    assert!(!should_request_auto_title(false, &settings, false, None));
    assert!(!should_request_auto_title(true, &settings, true, None));
}

#[test]
fn rename_label_materializes_a_title_only_on_a_tty() {
    // Before any goal there is no pane title: on a real terminal the
    // chosen name materializes one...
    let mut pane_title: Option<PaneTitle> = None;
    apply_rename_label(&mut pane_title, "Alpha Beta Gamma", true, NOW);
    let title = pane_title.expect("materialized on a tty");
    assert_eq!(title.label(), "Alpha Beta Gamma");
    // ...headless runs never materialize one (no escapes on piped
    // stdout).
    let mut pane_title: Option<PaneTitle> = None;
    apply_rename_label(&mut pane_title, "Alpha Beta Gamma", false, NOW);
    assert!(pane_title.is_none());
}
