//! The title of the terminal pane.

use drip::tui::pane_title::{
    fallback_title, frame_for, osc2, sanitize, PaneTitle, FALLBACK_LABEL, MAX_TITLE_CHARS,
    MAX_TITLE_WORDS, SPINNER_FRAMES,
};

#[test]
fn fallback_bounds_goal_to_five_words_and_chars() {
    assert_eq!(fallback_title("fix the login bug"), "fix the login bug");
    assert_eq!(fallback_title("  refactor   the\t parser\n "), "refactor the parser");
    assert_eq!(
        fallback_title("one two three four five six seven"),
        "one two three four five"
    );
    // A single very long word is dropped whole, falling back cleanly.
    let long = "w".repeat(80);
    assert_eq!(fallback_title(&long), FALLBACK_LABEL);
    assert_eq!(fallback_title(""), FALLBACK_LABEL);
    assert_eq!(fallback_title("   "), FALLBACK_LABEL);
    assert!(
        fallback_title("ok this is fine but too long overall")
            .chars()
            .count()
            <= MAX_TITLE_CHARS
    );
}

#[test]
fn sanitize_survives_malicious_model_and_goal_output() {
    // OSC body is consumed through BEL, so "pwned" never surfaces.
    assert_eq!(sanitize("\x1b]2;pwned\x07safe"), "safe");
    assert_eq!(sanitize("\x1b[2J\x1b[31mred\x1b[0m"), "red");
    assert_eq!(sanitize("a\x07b\x1bc"), "ab");
    assert_eq!(sanitize("x\u{9b}31my"), "x31my"); // C1 CSI single-byte form
    assert_eq!(sanitize("say \"hi\" now"), "say hi now");
    assert_eq!(sanitize("line1\r\nline2"), "line1 line2");
    assert!(!sanitize("\x1b]0;evil\x1b\\ok").contains('\x1b'));
    assert!(sanitize("tab\tsep").chars().all(|c| !c.is_control()));
}

#[test]
fn unicode_labels_are_preserved_and_bounded() {
    assert_eq!(
        fallback_title("Débugger l'authentification"),
        "Débugger lauthentification"
    );
    assert_eq!(
        fallback_title("修复登录问题 增加测试 改进文档 优化性能 重构代码"),
        "修复登录问题 增加测试 改进文档 优化性能 重构代码"
    );
    let emoji = "🦀🦀🦀🦀🦀🦀🦀🦀";
    let bounded = fallback_title(emoji);
    assert!(bounded.chars().count() <= MAX_TITLE_CHARS);
    assert!(bounded.starts_with('🦀'));
}

#[test]
fn spinner_frames_are_time_driven_and_cycle() {
    assert_eq!(frame_for(0), SPINNER_FRAMES[0]);
    assert_eq!(frame_for(100), SPINNER_FRAMES[1]);
    assert_eq!(frame_for(950), SPINNER_FRAMES[9]);
    assert_eq!(frame_for(1000), SPINNER_FRAMES[0]);
}

#[test]
fn animation_advances_without_harness_events() {
    let start: u64 = 10_000;
    let mut title = PaneTitle::new("fix login bug");
    let first = title.set_busy(true, start).expect("busy emits first frame");
    assert_eq!(first, osc2("⠋ fix login bug"));

    // tick at +150ms -> second frame, purely from the clock.
    let second = title
        .tick(start + 150)
        .expect("frame advances");
    assert_eq!(second, osc2("⠙ fix login bug"));

    // tick at +180ms -> throttled to None.
    assert_eq!(title.tick(start + 180), None);

    // Much later the cycle wraps deterministically.
    let later = title
        .tick(start + 1000)
        .expect("frame advances");
    assert_eq!(later, osc2("⠋ fix login bug"));
}

#[test]
fn idle_state_has_no_spinner_and_transitions_dedupe() {
    let start: u64 = 10_000;
    let mut title = PaneTitle::new("fix login bug");

    // Idle from the start: one bare-label emission, ticks do nothing.
    assert_eq!(
        title.set_busy(false, start),
        None,
        "redundant idle set is a no-op"
    );
    assert_eq!(title.tick(start + 5_000), None);

    // busy -> idle emits the bare label again.
    title.set_busy(true, start + 10_000);
    let idle = title
        .set_busy(false, start + 11_000)
        .expect("idle emits bare label");
    assert_eq!(idle, osc2("fix login bug"));

    // Repeated idle transitions are deduplicated.
    assert_eq!(title.set_busy(false, start + 12_000), None);
    // Redundant busy set (already busy) is a no-op.
    title.set_busy(true, start + 13_000);
    assert_eq!(title.set_busy(true, start + 14_000), None);
}

#[test]
fn first_update_emits_bare_label_once() {
    let start: u64 = 10_000;
    let mut title = PaneTitle::new("fix login bug");
    // The constructor emits nothing; the first update does, exactly once,
    // and a second identical update is deduplicated.
    assert_eq!(title.update(start), Some(osc2("fix login bug")));
    assert_eq!(title.update(start + 1), None);
}

#[test]
fn identical_titles_are_deduplicated() {
    let start: u64 = 10_000;
    let mut title = PaneTitle::new("fix login bug");
    assert!(title.set_busy(true, start).is_some());
    // tick at +30ms: the spinner frame advanced (⠋ -> ⠙), so the composed
    // title differs and is emitted once; a further tick inside the same
    // 100ms window is throttled to None.
    // tick at +30ms is inside the 100ms spinner window -> throttled.
    assert_eq!(title.tick(start + 30), None);
    // tick at +150ms advances the frame purely from the clock.
    let second = title
        .tick(start + 150)
        .expect("frame advances");
    assert_eq!(second, osc2("⠙ fix login bug"));
    // tick at +180ms is throttled again.
    assert_eq!(title.tick(start + 180), None);
    // Setting the same label emits nothing (frame and label unchanged).
    assert_eq!(
        title
            .set_label("fix login bug", start + 160),
        None
    );
    // A different label emits again.
    assert!(
        title
            .set_label("refactor parser", start + 240)
            .is_some()
    );
    // Idle: bare label emitted, then the same words in an unsanitized
    // variant sanitize to the identical label and dedupe to None.
    assert!(
        title
            .set_busy(false, start + 250)
            .is_some()
    );
    assert_eq!(
        title
            .set_label("  refactor\t\"parser\" ", start + 260),
        None
    );
}

#[test]
fn generated_labels_stay_bounded_and_safe() {
    let start: u64 = 10_000;
    let mut title = PaneTitle::new("fix login bug");
    title.set_busy(true, start);

    let hostile = "\x1b]2;hacked\x07 write tests   for   parser now please extra";
    let escape = title
        .set_label(hostile, start + 150)
        .expect("new label emits");
    let inner = escape
        .strip_prefix("\x1b]2;")
        .and_then(|rest| rest.strip_suffix('\x07'))
        .unwrap();
    // The injected OSC header (through BEL) is consumed, so "hacked" is gone.
    assert_eq!(inner, "⠙ write tests for parser now");
    assert!(!inner.contains("hacked"));
    assert!(!inner.contains('\x1b'));
    // 5 label words plus the one spinner frame.
    assert!(inner.split_whitespace().count() <= MAX_TITLE_WORDS + 1);
}
