//! Markdown as terminal text.

use drip::tui::markdown_ansi::{
    render_markdown_ansi, BOLD, DIM, GREEN, RESET, UNDERLINE, YELLOW,
};

#[test]
fn headings_are_bold_and_body_keeps_emphasis() {
    let rendered = render_markdown_ansi("# Title\n\nSome **bold** and `code` here.\n");

    assert!(rendered.starts_with(&format!("{BOLD}{UNDERLINE}{GREEN}Title{RESET}")));
    assert!(rendered.contains(&format!("{BOLD}bold{RESET}")));
    assert!(rendered.contains(&format!("{YELLOW}code{RESET}")));
    assert!(!rendered.ends_with('\n'));
}

#[test]
fn fences_lists_and_quotes_render_line_by_line() {
    let rendered = render_markdown_ansi("- one\n- **two**\n\n```\nlet x = 1;\n```\n> note\n1. first\n");
    let lines: Vec<&str> = rendered.split('\n').collect();

    assert_eq!(lines[0], "  * one");
    assert_eq!(lines[1], format!("  * {BOLD}two{RESET}"));
    assert_eq!(lines[3], format!("{DIM}  let x = 1;{RESET}"));
    assert_eq!(lines[4], format!("{DIM}│ note{RESET}"));
    assert_eq!(lines[5], "  1. first");
}

#[test]
fn unbalanced_markers_pass_through() {
    assert_eq!(render_markdown_ansi("a * b ** c ` d"), "a * b ** c ` d");
    assert_eq!(render_markdown_ansi("snake_case_name stays"), "snake_case_name stays");
}
