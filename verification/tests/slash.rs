//! Slash commands and the texts around them.

use drip::ansi::{clip_ansi, string_width};
use drip::tui::app::slash::{
    get_slash_command_suggestions, help_text, parse_slash_command, slash_commands,
};

#[test]
fn clip_ansi_keeps_sgr_codes() {
    let row = format!("\x1b[7m{}\x1b[27m", "x".repeat(20));
    let clipped = clip_ansi(&row, 5);
    assert!(clipped.starts_with("\x1b[7m"));
    assert_eq!(string_width(&clipped), 5);
    assert_eq!(clip_ansi("short", 10), "short");
}

#[test]
fn help_text_lists_every_slash_command() {
    let text = help_text();
    for command in slash_commands() {
        assert!(
            text.contains(&format!("/{}", command.name)),
            "{}",
            command.name
        );
    }
    assert!(text.contains("ctrl+c — exit"));
}
#[test]
fn the_help_text_lists_the_jobs_command_and_its_key() {
    let help = help_text();
    assert!(help.contains("/jobs"), "{help}");
    assert!(help.contains("ctrl+b"), "{help}");
}


#[test]
fn a_command_is_a_name_and_its_arguments() {
    let command = parse_slash_command("  /Rename  two words ").expect("a command");
    assert_eq!(command.name, "rename");
    assert_eq!(command.args, "two words");
    assert!(parse_slash_command("/usr/bin/env").is_none());
    assert!(parse_slash_command("help").is_none());
    assert!(parse_slash_command("/").is_none());
}

#[test]
fn the_menu_offers_the_commands_that_begin_as_typed() {
    assert_eq!(get_slash_command_suggestions("/he"), vec!["help"]);
    assert!(get_slash_command_suggestions("/help me").is_empty());
    assert!(get_slash_command_suggestions("he").is_empty());
}
