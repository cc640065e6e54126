//! The library's laws on concrete values.

use drip::ansi::{char_width, clip_ansi, dim, gray, string_width, strip_ansi, white};
use drip::chat_types::{OpenAICompatibleResponse, ReplyContent, ResponseChoice, ResponseMessage};
use drip::paths::with_file_name;
use drip::text::{format_signed, parse_number, split_words, trim};
use drip::tools::pack::{clamp_lines, clamp_timeout_ms};
use drip::tools::patch_journal::{
    append_patch_journal, journal_records, undo_last_patches, AppendPatchJournalEntry, JournalLine,
    UndoAction, UndoOutcome,
};
use drip::tui::app::asking::{after_append, answers_path, AppendStep};
use drip::tui::app::clockwork::grace_left;
use drip::tui::app::composer::{filter_skill_catalog, Composer};
use drip::tui::app::history::PromptHistory;
use drip::tui::app::input::{decode_input, take_whole, Key};
use drip::tui::app::layout::{composer_cursor_at, composer_cursor_position, composer_lines};
use drip::tui::app::mcp::{mcp_command, mcp_gate_off, mcp_spawn_names, mcp_spawn_report, McpServer, McpSpawn};
use drip::tui::app::overlay::{Overlay, OverlayKind, PickerItem};
use drip::tui::app::skills::{
    canonical_skill_name, collect_skill_rows, deactivate, estimate_tokens, is_active,
    skill_is_locked, visible_skill_rows, FoundSkill, LoadedSkill, PluginSkill, SkillSource,
};
use drip::tui::app::survey::{
    HarnessSurveyOption, HarnessSurveyQuestion, QuestionSurvey, SurveyState,
};
use drip::tui::app::typing::operator_line;
use drip::tui::btw::{
    ask_btw, btw_chat_lines, extract_btw_reply, is_btw_line, sanitize_btw_reply, BtwCall,
    BTW_MAX_REPLY_CHARS,
};
use drip::tui::images::{kitty_graphics_escape, markdown_image_paths};
use drip::tui::jobs::{clock, running_label, runtime_clock};
use drip::tui::markdown_ansi::{render_inline, render_markdown_ansi};
use drip::tui::pane_title::{fallback_title, sanitize, strip_control};
use drip::tui::session_name::{
    extract_session_name, is_valid_session_name, persist_session_name, read_session_name,
};
use drip::tui::timeline::wrap_rows;

fn reply(text: &str) -> OpenAICompatibleResponse {
    OpenAICompatibleResponse {
        choices: Some(vec![ResponseChoice {
            message: Some(ResponseMessage {
                content: Some(ReplyContent::Text(text.to_string())),
            }),
        }]),
    }
}

#[test]
fn painting_adds_no_columns() {
    for painted in [dim("añb"), white("añb"), gray("añb")] {
        assert_eq!(strip_ansi(&painted), "añb");
        assert_eq!(string_width(&painted), 3);
    }
    assert_eq!(char_width('漢'), 2);
    assert_eq!(string_width("漢字"), 4);
}

#[test]
fn a_clipped_row_fits() {
    for width in 0..8 {
        assert!(string_width(&clip_ansi("\u{1b}[1mab漢字cd\u{1b}[0m", width)) <= width);
    }
}

#[test]
fn wrapping_loses_no_character() {
    let text = "The quick brown fox jumps over the lazy dog";
    for width in [1usize, 5, 10, 100] {
        assert_eq!(wrap_rows(text, width).concat(), text, "{width}");
    }
}

#[test]
fn numbers_read_as_they_are_written() {
    assert_eq!(parse_number("0042"), Some(42));
    assert_eq!(parse_number("+7"), Some(7));
    for other in ["", "+", "-1", "1 ", "99999999999999999999999"] {
        assert_eq!(parse_number(other), None, "{other}");
    }
    assert_eq!(format_signed(i64::MIN), "-9223372036854775808");
    assert_eq!(trim("\u{3000} x\u{85}"), "x");
    assert_eq!(split_words(" a\u{a0}b\n"), vec!["a", "b"]);
}

#[test]
fn reads_of_a_log_stay_in_bounds() {
    for asked in [i64::MIN, -1, 0, 1, 80, 400, 401, i64::MAX] {
        assert!((1..=400).contains(&clamp_lines(Some(asked))));
        assert!((0..=3_600_000).contains(&clamp_timeout_ms(Some(asked))));
    }
}

#[test]
fn walking_back_gives_the_files_back() {
    let edits = [("a", "one", None), ("b", "two", None), ("a", "three", Some("one"))];
    let lines: Vec<JournalLine> = edits
        .iter()
        .map(|(path, post, pre)| JournalLine {
            raw: format!("{path}:{post}"),
            entry: Some(append_patch_journal(
                "2026-01-01T00:00:00.000Z",
                &AppendPatchJournalEntry {
                    path: path.to_string(),
                    post_content: post.to_string(),
                    pre_image: pre.map(str::to_string),
                },
            )),
        })
        .collect();
    let mut files = vec![("a".to_string(), "three".to_string()), ("b".to_string(), "two".to_string())];
    let mut walk = undo_last_patches(lines, 3);
    while let Some(path) = walk.next_path() {
        let current = files
            .iter()
            .find(|(name, _)| *name == path)
            .map(|(_, content)| content.clone());
        match walk.settle(current.as_deref()) {
            UndoAction::Keep => unreachable!("every file is as it was written"),
            UndoAction::Delete { path } => files.retain(|(name, _)| *name != path),
            UndoAction::Restore { path, content } => {
                files.retain(|(name, _)| *name != path);
                files.push((path, content));
            }
        }
    }
    assert!(files.is_empty(), "{files:?}");
    let (outcomes, journal) = walk.finish();
    assert_eq!(journal, "");
    assert_eq!(
        outcomes,
        vec![
            UndoOutcome::Undone { path: "a".to_string() },
            UndoOutcome::Deleted { path: "b".to_string() },
            UndoOutcome::Deleted { path: "a".to_string() },
        ]
    );
}

#[test]
fn only_as_many_edits_are_undone_as_were_asked_for() {
    let line = |n: usize| JournalLine {
        raw: format!("{n}"),
        entry: Some(append_patch_journal(
            "t",
            &AppendPatchJournalEntry {
                path: format!("f{n}"),
                post_content: "x".to_string(),
                pre_image: None,
            },
        )),
    };
    let mut walk = undo_last_patches(vec![line(1), line(2), line(3)], 1);
    assert_eq!(walk.next_path().as_deref(), Some("f3"));
    walk.settle(Some("x"));
    assert_eq!(walk.next_path(), None);
    assert_eq!(walk.finish().1, "1\n2\n");
    let (outcomes, _) = undo_last_patches(Vec::new(), 1).finish();
    assert_eq!(outcomes, vec![UndoOutcome::Empty]);
}

#[test]
fn no_byte_of_the_input_is_lost() {
    let text = "añ漢😀z".as_bytes();
    let mut pending: Vec<u8> = Vec::new();
    let mut read: Vec<u8> = Vec::new();
    for byte in text {
        pending.push(*byte);
        let whole = take_whole(&mut pending);
        assert!(std::str::from_utf8(&whole).is_ok());
        assert!(pending.len() <= 3);
        read.extend(whole);
    }
    assert_eq!(read, text);
    assert!(pending.is_empty());
}

#[test]
fn a_paste_spans_reads() {
    let mut buffer = None;
    assert!(decode_input(b"\x1b[200~one\ntw", &mut buffer).is_empty());
    let keys = decode_input(b"o\x1b[201~", &mut buffer);
    assert_eq!(keys, vec![Key::Paste("one\ntwo".to_string())]);
    assert!(buffer.is_none());
}

#[test]
fn every_cursor_stands_on_a_line() {
    let text = "alpha beta\ngamma\n";
    for width in [1usize, 4, 6, 40] {
        let lines = composer_lines(text, width);
        assert_eq!(lines[0].start, 0);
        for cursor in 0..=text.chars().count() {
            let (line, column) = composer_cursor_position(text, width, cursor);
            assert!(line < lines.len());
            assert_eq!(lines[line].start + column, cursor);
            assert!(composer_cursor_at(text, width, line, column) <= cursor);
        }
        let (last, _) = composer_cursor_position(text, width, text.chars().count());
        assert_eq!(last, lines.len() - 1);
    }
}

#[test]
fn erasing_undoes_typing() {
    let mut composer = Composer::new(Vec::new());
    composer.apply_edit("añc".to_string(), 2);
    composer.insert_text("漢");
    assert_eq!((composer.text.as_str(), composer.cursor), ("añ漢c", 3));
    composer.erase();
    assert_eq!((composer.text.as_str(), composer.cursor), ("añc", 2));
    let seq = composer.mention_seq;
    composer.apply_edit("x".to_string(), 9);
    assert_eq!(composer.cursor, 1);
    assert_ne!(composer.mention_seq, seq);
}

#[test]
fn a_lookup_of_an_older_text_is_dropped() {
    let mut composer = Composer::new(Vec::new());
    composer.apply_edit("@src".to_string(), 4);
    let (seq, query) = composer.mention_request.take().expect("a lookup is asked for");
    assert_eq!(query, "src");
    assert!(!composer.adopt_mentions(seq.wrapping_sub(1), vec!["stale".to_string()]));
    assert!(composer.mention_suggestions.is_empty());
    assert!(composer.adopt_mentions(seq, vec!["src/lib.rs".to_string()]));
    assert!(composer.accept_suggestion());
    assert!(composer.text.starts_with("@src/lib.rs"), "{}", composer.text);
}

#[test]
fn the_skill_menu_never_offers_a_command() {
    let catalog: Vec<(String, String)> = (0..12)
        .map(|n| (format!("nav{n}"), String::new()))
        .chain([("navigate".to_string(), String::new())])
        .collect();
    let menu = filter_skill_catalog(&catalog, "NAV", &vec!["nav3".to_string()]);
    assert_eq!(menu.len(), 8);
    assert!(menu.iter().all(|(name, _)| name != "nav3"));
}

#[test]
fn history_keeps_no_repetition_and_ends_the_walk() {
    let mut history = PromptHistory::new(2);
    for prompt in ["a", "a", "b", "c"] {
        history.record(prompt);
    }
    assert_eq!(history.entries, vec!["b", "c"]);
    assert_eq!(history.older("draft").as_deref(), Some("c"));
    assert!(history.is_browsing());
    history.record("c");
    assert!(!history.is_browsing());
    assert_eq!(history.entries, vec!["b", "c"]);
}

#[test]
fn a_selection_stays_on_a_row() {
    let item = |id: &str| PickerItem {
        detail: None,
        id: id.to_string(),
        label: id.to_string(),
    };
    let mut overlay = Overlay::open(
        OverlayKind::Model,
        "pick".to_string(),
        vec![item("a"), item("b")],
    );
    overlay.move_up();
    assert_eq!(overlay.selected, 0);
    for _ in 0..3 {
        overlay.move_down();
    }
    assert_eq!(overlay.selected, 1);
    assert_eq!(overlay.picked().map(|item| item.id).as_deref(), Some("b"));
    assert!(Overlay::open(OverlayKind::Model, String::new(), Vec::new())
        .picked()
        .is_none());
}

#[test]
fn the_switch_of_servers_is_exact() {
    let names = |v: &[&str]| v.iter().map(|s| s.to_string()).collect::<Vec<_>>();
    assert!(mcp_gate_off(&Some(Vec::new())));
    assert!(!mcp_gate_off(&None));
    assert_eq!(mcp_spawn_names(names(&["a"]), &None), names(&["a"]));
    assert_eq!(
        mcp_spawn_names(names(&["a", "b"]), &Some(names(&["b", "c"]))),
        names(&["a", "b", "c"])
    );
    let configured = vec![McpServer {
        name: "a".to_string(),
        command: "run".to_string(),
        args: names(&["-x"]),
    }];
    let refused = mcp_command("a, ghost", Some(names(&["a"])), &configured);
    assert!(refused.is_error);
    assert_eq!(refused.gate, Some(names(&["a"])));
    let on = mcp_command("a", None, &configured);
    assert_eq!(on.gate, Some(names(&["a"])));
    let off = mcp_command("a", on.gate, &configured);
    assert_eq!(off.gate, Some(Vec::new()));
    assert!(mcp_command("", None, &configured)
        .said
        .contains("a — run -x — role opt-in only"));
    assert_eq!(
        mcp_spawn_report(
            &names(&["a", "b", "c"]),
            &vec![
                McpSpawn::Started,
                McpSpawn::Missing,
                McpSpawn::Failed("no such file".to_string())
            ]
        ),
        vec![
            "mcp: server \"b\": not in mcpServers config — its tools are unavailable",
            "mcp: server \"c\": no such file — its tools are unavailable"
        ]
    );
}

#[test]
fn a_search_narrows_by_name_and_description() {
    let found = vec![
        FoundSkill {
            description: "Sails the SHIP".to_string(),
            key: None,
            name: "navis".to_string(),
            source: SkillSource::Project,
            bytes: Some(41),
        },
        FoundSkill {
            description: "other".to_string(),
            key: None,
            name: "Élan".to_string(),
            source: SkillSource::User,
            bytes: None,
        },
    ];
    let locked = vec![PluginSkill {
        description: "locked".to_string(),
        enabled: false,
        key: "shop/tidy/sweep".to_string(),
        name: "sweep".to_string(),
        bytes: Some(0),
    }];
    let rows = collect_skill_rows(&found, &locked);
    assert_eq!(rows.len(), 3);
    assert!(skill_is_locked(&rows, "sweep") && !skill_is_locked(&rows, "navis"));
    let shown = |filter: &str| {
        visible_skill_rows(&rows, filter)
            .into_iter()
            .map(|row| row.name)
            .collect::<Vec<_>>()
    };
    assert_eq!(shown(""), vec!["navis", "Élan", "sweep"]);
    assert_eq!(shown("ship"), vec!["navis"]);
    assert_eq!(shown("ÉLAN"), vec!["Élan"]);
    assert!(shown("éLAN").is_empty(), "only ASCII letters match in either case");
    assert!(shown("zzz").is_empty());
    assert_eq!(estimate_tokens(Some(41)), 10);
    assert_eq!(estimate_tokens(Some(3)), 1);
    assert_eq!(estimate_tokens(None), 1);
    assert_eq!(
        canonical_skill_name(&vec![("Navis".to_string(), String::new())], "nAVIS").as_deref(),
        Some("Navis")
    );
}

#[test]
fn a_skill_that_was_switched_off_is_off() {
    let skill = |name: &str| LoadedSkill {
        name: name.to_string(),
        content: String::new(),
    };
    let active = vec![skill("a"), skill("b")];
    assert!(is_active(&active, "a"));
    let left = deactivate(active, "a");
    assert!(!is_active(&left, "a") && is_active(&left, "b"));
}

fn many() -> SurveyState {
    let option = |label: &str| HarnessSurveyOption {
        label: label.to_string(),
        description: String::new(),
    };
    SurveyState::begin(
        QuestionSurvey {
            questions: vec![HarnessSurveyQuestion {
                header: "Scope".to_string(),
                question: "Which?".to_string(),
                options: vec![option("a"), option("b"), option("c")],
                allow_other: false,
                multiple: true,
            }],
        },
        "/s/answers.jsonl".to_string(),
    )
}

#[test]
fn marks_flip_and_stay_in_order() {
    let mut state = many();
    for index in [2usize, 0] {
        state.toggle_multi_pick(index);
    }
    assert_eq!(state.multiple_picks, vec![0, 2]);
    assert_eq!(state.marked_labels(), vec!["a", "c"]);
    state.toggle_multi_pick(2);
    state.toggle_multi_pick(7);
    assert_eq!(state.multiple_picks, vec![0]);
    assert_eq!(
        state.open_survey_question().items.last().map(|item| item.label.clone()),
        Some("Chat about this".to_string())
    );
}

#[test]
fn an_answer_can_be_taken_back() {
    let mut state = many();
    assert!(state.asks());
    assert!(state.record_survey_answer(Some("a".to_string()), None));
    assert!(!state.asks());
    assert_eq!(state.answers[0].index, 0);
    state.retract();
    assert!(state.asks() && state.answers.is_empty());
    assert_eq!(state.answers_path, "/s/answers.jsonl");
}

#[test]
fn a_sidebar_reply_prints_safely() {
    let cleaned = sanitize_btw_reply("a\u{1b}[31mb\u{7}\n\n\n\u{1b}]0;title\u{7}c\u{9b}  \n");
    assert_eq!(cleaned, "ab\n\nc");
    assert!(extract_btw_reply(&reply("\u{1b}[0m \n")).is_none());
    let long = extract_btw_reply(&reply(&"x".repeat(BTW_MAX_REPLY_CHARS + 5))).expect("a reply");
    assert_eq!(long.chars().count(), BTW_MAX_REPLY_CHARS);
    assert!(long.ends_with('…'));
    for line in btw_chat_lines("why?", "because\nso") {
        assert!(is_btw_line(&line), "{line}");
    }
}

#[test]
fn cleaning_a_reply_twice_is_cleaning_it_once() {
    for raw in [
        "",
        " \n\t\n",
        "  first \n  indented\u{1b}[0m  \n\n \n\u{7}\nlast\n\n",
        "\u{1b}]0;t\u{7}\n\na\n\u{3000}\nb \u{85}",
    ] {
        let reply = sanitize_btw_reply(raw);
        assert_eq!(reply.trim(), reply);
        assert!(reply.split('\n').all(|line| line.trim_end() == line));
        assert!(!reply.contains("\n\n\n"));
        assert_eq!(sanitize_btw_reply(&reply), reply);
    }
    assert_eq!(
        sanitize_btw_reply("  first \n  indented\u{1b}[0m  \n\n \n\u{7}\nlast\n\n"),
        "first\n  indented\n\nlast"
    );
}

#[test]
fn typed_text_is_read_as_it_was_typed() {
    let keys = |text: &str| decode_input(text.as_bytes(), &mut None);
    for one in ["a", "é", "漢", "😀", " "] {
        assert_eq!(keys(one), vec![Key::Text(one.to_string())]);
    }
    assert_eq!(keys("añ漢😀"), vec![Key::Paste("añ漢😀".to_string())]);
    assert_eq!(
        decode_input(b"a\xffb", &mut None),
        vec![Key::Paste("a\u{fffd}b".to_string())],
        "a byte that encodes nothing is replaced"
    );
}

#[test]
fn blank_lines_of_a_journal_are_no_records() {
    assert_eq!(journal_records("{}\n\n  \r\n{\"a\":1}\r\n"), vec!["{}", "{\"a\":1}"]);
    assert!(journal_records("").is_empty());
}

#[test]
fn a_blank_sidebar_question_is_not_sent() {
    assert!(matches!(ask_btw("system", &[], " \n", 5), BtwCall::Refused));
    match ask_btw("system", &[], "why?", 0) {
        BtwCall::Send { messages, timeout_ms } => {
            assert_eq!(messages.len(), 2);
            assert_eq!(timeout_ms, 1);
        }
        BtwCall::Refused => unreachable!("a question was asked"),
    }
}

#[test]
fn a_payload_is_transmitted_whole() {
    let payload = "A".repeat(4096 * 2 + 1);
    let escape = kitty_graphics_escape(&payload, 10);
    let chunks: Vec<&str> = escape
        .split("\u{1b}\\")
        .filter(|frame| !frame.is_empty())
        .map(|frame| frame.rsplit(';').next().unwrap_or(""))
        .collect();
    assert_eq!(chunks.len(), 3);
    assert!(chunks.iter().all(|chunk| chunk.len() <= 4096));
    assert_eq!(chunks.concat(), payload);
}

#[test]
fn image_links_are_found_where_they_match() {
    assert_eq!(
        markdown_image_paths("![a](x.png) ![b]( y.png) ![c](\"z.png\") ![d\n](w.png) ![a](x.png)"),
        vec!["x.png", "z.png", "w.png"]
    );
    assert!(markdown_image_paths("[a](x.png) ![b](http://h/x.png) ![c]()").is_empty());
}

#[test]
fn plain_text_is_rendered_as_it_is() {
    let plain = "nothing to see here, 漢字";
    assert_eq!(render_inline(plain), plain);
    assert_eq!(strip_ansi(&render_markdown_ansi("a\nb\n\nc")), "a\nb\n\nc");
    // An underscore between letters is no emphasis, whatever the script.
    assert_eq!(render_inline("é_è_é"), "é_è_é");
}

#[test]
fn a_title_label_is_its_own_label() {
    for goal in [
        "  fix the   flaky \"login\" test on CI please ",
        "\u{1b}[31m\u{7}",
        "supercalifragilisticexpialidocious".repeat(3).as_str(),
    ] {
        let label = fallback_title(goal);
        assert!(!label.is_empty() && label.chars().count() <= 48);
        assert_eq!(fallback_title(&label), label);
        assert!(sanitize(&label).chars().all(|c| !c.is_control()));
    }
    assert_eq!(strip_control("a\u{1b}Pq\u{1b}\\b\u{85}"), "ab");
}

#[test]
fn a_session_can_be_named_again_and_again() {
    let first = persist_session_name(None, "Alpha").expect("fresh metadata takes a name");
    assert_eq!(read_session_name(Some(&first)).as_deref(), Some("Alpha"));
    let second = persist_session_name(Some(&first), "Beta").expect("named metadata takes a name");
    assert_eq!(read_session_name(Some(&second)).as_deref(), Some("Beta"));
    let kept = persist_session_name(Some("{\"other\":\"kept\",\"n\":1}"), "Gamma")
        .expect("an object takes a name");
    assert_eq!(
        kept,
        "{\n  \"other\": \"kept\",\n  \"n\": 1,\n  \"sessionName\": \"Gamma\"\n}\n"
    );
    let renamed = persist_session_name(
        Some("{\"sessionName\":\"Old\",\"list\":[1,null,true],\"map\":{\"x\":\"y\"}}"),
        "New \"one\"",
    )
    .expect("an object takes a name");
    assert_eq!(
        renamed,
        "{\n  \"sessionName\": \"New \\\"one\\\"\",\n  \"list\": [\n    1,\n    null,\n    true\n  ],\n  \"map\": {\n    \"x\": \"y\"\n  }\n}\n",
        "every other field stays, in its place"
    );
    assert_eq!(read_session_name(Some(&renamed)).as_deref(), Some("New \"one\""));
    assert_eq!(read_session_name(Some("{\"sessionName\":7}")), None, "no text, no name");
    assert!(persist_session_name(Some("[]"), "Delta").is_none());
    assert_eq!(read_session_name(Some("{\"sessionName\":\"  \"}")), None);
}

#[test]
fn a_generated_name_keeps_the_word_contract() {
    let name = extract_session_name(&reply("\"Fix the flaky login test today\"")).expect("a name");
    assert!(is_valid_session_name(&name));
    assert_eq!(name, "Fix the flaky login test today");
    assert!(extract_session_name(&reply("Too short")).is_none());
}

#[test]
fn clocks_count_minutes_and_seconds() {
    assert_eq!(clock(999), "0s");
    assert_eq!(clock(59_999), "59s");
    assert_eq!(clock(65_000), "1m 05s");
    assert_eq!(clock(3_600_000), "60m 00s");
    assert_eq!(running_label(Some(20_000)), "running 20s");
    assert_eq!(running_label(Some(-5)), "running 0s");
    assert_eq!(running_label(None), "running");
    assert_eq!(runtime_clock(None), "—");
}

#[test]
fn a_file_stands_beside_another() {
    assert_eq!(answers_path("/s/one/state.json"), "/s/one/answers.jsonl");
    // As the standard library has it on slashed paths.
    for path in [
        "state.json", "/state.json", "a/b", "a/b/", "a//b", "a/./b", "./b", "a/b/.", "a/b//./",
        "a/..", "a/../", "..", ".", "./", "./.", "/", "//", "/.", "", "a/b.c/d", "a/...", "a/.b",
    ] {
        let expected = std::path::Path::new(path).with_file_name("x.jsonl");
        assert_eq!(with_file_name(path, "x.jsonl"), expected.to_string_lossy(), "{path:?}");
    }
}

#[test]
fn a_failed_append_is_tried_three_times() {
    let failure = || Some("full".to_string());
    for attempts in [1usize, 2] {
        assert_eq!(after_append(attempts, failure()), AppendStep::TryAgain { pause_ms: 100 });
        assert_eq!(after_append(attempts, None), AppendStep::Report(None));
    }
    assert_eq!(after_append(3, failure()), AppendStep::Report(failure()));
    assert_eq!(after_append(3, None), AppendStep::Report(None));
}

#[test]
fn a_live_run_is_given_three_seconds_at_the_end() {
    assert_eq!(grace_left(500, 500), 3_000);
    assert_eq!(grace_left(500, 3_499), 1);
    assert_eq!(grace_left(500, 9_000), 0);
}

#[test]
fn a_message_to_a_run_is_one_json_line() {
    let line = operator_line("2026-01-01T00:00:00.000Z", "say \"hi\"\nthen 漢");
    assert_eq!(
        line,
        "{\"at\":\"2026-01-01T00:00:00.000Z\",\"text\":\"say \\\"hi\\\"\\nthen 漢\"}\n"
    );
    let read: serde_json::Value = serde_json::from_str(&line).expect("a JSON line");
    assert_eq!(read["text"], "say \"hi\"\nthen 漢");
}

#[test]
fn an_answer_behind_the_last_question_is_taken_too() {
    let mut state = many();
    assert!(state.record_survey_answer(Some("a".to_string()), None));
    assert!(state.record_survey_answer(None, Some("more".to_string())));
    assert_eq!(state.answers.len(), 2);
    assert_eq!((state.answers[1].index, state.current), (1, 2));
    state.retract();
    assert_eq!((state.answers.len(), state.current), (1, 1));
}
