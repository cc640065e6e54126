//! Folding tool activity into one row, and the rows of a cell.

use drip::ansi::{string_width, strip_ansi};
use drip::transcript::{
    HarnessEventData, HarnessEventType, HarnessRunReason, TranscriptEntry, TranscriptEventEntry,
    TranscriptGoalEntry, TranscriptNoteEntry, TranscriptRunEndEntry,
};
use drip::tui::compact::{
    estimate_compact_rows, render_compact_cell, render_cycle_transition, render_tool_group,
    select_compact_tail_start, CompactCell, CompactEmitter, CompactProjection, ToolGroupCell,
};

fn event(kind: HarnessEventType, iteration: i64, detail: &str, tool_name: Option<&str>) -> TranscriptEntry {
    TranscriptEntry::Event(TranscriptEventEntry {
        at: String::new(),
        data: tool_name.map(|name| HarnessEventData {
            tool_name: Some(name.to_string()),
            ..Default::default()
        }),
        detail: detail.to_string(),
        goal_id: "g".to_string(),
        iteration,
        kind,
    })
}

fn tool_call(iteration: i64, name: &str, call_id: &str) -> TranscriptEntry {
    TranscriptEntry::Event(TranscriptEventEntry {
        at: String::new(),
        data: Some(HarnessEventData {
            call_id: Some(call_id.to_string()),
            tool_name: Some(name.to_string()),
            ..Default::default()
        }),
        detail: format!("{name} {{\"path\":\"x\"}}"),
        goal_id: "g".to_string(),
        iteration,
        kind: HarnessEventType::ToolCall,
    })
}

fn tool_result(call_id: &str, failed: bool) -> TranscriptEntry {
    TranscriptEntry::Event(TranscriptEventEntry {
        at: String::new(),
        data: Some(HarnessEventData {
            call_id: Some(call_id.to_string()),
            tool_name: Some("READ".to_string()),
            failed: Some(failed),
            ..Default::default()
        }),
        detail: "READ: result text".to_string(),
        goal_id: "g".to_string(),
        iteration: 1,
        kind: HarnessEventType::ToolResult,
    })
}
fn goal(text: &str) -> TranscriptEntry {
    TranscriptEntry::Goal(TranscriptGoalEntry {
        at: String::new(),
        goal_id: "g".to_string(),
        images: Vec::new(),
        mentions: Vec::new(),
        text: text.to_string(),
    })
}

fn group_rows(projection: &CompactProjection, width: usize) -> Vec<String> {
    projection
        .cells
        .iter()
        .flat_map(|cell| render_compact_cell(cell, width))
        .map(|row| strip_ansi(&row))
        .collect()
}

fn last_group(cells: &[CompactCell]) -> &ToolGroupCell {
    match cells.last() {
        Some(CompactCell::ToolGroup(group)) => group,
        other => panic!("expected trailing tool group, got {other:?}"),
    }
}

#[test]
fn repeated_tools_fold_with_distinct_names_in_first_seen_order() {
    let mut p = CompactProjection::new();
    p.append(&tool_call(1, "READ", "c1"));
    p.append(&tool_call(1, "PATCH", "c2"));
    p.append(&tool_call(1, "READ", "c3"));
    p.append(&tool_call(1, "BASH", "c4"));
    p.finalize();

    let group = last_group(&p.cells);
    assert_eq!(group.count, 4);
    assert_eq!(group.tools, vec!["READ", "PATCH", "BASH"]);
    assert_eq!(group.iteration, 1);
    assert_eq!(group_rows(&p, 120).last().unwrap(), "[  1] ── 4 Tools called: READ, PATCH, BASH ──");
}

#[test]
fn tool_results_are_absorbed_and_never_counted() {
    let mut p = CompactProjection::new();
    p.append(&tool_call(1, "READ", "c1"));
    p.append(&tool_result("c1", false));
    p.append(&tool_call(1, "BASH", "c2"));
    p.append(&tool_result("c2", false));
    p.finalize();

    assert_eq!(last_group(&p.cells).count, 2);
    assert_eq!(last_group(&p.cells).tools, vec!["READ", "BASH"]);
}

#[test]
fn failed_results_increment_the_group_failed_count() {
    let mut p = CompactProjection::new();
    p.append(&tool_call(1, "READ", "c1"));
    p.append(&tool_result("c1", true));
    p.append(&tool_call(1, "BASH", "c2"));
    p.append(&tool_result("c2", false));
    p.append(&tool_call(1, "FETCH", "c3"));
    p.append(&tool_result("c3", true));
    p.finalize();

    let group = last_group(&p.cells);
    assert_eq!(group.count, 3, "{group:?}");
    assert_eq!(group.failed, 2, "{group:?}");
    assert_eq!(
        group_rows(&p, 120).last().unwrap(),
        "[  1] ── 3 Tools called: READ, BASH, FETCH ── (2 failed)"
    );

    // Narrow terminal: the failed suffix is dropped before the summary
    // is hard-clipped, and the group still renders as exactly one row.
    let rows = group_rows(&p, 40);
    assert_eq!(rows.len(), 1, "{rows:?}");
    assert!(string_width(rows[0].as_str()) <= 40, "{rows:?}");
    assert!(rows[0].contains("3 Tools called"), "{rows:?}");
    assert!(!rows[0].contains("failed"), "{rows:?}");
}

#[test]
fn interleaved_inference_telemetry_does_not_break_the_group() {
    let mut p = CompactProjection::new();
    p.append(&tool_call(1, "READ", "c1"));
    p.append(&event(HarnessEventType::Inference, 1, "z-ai/glm — 21018 prompt", None));
    p.append(&tool_result("c1", false));
    p.append(&event(HarnessEventType::Inference, 1, "another infer row", None));
    p.append(&tool_call(1, "PATCH", "c2"));
    p.finalize();

    assert_eq!(p.cells.len(), 1, "{:?}", p.cells);
    assert_eq!(last_group(&p.cells).count, 2);
}

#[test]
fn missing_tool_metadata_falls_back_to_detail() {
    let mut p = CompactProjection::new();
    p.append(&event(HarnessEventType::ToolCall, 1, "GREP {\"pattern\":\"x\"}", None));
    p.finalize();

    let group = last_group(&p.cells);
    assert_eq!(group.count, 1);
    assert_eq!(group.tools, vec!["GREP"]);
    assert_eq!(group_rows(&p, 120).last().unwrap(), "[  1] ── 1 Tool called: GREP ──");
}

#[test]
fn cycle_boundaries_goals_and_responses_flush_and_stay_visible() {
    let mut p = CompactProjection::new();
    p.append(&goal("fix the bug"));
    p.append(&tool_call(1, "READ", "c1"));
    p.append(&tool_result("c1", false));
    p.append(&event(HarnessEventType::ModelText, 1, "Working on it…", None));
    p.append(&tool_call(1, "PATCH", "c2"));
    p.append(&event(HarnessEventType::IterationStart, 2, "cycle 2/5 — task-1: fix the bug: plan text [budget 100/60000 tokens]", None));
    p.append(&tool_call(2, "BASH", "c3"));
    p.append(&event(HarnessEventType::RunSummary, 2, "done", None));
    p.finalize();

    let plain = group_rows(&p, 120);
    assert!(plain.iter().any(|row| row.contains("❯ goal fix the bug")));
    assert!(plain.iter().any(|row| row.contains("── 1 Tools called: READ ──") || row.contains("── 1 Tool called: READ ──")), "{plain:?}");
    assert!(plain.iter().any(|row| row.contains("Working on it")), "{plain:?}");
    assert!(plain.iter().any(|row| row.contains("── 1 Tool called: PATCH ──")), "{plain:?}");
    assert!(plain.iter().any(|row| row.contains("cycle 2/5") && row.contains("task-1: fix the bug")), "{plain:?}");
    assert!(plain.iter().any(|row| row.contains("── 1 Tool called: BASH ──")), "{plain:?}");
    assert!(plain.iter().any(|row| row.contains("run summary")), "{plain:?}");
    // one row per burst, never merged across boundaries
    assert_eq!(p.cells.iter().filter(|c| matches!(c, CompactCell::ToolGroup(_))).count(), 3);
}

#[test]
fn never_merges_across_goals_or_run_end() {
    let mut p = CompactProjection::new();
    p.append(&tool_call(1, "READ", "c1"));
    p.append(&goal("second goal"));
    p.append(&tool_call(1, "BASH", "c2"));
    p.append(&TranscriptEntry::RunEnd(TranscriptRunEndEntry {
        at: String::new(),
        goal_id: "g".to_string(),
        iterations: 3,
        reason: HarnessRunReason::Completed,
    }));
    p.finalize();

    let plain = group_rows(&p, 120);
    assert_eq!(p.cells.iter().filter(|c| matches!(c, CompactCell::ToolGroup(_))).count(), 2);
    assert!(plain.iter().any(|row| row.contains("second goal")));
    assert!(plain.iter().any(|row| row.contains("run completed after 3 cycles")), "{plain:?}");
}

#[test]
fn loop_start_and_other_events_act_as_boundaries() {
    let mut p = CompactProjection::new();
    p.append(&tool_call(1, "READ", "c1"));
    p.append(&event(HarnessEventType::LoopStart, 1, "loop 2 starting", None));
    p.append(&tool_call(1, "BASH", "c2"));
    p.finalize();

    assert_eq!(p.cells.iter().filter(|c| matches!(c, CompactCell::ToolGroup(_))).count(), 2);
}

#[test]
fn visible_errors_and_warnings_stay_visible() {
    let mut p = CompactProjection::new();
    p.append(&tool_call(1, "READ", "c1"));
    p.append(&event(HarnessEventType::RunWarning, 1, "rate limited, waiting 2s", None));
    p.append(&tool_call(1, "PATCH", "c2"));
    p.append(&TranscriptEntry::Error(TranscriptNoteEntry {
        at: String::new(),
        text: "boom".to_string(),
    }));
    p.finalize();

    let plain = group_rows(&p, 120);
    assert!(plain.iter().any(|row| row.contains("rate limited")));
    assert!(plain.iter().any(|row| row.contains("boom")));
}

#[test]
fn orphan_tool_result_without_open_group_is_kept() {
    let mut p = CompactProjection::new();
    p.append(&event(HarnessEventType::ToolResult, 1, "READ: content", Some("READ")));
    p.finalize();

    assert!(matches!(p.cells.as_slice(), [CompactCell::Passthrough(TranscriptEntry::Event(_))]));
}

#[test]
fn zero_tool_cycle_renders_only_boundaries() {
    let mut p = CompactProjection::new();
    p.append(&event(HarnessEventType::IterationStart, 1, "cycle 1/3 — task-1: think: no tools needed [budget 0/60000 tokens]", None));
    p.append(&event(HarnessEventType::ModelText, 1, "All done.", None));
    p.finalize();

    assert!(p.cells.iter().all(|c| matches!(c, CompactCell::Passthrough(_))));
    let plain = group_rows(&p, 120);
    assert!(plain.iter().any(|row| row.contains("cycle 1/3")));
    assert!(plain.iter().any(|row| row.contains("All done.")));
    assert!(!plain.iter().any(|row| row.contains("Tools called")));
}

#[test]
fn unicode_rows_clip_to_narrow_widths() {
    let mut p = CompactProjection::new();
    p.append(&tool_call(1, "READ", "c1"));
    p.append(&tool_call(1, "PATCH", "c2"));
    p.finalize();

    for width in [10usize, 20, 40] {
        for row in p.cells.iter().flat_map(|c| render_compact_cell(c, width)) {
            assert!(string_width(&row) <= width, "width {width}: {row:?}");
        }
    }
}

#[test]
fn transition_row_keeps_budget_when_it_fits_and_clips_unicode() {
    let entry = TranscriptEventEntry {
        at: String::new(),
        data: None,
        detail: "cycle 12/40 — task-3: écriture française: héllö wörld wïth ünïcödé änd löng pläning text [budget 123456/60000 tokens]".to_string(),
        goal_id: "g".to_string(),
        iteration: 12,
        kind: HarnessEventType::IterationStart,
    };

    let wide = strip_ansi(&render_cycle_transition(&entry, 200)[0]);
    assert!(wide.contains("cycle 12/40"));
    assert!(wide.contains("écriture"));
    assert!(wide.contains("[budget 123456/60000 tokens]"));

    let mid = strip_ansi(&render_cycle_transition(&entry, 60)[0]);
    assert!(!mid.contains("[budget"), "{mid:?}");
    assert!(mid.contains("cycle 12/40"), "{mid:?}");
    assert!(mid.ends_with('…'));

    let narrow = render_cycle_transition(&entry, 10)[0].clone();
    assert_eq!(string_width(&narrow), 10, "{narrow:?}");

    for width in [10usize, 24, 60, 200] {
        assert_eq!(render_cycle_transition(&entry, width).len(), 1);
    }
}

#[test]
fn replay_matches_incremental_appends() {
    let entries = vec![
        goal("g1"),
        tool_call(1, "READ", "c1"),
        tool_result("c1", false),
        event(HarnessEventType::Inference, 1, "infer", None),
        tool_call(1, "BASH", "c2"),
        event(HarnessEventType::IterationStart, 2, "cycle 2/3 — task-1: g1: more [budget 5/60 tokens]", None),
        tool_call(2, "PATCH", "c3"),
        event(HarnessEventType::ModelText, 2, "finished", None),
    ];

    let replayed = CompactProjection::rebuild(&entries).into_cells();
    let mut incremental = CompactProjection::new();

    for entry in &entries {
        incremental.append(entry);
    }
    incremental.finalize();

    assert_eq!(replayed, incremental.cells);
}

#[test]
fn estimate_and_tail_budget_helpers_mirror_timeline() {
    let mut p = CompactProjection::new();
    p.append(&tool_call(1, "READ", "c1"));
    p.append(&goal("g"));
    p.finalize();

    // Groups are strictly ONE physical row at every width, even when the
    // name list is long enough to exceed the terminal: render_tool_group
    // clips in place instead of wrapping.
    assert_eq!(estimate_compact_rows(&p.cells[0]), 1);
    assert_eq!(estimate_compact_rows(&p.cells[1]), 2);
    assert_eq!(select_compact_tail_start(&p.cells, 40), 0);

    // A very tight budget drops older cells but keeps the newest.
    let mut many = CompactProjection::new();

    for i in 0..50 {
        many.append(&goal(&format!("goal number {i} that is long enough to take rows {i}")));
        many.append(&tool_call(1, "READ", &format!("c{i}")));
        many.finalize();
    }

    let start = select_compact_tail_start(&many.cells, 12);
    assert!(start > 0);
    assert!(start < many.cells.len());
}


fn render_finalized(emitter: &CompactEmitter, width: usize) -> Vec<String> {
    emitter
        .projection
        .cells
        .iter()
        .flat_map(|cell| render_compact_cell(cell, width))
        .map(|row| strip_ansi(&row))
        .collect()
}

fn live_row(emitter: &CompactEmitter, width: usize) -> String {
    match emitter.projection.active_group() {
        Some(group) => strip_ansi(&render_tool_group(group, width)[0]),
        None => String::new(),
    }
}

fn group_count(cells: &[CompactCell]) -> usize {
    cells.iter().filter(|c| matches!(c, CompactCell::ToolGroup(_))).count()
}

#[test]
fn emitter_separate_batches_update_a_single_live_two_tool_row_in_place() {
    let mut em = CompactEmitter::new();
    let b1 = vec![tool_call(1, "READ", "c1")];
    let b2 = vec![
        tool_result("c1", false),
        event(HarnessEventType::Inference, 1, "21018 prompt, 864 completion", None),
    ];
    let b3 = vec![tool_call(1, "PATCH", "c2")];
    let b4 = vec![tool_result("c2", false)];

    // Four separate event batches, like four Msg::HarnessEvent deliveries:
    // nothing finalizes, the one live row just grows 1 -> 2 tools.
    assert_eq!(em.absorb(&b1), Vec::<CompactCell>::new());
    assert_eq!(em.absorb(&b2), Vec::<CompactCell>::new());
    assert_eq!(em.absorb(&b3), Vec::<CompactCell>::new());
    assert_eq!(em.absorb(&b4), Vec::<CompactCell>::new());
    assert!(em.projection.is_active());
    assert!(em.projection.cells.is_empty());

    let live = live_row(&em, 120);
    assert!(live.contains("2 Tools called"), "{live:?}");
    assert!(live.contains("READ"), "{live:?}");
    assert!(live.contains("PATCH"), "{live:?}");
    // Raw payloads and telemetry never surface in the live row.
    assert!(!live.contains("{\"path\":\"x\"}"), "{live:?}");
    assert!(!live.contains("result text"), "{live:?}");
    assert!(!live.contains("21018"), "{live:?}");
}

#[test]
fn emitter_cycle_boundary_finalizes_exactly_once_and_previews_next_task() {
    let mut em = CompactEmitter::new();
    em.absorb(&[tool_call(1, "READ", "c1")]);

    let finalized = em.absorb(&[event(
        HarnessEventType::IterationStart,
        2,
        "cycle 2/5 — task-2: wire the composer [budget 100/60000 tokens]",
        None,
    )]);
    assert_eq!(group_count(&finalized), 1);
    assert!(matches!(finalized.last(), Some(CompactCell::Passthrough(_))));

    // Exactly once: subsequent drains and a run-boundary finalize are no-ops.
    assert!(em.drain().is_empty());
    assert!(em.finalize().is_empty());

    let rows = render_finalized(&em, 120);
    assert!(rows.iter().any(|row| row.contains("cycle 2/5")), "{rows:?}");
    assert!(rows.iter().any(|row| row.contains("task-2: wire the composer")), "{rows:?}");
}

#[test]
fn emitter_goal_and_response_text_stay_visible_across_batches() {
    let mut em = CompactEmitter::new();
    em.absorb(&[goal("fix the flaky test")]);
    em.absorb(&[tool_call(1, "READ", "c1"), tool_result("c1", false)]);
    let finalized = em.absorb(&[event(
        HarnessEventType::ModelText,
        1,
        "The flake was a stale cache; fixed.",
        None,
    )]);

    assert_eq!(group_count(&finalized), 1);
    assert!(!em.projection.is_active());

    let rows = render_finalized(&em, 120);
    assert!(rows.iter().any(|row| row.contains("fix the flaky test")), "{rows:?}");
    assert!(rows.iter().any(|row| row.contains("stale cache")), "{rows:?}");
    assert!(
        rows.iter().any(|row| row.contains("called") && row.contains("READ")),
        "{rows:?}"
    );
}

#[test]
fn emitter_live_replay_and_session_switch_produce_equivalent_output() {
    let entries = vec![
        goal("g1"),
        tool_call(1, "READ", "c1"),
        tool_result("c1", false),
        event(HarnessEventType::Inference, 1, "tok", None),
        tool_call(1, "BASH", "c2"),
        event(HarnessEventType::IterationStart, 2, "cycle 2/3 — task-1: g1: more [budget 5/60 tokens]", None),
        tool_call(2, "PATCH", "c3"),
        tool_result("c3", false), // trailing group stays open
    ];

    // Live path: one entry per batch, exactly as the event loop delivers.
    let mut live = CompactEmitter::new();
    let mut live_finalized = Vec::new();
    for entry in &entries {
        live_finalized.extend(live.absorb(std::slice::from_ref(entry)));
    }

    // Replay/switch path: the same history rebuilt in one shot.
    let mut switched = CompactEmitter::new();
    switched.rebuild(&entries);

    assert_eq!(live.projection.cells, switched.projection.cells);
    // Each visible boundary finalized exactly one cell during the live feed:
    // goal passthrough, the READ+BASH group, then the IterationStart row.
    assert_eq!(group_count(&live_finalized), 1);
    assert!(matches!(live_finalized.first(), Some(CompactCell::Passthrough(_))));
    assert_eq!(live.projection.is_active(), switched.projection.is_active());
    assert_eq!(live_row(&live, 100), live_row(&switched, 100));
    assert_eq!(live.finalize(), switched.finalize());
    assert_eq!(live.projection.cells, switched.projection.cells);
    assert!(!live.projection.is_active());
    assert!(!switched.projection.is_active());

    // Compact view never re-reveals raw tool payloads or results.
    let rows = render_finalized(&live, 120);
    assert!(!rows.iter().any(|row| row.contains("{\"path\":\"x\"}")), "{rows:?}");
    assert!(!rows.iter().any(|row| row.contains("result text")), "{rows:?}");
}

#[test]
fn emitter_resize_tail_budget_uses_finalized_cells_only() {
    let mut em = CompactEmitter::new();
    for i in 0..6 {
        em.absorb(&[
            event(HarnessEventType::IterationStart, 1, &format!("cycle {i}/6 — task-1: many [budget 0/60 tokens]"), None),
            tool_call(1, "READ", &format!("c{i}")),
        ]);
        em.finalize();
    }
    // One group still open: drawn by the live region, never scrollback.
    em.absorb(&[tool_call(1, "BASH", "open")]);

    let finalized = em.projection.cells.clone();
    assert_eq!(group_count(&finalized), 6);
    assert!(em.drain().is_empty());
    assert!(em.projection.is_active());

    let start = select_compact_tail_start(&finalized, 10);
    assert!(start > 0, "tight budget must drop older cells");
    assert!(start < finalized.len());
}

#[test]
fn emitter_error_and_end_boundaries_flush_the_open_group_once() {
    // Error note boundary.
    let mut em = CompactEmitter::new();
    em.absorb(&[tool_call(1, "READ", "c1")]);
    let finalized = em.absorb(&[TranscriptEntry::Error(TranscriptNoteEntry {
        at: String::new(),
        text: "boom".to_string(),
    })]);
    assert_eq!(group_count(&finalized), 1);
    assert!(em.finalize().is_empty());

    // Warning boundary (cancellation path paints the same way).
    let mut em2 = CompactEmitter::new();
    em2.absorb(&[tool_call(1, "PATCH", "c1")]);
    let finalized2 = em2.absorb(&[event(HarnessEventType::RunWarning, 1, "cancelled", None)]);
    assert_eq!(group_count(&finalized2), 1);

    // Silent cancellation path: finish_run's finalize settles the row.
    let mut em3 = CompactEmitter::new();
    em3.absorb(&[tool_call(1, "BASH", "c1")]);
    let settled = em3.finalize();
    assert_eq!(group_count(&settled), 1);
    assert!(em3.finalize().is_empty());
    assert!(!em3.projection.is_active());
}

#[test]
fn emitter_many_tools_stay_on_one_row_at_every_width() {
    let mut em = CompactEmitter::new();
    let names = ["READ", "PATCH", "BASH", "GREP", "FETCH", "VERIFY", "DIR", "EDIT", "WRITE", "LS", "TEST", "GIT", "NOTE", "PLAN", "SPAWN"];
    let batch: Vec<TranscriptEntry> = names
        .iter()
        .enumerate()
        .map(|(i, name)| tool_call(1, name, &format!("c{i}")))
        .collect();
    em.absorb(&batch);
    em.finalize();

    let group = match em
        .projection
        .cells
        .iter()
        .find(|c| matches!(c, CompactCell::ToolGroup(_)))
    {
        Some(CompactCell::ToolGroup(group)) => group,
        other => panic!("expected a finalized tool group, got {other:?}"),
    };
    assert_eq!(estimate_compact_rows(&CompactCell::ToolGroup(group.clone())), 1);
    let wide = strip_ansi(&render_tool_group(group, 200)[0]);
    assert!(wide.contains("15 Tools called"), "{wide:?}");

    for width in [20usize, 40, 80, 200] {
        let rows = render_tool_group(group, width);
        assert_eq!(rows.len(), 1, "width {width}");
        assert!(string_width(&rows[0]) <= width, "width {width}: {:?}", strip_ansi(&rows[0]));
    }
}

#[test]
fn emitter_unicode_tool_names_clip_on_narrow_rows() {
    let mut em = CompactEmitter::new();
    em.absorb(&[
        tool_call(1, "ÉCRITURE", "c1"),
        tool_call(1, "日本語ツール", "c2"),
        tool_call(1, "naïve-🛠️", "c3"),
    ]);
    em.finalize();

    let group = match em
        .projection
        .cells
        .iter()
        .find(|c| matches!(c, CompactCell::ToolGroup(_)))
    {
        Some(CompactCell::ToolGroup(group)) => group,
        other => panic!("expected a finalized tool group, got {other:?}"),
    };
    for width in [10usize, 24, 60] {
        let rows = render_tool_group(group, width);
        assert_eq!(rows.len(), 1, "width {width}");
        assert!(string_width(&rows[0]) <= width, "width {width}: {:?}", strip_ansi(&rows[0]));
    }

    // The open live-row path is equally width-safe.
    let mut open = CompactEmitter::new();
    open.absorb(&[tool_call(1, "日本語ツール", "c9")]);
    for width in [10usize, 24] {
        let rows = open.projection.active_group().map(|g| render_tool_group(g, width)).unwrap();
        assert_eq!(rows.len(), 1, "width {width}");
        assert!(string_width(&rows[0]) <= width, "width {width}: {:?}", strip_ansi(&rows[0]));
    }
}

#[test]
fn a_transition_that_fits_is_its_flattened_detail() {
    let entry = TranscriptEventEntry {
        at: String::new(),
        data: None,
        detail: " cycle 2/5 —\tplan   [budget 1/2 tokens]\n".to_string(),
        goal_id: "g".to_string(),
        iteration: 2,
        kind: HarnessEventType::IterationStart,
    };
    let flat = "cycle 2/5 — plan [budget 1/2 tokens]";
    let row = |width: usize| strip_ansi(&render_cycle_transition(&entry, width)[0]);
    assert_eq!(row(0), flat);
    assert_eq!(row(string_width(flat)), flat, "an exact fit keeps the note");
    assert_eq!(row(string_width(flat) - 1), "cycle 2/5 — plan");
    assert_eq!(row(10), "cycle 2/5…");
}
