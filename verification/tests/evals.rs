//! The browser of eval cases.

use drip::tui::evals::{
    render_eval_detail, render_evals_list, EvalBrowser, EvalRow, EvalRunSummary,
};

fn row(name: &str, kind: &str, scope: &str, description: &str) -> EvalRow {
    EvalRow {
        name: name.to_string(),
        kind: kind.to_string(),
        scope: scope.to_string(),
        dir: format!("/home/evals/{name}"),
        description: description.to_string(),
        goal: format!("fix the {name} flake"),
        expected: vec!["tdd".to_string()],
        candidates: vec!["tdd".to_string(), "review-independently".to_string()],
    }
}

fn browser() -> EvalBrowser {
    EvalBrowser::new(vec![
        row("flaky-test-fixup", "task", "user", "a failing test to fix"),
        row("ship-this-branch", "plan", "project", "open a pull request"),
    ])
}

#[test]
fn the_filter_keeps_every_row_until_it_is_typed_into() {
    let mut browser = browser();
    assert_eq!(browser.visible(), vec![0, 1]);
    browser.filter = "SHIP".to_string();
    assert_eq!(browser.visible(), vec![1], "filtering is case-insensitive");
}

#[test]
fn the_filter_searches_the_description_as_well_as_the_name() {
    let mut browser = browser();
    browser.filter = "pull request".to_string();
    assert_eq!(browser.visible(), vec![1]);
    browser.filter = "nothing here".to_string();
    assert!(browser.visible().is_empty());
}

#[test]
fn the_selection_clamps_within_the_filtered_list() {
    let mut browser = browser();
    browser.move_selection(1);
    assert_eq!(browser.selected, 1);
    browser.move_selection(1);
    assert_eq!(browser.selected, 1, "the highlight stops at the last row");
    browser.move_selection(-5);
    assert_eq!(browser.selected, 0);
}

#[test]
fn a_judgment_is_exclusive_and_survives_a_second_verdict() {
    let mut browser = browser();
    browser.judge("tdd", true);
    assert_eq!(browser.applicable, vec!["tdd".to_string()]);
    browser.judge("tdd", false);
    assert!(browser.applicable.is_empty());
    assert_eq!(browser.not_applicable, vec!["tdd".to_string()]);
    assert!(browser.has_judgment());
}

#[test]
fn opening_a_detail_frame_clears_the_judgment_of_the_last_case() {
    let mut browser = browser();
    browser.judge("tdd", true);
    browser.selected = 1;
    browser.open_detail();
    assert_eq!(browser.detail, Some(1));
    assert!(browser.applicable.is_empty());
    assert!(!browser.has_judgment());
    browser.close_detail();
    assert_eq!(browser.detail, None);
}

#[test]
fn the_empty_browser_opens_no_detail_frame() {
    let mut browser = EvalBrowser::default();
    browser.open_detail();
    assert_eq!(browser.detail, None);
    assert!(browser.detail_row().is_none());
}

#[test]
fn the_list_frame_marks_the_selection_and_clips_every_row() {
    let mut browser = browser();
    browser.selected = 1;
    let rows = render_evals_list(&browser, 30);
    assert!(rows[0].contains("eval cases (2/2)"), "{}", rows[0]);
    assert!(
        rows.iter().any(|row| row.contains("▸ ship-this-branch")),
        "{rows:?}"
    );
    assert!(rows.iter().all(|row| row.chars().count() <= 30), "{rows:?}");
    assert!(rows.last().unwrap().contains("enter open a case"));
}

#[test]
fn an_empty_filter_result_says_so_instead_of_showing_nothing() {
    let mut browser = browser();
    browser.filter = "zzz".to_string();
    let rows = render_evals_list(&browser, 40);
    assert!(rows.iter().any(|row| row.contains("no case matches")));
    assert!(!rows.iter().any(|row| row.contains("flaky-test-fixup")));
}

#[test]
fn the_detail_frame_reports_misses_and_spurious_matches_by_name() {
    let row = row("flaky-test-fixup", "task", "user", "a failing test to fix");
    let summary = EvalRunSummary {
        matched: vec!["tdd".to_string(), "hooks-setup".to_string()],
        missed: vec!["verify-before-done".to_string()],
        spurious: vec!["hooks-setup".to_string()],
        warnings: vec!["one candidate is not installed".to_string()],
    };
    let rows = render_eval_detail(
        &row,
        Some(&summary),
        &["tdd".to_string()],
        &["hooks-setup".to_string()],
        false,
        200,
    );
    let joined = rows.join("\n");
    assert!(joined.contains("expected: tdd"), "{joined}");
    assert!(joined.contains("matched: tdd, hooks-setup"), "{joined}");
    assert!(joined.contains("missed: verify-before-done"), "{joined}");
    assert!(joined.contains("spurious: hooks-setup"), "{joined}");
    assert!(joined.contains("warning: one candidate is not installed"));
    assert!(joined.contains("applicable: tdd"), "{joined}");
    assert!(joined.contains("not applicable: hooks-setup"), "{joined}");
}

#[test]
fn the_candidate_cursor_walks_the_pool_and_judges_what_it_sits_on() {
    let mut browser = browser();
    browser.open_detail();
    assert_eq!(browser.selected_candidate(), Some("tdd".to_string()));
    browser.move_candidate(-1);
    assert_eq!(browser.selected_candidate(), Some("tdd".to_string()));
    browser.move_candidate(5);
    assert_eq!(
        browser.selected_candidate(),
        Some("review-independently".to_string()),
        "the cursor stops at the last candidate"
    );
    assert_eq!(
        browser.judge_selected(true),
        Some("review-independently".to_string())
    );
    assert_eq!(browser.applicable, vec!["review-independently".to_string()]);
    browser.judge_selected(false);
    assert!(browser.applicable.is_empty());
    assert_eq!(
        browser.not_applicable,
        vec!["review-independently".to_string()]
    );
}

#[test]
fn a_case_with_nothing_to_judge_has_no_candidate() {
    let mut browser = browser();
    browser.rows[0].candidates.clear();
    browser.rows[0].expected.clear();
    browser.open_detail();
    assert_eq!(browser.selected_candidate(), None);
    assert_eq!(browser.judge_selected(true), None);
    browser.move_candidate(1);
    assert_eq!(browser.candidate_index, 0);
}

#[test]
fn the_detail_frame_distinguishes_unrun_from_nothing_matched() {
    let row = row("flaky-test-fixup", "task", "user", "a failing test to fix");
    let unrun = render_eval_detail(&row, None, &[], &[], false, 200).join("\n");
    assert!(unrun.contains("matched: (not run yet)"), "{unrun}");
    let empty = EvalRunSummary::default();
    let ran = render_eval_detail(&row, Some(&empty), &[], &[], false, 200).join("\n");
    assert!(ran.contains("matched: (nothing matched)"), "{ran}");
    let running = render_eval_detail(&row, None, &[], &[], true, 200).join("\n");
    assert!(running.contains("running the classifier…"), "{running}");
}

#[test]
fn a_case_with_no_declared_pool_judges_expected_then_matched_names() {
    let mut browser = browser();
    assert_eq!(
        browser.candidates(&browser.rows[0]),
        vec!["tdd".to_string(), "review-independently".to_string()]
    );

    // No declared pool: the expected names are judged first, and a name
    // only the classifier matched is appended — never duplicated.
    let mut bare = row("bare", "prompt", "user", "no declared pool");
    bare.candidates.clear();
    browser.rows[0] = bare.clone();
    assert_eq!(browser.candidates(&bare), vec!["tdd".to_string()]);
    browser.summary = Some(EvalRunSummary {
        matched: vec!["tdd".to_string(), "hooks-setup".to_string()],
        ..Default::default()
    });
    assert_eq!(
        browser.candidates(&bare),
        vec!["tdd".to_string(), "hooks-setup".to_string()]
    );
}

#[test]
fn the_filter_folds_every_letter() {
    let mut browser = EvalBrowser::new(vec![row("ÉLAN", "task", "user", "Straße")]);
    for filter in ["élan", "STRASSE", "straße"] {
        browser.filter = filter.to_string();
        assert_eq!(browser.visible().is_empty(), filter == "STRASSE", "{filter}");
    }
}
