//! Recalling prompts.

use drip::tui::app::history::PromptHistory;

fn history(entries: &[&str]) -> PromptHistory {
    let mut history = PromptHistory::new(8);
    for entry in entries {
        history.record(entry);
    }
    history
}

#[test]
fn empty_history_never_recalls_and_never_saves_a_draft() {
    let mut history = PromptHistory::new(8);
    assert_eq!(history.older("current draft"), None);
    assert_eq!(history.newer(), None);
    assert_eq!(history.len(), 0);
}

#[test]
fn up_starts_at_newest_and_repeated_up_clamps_at_oldest() {
    let mut history = history(&["first", "second", "third"]);
    assert_eq!(history.older("").as_deref(), Some("third"));
    assert_eq!(history.older("").as_deref(), Some("second"));
    assert_eq!(history.older("").as_deref(), Some("first"));
    // Clamped: still the oldest entry, never wrapping or panicking.
    assert_eq!(history.older("").as_deref(), Some("first"));
}

#[test]
fn down_moves_newer_then_restores_the_exact_draft() {
    let mut history = history(&["one", "two"]);
    assert_eq!(history.older("draft text").as_deref(), Some("two"));
    assert_eq!(history.older("").as_deref(), Some("one"));
    assert_eq!(history.newer().as_deref(), Some("two"));
    // Stepping past the newest restores the draft saved at navigation
    // start, byte for byte.
    assert_eq!(history.newer().as_deref(), Some("draft text"));
    // Down outside navigation is a no-op.
    assert_eq!(history.newer(), None);
}

#[test]
fn multiline_entries_and_drafts_are_kept_verbatim() {
    let mut history = PromptHistory::new(8);
    history.record("line one\nline two\n\nline four");
    assert_eq!(
        history.older("a\nb\nc").as_deref(),
        Some("line one\nline two\n\nline four")
    );
    assert_eq!(history.newer().as_deref(), Some("a\nb\nc"));
}

#[test]
fn blank_and_consecutive_duplicate_prompts_are_not_recorded() {
    let mut history = PromptHistory::new(8);
    history.record("   ");
    history.record("\n\t");
    assert_eq!(history.older(""), None);
    assert_eq!(history.len(), 0);

    history.record("same");
    history.record("same");
    assert_eq!(history.len(), 1);

    // A non-consecutive duplicate is kept.
    history.record("other");
    history.record("same");
    assert_eq!(history.len(), 3);
    assert_eq!(history.older("").as_deref(), Some("same"));
    assert_eq!(history.older("").as_deref(), Some("other"));
}

#[test]
fn history_is_bounded_to_the_capacity_oldest_dropped_first() {
    let mut history = PromptHistory::new(3);
    for n in 0..5 {
        history.record(&format!("p{n}"));
    }
    assert_eq!(history.len(), 3);
    assert_eq!(history.older("").as_deref(), Some("p4"));
    assert_eq!(history.older("").as_deref(), Some("p3"));
    assert_eq!(history.older("").as_deref(), Some("p2"));
}

#[test]
fn editing_a_recalled_prompt_never_mutates_the_stored_entry() {
    let mut history = history(&["original"]);
    let recalled = history.older("").expect("recall");
    let mut edited = recalled;
    edited.push_str(" plus an edit");
    // The stored entry is untouched by the caller's edit...
    history.reset();
    assert_eq!(history.older("").as_deref(), Some("original"));
    // ...and walking navigation again still returns the stored text.
    let again = history.older("").expect("recall again");
    assert_eq!(again, "original");
}

#[test]
fn recording_a_new_prompt_resets_navigation_and_draft() {
    let mut history = history(&["one", "two"]);
    assert_eq!(history.older("draft").as_deref(), Some("two"));
    history.record("three");
    // Navigation ended: Down is a no-op and the old draft is gone.
    assert_eq!(history.newer(), None);
    assert_eq!(history.older("fresh").as_deref(), Some("three"));
}

#[test]
fn reset_discards_navigation_and_the_saved_draft() {
    let mut history = history(&["one"]);
    assert!(history.older("draft").is_some());
    history.reset();
    assert_eq!(history.newer(), None);
    // History itself survives the reset; only navigation state clears.
    assert_eq!(history.len(), 1);
    assert_eq!(history.older("").as_deref(), Some("one"));
}
