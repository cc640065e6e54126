//! The patch journal: where it lies, what it records, and how edits are undone.

use drip::tools::patch_journal::{
    append_patch_journal, find_journal_root, patch_journal_path, sha256, undo_last_patches,
    AppendPatchJournalEntry, JournalDir, JournalLine, PatchJournalEntry, UndoAction, UndoOutcome,
    MAX_PRE_IMAGE_CHARS,
};
use std::collections::BTreeMap;

fn dirs() -> Vec<JournalDir> {
    let dir = |path: &str, has_drip: bool, has_git: bool| JournalDir {
        path: path.to_string(),
        has_drip,
        has_git,
    };
    vec![
        dir("/root/packages/app", false, false),
        dir("/root/packages", false, false),
        dir("/root", true, false),
        dir("/", false, false),
    ]
}

fn line(path: &str, post: &str, pre: Option<&str>) -> JournalLine {
    let entry = append_patch_journal(
        "2026-01-01T00:00:00.000Z",
        &AppendPatchJournalEntry {
            path: path.to_string(),
            post_content: post.to_string(),
            pre_image: pre.map(|text| text.to_string()),
        },
    );
    JournalLine {
        raw: format!("{{\"path\":\"{path}\"}}"),
        entry: Some(entry),
    }
}

/// Walks the journal back over files held in memory.
fn undo(
    lines: Vec<JournalLine>,
    count: usize,
    files: &mut BTreeMap<String, String>,
) -> (Vec<UndoOutcome>, String) {
    let mut walk = undo_last_patches(lines, count);
    while let Some(path) = walk.next_path() {
        let current = files.get(&path).cloned();
        match walk.settle(current.as_deref()) {
            UndoAction::Keep => {}
            UndoAction::Delete { path } => {
                files.remove(&path);
            }
            UndoAction::Restore { path, content } => {
                files.insert(path, content);
            }
        }
    }
    walk.finish()
}

#[test]
fn journals_to_the_discovered_root_not_a_stray_nested_one() {
    assert_eq!(find_journal_root("/root/packages/app", &dirs()), "/root");
    let path = patch_journal_path("/root/packages/app", &dirs());
    assert!(path.starts_with("/root/.drip/"), "{path}");
}

#[test]
fn undoes_edits_in_reverse_order_and_deletes_files_a_patch_created() {
    let mut files = BTreeMap::from([
        ("edited.ts".to_string(), "v2".to_string()),
        ("created.ts".to_string(), "new file".to_string()),
    ]);
    let lines = vec![
        line("edited.ts", "v2", Some("v1")),
        line("created.ts", "new file", None),
    ];

    let (outcomes, left) = undo(lines, 2, &mut files);

    assert_eq!(
        outcomes,
        vec![
            UndoOutcome::Deleted {
                path: "created.ts".to_string()
            },
            UndoOutcome::Undone {
                path: "edited.ts".to_string()
            },
        ]
    );
    assert!(!files.contains_key("created.ts"));
    assert_eq!(files["edited.ts"], "v1");
    // The journal drained.
    assert_eq!(left, "");
    assert_eq!(undo(Vec::new(), 1, &mut files).0, vec![UndoOutcome::Empty]);
}

#[test]
fn refuses_to_undo_a_file_that_changed_after_the_patch() {
    let mut files = BTreeMap::from([("file.ts".to_string(), "v3-by-someone-else".to_string())]);

    let (outcomes, _) = undo(vec![line("file.ts", "v2", Some("v1"))], 1, &mut files);

    assert!(
        matches!(&outcomes[0], UndoOutcome::Refused { .. }),
        "expected refused, got {:?}",
        outcomes[0]
    );
    assert_eq!(files["file.ts"], "v3-by-someone-else");
}

#[test]
fn refuses_to_undo_a_file_that_is_gone() {
    let mut files = BTreeMap::new();
    let (outcomes, _) = undo(vec![line("file.ts", "v2", Some("v1"))], 1, &mut files);
    assert!(matches!(&outcomes[0], UndoOutcome::Refused { .. }));
    assert!(files.is_empty());
}

#[test]
fn a_line_that_cannot_be_read_is_passed_over() {
    let mut files = BTreeMap::from([("file.ts".to_string(), "v2".to_string())]);
    let broken = JournalLine {
        raw: "not json".to_string(),
        entry: None,
    };
    let (outcomes, _) = undo(
        vec![line("file.ts", "v2", Some("v1")), broken],
        1,
        &mut files,
    );
    assert_eq!(
        outcomes,
        vec![UndoOutcome::Undone {
            path: "file.ts".to_string()
        }]
    );
    assert_eq!(files["file.ts"], "v1");
}

#[test]
fn a_digest_is_the_standard_one() {
    assert_eq!(
        sha256("abc"),
        "ba7816bf8f01cfea414140de5dae2223b00361a396177a9cb410ff61f20015ad"
    );
    assert_eq!(
        sha256(""),
        "e3b0c44298fc1c149afbf4c8996fb92427ae41e4649b934ca495991b7852b855"
    );
}

#[test]
fn an_oversized_pre_image_is_elided() {
    let entry: PatchJournalEntry = append_patch_journal(
        "now",
        &AppendPatchJournalEntry {
            path: "big".to_string(),
            post_content: "x".to_string(),
            pre_image: Some("a".repeat(MAX_PRE_IMAGE_CHARS + 1)),
        },
    );
    assert_eq!(entry.pre_image, None);
    assert_eq!(entry.pre_image_elided, Some(true));
    assert_eq!(entry.post_sha256, sha256("x"));
}
