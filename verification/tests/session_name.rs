//! Session names: what a reply must look like, what a model is asked, and how a
//! name is kept.

use drip::chat_types::{
    OpenAICompatibleResponse, ReplyContent, ResponseChoice, ResponseMessage,
};
use drip::transcript::{TranscriptEntry, TranscriptGoalEntry, TranscriptModelEntry};
use drip::tui::session_name::{
    build_session_name_prompt, extract_session_name, generate_session_name,
    is_valid_session_name, persist_session_name, read_session_name, read_session_name_context,
    NameCall, SESSION_NAME_TRANSCRIPT_CHARS,
};

fn response(content: Option<ReplyContent>) -> OpenAICompatibleResponse {
    OpenAICompatibleResponse {
        choices: Some(vec![ResponseChoice {
            message: Some(ResponseMessage { content }),
        }]),
    }
}

fn response_with_content(content: &str) -> OpenAICompatibleResponse {
    response(Some(ReplyContent::Text(content.to_string())))
}

fn response_with_parts(parts: &[&str]) -> OpenAICompatibleResponse {
    response(Some(ReplyContent::Parts(
        parts.iter().map(|part| Some(part.to_string())).collect(),
    )))
}

#[test]
fn accepts_five_to_seven_word_names() {
    let five = extract_session_name(&response_with_content(
        "Fix Flaky Websocket Reconnect Handshake",
    ));
    assert_eq!(
        five.as_deref(),
        Some("Fix Flaky Websocket Reconnect Handshake")
    );
    let seven = extract_session_name(&response_with_content(
        "Add Rename Command Wiring And Tests Today",
    ));
    assert!(is_valid_session_name(seven.as_deref().unwrap_or_default()));
}

#[test]
fn rejects_names_outside_the_word_contract() {
    assert_eq!(
        extract_session_name(&response_with_content("Fix Websocket Handshake")),
        None,
        "3 words is too short"
    );
    assert_eq!(
        extract_session_name(&response_with_content(
            "Here is your session name: Fix Flaky Websocket Reconnect Handshake"
        )),
        None,
        "8+ words violates the contract instead of truncating"
    );
    assert!(!is_valid_session_name(""));
    assert!(!is_valid_session_name("one two three"));
    assert!(!is_valid_session_name("drip"));
    assert!(is_valid_session_name("five whole words right here now"));
}

#[test]
fn rejects_malformed_and_empty_model_replies() {
    // Empty content, whitespace, and control characters.
    assert_eq!(extract_session_name(&response_with_content("")), None);
    assert_eq!(extract_session_name(&response_with_content("   ")), None);
    assert_eq!(
        extract_session_name(&response_with_content("\u{7}\u{1b}")),
        None
    );
    // Missing choices, missing message, content that is no text.
    let empty = OpenAICompatibleResponse {
        choices: Some(vec![]),
    };
    assert_eq!(extract_session_name(&empty), None);
    let no_message = OpenAICompatibleResponse {
        choices: Some(vec![ResponseChoice { message: None }]),
    };
    assert_eq!(extract_session_name(&no_message), None);
    let numeric = response(Some(ReplyContent::Other));
    assert_eq!(extract_session_name(&numeric), None);
}

#[test]
fn assembles_content_parts_and_strips_quotes() {
    let parts = response_with_parts(&["\"Fix ", "Flaky Websocket Reconnect Handshake\""]);
    assert_eq!(
        extract_session_name(&parts).as_deref(),
        Some("Fix Flaky Websocket Reconnect Handshake")
    );
}

#[test]
fn prompt_carries_goal_digest_and_word_contract() {
    let prompt = build_session_name_prompt(
        "fix the flaky websocket handshake",
        "User: please start\nAssistant: (reply)",
    );
    assert!(prompt.contains("5 to 7 word"));
    assert!(prompt.contains("fix the flaky websocket handshake"));
    assert!(prompt.contains("Assistant: (reply)"));
}

#[test]
fn digest_prefers_goals_and_handles_empty_transcripts() {
    let goal = TranscriptGoalEntry {
        at: "t1".into(),
        goal_id: "g1".into(),
        images: Vec::new(),
        mentions: Vec::new(),
        text: "first goal".into(),
    };
    let entries = vec![
        TranscriptEntry::Goal(goal),
        TranscriptEntry::Model(TranscriptModelEntry {
            at: "t2".into(),
            goal_id: "g1".into(),
            model: "m".into(),
            profile_id: "p".into(),
            provider: "openai".into(),
            reasoning_effort: None,
            roles: None,
            tool_model: None,
            tool_profile_id: None,
            tool_reasoning_effort: None,
        }),
    ];
    let digest = read_session_name_context("current goal", &entries);
    assert!(digest.starts_with("User: current goal"));
    assert!(digest.contains("first goal"));
    // Empty transcript + empty goal degrades to an empty digest, not an error.
    assert_eq!(read_session_name_context("", &[]), "");
    assert_eq!(
        read_session_name_context("solo goal", &[]),
        "User: solo goal"
    );
}

#[test]
fn a_digest_is_bounded() {
    let entries: Vec<TranscriptEntry> = (0..60)
        .map(|index| {
            TranscriptEntry::Goal(TranscriptGoalEntry {
                at: String::new(),
                goal_id: "g".into(),
                images: Vec::new(),
                mentions: Vec::new(),
                text: format!("goal number {index} with a few words more"),
            })
        })
        .collect();
    let digest = read_session_name_context("now", &entries);
    assert!(digest.chars().count() <= SESSION_NAME_TRANSCRIPT_CHARS);
}

#[test]
fn persistence_round_trip_preserves_other_fields() {
    let raw = "{\n  \"createdAt\": \"2026-01-01T00:00:00Z\",\n  \"id\": \"abc\"\n}\n";
    assert_eq!(read_session_name(Some(raw)), None, "no name yet");
    let written = persist_session_name(Some(raw), "Fix Flaky Websocket Handshake Today")
        .expect("valid metadata takes a name");
    assert_eq!(
        read_session_name(Some(&written)).as_deref(),
        Some("Fix Flaky Websocket Handshake Today")
    );
    assert!(
        written.contains("\"createdAt\""),
        "existing fields survive: {written}"
    );
    assert!(written.contains("\"id\": \"abc\""));
    // Re-persisting overwrites the name in place.
    let again = persist_session_name(Some(&written), "A Whole Fresh Name Here")
        .expect("a name is overwritten");
    assert_eq!(
        read_session_name(Some(&again)).as_deref(),
        Some("A Whole Fresh Name Here")
    );
}

#[test]
fn persistence_rejects_malformed_metadata_and_creates_missing_files() {
    let name = "Fix Flaky Websocket Handshake Today";
    assert_eq!(persist_session_name(Some("not json at all"), name), None);
    assert_eq!(
        read_session_name(Some("not json at all")),
        None,
        "malformed file yields no name"
    );
    // A non-object JSON document is rejected too.
    assert_eq!(persist_session_name(Some("[1, 2, 3]"), name), None);
    // Missing metadata: bare metadata is written and round-trips.
    let created = persist_session_name(None, name).expect("missing metadata is created");
    assert_eq!(read_session_name(Some(&created)).as_deref(), Some(name));
    assert_eq!(read_session_name(None), None);
}

#[test]
fn empty_goal_and_transcript_yields_none_without_a_model_call() {
    assert!(matches!(generate_session_name("", "", 1), NameCall::Refused));
    assert!(matches!(
        generate_session_name("   \n\t ", "  ", 1),
        NameCall::Refused
    ));
    match generate_session_name("goal only", "", 1) {
        NameCall::Send { prompt, .. } => assert!(prompt.contains("goal only")),
        NameCall::Refused => panic!("a goal is enough to ask for a name"),
    }
}
