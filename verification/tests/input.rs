//! Bytes to keys.

use drip::tui::app::input::{decode_input, take_whole, Key, MouseEvent};

fn kinds(keys: &[Key]) -> Vec<&'static str> {
    keys.iter()
        .map(|key| match key {
            Key::Backspace => "backspace",
            Key::Ctrl(_) => "ctrl",
            Key::Delete => "delete",
            Key::Down => "down",
            Key::Escape => "escape",
            Key::Left => "left",
            Key::Mouse(_) => "mouse",
            Key::Paste(_) => "paste",
            Key::Return => "return",
            Key::Right => "right",
            Key::Tab => "tab",
            Key::Text(_) => "text",
            Key::Up => "up",
            Key::Ignored => "ignored",
        })
        .collect()
}

#[test]
fn decodes_single_keys_and_escape_sequences() {
    let mut paste = None;
    assert_eq!(kinds(&decode_input(b"a", &mut paste)), vec!["text"]);
    assert_eq!(kinds(&decode_input(b"\r", &mut paste)), vec!["return"]);
    assert_eq!(kinds(&decode_input(b"\x1b[A", &mut paste)), vec!["up"]);
    assert_eq!(kinds(&decode_input(b"\x1b[3~", &mut paste)), vec!["delete"]);
    assert_eq!(kinds(&decode_input(b"\x1b", &mut paste)), vec!["escape"]);
    assert_eq!(kinds(&decode_input(b"\x7f", &mut paste)), vec!["backspace"]);
    match &decode_input(b"\x16", &mut paste)[0] {
        Key::Ctrl(c) => assert_eq!(*c, 'v'),
        _ => panic!("ctrl+v expected"),
    }
    assert_eq!(
        kinds(&decode_input("é".as_bytes(), &mut paste)),
        vec!["text"]
    );
    // Ctrl+s is the steer key: a single raw-mode byte on every terminal.
    match &decode_input(b"\x13", &mut paste)[0] {
        Key::Ctrl(c) => assert_eq!(*c, 's'),
        _ => panic!("ctrl+s expected"),
    }
    // A bare LF (ctrl+enter on some terminals) stays a plain return so a
    // stray newline can never steer.
    assert_eq!(kinds(&decode_input(b"\n", &mut paste)), vec!["return"]);
    assert_eq!(kinds(&decode_input(b"a\r", &mut paste)), vec!["paste"]);
}

#[test]
fn multi_character_chunks_are_pastes_and_bracketed_pastes_span_chunks() {
    let mut paste = None;
    match &decode_input(b"hello\n", &mut paste)[0] {
        Key::Paste(text) => assert_eq!(text, "hello\n"),
        _ => panic!("paste expected"),
    }

    let first = decode_input(b"\x1b[200~one ", &mut paste);
    assert!(first.is_empty());
    assert!(paste.is_some());
    let second = decode_input(b"two\x1b[201~x", &mut paste);
    assert_eq!(kinds(&second), vec!["paste", "text"]);
    match &second[0] {
        Key::Paste(text) => assert_eq!(text, "one two"),
        _ => panic!("paste expected"),
    }
    assert!(paste.is_none());
}

#[test]
fn a_chunk_with_several_escape_sequences_decodes_each() {
    let mut paste = None;
    assert_eq!(
        kinds(&decode_input(b"\x1b[A\x1b[A", &mut paste)),
        vec!["up", "up"]
    );
    assert_eq!(
        kinds(&decode_input(b"\x1b[Da", &mut paste)),
        vec!["left", "text"]
    );
    assert_eq!(
        kinds(&decode_input(b"\x1b[1;5C", &mut paste)),
        vec!["ignored"]
    );
}

#[test]
fn an_sgr_click_report_decodes_into_a_mouse_key() {
    let mut paste = None;
    let keys = decode_input(b"\x1b[<0;20;24M", &mut paste);
    assert_eq!(keys.len(), 1);
    match &keys[0] {
        Key::Mouse(MouseEvent::Click { col, row }) => assert_eq!((*col, *row), (20, 24)),
        _ => panic!("a click report must decode to a mouse key"),
    }
    // A wheel notch rides the same report path but is never a click, and
    // the other buttons stay ignored.
    assert!(matches!(
        decode_input(b"\x1b[<64;20;24M", &mut paste).first(),
        Some(Key::Mouse(MouseEvent::Wheel(_)))
    ));
    assert!(matches!(
        decode_input(b"\x1b[<2;20;24M", &mut paste).first(),
        Some(Key::Ignored)
    ));
    // A click still decodes when a key follows it in the same read.
    let keys = decode_input(b"\x1b[<0;3;4Ma", &mut paste);
    assert!(matches!(
        keys.first(),
        Some(Key::Mouse(MouseEvent::Click { .. }))
    ));
    assert!(matches!(keys.get(1), Some(Key::Text(text)) if text == "a"));
}


#[test]
fn a_character_that_a_read_cut_waits_for_its_tail() {
    let mut pending = b"a\xc3".to_vec();
    assert_eq!(take_whole(&mut pending), b"a");
    assert_eq!(pending, b"\xc3");
    pending.push(0xa9);
    assert_eq!(take_whole(&mut pending), "é".as_bytes());
    assert!(pending.is_empty());
    // Bytes that can never become text are not held back.
    let mut broken = b"a\xff".to_vec();
    assert_eq!(take_whole(&mut broken), b"a\xff");
    assert!(broken.is_empty());
}

#[test]
fn invalid_bytes_decode_to_replacement_characters() {
    let mut paste = None;
    match &decode_input(b"a\xffb", &mut paste)[0] {
        Key::Paste(text) => assert_eq!(text, "a\u{fffd}b"),
        _ => panic!("paste expected"),
    }
}
