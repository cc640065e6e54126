//! Inline images: which protocol a terminal speaks, and how each is written.

use base64::engine::general_purpose::STANDARD;
use base64::Engine;
use drip::tui::images::{
    detect_image_protocol_from, image_rows, iterm2_inline_escape, kitty_graphics_escape,
    markdown_image_paths, ImageFile, ImageProtocol, InlineImages, TerminalEnv, KITTY_CHUNK_BYTES,
};

fn env(pairs: &[(&str, &str)]) -> TerminalEnv {
    let get = |key: &str| {
        pairs
            .iter()
            .find(|(name, _)| *name == key)
            .map(|(_, value)| value.to_string())
    };
    TerminalEnv {
        drip_image_protocol: get("DRIP_IMAGE_PROTOCOL"),
        term: get("TERM"),
        term_program: get("TERM_PROGRAM"),
        kitty_window_id: get("KITTY_WINDOW_ID"),
        ghostty_resources_dir: get("GHOSTTY_RESOURCES_DIR"),
        wezterm_pane: get("WEZTERM_PANE"),
    }
}

const PNG_MAGIC: [u8; 8] = [0x89, b'P', b'N', b'G', b'\r', b'\n', 0x1a, b'\n'];

fn file(name: &str, content: Option<Vec<u8>>) -> ImageFile {
    ImageFile {
        image: format!("/tmp/{name}"),
        name: Some(name.to_string()),
        content,
    }
}

#[test]
fn detection_requires_a_tty_then_follows_the_terminal() {
    let kitty = env(&[("TERM", "xterm-kitty")]);
    assert_eq!(detect_image_protocol_from(&kitty, false), None);
    assert_eq!(
        detect_image_protocol_from(&kitty, true),
        Some(ImageProtocol::Kitty)
    );

    assert_eq!(
        detect_image_protocol_from(&env(&[("TERM_PROGRAM", "iTerm.app")]), true),
        Some(ImageProtocol::Iterm2)
    );
    assert_eq!(
        detect_image_protocol_from(&env(&[("TERM_PROGRAM", "WezTerm")]), true),
        Some(ImageProtocol::Iterm2)
    );
    assert_eq!(
        detect_image_protocol_from(&env(&[("TERM_PROGRAM", "ghostty")]), true),
        Some(ImageProtocol::Kitty)
    );
    // Plain 256-color terminals announce neither protocol.
    assert_eq!(
        detect_image_protocol_from(&env(&[("TERM", "xterm-256color")]), true),
        None
    );
}

#[test]
fn explicit_override_wins_and_none_disables() {
    let forced = env(&[("DRIP_IMAGE_PROTOCOL", "iterm2"), ("TERM", "xterm-kitty")]);
    assert_eq!(
        detect_image_protocol_from(&forced, true),
        Some(ImageProtocol::Iterm2)
    );

    let off = env(&[("DRIP_IMAGE_PROTOCOL", "none"), ("TERM", "xterm-kitty")]);
    assert_eq!(detect_image_protocol_from(&off, true), None);
}

#[test]
fn kitty_payload_is_chunked_at_the_protocol_limit() {
    let payload = "A".repeat(KITTY_CHUNK_BYTES * 2 + 12);
    let escape = kitty_graphics_escape(&payload, 40);

    assert_eq!(escape.matches("\x1b_G").count(), 3);
    assert_eq!(escape.matches("\x1b\\").count(), 3);
    assert!(escape.starts_with("\x1b_Ga=T,f=100,m=1,c=40;"));

    // Reassemble: every chunk after the first drops the action/format
    // keys, and only the last one closes the upload with m=0.
    let chunks: Vec<&str> = escape
        .split("\x1b\\")
        .filter(|part| !part.is_empty())
        .collect();
    let mut rebuilt = String::new();
    for (index, chunk) in chunks.iter().enumerate() {
        let (head, body) = chunk.split_once(';').expect("chunk carries a control part");
        assert!(
            head.contains(&format!("m={}", usize::from(index + 1 < 3))),
            "{head}"
        );
        assert!(body.len() <= KITTY_CHUNK_BYTES, "chunk {} too long", index);
        rebuilt.push_str(body);
    }
    assert_eq!(rebuilt, payload);
}

#[test]
fn iterm2_payload_round_trips_the_image_bytes() {
    let bytes = b"not-really-a-png but opaque to the terminal";
    let payload = STANDARD.encode(bytes);
    let escape = iterm2_inline_escape(&payload, "shot.png", 24);

    assert!(escape.starts_with("\x1b]1337;File=name="));
    assert!(escape.ends_with('\x07'));
    assert!(escape.contains(";inline=1;width=24;preserveAspectRatio=1:"));

    // The name is base64 of the file name and the payload decodes to the
    // exact bytes on disk.
    let header = escape.trim_start_matches("\x1b]1337;File=name=");
    let (name, rest) = header.split_once(';').unwrap();
    assert_eq!(STANDARD.decode(name).unwrap(), b"shot.png");
    let body = rest.split(':').nth(1).unwrap().trim_end_matches('\x07');
    assert_eq!(STANDARD.decode(body).unwrap(), bytes);
}

#[test]
fn image_rows_pick_a_format_per_protocol_and_skip_missing_files() {
    let png = [&PNG_MAGIC[..], b"fake png body"].concat();
    let images = vec![
        file("shot.png", Some(png)),
        file("notes.txt", Some(b"plain text".to_vec())),
        file("missing.png", None),
    ];

    let kitty = image_rows(&images, 40, ImageProtocol::Kitty);
    assert_eq!(kitty.len(), 1, "only the PNG is displayable by kitty");
    assert!(kitty[0].starts_with("\x1b_Ga=T,f=100,m=0,c=40;"));

    // The file name travels base64 encoded inside the escape, so compare
    // it after decoding rather than by substring.
    let name_of = |escape: &str| -> String {
        let header = escape.trim_start_matches("\x1b]1337;File=name=");
        let (name, _) = header.split_once(';').unwrap();
        String::from_utf8(STANDARD.decode(name).unwrap()).unwrap()
    };

    let iterm = image_rows(&images, 40, ImageProtocol::Iterm2);
    assert_eq!(
        iterm.len(),
        2,
        "iTerm2 takes both real files, not the missing one"
    );
    assert_eq!(name_of(&iterm[0]), "shot.png");
    assert_eq!(name_of(&iterm[1]), "notes.txt");
}

#[test]
fn goal_block_keeps_the_text_marker_when_disabled_and_adds_rows_when_on() {
    let png = [&PNG_MAGIC[..], b"body"].concat();
    let images = vec![file("shot.png", Some(png))];
    let mut inline = InlineImages::new();

    // Nothing but the marker until the session opts in.
    inline.set_inline_images(None);
    let off = inline.goal_image_rows(&images, 40);
    assert_eq!(off.len(), 1);
    assert!(off[0].contains("[1 image attached]"));

    inline.set_inline_images(Some(ImageProtocol::Iterm2));
    let on = inline.goal_image_rows(&images, 40);
    assert_eq!(on.len(), 2);
    assert!(on[0].contains("[1 image attached]"));
    assert!(on[1].contains("\x1b]1337;File="));

    inline.set_inline_images(None);
    assert_eq!(inline.inline_images_protocol(), None);
}

#[test]
fn markdown_image_links_resolve_locally_only() {
    let text = "see ![shot](shot.png) and ![b](https://x.example/y.png) and ![a](shot.png)";
    assert_eq!(markdown_image_paths(text), vec!["shot.png".to_string()]);
    assert!(markdown_image_paths("no images here").is_empty());
}
