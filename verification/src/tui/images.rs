//! Inline images.
//!
//! Two escape protocols cover the terminals in use: the kitty graphics
//! protocol (`ESC _ G ... ESC \`, the base64 payload split into chunks of at
//! most 4096 bytes) and iTerm2 inline images (`ESC ] 1337 ; File=...`).
//! Without a protocol the text marker is the only representation.

use vstd::prelude::*;
use base64::Engine;
use crate::ansi;
use crate::ansi::gray;
use crate::text;
use crate::text::{
    chars_of, concat2, concat3, contains, format_decimal, same, skip_chars, space, starts_with,
    sub_string, to_ascii_lower, trim,
};
use crate::tui::compact::lists;
use crate::tui::evals::push_row;
use crate::tui::markdown_ansi;

verus! {

/// kitty caps one escape's base64 payload at 4096 bytes.
pub const KITTY_CHUNK_BYTES: usize = 4096;

/// Widest image, in terminal columns, an inline row will ask for.
pub const MAX_IMAGE_COLUMNS: usize = 80;

#[derive(Clone, Copy, Debug, PartialEq, Eq, Structural)]
pub enum ImageProtocol {
    Kitty,
    Iterm2,
}

impl ImageProtocol {
    pub fn name(self) -> (r: &'static str)
        ensures
            r@ == (match self {
                ImageProtocol::Kitty => "kitty"@,
                ImageProtocol::Iterm2 => "iterm2"@,
            }),
    {
        match self {
            ImageProtocol::Kitty => "kitty",
            ImageProtocol::Iterm2 => "iterm2",
        }
    }
}

/// The protocol that the renderers may use; none until one is selected.
pub struct InlineImages {
    pub active: Option<ImageProtocol>,
}

impl InlineImages {
    /// Inline output disabled.
    pub fn new() -> (r: Self)
        ensures
            r.active is None,
    {
        InlineImages { active: None }
    }

    /// Selects the protocol the renderers may use; `None` disables inline
    /// output and leaves the text marker as the only representation.
    pub fn set_inline_images(&mut self, protocol: Option<ImageProtocol>)
        ensures
            final(self).active == protocol,
    {
        self.active = protocol;
    }

    /// The protocol inline rows may use right now (`None`: marker only).
    pub fn inline_images_protocol(&self) -> (r: Option<ImageProtocol>)
        ensures
            r == self.active,
    {
        self.active
    }

    /// Inline rows: empty unless a protocol is active.
    pub fn inline_image_rows(&self, images: &[ImageFile], columns: usize) -> (r: Vec<String>)
        ensures
            text::texts(r@) == (match self.active {
                Some(protocol) => rows_of_images(images@, columns as nat, protocol),
                None => Seq::empty(),
            }),
    {
        match self.active {
            Some(protocol) => image_rows(images, columns, protocol),
            None => {
                let rows: Vec<String> = Vec::new();
                assert(text::texts(rows@) =~= Seq::empty());
                rows
            },
        }
    }

    /// The whole goal-attachment block: the `[N images attached]` marker (the
    /// only row when no protocol is active) followed by the inline images.
    pub fn goal_image_rows(&self, images: &[ImageFile], columns: usize) -> (r: Vec<String>)
        ensures
            text::texts(r@) == seq![marker_row(images@.len())] + (match self.active {
                Some(protocol) => rows_of_images(images@, columns as nat, protocol),
                None => Seq::empty(),
            }),
    {
        let n = format_decimal(images.len() as u64);
        let mut marker = concat2("  [", n.as_str());
        if images.len() == 1 {
            marker.append(" image attached]");
        } else {
            marker.append(" images attached]");
        }
        let mut rows: Vec<String> = Vec::new();
        rows.push(gray(marker.as_str()));
        assert(text::texts(rows@) =~= seq![marker_row(images@.len())]);
        let mut inline = self.inline_image_rows(images, columns);
        proof {
            text::lemma_texts_add(rows@, inline@);
        }
        rows.append(&mut inline);
        rows
    }
}

/// The text marker of `n` attached images.
pub open spec fn marker_row(n: nat) -> Seq<char> {
    ansi::grayed(
        "  ["@ + text::decimal(n) + (if n == 1 {
            " image attached]"@
        } else {
            " images attached]"@
        }),
    )
}

// ---------------------------------------------------------------------------
// Detection
// ---------------------------------------------------------------------------

/// What the environment says of the terminal: the value of each variable that
/// is set.
pub struct TerminalEnv {
    pub drip_image_protocol: Option<String>,
    pub term: Option<String>,
    pub term_program: Option<String>,
    pub kitty_window_id: Option<String>,
    pub ghostty_resources_dir: Option<String>,
    pub wezterm_pane: Option<String>,
}

/// The lower-case value of a variable, empty where it is not set.
pub open spec fn lower_value(v: Option<String>) -> Seq<char> {
    match v {
        Some(s) => text::ascii_lowered(s@),
        None => Seq::empty(),
    }
}

/// The protocol that an explicit choice names.
pub open spec fn chosen_protocol(choice: Seq<char>) -> Option<ImageProtocol> {
    let c = text::ascii_lowered(text::trimmed(choice));
    if c == "kitty"@ || c == "ghostty"@ {
        Some(ImageProtocol::Kitty)
    } else if c == "iterm2"@ || c == "iterm"@ || c == "wezterm"@ {
        Some(ImageProtocol::Iterm2)
    } else {
        None
    }
}

/// The protocol of the terminal: none where stdout is no terminal, else the
/// explicit choice where there is one, else what the terminal announces.
pub open spec fn detected_protocol(env: TerminalEnv, is_tty: bool) -> Option<ImageProtocol> {
    if !is_tty {
        None
    } else if env.drip_image_protocol is Some {
        chosen_protocol(env.drip_image_protocol->0@)
    } else if text::has_text(lower_value(env.term), "kitty"@) || env.kitty_window_id is Some
        || lower_value(env.term_program) == "ghostty"@ || env.ghostty_resources_dir is Some {
        Some(ImageProtocol::Kitty)
    } else if lower_value(env.term_program) == "iterm.app"@ || lower_value(env.term_program)
        == "wezterm"@ || env.wezterm_pane is Some {
        Some(ImageProtocol::Iterm2)
    } else {
        None
    }
}

fn lower_or_empty(v: &Option<String>) -> (r: String)
    ensures
        r@ == lower_value(*v),
{
    match v {
        Some(s) => to_ascii_lower(s.as_str()),
        None => String::new(),
    }
}

/// Detects the protocol. Redirected output always stays text, then an
/// explicit choice wins, then the terminal's own announcements count.
pub fn detect_image_protocol_from(env: &TerminalEnv, is_tty: bool) -> (r: Option<ImageProtocol>)
    ensures
        r == detected_protocol(*env, is_tty),
{
    if !is_tty {
        return None;
    }
    if let Some(choice) = &env.drip_image_protocol {
        let trimmed = trim(choice.as_str());
        let c = to_ascii_lower(trimmed.as_str());
        if same(c.as_str(), "kitty") || same(c.as_str(), "ghostty") {
            return Some(ImageProtocol::Kitty);
        }
        if same(c.as_str(), "iterm2") || same(c.as_str(), "iterm") || same(c.as_str(), "wezterm") {
            return Some(ImageProtocol::Iterm2);
        }
        return None;
    }
    let term = lower_or_empty(&env.term);
    let program = lower_or_empty(&env.term_program);
    if contains(term.as_str(), "kitty") || env.kitty_window_id.is_some() || same(
        program.as_str(),
        "ghostty",
    ) || env.ghostty_resources_dir.is_some() {
        return Some(ImageProtocol::Kitty);
    }
    if same(program.as_str(), "iterm.app") || same(program.as_str(), "wezterm")
        || env.wezterm_pane.is_some() {
        return Some(ImageProtocol::Iterm2);
    }
    None
}

// ---------------------------------------------------------------------------
// Escapes
// ---------------------------------------------------------------------------

/// A column count held to what an inline image may ask for.
pub open spec fn image_columns(columns: nat) -> nat {
    if columns < 1 {
        1
    } else if columns > MAX_IMAGE_COLUMNS {
        MAX_IMAGE_COLUMNS as nat
    } else {
        columns
    }
}

/// The bytes that `s` takes in UTF-8.
pub open spec fn byte_length(s: Seq<char>) -> nat
    decreases s.len(),
{
    if s.len() == 0 {
        0
    } else {
        byte_length(s.drop_last()) + markdown_ansi::utf8_bytes(s.last())
    }
}

/// How many characters the next chunk takes once the first `n` are in it: as
/// many as fit in `KITTY_CHUNK_BYTES` bytes.
pub open spec fn chunk_end(s: Seq<char>, n: nat) -> nat
    decreases s.len() - n,
{
    if n < s.len() && byte_length(s.take(n as int + 1)) <= KITTY_CHUNK_BYTES {
        chunk_end(s, n + 1)
    } else {
        n
    }
}

/// The chunks of a payload.
pub open spec fn chunks(s: Seq<char>) -> Seq<Seq<char>>
    decreases s.len(),
{
    let k = chunk_end(s, 0);
    if k == 0 || k >= s.len() {
        seq![s]
    } else {
        seq![s.take(k as int)] + chunks(s.skip(k as int))
    }
}

/// One kitty escape: the first names action, format and width, each says
/// whether another follows.
pub open spec fn kitty_frame(chunk: Seq<char>, first: bool, more: bool, columns: nat) -> Seq<char> {
    let flag = if more {
        "m=1"@
    } else {
        "m=0"@
    };
    if first {
        "\u{1b}_Ga=T,f=100,"@ + flag + ",c="@ + text::decimal(columns) + ";"@ + chunk + "\u{1b}\\"@
    } else {
        "\u{1b}_G"@ + flag + ";"@ + chunk + "\u{1b}\\"@
    }
}

/// The escapes of the chunks from `i` on.
pub open spec fn kitty_frames(parts: Seq<Seq<char>>, i: int, columns: nat) -> Seq<char>
    decreases parts.len() - i,
{
    if i < 0 || i >= parts.len() {
        Seq::empty()
    } else {
        kitty_frame(parts[i], i == 0, i + 1 < parts.len(), columns) + kitty_frames(
            parts,
            i + 1,
            columns,
        )
    }
}

proof fn lemma_chunk_end(s: Seq<char>, n: nat)
    requires
        n <= s.len(),
        byte_length(s.take(n as int)) <= KITTY_CHUNK_BYTES,
    ensures
        n <= chunk_end(s, n) <= s.len(),
        byte_length(s.take(chunk_end(s, n) as int)) <= KITTY_CHUNK_BYTES,
        n == 0 && s.len() > 0 ==> chunk_end(s, n) > 0,
    decreases s.len() - n,
{
    if n < s.len() {
        assert(s.take(n as int + 1).drop_last() =~= s.take(n as int));
        if n == 0 {
            assert(s.take(0) =~= Seq::empty());
        }
        if byte_length(s.take(n as int + 1)) <= KITTY_CHUNK_BYTES {
            lemma_chunk_end(s, n + 1);
        }
    }
}

fn chunk_stop(x: &Vec<char>, from: usize) -> (r: usize)
    requires
        from <= x.len(),
    ensures
        from <= r <= x.len(),
        r - from == chunk_end(x@.skip(from as int), 0),
{
    let ghost s = x@.skip(from as int);
    let mut i: usize = from;
    let mut used: usize = 0;
    assert(s.take(0) =~= Seq::empty());
    while i < x.len()
        invariant
            from <= i <= x.len(),
            s == x@.skip(from as int),
            used <= KITTY_CHUNK_BYTES,
            used == byte_length(s.take(i - from)),
            chunk_end(s, 0) == chunk_end(s, (i - from) as nat),
        decreases x.len() - i,
    {
        let c: char = x[i];
        let n: usize = if c <= '\u{7f}' {
            1
        } else if c <= '\u{7ff}' {
            2
        } else if c <= '\u{ffff}' {
            3
        } else {
            4
        };
        assert(s.take(i - from + 1).drop_last() =~= s.take(i - from));
        assert(s.take(i - from + 1).last() == c);
        if n > KITTY_CHUNK_BYTES - used {
            return i;
        }
        used = used + n;
        i = i + 1;
    }
    i
}

fn split_chunks(payload: &str) -> (r: Vec<String>)
    ensures
        text::texts(r@) == chunks(payload@),
{
    let x = chars_of(payload);
    let mut out: Vec<String> = Vec::new();
    let mut i: usize = 0;
    assert(x@.skip(0) =~= x@);
    assert(text::texts(out@) + chunks(x@) =~= chunks(x@));
    loop
        invariant
            i <= x.len(),
            x@ == payload@,
            text::texts(out@) + chunks(x@.skip(i as int)) == chunks(x@),
        decreases x.len() - i,
    {
        broadcast use text::lemma_texts_push;

        let ghost rest = x@.skip(i as int);
        let ghost before = text::texts(out@);
        proof {
            assert(rest.take(0) =~= Seq::empty());
            lemma_chunk_end(rest, 0);
        }
        let stop: usize = chunk_stop(&x, i);
        if stop >= x.len() {
            let last = sub_string(&x, i, x.len());
            assert(last@ =~= rest);
            out.push(last);
            assert(text::texts(out@) =~= before + chunks(rest));
            return out;
        }
        let part = sub_string(&x, i, stop);
        assert(part@ =~= rest.take(stop - i));
        out.push(part);
        assert(rest.skip(stop - i) =~= x@.skip(stop as int));
        assert(text::texts(out@) + chunks(x@.skip(stop as int)) =~= before + (seq![part@] + chunks(
            x@.skip(stop as int),
        )));
        i = stop;
    }
}

fn hold_columns(columns: usize) -> (r: usize)
    ensures
        r == image_columns(columns as nat),
{
    if columns < 1 {
        1
    } else if columns > MAX_IMAGE_COLUMNS {
        MAX_IMAGE_COLUMNS
    } else {
        columns
    }
}

/// kitty's transmit-and-display escape for a PNG `columns` wide, its payload
/// in chunks: `m=1` announces another chunk, `m=0` ends the upload; only the
/// first chunk names action, format and width.
pub fn kitty_graphics_escape(png_base64: &str, columns: usize) -> (r: String)
    ensures
        r@ == kitty_frames(chunks(png_base64@), 0, image_columns(columns as nat)),
{
    let width: usize = hold_columns(columns);
    let w = format_decimal(width as u64);
    let parts = split_chunks(png_base64);
    let ghost all = text::texts(parts@);
    let mut out = String::new();
    let mut i: usize = 0;
    assert(out@ + kitty_frames(all, 0, width as nat) =~= kitty_frames(all, 0, width as nat));
    while i < parts.len()
        invariant
            i <= parts.len(),
            all == text::texts(parts@),
            w@ == text::decimal(width as nat),
            out@ + kitty_frames(all, i as int, width as nat) == kitty_frames(all, 0, width as nat),
        decreases parts.len() - i,
    {
        let ghost so_far = out@;
        let flag = if i + 1 < parts.len() {
            "m=1"
        } else {
            "m=0"
        };
        let mut frame = if i == 0 {
            let mut f = concat3("\u{1b}_Ga=T,f=100,", flag, ",c=");
            f.append(w.as_str());
            f
        } else {
            concat2("\u{1b}_G", flag)
        };
        frame.append(";");
        frame.append(parts[i].as_str());
        frame.append("\u{1b}\\");
        assert(all[i as int] == parts@[i as int]@);
        assert(frame@ == kitty_frame(all[i as int], i == 0, i + 1 < all.len(), width as nat));
        out.append(frame.as_str());
        i = i + 1;
        assert(out@ + kitty_frames(all, i as int, width as nat) =~= so_far + (frame@ + kitty_frames(
            all,
            i as int,
            width as nat,
        )));
    }
    assert(out@ + kitty_frames(all, i as int, width as nat) =~= out@);
    out
}

/// What base64's standard engine encodes bytes to.
pub uninterp spec fn base64_text(bytes: Seq<u8>) -> Seq<char>;

/// `base64::engine::general_purpose::STANDARD.encode`: the base64 text of the
/// bytes, in the standard alphabet with padding. The result is a function of
/// the bytes alone; which characters it holds is left to the encoding.
#[verifier::external_body]
fn base64_encode(bytes: &[u8]) -> (r: String)
    ensures
        r@ == base64_text(bytes@),
{
    base64::engine::general_purpose::STANDARD.encode(bytes)
}

/// The iTerm2 escape: the encoded file name, the width, the payload verbatim.
pub open spec fn iterm2_escape(payload: Seq<char>, name: Seq<char>, columns: nat) -> Seq<char> {
    "\u{1b}]1337;File=name="@ + base64_text(vstd::utf8::encode_utf8(name)) + ";inline=1;width="@
        + text::decimal(image_columns(columns)) + ";preserveAspectRatio=1:"@ + payload + "\u{7}"@
}

/// iTerm2 inline-image escape: the file name travels base64 encoded, the
/// payload verbatim, and the width hint keeps the image inside the frame.
pub fn iterm2_inline_escape(base64_payload: &str, file_name: &str, columns: usize) -> (r: String)
    ensures
        r@ == iterm2_escape(base64_payload@, file_name@, columns as nat),
{
    let width: usize = hold_columns(columns);
    let w = format_decimal(width as u64);
    let name = base64_encode(file_name.as_bytes());
    let mut out = concat3("\u{1b}]1337;File=name=", name.as_str(), ";inline=1;width=");
    out.append(w.as_str());
    out.append(";preserveAspectRatio=1:");
    out.append(base64_payload);
    out.append("\u{7}");
    out
}

// ---------------------------------------------------------------------------
// Attachments
// ---------------------------------------------------------------------------

/// One attachment: a filesystem path or a data URL, and of a path the file
/// name and content where it could be read.
pub struct ImageFile {
    pub image: String,
    pub name: Option<String>,
    pub content: Option<Vec<u8>>,
}

/// What an attachment resolves to.
pub struct Loaded {
    pub base64: String,
    pub name: String,
    pub png: bool,
}

/// The PNG signature.
pub open spec fn png_magic() -> Seq<u8> {
    seq![0x89u8, 0x50, 0x4e, 0x47, 0x0d, 0x0a, 0x1a, 0x0a]
}

/// `s` without white space.
pub open spec fn unspaced(s: Seq<char>) -> Seq<char>
    decreases s.len(),
{
    if s.len() == 0 {
        Seq::empty()
    } else if text::is_space(s.last()) {
        unspaced(s.drop_last())
    } else {
        unspaced(s.drop_last()).push(s.last())
    }
}

/// What a data URL resolves to: nothing unless it is base64 with a payload.
pub open spec fn data_url(rest: Seq<char>) -> Option<(Seq<char>, Seq<char>, bool)> {
    let k = markdown_ansi::run_before(rest, ',') as int;
    let meta = rest.take(k);
    let payload = unspaced(rest.skip(k + 1));
    let png = "image/png"@.is_prefix_of(meta);
    if k >= rest.len() || !text::has_text(meta, "base64"@) || payload.len() == 0 {
        None
    } else {
        Some(
            (
                payload,
                if png {
                    "image.png"@
                } else {
                    "image"@
                },
                png,
            ),
        )
    }
}

/// What an attachment resolves to: payload, name and whether it is a PNG.
pub open spec fn loaded(file: ImageFile) -> Option<(Seq<char>, Seq<char>, bool)> {
    if "data:"@.is_prefix_of(file.image@) {
        data_url(file.image@.skip(5))
    } else {
        match file.content {
            Some(bytes) => Some(
                (
                    base64_text(bytes@),
                    match file.name {
                        Some(name) => name@,
                        None => "image"@,
                    },
                    png_magic().is_prefix_of(bytes@),
                ),
            ),
            None => None,
        }
    }
}

fn drop_spaces(s: &str) -> (r: String)
    ensures
        r@ == unspaced(s@),
{
    let x = chars_of(s);
    let mut out = String::new();
    let mut i: usize = 0;
    assert(x@.take(0) =~= Seq::empty());
    while i < x.len()
        invariant
            i <= x.len(),
            out@ == unspaced(x@.take(i as int)),
        decreases x.len() - i,
    {
        assert(x@.take(i + 1).drop_last() =~= x@.take(i as int));
        if !space(x[i]) {
            out.push(x[i]);
        }
        i = i + 1;
    }
    assert(x@.take(i as int) =~= x@);
    out
}

fn has_png_magic(bytes: &Vec<u8>) -> (r: bool)
    ensures
        r == png_magic().is_prefix_of(bytes@),
{
    if bytes.len() < 8 {
        return false;
    }
    let r = bytes[0] == 0x89 && bytes[1] == 0x50 && bytes[2] == 0x4e && bytes[3] == 0x47 && bytes[4]
        == 0x0d && bytes[5] == 0x0a && bytes[6] == 0x1a && bytes[7] == 0x0a;
    proof {
        let head = bytes@.subrange(0, 8);
        if r {
            assert(head =~= png_magic());
        } else if head == png_magic() {
            assert(head[0] == bytes@[0] && head[1] == bytes@[1] && head[2] == bytes@[2] && head[3]
                == bytes@[3] && head[4] == bytes@[4] && head[5] == bytes@[5] && head[6] == bytes@[6]
                && head[7] == bytes@[7]);
        }
    }
    r
}

fn load_data_url(rest: &str) -> (r: Option<Loaded>)
    ensures
        match r {
            Some(l) => data_url(rest@) == Some((l.base64@, l.name@, l.png)),
            None => data_url(rest@) is None,
        },
{
    let x = chars_of(rest);
    let mut k: usize = 0;
    assert(x@.skip(0) =~= x@);
    while k < x.len() && x[k] != ','
        invariant
            k <= x.len(),
            markdown_ansi::run_before(x@, ',') == k + markdown_ansi::run_before(
                x@.skip(k as int),
                ',',
            ),
        decreases x.len() - k,
    {
        assert(x@.skip(k as int)[0] == x@[k as int]);
        assert(x@.skip(k as int).skip(1) =~= x@.skip(k + 1));
        k = k + 1;
    }
    assert(k < x.len() ==> x@.skip(k as int)[0] == x@[k as int]);
    if k >= x.len() {
        return None;
    }
    let meta = sub_string(&x, 0, k);
    let tail = sub_string(&x, k + 1, x.len());
    assert(meta@ =~= rest@.take(k as int));
    assert(tail@ =~= rest@.skip(k + 1));
    let payload = drop_spaces(tail.as_str());
    if !contains(meta.as_str(), "base64") || payload.as_str().unicode_len() == 0 {
        return None;
    }
    let png = starts_with(meta.as_str(), "image/png");
    let name = (if png {
        "image.png"
    } else {
        "image"
    }).to_string();
    Some(Loaded { base64: payload, name, png })
}

/// Resolves one attachment to a base64 payload. Anything unreadable yields
/// `None`.
pub fn load(file: &ImageFile) -> (r: Option<Loaded>)
    ensures
        match r {
            Some(l) => loaded(*file) == Some((l.base64@, l.name@, l.png)),
            None => loaded(*file) is None,
        },
{
    proof {
        reveal_strlit("data:");
    }
    if starts_with(file.image.as_str(), "data:") {
        let rest = skip_chars(file.image.as_str(), 5);
        return load_data_url(rest.as_str());
    }
    match &file.content {
        Some(bytes) => {
            let name = match &file.name {
                Some(name) => name.clone(),
                None => "image".to_string(),
            };
            let png = has_png_magic(bytes);
            Some(Loaded { base64: base64_encode(bytes.as_slice()), name, png })
        },
        None => None,
    }
}

/// The inline row of an attachment under a protocol, where it has one: kitty
/// takes PNG only.
pub open spec fn image_row(
    file: ImageFile,
    columns: nat,
    protocol: ImageProtocol,
) -> Option<Seq<char>> {
    match loaded(file) {
        Some((payload, name, png)) => match protocol {
            ImageProtocol::Kitty => if png {
                Some(kitty_frames(chunks(payload), 0, image_columns(columns)))
            } else {
                None
            },
            ImageProtocol::Iterm2 => Some(iterm2_escape(payload, name, columns)),
        },
        None => None,
    }
}

/// The inline rows of the attachments that have one.
pub open spec fn rows_of_images(
    images: Seq<ImageFile>,
    columns: nat,
    protocol: ImageProtocol,
) -> Seq<Seq<char>>
    decreases images.len(),
{
    if images.len() == 0 {
        Seq::empty()
    } else {
        let before = rows_of_images(images.drop_last(), columns, protocol);
        match image_row(images.last(), columns, protocol) {
            Some(row) => before.push(row),
            None => before,
        }
    }
}

/// One inline row per displayable image. Unreadable files are skipped, and
/// kitty only accepts PNG.
pub fn image_rows(images: &[ImageFile], columns: usize, protocol: ImageProtocol) -> (r: Vec<String>)
    ensures
        text::texts(r@) == rows_of_images(images@, columns as nat, protocol),
{
    let mut rows: Vec<String> = Vec::new();
    let mut i: usize = 0;
    assert(images@.take(0) =~= Seq::empty());
    assert(text::texts(rows@) =~= Seq::empty());
    while i < images.len()
        invariant
            i <= images.len(),
            text::texts(rows@) == rows_of_images(images@.take(i as int), columns as nat, protocol),
        decreases images.len() - i,
    {
        assert(images@.take(i + 1).drop_last() =~= images@.take(i as int));
        if let Some(l) = load(&images[i]) {
            match protocol {
                ImageProtocol::Kitty => {
                    if l.png {
                        push_row(&mut rows, kitty_graphics_escape(l.base64.as_str(), columns));
                    }
                },
                ImageProtocol::Iterm2 => {
                    push_row(
                        &mut rows,
                        iterm2_inline_escape(l.base64.as_str(), l.name.as_str(), columns),
                    );
                },
            }
        }
        i = i + 1;
    }
    assert(images@.take(i as int) =~= images@);
    rows
}

// ---------------------------------------------------------------------------
// Image links
// ---------------------------------------------------------------------------

/// How many characters of `s` belong to a link target: those before white
/// space or a closing bracket.
pub open spec fn target_run(s: Seq<char>) -> nat
    decreases s.len(),
{
    if s.len() == 0 || s[0] == ')' || text::is_space(s[0]) {
        0
    } else {
        1 + target_run(s.skip(1))
    }
}

/// Where the target of the link at `i` starts: behind `![`, the text up to the
/// next `]`, and `](`.
pub open spec fn target_start(s: Seq<char>, i: int) -> int {
    i + 4 + markdown_ansi::run_before(s.skip(i + 2), ']')
}

/// Whether a Markdown image link `![alt](target)` stands at `i`.
pub open spec fn is_link_at(s: Seq<char>, i: int) -> bool {
    let t = target_start(s, i);
    let n = target_run(s.skip(t)) as int;
    &&& i + 2 <= s.len()
    &&& s[i] == '!'
    &&& s[i + 1] == '['
    &&& t <= s.len()
    &&& s[t - 2] == ']'
    &&& s[t - 1] == '('
    &&& n > 0
    &&& t + n < s.len()
    &&& s[t + n] == ')'
}

/// The targets of the image links in `s` from `i` on; links do not overlap.
pub open spec fn link_targets(s: Seq<char>, i: int) -> Seq<Seq<char>>
    decreases s.len() - i,
{
    if i < 0 || i >= s.len() {
        Seq::empty()
    } else if is_link_at(s, i) {
        let t = target_start(s, i);
        let n = target_run(s.skip(t)) as int;
        seq![s.subrange(t, t + n)] + link_targets(s, t + n + 1)
    } else {
        link_targets(s, i + 1)
    }
}

/// The pattern of a Markdown image link; its first group is the target.
pub const IMAGE_LINK: &'static str = r"!\[[^\]]*\]\(([^)\s]+)\)";

/// The texts of the first group of a pattern's matches: nothing where the
/// pattern is no pattern.
pub uninterp spec fn first_groups(pattern: Seq<char>, text: Seq<char>) -> Option<Seq<Seq<char>>>;

/// `regex::Regex::captures_iter`: the texts of the first group of the matches,
/// leftmost first and without overlap, empty where the group takes no part: a
/// function of the pattern and the text.
/// Those of the image link pattern are the link targets: its classes exclude
/// the characters that follow them, so at each place there is one way to match
/// at most.
#[verifier::external_body]
fn captured_texts(pattern: &str, text: &str) -> (r: Option<Vec<String>>)
    ensures
        opt_texts(r) == first_groups(pattern@, text@),
        pattern@ == IMAGE_LINK@ ==> opt_texts(r) == Some(link_targets(text@, 0)),
{
    let regex = regex::Regex::new(pattern).ok()?;
    let group = |c: regex::Captures| c.get(1).map_or("", |m| m.as_str()).to_string();
    Some(regex.captures_iter(text).map(group).collect())
}

/// The texts of a list, where there is one.
pub open spec fn opt_texts(list: Option<Vec<String>>) -> Option<Seq<Seq<char>>> {
    match list {
        Some(v) => Some(text::texts(v@)),
        None => None,
    }
}

/// The targets of the image links in a text, leftmost first.
pub fn image_links(text: &str) -> (r: Vec<String>)
    ensures
        text::texts(r@) == link_targets(text@, 0),
{
    match captured_texts(IMAGE_LINK, text) {
        Some(targets) => targets,
        None => Vec::new(),
    }
}

/// A quotation mark at the edge of a target.
pub open spec fn is_edge_quote(c: char) -> bool {
    c == '"' || c == '\''
}

/// `s` without quotation marks at its start.
pub open spec fn unquoted_start(s: Seq<char>) -> Seq<char>
    decreases s.len(),
{
    if s.len() > 0 && is_edge_quote(s[0]) {
        unquoted_start(s.skip(1))
    } else {
        s
    }
}

/// `s` without quotation marks at its end.
pub open spec fn unquoted_end(s: Seq<char>) -> Seq<char>
    decreases s.len(),
{
    if s.len() > 0 && is_edge_quote(s.last()) {
        unquoted_end(s.drop_last())
    } else {
        s
    }
}

/// Whether a target names a local file: neither remote nor empty.
pub open spec fn is_local(target: Seq<char>) -> bool {
    &&& target.len() > 0
    &&& !"http://"@.is_prefix_of(target)
    &&& !"https://"@.is_prefix_of(target)
}

/// The local paths among the targets, each once, in first-seen order.
pub open spec fn local_paths(targets: Seq<Seq<char>>) -> Seq<Seq<char>>
    decreases targets.len(),
{
    if targets.len() == 0 {
        Seq::empty()
    } else {
        let before = local_paths(targets.drop_last());
        let path = unquoted_end(unquoted_start(targets.last()));
        if is_local(path) && !before.contains(path) {
            before.push(path)
        } else {
            before
        }
    }
}

fn trim_quotes(s: &str) -> (r: String)
    ensures
        r@ == unquoted_end(unquoted_start(s@)),
{
    let x = chars_of(s);
    let mut i: usize = 0;
    assert(x@.skip(0) =~= x@);
    while i < x.len() && (x[i] == '"' || x[i] == '\'')
        invariant
            i <= x.len(),
            unquoted_start(x@) == unquoted_start(x@.skip(i as int)),
        decreases x.len() - i,
    {
        assert(x@.skip(i as int)[0] == x@[i as int]);
        assert(x@.skip(i as int).skip(1) =~= x@.skip(i + 1));
        i = i + 1;
    }
    assert(i < x.len() ==> x@.skip(i as int)[0] == x@[i as int]);
    let ghost mid = x@.skip(i as int);
    let mut n: usize = x.len();
    assert(mid.take(n - i) =~= mid);
    while n > i && (x[n - 1] == '"' || x[n - 1] == '\'')
        invariant
            i <= n <= x.len(),
            mid == x@.skip(i as int),
            unquoted_end(mid) == unquoted_end(mid.take(n - i)),
        decreases n,
    {
        assert(mid.take(n - i).last() == x@[n - 1]);
        assert(mid.take(n - i).drop_last() =~= mid.take(n - i - 1));
        n = n - 1;
    }
    assert(n > i ==> mid.take(n - i).last() == x@[n - 1]);
    assert(x@.subrange(i as int, n as int) =~= mid.take(n - i));
    sub_string(&x, i, n)
}

/// The local paths among the targets of image links, in first-seen order.
pub fn local_image_paths(targets: &Vec<String>) -> (r: Vec<String>)
    ensures
        text::texts(r@) == local_paths(text::texts(targets@)),
{
    let ghost all = text::texts(targets@);
    let mut out: Vec<String> = Vec::new();
    let mut i: usize = 0;
    assert(all.take(0) =~= Seq::empty());
    assert(text::texts(out@) =~= Seq::empty());
    while i < targets.len()
        invariant
            i <= targets.len(),
            all == text::texts(targets@),
            text::texts(out@) == local_paths(all.take(i as int)),
        decreases targets.len() - i,
    {
        assert(all.take(i + 1).drop_last() =~= all.take(i as int));
        let path = trim_quotes(targets[i].as_str());
        let remote = starts_with(path.as_str(), "http://") || starts_with(
            path.as_str(),
            "https://",
        );
        if !remote && path.as_str().unicode_len() > 0 && !lists(&out, path.as_str()) {
            push_row(&mut out, path);
        }
        i = i + 1;
    }
    assert(all.take(i as int) =~= all);
    out
}

/// Local paths of Markdown image links in model text, in first-seen order.
/// Remote URLs are left alone.
pub fn markdown_image_paths(text: &str) -> (r: Vec<String>)
    ensures
        text::texts(r@) == local_paths(link_targets(text@, 0)),
{
    let targets = image_links(text);
    local_image_paths(&targets)
}

// ---------------------------------------------------------------------------
// Laws
// ---------------------------------------------------------------------------

/// The chunks one after the other.
pub open spec fn reassembled(parts: Seq<Seq<char>>) -> Seq<char>
    decreases parts.len(),
{
    if parts.len() == 0 {
        Seq::empty()
    } else {
        parts[0] + reassembled(parts.skip(1))
    }
}

/// A payload is transmitted whole: its chunks reassemble to it, and none is
/// longer than the protocol allows.
pub proof fn law_chunks_reassemble_to_the_payload(s: Seq<char>)
    ensures
        reassembled(chunks(s)) == s,
        chunks(s).len() >= 1,
        forall|i: int|
            0 <= i < chunks(s).len() ==> byte_length(#[trigger] chunks(s)[i]) <= KITTY_CHUNK_BYTES,
    decreases s.len(),
{
    reveal_with_fuel(reassembled, 2);
    assert(s.take(0) =~= Seq::empty());
    lemma_chunk_end(s, 0);
    let k = chunk_end(s, 0);
    let all = chunks(s);
    if k == 0 || k >= s.len() {
        assert(all.skip(1) =~= Seq::empty());
        assert(s + Seq::<char>::empty() =~= s);
        assert(s.take(k as int) =~= s);
    } else {
        let rest = s.skip(k as int);
        law_chunks_reassemble_to_the_payload(rest);
        assert(all.skip(1) =~= chunks(rest));
        assert(s.take(k as int) + rest =~= s);
        assert forall|i: int| 0 <= i < all.len() implies byte_length(#[trigger] all[i])
            <= KITTY_CHUNK_BYTES by {
            if i > 0 {
                assert(all[i] == chunks(rest)[i - 1]);
            }
        }
    }
}

/// Redirected output never carries an inline image.
pub proof fn law_redirected_output_stays_text(env: TerminalEnv)
    ensures
        detected_protocol(env, false) is None,
{
}

/// What a terminal announces decides: kitty and ghostty speak the kitty
/// protocol, iTerm2 and WezTerm the other, and any other terminal none.
pub proof fn law_a_terminal_is_known_by_what_it_announces(env: TerminalEnv)
    requires
        env.drip_image_protocol is None,
    ensures
        ({
            let program = match env.term_program {
                Some(name) => text::ascii_lowered(name@),
                None => Seq::empty(),
            };
            let kitty = env.kitty_window_id is Some || env.ghostty_resources_dir is Some || program
                == "ghostty"@ || (env.term is Some && text::has_text(
                text::ascii_lowered(env.term->0@),
                "kitty"@,
            ));
            let iterm = env.wezterm_pane is Some || program == "iterm.app"@ || program
                == "wezterm"@;
            &&& kitty ==> detected_protocol(env, true) == Some(ImageProtocol::Kitty)
            &&& !kitty && iterm ==> detected_protocol(env, true) == Some(ImageProtocol::Iterm2)
            &&& !kitty && !iterm ==> detected_protocol(env, true) is None
        }),
{
    reveal_strlit("kitty");
    if env.term is None && text::has_text(lower_value(env.term), "kitty"@) {
        let i = choose|i: int| text::occurs_at(lower_value(env.term), "kitty"@, i);
        assert(false);
    }
    reveal_strlit("ghostty");
    reveal_strlit("iterm.app");
    reveal_strlit("wezterm");
}

/// An explicit choice wins over every announcement, in any case and with white
/// space around it; a choice that names no protocol means none.
pub proof fn law_an_explicit_choice_wins(env: TerminalEnv)
    requires
        env.drip_image_protocol is Some,
    ensures
        ({
            let choice = text::ascii_lowered(text::trimmed(env.drip_image_protocol->0@));
            let found = detected_protocol(env, true);
            &&& choice == "kitty"@ ==> found == Some(ImageProtocol::Kitty)
            &&& choice == "ghostty"@ ==> found == Some(ImageProtocol::Kitty)
            &&& choice == "iterm2"@ ==> found == Some(ImageProtocol::Iterm2)
            &&& choice == "iterm"@ ==> found == Some(ImageProtocol::Iterm2)
            &&& choice == "wezterm"@ ==> found == Some(ImageProtocol::Iterm2)
            &&& found is None <==> choice != "kitty"@ && choice != "ghostty"@ && choice
                != "iterm2"@ && choice != "iterm"@ && choice != "wezterm"@
        }),
{
    reveal_strlit("kitty");
    reveal_strlit("ghostty");
    reveal_strlit("iterm2");
    reveal_strlit("iterm");
    reveal_strlit("wezterm");
    assert("iterm2"@[0] == 'i');
    assert("iterm"@[0] == 'i');
    assert("wezterm"@[0] == 'w');
    assert("kitty"@[0] == 'k');
    assert("ghostty"@[0] == 'g');
}

/// An image asks for the columns it was given, one at least and eighty at most.
pub proof fn law_an_image_asks_for_its_columns(columns: nat)
    ensures
        1 <= columns <= 80 ==> image_columns(columns) == columns,
        columns == 0 ==> image_columns(columns) == 1,
        columns > 80 ==> image_columns(columns) == 80,
{
}

/// How a payload is sent: the first piece says what is sent and how wide it is
/// shown, every piece but the last announces another, and each is sent whole
/// between the same brackets.
pub proof fn law_every_piece_is_sent_in_order(parts: Seq<Seq<char>>, i: int, columns: nat)
    requires
        0 <= i < parts.len(),
    ensures
        ({
            let rest = kitty_frames(parts, i + 1, columns);
            let first = i == 0;
            let last = i == parts.len() - 1;
            let sent = kitty_frames(parts, i, columns);
            &&& last ==> rest.len() == 0
            &&& first && last ==> sent == "\u{1b}_Ga=T,f=100,"@ + "m=0"@ + ",c="@ + text::decimal(
                columns,
            ) + ";"@ + parts[i] + "\u{1b}\\"@ + rest
            &&& first && !last ==> sent == "\u{1b}_Ga=T,f=100,"@ + "m=1"@ + ",c="@ + text::decimal(
                columns,
            ) + ";"@ + parts[i] + "\u{1b}\\"@ + rest
            &&& !first && !last ==> sent == "\u{1b}_G"@ + "m=1"@ + ";"@ + parts[i] + "\u{1b}\\"@
                + rest
            &&& !first && last ==> sent == "\u{1b}_G"@ + "m=0"@ + ";"@ + parts[i] + "\u{1b}\\"@
                + rest
        }),
{
}

/// A payload of ASCII text is cut after every 4096 characters and nowhere else.
pub proof fn law_a_payload_is_cut_into_full_pieces(head: Seq<char>, rest: Seq<char>)
    requires
        forall|i: int| 0 <= i < head.len() ==> #[trigger] head[i] <= '\u{7f}',
    ensures
        head.len() <= 4096 ==> chunks(head) == seq![head],
        head.len() == 4096 && rest.len() > 0 ==> chunks(head + rest) == seq![head] + chunks(rest),
{
    if head.len() <= 4096 {
        lemma_ascii_bytes(head);
        assert(head.take(head.len() as int) =~= head);
        lemma_chunk_within(head, 0, head.len() as int);
    }
    if head.len() == 4096 && rest.len() > 0 {
        let s = head + rest;
        assert(s.take(4096) =~= head);
        assert(s.skip(4096) =~= rest);
        lemma_ascii_bytes(head);
        assert(s.take(4097).drop_last() =~= head);
        lemma_chunk_within(s, 0, 4096);
    }
}

proof fn lemma_ascii_bytes(s: Seq<char>)
    requires
        forall|i: int| 0 <= i < s.len() ==> #[trigger] s[i] <= '\u{7f}',
    ensures
        byte_length(s) == s.len(),
    decreases s.len(),
{
    if s.len() > 0 {
        assert(s[s.len() - 1] <= '\u{7f}');
        lemma_ascii_bytes(s.drop_last());
    }
}

proof fn lemma_bytes_grow(s: Seq<char>, n: int)
    requires
        0 <= n <= s.len(),
    ensures
        byte_length(s.take(n)) <= byte_length(s),
    decreases s.len() - n,
{
    if n < s.len() {
        lemma_bytes_grow(s, n + 1);
        assert(s.take(n + 1).drop_last() =~= s.take(n));
    } else {
        assert(s.take(n) =~= s);
    }
}

proof fn lemma_chunk_within(s: Seq<char>, n: nat, k: int)
    requires
        n <= k <= s.len(),
        byte_length(s.take(k)) <= 4096,
        k < s.len() ==> byte_length(s.take(k + 1)) > 4096,
    ensures
        chunk_end(s, n) == k,
    decreases k - n,
{
    if n < k {
        assert(s.take(k).take(n as int + 1) =~= s.take(n as int + 1));
        lemma_bytes_grow(s.take(k), n as int + 1);
        lemma_chunk_within(s, n + 1, k);
    }
}

/// A data URL gives its payload without white space, as a PNG exactly where it
/// says so; without base64 or without a payload it gives nothing.
pub proof fn law_a_data_url_gives_its_payload(meta: Seq<char>, body: Seq<char>)
    requires
        forall|i: int| 0 <= i < meta.len() ==> #[trigger] meta[i] != ',',
    ensures
        ({
            let payload = body.filter(|c: char| !text::is_space(c));
            let found = data_url(meta + seq![','] + body);
            let usable = text::has_text(meta, "base64"@) && payload.len() > 0;
            &&& !usable ==> found is None
            &&& usable && "image/png"@.is_prefix_of(meta) ==> found == Some(
                (payload, "image.png"@, true),
            )
            &&& usable && !"image/png"@.is_prefix_of(meta) ==> found == Some(
                (payload, "image"@, false),
            )
        }),
        data_url(meta) is None,
{
    let rest = meta + seq![','] + body;
    let k = meta.len() as int;
    assert(rest[k] == ',');
    lemma_comma(rest, k);
    assert(rest.take(k) =~= meta);
    assert(rest.skip(k + 1) =~= body);
    lemma_unspaced_is_filter(body);
    lemma_no_comma(meta);
}

proof fn lemma_comma(s: Seq<char>, k: int)
    requires
        0 <= k < s.len(),
        s[k] == ',',
        forall|j: int| 0 <= j < k ==> #[trigger] s[j] != ',',
    ensures
        markdown_ansi::run_before(s, ',') == k,
    decreases k,
{
    if k > 0 {
        assert(s[0] != ',');
        let t = s.skip(1);
        assert forall|j: int| 0 <= j < k - 1 implies #[trigger] t[j] != ',' by {
            assert(s[j + 1] != ',');
        }
        lemma_comma(t, k - 1);
    }
}

proof fn lemma_no_comma(s: Seq<char>)
    requires
        forall|j: int| 0 <= j < s.len() ==> #[trigger] s[j] != ',',
    ensures
        markdown_ansi::run_before(s, ',') == s.len(),
    decreases s.len(),
{
    if s.len() > 0 {
        assert(s[0] != ',');
        let t = s.skip(1);
        assert forall|j: int| 0 <= j < t.len() implies #[trigger] t[j] != ',' by {
            assert(s[j + 1] != ',');
        }
        lemma_no_comma(t);
    }
}

proof fn lemma_unspaced_is_filter(s: Seq<char>)
    ensures
        unspaced(s) == s.filter(|c: char| !text::is_space(c)),
    decreases s.len(),
{
    reveal(Seq::filter);
    if s.len() > 0 {
        lemma_unspaced_is_filter(s.drop_last());
    } else {
        assert(unspaced(s) =~= s.filter(|c: char| !text::is_space(c)));
    }
}

/// A file gives its bytes encoded, under its own name, as a PNG exactly where
/// it begins with the eight bytes of that format; a file that cannot be read
/// gives nothing.
pub proof fn law_a_file_gives_its_bytes(file: ImageFile)
    requires
        !"data:"@.is_prefix_of(file.image@),
    ensures
        file.content is None ==> loaded(file) is None,
        file.content is Some ==> ({
            let bytes = file.content->0@;
            let found = loaded(file);
            let name = if file.name is Some {
                file.name->0@
            } else {
                "image"@
            };
            &&& found is Some
            &&& found matches Some((payload, shown, png)) ==> {
                &&& payload == base64_text(bytes)
                &&& shown == name
                &&& png <==> bytes.len() >= 8 && bytes.take(8) == seq![
                    0x89u8,
                    0x50u8,
                    0x4eu8,
                    0x47u8,
                    0x0du8,
                    0x0au8,
                    0x1au8,
                    0x0au8,
                ]
            }
        }),
{
    if file.content is Some {
        let bytes = file.content->0@;
        if bytes.len() >= 8 {
            assert(bytes.subrange(0, 8) =~= bytes.take(8));
        }
        assert(png_magic().is_prefix_of(bytes) <==> bytes.len() >= 8 && bytes.take(8)
            =~= png_magic());
    }
}

/// Each image that can be shown has its row, in order: under the kitty protocol
/// a PNG, under the other any image.
pub proof fn law_every_image_that_can_be_shown_has_a_row(
    images: Seq<ImageFile>,
    file: ImageFile,
    columns: nat,
    protocol: ImageProtocol,
)
    ensures
        ({
            let before = rows_of_images(images, columns, protocol);
            let after = rows_of_images(images.push(file), columns, protocol);
            &&& loaded(file) is None ==> after == before
            &&& loaded(file) matches Some((payload, name, png)) ==> {
                &&& protocol is Kitty && !png ==> after == before
                &&& protocol is Kitty && png ==> after == before.push(
                    kitty_frames(chunks(payload), 0, image_columns(columns)),
                )
                &&& protocol is Iterm2 ==> after == before.push(
                    "\u{1b}]1337;File=name="@ + base64_text(vstd::utf8::encode_utf8(name))
                        + ";inline=1;width="@ + text::decimal(image_columns(columns))
                        + ";preserveAspectRatio=1:"@ + payload + "\u{7}"@,
                )
            }
        }),
        rows_of_images(Seq::empty(), columns, protocol) == Seq::<Seq<char>>::empty(),
{
    assert(images.push(file).drop_last() =~= images);
}

/// The marker counts the images, one in the singular, in gray.
pub proof fn law_the_marker_counts_the_images(n: nat)
    ensures
        n == 1 ==> marker_row(n) == "\u{1b}[90m"@ + ("  ["@ + text::decimal(n)
            + " image attached]"@) + "\u{1b}[39m"@,
        n != 1 ==> marker_row(n) == "\u{1b}[90m"@ + ("  ["@ + text::decimal(n)
            + " images attached]"@) + "\u{1b}[39m"@,
{
}

/// The local paths among link targets: each target that is no web address and
/// not empty, without the quotation marks around it, once, where it first
/// stands.
pub proof fn law_local_images_are_named_once(targets: Seq<Seq<char>>, target: Seq<char>)
    ensures
        ({
            let before = local_paths(targets);
            let after = local_paths(targets.push(target));
            let path = unquoted_end(unquoted_start(target));
            let remote = "http://"@.is_prefix_of(path) || "https://"@.is_prefix_of(path);
            &&& path.len() > 0 && !remote && !before.contains(path) ==> after == before.push(path)
            &&& path.len() == 0 || remote || before.contains(path) ==> after == before
            &&& before.no_duplicates() ==> after.no_duplicates()
        }),
        local_paths(Seq::empty()) == Seq::<Seq<char>>::empty(),
{
    assert(targets.push(target).drop_last() =~= targets);
    let before = local_paths(targets);
    let after = local_paths(targets.push(target));
    if before.no_duplicates() && after.len() > before.len() {
        assert forall|i: int, j: int|
            0 <= i < after.len() && 0 <= j < after.len() && i != j implies after[i]
            != after[j] by {
            if i < before.len() && j < before.len() {
                assert(before[i] != before[j]);
            } else if i < before.len() {
                assert(before.contains(before[i]));
            } else {
                assert(before.contains(before[j]));
            }
        }
    }
}

/// Quotation marks of either kind are taken off both ends of a target, and
/// nothing else.
pub proof fn law_only_edge_quotes_are_taken_off(a: Seq<char>, path: Seq<char>, b: Seq<char>)
    requires
        forall|i: int| 0 <= i < a.len() ==> (#[trigger] a[i] == '"' || a[i] == '\''),
        forall|i: int| 0 <= i < b.len() ==> (#[trigger] b[i] == '"' || b[i] == '\''),
        path.len() > 0,
        path[0] != '"' && path[0] != '\'',
        path.last() != '"' && path.last() != '\'',
    ensures
        unquoted_end(unquoted_start(a + path + b)) == path,
    decreases a.len() + b.len(),
{
    let s = a + path + b;
    if a.len() > 0 {
        assert(s[0] == a[0]);
        assert(s.skip(1) =~= a.skip(1) + path + b);
        law_only_edge_quotes_are_taken_off(a.skip(1), path, b);
    } else {
        assert(s =~= path + b);
        assert(s[0] == path[0]);
        assert(unquoted_start(s) == s);
        if b.len() > 0 {
            assert(s.last() == b[b.len() - 1]);
            let shorter = b.drop_last();
            assert(s.drop_last() =~= a + path + shorter);
            law_only_edge_quotes_are_taken_off(a, path, shorter);
            assert((a + path + shorter)[0] == path[0]);
            assert(unquoted_start(a + path + shorter) == a + path + shorter);
        } else {
            assert(s =~= path);
        }
    }
}

/// A link in a text is found: its target is what stands between its round
/// brackets, and the search goes on behind it. A place without a link is
/// passed over.
pub proof fn law_an_image_link_gives_its_target(
    before: Seq<char>,
    alt: Seq<char>,
    target: Seq<char>,
    after: Seq<char>,
)
    requires
        forall|i: int| 0 <= i < alt.len() ==> #[trigger] alt[i] != ']',
        target.len() > 0,
        forall|i: int|
            0 <= i < target.len() ==> #[trigger] target[i] != ')' && !text::is_space(target[i]),
    ensures
        ({
            let s = before + seq!['!', '['] + alt + seq![']', '('] + target + seq![')'] + after;
            link_targets(s, before.len() as int) == seq![target] + link_targets(
                s,
                before.len() as int + alt.len() + target.len() + 5,
            )
        }),
{
    let s = before + seq!['!', '['] + alt + seq![']', '('] + target + seq![')'] + after;
    let i = before.len() as int;
    let a = alt.len() as int;
    let n = target.len() as int;
    let t = i + 4 + a;
    assert(s[i] == '!' && s[i + 1] == '[');
    let inner = s.skip(i + 2);
    assert(inner =~= alt + (seq![']', '('] + target + seq![')'] + after));
    assert(inner[a] == ']');
    lemma_run_to(inner, ']', a);
    assert(target_start(s, i) == t);
    assert(s[t - 2] == ']' && s[t - 1] == '(');
    assert(s.skip(t) =~= target + (seq![')'] + after));
    lemma_target_run(target, seq![')'] + after);
    assert(s[t + n] == ')');
    assert(is_link_at(s, i));
    assert(s.subrange(t, t + n) =~= target);
}

proof fn lemma_run_to(s: Seq<char>, c: char, k: int)
    requires
        0 <= k < s.len(),
        s[k] == c,
        forall|j: int| 0 <= j < k ==> #[trigger] s[j] != c,
    ensures
        markdown_ansi::run_before(s, c) == k,
    decreases k,
{
    if k > 0 {
        assert(s[0] != c);
        let t = s.skip(1);
        assert forall|j: int| 0 <= j < k - 1 implies #[trigger] t[j] != c by {
            assert(s[j + 1] != c);
        }
        lemma_run_to(t, c, k - 1);
    }
}

proof fn lemma_target_run(target: Seq<char>, rest: Seq<char>)
    requires
        forall|i: int|
            0 <= i < target.len() ==> #[trigger] target[i] != ')' && !text::is_space(target[i]),
        rest.len() > 0,
        rest[0] == ')',
    ensures
        target_run(target + rest) == target.len(),
    decreases target.len(),
{
    let s = target + rest;
    if target.len() > 0 {
        assert(s[0] == target[0]);
        assert(s.skip(1) =~= target.skip(1) + rest);
        lemma_target_run(target.skip(1), rest);
    } else {
        assert(s =~= rest);
    }
}

/// Text that is no link is passed over, and no target comes from it.
pub proof fn law_other_text_gives_no_target(s: Seq<char>, i: int)
    requires
        0 <= i < s.len(),
        s[i] != '!' || i + 1 >= s.len() || s[i + 1] != '[',
    ensures
        link_targets(s, i) == link_targets(s, i + 1),
        link_targets(s, s.len() as int) == Seq::<Seq<char>>::empty(),
{
}

} // verus!
