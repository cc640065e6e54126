//! Terminal pane titles (OSC 2 window-title updates).
//!
//! Every text that can reach the terminal as a title passes through
//! `sanitize`, which strips escape sequences, control characters and quotes,
//! collapses white space and is then held to a word and character budget. A
//! title is a short stable label plus a time-driven spinner while the harness
//! is busy. Updates are deduplicated and throttled; the idle title is the bare
//! label.

use vstd::prelude::*;
use crate::text;
use crate::text::{chars_of, concat3, control, join_texts, same_opt, split_words};

verus! {

/// Braille spinner frames, cycled while busy.
pub const SPINNER_FRAMES: [&'static str; 10] = ["⠋", "⠙", "⠹", "⠸", "⠼", "⠴", "⠦", "⠧", "⠇", "⠏"];

/// Minimum spacing between two spinner frames, in milliseconds.
pub const SPINNER_INTERVAL_MS: u64 = 100;

/// Word budget of any title.
pub const MAX_TITLE_WORDS: usize = 5;

/// Character budget of any title.
pub const MAX_TITLE_CHARS: usize = 48;

/// Title used when the goal yields nothing usable.
pub const FALLBACK_LABEL: &'static str = "drip";

// ---------------------------------------------------------------------------
// Sanitization
// ---------------------------------------------------------------------------

/// Quote-like characters, which are stripped from titles.
pub open spec fn is_quote_char(c: char) -> bool {
    ||| c == '"'
    ||| c == '\''
    ||| c == '`'
    ||| c == '\u{2018}'
    ||| c == '\u{2019}'
    ||| c == '\u{201c}'
    ||| c == '\u{201d}'
    ||| c == '\u{ab}'
    ||| c == '\u{bb}'
}

pub fn is_quote(c: char) -> (b: bool)
    ensures
        b == is_quote_char(c),
{
    c == '"' || c == '\'' || c == '`' || c == '\u{2018}' || c == '\u{2019}' || c == '\u{201c}' || c
        == '\u{201d}' || c == '\u{ab}' || c == '\u{bb}'
}

/// How many characters of `t` belong to a control sequence whose first
/// `taken` parameter characters were read: those up to and including a final
/// byte, or the one that exceeds the bound of 64.
pub open spec fn csi_length(t: Seq<char>, taken: nat) -> nat
    decreases t.len(),
{
    if t.len() == 0 {
        0
    } else if '\u{40}' <= t[0] <= '\u{7e}' || taken >= 64 {
        1
    } else {
        1 + csi_length(t.skip(1), taken + 1)
    }
}

/// How many characters of `t` belong to a string sequence of which `taken`
/// characters were read: those up to and including BEL or the backslash of
/// `ESC \`, or the one that exceeds the bound of 512.
pub open spec fn osc_length(t: Seq<char>, taken: nat, after_esc: bool) -> nat
    decreases t.len(),
{
    if t.len() == 0 {
        0
    } else if t[0] == '\u{7}' || (after_esc && t[0] == '\\') || taken >= 512 {
        1
    } else {
        1 + osc_length(t.skip(1), taken + 1, t[0] == '\u{1b}')
    }
}

/// How many characters the escape sequence at the start of `s` takes, given
/// that `s` starts with ESC.
pub open spec fn escape_length(s: Seq<char>) -> nat {
    if s.len() < 2 {
        1
    } else if s[1] == '[' {
        2 + csi_length(s.skip(2), 0)
    } else if s[1] == ']' || s[1] == 'P' || s[1] == 'X' || s[1] == '^' || s[1] == '_' {
        2 + osc_length(s.skip(2), 0, false)
    } else {
        2
    }
}

/// `s` without escape sequences and control characters; line feeds, carriage
/// returns and tabs become spaces.
pub open spec fn stripped(s: Seq<char>) -> Seq<char>
    decreases s.len(),
{
    if s.len() == 0 {
        Seq::empty()
    } else if s[0] == '\u{1b}' {
        let n = escape_length(s);
        if n >= s.len() {
            Seq::empty()
        } else {
            stripped(s.skip(n as int))
        }
    } else if s[0] == '\n' || s[0] == '\r' || s[0] == '\t' {
        seq![' '] + stripped(s.skip(1))
    } else if text::is_ctrl(s[0]) {
        stripped(s.skip(1))
    } else {
        seq![s[0]] + stripped(s.skip(1))
    }
}

proof fn lemma_csi_length(t: Seq<char>, taken: nat)
    ensures
        csi_length(t, taken) <= t.len(),
    decreases t.len(),
{
    if t.len() > 0 && !('\u{40}' <= t[0] <= '\u{7e}' || taken >= 64) {
        lemma_csi_length(t.skip(1), taken + 1);
    }
}

proof fn lemma_osc_length(t: Seq<char>, taken: nat, after_esc: bool)
    ensures
        osc_length(t, taken, after_esc) <= t.len(),
    decreases t.len(),
{
    if t.len() > 0 && !(t[0] == '\u{7}' || (after_esc && t[0] == '\\') || taken >= 512) {
        lemma_osc_length(t.skip(1), taken + 1, t[0] == '\u{1b}');
    }
}

/// The position after the control sequence whose parameters start at `from`.
fn csi_end(x: &Vec<char>, from: usize) -> (r: usize)
    requires
        from <= x.len(),
    ensures
        from <= r <= x.len(),
        r - from == csi_length(x@.skip(from as int), 0),
{
    let mut i: usize = from;
    let mut taken: usize = 0;
    while i < x.len()
        invariant
            from <= i <= x.len(),
            taken == i - from,
            taken <= 64,
            csi_length(x@.skip(from as int), 0) == (i - from) + csi_length(
                x@.skip(i as int),
                taken as nat,
            ),
        decreases x.len() - i,
    {
        assert(x@.skip(i as int)[0] == x@[i as int]);
        if ('\u{40}' <= x[i] && x[i] <= '\u{7e}') || taken >= 64 {
            return i + 1;
        }
        assert(x@.skip(i as int).skip(1) =~= x@.skip(i + 1));
        i = i + 1;
        taken = taken + 1;
    }
    i
}

/// The position after the string sequence whose body starts at `from`.
fn osc_end(x: &Vec<char>, from: usize) -> (r: usize)
    requires
        from <= x.len(),
    ensures
        from <= r <= x.len(),
        r - from == osc_length(x@.skip(from as int), 0, false),
{
    let mut i: usize = from;
    let mut taken: usize = 0;
    let mut after_esc = false;
    while i < x.len()
        invariant
            from <= i <= x.len(),
            taken == i - from,
            taken <= 512,
            osc_length(x@.skip(from as int), 0, false) == (i - from) + osc_length(
                x@.skip(i as int),
                taken as nat,
                after_esc,
            ),
        decreases x.len() - i,
    {
        assert(x@.skip(i as int)[0] == x@[i as int]);
        if x[i] == '\u{7}' || (after_esc && x[i] == '\\') || taken >= 512 {
            return i + 1;
        }
        assert(x@.skip(i as int).skip(1) =~= x@.skip(i + 1));
        after_esc = x[i] == '\u{1b}';
        i = i + 1;
        taken = taken + 1;
    }
    i
}

/// The position after the escape sequence at `i`, where an ESC stands.
pub fn escape_end(x: &Vec<char>, i: usize) -> (r: usize)
    requires
        i < x.len(),
    ensures
        i < r <= x.len(),
        r - i == escape_length(x@.skip(i as int)),
{
    let ghost rest = x@.skip(i as int);
    if i + 1 >= x.len() {
        return x.len();
    }
    assert(rest[1] == x@[i + 1]);
    assert(rest.skip(2) =~= x@.skip(i + 2));
    let k: char = x[i + 1];
    if k == '[' {
        csi_end(x, i + 2)
    } else if k == ']' || k == 'P' || k == 'X' || k == '^' || k == '_' {
        osc_end(x, i + 2)
    } else {
        i + 2
    }
}

/// Removes every escape sequence and control character from `raw`: CSI
/// (`ESC [ ... final`), OSC and its relatives (`ESC ] ... BEL` or
/// `ESC ] ... ESC \`), any other two-character `ESC x` form, then the
/// remaining C0 and C1 controls. The result holds no control character.
pub fn strip_control(raw: &str) -> (r: String)
    ensures
        r@ == stripped(raw@),
        forall|i: int| 0 <= i < r@.len() ==> !text::is_ctrl(#[trigger] r@[i]),
{
    let x = chars_of(raw);
    let mut out = String::new();
    let mut i: usize = 0;
    assert(x@.skip(0) =~= x@);
    assert(out@ + stripped(x@.skip(0)) =~= stripped(x@));
    while i < x.len()
        invariant
            i <= x.len(),
            x@ == raw@,
            out@ + stripped(x@.skip(i as int)) == stripped(x@),
        decreases x.len() - i,
    {
        let ghost rest = x@.skip(i as int);
        let ghost so_far = out@;
        assert(rest[0] == x@[i as int]);
        let c: char = x[i];
        if c == '\u{1b}' {
            let ghost n = escape_length(rest);
            i = escape_end(&x, i);
            assert(rest.skip(n as int) =~= x@.skip(i as int));
            assert(n >= rest.len() ==> x@.skip(i as int) =~= Seq::empty());
        } else {
            assert(rest.skip(1) =~= x@.skip(i + 1));
            if c == '\n' || c == '\r' || c == '\t' {
                out.push(' ');
                assert(out@ + stripped(rest.skip(1)) =~= so_far + (seq![' '] + stripped(
                    rest.skip(1),
                )));
            } else if !control(c) {
                out.push(c);
                assert(out@ + stripped(rest.skip(1)) =~= so_far + (seq![c] + stripped(
                    rest.skip(1),
                )));
            }
            i = i + 1;
        }
    }
    assert(x@.skip(i as int) =~= Seq::empty());
    assert(out@ + stripped(x@.skip(i as int)) =~= out@);
    proof {
        law_stripped_is_control_free(raw@);
    }
    out
}

/// The stripped form of any text holds no control character, so in particular
/// no ESC.
pub proof fn law_stripped_is_control_free(s: Seq<char>)
    ensures
        forall|i: int| 0 <= i < stripped(s).len() ==> !text::is_ctrl(#[trigger] stripped(s)[i]),
    decreases s.len(),
{
    if s.len() > 0 {
        if s[0] == '\u{1b}' {
            let n = escape_length(s);
            if n < s.len() {
                let rest = stripped(s.skip(n as int));
                law_stripped_is_control_free(s.skip(n as int));
                assert(stripped(s) == rest);
                assert forall|i: int| 0 <= i < stripped(s).len() implies !text::is_ctrl(
                    #[trigger] stripped(s)[i],
                ) by {
                    assert(!text::is_ctrl(rest[i]));
                }
            } else {
                assert(stripped(s).len() == 0);
            }
        } else {
            let rest = stripped(s.skip(1));
            law_stripped_is_control_free(s.skip(1));
            assert forall|i: int| 0 <= i < stripped(s).len() implies !text::is_ctrl(
                #[trigger] stripped(s)[i],
            ) by {
                if stripped(s).len() > rest.len() {
                    if i > 0 {
                        assert(stripped(s)[i] == rest[i - 1]);
                    }
                } else {
                    assert(stripped(s)[i] == rest[i]);
                }
            }
        }
    }
}

/// A word without its quote characters.
pub open spec fn unquoted(w: Seq<char>) -> Seq<char>
    decreases w.len(),
{
    if w.len() == 0 {
        Seq::empty()
    } else if is_quote_char(w.last()) {
        unquoted(w.drop_last())
    } else {
        unquoted(w.drop_last()).push(w.last())
    }
}

/// The words that keep a character once their quotes are gone.
pub open spec fn unquoted_words(ws: Seq<Seq<char>>) -> Seq<Seq<char>>
    decreases ws.len(),
{
    if ws.len() == 0 {
        Seq::empty()
    } else if unquoted(ws.last()).len() == 0 {
        unquoted_words(ws.drop_last())
    } else {
        unquoted_words(ws.drop_last()).push(unquoted(ws.last()))
    }
}

/// The words of a title made from `raw`.
pub open spec fn title_words(raw: Seq<char>) -> Seq<Seq<char>> {
    unquoted_words(text::words(stripped(raw)))
}

/// The single-line, escape-free body of a title.
pub open spec fn sanitized(raw: Seq<char>) -> Seq<char> {
    text::joined(title_words(raw), seq![' '])
}

fn drop_quotes(w: &str) -> (r: String)
    ensures
        r@ == unquoted(w@),
{
    let x = chars_of(w);
    let mut out = String::new();
    let mut i: usize = 0;
    assert(x@.take(0) =~= Seq::empty());
    while i < x.len()
        invariant
            i <= x.len(),
            out@ == unquoted(x@.take(i as int)),
        decreases x.len() - i,
    {
        assert(x@.take(i + 1).drop_last() =~= x@.take(i as int));
        if !is_quote(x[i]) {
            out.push(x[i]);
        }
        i = i + 1;
    }
    assert(x@.take(i as int) =~= x@);
    out
}

/// Sanitizes any text into a single-line, escape-free title body: escape
/// sequences and controls stripped, quotes removed, white space collapsed to
/// single spaces, trimmed.
pub fn sanitize(raw: &str) -> (r: String)
    ensures
        r@ == sanitized(raw@),
{
    broadcast use text::lemma_texts_push;

    let clean = strip_control(raw);
    let ws = split_words(clean.as_str());
    let mut kept: Vec<String> = Vec::new();
    let ghost all = text::texts(ws@);
    let mut i: usize = 0;
    assert(all.take(0) =~= Seq::empty());
    assert(text::texts(kept@) =~= Seq::empty());
    while i < ws.len()
        invariant
            i <= ws.len(),
            all == text::texts(ws@),
            text::texts(kept@) == unquoted_words(all.take(i as int)),
        decreases ws.len() - i,
    {
        broadcast use text::lemma_texts_push;

        assert(all.take(i + 1).drop_last() =~= all.take(i as int));
        let w = drop_quotes(ws[i].as_str());
        if w.as_str().unicode_len() > 0 {
            kept.push(w);
        }
        i = i + 1;
    }
    assert(all.take(i as int) =~= all);
    proof {
        reveal_strlit(" ");
        assert(" "@ =~= seq![' ']);
    }
    join_texts(&kept, " ")
}

/// How many of the words `ws` a budget of `max_words` words and `max_chars`
/// characters keeps once the first `n` are kept.
pub open spec fn words_within(
    ws: Seq<Seq<char>>,
    n: nat,
    max_words: nat,
    max_chars: nat,
) -> nat
    decreases ws.len() - n,
{
    if n < ws.len() && n < max_words && text::joined(ws.take(n as int + 1), seq![' ']).len() <= max_chars {
        words_within(ws, n + 1, max_words, max_chars)
    } else {
        n
    }
}

/// `raw` cut to its first words within both budgets.
pub open spec fn bounded(raw: Seq<char>, max_words: nat, max_chars: nat) -> Seq<char> {
    let ws = text::words(raw);
    text::joined(ws.take(words_within(ws, 0, max_words, max_chars) as int), seq![' '])
}

/// Keeps at most `max_words` words and at most `max_chars` characters; whole
/// words are dropped until the rest fits.
pub fn bound_words(raw: &str, max_words: usize, max_chars: usize) -> (r: String)
    ensures
        r@ == bounded(raw@, max_words as nat, max_chars as nat),
{
    let ws = split_words(raw);
    let ghost all = text::texts(ws@);
    let mut out = String::new();
    let mut n: usize = 0;
    proof {
        reveal_strlit(" ");
        assert(" "@ =~= seq![' ']);
    }
    assert(all.take(0) =~= Seq::empty());
    while n < ws.len() && n < max_words
        invariant
            n <= ws.len(),
            n <= max_words,
            all == text::texts(ws@),
            all == text::words(raw@),
            " "@ == seq![' '],
            out@ == text::joined(all.take(n as int), seq![' ']),
            words_within(all, 0, max_words as nat, max_chars as nat) == words_within(
                all,
                n as nat,
                max_words as nat,
                max_chars as nat,
            ),
        decreases ws.len() - n,
    {
        let mut candidate = out.clone();
        if n > 0 {
            candidate.append(" ");
        }
        candidate.append(ws[n].as_str());
        assert(all.take(n + 1).drop_last() =~= all.take(n as int));
        if n == 0 {
            assert(all.take(1) =~= seq![all[0]]);
            assert(candidate@ =~= all[0]);
        }
        assert(candidate@ == text::joined(all.take(n + 1), seq![' ']));
        if candidate.as_str().unicode_len() > max_chars {
            return out;
        }
        out = candidate;
        n = n + 1;
    }
    out
}

/// The label of a title made from `goal`.
pub open spec fn title_label(goal: Seq<char>) -> Seq<char> {
    let cleaned = bounded(sanitized(goal), MAX_TITLE_WORDS as nat, MAX_TITLE_CHARS as nat);
    if cleaned.len() == 0 {
        FALLBACK_LABEL@
    } else {
        cleaned
    }
}

/// The title label derived from a goal: sanitized, at most `MAX_TITLE_WORDS`
/// words and `MAX_TITLE_CHARS` characters, with a stable fallback when
/// nothing usable remains.
pub fn fallback_title(goal: &str) -> (r: String)
    ensures
        r@ == title_label(goal@),
{
    let clean = sanitize(goal);
    let cleaned = bound_words(clean.as_str(), MAX_TITLE_WORDS, MAX_TITLE_CHARS);
    if cleaned.as_str().unicode_len() == 0 {
        FALLBACK_LABEL.to_string()
    } else {
        cleaned
    }
}

/// A title: an optional spinner frame, a space and the label.
pub open spec fn title_text(label: Seq<char>, frame: Option<Seq<char>>) -> Seq<char> {
    match frame {
        Some(f) => f + seq![' '] + label,
        None => label,
    }
}

/// The full title text: an optional spinner frame before the label.
pub fn format_title(label: &str, frame: Option<&str>) -> (r: String)
    ensures
        r@ == title_text(
            label@,
            match frame {
                Some(f) => Some(f@),
                None => None,
            },
        ),
{
    match frame {
        Some(f) => {
            proof {
                reveal_strlit(" ");
                assert(" "@ =~= seq![' ']);
            }
            concat3(f, " ", label)
        },
        None => label.to_string(),
    }
}

/// Which spinner frame is shown after `elapsed` milliseconds.
pub open spec fn frame_index(elapsed: int) -> int {
    (elapsed / SPINNER_INTERVAL_MS as int) % 10
}

/// The spinner frame of a busy interval of `elapsed` milliseconds.
pub fn frame_for(elapsed: u64) -> (r: &'static str)
    ensures
        r@ == SPINNER_FRAMES@[frame_index(elapsed as int)]@,
{
    let step: u64 = elapsed / SPINNER_INTERVAL_MS;
    let k: usize = (step % 10) as usize;
    SPINNER_FRAMES[k]
}

/// The OSC 2 escape that sets the window title to `title`.
pub open spec fn title_escape(title: Seq<char>) -> Seq<char> {
    "\u{1b}]2;"@ + title + "\u{7}"@
}

/// Wraps a sanitized title in an OSC 2 (window title) escape sequence.
pub fn osc2(title: &str) -> (r: String)
    ensures
        r@ == title_escape(title@),
{
    concat3("\u{1b}]2;", title, "\u{7}")
}

// ---------------------------------------------------------------------------
// State machine
// ---------------------------------------------------------------------------

/// The marker shown in place of the spinner while the run waits for the
/// operator.
pub const WAITING_MARK: &'static str = "?";

/// What a pane title remembers, with times in milliseconds.
#[verifier::ext_equal]
pub ghost struct TitleState {
    pub label: Seq<char>,
    pub busy: bool,
    pub busy_since: Option<u64>,
    pub waiting: bool,
    pub last_emitted: Option<Seq<char>>,
    pub last_emit_at: Option<u64>,
}

/// The time from `since` to `now`, zero where `now` is earlier.
pub open spec fn elapsed(now: u64, since: u64) -> int {
    if now >= since {
        now - since
    } else {
        0
    }
}

impl TitleState {
    /// The frame before the label: none while idle, the waiting mark while
    /// the operator is asked, else the spinner frame of the busy interval.
    pub open spec fn frame(self, now: u64) -> Option<Seq<char>> {
        if !self.busy {
            None
        } else if self.waiting {
            Some(WAITING_MARK@)
        } else {
            let since = match self.busy_since {
                Some(t) => t,
                None => now,
            };
            Some(SPINNER_FRAMES@[frame_index(elapsed(now, since))]@)
        }
    }

    /// The title text shown at `now`.
    pub open spec fn title(self, now: u64) -> Seq<char> {
        title_text(self.label, self.frame(now))
    }

    /// The state after the title of `now` was brought up to date.
    pub open spec fn updated(self, now: u64) -> TitleState {
        if self.last_emitted == Some(self.title(now)) {
            self
        } else {
            TitleState {
                last_emitted: Some(self.title(now)),
                last_emit_at: Some(now),
                ..self
            }
        }
    }

    /// The escape that brings the terminal up to date at `now`, if one is due.
    pub open spec fn escape(self, now: u64) -> Option<Seq<char>> {
        if self.last_emitted == Some(self.title(now)) {
            None
        } else {
            Some(title_escape(self.title(now)))
        }
    }

    /// Whether a spinner tick at `now` comes too early after the last emission.
    pub open spec fn throttled(self, now: u64) -> bool {
        match self.last_emit_at {
            Some(last) => elapsed(now, last) < SPINNER_INTERVAL_MS,
            None => false,
        }
    }
}

/// The stable label plus busy and waiting tracking, with deduplication and
/// throttling. The setters return the escape sequence to emit, or `None` when
/// nothing changed, so callers stay in charge of writing.
pub struct PaneTitle {
    label: String,
    busy: bool,
    busy_since: Option<u64>,
    waiting: bool,
    last_emitted: Option<String>,
    last_emit_at: Option<u64>,
}

impl View for PaneTitle {
    type V = TitleState;

    closed spec fn view(&self) -> TitleState {
        TitleState {
            label: self.label@,
            busy: self.busy,
            busy_since: self.busy_since,
            waiting: self.waiting,
            last_emitted: text::opt_text(self.last_emitted),
            last_emit_at: self.last_emit_at,
        }
    }
}

fn elapsed_ms(now: u64, since: u64) -> (r: u64)
    ensures
        r == elapsed(now, since),
{
    if now >= since {
        now - since
    } else {
        0
    }
}

impl PaneTitle {
    /// Starts from the initial goal, emitting nothing yet.
    pub fn new(goal: &str) -> (r: Self)
        ensures
            r@ == (TitleState {
                label: title_label(goal@),
                busy: false,
                busy_since: None,
                waiting: false,
                last_emitted: None,
                last_emit_at: None,
            }),
    {
        PaneTitle {
            label: fallback_title(goal),
            busy: false,
            busy_since: None,
            waiting: false,
            last_emitted: None,
            last_emit_at: None,
        }
    }

    pub fn label(&self) -> (r: &str)
        ensures
            r@ == self@.label,
    {
        self.label.as_str()
    }

    pub fn is_busy(&self) -> (r: bool)
        ensures
            r == self@.busy,
    {
        self.busy
    }

    /// Whether the title shows the waiting mark in place of the spinner.
    pub fn is_waiting(&self) -> (r: bool)
        ensures
            r == self@.waiting,
    {
        self.waiting
    }

    /// The title text of `now`, unless it is the one last emitted.
    pub fn candidate(&self, now: u64) -> (r: Option<String>)
        ensures
            text::opt_text(r) == (if self@.last_emitted == Some(self@.title(now)) {
                None
            } else {
                Some(self@.title(now))
            }),
    {
        let title = if !self.busy {
            format_title(self.label.as_str(), None)
        } else if self.waiting {
            format_title(self.label.as_str(), Some(WAITING_MARK))
        } else {
            let since: u64 = match self.busy_since {
                Some(t) => t,
                None => now,
            };
            format_title(self.label.as_str(), Some(frame_for(elapsed_ms(now, since))))
        };
        assert(title@ == self@.title(now));
        if same_opt(&self.last_emitted, title.as_str()) {
            return None;
        }
        Some(title)
    }

    /// Recomputes the current title, deduplicates, and records the emission.
    pub fn update(&mut self, now: u64) -> (r: Option<String>)
        ensures
            final(self)@ == old(self)@.updated(now),
            text::opt_text(r) == old(self)@.escape(now),
    {
        match self.candidate(now) {
            None => None,
            Some(title) => {
                let escape = osc2(title.as_str());
                self.last_emitted = Some(title);
                self.last_emit_at = Some(now);
                assert(self@ =~= old(self)@.updated(now));
                Some(escape)
            },
        }
    }

    /// Replaces the label, sanitized and bounded; returns the escape to emit
    /// when the title differs.
    pub fn set_label(&mut self, raw: &str, now: u64) -> (r: Option<String>)
        ensures
            ({
                let relabelled = TitleState { label: title_label(raw@), ..old(self)@ };
                &&& final(self)@ == relabelled.updated(now)
                &&& text::opt_text(r) == relabelled.escape(now)
            }),
    {
        self.label = fallback_title(raw);
        self.update(now)
    }

    /// Switches between busy and idle. Going idle emits the bare label and
    /// ends any waiting; going busy starts the spinner clock.
    pub fn set_busy(&mut self, busy: bool, now: u64) -> (r: Option<String>)
        ensures
            old(self)@.busy == busy ==> r is None && final(self)@ == old(self)@,
            old(self)@.busy != busy ==> ({
                let turned = TitleState {
                    busy,
                    busy_since: if busy {
                        Some(now)
                    } else {
                        None
                    },
                    waiting: old(self)@.waiting && busy,
                    ..old(self)@
                };
                &&& final(self)@ == turned.updated(now)
                &&& text::opt_text(r) == turned.escape(now)
            }),
    {
        if self.busy == busy {
            return None;
        }
        self.busy = busy;
        if busy {
            self.busy_since = Some(now);
        } else {
            self.busy_since = None;
            self.waiting = false;
        }
        self.update(now)
    }

    /// Marks the run as waiting for the operator, or lets the spinner resume.
    pub fn set_waiting(&mut self, waiting: bool, now: u64) -> (r: Option<String>)
        ensures
            old(self)@.waiting == waiting ==> r is None && final(self)@ == old(self)@,
            old(self)@.waiting != waiting ==> ({
                let turned = TitleState { waiting, ..old(self)@ };
                &&& final(self)@ == turned.updated(now)
                &&& text::opt_text(r) == turned.escape(now)
            }),
    {
        if self.waiting == waiting {
            return None;
        }
        self.waiting = waiting;
        self.update(now)
    }

    /// Advances the spinner while busy, at most once per
    /// `SPINNER_INTERVAL_MS`; idle ticks produce nothing.
    pub fn tick(&mut self, now: u64) -> (r: Option<String>)
        ensures
            (!old(self)@.busy || old(self)@.throttled(now)) ==> r is None && final(self)@ == old(
                self,
            )@,
            (old(self)@.busy && !old(self)@.throttled(now)) ==> ({
                &&& final(self)@ == old(self)@.updated(now)
                &&& text::opt_text(r) == old(self)@.escape(now)
            }),
    {
        if !self.busy {
            return None;
        }
        if let Some(last) = self.last_emit_at {
            if elapsed_ms(now, last) < SPINNER_INTERVAL_MS {
                return None;
            }
        }
        self.update(now)
    }
}

// ---------------------------------------------------------------------------
// Laws
// ---------------------------------------------------------------------------

/// Whether a character may stand in a word of a title.
pub open spec fn is_title_char(c: char) -> bool {
    !text::is_ctrl(c) && !is_quote_char(c)
}

/// Whether `t` is a title label: words of title characters joined by single
/// spaces, within both budgets and not empty.
pub open spec fn is_title_label(t: Seq<char>) -> bool {
    &&& 0 < t.len() <= MAX_TITLE_CHARS
    &&& 0 < text::words(t).len() <= MAX_TITLE_WORDS
    &&& t == text::joined(text::words(t), seq![' '])
    &&& text::all_chars(t, |c: char| is_title_char(c))
}

/// A text without controls is stripped of nothing.
pub proof fn lemma_stripped_of_clean(s: Seq<char>)
    requires
        text::all_chars(s, |c: char| !text::is_ctrl(c)),
    ensures
        stripped(s) == s,
    decreases s.len(),
{
    if s.len() > 0 {
        assert(!text::is_ctrl(s[0]));
        let rest = s.skip(1);
        assert(text::all_chars(rest, |c: char| !text::is_ctrl(c))) by {
            assert forall|i: int| 0 <= i < rest.len() implies !text::is_ctrl(#[trigger] rest[i]) by {
                assert(rest[i] == s[i + 1]);
            }
        }
        lemma_stripped_of_clean(rest);
        assert(seq![s[0]] + rest =~= s);
    }
}

proof fn lemma_unquoted(w: Seq<char>, p: spec_fn(char) -> bool)
    requires
        text::all_chars(w, p),
    ensures
        text::all_chars(unquoted(w), p),
        text::all_chars(unquoted(w), |c: char| !is_quote_char(c)),
        text::all_chars(w, |c: char| !is_quote_char(c)) ==> unquoted(w) == w,
    decreases w.len(),
{
    if w.len() > 0 {
        assert(text::all_chars(w.drop_last(), p));
        lemma_unquoted(w.drop_last(), p);
        assert(p(w[w.len() - 1]));
        if text::all_chars(w, |c: char| !is_quote_char(c)) {
            assert(!is_quote_char(w[w.len() - 1]));
            assert(text::all_chars(w.drop_last(), |c: char| !is_quote_char(c)));
            assert(w.drop_last().push(w.last()) =~= w);
        }
    }
}

proof fn lemma_unquoted_words(ws: Seq<Seq<char>>)
    requires
        text::are_words(ws),
        forall|i: int|
            0 <= i < ws.len() ==> text::all_chars(#[trigger] ws[i], |c: char| !text::is_ctrl(c)),
    ensures
        text::are_words(unquoted_words(ws)),
        forall|i: int|
            0 <= i < unquoted_words(ws).len() ==> text::all_chars(
                #[trigger] unquoted_words(ws)[i],
                |c: char| is_title_char(c),
            ),
        (forall|i: int|
            0 <= i < ws.len() ==> text::all_chars(#[trigger] ws[i], |c: char| is_title_char(c)))
            ==> unquoted_words(ws) == ws,
    decreases ws.len(),
{
    if ws.len() > 0 {
        let init = ws.drop_last();
        let w = ws.last();
        assert(w == ws[ws.len() - 1]);
        assert forall|i: int| 0 <= i < init.len() implies text::is_word(#[trigger] init[i])
            && text::all_chars(init[i], |c: char| !text::is_ctrl(c)) by {
            assert(init[i] == ws[i]);
        }
        lemma_unquoted_words(init);
        lemma_unquoted(w, |c: char| !text::is_ctrl(c));
        lemma_unquoted(w, |c: char| !text::is_space(c));
        let u = unquoted(w);
        assert forall|i: int| 0 <= i < u.len() implies is_title_char(#[trigger] u[i]) by {
            assert(!text::is_ctrl(u[i]));
            assert(!is_quote_char(u[i]));
        }
        if forall|i: int|
            0 <= i < ws.len() ==> text::all_chars(#[trigger] ws[i], |c: char| is_title_char(c)) {
            assert(text::all_chars(w, |c: char| is_title_char(c)));
            assert(text::all_chars(w, |c: char| !is_quote_char(c))) by {
                assert forall|i: int| 0 <= i < w.len() implies !is_quote_char(#[trigger] w[i]) by {
                    assert(is_title_char(w[i]));
                }
            }
            assert forall|i: int| 0 <= i < init.len() implies text::all_chars(
                #[trigger] init[i],
                |c: char| is_title_char(c),
            ) by {
                assert(init[i] == ws[i]);
            }
            assert(init.push(w) =~= ws);
        }
    }
}

pub proof fn lemma_words_within(ws: Seq<Seq<char>>, n: nat, max_words: nat, max_chars: nat)
    requires
        n <= ws.len(),
        n <= max_words,
        text::joined(ws.take(n as int), seq![' ']).len() <= max_chars,
    ensures
        ({
            let k = words_within(ws, n, max_words, max_chars);
            &&& n <= k <= ws.len()
            &&& k <= max_words
            &&& text::joined(ws.take(k as int), seq![' ']).len() <= max_chars
            &&& (text::joined(ws, seq![' ']).len() <= max_chars && ws.len() <= max_words) ==> k
                == ws.len()
        }),
    decreases ws.len() - n,
{
    if n < ws.len() {
        text::lemma_joined_prefix_length(ws, seq![' '], n as int + 1);
    }
    if n < ws.len() && n < max_words && text::joined(ws.take(n as int + 1), seq![' ']).len()
        <= max_chars {
        lemma_words_within(ws, n + 1, max_words, max_chars);
    }
}

proof fn lemma_joined_clean(ws: Seq<Seq<char>>)
    requires
        0 < ws.len() <= MAX_TITLE_WORDS,
        text::are_words(ws),
        text::joined(ws, seq![' ']).len() <= MAX_TITLE_CHARS,
        forall|i: int|
            0 <= i < ws.len() ==> text::all_chars(#[trigger] ws[i], |c: char| is_title_char(c)),
    ensures
        is_title_label(text::joined(ws, seq![' '])),
{
    text::lemma_words_of_joined(ws);
    text::lemma_joined_chars(ws, |c: char| is_title_char(c));
    text::lemma_joined_prefix_length(ws, seq![' '], 1);
    assert(ws.take(1) =~= seq![ws[0]]);
    assert(text::is_word(ws[0]));
}

pub proof fn lemma_fallback_is_label()
    ensures
        is_title_label(FALLBACK_LABEL@),
{
    reveal_strlit("drip");
    let w = FALLBACK_LABEL@;
    assert(w =~= seq!['d', 'r', 'i', 'p']);
    let ws = seq![w];
    assert(text::is_word(w));
    assert(text::all_chars(w, |c: char| is_title_char(c)));
    lemma_joined_clean(ws);
}

/// Whatever goal or model reply a label is made from, it is a title label:
/// never empty, at most five words and 48 characters, single-spaced, and free
/// of control characters and quotes.
pub proof fn law_title_label_is_bounded_and_safe(goal: Seq<char>)
    ensures
        is_title_label(title_label(goal)),
{
    let s = stripped(goal);
    law_stripped_is_control_free(goal);
    let clean = |c: char| !text::is_ctrl(c);
    assert(text::all_chars(s, clean)) by {
        assert forall|i: int| 0 <= i < s.len() implies clean(#[trigger] s[i]) by {
            assert(!text::is_ctrl(stripped(goal)[i]));
        }
    }
    text::lemma_words(s, clean);
    let raw_words = text::words(s);
    assert forall|i: int| 0 <= i < raw_words.len() implies text::all_chars(
        #[trigger] raw_words[i],
        |c: char| !text::is_ctrl(c),
    ) by {
        assert(text::all_chars(raw_words[i], clean));
    }
    lemma_unquoted_words(raw_words);
    let ws = title_words(goal);
    text::lemma_words_of_joined(ws);
    assert(text::words(sanitized(goal)) == ws);
    assert(ws.take(0) =~= Seq::empty());
    lemma_words_within(ws, 0, MAX_TITLE_WORDS as nat, MAX_TITLE_CHARS as nat);
    let k = words_within(ws, 0, MAX_TITLE_WORDS as nat, MAX_TITLE_CHARS as nat);
    let kept = ws.take(k as int);
    if k > 0 {
        assert forall|i: int| 0 <= i < kept.len() implies text::is_word(#[trigger] kept[i])
            && text::all_chars(kept[i], |c: char| is_title_char(c)) by {
            assert(kept[i] == ws[i]);
        }
        lemma_joined_clean(kept);
    }
    lemma_fallback_is_label();
}

/// A title label is its own label: sanitizing and bounding again changes
/// nothing.
pub proof fn law_title_label_is_stable(t: Seq<char>)
    requires
        is_title_label(t),
    ensures
        title_label(t) == t,
{
    let clean = |c: char| !text::is_ctrl(c);
    assert forall|i: int| 0 <= i < t.len() implies clean(#[trigger] t[i]) by {
        assert(is_title_char(t[i]));
    }
    assert(text::all_chars(t, |c: char| !text::is_ctrl(c)));
    lemma_stripped_of_clean(t);
    let ws = text::words(t);
    text::lemma_words(t, |c: char| is_title_char(c));
    text::lemma_words(t, |c: char| !text::is_ctrl(c));
    lemma_unquoted_words(ws);
    assert(sanitized(t) == t);
    assert(ws.take(0) =~= Seq::empty());
    lemma_words_within(ws, 0, MAX_TITLE_WORDS as nat, MAX_TITLE_CHARS as nat);
    assert(ws.take(ws.len() as int) =~= ws);
}

/// An update right after an update emits nothing: a title on screen is never
/// written again.
pub proof fn law_identical_titles_are_deduplicated(s: TitleState, now: u64)
    ensures
        s.updated(now).escape(now) is None,
        s.updated(now).updated(now) == s.updated(now),
{
}

/// Between two emissions while busy at least one spinner interval passes: a
/// tick inside the interval after an emission is throttled.
pub proof fn law_ticks_are_throttled(s: TitleState, at: u64, now: u64)
    requires
        s.escape(at) is Some,
        elapsed(now, at) < SPINNER_INTERVAL_MS,
    ensures
        s.updated(at).throttled(now),
{
}

/// Stripping takes away escapes and controls and leaves the rest in place: text
/// before them stays, a line end or a tab becomes a space, and any other
/// control goes without a trace.
pub proof fn law_stripping_leaves_the_text(before: Seq<char>, control: char, after: Seq<char>)
    requires
        forall|i: int| 0 <= i < before.len() ==> !text::is_ctrl(#[trigger] before[i]),
    ensures
        stripped(before) == before,
        stripped(before + after) == before + stripped(after),
        control == '\n' || control == '\r' || control == '\t' ==> stripped(
            before + seq![control] + after,
        ) == before + seq![' '] + stripped(after),
        text::is_ctrl(control) && control != '\n' && control != '\r' && control != '\t' && control
            != '\u{1b}' ==> stripped(before + seq![control] + after) == before + stripped(after),
{
    assert(text::all_chars(before, |c: char| !text::is_ctrl(c)));
    lemma_stripped_of_clean(before);
    lemma_stripped_behind_text(before, after);
    let tail = seq![control] + after;
    assert(before + seq![control] + after =~= before + tail);
    lemma_stripped_behind_text(before, tail);
    assert(tail.skip(1) =~= after);
    assert(before + (seq![' '] + stripped(after)) =~= before + seq![' '] + stripped(after));
}

proof fn lemma_stripped_behind_text(before: Seq<char>, after: Seq<char>)
    requires
        forall|i: int| 0 <= i < before.len() ==> !text::is_ctrl(#[trigger] before[i]),
    ensures
        stripped(before + after) == before + stripped(after),
    decreases before.len(),
{
    let s = before + after;
    if before.len() == 0 {
        assert(s =~= after);
        assert(before + stripped(after) =~= stripped(after));
    } else {
        assert(s[0] == before[0]);
        assert(!text::is_ctrl(before[0]));
        assert(s.skip(1) =~= before.skip(1) + after);
        lemma_stripped_behind_text(before.skip(1), after);
        assert(seq![s[0]] + (before.skip(1) + stripped(after)) =~= before + stripped(after));
    }
}

/// A control sequence goes whole, from its escape to its final letter, and so
/// does a string sequence to the bell or the backslash that ends it. The text
/// behind stays.
pub proof fn law_an_escape_sequence_goes_whole(
    params: Seq<char>,
    last: char,
    intro: char,
    body: Seq<char>,
    after: Seq<char>,
)
    requires
        params.len() <= 64,
        forall|i: int| 0 <= i < params.len() ==> !('\u{40}' <= #[trigger] params[i] <= '\u{7e}'),
        '\u{40}' <= last <= '\u{7e}',
        intro == ']' || intro == 'P' || intro == 'X' || intro == '^' || intro == '_',
        body.len() < 512,
        forall|i: int|
            0 <= i < body.len() ==> #[trigger] body[i] != '\u{7}' && body[i] != '\u{1b}',
    ensures
        stripped(seq!['\u{1b}', '['] + params + seq![last] + after) == stripped(after),
        stripped(seq!['\u{1b}', intro] + body + seq!['\u{7}'] + after) == stripped(after),
        body.len() < 511 ==> stripped(
            seq!['\u{1b}', intro] + body + seq!['\u{1b}', '\\'] + after,
        ) == stripped(after),
{
    let csi = seq!['\u{1b}', '['] + params + seq![last] + after;
    let n = 3 + params.len() as int;
    assert(csi.skip(2) =~= params + (seq![last] + after));
    lemma_csi_stops(params, last, after, 0);
    assert(csi.skip(n) =~= after);
    if n >= csi.len() {
        assert(after =~= Seq::empty());
    }
    let bell = seq!['\u{1b}', intro] + body + seq!['\u{7}'] + after;
    let m = 3 + body.len() as int;
    assert(bell.skip(2) =~= body + (seq!['\u{7}'] + after));
    lemma_osc_bell(body, after, 0, false);
    assert(bell.skip(m) =~= after);
    if m >= bell.len() {
        assert(after =~= Seq::empty());
    }
    if body.len() < 511 {
        let st = seq!['\u{1b}', intro] + body + seq!['\u{1b}', '\\'] + after;
        assert(st.skip(2) =~= body + (seq!['\u{1b}', '\\'] + after));
        lemma_osc_backslash(body, after, 0, false);
        assert(st.skip(m + 1) =~= after);
        if m + 1 >= st.len() {
            assert(after =~= Seq::empty());
        }
    }
}

proof fn lemma_csi_stops(params: Seq<char>, last: char, after: Seq<char>, taken: nat)
    requires
        params.len() + taken <= 64,
        forall|i: int| 0 <= i < params.len() ==> !('\u{40}' <= #[trigger] params[i] <= '\u{7e}'),
        '\u{40}' <= last <= '\u{7e}',
    ensures
        csi_length(params + (seq![last] + after), taken) == params.len() + 1,
    decreases params.len(),
{
    let t = params + (seq![last] + after);
    if params.len() > 0 {
        assert(t[0] == params[0]);
        assert(t.skip(1) =~= params.skip(1) + (seq![last] + after));
        lemma_csi_stops(params.skip(1), last, after, taken + 1);
    } else {
        assert(t[0] == last);
    }
}

/// A string sequence ends with its bell.
pub proof fn lemma_osc_bell(body: Seq<char>, after: Seq<char>, taken: nat, after_esc: bool)
    requires
        !after_esc,
        body.len() + taken < 512,
        forall|i: int|
            0 <= i < body.len() ==> #[trigger] body[i] != '\u{7}' && body[i] != '\u{1b}',
    ensures
        osc_length(body + (seq!['\u{7}'] + after), taken, after_esc) == body.len() + 1,
    decreases body.len(),
{
    let t = body + (seq!['\u{7}'] + after);
    if body.len() > 0 {
        assert(t[0] == body[0]);
        assert(t.skip(1) =~= body.skip(1) + (seq!['\u{7}'] + after));
        lemma_osc_bell(body.skip(1), after, taken + 1, false);
    } else {
        assert(t[0] == '\u{7}');
    }
}

proof fn lemma_osc_backslash(body: Seq<char>, after: Seq<char>, taken: nat, after_esc: bool)
    requires
        !after_esc,
        body.len() + taken < 511,
        forall|i: int|
            0 <= i < body.len() ==> #[trigger] body[i] != '\u{7}' && body[i] != '\u{1b}',
    ensures
        osc_length(body + (seq!['\u{1b}', '\\'] + after), taken, after_esc) == body.len() + 2,
    decreases body.len(),
{
    let t = body + (seq!['\u{1b}', '\\'] + after);
    if body.len() > 0 {
        assert(t[0] == body[0]);
        assert(t.skip(1) =~= body.skip(1) + (seq!['\u{1b}', '\\'] + after));
        lemma_osc_backslash(body.skip(1), after, taken + 1, false);
    } else {
        assert(t[0] == '\u{1b}');
        assert(t.skip(1) =~= seq!['\\'] + after);
        assert(t.skip(1)[0] == '\\');
        reveal_with_fuel(osc_length, 3);
    }
}

/// Of a word of a title only quotation marks are left out.
pub proof fn law_a_word_loses_only_its_quotes(w: Seq<char>)
    ensures
        unquoted(w) == w.filter(
            |c: char|
                c != '"' && c != '\'' && c != '`' && c != '‘' && c != '’' && c != '“' && c != '”'
                    && c != '«' && c != '»',
        ),
    decreases w.len(),
{
    reveal(Seq::filter);
    if w.len() > 0 {
        law_a_word_loses_only_its_quotes(w.drop_last());
    } else {
        assert(unquoted(w) =~= w.filter(
            |c: char|
                c != '"' && c != '\'' && c != '`' && c != '‘' && c != '’' && c != '“' && c != '”'
                    && c != '«' && c != '»',
        ));
    }
}

/// Bounding keeps the first words, whole and as many as both budgets allow, and
/// drops the others.
pub proof fn law_bounding_keeps_the_first_words(raw: Seq<char>, max_words: nat, max_chars: nat)
    ensures
        exists|k: int|
            0 <= k <= text::words(raw).len() && k <= max_words && #[trigger] text::joined(
                text::words(raw).take(k),
                seq![' '],
            ) == bounded(raw, max_words, max_chars) && bounded(raw, max_words, max_chars).len()
                <= max_chars && (k < text::words(raw).len() && k < max_words ==> text::joined(
                text::words(raw).take(k + 1),
                seq![' '],
            ).len() > max_chars),
{
    let ws = text::words(raw);
    assert(ws.take(0) =~= Seq::empty());
    lemma_words_within(ws, 0, max_words, max_chars);
    lemma_words_are_most(ws, 0, max_words, max_chars);
    let k = words_within(ws, 0, max_words, max_chars) as int;
    assert(text::joined(ws.take(k), seq![' ']) == bounded(raw, max_words, max_chars));
}

proof fn lemma_words_are_most(ws: Seq<Seq<char>>, n: nat, max_words: nat, max_chars: nat)
    ensures
        ({
            let k = words_within(ws, n, max_words, max_chars);
            k < ws.len() && k < max_words ==> text::joined(ws.take(k as int + 1), seq![' ']).len()
                > max_chars
        }),
    decreases ws.len() - n,
{
    if n < ws.len() && n < max_words && text::joined(ws.take(n as int + 1), seq![' ']).len()
        <= max_chars {
        lemma_words_are_most(ws, n + 1, max_words, max_chars);
    }
}

/// The label of a goal is its first words, five at most and in no more than
/// forty-eight characters. Where no word is left it is `drip`.
pub proof fn law_a_label_is_the_first_words_of_its_goal(goal: Seq<char>)
    ensures
        title_label(goal) == (if bounded(sanitized(goal), 5, 48).len() > 0 {
            bounded(sanitized(goal), 5, 48)
        } else {
            "drip"@
        }),
        (forall|i: int| 0 <= i < goal.len() ==> text::is_space(#[trigger] goal[i]) && !text::is_ctrl(
            goal[i],
        )) ==> title_label(goal) == "drip"@,
{
    if forall|i: int|
        0 <= i < goal.len() ==> text::is_space(#[trigger] goal[i]) && !text::is_ctrl(goal[i]) {
        assert(text::all_chars(goal, |c: char| !text::is_ctrl(c)));
        lemma_stripped_of_clean(goal);
        lemma_no_words(goal);
        assert(unquoted_words(text::words(goal)) =~= Seq::empty());
        assert(sanitized(goal) =~= Seq::empty());
        lemma_no_words(sanitized(goal));
        let ws = text::words(sanitized(goal));
        assert(ws.take(0) =~= Seq::empty());
        assert(words_within(ws, 0, 5, 48) == 0);
    }
}

proof fn lemma_no_words(s: Seq<char>)
    requires
        forall|i: int| 0 <= i < s.len() ==> text::is_space(#[trigger] s[i]),
    ensures
        text::words(s).len() == 0,
    decreases s.len(),
{
    if s.len() > 0 {
        let init = s.drop_last();
        assert(text::is_space(s[s.len() - 1]));
        assert forall|i: int| 0 <= i < init.len() implies text::is_space(#[trigger] init[i]) by {
            assert(init[i] == s[i]);
        }
        lemma_no_words(init);
        assert(s =~= init + seq![s.last()] + Seq::<char>::empty());
        text::law_white_space_parts_words(init, s.last(), Seq::empty());
        text::law_a_text_without_spaces_is_one_word(Seq::empty());
    } else {
        text::law_a_text_without_spaces_is_one_word(s);
    }
}

/// What a pane title shows: the label alone while idle, a question mark before
/// it while the operator is asked, and else the frame of the spinner, which
/// moves on every tenth of a second and begins anew after the tenth frame.
pub proof fn law_the_title_shows_what_the_run_does(s: TitleState, since: u64, now: u64)
    requires
        s.busy_since == Some(since),
        since <= now,
    ensures
        !s.busy ==> s.title(now) == s.label,
        s.busy && s.waiting ==> s.title(now) == "? "@ + s.label,
        s.busy && !s.waiting ==> s.title(now) == SPINNER_FRAMES@[((now - since) / 100) % 10]@
            + seq![' '] + s.label,
        SPINNER_FRAMES@.len() == 10,
        SPINNER_FRAMES@[0]@ == "⠋"@,
        SPINNER_FRAMES@[1]@ == "⠙"@,
        SPINNER_FRAMES@[2]@ == "⠹"@,
        SPINNER_FRAMES@[3]@ == "⠸"@,
        SPINNER_FRAMES@[4]@ == "⠼"@,
        SPINNER_FRAMES@[5]@ == "⠴"@,
        SPINNER_FRAMES@[6]@ == "⠦"@,
        SPINNER_FRAMES@[7]@ == "⠧"@,
        SPINNER_FRAMES@[8]@ == "⠇"@,
        SPINNER_FRAMES@[9]@ == "⠏"@,
{
    reveal_strlit("?");
    reveal_strlit("? ");
    assert("?"@ + seq![' '] =~= "? "@);
}

/// A title that is not on screen yet is written, as it is, and remembered with
/// its time; one that is stays untouched.
pub proof fn law_a_new_title_is_written(s: TitleState, now: u64)
    ensures
        s.last_emitted != Some(s.title(now)) ==> {
            &&& s.escape(now) == Some("\u{1b}]2;"@ + s.title(now) + "\u{7}"@)
            &&& s.updated(now).last_emitted == Some(s.title(now))
            &&& s.updated(now).last_emit_at == Some(now)
        },
        s.last_emitted == Some(s.title(now)) ==> s.escape(now) is None && s.updated(now) == s,
        s.updated(now).label == s.label,
        s.updated(now).busy == s.busy,
        s.updated(now).busy_since == s.busy_since,
        s.updated(now).waiting == s.waiting,
{
}

/// A tick is too early exactly within a tenth of a second after the title was
/// last written.
pub proof fn law_a_tick_is_early_within_its_interval(s: TitleState, last: u64, now: u64)
    requires
        s.last_emit_at == Some(last),
        last <= now,
    ensures
        s.throttled(now) <==> now - last < 100,
        !((TitleState { last_emit_at: None, ..s }).throttled(now)),
{
}

/// The words of a title are words.
pub proof fn lemma_title_words(raw: Seq<char>)
    ensures
        text::are_words(title_words(raw)),
{
    let s = stripped(raw);
    law_stripped_is_control_free(raw);
    let clean = |c: char| !text::is_ctrl(c);
    assert forall|i: int| 0 <= i < s.len() implies clean(#[trigger] s[i]) by {
        assert(!text::is_ctrl(stripped(raw)[i]));
    }
    assert(text::all_chars(s, clean));
    text::lemma_words(s, clean);
    let raw_words = text::words(s);
    assert forall|i: int| 0 <= i < raw_words.len() implies text::all_chars(
        #[trigger] raw_words[i],
        |c: char| !text::is_ctrl(c),
    ) by {
        assert(text::all_chars(raw_words[i], clean));
    }
    lemma_unquoted_words(raw_words);
}

/// A title keeps every word of its text, in order and without its quotation
/// marks; only words of quotation marks alone are left out.
pub proof fn law_a_title_keeps_its_words(ws: Seq<Seq<char>>, w: Seq<char>)
    ensures
        unquoted_words(Seq::empty()) == Seq::<Seq<char>>::empty(),
        unquoted(w).len() > 0 ==> unquoted_words(ws.push(w)) == unquoted_words(ws).push(
            unquoted(w),
        ),
        unquoted(w).len() == 0 ==> unquoted_words(ws.push(w)) == unquoted_words(ws),
{
    assert(ws.push(w).drop_last() =~= ws);
}

/// A text is made a title word by word: its words without controls and quotes,
/// with single spaces between them.
pub proof fn law_a_title_is_its_words(raw: Seq<char>)
    ensures
        text::words(sanitized(raw)) == unquoted_words(text::words(stripped(raw))),
        sanitized(raw) == text::joined(unquoted_words(text::words(stripped(raw))), seq![' ']),
{
    lemma_title_words(raw);
    text::lemma_words_of_joined(title_words(raw));
}

/// A malformed sequence cannot eat the text behind it: a control sequence
/// without a final letter ends behind its sixty-fifth character, a string
/// sequence without its end behind its five hundred and thirteenth.
pub proof fn law_a_malformed_sequence_is_bounded(
    params: Seq<char>,
    intro: char,
    body: Seq<char>,
    after: Seq<char>,
)
    requires
        params.len() == 65,
        forall|i: int| 0 <= i < params.len() ==> !('\u{40}' <= #[trigger] params[i] <= '\u{7e}'),
        intro == ']' || intro == 'P' || intro == 'X' || intro == '^' || intro == '_',
        body.len() == 513,
        forall|i: int|
            0 <= i < body.len() ==> #[trigger] body[i] != '\u{7}' && body[i] != '\u{1b}',
    ensures
        stripped(seq!['\u{1b}', '['] + params + after) == stripped(after),
        stripped(seq!['\u{1b}', intro] + body + after) == stripped(after),
{
    let csi = seq!['\u{1b}', '['] + params + after;
    assert(csi.skip(2) =~= params + after);
    lemma_csi_runs_out(params, after, 0);
    assert(csi.skip(67) =~= after);
    if csi.len() <= 67 {
        assert(after =~= Seq::empty());
    }
    let osc = seq!['\u{1b}', intro] + body + after;
    assert(osc.skip(2) =~= body + after);
    lemma_osc_runs_out(body, after, 0);
    assert(osc.skip(515) =~= after);
    if osc.len() <= 515 {
        assert(after =~= Seq::empty());
    }
}

proof fn lemma_csi_runs_out(params: Seq<char>, after: Seq<char>, taken: nat)
    requires
        params.len() + taken == 65,
        params.len() > 0,
        forall|i: int| 0 <= i < params.len() ==> !('\u{40}' <= #[trigger] params[i] <= '\u{7e}'),
    ensures
        csi_length(params + after, taken) == params.len(),
    decreases params.len(),
{
    let t = params + after;
    assert(t[0] == params[0]);
    if taken < 64 {
        assert(t.skip(1) =~= params.skip(1) + after);
        lemma_csi_runs_out(params.skip(1), after, taken + 1);
    }
}

proof fn lemma_osc_runs_out(body: Seq<char>, after: Seq<char>, taken: nat)
    requires
        body.len() + taken == 513,
        body.len() > 0,
        forall|i: int|
            0 <= i < body.len() ==> #[trigger] body[i] != '\u{7}' && body[i] != '\u{1b}',
    ensures
        osc_length(body + after, taken, false) == body.len(),
    decreases body.len(),
{
    let t = body + after;
    assert(t[0] == body[0]);
    if taken < 512 {
        assert(t.skip(1) =~= body.skip(1) + after);
        lemma_osc_runs_out(body.skip(1), after, taken + 1);
    }
}

/// An escape before any other character goes with that character, and one at
/// the end of the text goes alone.
pub proof fn law_a_short_escape_goes_with_its_character(c: char, after: Seq<char>)
    requires
        c != '[' && c != ']' && c != 'P' && c != 'X' && c != '^' && c != '_',
    ensures
        stripped(seq!['\u{1b}', c] + after) == stripped(after),
        stripped(seq!['\u{1b}']) == Seq::<char>::empty(),
{
    let s = seq!['\u{1b}', c] + after;
    assert(s.skip(2) =~= after);
    if s.len() <= 2 {
        assert(after =~= Seq::empty());
    }
}

} // verus!
