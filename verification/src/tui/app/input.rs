//! Terminal input: raw bytes to keys. Bracketed pastes may span reads; mouse
//! reports ride the same escape sequences as the arrow keys.

use vstd::prelude::*;
use crate::text;

verus! {

/// Which way a wheel turned.
#[derive(Clone, Copy, Debug, PartialEq, Eq, Structural)]
pub enum Wheel {
    Up,
    Down,
}

/// A mouse report.
#[derive(Clone, Copy, Debug, PartialEq, Eq, Structural)]
pub enum MouseEvent {
    /// A press of the left button on a cell; cells count from one.
    Click { col: usize, row: usize },
    Wheel(Wheel),
}

/// One decoded terminal input.
#[derive(Debug, PartialEq)]
pub enum Key {
    Backspace,
    Ctrl(char),
    Delete,
    Down,
    Escape,
    Left,
    Mouse(MouseEvent),
    Paste(String),
    Return,
    Right,
    Tab,
    Text(String),
    Up,
    Ignored,
}

/// What a key says.
pub ghost enum KeyModel {
    Backspace,
    Ctrl(char),
    Delete,
    Down,
    Escape,
    Left,
    Mouse(MouseEvent),
    Paste(Seq<char>),
    Return,
    Right,
    Tab,
    Text(Seq<char>),
    Up,
    Ignored,
}

impl View for Key {
    type V = KeyModel;

    open spec fn view(&self) -> KeyModel {
        match *self {
            Key::Backspace => KeyModel::Backspace,
            Key::Ctrl(c) => KeyModel::Ctrl(c),
            Key::Delete => KeyModel::Delete,
            Key::Down => KeyModel::Down,
            Key::Escape => KeyModel::Escape,
            Key::Left => KeyModel::Left,
            Key::Mouse(event) => KeyModel::Mouse(event),
            Key::Paste(text) => KeyModel::Paste(text@),
            Key::Return => KeyModel::Return,
            Key::Right => KeyModel::Right,
            Key::Tab => KeyModel::Tab,
            Key::Text(text) => KeyModel::Text(text@),
            Key::Up => KeyModel::Up,
            Key::Ignored => KeyModel::Ignored,
        }
    }
}

/// What the keys of a sequence say.
pub open spec fn key_models(keys: Seq<Key>) -> Seq<KeyModel> {
    Seq::new(keys.len(), |i: int| keys[i]@)
}

proof fn lemma_key_push(keys: Seq<Key>, key: Key)
    ensures
        key_models(keys.push(key)) == key_models(keys).push(key@),
{
    assert(key_models(keys.push(key)) =~= key_models(keys).push(key@));
}

// ---------------------------------------------------------------------------
// Bytes to text
// ---------------------------------------------------------------------------

/// What `String::from_utf8_lossy` makes of bytes.
pub uninterp spec fn lossy_text(bytes: Seq<u8>) -> Seq<char>;

/// What bytes say as text: the characters that they encode; where they are not
/// valid UTF-8, replacement characters stand in.
pub open spec fn spelled(bytes: Seq<u8>) -> Seq<char> {
    if vstd::utf8::valid_utf8(bytes) {
        vstd::utf8::decode_utf8(bytes)
    } else {
        lossy_text(bytes)
    }
}

/// `String::from_utf8_lossy`: the characters that the bytes encode, where they
/// are valid UTF-8, so the encoding of a text gives back that text; else
/// replacement characters stand in. The result is a function of the bytes
/// alone.
#[verifier::external_body]
fn from_utf8_lossy(bytes: &[u8]) -> (r: String)
    ensures
        r@ == lossy_text(bytes@),
        vstd::utf8::valid_utf8(bytes@) ==> r@ == vstd::utf8::decode_utf8(bytes@),
        forall|s: Seq<char>| bytes@ == #[trigger] vstd::utf8::encode_utf8(s) ==> r@ == s,
{
    String::from_utf8_lossy(bytes).into_owned()
}

fn copy_range(bytes: &[u8], from: usize, to: usize) -> (r: Vec<u8>)
    requires
        from <= to <= bytes@.len(),
    ensures
        r@ == bytes@.subrange(from as int, to as int),
{
    let mut out: Vec<u8> = Vec::new();
    let mut i: usize = from;
    while i < to
        invariant
            from <= i <= to <= bytes@.len(),
            out@ == bytes@.subrange(from as int, i as int),
        decreases to - i,
    {
        out.push(bytes[i]);
        i = i + 1;
        assert(out@ =~= bytes@.subrange(from as int, i as int));
    }
    out
}

/// Whether `needle` stands at position `i`.
pub open spec fn stands_at(haystack: Seq<u8>, needle: Seq<u8>, i: int) -> bool {
    0 <= i && i + needle.len() <= haystack.len() && haystack.subrange(i, i + needle.len()) == needle
}

/// The first position from `from` on where `needle` stands.
pub open spec fn first_match(haystack: Seq<u8>, needle: Seq<u8>, from: int) -> Option<int>
    decreases haystack.len() + 1 - from,
{
    if from < 0 || from + needle.len() > haystack.len() {
        None
    } else if stands_at(haystack, needle, from) {
        Some(from)
    } else {
        first_match(haystack, needle, from + 1)
    }
}

fn matches_at(haystack: &[u8], needle: &[u8], i: usize) -> (r: bool)
    requires
        i + needle@.len() <= haystack@.len(),
    ensures
        r == stands_at(haystack@, needle@, i as int),
{
    let n: usize = haystack.len();
    let mut k: usize = 0;
    while k < needle.len()
        invariant
            k <= needle@.len(),
            n == haystack@.len(),
            i + needle@.len() <= n,
            forall|j: int| 0 <= j < k ==> haystack@[i + j] == needle@[j],
        decreases needle@.len() - k,
    {
        if haystack[i + k] != needle[k] {
            assert(haystack@.subrange(i as int, i + needle@.len())[k as int] != needle@[k as int]);
            return false;
        }
        k = k + 1;
    }
    assert(haystack@.subrange(i as int, i + needle@.len()) =~= needle@);
    true
}

/// The first position of `needle` in `haystack`.
pub fn find(haystack: &[u8], needle: &[u8]) -> (r: Option<usize>)
    ensures
        match r {
            Some(i) => first_match(haystack@, needle@, 0) == Some(i as int) && i + needle@.len()
                <= haystack@.len(),
            None => first_match(haystack@, needle@, 0) is None,
        },
{
    if needle.len() > haystack.len() {
        return None;
    }
    let last: usize = haystack.len() - needle.len();
    let mut i: usize = 0;
    while i <= last
        invariant
            last == haystack@.len() - needle@.len(),
            i <= last + 1,
            first_match(haystack@, needle@, 0) == first_match(haystack@, needle@, i as int),
        decreases last + 1 - i,
    {
        if matches_at(haystack, needle, i) {
            return Some(i);
        }
        if i == last {
            assert(first_match(haystack@, needle@, i + 1) is None);
            return None;
        }
        i = i + 1;
    }
    None
}

// ---------------------------------------------------------------------------
// Escape sequences
// ---------------------------------------------------------------------------

/// Whether a byte ends a control sequence.
pub open spec fn is_final(b: u8) -> bool {
    0x40 <= b <= 0x7e
}

/// The position behind the first final byte from `from` on, else the length.
pub open spec fn behind_final(chunk: Seq<u8>, from: int) -> int
    decreases chunk.len() - from,
{
    if from >= chunk.len() {
        chunk.len() as int
    } else if is_final(chunk[from]) {
        from + 1
    } else {
        behind_final(chunk, from + 1)
    }
}

/// The length of the escape sequence that a chunk begins with.
pub open spec fn sequence_length(chunk: Seq<u8>) -> int {
    if chunk[1] == 0x5b {
        behind_final(chunk, 2)
    } else if chunk[1] == 0x4f {
        if chunk.len() < 3 {
            chunk.len() as int
        } else {
            3
        }
    } else {
        2
    }
}

proof fn lemma_behind_final(chunk: Seq<u8>, from: int)
    requires
        0 <= from <= chunk.len(),
    ensures
        from <= behind_final(chunk, from) <= chunk.len(),
    decreases chunk.len() - from,
{
    if from < chunk.len() && !is_final(chunk[from]) {
        lemma_behind_final(chunk, from + 1);
    }
}

/// The value of decimal digits.
pub open spec fn digits_value(s: Seq<u8>) -> int
    decreases s.len(),
{
    if s.len() == 0 {
        0
    } else {
        digits_value(s.drop_last()) * 10 + (s.last() as int - 48)
    }
}

/// Whether bytes are one to nine decimal digits.
pub open spec fn is_number(s: Seq<u8>) -> bool {
    &&& 1 <= s.len() <= 9
    &&& forall|i: int| 0 <= i < s.len() ==> 48 <= #[trigger] s[i] <= 57
}

/// The number that decimal digits spell.
pub open spec fn number(s: Seq<u8>) -> Option<int> {
    if is_number(s) {
        Some(digits_value(s))
    } else {
        None
    }
}

/// A power of ten.
pub open spec fn ten_to(n: nat) -> int
    decreases n,
{
    if n == 0 {
        1
    } else {
        10 * ten_to((n - 1) as nat)
    }
}

proof fn lemma_digits_bound(s: Seq<u8>)
    requires
        s.len() <= 9,
        forall|i: int| 0 <= i < s.len() ==> 48 <= #[trigger] s[i] <= 57,
    ensures
        0 <= digits_value(s) < ten_to(s.len()),
    decreases s.len(),
{
    if s.len() > 0 {
        lemma_digits_bound(s.drop_last());
    }
}

proof fn lemma_ten_to(n: nat)
    requires
        n <= 9,
    ensures
        ten_to(n) <= 1_000_000_000,
{
    reveal_with_fuel(ten_to, 11);
}

fn parse_number(bytes: &[u8], from: usize, to: usize) -> (r: Option<usize>)
    requires
        from <= to <= bytes@.len(),
    ensures
        match r {
            Some(n) => number(bytes@.subrange(from as int, to as int)) == Some(n as int),
            None => number(bytes@.subrange(from as int, to as int)) is None,
        },
{
    let ghost s = bytes@.subrange(from as int, to as int);
    if to - from == 0 || to - from > 9 {
        return None;
    }
    let mut n: usize = 0;
    let mut i: usize = from;
    assert(s.take(0) =~= Seq::empty());
    while i < to
        invariant
            from <= i <= to <= bytes@.len(),
            1 <= to - from <= 9,
            s == bytes@.subrange(from as int, to as int),
            n == digits_value(s.take(i - from)),
            forall|k: int| 0 <= k < i - from ==> 48 <= #[trigger] s[k] <= 57,
        decreases to - i,
    {
        let b: u8 = bytes[i];
        if b < 48 || b > 57 {
            assert(!(48 <= s[i - from] <= 57));
            return None;
        }
        proof {
            assert(s.take(i + 1 - from).drop_last() =~= s.take(i - from));
            lemma_digits_bound(s.take(i + 1 - from));
            lemma_ten_to((i + 1 - from) as nat);
            lemma_digits_bound(s.take(i - from));
            lemma_ten_to((i - from) as nat);
        }
        n = n * 10 + (b - 48) as usize;
        i = i + 1;
    }
    assert(s.take(to - from) =~= s);
    Some(n)
}

/// The event that a button press on a cell makes.
pub open spec fn button_event(button: int, col: int, row: int) -> Option<MouseEvent> {
    if button == 0 {
        Some(MouseEvent::Click { col: col as usize, row: row as usize })
    } else if button == 64 {
        Some(MouseEvent::Wheel(Wheel::Up))
    } else if button == 65 {
        Some(MouseEvent::Wheel(Wheel::Down))
    } else {
        None
    }
}

/// The event of a mouse report: the left button pressed on a cell, or a wheel
/// notch. Releases and other buttons are no event.
pub open spec fn mouse_event(sequence: Seq<u8>) -> Option<MouseEvent> {
    let n = sequence.len() as int;
    if n < 4 || sequence[0] != 0x1b || sequence[1] != 0x5b || sequence[2] != 0x3c || sequence[n - 1]
        != 0x4d {
        None
    } else {
        match first_match(sequence, seq![0x3bu8], 3) {
            None => None,
            Some(i) => match first_match(sequence, seq![0x3bu8], i + 1) {
                None => None,
                Some(j) => match (
                    number(sequence.subrange(3, i)),
                    number(sequence.subrange(i + 1, j)),
                    number(sequence.subrange(j + 1, n - 1)),
                ) {
                    (Some(button), Some(col), Some(row)) => button_event(button, col, row),
                    _ => None,
                },
            },
        }
    }
}

fn find_semicolon(bytes: &[u8], from: usize) -> (r: Option<usize>)
    requires
        from <= bytes@.len(),
    ensures
        match r {
            Some(i) => first_match(bytes@, seq![0x3bu8], from as int) == Some(i as int) && from <= i
                < bytes@.len() && bytes@[i as int] == 0x3b,
            None => first_match(bytes@, seq![0x3bu8], from as int) is None,
        },
{
    let ghost needle = seq![0x3bu8];
    let mut i: usize = from;
    while i < bytes.len()
        invariant
            from <= i <= bytes@.len(),
            needle == seq![0x3bu8],
            first_match(bytes@, needle, from as int) == first_match(bytes@, needle, i as int),
        decreases bytes@.len() - i,
    {
        if bytes[i] == 0x3b {
            assert(bytes@.subrange(i as int, i + 1) =~= needle);
            return Some(i);
        }
        assert(bytes@.subrange(i as int, i + 1)[0] != needle[0]);
        i = i + 1;
    }
    None
}

/// Parses a mouse report.
pub fn parse_mouse_event(sequence: &[u8]) -> (r: Option<MouseEvent>)
    ensures
        r == mouse_event(sequence@),
{
    let n: usize = sequence.len();
    if n < 4 || sequence[0] != 0x1b || sequence[1] != 0x5b || sequence[2] != 0x3c || sequence[n - 1]
        != 0x4d {
        return None;
    }
    let i: usize = match find_semicolon(sequence, 3) {
        Some(i) => i,
        None => {
            return None;
        },
    };
    let j: usize = match find_semicolon(sequence, i + 1) {
        Some(j) => j,
        None => {
            return None;
        },
    };
    // The final byte is no separator, so both numbers end before it.
    let button: usize = match parse_number(sequence, 3, i) {
        Some(b) => b,
        None => {
            return None;
        },
    };
    let col: usize = match parse_number(sequence, i + 1, j) {
        Some(c) => c,
        None => {
            return None;
        },
    };
    let row: usize = match parse_number(sequence, j + 1, n - 1) {
        Some(r) => r,
        None => {
            return None;
        },
    };
    if button == 0 {
        Some(MouseEvent::Click { col, row })
    } else if button == 64 {
        Some(MouseEvent::Wheel(Wheel::Up))
    } else if button == 65 {
        Some(MouseEvent::Wheel(Wheel::Down))
    } else {
        None
    }
}

/// The key that an escape sequence stands for.
pub open spec fn sequence_key(sequence: Seq<u8>) -> KeyModel {
    match mouse_event(sequence) {
        Some(event) => KeyModel::Mouse(event),
        None => if sequence.len() == 3 && (sequence[1] == 0x5b || sequence[1] == 0x4f) {
            if sequence[2] == 0x41 {
                KeyModel::Up
            } else if sequence[2] == 0x42 {
                KeyModel::Down
            } else if sequence[2] == 0x43 {
                KeyModel::Right
            } else if sequence[2] == 0x44 {
                KeyModel::Left
            } else {
                KeyModel::Ignored
            }
        } else if sequence.len() == 4 && sequence[1] == 0x5b && sequence[2] == 0x33 && sequence[3]
            == 0x7e {
            KeyModel::Delete
        } else {
            KeyModel::Ignored
        },
    }
}

fn key_of_sequence(sequence: &[u8]) -> (r: Key)
    requires
        sequence@.len() >= 2,
        sequence@[0] == 0x1b,
    ensures
        r@ == sequence_key(sequence@),
{
    match parse_mouse_event(sequence) {
        Some(event) => {
            return Key::Mouse(event);
        },
        None => {},
    }
    let n: usize = sequence.len();
    if n == 3 && (sequence[1] == 0x5b || sequence[1] == 0x4f) {
        if sequence[2] == 0x41 {
            Key::Up
        } else if sequence[2] == 0x42 {
            Key::Down
        } else if sequence[2] == 0x43 {
            Key::Right
        } else if sequence[2] == 0x44 {
            Key::Left
        } else {
            Key::Ignored
        }
    } else if n == 4 && sequence[1] == 0x5b && sequence[2] == 0x33 && sequence[3] == 0x7e {
        Key::Delete
    } else {
        Key::Ignored
    }
}

/// The key that a chunk without a leading escape stands for: a lone byte is a
/// key, a lone character is text, and anything longer is a paste.
pub open spec fn plain_key(chunk: Seq<u8>) -> KeyModel {
    if chunk.len() == 1 {
        let b = chunk[0];
        if b == 0x0d || b == 0x0a {
            KeyModel::Return
        } else if b == 0x09 {
            KeyModel::Tab
        } else if b == 0x7f || b == 0x08 {
            KeyModel::Backspace
        } else if 0x01 <= b <= 0x1a {
            KeyModel::Ctrl((b as int - 1 + 'a' as int) as char)
        } else if b < 0x20 {
            KeyModel::Ignored
        } else {
            KeyModel::Text(spelled(chunk))
        }
    } else if spelled(chunk).len() == 1 {
        KeyModel::Text(spelled(chunk))
    } else {
        KeyModel::Paste(spelled(chunk))
    }
}

fn key_of_plain(chunk: &[u8]) -> (r: Key)
    requires
        chunk@.len() >= 1,
    ensures
        r@ == plain_key(chunk@),
{
    if chunk.len() == 1 {
        let b: u8 = chunk[0];
        if b == 0x0d || b == 0x0a {
            Key::Return
        } else if b == 0x09 {
            Key::Tab
        } else if b == 0x7f || b == 0x08 {
            Key::Backspace
        } else if 0x01 <= b && b <= 0x1a {
            Key::Ctrl((b - 1 + 97u8) as char)
        } else if b < 0x20 {
            Key::Ignored
        } else {
            Key::Text(from_utf8_lossy(chunk))
        }
    } else {
        let text = from_utf8_lossy(chunk);
        if text.as_str().unicode_len() == 1 {
            Key::Text(text)
        } else {
            Key::Paste(text)
        }
    }
}

/// The keys of a chunk outside a bracketed paste: each escape sequence is a
/// key, and what follows the last one is one more.
pub open spec fn plain_keys(chunk: Seq<u8>) -> Seq<KeyModel>
    decreases chunk.len(),
{
    if chunk.len() == 0 {
        Seq::empty()
    } else if chunk[0] != 0x1b {
        seq![plain_key(chunk)]
    } else if chunk.len() == 1 {
        seq![KeyModel::Escape]
    } else {
        let n = sequence_length(chunk);
        if 2 <= n <= chunk.len() {
            seq![sequence_key(chunk.take(n))] + plain_keys(chunk.skip(n))
        } else {
            Seq::empty()
        }
    }
}

fn sequence_end(chunk: &[u8], from: usize) -> (r: usize)
    requires
        from + 2 <= chunk@.len(),
    ensures
        r == from + sequence_length(chunk@.skip(from as int)),
        from + 2 <= r <= chunk@.len(),
{
    let ghost rest = chunk@.skip(from as int);
    let n: usize = chunk.len();
    let kind: u8 = chunk[from + 1];
    assert(kind == rest[1]);
    if kind == 0x5b {
        let mut i: usize = from + 2;
        while i < chunk.len()
            invariant
                from + 2 <= i <= chunk@.len(),
                rest == chunk@.skip(from as int),
                rest[1] == 0x5b,
                behind_final(rest, 2) == behind_final(rest, i - from),
            decreases chunk@.len() - i,
        {
            let b: u8 = chunk[i];
            assert(b == rest[i - from]);
            if 0x40 <= b && b <= 0x7e {
                return i + 1;
            }
            i = i + 1;
        }
        i
    } else if kind == 0x4f {
        if n - from < 3 {
            n
        } else {
            from + 3
        }
    } else {
        from + 2
    }
}

/// Decodes a chunk that holds no bracketed paste.
pub fn decode_plain(chunk: &[u8]) -> (r: Vec<Key>)
    ensures
        key_models(r@) == plain_keys(chunk@),
{
    let mut keys: Vec<Key> = Vec::new();
    let mut from: usize = 0;
    assert(chunk@.skip(0) =~= chunk@);
    assert(key_models(keys@) =~= Seq::empty());
    while from < chunk.len()
        invariant
            from <= chunk@.len(),
            key_models(keys@) + plain_keys(chunk@.skip(from as int)) == plain_keys(chunk@),
        decreases chunk@.len() - from,
    {
        let ghost rest = chunk@.skip(from as int);
        let ghost before = key_models(keys@);
        let ghost old_keys = keys@;
        assert(rest[0] == chunk@[from as int]);
        if chunk[from] != 0x1b {
            let tail = copy_range(chunk, from, chunk.len());
            assert(tail@ =~= rest);
            keys.push(key_of_plain(&tail));
            proof {
                lemma_key_push(old_keys, keys@.last());
            }
            assert(key_models(keys@) =~= before + seq![plain_key(rest)]);
            return keys;
        }
        if chunk.len() - from == 1 {
            keys.push(Key::Escape);
            proof {
                lemma_key_push(old_keys, keys@.last());
            }
            assert(key_models(keys@) =~= before + seq![KeyModel::Escape]);
            return keys;
        }
        let end: usize = sequence_end(chunk, from);
        let sequence = copy_range(chunk, from, end);
        let ghost n = end - from;
        assert(sequence@ =~= rest.take(n));
        keys.push(key_of_sequence(&sequence));
        proof {
            lemma_key_push(old_keys, keys@.last());
            assert(rest.skip(n) =~= chunk@.skip(end as int));
            assert(key_models(keys@) + plain_keys(chunk@.skip(end as int)) =~= before + (
            seq![sequence_key(rest.take(n))] + plain_keys(rest.skip(n))));
        }
        from = end;
    }
    assert(key_models(keys@) + plain_keys(chunk@.skip(from as int)) =~= key_models(keys@));
    keys
}

// ---------------------------------------------------------------------------
// Bracketed pastes
// ---------------------------------------------------------------------------

/// What opens a bracketed paste.
pub open spec fn paste_start() -> Seq<u8> {
    seq![0x1bu8, 0x5b, 0x32, 0x30, 0x30, 0x7e]
}

/// What closes a bracketed paste.
pub open spec fn paste_end() -> Seq<u8> {
    seq![0x1bu8, 0x5b, 0x32, 0x30, 0x31, 0x7e]
}

/// The keys of a chunk, and the paste that is still open behind it. `paste` is
/// what an open paste has gathered so far.
pub open spec fn decoded(chunk: Seq<u8>, paste: Option<Seq<u8>>) -> (
    Seq<KeyModel>,
    Option<Seq<u8>>,
)
    decreases chunk.len(),
{
    match paste {
        Some(buffer) => match first_match(chunk, paste_end(), 0) {
            Some(end) => if 0 <= end && end + 6 <= chunk.len() {
                let after = decoded(chunk.skip(end + 6), None);
                (
                    seq![KeyModel::Paste(spelled(buffer + chunk.take(end)))] + after.0,
                    after.1,
                )
            } else {
                (Seq::empty(), None)
            },
            None => (Seq::empty(), Some(buffer + chunk)),
        },
        None => match first_match(chunk, paste_start(), 0) {
            Some(start) => if 0 <= start && start + 6 <= chunk.len() {
                let after = decoded(chunk.skip(start + 6), Some(Seq::empty()));
                (plain_keys(chunk.take(start)) + after.0, after.1)
            } else {
                (Seq::empty(), None)
            },
            None => (plain_keys(chunk), None),
        },
    }
}

/// What an open paste has gathered.
pub open spec fn buffer_model(paste: Option<Vec<u8>>) -> Option<Seq<u8>> {
    match paste {
        Some(buffer) => Some(buffer@),
        None => None,
    }
}

fn start_marker() -> (r: Vec<u8>)
    ensures
        r@ == paste_start(),
{
    vec![0x1bu8, 0x5b, 0x32, 0x30, 0x30, 0x7e]
}

fn end_marker() -> (r: Vec<u8>)
    ensures
        r@ == paste_end(),
{
    vec![0x1bu8, 0x5b, 0x32, 0x30, 0x31, 0x7e]
}

/// Splits a chunk of terminal input into keys. Pastes may span chunks:
/// `paste_buffer` holds what an open one has gathered.
pub fn decode_input(chunk: &[u8], paste_buffer: &mut Option<Vec<u8>>) -> (r: Vec<Key>)
    ensures
        key_models(r@) == decoded(chunk@, buffer_model(*old(paste_buffer))).0,
        buffer_model(*final(paste_buffer)) == decoded(
            chunk@,
            buffer_model(*old(paste_buffer)),
        ).1,
{
    let start_mark = start_marker();
    let end_mark = end_marker();
    let ghost want = decoded(chunk@, buffer_model(*old(paste_buffer)));
    let mut keys: Vec<Key> = Vec::new();
    let mut rest: Vec<u8> = copy_range(chunk, 0, chunk.len());
    let mut open: Option<Vec<u8>> = paste_buffer.take();
    assert(rest@ =~= chunk@);
    assert(key_models(keys@) =~= Seq::empty());
    loop
        invariant
            start_mark@ == paste_start(),
            end_mark@ == paste_end(),
            paste_start().len() == 6,
            paste_end().len() == 6,
            want == decoded(chunk@, buffer_model(*old(paste_buffer))),
            key_models(keys@) + decoded(rest@, buffer_model(open)).0 == want.0,
            decoded(rest@, buffer_model(open)).1 == want.1,
        decreases rest@.len(),
    {
        let ghost before = key_models(keys@);
        let ghost old_keys = keys@;
        let ghost this = rest@;
        let size: usize = rest.len();
        match open {
            Some(mut buffer) => {
                let ghost gathered = buffer@;
                match find(&rest, &end_mark) {
                    Some(end) => {
                        let mut head = copy_range(&rest, 0, end);
                        assert(head@ =~= this.take(end as int));
                        buffer.append(&mut head);
                        keys.push(Key::Paste(from_utf8_lossy(&buffer)));
                        let tail = copy_range(&rest, end + 6, size);
                        proof {
                            lemma_key_push(old_keys, keys@.last());
                            assert(tail@ =~= this.skip(end + 6));
                            assert(key_models(keys@) + decoded(tail@, None).0 =~= before + (
                            seq![KeyModel::Paste(spelled(gathered + this.take(end as int)))]
                                + decoded(tail@, None).0));
                        }
                        rest = tail;
                        open = None;
                    },
                    None => {
                        buffer.append(&mut rest);
                        *paste_buffer = Some(buffer);
                        assert(key_models(keys@) =~= want.0);
                        return keys;
                    },
                }
            },
            None => {
                match find(&rest, &start_mark) {
                    Some(start) => {
                        let head = copy_range(&rest, 0, start);
                        assert(head@ =~= this.take(start as int));
                        let mut more = decode_plain(&head);
                        let ghost added = more@;
                        keys.append(&mut more);
                        let tail = copy_range(&rest, start + 6, size);
                        let empty: Vec<u8> = Vec::new();
                        proof {
                            assert(tail@ =~= this.skip(start + 6));
                            assert(key_models(keys@) =~= before + key_models(added));
                            assert(empty@ =~= Seq::empty());
                            let after = decoded(tail@, Some(Seq::empty())).0;
                            assert(key_models(keys@) + after =~= before + (plain_keys(
                                this.take(start as int),
                            ) + after));
                        }
                        rest = tail;
                        open = Some(empty);
                    },
                    None => {
                        let mut more = decode_plain(&rest);
                        let ghost added = more@;
                        keys.append(&mut more);
                        *paste_buffer = None;
                        assert(key_models(keys@) =~= before + key_models(added));
                        return keys;
                    },
                }
            },
        }
    }
}

// ---------------------------------------------------------------------------
// Laws
// ---------------------------------------------------------------------------

/// A bracketed paste that spans two reads comes out whole: the first read
/// yields no key, the second the paste and nothing else.
pub proof fn law_a_paste_may_span_reads(head: Seq<u8>, tail: Seq<u8>)
    requires
        first_match(head, paste_end(), 0) is None,
        first_match(tail + paste_end(), paste_end(), 0) == Some(tail.len() as int),
    ensures
        decoded(paste_start() + head, None) == (Seq::<KeyModel>::empty(), Some(head)),
        decoded(tail + paste_end(), Some(head)) == (
            seq![KeyModel::Paste(spelled(head + tail))],
            None::<Seq<u8>>,
        ),
{
    let first = paste_start() + head;
    assert(first.subrange(0, 6) =~= paste_start());
    assert(stands_at(first, paste_start(), 0));
    assert(first.skip(6) =~= head);
    assert(first.take(0) =~= Seq::empty());
    assert(Seq::<u8>::empty() + head =~= head);
    assert(decoded(head, Some(Seq::empty())) == (Seq::<KeyModel>::empty(), Some(head)));
    assert(plain_keys(first.take(0)) + Seq::<KeyModel>::empty() =~= Seq::empty());
    let second = tail + paste_end();
    let n = tail.len() as int;
    assert(second.take(n) =~= tail);
    assert(second.skip(n + 6) =~= Seq::empty());
    assert(first_match(Seq::<u8>::empty(), paste_start(), 0) is None);
    assert(decoded(Seq::empty(), None) == (Seq::<KeyModel>::empty(), None::<Seq<u8>>));
    assert(seq![KeyModel::Paste(spelled(head + tail))] + Seq::<KeyModel>::empty() =~= seq![
        KeyModel::Paste(spelled(head + tail)),
    ]);
}

/// Text is read as it was typed: a character that is no control is that text,
/// and a longer text is a paste of it.
pub proof fn law_text_is_read_as_it_was_typed(s: Seq<char>)
    ensures
        spelled(vstd::utf8::encode_utf8(s)) == s,
        s.len() == 1 && !text::is_ctrl(s[0]) ==> plain_key(vstd::utf8::encode_utf8(s))
            == KeyModel::Text(s),
        s.len() > 1 ==> plain_key(vstd::utf8::encode_utf8(s)) == KeyModel::Paste(s),
{
    vstd::utf8::encode_utf8_valid_utf8(s);
    vstd::utf8::encode_utf8_decode_utf8(s);
    lemma_encoding_is_no_shorter(s);
    if s.len() == 1 {
        let c = s[0] as u32;
        assert(vstd::utf8::encode_utf8(s.drop_first()) =~= Seq::empty());
        assert(vstd::utf8::encode_utf8(s) =~= vstd::utf8::encode_scalar(c));
        if c <= 0x7f {
            assert((c & 0x7f) as u8 == c) by (bit_vector)
                requires
                    c <= 0x7f,
            ;
            assert(vstd::utf8::encode_utf8(s)[0] == c);
        }
    }
}

proof fn lemma_encoding_is_no_shorter(s: Seq<char>)
    ensures
        vstd::utf8::encode_utf8(s).len() >= s.len(),
    decreases s.len(),
{
    if s.len() > 0 {
        lemma_encoding_is_no_shorter(s.drop_first());
    }
}

/// Outside a paste no input is swallowed: a read that holds a byte yields a
/// key.
pub proof fn law_plain_input_is_never_swallowed(chunk: Seq<u8>)
    requires
        chunk.len() > 0,
    ensures
        plain_keys(chunk).len() > 0,
{
    if chunk[0] == 0x1b && chunk.len() >= 2 {
        lemma_behind_final(chunk, 2);
    }
}

// ---------------------------------------------------------------------------
// Reads that cut a character
// ---------------------------------------------------------------------------

/// How many bytes of an invalid text are at fault: none where it only ends too
/// early.
pub uninterp spec fn utf8_fault_length(bytes: Seq<u8>) -> Option<usize>;

/// The longest beginning of bytes that is valid UTF-8.
pub open spec fn is_valid_beginning(bytes: Seq<u8>, n: int) -> bool {
    &&& 0 <= n <= bytes.len()
    &&& vstd::utf8::valid_utf8(bytes.take(n))
    &&& forall|j: int|
        n < j <= bytes.len() ==> !#[trigger] vstd::utf8::valid_utf8(bytes.take(j))
}

/// `std::str::from_utf8`: nothing where the bytes are valid UTF-8, else how far
/// they are, and how many bytes are at fault. The latter is a function of the
/// bytes alone; where it is none, the bytes end within a character, one to
/// three bytes after the last whole one.
#[verifier::external_body]
fn utf8_fault(bytes: &[u8]) -> (r: Option<(usize, Option<usize>)>)
    ensures
        r is None <==> vstd::utf8::valid_utf8(bytes@),
        r matches Some((n, fault)) ==> is_valid_beginning(bytes@, n as int) && fault
            == utf8_fault_length(bytes@),
        r matches Some((n, fault)) ==> fault is None ==> 1 <= bytes@.len() - n <= 3,
{
    match std::str::from_utf8(bytes) {
        Ok(_) => None,
        Err(error) => Some((error.valid_up_to(), error.error_len())),
    }
}

/// How many bytes make whole characters: all of them, unless the last character
/// is cut.
pub open spec fn is_whole(bytes: Seq<u8>, n: int) -> bool {
    if vstd::utf8::valid_utf8(bytes) || utf8_fault_length(bytes) is Some {
        n == bytes.len()
    } else {
        is_valid_beginning(bytes, n)
    }
}

/// Takes the bytes that make whole characters; a character that the read cut
/// waits for its tail. No byte is lost, and never more than three wait.
pub fn take_whole(pending: &mut Vec<u8>) -> (r: Vec<u8>)
    ensures
        is_whole(old(pending)@, r@.len() as int),
        r@ + final(pending)@ == old(pending)@,
        final(pending)@.len() <= 3,
{
    let n: usize = match utf8_fault(pending.as_slice()) {
        None => pending.len(),
        Some((valid, fault)) => match fault {
            None => valid,
            Some(_) => pending.len(),
        },
    };
    let head = copy_range(pending.as_slice(), 0, n);
    let tail = copy_range(pending.as_slice(), n, pending.len());
    assert(head@ + tail@ =~= pending@);
    *pending = tail;
    head
}

/// What an arrow key sends, either way a terminal may spell it: escape and a
/// bracket, or escape and a capital O, then A for up, B for down, C for right
/// and D for left. Each is read as that key, any other letter as none, and
/// what follows in the read as if it had come alone.
pub proof fn law_arrow_keys_point_their_way(intro: u8, other: u8, rest: Seq<u8>)
    requires
        intro == 0x5b || intro == 0x4f,
        0x40 <= other <= 0x7e,
        !(0x41 <= other <= 0x44),
    ensures
        plain_keys(seq![0x1bu8, intro, 0x41u8] + rest) == seq![KeyModel::Up] + plain_keys(rest),
        plain_keys(seq![0x1bu8, intro, 0x42u8] + rest) == seq![KeyModel::Down] + plain_keys(rest),
        plain_keys(seq![0x1bu8, intro, 0x43u8] + rest) == seq![KeyModel::Right] + plain_keys(rest),
        plain_keys(seq![0x1bu8, intro, 0x44u8] + rest) == seq![KeyModel::Left] + plain_keys(rest),
        plain_keys(seq![0x1bu8, intro, other] + rest) == seq![KeyModel::Ignored] + plain_keys(rest),
{
    lemma_short_sequence(intro, 0x41, rest);
    lemma_short_sequence(intro, 0x42, rest);
    lemma_short_sequence(intro, 0x43, rest);
    lemma_short_sequence(intro, 0x44, rest);
    lemma_short_sequence(intro, other, rest);
}

proof fn lemma_short_sequence(intro: u8, b: u8, rest: Seq<u8>)
    requires
        intro == 0x5b || intro == 0x4f,
        0x40 <= b <= 0x7e,
    ensures
        plain_keys(seq![0x1bu8, intro, b] + rest) == seq![
            sequence_key(seq![0x1bu8, intro, b]),
        ] + plain_keys(rest),
        mouse_event(seq![0x1bu8, intro, b]) is None,
{
    let chunk = seq![0x1bu8, intro, b] + rest;
    assert(behind_final(chunk, 2) == 3);
    assert(chunk.take(3) =~= seq![0x1bu8, intro, b]);
    assert(chunk.skip(3) =~= rest);
}

/// An escape sequence of parameters and a final byte is one key, and what
/// follows it is read as if it had come alone. The delete key is such a
/// sequence.
pub proof fn law_a_sequence_is_one_key(params: Seq<u8>, last: u8, rest: Seq<u8>)
    requires
        forall|i: int| 0 <= i < params.len() ==> !(0x40 <= #[trigger] params[i] <= 0x7e),
        0x40 <= last <= 0x7e,
    ensures
        plain_keys(seq![0x1bu8, 0x5bu8] + params + seq![last] + rest) == seq![
            sequence_key(seq![0x1bu8, 0x5bu8] + params + seq![last]),
        ] + plain_keys(rest),
        params == seq![0x33u8] && last == 0x7e ==> sequence_key(
            seq![0x1bu8, 0x5bu8] + params + seq![last],
        ) == KeyModel::Delete,
        params.len() > 0 && params[0] != 0x3c && !(params == seq![0x33u8] && last == 0x7e)
            ==> sequence_key(seq![0x1bu8, 0x5bu8] + params + seq![last]) == KeyModel::Ignored,
{
    let sequence = seq![0x1bu8, 0x5bu8] + params + seq![last];
    let chunk = sequence + rest;
    lemma_final_found(chunk, 2, 2 + params.len() as int);
    assert(chunk.take(3 + params.len() as int) =~= sequence);
    assert(chunk.skip(3 + params.len() as int) =~= rest);
    if params.len() > 0 {
        assert(sequence[2] == params[0]);
        assert(sequence.len() == 4 ==> params =~= seq![sequence[2]] && sequence[3] == last);
    }
}

proof fn lemma_final_found(chunk: Seq<u8>, from: int, at: int)
    requires
        0 <= from <= at < chunk.len(),
        forall|i: int| from <= i < at ==> !is_final(#[trigger] chunk[i]),
        is_final(chunk[at]),
    ensures
        behind_final(chunk, from) == at + 1,
    decreases at - from,
{
    if from < at {
        assert(!is_final(chunk[from]));
        lemma_final_found(chunk, from + 1, at);
    }
}

/// An escape before any other byte is a key without a meaning here, two bytes
/// long; an escape alone is the escape key.
pub proof fn law_other_escapes_mean_nothing(b: u8, rest: Seq<u8>)
    requires
        b != 0x5b,
        b != 0x4f,
    ensures
        plain_keys(seq![0x1bu8, b] + rest) == seq![KeyModel::Ignored] + plain_keys(rest),
        plain_keys(seq![0x1bu8]) == seq![KeyModel::Escape],
{
    let chunk = seq![0x1bu8, b] + rest;
    assert(chunk.take(2) =~= seq![0x1bu8, b]);
    assert(chunk.skip(2) =~= rest);
}

/// What a lone byte says: both line ends are the return key, both erasing
/// controls the backspace key, and the controls with a letter are that letter
/// held with the control key.
pub proof fn law_a_lone_byte_is_its_key(b: u8)
    ensures
        ({
            let keys = plain_keys(seq![b]);
            &&& b == 0x0d || b == 0x0a ==> keys == seq![KeyModel::Return]
            &&& b == 0x09 ==> keys == seq![KeyModel::Tab]
            &&& b == 0x7f || b == 0x08 ==> keys == seq![KeyModel::Backspace]
            &&& 1 <= b <= 26 && b != 0x0d && b != 0x0a && b != 0x09 && b != 0x08 ==> keys == seq![
                KeyModel::Ctrl("abcdefghijklmnopqrstuvwxyz"@[b - 1]),
            ]
            &&& b == 0 || 0x1c <= b <= 0x1f ==> keys == seq![KeyModel::Ignored]
            &&& b == 0x1b ==> keys == seq![KeyModel::Escape]
        }),
{
    reveal_strlit("abcdefghijklmnopqrstuvwxyz");
}

/// Where a marker is found: at the first place where it stands, and nowhere
/// exactly where it stands nowhere.
pub proof fn law_a_marker_is_found_where_it_first_stands(
    haystack: Seq<u8>,
    needle: Seq<u8>,
    from: int,
    at: int,
)
    requires
        0 <= from <= at,
        at + needle.len() <= haystack.len(),
        haystack.subrange(at, at + needle.len()) == needle,
        forall|i: int|
            from <= i < at ==> #[trigger] haystack.subrange(i, i + needle.len()) != needle,
    ensures
        first_match(haystack, needle, from) == Some(at),
    decreases at - from,
{
    if from < at {
        assert(haystack.subrange(from, from + needle.len()) != needle);
        law_a_marker_is_found_where_it_first_stands(haystack, needle, from + 1, at);
    }
}

proof fn lemma_no_match(haystack: Seq<u8>, needle: Seq<u8>, from: int)
    requires
        0 <= from,
        forall|i: int|
            from <= i && i + needle.len() <= haystack.len() ==> #[trigger] haystack.subrange(
                i,
                i + needle.len(),
            ) != needle,
    ensures
        first_match(haystack, needle, from) is None,
    decreases haystack.len() + 1 - from,
{
    if from + needle.len() <= haystack.len() {
        assert(haystack.subrange(from, from + needle.len()) != needle);
        lemma_no_match(haystack, needle, from + 1);
    }
}

/// A mouse report is read from its three numbers: the left button on a cell is
/// a click on that cell, buttons sixty-four and sixty-five are the wheel. A
/// release and any other button are no event.
pub proof fn law_a_mouse_report_names_its_cell(
    button: Seq<u8>,
    col: Seq<u8>,
    row: Seq<u8>,
    last: u8,
)
    requires
        1 <= button.len() <= 9,
        1 <= col.len() <= 9,
        1 <= row.len() <= 9,
        forall|i: int| 0 <= i < button.len() ==> 0x30 <= #[trigger] button[i] <= 0x39,
        forall|i: int| 0 <= i < col.len() ==> 0x30 <= #[trigger] col[i] <= 0x39,
        forall|i: int| 0 <= i < row.len() ==> 0x30 <= #[trigger] row[i] <= 0x39,
        last == 0x4d || last == 0x6d,
    ensures
        ({
            let report = seq![0x1bu8, 0x5bu8, 0x3cu8] + button + seq![0x3bu8] + col + seq![0x3bu8]
                + row + seq![last];
            let b = digits_value(button);
            &&& last == 0x4d && b == 0 ==> sequence_key(report) == KeyModel::Mouse(
                MouseEvent::Click {
                    col: digits_value(col) as usize,
                    row: digits_value(row) as usize,
                },
            )
            &&& last == 0x4d && b == 64 ==> sequence_key(report) == KeyModel::Mouse(
                MouseEvent::Wheel(Wheel::Up),
            )
            &&& last == 0x4d && b == 65 ==> sequence_key(report) == KeyModel::Mouse(
                MouseEvent::Wheel(Wheel::Down),
            )
            &&& last == 0x6d || (b != 0 && b != 64 && b != 65) ==> sequence_key(report)
                == KeyModel::Ignored
        }),
{
    let report = seq![0x1bu8, 0x5bu8, 0x3cu8] + button + seq![0x3bu8] + col + seq![0x3bu8] + row
        + seq![last];
    let n = report.len() as int;
    let i = 3 + button.len() as int;
    let j = i + 1 + col.len() as int;
    let semi = seq![0x3bu8];
    assert(report[n - 1] == last);
    assert(report.len() > 4);
    assert(report.subrange(i, i + 1) =~= semi);
    assert forall|k: int| 3 <= k < i implies #[trigger] report.subrange(k, k + semi.len())
        != semi by {
        assert(report.subrange(k, k + 1)[0] == button[k - 3]);
    }
    law_a_marker_is_found_where_it_first_stands(report, semi, 3, i);
    assert(report.subrange(j, j + 1) =~= semi);
    assert forall|k: int| i + 1 <= k < j implies #[trigger] report.subrange(k, k + semi.len())
        != semi by {
        assert(report.subrange(k, k + 1)[0] == col[k - i - 1]);
    }
    law_a_marker_is_found_where_it_first_stands(report, semi, i + 1, j);
    assert(report.subrange(3, i) =~= button);
    assert(report.subrange(i + 1, j) =~= col);
    assert(report.subrange(j + 1, n - 1) =~= row);
}

/// Digits count by tens, the last of them ones.
pub proof fn law_report_digits_count_by_tens(s: Seq<u8>, d: u8)
    requires
        d < 10,
    ensures
        digits_value(s.push((0x30 + d) as u8)) == 10 * digits_value(s) + d,
        digits_value(seq![(0x30 + d) as u8]) == d,
{
    let b = (0x30 + d) as u8;
    assert(s.push(b).drop_last() =~= s);
    assert(seq![b].drop_last() =~= Seq::empty());
    assert(digits_value(Seq::empty()) == 0);
}

/// A bracketed paste is one key, with everything that was pasted and nothing
/// of the brackets; what comes before and after it is read as without it.
pub proof fn law_a_paste_is_one_key(before: Seq<u8>, pasted: Seq<u8>, after: Seq<u8>)
    requires
        ({
            let open = seq![0x1bu8, 0x5bu8, 0x32u8, 0x30u8, 0x30u8, 0x7eu8];
            let close = seq![0x1bu8, 0x5bu8, 0x32u8, 0x30u8, 0x31u8, 0x7eu8];
            &&& forall|i: int|
                0 <= i < before.len() ==> #[trigger] (before + open).subrange(i, i + 6) != open
            &&& forall|i: int|
                0 <= i < pasted.len() ==> #[trigger] (pasted + close).subrange(i, i + 6) != close
        }),
    ensures
        ({
            let open = seq![0x1bu8, 0x5bu8, 0x32u8, 0x30u8, 0x30u8, 0x7eu8];
            let close = seq![0x1bu8, 0x5bu8, 0x32u8, 0x30u8, 0x31u8, 0x7eu8];
            &&& decoded(before + open + pasted + close + after, None) == (
                plain_keys(before) + seq![KeyModel::Paste(spelled(pasted))] + decoded(
                    after,
                    None,
                ).0,
                decoded(after, None).1,
            )
        }),
{
    let open = seq![0x1bu8, 0x5bu8, 0x32u8, 0x30u8, 0x30u8, 0x7eu8];
    let close = seq![0x1bu8, 0x5bu8, 0x32u8, 0x30u8, 0x31u8, 0x7eu8];
    let inner = pasted + close + after;
    let chunk = before + open + pasted + close + after;
    let n = before.len() as int;
    let m = pasted.len() as int;
    assert(chunk =~= before + open + inner);
    assert(chunk.subrange(n, n + 6) =~= open);
    assert forall|i: int| 0 <= i < n implies #[trigger] chunk.subrange(i, i + open.len())
        != open by {
        assert(chunk.subrange(i, i + 6) =~= (before + open).subrange(i, i + 6));
    }
    law_a_marker_is_found_where_it_first_stands(chunk, open, 0, n);
    assert(chunk.take(n) =~= before);
    assert(chunk.skip(n + 6) =~= inner);
    assert(inner.subrange(m, m + 6) =~= close);
    assert forall|i: int| 0 <= i < m implies #[trigger] inner.subrange(i, i + close.len())
        != close by {
        assert(inner.subrange(i, i + 6) =~= (pasted + close).subrange(i, i + 6));
    }
    law_a_marker_is_found_where_it_first_stands(inner, close, 0, m);
    assert(inner.take(m) =~= pasted);
    assert(inner.skip(m + 6) =~= after);
    assert(Seq::<u8>::empty() + pasted =~= pasted);
    let keys = seq![KeyModel::Paste(spelled(pasted))];
    assert(decoded(inner, Some(Seq::empty())) == (
        keys + decoded(after, None).0,
        decoded(after, None).1,
    ));
    assert(plain_keys(before) + (keys + decoded(after, None).0) =~= plain_keys(before) + keys
        + decoded(after, None).0);
}

/// A read without a paste is read as plain keys, and leaves no paste open. A
/// read inside a paste that does not end there yields no key and is kept whole.
pub proof fn law_reads_outside_a_paste_are_plain(chunk: Seq<u8>, gathered: Seq<u8>)
    ensures
        (forall|i: int|
            0 <= i && i + 6 <= chunk.len() ==> #[trigger] chunk.subrange(i, i + 6) != seq![
                0x1bu8,
                0x5bu8,
                0x32u8,
                0x30u8,
                0x30u8,
                0x7eu8,
            ]) ==> decoded(chunk, None) == (plain_keys(chunk), None::<Seq<u8>>),
        (forall|i: int|
            0 <= i && i + 6 <= chunk.len() ==> #[trigger] chunk.subrange(i, i + 6) != seq![
                0x1bu8,
                0x5bu8,
                0x32u8,
                0x30u8,
                0x31u8,
                0x7eu8,
            ]) ==> decoded(chunk, Some(gathered)) == (
            Seq::<KeyModel>::empty(),
            Some(gathered + chunk),
        ),
{
    let open = seq![0x1bu8, 0x5bu8, 0x32u8, 0x30u8, 0x30u8, 0x7eu8];
    let close = seq![0x1bu8, 0x5bu8, 0x32u8, 0x30u8, 0x31u8, 0x7eu8];
    if forall|i: int|
        0 <= i && i + 6 <= chunk.len() ==> #[trigger] chunk.subrange(i, i + 6) != open {
        assert forall|i: int| 0 <= i && i + open.len() <= chunk.len() implies #[trigger] chunk.subrange(
            i,
            i + open.len(),
        ) != open by {
            assert(chunk.subrange(i, i + 6) != open);
        }
        lemma_no_match(chunk, open, 0);
    }
    if forall|i: int|
        0 <= i && i + 6 <= chunk.len() ==> #[trigger] chunk.subrange(i, i + 6) != close {
        assert forall|i: int| 0 <= i && i + close.len() <= chunk.len() implies #[trigger] chunk.subrange(
            i,
            i + close.len(),
        ) != close by {
            assert(chunk.subrange(i, i + 6) != close);
        }
        lemma_no_match(chunk, close, 0);
    }
}

/// A key is what it is called, and carries what it carries; several keys are
/// these, in order.
pub proof fn law_a_key_is_what_it_is_called(
    c: char,
    s: String,
    event: MouseEvent,
    keys: Seq<Key>,
    i: int,
)
    ensures
        Key::Backspace@ == KeyModel::Backspace,
        Key::Delete@ == KeyModel::Delete,
        Key::Down@ == KeyModel::Down,
        Key::Escape@ == KeyModel::Escape,
        Key::Left@ == KeyModel::Left,
        Key::Return@ == KeyModel::Return,
        Key::Right@ == KeyModel::Right,
        Key::Tab@ == KeyModel::Tab,
        Key::Up@ == KeyModel::Up,
        Key::Ignored@ == KeyModel::Ignored,
        Key::Ctrl(c)@ == KeyModel::Ctrl(c),
        Key::Mouse(event)@ == KeyModel::Mouse(event),
        Key::Paste(s)@ == KeyModel::Paste(s@),
        Key::Text(s)@ == KeyModel::Text(s@),
        key_models(keys).len() == keys.len(),
        0 <= i < keys.len() ==> key_models(keys)[i] == keys[i]@,
{
}

/// What a paste has gathered is what its buffer holds. Bytes that are valid
/// text wait for nothing; of others only the cut character at their end waits.
pub proof fn law_whole_characters_do_not_wait(buffer: Vec<u8>, bytes: Seq<u8>, n: int)
    ensures
        buffer_model(Some(buffer)) == Some(buffer@),
        buffer_model(None) is None,
        vstd::utf8::valid_utf8(bytes) ==> (is_whole(bytes, n) <==> n == bytes.len()),
        !vstd::utf8::valid_utf8(bytes) && utf8_fault_length(bytes) is None && is_whole(bytes, n)
            ==> 0 <= n <= bytes.len() && vstd::utf8::valid_utf8(bytes.take(n)),
{
}

} // verus!
