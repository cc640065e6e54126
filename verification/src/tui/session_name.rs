//! Session naming: the prompt, the validation of the model's reply, and the
//! name in the session's metadata. A generated name has five to seven words;
//! every failure keeps the current name.

use vstd::prelude::*;
use crate::chat_types::OpenAICompatibleResponse;
use crate::json::{
    field_text, have_same_texts, parse_object, parsed_fields, print_object, printed_object, put_text,
    text_at, value_at, with_field, FieldModel,
};
use crate::json;
use crate::text;
use crate::text::{
    blank, chars_of, concat2, concat3, join_texts, same, space, split_words, sub_string,
    to_ascii_lower,
};
use crate::transcript::{EntryModel, TranscriptEntry};
use crate::tui::btw;
use crate::tui::evals::push_row;
use crate::tui::pane_title;
use crate::tui::pane_title::{bound_words, is_quote, sanitize};

verus! {

/// How much transcript context (per-message characters) shapes the prompt.
pub const SESSION_NAME_TRANSCRIPT_CHARS: usize = 600;

/// How many recent transcript lines feed the prompt.
pub const SESSION_NAME_TRANSCRIPT_LINES: usize = 12;

// ---------------------------------------------------------------------------
// Validation
// ---------------------------------------------------------------------------

/// A character that is stripped from the edges of a name: white space, a
/// quote, or ASCII punctuation.
pub open spec fn is_edge(c: char) -> bool {
    ||| text::is_space(c)
    ||| pane_title::is_quote_char(c)
    ||| '!' <= c <= '/'
    ||| ':' <= c <= '@'
    ||| '[' <= c <= '`'
    ||| '{' <= c <= '~'
}

fn edge(c: char) -> (r: bool)
    ensures
        r == is_edge(c),
{
    space(c) || is_quote(c) || ('!' <= c && c <= '/') || (':' <= c && c <= '@') || ('[' <= c && c
        <= '`') || ('{' <= c && c <= '~')
}

/// `s` without edge characters at its start.
pub open spec fn bare_start(s: Seq<char>) -> Seq<char>
    decreases s.len(),
{
    if s.len() > 0 && is_edge(s[0]) {
        bare_start(s.skip(1))
    } else {
        s
    }
}

/// `s` without edge characters at its end.
pub open spec fn bare_end(s: Seq<char>) -> Seq<char>
    decreases s.len(),
{
    if s.len() > 0 && is_edge(s.last()) {
        bare_end(s.drop_last())
    } else {
        s
    }
}

/// A name without the quotes and punctuation at its edges.
pub open spec fn bare(s: Seq<char>) -> Seq<char> {
    bare_end(bare_start(s))
}

fn strip_edges(s: &str) -> (r: String)
    ensures
        r@ == bare(s@),
{
    let x = chars_of(s);
    let mut i: usize = 0;
    assert(x@.skip(0) =~= x@);
    while i < x.len() && edge(x[i])
        invariant
            i <= x.len(),
            bare_start(x@) == bare_start(x@.skip(i as int)),
        decreases x.len() - i,
    {
        assert(x@.skip(i as int)[0] == x@[i as int]);
        assert(x@.skip(i as int).skip(1) =~= x@.skip(i + 1));
        i = i + 1;
    }
    assert(i < x.len() ==> x@.skip(i as int)[0] == x@[i as int]);
    let ghost mid = x@.skip(i as int);
    let mut n: usize = x.len();
    assert(mid.take(n - i) =~= mid);
    while n > i && edge(x[n - 1])
        invariant
            i <= n <= x.len(),
            mid == x@.skip(i as int),
            bare_end(mid) == bare_end(mid.take(n - i)),
        decreases n,
    {
        assert(mid.take(n - i).last() == x@[n - 1]);
        assert(mid.take(n - i).drop_last() =~= mid.take(n - i - 1));
        n = n - 1;
    }
    assert(n > i ==> mid.take(n - i).last() == x@[n - 1]);
    assert(x@.subrange(i as int, n as int) =~= mid.take(n - i));
    sub_string(&x, i, n)
}

/// Whether a text is a session name: five to seven words once the quotes and
/// punctuation at its edges are gone, and not the title fallback.
pub open spec fn is_session_name(name: Seq<char>) -> bool {
    let b = bare(name);
    &&& text::ascii_lowered(b) != "drip"@
    &&& 5 <= text::words(b).len() <= 7
}

/// Whether a text is a session name: five to seven words once the quotes and
/// punctuation at its edges are gone, and not the title fallback.
pub fn is_valid_session_name(name: &str) -> (r: bool)
    ensures
        r == is_session_name(name@),
{
    let b = strip_edges(name);
    let lower = to_ascii_lower(b.as_str());
    if same(lower.as_str(), "drip") {
        return false;
    }
    let ws = split_words(b.as_str());
    assert(text::texts(ws@).len() == ws@.len());
    5 <= ws.len() && ws.len() <= 7
}

/// The name that a reply stands for, where it is one.
pub open spec fn name_in_reply(raw: Seq<char>) -> Option<Seq<char>> {
    let cleaned = pane_title::sanitized(raw);
    let name = pane_title::bounded(cleaned, 7, 64);
    if 5 <= text::words(cleaned).len() <= 7 && is_session_name(name) {
        Some(name)
    } else {
        None
    }
}

/// Extracts and sanitizes the model's session-name reply. A reply outside
/// five to seven words is rejected rather than cut.
pub fn extract_session_name(response: &OpenAICompatibleResponse) -> (r: Option<String>)
    ensures
        text::opt_text(r) == (match response.reply_text() {
            Some(raw) => name_in_reply(raw),
            None => None,
        }),
{
    match response.first_text() {
        Some(raw) => {
            let cleaned = sanitize(raw.as_str());
            let ws = split_words(cleaned.as_str());
            assert(text::texts(ws@).len() == ws@.len());
            if ws.len() < 5 || ws.len() > 7 {
                return None;
            }
            let name = bound_words(cleaned.as_str(), 7, 64);
            if !is_valid_session_name(name.as_str()) {
                return None;
            }
            Some(name)
        },
        None => None,
    }
}

// ---------------------------------------------------------------------------
// Prompt
// ---------------------------------------------------------------------------

/// The prompt for a session name.
pub open spec fn name_prompt(goal: Seq<char>, digest: Seq<char>) -> Seq<char> {
    "Write a simple 5 to 7 word session name for a coding-agent chat, using this transcript context and the user's goal. Reply with the name only - no quotes, no markup, no trailing period.\n\nGoal: "@
        + pane_title::bounded(pane_title::sanitized(goal), 40, 800) + "\n\nTranscript:\n"@
        + pane_title::bounded(pane_title::sanitized(digest), 400, 7200)
}

/// Shapes the one-shot prompt from a compact transcript digest plus the
/// user's goal.
pub fn build_session_name_prompt(goal: &str, transcript_digest: &str) -> (r: String)
    ensures
        r@ == name_prompt(goal@, transcript_digest@),
{
    let g = sanitize(goal);
    let goal_text = bound_words(g.as_str(), 40, 800);
    let d = sanitize(transcript_digest);
    let digest = bound_words(
        d.as_str(),
        400,
        SESSION_NAME_TRANSCRIPT_LINES * SESSION_NAME_TRANSCRIPT_CHARS,
    );
    let mut out = concat3(
        "Write a simple 5 to 7 word session name for a coding-agent chat, using this transcript context and the user's goal. Reply with the name only - no quotes, no markup, no trailing period.\n\nGoal: ",
        goal_text.as_str(),
        "\n\nTranscript:\n",
    );
    out.append(digest.as_str());
    out
}

/// One naming request, or nothing to send.
pub enum NameCall {
    /// Neither goal nor transcript: no request is made.
    Refused,
    /// Send this prompt, waiting at most so many milliseconds.
    Send { prompt: String, timeout_ms: u64 },
}

/// Prepares one naming request. With neither goal nor transcript nothing is
/// sent; otherwise the prompt goes out with a timeout of at least one
/// millisecond.
pub fn generate_session_name(goal: &str, transcript_digest: &str, timeout_ms: u64) -> (r: NameCall)
    ensures
        (r is Refused) == (text::is_blank(goal@) && text::is_blank(transcript_digest@)),
        r matches NameCall::Send { prompt, timeout_ms: t } ==> {
            &&& prompt@ == name_prompt(goal@, transcript_digest@)
            &&& t == (if timeout_ms > 0 {
                timeout_ms
            } else {
                1
            })
        },
{
    let t: u64 = if timeout_ms > 0 {
        timeout_ms
    } else {
        1
    };
    if blank(goal) && blank(transcript_digest) {
        return NameCall::Refused;
    }
    NameCall::Send { prompt: build_session_name_prompt(goal, transcript_digest), timeout_ms: t }
}

/// A goal as a digest line.
pub open spec fn user_line(goal: Seq<char>) -> Seq<char> {
    "User: "@ + pane_title::bounded(
        pane_title::sanitized(goal),
        80,
        SESSION_NAME_TRANSCRIPT_CHARS as nat,
    )
}

/// The digest lines of transcript entries: goals and replies.
pub open spec fn context_lines(entries: Seq<EntryModel>) -> Seq<Seq<char>>
    decreases entries.len(),
{
    if entries.len() == 0 {
        Seq::empty()
    } else {
        let before = context_lines(entries.drop_last());
        match entries.last() {
            EntryModel::Goal { text, .. } => if text::is_blank(text) {
                before
            } else {
                before.push(user_line(text))
            },
            EntryModel::Model(_) => before.push("Assistant: (reply)"@),
            _ => before,
        }
    }
}

/// The compact digest: the goal, then the newest window of the transcript,
/// oldest first.
pub open spec fn name_context(goal: Seq<char>, entries: Seq<EntryModel>) -> Seq<char> {
    let window = context_lines(btw::last_of(entries, SESSION_NAME_TRANSCRIPT_LINES as nat));
    text::joined(
        if text::is_blank(goal) {
            window
        } else {
            seq![user_line(goal)] + window
        },
        "\n"@,
    )
}

fn line_of_goal(goal: &str) -> (r: String)
    ensures
        r@ == user_line(goal@),
{
    let g = sanitize(goal);
    let t = bound_words(g.as_str(), 80, SESSION_NAME_TRANSCRIPT_CHARS);
    concat2("User: ", t.as_str())
}

/// Builds a compact transcript digest: the user's goal plus the most recent
/// goals and model turns, oldest first. An empty transcript still yields the
/// goal line.
pub fn read_session_name_context(goal: &str, transcript_entries: &[TranscriptEntry]) -> (r: String)
    ensures
        r@ == name_context(goal@, crate::transcript::entry_models(transcript_entries@)),
{
    let mut lines: Vec<String> = Vec::new();
    if !blank(goal) {
        lines.push(line_of_goal(goal));
    }
    let ghost head = text::texts(lines@);
    assert(text::is_blank(goal@) ==> head =~= Seq::empty());
    assert(!text::is_blank(goal@) ==> head =~= seq![user_line(goal@)]);
    let ghost all = crate::transcript::entry_models(transcript_entries@);
    let ghost window = btw::last_of(all, SESSION_NAME_TRANSCRIPT_LINES as nat);
    let start: usize = if transcript_entries.len() > SESSION_NAME_TRANSCRIPT_LINES {
        transcript_entries.len() - SESSION_NAME_TRANSCRIPT_LINES
    } else {
        0
    };
    assert(window =~= all.skip(start as int));
    let mut i: usize = start;
    assert(window.take(0) =~= Seq::empty());
    assert(text::texts(lines@) =~= head + context_lines(window.take(0)));
    while i < transcript_entries.len()
        invariant
            start <= i <= transcript_entries.len(),
            all == crate::transcript::entry_models(transcript_entries@),
            window == all.skip(start as int),
            text::texts(lines@) == head + context_lines(window.take(i - start)),
        decreases transcript_entries.len() - i,
    {
        let ghost before = context_lines(window.take(i - start));
        assert(window.take(i - start + 1).drop_last() =~= window.take(i - start));
        assert(window.take(i - start + 1).last() == transcript_entries@[i as int]@);
        match &transcript_entries[i] {
            TranscriptEntry::Goal(g) => {
                if !blank(g.text.as_str()) {
                    push_row(&mut lines, line_of_goal(g.text.as_str()));
                    assert(text::texts(lines@) =~= head + before.push(user_line(g.text@)));
                }
            },
            TranscriptEntry::Model(_) => {
                push_row(&mut lines, "Assistant: (reply)".to_string());
                assert(text::texts(lines@) =~= head + before.push("Assistant: (reply)"@));
            },
            _ => {},
        }
        i = i + 1;
    }
    assert(window.take(i - start) =~= window);
    assert(text::is_blank(goal@) ==> head + context_lines(window) =~= context_lines(window));
    join_texts(&lines, "\n")
}

// ---------------------------------------------------------------------------
// Metadata
// ---------------------------------------------------------------------------

/// The session name in metadata: the text at `sessionName`, unless blank.
pub open spec fn stored_name(raw: Seq<char>) -> Option<Seq<char>> {
    match parsed_fields(raw) {
        Some(fields) => match text_at(fields, "sessionName"@) {
            Some(name) => if text::is_blank(name) {
                None
            } else {
                Some(name)
            },
            None => None,
        },
        None => None,
    }
}

/// The name that a metadata field stands for: its text, unless blank.
pub fn usable_name(field: Option<String>) -> (r: Option<String>)
    ensures
        text::opt_text(r) == (match text::opt_text(field) {
            Some(name) => if text::is_blank(name) {
                None
            } else {
                Some(name)
            },
            None => None,
        }),
{
    match field {
        Some(name) => {
            if blank(name.as_str()) {
                None
            } else {
                Some(name)
            }
        },
        None => None,
    }
}

/// Reads the persisted session name from the metadata text, where it could be
/// read. Missing or malformed metadata yields no name.
pub fn read_session_name(raw: Option<&str>) -> (r: Option<String>)
    ensures
        text::opt_text(r) == (match raw {
            Some(t) => stored_name(t@),
            None => None,
        }),
{
    match raw {
        Some(t) => match parse_object(t) {
            Some(object) => usable_name(field_text(&object, "sessionName")),
            None => None,
        },
        None => None,
    }
}

/// The metadata text that a name is written into: an empty object where there
/// is none yet.
pub open spec fn metadata_base(raw: Option<Seq<char>>) -> Seq<char> {
    match raw {
        Some(t) => t,
        None => "{}\n"@,
    }
}

/// The metadata text to write so that the session is named `name`, every
/// other field kept; `None` where the metadata is no JSON object. Reading it
/// gives back the name, so a session can be named again and again.
pub fn persist_session_name(raw: Option<&str>, name: &str) -> (r: Option<String>)
    ensures
        ({
            let base = metadata_base(
                match raw {
                    Some(t) => Some(t@),
                    None => None,
                },
            );
            match parsed_fields(base) {
                Some(fields) => {
                    let named = with_field(fields, "sessionName"@, FieldModel::Text(name@));
                    &&& text::opt_text(r) == Some(printed_object(named) + "\n"@)
                    &&& parsed_fields(r->0@) is Some
                    &&& have_same_texts(parsed_fields(r->0@)->0, named)
                    &&& !text::is_blank(name@) ==> stored_name(r->0@) == Some(name@)
                },
                None => r is None,
            }
        }),
        raw is None ==> r is Some,
{
    let base = match raw {
        Some(t) => t,
        None => "{}\n",
    };
    match parse_object(base) {
        Some(object) => {
            let mut object = object;
            let ghost fields = json::object_fields(object);
            put_text(&mut object, "sessionName", name);
            let body = concat2(print_object(&object).as_str(), "\n");
            proof {
                assert(json::object_fields(object) == with_field(
                    parsed_fields(base@)->0,
                    "sessionName"@,
                    FieldModel::Text(name@),
                ));
                law_naming_keeps_every_other_field(fields, name@);
                json::lemma_same_texts(
                    parsed_fields(body@)->0,
                    json::object_fields(object),
                    "sessionName"@,
                );
            }
            Some(body)
        },
        None => None,
    }
}

// ---------------------------------------------------------------------------
// Laws
// ---------------------------------------------------------------------------

/// Naming a session keeps every other field of its metadata, whatever it holds,
/// and the name is what its own field holds then.
pub proof fn law_naming_keeps_every_other_field(
    fields: Seq<(Seq<char>, FieldModel)>,
    name: Seq<char>,
)
    ensures
        ({
            let named = with_field(fields, "sessionName"@, FieldModel::Text(name));
            &&& text_at(named, "sessionName"@) == Some(name)
            &&& forall|k: Seq<char>|
                k != "sessionName"@ ==> #[trigger] value_at(named, k) == value_at(fields, k)
        }),
{
    json::law_setting_a_text_keeps_every_other_field(fields, "sessionName"@, name);
}

/// A name that was written reads back, and so does every text that the metadata
/// held beside it.
pub proof fn law_a_written_name_reads_back(
    fields: Seq<(Seq<char>, FieldModel)>,
    again: Seq<(Seq<char>, FieldModel)>,
    name: Seq<char>,
    key: Seq<char>,
)
    requires
        have_same_texts(again, with_field(fields, "sessionName"@, FieldModel::Text(name))),
    ensures
        text_at(again, "sessionName"@) == Some(name),
        key != "sessionName"@ ==> text_at(again, key) == text_at(fields, key),
{
    let named = with_field(fields, "sessionName"@, FieldModel::Text(name));
    law_naming_keeps_every_other_field(fields, name);
    json::lemma_same_texts(again, named, "sessionName"@);
    json::lemma_same_texts(again, named, key);
}

/// A generated name is a session name: five to seven words, at most 64
/// characters.
pub proof fn law_generated_names_keep_the_word_contract(raw: Seq<char>)
    ensures
        name_in_reply(raw) matches Some(name) ==> is_session_name(name) && name.len() <= 64,
{
    let ws = text::words(pane_title::sanitized(raw));
    assert(ws.take(0) =~= Seq::empty());
    pane_title::lemma_words_within(ws, 0, 7, 64);
}

/// A reply of five to seven words is taken as the name, its words as they are
/// with single spaces between them. A reply of any other length names nothing,
/// and neither does one whose words are too long together for a name.
pub proof fn law_a_reply_of_the_right_length_is_the_name(raw: Seq<char>)
    ensures
        ({
            let cleaned = pane_title::sanitized(raw);
            let n = text::words(cleaned).len();
            &&& n < 5 || n > 7 ==> name_in_reply(raw) is None
            &&& 5 <= n <= 7 && cleaned.len() <= 64 && is_session_name(cleaned) ==> name_in_reply(raw)
                == Some(cleaned)
            &&& name_in_reply(raw) matches Some(name) ==> name.is_prefix_of(cleaned)
        }),
{
    let cleaned = pane_title::sanitized(raw);
    let titled = pane_title::title_words(raw);
    pane_title::lemma_title_words(raw);
    text::lemma_words_of_joined(titled);
    let ws = text::words(cleaned);
    assert(ws == titled);
    assert(ws.take(0) =~= Seq::empty());
    pane_title::lemma_words_within(ws, 0, 7, 64);
    let k = pane_title::words_within(ws, 0, 7, 64) as int;
    if 5 <= ws.len() <= 7 && cleaned.len() <= 64 {
        assert(ws.take(ws.len() as int) =~= ws);
    }
    lemma_joined_prefix(ws, k);
}

proof fn lemma_joined_prefix(ws: Seq<Seq<char>>, k: int)
    requires
        0 <= k <= ws.len(),
    ensures
        text::joined(ws.take(k), seq![' ']).is_prefix_of(text::joined(ws, seq![' '])),
    decreases ws.len() - k,
{
    let a = text::joined(ws.take(k), seq![' ']);
    let all = text::joined(ws, seq![' ']);
    if k == ws.len() {
        assert(ws.take(k) =~= ws);
        assert(a =~= all.take(a.len() as int));
    } else {
        lemma_joined_prefix(ws, k + 1);
        let b = text::joined(ws.take(k + 1), seq![' ']);
        assert(ws.take(k + 1).drop_last() =~= ws.take(k));
        if k == 0 {
            assert(ws.take(0) =~= Seq::empty());
        }
        assert(b == all.take(b.len() as int));
        assert(a =~= b.take(a.len() as int));
        assert(a =~= all.take(a.len() as int));
    }
}

/// The length of a name is counted without what stands at its edges, and the
/// name of the fallback title is none.
pub proof fn law_a_name_has_five_to_seven_words(a: Seq<char>, name: Seq<char>, b: Seq<char>)
    requires
        forall|i: int| 0 <= i < a.len() ==> is_edge(#[trigger] a[i]),
        forall|i: int| 0 <= i < b.len() ==> is_edge(#[trigger] b[i]),
        name.len() > 0,
        !is_edge(name[0]),
        !is_edge(name.last()),
    ensures
        is_session_name(a + name + b) <==> 5 <= text::words(name).len() <= 7
            && text::ascii_lowered(name) != "drip"@,
{
    lemma_bare_is_the_middle(a, name, b);
}

proof fn lemma_bare_is_the_middle(a: Seq<char>, t: Seq<char>, b: Seq<char>)
    requires
        forall|i: int| 0 <= i < a.len() ==> is_edge(#[trigger] a[i]),
        forall|i: int| 0 <= i < b.len() ==> is_edge(#[trigger] b[i]),
        t.len() > 0,
        !is_edge(t[0]),
        !is_edge(t.last()),
    ensures
        bare(a + t + b) == t,
    decreases a.len() + b.len(),
{
    let s = a + t + b;
    if a.len() > 0 {
        assert(s[0] == a[0]);
        assert(s.skip(1) =~= a.skip(1) + t + b);
        lemma_bare_is_the_middle(a.skip(1), t, b);
    } else {
        assert(s =~= t + b);
        assert(s[0] == t[0]);
        assert(bare_start(s) == s);
        if b.len() > 0 {
            assert(s.last() == b[b.len() - 1]);
            let shorter = b.drop_last();
            assert(s.drop_last() =~= a + t + shorter);
            lemma_bare_is_the_middle(a, t, shorter);
            assert((a + t + shorter)[0] == t[0]);
            assert(bare_start(a + t + shorter) == a + t + shorter);
        } else {
            assert(s =~= t);
        }
    }
}

/// The edges of a name are white space and ASCII punctuation, never a letter or
/// a digit.
pub proof fn law_letters_and_digits_are_no_edges(c: char)
    ensures
        'a' <= c <= 'z' || 'A' <= c <= 'Z' || '0' <= c <= '9' ==> !is_edge(c),
        c == ' ' || c == '"' || c == '\'' || c == '.' || c == ',' || c == '!' || c == '?' || c == ':'
            || c == ';' || c == '-' || c == '(' || c == ')' || c == '`' || c == '*' ==> is_edge(c),
{
}

/// The request for a name holds the goal and the transcript, the goal cut to
/// forty words and eight hundred characters, the transcript to four hundred
/// words and seven thousand two hundred characters.
pub proof fn law_the_request_holds_goal_and_transcript(goal: Seq<char>, digest: Seq<char>)
    ensures
        ({
            let g = pane_title::bounded(pane_title::sanitized(goal), 40, 800);
            let d = pane_title::bounded(pane_title::sanitized(digest), 400, 7200);
            let prompt = name_prompt(goal, digest);
            &&& exists|head: Seq<char>| #[trigger] (head + g) + "\n\nTranscript:\n"@ + d == prompt
            &&& d.len() <= prompt.len()
            &&& prompt.skip(prompt.len() - d.len()) == d
        }),
{
    let g = pane_title::bounded(pane_title::sanitized(goal), 40, 800);
    let d = pane_title::bounded(pane_title::sanitized(digest), 400, 7200);
    let prompt = name_prompt(goal, digest);
    let head =
        "Write a simple 5 to 7 word session name for a coding-agent chat, using this transcript context and the user's goal. Reply with the name only - no quotes, no markup, no trailing period.\n\nGoal: "@;
    assert((head + g) + "\n\nTranscript:\n"@ + d == prompt);
    assert(prompt.skip(prompt.len() - d.len()) =~= d);
}

/// The context of a name is told in order: the goal first, then of the newest
/// twelve entries every goal that says anything and every reply.
pub proof fn law_the_context_is_told_in_order(
    goal: Seq<char>,
    entries: Seq<EntryModel>,
    entry: EntryModel,
)
    ensures
        context_lines(Seq::empty()) == Seq::<Seq<char>>::empty(),
        entry is Model ==> context_lines(entries.push(entry)) == context_lines(entries).push(
            "Assistant: (reply)"@,
        ),
        entry is Goal && !text::is_blank(entry->Goal_text) ==> context_lines(entries.push(entry))
            == context_lines(entries).push(
            "User: "@ + pane_title::bounded(pane_title::sanitized(entry->Goal_text), 80, 600),
        ),
        entry is Goal && text::is_blank(entry->Goal_text) || !(entry is Goal || entry is Model)
            ==> context_lines(entries.push(entry)) == context_lines(entries),
        ({
            let newest = if entries.len() > 12 {
                entries.skip(entries.len() - 12)
            } else {
                entries
            };
            &&& text::is_blank(goal) ==> name_context(goal, entries) == text::joined(
                context_lines(newest),
                "\n"@,
            )
            &&& !text::is_blank(goal) ==> name_context(goal, entries) == text::joined(
                seq![
                    "User: "@ + pane_title::bounded(pane_title::sanitized(goal), 80, 600),
                ] + context_lines(newest),
                "\n"@,
            )
        }),
{
    assert(entries.push(entry).drop_last() =~= entries);
}

/// The stored name of a session is what its own field holds, unless that is
/// blank or no text; metadata that is no object has none.
pub proof fn law_a_stored_name_is_its_field(raw: Seq<char>)
    ensures
        parsed_fields(raw) is None ==> stored_name(raw) is None,
        parsed_fields(raw) matches Some(fields) ==> {
            &&& text_at(fields, "sessionName"@) is None ==> stored_name(raw) is None
            &&& text_at(fields, "sessionName"@) matches Some(name) ==> stored_name(raw) == (
            if text::is_blank(name) {
                None
            } else {
                Some(name)
            })
        },
        metadata_base(None) == "{}\n"@,
        metadata_base(Some(raw)) == raw,
{
}

/// The request for a name is the same words for every session, and in them the
/// goal and the transcript.
pub proof fn law_the_request_for_a_name_is_fixed(goal: Seq<char>, digest: Seq<char>)
    ensures
        name_prompt(goal, digest)
            == "Write a simple 5 to 7 word session name for a coding-agent chat, using this transcript context and the user's goal. Reply with the name only - no quotes, no markup, no trailing period.\n\nGoal: "@
            + pane_title::bounded(pane_title::sanitized(goal), 40, 800) + "\n\nTranscript:\n"@
            + pane_title::bounded(pane_title::sanitized(digest), 400, 7200),
{
}

} // verus!
