//! `/btw`: a sidebar conversation about a running or finished session.
//!
//! `build_btw_digest` compiles the session's transcript into a compact digest,
//! `build_btw_system_prompt` frames the call as a sidebar, and `BtwThread`
//! keeps the sidebar's own turns, which never enter the session's context.

use vstd::prelude::*;
use crate::chat_types;
use crate::chat_types::{
    text_message, ChatRoleTag, OpenAICompatibleResponse, TransportRequestMessage,
};
use crate::text;
use crate::text::{
    blank, concat2, concat3, format_signed, join_texts, split_char, split_lines, split_words,
    starts_with, take_chars, trim, trim_end, trim_start,
};
use crate::transcript::{
    EntryModel, EventModel, HarnessEventType, TranscriptEntry, TranscriptEventEntry,
};
use crate::tui::pane_title;
use crate::tui::pane_title::strip_control;

verus! {

/// Wall-clock cap for one sidebar answer.
pub const BTW_TIMEOUT_MS: u64 = 60_000;

/// Character budget for the transcript digest handed to the sidebar.
pub const BTW_DIGEST_CHARS: usize = 12_000;

/// How many of the sidebar's most recent turns are replayed to the model.
pub const BTW_HISTORY_TURNS: usize = 24;

/// Cap on one sidebar reply.
pub const BTW_MAX_REPLY_CHARS: usize = 8_000;

/// The sidebar framing.
pub const BTW_SYSTEM_PROMPT: &'static str = "You are a *sidebar* (`/btw`) conversation spawned from a drip coding session. You are NOT the agent working on that session's goal, and nothing you say is sent to it: the operator opened this sidebar to ask side questions about the session without disturbing it.\n\nWhat you have:\n- Below: a digest of that session's transcript — its goals, its own assistant replies, its tool calls, tool results, warnings and run ends — plus the session id and the path to the full transcript.jsonl file for detail the digest does not carry.\n\nHow to answer:\n- Answer conversationally, in plain prose: what has happened so far, what the session is doing now, why it looks stuck or slow, what it read or changed, what it said, what seems worth doing next.\n- Do NOT produce a run summary, task table, or status report unless the operator explicitly asks for one. A couple of short paragraphs or a few bullets read better than headings.\n- Ground every claim in the digest. When the digest does not contain the answer, say so plainly and name what you would need (or the transcript line to check) instead of inventing it.\n- You cannot run tools, edit files, or change that session — you only read and explain.\n- The operator may ask follow-ups; keep the thread of the conversation and build on what you already said.\n- Be concise: your reply is printed straight into the operator's chat as it arrives.";

/// Which side of the sidebar a turn belongs to.
#[derive(Clone, Copy, Debug, PartialEq, Eq, Structural)]
pub enum BtwRole {
    Assistant,
    User,
}

/// One sidebar turn.
#[derive(Debug, PartialEq)]
pub struct BtwTurn {
    pub role: BtwRole,
    pub text: String,
}

/// The sidebar's own conversation, in memory only.
#[derive(Debug, PartialEq)]
pub struct BtwThread {
    turns: Vec<BtwTurn>,
}

impl Clone for BtwTurn {
    fn clone(&self) -> (r: Self)
        ensures
            r == *self,
    {
        BtwTurn { role: self.role, text: self.text.clone() }
    }
}

impl Clone for BtwThread {
    fn clone(&self) -> (r: Self)
        ensures
            r@ == self@,
    {
        let mut turns: Vec<BtwTurn> = Vec::new();
        let mut i: usize = 0;
        while i < self.turns.len()
            invariant
                i <= self.turns.len(),
                turns@ == self.turns@.take(i as int),
            decreases self.turns.len() - i,
        {
            turns.push(self.turns[i].clone());
            i = i + 1;
            assert(turns@ =~= self.turns@.take(i as int));
        }
        assert(self.turns@.take(i as int) =~= self.turns@);
        BtwThread { turns }
    }
}

impl View for BtwThread {
    type V = Seq<BtwTurn>;

    closed spec fn view(&self) -> Seq<BtwTurn> {
        self.turns@
    }
}

impl Default for BtwThread {
    fn default() -> (r: Self)
        ensures
            r@ == Seq::<BtwTurn>::empty(),
    {
        BtwThread { turns: Vec::new() }
    }
}

/// How many of the turns are questions.
pub open spec fn questions(turns: Seq<BtwTurn>) -> nat
    decreases turns.len(),
{
    if turns.len() == 0 {
        0
    } else {
        questions(turns.drop_last()) + if turns.last().role == BtwRole::User {
            1nat
        } else {
            0
        }
    }
}

/// The last `n` elements, or all of them.
pub open spec fn last_of<T>(s: Seq<T>, n: nat) -> Seq<T> {
    if n < s.len() {
        s.skip(s.len() - n)
    } else {
        s
    }
}

/// At most six lines of a turn, each after the speaker.
pub open spec fn turn_lines(turn: BtwTurn) -> Seq<Seq<char>> {
    let ls = text::lines(turn.text@);
    let n = if ls.len() < 6 {
        ls.len()
    } else {
        6
    };
    let who = match turn.role {
        BtwRole::User => "btw | you: "@,
        BtwRole::Assistant => "btw | btw: "@,
    };
    Seq::new(n, |i: int| who + ls[i])
}

/// The lines of all turns.
pub open spec fn thread_lines(turns: Seq<BtwTurn>) -> Seq<Seq<char>>
    decreases turns.len(),
{
    if turns.len() == 0 {
        Seq::empty()
    } else {
        thread_lines(turns.drop_last()) + turn_lines(turns.last())
    }
}

impl BtwThread {
    pub fn new() -> (r: Self)
        ensures
            r@ == Seq::<BtwTurn>::empty(),
    {
        BtwThread { turns: Vec::new() }
    }

    pub fn is_empty(&self) -> (r: bool)
        ensures
            r == (self@.len() == 0),
    {
        self.turns.len() == 0
    }

    pub fn len(&self) -> (r: usize)
        ensures
            r == self@.len(),
    {
        self.turns.len()
    }

    /// How many questions the operator has asked this sidebar.
    pub fn ask_count(&self) -> (r: usize)
        ensures
            r == questions(self@),
    {
        let mut n: usize = 0;
        let mut i: usize = 0;
        assert(self.turns@.take(0) =~= Seq::empty());
        while i < self.turns.len()
            invariant
                i <= self.turns.len(),
                n <= i,
                n == questions(self.turns@.take(i as int)),
            decreases self.turns.len() - i,
        {
            assert(self.turns@.take(i + 1).drop_last() =~= self.turns@.take(i as int));
            if self.turns[i].role == BtwRole::User {
                n = n + 1;
            }
            i = i + 1;
        }
        assert(self.turns@.take(i as int) =~= self.turns@);
        n
    }

    pub fn reset(&mut self)
        ensures
            final(self)@ == Seq::<BtwTurn>::empty(),
    {
        self.turns.clear();
    }

    pub fn turns(&self) -> (r: &[BtwTurn])
        ensures
            r@ == self@,
    {
        self.turns.as_slice()
    }

    pub fn push_user(&mut self, text: &str)
        ensures
            final(self)@.len() == old(self)@.len() + 1,
            final(self)@.drop_last() == old(self)@,
            final(self)@.last().role == BtwRole::User,
            final(self)@.last().text@ == text@,
    {
        self.turns.push(BtwTurn { role: BtwRole::User, text: text.to_string() });
        assert(self@.drop_last() =~= old(self)@);
    }

    pub fn push_assistant(&mut self, text: &str)
        ensures
            final(self)@.len() == old(self)@.len() + 1,
            final(self)@.drop_last() == old(self)@,
            final(self)@.last().role == BtwRole::Assistant,
            final(self)@.last().text@ == text@,
    {
        self.turns.push(BtwTurn { role: BtwRole::Assistant, text: text.to_string() });
        assert(self@.drop_last() =~= old(self)@);
    }

    /// The lines of the last `max_turns` turns, oldest first.
    pub fn tail_lines(&self, max_turns: usize) -> (r: Vec<String>)
        ensures
            text::texts(r@) == thread_lines(last_of(self@, max_turns as nat)),
    {
        let start: usize = if self.turns.len() > max_turns {
            self.turns.len() - max_turns
        } else {
            0
        };
        let ghost tail = last_of(self@, max_turns as nat);
        assert(tail =~= self@.skip(start as int));
        let mut rows: Vec<String> = Vec::new();
        let mut i: usize = start;
        assert(tail.take(0) =~= Seq::empty());
        assert(text::texts(rows@) =~= Seq::empty());
        while i < self.turns.len()
            invariant
                start <= i <= self.turns.len(),
                tail == self.turns@.skip(start as int),
                text::texts(rows@) == thread_lines(tail.take(i - start)),
            decreases self.turns.len() - i,
        {
            let mut more = lines_of_turn(&self.turns[i]);
            proof {
                text::lemma_texts_add(rows@, more@);
                assert(tail.take(i - start + 1).drop_last() =~= tail.take(i - start));
                assert(tail.take(i - start + 1).last() == self.turns@[i as int]);
            }
            rows.append(&mut more);
            i = i + 1;
        }
        assert(tail.take(i - start) =~= tail);
        rows
    }
}

fn lines_of_turn(turn: &BtwTurn) -> (r: Vec<String>)
    ensures
        text::texts(r@) == turn_lines(*turn),
{
    let ls = split_lines(turn.text.as_str());
    let who = match turn.role {
        BtwRole::User => "btw | you: ",
        BtwRole::Assistant => "btw | btw: ",
    };
    let n: usize = if ls.len() < 6 {
        ls.len()
    } else {
        6
    };
    let mut rows: Vec<String> = Vec::new();
    let ghost want = turn_lines(*turn);
    let mut i: usize = 0;
    assert(text::texts(rows@) =~= want.take(0));
    while i < n
        invariant
            i <= n <= ls.len(),
            text::texts(ls@) == text::lines(turn.text@),
            want == Seq::new(n as nat, |k: int| who@ + text::lines(turn.text@)[k]),
            text::texts(rows@) == want.take(i as int),
        decreases n - i,
    {
        broadcast use text::lemma_texts_push;

        rows.push(concat2(who, ls[i].as_str()));
        assert(text::texts(ls@)[i as int] == ls@[i as int]@);
        assert(want.take(i + 1) =~= want.take(i as int).push(want[i as int]));
        i = i + 1;
    }
    assert(want.take(i as int) =~= want);
    rows
}

// ---------------------------------------------------------------------------
// Digest
// ---------------------------------------------------------------------------

/// `raw` with its white space collapsed, cut to `max_chars` with an ellipsis.
pub open spec fn one_lined(raw: Seq<char>, max_chars: nat) -> Seq<char> {
    let flat = text::joined(text::words(raw), " "@);
    if flat.len() <= max_chars {
        flat
    } else {
        text::first_chars(
            flat,
            if max_chars > 0 {
                max_chars - 1
            } else {
                0
            },
        ).push('…')
    }
}

/// Collapses white space and cuts to `max_chars`, so that one long tool result
/// cannot dominate the digest.
pub fn one_line(raw: &str, max_chars: usize) -> (r: String)
    ensures
        r@ == one_lined(raw@, max_chars as nat),
{
    let ws = split_words(raw);
    let flat = join_texts(&ws, " ");
    if flat.as_str().unicode_len() <= max_chars {
        return flat;
    }
    let room: usize = if max_chars > 0 {
        max_chars - 1
    } else {
        0
    };
    let mut cut = take_chars(flat.as_str(), room);
    cut.push('…');
    cut
}

/// Whether a note is one of the sidebar's own chat lines.
pub open spec fn is_btw_text(s: Seq<char>) -> bool {
    "btw"@.is_prefix_of(text::trimmed_start(s))
}

/// Whether a note is one of the sidebar's own chat lines.
pub fn is_btw_line(text: &str) -> (r: bool)
    ensures
        r == is_btw_text(text@),
{
    let t = trim_start(text);
    starts_with(t.as_str(), "btw")
}

/// How the digest names an event kind and how much of its detail it carries;
/// `None` for the kinds that carry no narrative.
pub open spec fn digest_label(kind: HarnessEventType) -> Option<(Seq<char>, nat)> {
    match kind {
        HarnessEventType::ModelText => Some(("assistant: "@, 1200)),
        HarnessEventType::ToolCall => Some(("tool call: "@, 160)),
        HarnessEventType::ToolResult => Some(("tool result: "@, 300)),
        HarnessEventType::RunSummary => Some(("run summary: "@, 600)),
        HarnessEventType::TaskFinished => Some(("task finished: "@, 300)),
        HarnessEventType::OperatorMessage => Some(("operator message: "@, 300)),
        HarnessEventType::Question => Some(("question: "@, 300)),
        HarnessEventType::RunWarning => Some(("warning: "@, 200)),
        HarnessEventType::HarnessOp => Some(("harness op: "@, 200)),
        _ => None,
    }
}

/// The digest line of an event.
pub open spec fn event_line(event: EventModel) -> Option<Seq<char>> {
    match digest_label(event.kind) {
        None => None,
        Some((label, cap)) => {
            let detail = one_lined(event.detail, cap);
            match (event.tool(), text::is_blank(detail)) {
                (Some(name), false) => Some(label + (name + " — "@ + detail)),
                (Some(name), true) => Some(label + name),
                (None, false) => Some(label + detail),
                (None, true) => None,
            }
        },
    }
}

/// One readable digest line for a transcript event, or `None` for the events
/// that carry no narrative.
pub fn event_digest_line(event: &TranscriptEventEntry) -> (r: Option<String>)
    ensures
        text::opt_text(r) == event_line(event@),
{
    let (label, cap): (&str, usize) = match event.kind {
        HarnessEventType::ModelText => ("assistant: ", 1200),
        HarnessEventType::ToolCall => ("tool call: ", 160),
        HarnessEventType::ToolResult => ("tool result: ", 300),
        HarnessEventType::RunSummary => ("run summary: ", 600),
        HarnessEventType::TaskFinished => ("task finished: ", 300),
        HarnessEventType::OperatorMessage => ("operator message: ", 300),
        HarnessEventType::Question => ("question: ", 300),
        HarnessEventType::RunWarning => ("warning: ", 200),
        HarnessEventType::HarnessOp => ("harness op: ", 200),
        _ => {
            return None;
        },
    };
    let detail = one_line(event.detail.as_str(), cap);
    let empty = blank(detail.as_str());
    if let Some(data) = &event.data {
        if let Some(name) = &data.tool_name {
            if empty {
                return Some(concat2(label, name.as_str()));
            }
            let body = concat3(name.as_str(), " — ", detail.as_str());
            return Some(concat2(label, body.as_str()));
        }
    }
    if empty {
        return None;
    }
    Some(concat2(label, detail.as_str()))
}

/// The digest line of a transcript entry, where it has one.
pub open spec fn digest_line(entry: EntryModel) -> Option<Seq<char>> {
    match entry {
        EntryModel::Goal { text, .. } => if text::is_blank(text) {
            None
        } else {
            Some("user goal: "@ + one_lined(text, 400))
        },
        EntryModel::Model(model) => Some(
            "model route: "@ + model.model@ + " ("@ + model.profile_id@ + ")"@,
        ),
        EntryModel::Event(event) => event_line(event),
        EntryModel::RunEnd { iterations, reason, .. } => Some(
            "run end: "@ + reason.name_text() + " after "@ + text::signed_decimal(
                iterations as int,
            ) + " iteration(s)"@,
        ),
        EntryModel::Info { text, .. } => if is_btw_text(text) {
            None
        } else {
            Some("notice: "@ + one_lined(text, 200))
        },
        EntryModel::Error { text, .. } => if is_btw_text(text) {
            None
        } else {
            Some("error: "@ + one_lined(text, 200))
        },
        EntryModel::Skill { name, enabled, .. } => Some(
            "skill "@ + name + (if enabled {
                " enabled"@
            } else {
                " disabled"@
            }),
        ),
    }
}

fn digest_entry(entry: &TranscriptEntry) -> (r: Option<String>)
    ensures
        text::opt_text(r) == digest_line(entry@),
{
    match entry {
        TranscriptEntry::Goal(goal) => {
            if blank(goal.text.as_str()) {
                None
            } else {
                let t = one_line(goal.text.as_str(), 400);
                Some(concat2("user goal: ", t.as_str()))
            }
        },
        TranscriptEntry::Model(model) => {
            let mut row = "model route: ".to_string();
            row.append(model.model.as_str());
            row.append(" (");
            row.append(model.profile_id.as_str());
            row.append(")");
            Some(row)
        },
        TranscriptEntry::Event(event) => event_digest_line(event),
        TranscriptEntry::RunEnd(run) => {
            let mut row = "run end: ".to_string();
            let name = run.reason.name();
            let n = format_signed(run.iterations);
            row.append(name.as_str());
            row.append(" after ");
            row.append(n.as_str());
            row.append(" iteration(s)");
            Some(row)
        },
        TranscriptEntry::Info(note) => {
            if is_btw_line(note.text.as_str()) {
                None
            } else {
                let t = one_line(note.text.as_str(), 200);
                Some(concat2("notice: ", t.as_str()))
            }
        },
        TranscriptEntry::Error(note) => {
            if is_btw_line(note.text.as_str()) {
                None
            } else {
                let t = one_line(note.text.as_str(), 200);
                Some(concat2("error: ", t.as_str()))
            }
        },
        TranscriptEntry::Skill(skill) => {
            let mut row = "skill ".to_string();
            row.append(skill.name.as_str());
            if skill.enabled {
                row.append(" enabled");
            } else {
                row.append(" disabled");
            }
            Some(row)
        },
    }
}

/// The digest lines of a transcript, oldest first.
pub open spec fn digest_body(entries: Seq<EntryModel>) -> Seq<Seq<char>>
    decreases entries.len(),
{
    if entries.len() == 0 {
        Seq::empty()
    } else {
        match digest_line(entries.last()) {
            Some(line) => digest_body(entries.drop_last()).push(line),
            None => digest_body(entries.drop_last()),
        }
    }
}

/// The header of a digest: which session, where its transcript is, whether a
/// run is in flight, and the recorded last goal, where there is one.
pub open spec fn digest_header(
    session_id: Seq<char>,
    transcript_path: Seq<char>,
    running: bool,
    last_goal: Option<Seq<char>>,
) -> Seq<Seq<char>> {
    let head = seq![
        "session id: "@ + session_id,
        "full transcript file: "@ + transcript_path,
        "state: "@ + (if running {
            "a run is in flight right now (the operator is chatting from inside it)"@
        } else {
            "no run in flight (the session is idle or finished)"@
        }),
    ];
    match last_goal {
        Some(goal) => if text::is_blank(goal) {
            head
        } else {
            head.push("last goal (recorded): "@ + one_lined(goal, 400))
        },
        None => head,
    }
}

/// The characters that the lines from `k` on take, each with its line feed.
pub open spec fn cost_from(lines: Seq<Seq<char>>, k: int) -> nat
    decreases lines.len() - k,
{
    if k < 0 || k >= lines.len() {
        0
    } else {
        lines[k].len() + 1 + cost_from(lines, k + 1)
    }
}

/// Going down from `k`, the first line of the longest tail within `budget`.
pub open spec fn kept_from(lines: Seq<Seq<char>>, k: nat, budget: int) -> nat
    decreases k,
{
    if k == 0 || cost_from(lines, k - 1) > budget {
        k
    } else {
        kept_from(lines, (k - 1) as nat, budget)
    }
}

/// The newest lines within `budget` characters; the newest line in any case.
pub open spec fn newest_within(lines: Seq<Seq<char>>, budget: int) -> Seq<Seq<char>> {
    if lines.len() == 0 {
        lines
    } else {
        lines.skip(kept_from(lines, (lines.len() - 1) as nat, budget) as int)
    }
}

/// The digest of a session: its header, then the newest of its body lines that
/// fit in what the header leaves of `max_chars`.
pub open spec fn digest(
    entries: Seq<EntryModel>,
    header: Seq<Seq<char>>,
    max_chars: nat,
) -> Seq<char> {
    let left = max_chars - cost_from(header, 0);
    let kept = newest_within(
        digest_body(entries),
        if left > 0 {
            left
        } else {
            0
        },
    );
    if kept.len() == 0 {
        text::joined(header, "\n"@)
    } else {
        text::joined(header, "\n"@) + "\n"@ + text::joined(kept, "\n"@)
    }
}

fn digest_lines(entries: &[TranscriptEntry]) -> (r: Vec<String>)
    ensures
        text::texts(r@) == digest_body(crate::transcript::entry_models(entries@)),
{
    let ghost all = crate::transcript::entry_models(entries@);
    let mut body: Vec<String> = Vec::new();
    let mut i: usize = 0;
    assert(all.take(0) =~= Seq::empty());
    assert(text::texts(body@) =~= Seq::empty());
    while i < entries.len()
        invariant
            i <= entries.len(),
            all == crate::transcript::entry_models(entries@),
            text::texts(body@) == digest_body(all.take(i as int)),
        decreases entries.len() - i,
    {
        broadcast use text::lemma_texts_push;

        assert(all.take(i + 1).drop_last() =~= all.take(i as int));
        if let Some(line) = digest_entry(&entries[i]) {
            body.push(line);
        }
        i = i + 1;
    }
    assert(all.take(i as int) =~= all);
    body
}

fn newest_lines(body: &Vec<String>, budget: u128) -> (r: Vec<String>)
    requires
        budget <= usize::MAX,
    ensures
        text::texts(r@) == newest_within(text::texts(body@), budget as int),
{
    let ghost all = text::texts(body@);
    let mut kept: Vec<String> = Vec::new();
    if body.len() == 0 {
        assert(text::texts(kept@) =~= all);
        return kept;
    }
    let mut start: usize = body.len() - 1;
    let mut used: u128 = body[start].as_str().unicode_len() as u128 + 1;
    reveal_with_fuel(cost_from, 2);
    assert(used == cost_from(all, start as int));
    let ghost top = start as nat;
    loop
        invariant
            start < body.len(),
            all == text::texts(body@),
            budget <= usize::MAX,
            used == cost_from(all, start as int),
            used <= budget || start == top,
            used <= usize::MAX + 1,
            kept_from(all, top, budget as int) == kept_from(all, start as nat, budget as int),
        ensures
            start < body.len(),
            kept_from(all, top, budget as int) == start,
        decreases start,
    {
        if start == 0 {
            break;
        }
        let cost: u128 = body[start - 1].as_str().unicode_len() as u128 + 1;
        assert(all[start - 1] == body@[start - 1]@);
        assert(cost_from(all, start - 1) == cost + used);
        if used + cost > budget {
            break;
        }
        used = used + cost;
        start = start - 1;
    }
    let ghost want = all.skip(start as int);
    let mut i: usize = start;
    assert(text::texts(kept@) =~= want.take(0));
    while i < body.len()
        invariant
            start <= i <= body.len(),
            all == text::texts(body@),
            want == all.skip(start as int),
            text::texts(kept@) == want.take(i - start),
        decreases body.len() - i,
    {
        broadcast use text::lemma_texts_push;

        kept.push(body[i].clone());
        assert(want.take(i - start + 1) =~= want.take(i - start).push(all[i as int]));
        i = i + 1;
    }
    assert(want.take(i - start) =~= want);
    kept
}

/// Compiles the session's transcript into the sidebar's digest. The header
/// lines always survive; the body is filled from its newest line back, so a
/// long session keeps its most recent history.
pub fn build_btw_digest(
    entries: &[TranscriptEntry],
    session_id: &str,
    transcript_path: &str,
    running: bool,
    last_goal: Option<&str>,
    max_chars: usize,
) -> (r: String)
    ensures
        r@ == digest(
            crate::transcript::entry_models(entries@),
            digest_header(
                session_id@,
                transcript_path@,
                running,
                match last_goal {
                    Some(g) => Some(g@),
                    None => None,
                },
            ),
            max_chars as nat,
        ),
{
    let mut header: Vec<String> = Vec::new();
    header.push(concat2("session id: ", session_id));
    header.push(concat2("full transcript file: ", transcript_path));
    header.push(
        concat2(
            "state: ",
            if running {
                "a run is in flight right now (the operator is chatting from inside it)"
            } else {
                "no run in flight (the session is idle or finished)"
            },
        ),
    );
    if let Some(goal) = last_goal {
        if !blank(goal) {
            let t = one_line(goal, 400);
            header.push(concat2("last goal (recorded): ", t.as_str()));
        }
    }
    let ghost head = digest_header(
        session_id@,
        transcript_path@,
        running,
        match last_goal {
            Some(g) => Some(g@),
            None => None,
        },
    );
    assert(text::texts(header@) =~= head);
    let body = digest_lines(entries);
    let mut fixed: u128 = 0;
    let mut i: usize = header.len();
    while i > 0
        invariant
            i <= header.len() <= 4,
            text::texts(header@) == head,
            fixed == cost_from(head, i as int),
            fixed <= (4 - i) * 0x1_0000_0000_0000_0000,
        decreases i,
    {
        assert(head[i - 1] == header@[i - 1]@);
        let cost: u128 = header[i - 1].as_str().unicode_len() as u128 + 1;
        assert(cost <= 0x1_0000_0000_0000_0000);
        fixed = fixed + cost;
        i = i - 1;
    }
    let budget: u128 = if max_chars as u128 > fixed {
        max_chars as u128 - fixed
    } else {
        0
    };
    let kept = newest_lines(&body, budget);
    let mut out = join_texts(&header, "\n");
    if kept.len() > 0 {
        let tail = join_texts(&kept, "\n");
        out.append("\n");
        out.append(tail.as_str());
    }
    out
}

/// The sidebar's system message: the framing plus the transcript digest.
pub fn build_btw_system_prompt(digest: &str) -> (r: String)
    ensures
        r@ == BTW_SYSTEM_PROMPT@ + "\n\n=== SESSION TRANSCRIPT DIGEST (oldest first) ===\n"@ + digest@,
{
    concat3(
        BTW_SYSTEM_PROMPT,
        "\n\n=== SESSION TRANSCRIPT DIGEST (oldest first) ===\n",
        digest,
    )
}

// ---------------------------------------------------------------------------
// Messages and replies
// ---------------------------------------------------------------------------

/// The turns that say anything.
pub open spec fn spoken(turns: Seq<BtwTurn>) -> Seq<BtwTurn>
    decreases turns.len(),
{
    if turns.len() == 0 {
        Seq::empty()
    } else if text::is_blank(turns.last().text@) {
        spoken(turns.drop_last())
    } else {
        spoken(turns.drop_last()).push(turns.last())
    }
}

/// The role under which a turn is sent.
pub open spec fn sent_role(role: BtwRole) -> ChatRoleTag {
    match role {
        BtwRole::User => ChatRoleTag::User,
        BtwRole::Assistant => ChatRoleTag::Assistant,
    }
}

/// Whether `messages` are the texts of `turns`, in order.
pub open spec fn are_turn_messages(
    messages: Seq<TransportRequestMessage>,
    turns: Seq<BtwTurn>,
) -> bool {
    &&& messages.len() == turns.len()
    &&& forall|i: int|
        0 <= i < turns.len() ==> chat_types::is_text_message(
            #[trigger] messages[i],
            sent_role(turns[i].role),
            turns[i].text@,
        )
}

/// The request messages of one sidebar question: the system text, the newest
/// turns (at most `BTW_HISTORY_TURNS`, blank ones left out), the question.
pub fn build_btw_messages(
    system: &str,
    turns: &[BtwTurn],
    question: &str,
) -> (r: Vec<TransportRequestMessage>)
    ensures
        ({
            let sent = spoken(last_of(turns@, BTW_HISTORY_TURNS as nat));
            &&& r@.len() == sent.len() + 2
            &&& chat_types::is_text_message(r@[0], ChatRoleTag::System, system@)
            &&& are_turn_messages(r@.subrange(1, r@.len() - 1), sent)
            &&& chat_types::is_text_message(r@[r@.len() - 1], ChatRoleTag::User, question@)
        }),
{
    let mut messages: Vec<TransportRequestMessage> = Vec::new();
    messages.push(text_message(ChatRoleTag::System, system));
    let start: usize = if turns.len() > BTW_HISTORY_TURNS {
        turns.len() - BTW_HISTORY_TURNS
    } else {
        0
    };
    let ghost tail = last_of(turns@, BTW_HISTORY_TURNS as nat);
    assert(tail =~= turns@.skip(start as int));
    let mut i: usize = start;
    assert(tail.take(0) =~= Seq::empty());
    while i < turns.len()
        invariant
            start <= i <= turns.len(),
            tail == turns@.skip(start as int),
            messages@.len() >= 1,
            chat_types::is_text_message(messages@[0], ChatRoleTag::System, system@),
            are_turn_messages(messages@.skip(1), spoken(tail.take(i - start))),
        decreases turns.len() - i,
    {
        assert(tail.take(i - start + 1).drop_last() =~= tail.take(i - start));
        assert(tail.take(i - start + 1).last() == turns@[i as int]);
        if !blank(turns[i].text.as_str()) {
            let ghost before = messages@;
            let role = match turns[i].role {
                BtwRole::User => ChatRoleTag::User,
                BtwRole::Assistant => ChatRoleTag::Assistant,
            };
            messages.push(text_message(role, turns[i].text.as_str()));
            assert(messages@.skip(1) =~= before.skip(1).push(messages@.last()));
        }
        i = i + 1;
    }
    assert(tail.take(i - start) =~= tail);
    let ghost before = messages@;
    messages.push(text_message(ChatRoleTag::User, question));
    assert(messages@.subrange(1, messages@.len() - 1) =~= before.skip(1));
    messages
}

/// A reply line as printed: escapes and controls stripped, no trailing white
/// space.
pub open spec fn reply_line(piece: Seq<char>) -> Seq<char> {
    text::trimmed_end(pane_title::stripped(piece))
}

/// `line` on a line of its own after `out`.
pub open spec fn with_line(out: Seq<char>, line: Seq<char>) -> Seq<char> {
    if out.len() == 0 {
        line
    } else {
        out + "\n"@ + line
    }
}

/// The reply lines of `pieces` with runs of blank lines collapsed, and whether
/// the last of them was blank.
pub open spec fn collapsed(pieces: Seq<Seq<char>>) -> (Seq<char>, bool)
    decreases pieces.len(),
{
    if pieces.len() == 0 {
        (Seq::empty(), false)
    } else {
        let (out, after_blank) = collapsed(pieces.drop_last());
        let line = reply_line(pieces.last());
        if text::is_blank(line) {
            (if after_blank {
                out
            } else {
                with_line(out, line)
            }, true)
        } else {
            (with_line(out, line), false)
        }
    }
}

/// A sidebar reply as printed.
pub open spec fn sanitized_reply(raw: Seq<char>) -> Seq<char> {
    text::trimmed(collapsed(text::split_at_char(raw, '\n')).0)
}

/// Strips escape sequences and control characters from a sidebar reply while
/// keeping its lines; runs of blank lines collapse to one.
pub fn sanitize_btw_reply(raw: &str) -> (r: String)
    ensures
        r@ == sanitized_reply(raw@),
{
    let pieces = split_char(raw, '\n');
    let ghost all = text::texts(pieces@);
    let mut out = String::new();
    let mut after_blank = false;
    let mut i: usize = 0;
    assert(all.take(0) =~= Seq::empty());
    while i < pieces.len()
        invariant
            i <= pieces.len(),
            all == text::texts(pieces@),
            (out@, after_blank) == collapsed(all.take(i as int)),
        decreases pieces.len() - i,
    {
        assert(all.take(i + 1).drop_last() =~= all.take(i as int));
        let clean = strip_control(pieces[i].as_str());
        let line = trim_end(clean.as_str());
        let empty = blank(line.as_str());
        if !(empty && after_blank) {
            if out.as_str().unicode_len() > 0 {
                out.append("\n");
                out.append(line.as_str());
            } else {
                out = line;
            }
        }
        after_blank = empty;
        i = i + 1;
    }
    assert(all.take(i as int) =~= all);
    trim(out.as_str())
}

/// What a sidebar reply prints: sanitized and cut to `BTW_MAX_REPLY_CHARS`
/// with an ellipsis; nothing where nothing is left.
pub open spec fn printed_reply(raw: Seq<char>) -> Option<Seq<char>> {
    let cleaned = sanitized_reply(raw);
    if cleaned.len() == 0 {
        None
    } else if cleaned.len() > BTW_MAX_REPLY_CHARS {
        Some(cleaned.take(BTW_MAX_REPLY_CHARS - 1).push('…'))
    } else {
        Some(cleaned)
    }
}

/// Extracts the sidebar's reply, sanitized and bounded. Empty or malformed
/// output is refused.
pub fn extract_btw_reply(response: &OpenAICompatibleResponse) -> (r: Option<String>)
    ensures
        text::opt_text(r) == (match response.reply_text() {
            Some(raw) => printed_reply(raw),
            None => None,
        }),
{
    match response.first_text() {
        Some(raw) => {
            let cleaned = sanitize_btw_reply(raw.as_str());
            let n: usize = cleaned.as_str().unicode_len();
            if n == 0 {
                return None;
            }
            if n > BTW_MAX_REPLY_CHARS {
                let mut cut = take_chars(cleaned.as_str(), BTW_MAX_REPLY_CHARS - 1);
                cut.push('…');
                return Some(cut);
            }
            Some(cleaned)
        },
        None => None,
    }
}

/// A reply that came in time, or why there is none.
pub enum BtwCall {
    /// The question is blank: nothing is sent.
    Refused,
    /// Send these messages, waiting at most so many milliseconds.
    Send { messages: Vec<TransportRequestMessage>, timeout_ms: u64 },
}

/// Prepares one sidebar request: a blank question is refused before anything
/// is sent, any other goes out with the thread and a timeout of at least one
/// millisecond.
pub fn ask_btw(system: &str, turns: &[BtwTurn], question: &str, timeout_ms: u64) -> (r: BtwCall)
    ensures
        (r is Refused) == text::is_blank(question@),
        r matches BtwCall::Send { messages, timeout_ms: t } ==> {
            let sent = spoken(last_of(turns@, BTW_HISTORY_TURNS as nat));
            &&& t == (if timeout_ms > 0 {
                timeout_ms
            } else {
                1
            })
            &&& messages@.len() == sent.len() + 2
            &&& chat_types::is_text_message(messages@[0], ChatRoleTag::System, system@)
            &&& are_turn_messages(messages@.subrange(1, messages@.len() - 1), sent)
            &&& chat_types::is_text_message(
                messages@[messages@.len() - 1],
                ChatRoleTag::User,
                question@,
            )
        },
{
    let t: u64 = if timeout_ms > 0 {
        timeout_ms
    } else {
        1
    };
    if blank(question) {
        return BtwCall::Refused;
    }
    BtwCall::Send { messages: build_btw_messages(system, turns, question), timeout_ms: t }
}

/// The chat lines of one sidebar exchange.
pub open spec fn chat_lines(question: Seq<char>, reply: Seq<char>) -> Seq<Seq<char>> {
    let ls = text::lines(reply);
    seq!["btw · "@ + question] + Seq::new(ls.len(), |i: int| "btw | "@ + ls[i])
}

/// The chat lines one sidebar exchange prints: the echoed question plus the
/// reply lines, all `btw`-prefixed.
pub fn btw_chat_lines(question: &str, reply: &str) -> (r: Vec<String>)
    ensures
        text::texts(r@) == chat_lines(question@, reply@),
{
    let ls = split_lines(reply);
    let ghost want = chat_lines(question@, reply@);
    let mut rows: Vec<String> = Vec::new();
    rows.push(concat2("btw · ", question));
    assert(text::texts(rows@) =~= want.take(1));
    let mut i: usize = 0;
    while i < ls.len()
        invariant
            i <= ls.len(),
            text::texts(ls@) == text::lines(reply@),
            want == chat_lines(question@, reply@),
            text::texts(rows@) == want.take(i + 1),
        decreases ls.len() - i,
    {
        broadcast use text::lemma_texts_push;

        rows.push(concat2("btw | ", ls[i].as_str()));
        assert(text::texts(ls@)[i as int] == ls@[i as int]@);
        assert(want.take(i + 2) =~= want.take(i + 1).push(want[i + 1]));
        i = i + 1;
    }
    assert(want.take(i + 1) =~= want);
    rows
}

// ---------------------------------------------------------------------------
// Laws
// ---------------------------------------------------------------------------

/// Every chat line of the sidebar is recognized as its own, so a digest never
/// carries a sidebar answer back into a sidebar.
pub proof fn law_chat_lines_are_skipped_by_the_digest(
    question: Seq<char>,
    reply: Seq<char>,
    i: int,
)
    requires
        0 <= i < chat_lines(question, reply).len(),
    ensures
        is_btw_text(chat_lines(question, reply)[i]),
{
    let line = chat_lines(question, reply)[i];
    reveal_strlit("btw");
    reveal_strlit("btw · ");
    reveal_strlit("btw | ");
    assert(line[0] == 'b' && line[1] == 't' && line[2] == 'w');
    assert(text::trimmed_start(line) == line);
    assert(line.subrange(0, 3) =~= "btw"@);
}

/// A note that the sidebar printed contributes nothing to a digest.
pub proof fn law_digest_skips_btw_notes(entries: Seq<EntryModel>, note: EntryModel)
    requires
        match note {
            EntryModel::Info { text, .. } => is_btw_text(text),
            EntryModel::Error { text, .. } => is_btw_text(text),
            _ => false,
        },
    ensures
        digest_body(entries.push(note)) == digest_body(entries),
{
    assert(entries.push(note).drop_last() =~= entries);
}

/// The header lines survive whatever the budget.
pub proof fn law_digest_header_survives(
    entries: Seq<EntryModel>,
    header: Seq<Seq<char>>,
    max_chars: nat,
)
    ensures
        text::joined(header, "\n"@).is_prefix_of(digest(entries, header, max_chars)),
{
    let head = text::joined(header, "\n"@);
    assert(digest(entries, header, max_chars).subrange(0, head.len() as int) =~= head);
}

proof fn lemma_kept_from(lines: Seq<Seq<char>>, k: nat, budget: int)
    requires
        k <= lines.len(),
    ensures
        kept_from(lines, k, budget) <= k,
        kept_from(lines, k, budget) < k ==> cost_from(
            lines,
            kept_from(lines, k, budget) as int,
        ) <= budget,
        kept_from(lines, k, budget) > 0 ==> cost_from(
            lines,
            kept_from(lines, k, budget) - 1,
        ) > budget,
    decreases k,
{
    if k > 0 && cost_from(lines, k - 1) <= budget {
        lemma_kept_from(lines, (k - 1) as nat, budget);
    }
}

/// The newest line always survives; what is kept is a tail of the lines; of
/// more than one line it is within the budget; and no longer tail would be.
pub proof fn law_newest_history_survives(lines: Seq<Seq<char>>, budget: int)
    requires
        lines.len() > 0,
    ensures
        ({
            let kept = newest_within(lines, budget);
            &&& 0 < kept.len() <= lines.len()
            &&& kept == lines.skip(lines.len() - kept.len())
            &&& kept.last() == lines.last()
            &&& kept.len() > 1 ==> cost_from(lines, lines.len() - kept.len()) <= budget
            &&& kept.len() < lines.len() ==> cost_from(lines, lines.len() - kept.len() - 1) > budget
        }),
{
    lemma_kept_from(lines, (lines.len() - 1) as nat, budget);
}

/// A request replays at most `BTW_HISTORY_TURNS` turns, whatever the thread's
/// length.
pub proof fn law_replayed_turns_are_bounded(turns: Seq<BtwTurn>)
    ensures
        spoken(last_of(turns, BTW_HISTORY_TURNS as nat)).len() <= BTW_HISTORY_TURNS,
{
    lemma_spoken_length(last_of(turns, BTW_HISTORY_TURNS as nat));
}

proof fn lemma_spoken_length(turns: Seq<BtwTurn>)
    ensures
        spoken(turns).len() <= turns.len(),
    decreases turns.len(),
{
    if turns.len() > 0 {
        lemma_spoken_length(turns.drop_last());
    }
}

/// A printed reply is never empty and never longer than the cap.
pub proof fn law_replies_are_bounded(raw: Seq<char>)
    ensures
        printed_reply(raw) matches Some(t) ==> 0 < t.len() <= BTW_MAX_REPLY_CHARS,
{
}

/// Whether a terminal prints `s` as it stands: its only controls are line
/// feeds.
pub open spec fn is_printable(s: Seq<char>) -> bool {
    forall|i: int| 0 <= i < s.len() ==> #[trigger] s[i] == '\n' || !text::is_ctrl(s[i])
}

/// A printed reply holds no escape and no control character but line feeds,
/// whatever the model sent.
pub proof fn law_replies_hold_no_controls(raw: Seq<char>)
    ensures
        is_printable(sanitized_reply(raw)),
        printed_reply(raw) matches Some(t) ==> is_printable(t),
{
    let pieces = text::split_at_char(raw, '\n');
    lemma_collapsed_is_printable(pieces);
    let all = collapsed(pieces).0;
    lemma_trimming_keeps_print(all);
    lemma_trimming_keeps_print(text::trimmed_start(all));
}

proof fn lemma_collapsed_is_printable(pieces: Seq<Seq<char>>)
    ensures
        is_printable(collapsed(pieces).0),
    decreases pieces.len(),
{
    if pieces.len() > 0 {
        lemma_collapsed_is_printable(pieces.drop_last());
        let piece = pieces.last();
        pane_title::law_stripped_is_control_free(piece);
        lemma_trimming_keeps_print(pane_title::stripped(piece));
        reveal_strlit("\n");
    }
}

proof fn lemma_trimming_keeps_print(s: Seq<char>)
    requires
        is_printable(s),
    ensures
        is_printable(text::trimmed_start(s)),
        is_printable(text::trimmed_end(s)),
    decreases s.len(),
{
    if s.len() > 0 {
        lemma_trimming_keeps_print(s.skip(1));
        lemma_trimming_keeps_print(s.drop_last());
    }
}

/// Whether a line of a reply is printed as it stands: it holds no control
/// character and ends in no white space.
pub open spec fn is_reply_line(line: Seq<char>) -> bool {
    text::all_chars(line, |c: char| !text::is_ctrl(c)) && text::trimmed_end(line) == line
}

/// Whether the lines of a reply are printed as they stand: each one is, and no
/// two blank ones follow each other.
pub open spec fn are_reply_lines(lines: Seq<Seq<char>>) -> bool {
    &&& forall|i: int| 0 <= i < lines.len() ==> is_reply_line(#[trigger] lines[i])
    &&& forall|i: int|
        0 < i < lines.len() && text::is_blank(#[trigger] lines[i]) ==> !text::is_blank(lines[i - 1])
}

/// A cleaned reply is as clean as can be: nothing but text stands at its edges,
/// no line of it ends in white space or holds a control character, no two blank
/// lines follow each other, and cleaning it again changes nothing.
pub proof fn law_cleaning_twice_is_cleaning_once(raw: Seq<char>)
    ensures
        ({
            let reply = sanitized_reply(raw);
            &&& text::trimmed(reply) == reply
            &&& are_reply_lines(text::split_at_char(reply, '\n'))
            &&& sanitized_reply(reply) == reply
        }),
{
    let pieces = text::split_at_char(raw, '\n');
    let kept = kept_lines(pieces);
    lemma_collapsed_is_joined(pieces);
    lemma_kept_lines(pieces);
    if kept.len() == 0 {
        let none = Seq::<char>::empty();
        let line = seq![none];
        assert(text::split_at_char(none, '\n') =~= line);
        lemma_plain_line(none);
        assert(line.drop_last() =~= Seq::empty());
        assert(collapsed(line.drop_last()) == (none, false));
        assert(are_reply_lines(line));
    } else {
        let shown = if kept.last().len() == 0 {
            kept.drop_last()
        } else {
            kept
        };
        text::lemma_blank_is_empty(kept.last());
        let first = text::trimmed_start(shown[0]);
        let lines = shown.update(0, first);
        lemma_trimmed_lines(kept);
        let reply = text::joined(lines, seq!['\n']);
        lemma_reply_of_lines(lines);
        assert(sanitized_reply(raw) == reply);
    }
}

/// The lines that stay of `pieces`.
spec fn kept_lines(pieces: Seq<Seq<char>>) -> Seq<Seq<char>>
    decreases pieces.len(),
{
    if pieces.len() == 0 {
        Seq::empty()
    } else {
        let before = kept_lines(pieces.drop_last());
        let line = reply_line(pieces.last());
        if line.len() == 0 && (before.len() == 0 || before.last().len() == 0) {
            before
        } else {
            before.push(line)
        }
    }
}

/// Whether lines are those of a reply whose first one says something.
spec fn are_kept(lines: Seq<Seq<char>>) -> bool {
    &&& forall|i: int| 0 <= i < lines.len() ==> is_reply_line(#[trigger] lines[i])
    &&& forall|i: int|
        0 < i < lines.len() && (#[trigger] lines[i]).len() == 0 ==> lines[i - 1].len() > 0
    &&& lines.len() > 0 ==> lines[0].len() > 0
}

proof fn lemma_plain_line(piece: Seq<char>)
    ensures
        is_reply_line(reply_line(piece)),
        is_reply_line(piece) ==> reply_line(piece) == piece,
{
    let s = pane_title::stripped(piece);
    pane_title::law_stripped_is_control_free(piece);
    text::lemma_trimmed_end(s);
    let line = text::trimmed_end(s);
    assert forall|i: int| 0 <= i < line.len() implies !text::is_ctrl(#[trigger] line[i]) by {
        assert(line[i] == s[i]);
    }
    if is_reply_line(piece) {
        pane_title::lemma_stripped_of_clean(piece);
    }
}

proof fn lemma_kept_lines(pieces: Seq<Seq<char>>)
    ensures
        are_kept(kept_lines(pieces)),
    decreases pieces.len(),
{
    if pieces.len() > 0 {
        lemma_kept_lines(pieces.drop_last());
        lemma_plain_line(pieces.last());
    }
}

proof fn lemma_joined_starts(lines: Seq<Seq<char>>)
    requires
        lines.len() > 0,
    ensures
        text::joined(lines, seq!['\n']).len() >= lines[0].len(),
        text::joined(lines, seq!['\n']).take(lines[0].len() as int) == lines[0],
    decreases lines.len(),
{
    let n = lines[0].len() as int;
    if lines.len() == 1 {
        assert(lines[0].take(n) =~= lines[0]);
    } else {
        lemma_joined_starts(lines.drop_last());
        let a = text::joined(lines.drop_last(), seq!['\n']);
        assert(text::joined(lines, seq!['\n']).take(n) =~= a.take(n));
    }
}

proof fn lemma_collapsed_is_joined(pieces: Seq<Seq<char>>)
    ensures
        collapsed(pieces).0 == text::joined(kept_lines(pieces), seq!['\n']),
        collapsed(pieces).1 == (pieces.len() > 0 && reply_line(pieces.last()).len() == 0),
        kept_lines(pieces).len() > 0 ==> (collapsed(pieces).1 <==> kept_lines(
            pieces,
        ).last().len() == 0),
    decreases pieces.len(),
{
    if pieces.len() > 0 {
        lemma_collapsed_is_joined(pieces.drop_last());
        lemma_kept_lines(pieces.drop_last());
        let before = kept_lines(pieces.drop_last());
        let line = reply_line(pieces.last());
        lemma_plain_line(pieces.last());
        text::lemma_blank_is_empty(line);
        reveal_strlit("\n");
        assert("\n"@ =~= seq!['\n']);
        if before.len() > 0 {
            lemma_joined_starts(before);
            assert(before.push(line).drop_last() =~= before);
        } else if line.len() == 0 {
            assert(line =~= Seq::empty());
        }
    }
}

/// What trimming does to the joined lines of a reply.
proof fn lemma_trimmed_lines(kept: Seq<Seq<char>>)
    requires
        are_kept(kept),
        kept.len() > 0,
    ensures
        ({
            let shown = if kept.last().len() == 0 {
                kept.drop_last()
            } else {
                kept
            };
            let lines = shown.update(0, text::trimmed_start(shown[0]));
            &&& are_kept(lines)
            &&& lines.len() > 0
            &&& lines.last().len() > 0
            &&& !text::is_space(lines[0][0])
            &&& text::trimmed(text::joined(kept, seq!['\n'])) == text::joined(lines, seq!['\n'])
        }),
{
    let nl = seq!['\n'];
    let cut = kept.last().len() == 0;
    let shown = if cut {
        kept.drop_last()
    } else {
        kept
    };
    let end = if cut {
        nl
    } else {
        Seq::empty()
    };
    assert(kept[kept.len() - 1] == kept.last());
    assert(shown.last() == shown[shown.len() - 1]);
    let head = kept[0];
    assert(is_reply_line(head));
    text::lemma_trimmed_end(head);
    text::lemma_trimmed_start(head);
    let first = text::trimmed_start(head);
    let lines = shown.update(0, first);
    assert(is_reply_line(first)) by {
        let n = head.len() - first.len();
        assert forall|i: int| 0 <= i < first.len() implies !text::is_ctrl(#[trigger] first[i]) by {
            assert(first[i] == head[n + i]);
        }
    }
    assert forall|i: int| 0 <= i < lines.len() implies is_reply_line(#[trigger] lines[i]) by {
        if i > 0 {
            assert(lines[i] == kept[i]);
        }
    }
    assert forall|i: int| 0 < i < lines.len() && (#[trigger] lines[i]).len() == 0 implies lines[i
        - 1].len() > 0 by {
        assert(lines[i] == kept[i]);
    }
    assert(lines.last() == lines[lines.len() - 1]);
    let body = text::joined(shown, nl);
    let rest = body.skip(head.len() as int);
    lemma_joined_starts(shown);
    assert(body =~= head + rest);
    assert(text::joined(kept, nl) =~= body + end) by {
        if cut {
            assert(kept.last() =~= Seq::empty());
        }
    }
    assert(text::joined(kept, nl) =~= head + (rest + end));
    text::lemma_trimmed_start_of_sum(head, rest + end);
    lemma_joined_anew(shown, first);
    let reply = text::joined(lines, nl);
    assert(first + (rest + end) =~= reply + end);
    lemma_joined_ends(lines);
    text::lemma_trimmed_end(lines.last());
    assert(text::trimmed_end(reply) == reply);
    if cut {
        assert((reply + end).drop_last() =~= reply);
    } else {
        assert(reply + end =~= reply);
    }
}

proof fn lemma_joined_ends(lines: Seq<Seq<char>>)
    requires
        lines.len() > 0,
        lines.last().len() > 0,
    ensures
        text::joined(lines, seq!['\n']).len() > 0,
        text::joined(lines, seq!['\n']).last() == lines.last().last(),
{
}

proof fn lemma_joined_anew(lines: Seq<Seq<char>>, first: Seq<char>)
    requires
        lines.len() > 0,
    ensures
        text::joined(lines.update(0, first), seq!['\n']) == first + text::joined(
            lines,
            seq!['\n'],
        ).skip(lines[0].len() as int),
    decreases lines.len(),
{
    let nl = seq!['\n'];
    let n = lines[0].len() as int;
    if lines.len() == 1 {
        assert(lines[0].skip(n) =~= Seq::empty());
        assert(first + Seq::<char>::empty() =~= first);
    } else {
        let init = lines.drop_last();
        lemma_joined_anew(init, first);
        lemma_joined_starts(init);
        assert(lines.update(0, first).drop_last() =~= init.update(0, first));
        let a = text::joined(init, nl);
        assert((a + nl + lines.last()).skip(n) =~= a.skip(n) + nl + lines.last());
        assert(first + (a.skip(n) + nl + lines.last()) =~= first + a.skip(n) + nl + lines.last());
    }
}

proof fn lemma_kept_stay(lines: Seq<Seq<char>>)
    requires
        are_kept(lines),
    ensures
        kept_lines(lines) == lines,
    decreases lines.len(),
{
    if lines.len() > 0 {
        let init = lines.drop_last();
        assert forall|i: int| 0 <= i < init.len() implies is_reply_line(#[trigger] init[i]) by {
            assert(init[i] == lines[i]);
        }
        assert forall|i: int| 0 < i < init.len() && (#[trigger] init[i]).len() == 0 implies init[i
            - 1].len() > 0 by {
            assert(init[i] == lines[i]);
        }
        lemma_kept_stay(init);
        assert(lines.last() == lines[lines.len() - 1]);
        lemma_plain_line(lines.last());
        assert(init.push(lines.last()) =~= lines);
    }
}

/// Lines that are printed as they stand make a reply that stays as it is.
proof fn lemma_reply_of_lines(lines: Seq<Seq<char>>)
    requires
        are_kept(lines),
        lines.len() > 0,
        lines.last().len() > 0,
        !text::is_space(lines[0][0]),
    ensures
        ({
            let reply = text::joined(lines, seq!['\n']);
            &&& text::trimmed(reply) == reply
            &&& text::split_at_char(reply, '\n') == lines
            &&& are_reply_lines(lines)
            &&& sanitized_reply(reply) == reply
        }),
{
    let reply = text::joined(lines, seq!['\n']);
    lemma_joined_starts(lines);
    assert(reply[0] == reply.take(lines[0].len() as int)[0]);
    lemma_joined_ends(lines);
    assert(lines.last() == lines[lines.len() - 1]);
    text::lemma_trimmed_end(lines.last());
    assert forall|i: int| 0 <= i < lines.len() implies text::all_chars(
        #[trigger] lines[i],
        |c: char| c != '\n',
    ) by {
        assert(is_reply_line(lines[i]));
        let line = lines[i];
        assert forall|j: int| 0 <= j < line.len() implies #[trigger] line[j] != '\n' by {
            assert(!text::is_ctrl(line[j]));
        }
    }
    text::lemma_split_of_joined(lines, '\n');
    assert forall|i: int| 0 < i < lines.len() && text::is_blank(
        #[trigger] lines[i],
    ) implies !text::is_blank(lines[i - 1]) by {
        assert(is_reply_line(lines[i]));
        assert(is_reply_line(lines[i - 1]));
        text::lemma_blank_is_empty(lines[i]);
        text::lemma_blank_is_empty(lines[i - 1]);
    }
    lemma_kept_stay(lines);
    lemma_collapsed_is_joined(lines);
}

/// How a digest line is made of a label, a tool and a detail that was cut: with
/// a tool and a detail both stand behind the label, parted by a dash; either
/// may stand there alone; with neither there is no line.
pub open spec fn is_told(
    line: Option<Seq<char>>,
    label: Seq<char>,
    tool: Option<Seq<char>>,
    detail: Seq<char>,
) -> bool {
    &&& tool is Some && detail.len() > 0 ==> line == Some(
        label + tool->0 + " — "@ + detail,
    )
    &&& tool is Some && detail.len() == 0 ==> line == Some(label + tool->0)
    &&& tool is None && detail.len() > 0 ==> line == Some(label + detail)
    &&& tool is None && detail.len() == 0 ==> line is None
}

/// Every event that tells something reaches the digest, under the name of its
/// kind, with its tool and with as much of its detail as its kind may take:
/// what the model said most, the calls of tools least.
pub proof fn law_every_narrative_event_is_told(event: EventModel)
    ensures
        ({
            let line = event_line(event);
            let tool = if event.data is Some && event.data->0.tool_name is Some {
                Some(event.data->0.tool_name->0@)
            } else {
                None
            };
            &&& event.kind == HarnessEventType::ModelText ==> is_told(
                line,
                "assistant: "@,
                tool,
                one_lined(event.detail, 1200),
            )
            &&& event.kind == HarnessEventType::ToolCall ==> is_told(
                line,
                "tool call: "@,
                tool,
                one_lined(event.detail, 160),
            )
            &&& event.kind == HarnessEventType::ToolResult ==> is_told(
                line,
                "tool result: "@,
                tool,
                one_lined(event.detail, 300),
            )
            &&& event.kind == HarnessEventType::RunSummary ==> is_told(
                line,
                "run summary: "@,
                tool,
                one_lined(event.detail, 600),
            )
            &&& event.kind == HarnessEventType::TaskFinished ==> is_told(
                line,
                "task finished: "@,
                tool,
                one_lined(event.detail, 300),
            )
            &&& event.kind == HarnessEventType::OperatorMessage ==> is_told(
                line,
                "operator message: "@,
                tool,
                one_lined(event.detail, 300),
            )
            &&& event.kind == HarnessEventType::Question ==> is_told(
                line,
                "question: "@,
                tool,
                one_lined(event.detail, 300),
            )
            &&& event.kind == HarnessEventType::RunWarning ==> is_told(
                line,
                "warning: "@,
                tool,
                one_lined(event.detail, 200),
            )
            &&& event.kind == HarnessEventType::HarnessOp ==> is_told(
                line,
                "harness op: "@,
                tool,
                one_lined(event.detail, 200),
            )
        }),
{
    lemma_one_lined_blank(event.detail, 160);
    lemma_one_lined_blank(event.detail, 200);
    lemma_one_lined_blank(event.detail, 300);
    lemma_one_lined_blank(event.detail, 600);
    lemma_one_lined_blank(event.detail, 1200);
    let tool = event.tool();
    if tool is Some {
        lemma_told_whole("assistant: "@, tool->0, " — "@, one_lined(event.detail, 1200));
        lemma_told_whole("tool call: "@, tool->0, " — "@, one_lined(event.detail, 160));
        lemma_told_whole("tool result: "@, tool->0, " — "@, one_lined(event.detail, 300));
        lemma_told_whole("run summary: "@, tool->0, " — "@, one_lined(event.detail, 600));
        lemma_told_whole("task finished: "@, tool->0, " — "@, one_lined(event.detail, 300));
        lemma_told_whole("operator message: "@, tool->0, " — "@, one_lined(event.detail, 300));
        lemma_told_whole("question: "@, tool->0, " — "@, one_lined(event.detail, 300));
        lemma_told_whole("warning: "@, tool->0, " — "@, one_lined(event.detail, 200));
        lemma_told_whole("harness op: "@, tool->0, " — "@, one_lined(event.detail, 200));
    }
}

proof fn lemma_told_whole(a: Seq<char>, b: Seq<char>, c: Seq<char>, d: Seq<char>)
    ensures
        a + (b + c + d) == a + b + c + d,
{
    assert(a + (b + c + d) =~= a + b + c + d);
}

proof fn lemma_one_lined_blank(raw: Seq<char>, max_chars: nat)
    requires
        max_chars >= 2,
    ensures
        text::is_blank(one_lined(raw, max_chars)) <==> one_lined(raw, max_chars).len() == 0,
{
    let ws = text::words(raw);
    let flat = text::joined(ws, " "@);
    reveal_strlit(" ");
    assert(" "@ =~= seq![' ']);
    text::lemma_words(raw, |c: char| true);
    text::lemma_joined_spacing(ws);
    let s = one_lined(raw, max_chars);
    text::law_blank_is_all_space(s);
    if s.len() > 0 {
        if flat.len() <= max_chars {
            assert(!text::is_space(s[0]));
        } else {
            assert(s[0] == flat[0]);
            assert(!text::is_space(s[0]));
        }
    }
}

/// A detail on one line: its words with single spaces between them, whole where
/// they fit, else their first characters with an ellipsis for the rest, exactly
/// as many characters as allowed.
pub proof fn law_a_detail_is_cut_only_where_it_must(raw: Seq<char>, max_chars: nat)
    requires
        max_chars > 0,
    ensures
        ({
            let flat = text::joined(text::words(raw), seq![' ']);
            let line = one_lined(raw, max_chars);
            &&& flat.len() <= max_chars ==> line == flat
            &&& flat.len() > max_chars ==> line.len() == max_chars && line.last() == '…'
                && line.drop_last() == flat.take(max_chars - 1)
        }),
{
    reveal_strlit(" ");
    assert(" "@ =~= seq![' ']);
    let flat = text::joined(text::words(raw), seq![' ']);
    assert(flat.take(max_chars - 1).push('…').drop_last() =~= flat.take(max_chars - 1));
}

/// The digest leaves out no other entry that tells something: goals, model
/// routes, ends of runs, skills, and the notices and errors that the sidebar
/// did not print itself.
pub proof fn law_every_entry_is_told(
    at: Seq<char>,
    id: Seq<char>,
    says: Seq<char>,
    images: Seq<Seq<char>>,
    mentions: Seq<Seq<char>>,
    model: crate::transcript::TranscriptModelEntry,
    rounds: i64,
    reason: crate::transcript::HarnessRunReason,
)
    ensures
        ({
            let goal = EntryModel::Goal { at, goal_id: id, images, mentions, text: says };
            let ended = EntryModel::RunEnd { at, goal_id: id, iterations: rounds, reason };
            let own = "btw"@.is_prefix_of(text::trimmed_start(says));
            let blank = forall|i: int| 0 <= i < says.len() ==> text::is_space(#[trigger] says[i]);
            &&& !blank ==> digest_line(goal) == Some("user goal: "@ + one_lined(says, 400))
            &&& blank ==> digest_line(goal) is None
            &&& digest_line(EntryModel::Model(model)) == Some(
                "model route: "@ + model.model@ + " ("@ + model.profile_id@ + ")"@,
            )
            &&& reason is Completed ==> digest_line(ended) == Some(
                "run end: "@ + "Completed"@ + " after "@ + text::signed_decimal(rounds as int)
                    + " iteration(s)"@,
            )
            &&& reason is Other ==> digest_line(ended) == Some(
                "run end: "@ + reason->Other_0@ + " after "@ + text::signed_decimal(rounds as int)
                    + " iteration(s)"@,
            )
            &&& !own ==> digest_line(EntryModel::Info { at, text: says }) == Some(
                "notice: "@ + one_lined(says, 200),
            )
            &&& !own ==> digest_line(EntryModel::Error { at, text: says }) == Some(
                "error: "@ + one_lined(says, 200),
            )
            &&& own ==> digest_line(EntryModel::Info { at, text: says }) is None && digest_line(
                EntryModel::Error { at, text: says },
            ) is None
            &&& digest_line(EntryModel::Skill { at, enabled: true, name: says }) == Some(
                "skill "@ + says + " enabled"@,
            )
            &&& digest_line(EntryModel::Skill { at, enabled: false, name: says }) == Some(
                "skill "@ + says + " disabled"@,
            )
        }),
{
    text::law_blank_is_all_space(says);
}

/// The digest's lines are those of its entries, one after the other: what an
/// entry has to tell stands there whatever comes before or after it.
pub proof fn law_the_digest_keeps_every_line(a: Seq<EntryModel>, entry: EntryModel, b: Seq<EntryModel>)
    ensures
        digest_body(a.push(entry) + b) == digest_body(a) + (match digest_line(entry) {
            Some(line) => seq![line],
            None => Seq::empty(),
        }) + digest_body(b),
        digest_body(Seq::empty()) == Seq::<Seq<char>>::empty(),
    decreases b.len(),
{
    let s = a.push(entry) + b;
    let own = match digest_line(entry) {
        Some(line) => seq![line],
        None => Seq::empty(),
    };
    if b.len() == 0 {
        assert(s =~= a.push(entry));
        assert(s.drop_last() =~= a);
        assert(digest_body(s) =~= digest_body(a) + own + digest_body(b));
    } else {
        law_the_digest_keeps_every_line(a, entry, b.drop_last());
        assert(s.drop_last() =~= a.push(entry) + b.drop_last());
        assert(s.last() == b.last());
        assert(digest_body(s) =~= digest_body(a) + own + digest_body(b));
    }
}

/// A session whose digest fits is told whole: the header, then every line, each
/// on a line of its own.
pub proof fn law_a_short_session_is_told_whole(
    entries: Seq<EntryModel>,
    header: Seq<Seq<char>>,
    max_chars: nat,
)
    requires
        header.len() > 0,
        cost_from(header, 0) + cost_from(digest_body(entries), 0) <= max_chars,
    ensures
        digest(entries, header, max_chars) == text::joined(header + digest_body(entries), seq!['\n']),
{
    reveal_strlit("\n");
    assert("\n"@ =~= seq!['\n']);
    let body = digest_body(entries);
    let left = max_chars - cost_from(header, 0);
    if body.len() > 0 {
        lemma_all_kept(body, (body.len() - 1) as nat, left);
        assert(body.skip(0) =~= body);
        lemma_joined_sum(header, body);
    } else {
        assert(header + body =~= header);
    }
}

proof fn lemma_all_kept(lines: Seq<Seq<char>>, k: nat, budget: int)
    requires
        k <= lines.len(),
        cost_from(lines, 0) <= budget,
    ensures
        kept_from(lines, k, budget) == 0,
    decreases k,
{
    if k > 0 {
        lemma_cost_shrinks(lines, k - 1);
        lemma_all_kept(lines, (k - 1) as nat, budget);
    }
}

proof fn lemma_cost_shrinks(lines: Seq<Seq<char>>, k: int)
    requires
        0 <= k <= lines.len(),
    ensures
        cost_from(lines, k) <= cost_from(lines, 0),
    decreases k,
{
    if k > 0 {
        lemma_cost_shrinks(lines, k - 1);
    }
}

proof fn lemma_joined_sum(a: Seq<Seq<char>>, b: Seq<Seq<char>>)
    requires
        a.len() > 0,
        b.len() > 0,
    ensures
        text::joined(a + b, seq!['\n']) == text::joined(a, seq!['\n']) + seq!['\n'] + text::joined(
            b,
            seq!['\n'],
        ),
    decreases b.len(),
{
    let s = a + b;
    assert(s.last() == b.last());
    if b.len() == 1 {
        assert(s.drop_last() =~= a);
    } else {
        lemma_joined_sum(a, b.drop_last());
        assert(s.drop_last() =~= a + b.drop_last());
        assert(text::joined(s, seq!['\n']) =~= text::joined(a, seq!['\n']) + seq!['\n']
            + text::joined(b, seq!['\n']));
    }
}

/// What lines cost against the budget: their characters and one line feed each.
pub proof fn law_a_line_costs_its_length_and_a_line_feed(lines: Seq<Seq<char>>, k: int)
    requires
        0 <= k < lines.len(),
    ensures
        cost_from(lines, k) == lines[k].len() + 1 + cost_from(lines, k + 1),
        cost_from(lines, lines.len() as int) == 0,
{
}

/// The header says which session it is, where its whole transcript is, whether
/// a run is in flight and, where a goal was recorded, which.
pub proof fn law_the_header_names_the_session(
    id: Seq<char>,
    path: Seq<char>,
    running: bool,
    goal: Option<Seq<char>>,
)
    ensures
        ({
            let h = digest_header(id, path, running, goal);
            &&& h.len() >= 3
            &&& h[0] == "session id: "@ + id
            &&& h[1] == "full transcript file: "@ + path
            &&& running ==> h[2]
                == "state: a run is in flight right now (the operator is chatting from inside it)"@
            &&& !running ==> h[2] == "state: no run in flight (the session is idle or finished)"@
            &&& goal is Some && !text::is_blank(goal->0) ==> h.len() == 4 && h[3]
                == "last goal (recorded): "@ + one_lined(goal->0, 400)
            &&& goal is None || text::is_blank(goal->0) ==> h.len() == 3
        }),
{
    reveal_strlit("state: ");
    reveal_strlit("a run is in flight right now (the operator is chatting from inside it)");
    reveal_strlit("state: a run is in flight right now (the operator is chatting from inside it)");
    reveal_strlit("no run in flight (the session is idle or finished)");
    reveal_strlit("state: no run in flight (the session is idle or finished)");
    assert("state: "@ + "a run is in flight right now (the operator is chatting from inside it)"@
        =~= "state: a run is in flight right now (the operator is chatting from inside it)"@);
    assert("state: "@ + "no run in flight (the session is idle or finished)"@
        =~= "state: no run in flight (the session is idle or finished)"@);
}

/// A request replays the newest two dozen turns, those among them that say
/// anything, each under the role of its speaker and in order.
pub proof fn law_the_newest_turns_are_replayed(turns: Seq<BtwTurn>)
    ensures
        ({
            let n: int = if turns.len() > 24 {
                turns.len() - 24
            } else {
                0
            };
            spoken(last_of(turns, BTW_HISTORY_TURNS as nat)) == turns.skip(n).filter(
                |t: BtwTurn|
                    exists|i: int| 0 <= i < t.text@.len() && !text::is_space(#[trigger] t.text@[i]),
            )
        }),
        sent_role(BtwRole::User) == ChatRoleTag::User,
        sent_role(BtwRole::Assistant) == ChatRoleTag::Assistant,
{
    if turns.len() <= 24 {
        assert(turns.skip(0) =~= turns);
    }
    lemma_spoken_is_filter(last_of(turns, BTW_HISTORY_TURNS as nat));
}

proof fn lemma_spoken_is_filter(turns: Seq<BtwTurn>)
    ensures
        spoken(turns) == turns.filter(
            |t: BtwTurn|
                exists|i: int| 0 <= i < t.text@.len() && !text::is_space(#[trigger] t.text@[i]),
        ),
    decreases turns.len(),
{
    let says = |t: BtwTurn|
        exists|i: int| 0 <= i < t.text@.len() && !text::is_space(#[trigger] t.text@[i]);
    reveal(Seq::filter);
    if turns.len() > 0 {
        lemma_spoken_is_filter(turns.drop_last());
        text::law_blank_is_all_space(turns.last().text@);
        assert(says(turns.last()) == !text::is_blank(turns.last().text@));
    } else {
        assert(spoken(turns) =~= turns.filter(says));
    }
}

/// A question is counted when it is asked, an answer is not.
pub proof fn law_only_questions_are_counted(turns: Seq<BtwTurn>, turn: BtwTurn)
    ensures
        turn.role == BtwRole::User ==> questions(turns.push(turn)) == questions(turns) + 1,
        turn.role == BtwRole::Assistant ==> questions(turns.push(turn)) == questions(turns),
        questions(Seq::empty()) == 0,
{
    assert(turns.push(turn).drop_last() =~= turns);
}

/// The tail of the thread shows each of its turns in order: its first lines,
/// six at most, each behind the speaker.
pub proof fn law_the_tail_shows_every_turn(turns: Seq<BtwTurn>, turn: BtwTurn, i: int)
    requires
        0 <= i < text::lines(turn.text@).len(),
        i < 6,
    ensures
        thread_lines(turns.push(turn)) == thread_lines(turns) + turn_lines(turn),
        turn_lines(turn).len() <= 6,
        i < turn_lines(turn).len() <= text::lines(turn.text@).len(),
        turn.role == BtwRole::User ==> turn_lines(turn)[i] == "btw | you: "@ + text::lines(
            turn.text@,
        )[i],
        turn.role == BtwRole::Assistant ==> turn_lines(turn)[i] == "btw | btw: "@ + text::lines(
            turn.text@,
        )[i],
{
    assert(turns.push(turn).drop_last() =~= turns);
}

/// An exchange is printed as the question and every line of the reply, each
/// marked as the sidebar's.
pub proof fn law_an_exchange_is_printed_whole(question: Seq<char>, reply: Seq<char>, i: int)
    requires
        0 <= i < text::lines(reply).len(),
    ensures
        chat_lines(question, reply).len() == 1 + text::lines(reply).len(),
        chat_lines(question, reply)[0] == "btw · "@ + question,
        chat_lines(question, reply)[i + 1] == "btw | "@ + text::lines(reply)[i],
{
}

/// A reply that is clean is printed as it came: lines without controls and
/// without white space at their ends, single blank lines between them. Only a
/// reply of more than eight thousand characters is cut, and then ends in an
/// ellipsis.
pub proof fn law_a_clean_reply_is_printed_as_it_came(lines: Seq<Seq<char>>)
    requires
        lines.len() > 0,
        forall|i: int, j: int|
            0 <= i < lines.len() && 0 <= j < lines[i].len() ==> !text::is_ctrl(
                #[trigger] lines[i][j],
            ),
        forall|i: int|
            0 <= i < lines.len() && (#[trigger] lines[i]).len() > 0 ==> !text::is_space(
                lines[i].last(),
            ),
        forall|i: int|
            0 < i < lines.len() && (#[trigger] lines[i]).len() == 0 ==> lines[i - 1].len() > 0,
        lines[0].len() > 0,
        !text::is_space(lines[0][0]),
        lines.last().len() > 0,
    ensures
        ({
            let reply = text::joined(lines, seq!['\n']);
            &&& sanitized_reply(reply) == reply
            &&& reply.len() <= 8000 ==> printed_reply(reply) == Some(reply)
            &&& reply.len() > 8000 ==> printed_reply(reply) == Some(
                reply.take(7999) + seq!['…'],
            )
        }),
{
    assert forall|i: int| 0 <= i < lines.len() implies is_reply_line(#[trigger] lines[i]) by {
        assert forall|j: int| 0 <= j < lines[i].len() implies !text::is_ctrl(
            #[trigger] lines[i][j],
        ) by {}
    }
    lemma_reply_of_lines(lines);
    lemma_joined_starts(lines);
    let reply = text::joined(lines, seq!['\n']);
    assert(reply.take(7999).push('…') =~= reply.take(7999) + seq!['…']);
}

/// A reply is cleaned line by line: taking the controls, and the white space at
/// its end, out of each line first changes nothing in what is printed.
pub proof fn law_a_reply_is_cleaned_line_by_line(lines: Seq<Seq<char>>)
    requires
        lines.len() > 0,
        forall|i: int| 0 <= i < lines.len() ==> !(#[trigger] lines[i]).contains('\n'),
    ensures
        sanitized_reply(text::joined(lines, seq!['\n'])) == sanitized_reply(
            text::joined(
                Seq::new(lines.len(), |i: int| text::trimmed_end(pane_title::stripped(lines[i]))),
                seq!['\n'],
            ),
        ),
{
    let clean = Seq::new(lines.len(), |i: int| text::trimmed_end(pane_title::stripped(lines[i])));
    assert forall|i: int| 0 <= i < lines.len() implies text::all_chars(
        #[trigger] lines[i],
        |d: char| d != '\n',
    ) by {
        let line = lines[i];
        assert forall|j: int| 0 <= j < line.len() implies #[trigger] line[j] != '\n' by {
            assert(line.contains(line[j]));
        }
    }
    assert forall|i: int| 0 <= i < clean.len() implies text::all_chars(
        #[trigger] clean[i],
        |d: char| d != '\n',
    ) by {
        lemma_plain_line(lines[i]);
        let line = clean[i];
        assert(is_reply_line(line));
        assert forall|j: int| 0 <= j < line.len() implies #[trigger] line[j] != '\n' by {
            assert(!text::is_ctrl(line[j]));
        }
    }
    text::lemma_split_of_joined(lines, '\n');
    text::lemma_split_of_joined(clean, '\n');
    lemma_collapsed_of_clean(lines, clean);
}

proof fn lemma_collapsed_of_clean(lines: Seq<Seq<char>>, clean: Seq<Seq<char>>)
    requires
        lines.len() == clean.len(),
        forall|i: int| 0 <= i < lines.len() ==> #[trigger] clean[i] == reply_line(lines[i]),
    ensures
        collapsed(lines) == collapsed(clean),
    decreases lines.len(),
{
    if lines.len() > 0 {
        lemma_collapsed_of_clean(lines.drop_last(), clean.drop_last());
        let n = lines.len() - 1;
        assert(clean[n] == reply_line(lines[n]));
        lemma_plain_line(lines[n]);
        lemma_plain_line(clean[n]);
    }
}

/// The bounds of the sidebar: a minute for an answer, twelve thousand
/// characters for the digest, two dozen turns and eight thousand characters for
/// a reply.
pub proof fn law_the_sidebar_keeps_its_bounds(raw: Seq<char>)
    ensures
        BTW_TIMEOUT_MS == 60_000,
        BTW_DIGEST_CHARS == 12_000,
        BTW_HISTORY_TURNS == 24,
        sanitized_reply(raw).len() == 0 ==> printed_reply(raw) is None,
        0 < sanitized_reply(raw).len() <= 8_000 ==> printed_reply(raw) == Some(
            sanitized_reply(raw),
        ),
        sanitized_reply(raw).len() > 8_000 ==> printed_reply(raw) == Some(
            sanitized_reply(raw).take(7_999).push('…'),
        ),
{
}

/// The framing of the sidebar: that it is one, what it has, and how it answers.
/// The digest of the session stands behind it.
pub proof fn law_the_sidebar_is_framed_as_one()
    ensures
        BTW_SYSTEM_PROMPT@
            == "You are a *sidebar* (`/btw`) conversation spawned from a drip coding session. You are NOT the agent working on that session's goal, and nothing you say is sent to it: the operator opened this sidebar to ask side questions about the session without disturbing it.\n\nWhat you have:\n- Below: a digest of that session's transcript — its goals, its own assistant replies, its tool calls, tool results, warnings and run ends — plus the session id and the path to the full transcript.jsonl file for detail the digest does not carry.\n\nHow to answer:\n- Answer conversationally, in plain prose: what has happened so far, what the session is doing now, why it looks stuck or slow, what it read or changed, what it said, what seems worth doing next.\n- Do NOT produce a run summary, task table, or status report unless the operator explicitly asks for one. A couple of short paragraphs or a few bullets read better than headings.\n- Ground every claim in the digest. When the digest does not contain the answer, say so plainly and name what you would need (or the transcript line to check) instead of inventing it.\n- You cannot run tools, edit files, or change that session — you only read and explain.\n- The operator may ask follow-ups; keep the thread of the conversation and build on what you already said.\n- Be concise: your reply is printed straight into the operator's chat as it arrives."@,
{
}

} // verus!
