//! Timeline rows: how one transcript entry is printed.

use vstd::prelude::*;
use crate::ansi;
use crate::ansi::char_width;
use crate::text;
use crate::text::{chars_of, concat2, format_signed, split_lines, sub_string};
use crate::transcript::{EntryModel, HarnessEventType, HarnessRunReason, TranscriptEntry};

verus! {

/// Rows that a repaint always tries to fill with recent history.
pub const MIN_TAIL_ROWS: usize = 6;

/// Rows that a repaint leaves to the live region.
pub const LIVE_REGION_RESERVED_ROWS: usize = 10;

/// How many characters of `s`, of which the first `n` stand in the row, fit in
/// `width` columns.
pub open spec fn row_end(s: Seq<char>, n: nat, width: nat) -> nat
    decreases s.len() - n,
{
    if n < s.len() && ansi::columns(s.take(n as int + 1)) <= width {
        row_end(s, n + 1, width)
    } else {
        n
    }
}

/// How many characters the first row of `s` takes: as many as fit, and one
/// at least.
pub open spec fn first_row(s: Seq<char>, width: nat) -> nat {
    let n = row_end(s, 0, width);
    if n == 0 && s.len() > 0 {
        1
    } else {
        n
    }
}

/// `s` cut into rows of at most `width` columns; uncut where `width` is zero.
pub open spec fn wrapped(s: Seq<char>, width: nat) -> Seq<Seq<char>>
    decreases s.len(),
{
    let k = first_row(s, width);
    if width == 0 || k >= s.len() {
        seq![s]
    } else {
        seq![s.take(k as int)] + wrapped(s.skip(k as int), width)
    }
}

proof fn lemma_row_end(s: Seq<char>, n: nat, width: nat)
    requires
        n <= s.len(),
    ensures
        n <= row_end(s, n, width) <= s.len(),
    decreases s.len() - n,
{
    if n < s.len() && ansi::columns(s.take(n as int + 1)) <= width {
        lemma_row_end(s, n + 1, width);
    }
}

fn row_stop(x: &Vec<char>, from: usize, width: usize) -> (r: usize)
    requires
        from <= x.len(),
    ensures
        from <= r <= x.len(),
        r - from == first_row(x@.skip(from as int), width as nat),
{
    let ghost s = x@.skip(from as int);
    let mut i: usize = from;
    let mut used: usize = 0;
    assert(s.take(0) =~= Seq::empty());
    while i < x.len()
        invariant
            from <= i <= x.len(),
            s == x@.skip(from as int),
            used <= width,
            used == ansi::columns(s.take(i - from)),
            row_end(s, 0, width as nat) == row_end(s, (i - from) as nat, width as nat),
        decreases x.len() - i,
    {
        let w: usize = char_width(x[i]);
        assert(s.take(i - from + 1).drop_last() =~= s.take(i - from));
        assert(s.take(i - from + 1).last() == x@[i as int]);
        if w > width - used {
            if i == from {
                return i + 1;
            }
            return i;
        }
        used = used + w;
        i = i + 1;
    }
    i
}

/// Cuts `s` into rows of at most `width` columns.
pub fn wrap_rows(s: &str, width: usize) -> (r: Vec<String>)
    ensures
        text::texts(r@) == wrapped(s@, width as nat),
{
    let x = chars_of(s);
    let mut rows: Vec<String> = Vec::new();
    if width == 0 {
        rows.push(s.to_string());
        assert(text::texts(rows@) =~= seq![s@]);
        return rows;
    }
    let mut i: usize = 0;
    assert(x@.skip(0) =~= x@);
    assert(text::texts(rows@) + wrapped(x@, width as nat) =~= wrapped(x@, width as nat));
    loop
        invariant
            i <= x.len(),
            width > 0,
            x@ == s@,
            text::texts(rows@) + wrapped(x@.skip(i as int), width as nat) == wrapped(
                x@,
                width as nat,
            ),
        decreases x.len() - i,
    {
        broadcast use text::lemma_texts_push;

        let ghost rest = x@.skip(i as int);
        let ghost before = text::texts(rows@);
        let stop: usize = row_stop(&x, i, width);
        let row = sub_string(&x, i, stop);
        rows.push(row);
        assert(row@ =~= rest.take(stop - i));
        assert(text::texts(rows@) =~= before + seq![row@]);
        if stop >= x.len() {
            assert(rest.take(stop - i) =~= rest);
            assert(text::texts(rows@) =~= before + wrapped(rest, width as nat));
            return rows;
        }
        assert(rest.skip(stop - i) =~= x@.skip(stop as int));
        assert(text::texts(rows@) + wrapped(x@.skip(stop as int), width as nat) =~= before + (
        seq![row@] + wrapped(x@.skip(stop as int), width as nat)));
        i = stop;
    }
}

/// The texts of `rows` one after the other.
pub open spec fn unwrapped(rows: Seq<Seq<char>>) -> Seq<char>
    decreases rows.len(),
{
    if rows.len() == 0 {
        Seq::empty()
    } else {
        rows[0] + unwrapped(rows.skip(1))
    }
}

/// Wrapping loses nothing: the rows one after the other are the text.
pub proof fn law_wrapping_loses_nothing(s: Seq<char>, width: nat)
    ensures
        unwrapped(wrapped(s, width)) == s,
    decreases s.len(),
{
    reveal_with_fuel(unwrapped, 2);
    let k = first_row(s, width);
    let rows = wrapped(s, width);
    if width == 0 || k >= s.len() {
        assert(rows.skip(1) =~= Seq::empty());
        assert(s + Seq::<char>::empty() =~= s);
    } else {
        lemma_row_end(s, 0, width);
        law_wrapping_loses_nothing(s.skip(k as int), width);
        assert(rows.skip(1) =~= wrapped(s.skip(k as int), width));
        assert(s.take(k as int) + s.skip(k as int) =~= s);
    }
}

// ---------------------------------------------------------------------------
// Lines of an entry
// ---------------------------------------------------------------------------

/// The lines of `body` with `label` before the first.
pub open spec fn labelled(label: Seq<char>, body: Seq<char>) -> Seq<Seq<char>> {
    let ls = text::lines(body);
    if ls.len() == 0 {
        seq![label]
    } else {
        ls.update(0, label + ls[0])
    }
}

/// What an event row starts with.
pub open spec fn event_label(kind: HarnessEventType) -> Seq<char> {
    match kind {
        HarnessEventType::RunSummary => "run summary: "@,
        HarnessEventType::RunWarning => "warning: "@,
        HarnessEventType::ToolCall => "tool call: "@,
        HarnessEventType::ToolResult => "tool result: "@,
        HarnessEventType::Question => "question: "@,
        HarnessEventType::OperatorMessage => "operator: "@,
        _ => ""@,
    }
}

/// How a timeline row names the reason why a run ended.
pub open spec fn reason_label(reason: HarnessRunReason) -> Seq<char> {
    match reason {
        HarnessRunReason::Completed => "completed"@,
        HarnessRunReason::Other(name) => name@,
    }
}

/// The lines that an entry prints, before they are cut to a width.
pub open spec fn entry_lines(entry: EntryModel) -> Seq<Seq<char>> {
    match entry {
        EntryModel::Goal { text, .. } => seq![Seq::<char>::empty()] + labelled("❯ goal "@, text),
        EntryModel::Event(event) => labelled(event_label(event.kind), event.detail),
        EntryModel::Info { text, .. } => labelled(""@, text),
        EntryModel::Error { text, .. } => labelled("error: "@, text),
        EntryModel::Model(model) => seq![
            "model route: "@ + model.model@ + " ("@ + model.profile_id@ + ")"@,
        ],
        EntryModel::RunEnd { iterations, reason, .. } => seq![
            "run "@ + reason_label(reason) + " after "@ + text::signed_decimal(
                iterations as int,
            ) + " cycles"@,
        ],
        EntryModel::Skill { name, enabled, .. } => seq![
            "skill "@ + name + (if enabled {
                " enabled"@
            } else {
                " disabled"@
            }),
        ],
    }
}

fn label_lines(label: &str, body: &str) -> (r: Vec<String>)
    ensures
        text::texts(r@) == labelled(label@, body@),
        r@.len() >= 1,
{
    let ls = split_lines(body);
    let ghost all = text::texts(ls@);
    let mut rows: Vec<String> = Vec::new();
    if ls.len() == 0 {
        rows.push(label.to_string());
        assert(text::texts(rows@) =~= seq![label@]);
        return rows;
    }
    rows.push(concat2(label, ls[0].as_str()));
    let ghost want = all.update(0, label@ + all[0]);
    assert(text::texts(rows@) =~= want.take(1));
    let mut i: usize = 1;
    while i < ls.len()
        invariant
            1 <= i <= ls.len(),
            all == text::texts(ls@),
            want == all.update(0, label@ + all[0]),
            text::texts(rows@) == want.take(i as int),
        decreases ls.len() - i,
    {
        broadcast use text::lemma_texts_push;

        rows.push(ls[i].clone());
        assert(want.take(i + 1) =~= want.take(i as int).push(all[i as int]));
        i = i + 1;
    }
    assert(want.take(i as int) =~= want);
    rows
}

fn lines_of_entry(entry: &TranscriptEntry) -> (r: Vec<String>)
    ensures
        text::texts(r@) == entry_lines(entry@),
        r@.len() >= 1,
{
    match entry {
        TranscriptEntry::Goal(goal) => {
            let mut rows: Vec<String> = Vec::new();
            rows.push(String::new());
            let mut body = label_lines("❯ goal ", goal.text.as_str());
            let ghost b = body@;
            let ghost a = rows@;
            rows.append(&mut body);
            proof {
                text::lemma_texts_add(a, b);
                assert(text::texts(a) =~= seq![Seq::<char>::empty()]);
                assert(rows@ =~= a + b);
            }
            rows
        },
        TranscriptEntry::Event(event) => {
            let label = match event.kind {
                HarnessEventType::RunSummary => "run summary: ",
                HarnessEventType::RunWarning => "warning: ",
                HarnessEventType::ToolCall => "tool call: ",
                HarnessEventType::ToolResult => "tool result: ",
                HarnessEventType::Question => "question: ",
                HarnessEventType::OperatorMessage => "operator: ",
                _ => "",
            };
            label_lines(label, event.detail.as_str())
        },
        TranscriptEntry::Info(note) => label_lines("", note.text.as_str()),
        TranscriptEntry::Error(note) => label_lines("error: ", note.text.as_str()),
        TranscriptEntry::Model(model) => {
            let mut row = "model route: ".to_string();
            row.append(model.model.as_str());
            row.append(" (");
            row.append(model.profile_id.as_str());
            row.append(")");
            let mut rows: Vec<String> = Vec::new();
            rows.push(row);
            assert(text::texts(rows@) =~= seq![row@]);
            rows
        },
        TranscriptEntry::RunEnd(run) => {
            let mut row = "run ".to_string();
            match &run.reason {
                HarnessRunReason::Completed => row.append("completed"),
                HarnessRunReason::Other(name) => row.append(name.as_str()),
            }
            row.append(" after ");
            let n = format_signed(run.iterations);
            row.append(n.as_str());
            row.append(" cycles");
            let mut rows: Vec<String> = Vec::new();
            rows.push(row);
            assert(text::texts(rows@) =~= seq![row@]);
            rows
        },
        TranscriptEntry::Skill(skill) => {
            let mut row = "skill ".to_string();
            row.append(skill.name.as_str());
            if skill.enabled {
                row.append(" enabled");
            } else {
                row.append(" disabled");
            }
            let mut rows: Vec<String> = Vec::new();
            rows.push(row);
            assert(text::texts(rows@) =~= seq![row@]);
            rows
        },
    }
}

/// The rows of all `lines`, each cut to `width` columns.
pub open spec fn wrapped_lines(lines: Seq<Seq<char>>, width: nat) -> Seq<Seq<char>>
    decreases lines.len(),
{
    if lines.len() == 0 {
        Seq::empty()
    } else {
        wrapped_lines(lines.drop_last(), width) + wrapped(lines.last(), width)
    }
}

/// The rows of an entry at `width` columns.
pub fn render_timeline_cell(entry: &TranscriptEntry, width: usize) -> (r: Vec<String>)
    ensures
        text::texts(r@) == wrapped_lines(entry_lines(entry@), width as nat),
{
    let ls = lines_of_entry(entry);
    let ghost all = text::texts(ls@);
    let mut rows: Vec<String> = Vec::new();
    let mut i: usize = 0;
    assert(all.take(0) =~= Seq::empty());
    assert(text::texts(rows@) =~= Seq::empty());
    while i < ls.len()
        invariant
            i <= ls.len(),
            all == text::texts(ls@),
            text::texts(rows@) == wrapped_lines(all.take(i as int), width as nat),
        decreases ls.len() - i,
    {
        let mut cut = wrap_rows(ls[i].as_str(), width);
        proof {
            text::lemma_texts_add(rows@, cut@);
            assert(all.take(i + 1).drop_last() =~= all.take(i as int));
        }
        rows.append(&mut cut);
        i = i + 1;
    }
    assert(all.take(i as int) =~= all);
    rows
}

/// How many rows an entry is budgeted for: its lines, uncut.
pub fn estimate_cell_rows(entry: &TranscriptEntry) -> (r: usize)
    ensures
        r == entry_lines(entry@).len(),
        r >= 1,
{
    let ls = lines_of_entry(entry);
    ls.len()
}

// ---------------------------------------------------------------------------
// Laws
// ---------------------------------------------------------------------------

/// Every entry is printed: what a goal, a notice or an error says with all of
/// its lines, the first of them behind what it is; an event behind the name of
/// its kind; and each other entry on one line of its own.
pub proof fn law_every_entry_is_printed(
    at: Seq<char>,
    id: Seq<char>,
    says: Seq<char>,
    images: Seq<Seq<char>>,
    mentions: Seq<Seq<char>>,
    model: crate::transcript::TranscriptModelEntry,
    rounds: i64,
    reason: HarnessRunReason,
)
    requires
        says.len() > 0,
        !says.contains('\n'),
    ensures
        entry_lines(EntryModel::Goal { at, goal_id: id, images, mentions, text: says }) == seq![
            Seq::<char>::empty(),
            "❯ goal "@ + says,
        ],
        entry_lines(EntryModel::Info { at, text: says }) == seq![says],
        entry_lines(EntryModel::Error { at, text: says }) == seq!["error: "@ + says],
        entry_lines(EntryModel::Model(model)) == seq![
            "model route: "@ + model.model@ + " ("@ + model.profile_id@ + ")"@,
        ],
        reason is Completed ==> entry_lines(
            EntryModel::RunEnd { at, goal_id: id, iterations: rounds, reason },
        ) == seq![
            "run "@ + "completed"@ + " after "@ + text::signed_decimal(rounds as int) + " cycles"@,
        ],
        entry_lines(EntryModel::Skill { at, enabled: true, name: says }) == seq![
            "skill "@ + says + " enabled"@,
        ],
        entry_lines(EntryModel::Skill { at, enabled: false, name: says }) == seq![
            "skill "@ + says + " disabled"@,
        ],
{
    reveal_strlit("");
    text::law_a_text_without_line_feed_is_one_line(says);
    assert(""@ + says =~= says);
    assert(entry_lines(EntryModel::Goal { at, goal_id: id, images, mentions, text: says })
        =~= seq![Seq::<char>::empty(), "❯ goal "@ + says]);
    assert(entry_lines(EntryModel::Info { at, text: says }) =~= seq![says]);
    assert(entry_lines(EntryModel::Error { at, text: says }) =~= seq!["error: "@ + says]);
}

/// A text of several lines is printed with all of them, the label before the
/// first.
pub proof fn law_every_line_is_printed(label: Seq<char>, body: Seq<char>, i: int)
    requires
        0 <= i < text::lines(body).len(),
    ensures
        labelled(label, body).len() == text::lines(body).len(),
        i == 0 ==> labelled(label, body)[i] == label + text::lines(body)[i],
        i > 0 ==> labelled(label, body)[i] == text::lines(body)[i],
{
}

/// The rows of a line follow each other and leave nothing out, and none of them
/// is wider than allowed unless a single character is.
pub proof fn law_rows_are_as_wide_as_allowed(s: Seq<char>, width: nat, i: int)
    requires
        width > 0,
        0 <= i < wrapped(s, width).len(),
    ensures
        ansi::columns(wrapped(s, width)[i]) <= width || wrapped(s, width)[i].len() == 1,
    decreases s.len(),
{
    let k = first_row(s, width);
    lemma_row_fits(s, 0, width);
    assert(s.take(0) =~= Seq::empty());
    if k >= s.len() {
        assert(s.take(s.len() as int) =~= s);
    } else if i > 0 {
        assert(wrapped(s, width)[i] == wrapped(s.skip(k as int), width)[i - 1]);
        law_rows_are_as_wide_as_allowed(s.skip(k as int), width, i - 1);
    }
}

proof fn lemma_row_fits(s: Seq<char>, n: nat, width: nat)
    requires
        n <= s.len(),
        ansi::columns(s.take(n as int)) <= width,
    ensures
        n <= row_end(s, n, width) <= s.len(),
        ansi::columns(s.take(row_end(s, n, width) as int)) <= width,
    decreases s.len() - n,
{
    if n < s.len() && ansi::columns(s.take(n as int + 1)) <= width {
        lemma_row_fits(s, n + 1, width);
    }
}

} // verus!
