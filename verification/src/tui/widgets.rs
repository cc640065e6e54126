//! Framed boxes.

use vstd::prelude::*;
use crate::ansi;
use crate::ansi::{clip_ansi, string_width};
use crate::text;
use crate::text::{concat3, repeat_char};
use crate::tui::evals::push_row;

verus! {

/// The SGR code of accented text.
pub const ACCENT: &'static str = "\u{1b}[36m";

/// The SGR code of dim text.
pub const FAINT: &'static str = "\u{1b}[90m";

/// The SGR code that ends a colour.
pub const PLAIN: &'static str = "\u{1b}[39m";

/// `s` accented.
pub open spec fn accented(s: Seq<char>) -> Seq<char> {
    ACCENT@ + s + PLAIN@
}

/// `s` faint.
pub open spec fn faint(s: Seq<char>) -> Seq<char> {
    FAINT@ + s + PLAIN@
}

pub fn paint_accent(s: &str) -> (r: String)
    ensures
        r@ == accented(s@),
{
    concat3(ACCENT, s, PLAIN)
}

pub fn paint_faint(s: &str) -> (r: String)
    ensures
        r@ == faint(s@),
{
    concat3(FAINT, s, PLAIN)
}

/// The columns that a frame of `width` columns leaves to its rows.
pub open spec fn inner_width(width: nat) -> nat {
    if width > 4 {
        (width - 4) as nat
    } else {
        0
    }
}

/// A row inside a frame: cut to the inner width and filled up with spaces.
pub open spec fn box_row(row: Seq<char>, width: nat) -> Seq<char> {
    let cut = ansi::clipped(row, inner_width(width));
    "│ "@ + cut + text::repeated(' ', (inner_width(width) - ansi::text_width(cut)) as nat) + " │"@
}

/// The upper edge of a frame.
pub open spec fn box_top(title: Seq<char>, width: nat) -> Seq<char> {
    if title.len() == 0 {
        "╭"@ + text::repeated('─', inner_width(width) + 2) + "╮"@
    } else {
        let cut = ansi::clipped(title, inner_width(width));
        "╭ "@ + cut + " "@ + text::repeated(
            '─',
            (inner_width(width) - ansi::text_width(cut)) as nat,
        ) + "╮"@
    }
}

/// The rows of a frame.
pub open spec fn box_rows(rows: Seq<Seq<char>>, width: nat) -> Seq<Seq<char>> {
    Seq::new(rows.len(), |i: int| box_row(rows[i], width))
}

/// A frame of `width` columns round `rows`, with a title in its upper edge
/// where `title` is not empty.
pub open spec fn framed(rows: Seq<Seq<char>>, width: nat, title: Seq<char>) -> Seq<Seq<char>> {
    (seq![box_top(title, width)] + box_rows(rows, width)).push(
        "╰"@ + text::repeated('─', inner_width(width) + 2) + "╯"@,
    )
}

fn frame_row(row: &str, inner: usize, width: usize) -> (r: String)
    requires
        inner == inner_width(width as nat),
    ensures
        r@ == box_row(row@, width as nat),
{
    let cut = clip_ansi(row, inner);
    let used: usize = string_width(cut.as_str());
    let pad = repeat_char(' ', inner - used);
    let mut out = concat3("│ ", cut.as_str(), pad.as_str());
    out.append(" │");
    out
}

/// Draws a frame of `width` columns round `rows`, titled where `title` is not
/// empty.
pub fn boxed_titled(rows: &Vec<String>, width: usize, title: &str) -> (r: Vec<String>)
    ensures
        text::texts(r@) == framed(text::texts(rows@), width as nat, title@),
{
    let inner: usize = if width > 4 {
        width - 4
    } else {
        0
    };
    let edge = if width > 4 {
        repeat_char('─', width - 2)
    } else {
        repeat_char('─', 2)
    };
    let top = if title.unicode_len() == 0 {
        concat3("╭", edge.as_str(), "╮")
    } else {
        let cut = clip_ansi(title, inner);
        let used: usize = string_width(cut.as_str());
        let rest = repeat_char('─', inner - used);
        let mut t = concat3("╭ ", cut.as_str(), " ");
        t.append(rest.as_str());
        t.append("╮");
        t
    };
    assert(top@ == box_top(title@, width as nat));
    let ghost all = text::texts(rows@);
    let ghost body = box_rows(all, width as nat);
    let mut out: Vec<String> = Vec::new();
    out.push(top);
    assert(text::texts(out@) =~= seq![box_top(title@, width as nat)] + body.take(0));
    let mut i: usize = 0;
    while i < rows.len()
        invariant
            i <= rows.len(),
            inner == inner_width(width as nat),
            all == text::texts(rows@),
            body == box_rows(all, width as nat),
            text::texts(out@) == seq![box_top(title@, width as nat)] + body.take(i as int),
        decreases rows.len() - i,
    {
        let row = frame_row(rows[i].as_str(), inner, width);
        assert(all[i as int] == rows@[i as int]@);
        assert(body[i as int] == row@);
        push_row(&mut out, row);
        i = i + 1;
        assert(text::texts(out@) =~= seq![box_top(title@, width as nat)] + body.take(i as int));
    }
    assert(body.take(i as int) =~= body);
    push_row(&mut out, concat3("╰", edge.as_str(), "╯"));
    out
}

/// Draws a frame of `width` columns round `rows`.
pub fn boxed(rows: &Vec<String>, width: usize) -> (r: Vec<String>)
    ensures
        text::texts(r@) == framed(text::texts(rows@), width as nat, Seq::empty()),
{
    proof {
        reveal_strlit("");
        assert(""@ =~= Seq::<char>::empty());
    }
    boxed_titled(rows, width, "")
}

// ---------------------------------------------------------------------------
// Laws
// ---------------------------------------------------------------------------

/// A frame holds every row, in order, between its edges; a plain row that fits
/// is there whole.
pub proof fn law_a_frame_holds_every_row(
    rows: Seq<Seq<char>>,
    width: nat,
    title: Seq<char>,
    i: int,
)
    requires
        0 <= i < rows.len(),
    ensures
        framed(rows, width, title).len() == rows.len() + 2,
        framed(rows, width, title)[i + 1] == box_row(rows[i], width),
        width > 4 && ansi::text_width(rows[i]) <= width - 4 ==> framed(rows, width, title)[i + 1]
            == "│ "@ + rows[i] + Seq::new(
            (width - 4 - ansi::text_width(rows[i])) as nat,
            |k: int| ' ',
        ) + " │"@,
{
    if width > 4 && ansi::text_width(rows[i]) <= width - 4 {
        let n = (width - 4 - ansi::text_width(rows[i])) as nat;
        assert(text::repeated(' ', n) =~= Seq::new(n, |k: int| ' '));
    }
}

/// A title stands in the upper edge of its frame.
pub proof fn law_a_title_stands_in_the_upper_edge(title: Seq<char>, width: nat)
    requires
        title.len() > 0,
        width > 4,
        ansi::text_width(title) <= width - 4,
    ensures
        ("╭ "@ + title + " "@).is_prefix_of(box_top(title, width)),
{
    let head = "╭ "@ + title + " "@;
    assert(head =~= box_top(title, width).take(head.len() as int));
}

} // verus!
