//! SGR styling: painting, stripping and measuring rows of text.

use vstd::prelude::*;
use crate::text;
use crate::text::{chars_of, concat3, digit};

verus! {

// ---------------------------------------------------------------------------
// Escape sequences
// ---------------------------------------------------------------------------

/// A character of an SGR parameter list.
pub open spec fn is_sgr_param(c: char) -> bool {
    text::is_digit(c) || c == ';'
}

/// How many parameter characters `s` starts with.
pub open spec fn param_run(s: Seq<char>) -> nat
    decreases s.len(),
{
    if s.len() > 0 && is_sgr_param(s[0]) {
        1 + param_run(s.skip(1))
    } else {
        0
    }
}

/// The length of the SGR sequence (`ESC [ parameters m`) that `s` starts with,
/// zero where it starts with none.
pub open spec fn sgr_length(s: Seq<char>) -> nat {
    if s.len() >= 2 && s[0] == '\u{1b}' && s[1] == '[' {
        let k = param_run(s.skip(2));
        if 2 + k < s.len() && s[2 + k as int] == 'm' {
            3 + k
        } else {
            0
        }
    } else {
        0
    }
}

/// `s` without its SGR sequences.
pub open spec fn visible(s: Seq<char>) -> Seq<char>
    decreases s.len(),
{
    if s.len() == 0 {
        Seq::empty()
    } else if sgr_length(s) > 0 {
        if sgr_length(s) >= s.len() {
            Seq::empty()
        } else {
            visible(s.skip(sgr_length(s) as int))
        }
    } else {
        seq![s[0]] + visible(s.skip(1))
    }
}

proof fn lemma_param_run(s: Seq<char>)
    ensures
        param_run(s) <= s.len(),
        forall|i: int| 0 <= i < param_run(s) ==> is_sgr_param(#[trigger] s[i]),
        param_run(s) < s.len() ==> !is_sgr_param(s[param_run(s) as int]),
    decreases s.len(),
{
    if s.len() > 0 && is_sgr_param(s[0]) {
        let r = s.skip(1);
        lemma_param_run(r);
        assert forall|i: int| 0 <= i < param_run(s) implies is_sgr_param(#[trigger] s[i]) by {
            if i > 0 {
                assert(r[i - 1] == s[i]);
            }
        }
    }
}

/// The length of the SGR sequence at position `i`, zero where there is none.
pub fn sgr_at(x: &Vec<char>, i: usize) -> (r: usize)
    requires
        i < x.len(),
    ensures
        r == sgr_length(x@.skip(i as int)),
        i + r <= x.len(),
{
    let ghost s = x@.skip(i as int);
    if x.len() - i < 2 {
        return 0;
    }
    assert(s[0] == x@[i as int] && s[1] == x@[i + 1]);
    if x[i] != '\u{1b}' || x[i + 1] != '[' {
        return 0;
    }
    let mut j: usize = i + 2;
    assert(s.skip(2) =~= x@.skip(i + 2));
    while j < x.len() && (digit(x[j]) || x[j] == ';')
        invariant
            i + 2 <= j <= x.len(),
            param_run(x@.skip(i + 2)) == (j - i - 2) + param_run(x@.skip(j as int)),
        decreases x.len() - j,
    {
        assert(x@.skip(j as int)[0] == x@[j as int]);
        assert(x@.skip(j as int).skip(1) =~= x@.skip(j + 1));
        j = j + 1;
    }
    assert(j < x.len() ==> x@.skip(j as int)[0] == x@[j as int]);
    assert(param_run(s.skip(2)) == j - i - 2);
    if j < x.len() && x[j] == 'm' {
        assert(s[j - i] == x@[j as int]);
        j - i + 1
    } else {
        assert(j < x.len() ==> s[j - i] == x@[j as int]);
        0
    }
}

/// `s` without its SGR sequences.
pub fn strip_ansi(s: &str) -> (r: String)
    ensures
        r@ == visible(s@),
{
    let x = chars_of(s);
    let mut out = String::new();
    let mut i: usize = 0;
    assert(x@.skip(0) =~= x@);
    assert(out@ + visible(x@) =~= visible(x@));
    while i < x.len()
        invariant
            i <= x.len(),
            x@ == s@,
            out@ + visible(x@.skip(i as int)) == visible(x@),
        decreases x.len() - i,
    {
        let ghost rest = x@.skip(i as int);
        let ghost so_far = out@;
        assert(rest[0] == x@[i as int]);
        let n: usize = sgr_at(&x, i);
        if n > 0 {
            assert(rest.skip(n as int) =~= x@.skip(i + n));
            i = i + n;
            assert(i == x.len() ==> x@.skip(i as int) =~= Seq::empty());
        } else {
            assert(rest.skip(1) =~= x@.skip(i + 1));
            out.push(x[i]);
            assert(out@ + visible(rest.skip(1)) =~= so_far + (seq![rest[0]] + visible(
                rest.skip(1),
            )));
            i = i + 1;
        }
    }
    assert(x@.skip(i as int) =~= Seq::empty());
    assert(out@ + visible(x@.skip(i as int)) =~= out@);
    out
}

// ---------------------------------------------------------------------------
// Columns
// ---------------------------------------------------------------------------

/// How many terminal columns a character takes: none for controls, combining
/// marks and joiners, two for East Asian wide characters and emoji, else one.
pub open spec fn char_columns(c: char) -> nat {
    if text::is_ctrl(c) || '\u{300}' <= c <= '\u{36f}' || '\u{200b}' <= c <= '\u{200f}' || '\u{20d0}'
        <= c <= '\u{20ff}' || '\u{fe00}' <= c <= '\u{fe0f}' || c == '\u{feff}' {
        0
    } else if '\u{1100}' <= c <= '\u{115f}' || '\u{2e80}' <= c <= '\u{303e}' || '\u{3041}' <= c
        <= '\u{a4cf}' || '\u{ac00}' <= c <= '\u{d7a3}' || '\u{f900}' <= c <= '\u{faff}' || '\u{fe30}'
        <= c <= '\u{fe6f}' || '\u{ff00}' <= c <= '\u{ff60}' || '\u{ffe0}' <= c <= '\u{ffe6}'
        || '\u{1f300}' <= c <= '\u{1f64f}' || '\u{1f680}' <= c <= '\u{1f6ff}' || '\u{1f900}' <= c
        <= '\u{1f9ff}' || '\u{20000}' <= c <= '\u{3fffd}' {
        2
    } else {
        1
    }
}

pub fn char_width(c: char) -> (r: usize)
    ensures
        r == char_columns(c),
{
    if text::control(c) || ('\u{300}' <= c && c <= '\u{36f}') || ('\u{200b}' <= c && c
        <= '\u{200f}') || ('\u{20d0}' <= c && c <= '\u{20ff}') || ('\u{fe00}' <= c && c
        <= '\u{fe0f}') || c == '\u{feff}' {
        0
    } else if ('\u{1100}' <= c && c <= '\u{115f}') || ('\u{2e80}' <= c && c <= '\u{303e}') || (
    '\u{3041}' <= c && c <= '\u{a4cf}') || ('\u{ac00}' <= c && c <= '\u{d7a3}') || ('\u{f900}' <= c
        && c <= '\u{faff}') || ('\u{fe30}' <= c && c <= '\u{fe6f}') || ('\u{ff00}' <= c && c
        <= '\u{ff60}') || ('\u{ffe0}' <= c && c <= '\u{ffe6}') || ('\u{1f300}' <= c && c
        <= '\u{1f64f}') || ('\u{1f680}' <= c && c <= '\u{1f6ff}') || ('\u{1f900}' <= c && c
        <= '\u{1f9ff}') || ('\u{20000}' <= c && c <= '\u{3fffd}') {
        2
    } else {
        1
    }
}

/// The columns that the characters of `s` take together.
pub open spec fn columns(s: Seq<char>) -> nat
    decreases s.len(),
{
    if s.len() == 0 {
        0
    } else {
        columns(s.drop_last()) + char_columns(s.last())
    }
}

/// The columns that a painted text takes: those of its visible characters.
pub open spec fn text_width(s: Seq<char>) -> nat {
    columns(visible(s))
}

pub proof fn lemma_columns_add(a: Seq<char>, b: Seq<char>)
    ensures
        columns(a + b) == columns(a) + columns(b),
    decreases b.len(),
{
    if b.len() == 0 {
        assert(a + b =~= a);
    } else {
        lemma_columns_add(a, b.drop_last());
        assert((a + b).drop_last() =~= a + b.drop_last());
        assert((a + b).last() == b.last());
    }
}

/// Whether the text takes at most `width` columns.
pub fn fits(s: &str, width: usize) -> (r: bool)
    ensures
        r == (text_width(s@) <= width),
{
    let plain = strip_ansi(s);
    let x = chars_of(plain.as_str());
    let mut used: usize = 0;
    let mut i: usize = 0;
    assert(x@.take(0) =~= Seq::empty());
    while i < x.len()
        invariant
            i <= x.len(),
            x@ == visible(s@),
            used <= width,
            used == columns(x@.take(i as int)),
        decreases x.len() - i,
    {
        let w: usize = char_width(x[i]);
        assert(x@.take(i + 1).drop_last() =~= x@.take(i as int));
        if w > width - used {
            proof {
                lemma_columns_add(x@.take(i + 1), x@.skip(i + 1));
                assert(x@.take(i + 1) + x@.skip(i + 1) =~= x@);
            }
            return false;
        }
        used = used + w;
        i = i + 1;
    }
    assert(x@.take(i as int) =~= x@);
    true
}

/// The columns that a painted text takes, at most `usize::MAX`.
pub fn string_width(s: &str) -> (r: usize)
    ensures
        r == (if text_width(s@) <= usize::MAX {
            text_width(s@) as int
        } else {
            usize::MAX as int
        }),
{
    let plain = strip_ansi(s);
    let x = chars_of(plain.as_str());
    let mut used: usize = 0;
    let mut i: usize = 0;
    assert(x@.take(0) =~= Seq::empty());
    while i < x.len()
        invariant
            i <= x.len(),
            x@ == visible(s@),
            used == columns(x@.take(i as int)),
        decreases x.len() - i,
    {
        let w: usize = char_width(x[i]);
        assert(x@.take(i + 1).drop_last() =~= x@.take(i as int));
        if w > usize::MAX - used {
            proof {
                lemma_columns_add(x@.take(i + 1), x@.skip(i + 1));
                assert(x@.take(i + 1) + x@.skip(i + 1) =~= x@);
            }
            return usize::MAX;
        }
        used = used + w;
        i = i + 1;
    }
    assert(x@.take(i as int) =~= x@);
    used
}

// ---------------------------------------------------------------------------
// Painting
// ---------------------------------------------------------------------------

pub const DIM: &'static str = "\u{1b}[2m";

pub const DIM_END: &'static str = "\u{1b}[22m";

pub const WHITE: &'static str = "\u{1b}[37m";

pub const GRAY: &'static str = "\u{1b}[90m";

pub const COLOR_END: &'static str = "\u{1b}[39m";

/// Ends every style.
pub const RESET: &'static str = "\u{1b}[0m";

/// `s` in dim intensity.
pub open spec fn dimmed(s: Seq<char>) -> Seq<char> {
    DIM@ + s + DIM_END@
}

/// `s` in white.
pub open spec fn whitened(s: Seq<char>) -> Seq<char> {
    WHITE@ + s + COLOR_END@
}

/// `s` in gray.
pub open spec fn grayed(s: Seq<char>) -> Seq<char> {
    GRAY@ + s + COLOR_END@
}

pub fn dim(s: &str) -> (r: String)
    ensures
        r@ == dimmed(s@),
{
    concat3(DIM, s, DIM_END)
}

pub fn white(s: &str) -> (r: String)
    ensures
        r@ == whitened(s@),
{
    concat3(WHITE, s, COLOR_END)
}

pub fn gray(s: &str) -> (r: String)
    ensures
        r@ == grayed(s@),
{
    concat3(GRAY, s, COLOR_END)
}

/// Whether `c` cannot continue an SGR sequence begun before it.
pub open spec fn starts_afresh(c: char) -> bool {
    c != '[' && c != 'm' && !is_sgr_param(c)
}

proof fn lemma_param_run_append(s: Seq<char>, t: Seq<char>)
    requires
        t.len() > 0,
        starts_afresh(t[0]),
    ensures
        param_run(s + t) == param_run(s),
    decreases s.len(),
{
    if s.len() == 0 {
        assert(s + t =~= t);
    } else {
        assert((s + t)[0] == s[0]);
        if is_sgr_param(s[0]) {
            assert((s + t).skip(1) =~= s.skip(1) + t);
            lemma_param_run_append(s.skip(1), t);
        }
    }
}

proof fn lemma_sgr_length_append(s: Seq<char>, t: Seq<char>)
    requires
        s.len() > 0,
        t.len() > 0,
        starts_afresh(t[0]),
    ensures
        sgr_length(s + t) == sgr_length(s),
        sgr_length(s) <= s.len(),
{
    let u = s + t;
    assert(u[0] == s[0]);
    if s.len() >= 2 {
        assert(u[1] == s[1]);
        assert(u.skip(2) =~= s.skip(2) + t);
        lemma_param_run_append(s.skip(2), t);
        lemma_param_run(s.skip(2));
        let k = param_run(s.skip(2));
        if 2 + k < s.len() {
            assert(u[2 + k as int] == s[2 + k as int]);
        } else if 2 + k < u.len() {
            assert(u[2 + k as int] == t[0]);
        }
    } else if u.len() >= 2 {
        assert(u[1] == t[0]);
    }
}

/// A text that cannot continue an SGR sequence is measured apart from what
/// stands before it.
pub proof fn lemma_visible_append(s: Seq<char>, t: Seq<char>)
    requires
        t.len() == 0 || starts_afresh(t[0]),
    ensures
        visible(s + t) == visible(s) + visible(t),
        text_width(s + t) == text_width(s) + text_width(t),
    decreases s.len(),
{
    if t.len() == 0 {
        assert(s + t =~= s);
        assert(visible(s) + visible(t) =~= visible(s));
    } else if s.len() == 0 {
        assert(s + t =~= t);
        assert(visible(s) + visible(t) =~= visible(t));
    } else {
        lemma_sgr_length_append(s, t);
        let n = sgr_length(s) as int;
        if n > 0 {
            assert((s + t).skip(n) =~= s.skip(n) + t);
            lemma_visible_append(s.skip(n), t);
            if n == s.len() {
                assert(s.skip(n) =~= Seq::empty());
                assert(visible(s.skip(n)) + visible(t) =~= visible(t));
                assert(visible(s) + visible(t) =~= visible(t));
            }
        } else {
            assert((s + t)[0] == s[0]);
            assert((s + t).skip(1) =~= s.skip(1) + t);
            lemma_visible_append(s.skip(1), t);
            assert(visible(s + t) =~= visible(s) + visible(t));
        }
    }
    lemma_columns_add(visible(s), visible(t));
}

/// Whether `c` cannot stand inside an unfinished SGR sequence.
pub open spec fn ends_apart(c: char) -> bool {
    c != '\u{1b}' && c != '[' && !is_sgr_param(c)
}

proof fn lemma_param_run_split(s: Seq<char>, t: Seq<char>)
    requires
        s.len() > 0,
        !is_sgr_param(s.last()),
    ensures
        param_run(s + t) == param_run(s),
        param_run(s) < s.len(),
    decreases s.len(),
{
    assert((s + t)[0] == s[0]);
    if is_sgr_param(s[0]) {
        assert(s.len() > 1);
        assert((s + t).skip(1) =~= s.skip(1) + t);
        assert(s.skip(1).last() == s.last());
        lemma_param_run_split(s.skip(1), t);
    }
}

/// A text cut behind a character that stands in no unfinished SGR sequence
/// shows what its two parts show.
pub proof fn lemma_visible_split(s: Seq<char>, t: Seq<char>)
    requires
        s.len() == 0 || ends_apart(s.last()),
    ensures
        visible(s + t) == visible(s) + visible(t),
        text_width(s + t) == text_width(s) + text_width(t),
    decreases s.len(),
{
    if s.len() == 0 {
        assert(s + t =~= t);
        assert(visible(s) + visible(t) =~= visible(t));
    } else {
        let u = s + t;
        assert(u[0] == s[0]);
        if s.len() >= 2 {
            assert(u[1] == s[1]);
            assert(u.skip(2) =~= s.skip(2) + t);
            if s.len() > 2 {
                assert(s.skip(2).last() == s.last());
                lemma_param_run_split(s.skip(2), t);
                let k = param_run(s.skip(2));
                assert(u[2 + k as int] == s[2 + k as int]);
            }
        }
        assert(sgr_length(u) == sgr_length(s));
        let n = sgr_length(s) as int;
        if n > 0 {
            assert(u.skip(n) =~= s.skip(n) + t);
            if n < s.len() {
                assert(s.skip(n).last() == s.last());
            } else {
                assert(s.skip(n) =~= Seq::empty());
            }
            lemma_visible_split(s.skip(n), t);
            if n == s.len() {
                assert(visible(s.skip(n)) + visible(t) =~= visible(t));
                assert(visible(s) + visible(t) =~= visible(t));
                assert(n >= u.len() ==> t =~= Seq::empty());
            }
        } else {
            assert(u.skip(1) =~= s.skip(1) + t);
            if s.len() > 1 {
                assert(s.skip(1).last() == s.last());
            }
            lemma_visible_split(s.skip(1), t);
            assert(visible(u) =~= visible(s) + visible(t));
        }
    }
    lemma_columns_add(visible(s), visible(t));
}

/// A sequence that is one SGR code is invisible.
proof fn lemma_code_invisible(code: Seq<char>, s: Seq<char>)
    requires
        sgr_length(code) == code.len(),
        code.len() > 0,
    ensures
        visible(code + s) == visible(s),
        visible(code).len() == 0,
{
    let u = code + s;
    assert(u[0] == code[0] && u[1] == code[1]);
    let k = param_run(code.skip(2));
    lemma_param_run(code.skip(2));
    lemma_same_run(code.skip(2), u.skip(2));
    assert(u[2 + k as int] == code[2 + k as int]);
    assert(u.skip(code.len() as int) =~= s);
    if s.len() == 0 {
        assert(u =~= code);
    }
}

proof fn lemma_same_run(a: Seq<char>, b: Seq<char>)
    requires
        param_run(a) < a.len() <= b.len(),
        forall|i: int| 0 <= i < a.len() ==> a[i] == b[i],
    ensures
        param_run(b) == param_run(a),
    decreases a.len(),
{
    assert(a[0] == b[0]);
    if is_sgr_param(a[0]) {
        let x = a.skip(1);
        let y = b.skip(1);
        assert forall|i: int| 0 <= i < x.len() implies x[i] == y[i] by {
            assert(a[i + 1] == b[i + 1]);
        }
        lemma_same_run(x, y);
    }
}

/// Whether painting with the codes `open` and `close` adds no column.
pub proof fn lemma_painted_width(open: Seq<char>, s: Seq<char>, close: Seq<char>)
    requires
        open.len() > 0,
        sgr_length(open) == open.len(),
        close.len() > 0,
        sgr_length(close) == close.len(),
    ensures
        visible(open + s + close) == visible(s),
        text_width(open + s + close) == text_width(s),
{
    assert(close[0] == '\u{1b}');
    lemma_visible_append(open + s, close);
    lemma_code_invisible(open, s);
    lemma_code_invisible(close, Seq::empty());
    assert(visible(s) + visible(close) =~= visible(s));
}

proof fn lemma_is_code(code: Seq<char>, d: int)
    requires
        code.len() == 3 + d,
        1 <= d <= 2,
        code[0] == '\u{1b}',
        code[1] == '[',
        text::is_digit(code[2]),
        d == 2 ==> text::is_digit(code[3]),
        code[2 + d] == 'm',
    ensures
        sgr_length(code) == code.len(),
{
    reveal_with_fuel(param_run, 4);
    let r = code.skip(2);
    assert(r[0] == code[2]);
    assert(r.skip(1)[0] == code[3]);
    if d == 2 {
        assert(r.skip(1).skip(1)[0] == code[4]);
    }
}

/// Dim, white and gray painting leave the visible text and its width as they
/// are.
pub proof fn law_painting_adds_no_columns(s: Seq<char>)
    ensures
        visible(dimmed(s)) == visible(s),
        visible(whitened(s)) == visible(s),
        visible(grayed(s)) == visible(s),
        text_width(dimmed(s)) == text_width(s),
        text_width(whitened(s)) == text_width(s),
        text_width(grayed(s)) == text_width(s),
{
    reveal_strlit("\u{1b}[2m");
    reveal_strlit("\u{1b}[22m");
    reveal_strlit("\u{1b}[37m");
    reveal_strlit("\u{1b}[90m");
    reveal_strlit("\u{1b}[39m");
    lemma_is_code(DIM@, 1);
    lemma_is_code(DIM_END@, 2);
    lemma_is_code(WHITE@, 2);
    lemma_is_code(GRAY@, 2);
    lemma_is_code(COLOR_END@, 2);
    lemma_painted_width(DIM@, s, DIM_END@);
    lemma_painted_width(WHITE@, s, COLOR_END@);
    lemma_painted_width(GRAY@, s, COLOR_END@);
}

// ---------------------------------------------------------------------------
// Clipping
// ---------------------------------------------------------------------------

/// The SGR codes of `s` and, while `open`, its visible characters up to the
/// first that does not fit in `room` columns. Stray controls are left out.
pub open spec fn clip_from(s: Seq<char>, room: nat, open: bool) -> Seq<char>
    decreases s.len(),
{
    if s.len() == 0 {
        Seq::empty()
    } else if sgr_length(s) > 0 {
        let n = sgr_length(s) as int;
        if n >= s.len() {
            s
        } else {
            s.take(n) + clip_from(s.skip(n), room, open)
        }
    } else if text::is_ctrl(s[0]) {
        clip_from(s.skip(1), room, open)
    } else if open && char_columns(s[0]) <= room {
        seq![s[0]] + clip_from(s.skip(1), (room - char_columns(s[0])) as nat, true)
    } else {
        clip_from(s.skip(1), room, false)
    }
}

/// `s` cut to `width` columns, its SGR codes kept.
pub open spec fn clipped(s: Seq<char>, width: nat) -> Seq<char> {
    if text_width(s) <= width {
        s
    } else {
        clip_from(s, width, true)
    }
}

/// Cuts a painted row to `width` columns without dropping its SGR codes.
pub fn clip_ansi(row: &str, width: usize) -> (r: String)
    ensures
        r@ == clipped(row@, width as nat),
        text_width(r@) <= width,
{
    proof {
        law_clipped_fits(row@, width as nat);
    }
    if fits(row, width) {
        return row.to_string();
    }
    clip_visible(row, width)
}

/// The SGR codes of a row and as many of its visible characters as fit.
pub fn clip_visible(row: &str, width: usize) -> (r: String)
    ensures
        r@ == clip_from(row@, width as nat, true),
        text_width(r@) <= width,
{
    proof {
        lemma_clip_fits(row@, width as nat);
    }
    let x = chars_of(row);
    let mut out = String::new();
    let mut room: usize = width;
    let mut open = true;
    let mut i: usize = 0;
    assert(x@.skip(0) =~= x@);
    assert(out@ + clip_from(x@, width as nat, true) =~= clip_from(x@, width as nat, true));
    while i < x.len()
        invariant
            i <= x.len(),
            x@ == row@,
            out@ + clip_from(x@.skip(i as int), room as nat, open) == clip_from(
                x@,
                width as nat,
                true,
            ),
        decreases x.len() - i,
    {
        let ghost rest = x@.skip(i as int);
        let ghost so_far = out@;
        assert(rest[0] == x@[i as int]);
        let n: usize = sgr_at(&x, i);
        if n > 0 {
            let code = text::sub_string(&x, i, i + n);
            out.append(code.as_str());
            i = i + n;
            assert(rest.skip(n as int) =~= x@.skip(i as int));
            assert(code@ =~= rest.take(n as int));
            if i == x.len() {
                assert(x@.skip(i as int) =~= Seq::empty());
                assert(rest.take(n as int) =~= rest);
                assert(out@ + clip_from(x@.skip(i as int), room as nat, open) =~= so_far + rest);
            } else {
                assert(out@ + clip_from(x@.skip(i as int), room as nat, open) =~= so_far + (
                rest.take(n as int) + clip_from(x@.skip(i as int), room as nat, open)));
            }
        } else {
            let c: char = x[i];
            assert(rest.skip(1) =~= x@.skip(i + 1));
            i = i + 1;
            if !text::control(c) {
                let w: usize = char_width(c);
                if open && w <= room {
                    out.push(c);
                    room = room - w;
                    assert(out@ + clip_from(x@.skip(i as int), room as nat, true) =~= so_far + (
                    seq![c] + clip_from(x@.skip(i as int), room as nat, true)));
                } else {
                    open = false;
                }
            }
        }
    }
    assert(x@.skip(i as int) =~= Seq::empty());
    assert(out@ + clip_from(x@.skip(i as int), room as nat, open) =~= out@);
    out
}

proof fn lemma_take_code(s: Seq<char>)
    requires
        sgr_length(s) > 0,
    ensures
        sgr_length(s) <= s.len(),
        sgr_length(s.take(sgr_length(s) as int)) == sgr_length(s),
{
    let n = sgr_length(s) as int;
    let k = param_run(s.skip(2));
    lemma_param_run(s.skip(2));
    let c = s.take(n);
    lemma_cut_run(s.skip(2), k as int + 1);
    assert(c.skip(2) =~= s.skip(2).take(k as int + 1));
}

proof fn lemma_cut_run(s: Seq<char>, n: int)
    requires
        param_run(s) < n <= s.len(),
    ensures
        param_run(s.take(n)) == param_run(s),
    decreases s.len(),
{
    assert(s.take(n)[0] == s[0]);
    if is_sgr_param(s[0]) {
        assert(s.take(n).skip(1) =~= s.skip(1).take(n - 1));
        lemma_cut_run(s.skip(1), n - 1);
    }
}

proof fn lemma_clip_from_fits(s: Seq<char>, room: nat, open: bool)
    ensures
        text_width(clip_from(s, room, open)) <= (if open {
            room
        } else {
            0
        }),
    decreases s.len(),
{
    if s.len() == 0 {
    } else if sgr_length(s) > 0 {
        let n = sgr_length(s) as int;
        lemma_take_code(s);
        let code = s.take(n);
        if n >= s.len() {
            assert(code =~= s);
            lemma_code_invisible(code, Seq::empty());
        } else {
            lemma_clip_from_fits(s.skip(n), room, open);
            lemma_code_invisible(code, clip_from(s.skip(n), room, open));
        }
    } else if text::is_ctrl(s[0]) {
        lemma_clip_from_fits(s.skip(1), room, open);
    } else if open && char_columns(s[0]) <= room {
        let left = (room - char_columns(s[0])) as nat;
        let rest = clip_from(s.skip(1), left, true);
        lemma_clip_from_fits(s.skip(1), left, true);
        let all = seq![s[0]] + rest;
        assert(all[0] == s[0]);
        assert(sgr_length(all) == 0);
        assert(all.skip(1) =~= rest);
        assert(visible(all) =~= seq![s[0]] + visible(rest));
        lemma_columns_add(seq![s[0]], visible(rest));
        reveal_with_fuel(columns, 2);
        assert(seq![s[0]].drop_last() =~= Seq::empty());
    } else {
        lemma_clip_from_fits(s.skip(1), room, false);
    }
}

/// The codes and the visible characters that fit take at most `room` columns.
pub proof fn lemma_clip_fits(s: Seq<char>, room: nat)
    ensures
        text_width(clip_from(s, room, true)) <= room,
{
    lemma_clip_from_fits(s, room, true);
}

/// The reset code takes no column.
pub proof fn lemma_reset_is_invisible()
    ensures
        visible(RESET@).len() == 0,
        RESET@.len() == 4,
        RESET@[0] == '\u{1b}',
{
    reveal_strlit("\u{1b}[0m");
    lemma_is_code(RESET@, 1);
    lemma_code_invisible(RESET@, Seq::empty());
}

/// Spaces take a column each.
pub proof fn lemma_spaces_width(n: nat)
    ensures
        visible(text::repeated(' ', n)) == text::repeated(' ', n),
        text_width(text::repeated(' ', n)) == n,
    decreases n,
{
    let s = text::repeated(' ', n);
    if n > 0 {
        let m = (n - 1) as nat;
        lemma_spaces_width(m);
        assert(s[0] == ' ');
        assert(s.skip(1) =~= text::repeated(' ', m));
        assert(visible(s) =~= seq![' '] + visible(text::repeated(' ', m)));
        assert(seq![' '] + text::repeated(' ', m) =~= s);
        assert(s.drop_last() =~= text::repeated(' ', m));
        assert(columns(s) == columns(s.drop_last()) + char_columns(' '));
    } else {
        assert(s =~= Seq::empty());
    }
}

/// A clipped row takes at most `width` columns.
pub proof fn law_clipped_fits(s: Seq<char>, width: nat)
    ensures
        text_width(clipped(s, width)) <= width,
{
    lemma_clip_from_fits(s, width, true);
}

/// Every character of a text without an escape is visible.
pub proof fn law_plain_text_is_visible(s: Seq<char>)
    requires
        !s.contains('\u{1b}'),
    ensures
        visible(s) == s,
    decreases s.len(),
{
    if s.len() > 0 {
        assert(s.contains(s[0]));
        let rest = s.skip(1);
        assert forall|i: int| 0 <= i < rest.len() implies rest[i] != '\u{1b}' by {
            assert(s.contains(s[i + 1]));
        }
        law_plain_text_is_visible(rest);
        assert(seq![s[0]] + rest =~= s);
    } else {
        assert(visible(s) =~= s);
    }
}

/// A style code shows nothing: an escape, a bracket, digits and semicolons and
/// an `m` leave of a text what it is without them.
pub proof fn law_a_style_code_is_invisible(params: Seq<char>, s: Seq<char>)
    requires
        forall|i: int| 0 <= i < params.len() ==> ('0' <= #[trigger] params[i] <= '9' || params[i]
            == ';'),
    ensures
        visible(seq!['\u{1b}', '['] + params + seq!['m'] + s) == visible(s),
{
    let code = seq!['\u{1b}', '['] + params + seq!['m'];
    assert(code.skip(2) =~= params + seq!['m']);
    lemma_run_of_params(params);
    lemma_code_invisible(code, s);
}

proof fn lemma_run_of_params(params: Seq<char>)
    requires
        forall|i: int| 0 <= i < params.len() ==> ('0' <= #[trigger] params[i] <= '9' || params[i]
            == ';'),
    ensures
        param_run(params + seq!['m']) == params.len(),
    decreases params.len(),
{
    let s = params + seq!['m'];
    if params.len() > 0 {
        assert(s[0] == params[0]);
        assert(s.skip(1) =~= params.skip(1) + seq!['m']);
        lemma_run_of_params(params.skip(1));
    } else {
        assert(s[0] == 'm');
    }
}

/// A printed ASCII character takes one column, and columns add up.
pub proof fn law_ascii_text_takes_its_length(s: Seq<char>)
    requires
        forall|i: int| 0 <= i < s.len() ==> ' ' <= #[trigger] s[i] <= '~',
    ensures
        columns(s) == s.len(),
        text_width(s) == s.len(),
    decreases s.len(),
{
    if s.contains('\u{1b}') {
        let i = choose|i: int| 0 <= i < s.len() && s[i] == '\u{1b}';
        assert(' ' <= s[i]);
    }
    law_plain_text_is_visible(s);
    if s.len() > 0 {
        let last = s[s.len() - 1];
        assert(' ' <= last <= '~');
        law_ascii_text_takes_its_length(s.drop_last());
    }
}

/// Clipping cuts nothing that fits. Of a plain text that does not fit it keeps
/// the longest beginning that does, character for character.
pub proof fn law_clipping_keeps_what_fits(s: Seq<char>, width: nat)
    requires
        forall|i: int| 0 <= i < s.len() ==> !text::is_ctrl(#[trigger] s[i]),
    ensures
        columns(s) <= width ==> clipped(s, width) == s && clip_from(s, width, true) == s,
        exists|k: int|
            0 <= k <= s.len() && #[trigger] s.take(k) == clip_from(s, width, true) && columns(
                s.take(k),
            ) <= width && (k < s.len() ==> columns(s.take(k + 1)) > width),
        clipped(s, width) == clip_from(s, width, true),
{
    if s.contains('\u{1b}') {
        let i = choose|i: int| 0 <= i < s.len() && s[i] == '\u{1b}';
        assert(!text::is_ctrl(s[i]));
    }
    law_plain_text_is_visible(s);
    lemma_clip_plain(s, width);
    let k = choose|k: int|
        0 <= k <= s.len() && #[trigger] s.take(k) == clip_from(s, width, true) && columns(s.take(k))
            <= width && (k < s.len() ==> columns(s.take(k + 1)) > width);
    if columns(s) <= width && k < s.len() {
        assert(s.take(k + 1) + s.skip(k + 1) =~= s);
        lemma_columns_add(s.take(k + 1), s.skip(k + 1));
    }
    assert(s.take(s.len() as int) =~= s);
}

proof fn lemma_clip_plain(s: Seq<char>, room: nat)
    requires
        forall|i: int| 0 <= i < s.len() ==> !text::is_ctrl(#[trigger] s[i]),
    ensures
        exists|k: int|
            0 <= k <= s.len() && #[trigger] s.take(k) == clip_from(s, room, true) && columns(
                s.take(k),
            ) <= room && (k < s.len() ==> columns(s.take(k + 1)) > room),
    decreases s.len(),
{
    if s.len() == 0 {
        assert(s.take(0) =~= clip_from(s, room, true));
        assert(columns(s.take(0)) <= room);
    } else {
        assert(!text::is_ctrl(s[0]));
        let rest = s.skip(1);
        assert forall|i: int| 0 <= i < rest.len() implies !text::is_ctrl(#[trigger] rest[i]) by {
            assert(rest[i] == s[i + 1]);
        }
        lemma_one_column(s[0]);
        if char_columns(s[0]) <= room {
            let left = (room - char_columns(s[0])) as nat;
            lemma_clip_plain(rest, left);
            let k = choose|k: int|
                0 <= k <= rest.len() && #[trigger] rest.take(k) == clip_from(rest, left, true)
                    && columns(rest.take(k)) <= left && (k < rest.len() ==> columns(
                    rest.take(k + 1),
                ) > left);
            assert(s.take(k + 1) =~= seq![s[0]] + rest.take(k));
            lemma_columns_add(seq![s[0]], rest.take(k));
            if k < rest.len() {
                assert(s.take(k + 2) =~= seq![s[0]] + rest.take(k + 1));
                lemma_columns_add(seq![s[0]], rest.take(k + 1));
            }
            assert(s.take(k + 1) == clip_from(s, room, true));
        } else {
            lemma_clip_closed(rest, room);
            assert(s.take(0) =~= clip_from(s, room, true));
            assert(s.take(1) =~= seq![s[0]]);
            assert(columns(s.take(0)) == 0);
        }
    }
}

proof fn lemma_one_column(c: char)
    ensures
        columns(seq![c]) == char_columns(c),
{
    assert(seq![c].drop_last() =~= Seq::empty());
    assert(columns(Seq::empty()) == 0);
}

proof fn lemma_clip_closed(s: Seq<char>, room: nat)
    requires
        forall|i: int| 0 <= i < s.len() ==> !text::is_ctrl(#[trigger] s[i]),
    ensures
        clip_from(s, room, false).len() == 0,
    decreases s.len(),
{
    if s.len() > 0 {
        assert(!text::is_ctrl(s[0]));
        let rest = s.skip(1);
        assert forall|i: int| 0 <= i < rest.len() implies !text::is_ctrl(#[trigger] rest[i]) by {
            assert(rest[i] == s[i + 1]);
        }
        lemma_clip_closed(rest, room);
    }
}

/// Wide characters take two columns, marks that combine and joiners none, and
/// so do controls.
pub proof fn law_wide_characters_take_two_columns(c: char)
    ensures
        '\u{4e00}' <= c <= '\u{9fff}' ==> char_columns(c) == 2,
        '\u{ac00}' <= c <= '\u{d7a3}' ==> char_columns(c) == 2,
        '\u{3041}' <= c <= '\u{30ff}' ==> char_columns(c) == 2,
        '\u{1f600}' <= c <= '\u{1f64f}' ==> char_columns(c) == 2,
        '\u{300}' <= c <= '\u{36f}' ==> char_columns(c) == 0,
        c == '\u{200d}' ==> char_columns(c) == 0,
        text::is_ctrl(c) ==> char_columns(c) == 0,
        ' ' <= c <= '~' ==> char_columns(c) == 1,
        '\u{a1}' <= c <= '\u{2ff}' ==> char_columns(c) == 1,
        '\u{2500}' <= c <= '\u{257f}' ==> char_columns(c) == 1,
{
}

/// Painting puts its code before the text and the one that ends it behind.
pub proof fn law_painting_surrounds_the_text(s: Seq<char>)
    ensures
        dimmed(s) == "\u{1b}[2m"@ + s + "\u{1b}[22m"@,
        whitened(s) == "\u{1b}[37m"@ + s + "\u{1b}[39m"@,
        grayed(s) == "\u{1b}[90m"@ + s + "\u{1b}[39m"@,
{
}

/// The length of a style code at the start of a text is that of the code.
pub proof fn lemma_style_code(params: Seq<char>, rest: Seq<char>)
    requires
        forall|i: int| 0 <= i < params.len() ==> ('0' <= #[trigger] params[i] <= '9' || params[i]
            == ';'),
    ensures
        sgr_length(seq!['\u{1b}', '['] + params + seq!['m'] + rest) == params.len() + 3,
{
    let code = seq!['\u{1b}', '['] + params + seq!['m'];
    let s = code + rest;
    assert(code.skip(2) =~= params + seq!['m']);
    lemma_run_of_params(params);
    assert(s[0] == '\u{1b}' && s[1] == '[');
    lemma_same_run(code.skip(2), s.skip(2));
    assert(s[2 + params.len() as int] == 'm');
}

} // verus!
