//! Markdown to ANSI for line-oriented surfaces: headings, emphasis, inline
//! code, fenced code, lists, quotes and rules. Lines are not reflowed; the
//! output is always coloured.

use vstd::prelude::*;
use crate::ansi;
use crate::text;
use crate::text::{
    chars_of, concat2, concat3, digit, join_texts, repeat_char, same, skip_chars, space,
    split_lines, starts_with, sub_string, trim, trim_end, trim_start,
};
use crate::tui::evals::push_row;

verus! {

pub const RESET: &'static str = "\u{1b}[0m";

pub const BOLD: &'static str = "\u{1b}[1m";

pub const DIM: &'static str = "\u{1b}[2m";

pub const ITALIC: &'static str = "\u{1b}[3m";

pub const UNDERLINE: &'static str = "\u{1b}[4m";

pub const YELLOW: &'static str = "\u{1b}[33m";

pub const GREEN: &'static str = "\u{1b}[32m";

/// What `char::is_alphanumeric` returns for a character.
pub uninterp spec fn alphanumeric(c: char) -> bool;

/// `char::is_alphanumeric`: whether the character is a letter or a number by
/// the Unicode tables. The result is a function of the character alone.
#[verifier::external_body]
fn is_alphanumeric(c: char) -> (r: bool)
    ensures
        r == alphanumeric(c),
{
    c.is_alphanumeric()
}

// ---------------------------------------------------------------------------
// Inline emphasis
// ---------------------------------------------------------------------------

/// How many characters stand before the first `c`; all where there is none.
pub open spec fn run_before(s: Seq<char>, c: char) -> nat
    decreases s.len(),
{
    if s.len() == 0 || s[0] == c {
        0
    } else {
        1 + run_before(s.skip(1), c)
    }
}

/// How many characters stand before the first `**`; all where there is none.
pub open spec fn run_before_pair(s: Seq<char>) -> nat
    decreases s.len(),
{
    if s.len() < 2 {
        s.len()
    } else if s[0] == '*' && s[1] == '*' {
        0
    } else {
        1 + run_before_pair(s.skip(1))
    }
}

/// Whether a code span opens at `i`: a backquote with another one after it.
pub open spec fn opens_code(s: Seq<char>, i: int) -> bool {
    s[i] == '`' && run_before(s.skip(i + 1), '`') < s.len() - i - 1
}

/// Whether bold text opens at `i`: `**` with another `**` after it.
pub open spec fn opens_bold(s: Seq<char>, i: int) -> bool {
    &&& i + 2 <= s.len()
    &&& s[i] == '*'
    &&& s[i + 1] == '*'
    &&& run_before_pair(s.skip(i + 2)) + 2 <= s.len() - i - 2
}

/// Whether italic text opens at `i`: a marker that no space follows (an
/// underscore also needs a boundary before it), with the same marker after at
/// least one character that is no space.
pub open spec fn opens_italic(s: Seq<char>, i: int) -> bool {
    let m = s[i];
    let k = run_before(s.skip(i + 1), m);
    &&& m == '*' || m == '_'
    &&& i + 3 <= s.len()
    &&& s[i + 1] != ' '
    &&& i == 0 || !alphanumeric(s[i - 1]) || m == '*'
    &&& 0 < k < s.len() - i - 1
    &&& s[i + k] != ' '
}

/// The inline rendering of `s` from position `i` on.
pub open spec fn inline_from(s: Seq<char>, i: nat) -> Seq<char>
    decreases s.len(), s.len() - i,
{
    let p = i as int;
    if i >= s.len() {
        Seq::empty()
    } else if opens_code(s, p) {
        let k = run_before(s.skip(p + 1), '`');
        YELLOW@ + s.subrange(p + 1, p + 1 + k) + RESET@ + inline_from(s, i + k + 2)
    } else if opens_bold(s, p) {
        let k = run_before_pair(s.skip(p + 2));
        BOLD@ + inline_from(s.subrange(p + 2, p + 2 + k), 0) + RESET@ + inline_from(s, i + k + 4)
    } else if opens_italic(s, p) {
        let k = run_before(s.skip(p + 1), s[p]);
        ITALIC@ + inline_from(s.subrange(p + 1, p + 1 + k), 0) + RESET@ + inline_from(s, i + k + 2)
    } else {
        seq![s[p]] + inline_from(s, i + 1)
    }
}

fn chars_before(x: &Vec<char>, from: usize, c: char) -> (r: usize)
    requires
        from <= x.len(),
    ensures
        r == run_before(x@.skip(from as int), c),
        from + r <= x.len(),
{
    let mut i: usize = from;
    while i < x.len() && x[i] != c
        invariant
            from <= i <= x.len(),
            run_before(x@.skip(from as int), c) == (i - from) + run_before(x@.skip(i as int), c),
        decreases x.len() - i,
    {
        assert(x@.skip(i as int)[0] == x@[i as int]);
        assert(x@.skip(i as int).skip(1) =~= x@.skip(i + 1));
        i = i + 1;
    }
    assert(i < x.len() ==> x@.skip(i as int)[0] == x@[i as int]);
    i - from
}

/// How many characters stand before the closing `**`.
pub fn find_closing(x: &Vec<char>, from: usize) -> (r: usize)
    requires
        from <= x.len(),
    ensures
        r == run_before_pair(x@.skip(from as int)),
        from + r <= x.len(),
{
    let mut i: usize = from;
    while i < x.len() && x.len() - i >= 2
        invariant
            from <= i <= x.len(),
            run_before_pair(x@.skip(from as int)) == (i - from) + run_before_pair(
                x@.skip(i as int),
            ),
        decreases x.len() - i,
    {
        assert(x@.skip(i as int)[0] == x@[i as int]);
        assert(x@.skip(i as int)[1] == x@[i + 1]);
        if x[i] == '*' && x[i + 1] == '*' {
            return i - from;
        }
        assert(x@.skip(i as int).skip(1) =~= x@.skip(i + 1));
        i = i + 1;
    }
    x.len() - from
}

/// Inline emphasis: `**bold**`, `*italic*` / `_italic_`, `` `code` ``.
pub fn render_inline(text: &str) -> (r: String)
    ensures
        r@ == inline_from(text@, 0),
    decreases text@.len(),
{
    let x = chars_of(text);
    let mut out = String::new();
    let mut i: usize = 0;
    assert(out@ + inline_from(x@, 0) =~= inline_from(x@, 0));
    while i < x.len()
        invariant
            i <= x.len(),
            x@ == text@,
            out@ + inline_from(x@, i as nat) == inline_from(x@, 0),
        decreases x.len() - i,
    {
        let ghost so_far = out@;
        let c: char = x[i];
        if c == '`' {
            let k: usize = chars_before(&x, i + 1, '`');
            if i + 1 + k < x.len() {
                let code = sub_string(&x, i + 1, i + 1 + k);
                out.append(YELLOW);
                out.append(code.as_str());
                out.append(RESET);
                i = i + k + 2;
                assert(out@ + inline_from(x@, i as nat) =~= so_far + (YELLOW@ + code@ + RESET@
                    + inline_from(x@, i as nat)));
                continue ;
            }
        }
        if x.len() - i >= 2 && c == '*' && x[i + 1] == '*' {
            let k: usize = find_closing(&x, i + 2);
            if x.len() - i - 2 - k >= 2 {
                let inner = sub_string(&x, i + 2, i + 2 + k);
                let styled = render_inline(inner.as_str());
                out.append(BOLD);
                out.append(styled.as_str());
                out.append(RESET);
                i = i + k + 4;
                assert(out@ + inline_from(x@, i as nat) =~= so_far + (BOLD@ + styled@ + RESET@
                    + inline_from(x@, i as nat)));
                continue ;
            }
        }
        if (c == '*' || c == '_') && x.len() - i >= 3 {
            let boundary = x[i + 1] != ' ' && (i == 0 || c == '*' || !is_alphanumeric(x[i - 1]));
            if boundary {
                let k: usize = chars_before(&x, i + 1, c);
                if k > 0 && i + 1 + k < x.len() && x[i + k] != ' ' {
                    let inner = sub_string(&x, i + 1, i + 1 + k);
                    let styled = render_inline(inner.as_str());
                    out.append(ITALIC);
                    out.append(styled.as_str());
                    out.append(RESET);
                    i = i + k + 2;
                    assert(out@ + inline_from(x@, i as nat) =~= so_far + (ITALIC@ + styled@ + RESET@
                        + inline_from(x@, i as nat)));
                    continue ;
                }
            }
        }
        out.push(c);
        i = i + 1;
        assert(out@ + inline_from(x@, i as nat) =~= so_far + (seq![c] + inline_from(
            x@,
            i as nat,
        )));
    }
    assert(out@ + inline_from(x@, i as nat) =~= out@);
    out
}

// ---------------------------------------------------------------------------
// Lines
// ---------------------------------------------------------------------------

/// How many bytes a character takes in UTF-8.
pub open spec fn utf8_bytes(c: char) -> nat {
    if c <= '\u{7f}' {
        1
    } else if c <= '\u{7ff}' {
        2
    } else if c <= '\u{ffff}' {
        3
    } else {
        4
    }
}

/// The spaces that stand for the leading white space of a line: one for each
/// of its bytes.
pub open spec fn indent_of(s: Seq<char>) -> Seq<char>
    decreases s.len(),
{
    if s.len() > 0 && text::is_space(s[0]) {
        text::repeated(' ', utf8_bytes(s[0])) + indent_of(s.skip(1))
    } else {
        Seq::empty()
    }
}

/// How many of the leading characters are `c`.
pub open spec fn run_of(s: Seq<char>, c: char) -> nat
    decreases s.len(),
{
    if s.len() > 0 && s[0] == c {
        1 + run_of(s.skip(1), c)
    } else {
        0
    }
}

/// How many of the leading characters are decimal digits.
pub open spec fn digit_run(s: Seq<char>) -> nat
    decreases s.len(),
{
    if s.len() > 0 && text::is_digit(s[0]) {
        1 + digit_run(s.skip(1))
    } else {
        0
    }
}

/// Whether a line is an ordered list item: digits, then `. ` or `) `.
pub open spec fn is_ordered(s: Seq<char>) -> bool {
    let d = digit_run(s) as int;
    d > 0 && d + 2 <= s.len() && (s[d] == '.' || s[d] == ')') && s[d + 1] == ' '
}

/// A line of `#` marks and a title.
pub open spec fn heading_row(t: Seq<char>) -> Seq<char> {
    let k = run_of(t.skip(1), '#');
    let title = text::trimmed(t.skip(1 + k as int));
    (if k == 0 {
        BOLD@ + UNDERLINE@ + GREEN@
    } else {
        BOLD@ + GREEN@
    }) + inline_from(title, 0) + RESET@
}

/// The row of a line outside a fence; `line` has no trailing white space.
pub open spec fn line_row(line: Seq<char>) -> Seq<char> {
    let t = text::trimmed_start(line);
    if t.len() == 0 {
        Seq::empty()
    } else if t[0] == '#' {
        heading_row(t)
    } else if t == "---"@ || t == "***"@ || t == "___"@ {
        DIM@ + text::repeated('─', 40) + RESET@
    } else if t[0] == '>' {
        DIM@ + "│ "@ + inline_from(text::trimmed_start(t.skip(1)), 0) + RESET@
    } else if t.len() >= 2 && (t[0] == '-' || t[0] == '*' || t[0] == '+') && t[1] == ' ' {
        indent_of(line) + "  * "@ + inline_from(t.skip(2), 0)
    } else if is_ordered(t) {
        let d = digit_run(t) as int;
        indent_of(line) + "  "@ + t.take(d) + ". "@ + inline_from(t.skip(d + 2), 0)
    } else {
        indent_of(line) + inline_from(t, 0)
    }
}

/// The rows of the lines, and whether a fence is open after them.
pub open spec fn rows_of(ls: Seq<Seq<char>>) -> (Seq<Seq<char>>, bool)
    decreases ls.len(),
{
    if ls.len() == 0 {
        (Seq::empty(), false)
    } else {
        let (rows, fenced) = rows_of(ls.drop_last());
        let line = text::trimmed_end(ls.last());
        if "```"@.is_prefix_of(text::trimmed_start(line)) {
            (rows, !fenced)
        } else if fenced {
            (rows.push(DIM@ + "  "@ + line + RESET@), fenced)
        } else {
            (rows.push(line_row(line)), fenced)
        }
    }
}

fn indent_text(line: &str) -> (r: String)
    ensures
        r@ == indent_of(line@),
{
    let x = chars_of(line);
    let mut out = String::new();
    let mut i: usize = 0;
    assert(x@.skip(0) =~= x@);
    assert(out@ + indent_of(x@) =~= indent_of(x@));
    while i < x.len() && space(x[i])
        invariant
            i <= x.len(),
            out@ + indent_of(x@.skip(i as int)) == indent_of(x@),
        decreases x.len() - i,
    {
        let ghost so_far = out@;
        assert(x@.skip(i as int)[0] == x@[i as int]);
        assert(x@.skip(i as int).skip(1) =~= x@.skip(i + 1));
        let c: char = x[i];
        let n: usize = if c <= '\u{7f}' {
            1
        } else if c <= '\u{7ff}' {
            2
        } else if c <= '\u{ffff}' {
            3
        } else {
            4
        };
        let pad = repeat_char(' ', n);
        out.append(pad.as_str());
        i = i + 1;
        assert(out@ + indent_of(x@.skip(i as int)) =~= so_far + (pad@ + indent_of(
            x@.skip(i as int),
        )));
    }
    assert(i < x.len() ==> x@.skip(i as int)[0] == x@[i as int]);
    assert(out@ + indent_of(x@.skip(i as int)) =~= out@);
    out
}

/// How many digits an ordered list item starts with; `None` where the line is
/// no such item.
pub fn ordered_item(line: &str) -> (r: Option<usize>)
    ensures
        (r is Some) == is_ordered(line@),
        r matches Some(d) ==> d == digit_run(line@) && d + 2 <= line@.len(),
{
    let x = chars_of(line);
    let mut d: usize = 0;
    assert(x@.skip(0) =~= x@);
    while d < x.len() && digit(x[d])
        invariant
            d <= x.len(),
            digit_run(x@) == d + digit_run(x@.skip(d as int)),
        decreases x.len() - d,
    {
        assert(x@.skip(d as int)[0] == x@[d as int]);
        assert(x@.skip(d as int).skip(1) =~= x@.skip(d + 1));
        d = d + 1;
    }
    assert(d < x.len() ==> x@.skip(d as int)[0] == x@[d as int]);
    if d > 0 && x.len() - d >= 2 && (x[d] == '.' || x[d] == ')') && x[d + 1] == ' ' {
        Some(d)
    } else {
        None
    }
}

fn heading(t: &str) -> (r: String)
    requires
        t@.len() > 0,
    ensures
        r@ == heading_row(t@),
{
    let x = chars_of(t);
    let mut i: usize = 1;
    while i < x.len() && x[i] == '#'
        invariant
            1 <= i <= x.len(),
            run_of(x@.skip(1), '#') == (i - 1) + run_of(x@.skip(i as int), '#'),
        decreases x.len() - i,
    {
        assert(x@.skip(i as int)[0] == x@[i as int]);
        assert(x@.skip(i as int).skip(1) =~= x@.skip(i + 1));
        i = i + 1;
    }
    assert(i < x.len() ==> x@.skip(i as int)[0] == x@[i as int]);
    let rest = skip_chars(t, i);
    let title = trim(rest.as_str());
    let styled = render_inline(title.as_str());
    let mut out = if i == 1 {
        concat3(BOLD, UNDERLINE, GREEN)
    } else {
        concat2(BOLD, GREEN)
    };
    out.append(styled.as_str());
    out.append(RESET);
    out
}

fn render_line(line: &str) -> (r: String)
    ensures
        r@ == line_row(line@),
{
    let t = trim_start(line);
    let n: usize = t.as_str().unicode_len();
    if n == 0 {
        return String::new();
    }
    let first: char = t.as_str().get_char(0);
    if first == '#' {
        return heading(t.as_str());
    }
    if same(t.as_str(), "---") || same(t.as_str(), "***") || same(t.as_str(), "___") {
        let rule = repeat_char('─', 40);
        return concat3(DIM, rule.as_str(), RESET);
    }
    if first == '>' {
        let rest = skip_chars(t.as_str(), 1);
        let quote = trim_start(rest.as_str());
        let styled = render_inline(quote.as_str());
        let mut out = concat3(DIM, "│ ", styled.as_str());
        out.append(RESET);
        return out;
    }
    let mut out = indent_text(line);
    if n >= 2 && (first == '-' || first == '*' || first == '+') && t.as_str().get_char(1) == ' ' {
        let rest = skip_chars(t.as_str(), 2);
        let styled = render_inline(rest.as_str());
        out.append("  * ");
        out.append(styled.as_str());
        return out;
    }
    match ordered_item(t.as_str()) {
        Some(d) => {
            let x = chars_of(t.as_str());
            let number = sub_string(&x, 0, d);
            assert(x@.subrange(0, d as int) =~= x@.take(d as int));
            let rest = skip_chars(t.as_str(), d + 2);
            let styled = render_inline(rest.as_str());
            out.append("  ");
            out.append(number.as_str());
            out.append(". ");
            out.append(styled.as_str());
        },
        None => {
            let styled = render_inline(t.as_str());
            out.append(styled.as_str());
        },
    }
    out
}

/// Renders Markdown source as coloured lines.
pub fn render_markdown_ansi(source: &str) -> (r: String)
    ensures
        r@ == text::trimmed_end(text::joined(rows_of(text::lines(source@)).0, "\n"@)),
{
    let ls = split_lines(source);
    let ghost all = text::texts(ls@);
    let mut rows: Vec<String> = Vec::new();
    let mut fenced = false;
    let mut i: usize = 0;
    assert(all.take(0) =~= Seq::empty());
    assert(text::texts(rows@) =~= Seq::empty());
    while i < ls.len()
        invariant
            i <= ls.len(),
            all == text::texts(ls@),
            (text::texts(rows@), fenced) == rows_of(all.take(i as int)),
        decreases ls.len() - i,
    {
        assert(all.take(i + 1).drop_last() =~= all.take(i as int));
        let line = trim_end(ls[i].as_str());
        let body = trim_start(line.as_str());
        if starts_with(body.as_str(), "```") {
            fenced = !fenced;
        } else if fenced {
            let mut row = concat3(DIM, "  ", line.as_str());
            row.append(RESET);
            push_row(&mut rows, row);
        } else {
            push_row(&mut rows, render_line(line.as_str()));
        }
        i = i + 1;
    }
    assert(all.take(i as int) =~= all);
    let out = join_texts(&rows, "\n");
    trim_end(out.as_str())
}

// ---------------------------------------------------------------------------
// Laws
// ---------------------------------------------------------------------------

/// Whether `c` marks emphasis or code.
pub open spec fn is_marker(c: char) -> bool {
    c == '`' || c == '*' || c == '_'
}

/// A text without emphasis markers is rendered as it is.
pub proof fn law_plain_text_passes_through(s: Seq<char>, i: nat)
    requires
        i <= s.len(),
        forall|k: int| 0 <= k < s.len() ==> !is_marker(#[trigger] s[k]),
    ensures
        inline_from(s, i) == s.skip(i as int),
    decreases s.len() - i,
{
    if i < s.len() {
        assert(!is_marker(s[i as int]));
        law_plain_text_passes_through(s, i + 1);
        assert(seq![s[i as int]] + s.skip(i as int + 1) =~= s.skip(i as int));
    } else {
        assert(s.skip(i as int) =~= Seq::empty());
    }
}

/// Emphasis keeps its text: words between two stars, or between two
/// underscores that begin no part of a word, are shown in italics, whole and
/// without the markers. What follows is rendered as it would be anyway.
pub proof fn law_emphasis_keeps_its_text(
    before: Seq<char>,
    marker: char,
    words: Seq<char>,
    after: Seq<char>,
)
    requires
        marker == '*' || marker == '_',
        marker == '_' ==> before.len() == 0 || !alphanumeric(before.last()),
        words.len() > 0,
        words[0] != ' ',
        words.last() != ' ',
        forall|k: int| 0 <= k < words.len() ==> ({
            &&& #[trigger] words[k] != '`'
            &&& words[k] != '*'
            &&& words[k] != '_'
        }),
    ensures
        ({
            let s = before + seq![marker] + words + seq![marker] + after;
            inline_from(s, before.len()) == "\u{1b}[3m"@ + words + "\u{1b}[0m"@ + inline_from(
                s,
                before.len() + words.len() + 2,
            )
        }),
{
    let s = before + seq![marker] + words + seq![marker] + after;
    let i = before.len() as int;
    let k = words.len() as int;
    assert(s[i] == marker);
    assert(s[i + 1] == words[0]);
    assert(s.skip(i + 1) =~= words + (seq![marker] + after));
    assert(s.skip(i + 1)[k] == marker);
    lemma_run_stops(s.skip(i + 1), marker, k);
    assert(s[i + k] == words.last());
    if i > 0 {
        assert(s[i - 1] == before.last());
    }
    assert(opens_italic(s, i));
    assert(s.subrange(i + 1, i + 1 + k) =~= words);
    law_plain_text_passes_through(words, 0);
    assert(words.skip(0) =~= words);
}

proof fn lemma_run_stops(s: Seq<char>, c: char, k: int)
    requires
        0 <= k < s.len(),
        s[k] == c,
        forall|j: int| 0 <= j < k ==> #[trigger] s[j] != c,
    ensures
        run_before(s, c) == k,
    decreases k,
{
    if k > 0 {
        assert(s[0] != c);
        let t = s.skip(1);
        assert forall|j: int| 0 <= j < k - 1 implies #[trigger] t[j] != c by {
            assert(s[j + 1] != c);
        }
        lemma_run_stops(t, c, k - 1);
    }
}

/// Words between two pairs of stars are shown in bold, whole and without the
/// stars; other markers among them still count.
pub proof fn law_bold_keeps_its_text(before: Seq<char>, words: Seq<char>, after: Seq<char>)
    requires
        forall|k: int| 0 <= k < words.len() ==> #[trigger] words[k] != '*',
    ensures
        ({
            let s = before + seq!['*', '*'] + words + seq!['*', '*'] + after;
            inline_from(s, before.len()) == "\u{1b}[1m"@ + inline_from(words, 0) + "\u{1b}[0m"@
                + inline_from(s, before.len() + words.len() + 4)
        }),
{
    let s = before + seq!['*', '*'] + words + seq!['*', '*'] + after;
    let i = before.len() as int;
    let k = words.len() as int;
    assert(s[i] == '*' && s[i + 1] == '*');
    let t = s.skip(i + 2);
    assert(t =~= words + (seq!['*', '*'] + after));
    lemma_pair_stops(t, k);
    assert(opens_bold(s, i));
    assert(s.subrange(i + 2, i + 2 + k) =~= words);
}

proof fn lemma_pair_stops(s: Seq<char>, k: int)
    requires
        0 <= k,
        k + 2 <= s.len(),
        s[k] == '*',
        s[k + 1] == '*',
        forall|j: int| 0 <= j < k ==> #[trigger] s[j] != '*',
    ensures
        run_before_pair(s) == k,
    decreases k,
{
    if k > 0 {
        assert(s[0] != '*');
        let t = s.skip(1);
        assert forall|j: int| 0 <= j < k - 1 implies #[trigger] t[j] != '*' by {
            assert(s[j + 1] != '*');
        }
        lemma_pair_stops(t, k - 1);
    }
}

/// A text between two backquotes is code: it is shown as it stands, in yellow
/// and without the quotes.
pub proof fn law_code_is_shown_as_it_stands(before: Seq<char>, code: Seq<char>, after: Seq<char>)
    requires
        forall|k: int| 0 <= k < code.len() ==> #[trigger] code[k] != '`',
    ensures
        ({
            let s = before + seq!['`'] + code + seq!['`'] + after;
            inline_from(s, before.len()) == "\u{1b}[33m"@ + code + "\u{1b}[0m"@ + inline_from(
                s,
                before.len() + code.len() + 2,
            )
        }),
{
    let s = before + seq!['`'] + code + seq!['`'] + after;
    let i = before.len() as int;
    let k = code.len() as int;
    assert(s[i] == '`');
    let t = s.skip(i + 1);
    assert(t =~= code + (seq!['`'] + after));
    assert(t[k] == '`');
    lemma_run_stops(t, '`', k);
    assert(opens_code(s, i));
    assert(s.subrange(i + 1, i + 1 + k) =~= code);
}

/// A character that is no marker stands for itself, and so does a marker that
/// nothing closes.
pub proof fn law_unpaired_markers_pass_through(s: Seq<char>, i: int)
    requires
        0 <= i < s.len(),
        !is_marker(s[i]) || (forall|k: int| i < k < s.len() ==> #[trigger] s[k] != s[i]),
    ensures
        inline_from(s, i as nat) == seq![s[i]] + inline_from(s, (i + 1) as nat),
        !is_marker(s[i]) <==> s[i] != '`' && s[i] != '*' && s[i] != '_',
{
    if is_marker(s[i]) {
        let t = s.skip(i + 1);
        assert forall|k: int| 0 <= k < t.len() implies #[trigger] t[k] != s[i] by {
            assert(s[i + 1 + k] != s[i]);
        }
        lemma_run_goes_on(t, s[i]);
        if i + 1 < s.len() {
            assert(s[i + 1] != s[i]);
        }
    }
}

/// An underscore inside a word is no marker, and neither is a marker before a
/// space: each stands for itself.
pub proof fn law_loose_markers_pass_through(s: Seq<char>, i: int)
    requires
        0 <= i < s.len(),
        s[i] == '_' && i > 0 && alphanumeric(s[i - 1]) || (s[i] == '_' || s[i] == '*') && i + 1
            < s.len() && s[i + 1] == ' ',
    ensures
        inline_from(s, i as nat) == seq![s[i]] + inline_from(s, (i + 1) as nat),
{
}

proof fn lemma_run_goes_on(s: Seq<char>, c: char)
    requires
        forall|j: int| 0 <= j < s.len() ==> #[trigger] s[j] != c,
    ensures
        run_before(s, c) == s.len(),
    decreases s.len(),
{
    if s.len() > 0 {
        assert(s[0] != c);
        let t = s.skip(1);
        assert forall|j: int| 0 <= j < t.len() implies #[trigger] t[j] != c by {
            assert(s[j + 1] != c);
        }
        lemma_run_goes_on(t, c);
    }
}

/// Rendering loses no text and adds none: what is seen of a rendered text and
/// the text itself differ in emphasis markers alone.
pub proof fn law_rendering_loses_no_text(s: Seq<char>)
    requires
        !s.contains('\u{1b}'),
    ensures
        ansi::visible(inline_from(s, 0)).filter(|c: char| c != '`' && c != '*' && c != '_')
            == s.filter(|c: char| c != '`' && c != '*' && c != '_'),
{
    lemma_rendering_loses_no_text(s, 0);
    assert(s.skip(0) =~= s);
}

proof fn lemma_rendering_loses_no_text(s: Seq<char>, i: nat)
    requires
        i <= s.len(),
        !s.contains('\u{1b}'),
    ensures
        ansi::visible(inline_from(s, i)).filter(|c: char| c != '`' && c != '*' && c != '_')
            == s.skip(i as int).filter(|c: char| c != '`' && c != '*' && c != '_'),
    decreases s.len(), s.len() - i,
{
    let p = i as int;
    let kept = |c: char| c != '`' && c != '*' && c != '_';
    if i >= s.len() {
        assert(ansi::visible(inline_from(s, i)) =~= s.skip(p));
    } else if opens_code(s, p) {
        let k = run_before(s.skip(p + 1), '`') as int;
        let inner = s.subrange(p + 1, p + 1 + k);
        lemma_run_end(s.skip(p + 1), '`');
        assert(s[p + 1 + k] == s.skip(p + 1)[k]);
        lemma_rendering_loses_no_text(s, (i + k + 2) as nat);
        lemma_part_is_plain(s, p + 1, p + 1 + k);
        ansi::law_plain_text_is_visible(inner);
        lemma_styled("\u{1b}[33m"@, seq!['3', '3'], inner, inline_from(s, (i + k + 2) as nat));
        lemma_markers_vanish(s, p, seq!['`'], inner, seq!['`']);
        Seq::filter_distributes_over_add(
            ansi::visible(inner),
            ansi::visible(inline_from(s, (i + k + 2) as nat)),
            kept,
        );
    } else if opens_bold(s, p) {
        let k = run_before_pair(s.skip(p + 2)) as int;
        let inner = s.subrange(p + 2, p + 2 + k);
        lemma_pair_end(s.skip(p + 2));
        assert(s[p + 2 + k] == s.skip(p + 2)[k]);
        assert(s[p + 3 + k] == s.skip(p + 2)[k + 1]);
        lemma_rendering_loses_no_text(s, (i + k + 4) as nat);
        lemma_part_is_plain(s, p + 2, p + 2 + k);
        lemma_rendering_loses_no_text(inner, 0);
        assert(inner.skip(0) =~= inner);
        lemma_styled(
            "\u{1b}[1m"@,
            seq!['1'],
            inline_from(inner, 0),
            inline_from(s, (i + k + 4) as nat),
        );
        lemma_markers_vanish(s, p, seq!['*', '*'], inner, seq!['*', '*']);
        Seq::filter_distributes_over_add(
            ansi::visible(inline_from(inner, 0)),
            ansi::visible(inline_from(s, (i + k + 4) as nat)),
            kept,
        );
    } else if opens_italic(s, p) {
        let k = run_before(s.skip(p + 1), s[p]) as int;
        let inner = s.subrange(p + 1, p + 1 + k);
        lemma_run_end(s.skip(p + 1), s[p]);
        assert(s[p + 1 + k] == s.skip(p + 1)[k]);
        lemma_rendering_loses_no_text(s, (i + k + 2) as nat);
        lemma_part_is_plain(s, p + 1, p + 1 + k);
        lemma_rendering_loses_no_text(inner, 0);
        assert(inner.skip(0) =~= inner);
        lemma_styled(
            "\u{1b}[3m"@,
            seq!['3'],
            inline_from(inner, 0),
            inline_from(s, (i + k + 2) as nat),
        );
        lemma_markers_vanish(s, p, seq![s[p]], inner, seq![s[p]]);
        Seq::filter_distributes_over_add(
            ansi::visible(inline_from(inner, 0)),
            ansi::visible(inline_from(s, (i + k + 2) as nat)),
            kept,
        );
    } else {
        lemma_rendering_loses_no_text(s, i + 1);
        assert(s.contains(s[p]));
        let rest = inline_from(s, i + 1);
        let all = seq![s[p]] + rest;
        assert(all.skip(1) =~= rest);
        assert(ansi::visible(all) == seq![s[p]] + ansi::visible(rest));
        assert(s.skip(p) =~= seq![s[p]] + s.skip(p + 1));
        Seq::filter_distributes_over_add(seq![s[p]], ansi::visible(rest), kept);
        Seq::filter_distributes_over_add(seq![s[p]], s.skip(p + 1), kept);
    }
}

proof fn lemma_run_end(s: Seq<char>, c: char)
    ensures
        run_before(s, c) <= s.len(),
        run_before(s, c) < s.len() ==> s[run_before(s, c) as int] == c,
    decreases s.len(),
{
    if s.len() > 0 && s[0] != c {
        lemma_run_end(s.skip(1), c);
    }
}

proof fn lemma_pair_end(s: Seq<char>)
    ensures
        run_before_pair(s) <= s.len(),
        run_before_pair(s) + 2 <= s.len() ==> s[run_before_pair(s) as int] == '*'
            && s[run_before_pair(s) as int + 1] == '*',
    decreases s.len(),
{
    if s.len() >= 2 && !(s[0] == '*' && s[1] == '*') {
        lemma_pair_end(s.skip(1));
    }
}

proof fn lemma_part_is_plain(s: Seq<char>, from: int, to: int)
    requires
        0 <= from <= to <= s.len(),
        !s.contains('\u{1b}'),
    ensures
        !s.subrange(from, to).contains('\u{1b}'),
{
    let t = s.subrange(from, to);
    assert forall|k: int| 0 <= k < t.len() implies t[k] != '\u{1b}' by {
        assert(s.contains(s[from + k]));
    }
}

proof fn lemma_styled(code: Seq<char>, params: Seq<char>, a: Seq<char>, b: Seq<char>)
    requires
        code == "\u{1b}[33m"@ && params == seq!['3', '3'] || code == "\u{1b}[1m"@ && params
            == seq!['1'] || code == "\u{1b}[3m"@ && params == seq!['3'],
    ensures
        ansi::visible(code + a + RESET@ + b) == ansi::visible(a) + ansi::visible(b),
{
    reveal_strlit("\u{1b}[33m");
    reveal_strlit("\u{1b}[1m");
    reveal_strlit("\u{1b}[3m");
    reveal_strlit("\u{1b}[0m");
    let tail = RESET@ + b;
    assert(code =~= seq!['\u{1b}', '['] + params + seq!['m']);
    assert(RESET@ =~= seq!['\u{1b}', '['] + seq!['0'] + seq!['m']);
    ansi::law_a_style_code_is_invisible(params, a + tail);
    ansi::law_a_style_code_is_invisible(seq!['0'], b);
    assert(code + a + RESET@ + b =~= seq!['\u{1b}', '['] + params + seq!['m'] + (a + tail));
    assert(tail =~= seq!['\u{1b}', '['] + seq!['0'] + seq!['m'] + b);
    assert(tail[0] == '\u{1b}');
    ansi::lemma_visible_append(a, tail);
}

proof fn lemma_markers_vanish(
    s: Seq<char>,
    p: int,
    open: Seq<char>,
    inner: Seq<char>,
    close: Seq<char>,
)
    requires
        0 <= p,
        p + open.len() + inner.len() + close.len() <= s.len(),
        1 <= open.len() <= 2,
        1 <= close.len() <= 2,
        forall|k: int| 0 <= k < open.len() ==> is_marker(#[trigger] open[k]),
        forall|k: int| 0 <= k < close.len() ==> is_marker(#[trigger] close[k]),
        open =~= s.subrange(p, p + open.len()),
        inner =~= s.subrange(p + open.len(), p + open.len() + inner.len()),
        close =~= s.subrange(
            p + open.len() + inner.len(),
            p + open.len() + inner.len() + close.len(),
        ),
    ensures
        s.skip(p).filter(|c: char| c != '`' && c != '*' && c != '_') == inner.filter(
            |c: char| c != '`' && c != '*' && c != '_',
        ) + s.skip(p + open.len() + inner.len() + close.len()).filter(
            |c: char| c != '`' && c != '*' && c != '_',
        ),
{
    let kept = |c: char| c != '`' && c != '*' && c != '_';
    let rest = s.skip(p + open.len() + inner.len() + close.len());
    lemma_only_markers(open);
    lemma_only_markers(close);
    assert(s.skip(p) =~= open + (inner + (close + rest)));
    Seq::filter_distributes_over_add(open, inner + (close + rest), kept);
    Seq::filter_distributes_over_add(inner, close + rest, kept);
    Seq::filter_distributes_over_add(close, rest, kept);
    assert(Seq::<char>::empty() + rest.filter(kept) =~= rest.filter(kept));
    assert(Seq::<char>::empty() + (inner.filter(kept) + rest.filter(kept)) =~= inner.filter(kept)
        + rest.filter(kept));
}

proof fn lemma_only_markers(s: Seq<char>)
    requires
        forall|k: int| 0 <= k < s.len() ==> is_marker(#[trigger] s[k]),
    ensures
        s.filter(|c: char| c != '`' && c != '*' && c != '_') == Seq::<char>::empty(),
    decreases s.len(),
{
    reveal(Seq::filter);
    if s.len() > 0 {
        assert(is_marker(s[s.len() - 1]));
        lemma_only_markers(s.drop_last());
    }
}

/// What each kind of line becomes, with `pad` spaces before it: a heading is
/// bold and green, underlined where it is of the first level; a quote is dim
/// behind a bar; an item of a list keeps its indent behind a star or its
/// number; any other line keeps its indent. Its text is rendered inline, whole.
pub proof fn law_every_line_keeps_its_text(
    pad: nat,
    level: nat,
    number: Seq<char>,
    body: Seq<char>,
)
    requires
        level > 0,
        body.len() > 0,
        !text::is_space(body[0]),
        !text::is_space(body.last()),
        body[0] != '#',
        number.len() > 0,
        forall|i: int| 0 <= i < number.len() ==> '0' <= #[trigger] number[i] <= '9',
    ensures
        ({
            let spaces = Seq::new(pad, |i: int| ' ');
            let marks = Seq::new(level, |i: int| '#');
            let shown = inline_from(body, 0);
            &&& level == 1 ==> line_row(spaces + marks + seq![' '] + body)
                == "\u{1b}[1m\u{1b}[4m\u{1b}[32m"@ + shown + "\u{1b}[0m"@
            &&& level > 1 ==> line_row(spaces + marks + seq![' '] + body)
                == "\u{1b}[1m\u{1b}[32m"@ + shown + "\u{1b}[0m"@
            &&& line_row(spaces + seq!['>', ' '] + body) == "\u{1b}[2m\u{2502} "@ + shown
                + "\u{1b}[0m"@
            &&& line_row(spaces + seq!['-', ' '] + body) == spaces + "  * "@ + shown
            &&& line_row(spaces + seq!['*', ' '] + body) == spaces + "  * "@ + shown
            &&& line_row(spaces + seq!['+', ' '] + body) == spaces + "  * "@ + shown
            &&& line_row(spaces + number + seq!['.', ' '] + body) == spaces + "  "@ + number
                + ". "@ + shown
            &&& line_row(spaces + number + seq![')', ' '] + body) == spaces + "  "@ + number
                + ". "@ + shown
        }),
{
    let spaces = Seq::new(pad, |i: int| ' ');
    let marks = Seq::new(level, |i: int| '#');
    reveal_strlit("\u{1b}[1m\u{1b}[4m\u{1b}[32m");
    reveal_strlit("\u{1b}[1m\u{1b}[32m");
    reveal_strlit("\u{1b}[1m");
    reveal_strlit("\u{1b}[4m");
    reveal_strlit("\u{1b}[32m");
    reveal_strlit("\u{1b}[2m");
    reveal_strlit("\u{2502} ");
    reveal_strlit("\u{1b}[2m\u{2502} ");
    assert("\u{1b}[1m\u{1b}[4m\u{1b}[32m"@ =~= BOLD@ + UNDERLINE@ + GREEN@);
    assert("\u{1b}[1m\u{1b}[32m"@ =~= BOLD@ + GREEN@);
    assert("\u{1b}[2m\u{2502} "@ =~= DIM@ + "│ "@);
    lemma_heading_line(pad, level, body);
    lemma_item_line(pad, '-', body);
    lemma_item_line(pad, '*', body);
    lemma_item_line(pad, '+', body);
    lemma_quote_line(pad, body);
    lemma_numbered_line(pad, number, '.', body);
    lemma_numbered_line(pad, number, ')', body);
}

proof fn lemma_padded_line(pad: nat, t: Seq<char>)
    requires
        t.len() > 0,
        !text::is_space(t[0]),
    ensures
        text::trimmed_start(Seq::new(pad, |i: int| ' ') + t) == t,
        indent_of(Seq::new(pad, |i: int| ' ') + t) == Seq::new(pad, |i: int| ' '),
    decreases pad,
{
    let spaces = Seq::new(pad, |i: int| ' ');
    let s = spaces + t;
    if pad == 0 {
        assert(s =~= t);
        assert(indent_of(s) =~= spaces);
    } else {
        let fewer = Seq::new((pad - 1) as nat, |i: int| ' ');
        lemma_padded_line((pad - 1) as nat, t);
        assert(s.skip(1) =~= fewer + t);
        assert(s[0] == ' ');
        assert(text::repeated(' ', 1) + fewer =~= spaces);
    }
}

proof fn lemma_is_no_rule(t: Seq<char>)
    requires
        t == "---"@ || t == "***"@ || t == "___"@,
    ensures
        t.len() == 3,
        t[1] == t[0],
        t[0] == '-' || t[0] == '*' || t[0] == '_',
{
    reveal_strlit("---");
    reveal_strlit("***");
    reveal_strlit("___");
}

proof fn lemma_heading_line(pad: nat, level: nat, body: Seq<char>)
    requires
        level > 0,
        body.len() > 0,
        !text::is_space(body[0]),
        !text::is_space(body.last()),
        body[0] != '#',
    ensures
        ({
            let line = Seq::new(pad, |i: int| ' ') + Seq::new(level, |i: int| '#') + seq![' ']
                + body;
            line_row(line) == (if level == 1 {
                BOLD@ + UNDERLINE@ + GREEN@
            } else {
                BOLD@ + GREEN@
            }) + inline_from(body, 0) + RESET@
        }),
{
    let spaces = Seq::new(pad, |i: int| ' ');
    let marks = Seq::new(level, |i: int| '#');
    let t = marks + seq![' '] + body;
    assert(spaces + marks + seq![' '] + body =~= spaces + t);
    lemma_padded_line(pad, t);
    let fewer = Seq::new((level - 1) as nat, |i: int| '#');
    assert(t.skip(1) =~= fewer + (seq![' '] + body));
    lemma_mark_run((level - 1) as nat, seq![' '] + body);
    assert(t.skip(level as int) =~= seq![' '] + body);
    assert(seq![' '] + body =~= seq![' '] + body + Seq::<char>::empty());
    text::law_trimming_gives_the_middle(seq![' '], body, Seq::empty());
}

proof fn lemma_mark_run(n: nat, rest: Seq<char>)
    requires
        rest.len() > 0,
        rest[0] != '#',
    ensures
        run_of(Seq::new(n, |i: int| '#') + rest, '#') == n,
    decreases n,
{
    let s = Seq::new(n, |i: int| '#') + rest;
    if n > 0 {
        lemma_mark_run((n - 1) as nat, rest);
        assert(s[0] == '#');
        assert(s.skip(1) =~= Seq::new((n - 1) as nat, |i: int| '#') + rest);
    } else {
        assert(s =~= rest);
    }
}

proof fn lemma_item_line(pad: nat, mark: char, body: Seq<char>)
    requires
        mark == '-' || mark == '*' || mark == '+',
    ensures
        line_row(Seq::new(pad, |i: int| ' ') + seq![mark, ' '] + body) == Seq::new(
            pad,
            |i: int| ' ',
        ) + "  * "@ + inline_from(body, 0),
{
    let spaces = Seq::new(pad, |i: int| ' ');
    let t = seq![mark, ' '] + body;
    assert(spaces + seq![mark, ' '] + body =~= spaces + t);
    lemma_padded_line(pad, t);
    if t == "---"@ || t == "***"@ || t == "___"@ {
        lemma_is_no_rule(t);
    }
    assert(t.skip(2) =~= body);
}

proof fn lemma_quote_line(pad: nat, body: Seq<char>)
    requires
        body.len() > 0,
        !text::is_space(body[0]),
    ensures
        line_row(Seq::new(pad, |i: int| ' ') + seq!['>', ' '] + body) == DIM@ + "│ "@
            + inline_from(body, 0) + RESET@,
{
    let spaces = Seq::new(pad, |i: int| ' ');
    let t = seq!['>', ' '] + body;
    assert(spaces + seq!['>', ' '] + body =~= spaces + t);
    lemma_padded_line(pad, t);
    if t == "---"@ || t == "***"@ || t == "___"@ {
        lemma_is_no_rule(t);
    }
    assert(t.skip(1) =~= Seq::new(1, |i: int| ' ') + body);
    lemma_padded_line(1, body);
}

proof fn lemma_numbered_line(pad: nat, number: Seq<char>, mark: char, body: Seq<char>)
    requires
        mark == '.' || mark == ')',
        number.len() > 0,
        forall|i: int| 0 <= i < number.len() ==> '0' <= #[trigger] number[i] <= '9',
    ensures
        line_row(Seq::new(pad, |i: int| ' ') + number + seq![mark, ' '] + body) == Seq::new(
            pad,
            |i: int| ' ',
        ) + "  "@ + number + ". "@ + inline_from(body, 0),
{
    let spaces = Seq::new(pad, |i: int| ' ');
    let t = number + seq![mark, ' '] + body;
    let d = number.len() as int;
    assert(spaces + number + seq![mark, ' '] + body =~= spaces + t);
    assert(t[0] == number[0]);
    lemma_padded_line(pad, t);
    if t == "---"@ || t == "***"@ || t == "___"@ {
        lemma_is_no_rule(t);
    }
    assert(t =~= number + (seq![mark, ' '] + body));
    lemma_digit_run(number, seq![mark, ' '] + body);
    assert(t[d] == mark && t[d + 1] == ' ');
    assert(t.take(d) =~= number);
    assert(t.skip(d + 2) =~= body);
}

proof fn lemma_digit_run(number: Seq<char>, rest: Seq<char>)
    requires
        forall|i: int| 0 <= i < number.len() ==> '0' <= #[trigger] number[i] <= '9',
        rest.len() > 0,
        !('0' <= rest[0] <= '9'),
    ensures
        digit_run(number + rest) == number.len(),
    decreases number.len(),
{
    let s = number + rest;
    if number.len() > 0 {
        assert(s[0] == number[0]);
        assert(s.skip(1) =~= number.skip(1) + rest);
        lemma_digit_run(number.skip(1), rest);
    } else {
        assert(s =~= rest);
    }
}

/// A line that begins as no other kind does is a line of text: its indent, then
/// all of it rendered inline. Three dashes, stars or underscores are a rule,
/// and a line of white space is empty.
pub proof fn law_other_lines_are_text(pad: nat, body: Seq<char>)
    requires
        body.len() > 0,
        !text::is_space(body[0]),
        body[0] != '#',
        body[0] != '>',
        !('0' <= body[0] <= '9'),
        body.len() > 1 && body[1] == ' ' ==> body[0] != '-' && body[0] != '*' && body[0] != '+',
        body != "---"@ && body != "***"@ && body != "___"@,
    ensures
        line_row(Seq::new(pad, |i: int| ' ') + body) == Seq::new(pad, |i: int| ' ') + inline_from(
            body,
            0,
        ),
        line_row(Seq::empty()) == Seq::<char>::empty(),
        line_row("---"@) == "\u{1b}[2m"@ + Seq::new(40, |i: int| '─') + "\u{1b}[0m"@,
        line_row("***"@) == line_row("---"@),
        line_row("___"@) == line_row("---"@),
{
    lemma_padded_line(pad, body);
    reveal_strlit("---");
    reveal_strlit("***");
    reveal_strlit("___");
    assert(text::repeated('─', 40) =~= Seq::new(40, |i: int| '─'));
}

/// A fence shows nothing itself and turns code on or off. Each line of code is
/// one dim row behind two spaces, as it stands; each line outside is one row.
pub proof fn law_a_fence_shows_code_as_it_stands(lines: Seq<Seq<char>>, line: Seq<char>)
    requires
        text::trimmed_end(line) == line,
    ensures
        ({
            let (rows, fenced) = rows_of(lines);
            let (more, now) = rows_of(lines.push(line));
            let fence = "```"@.is_prefix_of(text::trimmed_start(line));
            &&& fence ==> more == rows && now == !fenced
            &&& !fence && fenced ==> more == rows.push("\u{1b}[2m  "@ + line + "\u{1b}[0m"@) && now
            &&& !fence && !fenced ==> more == rows.push(line_row(line)) && !now
        }),
        rows_of(Seq::empty()) == (Seq::<Seq<char>>::empty(), false),
{
    assert(lines.push(line).drop_last() =~= lines);
    reveal_strlit("\u{1b}[2m  ");
    reveal_strlit("\u{1b}[2m");
    reveal_strlit("  ");
    assert("\u{1b}[2m  "@ =~= DIM@ + "  "@);
}

/// A heading and a quote are known by their marks alone: no space is needed
/// behind them. The text keeps its own spaces.
pub proof fn law_marks_need_no_space(pad: nat, level: nat, body: Seq<char>)
    requires
        level > 0,
        body.len() > 0,
        !text::is_space(body[0]),
        !text::is_space(body.last()),
        body[0] != '#',
    ensures
        ({
            let spaces = Seq::new(pad, |i: int| ' ');
            let marks = Seq::new(level, |i: int| '#');
            let shown = inline_from(body, 0);
            &&& line_row(spaces + marks + body) == line_row(spaces + marks + seq![' '] + body)
            &&& line_row(spaces + seq!['>'] + body) == line_row(spaces + seq!['>', ' '] + body)
        }),
{
    let spaces = Seq::new(pad, |i: int| ' ');
    let marks = Seq::new(level, |i: int| '#');
    lemma_heading_line(pad, level, body);
    lemma_quote_line(pad, body);
    let t = marks + body;
    assert(spaces + marks + body =~= spaces + t);
    lemma_padded_line(pad, t);
    let fewer = Seq::new((level - 1) as nat, |i: int| '#');
    assert(t.skip(1) =~= fewer + body);
    lemma_mark_run((level - 1) as nat, body);
    assert(t.skip(level as int) =~= body);
    assert(body =~= Seq::<char>::empty() + body + Seq::<char>::empty());
    text::law_trimming_gives_the_middle(Seq::empty(), body, Seq::empty());
    let q = seq!['>'] + body;
    assert(spaces + seq!['>'] + body =~= spaces + q);
    lemma_padded_line(pad, q);
    if q == "---"@ || q == "***"@ || q == "___"@ {
        lemma_is_no_rule(q);
    }
    assert(q.skip(1) =~= Seq::new(0, |i: int| ' ') + body);
    lemma_padded_line(0, body);
}

/// A line keeps an indent of any white space, one space for each of its bytes.
pub proof fn law_an_indent_is_kept_in_spaces(c: char, line: Seq<char>)
    requires
        text::is_space(c),
    ensures
        c <= '\u{7f}' ==> indent_of(seq![c] + line) == seq![' '] + indent_of(line),
        '\u{7f}' < c <= '\u{7ff}' ==> indent_of(seq![c] + line) == seq![' ', ' '] + indent_of(line),
        '\u{7ff}' < c <= '\u{ffff}' ==> indent_of(seq![c] + line) == seq![' ', ' ', ' '] + indent_of(
            line,
        ),
        line.len() > 0 && !text::is_space(line[0]) ==> indent_of(line) == Seq::<char>::empty(),
{
    let s = seq![c] + line;
    assert(s[0] == c);
    assert(s.skip(1) =~= line);
    assert(text::repeated(' ', 1) =~= seq![' ']);
    assert(text::repeated(' ', 2) =~= seq![' ', ' ']);
    assert(text::repeated(' ', 3) =~= seq![' ', ' ', ' ']);
}

} // verus!
