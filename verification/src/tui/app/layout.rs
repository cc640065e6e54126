//! The composer's visual lines: where a text wraps at a width, and where a
//! cursor stands among the lines.

use std::ops::Range;
use vstd::prelude::*;
use crate::ansi;
use crate::ansi::char_width;
use crate::text::chars_of;

verus! {

/// The columns that the composer's text has at a terminal width: the prompt
/// takes two, the cursor one.
pub open spec fn body_columns(cols: nat) -> nat {
    if cols > 3 {
        (cols - 3) as nat
    } else {
        1
    }
}

pub fn composer_text_width(cols: usize) -> (r: usize)
    ensures
        r == body_columns(cols as nat),
{
    if cols > 3 {
        cols - 3
    } else {
        1
    }
}

// ---------------------------------------------------------------------------
// Wrapping
// ---------------------------------------------------------------------------

/// The first line feed from `from` on, else the length.
pub open spec fn line_end(s: Seq<char>, from: int) -> int
    decreases s.len() - from,
{
    if from >= s.len() {
        s.len() as int
    } else if s[from] == '\n' {
        from
    } else {
        line_end(s, from + 1)
    }
}

/// The first position from `i` on whose character does not fit in `room`
/// columns, at most `to`.
pub open spec fn room_end(s: Seq<char>, i: int, to: int, room: nat) -> int
    decreases to - i,
{
    if i >= to {
        to
    } else if ansi::char_columns(s[i]) > room {
        i
    } else {
        room_end(s, i + 1, to, (room - ansi::char_columns(s[i])) as nat)
    }
}

/// The last space in `from..end`.
pub open spec fn last_space(s: Seq<char>, from: int, end: int) -> Option<int>
    decreases end - from,
{
    if end <= from {
        None
    } else if s[end - 1] == ' ' {
        Some(end - 1)
    } else {
        last_space(s, from, end - 1)
    }
}

/// Where the line that starts at `from` ends: at `to` where everything fits,
/// else behind the last space that fits, else behind the last character that
/// fits, and in any case behind one character.
pub open spec fn break_at(s: Seq<char>, from: int, to: int, width: nat) -> int {
    let fit = room_end(s, from, to, width);
    if fit >= to {
        to
    } else {
        let end = if fit > from {
            fit
        } else {
            from + 1
        };
        match last_space(s, from, end) {
            Some(p) => p + 1,
            None => end,
        }
    }
}

proof fn lemma_line_end(s: Seq<char>, from: int)
    requires
        0 <= from <= s.len(),
    ensures
        from <= line_end(s, from) <= s.len(),
    decreases s.len() - from,
{
    if from < s.len() && s[from] != '\n' {
        lemma_line_end(s, from + 1);
    }
}

proof fn lemma_room_end(s: Seq<char>, i: int, to: int, room: nat)
    requires
        0 <= i <= to,
    ensures
        i <= room_end(s, i, to, room) <= to,
    decreases to - i,
{
    if i < to && ansi::char_columns(s[i]) <= room {
        lemma_room_end(s, i + 1, to, (room - ansi::char_columns(s[i])) as nat);
    }
}

proof fn lemma_last_space(s: Seq<char>, from: int, end: int)
    ensures
        last_space(s, from, end) matches Some(p) ==> from <= p < end,
    decreases end - from,
{
    if end > from && s[end - 1] != ' ' {
        lemma_last_space(s, from, end - 1);
    }
}

proof fn lemma_break_at(s: Seq<char>, from: int, to: int, width: nat)
    requires
        0 <= from <= to <= s.len(),
    ensures
        from <= break_at(s, from, to, width) <= to,
        from < to ==> from < break_at(s, from, to, width),
{
    lemma_room_end(s, from, to, width);
    let fit = room_end(s, from, to, width);
    let end = if fit > from {
        fit
    } else {
        from + 1
    };
    lemma_last_space(s, from, end);
}

/// The lines from `from` on, each as the range of its characters. A line feed
/// belongs to no line.
pub open spec fn line_ranges(s: Seq<char>, width: nat, from: int) -> Seq<(int, int)>
    decreases s.len() + 1 - from,
{
    if from < 0 || from > s.len() {
        Seq::empty()
    } else {
        let to = line_end(s, from);
        let b = break_at(s, from, to, width);
        if from < b < to <= s.len() {
            seq![(from, b)] + line_ranges(s, width, b)
        } else if from <= to < s.len() {
            seq![(from, to)] + line_ranges(s, width, to + 1)
        } else {
            seq![(from, to)]
        }
    }
}

/// What ranges say.
pub open spec fn range_models(v: Seq<Range<usize>>) -> Seq<(int, int)> {
    Seq::new(v.len(), |i: int| (v[i].start as int, v[i].end as int))
}

fn find_line_end(x: &Vec<char>, from: usize) -> (r: usize)
    requires
        from <= x.len(),
    ensures
        r == line_end(x@, from as int),
        from <= r <= x.len(),
{
    let mut i: usize = from;
    while i < x.len() && x[i] != '\n'
        invariant
            from <= i <= x.len(),
            line_end(x@, from as int) == line_end(x@, i as int),
        decreases x.len() - i,
    {
        i = i + 1;
    }
    i
}

fn find_break(x: &Vec<char>, from: usize, to: usize, width: usize) -> (r: usize)
    requires
        from <= to <= x.len(),
    ensures
        r == break_at(x@, from as int, to as int, width as nat),
        from <= r <= to,
        from < to ==> from < r,
{
    proof {
        lemma_break_at(x@, from as int, to as int, width as nat);
    }
    let mut room: usize = width;
    let mut i: usize = from;
    while i < to && char_width(x[i]) <= room
        invariant
            from <= i <= to <= x.len(),
            room_end(x@, from as int, to as int, width as nat) == room_end(
                x@,
                i as int,
                to as int,
                room as nat,
            ),
        decreases to - i,
    {
        room = room - char_width(x[i]);
        i = i + 1;
    }
    if i >= to {
        return to;
    }
    let end: usize = if i > from {
        i
    } else {
        from + 1
    };
    let mut e: usize = end;
    while e > from
        invariant
            from <= e <= end <= to <= x.len(),
            room_end(x@, from as int, to as int, width as nat) < to,
            end == (if room_end(x@, from as int, to as int, width as nat) > from {
                room_end(x@, from as int, to as int, width as nat)
            } else {
                from + 1
            }),
            last_space(x@, from as int, end as int) == last_space(x@, from as int, e as int),
        decreases e - from,
    {
        if x[e - 1] == ' ' {
            return e;
        }
        e = e - 1;
    }
    end
}

/// The visual lines of the composer's text at a width, as ranges of its
/// characters.
pub fn composer_lines(text: &str, width: usize) -> (r: Vec<Range<usize>>)
    ensures
        range_models(r@) == line_ranges(text@, width as nat, 0),
        r@.len() > 0,
{
    let x = chars_of(text);
    let mut out: Vec<Range<usize>> = Vec::new();
    let mut from: usize = 0;
    assert(range_models(out@) + line_ranges(x@, width as nat, 0) =~= line_ranges(
        x@,
        width as nat,
        0,
    ));
    loop
        invariant
            from <= x.len(),
            x@ == text@,
            range_models(out@) + line_ranges(x@, width as nat, from as int) == line_ranges(
                x@,
                width as nat,
                0,
            ),
        decreases x.len() - from,
    {
        let ghost before = range_models(out@);
        let to: usize = find_line_end(&x, from);
        let b: usize = find_break(&x, from, to, width);
        let end: usize = if b < to {
            b
        } else {
            to
        };
        out.push(Range { start: from, end });
        assert(range_models(out@) =~= before + seq![(from as int, end as int)]);
        if b < to {
            proof {
                let rest = line_ranges(x@, width as nat, b as int);
                assert(before + (seq![(from as int, b as int)] + rest) =~= range_models(out@)
                    + rest);
            }
            from = b;
        } else if to < x.len() {
            proof {
                let rest = line_ranges(x@, width as nat, to + 1);
                assert(before + (seq![(from as int, to as int)] + rest) =~= range_models(out@)
                    + rest);
            }
            from = to + 1;
        } else {
            return out;
        }
    }
}

// ---------------------------------------------------------------------------
// The cursor
// ---------------------------------------------------------------------------

/// The last line that starts at or before the cursor.
pub open spec fn cursor_line(lines: Seq<(int, int)>, cursor: int) -> int
    decreases lines.len(),
{
    if lines.len() <= 1 {
        0
    } else if lines.last().0 <= cursor {
        lines.len() - 1
    } else {
        cursor_line(lines.drop_last(), cursor)
    }
}

/// The line and the column, in characters, that the cursor stands at.
pub open spec fn cursor_position(s: Seq<char>, width: nat, cursor: int) -> (int, int) {
    let lines = line_ranges(s, width, 0);
    let line = cursor_line(lines, cursor);
    (line, cursor - lines[line].0)
}

/// The last column of a line that the cursor can stand at: behind its last
/// character, or on it where the text wraps right there.
pub open spec fn last_column(lines: Seq<(int, int)>, line: int) -> int {
    let length = lines[line].1 - lines[line].0;
    if line + 1 < lines.len() && lines[line + 1].0 == lines[line].1 && length > 0 {
        length - 1
    } else {
        length
    }
}

/// The cursor at a column of a line, at its last column at most.
pub open spec fn cursor_at(s: Seq<char>, width: nat, line: int, column: int) -> int {
    let lines = line_ranges(s, width, 0);
    let last = last_column(lines, line);
    lines[line].0 + (if column < last {
        column
    } else {
        last
    })
}

proof fn lemma_lines_in_text(s: Seq<char>, width: nat, from: int)
    requires
        0 <= from <= s.len(),
    ensures
        line_ranges(s, width, from).len() > 0,
        line_ranges(s, width, from)[0].0 == from,
        forall|i: int|
            0 <= i < line_ranges(s, width, from).len() ==> {
                let l = #[trigger] line_ranges(s, width, from)[i];
                from <= l.0 <= l.1 <= s.len()
            },
    decreases s.len() + 1 - from,
{
    let to = line_end(s, from);
    lemma_line_end(s, from);
    lemma_break_at(s, from, to, width);
    let b = break_at(s, from, to, width);
    let all = line_ranges(s, width, from);
    if from < b < to {
        lemma_lines_in_text(s, width, b);
        let rest = line_ranges(s, width, b);
        assert forall|i: int| 0 <= i < all.len() implies {
            let l = #[trigger] all[i];
            from <= l.0 <= l.1 <= s.len()
        } by {
            if i > 0 {
                assert(all[i] == rest[i - 1]);
            }
        }
    } else if to < s.len() {
        lemma_lines_in_text(s, width, to + 1);
        let rest = line_ranges(s, width, to + 1);
        assert forall|i: int| 0 <= i < all.len() implies {
            let l = #[trigger] all[i];
            from <= l.0 <= l.1 <= s.len()
        } by {
            if i > 0 {
                assert(all[i] == rest[i - 1]);
            }
        }
    }
}

proof fn lemma_cursor_line(lines: Seq<(int, int)>, cursor: int)
    requires
        lines.len() > 0,
        lines[0].0 <= cursor,
    ensures
        0 <= cursor_line(lines, cursor) < lines.len(),
        lines[cursor_line(lines, cursor)].0 <= cursor,
    decreases lines.len(),
{
    if lines.len() > 1 && lines.last().0 > cursor {
        lemma_cursor_line(lines.drop_last(), cursor);
    }
}

/// The line and the column that the cursor stands at.
pub fn composer_cursor_position(text: &str, width: usize, cursor: usize) -> (r: (usize, usize))
    ensures
        (r.0 as int, r.1 as int) == cursor_position(text@, width as nat, cursor as int),
        r.0 < line_ranges(text@, width as nat, 0).len(),
{
    let lines = composer_lines(text, width);
    let ghost all = range_models(lines@);
    proof {
        lemma_lines_in_text(text@, width as nat, 0);
        lemma_cursor_line(all, cursor as int);
    }
    let mut n: usize = lines.len();
    assert(all.take(n as int) =~= all);
    while n > 1
        invariant
            1 <= n <= lines@.len(),
            all == range_models(lines@),
            cursor_line(all, cursor as int) == cursor_line(all.take(n as int), cursor as int),
            all == line_ranges(text@, width as nat, 0),
            all[cursor_line(all, cursor as int)].0 <= cursor,
        decreases n,
    {
        assert(all.take(n as int).last() == all[n - 1]);
        if lines[n - 1].start <= cursor {
            return (n - 1, cursor - lines[n - 1].start);
        }
        assert(all.take(n as int).drop_last() =~= all.take(n - 1));
        n = n - 1;
    }
    (0, cursor - lines[0].start)
}

/// The cursor at a column of a line.
pub fn composer_cursor_at(text: &str, width: usize, line: usize, column: usize) -> (r: usize)
    requires
        line < line_ranges(text@, width as nat, 0).len(),
    ensures
        r == cursor_at(text@, width as nat, line as int, column as int),
        r <= text@.len(),
{
    let lines = composer_lines(text, width);
    let ghost all = range_models(lines@);
    proof {
        lemma_lines_in_text(text@, width as nat, 0);
        assert(all[line as int].0 <= all[line as int].1 <= text@.len());
    }
    let start: usize = lines[line].start;
    let end: usize = lines[line].end;
    let length: usize = end - start;
    let count: usize = lines.len();
    let wraps = line < count - 1 && lines[line + 1].start == end;
    let last: usize = if wraps && length > 0 {
        length - 1
    } else {
        length
    };
    start + (if column < last {
        column
    } else {
        last
    })
}

// ---------------------------------------------------------------------------
// Laws
// ---------------------------------------------------------------------------

/// Every line lies inside the text, and the lines begin at its start.
pub proof fn law_lines_lie_in_the_text(s: Seq<char>, width: nat, i: int)
    requires
        0 <= i < line_ranges(s, width, 0).len(),
    ensures
        0 <= line_ranges(s, width, 0)[i].0 <= line_ranges(s, width, 0)[i].1 <= s.len(),
        line_ranges(s, width, 0)[0].0 == 0,
{
    lemma_lines_in_text(s, width, 0);
}

/// A cursor stands on one of the lines, not before its first character.
pub proof fn law_the_cursor_stands_on_a_line(s: Seq<char>, width: nat, cursor: int)
    requires
        0 <= cursor,
    ensures
        0 <= cursor_position(s, width, cursor).0 < line_ranges(s, width, 0).len(),
        cursor_position(s, width, cursor).1 >= 0,
{
    lemma_lines_in_text(s, width, 0);
    lemma_cursor_line(line_ranges(s, width, 0), cursor);
}

/// The end of the text stands on its last line.
pub proof fn law_the_end_stands_on_the_last_line(s: Seq<char>, width: nat)
    ensures
        cursor_position(s, width, s.len() as int).0 == line_ranges(s, width, 0).len() - 1,
{
    lemma_lines_in_text(s, width, 0);
    let lines = line_ranges(s, width, 0);
    assert(lines[lines.len() - 1].0 <= s.len());
}

/// A text without line feeds that fits is one line.
pub proof fn law_a_text_that_fits_is_one_line(s: Seq<char>, width: nat)
    requires
        forall|i: int| 0 <= i < s.len() ==> #[trigger] s[i] != '\n',
        ansi::columns(s) <= width,
    ensures
        line_ranges(s, width, 0) == seq![(0int, s.len() as int)],
{
    lemma_no_line_feed(s, 0);
    assert(s.skip(0) =~= s);
    lemma_all_fits(s, 0, width);
}

proof fn lemma_no_line_feed(s: Seq<char>, from: int)
    requires
        0 <= from <= s.len(),
        forall|i: int| from <= i < s.len() ==> #[trigger] s[i] != '\n',
    ensures
        line_end(s, from) == s.len(),
    decreases s.len() - from,
{
    if from < s.len() {
        assert(s[from] != '\n');
        lemma_no_line_feed(s, from + 1);
    }
}

proof fn lemma_all_fits(s: Seq<char>, i: int, room: nat)
    requires
        0 <= i <= s.len(),
        ansi::columns(s.skip(i)) <= room,
    ensures
        room_end(s, i, s.len() as int, room) == s.len(),
    decreases s.len() - i,
{
    if i < s.len() {
        assert(s.skip(i) =~= seq![s[i]] + s.skip(i + 1));
        ansi::lemma_columns_add(seq![s[i]], s.skip(i + 1));
        assert(seq![s[i]].drop_last() =~= Seq::empty());
        assert(ansi::columns(Seq::empty()) == 0);
        assert(ansi::columns(seq![s[i]]) == ansi::char_columns(s[i]));
        lemma_all_fits(s, i + 1, (room - ansi::char_columns(s[i])) as nat);
    }
}

/// The lines leave out no character but line feeds: each begins where the one
/// before it ended, or behind the line feed there, and the last ends with the
/// text.
pub proof fn law_the_lines_leave_nothing_out(s: Seq<char>, width: nat, from: int)
    requires
        0 <= from <= s.len(),
    ensures
        ({
            let lines = line_ranges(s, width, from);
            &&& lines.len() > 0
            &&& lines[0].0 == from
            &&& lines.last().1 == s.len()
            &&& forall|i: int|
                0 < i < lines.len() ==> ((#[trigger] lines[i]).0 == lines[i - 1].1 || lines[i].0
                    == lines[i - 1].1 + 1 && 0 <= lines[i - 1].1 < s.len() && s[lines[i - 1].1]
                    == '\n')
        }),
    decreases s.len() + 1 - from,
{
    let to = line_end(s, from);
    lemma_line_end_is_a_line_feed(s, from);
    let b = break_at(s, from, to, width);
    let lines = line_ranges(s, width, from);
    if from < b < to <= s.len() {
        law_the_lines_leave_nothing_out(s, width, b);
        let rest = line_ranges(s, width, b);
        assert(lines == seq![(from, b)] + rest);
        assert forall|i: int| 0 < i < lines.len() implies ((#[trigger] lines[i]).0 == lines[i - 1].1
            || lines[i].0 == lines[i - 1].1 + 1 && 0 <= lines[i - 1].1 < s.len()
            && s[lines[i - 1].1] == '\n') by {
            assert(lines[i] == rest[i - 1]);
            if i > 1 {
                assert(lines[i - 1] == rest[i - 2]);
            }
        }
        assert(lines.last() == rest.last());
    } else if from <= to < s.len() {
        law_the_lines_leave_nothing_out(s, width, to + 1);
        let rest = line_ranges(s, width, to + 1);
        assert(lines == seq![(from, to)] + rest);
        assert forall|i: int| 0 < i < lines.len() implies ((#[trigger] lines[i]).0 == lines[i - 1].1
            || lines[i].0 == lines[i - 1].1 + 1 && 0 <= lines[i - 1].1 < s.len()
            && s[lines[i - 1].1] == '\n') by {
            assert(lines[i] == rest[i - 1]);
            if i > 1 {
                assert(lines[i - 1] == rest[i - 2]);
            }
        }
        assert(lines.last() == rest.last());
    }
}

proof fn lemma_line_end_is_a_line_feed(s: Seq<char>, from: int)
    requires
        0 <= from <= s.len(),
    ensures
        from <= line_end(s, from) <= s.len(),
        line_end(s, from) < s.len() ==> s[line_end(s, from)] == '\n',
    decreases s.len() - from,
{
    if from < s.len() && s[from] != '\n' {
        lemma_line_end_is_a_line_feed(s, from + 1);
    }
}

/// The composer's text has three columns less than the terminal, one at least.
pub proof fn law_the_text_has_three_columns_less(cols: nat)
    ensures
        cols > 3 ==> body_columns(cols) == cols - 3,
        cols <= 3 ==> body_columns(cols) == 1,
{
}

/// A line that does not fit is broken behind its last space that fits; without
/// one, behind the last character that fits, and never before the first.
pub proof fn law_a_long_line_breaks_at_a_space(
    s: Seq<char>,
    from: int,
    to: int,
    width: nat,
    fit: int,
    at: int,
)
    requires
        0 <= from < fit < to <= s.len(),
        room_end(s, from, to, width) == fit,
        from <= at < fit,
        s[at] == ' ',
        forall|j: int| at < j < fit ==> #[trigger] s[j] != ' ',
    ensures
        break_at(s, from, to, width) == at + 1,
{
    lemma_last_space_is_found(s, from, fit, at);
}

proof fn lemma_last_space_is_found(s: Seq<char>, from: int, end: int, at: int)
    requires
        0 <= from <= at < end <= s.len(),
        s[at] == ' ',
        forall|j: int| at < j < end ==> #[trigger] s[j] != ' ',
    ensures
        last_space(s, from, end) == Some(at),
    decreases end - at,
{
    if at < end - 1 {
        assert(s[end - 1] != ' ');
        lemma_last_space_is_found(s, from, end - 1, at);
    }
}

/// What fits in a line are its first characters, as many as their columns
/// allow: those before the end fit, and the one at the end does not.
pub proof fn law_a_line_holds_what_fits(s: Seq<char>, i: int, to: int, room: nat)
    requires
        0 <= i <= to <= s.len(),
    ensures
        ({
            let end = room_end(s, i, to, room);
            &&& i <= end <= to
            &&& ansi::columns(s.subrange(i, end)) <= room
            &&& end < to ==> ansi::columns(s.subrange(i, end + 1)) > room
        }),
    decreases to - i,
{
    let end = room_end(s, i, to, room);
    if i < to {
        assert(seq![s[i]].drop_last() =~= Seq::empty());
        assert(ansi::columns(Seq::empty()) == 0);
        assert(ansi::columns(seq![s[i]]) == ansi::char_columns(s[i]));
        if ansi::char_columns(s[i]) > room {
            assert(s.subrange(i, i) =~= Seq::empty());
            assert(s.subrange(i, i + 1) =~= seq![s[i]]);
        } else {
            let left = (room - ansi::char_columns(s[i])) as nat;
            law_a_line_holds_what_fits(s, i + 1, to, left);
            assert(s.subrange(i, end) =~= seq![s[i]] + s.subrange(i + 1, end));
            ansi::lemma_columns_add(seq![s[i]], s.subrange(i + 1, end));
            if end < to {
                assert(s.subrange(i, end + 1) =~= seq![s[i]] + s.subrange(i + 1, end + 1));
                ansi::lemma_columns_add(seq![s[i]], s.subrange(i + 1, end + 1));
            }
        }
    } else {
        assert(s.subrange(i, end) =~= Seq::empty());
        assert(ansi::columns(Seq::empty()) == 0);
    }
}

} // verus!
