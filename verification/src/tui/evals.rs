//! The eval-case browser.
//!
//! `EvalBrowser` keeps the list cursor, the live search filter, the detail
//! frame and the operator's judgment; every screen is a function of that state
//! and the row it shows. The judgment says which candidates were applicable
//! for a case's scenario.

use vstd::prelude::*;
use crate::text;
use crate::text::{
    concat2, contains, format_decimal, join_texts, repeat_char, same, take_chars, to_lowercase,
    trim,
};
use crate::transcript::clone_texts;
use crate::tui::compact::lists;

verus! {

/// One case as the browser lists it.
#[derive(Debug, PartialEq)]
pub struct EvalRow {
    /// The case's name.
    pub name: String,
    /// `prompt`, `task` or `plan`.
    pub kind: String,
    /// `project` or `user`: the scope the verdict is written at.
    pub scope: String,
    /// The case directory.
    pub dir: String,
    pub description: String,
    /// The scenario's goal text, the classifier's input.
    pub goal: String,
    /// What should be composed.
    pub expected: Vec<String>,
    /// The candidates the case fixes, when it fixes them.
    pub candidates: Vec<String>,
}

impl Clone for EvalRow {
    fn clone(&self) -> (r: Self)
        ensures
            r.name == self.name,
            r.kind == self.kind,
            r.scope == self.scope,
            r.dir == self.dir,
            r.description == self.description,
            r.goal == self.goal,
            r.expected@ == self.expected@,
            r.candidates@ == self.candidates@,
    {
        EvalRow {
            name: self.name.clone(),
            kind: self.kind.clone(),
            scope: self.scope.clone(),
            dir: self.dir.clone(),
            description: self.description.clone(),
            goal: self.goal.clone(),
            expected: clone_texts(&self.expected),
            candidates: clone_texts(&self.candidates),
        }
    }
}

/// What the last run of a case matched.
#[derive(Debug, PartialEq)]
pub struct EvalRunSummary {
    pub matched: Vec<String>,
    pub missed: Vec<String>,
    pub spurious: Vec<String>,
    pub warnings: Vec<String>,
}

impl Default for EvalRunSummary {
    fn default() -> (r: Self)
        ensures
            r.matched@.len() == 0,
            r.missed@.len() == 0,
            r.spurious@.len() == 0,
            r.warnings@.len() == 0,
    {
        EvalRunSummary {
            matched: Vec::new(),
            missed: Vec::new(),
            spurious: Vec::new(),
            warnings: Vec::new(),
        }
    }
}

/// The overlay's whole state.
#[derive(Debug)]
pub struct EvalBrowser {
    pub rows: Vec<EvalRow>,
    pub selected: usize,
    /// Live search text, matched against each row's name and description.
    pub filter: String,
    /// The row whose detail frame is open.
    pub detail: Option<usize>,
    /// True while a classifier run for `detail` is in flight.
    pub running: bool,
    /// Names judged applicable for the open case.
    pub applicable: Vec<String>,
    /// Names judged not applicable.
    pub not_applicable: Vec<String>,
    /// The last run's matches for the open case.
    pub summary: Option<EvalRunSummary>,
    /// The candidate cursor inside the detail frame.
    pub candidate_index: usize,
}

/// Whether a row survives the filter text `needle` (trimmed, lower case).
pub open spec fn row_matches(row: EvalRow, needle: Seq<char>) -> bool {
    ||| needle.len() == 0
    ||| text::has_text(text::lowercase(row.name@), needle)
    ||| text::has_text(text::lowercase(row.description@), needle)
}

/// The positions of the rows that survive, in list order.
pub open spec fn surviving(rows: Seq<EvalRow>, needle: Seq<char>) -> Seq<usize>
    decreases rows.len(),
{
    if rows.len() == 0 {
        Seq::empty()
    } else if row_matches(rows.last(), needle) {
        surviving(rows.drop_last(), needle).push((rows.len() - 1) as usize)
    } else {
        surviving(rows.drop_last(), needle)
    }
}

/// The search text that a filter stands for.
pub open spec fn needle_of(filter: Seq<char>) -> Seq<char> {
    text::lowercase(text::trimmed(filter))
}

/// `n` moved by `delta` and held within `0..count`.
pub open spec fn clamped(n: int, delta: int, count: int) -> int {
    if n + delta < 0 {
        0
    } else if n + delta >= count {
        count - 1
    } else {
        n + delta
    }
}

fn clamp_move(n: usize, delta: isize, count: usize) -> (r: usize)
    requires
        count > 0,
    ensures
        r == clamped(n as int, delta as int, count as int),
{
    let moved: i128 = n as i128 + delta as i128;
    if moved < 0 {
        0
    } else if moved >= count as i128 {
        count - 1
    } else {
        moved as usize
    }
}

/// The position of `x` in `s`, or 0.
pub open spec fn position_or_first(s: Seq<usize>, x: usize) -> int {
    match s.index_of_first(x) {
        Some(i) => i,
        None => 0,
    }
}

/// `names` without `name`.
pub open spec fn without(names: Seq<Seq<char>>, name: Seq<char>) -> Seq<Seq<char>>
    decreases names.len(),
{
    if names.len() == 0 {
        Seq::empty()
    } else if names.last() == name {
        without(names.drop_last(), name)
    } else {
        without(names.drop_last(), name).push(names.last())
    }
}

fn drop_name(names: &Vec<String>, name: &str) -> (r: Vec<String>)
    ensures
        text::texts(r@) == without(text::texts(names@), name@),
{
    let ghost all = text::texts(names@);
    let mut kept: Vec<String> = Vec::new();
    let mut i: usize = 0;
    assert(all.take(0) =~= Seq::empty());
    assert(text::texts(kept@) =~= Seq::empty());
    while i < names.len()
        invariant
            i <= names.len(),
            all == text::texts(names@),
            text::texts(kept@) == without(all.take(i as int), name@),
        decreases names.len() - i,
    {
        broadcast use text::lemma_texts_push;

        assert(all.take(i + 1).drop_last() =~= all.take(i as int));
        if !same(names[i].as_str(), name) {
            kept.push(names[i].clone());
        }
        i = i + 1;
    }
    assert(all.take(i as int) =~= all);
    kept
}

/// `names` followed by those of `more` that are not among them, each once.
pub open spec fn merged(names: Seq<Seq<char>>, more: Seq<Seq<char>>) -> Seq<Seq<char>>
    decreases more.len(),
{
    if more.len() == 0 {
        names
    } else {
        let m = merged(names, more.drop_last());
        if m.contains(more.last()) {
            m
        } else {
            m.push(more.last())
        }
    }
}

/// Adds to `names` those of `more` that are not among them.
pub fn merge_names(names: &mut Vec<String>, more: &Vec<String>)
    ensures
        text::texts(final(names)@) == merged(text::texts(old(names)@), text::texts(more@)),
{
    let ghost base = text::texts(names@);
    let ghost all = text::texts(more@);
    let mut i: usize = 0;
    assert(all.take(0) =~= Seq::empty());
    while i < more.len()
        invariant
            i <= more.len(),
            all == text::texts(more@),
            text::texts(names@) == merged(base, all.take(i as int)),
        decreases more.len() - i,
    {
        broadcast use text::lemma_texts_push;

        assert(all.take(i + 1).drop_last() =~= all.take(i as int));
        if !lists(names, more[i].as_str()) {
            names.push(more[i].clone());
        }
        i = i + 1;
    }
    assert(all.take(i as int) =~= all);
}

/// The names of a verdict once `name` was judged: it stands last where the
/// judgment is that verdict, and not there at all where it is the other.
pub open spec fn judged(names: Seq<Seq<char>>, name: Seq<char>, so: bool) -> Seq<Seq<char>> {
    if so {
        without(names, name).push(name)
    } else {
        without(names, name)
    }
}

/// The candidates that a case judges over: its pool where it fixes one, else
/// its expected names followed by what a run matched.
pub open spec fn pool(row: EvalRow, summary: Option<EvalRunSummary>) -> Seq<Seq<char>> {
    if row.candidates@.len() > 0 {
        text::texts(row.candidates@)
    } else {
        match summary {
            Some(s) => merged(text::texts(row.expected@), text::texts(s.matched@)),
            None => text::texts(row.expected@),
        }
    }
}

impl EvalBrowser {
    /// The rows that survive the filter.
    pub open spec fn shown(self) -> Seq<usize> {
        surviving(self.rows@, needle_of(self.filter@))
    }

    /// The row that is highlighted once the highlight moved by `delta`.
    pub open spec fn row_moved_to(self, delta: int) -> usize {
        if self.shown().len() == 0 {
            0
        } else {
            self.shown()[clamped(
                position_or_first(self.shown(), self.selected),
                delta,
                self.shown().len() as int,
            )]
        }
    }

    /// The open case.
    pub open spec fn open_row(self) -> Option<EvalRow> {
        match self.detail {
            Some(i) => if i < self.rows@.len() {
                Some(self.rows@[i as int])
            } else {
                None
            },
            None => None,
        }
    }

    /// The candidate under the cursor.
    pub open spec fn candidate(self) -> Option<Seq<char>> {
        match self.open_row() {
            Some(row) => {
                let p = pool(row, self.summary);
                if self.candidate_index < p.len() {
                    Some(p[self.candidate_index as int])
                } else {
                    None
                }
            },
            None => None,
        }
    }

    /// Whether two states differ in the judgment at most.
    pub open spec fn same_but_judgment(self, other: EvalBrowser) -> bool {
        &&& self.rows == other.rows
        &&& self.selected == other.selected
        &&& self.filter == other.filter
        &&& self.detail == other.detail
        &&& self.running == other.running
        &&& self.summary == other.summary
        &&& self.candidate_index == other.candidate_index
    }

    pub fn new(rows: Vec<EvalRow>) -> (r: Self)
        ensures
            r.rows == rows,
            r.selected == 0,
            r.filter@.len() == 0,
            r.detail is None,
            !r.running,
            r.applicable@.len() == 0,
            r.not_applicable@.len() == 0,
            r.summary is None,
            r.candidate_index == 0,
    {
        EvalBrowser {
            rows,
            selected: 0,
            filter: String::new(),
            detail: None,
            running: false,
            applicable: Vec::new(),
            not_applicable: Vec::new(),
            summary: None,
            candidate_index: 0,
        }
    }

    /// The rows surviving the filter, in list order. An empty filter keeps
    /// everything; matching ignores case, over the name and the description.
    pub fn visible(&self) -> (r: Vec<usize>)
        ensures
            r@ == self.shown(),
            forall|i: int| 0 <= i < r@.len() ==> #[trigger] r@[i] < self.rows@.len(),
    {
        let trimmed = trim(self.filter.as_str());
        let needle = to_lowercase(trimmed.as_str());
        let any = needle.as_str().unicode_len() == 0;
        let mut found: Vec<usize> = Vec::new();
        let mut i: usize = 0;
        assert(self.rows@.take(0) =~= Seq::empty());
        while i < self.rows.len()
            invariant
                i <= self.rows.len(),
                needle@ == needle_of(self.filter@),
                any == (needle@.len() == 0),
                found@ == surviving(self.rows@.take(i as int), needle@),
                forall|k: int| 0 <= k < found@.len() ==> #[trigger] found@[k] < i,
            decreases self.rows.len() - i,
        {
            assert(self.rows@.take(i + 1).drop_last() =~= self.rows@.take(i as int));
            let name = to_lowercase(self.rows[i].name.as_str());
            let description = to_lowercase(self.rows[i].description.as_str());
            if any || contains(name.as_str(), needle.as_str()) || contains(
                description.as_str(),
                needle.as_str(),
            ) {
                found.push(i);
            }
            i = i + 1;
        }
        assert(self.rows@.take(i as int) =~= self.rows@);
        found
    }

    /// Moves the highlight by `delta` within the filtered list, clamping at
    /// both ends.
    pub fn move_selection(&mut self, delta: isize)
        ensures
            final(self).rows == old(self).rows,
            final(self).filter == old(self).filter,
            final(self).detail == old(self).detail,
            final(self).running == old(self).running,
            final(self).applicable == old(self).applicable,
            final(self).not_applicable == old(self).not_applicable,
            final(self).summary == old(self).summary,
            final(self).candidate_index == old(self).candidate_index,
            final(self).selected == (if old(self).shown().len() == 0 {
                0
            } else {
                old(self).shown()[clamped(
                    position_or_first(old(self).shown(), old(self).selected),
                    delta as int,
                    old(self).shown().len() as int,
                )]
            }),
            final(self).selected == old(self).row_moved_to(delta as int),
    {
        let visible = self.visible();
        if visible.len() == 0 {
            self.selected = 0;
            return;
        }
        let mut p: usize = 0;
        while p < visible.len() && visible[p] != self.selected
            invariant
                p <= visible.len(),
                *self == *old(self),
                forall|j: int| 0 <= j < p ==> visible@[j] != self.selected,
            decreases visible.len() - p,
        {
            p = p + 1;
        }
        proof {
            visible@.index_of_first_ensures(self.selected);
            if p < visible@.len() {
                assert(visible@.contains(self.selected));
                let f = visible@.index_of_first(self.selected)->0;
                assert(f == p) by {
                    if f < p {
                        assert(visible@[f] != self.selected);
                    }
                    if p < f {
                        assert(visible@[p as int] == self.selected);
                    }
                }
            } else {
                assert(!visible@.contains(self.selected));
            }
        }
        let position: usize = if p < visible.len() {
            p
        } else {
            0
        };
        let next: usize = clamp_move(position, delta, visible.len());
        self.selected = visible[next];
    }

    /// Opens the detail frame of the highlighted case, clearing the judgment
    /// of the case that was open before it.
    pub fn open_detail(&mut self)
        ensures
            final(self).rows == old(self).rows,
            final(self).selected == old(self).selected,
            final(self).filter == old(self).filter,
            old(self).selected >= old(self).rows@.len() ==> *final(self) == *old(self),
            old(self).selected < old(self).rows@.len() ==> {
                &&& final(self).detail == Some(old(self).selected)
                &&& !final(self).running
                &&& final(self).summary is None
                &&& final(self).applicable@.len() == 0
                &&& final(self).not_applicable@.len() == 0
                &&& final(self).candidate_index == 0
            },
    {
        if self.selected >= self.rows.len() {
            return;
        }
        self.detail = Some(self.selected);
        self.running = false;
        self.summary = None;
        self.applicable.clear();
        self.not_applicable.clear();
        self.candidate_index = 0;
    }

    /// Closes the detail frame, stepping back to the list.
    pub fn close_detail(&mut self)
        ensures
            final(self).rows == old(self).rows,
            final(self).selected == old(self).selected,
            final(self).filter == old(self).filter,
            final(self).detail is None,
            !final(self).running,
            final(self).applicable == old(self).applicable,
            final(self).not_applicable == old(self).not_applicable,
            final(self).summary == old(self).summary,
            final(self).candidate_index == 0,
    {
        self.detail = None;
        self.running = false;
        self.candidate_index = 0;
    }

    /// The case the detail frame shows, when one is open.
    pub fn detail_row(&self) -> (r: Option<&EvalRow>)
        ensures
            match r {
                Some(row) => self.open_row() == Some(*row),
                None => self.open_row() is None,
            },
    {
        match self.detail {
            Some(i) => if i < self.rows.len() {
                Some(&self.rows[i])
            } else {
                None
            },
            None => None,
        }
    }

    /// Records one candidate as applicable (or not), keeping the two lists
    /// exclusive.
    pub fn judge(&mut self, name: &str, applicable: bool)
        ensures
            final(self).same_but_judgment(*old(self)),
            text::texts(final(self).applicable@) == (if applicable {
                without(text::texts(old(self).applicable@), name@).push(name@)
            } else {
                without(text::texts(old(self).applicable@), name@)
            }),
            text::texts(final(self).not_applicable@) == (if applicable {
                without(text::texts(old(self).not_applicable@), name@)
            } else {
                without(text::texts(old(self).not_applicable@), name@).push(name@)
            }),
            text::texts(final(self).applicable@) == judged(
                text::texts(old(self).applicable@),
                name@,
                applicable,
            ),
            text::texts(final(self).not_applicable@) == judged(
                text::texts(old(self).not_applicable@),
                name@,
                !applicable,
            ),
    {
        broadcast use text::lemma_texts_push;

        self.applicable = drop_name(&self.applicable, name);
        self.not_applicable = drop_name(&self.not_applicable, name);
        if applicable {
            self.applicable.push(name.to_string());
        } else {
            self.not_applicable.push(name.to_string());
        }
    }

    /// True when the open case carries a judgment to persist.
    pub fn has_judgment(&self) -> (r: bool)
        ensures
            r == (self.applicable@.len() > 0 || self.not_applicable@.len() > 0),
    {
        self.applicable.len() > 0 || self.not_applicable.len() > 0
    }

    /// The candidates this case judges over.
    pub fn candidates(&self, row: &EvalRow) -> (r: Vec<String>)
        ensures
            text::texts(r@) == pool(*row, self.summary),
    {
        if row.candidates.len() > 0 {
            return clone_texts(&row.candidates);
        }
        let mut names = clone_texts(&row.expected);
        if let Some(summary) = &self.summary {
            merge_names(&mut names, &summary.matched);
        }
        names
    }

    /// The candidate under the detail frame's cursor, if there is one.
    pub fn selected_candidate(&self) -> (r: Option<String>)
        ensures
            text::opt_text(r) == self.candidate(),
    {
        match self.detail_row() {
            Some(row) => {
                let names = self.candidates(row);
                assert(text::texts(names@).len() == names@.len());
                if self.candidate_index < names.len() {
                    assert(text::texts(names@)[self.candidate_index as int]
                        == names@[self.candidate_index as int]@);
                    Some(names[self.candidate_index].clone())
                } else {
                    None
                }
            },
            None => None,
        }
    }

    /// Moves the candidate cursor, clamping at both ends.
    pub fn move_candidate(&mut self, delta: isize)
        ensures
            final(self).same_but_judgment(
                (EvalBrowser { candidate_index: final(self).candidate_index, ..*old(self) }),
            ),
            final(self).applicable == old(self).applicable,
            final(self).not_applicable == old(self).not_applicable,
            final(self).candidate_index == (match old(self).open_row() {
                None => old(self).candidate_index as int,
                Some(row) => {
                    let count = pool(row, old(self).summary).len();
                    if count == 0 {
                        0
                    } else {
                        clamped(old(self).candidate_index as int, delta as int, count as int)
                    }
                },
            }),
    {
        let count: usize = match self.detail_row() {
            Some(row) => {
                let names = self.candidates(row);
                assert(text::texts(names@).len() == names@.len());
                names.len()
            },
            None => {
                return;
            },
        };
        if count == 0 {
            self.candidate_index = 0;
            return;
        }
        self.candidate_index = clamp_move(self.candidate_index, delta, count);
    }

    /// Judges the candidate under the cursor; returns its name when there was
    /// one.
    pub fn judge_selected(&mut self, applicable: bool) -> (r: Option<String>)
        ensures
            text::opt_text(r) == old(self).candidate(),
            r is None ==> *final(self) == *old(self),
            r matches Some(name) ==> {
                &&& final(self).same_but_judgment(*old(self))
                &&& text::texts(final(self).applicable@) == (if applicable {
                    without(text::texts(old(self).applicable@), name@).push(name@)
                } else {
                    without(text::texts(old(self).applicable@), name@)
                })
                &&& text::texts(final(self).not_applicable@) == (if applicable {
                    without(text::texts(old(self).not_applicable@), name@)
                } else {
                    without(text::texts(old(self).not_applicable@), name@).push(name@)
                })
            },
    {
        match self.selected_candidate() {
            Some(name) => {
                self.judge(name.as_str(), applicable);
                Some(name)
            },
            None => None,
        }
    }
}

impl Default for EvalBrowser {
    fn default() -> (r: Self)
        ensures
            r.rows@.len() == 0,
            r.selected == 0,
            r.filter@.len() == 0,
            r.detail is None,
            !r.running,
            r.applicable@.len() == 0,
            r.not_applicable@.len() == 0,
            r.summary is None,
            r.candidate_index == 0,
    {
        EvalBrowser::new(Vec::new())
    }
}

// ---------------------------------------------------------------------------
// Frames
// ---------------------------------------------------------------------------

/// The first `width` characters of a row.
pub open spec fn clipped(s: Seq<char>, width: nat) -> Seq<char> {
    text::first_chars(s, width as int)
}

/// Clips one rendered row to `width` characters.
pub fn clip(text: &str, width: usize) -> (r: String)
    ensures
        r@ == clipped(text@, width as nat),
        r@.len() <= width,
{
    take_chars(text, width)
}

/// `s` with spaces after it up to `n` characters.
pub open spec fn padded_right(s: Seq<char>, n: nat) -> Seq<char> {
    if s.len() < n {
        s + text::repeated(' ', (n - s.len()) as nat)
    } else {
        s
    }
}

pub fn pad_right(s: &str, n: usize) -> (r: String)
    ensures
        r@ == padded_right(s@, n as nat),
{
    let len: usize = s.unicode_len();
    if len < n {
        let pad = repeat_char(' ', n - len);
        concat2(s, pad.as_str())
    } else {
        s.to_string()
    }
}

/// Adds one row.
pub fn push_row(rows: &mut Vec<String>, row: String)
    ensures
        text::texts(final(rows)@) == text::texts(old(rows)@).push(row@),
{
    broadcast use text::lemma_texts_push;

    rows.push(row);
}

/// The line of a case in the list: cursor, name, kind and scope.
pub open spec fn list_line(row: EvalRow, marked: bool) -> Seq<char> {
    (if marked {
        "▸ "@
    } else {
        "  "@
    }) + padded_right(row.name@, 24) + " "@ + padded_right(row.kind@, 6) + " "@ + row.scope@
}

/// The rows of the listed cases.
pub open spec fn list_rows(
    rows: Seq<EvalRow>,
    shown: Seq<usize>,
    selected: usize,
    width: nat,
) -> Seq<Seq<char>>
    decreases shown.len(),
{
    if shown.len() == 0 {
        Seq::empty()
    } else {
        let before = list_rows(rows, shown.drop_last(), selected, width);
        let row = rows[shown.last() as int];
        let lined = before.push(clipped(list_line(row, shown.last() == selected), width));
        if row.description@.len() > 0 {
            lined.push(clipped("    "@ + row.description@, width))
        } else {
            lined
        }
    }
}

/// The list frame.
pub open spec fn list_frame(browser: EvalBrowser, width: nat) -> Seq<Seq<char>> {
    let shown = browser.shown();
    let header = seq![
        clipped(
            "eval cases ("@ + text::decimal(shown.len()) + "/"@ + text::decimal(browser.rows@.len())
                + ")"@,
            width,
        ),
    ];
    let top = if shown.len() == 0 {
        header.push(clipped("  no case matches the filter"@, width))
    } else {
        header
    };
    (top + list_rows(browser.rows@, shown, browser.selected, width)).push(Seq::empty()).push(
        clipped("enter open a case · type to filter · esc close"@, width),
    )
}

/// The list frame: a header with the filtered count and one row per visible
/// case, its description under it. Every row is clipped to `width`, so that
/// nothing can wrap the frame.
pub fn render_evals_list(browser: &EvalBrowser, width: usize) -> (r: Vec<String>)
    ensures
        text::texts(r@) == list_frame(*browser, width as nat),
{
    let visible = browser.visible();
    let shown_count = format_decimal(visible.len() as u64);
    let all_count = format_decimal(browser.rows.len() as u64);
    let mut header = "eval cases (".to_string();
    header.append(shown_count.as_str());
    header.append("/");
    header.append(all_count.as_str());
    header.append(")");
    let mut rows: Vec<String> = Vec::new();
    rows.push(clip(header.as_str(), width));
    assert(text::texts(rows@) =~= seq![clipped(header@, width as nat)]);
    if visible.len() == 0 {
        push_row(&mut rows, clip("  no case matches the filter", width));
    }
    let ghost top = text::texts(rows@);
    let ghost w = width as nat;
    let mut i: usize = 0;
    assert(visible@.take(0) =~= Seq::empty());
    assert(text::texts(rows@) =~= top + list_rows(
        browser.rows@,
        visible@.take(0),
        browser.selected,
        w,
    ));
    while i < visible.len()
        invariant
            i <= visible.len(),
            w == width,
            forall|k: int| 0 <= k < visible@.len() ==> #[trigger] visible@[k] < browser.rows@.len(),
            text::texts(rows@) == top + list_rows(
                browser.rows@,
                visible@.take(i as int),
                browser.selected,
                w,
            ),
        decreases visible.len() - i,
    {
        let ghost before = list_rows(
            browser.rows@,
            visible@.take(i as int),
            browser.selected,
            w,
        );
        assert(visible@.take(i + 1).drop_last() =~= visible@.take(i as int));
        let index: usize = visible[i];
        let row = &browser.rows[index];
        let name = pad_right(row.name.as_str(), 24);
        let kind = pad_right(row.kind.as_str(), 6);
        let mut line = (if index == browser.selected {
            "▸ "
        } else {
            "  "
        }).to_string();
        line.append(name.as_str());
        line.append(" ");
        line.append(kind.as_str());
        line.append(" ");
        line.append(row.scope.as_str());
        push_row(&mut rows, clip(line.as_str(), width));
        assert((top + before).push(clipped(line@, w)) =~= top + before.push(clipped(line@, w)));
        if row.description.as_str().unicode_len() > 0 {
            let description = concat2("    ", row.description.as_str());
            push_row(&mut rows, clip(description.as_str(), width));
            assert(text::texts(rows@) =~= top + before.push(clipped(line@, w)).push(
                clipped(description@, w),
            ));
        }
        i = i + 1;
    }
    assert(visible@.take(i as int) =~= visible@);
    push_row(&mut rows, String::new());
    push_row(&mut rows, clip("enter open a case · type to filter · esc close", width));
    rows
}

/// The names separated by commas, or `none` where there are none.
pub open spec fn names_or(names: Seq<Seq<char>>, none: Seq<char>) -> Seq<char> {
    if names.len() == 0 {
        none
    } else {
        text::joined(names, ", "@)
    }
}

fn names_text(names: &[String], none: &str) -> (r: String)
    ensures
        r@ == names_or(text::texts(names@), none@),
{
    assert(text::texts(names@).len() == names@.len());
    if names.len() == 0 {
        none.to_string()
    } else {
        join_texts(names, ", ")
    }
}

/// `rows` followed by one clipped warning row each.
pub open spec fn with_warnings(
    rows: Seq<Seq<char>>,
    warnings: Seq<Seq<char>>,
    width: nat,
) -> Seq<Seq<char>>
    decreases warnings.len(),
{
    if warnings.len() == 0 {
        rows
    } else {
        with_warnings(rows, warnings.drop_last(), width).push(
            clipped("warning: "@ + warnings.last(), width),
        )
    }
}

/// The scenario part of the detail frame.
pub open spec fn detail_head(row: EvalRow, width: nat) -> Seq<Seq<char>> {
    let top = seq![
        row.name@ + " · "@ + row.kind@ + " · "@ + row.scope@,
        clipped("dir: "@ + row.dir@, width),
    ];
    let described = if row.description@.len() > 0 {
        top.push(clipped(row.description@, width))
    } else {
        top
    };
    if row.goal@.len() > 0 {
        described.push(Seq::empty()).push("scenario goal"@).push(clipped("  "@ + row.goal@, width))
    } else {
        described
    }
}

/// The row that says what the last run matched.
pub open spec fn matched_row(summary: Option<&EvalRunSummary>, running: bool) -> Seq<char> {
    match summary {
        Some(s) => "matched: "@ + names_or(text::texts(s.matched@), "(nothing matched)"@),
        None => if running {
            "matched: running…"@
        } else {
            "matched: (not run yet)"@
        },
    }
}

/// `rows` followed by what a run missed, matched beyond the expected and
/// warned of.
pub open spec fn with_disagreements(
    rows: Seq<Seq<char>>,
    summary: Option<&EvalRunSummary>,
    width: nat,
) -> Seq<Seq<char>> {
    match summary {
        Some(s) => {
            let missed = if s.missed@.len() > 0 {
                rows.push(
                    clipped("missed: "@ + text::joined(text::texts(s.missed@), ", "@), width),
                )
            } else {
                rows
            };
            let spurious = if s.spurious@.len() > 0 {
                missed.push(
                    clipped("spurious: "@ + text::joined(text::texts(s.spurious@), ", "@), width),
                )
            } else {
                missed
            };
            with_warnings(spurious, text::texts(s.warnings@), width)
        },
        None => rows,
    }
}

/// The detail frame.
pub open spec fn detail_frame(
    row: EvalRow,
    summary: Option<&EvalRunSummary>,
    applicable: Seq<Seq<char>>,
    not_applicable: Seq<Seq<char>>,
    running: bool,
    width: nat,
) -> Seq<Seq<char>> {
    let expected = detail_head(row, width).push(Seq::empty()).push(
        "expected: "@ + names_or(text::texts(row.expected@), "(none declared)"@),
    );
    let ran = with_disagreements(expected.push(matched_row(summary, running)), summary, width);
    ran.push(Seq::empty()).push(
        "judgment — applicable: "@ + names_or(applicable, "(none)"@) + " · not applicable: "@
            + names_or(not_applicable, "(none)"@),
    ).push(Seq::empty()).push(
        if running {
            "running the classifier…"@
        } else {
            clipped(
                "enter run through the classifier · a/n judge the expected names · esc back"@,
                width,
            )
        },
    )
}

fn push_warnings(rows: &mut Vec<String>, warnings: &Vec<String>, width: usize)
    ensures
        text::texts(final(rows)@) == with_warnings(
            text::texts(old(rows)@),
            text::texts(warnings@),
            width as nat,
        ),
{
    let ghost base = text::texts(rows@);
    let ghost all = text::texts(warnings@);
    let mut i: usize = 0;
    assert(all.take(0) =~= Seq::empty());
    while i < warnings.len()
        invariant
            i <= warnings.len(),
            all == text::texts(warnings@),
            text::texts(rows@) == with_warnings(base, all.take(i as int), width as nat),
        decreases warnings.len() - i,
    {
        assert(all.take(i + 1).drop_last() =~= all.take(i as int));
        let line = concat2("warning: ", warnings[i].as_str());
        push_row(rows, clip(line.as_str(), width));
        i = i + 1;
    }
    assert(all.take(i as int) =~= all);
}

fn detail_top(row: &EvalRow, width: usize) -> (r: Vec<String>)
    ensures
        text::texts(r@) == detail_head(*row, width as nat),
{
    let mut rows: Vec<String> = Vec::new();
    let mut title = row.name.clone();
    title.append(" · ");
    title.append(row.kind.as_str());
    title.append(" · ");
    title.append(row.scope.as_str());
    rows.push(title);
    let dir = concat2("dir: ", row.dir.as_str());
    rows.push(clip(dir.as_str(), width));
    assert(text::texts(rows@) =~= seq![title@, clipped("dir: "@ + row.dir@, width as nat)]);
    if row.description.as_str().unicode_len() > 0 {
        push_row(&mut rows, clip(row.description.as_str(), width));
    }
    if row.goal.as_str().unicode_len() > 0 {
        push_row(&mut rows, String::new());
        push_row(&mut rows, "scenario goal".to_string());
        let goal = concat2("  ", row.goal.as_str());
        push_row(&mut rows, clip(goal.as_str(), width));
    }
    rows
}

/// The detail frame: the case's scenario, its expected names, what the last
/// run matched and the judgment as it stands. Misses and spurious matches are
/// named explicitly.
pub fn render_eval_detail(
    row: &EvalRow,
    summary: Option<&EvalRunSummary>,
    applicable: &[String],
    not_applicable: &[String],
    running: bool,
    width: usize,
) -> (r: Vec<String>)
    ensures
        text::texts(r@) == detail_frame(
            *row,
            summary,
            text::texts(applicable@),
            text::texts(not_applicable@),
            running,
            width as nat,
        ),
{
    let mut rows = detail_top(row, width);
    push_row(&mut rows, String::new());
    let expected = names_text(&row.expected, "(none declared)");
    push_row(&mut rows, concat2("expected: ", expected.as_str()));
    match summary {
        Some(s) => {
            let matched = names_text(&s.matched, "(nothing matched)");
            push_row(&mut rows, concat2("matched: ", matched.as_str()));
            if s.missed.len() > 0 {
                let names = join_texts(&s.missed, ", ");
                let line = concat2("missed: ", names.as_str());
                push_row(&mut rows, clip(line.as_str(), width));
            }
            if s.spurious.len() > 0 {
                let names = join_texts(&s.spurious, ", ");
                let line = concat2("spurious: ", names.as_str());
                push_row(&mut rows, clip(line.as_str(), width));
            }
            push_warnings(&mut rows, &s.warnings, width);
        },
        None => {
            if running {
                push_row(&mut rows, "matched: running…".to_string());
            } else {
                push_row(&mut rows, "matched: (not run yet)".to_string());
            }
        },
    }
    push_row(&mut rows, String::new());
    let yes = names_text(applicable, "(none)");
    let no = names_text(not_applicable, "(none)");
    let mut judgment = "judgment — applicable: ".to_string();
    judgment.append(yes.as_str());
    judgment.append(" · not applicable: ");
    judgment.append(no.as_str());
    push_row(&mut rows, judgment);
    push_row(&mut rows, String::new());
    if running {
        push_row(&mut rows, "running the classifier…".to_string());
    } else {
        push_row(
            &mut rows,
            clip(
                "enter run through the classifier · a/n judge the expected names · esc back",
                width,
            ),
        );
    }
    rows
}

// ---------------------------------------------------------------------------
// Laws
// ---------------------------------------------------------------------------

proof fn lemma_without(names: Seq<Seq<char>>, name: Seq<char>)
    ensures
        !without(names, name).contains(name),
        forall|x: Seq<char>| x != name ==> (without(names, name).contains(x) <==> names.contains(x)),
    decreases names.len(),
{
    if names.len() > 0 {
        let init = names.drop_last();
        lemma_without(init, name);
        let kept = without(init, name);
        let last = names.last();
        assert(names =~= init.push(last));
        assert forall|x: Seq<char>| x != name implies (without(names, name).contains(x)
            <==> names.contains(x)) by {
            assert(init.push(last).contains(x) <==> (init.contains(x) || x == last)) by {
                lemma_push_contains(init, last, x);
            }
            if last != name {
                lemma_push_contains(kept, last, x);
            }
        }
        if last != name {
            lemma_push_contains(kept, last, name);
        }
    }
}

proof fn lemma_push_contains(s: Seq<Seq<char>>, a: Seq<char>, x: Seq<char>)
    ensures
        s.push(a).contains(x) <==> (s.contains(x) || x == a),
{
    if s.contains(x) {
        let i = choose|i: int| 0 <= i < s.len() && s[i] == x;
        assert(s.push(a)[i] == x);
    }
    if x == a {
        assert(s.push(a)[s.len() as int] == x);
    }
    if s.push(a).contains(x) {
        let i = choose|i: int| 0 <= i < s.push(a).len() && s.push(a)[i] == x;
        if i < s.len() {
            assert(s[i] == x);
        }
    }
}

/// A verdict is exclusive: once judged, a name stands in the list of its
/// verdict and not in the other; the verdicts on all other names stay.
pub proof fn law_judgment_is_exclusive(
    verdict: Seq<Seq<char>>,
    other: Seq<Seq<char>>,
    name: Seq<char>,
)
    ensures
        without(verdict, name).push(name).contains(name),
        !without(other, name).contains(name),
        forall|x: Seq<char>|
            x != name ==> (without(verdict, name).push(name).contains(x) <==> verdict.contains(x)),
        forall|x: Seq<char>| x != name ==> (without(other, name).contains(x) <==> other.contains(x)),
{
    lemma_without(verdict, name);
    lemma_without(other, name);
    assert forall|x: Seq<char>| (#[trigger] without(verdict, name).push(name).contains(x)) <==> (
    without(verdict, name).contains(x) || x == name) by {
        lemma_push_contains(without(verdict, name), name, x);
    }
}

proof fn lemma_surviving(rows: Seq<EvalRow>, needle: Seq<char>)
    requires
        rows.len() <= usize::MAX,
    ensures
        forall|i: int| #![trigger surviving(rows, needle)[i]]
            0 <= i < surviving(rows, needle).len() ==> {
                &&& surviving(rows, needle)[i] < rows.len()
                &&& row_matches(rows[surviving(rows, needle)[i] as int], needle)
            },
        forall|i: int| 0 <= i < rows.len() && row_matches(#[trigger] rows[i], needle)
            ==> surviving(rows, needle).contains(i as usize),
    decreases rows.len(),
{
    if rows.len() > 0 {
        let init = rows.drop_last();
        lemma_surviving(init, needle);
        let s = surviving(init, needle);
        let all = surviving(rows, needle);
        assert forall|i: int| 0 <= i < rows.len() && row_matches(#[trigger] rows[i], needle)
            implies all.contains(i as usize) by {
            if i < init.len() {
                assert(row_matches(init[i], needle));
                let k = choose|k: int| 0 <= k < s.len() && s[k] == i as usize;
                assert(all[k] == i as usize);
            } else {
                assert(all[all.len() - 1] == i as usize);
            }
        }
        assert forall|i: int| #![trigger all[i]] 0 <= i < all.len() implies {
            &&& all[i] < rows.len()
            &&& row_matches(rows[all[i] as int], needle)
        } by {
            if i < s.len() {
                assert(all[i] == s[i]);
                assert(init[s[i] as int] == rows[s[i] as int]);
            }
        }
    }
}

/// Moving the highlight always lands on a listed row where one is listed.
pub proof fn law_selection_stays_in_the_filtered_list(b: EvalBrowser, delta: int)
    requires
        b.rows@.len() <= usize::MAX,
        b.shown().len() > 0,
    ensures
        ({
            let at = clamped(
                position_or_first(b.shown(), b.selected),
                delta,
                b.shown().len() as int,
            );
            &&& 0 <= at < b.shown().len()
            &&& b.shown()[at] < b.rows@.len()
            &&& row_matches(b.rows@[b.shown()[at] as int], needle_of(b.filter@))
        }),
{
    lemma_surviving(b.rows@, needle_of(b.filter@));
    b.shown().index_of_first_ensures(b.selected);
    let at = clamped(
        position_or_first(b.shown(), b.selected),
        delta,
        b.shown().len() as int,
    );
    assert(b.shown()[at] < b.rows@.len());
}

/// No row of the list frame is longer than the width.
pub proof fn law_list_frame_never_wraps(b: EvalBrowser, width: nat, i: int)
    requires
        0 <= i < list_frame(b, width).len(),
    ensures
        list_frame(b, width)[i].len() <= width,
{
    lemma_list_rows(b.rows@, b.shown(), b.selected, width);
}

proof fn lemma_list_rows(rows: Seq<EvalRow>, shown: Seq<usize>, selected: usize, width: nat)
    ensures
        forall|i: int|
            0 <= i < list_rows(rows, shown, selected, width).len() ==> (#[trigger] list_rows(
                rows,
                shown,
                selected,
                width,
            )[i]).len() <= width,
    decreases shown.len(),
{
    if shown.len() > 0 {
        lemma_list_rows(rows, shown.drop_last(), selected, width);
        let before = list_rows(rows, shown.drop_last(), selected, width);
        let all = list_rows(rows, shown, selected, width);
        assert forall|i: int| 0 <= i < all.len() implies (#[trigger] all[i]).len() <= width by {
            if i < before.len() {
                assert(all[i] == before[i]);
            }
        }
    }
}

/// The filter keeps a case exactly where its name or its description holds the
/// text that was typed, whatever the case of its letters; an empty filter keeps
/// every case. The cases keep their order.
pub proof fn law_the_filter_keeps_what_matches(b: EvalBrowser, i: int)
    requires
        b.rows@.len() <= usize::MAX,
        0 <= i < b.rows@.len(),
    ensures
        ({
            let typed = text::lowercase(text::trimmed(b.filter@));
            b.shown().contains(i as usize) <==> (typed.len() == 0 || text::has_text(
                text::lowercase(b.rows@[i].name@),
                typed,
            ) || text::has_text(text::lowercase(b.rows@[i].description@), typed))
        }),
        forall|j: int, k: int|
            0 <= j < k < b.shown().len() ==> #[trigger] b.shown()[j] < #[trigger] b.shown()[k],
{
    let needle = needle_of(b.filter@);
    lemma_surviving(b.rows@, needle);
    lemma_surviving_in_order(b.rows@, needle);
    if b.shown().contains(i as usize) {
        let k = choose|k: int| 0 <= k < b.shown().len() && b.shown()[k] == i as usize;
        assert(row_matches(b.rows@[b.shown()[k] as int], needle));
        assert((i as usize) as int == i);
        assert(row_matches(b.rows@[i], needle));
    }
    if row_matches(b.rows@[i], needle) {
        assert(b.shown().contains(i as usize));
    }
}

proof fn lemma_surviving_in_order(rows: Seq<EvalRow>, needle: Seq<char>)
    requires
        rows.len() <= usize::MAX,
    ensures
        forall|j: int, k: int|
            0 <= j < k < surviving(rows, needle).len() ==> #[trigger] surviving(rows, needle)[j]
                < #[trigger] surviving(rows, needle)[k],
    decreases rows.len(),
{
    if rows.len() > 0 {
        let init = surviving(rows.drop_last(), needle);
        let all = surviving(rows, needle);
        lemma_surviving_in_order(rows.drop_last(), needle);
        lemma_surviving(rows.drop_last(), needle);
        assert forall|j: int, k: int| 0 <= j < k < all.len() implies #[trigger] all[j]
            < #[trigger] all[k] by {
            assert(all[j] == init[j]);
            if k < init.len() {
                assert(all[k] == init[k]);
            } else {
                assert(init[j] < rows.len() - 1);
            }
        }
    }
}

/// A move goes as far as was asked and stops at the first and the last row.
pub proof fn law_a_move_stops_at_the_ends(n: int, delta: int, count: int)
    requires
        0 <= n < count,
    ensures
        0 <= n + delta < count ==> clamped(n, delta, count) == n + delta,
        n + delta < 0 ==> clamped(n, delta, count) == 0,
        n + delta >= count ==> clamped(n, delta, count) == count - 1,
{
}

/// What is judged: the case's own candidates where it has any; else what it
/// expects, then what a run matched beyond that.
pub proof fn law_a_case_is_judged_over_its_candidates(row: EvalRow, summary: EvalRunSummary)
    ensures
        row.candidates@.len() > 0 ==> pool(row, Some(summary)) == text::texts(row.candidates@)
            && pool(row, None) == text::texts(row.candidates@),
        row.candidates@.len() == 0 ==> pool(row, None) == text::texts(row.expected@),
        row.candidates@.len() == 0 ==> text::texts(row.expected@).is_prefix_of(
            pool(row, Some(summary)),
        ),
        row.candidates@.len() == 0 ==> forall|x: Seq<char>|
            #[trigger] pool(row, Some(summary)).contains(x) <==> text::texts(
                row.expected@,
            ).contains(x) || text::texts(summary.matched@).contains(x),
{
    law_merging_adds_what_is_new(text::texts(row.expected@), text::texts(summary.matched@));
}

/// Merging keeps the names there are, in place, and adds behind them those that
/// are new; no name is added twice.
pub proof fn law_merging_adds_what_is_new(names: Seq<Seq<char>>, more: Seq<Seq<char>>)
    ensures
        names.is_prefix_of(merged(names, more)),
        forall|x: Seq<char>|
            #[trigger] merged(names, more).contains(x) <==> names.contains(x) || more.contains(x),
        names.no_duplicates() ==> merged(names, more).no_duplicates(),
    decreases more.len(),
{
    let m = merged(names, more);
    if more.len() == 0 {
        assert(names =~= names.take(names.len() as int));
    } else {
        let fewer = more.drop_last();
        let before = merged(names, fewer);
        law_merging_adds_what_is_new(names, fewer);
        assert(names =~= m.take(names.len() as int));
        assert(fewer.push(more.last()) =~= more);
        assert forall|x: Seq<char>| #[trigger] m.contains(x) <==> names.contains(x)
            || more.contains(x) by {
            lemma_push_contains(fewer, more.last(), x);
            lemma_push_contains(before, more.last(), x);
            assert(before.contains(x) <==> names.contains(x) || fewer.contains(x));
            assert(before.contains(more.last()) || m == before.push(more.last()));
        }
        if names.no_duplicates() && !before.contains(more.last()) {
            assert forall|i: int, j: int|
                0 <= i < m.len() && 0 <= j < m.len() && i != j implies m[i] != m[j] by {
                if i < before.len() && j < before.len() {
                    assert(before[i] != before[j]);
                } else if i < before.len() {
                    assert(before.contains(before[i]));
                } else {
                    assert(before.contains(before[j]));
                }
            }
        }
    }
}

/// The line of a case: a mark where it is selected, its name and its kind in
/// columns, and its scope, cut to the width; its description stands below
/// where it has one. Every listed case has its line.
pub proof fn law_every_listed_case_has_its_line(
    rows: Seq<EvalRow>,
    shown: Seq<usize>,
    at: usize,
    selected: usize,
    width: nat,
)
    ensures
        ({
            let row = rows[at as int];
            let line = (if at == selected {
                "▸ "@
            } else {
                "  "@
            }) + padded_right(row.name@, 24) + " "@ + padded_right(row.kind@, 6) + " "@
                + row.scope@;
            let before = list_rows(rows, shown, selected, width);
            let after = list_rows(rows, shown.push(at), selected, width);
            &&& row.description@.len() == 0 ==> after == before + seq![
                text::first_chars(line, width as int),
            ]
            &&& row.description@.len() > 0 ==> after == before + seq![
                text::first_chars(line, width as int),
                text::first_chars("    "@ + row.description@, width as int),
            ]
        }),
        list_rows(rows, Seq::empty(), selected, width) == Seq::<Seq<char>>::empty(),
{
    assert(shown.push(at).drop_last() =~= shown);
    let row = rows[at as int];
    let before = list_rows(rows, shown, selected, width);
    let after = list_rows(rows, shown.push(at), selected, width);
    let line = text::first_chars(list_line(row, at == selected), width as int);
    if row.description@.len() > 0 {
        assert(after =~= before + seq![
            line,
            text::first_chars("    "@ + row.description@, width as int),
        ]);
    } else {
        assert(after =~= before + seq![line]);
    }
}

/// A column is as wide as it was asked for, or as its text where that is wider.
pub proof fn law_a_column_keeps_its_text(s: Seq<char>, n: nat)
    ensures
        s.is_prefix_of(padded_right(s, n)),
        s.len() <= n ==> padded_right(s, n).len() == n,
        s.len() > n ==> padded_right(s, n) == s,
        forall|i: int|
            s.len() <= i < padded_right(s, n).len() ==> #[trigger] padded_right(s, n)[i] == ' ',
{
    assert(s =~= padded_right(s, n).take(s.len() as int));
}

/// The detail never hides a disagreement: what a run missed is named, what it
/// matched beyond the expected is named, and every warning is shown, each on a
/// row of its own behind the rows before it.
pub proof fn law_no_disagreement_is_hidden(
    rows: Seq<Seq<char>>,
    summary: &EvalRunSummary,
    width: nat,
    i: int,
)
    requires
        0 <= i < summary.warnings@.len(),
    ensures
        ({
            let shown = with_disagreements(rows, Some(summary), width);
            let missed = clipped(
                "missed: "@ + text::joined(text::texts(summary.missed@), ", "@),
                width,
            );
            let spurious = clipped(
                "spurious: "@ + text::joined(text::texts(summary.spurious@), ", "@),
                width,
            );
            let m: int = if summary.missed@.len() > 0 {
                1
            } else {
                0
            };
            let s: int = if summary.spurious@.len() > 0 {
                1
            } else {
                0
            };
            &&& rows.is_prefix_of(shown)
            &&& shown.len() == rows.len() + m + s + summary.warnings@.len()
            &&& m == 1 ==> shown[rows.len() as int] == missed
            &&& s == 1 ==> shown[rows.len() + m] == spurious
            &&& shown[rows.len() + m + s + i] == clipped(
                "warning: "@ + summary.warnings@[i]@,
                width,
            )
        }),
{
    let missed = if summary.missed@.len() > 0 {
        rows.push(clipped("missed: "@ + text::joined(text::texts(summary.missed@), ", "@), width))
    } else {
        rows
    };
    let spurious = if summary.spurious@.len() > 0 {
        missed.push(
            clipped("spurious: "@ + text::joined(text::texts(summary.spurious@), ", "@), width),
        )
    } else {
        missed
    };
    let shown = with_disagreements(rows, Some(summary), width);
    lemma_warnings_follow(spurious, text::texts(summary.warnings@), width);
    assert(shown.take(spurious.len() as int) == spurious);
    assert forall|k: int| 0 <= k < spurious.len() implies shown[k] == spurious[k] by {
        assert(shown.take(spurious.len() as int)[k] == shown[k]);
    }
    assert(rows =~= shown.take(rows.len() as int));
}

proof fn lemma_warnings_follow(rows: Seq<Seq<char>>, warnings: Seq<Seq<char>>, width: nat)
    ensures
        ({
            let shown = with_warnings(rows, warnings, width);
            &&& shown.len() == rows.len() + warnings.len()
            &&& shown.take(rows.len() as int) == rows
            &&& forall|i: int|
                0 <= i < warnings.len() ==> #[trigger] shown[rows.len() + i] == clipped(
                    "warning: "@ + warnings[i],
                    width,
                )
        }),
    decreases warnings.len(),
{
    let shown = with_warnings(rows, warnings, width);
    if warnings.len() > 0 {
        let before = with_warnings(rows, warnings.drop_last(), width);
        lemma_warnings_follow(rows, warnings.drop_last(), width);
        assert(shown.take(rows.len() as int) =~= before.take(rows.len() as int));
        assert forall|i: int| 0 <= i < warnings.len() implies #[trigger] shown[rows.len() + i]
            == clipped("warning: "@ + warnings[i], width) by {
            if i < warnings.len() - 1 {
                assert(before[rows.len() + i] == shown[rows.len() + i]);
            }
        }
    } else {
        assert(shown.take(rows.len() as int) =~= rows);
    }
}

/// What a run matched is named, and where there is nothing to name the row says
/// why: nothing matched, the run goes on, or there was none. Names follow each
/// other with a comma between them.
pub proof fn law_a_run_is_told_as_it_went(summary: &EvalRunSummary, running: bool)
    ensures
        summary.matched@.len() > 0 ==> matched_row(Some(summary), running) == "matched: "@
            + text::joined(text::texts(summary.matched@), ", "@),
        summary.matched@.len() == 0 ==> matched_row(Some(summary), running)
            == "matched: (nothing matched)"@,
        matched_row(None, true) == "matched: running…"@,
        matched_row(None, false) == "matched: (not run yet)"@,
{
    reveal_strlit("matched: ");
    reveal_strlit("(nothing matched)");
    reveal_strlit("matched: (nothing matched)");
    assert("matched: "@ + "(nothing matched)"@ =~= "matched: (nothing matched)"@);
}

/// A judged name stands in its verdict, last and once, and never in the other;
/// every other name keeps its verdict and its place.
pub proof fn law_a_judged_name_stands_in_its_verdict(names: Seq<Seq<char>>, name: Seq<char>)
    ensures
        judged(names, name, true) == names.filter(|x: Seq<char>| x != name).push(name),
        judged(names, name, false) == names.filter(|x: Seq<char>| x != name),
{
    lemma_without_is_filter(names, name);
}

proof fn lemma_without_is_filter(names: Seq<Seq<char>>, name: Seq<char>)
    ensures
        without(names, name) == names.filter(|x: Seq<char>| x != name),
    decreases names.len(),
{
    reveal(Seq::filter);
    if names.len() > 0 {
        lemma_without_is_filter(names.drop_last(), name);
    } else {
        assert(without(names, name) =~= names.filter(|x: Seq<char>| x != name));
    }
}

/// The highlight moves from the row where it is, by as many listed rows as was
/// asked for, and stops at the first and the last of them.
pub proof fn law_the_highlight_moves_among_listed_rows(b: EvalBrowser, at: int, delta: int)
    requires
        0 <= at < b.shown().len(),
        b.shown()[at] == b.selected,
        forall|j: int| 0 <= j < at ==> b.shown()[j] != b.selected,
    ensures
        0 <= at + delta < b.shown().len() ==> b.row_moved_to(delta) == b.shown()[at + delta],
        at + delta < 0 ==> b.row_moved_to(delta) == b.shown()[0],
        at + delta >= b.shown().len() ==> b.row_moved_to(delta) == b.shown().last(),
{
    b.shown().index_of_first_ensures(b.selected);
    assert(b.shown().contains(b.selected));
    let f = b.shown().index_of_first(b.selected)->0;
    if f < at {
        assert(b.shown()[f] != b.selected);
    }
    if at < f {
        assert(b.shown()[at] == b.selected);
    }
}

/// The candidate under the cursor is the one at its place among those that the
/// open case is judged over; without an open case there is none.
pub proof fn law_the_cursor_is_on_a_candidate_of_the_open_case(b: EvalBrowser)
    ensures
        b.detail is None ==> b.candidate() is None && b.open_row() is None,
        b.detail matches Some(i) ==> i < b.rows@.len() ==> {
            let p = pool(b.rows@[i as int], b.summary);
            &&& b.open_row() == Some(b.rows@[i as int])
            &&& b.candidate_index < p.len() ==> b.candidate() == Some(
                p[b.candidate_index as int],
            )
            &&& b.candidate_index >= p.len() ==> b.candidate() is None
        },
{
}

/// The detail of a case tells all of it: its name, kind and scope, where it is,
/// what it is, its goal, what it expects, what a run matched and missed, and
/// the judgment so far.
pub proof fn law_a_detail_tells_the_whole_case(
    row: EvalRow,
    applicable: Seq<Seq<char>>,
    not_applicable: Seq<Seq<char>>,
    running: bool,
    width: nat,
)
    requires
        row.description@.len() > 0,
        row.goal@.len() > 0,
    ensures
        ({
            let frame = detail_frame(row, None, applicable, not_applicable, running, width);
            &&& frame.len() == 13
            &&& frame[0] == row.name@ + " · "@ + row.kind@ + " · "@ + row.scope@
            &&& frame[1] == text::first_chars("dir: "@ + row.dir@, width as int)
            &&& frame[2] == text::first_chars(row.description@, width as int)
            &&& frame[4] == "scenario goal"@
            &&& frame[5] == text::first_chars("  "@ + row.goal@, width as int)
            &&& row.expected@.len() > 0 ==> frame[7] == "expected: "@ + text::joined(
                text::texts(row.expected@),
                ", "@,
            )
            &&& row.expected@.len() == 0 ==> frame[7] == "expected: "@ + "(none declared)"@
            &&& frame[8] == matched_row(None, running)
            &&& frame[10] == "judgment — applicable: "@ + (if applicable.len() > 0 {
                text::joined(applicable, ", "@)
            } else {
                "(none)"@
            }) + " · not applicable: "@ + (if not_applicable.len() > 0 {
                text::joined(not_applicable, ", "@)
            } else {
                "(none)"@
            })
            &&& running ==> frame[12] == "running the classifier…"@
        }),
{
}

} // verus!
