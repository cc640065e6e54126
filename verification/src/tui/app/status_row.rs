//! The custom status line: an outside command paints the status row. Whatever
//! it printed is made safe and exactly as wide as the terminal; anything that
//! failed or is blank leaves the built-in bar in place.

use vstd::prelude::*;
use crate::ansi;
use crate::ansi::{clip_visible, sgr_at, string_width, RESET};
use crate::text;
use crate::text::{chars_of, concat2, repeat_char, sub_string};
use crate::tui::app::activity;
use crate::tui::app::activity::later;
use crate::tui::pane_title;
use crate::tui::pane_title::escape_end;

verus! {

/// The configured command.
#[derive(Debug, PartialEq)]
pub struct StatusLineSetting {
    pub kind: String,
    pub command: String,
    pub padding: usize,
    pub update_interval_ms: u64,
    pub timeout_ms: u64,
}

/// What the command is told.
#[derive(Debug, PartialEq)]
pub struct StatusLineRequest {
    pub session_id: Option<String>,
    pub cwd: Option<String>,
    pub model_id: Option<String>,
    pub model_display_name: Option<String>,
    pub version: Option<String>,
    pub render_width_chars: usize,
    pub context_usage: Option<String>,
}

/// What the command printed, and whether it ended well.
#[derive(Debug, PartialEq)]
pub struct StatusLineOutput {
    pub line: String,
    pub ok: bool,
    pub fresh: bool,
    pub finished_at: u64,
}

/// Runs the command, one job at a time, until it is shut down.
#[derive(Debug, PartialEq)]
pub struct StatusLineRunner {
    pub setting: StatusLineSetting,
    /// Whether a job is under way.
    pub busy: bool,
    pub is_shut_down: bool,
}

impl StatusLineRunner {
    pub fn new(setting: StatusLineSetting) -> (r: Self)
        ensures
            r.setting == setting,
            !r.busy,
            !r.is_shut_down,
    {
        StatusLineRunner { setting, busy: false, is_shut_down: false }
    }

    /// No further job is started.
    pub fn shutdown(&mut self)
        ensures
            *final(self) == (StatusLineRunner { is_shut_down: true, ..*old(self) }),
    {
        self.is_shut_down = true;
    }

    /// Whether a job is to be started now: none while one is under way, and
    /// none after the shutdown.
    pub fn request_refresh(&mut self, request: &StatusLineRequest) -> (r: bool)
        ensures
            r == (!old(self).busy && !old(self).is_shut_down),
            *final(self) == (StatusLineRunner { busy: old(self).busy || r, ..*old(self) }),
    {
        if self.busy || self.is_shut_down {
            return false;
        }
        self.busy = true;
        true
    }

    /// The job under way has ended.
    pub fn job_finished(&mut self)
        ensures
            *final(self) == (StatusLineRunner { busy: false, ..*old(self) }),
    {
        self.busy = false;
    }
}

// ---------------------------------------------------------------------------
// The row
// ---------------------------------------------------------------------------

/// `s` with its SGR sequences and without any other escape sequence.
pub open spec fn styled(s: Seq<char>) -> Seq<char>
    decreases s.len(),
{
    if s.len() == 0 {
        Seq::empty()
    } else if ansi::sgr_length(s) > 0 {
        let n = ansi::sgr_length(s) as int;
        if n >= s.len() {
            s
        } else {
            s.take(n) + styled(s.skip(n))
        }
    } else if s[0] == '\u{1b}' {
        let n = pane_title::escape_length(s) as int;
        if n >= s.len() {
            Seq::empty()
        } else {
            styled(s.skip(n))
        }
    } else {
        seq![s[0]] + styled(s.skip(1))
    }
}

/// Removes every escape sequence that is no SGR sequence.
pub fn keep_styles(s: &str) -> (r: String)
    ensures
        r@ == styled(s@),
{
    let x = chars_of(s);
    let mut out = String::new();
    let mut i: usize = 0;
    assert(x@.skip(0) =~= x@);
    assert(out@ + styled(x@) =~= styled(x@));
    while i < x.len()
        invariant
            i <= x.len(),
            x@ == s@,
            out@ + styled(x@.skip(i as int)) == styled(x@),
        decreases x.len() - i,
    {
        let ghost rest = x@.skip(i as int);
        let ghost so_far = out@;
        assert(rest[0] == x@[i as int]);
        let n: usize = sgr_at(&x, i);
        if n > 0 {
            let code = sub_string(&x, i, i + n);
            out.append(code.as_str());
            i = i + n;
            assert(rest.skip(n as int) =~= x@.skip(i as int));
            assert(code@ =~= rest.take(n as int));
            if i == x.len() {
                assert(x@.skip(i as int) =~= Seq::empty());
                assert(rest.take(n as int) =~= rest);
                assert(out@ + styled(x@.skip(i as int)) =~= so_far + rest);
            } else {
                assert(out@ + styled(x@.skip(i as int)) =~= so_far + (rest.take(n as int)
                    + styled(x@.skip(i as int))));
            }
        } else if x[i] == '\u{1b}' {
            let ghost k = pane_title::escape_length(rest);
            i = escape_end(&x, i);
            assert(rest.skip(k as int) =~= x@.skip(i as int));
            assert(k >= rest.len() ==> x@.skip(i as int) =~= Seq::empty());
        } else {
            let c: char = x[i];
            out.push(c);
            assert(rest.skip(1) =~= x@.skip(i + 1));
            i = i + 1;
            assert(out@ + styled(x@.skip(i as int)) =~= so_far + (seq![c] + styled(
                x@.skip(i as int),
            )));
        }
    }
    assert(x@.skip(i as int) =~= Seq::empty());
    assert(out@ + styled(x@.skip(i as int)) =~= out@);
    out
}

/// The columns that still have to be filled.
pub open spec fn missing_columns(s: Seq<char>, cols: nat) -> nat {
    if ansi::text_width(s) < cols {
        (cols - ansi::text_width(s)) as nat
    } else {
        0
    }
}

/// The status row of a printed line: indented by `padding`, cut to `cols`
/// columns and filled up to them; a row that holds a style ends with a reset.
pub open spec fn status_row(line: Seq<char>, cols: nat, padding: nat) -> Seq<char> {
    let shown = ansi::clip_from(text::repeated(' ', padding) + styled(line), cols, true);
    let filled = shown + text::repeated(' ', missing_columns(shown, cols));
    if shown.contains('\u{1b}') {
        filled + RESET@
    } else {
        filled
    }
}

/// A status row takes exactly the columns of the terminal.
pub proof fn law_the_status_row_is_exactly_as_wide_as_the_terminal(
    line: Seq<char>,
    cols: nat,
    padding: nat,
)
    ensures
        ansi::text_width(status_row(line, cols, padding)) == cols,
{
    let shown = ansi::clip_from(text::repeated(' ', padding) + styled(line), cols, true);
    let gap = missing_columns(shown, cols);
    ansi::lemma_clip_fits(text::repeated(' ', padding) + styled(line), cols);
    ansi::lemma_spaces_width(gap);
    let filled = shown + text::repeated(' ', gap);
    ansi::lemma_visible_append(shown, text::repeated(' ', gap));
    ansi::lemma_reset_is_invisible();
    ansi::lemma_visible_append(filled, RESET@);
}

fn holds_escape(s: &str) -> (r: bool)
    ensures
        r == s@.contains('\u{1b}'),
{
    let x = chars_of(s);
    let mut i: usize = 0;
    while i < x.len()
        invariant
            i <= x.len(),
            x@ == s@,
            forall|k: int| 0 <= k < i ==> x@[k] != '\u{1b}',
        decreases x.len() - i,
    {
        if x[i] == '\u{1b}' {
            assert(s@[i as int] == '\u{1b}');
            return true;
        }
        i = i + 1;
    }
    false
}

/// Makes a printed line safe and exactly `cols` columns wide.
pub fn sanitize_status_line(line: &str, cols: usize, padding: usize) -> (r: String)
    ensures
        r@ == status_row(line@, cols as nat, padding as nat),
        ansi::text_width(r@) == cols,
{
    proof {
        law_the_status_row_is_exactly_as_wide_as_the_terminal(
            line@,
            cols as nat,
            padding as nat,
        );
    }
    let indent = repeat_char(' ', padding);
    let kept = keep_styles(line);
    let whole = concat2(indent.as_str(), kept.as_str());
    let shown = clip_visible(whole.as_str(), cols);
    let used: usize = string_width(shown.as_str());
    let gap: usize = if used < cols {
        cols - used
    } else {
        0
    };
    let blanks = repeat_char(' ', gap);
    let filled = concat2(shown.as_str(), blanks.as_str());
    if holds_escape(shown.as_str()) {
        concat2(filled.as_str(), RESET)
    } else {
        filled
    }
}

/// The custom row of the newest output, where it paints one.
pub open spec fn custom_row(
    output: Option<StatusLineOutput>,
    cols: nat,
    padding: nat,
) -> Option<Seq<char>> {
    match output {
        Some(o) => if o.ok && o.line@.len() > 0 {
            Some(status_row(o.line@, cols, padding))
        } else {
            None
        },
        None => None,
    }
}

/// The painted custom row, or `None` where the built-in bar stays: without
/// output, after a failure, and for a blank line.
pub fn custom_status_row_from(
    output: Option<&StatusLineOutput>,
    cols: usize,
    padding: usize,
) -> (r: Option<String>)
    ensures
        text::opt_text(r) == custom_row(
            match output {
                Some(o) => Some(*o),
                None => None,
            },
            cols as nat,
            padding as nat,
        ),
{
    match output {
        None => None,
        Some(o) => if !o.ok || o.line.as_str().unicode_len() == 0 {
            None
        } else {
            Some(sanitize_status_line(o.line.as_str(), cols, padding))
        },
    }
}

// ---------------------------------------------------------------------------
// Refreshing
// ---------------------------------------------------------------------------

/// The custom status line of a session: its runner, the newest output, and
/// when it is asked again.
pub struct StatusLine {
    pub runner: Option<StatusLineRunner>,
    pub output: Option<StatusLineOutput>,
    pub next_refresh: Option<u64>,
    pub request_width: Option<usize>,
}

/// Whether a refresh is due: at its time, and whenever the width changed.
pub open spec fn refresh_due(s: StatusLine, now: u64, cols: usize) -> bool {
    ||| s.next_refresh is None
    ||| now >= s.next_refresh->0
    ||| s.request_width != Some(cols)
}

impl StatusLine {
    pub fn new(setting: Option<StatusLineSetting>) -> (r: Self)
        ensures
            r.runner == (match setting {
                Some(s) => Some(
                    StatusLineRunner { setting: s, busy: false, is_shut_down: false },
                ),
                None => None,
            }),
            r.output is None,
            r.next_refresh is None,
            r.request_width is None,
    {
        StatusLine {
            runner: match setting {
                Some(s) => Some(StatusLineRunner::new(s)),
                None => None,
            },
            output: None,
            next_refresh: None,
            request_width: None,
        }
    }

    /// Adopts the output of a job that ended, and says whether to ask the
    /// command again: when its time has come or the width changed, and the
    /// runner takes a job. Without a runner nothing changes.
    pub fn poll_status_line(
        &mut self,
        finished: Option<StatusLineOutput>,
        request: &StatusLineRequest,
        now: u64,
        cols: usize,
    ) -> (r: bool)
        ensures
            match old(self).runner {
                None => !r && *final(self) == *old(self),
                Some(runner) => {
                    let idle = StatusLineRunner { busy: runner.busy && finished is None, ..runner };
                    let due = refresh_due(*old(self), now, cols);
                    let starts = due && !idle.busy && !idle.is_shut_down;
                    &&& r == starts
                    &&& *final(self) == (StatusLine {
                        runner: Some(StatusLineRunner { busy: idle.busy || starts, ..idle }),
                        output: if finished is Some {
                            finished
                        } else {
                            old(self).output
                        },
                        next_refresh: if due {
                            Some(activity::later_time(now, runner.setting.update_interval_ms))
                        } else {
                            old(self).next_refresh
                        },
                        request_width: if due {
                            Some(cols)
                        } else {
                            old(self).request_width
                        },
                    })
                },
            },
    {
        let mut runner = match self.runner.take() {
            None => {
                return false;
            },
            Some(runner) => runner,
        };
        match finished {
            Some(output) => {
                runner.job_finished();
                self.output = Some(output);
            },
            None => {},
        }
        let time_has_come = match self.next_refresh {
            Some(at) => now >= at,
            None => true,
        };
        let same_width = match self.request_width {
            Some(w) => w == cols,
            None => false,
        };
        let mut starts = false;
        if time_has_come || !same_width {
            self.next_refresh = Some(later(now, runner.setting.update_interval_ms));
            self.request_width = Some(cols);
            starts = runner.request_refresh(request);
        }
        self.runner = Some(runner);
        starts
    }

    /// The custom row that the cached output paints; nothing is run here.
    pub fn custom_status_row(&self, cols: usize) -> (r: Option<String>)
        ensures
            text::opt_text(r) == (match self.runner {
                Some(runner) => custom_row(
                    self.output,
                    cols as nat,
                    runner.setting.padding as nat,
                ),
                None => None,
            }),
    {
        match &self.runner {
            Some(runner) => match &self.output {
                Some(o) => custom_status_row_from(Some(o), cols, runner.setting.padding),
                None => custom_status_row_from(None, cols, runner.setting.padding),
            },
            None => None,
        }
    }
}

/// A line of plain text is shown whole where it fits: behind its padding, and
/// filled with spaces to the width of the terminal.
pub proof fn law_a_plain_status_line_is_shown_whole(line: Seq<char>, cols: nat, padding: nat)
    requires
        forall|i: int| 0 <= i < line.len() ==> ' ' <= #[trigger] line[i] <= '~',
        padding + line.len() <= cols,
    ensures
        status_row(line, cols, padding) == Seq::new(padding, |i: int| ' ') + line + Seq::new(
            (cols - padding - line.len()) as nat,
            |i: int| ' ',
        ),
{
    let pad = Seq::new(padding, |i: int| ' ');
    let all = pad + line;
    assert(text::repeated(' ', padding) =~= pad);
    lemma_styled_of_plain(line);
    assert forall|i: int| 0 <= i < all.len() implies ' ' <= #[trigger] all[i] <= '~' by {
        if i >= padding {
            assert(all[i] == line[i - padding]);
        }
    }
    ansi::law_ascii_text_takes_its_length(all);
    assert forall|i: int| 0 <= i < all.len() implies !text::is_ctrl(#[trigger] all[i]) by {
        assert(' ' <= all[i] <= '~');
    }
    ansi::law_clipping_keeps_what_fits(all, cols);
    if all.contains('\u{1b}') {
        let i = choose|i: int| 0 <= i < all.len() && all[i] == '\u{1b}';
        assert(' ' <= all[i]);
    }
    let gap = (cols - padding - line.len()) as nat;
    assert(text::repeated(' ', gap) =~= Seq::new(gap, |i: int| ' '));
}

proof fn lemma_styled_of_plain(s: Seq<char>)
    requires
        forall|i: int| 0 <= i < s.len() ==> ' ' <= #[trigger] s[i] <= '~',
    ensures
        styled(s) == s,
    decreases s.len(),
{
    if s.len() > 0 {
        assert(' ' <= s[0]);
        let rest = s.skip(1);
        assert forall|i: int| 0 <= i < rest.len() implies ' ' <= #[trigger] rest[i] <= '~' by {
            assert(rest[i] == s[i + 1]);
        }
        lemma_styled_of_plain(rest);
        assert(seq![s[0]] + rest =~= s);
    }
}

/// A style in the line is kept, and ended with the row; any other escape is
/// left out.
pub proof fn law_a_styled_status_line_ends_its_style(line: Seq<char>, cols: nat, padding: nat)
    ensures
        ({
            let shown = ansi::clip_from(
                Seq::new(padding, |i: int| ' ') + styled(line),
                cols,
                true,
            );
            &&& shown.is_prefix_of(status_row(line, cols, padding))
            &&& shown.contains('\u{1b}') ==> exists|body: Seq<char>|
                #[trigger] (body + "\u{1b}[0m"@) == status_row(line, cols, padding)
        }),
{
    assert(text::repeated(' ', padding) =~= Seq::new(padding, |i: int| ' '));
    let shown = ansi::clip_from(text::repeated(' ', padding) + styled(line), cols, true);
    let filled = shown + text::repeated(' ', missing_columns(shown, cols));
    assert(shown =~= status_row(line, cols, padding).take(shown.len() as int));
    if shown.contains('\u{1b}') {
        assert(filled + "\u{1b}[0m"@ == status_row(line, cols, padding));
    }
}

/// Only a run of the command that went well and said something makes a row;
/// after a failure or without a word there is none.
pub proof fn law_only_good_output_makes_a_row(output: StatusLineOutput, cols: nat, padding: nat)
    ensures
        custom_row(None, cols, padding) is None,
        !output.ok || output.line@.len() == 0 ==> custom_row(Some(output), cols, padding) is None,
        output.ok && output.line@.len() > 0 ==> custom_row(Some(output), cols, padding) == Some(
            status_row(output.line@, cols, padding),
        ),
{
}

/// The command runs anew at its time and whenever the width changed, and not
/// before.
pub proof fn law_the_command_runs_anew_in_time(s: StatusLine, now: u64, cols: usize, at: u64)
    requires
        s.next_refresh == Some(at),
    ensures
        now >= at ==> refresh_due(s, now, cols),
        s.request_width != Some(cols) ==> refresh_due(s, now, cols),
        now < at && s.request_width == Some(cols) ==> !refresh_due(s, now, cols),
{
}

/// A style code of the line is kept where it stands; a string sequence is left
/// out; a printed character stands for itself.
pub proof fn law_styles_are_kept_and_other_escapes_left_out(
    params: Seq<char>,
    body: Seq<char>,
    c: char,
    rest: Seq<char>,
)
    requires
        forall|i: int| 0 <= i < params.len() ==> ('0' <= #[trigger] params[i] <= '9' || params[i]
            == ';'),
        c != '\u{1b}',
        body.len() < 512,
        forall|i: int|
            0 <= i < body.len() ==> #[trigger] body[i] != '\u{7}' && body[i] != '\u{1b}',
    ensures
        styled(seq!['\u{1b}', ']'] + body + seq!['\u{7}'] + rest) == styled(rest),
        ({
            let code = seq!['\u{1b}', '['] + params + seq!['m'];
            styled(code + rest) == code + styled(rest)
        }),
        styled(seq![c] + rest) == seq![c] + styled(rest),
{
    let code = seq!['\u{1b}', '['] + params + seq!['m'];
    let s = code + rest;
    ansi::lemma_style_code(params, rest);
    assert(s.take(code.len() as int) =~= code);
    assert(s.skip(code.len() as int) =~= rest);
    if rest.len() == 0 {
        assert(s =~= code);
        assert(code + styled(rest) =~= code);
    }
    let t = seq![c] + rest;
    assert(t.skip(1) =~= rest);
    assert(ansi::sgr_length(t) == 0);
    let u = seq!['\u{1b}', ']'] + body + seq!['\u{7}'] + rest;
    let n = 3 + body.len() as int;
    assert(u[0] == '\u{1b}' && u[1] == ']');
    assert(u.skip(2) =~= body + (seq!['\u{7}'] + rest));
    pane_title::lemma_osc_bell(body, rest, 0, false);
    assert(u.skip(n) =~= rest);
    if n >= u.len() {
        assert(rest =~= Seq::empty());
    }
}

} // verus!
