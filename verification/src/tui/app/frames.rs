//! What stands in the live region: the pickers, the survey, the working line,
//! the composer and the status bar, each as rows of text.

use vstd::prelude::*;
use crate::text;
use crate::text::{
    chars_of, concat2, concat3, format_decimal, join_texts, repeat_char, sub_string, take_chars,
};
use crate::tui::app::composer::Composer;
use crate::tui::app::composer::ComposerModel;
use crate::tui::app::layout;
use crate::tui::app::layout::{composer_cursor_position, composer_lines, composer_text_width};
use crate::tui::app::overlay;
use crate::tui::app::overlay::{ItemModel, PickerItem};
use crate::tui::app::skills;
use crate::tui::app::skills::{is_active, skill_origin, LoadedSkill, SkillRow};
use crate::tui::app::slash;
use crate::tui::app::slash::get_slash_command_suggestions;
use crate::tui::app::survey;
use crate::tui::evals::push_row;
use crate::tui::jobs;
use crate::tui::jobs::{background_counter, clock};
use crate::tui::widgets;
use crate::tui::widgets::{paint_accent, paint_faint};

verus! {

/// What stands before a row: the cursor on the selected one.
pub open spec fn pointer(selected: bool) -> Seq<char> {
    if selected {
        "❯ "@
    } else {
        "  "@
    }
}

fn pointer_text(selected: bool) -> (r: &'static str)
    ensures
        r@ == pointer(selected),
{
    if selected {
        "❯ "
    } else {
        "  "
    }
}

// ---------------------------------------------------------------------------
// Pickers
// ---------------------------------------------------------------------------

/// The row of a picker item.
pub open spec fn picker_row(item: ItemModel, selected: bool) -> Seq<char> {
    let head = pointer(selected) + item.label;
    match item.detail {
        Some(detail) => head + widgets::faint(" — "@ + detail),
        None => head,
    }
}

/// The rows of picker items.
pub open spec fn picker_rows(items: Seq<ItemModel>, selected: int) -> Seq<Seq<char>> {
    Seq::new(items.len(), |i: int| picker_row(items[i], i == selected))
}

/// The keys of a picker.
pub open spec fn picker_footer() -> Seq<char> {
    widgets::faint("↑/↓ move · enter to pick · esc to close"@)
}

/// The frame of a picker.
pub open spec fn picker_frame(
    title: Seq<char>,
    items: Seq<ItemModel>,
    selected: int,
) -> Seq<Seq<char>> {
    (seq![widgets::accented(title)] + picker_rows(items, selected)).push(picker_footer())
}

/// Draws a picker.
pub fn render_picker(title: &str, items: &Vec<PickerItem>, selected: usize) -> (r: Vec<String>)
    ensures
        text::texts(r@) == picker_frame(title@, overlay::item_models(items@), selected as int),
{
    let ghost models = overlay::item_models(items@);
    let ghost all = picker_rows(models, selected as int);
    let ghost first = seq![widgets::accented(title@)];
    let mut rows: Vec<String> = Vec::new();
    rows.push(paint_accent(title));
    assert(text::texts(rows@) =~= first + all.take(0));
    let mut i: usize = 0;
    while i < items.len()
        invariant
            i <= items.len(),
            models == overlay::item_models(items@),
            all == picker_rows(models, selected as int),
            text::texts(rows@) == first + all.take(i as int),
        decreases items.len() - i,
    {
        let mut row = concat2(pointer_text(i == selected), items[i].label.as_str());
        match &items[i].detail {
            Some(detail) => {
                let plain = concat2(" — ", detail.as_str());
                let shown = paint_faint(plain.as_str());
                row.append(shown.as_str());
            },
            None => {},
        }
        assert(row@ == all[i as int]);
        push_row(&mut rows, row);
        i = i + 1;
        assert(text::texts(rows@) =~= first + all.take(i as int));
    }
    assert(all.take(i as int) =~= all);
    push_row(&mut rows, paint_faint("↑/↓ move · enter to pick · esc to close"));
    rows
}

// ---------------------------------------------------------------------------
// Survey
// ---------------------------------------------------------------------------

/// Whether an option is marked.
pub open spec fn is_marked(marks: Seq<bool>, i: int) -> bool {
    0 <= i < marks.len() && marks[i]
}

/// The row of an option: its mark where several may be marked, its number and
/// its label.
pub open spec fn option_row(
    label: Seq<char>,
    i: int,
    selected: int,
    marks: Seq<bool>,
) -> Seq<char> {
    pointer(i == selected) + (if marks.len() > 0 {
        if is_marked(marks, i) {
            "[x] "@
        } else {
            "[ ] "@
        }
    } else {
        ""@
    }) + text::decimal((i + 1) as nat) + ". "@ + label
}

/// The rows of an option and its description.
pub open spec fn option_block(
    item: ItemModel,
    i: int,
    selected: int,
    marks: Seq<bool>,
) -> Seq<Seq<char>> {
    let row = option_row(item.label, i, selected, marks);
    match item.detail {
        Some(detail) => seq![row, widgets::faint("     "@ + detail)],
        None => seq![row],
    }
}

/// The rows of the first `n` options.
pub open spec fn option_blocks(
    items: Seq<ItemModel>,
    n: nat,
    selected: int,
    marks: Seq<bool>,
) -> Seq<Seq<char>>
    decreases n,
{
    if n == 0 {
        Seq::empty()
    } else {
        option_blocks(items, (n - 1) as nat, selected, marks) + option_block(
            items[n - 1],
            n - 1,
            selected,
            marks,
        )
    }
}

/// The rows behind the listed options: numbered on.
pub open spec fn extra_rows(items: Seq<ItemModel>, from: int, selected: int) -> Seq<Seq<char>> {
    Seq::new(
        (items.len() - from) as nat,
        |i: int|
            pointer(from + i == selected) + text::decimal((from + i + 1) as nat) + ". "@
                + items[from + i].label,
    )
}

/// The keys of a survey.
pub open spec fn survey_footer(multiple: bool) -> Seq<char> {
    if multiple {
        widgets::faint("Space toggles · Enter confirms the selection · Esc to cancel"@)
    } else {
        widgets::faint("Enter to select · ↑/↓ to navigate · 1-9 to jump · Esc to cancel"@)
    }
}

/// The first row that is no listed option.
pub open spec fn first_extra(items: Seq<ItemModel>, from: int) -> int
    decreases items.len() - from,
{
    if from >= items.len() {
        items.len() as int
    } else if items[from].id.len() > 0 && items[from].id[0] == '\u{0}' {
        from
    } else {
        first_extra(items, from + 1)
    }
}

/// The marks of the first `n` options; none on a question that takes one
/// answer.
pub open spec fn marks_of(picks: Seq<int>, n: nat, multiple: bool) -> Seq<bool> {
    if multiple {
        Seq::new(n, |i: int| picks.contains(i))
    } else {
        Seq::empty()
    }
}

/// The frame of a survey: header and progress, the question, the options, the
/// rows behind them, and the keys.
pub open spec fn survey_frame(
    q: survey::QuestionModel,
    items: Seq<ItemModel>,
    picks: Seq<int>,
    selected: int,
    number: int,
    total: int,
) -> Seq<Seq<char>> {
    let listed = first_extra(items, 0);
    let marks = marks_of(picks, listed as nat, q.multiple);
    (seq![
        widgets::accented(q.header) + widgets::faint(
            " · question "@ + text::decimal(number as nat) + " of "@ + text::decimal(
                total as nat,
            ),
        ),
        q.question,
    ] + option_blocks(items, listed as nat, selected, marks) + extra_rows(
        items,
        listed,
        selected,
    )).push(survey_footer(q.multiple))
}

fn find_extra(items: &Vec<PickerItem>) -> (r: usize)
    ensures
        r == first_extra(overlay::item_models(items@), 0),
        r <= items@.len(),
{
    let ghost models = overlay::item_models(items@);
    let mut i: usize = 0;
    while i < items.len()
        invariant
            i <= items.len(),
            models == overlay::item_models(items@),
            first_extra(models, 0) == first_extra(models, i as int),
        decreases items.len() - i,
    {
        let id = chars_of(items[i].id.as_str());
        if id.len() > 0 && id[0] == '\u{0}' {
            return i;
        }
        i = i + 1;
    }
    i
}

fn picks_have(picks: &Vec<usize>, index: usize) -> (r: bool)
    ensures
        r == survey::pick_models(picks@).contains(index as int),
{
    let ghost all = survey::pick_models(picks@);
    let mut i: usize = 0;
    while i < picks.len()
        invariant
            i <= picks.len(),
            all == survey::pick_models(picks@),
            forall|k: int| 0 <= k < i ==> all[k] != index,
        decreases picks.len() - i,
    {
        if picks[i] == index {
            assert(all[i as int] == index);
            return true;
        }
        i = i + 1;
    }
    false
}

/// Draws a survey question over the rows of its picker.
pub fn render_survey(
    question: &survey::HarnessSurveyQuestion,
    items: &Vec<PickerItem>,
    picks: &Vec<usize>,
    selected: usize,
    number: usize,
    total: usize,
) -> (r: Vec<String>)
    ensures
        text::texts(r@) == survey_frame(
            question@,
            overlay::item_models(items@),
            survey::pick_models(picks@),
            selected as int,
            number as int,
            total as int,
        ),
{
    let ghost models = overlay::item_models(items@);
    let ghost picked = survey::pick_models(picks@);
    let listed: usize = find_extra(items);
    let ghost marks = marks_of(picked, listed as nat, question.multiple);
    let mut rows: Vec<String> = Vec::new();
    let header = paint_accent(question.header.as_str());
    let n = format_decimal(number as u64);
    let t = format_decimal(total as u64);
    let mut progress = concat3(" · question ", n.as_str(), " of ");
    progress.append(t.as_str());
    let faint = paint_faint(progress.as_str());
    rows.push(concat2(header.as_str(), faint.as_str()));
    rows.push(question.question.clone());
    let ghost first = text::texts(rows@);
    assert(first =~= seq![
        widgets::accented(question@.header) + widgets::faint(
            " · question "@ + text::decimal(number as nat) + " of "@ + text::decimal(
                total as nat,
            ),
        ),
        question@.question,
    ]);
    assert(first + option_blocks(models, 0, selected as int, marks) =~= first);
    let mut i: usize = 0;
    while i < listed
        invariant
            i <= listed <= items@.len(),
            models == overlay::item_models(items@),
            picked == survey::pick_models(picks@),
            marks == marks_of(picked, listed as nat, question.multiple),
            text::texts(rows@) == first + option_blocks(models, i as nat, selected as int, marks),
        decreases listed - i,
    {
        let ghost before = text::texts(rows@);
        let mark = if question.multiple {
            if picks_have(picks, i) {
                "[x] "
            } else {
                "[ ] "
            }
        } else {
            ""
        };
        let shown = format_decimal(i as u64 + 1);
        let mut row = concat3(pointer_text(i == selected), mark, shown.as_str());
        row.append(". ");
        row.append(items[i].label.as_str());
        let ghost block = option_block(models[i as int], i as int, selected as int, marks);
        push_row(&mut rows, row);
        match &items[i].detail {
            Some(detail) => {
                let plain = concat2("     ", detail.as_str());
                push_row(&mut rows, paint_faint(plain.as_str()));
            },
            None => {},
        }
        assert(text::texts(rows@) =~= before + block);
        assert(first + option_blocks(models, i as nat, selected as int, marks) + block =~= first + (
        option_blocks(models, i as nat, selected as int, marks) + block));
        i = i + 1;
        assert(option_blocks(models, i as nat, selected as int, marks) == option_blocks(
            models,
            (i - 1) as nat,
            selected as int,
            marks,
        ) + block);
    }
    let ghost so_far = text::texts(rows@);
    let ghost extra = extra_rows(models, listed as int, selected as int);
    let mut j: usize = listed;
    assert(so_far =~= so_far + extra.take(0));
    while j < items.len()
        invariant
            listed <= j <= items@.len(),
            models == overlay::item_models(items@),
            extra == extra_rows(models, listed as int, selected as int),
            text::texts(rows@) == so_far + extra.take(j - listed),
        decreases items.len() - j,
    {
        let shown = format_decimal(j as u64 + 1);
        let mut row = concat3(pointer_text(j == selected), shown.as_str(), ". ");
        row.append(items[j].label.as_str());
        assert(row@ == extra[j - listed]);
        push_row(&mut rows, row);
        j = j + 1;
        assert(text::texts(rows@) =~= so_far + extra.take(j - listed));
    }
    assert(extra.take(j - listed) =~= extra);
    if question.multiple {
        push_row(
            &mut rows,
            paint_faint("Space toggles · Enter confirms the selection · Esc to cancel"),
        );
    } else {
        push_row(
            &mut rows,
            paint_faint("Enter to select · ↑/↓ to navigate · 1-9 to jump · Esc to cancel"),
        );
    }
    rows
}

// ---------------------------------------------------------------------------
// Skills
// ---------------------------------------------------------------------------

/// The mark of a skill: held back, on or off.
pub open spec fn skill_mark(row: SkillRow, active: Seq<Seq<char>>) -> Seq<char> {
    if row.locked {
        "× "@
    } else if active.contains(row.name@) {
        "● "@
    } else {
        "○ "@
    }
}

/// The row of a skill.
pub open spec fn skill_row(
    row: SkillRow,
    active: Seq<Seq<char>>,
    selected: bool,
) -> Seq<char> {
    pointer(selected) + skill_mark(row, active) + row.name@ + widgets::faint(
        " · "@ + skills::origin(row) + " · ~"@ + text::decimal(row.tokens as nat) + " tok — "@
            + row.description@,
    )
}

/// The rows of skills.
pub open spec fn skill_rows_of(
    rows: Seq<SkillRow>,
    active: Seq<Seq<char>>,
    selected: int,
) -> Seq<Seq<char>> {
    Seq::new(rows.len(), |i: int| skill_row(rows[i], active, i == selected))
}

/// The frame of the skills picker: how many match, the search, the rows, and
/// the keys.
pub open spec fn skill_frame(
    filter: Seq<char>,
    rows: Seq<SkillRow>,
    active: Seq<Seq<char>>,
    selected: int,
    total: nat,
) -> Seq<Seq<char>> {
    (seq![
        widgets::accented("Skills"@) + widgets::faint(
            " · "@ + text::decimal(rows.len()) + " of "@ + text::decimal(total),
        ),
        "search: "@ + filter,
    ] + skill_rows_of(rows, active, selected)).push(
        widgets::faint(
            "type to search · enter/space toggle · × is managed by /marketplace · esc to close"@,
        ),
    )
}

/// Draws the skills picker.
pub fn render_skill_picker(
    filter: &str,
    rows: &Vec<SkillRow>,
    active: &Vec<LoadedSkill>,
    selected: usize,
    total: usize,
) -> (r: Vec<String>)
    ensures
        text::texts(r@) == skill_frame(
            filter@,
            rows@,
            skills::active_names(active@),
            selected as int,
            total as nat,
        ),
{
    let ghost names = skills::active_names(active@);
    let ghost all = skill_rows_of(rows@, names, selected as int);
    let head = paint_accent("Skills");
    let n = format_decimal(rows.len() as u64);
    let t = format_decimal(total as u64);
    let mut counts = concat3(" · ", n.as_str(), " of ");
    counts.append(t.as_str());
    let faint = paint_faint(counts.as_str());
    let mut out: Vec<String> = Vec::new();
    out.push(concat2(head.as_str(), faint.as_str()));
    out.push(concat2("search: ", filter));
    let ghost first = text::texts(out@);
    assert(first =~= seq![
        widgets::accented("Skills"@) + widgets::faint(
            " · "@ + text::decimal(rows@.len()) + " of "@ + text::decimal(total as nat),
        ),
        "search: "@ + filter@,
    ]);
    assert(first =~= first + all.take(0));
    let mut i: usize = 0;
    while i < rows.len()
        invariant
            i <= rows.len(),
            names == skills::active_names(active@),
            all == skill_rows_of(rows@, names, selected as int),
            text::texts(out@) == first + all.take(i as int),
        decreases rows.len() - i,
    {
        let row = &rows[i];
        let mark = if row.locked {
            "× "
        } else if is_active(active, row.name.as_str()) {
            "● "
        } else {
            "○ "
        };
        let mut line = concat3(pointer_text(i == selected), mark, row.name.as_str());
        let from = skill_origin(row);
        let tokens = format_decimal(row.tokens as u64);
        let mut detail = concat3(" · ", from.as_str(), " · ~");
        detail.append(tokens.as_str());
        detail.append(" tok — ");
        detail.append(row.description.as_str());
        let shown = paint_faint(detail.as_str());
        line.append(shown.as_str());
        assert(line@ == all[i as int]);
        push_row(&mut out, line);
        i = i + 1;
        assert(text::texts(out@) =~= first + all.take(i as int));
    }
    assert(all.take(i as int) =~= all);
    push_row(
        &mut out,
        paint_faint(
            "type to search · enter/space toggle · × is managed by /marketplace · esc to close",
        ),
    );
    out
}

// ---------------------------------------------------------------------------
// The working line
// ---------------------------------------------------------------------------

/// The line above the composer while a run is live: a spinner frame and how
/// long it has worked.
pub open spec fn working_line(frame: Seq<char>, elapsed_ms: nat) -> Seq<char> {
    frame + " working for "@ + jobs::clock_text(elapsed_ms)
}

pub fn render_working_line(frame: &str, elapsed_ms: u64) -> (r: String)
    ensures
        r@ == working_line(frame@, elapsed_ms as nat),
{
    let shown = clock(elapsed_ms);
    concat3(frame, " working for ", shown.as_str())
}

// ---------------------------------------------------------------------------
// The composer
// ---------------------------------------------------------------------------

/// Shows text in reverse.
pub const INVERT: &'static str = "\u{1b}[7m";

/// Ends text in reverse.
pub const INVERT_END: &'static str = "\u{1b}[27m";

/// What stands before a line of the composer.
pub open spec fn prompt(line: int) -> Seq<char> {
    if line == 0 {
        "❯ "@
    } else {
        "  "@
    }
}

/// A line of the composer; the character under the cursor, or a blank behind
/// the last one, shows in reverse.
pub open spec fn composer_line(
    s: Seq<char>,
    range: (int, int),
    line: int,
    cursor_line: int,
    cursor: int,
) -> Seq<char> {
    if line == cursor_line {
        if cursor < range.1 {
            prompt(line) + s.subrange(range.0, cursor) + INVERT@ + s.subrange(cursor, cursor + 1)
                + INVERT_END@ + s.subrange(cursor + 1, range.1)
        } else {
            prompt(line) + s.subrange(range.0, range.1) + INVERT@ + " "@ + INVERT_END@
        }
    } else {
        prompt(line) + s.subrange(range.0, range.1)
    }
}

/// The lines of the composer's text.
pub open spec fn composer_body(s: Seq<char>, width: nat, cursor: int) -> Seq<Seq<char>> {
    let lines = layout::line_ranges(s, width, 0);
    let at = layout::cursor_position(s, width, cursor).0;
    Seq::new(lines.len(), |i: int| composer_line(s, lines[i], i, at, cursor))
}

/// The rows of the messages that wait for the next run.
pub open spec fn queue_rows(queued: Seq<Seq<char>>) -> Seq<Seq<char>> {
    Seq::new(
        queued.len(),
        |i: int|
            widgets::faint("queued "@ + text::decimal((i + 1) as nat) + ": "@) + queued[i],
    )
}

/// A menu row: a name, and what it is.
pub open spec fn menu_row(name: Seq<char>, detail: Seq<char>, selected: bool) -> Seq<char> {
    if detail.len() == 0 {
        pointer(selected) + name
    } else {
        pointer(selected) + name + widgets::faint(" — "@ + detail)
    }
}

/// The rows of the open menu: commands, else skills, else files.
pub open spec fn menu_rows(c: ComposerModel) -> Seq<Seq<char>> {
    let commands = slash::command_menu(c.text);
    if commands.len() > 0 {
        Seq::new(
            commands.len(),
            |i: int| menu_row("/"@ + commands[i], Seq::empty(), i == c.selected_suggestion),
        )
    } else if c.skills.len() > 0 {
        Seq::new(
            c.skills.len(),
            |i: int| menu_row("/"@ + c.skills[i].0, c.skills[i].1, i == c.selected_skill),
        )
    } else {
        Seq::new(
            c.mentions.len(),
            |i: int| menu_row("@"@ + c.mentions[i], Seq::empty(), i == c.selected_suggestion),
        )
    }
}

/// The upper edge of the composer, captioned with the session's name.
pub open spec fn composer_edge(cols: nat, name: Option<Seq<char>>) -> Seq<char> {
    match name {
        Some(n) => "── "@ + n + " "@ + text::repeated('─', cols),
        None => text::repeated('─', cols),
    }
}

/// The rows that count attached images.
pub open spec fn attachment_rows(attachments: nat) -> Seq<Seq<char>> {
    if attachments == 0 {
        Seq::empty()
    } else {
        seq![widgets::faint(text::decimal(attachments) + " image(s) attached"@)]
    }
}

/// The composer: what is queued, the menu, and the framed text.
pub open spec fn composer_frame(
    c: ComposerModel,
    queued: Seq<Seq<char>>,
    attachments: nat,
    name: Option<Seq<char>>,
    cols: nat,
) -> Seq<Seq<char>> {
    (queue_rows(queued) + menu_rows(c) + seq![composer_edge(cols, name)] + composer_body(
        c.text,
        layout::body_columns(cols),
        c.cursor,
    ) + attachment_rows(attachments)).push(text::repeated('─', cols))
}

fn draw_menu_row(name: &str, detail: &str, selected: bool) -> (r: String)
    ensures
        r@ == menu_row(name@, detail@, selected),
{
    let mut row = concat2(pointer_text(selected), name);
    if detail.unicode_len() > 0 {
        let plain = concat2(" — ", detail);
        let shown = paint_faint(plain.as_str());
        row.append(shown.as_str());
    }
    row
}

fn draw_menu(c: &Composer) -> (r: Vec<String>)
    ensures
        text::texts(r@) == menu_rows(c@),
{
    proof {
        reveal_strlit("");
        assert(""@ =~= Seq::<char>::empty());
    }
    let commands = get_slash_command_suggestions(c.text.as_str());
    let ghost offered = slash::command_menu(c@.text);
    let ghost all = menu_rows(c@);
    assert(commands@.len() == offered.len());
    let mut rows: Vec<String> = Vec::new();
    assert(text::texts(rows@) =~= all.take(0));
    let mut i: usize = 0;
    if commands.len() > 0 {
        while i < commands.len()
            invariant
                i <= commands.len(),
                offered == text::texts(commands@),
                offered == slash::command_menu(c@.text),
                offered.len() > 0,
                all == menu_rows(c@),
                ""@ == Seq::<char>::empty(),
                text::texts(rows@) == all.take(i as int),
            decreases commands.len() - i,
        {
            let name = concat2("/", commands[i].as_str());
            assert(offered[i as int] == commands@[i as int]@);
            push_row(
                &mut rows,
                draw_menu_row(name.as_str(), "", i == c.selected_suggestion_index),
            );
            assert(all.take(i + 1) =~= all.take(i as int).push(all[i as int]));
            i = i + 1;
        }
    } else if c.skill_suggestions.len() > 0 {
        while i < c.skill_suggestions.len()
            invariant
                i <= c.skill_suggestions.len(),
                slash::command_menu(c@.text).len() == 0,
                c@.skills.len() > 0,
                all == menu_rows(c@),
                text::texts(rows@) == all.take(i as int),
            decreases c.skill_suggestions.len() - i,
        {
            let name = concat2("/", c.skill_suggestions[i].0.as_str());
            push_row(
                &mut rows,
                draw_menu_row(
                    name.as_str(),
                    c.skill_suggestions[i].1.as_str(),
                    i == c.selected_skill_index,
                ),
            );
            assert(all.take(i + 1) =~= all.take(i as int).push(all[i as int]));
            i = i + 1;
        }
    } else {
        while i < c.mention_suggestions.len()
            invariant
                i <= c.mention_suggestions.len(),
                slash::command_menu(c@.text).len() == 0,
                c@.skills.len() == 0,
                ""@ == Seq::<char>::empty(),
                all == menu_rows(c@),
                text::texts(rows@) == all.take(i as int),
            decreases c.mention_suggestions.len() - i,
        {
            let name = concat2("@", c.mention_suggestions[i].as_str());
            push_row(
                &mut rows,
                draw_menu_row(name.as_str(), "", i == c.selected_suggestion_index),
            );
            assert(all.take(i + 1) =~= all.take(i as int).push(all[i as int]));
            i = i + 1;
        }
    }
    assert(all.take(i as int) =~= all);
    rows
}

fn draw_body(s: &str, width: usize, cursor: usize) -> (r: Vec<String>)
    requires
        cursor <= s@.len(),
    ensures
        text::texts(r@) == composer_body(s@, width as nat, cursor as int),
{
    let x = chars_of(s);
    let lines = composer_lines(s, width);
    let ghost ranges = layout::range_models(lines@);
    let (at, column) = composer_cursor_position(s, width, cursor);
    let ghost all = composer_body(s@, width as nat, cursor as int);
    let mut rows: Vec<String> = Vec::new();
    let mut i: usize = 0;
    assert(text::texts(rows@) =~= all.take(0));
    while i < lines.len()
        invariant
            i <= lines.len(),
            x@ == s@,
            cursor <= s@.len(),
            ranges == layout::range_models(lines@),
            ranges == layout::line_ranges(s@, width as nat, 0),
            (at as int, column as int) == layout::cursor_position(s@, width as nat, cursor as int),
            all == composer_body(s@, width as nat, cursor as int),
            text::texts(rows@) == all.take(i as int),
        decreases lines.len() - i,
    {
        proof {
            layout::law_lines_lie_in_the_text(s@, width as nat, i as int);
            layout::law_the_cursor_stands_on_a_line(s@, width as nat, cursor as int);
        }
        let start: usize = lines[i].start;
        let end: usize = lines[i].end;
        assert(ranges[i as int] == (start as int, end as int));
        let mut row = if i == 0 {
            "❯ ".to_string()
        } else {
            "  ".to_string()
        };
        if i == at {
            assert(start <= cursor);
            if cursor < end {
                let head = sub_string(&x, start, cursor);
                let under = sub_string(&x, cursor, cursor + 1);
                let tail = sub_string(&x, cursor + 1, end);
                row.append(head.as_str());
                row.append(INVERT);
                row.append(under.as_str());
                row.append(INVERT_END);
                row.append(tail.as_str());
            } else {
                let whole = sub_string(&x, start, end);
                row.append(whole.as_str());
                row.append(INVERT);
                row.append(" ");
                row.append(INVERT_END);
            }
        } else {
            let whole = sub_string(&x, start, end);
            row.append(whole.as_str());
        }
        assert(row@ == all[i as int]);
        push_row(&mut rows, row);
        assert(all.take(i + 1) =~= all.take(i as int).push(all[i as int]));
        i = i + 1;
    }
    assert(all.take(i as int) =~= all);
    rows
}

/// Draws the composer.
pub fn render_composer(
    c: &Composer,
    queued: &Vec<String>,
    attachments: usize,
    session_name: &Option<String>,
    cols: usize,
) -> (r: Vec<String>)
    requires
        c@.wf(),
    ensures
        text::texts(r@) == composer_frame(
            c@,
            text::texts(queued@),
            attachments as nat,
            text::opt_text(*session_name),
            cols as nat,
        ),
{
    let ghost waiting = text::texts(queued@);
    let ghost all = queue_rows(waiting);
    let mut rows: Vec<String> = Vec::new();
    let mut i: usize = 0;
    assert(text::texts(rows@) =~= all.take(0));
    while i < queued.len()
        invariant
            i <= queued.len(),
            waiting == text::texts(queued@),
            all == queue_rows(waiting),
            text::texts(rows@) == all.take(i as int),
        decreases queued.len() - i,
    {
        let n = format_decimal(i as u64 + 1);
        let label = concat3("queued ", n.as_str(), ": ");
        let shown = paint_faint(label.as_str());
        push_row(&mut rows, concat2(shown.as_str(), queued[i].as_str()));
        assert(all.take(i + 1) =~= all.take(i as int).push(all[i as int]));
        i = i + 1;
    }
    assert(all.take(i as int) =~= all);
    let mut menu = draw_menu(c);
    proof {
        text::lemma_texts_add(rows@, menu@);
    }
    rows.append(&mut menu);
    let line = repeat_char('─', cols);
    let edge = match session_name {
        Some(name) => {
            let mut e = concat3("── ", name.as_str(), " ");
            e.append(line.as_str());
            e
        },
        None => repeat_char('─', cols),
    };
    assert(edge@ == composer_edge(cols as nat, text::opt_text(*session_name)));
    let ghost before = text::texts(rows@);
    push_row(&mut rows, edge);
    assert(text::texts(rows@) =~= before + seq![
        composer_edge(cols as nat, text::opt_text(*session_name)),
    ]);
    let mut body = draw_body(c.text.as_str(), composer_text_width(cols), c.cursor);
    proof {
        text::lemma_texts_add(rows@, body@);
    }
    rows.append(&mut body);
    let ghost so_far = text::texts(rows@);
    if attachments > 0 {
        let n = format_decimal(attachments as u64);
        let plain = concat2(n.as_str(), " image(s) attached");
        push_row(&mut rows, paint_faint(plain.as_str()));
    }
    assert(text::texts(rows@) =~= so_far + attachment_rows(attachments as nat));
    push_row(&mut rows, line);
    rows
}

// ---------------------------------------------------------------------------
// The status bar
// ---------------------------------------------------------------------------

/// What the status bar says.
pub struct StatusBarProps<'a> {
    pub active_skills: &'a Vec<LoadedSkill>,
    pub cwd: &'a str,
    pub running: bool,
    pub running_detail: Option<&'a str>,
    pub session_id: &'a str,
    pub monitors: usize,
    pub shells: usize,
}

/// What the status bar says of the run.
pub open spec fn run_state(running: bool, detail: Option<Seq<char>>) -> Seq<char> {
    if running {
        match detail {
            Some(d) => "running · "@ + d,
            None => "running"@,
        }
    } else {
        "idle"@
    }
}

/// The parts of the status bar: the session, the background work, the run, the
/// skills and the directory.
pub open spec fn status_parts(
    session_id: Seq<char>,
    counter: Option<Seq<char>>,
    state: Seq<char>,
    skill_names: Seq<Seq<char>>,
    cwd: Seq<char>,
) -> Seq<Seq<char>> {
    let head = seq![" session "@ + text::first_chars(session_id, 8)];
    let counted = match counter {
        Some(c) => head.push(c),
        None => head,
    };
    let stated = counted.push(state);
    let skilled = if skill_names.len() == 0 {
        stated
    } else {
        stated.push("skills: "@ + text::joined(skill_names, ", "@))
    };
    skilled.push(cwd)
}

/// The status bar.
pub open spec fn status_bar(
    session_id: Seq<char>,
    counter: Option<Seq<char>>,
    state: Seq<char>,
    skill_names: Seq<Seq<char>>,
    cwd: Seq<char>,
) -> Seq<char> {
    text::joined(status_parts(session_id, counter, state, skill_names, cwd), " · "@)
}

/// Draws the status bar.
pub fn render_status_bar(props: &StatusBarProps<'_>) -> (r: Vec<String>)
    ensures
        text::texts(r@) == seq![
            status_bar(
                props.session_id@,
                jobs::counter(props.monitors as nat, props.shells as nat),
                run_state(
                    props.running,
                    match props.running_detail {
                        Some(d) => Some(d@),
                        None => None,
                    },
                ),
                skills::active_names(props.active_skills@),
                props.cwd@,
            ),
        ],
{
    let mut parts: Vec<String> = Vec::new();
    let short = take_chars(props.session_id, 8);
    parts.push(concat2(" session ", short.as_str()));
    assert(text::texts(parts@) =~= seq![" session "@ + text::first_chars(props.session_id@, 8)]);
    match background_counter(props.monitors, props.shells) {
        Some(counts) => {
            push_row(&mut parts, counts);
        },
        None => {},
    }
    let state = if props.running {
        match props.running_detail {
            Some(d) => concat2("running · ", d),
            None => "running".to_string(),
        }
    } else {
        "idle".to_string()
    };
    push_row(&mut parts, state);
    if props.active_skills.len() > 0 {
        let names = names_of(props.active_skills);
        let joined = join_texts(&names, ", ");
        push_row(&mut parts, concat2("skills: ", joined.as_str()));
    }
    push_row(&mut parts, props.cwd.to_string());
    let mut rows: Vec<String> = Vec::new();
    rows.push(join_texts(&parts, " · "));
    assert(text::texts(rows@) =~= seq![rows@[0]@]);
    rows
}

fn names_of(active: &Vec<LoadedSkill>) -> (r: Vec<String>)
    ensures
        text::texts(r@) == skills::active_names(active@),
{
    let ghost all = skills::active_names(active@);
    let mut out: Vec<String> = Vec::new();
    let mut i: usize = 0;
    assert(text::texts(out@) =~= all.take(0));
    while i < active.len()
        invariant
            i <= active.len(),
            all == skills::active_names(active@),
            text::texts(out@) == all.take(i as int),
        decreases active.len() - i,
    {
        push_row(&mut out, active[i].name.clone());
        assert(all.take(i + 1) =~= all.take(i as int).push(all[i as int]));
        i = i + 1;
    }
    assert(all.take(i as int) =~= all);
    out
}

// ---------------------------------------------------------------------------
// Laws
// ---------------------------------------------------------------------------

/// Every row of a picker is shown, in order, with its label and what it is; the
/// cursor stands before the selected one and before no other.
pub proof fn law_every_row_of_a_picker_is_shown(
    title: Seq<char>,
    items: Seq<ItemModel>,
    selected: int,
    i: int,
)
    requires
        0 <= i < items.len(),
    ensures
        ({
            let frame = picker_frame(title, items, selected);
            let head = (if i == selected {
                "❯ "@
            } else {
                "  "@
            }) + items[i].label;
            &&& frame.len() == items.len() + 2
            &&& frame[0] == widgets::accented(title)
            &&& items[i].detail is None ==> frame[i + 1] == head
            &&& items[i].detail matches Some(d) ==> frame[i + 1] == head + widgets::faint(
                " — "@ + d,
            )
        }),
{
}

/// The row of an option: the cursor where it is selected, its mark where
/// several may be marked, its number and its label.
pub proof fn law_an_option_shows_its_mark_and_number(
    label: Seq<char>,
    i: int,
    selected: int,
    marks: Seq<bool>,
)
    requires
        0 <= i,
    ensures
        ({
            let cursor = if i == selected {
                "❯ "@
            } else {
                "  "@
            };
            let told = text::decimal((i + 1) as nat) + ". "@ + label;
            &&& marks.len() == 0 ==> option_row(label, i, selected, marks) == cursor + told
            &&& i < marks.len() && marks[i] ==> option_row(label, i, selected, marks) == cursor
                + "[x] "@ + told
            &&& i < marks.len() && !marks[i] ==> option_row(label, i, selected, marks) == cursor
                + "[ ] "@ + told
        }),
{
    reveal_strlit("");
    let cursor = pointer(i == selected);
    let n = text::decimal((i + 1) as nat);
    let told = n + ". "@ + label;
    assert(cursor + ""@ =~= cursor);
    assert(cursor + n + ". "@ + label =~= cursor + told);
    assert(cursor + "[x] "@ + n + ". "@ + label =~= cursor + "[x] "@ + told);
    assert(cursor + "[ ] "@ + n + ". "@ + label =~= cursor + "[ ] "@ + told);
}

/// The marks shown are those that were set, on a question that takes several;
/// on any other there are none.
pub proof fn law_the_marks_shown_are_those_set(picks: Seq<int>, n: nat, i: int)
    requires
        0 <= i < n,
    ensures
        marks_of(picks, n, true).len() == n,
        marks_of(picks, n, true)[i] <==> picks.contains(i),
        marks_of(picks, n, false).len() == 0,
{
}

/// The options of a question follow each other, each with what it means.
pub proof fn law_every_option_is_shown(
    items: Seq<ItemModel>,
    n: nat,
    selected: int,
    marks: Seq<bool>,
)
    requires
        n < items.len(),
    ensures
        ({
            let row = option_row(items[n as int].label, n as int, selected, marks);
            let before = option_blocks(items, n, selected, marks);
            let after = option_blocks(items, n + 1, selected, marks);
            &&& items[n as int].detail is None ==> after == before + seq![row]
            &&& items[n as int].detail matches Some(d) ==> after == before + seq![
                row,
                widgets::faint("     "@ + d),
            ]
        }),
        option_blocks(items, 0, selected, marks) == Seq::<Seq<char>>::empty(),
{
}

/// A question shows its header, how far the survey is, and its text, then every
/// option and every row behind them.
pub proof fn law_a_question_shows_its_text(
    q: survey::QuestionModel,
    items: Seq<ItemModel>,
    picks: Seq<int>,
    selected: int,
    number: int,
    total: int,
)
    ensures
        ({
            let frame = survey_frame(q, items, picks, selected, number, total);
            &&& frame.len() >= 3
            &&& frame[0] == widgets::accented(q.header) + widgets::faint(
                " · question "@ + text::decimal(number as nat) + " of "@ + text::decimal(
                    total as nat,
                ),
            )
            &&& frame[1] == q.question
            &&& q.multiple ==> frame.last() == widgets::faint(
                "Space toggles · Enter confirms the selection · Esc to cancel"@,
            )
            &&& !q.multiple ==> frame.last() == widgets::faint(
                "Enter to select · ↑/↓ to navigate · 1-9 to jump · Esc to cancel"@,
            )
        }),
{
}

/// The row of a skill says whether it is held back, on or off, and what it is.
/// Every skill that the search keeps has its row.
pub proof fn law_a_skill_row_tells_its_state(
    filter: Seq<char>,
    rows: Seq<SkillRow>,
    active: Seq<Seq<char>>,
    selected: int,
    total: nat,
    i: int,
)
    requires
        0 <= i < rows.len(),
    ensures
        ({
            let row = rows[i];
            let frame = skill_frame(filter, rows, active, selected, total);
            let mark = if row.locked {
                "× "@
            } else if active.contains(row.name@) {
                "● "@
            } else {
                "○ "@
            };
            let cursor = if i == selected {
                "❯ "@
            } else {
                "  "@
            };
            &&& frame.len() == rows.len() + 3
            &&& frame[1] == "search: "@ + filter
            &&& frame[i + 2] == cursor + mark + row.name@ + widgets::faint(
                " · "@ + skills::origin(row) + " · ~"@ + text::decimal(row.tokens as nat)
                    + " tok — "@ + row.description@,
            )
        }),
{
}

/// The composer shows its text whole, line by line: only the line of the cursor
/// is shown otherwise, and there only the character under the cursor, in
/// reverse.
pub proof fn law_the_composer_shows_its_text(
    s: Seq<char>,
    range: (int, int),
    line: int,
    at: int,
    cursor: int,
)
    requires
        0 <= range.0 <= cursor,
        range.0 <= range.1 <= s.len(),
    ensures
        ({
            let start = if line == 0 {
                "❯ "@
            } else {
                "  "@
            };
            let shown = composer_line(s, range, line, at, cursor);
            &&& line != at ==> shown == start + s.subrange(range.0, range.1)
            &&& line == at && cursor >= range.1 ==> shown == start + s.subrange(range.0, range.1)
                + "\u{1b}[7m"@ + " "@ + "\u{1b}[27m"@
            &&& line == at && cursor < range.1 ==> shown == start + s.subrange(range.0, cursor)
                + "\u{1b}[7m"@ + seq![s[cursor]] + "\u{1b}[27m"@ + s.subrange(cursor + 1, range.1)
        }),
{
    if cursor < range.1 {
        assert(s.subrange(cursor, cursor + 1) =~= seq![s[cursor]]);
    }
}

/// Above the composer stand the messages that wait, in order and numbered, then
/// the open menu; below it how many images are attached.
pub proof fn law_the_composer_shows_what_waits(
    c: ComposerModel,
    queued: Seq<Seq<char>>,
    attachments: nat,
    name: Option<Seq<char>>,
    cols: nat,
    i: int,
)
    requires
        0 <= i < queued.len(),
    ensures
        ({
            let frame = composer_frame(c, queued, attachments, name, cols);
            let body = composer_body(c.text, layout::body_columns(cols), c.cursor);
            let n = queued.len() + menu_rows(c).len() as int;
            &&& frame[i] == widgets::faint("queued "@ + text::decimal((i + 1) as nat) + ": "@)
                + queued[i]
            &&& frame.len() == n + 1 + body.len() + (if attachments > 0 {
                1int
            } else {
                0int
            }) + 1
            &&& attachments > 0 ==> frame[n + 1 + body.len()] == widgets::faint(
                text::decimal(attachments) + " image(s) attached"@,
            )
        }),
{
}

/// The open menu shows its rows, in order: commands, else skills with what they
/// do, else paths; the cursor stands before the selected one.
pub proof fn law_the_open_menu_shows_its_rows(c: ComposerModel, i: int)
    ensures
        ({
            let commands = slash::command_menu(c.text);
            let rows = menu_rows(c);
            &&& rows.len() == c.menu_length()
            &&& 0 <= i < commands.len() ==> rows[i] == pointer(i == c.selected_suggestion) + ("/"@
                + commands[i])
            &&& commands.len() == 0 && 0 <= i < c.skills.len() && c.skills[i].1.len() > 0
                ==> rows[i] == pointer(i == c.selected_skill) + ("/"@ + c.skills[i].0)
                + widgets::faint(" — "@ + c.skills[i].1)
            &&& commands.len() == 0 && c.skills.len() == 0 && 0 <= i < c.mentions.len() ==> rows[i]
                == pointer(i == c.selected_suggestion) + ("@"@ + c.mentions[i])
        }),
        pointer(true) == "❯ "@,
        pointer(false) == "  "@,
{
}

/// The status bar names the session, counts what runs in the background, tells
/// the state of the run, names the skills that are on, and the directory.
pub proof fn law_the_status_bar_tells_the_state(
    id: Seq<char>,
    counter: Seq<char>,
    state: Seq<char>,
    skill_names: Seq<Seq<char>>,
    cwd: Seq<char>,
)
    ensures
        ({
            let session = " session "@ + text::first_chars(id, 8);
            let named = "skills: "@ + text::joined(skill_names, ", "@);
            &&& skill_names.len() > 0 ==> status_bar(id, Some(counter), state, skill_names, cwd)
                == text::joined(seq![session, counter, state, named, cwd], " · "@)
            &&& skill_names.len() == 0 ==> status_bar(id, Some(counter), state, skill_names, cwd)
                == text::joined(seq![session, counter, state, cwd], " · "@)
            &&& skill_names.len() == 0 ==> status_bar(id, None, state, skill_names, cwd)
                == text::joined(seq![session, state, cwd], " · "@)
        }),
        run_state(false, Some(state)) == "idle"@,
        run_state(true, None) == "running"@,
        run_state(true, Some(state)) == "running · "@ + state,
{
    let session = " session "@ + text::first_chars(id, 8);
    let named = "skills: "@ + text::joined(skill_names, ", "@);
    assert(status_parts(id, Some(counter), state, skill_names, cwd) =~= if skill_names.len() > 0 {
        seq![session, counter, state, named, cwd]
    } else {
        seq![session, counter, state, cwd]
    });
    if skill_names.len() == 0 {
        assert(status_parts(id, None, state, skill_names, cwd) =~= seq![session, state, cwd]);
    }
}

/// How long a run has worked is told behind the spinner.
pub proof fn law_a_run_tells_how_long_it_works(frame: Seq<char>, ms: nat)
    ensures
        working_line(frame, ms) == frame + " working for "@ + jobs::clock_text(ms),
{
}

/// The rows behind the options of a question are numbered on, in order, and the
/// first of them is the first special row.
pub proof fn law_the_rows_behind_the_options_are_numbered_on(
    items: Seq<ItemModel>,
    from: int,
    selected: int,
    i: int,
)
    requires
        0 <= from <= i < items.len(),
    ensures
        extra_rows(items, from, selected).len() == items.len() - from,
        i == selected ==> extra_rows(items, from, selected)[i - from] == "❯ "@ + text::decimal(
            (i + 1) as nat,
        ) + ". "@ + items[i].label,
        i != selected ==> extra_rows(items, from, selected)[i - from] == "  "@ + text::decimal(
            (i + 1) as nat,
        ) + ". "@ + items[i].label,
{
}

/// The special rows of a question begin at the first one whose id begins with
/// the mark that no option has; every row before it is an option.
pub proof fn law_the_special_rows_begin_at_the_first_marked(items: Seq<ItemModel>, at: int)
    requires
        0 <= at <= items.len(),
        forall|j: int|
            0 <= j < at ==> (#[trigger] items[j]).id.len() == 0 || items[j].id[0] != '\u{0}',
        at < items.len() ==> items[at].id.len() > 0 && items[at].id[0] == '\u{0}',
    ensures
        first_extra(items, 0) == at,
{
    lemma_first_extra(items, 0, at);
}

proof fn lemma_first_extra(items: Seq<ItemModel>, from: int, at: int)
    requires
        0 <= from <= at <= items.len(),
        forall|j: int|
            from <= j < at ==> (#[trigger] items[j]).id.len() == 0 || items[j].id[0] != '\u{0}',
        at < items.len() ==> items[at].id.len() > 0 && items[at].id[0] == '\u{0}',
    ensures
        first_extra(items, from) == at,
    decreases at - from,
{
    if from < at {
        assert(items[from].id.len() == 0 || items[from].id[0] != '\u{0}');
        lemma_first_extra(items, from + 1, at);
    }
}

/// A question's frame is its head, its options, the rows behind them and its
/// keys, in this order.
pub proof fn law_a_question_is_shown_whole(
    q: survey::QuestionModel,
    items: Seq<ItemModel>,
    picks: Seq<int>,
    selected: int,
    number: int,
    total: int,
)
    ensures
        ({
            let frame = survey_frame(q, items, picks, selected, number, total);
            let listed = first_extra(items, 0);
            let marks = marks_of(picks, listed as nat, q.multiple);
            frame == seq![frame[0], frame[1]] + option_blocks(
                items,
                listed as nat,
                selected,
                marks,
            ) + extra_rows(items, listed, selected) + seq![frame.last()]
        }),
{
    let frame = survey_frame(q, items, picks, selected, number, total);
    let listed = first_extra(items, 0);
    let marks = marks_of(picks, listed as nat, q.multiple);
    assert(frame =~= seq![frame[0], frame[1]] + option_blocks(
        items,
        listed as nat,
        selected,
        marks,
    ) + extra_rows(items, listed, selected) + seq![frame.last()]);
}

/// The composer's upper edge names the session where it has a name, and is as
/// wide as the terminal where it has none.
pub proof fn law_the_composers_edge_names_the_session(cols: nat, name: Seq<char>)
    ensures
        ("── "@ + name + " "@).is_prefix_of(composer_edge(cols, Some(name))),
        composer_edge(cols, None) == Seq::new(cols, |i: int| '─'),
{
    let head = "── "@ + name + " "@;
    assert(head =~= composer_edge(cols, Some(name)).take(head.len() as int));
    assert(composer_edge(cols, None) =~= Seq::new(cols, |i: int| '─'));
}

} // verus!
