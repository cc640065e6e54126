//! Slash commands: their table, the grammar of a typed command, the menu that
//! opens while one is typed, and the help text.

use vstd::prelude::*;
use crate::text;
use crate::text::{
    chars_of, concat2, join_texts, space, starts_with, sub_string, to_ascii_lower, trim,
};

verus! {

/// The names of the commands.
pub const SLASH_COMMAND_NAMES: [&'static str; 20] = [
    "help",
    "model",
    "toolmodel",
    "prompt",
    "new",
    "resume",
    "sessions",
    "rename",
    "state",
    "jobs",
    "skills",
    "skill",
    "mcp",
    "marketplace",
    "plugin",
    "roles",
    "config",
    "env",
    "praeparare",
    "quit",
];

/// The arguments that each command takes, empty where it takes none.
pub const SLASH_COMMAND_ARGS: [&'static str; 20] = [
    "",
    "",
    "",
    "",
    "",
    "[session]",
    "",
    "[name]",
    "",
    "[row]",
    "",
    "<name>",
    "[server,...|off|roles]",
    "[add|remove|update|list]",
    "<enable|disable> <key>",
    "",
    "",
    "[KEY=value]",
    "[context]",
    "",
];

/// What each command does.
pub const SLASH_COMMAND_DESCRIPTIONS: [&'static str; 20] = [
    "list the commands",
    "pick the model profile",
    "pick the tool-calling model profile",
    "pick the system prompt profile",
    "start a new session",
    "resume a session",
    "list the recorded sessions",
    "rename this session",
    "show the harness state",
    "browse the background jobs",
    "browse and toggle skills",
    "toggle one skill",
    "list or toggle MCP servers for this run",
    "manage skill marketplaces",
    "enable or disable a plugin",
    "list the roles",
    "show the configuration",
    "list or set env vars",
    "run the pre-PR pass",
    "exit",
];

/// One command of the table.
#[derive(Debug, PartialEq)]
pub struct SlashCommandSpec {
    pub name: String,
    pub args: Option<String>,
    pub description: String,
}

/// The names of the commands, in the order of the table.
pub open spec fn command_names() -> Seq<Seq<char>> {
    Seq::new(20, |i: int| SLASH_COMMAND_NAMES@[i]@)
}

/// What a line of the table says.
pub open spec fn is_command_at(c: SlashCommandSpec, i: int) -> bool {
    &&& c.name@ == SLASH_COMMAND_NAMES@[i]@
    &&& text::opt_text(c.args) == (if SLASH_COMMAND_ARGS@[i]@.len() == 0 {
        None
    } else {
        Some(SLASH_COMMAND_ARGS@[i]@)
    })
    &&& c.description@ == SLASH_COMMAND_DESCRIPTIONS@[i]@
}

/// The table of commands.
pub fn slash_commands() -> (r: Vec<SlashCommandSpec>)
    ensures
        r@.len() == 20,
        forall|i: int| 0 <= i < 20 ==> is_command_at(#[trigger] r@[i], i),
{
    let mut out: Vec<SlashCommandSpec> = Vec::new();
    let mut i: usize = 0;
    while i < 20
        invariant
            i <= 20,
            out@.len() == i,
            forall|k: int| 0 <= k < i ==> is_command_at(#[trigger] out@[k], k),
        decreases 20 - i,
    {
        let args = SLASH_COMMAND_ARGS[i];
        out.push(
            SlashCommandSpec {
                name: SLASH_COMMAND_NAMES[i].to_string(),
                args: if args.unicode_len() == 0 {
                    None
                } else {
                    Some(args.to_string())
                },
                description: SLASH_COMMAND_DESCRIPTIONS[i].to_string(),
            },
        );
        assert(is_command_at(out@[i as int], i as int));
        i = i + 1;
    }
    out
}

/// The names of the commands.
pub fn slash_names() -> (r: Vec<String>)
    ensures
        text::texts(r@) == command_names(),
{
    let mut out: Vec<String> = Vec::new();
    let mut i: usize = 0;
    while i < 20
        invariant
            i <= 20,
            out@.len() == i,
            forall|k: int| 0 <= k < i ==> #[trigger] out@[k]@ == SLASH_COMMAND_NAMES@[k]@,
        decreases 20 - i,
    {
        out.push(SLASH_COMMAND_NAMES[i].to_string());
        i = i + 1;
    }
    assert(text::texts(out@) =~= command_names());
    out
}

// ---------------------------------------------------------------------------
// The grammar
// ---------------------------------------------------------------------------

/// A character of a command name.
pub open spec fn is_name_char(c: char) -> bool {
    ('a' <= c <= 'z') || ('A' <= c <= 'Z') || c == '-'
}

fn name_char(c: char) -> (r: bool)
    ensures
        r == is_name_char(c),
{
    ('a' <= c && c <= 'z') || ('A' <= c && c <= 'Z') || c == '-'
}

/// How many name characters `s` starts with.
pub open spec fn name_run(s: Seq<char>) -> nat
    decreases s.len(),
{
    if s.len() > 0 && is_name_char(s[0]) {
        1 + name_run(s.skip(1))
    } else {
        0
    }
}

/// The name and the arguments of a typed command: a slash, a name, and either
/// the end or white space behind it.
pub open spec fn parsed_command(typed: Seq<char>) -> Option<(Seq<char>, Seq<char>)> {
    let s = text::trimmed(typed);
    if s.len() == 0 || s[0] != '/' {
        None
    } else {
        let rest = s.skip(1);
        let n = name_run(rest);
        if n == 0 || (n < rest.len() && !text::is_space(rest[n as int])) {
            None
        } else {
            Some((text::ascii_lowered(rest.take(n as int)), text::trimmed(rest.skip(n as int))))
        }
    }
}

/// A typed command.
#[derive(Debug, PartialEq)]
pub struct SlashCommand {
    pub name: String,
    pub args: String,
}

/// Parses a typed command. Names are case-insensitive; anything else that
/// begins with a slash is no command.
pub fn parse_slash_command(typed: &str) -> (r: Option<SlashCommand>)
    ensures
        match r {
            Some(c) => parsed_command(typed@) == Some((c.name@, c.args@)),
            None => parsed_command(typed@) is None,
        },
{
    let trimmed = trim(typed);
    let x = chars_of(trimmed.as_str());
    if x.len() == 0 || x[0] != '/' {
        return None;
    }
    let ghost rest = x@.skip(1);
    let mut i: usize = 1;
    while i < x.len() && name_char(x[i])
        invariant
            1 <= i <= x.len(),
            rest == x@.skip(1),
            name_run(rest) == (i - 1) + name_run(x@.skip(i as int)),
        decreases x.len() - i,
    {
        assert(x@.skip(i as int)[0] == x@[i as int]);
        assert(x@.skip(i as int).skip(1) =~= x@.skip(i + 1));
        i = i + 1;
    }
    assert(i < x.len() ==> x@.skip(i as int)[0] == x@[i as int]);
    assert(name_run(rest) == i - 1);
    if i == 1 || (i < x.len() && !space(x[i])) {
        assert(i < x.len() ==> rest[i - 1] == x@[i as int]);
        return None;
    }
    let raw = sub_string(&x, 1, i);
    let tail = sub_string(&x, i, x.len());
    assert(raw@ =~= rest.take(i - 1));
    assert(tail@ =~= rest.skip(i - 1));
    assert(i < x.len() ==> rest[i - 1] == x@[i as int]);
    Some(SlashCommand { name: to_ascii_lower(raw.as_str()), args: trim(tail.as_str()) })
}

// ---------------------------------------------------------------------------
// The menu
// ---------------------------------------------------------------------------

/// Whether a text holds white space.
pub open spec fn has_space(s: Seq<char>) -> bool {
    exists|i: int| 0 <= i < s.len() && text::is_space(#[trigger] s[i])
}

pub fn any_space(s: &str) -> (r: bool)
    ensures
        r == has_space(s@),
{
    let x = chars_of(s);
    let mut i: usize = 0;
    while i < x.len()
        invariant
            i <= x.len(),
            x@ == s@,
            forall|k: int| 0 <= k < i ==> !text::is_space(#[trigger] x@[k]),
        decreases x.len() - i,
    {
        if space(x[i]) {
            assert(text::is_space(s@[i as int]));
            return true;
        }
        i = i + 1;
    }
    false
}

/// Whether `s` begins with `p`.
pub open spec fn begins_with(s: Seq<char>, p: Seq<char>) -> bool {
    text::occurs_at(s, p, 0)
}

/// The names that begin with a prefix, in their order.
pub open spec fn with_prefix(names: Seq<Seq<char>>, prefix: Seq<char>) -> Seq<Seq<char>>
    decreases names.len(),
{
    if names.len() == 0 {
        Seq::empty()
    } else if begins_with(names.last(), prefix) {
        with_prefix(names.drop_last(), prefix).push(names.last())
    } else {
        with_prefix(names.drop_last(), prefix)
    }
}

/// The commands that a text may become: of a slash and a token without white
/// space, those whose names begin with the token.
pub open spec fn command_menu(typed: Seq<char>) -> Seq<Seq<char>> {
    if typed.len() == 0 || typed[0] != '/' || has_space(typed) {
        Seq::empty()
    } else {
        with_prefix(command_names(), text::ascii_lowered(typed.skip(1)))
    }
}

/// The commands that a text may become.
pub fn get_slash_command_suggestions(typed: &str) -> (r: Vec<String>)
    ensures
        text::texts(r@) == command_menu(typed@),
{
    let x = chars_of(typed);
    let mut out: Vec<String> = Vec::new();
    assert(text::texts(out@) =~= Seq::empty());
    if x.len() == 0 || x[0] != '/' || any_space(typed) {
        return out;
    }
    let token = sub_string(&x, 1, x.len());
    assert(token@ =~= typed@.skip(1));
    let prefix = to_ascii_lower(token.as_str());
    let names = slash_names();
    let ghost all = text::texts(names@);
    let mut i: usize = 0;
    assert(text::texts(out@) =~= with_prefix(all.take(0), prefix@));
    while i < names.len()
        invariant
            i <= names.len(),
            all == text::texts(names@),
            text::texts(out@) == with_prefix(all.take(i as int), prefix@),
        decreases names.len() - i,
    {
        broadcast use text::lemma_texts_push;

        assert(all.take(i + 1).drop_last() =~= all.take(i as int));
        if starts_with(names[i].as_str(), prefix.as_str()) {
            out.push(names[i].clone());
        }
        i = i + 1;
    }
    assert(all.take(i as int) =~= all);
    out
}

// ---------------------------------------------------------------------------
// Help
// ---------------------------------------------------------------------------

/// The help line of a command.
pub open spec fn help_line(i: int) -> Seq<char> {
    let args = SLASH_COMMAND_ARGS@[i]@;
    let head = "  /"@ + SLASH_COMMAND_NAMES@[i]@;
    (if args.len() == 0 {
        head
    } else {
        head + " "@ + args
    }) + " \u{2014} "@ + SLASH_COMMAND_DESCRIPTIONS@[i]@
}

/// The help lines of the first `n` commands.
pub open spec fn help_lines(n: nat) -> Seq<Seq<char>> {
    Seq::new(n, |i: int| help_line(i))
}

/// What the composer's keys and shorthands do.
pub const COMPOSER_HELP: [&'static str; 12] = [
    "",
    "composer:",
    "  /<skill-name> \u{2014} enable a discovered skill for this session (idempotent; /skill <name> toggles)",
    "  /praeparare \u{2014} pre-PR pass: clean up, commit, merge the base branch, push, open a DRAFT PR",
    "  typing /<prefix> lists matching skills above the input; up/down select, tab completes, esc clears the line",
    "  @path or @path#12:40 \u{2014} inline a file (or directory tree) into the goal",
    "  ctrl+v \u{2014} attach the clipboard image; pasting an image path or data URL also attaches",
    "  while a goal runs \u{2014} enter queues the message for the next run (the queue is listed above the input); ctrl+s steers the running goal with what you typed, or with the whole queue when the input is empty ",
    "  /rename [name] \u{2014} rename this session (also while a goal runs; applies immediately instead of queuing)",
    "  /jobs (or ctrl+b) \u{2014} browse the background monitors and async shells; the status bar counts them while they run",
    "  esc \u{2014} clear the composer, or stop the running goal and its commands",
    "  ctrl+c \u{2014} exit",
];

/// The lines of the help text.
pub open spec fn help_rows() -> Seq<Seq<char>> {
    seq!["commands:"@] + help_lines(20) + Seq::new(12, |i: int| COMPOSER_HELP@[i]@)
}

/// The help text: every command of the table, then the composer's keys.
pub fn help_text() -> (r: String)
    ensures
        r@ == text::joined(help_rows(), "\n"@),
{
    let mut lines: Vec<String> = Vec::new();
    lines.push("commands:".to_string());
    let mut i: usize = 0;
    while i < 20
        invariant
            i <= 20,
            lines@.len() == 1 + i,
            lines@[0]@ == "commands:"@,
            forall|k: int| 0 <= k < i ==> #[trigger] lines@[k + 1]@ == help_line(k),
        decreases 20 - i,
    {
        let mut line = concat2("  /", SLASH_COMMAND_NAMES[i]);
        let args = SLASH_COMMAND_ARGS[i];
        if args.unicode_len() > 0 {
            line.append(" ");
            line.append(args);
        }
        line.append(" \u{2014} ");
        line.append(SLASH_COMMAND_DESCRIPTIONS[i]);
        assert(line@ == help_line(i as int));
        let ghost before = lines@;
        lines.push(line);
        assert forall|k: int| 0 <= k < i + 1 implies #[trigger] lines@[k + 1]@ == help_line(k) by {
            if k < i {
                assert(lines@[k + 1] == before[k + 1]);
            }
        }
        i = i + 1;
    }
    let mut j: usize = 0;
    while j < 12
        invariant
            j <= 12,
            lines@.len() == 21 + j,
            lines@[0]@ == "commands:"@,
            forall|k: int| 0 <= k < 20 ==> #[trigger] lines@[k + 1]@ == help_line(k),
            forall|k: int| 0 <= k < j ==> #[trigger] lines@[k + 21]@ == COMPOSER_HELP@[k]@,
        decreases 12 - j,
    {
        let ghost before = lines@;
        lines.push(COMPOSER_HELP[j].to_string());
        assert forall|k: int| 0 <= k < 20 implies #[trigger] lines@[k + 1]@ == help_line(k) by {
            assert(lines@[k + 1] == before[k + 1]);
        }
        assert forall|k: int| 0 <= k < j + 1 implies #[trigger] lines@[k + 21]@
            == COMPOSER_HELP@[k]@ by {
            if k < j {
                assert(lines@[k + 21] == before[k + 21]);
            }
        }
        j = j + 1;
    }
    assert forall|k: int| 0 <= k < 33 implies #[trigger] text::texts(lines@)[k] == help_rows()[k] by {
        if k == 0 {
        } else if k < 21 {
            assert(lines@[(k - 1) + 1]@ == help_line(k - 1));
        } else {
            assert(lines@[(k - 21) + 21]@ == COMPOSER_HELP@[k - 21]@);
        }
    }
    assert(text::texts(lines@) =~= help_rows());
    join_texts(&lines, "\n")
}

// ---------------------------------------------------------------------------
// Laws
// ---------------------------------------------------------------------------

/// The help text names every command of the table.
pub proof fn law_help_lists_every_command(i: int)
    requires
        0 <= i < 20,
    ensures
        help_rows()[i + 1] == help_line(i),
        begins_with(help_line(i), "  /"@ + SLASH_COMMAND_NAMES@[i]@),
{
    let head = "  /"@ + SLASH_COMMAND_NAMES@[i]@;
    assert(help_line(i).subrange(0, head.len() as int) =~= head);
}

/// The menu only offers commands that the text may still become.
pub proof fn law_the_menu_offers_matching_commands(typed: Seq<char>, i: int)
    requires
        0 <= i < command_menu(typed).len(),
    ensures
        begins_with(command_menu(typed)[i], text::ascii_lowered(typed.skip(1))),
{
    lemma_with_prefix(command_names(), text::ascii_lowered(typed.skip(1)), i);
}

proof fn lemma_with_prefix(names: Seq<Seq<char>>, prefix: Seq<char>, i: int)
    requires
        0 <= i < with_prefix(names, prefix).len(),
    ensures
        begins_with(with_prefix(names, prefix)[i], prefix),
    decreases names.len(),
{
    if names.len() > 0 {
        if i < with_prefix(names.drop_last(), prefix).len() {
            lemma_with_prefix(names.drop_last(), prefix, i);
        }
    }
}

/// A slash and a name make a command, in any case of its letters and with white
/// space around it; what follows the name behind white space are its arguments.
pub proof fn law_a_slash_and_a_name_make_a_command(name: Seq<char>, rest: Seq<char>)
    requires
        name.len() > 0,
        forall|i: int|
            0 <= i < name.len() ==> ('a' <= #[trigger] name[i] <= 'z' || 'A' <= name[i] <= 'Z'
                || name[i] == '-'),
        rest.len() > 0 ==> text::is_space(rest[0]) && !text::is_space(rest.last()),
    ensures
        parsed_command(seq!['/'] + name + rest) == Some(
            (text::ascii_lowered(name), text::trimmed(rest)),
        ),
{
    let s = seq!['/'] + name + rest;
    lemma_name_run(name, rest);
    assert(s.skip(1) =~= name + rest);
    assert((name + rest).take(name.len() as int) =~= name);
    assert((name + rest).skip(name.len() as int) =~= rest);
    assert(s[0] == '/');
    assert(s.last() == if rest.len() > 0 {
        rest.last()
    } else {
        name.last()
    });
    assert(name.last() == name[name.len() - 1]);
    assert(s =~= Seq::<char>::empty() + s + Seq::<char>::empty());
    text::law_trimming_gives_the_middle(Seq::empty(), s, Seq::empty());
}

proof fn lemma_name_run(name: Seq<char>, rest: Seq<char>)
    requires
        forall|i: int| 0 <= i < name.len() ==> is_name_char(#[trigger] name[i]),
        rest.len() > 0 ==> text::is_space(rest[0]),
    ensures
        name_run(name + rest) == name.len(),
    decreases name.len(),
{
    let s = name + rest;
    if name.len() > 0 {
        assert(s[0] == name[0]);
        assert(s.skip(1) =~= name.skip(1) + rest);
        lemma_name_run(name.skip(1), rest);
    } else {
        assert(s =~= rest);
    }
}

/// A text that does not begin with a slash is no command, whatever it says, and
/// neither is a slash before anything but a name.
pub proof fn law_other_texts_are_no_commands(s: Seq<char>)
    requires
        s.len() > 0,
        !text::is_space(s[0]),
        !text::is_space(s.last()),
    ensures
        s[0] != '/' ==> parsed_command(s) is None,
        s.len() == 1 ==> parsed_command(s) is None,
        s.len() > 1 && !is_name_char(s[1]) ==> parsed_command(s) is None,
{
    assert(s =~= Seq::<char>::empty() + s + Seq::<char>::empty());
    text::law_trimming_gives_the_middle(Seq::empty(), s, Seq::empty());
    if s.len() > 1 {
        assert(s.skip(1)[0] == s[1]);
    }
}

/// The menu offers every command that begins with what was typed, in the order
/// of the table, and no other.
pub proof fn law_the_menu_offers_every_match(prefix: Seq<char>)
    requires
        forall|i: int| 0 <= i < prefix.len() ==> !text::is_space(#[trigger] prefix[i]),
    ensures
        command_menu(seq!['/'] + prefix) == command_names().filter(
            |name: Seq<char>| text::ascii_lowered(prefix).is_prefix_of(name),
        ),
        command_menu(prefix).len() == 0 || prefix[0] == '/',
{
    let typed = seq!['/'] + prefix;
    assert(typed.skip(1) =~= prefix);
    if has_space(typed) {
        let i = choose|i: int| 0 <= i < typed.len() && text::is_space(#[trigger] typed[i]);
        if i > 0 {
            assert(typed[i] == prefix[i - 1]);
        }
    }
    lemma_with_prefix_is_filter(command_names(), text::ascii_lowered(prefix));
}

proof fn lemma_with_prefix_is_filter(names: Seq<Seq<char>>, prefix: Seq<char>)
    ensures
        with_prefix(names, prefix) == names.filter(
            |name: Seq<char>| prefix.is_prefix_of(name),
        ),
    decreases names.len(),
{
    reveal(Seq::filter);
    if names.len() > 0 {
        lemma_with_prefix_is_filter(names.drop_last(), prefix);
        let name = names.last();
        if begins_with(name, prefix) {
            assert(prefix =~= name.take(prefix.len() as int));
        }
        if prefix.is_prefix_of(name) {
            assert(name.subrange(0, prefix.len() as int) =~= prefix);
        }
    } else {
        assert(with_prefix(names, prefix) =~= names.filter(
            |name: Seq<char>| prefix.is_prefix_of(name),
        ));
    }
}

/// The help line of a command is its name, its arguments where it takes any,
/// and what it does.
pub proof fn law_a_help_line_tells_the_command(i: int)
    requires
        0 <= i < 20,
    ensures
        ({
            let name = SLASH_COMMAND_NAMES@[i]@;
            let args = SLASH_COMMAND_ARGS@[i]@;
            let does = SLASH_COMMAND_DESCRIPTIONS@[i]@;
            &&& args.len() == 0 ==> help_line(i) == "  /"@ + name + " — "@ + does
            &&& args.len() > 0 ==> help_line(i) == "  /"@ + name + " "@ + args + " — "@ + does
            &&& command_names()[i] == name
        }),
        command_names().len() == 20,
        help_rows()[0] == "commands:"@,
        help_rows().len() == 33,
{
}

/// The commands of the session, in the order in which they are listed.
pub proof fn law_these_are_the_commands()
    ensures
        command_names() == seq![
            "help"@,
            "model"@,
            "toolmodel"@,
            "prompt"@,
            "new"@,
            "resume"@,
            "sessions"@,
            "rename"@,
            "state"@,
            "jobs"@,
            "skills"@,
            "skill"@,
            "mcp"@,
            "marketplace"@,
            "plugin"@,
            "roles"@,
            "config"@,
            "env"@,
            "praeparare"@,
            "quit"@,
        ],
{
    assert(command_names() =~= seq![
        "help"@,
        "model"@,
        "toolmodel"@,
        "prompt"@,
        "new"@,
        "resume"@,
        "sessions"@,
        "rename"@,
        "state"@,
        "jobs"@,
        "skills"@,
        "skill"@,
        "mcp"@,
        "marketplace"@,
        "plugin"@,
        "roles"@,
        "config"@,
        "env"@,
        "praeparare"@,
        "quit"@,
    ]);
}

/// The help tells the keys and shorthands of the composer behind the commands.
pub proof fn law_the_help_tells_the_composers_keys()
    ensures
        help_rows()[21]
            == ""@,
        help_rows()[22]
            == "composer:"@,
        help_rows()[23]
            == "  /<skill-name> \u{2014} enable a discovered skill for this session (idempotent; /skill <name> toggles)"@,
        help_rows()[24]
            == "  /praeparare \u{2014} pre-PR pass: clean up, commit, merge the base branch, push, open a DRAFT PR"@,
        help_rows()[25]
            == "  typing /<prefix> lists matching skills above the input; up/down select, tab completes, esc clears the line"@,
        help_rows()[26]
            == "  @path or @path#12:40 \u{2014} inline a file (or directory tree) into the goal"@,
        help_rows()[27]
            == "  ctrl+v \u{2014} attach the clipboard image; pasting an image path or data URL also attaches"@,
        help_rows()[28]
            == "  while a goal runs \u{2014} enter queues the message for the next run (the queue is listed above the input); ctrl+s steers the running goal with what you typed, or with the whole queue when the input is empty "@,
        help_rows()[29]
            == "  /rename [name] \u{2014} rename this session (also while a goal runs; applies immediately instead of queuing)"@,
        help_rows()[30]
            == "  /jobs (or ctrl+b) \u{2014} browse the background monitors and async shells; the status bar counts them while they run"@,
        help_rows()[31]
            == "  esc \u{2014} clear the composer, or stop the running goal and its commands"@,
        help_rows()[32]
            == "  ctrl+c \u{2014} exit"@,
{
}

} // verus!
